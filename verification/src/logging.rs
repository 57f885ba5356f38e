//! The lines of the log.
use vstd::prelude::*;
use crate::strs::{dec, is_text, push_dec};

verus! {

/// Whether the log is colored: what the variable says, or else whether a
/// terminal shows it.
pub open spec fn wants_color(var: Option<Seq<char>>, is_terminal: bool) -> bool {
    match var {
        Some(value) => if value == "never"@ || value == "no"@ || value == "off"@ || value
            == "false"@ {
            false
        } else if value == "always"@ || value == "yes"@ || value == "on"@ || value == "true"@ {
            true
        } else {
            is_terminal
        },
        None => is_terminal,
    }
}

pub fn use_color(var: &Option<String>, is_terminal: bool) -> (r: bool)
    ensures
        r == wants_color(
            match *var {
                Some(value) => Some(value@),
                None => None,
            },
            is_terminal,
        ),
{
    match var {
        Some(value) => if is_text(value, "never") || is_text(value, "no") || is_text(value, "off")
            || is_text(value, "false") {
            false
        } else if is_text(value, "always") || is_text(value, "yes") || is_text(value, "on")
            || is_text(value, "true") {
            true
        } else {
            is_terminal
        },
        None => is_terminal,
    }
}

/// One entry of the log. The level comes as it is to be printed.
#[derive(Debug)]
pub struct LogRecord {
    pub now: String,
    pub level: String,
    pub file: Option<String>,
    pub line: Option<u32>,
    pub message: String,
}

/// A line of the log.
pub open spec fn log_line(
    record: LogRecord,
    color: bool,
    proc_name: Option<Seq<char>>,
    pid: u32,
) -> Seq<char> {
    "["@ + (if color {
        "\x1b[35m"@ + record.now@ + "\x1b[0m"@
    } else {
        record.now@
    }) + "] "@ + (match proc_name {
        Some(name) => name,
        None => "UNKNOWN"@,
    }) + " ("@ + dec(pid as nat) + ") "@ + record.level@ + " ["@ + (match record.file {
        Some(file) => file@,
        None => "<unknown>"@,
    }) + ":"@ + (match record.line {
        Some(line) => dec(line as nat),
        None => "?"@,
    }) + "] "@ + record.message@
}

pub fn format_log(record: &LogRecord, color: bool, proc_name: &Option<String>, pid: u32) -> (r:
    String)
    ensures
        r@ == log_line(
            *record,
            color,
            match *proc_name {
                Some(name) => Some(name@),
                None => None,
            },
            pid,
        ),
{
    let mut out: String = "[".to_owned();
    if color {
        let mut now: String = "\x1b[35m".to_owned();
        now.push_str(&record.now);
        now.push_str("\x1b[0m");
        out.push_str(&now);
    } else {
        out.push_str(&record.now);
    }
    out.push_str("] ");
    match proc_name {
        Some(name) => {
            out.push_str(name);
        },
        None => {
            out.push_str("UNKNOWN");
        },
    }
    out.push_str(" (");
    push_dec(&mut out, pid as u64);
    out.push_str(") ");
    out.push_str(&record.level);
    out.push_str(" [");
    match &record.file {
        Some(file) => {
            out.push_str(file);
        },
        None => {
            out.push_str("<unknown>");
        },
    }
    out.push_str(":");
    match record.line {
        Some(line) => {
            push_dec(&mut out, line as u64);
        },
        None => {
            out.push_str("?");
        },
    }
    out.push_str("] ");
    out.push_str(&record.message);
    out
}

/// A variable that says no or yes decides whether the log is colored; any other value,
/// and none at all, leave it to whether a terminal shows it.
pub proof fn law_variable_decides_on_color(value: Seq<char>, is_terminal: bool)
    ensures
        value == "never"@ || value == "no"@ || value == "off"@ || value == "false"@
            ==> !wants_color(Some(value), is_terminal),
        value == "always"@ || value == "yes"@ || value == "on"@ || value == "true"@ ==> wants_color(
            Some(value),
            is_terminal,
        ),
        !wants_color(Some(value), true) ==> value == "never"@ || value == "no"@ || value == "off"@
            || value == "false"@,
        wants_color(Some(value), false) ==> value == "always"@ || value == "yes"@ || value == "on"@
            || value == "true"@,
        wants_color(None, is_terminal) == is_terminal,
{
    reveal_strlit("never");
    reveal_strlit("no");
    reveal_strlit("off");
    reveal_strlit("false");
    reveal_strlit("always");
    reveal_strlit("yes");
    reveal_strlit("on");
    reveal_strlit("true");
    assert("never"@[0] == 'n' && "no"@[0] == 'n' && "off"@[0] == 'o' && "false"@[0] == 'f');
    assert("always"@[0] == 'a' && "yes"@[0] == 'y' && "on"@[0] == 'o' && "true"@[0] == 't');
    assert("never"@.len() == 5 && "no"@.len() == 2 && "off"@.len() == 3 && "false"@.len() == 5);
    assert("always"@.len() == 6 && "yes"@.len() == 3 && "on"@.len() == 2 && "true"@.len() == 4);
}

/// A line of the log holds the time, the process with its number, the level, the place
/// and the message, in this order.
pub proof fn law_line_holds_the_record(
    record: LogRecord,
    name: Seq<char>,
    pid: u32,
    file: String,
    line: u32,
)
    requires
        record.file == Some(file),
        record.line == Some(line),
    ensures
        log_line(record, false, Some(name), pid) == "["@ + record.now@ + "] "@ + name + " ("@ + dec(
            pid as nat,
        ) + ") "@ + record.level@ + " ["@ + file@ + ":"@ + dec(line as nat) + "] "@
            + record.message@,
{
}

/// Color changes the time and nothing else. What is not known is named as such: a
/// process without a name is shown like one of the name `UNKNOWN`, and a place that is
/// not known by `<unknown>` and a question mark.
pub proof fn law_line_names_what_is_unknown(record: LogRecord, pid: u32, color: bool)
    ensures
        log_line(record, color, None, pid) == log_line(record, color, Some("UNKNOWN"@), pid),
        color ==> forall|now: String|
            now@ == "\x1b[35m"@ + record.now@ + "\x1b[0m"@ ==> log_line(
                record,
                true,
                None,
                pid,
            ) == log_line(LogRecord { now, ..record }, false, None, pid),
        record.file is None ==> forall|file: String|
            file@ == "<unknown>"@ ==> log_line(record, color, None, pid) == log_line(
                LogRecord { file: Some(file), ..record },
                color,
                None,
                pid,
            ),
        record.file is None && record.line is None && !color ==> log_line(record, color, None, pid)
            == "["@ + record.now@ + "] "@ + "UNKNOWN"@ + " ("@ + dec(pid as nat) + ") "@
            + record.level@ + " ["@ + "<unknown>"@ + ":"@ + "?"@ + "] "@ + record.message@,
{
}

} // verus!
