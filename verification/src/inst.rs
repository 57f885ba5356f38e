//! The processes inside the terminals: how they are started and what they do.
use vstd::prelude::*;
use crate::strs::{dec, is_text, owned, push_dec, texts};
use crate::tui::Sizes;

verus! {

/// The argument by which a process inside a terminal knows what it is.
pub const INTERNAL_INST_ARG: &'static str = "--internal-inst";

/// The same, for panels that are managed by one process.
pub const PANEL_PROC_ARG: &'static str = "internal-managed-terminal";

/// What a terminal is told.
#[derive(Debug)]
#[non_exhaustive]
pub enum TermUpdate {
    Print(Vec<u8>),
    Flush,
    RemoteControl(Vec<String>),
    Shell(String, Vec<String>),
}

/// A command to run: the program and its arguments.
#[derive(Debug)]
pub struct Command {
    pub program: String,
    pub args: Vec<String>,
}

/// What is done in a terminal.
#[derive(Debug)]
pub enum TermAct {
    Write(Vec<u8>),
    Flush,
    Run(Command),
    /// The terminal cannot be controlled from within.
    NoSocket,
}

/// Two lists, one behind the other.
fn append_all(first: Vec<String>, second: Vec<String>) -> (r: Vec<String>)
    ensures
        texts(r@) == texts(first@) + texts(second@),
{
    let ghost a = texts(first@);
    let ghost b = texts(second@);
    let mut out = first;
    let mut more = second;
    out.append(&mut more);
    proof {
        assert(texts(out@) =~= a + b);
    }
    out
}

/// Whether something does what a terminal is told.
pub open spec fn does(act: TermAct, update: TermUpdate, socket: Option<String>) -> bool {
    match update {
        TermUpdate::Print(bytes) => act == TermAct::Write(bytes),
        TermUpdate::Flush => act is Flush,
        TermUpdate::RemoteControl(args) => match socket {
            Some(socket) => act matches TermAct::Run(command) && command.program@ == "kitten"@
                && texts(command.args@) == seq!["@"@, "--to"@, socket@] + texts(args@),
            None => act is NoSocket,
        },
        TermUpdate::Shell(program, args) => act matches TermAct::Run(command) && command.program
            == program && command.args == args,
    }
}

/// What is to be printed is written as it is, a command of the shell is run as it is,
/// and a command for the terminal is handed to the tool that controls it, behind the
/// socket of that terminal. Without a socket it cannot be.
pub proof fn law_terminal_is_told(
    act: TermAct,
    bytes: Vec<u8>,
    program: String,
    args: Vec<String>,
    socket: Option<String>,
)
    ensures
        does(act, TermUpdate::Print(bytes), socket) ==> act == TermAct::Write(bytes),
        does(act, TermUpdate::Flush, socket) ==> act is Flush,
        does(act, TermUpdate::Shell(program, args), socket) ==> act == TermAct::Run(
            Command { program, args },
        ),
        socket is None && does(act, TermUpdate::RemoteControl(args), socket) ==> act is NoSocket,
        socket matches Some(path) ==> (does(act, TermUpdate::RemoteControl(args), socket) ==> (
        act matches TermAct::Run(command) && {
            let given = texts(command.args@);
            &&& command.program@ == "kitten"@
            &&& given.len() == args@.len() + 3
            &&& given[0] == "@"@ && given[1] == "--to"@ && given[2] == path@
            &&& given.skip(3) == texts(args@)
        })),
{
    if let (Some(path), TermAct::Run(command)) = (socket, act) {
        let given = seq!["@"@, "--to"@, path@] + texts(args@);
        assert(given.skip(3) =~= texts(args@));
    }
}

/// Does what a terminal is told. `socket` is where the terminal takes commands.
pub fn term_act(update: TermUpdate, socket: &Option<String>) -> (r: TermAct)
    ensures
        does(r, update, *socket),
{
    match update {
        TermUpdate::Print(bytes) => TermAct::Write(bytes),
        TermUpdate::Flush => TermAct::Flush,
        TermUpdate::RemoteControl(args) => match socket {
            Some(socket) => {
                let front = vec![owned("@"), owned("--to"), socket.clone()];
                proof {
                    assert(texts(front@) =~= seq!["@"@, "--to"@, socket@]);
                }
                TermAct::Run(
                    Command { program: "kitten".to_owned(), args: append_all(front, args) },
                )
            },
            None => TermAct::NoSocket,
        },
        TermUpdate::Shell(program, args) => TermAct::Run(Command { program, args }),
    }
}

/// The arguments that start a terminal as a panel, with a program inside.
pub open spec fn panel_args(extra: Seq<Seq<char>>, exe: Seq<char>, inst_arg: Seq<char>) -> Seq<
    Seq<char>,
> {
    seq!["panel"@] + extra + seq![exe, inst_arg]
}

/// The arguments of the panel come first, and behind them the program that runs in it
/// with the argument by which it knows what it is.
pub proof fn law_panel_runs_the_program(
    extra: Seq<Seq<char>>,
    exe: Seq<char>,
    inst_arg: Seq<char>,
)
    ensures
        ({
            let args = panel_args(extra, exe, inst_arg);
            &&& args.len() == extra.len() + 3
            &&& args[0] == "panel"@
            &&& args.subrange(1, args.len() - 2) == extra
            &&& args[args.len() - 2] == exe
            &&& args.last() == inst_arg
        }),
{
    let args = panel_args(extra, exe, inst_arg);
    assert(args.subrange(1, args.len() - 2) =~= extra);
}

/// The command that starts a terminal as a panel, with this program inside.
pub fn panel_command(extra_args: Vec<String>, exe: &String, inst_arg: &str) -> (r: Command)
    ensures
        r.program@ == "kitten"@,
        texts(r.args@) == panel_args(texts(extra_args@), exe@, inst_arg@),
{
    let front = vec![owned("panel")];
    let back = vec![exe.clone(), owned(inst_arg)];
    proof {
        assert(texts(front@) =~= seq!["panel"@]);
        assert(texts(back@) =~= seq![exe@, inst_arg@]);
    }
    Command {
        program: "kitten".to_owned(),
        args: append_all(append_all(front, extra_args), back),
    }
}

/// The name under which the process number `count` logs.
pub open spec fn inst_log_name(count: u64, log_name: Seq<char>) -> Seq<char> {
    "(T"@ + dec(count as nat) + ")"@ + log_name
}

pub fn mk_inst_log_name(count: u64, log_name: &str) -> (r: String)
    ensures
        r@ == inst_log_name(count, log_name@),
{
    let mut out: String = "(T".to_owned();
    push_dec(&mut out, count);
    out.push_str(")");
    out.push_str(log_name);
    out
}

/// The name of a process begins with its number and ends with what it is called by.
pub proof fn law_log_name_holds_the_number(count: u64, log_name: Seq<char>)
    ensures
        inst_log_name(count, log_name) == "(T"@ + dec(count as nat) + ")"@ + log_name,
        inst_log_name(count, log_name).skip(
            inst_log_name(count, log_name).len() - log_name.len(),
        ) == log_name,
{
    let name = inst_log_name(count, log_name);
    assert(name.skip(name.len() - log_name.len()) =~= log_name);
}

/// The next number. After the last one the count starts over.
pub open spec fn next_count(count: u64) -> u64 {
    if count == u64::MAX {
        0
    } else {
        (count + 1) as u64
    }
}

/// Counts the processes that were started.
pub fn get_log_inst_counter(counter: &mut u64) -> (r: u64)
    ensures
        r == *old(counter),
        *final(counter) == next_count(*old(counter)),
{
    let count: u64 = *counter;
    *counter = count.wrapping_add(1);
    count
}

/// The results of that many calls in a row, and the counter behind them.
pub open spec fn counts(start: u64, calls: nat) -> (Seq<u64>, u64)
    decreases calls,
{
    if calls == 0 {
        (Seq::empty(), start)
    } else {
        let (results, counter) = counts(start, (calls - 1) as nat);
        (results.push(counter), next_count(counter))
    }
}

/// A counter that starts with zero gives zero, one, two and so on, each once, as long
/// as it does not start over.
pub proof fn law_counts_follow(calls: nat)
    requires
        calls <= u64::MAX + 1,
    ensures
        counts(0, calls).0.len() == calls,
        forall|i: int| 0 <= i < calls ==> #[trigger] counts(0, calls).0[i] == i,
        counts(0, calls).1 == (if calls == u64::MAX + 1 {
            0
        } else {
            calls as u64
        }),
    decreases calls,
{
    if calls > 0 {
        law_counts_follow((calls - 1) as nat);
    }
}

/// What a terminal reports first. A size of zero means that it is hidden, which
/// it must not be at the start.
pub fn first_report(sizes: Option<Sizes>) -> (r: Result<Sizes, ()>)
    ensures
        match sizes {
            Some(sizes) => r == Ok::<Sizes, ()>(sizes),
            None => r is Err,
        },
{
    match sizes {
        Some(sizes) => Ok(sizes),
        None => Err(()),
    }
}

/// What is sent on for an event of the terminal: after a change of its size, the
/// sizes, unless they could not be found or are zero. The event itself always
/// follows.
pub fn sizes_to_report(is_resize: bool, queried: Result<Option<Sizes>, ()>) -> (r: Option<Sizes>)
    ensures
        r == (match queried {
            Ok(Some(sizes)) if is_resize => Some(sizes),
            _ => None,
        }),
{
    match queried {
        Ok(Some(sizes)) => if is_resize {
            Some(sizes)
        } else {
            None
        },
        _ => None,
    }
}

/// What a terminal that should have ended is met with.
#[derive(Clone, Copy, Debug, PartialEq, Eq, Structural)]
pub enum EndAct {
    Nothing,
    /// It ended, but not well.
    LogStatus,
    /// It did not end in time, or nothing is known of it.
    Kill,
}

/// What to do about a terminal: `status` says whether it ended well, if it ended.
pub fn end_act(status: Option<bool>) -> (r: EndAct)
    ensures
        r == (match status {
            Some(true) => EndAct::Nothing,
            Some(false) => EndAct::LogStatus,
            None => EndAct::Kill,
        }),
{
    match status {
        Some(success) => if success {
            EndAct::Nothing
        } else {
            EndAct::LogStatus
        },
        None => EndAct::Kill,
    }
}

/// What a process was started as.
#[derive(Clone, Copy, Debug, PartialEq, Eq, Structural)]
pub enum Mode {
    Host,
    /// Inside a terminal.
    Inst,
}

/// What the program is, by its first argument.
pub fn bin_mode(first_arg: &Option<String>) -> (r: Mode)
    ensures
        r == (if first_arg matches Some(arg) && arg@ == INTERNAL_INST_ARG@ {
            Mode::Inst
        } else {
            Mode::Host
        }),
{
    match first_arg {
        Some(arg) => if is_text(arg, INTERNAL_INST_ARG) {
            Mode::Inst
        } else {
            Mode::Host
        },
        None => Mode::Host,
    }
}

/// What a process of the panel manager was started as.
#[derive(Clone, Copy, Debug, PartialEq, Eq, Structural)]
pub enum PanelMode {
    Controller,
    Panel,
    BadArguments,
}

/// What the panel manager is, by its first argument.
pub fn panel_mode(first_arg: &Option<String>) -> (r: PanelMode)
    ensures
        r == (match *first_arg {
            None => PanelMode::Controller,
            Some(arg) => if arg@ == PANEL_PROC_ARG@ {
                PanelMode::Panel
            } else {
                PanelMode::BadArguments
            },
        }),
{
    match first_arg {
        None => PanelMode::Controller,
        Some(arg) => if is_text(arg, PANEL_PROC_ARG) {
            PanelMode::Panel
        } else {
            PanelMode::BadArguments
        },
    }
}

/// What a process with panels of its own was started as.
#[derive(Clone, Copy, Debug, PartialEq, Eq, Structural)]
pub enum ProcMode {
    Controller,
    BarPanel,
    MenuPanel,
    /// A panel of no kind.
    MissingMode,
    BadArguments,
}

/// What a process with panels of its own is, by its first two arguments.
pub open spec fn proc_mode_of(first_arg: Option<String>, second_arg: Option<String>) -> ProcMode {
    match first_arg {
        None => ProcMode::Controller,
        Some(arg) => if arg@ == "internal"@ {
            match second_arg {
                None => ProcMode::MissingMode,
                Some(mode) => if mode@ == "bar"@ {
                    ProcMode::BarPanel
                } else if mode@ == "menu"@ {
                    ProcMode::MenuPanel
                } else {
                    ProcMode::BadArguments
                },
            }
        } else {
            ProcMode::BadArguments
        },
    }
}

/// A process without arguments is the controller. One with the argument of a panel is
/// the panel that its second argument names, and there are two of these; no other
/// arguments mean anything.
pub proof fn law_arguments_say_what_a_process_is(
    first_arg: Option<String>,
    second_arg: Option<String>,
)
    ensures
        ({
            let mode = proc_mode_of(first_arg, second_arg);
            let panel = first_arg matches Some(arg) && arg@ == "internal"@;
            &&& mode == ProcMode::Controller <==> first_arg is None
            &&& mode == ProcMode::BarPanel <==> panel && (second_arg matches Some(arg) && arg@
                == "bar"@)
            &&& mode == ProcMode::MenuPanel <==> panel && (second_arg matches Some(arg) && arg@
                == "menu"@)
            &&& mode == ProcMode::MissingMode <==> panel && second_arg is None
        }),
{
    reveal_strlit("bar");
    reveal_strlit("menu");
    assert("bar"@.len() == 3 && "menu"@.len() == 4);
}

/// What the program is, by its first two arguments.
pub fn proc_mode(first_arg: &Option<String>, second_arg: &Option<String>) -> (r: ProcMode)
    ensures
        r == proc_mode_of(*first_arg, *second_arg),
{
    match first_arg {
        None => ProcMode::Controller,
        Some(arg) => if is_text(arg, "internal") {
            match second_arg {
                None => ProcMode::MissingMode,
                Some(mode) => if is_text(mode, "bar") {
                    ProcMode::BarPanel
                } else if is_text(mode, "menu") {
                    ProcMode::MenuPanel
                } else {
                    ProcMode::BadArguments
                },
            }
        } else {
            ProcMode::BadArguments
        },
    }
}

} // verus!
