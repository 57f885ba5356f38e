//! The code with which a process ends.
use vstd::prelude::*;

verus! {

/// The code of success.
pub const SUCCESS: u8 = 0;

/// The code of failure.
pub const FAILURE: u8 = 1;

/// The lowest eight bits of a number.
pub open spec fn low_byte(n: int) -> int {
    n % 256
}

fn to_low_byte(n: i32) -> (r: u8)
    ensures
        r == low_byte(n as int),
{
    let wide: u64 = (n as i64 + 0x1_0000_0000) as u64;
    (wide % 256) as u8
}

/// The code after a signal: its number and 128, in eight bits.
pub fn signal_code(signal: i32) -> (r: u8)
    ensures
        r == low_byte(signal + 128),
{
    let code: i32 = signal.wrapping_add(128);
    to_low_byte(code)
}

/// The code of a process that was waited for.
pub open spec fn waited_code(status: Option<Option<i32>>) -> int {
    match status {
        None => FAILURE as int,
        Some(None) => 0,
        Some(Some(code)) => low_byte(code as int),
    }
}

/// The code of a process that was waited for: none where waiting failed, and
/// within, none where it was ended from outside.
pub fn child_code(status: Option<Option<i32>>) -> (r: u8)
    ensures
        r == waited_code(status),
{
    match status {
        None => FAILURE,
        Some(None) => 0,
        Some(Some(code)) => to_low_byte(code),
    }
}

/// The code of two processes that ended together.
pub open spec fn code_of_both(ctrl_code: u8, host_code: u8) -> u8 {
    if ctrl_code != SUCCESS {
        ctrl_code
    } else {
        host_code
    }
}

/// The code of the host: that of its controller, unless it ended well.
pub fn preferred_code(ctrl_code: u8, host_code: u8) -> (r: u8)
    ensures
        r == code_of_both(ctrl_code, host_code),
{
    if ctrl_code != SUCCESS {
        ctrl_code
    } else {
        host_code
    }
}

/// The code after the end of a connection.
pub fn stop_code(ok: bool) -> (r: u8)
    ensures
        r == (if ok {
            SUCCESS
        } else {
            FAILURE
        }),
{
    if ok {
        SUCCESS
    } else {
        FAILURE
    }
}

/// The host ends well only where both it and its controller do.
pub proof fn law_success_needs_both(ctrl_code: u8, host_code: u8)
    ensures
        code_of_both(ctrl_code, host_code) == SUCCESS <==> ctrl_code == SUCCESS && host_code
            == SUCCESS,
{
}

/// Where the controller failed its code is the one that counts; where it ended well,
/// that of the host.
pub proof fn law_controller_comes_first(ctrl_code: u8, host_code: u8)
    ensures
        ctrl_code != 0 ==> code_of_both(ctrl_code, host_code) == ctrl_code,
        code_of_both(0, host_code) == host_code,
{
}

/// A process that gave a code that fits in eight bits has that code; others go
/// round. One that could not be waited for failed, and one that was ended from
/// outside did not.
pub proof fn law_code_of_a_process(code: i32)
    ensures
        0 <= code < 256 ==> waited_code(Some(Some(code))) == code,
        waited_code(Some(Some(code))) == code % 256,
        0 <= waited_code(Some(Some(code))) < 256,
        waited_code(None) == 1,
        waited_code(Some(None)) == 0,
{
}

/// No signal of the usual numbers is taken for success.
pub proof fn law_signals_are_no_success(signal: int)
    requires
        1 <= signal < 128,
    ensures
        low_byte(signal + 128) == signal + 128,
        low_byte(signal + 128) != SUCCESS,
{
}

} // verus!
