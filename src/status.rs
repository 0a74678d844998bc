//! The tracee's wait status, what it says about the tracee, and the decisions
//! that single stepping and range stepping take from it.

use vstd::prelude::*;

verus! {

/// Relies on libc's `WIFEXITED`: the low seven bits of the status are zero.
pub assume_specification[ libc::WIFEXITED ](status: libc::c_int) -> (r: bool)
    ensures
        r == (status & 0x7f == 0),
;

/// Relies on libc's `WEXITSTATUS`: bits 8 to 15 of the status.
pub assume_specification[ libc::WEXITSTATUS ](status: libc::c_int) -> (r: libc::c_int)
    ensures
        r == (status >> 8) & 0xff,
;

/// Relies on libc's `WIFSIGNALED`: the low seven bits hold a value from 1 to
/// 126 (`((status & 0x7f) + 1) as i8 >= 2`).
pub assume_specification[ libc::WIFSIGNALED ](status: libc::c_int) -> (r: bool)
    ensures
        r == (1 <= status & 0x7f && status & 0x7f <= 0x7e),
;

/// Relies on libc's `WTERMSIG`: the low seven bits of the status.
pub assume_specification[ libc::WTERMSIG ](status: libc::c_int) -> (r: libc::c_int)
    ensures
        r == status & 0x7f,
;

/// Relies on libc's `WIFSTOPPED`: the low byte of the status is `0x7f`.
pub assume_specification[ libc::WIFSTOPPED ](status: libc::c_int) -> (r: bool)
    ensures
        r == (status & 0xff == 0x7f),
;

/// Relies on libc's `WSTOPSIG`: bits 8 to 15 of the status.
pub assume_specification[ libc::WSTOPSIG ](status: libc::c_int) -> (r: libc::c_int)
    ensures
        r == (status >> 8) & 0xff,
;

/// `SIGTRAP` in the host's numbering (Linux).
pub const NATIVE_SIGTRAP: u8 = 5;

/// `SIGTRAP` in GDB's signal numbering.
pub const GDB_SIGTRAP: u8 = 5;

/// `SIGTERM` in GDB's signal numbering.
pub const GDB_SIGTERM: u8 = 15;

/// Why the tracee is not running.
#[derive(Clone, Copy, Debug, PartialEq, Eq, Structural)]
pub enum StopReason {
    /// It exited normally: pid and exit code.
    Exited(u32, u8),
    /// A signal killed it: pid and signal.
    ExitedWithSignal(u32, u8),
    /// It stopped with a signal and can be resumed.
    Signal(u8),
}

/// What a wait status says of the tracee `pid`, in the host's signal
/// numbering; `None` for a status of any other shape.
pub open spec fn native_stop_reason(pid: u32, status: i32) -> Option<StopReason> {
    if status & 0x7f == 0 {
        Some(StopReason::Exited(pid, ((status >> 8) & 0xff) as u8))
    } else if 1 <= status & 0x7f && status & 0x7f <= 0x7e {
        Some(StopReason::ExitedWithSignal(pid, (status & 0x7f) as u8))
    } else if status & 0xff == 0x7f {
        Some(StopReason::Signal(((status >> 8) & 0xff) as u8))
    } else {
        None
    }
}

/// Reads a wait status of the tracee `pid`.
pub fn stop_reason(pid: u32, status: i32) -> (r: Option<StopReason>)
    ensures
        r == native_stop_reason(pid, status),
{
    if libc::WIFEXITED(status) {
        Some(StopReason::Exited(pid, libc::WEXITSTATUS(status) as u8))
    } else if libc::WIFSIGNALED(status) {
        Some(StopReason::ExitedWithSignal(pid, libc::WTERMSIG(status) as u8))
    } else if libc::WIFSTOPPED(status) {
        Some(StopReason::Signal(libc::WSTOPSIG(status) as u8))
    } else {
        None
    }
}

/// The host signal that a stop reason carries, which is to be looked up in
/// GDB's numbering.
pub open spec fn carried_signal(reason: StopReason) -> Option<u8> {
    match reason {
        StopReason::Exited(_, _) => None,
        StopReason::ExitedWithSignal(_, sig) => Some(sig),
        StopReason::Signal(sig) => Some(sig),
    }
}

/// Returns the host signal that `reason` carries, if any.
pub fn signal_of(reason: StopReason) -> (r: Option<u8>)
    ensures
        r == carried_signal(reason),
{
    match reason {
        StopReason::Exited(_, _) => None,
        StopReason::ExitedWithSignal(_, sig) => Some(sig),
        StopReason::Signal(sig) => Some(sig),
    }
}

/// A stop reason in GDB's numbering, given `gdb_signal`, the GDB number of
/// the signal it carries (`None` where the signal has none).
pub open spec fn gdb_reason(native: StopReason, gdb_signal: Option<u8>) -> StopReason {
    match native {
        StopReason::Exited(pid, code) => StopReason::Exited(pid, code),
        StopReason::ExitedWithSignal(pid, _) => StopReason::ExitedWithSignal(
            pid,
            match gdb_signal {
                Some(sig) => sig,
                None => GDB_SIGTERM,
            },
        ),
        StopReason::Signal(_) => StopReason::Signal(
            match gdb_signal {
                Some(sig) => sig,
                None => GDB_SIGTRAP,
            },
        ),
    }
}

/// Turns a stop reason into GDB's signal numbering. `gdb_signal` is the GDB
/// number of the signal that `native` carries; where there is none, a stop
/// reads as `SIGTRAP` and a death by signal as `SIGTERM`.
pub fn to_gdb_reason(native: StopReason, gdb_signal: Option<u8>) -> (r: StopReason)
    ensures
        r == gdb_reason(native, gdb_signal),
{
    match native {
        StopReason::Exited(pid, code) => StopReason::Exited(pid, code),
        StopReason::ExitedWithSignal(pid, _) => StopReason::ExitedWithSignal(
            pid,
            match gdb_signal {
                Some(sig) => sig,
                None => GDB_SIGTERM,
            },
        ),
        StopReason::Signal(_) => StopReason::Signal(
            match gdb_signal {
                Some(sig) => sig,
                None => GDB_SIGTRAP,
            },
        ),
    }
}

/// Whether a single step landed cleanly: the tracee stopped with `SIGTRAP`.
/// Only then is its instruction pointer read back.
pub fn step_landed(status: i32) -> (r: bool)
    ensures
        r == (status & 0xff == 0x7f && (status >> 8) & 0xff == NATIVE_SIGTRAP),
{
    libc::WIFSTOPPED(status) && libc::WSTOPSIG(status) == NATIVE_SIGTRAP as i32
}

/// Whether range stepping over `[start, end)` ends after a step that returned
/// `rip`: when the step did not land cleanly (`None`) or the instruction
/// pointer left the range. Range stepping steps again exactly when this is
/// false, so it ends with the tracee out of the range or no longer stepping.
pub fn range_step_done(rip: Option<u64>, start: u64, end: u64) -> (r: bool)
    ensures
        r == match rip {
            None => true,
            Some(ip) => !(start <= ip && ip < end),
        },
{
    match rip {
        None => true,
        Some(ip) => !(start <= ip && ip < end),
    }
}

} // verus!
