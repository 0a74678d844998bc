use gdbserver::status::{
    range_step_done, signal_of, step_landed, stop_reason, to_gdb_reason, StopReason, GDB_SIGTERM,
    GDB_SIGTRAP,
};

#[test]
fn status_exited_with_code() {
    assert_eq!(stop_reason(77, 0), Some(StopReason::Exited(77, 0)));
    assert_eq!(stop_reason(77, 0x0300), Some(StopReason::Exited(77, 3)));
}

#[test]
fn status_killed_by_signal() {
    assert_eq!(stop_reason(12, 9), Some(StopReason::ExitedWithSignal(12, 9)));
    assert_eq!(stop_reason(12, 0x80 | 11), Some(StopReason::ExitedWithSignal(12, 11)));
}

#[test]
fn status_stopped_by_signal() {
    assert_eq!(stop_reason(5, 0x057f), Some(StopReason::Signal(5)));
    assert_eq!(stop_reason(5, 0x137f), Some(StopReason::Signal(19)));
}

#[test]
fn status_of_unknown_shape() {
    assert_eq!(stop_reason(5, 0xffff), None);
}

#[test]
fn gdb_reason_uses_gdb_numbering() {
    assert_eq!(to_gdb_reason(StopReason::Signal(19), Some(17)), StopReason::Signal(17));
    assert_eq!(
        to_gdb_reason(StopReason::ExitedWithSignal(3, 9), Some(9)),
        StopReason::ExitedWithSignal(3, 9)
    );
}

#[test]
fn gdb_reason_falls_back() {
    assert_eq!(to_gdb_reason(StopReason::Signal(64), None), StopReason::Signal(GDB_SIGTRAP));
    assert_eq!(
        to_gdb_reason(StopReason::ExitedWithSignal(3, 64), None),
        StopReason::ExitedWithSignal(3, GDB_SIGTERM)
    );
    assert_eq!(GDB_SIGTRAP, 5);
    assert_eq!(GDB_SIGTERM, 15);
}

#[test]
fn gdb_reason_keeps_exit() {
    assert_eq!(to_gdb_reason(StopReason::Exited(4, 2), Some(1)), StopReason::Exited(4, 2));
}

#[test]
fn carried_signals() {
    assert_eq!(signal_of(StopReason::Exited(1, 0)), None);
    assert_eq!(signal_of(StopReason::ExitedWithSignal(1, 9)), Some(9));
    assert_eq!(signal_of(StopReason::Signal(5)), Some(5));
}

#[test]
fn step_lands_only_on_sigtrap() {
    assert!(step_landed(0x057f));
    assert!(!step_landed(0x0b7f));
    assert!(!step_landed(0));
    assert!(!step_landed(0x0500));
}

#[test]
fn range_step_stops_outside_range() {
    assert!(!range_step_done(Some(0x1000), 0x1000, 0x1010));
    assert!(!range_step_done(Some(0x100f), 0x1000, 0x1010));
    assert!(range_step_done(Some(0x1010), 0x1000, 0x1010));
    assert!(range_step_done(Some(0x0fff), 0x1000, 0x1010));
    assert!(range_step_done(None, 0x1000, 0x1010));
    assert!(range_step_done(Some(5), 5, 5));
}

#[test]
fn halt_reason_after_spawn_is_sigtrap() {
    let native = stop_reason(1234, 0x057f).unwrap();
    assert_eq!(native, StopReason::Signal(5));
    assert_eq!(to_gdb_reason(native, Some(5)), StopReason::Signal(GDB_SIGTRAP));
}

#[test]
fn continue_to_clean_exit_reports_status_zero() {
    let native = stop_reason(1234, 0).unwrap();
    assert_eq!(to_gdb_reason(native, signal_of(native)), StopReason::Exited(1234, 0));
}
