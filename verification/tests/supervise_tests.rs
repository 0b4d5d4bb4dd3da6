//! Tests of the supervision entry points that need no traced child.
//!
//! Driving a real tracee needs a spawned process, which tests cannot
//! create here; the surrounding command-line program exercises that at
//! run time. What is testable without one is the refusal to supervise a
//! process that cannot be configured.

use norm::supervisor::{supervise, Fatal, Step};

#[test]
fn supervising_a_missing_process_fails_to_configure() {
    // No process with this identifier exists, so the kill-on-exit
    // guarantee cannot be established and supervision refuses to start
    // before the tracee would first be resumed.
    match supervise(0x3fff_fffe, false) {
        Err(Fatal::Configure) => {},
        Err(e) => panic!("expected a configuration failure, got {:?}", e),
        Ok(Step::Done(o)) => panic!("expected a configuration failure, got {:?}", o),
        Ok(Step::NeedDirPath(_, fd)) => {
            panic!("expected a configuration failure, got a dir-handle pause for {}", fd)
        },
        Ok(Step::CallEntry(_, sysno, _)) => {
            panic!("expected a configuration failure, got a call pause for {}", sysno)
        },
    }
}

#[test]
fn supervising_a_missing_process_fails_in_reporting_mode_too() {
    match supervise(0x3fff_fffe, true) {
        Err(Fatal::Configure) => {},
        other => panic!("expected a configuration failure, got ok={}", other.is_ok()),
    }
}
