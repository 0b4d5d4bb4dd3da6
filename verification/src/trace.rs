//! Trusted boundary to the debugging protocol and the process environment.
//!
//! Each function here wraps exactly one outside call; its contract states
//! only what the callee's source and documentation show. Everything
//! decided on these results is decided in verified code.

use vstd::prelude::*;

verus! {

/// The outcome of asking the tracee to run to its next call boundary.
#[derive(PartialEq, Eq, Structural, Debug, Clone, Copy)]
pub enum AdvanceOutcome {
    /// The request was accepted; the tracee is running.
    Advanced,
    /// The tracee no longer exists.
    TraceeGone,
    /// The request failed for any other reason.
    Failed,
}

/// A status change reported for the tracee.
#[derive(PartialEq, Eq, Structural, Debug, Clone, Copy)]
pub enum WaitEvent {
    /// The tracee exited with the given status code.
    Exited(i32),
    /// The tracee was terminated by the signal with the given number.
    Signaled(i32),
    /// The tracee stopped, at a call boundary or otherwise.
    Stopped,
}

/// Relies on nix::sys::ptrace::setoptions with the exit-kill option: from
/// now on the operating system kills the tracee automatically when the
/// supervising process exits. Returns whether the option was set.
#[verifier::external_body]
pub fn set_kill_on_supervisor_exit(pid: i32) -> (ok: bool) {
    nix::sys::ptrace::setoptions(
        nix::unistd::Pid::from_raw(pid),
        nix::sys::ptrace::Options::PTRACE_O_EXITKILL,
    ).is_ok()
}

/// Relies on nix::sys::ptrace::syscall: let the tracee run until its next
/// system-call entry or exit boundary, delivering no signal. A missing
/// tracee is reported apart from every other failure.
#[verifier::external_body]
pub fn advance_to_syscall(pid: i32) -> (r: AdvanceOutcome) {
    match nix::sys::ptrace::syscall(nix::unistd::Pid::from_raw(pid), None) {
        Ok(()) => AdvanceOutcome::Advanced,
        Err(e) => {
            if e == nix::errno::Errno::ESRCH {
                AdvanceOutcome::TraceeGone
            } else {
                AdvanceOutcome::Failed
            }
        },
    }
}

/// Relies on nix::sys::wait::wait: block until a child changes state, and
/// report exit and termination-by-signal apart from every stop. `None`
/// when waiting itself failed.
#[verifier::external_body]
pub fn wait_for_event() -> (r: Option<WaitEvent>) {
    match nix::sys::wait::wait() {
        Ok(nix::sys::wait::WaitStatus::Exited(_, code)) => Some(WaitEvent::Exited(code)),
        Ok(nix::sys::wait::WaitStatus::Signaled(_, sig, _)) => Some(
            WaitEvent::Signaled(sig as i32),
        ),
        Ok(_) => Some(WaitEvent::Stopped),
        Err(_) => None,
    }
}

/// Relies on nix::sys::ptrace::read: one machine word of the tracee's
/// memory at the given address, of which the low four bytes are kept, as
/// the scan consumes words of that width. `None` when the read failed.
#[verifier::external_body]
pub fn read_word(pid: i32, addr: u64) -> (r: Option<u32>) {
    match nix::sys::ptrace::read(nix::unistd::Pid::from_raw(pid), (addr as usize) as _) {
        Ok(w) => Some(w as u32),
        Err(_) => None,
    }
}

/// Relies on nix::fcntl::readlink on the tracee's `/proc` working-directory
/// entry: the path the kernel reports as the tracee's current working
/// directory. `None` when it cannot be read or is not valid text; whether
/// the reported path is absolute is checked by the caller, not assumed.
#[verifier::external_body]
pub fn tracee_dir_bytes(pid: i32) -> (r: Option<Vec<u8>>) {
    let link = format!("/proc/{}/cwd", pid);
    match nix::fcntl::readlink(std::path::Path::new(&link)) {
        Ok(p) => match p.to_str() {
            Some(s) => Some(s.as_bytes().to_vec()),
            None => None,
        },
        Err(_) => None,
    }
}

/// The characters that a byte string decodes to as UTF-8, if it is valid;
/// a function of the bytes alone.
pub uninterp spec fn utf8_decode(b: Seq<u8>) -> Option<Seq<char>>;

/// Relies on core::str::from_utf8: decode the bytes as UTF-8 text,
/// failing exactly on invalid text; the result depends on the bytes
/// alone.
#[verifier::external_body]
pub fn decode_utf8(b: &Vec<u8>) -> (r: Option<String>)
    ensures
        r is Some <==> utf8_decode(b@) is Some,
        r is Some ==> r->0@ == utf8_decode(b@)->0,
{
    match core::str::from_utf8(b.as_slice()) {
        Ok(s) => Some(s.to_string()),
        Err(_) => None,
    }
}

} // verus!
