//! The tracee's register file at a call boundary.
//!
//! A snapshot is fetched fresh at each stop, read and optionally rewritten
//! while the tracee stands still, and written back as a whole before the
//! tracee resumes. The syscall number, the six argument slots and the
//! return-value slot are mirrored into plain fields; the remaining
//! machine registers ride along opaquely so that a write-back restores
//! them untouched.

use vstd::prelude::*;

use crate::policy::{EPERM_RETURN, INVALID_SYSCALL};

verus! {

/// The machine register file of the processor, as the debugging interface
/// hands it out; opaque to the verified code.
#[verifier::external_type_specification]
#[verifier::external_body]
pub struct ExUserRegs(nix::libc::user_regs_struct);

/// A register snapshot of the stopped tracee. The mirrored fields carry
/// the x86-64 system-call convention: number in `orig_rax`, arguments in
/// `rdi`, `rsi`, `rdx`, `r10`, `r8`, `r9`, result in `rax`.
pub struct RegisterSnapshot {
    /// The syscall number slot.
    pub syscall_no: u64,
    /// The first argument slot.
    pub arg0: u64,
    /// The second argument slot.
    pub arg1: u64,
    /// The third argument slot.
    pub arg2: u64,
    /// The fourth argument slot.
    pub arg3: u64,
    /// The fifth argument slot.
    pub arg4: u64,
    /// The sixth argument slot.
    pub arg5: u64,
    /// The return-value slot.
    pub retval: u64,
    /// Every machine register as fetched, written back beneath the
    /// mirrored slots on a store; opaque and never read by verified code.
    pub raw: nix::libc::user_regs_struct,
}

impl RegisterSnapshot {
    /// Overwrite the syscall-number slot with a number no real system
    /// call has, so that the kernel skips the call; every other mirrored
    /// slot is kept.
    pub fn neutralize_syscall(&mut self)
        ensures
            final(self).syscall_no == INVALID_SYSCALL,
            final(self).arg0 == old(self).arg0,
            final(self).arg1 == old(self).arg1,
            final(self).arg2 == old(self).arg2,
            final(self).arg3 == old(self).arg3,
            final(self).arg4 == old(self).arg4,
            final(self).arg5 == old(self).arg5,
            final(self).retval == old(self).retval,
            final(self).raw == old(self).raw,
    {
        self.syscall_no = INVALID_SYSCALL;
    }

    /// Overwrite the return-value slot with the permission-denied code,
    /// so the tracee observes a deletion refused for permission reasons;
    /// every other mirrored slot is kept.
    pub fn fake_permission_denied(&mut self)
        ensures
            final(self).retval == EPERM_RETURN,
            final(self).syscall_no == old(self).syscall_no,
            final(self).arg0 == old(self).arg0,
            final(self).arg1 == old(self).arg1,
            final(self).arg2 == old(self).arg2,
            final(self).arg3 == old(self).arg3,
            final(self).arg4 == old(self).arg4,
            final(self).arg5 == old(self).arg5,
            final(self).raw == old(self).raw,
    {
        self.retval = EPERM_RETURN;
    }
}

/// Relies on nix::sys::ptrace::getregs: the register file of the stopped
/// tracee, mirrored into the snapshot's plain fields. `None` when the
/// registers cannot be read.
#[verifier::external_body]
pub fn fetch_regs(pid: i32) -> (r: Option<RegisterSnapshot>) {
    match nix::sys::ptrace::getregs(nix::unistd::Pid::from_raw(pid)) {
        Ok(u) => Some(
            RegisterSnapshot {
                syscall_no: u.orig_rax,
                arg0: u.rdi, arg1: u.rsi, arg2: u.rdx,
                arg3: u.r10, arg4: u.r8, arg5: u.r9,
                retval: u.rax,
                raw: u,
            },
        ),
        Err(_) => None,
    }
}

/// Relies on nix::sys::ptrace::setregs: write the snapshot back into the
/// stopped tracee, the mirrored slots overlaid on the registers as
/// fetched. Returns whether the write succeeded.
#[verifier::external_body]
pub fn store_regs(pid: i32, regs: &RegisterSnapshot) -> (ok: bool) {
    let mut u = regs.raw;
    u.orig_rax = regs.syscall_no;
    u.rdi = regs.arg0;
    u.rsi = regs.arg1;
    u.rdx = regs.arg2;
    u.r10 = regs.arg3;
    u.r8 = regs.arg4;
    u.r9 = regs.arg5;
    u.rax = regs.retval;
    nix::sys::ptrace::setregs(nix::unistd::Pid::from_raw(pid), u).is_ok()
}

} // verus!
