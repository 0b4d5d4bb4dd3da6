//! The syscall interception loop.
//!
//! Given a freshly spawned, traced child, the loop drives it from call
//! boundary to call boundary: each iteration consumes one call's entry
//! stop and its matching exit stop. At the entry it classifies the call;
//! a watched deletion call has its path argument decoded out of the
//! tracee's memory and resolved, the policy decides, and a blocked call
//! is neutralized before the kernel runs it and given a permission
//! failure as its visible result. The first enforced block ends
//! supervision; a tracee that exits, is signaled or disappears — at
//! either boundary — ends it normally.
//!
//! Two things need the surrounding program, and the loop returns to it
//! for each: resolving a path relative to a real directory handle needs
//! a helper process, and reporting each intercepted call to the log sink
//! needs the sink itself. Both pauses leave the tracee stopped; the run
//! continues when the corresponding resume function is called.

use vstd::prelude::*;

use crate::cstr;
use crate::path;
use crate::path::{lemma_normalize_abs, lemma_resolve_abs};
use crate::policy;
use crate::policy::{decide_spec, is_abs, Decision, EntryClass, SEP};
use crate::regs;
use crate::regs::RegisterSnapshot;
use crate::report;
use crate::report::report_ok_spec;
use crate::trace;
use crate::trace::{utf8_decode, AdvanceOutcome, WaitEvent};

verus! {

/// An unrecoverable protocol failure: supervision can no longer
/// guarantee correctness and the run must be aborted. The tracee's
/// safety then rests on the kill-on-supervisor-exit configuration, not
/// on explicit cleanup.
#[derive(PartialEq, Eq, Structural, Debug, Clone, Copy)]
pub enum Fatal {
    /// The kill-on-supervisor-exit option could not be set.
    Configure,
    /// The tracee could not be advanced to a call boundary.
    Advance,
    /// Waiting for the tracee's status change failed.
    Wait,
    /// The register snapshot could not be read.
    ReadRegisters,
    /// The register snapshot could not be written back.
    WriteRegisters,
    /// The path argument could not be read out of the tracee's memory.
    ReadMemory,
    /// The path bytes are not valid text.
    PathText,
    /// The tracee's working directory could not be read, or was not
    /// reported as an absolute path.
    WorkingDir,
    /// The directory-handle helper reported malformed text.
    DirReport,
}

/// How a supervision run ended.
#[derive(Debug)]
pub enum Outcome {
    /// The tracee exited with the given status code.
    Exited(i32),
    /// The tracee was terminated by the signal with the given number.
    Signaled(i32),
    /// The tracee disappeared before it could be advanced.
    TraceeGone,
    /// A deletion of the given resolved path was blocked; supervision
    /// ends here, and the tracee is killed when the supervising process
    /// exits.
    Blocked(String),
}

/// A watched stop waiting for a directory handle to be resolved: the
/// tracee stands at the call's entry boundary until the run is resumed
/// with the helper's report.
pub struct PendingStop {
    pid: i32,
    report_calls: bool,
    regs: RegisterSnapshot,
    path: Vec<u8>,
}

impl PendingStop {
    /// The raw relative path of the pending call, as read out of the
    /// tracee's memory.
    pub closed spec fn rel_path(&self) -> Seq<u8> {
        self.path@
    }
}

/// A call entry waiting to be handled: the tracee stands at the entry
/// boundary while the call is reported to the log sink.
pub struct PendingCall {
    pid: i32,
    report_calls: bool,
    regs: RegisterSnapshot,
}

/// What a supervision call produced: the run is over, or it pauses for
/// the surrounding program and resumes through the matching function.
pub enum Step {
    /// The run is over.
    Done(Outcome),
    /// Resolve the given directory handle of the tracee to its absolute
    /// path and resume with the reported bytes.
    NeedDirPath(PendingStop, i32),
    /// A call was intercepted: its raw syscall number and six raw
    /// argument words, for the verbose per-call log line. Resume to
    /// handle the call. Returned only when call reporting was asked for.
    CallEntry(PendingCall, u64, [u64; 6]),
}

/// Read the null-terminated path string starting at `start` in the
/// tracee's memory, one machine word at a time. The returned bytes are
/// the string's bytes up to and excluding the terminator, so none of
/// them is zero.
pub fn read_cstr(pid: i32, start: u64) -> (r: Option<Vec<u8>>)
    ensures
        r matches Some(v) ==> forall|i: int| 0 <= i < v@.len() ==> v@[i] != 0,
{
    let mut buf: Vec<u8> = Vec::new();
    let mut addr: u64 = start;
    loop
        invariant
            forall|i: int| 0 <= i < buf@.len() ==> buf@[i] != 0,
        decreases 0xffff_ffff_ffff_ffffu64 - addr,
    {
        let w = match trace::read_word(pid, addr) {
            Some(w) => w,
            None => {
                return None;
            },
        };
        let done = cstr::push_word(&mut buf, w);
        if done {
            return Some(buf);
        }
        if addr >= 0xffff_ffff_ffff_fffb {
            return None;
        }
        addr = addr + 4;
    }
}

/// Resolve a raw path against the tracee's current working directory,
/// as an absolute raw path ignores the origin. The result is always
/// absolute; an absolute raw path cannot fail and is exactly its own
/// normalization.
fn resolve_against_cwd(pid: i32, raw: &Vec<u8>) -> (r: Result<Vec<u8>, Fatal>)
    ensures
        r matches Ok(v) ==> is_abs(v@),
        is_abs(raw@) ==> (r matches Ok(v) && v@ == path::normalize_spec(raw@)),
        !(r matches Ok(v)) ==> r == Result::<Vec<u8>, Fatal>::Err(Fatal::WorkingDir),
{
    if raw.len() > 0 && raw[0] == SEP {
        let n = path::normalize(raw);
        proof {
            lemma_normalize_abs(raw@);
        }
        Ok(n)
    } else {
        match trace::tracee_dir_bytes(pid) {
            Some(cwd) => {
                if cwd.len() > 0 && cwd[0] == SEP {
                    let n = path::resolve(raw, &cwd);
                    proof {
                        lemma_resolve_abs(raw@, cwd@);
                    }
                    Ok(n)
                } else {
                    Err(Fatal::WorkingDir)
                }
            },
            None => Err(Fatal::WorkingDir),
        }
    }
}

/// Resume the tracee from an entry stop to the matching exit boundary,
/// with the same termination policy as the main advance: a tracee that
/// disappears, exits or is signaled here ends the run normally; only a
/// protocol failure is fatal. Nothing means the exit stop was reached.
fn advance_over_exit(pid: i32) -> (r: Result<Option<Outcome>, Fatal>)
    ensures
        r matches Ok(out) ==> (out matches Some(o) ==> !(o matches Outcome::Blocked(s))),
        r matches Err(e) ==> (e == Fatal::Advance || e == Fatal::Wait),
{
    match trace::advance_to_syscall(pid) {
        AdvanceOutcome::TraceeGone => {
            return Ok(Some(Outcome::TraceeGone));
        },
        AdvanceOutcome::Failed => {
            return Err(Fatal::Advance);
        },
        AdvanceOutcome::Advanced => {},
    }
    match trace::wait_for_event() {
        None => Err(Fatal::Wait),
        Some(WaitEvent::Exited(code)) => Ok(Some(Outcome::Exited(code))),
        Some(WaitEvent::Signaled(sig)) => Ok(Some(Outcome::Signaled(sig))),
        Some(WaitEvent::Stopped) => Ok(None),
    }
}

/// Finish one watched stop whose path has been resolved: decide, enforce
/// a block before the kernel runs the call, advance over the call, and
/// at its exit stop fetch a fresh snapshot and overwrite only its
/// return-value slot with the permission-denied code. A blocked stop is
/// terminal; an allowed one returns nothing and the loop goes on; a
/// tracee that dies on the way to the exit boundary ends the run
/// normally without a block.
fn finish_watched(pid: i32, regs: RegisterSnapshot, resolved: Vec<u8>) -> (r: Result<
    Option<Outcome>,
    Fatal,
>)
    ensures
        r matches Ok(out) ==> (out is None ==> decide_spec(resolved@) == Decision::Allow),
        r matches Ok(out) ==> (out matches Some(o) ==> (o matches Outcome::Blocked(s) ==> (
        decide_spec(resolved@) == Decision::Block && s@ == utf8_decode(resolved@)->0))),
        r matches Err(e) ==> e != Fatal::DirReport,
{
    let mut regs = regs;
    let d = policy::decide(&resolved);
    let blocked = d == Decision::Block;
    if blocked {
        regs.neutralize_syscall();
        if !regs::store_regs(pid, &regs) {
            return Err(Fatal::WriteRegisters);
        }
    }
    match advance_over_exit(pid) {
        Ok(Some(outcome)) => {
            return Ok(Some(outcome));
        },
        Ok(None) => {},
        Err(e) => {
            return Err(e);
        },
    }
    if blocked {
        // The entry-time snapshot is not carried across the resumption:
        // the exit stop gets its own, and only the result slot changes.
        let mut exit_regs = match regs::fetch_regs(pid) {
            Some(r) => r,
            None => {
                return Err(Fatal::ReadRegisters);
            },
        };
        exit_regs.fake_permission_denied();
        if !regs::store_regs(pid, &exit_regs) {
            return Err(Fatal::WriteRegisters);
        }
        match trace::decode_utf8(&resolved) {
            Some(s) => Ok(Some(Outcome::Blocked(s))),
            None => Err(Fatal::PathText),
        }
    } else {
        Ok(None)
    }
}

/// Handle one call whose entry stop has been reached and whose registers
/// are in hand: classify, decode and decide a watched call, and consume
/// the matching exit stop. Nothing means the call is dealt with and the
/// loop goes on; a step means the run is over or paused for
/// directory-handle resolution.
fn handle_call(pid: i32, report_calls: bool, regs: RegisterSnapshot) -> (r: Result<
    Option<Step>,
    Fatal,
>)
    ensures
        r matches Ok(out) ==> (out matches Some(s) ==> (s matches Step::NeedDirPath(p, fd)
            ==> fd != -100i32)),
        r matches Ok(out) ==> (out matches Some(s) ==> !(s matches Step::CallEntry(p, n, a))),
{
    match policy::classify(regs.syscall_no) {
        EntryClass::PassThrough => {
            // Nothing is decoded and no register is written: the call
            // runs and returns exactly as it would unsupervised.
            match advance_over_exit(pid) {
                Ok(Some(outcome)) => Ok(Some(Step::Done(outcome))),
                Ok(None) => Ok(None),
                Err(e) => Err(e),
            }
        },
        EntryClass::DeleteByPath => {
            let raw = match read_cstr(pid, regs.arg0) {
                Some(b) => b,
                None => {
                    return Err(Fatal::ReadMemory);
                },
            };
            if trace::decode_utf8(&raw).is_none() {
                return Err(Fatal::PathText);
            }
            let resolved = match resolve_against_cwd(pid, &raw) {
                Ok(v) => v,
                Err(e) => {
                    return Err(e);
                },
            };
            match finish_watched(pid, regs, resolved) {
                Ok(Some(outcome)) => Ok(Some(Step::Done(outcome))),
                Ok(None) => Ok(None),
                Err(e) => Err(e),
            }
        },
        EntryClass::DeleteAtHandle => {
            let raw = match read_cstr(pid, regs.arg1) {
                Some(b) => b,
                None => {
                    return Err(Fatal::ReadMemory);
                },
            };
            if trace::decode_utf8(&raw).is_none() {
                return Err(Fatal::PathText);
            }
            if raw.len() > 0 && raw[0] == SEP {
                // The handle is ignored for an absolute path.
                let resolved = path::normalize(&raw);
                match finish_watched(pid, regs, resolved) {
                    Ok(Some(outcome)) => Ok(Some(Step::Done(outcome))),
                    Ok(None) => Ok(None),
                    Err(e) => Err(e),
                }
            } else if policy::is_fdcwd(regs.arg0) {
                let resolved = match resolve_against_cwd(pid, &raw) {
                    Ok(v) => v,
                    Err(e) => {
                        return Err(e);
                    },
                };
                match finish_watched(pid, regs, resolved) {
                    Ok(Some(outcome)) => Ok(Some(Step::Done(outcome))),
                    Ok(None) => Ok(None),
                    Err(e) => Err(e),
                }
            } else {
                let fd = policy::dirfd_of(regs.arg0);
                Ok(
                    Some(
                        Step::NeedDirPath(
                            PendingStop { pid, report_calls, regs, path: raw },
                            fd,
                        ),
                    ),
                )
            }
        },
    }
}

/// Drive the tracee from call to call until it exits, disappears, a
/// block is enforced, or the run pauses for the surrounding program.
/// A handle handed out for resolution is a real one: the
/// current-working-directory sentinel is resolved in place instead. A
/// call-entry pause comes only when call reporting was asked for.
fn run_loop(pid: i32, report_calls: bool) -> (r: Result<Step, Fatal>)
    ensures
        r matches Ok(s) ==> (s matches Step::NeedDirPath(p, fd) ==> fd != -100i32),
        !report_calls ==> (r matches Ok(s) ==> !(s matches Step::CallEntry(p, n, a))),
{
    let mut fuel: u64 = 0xffff_ffff_ffff_ffff;
    loop
        decreases fuel,
    {
        if fuel == 0 {
            // No process performs this many system calls; giving the
            // loop a bound keeps its termination checkable, and running
            // out of it means supervision can no longer advance.
            return Err(Fatal::Advance);
        }
        fuel = fuel - 1;
        match trace::advance_to_syscall(pid) {
            AdvanceOutcome::TraceeGone => {
                return Ok(Step::Done(Outcome::TraceeGone));
            },
            AdvanceOutcome::Failed => {
                return Err(Fatal::Advance);
            },
            AdvanceOutcome::Advanced => {},
        }
        let ev = match trace::wait_for_event() {
            Some(e) => e,
            None => {
                return Err(Fatal::Wait);
            },
        };
        match ev {
            WaitEvent::Exited(code) => {
                return Ok(Step::Done(Outcome::Exited(code)));
            },
            WaitEvent::Signaled(sig) => {
                return Ok(Step::Done(Outcome::Signaled(sig)));
            },
            WaitEvent::Stopped => {},
        }
        let regs = match regs::fetch_regs(pid) {
            Some(r) => r,
            None => {
                return Err(Fatal::ReadRegisters);
            },
        };
        if report_calls {
            let args: [u64; 6] = [regs.arg0, regs.arg1, regs.arg2, regs.arg3, regs.arg4,
                regs.arg5];
            let sysno = regs.syscall_no;
            return Ok(Step::CallEntry(PendingCall { pid, report_calls, regs }, sysno, args));
        }
        match handle_call(pid, report_calls, regs) {
            Ok(Some(step)) => {
                return Ok(step);
            },
            Ok(None) => {},
            Err(e) => {
                return Err(e);
            },
        }
    }
}

/// Supervise a freshly spawned, traced child. The kill-on-exit guarantee
/// is configured before the tracee is first resumed, so from the first
/// allowed instruction onward the tracee cannot outlive supervision.
/// With `report_calls` the run pauses at every call entry so the caller
/// can emit the verbose per-call log line; without it, it never does. A
/// handle handed out for resolution is a real one, never the
/// current-working-directory sentinel.
pub fn supervise(pid: i32, report_calls: bool) -> (r: Result<Step, Fatal>)
    ensures
        r matches Ok(s) ==> (s matches Step::NeedDirPath(p, fd) ==> fd != -100i32),
        !report_calls ==> (r matches Ok(s) ==> !(s matches Step::CallEntry(p, n, a))),
{
    if !trace::set_kill_on_supervisor_exit(pid) {
        return Err(Fatal::Configure);
    }
    run_loop(pid, report_calls)
}

/// Resume a run that paused to report a call entry: handle the call and
/// go on. A handle handed out for resolution is a real one, never the
/// current-working-directory sentinel.
pub fn supervise_call(pending: PendingCall) -> (r: Result<Step, Fatal>)
    ensures
        r matches Ok(s) ==> (s matches Step::NeedDirPath(p, fd) ==> fd != -100i32),
{
    let PendingCall { pid, report_calls, regs } = pending;
    match handle_call(pid, report_calls, regs) {
        Ok(Some(step)) => Ok(step),
        Ok(None) => run_loop(pid, report_calls),
        Err(e) => Err(e),
    }
}

/// Resume a run that paused for directory-handle resolution, with the
/// helper's reported bytes. A malformed report — empty, no leading
/// separator, or no trailing line terminator — aborts the run with
/// exactly the report failure, and only such a report does; a
/// well-formed report's terminator is framing, so the pending path is
/// resolved against the report minus its final byte, and a blocked
/// outcome names exactly that resolution.
pub fn supervise_resume(pending: PendingStop, dir_report: Vec<u8>) -> (r: Result<Step, Fatal>)
    ensures
        !report_ok_spec(dir_report@) ==> (r matches Err(e) && e == Fatal::DirReport),
        report_ok_spec(dir_report@) ==> (r matches Err(e) ==> e != Fatal::DirReport),
        report_ok_spec(dir_report@) ==> (r matches Ok(s) ==> s matches Step::Done(o)),
        report_ok_spec(dir_report@) ==> (r matches Ok(s) ==> (s matches Step::Done(o) ==> (o
            matches Outcome::Blocked(bp) ==> bp@ == utf8_decode(
            path::resolve_spec(pending.rel_path(), dir_report@.drop_last()),
        )->0))),
{
    if !report::check_dir_report(&dir_report) {
        return Err(Fatal::DirReport);
    }
    let PendingStop { pid, report_calls, regs, path } = pending;
    let mut origin = dir_report;
    origin.pop();
    proof {
        assert(origin@ =~= dir_report@.drop_last());
        // The stripped report still starts with the separator, so the
        // resolved path is absolute and the stop can only be blocked.
        assert(is_abs(origin@));
        lemma_resolve_abs(path@, origin@);
    }
    let resolved = path::resolve(&path, &origin);
    match finish_watched(pid, regs, resolved) {
        Ok(Some(outcome)) => Ok(Step::Done(outcome)),
        Ok(None) => {
            proof {
                assert(false);
            }
            run_loop(pid, report_calls)
        },
        Err(e) => Err(e),
    }
}

} // verus!
