//! Watched syscall numbers and the block-vs-allow policy.

use vstd::prelude::*;

verus! {

/// x86-64 Linux syscall number of the delete-by-path call (`unlink`).
pub const SYS_UNLINK: u64 = 87;

/// x86-64 Linux syscall number of the delete-relative-to-handle call
/// (`unlinkat`).
pub const SYS_UNLINKAT: u64 = 263;

/// Low 32 bits of the current-working-directory sentinel handle
/// (`AT_FDCWD`, the 32-bit two's-complement encoding of -100).
pub const AT_FDCWD_LOW: u64 = 0xffff_ff9c;

/// A syscall number that no real system call has; writing it into the
/// syscall-number register forces the kernel to skip the call.
pub const INVALID_SYSCALL: u64 = 0xffff_ffff_ffff_ffff;

/// The 64-bit two's-complement encoding of -EPERM (-1 on Linux), written
/// into the return-value register of a blocked call.
pub const EPERM_RETURN: u64 = 0xffff_ffff_ffff_ffff;

/// The path byte that separates path segments.
pub const SEP: u8 = 47;

/// Whether a syscall number is one of the two watched deletion calls.
pub open spec fn is_watched_spec(sysno: u64) -> bool {
    sysno == SYS_UNLINK || sysno == SYS_UNLINKAT
}

/// Whether a raw path is absolute: non-empty and starting with the separator.
pub open spec fn is_abs(p: Seq<u8>) -> bool {
    p.len() > 0 && p[0] == SEP
}

/// The outcome of the policy for one decoded deletion request.
#[derive(PartialEq, Eq, Structural, Debug, Clone, Copy)]
pub enum Decision {
    Allow,
    Block,
}

/// The policy on a resolved path: deletion of an absolute path is blocked.
/// Resolution always produces an absolute path, so every watched call that
/// reaches the policy is blocked; the check is kept in this explicit form
/// because the block condition is "the resolved path is absolute".
pub open spec fn decide_spec(p: Seq<u8>) -> Decision {
    if is_abs(p) {
        Decision::Block
    } else {
        Decision::Allow
    }
}

/// What the supervisor plans for one syscall entry.
#[derive(PartialEq, Eq, Structural, Debug, Clone, Copy)]
pub enum EntryClass {
    /// Not a watched call: no decoding, no decision, no register write;
    /// the call runs and returns exactly as it would unsupervised.
    PassThrough,
    /// The delete-by-path call: decode the path from the first argument.
    DeleteByPath,
    /// The delete-relative-to-handle call: decode the path from the
    /// second argument, the first being a directory handle or the
    /// current-working-directory sentinel.
    DeleteAtHandle,
}

/// The plan for a syscall number.
pub open spec fn classify_spec(sysno: u64) -> EntryClass {
    if sysno == SYS_UNLINK {
        EntryClass::DeleteByPath
    } else if sysno == SYS_UNLINKAT {
        EntryClass::DeleteAtHandle
    } else {
        EntryClass::PassThrough
    }
}

/// Classify a syscall entry.
pub fn classify(sysno: u64) -> (r: EntryClass)
    ensures
        r == classify_spec(sysno),
{
    if sysno == SYS_UNLINK {
        EntryClass::DeleteByPath
    } else if sysno == SYS_UNLINKAT {
        EntryClass::DeleteAtHandle
    } else {
        EntryClass::PassThrough
    }
}

/// A syscall that is not one of the watched deletion calls is passed
/// through untouched, and only the watched ones are ever decoded or
/// enforced: the supervisor plans nothing for exactly the non-watched
/// numbers, so their observable return value is the kernel's own.
pub proof fn lemma_unwatched_passes_through(sysno: u64)
    ensures
        classify_spec(sysno) == EntryClass::PassThrough <==> !is_watched_spec(sysno),
{
}

/// Whether a syscall number is watched.
pub fn is_watched(sysno: u64) -> (r: bool)
    ensures
        r == is_watched_spec(sysno),
{
    sysno == SYS_UNLINK || sysno == SYS_UNLINKAT
}

/// Whether the first (handle) argument word of the delete-relative-to-handle
/// call is the current-working-directory sentinel rather than a real handle.
pub open spec fn is_fdcwd_spec(arg: u64) -> bool {
    arg & 0xffff_ffff == AT_FDCWD_LOW
}

/// Whether a raw handle argument word is the current-working-directory
/// sentinel, compared on its low 32 bits as the kernel does.
pub fn is_fdcwd(arg: u64) -> (r: bool)
    ensures
        r == is_fdcwd_spec(arg),
{
    arg & 0xffff_ffff == AT_FDCWD_LOW
}

/// The signed 32-bit directory handle carried in a raw argument word:
/// the low 32 bits read as a two's-complement integer.
pub open spec fn dirfd_spec(arg: u64) -> int {
    if arg & 0xffff_ffff >= 0x8000_0000 {
        (arg & 0xffff_ffff) - 0x1_0000_0000
    } else {
        (arg & 0xffff_ffff) as int
    }
}

/// Extract the signed directory handle from a raw argument word.
pub fn dirfd_of(arg: u64) -> (r: i32)
    ensures
        r as int == dirfd_spec(arg),
{
    let low: u64 = arg & 0xffff_ffff;
    assert(low < 0x1_0000_0000) by (bit_vector)
        requires
            low == arg & 0xffff_ffff,
    ;
    if low >= 0x8000_0000 {
        let wide: i64 = low as i64 - 0x1_0000_0000;
        wide as i32
    } else {
        low as i32
    }
}

/// Decide block-vs-allow for a resolved path.
pub fn decide(p: &Vec<u8>) -> (d: Decision)
    ensures
        d == decide_spec(p@),
{
    if p.len() > 0 && p[0] == SEP {
        Decision::Block
    } else {
        Decision::Allow
    }
}

} // verus!
