//! Tests of syscall classification, the block policy and report checks.

use norm::policy::{
    classify, decide, dirfd_of, is_fdcwd, is_watched, Decision, EntryClass, AT_FDCWD_LOW,
    EPERM_RETURN, INVALID_SYSCALL, SYS_UNLINK, SYS_UNLINKAT,
};
use norm::report::check_dir_report;

#[test]
fn watched_syscall_numbers() {
    assert!(is_watched(SYS_UNLINK));
    assert!(is_watched(SYS_UNLINKAT));
    assert!(!is_watched(0));
    assert!(!is_watched(1));
    assert!(!is_watched(257));
}

#[test]
fn classification_of_entries() {
    assert_eq!(classify(SYS_UNLINK), EntryClass::DeleteByPath);
    assert_eq!(classify(SYS_UNLINKAT), EntryClass::DeleteAtHandle);
    assert_eq!(classify(0), EntryClass::PassThrough);
    assert_eq!(classify(60), EntryClass::PassThrough);
}

#[test]
fn policy_blocks_exactly_absolute_paths() {
    assert_eq!(decide(&b"/tmp/foo".to_vec()), Decision::Block);
    assert_eq!(decide(&b"/".to_vec()), Decision::Block);
    assert_eq!(decide(&b"bar".to_vec()), Decision::Allow);
    assert_eq!(decide(&b"".to_vec()), Decision::Allow);
}

#[test]
fn sentinel_handle_is_recognized_on_low_bits() {
    // The 32-bit two's-complement encoding of -100, as it arrives in a
    // 64-bit argument word.
    assert!(is_fdcwd(AT_FDCWD_LOW));
    assert!(is_fdcwd(0xdead_beef_0000_0000 | AT_FDCWD_LOW));
    assert!(!is_fdcwd(3));
    assert!(!is_fdcwd(0));
}

#[test]
fn directory_handles_are_decoded_as_signed_words() {
    assert_eq!(dirfd_of(AT_FDCWD_LOW), -100);
    assert_eq!(dirfd_of(3), 3);
    assert_eq!(dirfd_of(0xffff_ffff_ffff_ffff), -1);
    assert_eq!(dirfd_of(0x1_0000_0005), 5);
    assert_eq!(dirfd_of(0x7fff_ffff), i32::MAX);
}

#[test]
fn enforcement_codes() {
    // An impossible syscall number, and the two's-complement encoding of
    // -EPERM on Linux.
    assert_eq!(INVALID_SYSCALL, u64::MAX);
    assert_eq!(EPERM_RETURN, (-1i64) as u64);
}

#[test]
fn every_watched_request_resolves_to_a_block() {
    // Whether the caller gave the path as absolute or relative, the
    // resolver yields an absolute path, so the decision is always Block.
    for (raw, origin) in [
        ("/tmp/foo", "/home/u"),
        ("bar", "/home/u"),
        ("../x/./y", "/a/b"),
        (".", "/"),
        ("", "/srv"),
    ] {
        let resolved = norm::path::resolve(&raw.as_bytes().to_vec(), &origin.as_bytes().to_vec());
        assert_eq!(decide(&resolved), Decision::Block, "raw {:?} origin {:?}", raw, origin);
    }
}

#[test]
fn dir_reports_are_validated() {
    assert!(check_dir_report(&b"/\n".to_vec()));
    assert!(check_dir_report(&b"/home/u\n".to_vec()));
    assert!(!check_dir_report(&b"".to_vec()));
    assert!(!check_dir_report(&b"home/u\n".to_vec()));
    assert!(!check_dir_report(&b"/home/u".to_vec()));
    assert!(!check_dir_report(&b"\n".to_vec()));
    assert!(!check_dir_report(&b"u\n".to_vec()));
}
