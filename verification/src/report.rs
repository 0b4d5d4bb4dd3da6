//! Validation of a directory-handle resolution report.
//!
//! The helper that resolves a directory handle reports its result as raw
//! bytes. A well-formed report is non-empty, starts with the path
//! separator and ends with a line terminator. Anything else must abort
//! the run: proceeding with a guessed directory would make every later
//! block-vs-allow decision untrustworthy.

use vstd::prelude::*;

use crate::policy::SEP;

verus! {

/// The newline byte that ends a well-formed directory-handle report.
pub const NL: u8 = 10;

/// Whether the helper's reported text is well-formed: non-empty, leading
/// separator, trailing line terminator.
pub open spec fn report_ok_spec(b: Seq<u8>) -> bool {
    b.len() > 0 && b[0] == SEP && b[b.len() - 1] == NL
}

/// Check a directory-handle resolution report.
pub fn check_dir_report(b: &Vec<u8>) -> (r: bool)
    ensures
        r == report_ok_spec(b@),
{
    b.len() > 0 && b[0] == SEP && b[b.len() - 1] == NL
}

} // verus!
