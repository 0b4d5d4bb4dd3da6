//! Supervise a traced child process and block its file-deletion system calls.
//!
//! The library drives a ptrace-style control loop: it advances the child to
//! each system-call boundary, decodes the path argument of the two watched
//! deletion calls out of the child's memory, resolves it to a normalized
//! absolute path, decides block-vs-allow, and enforces a block by falsifying
//! the call's outcome.

pub mod cstr;
pub mod path;
pub mod policy;
pub mod regs;
pub mod report;
pub mod supervisor;
pub mod trace;
