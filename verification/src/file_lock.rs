//! Lock files: a writer creates the lock file exclusively, records who
//! holds it, and removes it on release.

use vstd::prelude::*;
use crate::error::MinervaError;
use crate::path::parent_of;
use crate::text::{append_str, concat, decimal, decimal_string, owned};

verus! {

/// The text written into a lock file by the process `pid` at
/// `created_at_unix` seconds since the epoch.
pub open spec fn lock_metadata_text(pid: u32, created_at_unix: u64) -> Seq<char> {
    "pid="@ + decimal(pid as nat) + "\ncreated_at_unix="@ + decimal(created_at_unix as nat)
        + "\nstale=remove manually after verifying owner is inactive\n"@
}

/// The contents of a lock file taken by the process `pid` at
/// `created_at_unix` seconds since the epoch.
pub fn lock_metadata(pid: u32, created_at_unix: u64) -> (r: String)
    ensures
        r@ == lock_metadata_text(pid, created_at_unix),
{
    let mut r = concat("pid=", decimal_string(pid as u64).as_str());
    append_str(&mut r, "\ncreated_at_unix=");
    append_str(&mut r, decimal_string(created_at_unix).as_str());
    append_str(&mut r, "\nstale=remove manually after verifying owner is inactive\n");
    r
}

/// The error reported whenever a lock at `path` cannot be taken, for
/// whatever reason: its directory cannot be created, the file exists
/// already, or it cannot be written or synced.
pub fn conflict(path: &str) -> (e: MinervaError)
    ensures
        e matches MinervaError::LockConflict { path: p } && p@ == path@,
{
    MinervaError::LockConflict { path: owned(path) }
}

/// The directory of a lock file, where it is created and synced: its
/// parent, or the current directory `.` when it has none.
pub open spec fn lock_dir_of(path: Seq<char>) -> Seq<char> {
    match parent_of(path) {
        Some(p) => p,
        None => "."@,
    }
}

/// The directory of the lock file `path`.
pub fn lock_dir(path: &str) -> (d: String)
    ensures
        d@ == lock_dir_of(path@),
{
    match crate::path::parent(path) {
        Some(p) => p,
        None => owned("."),
    }
}

}
