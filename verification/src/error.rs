//! The errors of the storage layer.

use vstd::prelude::*;
use crate::text::{append_str, concat, owned};

verus! {

/// An error reported by the storage layer.
#[derive(Debug, Clone, PartialEq, Eq)]
pub enum MinervaError {
    /// A configuration value is invalid.
    InvalidConfiguration { key: String, reason: String },
    /// A stored file does not match its schema.
    SchemaError { path: String, reason: String },
    /// Another writer holds the lock file at `path`.
    LockConflict { path: String },
    /// The project was initialized already.
    ProjectAlreadyInitialized,
    /// No project was found.
    ProjectNotInitialized,
    /// No task matches the reference.
    TaskNotFound { task_ref: String },
    /// Several tasks match the reference; `matches` labels them.
    AmbiguousTaskReference { task_ref: String, matches: Vec<String> },
    /// A write does not follow the stored version.
    VersionConflict { path: String, expected: String, actual: String },
    /// The parent links of tasks form a cycle.
    HierarchyCycle { detail: String },
    /// The dependencies between tasks form a cycle.
    DependencyCycle { detail: String },
}

/// `items` joined by `sep`.
pub open spec fn join_seqs(items: Seq<Seq<char>>, sep: Seq<char>) -> Seq<char>
    decreases items.len(),
{
    if items.len() == 0 {
        Seq::empty()
    } else if items.len() == 1 {
        items[0]
    } else {
        join_seqs(items.drop_last(), sep) + sep + items.last()
    }
}

/// The views of a list of strings.
pub open spec fn views(items: Seq<String>) -> Seq<Seq<char>> {
    items.map_values(|s: String| s@)
}

/// The text by which this library describes an error.
pub open spec fn error_text(e: MinervaError) -> Seq<char> {
    match e {
        MinervaError::InvalidConfiguration { key, reason } =>
            "invalid configuration `"@ + key@ + "`: "@ + reason@,
        MinervaError::SchemaError { path, reason } => "schema error in `"@ + path@ + "`: "@ + reason@,
        MinervaError::LockConflict { path } => "lock `"@ + path@ + "` is held by another writer"@,
        MinervaError::ProjectAlreadyInitialized => "project is already initialized"@,
        MinervaError::ProjectNotInitialized => "project is not initialized"@,
        MinervaError::TaskNotFound { task_ref } => "task `"@ + task_ref@ + "` was not found"@,
        MinervaError::AmbiguousTaskReference { task_ref, matches } =>
            "task reference `"@ + task_ref@ + "` is ambiguous: "@ + join_seqs(views(matches@), ", "@),
        MinervaError::VersionConflict { path, expected, actual } =>
            "version conflict in `"@ + path@ + "`: expected "@ + expected@ + ", found "@ + actual@,
        MinervaError::HierarchyCycle { detail } => "task hierarchy cycle: "@ + detail@,
        MinervaError::DependencyCycle { detail } => "dependency cycle: "@ + detail@,
    }
}

/// `items` joined by `sep`.
pub fn join_strings(items: &Vec<String>, sep: &str) -> (r: String)
    ensures
        r@ == join_seqs(views(items@), sep@),
{
    let mut r = String::new();
    let mut i: usize = 0;
    while i < items.len()
        invariant
            i <= items.len(),
            r@ == join_seqs(views(items@.take(i as int)), sep@),
        decreases items.len() - i,
    {
        if i > 0 {
            append_str(&mut r, sep);
        }
        append_str(&mut r, items[i].as_str());
        proof {
            let a = views(items@.take(i as int));
            let b = views(items@.take(i + 1));
            assert(b.drop_last() =~= a);
            assert(b.last() == items@[i as int]@);
            if i == 0 {
                assert(r@ =~= items@[0]@);
            }
        }
        i = i + 1;
    }
    assert(items@.take(items.len() as int) =~= items@);
    r
}

impl MinervaError {
    /// The text of this error (see [`error_text`]).
    pub fn describe(&self) -> (r: String)
        ensures
            r@ == error_text(*self),
    {
        match self {
            MinervaError::InvalidConfiguration { key, reason } => {
                let mut r = concat("invalid configuration `", key.as_str());
                append_str(&mut r, "`: ");
                append_str(&mut r, reason.as_str());
                r
            },
            MinervaError::SchemaError { path, reason } => {
                let mut r = concat("schema error in `", path.as_str());
                append_str(&mut r, "`: ");
                append_str(&mut r, reason.as_str());
                r
            },
            MinervaError::LockConflict { path } => {
                let mut r = concat("lock `", path.as_str());
                append_str(&mut r, "` is held by another writer");
                r
            },
            MinervaError::ProjectAlreadyInitialized => owned("project is already initialized"),
            MinervaError::ProjectNotInitialized => owned("project is not initialized"),
            MinervaError::TaskNotFound { task_ref } => {
                let mut r = concat("task `", task_ref.as_str());
                append_str(&mut r, "` was not found");
                r
            },
            MinervaError::AmbiguousTaskReference { task_ref, matches } => {
                let mut r = concat("task reference `", task_ref.as_str());
                append_str(&mut r, "` is ambiguous: ");
                let joined = join_strings(matches, ", ");
                append_str(&mut r, joined.as_str());
                r
            },
            MinervaError::VersionConflict { path, expected, actual } => {
                let mut r = concat("version conflict in `", path.as_str());
                append_str(&mut r, "`: expected ");
                append_str(&mut r, expected.as_str());
                append_str(&mut r, ", found ");
                append_str(&mut r, actual.as_str());
                r
            },
            MinervaError::HierarchyCycle { detail } => concat("task hierarchy cycle: ", detail.as_str()),
            MinervaError::DependencyCycle { detail } => concat("dependency cycle: ", detail.as_str()),
        }
    }
}

}
