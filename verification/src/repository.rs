//! The file-system repositories of projects and tasks.

use vstd::prelude::*;
use crate::catalog::last_sequence;
use crate::error::MinervaError;
use crate::project_init::locate_project_root;

verus! {

/// Projects stored in `.minerva` directories.
#[derive(Debug, Default, Clone, Copy, PartialEq, Eq)]
pub struct FilesystemProjectRepository;

impl FilesystemProjectRepository {
    /// The root of the project that holds a directory: the first of its
    /// ancestors, innermost first, whose project file exists
    /// (`initialized[i]` for `candidates[i]`).
    pub fn locate_project_root(&self, candidates: &Vec<String>, initialized: &Vec<bool>) -> (r: Result<
        String,
        MinervaError,
    >)
        requires
            candidates.len() == initialized.len(),
        ensures
            r matches Ok(root) ==> exists|i: int| 0 <= i < candidates@.len() && #[trigger] initialized@[i]
                && root@ == candidates@[i]@ && forall|j: int| 0 <= j < i ==> !initialized@[j],
            r is Err ==> (r == Err::<String, MinervaError>(MinervaError::ProjectNotInitialized) && forall|
                i: int,
            | 0 <= i < candidates@.len() ==> !initialized@[i]),
    {
        locate_project_root(candidates, initialized)
    }
}

/// Tasks stored as directories of `.minerva/tasks`.
#[derive(Debug, Default, Clone, Copy, PartialEq, Eq)]
pub struct FilesystemTaskRepository;

impl FilesystemTaskRepository {
    /// The sequence number after which the next task identifier is
    /// allocated: the greatest sequence of the existing tasks, 0 when
    /// there are none.
    pub fn last_task_sequence(&self, sequences: &Vec<u64>) -> (m: u64)
        ensures
            forall|i: int| 0 <= i < sequences@.len() ==> sequences@[i] <= m,
            sequences@.len() == 0 ==> m == 0,
            sequences@.len() > 0 ==> exists|i: int| 0 <= i < sequences@.len() && sequences@[i] == m,
    {
        last_sequence(sequences)
    }
}

}
