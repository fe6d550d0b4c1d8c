//! Creating a project: the directories and files that initialization
//! writes, and the decisions taken on the way.

use vstd::prelude::*;
use crate::error::MinervaError;
use crate::layout::{minerva_dir_of, minerva_entry, project_catalog, MinervaLayout};
use crate::path::{file_name, file_name_of, join, join_path, parent, parent_of, strip_tail, last_sep};
use crate::text::owned;
use crate::documents::{StatusDocument, TransitionDocument};

verus! {

/// The text of the schema marker file.
pub const SCHEMA_VERSION: &'static str = "1\n";

/// The `AGENTS.md` written at the root of a new project, when there is
/// none yet.
pub fn agents_md() -> (s: &'static str)
    ensures
        s@ == "# Minerva Project\n\nThis repository uses Minerva for task and context management.\n\nBefore starting work:\n\n1. Read `.minerva/instructions.md` for project-specific rules.\n2. Read the current task's `task.md`, `instructions.md`, and `declaration.md`.\n3. Prefer Minerva CLI or MCP operations over manual edits to task metadata.\n4. Update `declaration.md` after meaningful progress, decisions, or blockers.\n5. Validate task state before marking work complete.\n\nPreferred operations:\n\n- Create and update tasks through Minerva tools.\n- Change status and dependencies through Minerva tools.\n- Keep detailed project guidance in `.minerva/instructions.md`.\n"@,
{
    "# Minerva Project\n\nThis repository uses Minerva for task and context management.\n\nBefore starting work:\n\n1. Read `.minerva/instructions.md` for project-specific rules.\n2. Read the current task's `task.md`, `instructions.md`, and `declaration.md`.\n3. Prefer Minerva CLI or MCP operations over manual edits to task metadata.\n4. Update `declaration.md` after meaningful progress, decisions, or blockers.\n5. Validate task state before marking work complete.\n\nPreferred operations:\n\n- Create and update tasks through Minerva tools.\n- Change status and dependencies through Minerva tools.\n- Keep detailed project guidance in `.minerva/instructions.md`.\n"
}

/// The project instructions written by initialization.
pub fn instructions_md() -> (s: &'static str)
    ensures
        s@ == "# Project Instructions\n\nAdd repository-wide Minerva instructions here.\n"@,
{
    "# Project Instructions\n\nAdd repository-wide Minerva instructions here.\n"
}

/// Initialization refuses an existing project unless it is forced.
pub fn check_targets(project_file_exists: bool, force: bool) -> (r: Result<(), MinervaError>)
    ensures
        r is Ok <==> (!project_file_exists || force),
        r is Err ==> r == Err::<(), MinervaError>(MinervaError::ProjectAlreadyInitialized),
{
    if project_file_exists && !force {
        return Err(MinervaError::ProjectAlreadyInitialized);
    }
    Ok(())
}

/// The directories that initialization creates, in order.
pub open spec fn init_dirs(root: Seq<char>) -> Seq<Seq<char>> {
    seq![
        minerva_entry(root, "task-types"@),
        minerva_entry(root, "tasks"@),
        minerva_entry(root, "indexes"@),
        minerva_entry(root, "contexts"@),
        minerva_entry(root, "sessions"@),
        minerva_entry(root, "locks"@),
        minerva_dir_of(root),
    ]
}

/// The directories that initialization creates.
pub fn dirs(layout: &MinervaLayout) -> (v: Vec<String>)
    ensures
        v@.map_values(|s: String| s@) == init_dirs(layout.root_path()),
{
    let v = vec![
        layout.task_types_dir(),
        layout.tasks_dir(),
        layout.indexes_dir(),
        layout.contexts_dir(),
        layout.sessions_dir(),
        layout.locks_dir(),
        layout.minerva_dir(),
    ];
    assert(v@.map_values(|s: String| s@) =~= init_dirs(layout.root_path()));
    v
}

/// The name of a new project: the name of its root directory, `Minerva`
/// when the root has none.
pub open spec fn project_name_of(root: Seq<char>) -> Seq<char> {
    match file_name_of(root) {
        Some(n) => n,
        None => "Minerva"@,
    }
}

/// The name of a new project rooted at `root`.
pub fn project_name(root: &str) -> (n: String)
    ensures
        n@ == project_name_of(root@),
{
    match file_name(root) {
        Some(n) => n,
        None => owned("Minerva"),
    }
}

/// The settings of a new project, as plain values: its name, default
/// task type and status, its statuses (with whether each is terminal),
/// the permitted status changes, and its context policy.
#[derive(Debug)]
pub struct DefaultProject {
    pub schema_version: u32,
    pub name: String,
    pub default_task_type: String,
    pub default_status: String,
    pub statuses: Vec<StatusDocument>,
    pub transitions: Vec<TransitionDocument>,
    pub context_policy: (u32, u32, u32),
}

/// Whether `s` is the status `key`, terminal or not.
pub open spec fn status_is(s: StatusDocument, key: Seq<char>, terminal: bool) -> bool {
    s.key@ == key && s.terminal == terminal
}

/// Whether `t` permits the change from `from` to `to`.
pub open spec fn transition_is(t: TransitionDocument, from: Seq<char>, to: Seq<char>) -> bool {
    t.from@ == from && t.to@ == to
}

fn status(key: &str, terminal: bool) -> (s: StatusDocument)
    ensures
        status_is(s, key@, terminal),
{
    StatusDocument { key: owned(key), terminal }
}

fn transition(from: &str, to: &str) -> (t: TransitionDocument)
    ensures
        transition_is(t, from@, to@),
{
    TransitionDocument { from: owned(from), to: owned(to) }
}

/// The settings a project rooted at `root` starts with: named after its
/// directory, tasks of type `feature` starting in `backlog`, the statuses
/// `backlog`, `in-progress` and `completed` (the last terminal), work
/// moving from backlog to in progress, from in progress to completed and
/// back, and a context policy of 12, 2 and 24.
pub fn default_project(root: &str) -> (p: DefaultProject)
    ensures
        p.schema_version == 1,
        p.name@ == project_name_of(root@),
        p.default_task_type@ == "feature"@,
        p.default_status@ == "backlog"@,
        p.statuses@.len() == 3,
        status_is(p.statuses@[0], "backlog"@, false),
        status_is(p.statuses@[1], "in-progress"@, false),
        status_is(p.statuses@[2], "completed"@, true),
        p.transitions@.len() == 3,
        transition_is(p.transitions@[0], "backlog"@, "in-progress"@),
        transition_is(p.transitions@[1], "in-progress"@, "completed"@),
        transition_is(p.transitions@[2], "completed"@, "in-progress"@),
        p.context_policy == (12u32, 2u32, 24u32),
{
    DefaultProject {
        schema_version: 1,
        name: project_name(root),
        default_task_type: owned("feature"),
        default_status: owned("backlog"),
        statuses: vec![status("backlog", false), status("in-progress", false), status("completed", true)],
        transitions: vec![
            transition("backlog", "in-progress"),
            transition("in-progress", "completed"),
            transition("completed", "in-progress"),
        ],
        context_policy: (12, 2, 24),
    }
}

/// The `AGENTS.md` file of the project rooted at `root`.
pub fn agents_file(root: &str) -> (p: String)
    ensures
        p@ == join_path(root@, "AGENTS.md"@),
{
    join(root, "AGENTS.md")
}

/// `AGENTS.md` is written only where there is none.
pub fn should_write_agents_file(agents_file_exists: bool) -> (b: bool)
    ensures
        b == !agents_file_exists,
{
    !agents_file_exists
}

/// Whether preparing the project instructions writes them: only when the
/// file is missing.
pub open spec fn prepares_instructions(instructions_file_exists: bool) -> bool {
    !instructions_file_exists
}

/// The project instructions are written before they are handed out only
/// when the file is missing.
pub fn should_prepare_instructions(instructions_file_exists: bool) -> (b: bool)
    ensures
        b == prepares_instructions(instructions_file_exists),
{
    !instructions_file_exists
}

/// Preparing the instructions is idempotent: after one preparation the
/// file exists, whether it was written or was there already, so a second
/// preparation writes nothing.
pub proof fn lemma_prepare_instructions_once(instructions_file_exists: bool)
    ensures
        ({
            let exists_after = instructions_file_exists || prepares_instructions(instructions_file_exists);
            exists_after && !prepares_instructions(exists_after)
        }),
{
}

// ---------------------------------------------------------------------
// Locating a project
// ---------------------------------------------------------------------

pub proof fn lemma_parent_shorter(s: Seq<char>)
    ensures
        parent_of(s) matches Some(p) ==> p.len() < s.len(),
{
    crate::path::lemma_strip_tail_prefix(s);
    let t = strip_tail(s);
    if t.len() > 0 {
        crate::path::lemma_last_sep_bounds(t);
        if last_sep(t) >= 0 {
            crate::path::lemma_strip_tail_prefix(t.take(last_sep(t)));
        }
    }
}

/// `start` and the directories that hold it, innermost first, as std's
/// `Path::ancestors` yields them.
pub open spec fn ancestors_of(start: Seq<char>) -> Seq<Seq<char>>
    decreases start.len(),
{
    match parent_of(start) {
        None => seq![start],
        Some(p) => {
            proof {
                lemma_parent_shorter(start);
            }
            if p.len() < start.len() {
                seq![start] + ancestors_of(p)
            } else {
                seq![start]
            }
        },
    }
}

/// The candidates for the root of the project that holds `start`.
pub fn ancestors(start: &str) -> (v: Vec<String>)
    ensures
        v@.map_values(|s: String| s@) == ancestors_of(start@),
    decreases start@.len(),
{
    let mut v: Vec<String> = Vec::new();
    v.push(owned(start));
    proof {
        lemma_parent_shorter(start@);
    }
    match parent(start) {
        None => {
            assert(v@.map_values(|s: String| s@) =~= ancestors_of(start@));
            v
        },
        Some(p) => {
            let mut rest = ancestors(p.as_str());
            let ghost r = rest@;
            v.append(&mut rest);
            assert(v@.map_values(|s: String| s@) =~= seq![start@] + r.map_values(|s: String| s@));
            v
        },
    }
}

/// The root of the project that holds `start`: the first candidate whose
/// project file exists (`initialized[i]` for `candidates[i]`), or the
/// error that no project is initialized.
pub fn locate_project_root(candidates: &Vec<String>, initialized: &Vec<bool>) -> (r: Result<String, MinervaError>)
    requires
        candidates.len() == initialized.len(),
    ensures
        r matches Ok(root) ==> exists|i: int| 0 <= i < candidates@.len() && #[trigger] initialized@[i]
            && root@ == candidates@[i]@ && forall|j: int| 0 <= j < i ==> !initialized@[j],
        r is Err ==> (r == Err::<String, MinervaError>(MinervaError::ProjectNotInitialized) && forall|i: int|
            0 <= i < candidates@.len() ==> !initialized@[i]),
{
    let mut i: usize = 0;
    while i < candidates.len()
        invariant
            i <= candidates.len() == initialized.len(),
            forall|j: int| 0 <= j < i ==> !initialized@[j],
        decreases candidates.len() - i,
    {
        if initialized[i] {
            return Ok(owned(candidates[i].as_str()));
        }
        i = i + 1;
    }
    Err(MinervaError::ProjectNotInitialized)
}


/// The name of the directory a catalog entry documents: its relative path
/// without the closing separator.
pub open spec fn catalog_dir_name(rel: Seq<char>) -> Seq<char> {
    rel.drop_last()
}

/// Whether a catalog entry documents a directory: its relative path ends
/// with a separator.
pub open spec fn catalog_is_dir(rel: Seq<char>) -> bool {
    rel.len() > 0 && rel.last() == '/'
}

/// Initialization creates `.minerva` and every directory the project
/// catalog documents, under `.minerva`, and nothing else.
pub proof fn lemma_init_creates_catalog_dirs(root: Seq<char>)
    ensures
        init_dirs(root).contains(minerva_dir_of(root)),
        forall|i: int|
            0 <= i < project_catalog().len() && catalog_is_dir(#[trigger] project_catalog()[i].relative_path@)
                ==> init_dirs(root).contains(minerva_entry(root, catalog_dir_name(project_catalog()[i].relative_path@))),
        forall|j: int|
            0 <= j < init_dirs(root).len() && #[trigger] init_dirs(root)[j] != minerva_dir_of(root) ==> exists|i: int|
                0 <= i < project_catalog().len() && catalog_is_dir(project_catalog()[i].relative_path@) && init_dirs(
                    root,
                )[j] == minerva_entry(root, catalog_dir_name(#[trigger] project_catalog()[i].relative_path@)),
{
    crate::layout::lemma_catalog_dirs(root);
    let d = init_dirs(root);
    let c = project_catalog();
    assert(d[6] == minerva_dir_of(root));
    assert forall|i: int|
        0 <= i < c.len() && catalog_is_dir(#[trigger] c[i].relative_path@) implies d.contains(
            minerva_entry(root, catalog_dir_name(c[i].relative_path@)),
        ) by {
        assert(4 <= i < 10);
        assert(d[i - 4] == minerva_entry(root, catalog_dir_name(c[i].relative_path@)));
    }
    assert forall|j: int| 0 <= j < d.len() && #[trigger] d[j] != minerva_dir_of(root) implies exists|i: int|
        0 <= i < c.len() && catalog_is_dir(c[i].relative_path@) && d[j] == minerva_entry(
            root,
            catalog_dir_name(#[trigger] c[i].relative_path@),
        ) by {
        assert(j < 6);
        assert(catalog_is_dir(c[j + 4].relative_path@));
        assert(d[j] == minerva_entry(root, catalog_dir_name(c[j + 4].relative_path@)));
    }
}

}
