//! Safe repair of a project: what is recreated, removed or rebuilt, and
//! how each operation is reported.
//!
//! The file-system work is the caller's; the functions here decide which
//! repairs apply and describe them.

use vstd::prelude::*;
use crate::layout::{minerva_entry, project_catalog, task_entry, LayoutClass, MinervaLayout};
use crate::path::{
    file_name, file_name_of, join, join_path, parent, parent_of, relative, relative_to,
};
use crate::atomic_write::{lemma_decimal_no_sep, lemma_file_name_is_component, lemma_temp_path_name, temp_name, temp_path_of};
use crate::text::{
    occurs_at, append_str, concat, contains_seq, decimal, decimal_string, decimal_string_u128, owned,
    replace, replace_all, starts_with_char, str_contains, trim_start_char, trim_start_matches,
};

verus! {

/// What a repair is about.
#[derive(Debug, Clone, Copy, PartialEq, Eq, Structural)]
pub enum RepairKind {
    LayoutDirectory,
    TaskNotes,
    TemporaryFile,
    DerivedIndex,
}

/// How safe a repair is.
#[derive(Debug, Clone, Copy, PartialEq, Eq, Structural)]
pub enum RepairSafety {
    Safe,
}

/// What a repair does to its path.
#[derive(Debug, Clone, Copy, PartialEq, Eq, Structural)]
pub enum RepairAction {
    Create,
    Update,
    Remove,
}

/// One repair, performed or (in a dry run) planned.
#[derive(Debug)]
pub struct RepairOperation {
    pub kind: RepairKind,
    pub safety: RepairSafety,
    pub action: RepairAction,
    /// The repaired path, relative to the project root.
    pub path: String,
    /// Where the previous contents were saved, relative to the root.
    pub backup_path: Option<String>,
    pub message: String,
}

/// A problem that repair found but does not fix.
#[derive(Debug)]
pub struct RepairIssue {
    pub code: String,
    pub path: String,
    pub task_ref: Option<String>,
    pub message: String,
}

/// The outcome of a repair.
#[derive(Debug)]
pub struct RepairResult {
    pub operations: Vec<RepairOperation>,
    pub issues: Vec<RepairIssue>,
}

/// What a repair operation says.
pub struct OperationView {
    pub kind: RepairKind,
    pub action: RepairAction,
    pub path: Seq<char>,
    pub backup_path: Option<Seq<char>>,
    pub message: Seq<char>,
}

impl View for RepairOperation {
    type V = OperationView;

    open spec fn view(&self) -> OperationView {
        OperationView {
            kind: self.kind,
            action: self.action,
            path: self.path@,
            backup_path: crate::findings::opt_view(self.backup_path),
            message: self.message@,
        }
    }
}

/// What a list of operations says.
pub open spec fn operations_view(ops: Seq<RepairOperation>) -> Seq<OperationView> {
    ops.map_values(|o: RepairOperation| o@)
}

/// A safe operation with the given contents.
pub open spec fn op_view(
    kind: RepairKind,
    action: RepairAction,
    path: Seq<char>,
    backup_path: Option<Seq<char>>,
    message: Seq<char>,
) -> OperationView {
    OperationView { kind, action, path, backup_path, message }
}

// ---------------------------------------------------------------------
// Directories
// ---------------------------------------------------------------------

/// The derived and operational directories that repair recreates, in
/// order.
pub open spec fn repaired_dirs(root: Seq<char>) -> Seq<Seq<char>> {
    seq![
        minerva_entry(root, "indexes"@),
        minerva_entry(root, "contexts"@),
        minerva_entry(root, "sessions"@),
        minerva_entry(root, "locks"@),
    ]
}

/// The directories that repair recreates when missing.
pub fn repair_dirs(layout: &MinervaLayout) -> (v: Vec<String>)
    ensures
        v@.map_values(|s: String| s@) == repaired_dirs(layout.root_path()),
{
    let v = vec![layout.indexes_dir(), layout.contexts_dir(), layout.sessions_dir(), layout.locks_dir()];
    assert(v@.map_values(|s: String| s@) =~= repaired_dirs(layout.root_path()));
    v
}

/// The operations for the first `k` repaired directories, `present[i]`
/// telling whether the `i`-th exists.
pub open spec fn directory_ops(root: Seq<char>, present: Seq<bool>, k: int) -> Seq<OperationView>
    decreases k,
{
    if k <= 0 {
        Seq::empty()
    } else {
        let p = directory_ops(root, present, k - 1);
        if present[k - 1] {
            p
        } else {
            p.push(
                op_view(
                    RepairKind::LayoutDirectory,
                    RepairAction::Create,
                    relative_to(repaired_dirs(root)[k - 1], root),
                    None,
                    "recreated required derived or operational directory"@,
                ),
            )
        }
    }
}

/// The operations that recreate the missing directories of
/// [`repair_dirs`].
pub fn repair_directories(layout: &MinervaLayout, present: &Vec<bool>) -> (ops: Vec<RepairOperation>)
    requires
        present.len() == 4,
    ensures
        operations_view(ops@) == directory_ops(layout.root_path(), present@, 4),
        forall|i: int| 0 <= i < ops@.len() ==> (#[trigger] ops@[i]).safety == RepairSafety::Safe,
{
    let dirs = repair_dirs(layout);
    assert(dirs@.map_values(|s: String| s@).len() == 4);
    let mut ops: Vec<RepairOperation> = Vec::new();
    let mut i: usize = 0;
    while i < 4
        invariant
            i <= 4,
            present.len() == 4,
            dirs@.len() == 4,
            dirs@.map_values(|s: String| s@) == repaired_dirs(layout.root_path()),
            operations_view(ops@) == directory_ops(layout.root_path(), present@, i as int),
            forall|k: int| 0 <= k < ops@.len() ==> (#[trigger] ops@[k]).safety == RepairSafety::Safe,
        decreases 4 - i,
    {
        if !present[i] {
            assert(dirs@[i as int]@ == repaired_dirs(layout.root_path())[i as int]);
            let op = RepairOperation {
                kind: RepairKind::LayoutDirectory,
                safety: RepairSafety::Safe,
                action: RepairAction::Create,
                path: relative(dirs[i].as_str(), layout.root()),
                backup_path: None,
                message: owned("recreated required derived or operational directory"),
            };
            let ghost before = ops@;
            let ghost ov = op@;
            ops.push(op);
            assert(operations_view(ops@) =~= operations_view(before).push(ov));
        }
        i = i + 1;
    }
    ops
}

// ---------------------------------------------------------------------
// Task notes
// ---------------------------------------------------------------------

/// A task directory seen by the notes repair.
#[derive(Debug)]
pub struct NotesCandidate {
    /// The text of the task's identifier.
    pub task_id: String,
    /// Whether its notes file exists.
    pub notes_present: bool,
    /// Whether its task record exists.
    pub task_file_present: bool,
}

/// The operations for the first `k` candidates: empty notes are recreated
/// for a task whose record exists but whose notes are missing.
pub open spec fn notes_ops(root: Seq<char>, cs: Seq<NotesCandidate>, k: int) -> Seq<OperationView>
    decreases k,
{
    if k <= 0 {
        Seq::empty()
    } else {
        let p = notes_ops(root, cs, k - 1);
        let c = cs[k - 1];
        if c.notes_present || !c.task_file_present {
            p
        } else {
            p.push(
                op_view(
                    RepairKind::TaskNotes,
                    RepairAction::Create,
                    relative_to(task_entry(root, c.task_id@, "notes.md"@), root),
                    None,
                    "recreated missing empty task notes file"@,
                ),
            )
        }
    }
}

/// Whether the notes of a task need recreating.
pub fn needs_notes(c: &NotesCandidate) -> (b: bool)
    ensures
        b == (!c.notes_present && c.task_file_present),
{
    !c.notes_present && c.task_file_present
}

/// The operations that recreate missing task notes.
pub fn repair_notes(layout: &MinervaLayout, candidates: &Vec<NotesCandidate>) -> (ops: Vec<RepairOperation>)
    ensures
        operations_view(ops@) == notes_ops(layout.root_path(), candidates@, candidates@.len() as int),
{
    let mut ops: Vec<RepairOperation> = Vec::new();
    let mut i: usize = 0;
    while i < candidates.len()
        invariant
            i <= candidates.len(),
            operations_view(ops@) == notes_ops(layout.root_path(), candidates@, i as int),
        decreases candidates.len() - i,
    {
        let c = &candidates[i];
        if needs_notes(c) {
            let notes = layout.notes_file(c.task_id.as_str());
            let op = RepairOperation {
                kind: RepairKind::TaskNotes,
                safety: RepairSafety::Safe,
                action: RepairAction::Create,
                path: relative(notes.as_str(), layout.root()),
                backup_path: None,
                message: owned("recreated missing empty task notes file"),
            };
            let ghost before = ops@;
            let ghost ov = op@;
            ops.push(op);
            assert(operations_view(ops@) =~= operations_view(before).push(ov));
        }
        i = i + 1;
    }
    ops
}

// ---------------------------------------------------------------------
// Abandoned temporary files
// ---------------------------------------------------------------------

/// Whether a file is a temporary file left behind by an interrupted
/// atomic replacement: its name starts with `.` and holds `.tmp.`.
pub open spec fn abandoned_temp(path: Seq<char>) -> bool {
    match file_name_of(path) {
        Some(n) => n[0] == '.' && contains_seq(n, ".tmp."@),
        None => false,
    }
}

/// Whether `path` is an abandoned temporary file.
pub fn is_abandoned_temp(path: &str) -> (b: bool)
    ensures
        b == abandoned_temp(path@),
{
    match file_name(path) {
        None => false,
        Some(n) => starts_with_char(n.as_str(), '.') && str_contains(n.as_str(), ".tmp."),
    }
}

/// The files among `paths` that are abandoned temporary files, in order.
pub open spec fn abandoned_among(paths: Seq<Seq<char>>) -> Seq<Seq<char>>
    decreases paths.len(),
{
    if paths.len() == 0 {
        Seq::empty()
    } else {
        let rest = abandoned_among(paths.drop_last());
        if abandoned_temp(paths.last()) {
            rest.push(paths.last())
        } else {
            rest
        }
    }
}

/// The files among `paths` (every file under `.minerva`) that repair is
/// to back up and remove.
pub fn abandoned_temps(paths: &Vec<String>) -> (r: Vec<String>)
    ensures
        r@.map_values(|s: String| s@) == abandoned_among(paths@.map_values(|s: String| s@)),
{
    let ghost all = paths@.map_values(|s: String| s@);
    let mut r: Vec<String> = Vec::new();
    let mut i: usize = 0;
    while i < paths.len()
        invariant
            i <= paths.len(),
            all == paths@.map_values(|s: String| s@),
            r@.map_values(|s: String| s@) == abandoned_among(all.take(i as int)),
        decreases paths.len() - i,
    {
        assert(all.take(i + 1).drop_last() =~= all.take(i as int));
        assert(all.take(i + 1).last() == paths@[i as int]@);
        if is_abandoned_temp(paths[i].as_str()) {
            let ghost before = r@;
            r.push(owned(paths[i].as_str()));
            assert(r@.map_values(|s: String| s@) =~= before.map_values(|s: String| s@).push(paths@[i as int]@));
        }
        i = i + 1;
    }
    assert(all.take(paths.len() as int) =~= all);
    r
}

/// `path` with its final name replaced by `name` (std
/// `Path::with_file_name`).
pub open spec fn with_file_name_of(path: Seq<char>, name: Seq<char>) -> Seq<char> {
    match file_name_of(path) {
        None => join_path(path, name),
        Some(_) => match parent_of(path) {
            Some(p) => join_path(p, name),
            None => join_path(Seq::empty(), name),
        },
    }
}

/// `path` with its final name replaced by `name`.
pub fn with_file_name(path: &str, name: &str) -> (r: String)
    ensures
        r@ == with_file_name_of(path@, name@),
{
    match file_name(path) {
        None => join(path, name),
        Some(_) => match parent(path) {
            Some(p) => join(p.as_str(), name),
            None => join("", name),
        },
    }
}

/// The name of the backup that repair takes of a file before removing it,
/// at `stamp` nanoseconds after the epoch: `safe-repair-backup-<stamp>-`
/// and the file's name (`repair` when it has none) without its leading
/// dots and with `.tmp.` turned into `.tmp-backup.`.
pub open spec fn repair_backup_name(path: Seq<char>, stamp: u128) -> Seq<char> {
    let name = match file_name_of(path) {
        Some(n) => n,
        None => "repair"@,
    };
    "safe-repair-backup-"@ + decimal(stamp as nat) + "-"@ + replace_all(
        trim_start_char(name, '.'),
        ".tmp."@,
        ".tmp-backup."@,
    )
}

/// Where repair saves a file before removing it.
pub fn repair_backup_path(path: &str, stamp: u128) -> (r: String)
    ensures
        r@ == with_file_name_of(path@, repair_backup_name(path@, stamp)),
{
    let name = match file_name(path) {
        Some(n) => n,
        None => owned("repair"),
    };
    let trimmed = trim_start_matches(name.as_str(), '.');
    proof {
        reveal_strlit(".tmp.");
    }
    let renamed = replace(trimmed.as_str(), ".tmp.", ".tmp-backup.");
    let mut n = concat("safe-repair-backup-", decimal_string_u128(stamp).as_str());
    append_str(&mut n, "-");
    append_str(&mut n, renamed.as_str());
    with_file_name(path, n.as_str())
}

/// The operation that removes an abandoned temporary file after saving it
/// at `backup`.
pub fn temp_file_operation(layout: &MinervaLayout, path: &str, backup: &str) -> (op: RepairOperation)
    ensures
        op@ == op_view(
            RepairKind::TemporaryFile,
            RepairAction::Remove,
            relative_to(path@, layout.root_path()),
            Some(relative_to(backup@, layout.root_path())),
            "removed abandoned temporary file after creating backup"@,
        ),
        op.safety == RepairSafety::Safe,
{
    RepairOperation {
        kind: RepairKind::TemporaryFile,
        safety: RepairSafety::Safe,
        action: RepairAction::Remove,
        path: relative(path, layout.root()),
        backup_path: Some(relative(backup, layout.root())),
        message: owned("removed abandoned temporary file after creating backup"),
    }
}

/// The view of the operation that removes the temporary file `path`
/// after saving it at `backup`.
pub open spec fn temp_file_op_view(root: Seq<char>, path: Seq<char>, backup: Seq<char>) -> OperationView {
    op_view(
        RepairKind::TemporaryFile,
        RepairAction::Remove,
        relative_to(path, root),
        Some(relative_to(backup, root)),
        "removed abandoned temporary file after creating backup"@,
    )
}

/// The operations of the temporary-file repair: one for each abandoned
/// file `temps[i]`, saved at `backups[i]`, in order.
pub fn temp_file_operations(layout: &MinervaLayout, temps: &Vec<String>, backups: &Vec<String>) -> (ops: Vec<
    RepairOperation,
>)
    requires
        temps.len() == backups.len(),
    ensures
        ops@.len() == temps@.len(),
        forall|i: int| 0 <= i < ops@.len() ==> (#[trigger] ops@[i])@ == temp_file_op_view(
            layout.root_path(),
            temps@[i]@,
            backups@[i]@,
        ) && ops@[i].safety == RepairSafety::Safe,
{
    let mut ops: Vec<RepairOperation> = Vec::new();
    let mut i: usize = 0;
    while i < temps.len()
        invariant
            i <= temps.len() == backups.len(),
            ops@.len() == i,
            forall|k: int| 0 <= k < i ==> (#[trigger] ops@[k])@ == temp_file_op_view(
                layout.root_path(),
                temps@[k]@,
                backups@[k]@,
            ) && ops@[k].safety == RepairSafety::Safe,
        decreases temps.len() - i,
    {
        ops.push(temp_file_operation(layout, temps[i].as_str(), backups[i].as_str()));
        i = i + 1;
    }
    ops
}

// ---------------------------------------------------------------------
// The task index
// ---------------------------------------------------------------------

/// What rebuilding the task index did to it.
#[derive(Debug, Clone, Copy, PartialEq, Eq, Structural)]
pub enum RebuildAction {
    NoChange,
    Create,
    Update,
}

/// A task that could not be indexed.
#[derive(Debug)]
pub struct RebuildTaskError {
    pub path: String,
    pub task_ref: String,
    pub reason: String,
}

/// The outcome of rebuilding the task index.
#[derive(Debug)]
pub struct RebuildResult {
    pub index_action: RebuildAction,
    pub index_path: String,
    pub task_errors: Vec<RebuildTaskError>,
}

/// The repair action that reports a rebuild action.
pub open spec fn repair_action_of(a: RebuildAction) -> RepairAction {
    match a {
        RebuildAction::Create => RepairAction::Create,
        _ => RepairAction::Update,
    }
}

/// The repair action that reports a rebuild action.
pub fn action(a: RebuildAction) -> (r: RepairAction)
    ensures
        r == repair_action_of(a),
{
    match a {
        RebuildAction::Create => RepairAction::Create,
        RebuildAction::Update | RebuildAction::NoChange => RepairAction::Update,
    }
}

/// The issue reported for a task that could not be indexed.
pub fn issue(e: RebuildTaskError) -> (i: RepairIssue)
    ensures
        i.code@ == "invalid_task"@,
        i.path == e.path,
        i.task_ref == Some(e.task_ref),
        i.message == e.reason,
{
    RepairIssue { code: owned("invalid_task"), path: e.path, task_ref: Some(e.task_ref), message: e.reason }
}

/// The operations and issues of the index repair: an operation when the
/// rebuild created or updated the index, an issue per task it could not
/// index.
pub fn index_repair(result: RebuildResult) -> (r: (Vec<RepairOperation>, Vec<RepairIssue>))
    ensures
        result.index_action == RebuildAction::NoChange ==> r.0@.len() == 0,
        result.index_action != RebuildAction::NoChange ==> operations_view(r.0@) == seq![
            op_view(
                RepairKind::DerivedIndex,
                repair_action_of(result.index_action),
                result.index_path@,
                None,
                "rebuilt derived task index"@,
            ),
        ],
        r.1@.len() == result.task_errors@.len(),
        forall|i: int| 0 <= i < r.1@.len() ==> {
            &&& (#[trigger] r.1@[i]).code@ == "invalid_task"@
            &&& r.1@[i].path == result.task_errors@[i].path
            &&& r.1@[i].task_ref == Some(result.task_errors@[i].task_ref)
            &&& r.1@[i].message == result.task_errors@[i].reason
        },
{
    let mut ops: Vec<RepairOperation> = Vec::new();
    let RebuildResult { index_action, index_path, task_errors } = result;
    match index_action {
        RebuildAction::NoChange => {},
        _ => {
            let op = RepairOperation {
                kind: RepairKind::DerivedIndex,
                safety: RepairSafety::Safe,
                action: action(index_action),
                path: index_path,
                backup_path: None,
                message: owned("rebuilt derived task index"),
            };
            ops.push(op);
            assert(operations_view(ops@) =~= seq![op@]);
        },
    }
    let ghost errs = task_errors@;
    assert(errs.len() == task_errors.len());
    let mut rest = task_errors;
    let mut issues: Vec<RepairIssue> = Vec::new();
    let mut k: usize = 0;
    assert(errs.skip(0) =~= errs);
    while rest.len() > 0
        invariant
            k + rest@.len() == errs.len(),
            errs.len() <= usize::MAX,
            rest@ == errs.skip(k as int),
            issues@.len() == k,
            forall|i: int| 0 <= i < k ==> {
                &&& (#[trigger] issues@[i]).code@ == "invalid_task"@
                &&& issues@[i].path == errs[i].path
                &&& issues@[i].task_ref == Some(errs[i].task_ref)
                &&& issues@[i].message == errs[i].reason
            },
        decreases rest@.len(),
    {
        let e = rest.remove(0);
        assert(e == errs[k as int]);
        assert(rest@ =~= errs.skip(k + 1));
        issues.push(issue(e));
        k = k + 1;
    }
    (ops, issues)
}

/// The outcome of a repair: the operations on directories, notes,
/// temporary files and the index, in that order, and the index issues.
pub fn repair_result(
    directories: Vec<RepairOperation>,
    notes: Vec<RepairOperation>,
    temp_files: Vec<RepairOperation>,
    index: Vec<RepairOperation>,
    issues: Vec<RepairIssue>,
) -> (r: RepairResult)
    ensures
        r.operations@ == directories@ + notes@ + temp_files@ + index@,
        r.issues@ == issues@,
{
    let mut operations = directories;
    let mut notes = notes;
    let mut temp_files = temp_files;
    let mut index = index;
    operations.append(&mut notes);
    operations.append(&mut temp_files);
    operations.append(&mut index);
    RepairResult { operations, issues }
}


/// Every temporary file that a replacement creates is recognised by
/// repair as an abandoned temporary file.
pub proof fn lemma_temp_files_are_abandoned(path: Seq<char>, pid: u32)
    ensures
        abandoned_temp(temp_path_of(path, pid)),
{
    reveal_strlit(".tmp.");
    lemma_temp_path_name(path, pid);
    let name = match file_name_of(path) {
        Some(n) => n,
        None => "minerva"@,
    };
    let tn = temp_name(name, pid);
    assert(tn.subrange(1 + name.len() as int, 6 + name.len() as int) =~= ".tmp."@);
    assert(occurs_at(tn, ".tmp."@, 1 + name.len() as int));
}

proof fn lemma_trim_keeps_no_sep(s: Seq<char>, c: char)
    requires
        forall|i: int| 0 <= i < s.len() ==> #[trigger] s[i] != '/',
    ensures
        forall|i: int| 0 <= i < trim_start_char(s, c).len() ==> #[trigger] trim_start_char(s, c)[i] != '/',
    decreases s.len(),
{
    if s.len() > 0 && s[0] == c {
        assert forall|i: int| 0 <= i < s.drop_first().len() implies #[trigger] s.drop_first()[i] != '/' by {
            assert(s.drop_first()[i] == s[i + 1]);
        }
        lemma_trim_keeps_no_sep(s.drop_first(), c);
        assert(trim_start_char(s, c) == trim_start_char(s.drop_first(), c));
    } else {
        assert(trim_start_char(s, c) == s);
    }
}

proof fn lemma_replace_keeps_no_sep(s: Seq<char>, pat: Seq<char>, rep: Seq<char>)
    requires
        forall|i: int| 0 <= i < s.len() ==> #[trigger] s[i] != '/',
        forall|i: int| 0 <= i < rep.len() ==> #[trigger] rep[i] != '/',
    ensures
        forall|i: int| 0 <= i < replace_all(s, pat, rep).len() ==> #[trigger] replace_all(s, pat, rep)[i] != '/',
    decreases s.len(),
{
    if s.len() == 0 || pat.len() == 0 {
    } else if s.len() >= pat.len() && s.take(pat.len() as int) == pat {
        let t = s.skip(pat.len() as int);
        assert forall|i: int| 0 <= i < t.len() implies #[trigger] t[i] != '/' by {
            assert(t[i] == s[i + pat.len()]);
        }
        lemma_replace_keeps_no_sep(t, pat, rep);
        let r = replace_all(s, pat, rep);
        assert forall|i: int| 0 <= i < r.len() implies #[trigger] r[i] != '/' by {
            if i >= rep.len() {
                assert(r[i] == replace_all(t, pat, rep)[i - rep.len()]);
            }
        }
    } else {
        let t = s.drop_first();
        assert forall|i: int| 0 <= i < t.len() implies #[trigger] t[i] != '/' by {
            assert(t[i] == s[i + 1]);
        }
        lemma_replace_keeps_no_sep(t, pat, rep);
        let r = replace_all(s, pat, rep);
        assert forall|i: int| 0 <= i < r.len() implies #[trigger] r[i] != '/' by {
            if i >= 1 {
                assert(r[i] == replace_all(t, pat, rep)[i - 1]);
            }
        }
    }
}

/// A backup taken by repair is never itself taken for an abandoned
/// temporary file: its name begins with `safe-repair-backup-`.
pub proof fn lemma_backup_not_abandoned(path: Seq<char>, stamp: u128)
    ensures
        !abandoned_temp(with_file_name_of(path, repair_backup_name(path, stamp))),
{
    reveal_strlit("safe-repair-backup-");
    reveal_strlit("-");
    reveal_strlit("repair");
    reveal_strlit(".tmp-backup.");
    lemma_file_name_is_component(path);
    lemma_decimal_no_sep(stamp as nat);
    let name = match file_name_of(path) {
        Some(n) => n,
        None => "repair"@,
    };
    assert forall|i: int| 0 <= i < name.len() implies #[trigger] name[i] != '/' by {}
    lemma_trim_keeps_no_sep(name, '.');
    let t = trim_start_char(name, '.');
    assert forall|i: int| 0 <= i < ".tmp-backup."@.len() implies #[trigger] ".tmp-backup."@[i] != '/' by {}
    lemma_replace_keeps_no_sep(t, ".tmp."@, ".tmp-backup."@);
    let r = replace_all(t, ".tmp."@, ".tmp-backup."@);
    let d = decimal(stamp as nat);
    let bn = repair_backup_name(path, stamp);
    assert(bn =~= "safe-repair-backup-"@ + d + "-"@ + r);
    assert forall|i: int| 0 <= i < bn.len() implies #[trigger] bn[i] != '/' by {
        if i < 19 {
            assert(bn[i] == "safe-repair-backup-"@[i]);
        } else if i < 19 + d.len() {
            assert(bn[i] == d[i - 19]);
        } else if i == 19 + d.len() {
        } else {
            assert(bn[i] == r[i - 20 - d.len()]);
        }
    }
    assert(bn[0] == 's');
    let base = match file_name_of(path) {
        None => path,
        Some(_) => match parent_of(path) {
            Some(p) => p,
            None => Seq::<char>::empty(),
        },
    };
    assert(with_file_name_of(path, bn) == join_path(base, bn));
    crate::path::lemma_file_name_of_join(base, bn);
}


/// Repair recreates exactly the directories that the project catalog
/// classes as derived or operational, under `.minerva`, each once: the
/// canonical files and directories are never recreated by it.
pub proof fn lemma_repair_dirs_are_rebuildable_catalog_dirs(root: Seq<char>)
    ensures
        forall|i: int|
            0 <= i < project_catalog().len() && (#[trigger] project_catalog()[i]).class != LayoutClass::Canonical
                ==> repaired_dirs(root).contains(minerva_entry(root, project_catalog()[i].relative_path@.drop_last())),
        forall|j: int|
            0 <= j < repaired_dirs(root).len() ==> exists|i: int|
                0 <= i < project_catalog().len() && project_catalog()[i].class != LayoutClass::Canonical
                    && #[trigger] repaired_dirs(root)[j] == minerva_entry(
                    root,
                    (#[trigger] project_catalog()[i]).relative_path@.drop_last(),
                ),
        forall|j: int, k: int|
            0 <= j < k < repaired_dirs(root).len() ==> #[trigger] repaired_dirs(root)[j] != #[trigger] repaired_dirs(
                root,
            )[k],
{
    crate::layout::lemma_catalog_dirs(root);
    crate::layout::lemma_entries_in_minerva_dir(root);
    let d = repaired_dirs(root);
    let c = project_catalog();
    let names = crate::layout::entry_names();
    assert(d[0] == minerva_entry(root, names[6]));
    assert(d[1] == minerva_entry(root, names[7]));
    assert(d[2] == minerva_entry(root, names[8]));
    assert(d[3] == minerva_entry(root, names[9]));
    assert forall|i: int|
        0 <= i < c.len() && (#[trigger] c[i]).class != LayoutClass::Canonical implies d.contains(
            minerva_entry(root, c[i].relative_path@.drop_last()),
        ) by {
        assert(6 <= i < 10);
        assert(d[i - 6] == minerva_entry(root, c[i].relative_path@.drop_last()));
    }
    assert forall|j: int| 0 <= j < d.len() implies exists|i: int|
        0 <= i < c.len() && c[i].class != LayoutClass::Canonical && #[trigger] d[j] == minerva_entry(
            root,
            (#[trigger] c[i]).relative_path@.drop_last(),
        ) by {
        assert(d[j] == minerva_entry(root, c[j + 6].relative_path@.drop_last()));
    }
    assert forall|j: int, k: int| 0 <= j < k < d.len() implies #[trigger] d[j] != #[trigger] d[k] by {
        assert(minerva_entry(root, names[j + 6]) != minerva_entry(root, names[k + 6]));
    }
}

}
