//! Project validation: turning what was read from a project into findings.
//!
//! Reading the files is the caller's; each function here takes what was
//! read (whether a file exists, what parsing it gave) and records the
//! findings that the project's rules call for.

use vstd::prelude::*;
use crate::error::{error_text, MinervaError};
use crate::event_log::TaskEventLogIssue;
use crate::findings::{
    error, findings_view, fview, info, push_finding, sort_findings, stably_sorted_by, warning,
    FindingView, ProjectValidationFinding, ProjectValidationResult, ValidationSeverity,
};
use crate::layout::{minerva_entry, task_entry, MinervaLayout};
use crate::path::{join, join_path};
use crate::task_index::TaskIndexStatus;
use crate::text::{append_str, chars_of, concat, contains, contains_seq, decimal, decimal_string, owned};

verus! {

// ---------------------------------------------------------------------
// Errors as findings
// ---------------------------------------------------------------------

/// The message of a finding about `err`: the reason of a schema or
/// configuration error, a sentence for a missing task, and the error's
/// text otherwise.
pub open spec fn message_of(err: MinervaError) -> Seq<char> {
    match err {
        MinervaError::SchemaError { reason, .. } => reason@,
        MinervaError::InvalidConfiguration { reason, .. } => reason@,
        MinervaError::TaskNotFound { task_ref } => "task `"@ + task_ref@ + "` was not found"@,
        other => error_text(other),
    }
}

/// The message of a finding about `err`.
pub fn error_message(err: &MinervaError) -> (m: String)
    ensures
        m@ == message_of(*err),
{
    match err {
        MinervaError::SchemaError { reason, .. } => owned(reason.as_str()),
        MinervaError::InvalidConfiguration { reason, .. } => owned(reason.as_str()),
        MinervaError::TaskNotFound { task_ref } => {
            let mut m = concat("task `", task_ref.as_str());
            append_str(&mut m, "` was not found");
            m
        },
        _ => err.describe(),
    }
}

/// The code of a finding about `err`: `missing_file` when a file was
/// missing, `schema_version` when the schema version was at fault, and
/// `default_code` otherwise.
pub open spec fn classification(err: MinervaError, default_code: Seq<char>) -> Seq<char> {
    match err {
        MinervaError::SchemaError { reason, .. } => if reason@ == "required file is missing"@ {
            "missing_file"@
        } else if contains_seq(reason@, "schema_version"@) || contains_seq(
            reason@,
            "unsupported schema version"@,
        ) {
            "schema_version"@
        } else {
            default_code
        },
        MinervaError::InvalidConfiguration { key, reason } => if reason@ == "required file is missing"@ {
            "missing_file"@
        } else if key@ == "schema_version"@ {
            "schema_version"@
        } else {
            default_code
        },
        _ => default_code,
    }
}

/// Whether `s` reads `lit`.
fn text_is(s: &String, lit: &str) -> (b: bool)
    ensures
        b == (s@ == lit@),
{
    let l = owned(lit);
    *s == l
}

/// Whether `lit` occurs in `s`.
fn text_has(s: &String, lit: &str) -> (b: bool)
    ensures
        b == contains_seq(s@, lit@),
{
    let h = chars_of(s.as_str());
    let n = chars_of(lit);
    contains(&h, &n)
}

/// The code of a finding about `err`.
pub fn classify<'a>(err: &MinervaError, default_code: &'a str) -> (c: &'a str)
    ensures
        c@ == classification(*err, default_code@),
{
    match err {
        MinervaError::SchemaError { reason, .. } => {
            if text_is(reason, "required file is missing") {
                "missing_file"
            } else if text_has(reason, "schema_version") || text_has(reason, "unsupported schema version") {
                "schema_version"
            } else {
                default_code
            }
        },
        MinervaError::InvalidConfiguration { key, reason } => {
            if text_is(reason, "required file is missing") {
                "missing_file"
            } else if text_is(key, "schema_version") {
                "schema_version"
            } else {
                default_code
            }
        },
        _ => default_code,
    }
}

/// An error finding about a task file that could not be read: it names the
/// task's `task.yaml`.
pub fn task_error(
    layout: &MinervaLayout,
    task_id: &str,
    default_code: &str,
    task_ref: &str,
    err: &MinervaError,
) -> (f: ProjectValidationFinding)
    ensures
        f@ == fview(
            ValidationSeverity::Error,
            classification(*err, default_code@),
            task_entry(layout.root_path(), task_id@, "task.yaml"@),
            Some(task_ref@),
            message_of(*err),
        ),
{
    let path = layout.task_file(task_id);
    error(classify(err, default_code), path.as_str(), Some(task_ref), error_message(err))
}

/// An error finding about a project file that could not be read.
pub fn project_error(path: &str, default_code: &str, err: &MinervaError) -> (f: ProjectValidationFinding)
    ensures
        f@ == fview(
            ValidationSeverity::Error,
            classification(*err, default_code@),
            path@,
            None,
            message_of(*err),
        ),
{
    error(classify(err, default_code), path, None, error_message(err))
}

// ---------------------------------------------------------------------
// The index
// ---------------------------------------------------------------------

/// The finding about the task index, given its status or the error met
/// while reading it.
pub open spec fn index_finding(path: Seq<char>, status: Result<TaskIndexStatus, MinervaError>) -> FindingView {
    match status {
        Ok(TaskIndexStatus::Fresh) => fview(
            ValidationSeverity::Information,
            "stale_index"@,
            path,
            None,
            "task index is current"@,
        ),
        Ok(TaskIndexStatus::Missing) => fview(
            ValidationSeverity::Warning,
            "stale_index"@,
            path,
            None,
            "task index is missing"@,
        ),
        Ok(TaskIndexStatus::Stale) => fview(
            ValidationSeverity::Warning,
            "stale_index"@,
            path,
            None,
            "task index is stale"@,
        ),
        Err(err) => fview(ValidationSeverity::Warning, "stale_index"@, path, None, message_of(err)),
    }
}

/// Records the finding about the task index at `path`.
pub fn validate_index(
    path: &str,
    status: &Result<TaskIndexStatus, MinervaError>,
    findings: &mut Vec<ProjectValidationFinding>,
)
    ensures
        findings_view(final(findings)@) == findings_view(old(findings)@).push(index_finding(path@, *status)),
{
    let f = match status {
        Ok(TaskIndexStatus::Fresh) => info("stale_index", path, None, owned("task index is current")),
        Ok(TaskIndexStatus::Missing) => warning("stale_index", path, None, owned("task index is missing")),
        Ok(TaskIndexStatus::Stale) => warning("stale_index", path, None, owned("task index is stale")),
        Err(err) => warning("stale_index", path, None, error_message(err)),
    };
    push_finding(findings, f);
}

// ---------------------------------------------------------------------
// The project layout
// ---------------------------------------------------------------------

/// The files and directories that a project must have, in the order they
/// are checked.
pub open spec fn required_project_paths(root: Seq<char>) -> Seq<Seq<char>> {
    seq![
        minerva_entry(root, "project.yaml"@),
        minerva_entry(root, "config.yaml"@),
        minerva_entry(root, "instructions.md"@),
        minerva_entry(root, "schema-version"@),
        minerva_entry(root, "task-types"@),
        minerva_entry(root, "tasks"@),
    ]
}

/// The required project paths.
pub fn required_paths(layout: &MinervaLayout) -> (v: Vec<String>)
    ensures
        v@.map_values(|s: String| s@) == required_project_paths(layout.root_path()),
{
    let v = vec![
        layout.project_file(),
        layout.config_file(),
        layout.instructions_file(),
        layout.schema_version_file(),
        layout.task_types_dir(),
        layout.tasks_dir(),
    ];
    assert(v@.map_values(|s: String| s@) =~= required_project_paths(layout.root_path()));
    v
}

/// The findings for the paths of `paths` whose `present` flag is false:
/// a missing file each, attributed to `task_ref`.
pub open spec fn missing_findings(
    paths: Seq<Seq<char>>,
    present: Seq<bool>,
    task_ref: Option<Seq<char>>,
    k: int,
) -> Seq<FindingView>
    decreases k,
{
    if k <= 0 {
        Seq::empty()
    } else {
        let p = missing_findings(paths, present, task_ref, k - 1);
        if present[k - 1] {
            p
        } else {
            p.push(
                fview(ValidationSeverity::Error, "missing_file"@, paths[k - 1], task_ref, "required file is missing"@),
            )
        }
    }
}

/// Records a missing-file finding for each path whose `present` flag is
/// false.
fn record_missing(
    paths: &Vec<String>,
    present: &Vec<bool>,
    task_ref: Option<&str>,
    findings: &mut Vec<ProjectValidationFinding>,
)
    requires
        paths.len() == present.len(),
    ensures
        findings_view(final(findings)@) == findings_view(old(findings)@) + missing_findings(
            paths@.map_values(|s: String| s@),
            present@,
            crate::findings::opt_str_view(task_ref),
            paths.len() as int,
        ),
{
    let ghost ps = paths@.map_values(|s: String| s@);
    let ghost start = findings_view(findings@);
    let mut i: usize = 0;
    while i < paths.len()
        invariant
            i <= paths.len() == present.len(),
            ps == paths@.map_values(|s: String| s@),
            findings_view(findings@) == start + missing_findings(
                ps,
                present@,
                crate::findings::opt_str_view(task_ref),
                i as int,
            ),
        decreases paths.len() - i,
    {
        if !present[i] {
            let f = error("missing_file", paths[i].as_str(), task_ref, owned("required file is missing"));
            push_finding(findings, f);
        }
        i = i + 1;
    }
}

/// The only contents of the schema marker file.
pub open spec fn schema_marker_text() -> Seq<char> {
    "1\n"@
}

/// The findings of the layout check: a missing file for each required
/// path that is absent, then a schema finding when the schema marker is
/// present but does not read exactly `1\n`, or cannot be read (`None`).
pub open spec fn layout_findings(
    root: Seq<char>,
    present: Seq<bool>,
    marker_present: bool,
    marker: Option<Seq<char>>,
) -> Seq<FindingView> {
    let missing = missing_findings(required_project_paths(root), present, None, 6);
    if marker_present && marker != Some(schema_marker_text()) {
        missing.push(
            fview(
                ValidationSeverity::Error,
                "schema_version"@,
                minerva_entry(root, "schema-version"@),
                None,
                "schema marker must be 1"@,
            ),
        )
    } else {
        missing
    }
}

/// Records the findings of the layout check. `present[i]` tells whether
/// the `i`-th required path exists; `marker_present` whether the schema
/// marker exists, and `marker` what it reads, `None` if it could not be
/// read.
pub fn validate_layout(
    layout: &MinervaLayout,
    present: &Vec<bool>,
    marker_present: bool,
    marker: &Option<String>,
    findings: &mut Vec<ProjectValidationFinding>,
)
    requires
        present.len() == 6,
    ensures
        findings_view(final(findings)@) == findings_view(old(findings)@) + layout_findings(
            layout.root_path(),
            present@,
            marker_present,
            crate::findings::opt_view(*marker),
        ),
{
    let paths = required_paths(layout);
    let ghost start = findings_view(findings@);
    assert(paths@.map_values(|s: String| s@).len() == 6);
    assert(paths.len() == 6);
    record_missing(&paths, present, None, findings);
    let ghost miss = missing_findings(required_project_paths(layout.root_path()), present@, None, 6);
    assert(findings_view(findings@) == start + miss);
    let marker_ok = match marker {
        Some(m) => text_is(m, "1\n"),
        None => false,
    };
    if marker_present && !marker_ok {
        let f = error(
            "schema_version",
            layout.schema_version_file().as_str(),
            None,
            owned("schema marker must be 1"),
        );
        push_finding(findings, f);
        assert((start + miss).push(f@) =~= start + miss.push(f@));
        assert(findings_view(findings@) =~= start + layout_findings(
            layout.root_path(),
            present@,
            marker_present,
            crate::findings::opt_view(*marker),
        ));
    } else {
        assert(findings_view(findings@) =~= start + layout_findings(
            layout.root_path(),
            present@,
            marker_present,
            crate::findings::opt_view(*marker),
        ));
    }
}


// ---------------------------------------------------------------------
// Task files
// ---------------------------------------------------------------------

/// The files that each task must have, in the order they are checked.
pub open spec fn required_task_paths(root: Seq<char>, task_id: Seq<char>) -> Seq<Seq<char>> {
    seq![
        task_entry(root, task_id, "task.yaml"@),
        task_entry(root, task_id, "instructions.md"@),
        task_entry(root, task_id, "declaration.md"@),
        task_entry(root, task_id, "notes.md"@),
        task_entry(root, task_id, "events.jsonl"@),
    ]
}

/// The required files of a task.
pub fn required_task_files(layout: &MinervaLayout, task_id: &str) -> (v: Vec<String>)
    ensures
        v@.map_values(|s: String| s@) == required_task_paths(layout.root_path(), task_id@),
{
    let v = vec![
        layout.task_file(task_id),
        layout.task_instructions_file(task_id),
        layout.declaration_file(task_id),
        layout.notes_file(task_id),
        layout.events_file(task_id),
    ];
    assert(v@.map_values(|s: String| s@) =~= required_task_paths(layout.root_path(), task_id@));
    v
}

/// The finding for a task file that could not be read.
pub open spec fn task_error_view(
    root: Seq<char>,
    task_id: Seq<char>,
    default_code: Seq<char>,
    task_ref: Seq<char>,
    err: MinervaError,
) -> FindingView {
    fview(
        ValidationSeverity::Error,
        classification(err, default_code),
        task_entry(root, task_id, "task.yaml"@),
        Some(task_ref),
        message_of(err),
    )
}

/// The findings for the event log at `path`, one per rejected line.
pub open spec fn event_issue_findings(path: Seq<char>, task_ref: Seq<char>, issues: Seq<TaskEventLogIssue>, k: int) -> Seq<
    FindingView,
>
    decreases k,
{
    if k <= 0 {
        Seq::empty()
    } else {
        event_issue_findings(path, task_ref, issues, k - 1).push(
            fview(
                ValidationSeverity::Error,
                "malformed_event_log"@,
                path,
                Some(task_ref),
                "line "@ + decimal(issues[k - 1].line as nat) + ": "@ + issues[k - 1].reason@,
            ),
        )
    }
}

/// `fs`, followed by the finding for a declaration that could not be
/// read, if any.
pub open spec fn add_declaration_finding(
    fs: Seq<FindingView>,
    root: Seq<char>,
    task_id: Seq<char>,
    task_ref: Seq<char>,
    declaration: Option<MinervaError>,
) -> Seq<FindingView> {
    match declaration {
        Some(err) => fs.push(task_error_view(root, task_id, "invalid_declaration"@, task_ref, err)),
        None => fs,
    }
}

/// The findings of the task-file check. `present[i]` tells whether the
/// `i`-th required file exists; `declaration` is the error met reading an
/// existing declaration, if any; `events` is what reading an existing
/// event log gave (`None` when there is no log).
pub open spec fn task_file_findings(
    root: Seq<char>,
    task_id: Seq<char>,
    task_ref: Seq<char>,
    present: Seq<bool>,
    declaration: Option<MinervaError>,
    events: Option<Result<Seq<TaskEventLogIssue>, MinervaError>>,
) -> Seq<FindingView> {
    let missing = missing_findings(required_task_paths(root, task_id), present, Some(task_ref), 5);
    let with_declaration = add_declaration_finding(missing, root, task_id, task_ref, declaration);
    match events {
        None => with_declaration,
        Some(Ok(issues)) => with_declaration + event_issue_findings(
            task_entry(root, task_id, "events.jsonl"@),
            task_ref,
            issues,
            issues.len() as int,
        ),
        Some(Err(err)) => with_declaration.push(
            task_error_view(root, task_id, "malformed_event_log"@, task_ref, err),
        ),
    }
}

/// Records the findings of the task-file check.
pub fn validate_task_files(
    layout: &MinervaLayout,
    findings: &mut Vec<ProjectValidationFinding>,
    task_id: &str,
    task_ref: &str,
    present: &Vec<bool>,
    declaration: &Option<MinervaError>,
    events: &Option<Result<Vec<TaskEventLogIssue>, MinervaError>>,
)
    requires
        present.len() == 5,
    ensures
        findings_view(final(findings)@) == findings_view(old(findings)@) + task_file_findings(
            layout.root_path(),
            task_id@,
            task_ref@,
            present@,
            *declaration,
            match *events {
                None => None,
                Some(Ok(v)) => Some(Ok(v@)),
                Some(Err(e)) => Some(Err(e)),
            },
        ),
{
    let ghost root = layout.root_path();
    let ghost start = findings_view(findings@);
    let paths = required_task_files(layout, task_id);
    assert(paths@.map_values(|s: String| s@).len() == 5);
    record_missing(&paths, present, Some(task_ref), findings);
    let ghost miss = missing_findings(required_task_paths(root, task_id@), present@, Some(task_ref@), 5);
    assert(findings_view(findings@) == start + miss);
    let ghost with_decl = add_declaration_finding(miss, root, task_id@, task_ref@, *declaration);
    match declaration {
        Some(err) => {
            let f = task_error(layout, task_id, "invalid_declaration", task_ref, err);
            push_finding(findings, f);
            assert((start + miss).push(f@) =~= start + with_decl);
        },
        None => {},
    }
    assert(findings_view(findings@) == start + with_decl);
    match events {
        None => {},
        Some(Ok(issues)) => {
            let path = layout.events_file(task_id);
            let mut i: usize = 0;
            while i < issues.len()
                invariant
                    i <= issues.len(),
                    path@ == task_entry(root, task_id@, "events.jsonl"@),
                    findings_view(findings@) == start + with_decl + event_issue_findings(
                        path@,
                        task_ref@,
                        issues@,
                        i as int,
                    ),
                decreases issues.len() - i,
            {
                let mut m = concat("line ", decimal_string(issues[i].line as u64).as_str());
                append_str(&mut m, ": ");
                append_str(&mut m, issues[i].reason.as_str());
                let f = error("malformed_event_log", path.as_str(), Some(task_ref), m);
                let ghost before = findings_view(findings@);
                push_finding(findings, f);
                assert(findings_view(findings@) =~= start + with_decl + event_issue_findings(
                    path@,
                    task_ref@,
                    issues@,
                    i + 1,
                ));
                i = i + 1;
            }
        },
        Some(Err(err)) => {
            let f = task_error(layout, task_id, "malformed_event_log", task_ref, err);
            push_finding(findings, f);
            assert(findings_view(findings@) =~= start + with_decl.push(f@));
        },
    }
}

// ---------------------------------------------------------------------
// Task rules
// ---------------------------------------------------------------------

/// Whether `items` holds the text `t`.
pub open spec fn has_text(items: Seq<String>, t: Seq<char>) -> bool {
    exists|i: int| 0 <= i < items.len() && #[trigger] items[i]@ == t
}

/// Whether `items` holds `t`.
pub fn contains_text(items: &Vec<String>, t: &str) -> (b: bool)
    ensures
        b == has_text(items@, t@),
{
    let mut i: usize = 0;
    while i < items.len()
        invariant
            i <= items.len(),
            forall|k: int| 0 <= k < i ==> #[trigger] items@[k]@ != t@,
        decreases items.len() - i,
    {
        if text_is(&items[i], t) {
            return true;
        }
        i = i + 1;
    }
    false
}

/// The path by which task findings name a task's record:
/// `.minerva/tasks/<task-id>/task.yaml`, relative to the project root.
pub open spec fn task_record_path(task_id: Seq<char>) -> Seq<char> {
    join_path(join_path(".minerva/tasks"@, task_id), "task.yaml"@)
}

/// The findings of the model check of one task: its type must be one of
/// `task_types` and its status one of `statuses`.
pub open spec fn task_model_findings(
    task_types: Seq<String>,
    statuses: Seq<String>,
    task_id: Seq<char>,
    task_type: Seq<char>,
    status: Seq<char>,
) -> Seq<FindingView> {
    let path = task_record_path(task_id);
    let a = if has_text(task_types, task_type) {
        Seq::empty()
    } else {
        seq![
            fview(
                ValidationSeverity::Error,
                "invalid_task_type"@,
                path,
                Some(task_id),
                "unknown task type `"@ + task_type + "`"@,
            ),
        ]
    };
    if has_text(statuses, status) {
        a
    } else {
        a.push(
            fview(
                ValidationSeverity::Error,
                "illegal_status"@,
                path,
                Some(task_id),
                "unknown status `"@ + status + "`"@,
            ),
        )
    }
}

/// Records the findings of the model check of the task `task_id`, whose
/// type is `task_type` and status `status`.
pub fn validate_task_model(
    findings: &mut Vec<ProjectValidationFinding>,
    task_types: &Vec<String>,
    statuses: &Vec<String>,
    task_id: &str,
    task_type: &str,
    status: &str,
)
    ensures
        findings_view(final(findings)@) == findings_view(old(findings)@) + task_model_findings(
            task_types@,
            statuses@,
            task_id@,
            task_type@,
            status@,
        ),
{
    let ghost start = findings_view(findings@);
    let dir = join(".minerva/tasks", task_id);
    let path = join(dir.as_str(), "task.yaml");
    let ghost a = if has_text(task_types@, task_type@) {
        Seq::<FindingView>::empty()
    } else {
        seq![
            fview(
                ValidationSeverity::Error,
                "invalid_task_type"@,
                path@,
                Some(task_id@),
                "unknown task type `"@ + task_type@ + "`"@,
            ),
        ]
    };
    if !contains_text(task_types, task_type) {
        let mut m = concat("unknown task type `", task_type);
        append_str(&mut m, "`");
        let f = error("invalid_task_type", path.as_str(), Some(task_id), m);
        push_finding(findings, f);
    }
    assert(findings_view(findings@) =~= start + a);
    if !contains_text(statuses, status) {
        let mut m = concat("unknown status `", status);
        append_str(&mut m, "`");
        let f = error("illegal_status", path.as_str(), Some(task_id), m);
        push_finding(findings, f);
        assert(findings_view(findings@) =~= start + a.push(f@));
    }
}

// ---------------------------------------------------------------------
// Links between tasks
// ---------------------------------------------------------------------

/// The code of a finding about a failed hierarchy check.
pub open spec fn hierarchy_code(err: MinervaError) -> Seq<char> {
    match err {
        MinervaError::HierarchyCycle { .. } => "hierarchy_cycle"@,
        _ => "missing_parent"@,
    }
}

/// The code of a finding about a failed relationship check.
pub open spec fn relationship_code(err: MinervaError) -> Seq<char> {
    match err {
        MinervaError::InvalidConfiguration { key, reason } => if key@ == "relationships"@ && contains_seq(
            reason@,
            "duplicate"@,
        ) {
            "duplicate_relationship"@
        } else {
            "invalid_dependency"@
        },
        _ => "invalid_dependency"@,
    }
}

/// A finding about the links between tasks, which names the tasks
/// directory.
pub open spec fn link_finding(code: Seq<char>, err: MinervaError) -> FindingView {
    fview(ValidationSeverity::Error, code, ".minerva/tasks"@, None, message_of(err))
}

/// Records the findings of the checks of the task hierarchy and of the
/// relationships between tasks, given what each check returned.
pub fn validate_links(
    findings: &mut Vec<ProjectValidationFinding>,
    hierarchy: &Result<(), MinervaError>,
    relationships: &Result<(), MinervaError>,
)
    ensures
        findings_view(final(findings)@) == findings_view(old(findings)@) + match *hierarchy {
            Ok(_) => Seq::<FindingView>::empty(),
            Err(e) => seq![link_finding(hierarchy_code(e), e)],
        } + match *relationships {
            Ok(_) => Seq::<FindingView>::empty(),
            Err(e) => seq![link_finding(relationship_code(e), e)],
        },
{
    let ghost start = findings_view(findings@);
    if let Err(err) = hierarchy {
        let code = match err {
            MinervaError::HierarchyCycle { .. } => "hierarchy_cycle",
            _ => "missing_parent",
        };
        let f = error(code, ".minerva/tasks", None, error_message(err));
        push_finding(findings, f);
    }
    let ghost mid = findings_view(findings@);
    if let Err(err) = relationships {
        let code = match err {
            MinervaError::InvalidConfiguration { key, reason } => {
                if text_is(key, "relationships") && text_has(reason, "duplicate") {
                    "duplicate_relationship"
                } else {
                    "invalid_dependency"
                }
            },
            _ => "invalid_dependency",
        };
        let f = error(code, ".minerva/tasks", None, error_message(err));
        push_finding(findings, f);
    }
    assert(findings_view(findings@) =~= findings_view(old(findings)@) + match *hierarchy {
        Ok(_) => Seq::<FindingView>::empty(),
        Err(e) => seq![link_finding(hierarchy_code(e), e)],
    } + match *relationships {
        Ok(_) => Seq::<FindingView>::empty(),
        Err(e) => seq![link_finding(relationship_code(e), e)],
    });
}

// ---------------------------------------------------------------------
// Project files
// ---------------------------------------------------------------------

/// What the project files declare: the task types and the statuses.
#[derive(Debug)]
pub struct ProjectValidationData {
    pub task_types: Vec<String>,
    pub statuses: Vec<String>,
}

/// The finding for a project file that failed to load, if it did.
pub open spec fn load_findings<T>(path: Seq<char>, loaded: Result<T, MinervaError>) -> Seq<FindingView> {
    match loaded {
        Ok(_) => Seq::empty(),
        Err(err) => seq![fview(
            ValidationSeverity::Error,
            classification(err, "malformed_yaml"@),
            path,
            None,
            message_of(err),
        )],
    }
}

/// Records the findings of the project files: first the layout check,
/// then what loading the task types, the project (its statuses) and the
/// configuration gave. A file that failed to load declares nothing.
pub fn validate_project_files(
    layout: &MinervaLayout,
    findings: &mut Vec<ProjectValidationFinding>,
    present: &Vec<bool>,
    marker_present: bool,
    marker: &Option<String>,
    task_types: Result<Vec<String>, MinervaError>,
    statuses: Result<Vec<String>, MinervaError>,
    config: Result<(), MinervaError>,
) -> (data: ProjectValidationData)
    requires
        present.len() == 6,
    ensures
        findings_view(final(findings)@) == findings_view(old(findings)@) + layout_findings(
            layout.root_path(),
            present@,
            marker_present,
            crate::findings::opt_view(*marker),
        ) + load_findings(minerva_entry(layout.root_path(), "task-types"@), task_types) + load_findings(
            minerva_entry(layout.root_path(), "project.yaml"@),
            statuses,
        ) + load_findings(minerva_entry(layout.root_path(), "config.yaml"@), config),
        data.task_types@ == match task_types {
            Ok(v) => v@,
            Err(_) => Seq::<String>::empty(),
        },
        data.statuses@ == match statuses {
            Ok(v) => v@,
            Err(_) => Seq::<String>::empty(),
        },
{
    let ghost start = findings_view(findings@);
    validate_layout(layout, present, marker_present, marker, findings);
    let ghost s1 = findings_view(findings@);
    let types = match task_types {
        Ok(v) => v,
        Err(err) => {
            let f = project_error(layout.task_types_dir().as_str(), "malformed_yaml", &err);
            push_finding(findings, f);
            Vec::new()
        },
    };
    assert(findings_view(findings@) =~= s1 + load_findings(
        minerva_entry(layout.root_path(), "task-types"@),
        task_types,
    ));
    let ghost s2 = findings_view(findings@);
    let keys = match statuses {
        Ok(v) => v,
        Err(err) => {
            let f = project_error(layout.project_file().as_str(), "malformed_yaml", &err);
            push_finding(findings, f);
            Vec::new()
        },
    };
    assert(findings_view(findings@) =~= s2 + load_findings(
        minerva_entry(layout.root_path(), "project.yaml"@),
        statuses,
    ));
    let ghost s3 = findings_view(findings@);
    if let Err(err) = config {
        let f = project_error(layout.config_file().as_str(), "malformed_yaml", &err);
        push_finding(findings, f);
    }
    assert(findings_view(findings@) =~= s3 + load_findings(
        minerva_entry(layout.root_path(), "config.yaml"@),
        config,
    ));
    ProjectValidationData { task_types: types, statuses: keys }
}

// ---------------------------------------------------------------------
// Tasks
// ---------------------------------------------------------------------

/// The tasks and relationships gathered while validating tasks.
#[derive(Debug)]
pub struct TaskValidationData<T, R> {
    pub tasks: Vec<T>,
    pub relationships: Vec<R>,
}

impl<T, R> TaskValidationData<T, R> {
    /// Nothing gathered yet.
    pub fn new() -> (d: Self)
        ensures
            d.tasks@.len() == 0,
            d.relationships@.len() == 0,
    {
        TaskValidationData { tasks: Vec::new(), relationships: Vec::new() }
    }
}

/// The finding for a task whose relationships or record failed to load.
pub open spec fn task_load_finding<T>(
    root: Seq<char>,
    task_id: Seq<char>,
    loaded: Result<T, MinervaError>,
) -> Seq<FindingView> {
    match loaded {
        Ok(_) => Seq::empty(),
        Err(err) => seq![task_error_view(root, task_id, "malformed_yaml"@, task_id, err)],
    }
}

/// Validates one task: its files, then its relationships, then its record.
/// `task` holds the loaded record with the text of its type and status.
/// The relationships and the record that loaded are gathered in `state`.
pub fn validate_task<T, R>(
    layout: &MinervaLayout,
    findings: &mut Vec<ProjectValidationFinding>,
    task_types: &Vec<String>,
    statuses: &Vec<String>,
    task_id: &str,
    present: &Vec<bool>,
    declaration: &Option<MinervaError>,
    events: &Option<Result<Vec<TaskEventLogIssue>, MinervaError>>,
    relationships: Result<Vec<R>, MinervaError>,
    task: Result<(T, String, String), MinervaError>,
    state: &mut TaskValidationData<T, R>,
)
    requires
        present.len() == 5,
    ensures
        findings_view(final(findings)@) == findings_view(old(findings)@) + task_file_findings(
            layout.root_path(),
            task_id@,
            task_id@,
            present@,
            *declaration,
            match *events {
                None => None,
                Some(Ok(v)) => Some(Ok(v@)),
                Some(Err(e)) => Some(Err(e)),
            },
        ) + task_load_finding(layout.root_path(), task_id@, relationships) + match task {
            Ok(t) => task_model_findings(task_types@, statuses@, task_id@, t.1@, t.2@),
            Err(_) => task_load_finding(layout.root_path(), task_id@, task),
        },
        final(state).relationships@ == old(state).relationships@ + match relationships {
            Ok(v) => v@,
            Err(_) => Seq::<R>::empty(),
        },
        final(state).tasks@ == match task {
            Ok(t) => old(state).tasks@.push(t.0),
            Err(_) => old(state).tasks@,
        },
{
    let ghost root = layout.root_path();
    validate_task_files(layout, findings, task_id, task_id, present, declaration, events);
    let ghost s1 = findings_view(findings@);
    let ghost rels = relationships;
    match relationships {
        Ok(mut items) => {
            state.relationships.append(&mut items);
        },
        Err(err) => {
            let f = task_error(layout, task_id, "malformed_yaml", task_id, &err);
            push_finding(findings, f);
        },
    }
    assert(findings_view(findings@) =~= s1 + task_load_finding(root, task_id@, rels));
    let ghost s2 = findings_view(findings@);
    let ghost tk = task;
    match task {
        Ok((t, task_type, status)) => {
            validate_task_model(findings, task_types, statuses, task_id, task_type.as_str(), status.as_str());
            state.tasks.push(t);
        },
        Err(err) => {
            let f = task_error(layout, task_id, "malformed_yaml", task_id, &err);
            push_finding(findings, f);
            assert(findings_view(findings@) =~= s2 + task_load_finding(root, task_id@, tk));
        },
    }
}

// ---------------------------------------------------------------------
// The whole project
// ---------------------------------------------------------------------

/// The findings in reporting order.
pub fn finish_validation(findings: Vec<ProjectValidationFinding>) -> (r: ProjectValidationResult)
    ensures
        exists|perm: Seq<int>| stably_sorted_by(findings@, r.findings@, perm),
{
    let ghost before = findings@;
    let sorted = sort_findings(findings);
    let r = ProjectValidationResult { findings: sorted };
    assert(r.findings@ == sorted@);
    r
}


/// The findings of the checks that follow the tasks: those of the links
/// between tasks, then the one finding about the task index.
pub open spec fn closing_findings(
    hierarchy: Result<(), MinervaError>,
    relationships: Result<(), MinervaError>,
    index_path: Seq<char>,
    index_status: Result<TaskIndexStatus, MinervaError>,
) -> Seq<FindingView> {
    let h = match hierarchy {
        Ok(_) => Seq::<FindingView>::empty(),
        Err(e) => seq![link_finding(hierarchy_code(e), e)],
    };
    let l = match relationships {
        Ok(_) => Seq::<FindingView>::empty(),
        Err(e) => seq![link_finding(relationship_code(e), e)],
    };
    h + l + seq![index_finding(index_path, index_status)]
}

/// Ends the validation of a project: to the findings of the project
/// files and of the tasks, adds those of the links between tasks (from
/// what the hierarchy and relationship checks returned) and the one
/// about the task index at `index_path`, and reports them all in order.
/// Validation never fails: every problem is a finding.
pub fn finish_project_validation(
    findings: Vec<ProjectValidationFinding>,
    hierarchy: &Result<(), MinervaError>,
    relationships: &Result<(), MinervaError>,
    index_path: &str,
    index_status: &Result<TaskIndexStatus, MinervaError>,
) -> (r: ProjectValidationResult)
    ensures
        exists|all: Seq<ProjectValidationFinding>|
            #![trigger findings_view(all)]
            findings_view(all) == findings_view(findings@) + closing_findings(
                *hierarchy,
                *relationships,
                index_path@,
                *index_status,
            ) && exists|perm: Seq<int>| stably_sorted_by(all, r.findings@, perm),
{
    let mut findings = findings;
    let ghost start = findings_view(findings@);
    validate_links(&mut findings, hierarchy, relationships);
    validate_index(index_path, index_status, &mut findings);
    let ghost all = findings@;
    assert(findings_view(all) =~= start + closing_findings(*hierarchy, *relationships, index_path@, *index_status));
    finish_validation(findings)
}


/// The index check reports one finding about the index file, coded
/// `stale_index` and tied to no task: information only when the index is
/// fresh, and a warning when it is missing, stale or could not be read;
/// a missing index and a stale one are told apart by the message.
pub proof fn lemma_index_finding_severity(path: Seq<char>, status: Result<TaskIndexStatus, MinervaError>)
    ensures
        index_finding(path, status).code == "stale_index"@,
        index_finding(path, status).path == path,
        index_finding(path, status).task_ref is None,
        (index_finding(path, status).severity == ValidationSeverity::Information) <==> status == Ok::<
            TaskIndexStatus,
            MinervaError,
        >(TaskIndexStatus::Fresh),
        status != Ok::<TaskIndexStatus, MinervaError>(TaskIndexStatus::Fresh) ==> index_finding(path, status).severity
            == ValidationSeverity::Warning,
        status == Ok::<TaskIndexStatus, MinervaError>(TaskIndexStatus::Stale) ==> index_finding(path, status).message
            == "task index is stale"@,
        status == Ok::<TaskIndexStatus, MinervaError>(TaskIndexStatus::Missing) ==> index_finding(
            path,
            status,
        ).message == "task index is missing"@,
{
}

}
