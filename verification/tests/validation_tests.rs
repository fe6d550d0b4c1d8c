use minerva_storage::event_log::{collect_event_log, collect_task_events, event_lines, TaskEventLogIssue};
use minerva_storage::findings::{error, info, sort_findings, warning, ProjectValidationFinding, ValidationSeverity};
use minerva_storage::schema::Timestamp;
use minerva_storage::task_index::{index_is_stale, read_indexed_tasks, task_index_status, TaskIndexStatus};
use minerva_storage::schema::TaskIndexDocument;
use minerva_storage::validation::{
    classify, error_message, finish_project_validation, finish_validation, validate_index, validate_layout, validate_links,
    validate_project_files, validate_task, validate_task_files, validate_task_model, TaskValidationData,
};
use minerva_storage::{MinervaError, MinervaLayout};

fn schema(reason: &str) -> MinervaError {
    MinervaError::SchemaError { path: "p".into(), reason: reason.into() }
}

fn f(sev: ValidationSeverity, code: &str, path: &str, task: Option<&str>, msg: &str) -> ProjectValidationFinding {
    ProjectValidationFinding {
        severity: sev,
        code: code.into(),
        path: path.into(),
        task_ref: task.map(String::from),
        message: msg.into(),
    }
}

fn key(x: &ProjectValidationFinding) -> (ValidationSeverity, String, Option<String>, String, String) {
    (x.severity, x.code.clone(), x.task_ref.clone(), x.path.clone(), x.message.clone())
}

#[test]
fn findings_sort_by_severity_code_task_path_and_keep_ties() {
    let input = vec![
        f(ValidationSeverity::Information, "stale_index", "i", None, "current"),
        f(ValidationSeverity::Error, "missing_file", "b", Some("2"), "first"),
        f(ValidationSeverity::Warning, "a", "z", None, "w"),
        f(ValidationSeverity::Error, "missing_file", "a", Some("2"), "x"),
        f(ValidationSeverity::Error, "missing_file", "b", Some("2"), "second"),
        f(ValidationSeverity::Error, "missing_file", "c", None, "no task"),
        f(ValidationSeverity::Error, "illegal_status", "q", Some("9"), "s"),
    ];
    let sorted: Vec<_> = sort_findings(input).iter().map(key).collect();
    let messages: Vec<&str> = sorted.iter().map(|k| k.4.as_str()).collect();
    assert_eq!(messages, vec!["s", "no task", "x", "first", "second", "w", "current"]);
}

#[test]
fn validation_result_is_sorted() {
    let r = finish_validation(vec![
        f(ValidationSeverity::Warning, "stale_index", "i", None, "w"),
        f(ValidationSeverity::Error, "schema_version", "s", None, "e"),
    ]);
    assert_eq!(r.findings[0].severity, ValidationSeverity::Error);
    assert_eq!(r.findings[1].severity, ValidationSeverity::Warning);
}

#[test]
fn finding_constructors() {
    let e = error("missing_file", "x/y", Some("7"), "gone".into());
    assert_eq!(key(&e), (ValidationSeverity::Error, "missing_file".into(), Some("7".into()), "x/y".into(), "gone".into()));
    assert_eq!(warning("c", "p", None, "m".into()).severity, ValidationSeverity::Warning);
    assert_eq!(info("c", "p", None, "m".into()).severity, ValidationSeverity::Information);
}

#[test]
fn errors_are_classified() {
    assert_eq!(classify(&schema("required file is missing"), "malformed_yaml"), "missing_file");
    assert_eq!(
        classify(&MinervaError::InvalidConfiguration { key: "k".into(), reason: "required file is missing".into() }, "d"),
        "missing_file"
    );
    assert_eq!(classify(&schema("schema_version: unsupported schema version `2`"), "d"), "schema_version");
    assert_eq!(
        classify(&MinervaError::InvalidConfiguration { key: "schema_version".into(), reason: "x".into() }, "d"),
        "schema_version"
    );
    assert_eq!(classify(&schema("bad yaml"), "malformed_yaml"), "malformed_yaml");
    assert_eq!(classify(&MinervaError::ProjectNotInitialized, "d"), "d");
    assert_eq!(error_message(&schema("why")), "why");
    assert_eq!(error_message(&MinervaError::TaskNotFound { task_ref: "12".into() }), "task `12` was not found");
    assert_eq!(error_message(&MinervaError::ProjectNotInitialized), "project is not initialized");
}

#[test]
fn index_findings() {
    let mut fs = Vec::new();
    validate_index("idx.json", &Ok(TaskIndexStatus::Fresh), &mut fs);
    validate_index("idx.json", &Ok(TaskIndexStatus::Missing), &mut fs);
    validate_index("idx.json", &Ok(TaskIndexStatus::Stale), &mut fs);
    validate_index("idx.json", &Err(schema("unreadable")), &mut fs);
    let got: Vec<_> = fs.iter().map(key).collect();
    assert_eq!(got[0], (ValidationSeverity::Information, "stale_index".into(), None, "idx.json".into(), "task index is current".into()));
    assert_eq!(got[1].4, "task index is missing");
    assert_eq!(got[1].0, ValidationSeverity::Warning);
    assert_eq!(got[2].4, "task index is stale");
    assert_eq!(got[3].4, "unreadable");
}

#[test]
fn layout_findings_report_missing_files_and_bad_marker() {
    let layout = MinervaLayout::new("/r");
    let mut fs = Vec::new();
    validate_layout(&layout, &vec![true, false, true, true, true, false], true, &Some("2\n".into()), &mut fs);
    let got: Vec<_> = fs.iter().map(key).collect();
    assert_eq!(got.len(), 3);
    assert_eq!(got[0].3, "/r/.minerva/config.yaml");
    assert_eq!(got[0].4, "required file is missing");
    assert_eq!(got[1].3, "/r/.minerva/tasks");
    assert_eq!(got[2].1, "schema_version");
    assert_eq!(got[2].4, "schema marker must be 1");
    let mut fs = Vec::new();
    validate_layout(&layout, &vec![true; 6], true, &Some("1\n".into()), &mut fs);
    assert!(fs.is_empty());
    validate_layout(&layout, &vec![true; 6], true, &None, &mut fs);
    assert_eq!(fs.len(), 1);
}

#[test]
fn task_model_rejects_unknown_type_and_status() {
    let mut fs = Vec::new();
    let types = vec!["feature".to_string(), "bug".to_string()];
    let statuses = vec!["backlog".to_string()];
    validate_task_model(&mut fs, &types, &statuses, "5", "chore", "done");
    let got: Vec<_> = fs.iter().map(key).collect();
    assert_eq!(got[0], (ValidationSeverity::Error, "invalid_task_type".into(), Some("5".into()), ".minerva/tasks/5/task.yaml".into(), "unknown task type `chore`".into()));
    assert_eq!(got[1].1, "illegal_status");
    assert_eq!(got[1].4, "unknown status `done`");
    let mut fs = Vec::new();
    validate_task_model(&mut fs, &types, &statuses, "5", "bug", "backlog");
    assert!(fs.is_empty());
}

#[test]
fn task_file_findings() {
    let layout = MinervaLayout::new("/r");
    let mut fs = Vec::new();
    let issues = vec![TaskEventLogIssue { line: 3, reason: "expected value".into() }];
    validate_task_files(
        &layout,
        &mut fs,
        "4",
        "4",
        &vec![true, true, true, false, true],
        &Some(schema("required file is missing")),
        &Some(Ok(issues)),
    );
    let got: Vec<_> = fs.iter().map(key).collect();
    assert_eq!(got.len(), 3);
    assert_eq!(got[0].3, "/r/.minerva/tasks/4/notes.md");
    assert_eq!(got[1].1, "missing_file");
    assert_eq!(got[1].3, "/r/.minerva/tasks/4/task.yaml");
    assert_eq!(got[2], (ValidationSeverity::Error, "malformed_event_log".into(), Some("4".into()), "/r/.minerva/tasks/4/events.jsonl".into(), "line 3: expected value".into()));
}

#[test]
fn link_findings() {
    let mut fs = Vec::new();
    validate_links(
        &mut fs,
        &Err(MinervaError::HierarchyCycle { detail: "1 -> 2 -> 1".into() }),
        &Err(MinervaError::InvalidConfiguration { key: "relationships".into(), reason: "duplicate link".into() }),
    );
    assert_eq!(fs[0].code, "hierarchy_cycle");
    assert_eq!(fs[0].path, ".minerva/tasks");
    assert_eq!(fs[1].code, "duplicate_relationship");
    let mut fs = Vec::new();
    validate_links(&mut fs, &Err(MinervaError::TaskNotFound { task_ref: "9".into() }), &Err(MinervaError::DependencyCycle { detail: "x".into() }));
    assert_eq!(fs[0].code, "missing_parent");
    assert_eq!(fs[1].code, "invalid_dependency");
    let mut fs = Vec::new();
    validate_links(&mut fs, &Ok(()), &Ok(()));
    assert!(fs.is_empty());
}

#[test]
fn project_files_and_tasks() {
    let layout = MinervaLayout::new("/r");
    let mut fs = Vec::new();
    let data = validate_project_files(
        &layout,
        &mut fs,
        &vec![true; 6],
        true,
        &Some("1\n".into()),
        Ok(vec!["feature".into()]),
        Err(schema("required file is missing")),
        Ok(()),
    );
    assert_eq!(data.task_types, vec!["feature".to_string()]);
    assert!(data.statuses.is_empty());
    assert_eq!(fs.len(), 1);
    assert_eq!(fs[0].code, "missing_file");
    assert_eq!(fs[0].path, "/r/.minerva/project.yaml");

    let mut state: TaskValidationData<u32, &str> = TaskValidationData::new();
    let mut fs = Vec::new();
    validate_task(
        &layout, &mut fs, &data.task_types, &vec!["backlog".to_string()], "1", &vec![true; 5], &None, &None,
        Ok(vec!["rel"]), Ok((10, "feature".into(), "backlog".into())), &mut state,
    );
    assert!(fs.is_empty());
    assert_eq!(state.tasks, vec![10]);
    assert_eq!(state.relationships, vec!["rel"]);
    validate_task(
        &layout, &mut fs, &data.task_types, &vec![], "2", &vec![true; 5], &None, &None,
        Err(schema("bad yaml")), Err(schema("bad yaml")), &mut state,
    );
    assert_eq!(fs.len(), 2);
    assert_eq!(fs[0].code, "malformed_yaml");
    assert_eq!(fs[0].path, "/r/.minerva/tasks/2/task.yaml");
    assert_eq!(state.tasks.len(), 1);
}

#[test]
fn event_log_lines() {
    let lines = event_lines("{\"a\":1}\n\n  \r\n{\"b\":2}\r\nlast");
    let got: Vec<(usize, String)> = lines.iter().map(|l| (l.number, l.text.clone())).collect();
    assert_eq!(got, vec![(1, "{\"a\":1}".to_string()), (4, "{\"b\":2}".to_string()), (5, "last".to_string())]);
    assert!(event_lines("").is_empty());
    assert!(event_lines("\n \n").is_empty());
}

#[test]
fn event_log_collects_records_and_issues() {
    let lines = event_lines("a\nb\nc\n");
    let log = collect_event_log(&lines, vec![Ok(1), Err("bad".to_string()), Ok(3)]);
    assert_eq!(log.events, vec![1, 3]);
    assert_eq!(log.issues, vec![TaskEventLogIssue { line: 2, reason: "bad".into() }]);
    let lines = event_lines("a\nb\nc\n");
    let r = collect_task_events("ev.jsonl", &lines, vec![Ok(1), Err("bad".to_string()), Err("worse".to_string())]);
    assert_eq!(r, Err(MinervaError::SchemaError { path: "ev.jsonl".into(), reason: "line 2: bad".into() }));
    let lines = event_lines("a\n");
    assert_eq!(collect_task_events("ev.jsonl", &lines, vec![Ok(7)]), Ok(vec![7]));
}

#[test]
fn index_staleness() {
    let at = |s| Timestamp { secs: s, nanos: 0 };
    assert!(!index_is_stale(2, Some(at(10)), &vec![at(5), at(10)]));
    assert!(index_is_stale(2, Some(at(10)), &vec![at(5), Timestamp { secs: 10, nanos: 1 }]));
    assert!(index_is_stale(3, Some(at(10)), &vec![at(5), at(6)]));
    assert!(index_is_stale(0, None, &vec![]));
    assert_eq!(task_index_status(Some(1), None, &vec![at(0)]), TaskIndexStatus::Stale);
    assert_eq!(task_index_status(None, Some(at(0)), &vec![]), TaskIndexStatus::Missing);
    assert_eq!(task_index_status(Some(0), Some(at(0)), &vec![]), TaskIndexStatus::Fresh);
    assert_eq!(task_index_status(Some(1), Some(at(0)), &vec![]), TaskIndexStatus::Stale);
    let doc = TaskIndexDocument::from_tasks(vec!["t"]);
    assert_eq!(read_indexed_tasks(Some(doc), Some(at(9)), &vec![at(1)]), Some(vec!["t"]));
    let doc = TaskIndexDocument::from_tasks(vec!["t"]);
    assert_eq!(read_indexed_tasks(Some(doc), Some(at(0)), &vec![at(1)]), None);
    assert_eq!(read_indexed_tasks::<u8>(None, Some(at(0)), &vec![]), None);
}

#[test]
fn strict_read_fails_exactly_when_lenient_read_has_issues() {
    let outcomes = || vec![Ok(1), Err("first".to_string()), Ok(3), Err("second".to_string())];
    let lines = event_lines("a\n\nb\nc\nd\n");
    let log = collect_event_log(&lines, outcomes());
    let strict = collect_task_events("ev", &lines, outcomes());
    let first = &log.issues[0];
    assert_eq!(strict, Err(MinervaError::SchemaError { path: "ev".into(), reason: format!("line {}: {}", first.line, first.reason) }));
    assert_eq!(first.line, 3);
    let clean = || vec![Ok(1), Ok(2)];
    let lines = event_lines("a\nb\n");
    let log = collect_event_log(&lines, clean());
    assert!(log.issues.is_empty());
    assert_eq!(collect_task_events("ev", &lines, clean()), Ok(log.events));
}

#[test]
fn whole_project_validation_adds_links_and_one_index_finding_in_order() {
    let r = finish_project_validation(
        vec![f(ValidationSeverity::Error, "missing_file", "b", None, "required file is missing")],
        &Err(MinervaError::HierarchyCycle { detail: "x".into() }),
        &Ok(()),
        ".minerva/indexes/tasks.json",
        &Ok(TaskIndexStatus::Missing),
    );
    let codes: Vec<&str> = r.findings.iter().map(|x| x.code.as_str()).collect();
    assert_eq!(codes, vec!["hierarchy_cycle", "missing_file", "stale_index"]);
    assert_eq!(r.findings.iter().filter(|x| x.code == "stale_index").count(), 1);
    assert_eq!(r.findings[2].message, "task index is missing");
    let r = finish_project_validation(vec![], &Ok(()), &Ok(()), "i", &Ok(TaskIndexStatus::Fresh));
    assert_eq!(r.findings.len(), 1);
    assert_eq!(r.findings[0].severity, ValidationSeverity::Information);
}
