use minerva_storage::catalog::{resolve_by_title, resolve_matches, search_tasks, task_label, task_not_found, title_contains, title_eq};
use minerva_storage::migration::{
    changed, migrate_mapping, migration_backup_path, migration_result, migration_step, document_plan, relationship_plan,
    schema_marker, start_version, FilePlan, ProjectMigrationAction, SchemaVersionEntry,
};
use minerva_storage::project_init::{
    agents_file, ancestors, check_targets, dirs, locate_project_root, project_name, should_prepare_instructions,
    should_write_agents_file,
};
use minerva_storage::repair::{
    abandoned_temps, temp_file_operations, action, index_repair, is_abandoned_temp, repair_backup_path, repair_directories, repair_notes, repair_result,
    temp_file_operation, NotesCandidate, RebuildAction, RebuildResult, RebuildTaskError, RepairAction, RepairKind,
};
use minerva_storage::{agents_md, instructions_md, FilesystemProjectRepository, FilesystemTaskRepository, MinervaError, MinervaLayout};

fn titles(v: &[&str]) -> Vec<String> {
    v.iter().map(|s| s.to_string()).collect()
}

#[test]
fn exact_title_matches_win_over_partial_ones() {
    let t = titles(&["Fix login", "fix LOGIN ", "Fix login page"]);
    assert_eq!(search_tasks(vec![1, 2, 3], &t, "  fix login"), vec![1, 2]);
    assert_eq!(search_tasks(vec![1, 2, 3], &t, "PAGE"), vec![3]);
    assert_eq!(search_tasks(vec![1, 2, 3], &t, "logout"), Vec::<i32>::new());
    assert!(title_eq("\u{3000}Straße", "straße"));
    assert!(!title_eq("STRASSE", "straße"));
    assert!(title_contains("Grüße AUS Köln", "aus"));
    assert!(title_contains("ÉTÉ", "été"));
}

#[test]
fn references_resolve_to_one_task() {
    let s = |v: &[&str]| v.iter().map(|x| x.to_string()).collect::<Vec<String>>();
    assert_eq!(resolve_matches::<u8>("x", vec![], &vec![], &vec![]), Err(MinervaError::TaskNotFound { task_ref: "x".into() }));
    assert_eq!(resolve_matches("x", vec![4], &s(&["4"]), &s(&["x"])), Ok(4));
    assert_eq!(
        resolve_matches("x", vec![4, 5], &s(&["4", "5"]), &s(&["x a", "x b"])),
        Err(MinervaError::AmbiguousTaskReference { task_ref: "x".into(), matches: vec!["4 x a".into(), "5 x b".into()] })
    );
    assert_eq!(task_label("4", "x a"), "4 x a");
    let ids = s(&["T-1", "T-2", "T-3"]);
    let titles = s(&["Fix login", "fix login page", "Write docs"]);
    assert_eq!(resolve_by_title(" fix LOGIN ", &ids, &titles), Ok(0));
    assert_eq!(resolve_by_title("docs", &ids, &titles), Ok(2));
    assert_eq!(
        resolve_by_title("login", &ids, &titles),
        Err(MinervaError::AmbiguousTaskReference {
            task_ref: "login".into(),
            matches: vec!["T-1 Fix login".into(), "T-2 fix login page".into()],
        })
    );
    assert_eq!(resolve_by_title("nothing", &ids, &titles), Err(MinervaError::TaskNotFound { task_ref: "nothing".into() }));
    assert_eq!(task_not_found("9"), MinervaError::TaskNotFound { task_ref: "9".into() });
}

#[test]
fn next_sequence_follows_the_greatest() {
    let repo = FilesystemTaskRepository;
    assert_eq!(repo.last_task_sequence(&vec![]), 0);
    assert_eq!(repo.last_task_sequence(&vec![3, 11, 7]), 11);
}

#[test]
fn project_root_is_the_innermost_initialized_ancestor() {
    assert_eq!(ancestors("/a/b/c"), vec!["/a/b/c", "/a/b", "/a", "/"]);
    assert_eq!(ancestors("a/b"), vec!["a/b", "a", ""]);
    let c = ancestors("/a/b/c");
    let repo = FilesystemProjectRepository;
    assert_eq!(repo.locate_project_root(&c, &vec![false, true, true, false]), Ok("/a/b".to_string()));
    assert_eq!(locate_project_root(&c, &vec![false; 4]), Err(MinervaError::ProjectNotInitialized));
}

#[test]
fn initialization_decisions() {
    assert_eq!(check_targets(true, false), Err(MinervaError::ProjectAlreadyInitialized));
    assert_eq!(check_targets(true, true), Ok(()));
    assert_eq!(check_targets(false, false), Ok(()));
    assert_eq!(project_name("/home/me/widgets"), "widgets");
    assert_eq!(project_name("/"), "Minerva");
    assert_eq!(agents_file("/r"), "/r/AGENTS.md");
    assert!(should_write_agents_file(false) && !should_write_agents_file(true));
    assert!(should_prepare_instructions(false) && !should_prepare_instructions(true));
    let exists_after = should_prepare_instructions(false);
    assert!(!should_prepare_instructions(exists_after));
    let d = dirs(&MinervaLayout::new("/r"));
    assert_eq!(d.len(), 7);
    assert_eq!(d[6], "/r/.minerva");
    assert!(agents_md().starts_with("# Minerva Project\n"));
    assert_eq!(instructions_md(), "# Project Instructions\n\nAdd repository-wide Minerva instructions here.\n");
}

#[test]
fn repair_recreates_missing_directories_and_notes() {
    let layout = MinervaLayout::new("/r");
    let ops = repair_directories(&layout, &vec![true, false, true, false]);
    assert_eq!(ops.len(), 2);
    assert_eq!(ops[0].path, ".minerva/contexts");
    assert_eq!(ops[1].path, ".minerva/locks");
    assert_eq!(ops[0].kind, RepairKind::LayoutDirectory);
    assert_eq!(ops[0].action, RepairAction::Create);
    let cs = vec![
        NotesCandidate { task_id: "1".into(), notes_present: false, task_file_present: true },
        NotesCandidate { task_id: "2".into(), notes_present: true, task_file_present: true },
        NotesCandidate { task_id: "3".into(), notes_present: false, task_file_present: false },
    ];
    let ops = repair_notes(&layout, &cs);
    assert_eq!(ops.len(), 1);
    assert_eq!(ops[0].path, ".minerva/tasks/1/notes.md");
    assert_eq!(ops[0].message, "recreated missing empty task notes file");
}

#[test]
fn abandoned_temp_files_are_recognised_and_backed_up() {
    assert!(is_abandoned_temp("/r/.minerva/.task.yaml.tmp.42"));
    assert!(!is_abandoned_temp("/r/.minerva/task.yaml.tmp.42"));
    assert!(!is_abandoned_temp("/r/.minerva/.hidden"));
    assert_eq!(
        repair_backup_path("/r/.minerva/.task.yaml.tmp.42", 1234),
        "/r/.minerva/safe-repair-backup-1234-task.yaml.tmp-backup.42"
    );
    let layout = MinervaLayout::new("/r");
    let op = temp_file_operation(&layout, "/r/.minerva/.x.tmp.1", "/r/.minerva/safe-repair-backup-9-x.tmp-backup.1");
    assert_eq!(op.kind, RepairKind::TemporaryFile);
    assert_eq!(op.action, RepairAction::Remove);
    assert_eq!(op.path, ".minerva/.x.tmp.1");
    assert_eq!(op.backup_path, Some(".minerva/safe-repair-backup-9-x.tmp-backup.1".to_string()));
}

#[test]
fn index_repair_reports_rebuilds_and_issues() {
    assert_eq!(action(RebuildAction::Create), RepairAction::Create);
    assert_eq!(action(RebuildAction::Update), RepairAction::Update);
    let (ops, issues) = index_repair(RebuildResult {
        index_action: RebuildAction::NoChange,
        index_path: "i".into(),
        task_errors: vec![RebuildTaskError { path: "t".into(), task_ref: "3".into(), reason: "bad".into() }],
    });
    assert!(ops.is_empty());
    assert_eq!(issues.len(), 1);
    assert_eq!(issues[0].code, "invalid_task");
    assert_eq!(issues[0].task_ref, Some("3".to_string()));
    let (ops, _) = index_repair(RebuildResult { index_action: RebuildAction::Update, index_path: "i".into(), task_errors: vec![] });
    assert_eq!(ops.len(), 1);
    assert_eq!(ops[0].kind, RepairKind::DerivedIndex);
    assert_eq!(ops[0].message, "rebuilt derived task index");
    let r = repair_result(ops, vec![], vec![], vec![], vec![]);
    assert_eq!(r.operations.len(), 1);
}

#[test]
fn migration_decisions() {
    assert_eq!(start_version(&None, "m", false), Ok(1));
    assert_eq!(start_version(&None, "m", true), Ok(0));
    assert_eq!(start_version(&Some("1\n".into()), "m", false), Ok(1));
    assert_eq!(
        start_version(&Some(" 2\n".into()), "m", false),
        Err(MinervaError::SchemaError { path: "m".into(), reason: "unsupported schema marker `2`".into() })
    );
    assert_eq!(start_version(&Some("2\n".into()), "m", true), Ok(0));
    assert!(schema_marker("m", &Some("1\n".into())).is_none());
    let p = schema_marker("m", &None).unwrap();
    assert_eq!((p.action, p.contents.as_str(), p.message.as_str()), (ProjectMigrationAction::Create, "1\n", "created schema marker"));
    assert!(changed("p", "a: 1\n".into(), "a: 1\n", "m").is_none());
    assert_eq!(changed("p", "b\n".into(), "a\n", "m").unwrap().action, ProjectMigrationAction::Update);
    assert_eq!(migrate_mapping("p", true, SchemaVersionEntry::Absent), Ok(true));
    assert_eq!(migrate_mapping("p", true, SchemaVersionEntry::One), Ok(false));
    assert_eq!(
        migrate_mapping("p", true, SchemaVersionEntry::Other),
        Err(MinervaError::SchemaError { path: "p".into(), reason: "schema_version must be 1 when present".into() })
    );
    assert_eq!(
        migrate_mapping("p", false, SchemaVersionEntry::Absent),
        Err(MinervaError::SchemaError { path: "p".into(), reason: "expected mapping document".into() })
    );
    assert_eq!(migration_backup_path("/r/.minerva/project.yaml", 77), "/r/.minerva/schema-migration-backup-77-project.yaml");
}

#[test]
fn migration_step_reports_relative_paths() {
    let layout = MinervaLayout::new("/r");
    assert!(migration_step(&layout, &vec![], &vec![]).is_none());
    let plans = vec![FilePlan {
        action: ProjectMigrationAction::Update,
        path: "/r/.minerva/project.yaml".into(),
        contents: "x".into(),
        message: "added schema version to project".into(),
    }];
    let step = migration_step(&layout, &plans, &vec![Some("/r/.minerva/schema-migration-backup-1-project.yaml".into())]).unwrap();
    assert_eq!(step.name, "v0_to_v1");
    assert_eq!((step.from_version, step.to_version), (0, 1));
    assert_eq!(step.operations[0].path, ".minerva/project.yaml");
    assert_eq!(step.operations[0].backup_path, Some(".minerva/schema-migration-backup-1-project.yaml".into()));
    let r = migration_result(0, Some(step));
    assert_eq!((r.start_version, r.target_version, r.steps.len()), (0, 1, 1));
    let r = migration_result(1, None);
    assert!(r.steps.is_empty());
}

fn schema_reason(r: Result<Option<FilePlan>, MinervaError>) -> String {
    match r {
        Err(MinervaError::SchemaError { path, reason }) => {
            assert_eq!(path, "p");
            reason
        }
        other => panic!("expected a schema error, got {:?}", other),
    }
}

#[test]
fn documents_get_schema_version_first() {
    let plan = document_plan("p", "name: x\nowner: y\n", "added").unwrap().unwrap();
    assert_eq!(plan.action, ProjectMigrationAction::Update);
    assert_eq!(plan.path, "p");
    assert_eq!(plan.contents, "schema_version: 1\nname: x\nowner: y\n");
    assert_eq!(plan.message, "added");
    assert!(document_plan("p", "schema_version: 1\nname: x\n", "added").unwrap().is_none());
    let rewritten = document_plan("p", "name:   x\n", "added").unwrap().unwrap();
    assert_eq!(rewritten.contents, "schema_version: 1\nname: x\n");
    let kept = document_plan("p", "name: x\nschema_version: 1\n", "added").unwrap();
    assert!(kept.is_none());
}

#[test]
fn documents_that_cannot_be_migrated() {
    assert_eq!(schema_reason(document_plan("p", "- a\n", "m")), "expected mapping document");
    assert_eq!(schema_reason(document_plan("p", "schema_version: 2\n", "m")), "schema_version must be 1 when present");
    assert_eq!(schema_reason(document_plan("p", "schema_version: one\n", "m")), "schema_version must be 1 when present");
    assert!(!schema_reason(document_plan("p", "a: [\n", "m")).is_empty());
}

#[test]
fn relationship_lists_get_schema_version_in_each_item() {
    let plan = relationship_plan("p", "- from: a\n  to: b\n- schema_version: 1\n  from: c\n").unwrap().unwrap();
    assert_eq!(plan.contents, "- schema_version: 1\n  from: a\n  to: b\n- schema_version: 1\n  from: c\n");
    assert_eq!(plan.message, "added schema version to relationships");
    assert!(relationship_plan("p", "- schema_version: 1\n  from: a\n").unwrap().is_none());
    assert_eq!(schema_reason(relationship_plan("p", "from: a\n")), "expected relationship list");
    assert_eq!(schema_reason(relationship_plan("p", "- from: a\n- 3\n")), "expected mapping document");
    assert_eq!(
        schema_reason(relationship_plan("p", "- 3\n- schema_version: 7\n")),
        "expected mapping document"
    );
    assert_eq!(
        schema_reason(relationship_plan("p", "- schema_version: 7\n- 3\n")),
        "schema_version must be 1 when present"
    );
}

#[test]
fn only_abandoned_temp_files_are_picked_for_removal() {
    let files: Vec<String> = vec![
        "/p/.minerva/project.yaml".into(),
        "/p/.minerva/tasks/T-1/.task.yaml.tmp.12".into(),
        "/p/.minerva/.gitkeep".into(),
        "/p/.minerva/safe-repair-backup-5-task.yaml.tmp-backup.12".into(),
        "/p/.minerva/.notes.md.tmp.7".into(),
    ];
    assert_eq!(
        abandoned_temps(&files),
        vec!["/p/.minerva/tasks/T-1/.task.yaml.tmp.12".to_string(), "/p/.minerva/.notes.md.tmp.7".to_string()]
    );
}

#[test]
fn migrated_documents_are_stable() {
    let once = document_plan("p", "name: x\n", "m").unwrap().unwrap();
    assert!(document_plan("p", &once.contents, "m").unwrap().is_none());
    let rel = relationship_plan("p", "- from: a\n").unwrap().unwrap();
    assert!(relationship_plan("p", &rel.contents).unwrap().is_none());
}

#[test]
fn new_projects_start_with_the_default_settings() {
    let p = minerva_storage::project_init::default_project("/work/atlas");
    assert_eq!(p.schema_version, 1);
    assert_eq!(p.name, "atlas");
    assert_eq!(p.default_task_type, "feature");
    assert_eq!(p.default_status, "backlog");
    let statuses: Vec<(&str, bool)> = p.statuses.iter().map(|s| (s.key.as_str(), s.terminal)).collect();
    assert_eq!(statuses, vec![("backlog", false), ("in-progress", false), ("completed", true)]);
    let transitions: Vec<(&str, &str)> = p.transitions.iter().map(|t| (t.from.as_str(), t.to.as_str())).collect();
    assert_eq!(transitions, vec![("backlog", "in-progress"), ("in-progress", "completed"), ("completed", "in-progress")]);
    assert_eq!(p.context_policy, (12, 2, 24));
    assert_eq!(minerva_storage::project_init::default_project("/").name, "Minerva");
}

#[test]
fn relationship_items_keep_their_order_and_values() {
    let text = "- from: T-2\n  to: T-1\n  hard: true\n- from: T-1\n  to: T-2\n  weight: 0.5\n  note: null\n";
    let plan = relationship_plan("p", text).unwrap().unwrap();
    assert_eq!(
        plan.contents,
        "- schema_version: 1\n  from: T-2\n  to: T-1\n  hard: true\n- schema_version: 1\n  from: T-1\n  to: T-2\n  weight: 0.5\n  note: null\n"
    );
}

#[test]
fn temp_file_operations_follow_the_files_in_order() {
    let layout = MinervaLayout::new("/p");
    let temps = vec!["/p/.minerva/.a.tmp.1".to_string(), "/p/.minerva/tasks/.b.tmp.2".to_string()];
    let backups = vec!["/p/.minerva/bk-a".to_string(), "/p/.minerva/tasks/bk-b".to_string()];
    let ops = temp_file_operations(&layout, &temps, &backups);
    assert_eq!(ops.len(), 2);
    assert_eq!(ops[0].path, ".minerva/.a.tmp.1");
    assert_eq!(ops[0].backup_path.as_deref(), Some(".minerva/bk-a"));
    assert_eq!(ops[1].path, ".minerva/tasks/.b.tmp.2");
    assert_eq!(ops[1].message, "removed abandoned temporary file after creating backup");
}
