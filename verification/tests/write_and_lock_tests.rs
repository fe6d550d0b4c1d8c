use minerva_storage::atomic_write::{AtomicReplace, ReplaceAction, ReplaceStep};
use minerva_storage::file_lock::{conflict, lock_dir, lock_metadata};
use minerva_storage::path::parent;
use minerva_storage::repair::{is_abandoned_temp, repair_backup_path};
use minerva_storage::{temp_path, MinervaError};

fn run(outcomes: &[bool]) -> Vec<ReplaceAction> {
    let (mut m, _) = AtomicReplace::begin("dir/file.md", 7).unwrap();
    let mut actions = Vec::new();
    let mut next = outcomes.iter();
    loop {
        let a = m.next_action();
        actions.push(a);
        match a {
            ReplaceAction::Perform(_) => m.report(*next.next().unwrap()),
            ReplaceAction::RemoveTemp => m.report(true),
            ReplaceAction::Succeed | ReplaceAction::Fail => return actions,
        }
    }
}

#[test]
fn temp_file_stays_in_target_directory() {
    let path = "/tmp/minerva-storage-x/result.md";
    assert_eq!(parent(&temp_path(path, 4242)), parent(path));
    assert_eq!(temp_path(path, 4242), "/tmp/minerva-storage-x/.result.md.tmp.4242");
}

#[test]
fn temp_path_without_parent_or_name() {
    assert_eq!(temp_path("task.yaml", 12), ".task.yaml.tmp.12");
    assert_eq!(temp_path("", 3), "./.minerva.tmp.3");
    assert_eq!(temp_path("a/..", 0), "a/.minerva.tmp.0");
}

#[test]
fn atomic_replace_without_parent_is_refused() {
    assert!(AtomicReplace::begin("", 1).is_none());
    assert!(AtomicReplace::begin("/", 1).is_none());
    let (_, temp) = AtomicReplace::begin("a/b", 9).unwrap();
    assert_eq!(temp, "a/.b.tmp.9");
}

#[test]
fn atomic_replace_succeeds_after_all_steps_in_order() {
    let actions = run(&[true; 9]);
    assert_eq!(
        actions,
        vec![
            ReplaceAction::Perform(ReplaceStep::CreateTemp),
            ReplaceAction::Perform(ReplaceStep::WriteContents),
            ReplaceAction::Perform(ReplaceStep::Flush),
            ReplaceAction::Perform(ReplaceStep::SyncFile),
            ReplaceAction::Perform(ReplaceStep::AfterSync),
            ReplaceAction::Perform(ReplaceStep::CloseFile),
            ReplaceAction::Perform(ReplaceStep::BeforeRename),
            ReplaceAction::Perform(ReplaceStep::Rename),
            ReplaceAction::Perform(ReplaceStep::SyncParent),
            ReplaceAction::Succeed,
        ]
    );
}

#[test]
fn interrupted_write_keeps_existing_file_and_cleans_temp() {
    // The hook after the sync fails: the temporary file is removed, the
    // rename over the target is never requested.
    let actions = run(&[true, true, true, true, false]);
    assert_eq!(actions.len(), 7);
    assert_eq!(actions[4], ReplaceAction::Perform(ReplaceStep::AfterSync));
    assert_eq!(actions[5], ReplaceAction::RemoveTemp);
    assert_eq!(actions[6], ReplaceAction::Fail);
    assert!(!actions.contains(&ReplaceAction::Perform(ReplaceStep::Rename)));
}

#[test]
fn failure_after_rename_still_cleans_and_fails() {
    let actions = run(&[true, true, true, true, true, true, true, true, false]);
    assert!(actions.contains(&ReplaceAction::Perform(ReplaceStep::Rename)));
    assert_eq!(actions[actions.len() - 2], ReplaceAction::RemoveTemp);
    assert_eq!(actions[actions.len() - 1], ReplaceAction::Fail);
}

#[test]
fn failure_to_create_temp_fails_at_once() {
    let actions = run(&[false]);
    assert_eq!(
        actions,
        vec![ReplaceAction::Perform(ReplaceStep::CreateTemp), ReplaceAction::RemoveTemp, ReplaceAction::Fail]
    );
}

#[test]
fn lock_metadata_records_owner_and_time() {
    assert_eq!(
        lock_metadata(999999, 1700000000),
        "pid=999999\ncreated_at_unix=1700000000\nstale=remove manually after verifying owner is inactive\n"
    );
    assert_eq!(
        lock_metadata(0, 0),
        "pid=0\ncreated_at_unix=0\nstale=remove manually after verifying owner is inactive\n"
    );
}

#[test]
fn second_writer_gets_structured_lock_conflict() {
    let error = conflict("/r/.minerva/locks/project.lock");
    assert_eq!(error, MinervaError::LockConflict { path: "/r/.minerva/locks/project.lock".to_string() });
}

#[test]
fn lock_dir_is_parent_or_current_dir() {
    assert_eq!(lock_dir("/r/.minerva/locks/a.lock"), "/r/.minerva/locks");
    assert_eq!(lock_dir("a.lock"), "");
    assert_eq!(lock_dir("/"), ".");
}

#[test]
fn temp_files_are_recognised_and_backups_are_not() {
    for path in ["/p/.minerva/task.yaml", "/p/.minerva/tasks/T-1/", "x", "/"] {
        let temp = temp_path(path, 42);
        assert!(is_abandoned_temp(&temp), "{temp}");
        assert!(!is_abandoned_temp(&repair_backup_path(&temp, 9)));
    }
    assert!(is_abandoned_temp("/p/.minerva/.task.yaml.tmp.42"));
    assert!(!is_abandoned_temp("/p/.minerva/project.yaml"));
    assert!(!is_abandoned_temp("/p/.minerva/.gitkeep"));
}
