use minerva_storage::layout::{project_layout, task_layout, LayoutClass, LayoutEntry, MinervaLayout};
use minerva_storage::path::{file_name, join, parent, relative};

#[test]
fn layout_paths_live_under_minerva_dir() {
    let layout = MinervaLayout::new("/work/repo");
    assert_eq!(layout.minerva_dir(), "/work/repo/.minerva");
    assert_eq!(layout.project_file(), "/work/repo/.minerva/project.yaml");
    assert_eq!(layout.config_file(), "/work/repo/.minerva/config.yaml");
    assert_eq!(layout.instructions_file(), "/work/repo/.minerva/instructions.md");
    assert_eq!(layout.schema_version_file(), "/work/repo/.minerva/schema-version");
    assert_eq!(layout.task_types_dir(), "/work/repo/.minerva/task-types");
    assert_eq!(layout.tasks_dir(), "/work/repo/.minerva/tasks");
    assert_eq!(layout.indexes_dir(), "/work/repo/.minerva/indexes");
    assert_eq!(layout.contexts_dir(), "/work/repo/.minerva/contexts");
    assert_eq!(layout.sessions_dir(), "/work/repo/.minerva/sessions");
    assert_eq!(layout.locks_dir(), "/work/repo/.minerva/locks");
    assert_eq!(layout.root(), "/work/repo");
}

#[test]
fn layout_task_paths() {
    let layout = MinervaLayout::new("repo/");
    assert_eq!(layout.task_dir("MIN-7"), "repo/.minerva/tasks/MIN-7");
    assert_eq!(layout.task_file("MIN-7"), "repo/.minerva/tasks/MIN-7/task.yaml");
    assert_eq!(layout.task_instructions_file("MIN-7"), "repo/.minerva/tasks/MIN-7/instructions.md");
    assert_eq!(layout.declaration_file("MIN-7"), "repo/.minerva/tasks/MIN-7/declaration.md");
    assert_eq!(layout.notes_file("MIN-7"), "repo/.minerva/tasks/MIN-7/notes.md");
    assert_eq!(layout.events_file("MIN-7"), "repo/.minerva/tasks/MIN-7/events.jsonl");
    assert_eq!(layout.task_lock_file("MIN-7"), "repo/.minerva/locks/MIN-7.lock");
}

#[test]
fn layout_of_empty_root_is_relative() {
    let layout = MinervaLayout::new("");
    assert_eq!(layout.minerva_dir(), ".minerva");
    assert_eq!(layout.project_file(), ".minerva/project.yaml");
}

#[test]
fn layout_files_have_minerva_dir_as_parent() {
    let layout = MinervaLayout::new("/srv/p");
    for p in [layout.project_file(), layout.config_file(), layout.locks_dir(), layout.tasks_dir()] {
        assert_eq!(parent(&p), Some(layout.minerva_dir()));
    }
    assert_eq!(parent(&layout.task_file("1")), Some(layout.task_dir("1")));
    assert_eq!(parent(&layout.task_dir("1")), Some(layout.tasks_dir()));
}

#[test]
fn project_catalog_lists_the_layout() {
    let entries = project_layout();
    assert_eq!(entries.len(), 10);
    assert_eq!(entries[0], LayoutEntry::new("project.yaml", LayoutClass::Canonical, "project metadata"));
    assert_eq!(entries[4].relative_path, "task-types/");
    assert_eq!(entries[6].class, LayoutClass::Derived);
    assert_eq!(entries[9], LayoutEntry::new("locks/", LayoutClass::Operational, "runtime lock files"));
    let canonical = entries.iter().filter(|e| e.class == LayoutClass::Canonical).count();
    assert_eq!(canonical, 6);
}

#[test]
fn task_catalog_lists_task_files() {
    let entries = task_layout();
    assert_eq!(entries.len(), 5);
    assert_eq!(entries[0].relative_path, "tasks/<task-id>/task.yaml");
    assert_eq!(entries[4].description, "task audit log");
    assert!(entries.iter().all(|e| e.class == LayoutClass::Canonical));
}

#[test]
fn path_model_join_parent_and_name() {
    assert_eq!(join("a", "b"), "a/b");
    assert_eq!(join("a/", "b"), "a/b");
    assert_eq!(join("", "b"), "b");
    assert_eq!(join("a", "/b"), "/b");
    assert_eq!(parent("a/b"), Some("a".to_string()));
    assert_eq!(parent("a/b/"), Some("a".to_string()));
    assert_eq!(parent("/a"), Some("/".to_string()));
    assert_eq!(parent("a"), Some(String::new()));
    assert_eq!(parent(""), None);
    assert_eq!(parent("/"), None);
    assert_eq!(file_name("a/b.txt"), Some("b.txt".to_string()));
    assert_eq!(file_name("a/.."), None);
    assert_eq!(file_name("/"), None);
}

#[test]
fn relative_paths_strip_the_root() {
    assert_eq!(relative("/r/.minerva/locks", "/r"), ".minerva/locks");
    assert_eq!(relative("/r/", "/r/"), "");
    assert_eq!(relative("/rx/a", "/r"), "/rx/a");
    assert_eq!(relative("a/b", ""), "a/b");
}

#[test]
fn relative_undoes_join() {
    for root in ["/r", "/r/", "", "proj"] {
        for rel in [".minerva/tasks/T-1/task.yaml", "x"] {
            assert_eq!(relative(&join(root, rel), root), rel);
        }
    }
}

#[test]
fn dot_components_do_not_count() {
    assert_eq!(file_name("a/."), Some("a".to_string()));
    assert_eq!(parent("a/."), Some("".to_string()));
    assert_eq!(parent("a/./b"), Some("a".to_string()));
    assert_eq!(parent("/./a"), Some("/".to_string()));
    assert_eq!(parent("./a"), Some(".".to_string()));
    assert_eq!(parent("/."), None);
    assert_eq!(file_name("./."), None);
    assert_eq!(file_name("a/.."), None);
    assert_eq!(parent("a/.."), Some("a".to_string()));
    assert_eq!(parent("a//b/"), Some("a".to_string()));
}

#[test]
fn task_catalog_entries_give_the_task_paths() {
    let layout = MinervaLayout::new("/w");
    let id = "T-7";
    let expected = [
        layout.task_file(id),
        layout.task_instructions_file(id),
        layout.declaration_file(id),
        layout.notes_file(id),
        layout.events_file(id),
    ];
    let entries = task_layout();
    assert_eq!(entries.len(), 5);
    for (entry, path) in entries.iter().zip(expected.iter()) {
        assert_eq!(entry.class, LayoutClass::Canonical);
        assert_eq!(&join(&layout.minerva_dir(), &entry.relative_path.replace("<task-id>", id)), path);
    }
}
