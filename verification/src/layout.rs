//! Where Minerva keeps its files: the `.minerva` directory of a project
//! root, and the catalog of what each entry in it is for.

use vstd::prelude::*;
use crate::path::{
    is_component, join, join_path, lemma_parent_of_join, parent_of, file_name_of,
};
use crate::text::concat;

verus! {

/// How an entry of the layout may be treated.
#[derive(Debug, Clone, Copy, PartialEq, Eq, Structural)]
pub enum LayoutClass {
    /// Holds the project's own records; never rebuilt.
    Canonical,
    /// Can be rebuilt from canonical records.
    Derived,
    /// Runtime state such as lock files.
    Operational,
}

/// One documented entry of the layout.
#[derive(Debug, Clone, Copy, PartialEq, Eq)]
pub struct LayoutEntry {
    pub relative_path: &'static str,
    pub class: LayoutClass,
    pub description: &'static str,
}

impl LayoutEntry {
    /// An entry with the given path, class and description.
    pub fn new(
        relative_path: &'static str,
        class: LayoutClass,
        description: &'static str,
    ) -> (e: Self)
        ensures
            e == (LayoutEntry { relative_path, class, description }),
    {
        LayoutEntry { relative_path, class, description }
    }
}

/// The entries of the `.minerva` directory, in their documented order.
pub open spec fn project_catalog() -> Seq<LayoutEntry> {
    seq![
        LayoutEntry { relative_path: "project.yaml", class: LayoutClass::Canonical, description: "project metadata" },
        LayoutEntry { relative_path: "config.yaml", class: LayoutClass::Canonical, description: "user configuration" },
        LayoutEntry { relative_path: "instructions.md", class: LayoutClass::Canonical, description: "project instructions" },
        LayoutEntry { relative_path: "schema-version", class: LayoutClass::Canonical, description: "schema marker" },
        LayoutEntry { relative_path: "task-types/", class: LayoutClass::Canonical, description: "task type templates" },
        LayoutEntry { relative_path: "tasks/", class: LayoutClass::Canonical, description: "canonical task records" },
        LayoutEntry { relative_path: "indexes/", class: LayoutClass::Derived, description: "rebuildable indexes" },
        LayoutEntry { relative_path: "contexts/", class: LayoutClass::Derived, description: "compiled contexts" },
        LayoutEntry { relative_path: "sessions/", class: LayoutClass::Derived, description: "execution manifests" },
        LayoutEntry { relative_path: "locks/", class: LayoutClass::Operational, description: "runtime lock files" },
    ]
}

/// The files kept for each task, in their documented order.
pub open spec fn task_catalog() -> Seq<LayoutEntry> {
    seq![
        LayoutEntry { relative_path: "tasks/<task-id>/task.yaml", class: LayoutClass::Canonical, description: "task metadata" },
        LayoutEntry { relative_path: "tasks/<task-id>/instructions.md", class: LayoutClass::Canonical, description: "task instructions" },
        LayoutEntry { relative_path: "tasks/<task-id>/declaration.md", class: LayoutClass::Canonical, description: "task handoff state" },
        LayoutEntry { relative_path: "tasks/<task-id>/notes.md", class: LayoutClass::Canonical, description: "task notes" },
        LayoutEntry { relative_path: "tasks/<task-id>/events.jsonl", class: LayoutClass::Canonical, description: "task audit log" },
    ]
}

/// The documented entries of the `.minerva` directory.
pub fn project_layout() -> (v: Vec<LayoutEntry>)
    ensures
        v@ == project_catalog(),
{
    let v = vec![
        LayoutEntry::new("project.yaml", LayoutClass::Canonical, "project metadata"),
        LayoutEntry::new("config.yaml", LayoutClass::Canonical, "user configuration"),
        LayoutEntry::new("instructions.md", LayoutClass::Canonical, "project instructions"),
        LayoutEntry::new("schema-version", LayoutClass::Canonical, "schema marker"),
        LayoutEntry::new("task-types/", LayoutClass::Canonical, "task type templates"),
        LayoutEntry::new("tasks/", LayoutClass::Canonical, "canonical task records"),
        LayoutEntry::new("indexes/", LayoutClass::Derived, "rebuildable indexes"),
        LayoutEntry::new("contexts/", LayoutClass::Derived, "compiled contexts"),
        LayoutEntry::new("sessions/", LayoutClass::Derived, "execution manifests"),
        LayoutEntry::new("locks/", LayoutClass::Operational, "runtime lock files"),
    ];
    assert(v@ =~= project_catalog());
    v
}

/// The documented files of one task.
pub fn task_layout() -> (v: Vec<LayoutEntry>)
    ensures
        v@ == task_catalog(),
{
    let v = vec![
        LayoutEntry::new("tasks/<task-id>/task.yaml", LayoutClass::Canonical, "task metadata"),
        LayoutEntry::new(
            "tasks/<task-id>/instructions.md",
            LayoutClass::Canonical,
            "task instructions",
        ),
        LayoutEntry::new(
            "tasks/<task-id>/declaration.md",
            LayoutClass::Canonical,
            "task handoff state",
        ),
        LayoutEntry::new("tasks/<task-id>/notes.md", LayoutClass::Canonical, "task notes"),
        LayoutEntry::new("tasks/<task-id>/events.jsonl", LayoutClass::Canonical, "task audit log"),
    ];
    assert(v@ =~= task_catalog());
    v
}

/// The `.minerva` directory under `root`.
pub open spec fn minerva_dir_of(root: Seq<char>) -> Seq<char> {
    join_path(root, ".minerva"@)
}

/// The entry `name` of the `.minerva` directory under `root`.
pub open spec fn minerva_entry(root: Seq<char>, name: Seq<char>) -> Seq<char> {
    join_path(minerva_dir_of(root), name)
}

/// The directory of the task whose identifier reads `task_id`.
pub open spec fn task_dir_of(root: Seq<char>, task_id: Seq<char>) -> Seq<char> {
    join_path(minerva_entry(root, "tasks"@), task_id)
}

/// The file `name` of the task whose identifier reads `task_id`.
pub open spec fn task_entry(root: Seq<char>, task_id: Seq<char>, name: Seq<char>) -> Seq<char> {
    join_path(task_dir_of(root, task_id), name)
}

/// The paths of a Minerva project rooted at a directory.
#[derive(Debug, Clone, PartialEq, Eq)]
pub struct MinervaLayout {
    root: String,
}

impl MinervaLayout {
    /// The project root this layout is for.
    pub closed spec fn root_path(&self) -> Seq<char> {
        self.root@
    }

    /// The layout of the project rooted at `root`.
    pub fn new(root: &str) -> (l: Self)
        ensures
            l.root_path() == root@,
    {
        let mut r = String::new();
        crate::text::append_str(&mut r, root);
        MinervaLayout { root: r }
    }

    /// The project root.
    pub fn root(&self) -> (r: &str)
        ensures
            r@ == self.root_path(),
    {
        self.root.as_str()
    }

    /// `<root>/.minerva`
    pub fn minerva_dir(&self) -> (p: String)
        ensures
            p@ == minerva_dir_of(self.root_path()),
    {
        join(self.root.as_str(), ".minerva")
    }

    /// `<root>/.minerva/project.yaml`
    pub fn project_file(&self) -> (p: String)
        ensures
            p@ == minerva_entry(self.root_path(), "project.yaml"@),
    {
        join(self.minerva_dir().as_str(), "project.yaml")
    }

    /// `<root>/.minerva/config.yaml`
    pub fn config_file(&self) -> (p: String)
        ensures
            p@ == minerva_entry(self.root_path(), "config.yaml"@),
    {
        join(self.minerva_dir().as_str(), "config.yaml")
    }

    /// `<root>/.minerva/instructions.md`
    pub fn instructions_file(&self) -> (p: String)
        ensures
            p@ == minerva_entry(self.root_path(), "instructions.md"@),
    {
        join(self.minerva_dir().as_str(), "instructions.md")
    }

    /// `<root>/.minerva/schema-version`
    pub fn schema_version_file(&self) -> (p: String)
        ensures
            p@ == minerva_entry(self.root_path(), "schema-version"@),
    {
        join(self.minerva_dir().as_str(), "schema-version")
    }

    /// `<root>/.minerva/task-types`
    pub fn task_types_dir(&self) -> (p: String)
        ensures
            p@ == minerva_entry(self.root_path(), "task-types"@),
    {
        join(self.minerva_dir().as_str(), "task-types")
    }

    /// `<root>/.minerva/tasks`
    pub fn tasks_dir(&self) -> (p: String)
        ensures
            p@ == minerva_entry(self.root_path(), "tasks"@),
    {
        join(self.minerva_dir().as_str(), "tasks")
    }

    /// `<root>/.minerva/indexes`
    pub fn indexes_dir(&self) -> (p: String)
        ensures
            p@ == minerva_entry(self.root_path(), "indexes"@),
    {
        join(self.minerva_dir().as_str(), "indexes")
    }

    /// `<root>/.minerva/contexts`
    pub fn contexts_dir(&self) -> (p: String)
        ensures
            p@ == minerva_entry(self.root_path(), "contexts"@),
    {
        join(self.minerva_dir().as_str(), "contexts")
    }

    /// `<root>/.minerva/sessions`
    pub fn sessions_dir(&self) -> (p: String)
        ensures
            p@ == minerva_entry(self.root_path(), "sessions"@),
    {
        join(self.minerva_dir().as_str(), "sessions")
    }

    /// `<root>/.minerva/locks`
    pub fn locks_dir(&self) -> (p: String)
        ensures
            p@ == minerva_entry(self.root_path(), "locks"@),
    {
        join(self.minerva_dir().as_str(), "locks")
    }

    /// `<root>/.minerva/tasks/<task-id>`, where `task_id` is the text of
    /// the task's identifier.
    pub fn task_dir(&self, task_id: &str) -> (p: String)
        ensures
            p@ == task_dir_of(self.root_path(), task_id@),
    {
        join(self.tasks_dir().as_str(), task_id)
    }

    /// `<root>/.minerva/tasks/<task-id>/task.yaml`
    pub fn task_file(&self, task_id: &str) -> (p: String)
        ensures
            p@ == task_entry(self.root_path(), task_id@, "task.yaml"@),
    {
        join(self.task_dir(task_id).as_str(), "task.yaml")
    }

    /// `<root>/.minerva/tasks/<task-id>/instructions.md`
    pub fn task_instructions_file(&self, task_id: &str) -> (p: String)
        ensures
            p@ == task_entry(self.root_path(), task_id@, "instructions.md"@),
    {
        join(self.task_dir(task_id).as_str(), "instructions.md")
    }

    /// `<root>/.minerva/tasks/<task-id>/declaration.md`
    pub fn declaration_file(&self, task_id: &str) -> (p: String)
        ensures
            p@ == task_entry(self.root_path(), task_id@, "declaration.md"@),
    {
        join(self.task_dir(task_id).as_str(), "declaration.md")
    }

    /// `<root>/.minerva/tasks/<task-id>/notes.md`
    pub fn notes_file(&self, task_id: &str) -> (p: String)
        ensures
            p@ == task_entry(self.root_path(), task_id@, "notes.md"@),
    {
        join(self.task_dir(task_id).as_str(), "notes.md")
    }

    /// `<root>/.minerva/tasks/<task-id>/events.jsonl`
    pub fn events_file(&self, task_id: &str) -> (p: String)
        ensures
            p@ == task_entry(self.root_path(), task_id@, "events.jsonl"@),
    {
        join(self.task_dir(task_id).as_str(), "events.jsonl")
    }

    /// `<root>/.minerva/locks/<task-id>.lock`
    pub fn task_lock_file(&self, task_id: &str) -> (p: String)
        ensures
            p@ == join_path(minerva_entry(self.root_path(), "locks"@), task_id@ + ".lock"@),
    {
        let name = concat(task_id, ".lock");
        join(self.locks_dir().as_str(), name.as_str())
    }
}


/// The names that `MinervaLayout` gives the entries of `.minerva`, in the
/// order of `project_catalog`.
pub open spec fn entry_names() -> Seq<Seq<char>> {
    seq![
        "project.yaml"@, "config.yaml"@, "instructions.md"@, "schema-version"@,
        "task-types"@, "tasks"@, "indexes"@, "contexts"@, "sessions"@, "locks"@,
    ]
}

proof fn reveal_entry_names()
    ensures
        entry_names()[0] == seq!['p', 'r', 'o', 'j', 'e', 'c', 't', '.', 'y', 'a', 'm', 'l'],
        entry_names()[1] == seq!['c', 'o', 'n', 'f', 'i', 'g', '.', 'y', 'a', 'm', 'l'],
        entry_names()[2] == seq!['i', 'n', 's', 't', 'r', 'u', 'c', 't', 'i', 'o', 'n', 's', '.', 'm', 'd'],
        entry_names()[3] == seq!['s', 'c', 'h', 'e', 'm', 'a', '-', 'v', 'e', 'r', 's', 'i', 'o', 'n'],
        entry_names()[4] == seq!['t', 'a', 's', 'k', '-', 't', 'y', 'p', 'e', 's'],
        entry_names()[5] == seq!['t', 'a', 's', 'k', 's'],
        entry_names()[6] == seq!['i', 'n', 'd', 'e', 'x', 'e', 's'],
        entry_names()[7] == seq!['c', 'o', 'n', 't', 'e', 'x', 't', 's'],
        entry_names()[8] == seq!['s', 'e', 's', 's', 'i', 'o', 'n', 's'],
        entry_names()[9] == seq!['l', 'o', 'c', 'k', 's'],
{
    reveal_strlit("project.yaml");
    reveal_strlit("config.yaml");
    reveal_strlit("instructions.md");
    reveal_strlit("schema-version");
    reveal_strlit("task-types");
    reveal_strlit("tasks");
    reveal_strlit("indexes");
    reveal_strlit("contexts");
    reveal_strlit("sessions");
    reveal_strlit("locks");
}

proof fn lemma_minerva_dir_shape(root: Seq<char>)
    ensures
        minerva_dir_of(root).len() > 0,
        minerva_dir_of(root).last() == 'a',
{
    reveal_strlit(".minerva");
    let n = ".minerva"@;
    let md = minerva_dir_of(root);
    if root.len() == 0 {
    } else if root.last() == '/' {
        assert(md =~= root + n);
    } else {
        assert(md =~= root + seq!['/'] + n);
    }
}

/// Each named entry of the layout lies directly inside `.minerva` and is
/// found again under its own name; the ten entries are ten different paths.
pub proof fn lemma_entries_in_minerva_dir(root: Seq<char>)
    ensures
        forall|i: int| 0 <= i < 10 ==> parent_of(#[trigger] minerva_entry(root, entry_names()[i]))
            == Some(minerva_dir_of(root)),
        forall|i: int| 0 <= i < 10 ==> file_name_of(#[trigger] minerva_entry(root, entry_names()[i]))
            == Some(entry_names()[i]),
        forall|i: int, j: int| 0 <= i < 10 && 0 <= j < 10 && i != j ==>
            minerva_entry(root, #[trigger] entry_names()[i]) != minerva_entry(root, #[trigger] entry_names()[j]),
{
    reveal_entry_names();
    lemma_minerva_dir_shape(root);
    let md = minerva_dir_of(root);
    assert forall|i: int| 0 <= i < 10 implies is_component(#[trigger] entry_names()[i])
        && entry_names()[i] != seq!['.'] && entry_names()[i] != seq!['.', '.'] by {
        let n = entry_names()[i];
        assert(n.len() > 1 && n[1] != '.');
    }
    assert forall|i: int| 0 <= i < 10 implies parent_of(#[trigger] minerva_entry(root, entry_names()[i]))
        == Some(md) && file_name_of(minerva_entry(root, entry_names()[i])) == Some(entry_names()[i]) by {
        lemma_parent_of_join(md, entry_names()[i]);
    }
    assert forall|i: int, j: int| 0 <= i < 10 && 0 <= j < 10 && i != j implies
        minerva_entry(root, #[trigger] entry_names()[i]) != minerva_entry(root, #[trigger] entry_names()[j]) by {
        lemma_parent_of_join(md, entry_names()[i]);
        lemma_parent_of_join(md, entry_names()[j]);
    }
}

/// The catalog of `.minerva` names exactly the entries that
/// `MinervaLayout` builds, directories written with a trailing separator.
pub proof fn lemma_catalog_matches_layout(root: Seq<char>)
    ensures
        project_catalog().len() == entry_names().len(),
        forall|i: int| 0 <= i < 10 ==> crate::path::strip_seps(#[trigger] project_catalog()[i].relative_path@)
            == entry_names()[i],
        forall|i: int| 0 <= i < 10 ==> (project_catalog()[i].class == LayoutClass::Canonical <==> i < 6),
        forall|i: int| 0 <= i < 10 ==> (project_catalog()[i].class == LayoutClass::Operational <==> i == 9),
{
    reveal_entry_names();
    reveal_strlit("project.yaml");
    reveal_strlit("config.yaml");
    reveal_strlit("instructions.md");
    reveal_strlit("schema-version");
    reveal_strlit("task-types/");
    reveal_strlit("tasks/");
    reveal_strlit("indexes/");
    reveal_strlit("contexts/");
    reveal_strlit("sessions/");
    reveal_strlit("locks/");
    let c = project_catalog();
    assert forall|i: int| 0 <= i < 10 implies crate::path::strip_seps(#[trigger] c[i].relative_path@)
        == entry_names()[i] by {
        let p = c[i].relative_path@;
        if i >= 4 {
            assert(p.drop_last() =~= entry_names()[i]);
            assert(crate::path::strip_seps(p.drop_last()) == p.drop_last());
        }
    }
}

/// The files of a task lie directly in its directory, which lies directly
/// in `tasks`; different task identifiers give different directories.
pub proof fn lemma_task_files_in_task_dir(root: Seq<char>, task_id: Seq<char>, other: Seq<char>)
    requires
        is_component(task_id),
        is_component(other),
        task_id != seq!['.'],
        other != seq!['.'],
    ensures
        parent_of(task_dir_of(root, task_id)) == Some(minerva_entry(root, "tasks"@)),
        parent_of(task_entry(root, task_id, "task.yaml"@)) == Some(task_dir_of(root, task_id)),
        parent_of(task_entry(root, task_id, "instructions.md"@)) == Some(task_dir_of(root, task_id)),
        parent_of(task_entry(root, task_id, "declaration.md"@)) == Some(task_dir_of(root, task_id)),
        parent_of(task_entry(root, task_id, "notes.md"@)) == Some(task_dir_of(root, task_id)),
        parent_of(task_entry(root, task_id, "events.jsonl"@)) == Some(task_dir_of(root, task_id)),
        task_id != other ==> task_dir_of(root, task_id) != task_dir_of(root, other),
{
    lemma_entries_in_minerva_dir(root);
    reveal_entry_names();
    lemma_minerva_dir_shape(root);
    let md = minerva_dir_of(root);
    let td = minerva_entry(root, "tasks"@);
    assert(is_component("tasks"@));
    assert(td =~= md + seq!['/'] + "tasks"@);
    assert(td.last() == 's');
    lemma_parent_of_join(td, task_id);
    lemma_parent_of_join(td, other);
    let d = task_dir_of(root, task_id);
    assert(d =~= td + seq!['/'] + task_id);
    assert(d.last() == task_id.last());
    assert(crate::path::ends_plain(d)) by {
        if task_id.len() >= 2 {
            assert(d[d.len() - 2] == task_id[task_id.len() - 2]);
        } else {
            assert(task_id =~= seq![task_id[0]]);
        }
    }
    reveal_strlit("task.yaml");
    reveal_strlit("instructions.md");
    reveal_strlit("declaration.md");
    reveal_strlit("notes.md");
    reveal_strlit("events.jsonl");
    assert(is_component("task.yaml"@));
    assert(is_component("instructions.md"@));
    assert(is_component("declaration.md"@));
    assert(is_component("notes.md"@));
    assert(is_component("events.jsonl"@));
    lemma_parent_of_join(d, "task.yaml"@);
    lemma_parent_of_join(d, "instructions.md"@);
    lemma_parent_of_join(d, "declaration.md"@);
    lemma_parent_of_join(d, "notes.md"@);
    lemma_parent_of_join(d, "events.jsonl"@);
    if task_id != other {
        lemma_parent_of_join(td, other);
    }
}

proof fn lemma_task_catalog_path(root: Seq<char>, task_id: Seq<char>, rel: Seq<char>, file: Seq<char>)
    requires
        is_component(task_id),
        is_component(file),
        forall|i: int| 0 <= i < file.len() ==> #[trigger] file[i] != '<',
        rel == "tasks/"@ + "<task-id>"@ + "/"@ + file,
    ensures
        join_path(minerva_dir_of(root), crate::text::replace_all(rel, "<task-id>"@, task_id)) == task_entry(
            root,
            task_id,
            file,
        ),
{
    reveal_strlit("tasks/");
    reveal_strlit("<task-id>");
    reveal_strlit("/");
    reveal_strlit("tasks");
    let pat = "<task-id>"@;
    let rest = "/"@ + file;
    assert forall|i: int| 0 <= i < "tasks/"@.len() implies #[trigger] "tasks/"@[i] != pat[0] by {}
    assert forall|i: int| 0 <= i < rest.len() implies #[trigger] rest[i] != pat[0] by {
        if i > 0 {
            assert(rest[i] == file[i - 1]);
        }
    }
    assert(rel =~= "tasks/"@ + (pat + rest));
    crate::text::lemma_replace_after_plain("tasks/"@, pat + rest, pat, task_id);
    crate::text::lemma_replace_leading(rest, pat, task_id);
    crate::text::lemma_replace_untouched(rest, pat, task_id);
    lemma_minerva_dir_shape(root);
    let md = minerva_dir_of(root);
    assert(task_id[0] != '/');
    assert(task_id[task_id.len() - 1] != '/');
    assert(file[0] != '/');
    let replaced = "tasks/"@ + (task_id + rest);
    assert(join_path(md, replaced) =~= md + seq!['/'] + "tasks"@ + seq!['/'] + task_id + seq!['/'] + file);
    assert(minerva_entry(root, "tasks"@) =~= md + seq!['/'] + "tasks"@);
    assert(task_dir_of(root, task_id) =~= md + seq!['/'] + "tasks"@ + seq!['/'] + task_id);
    assert(task_entry(root, task_id, file) =~= md + seq!['/'] + "tasks"@ + seq!['/'] + task_id + seq!['/']
        + file);
}

/// The names of a task's files, in the order of the task catalog.
pub open spec fn task_file_names() -> Seq<Seq<char>> {
    seq!["task.yaml"@, "instructions.md"@, "declaration.md"@, "notes.md"@, "events.jsonl"@]
}

/// Putting a task identifier in place of `<task-id>` in an entry of the
/// task catalog, under `.minerva`, gives the path of that file of the
/// task, as the layout's getters compute it.
pub proof fn lemma_task_catalog_matches_layout(root: Seq<char>, task_id: Seq<char>)
    requires
        is_component(task_id),
    ensures
        task_catalog().len() == 5,
        forall|i: int| 0 <= i < 5 ==> (#[trigger] task_catalog()[i]).class == LayoutClass::Canonical,
        forall|i: int| 0 <= i < 5 ==> join_path(
            minerva_dir_of(root),
            crate::text::replace_all((#[trigger] task_catalog()[i]).relative_path@, "<task-id>"@, task_id),
        ) == task_entry(root, task_id, task_file_names()[i]),
{
    reveal_strlit("tasks/");
    reveal_strlit("<task-id>");
    reveal_strlit("/");
    let names = task_file_names();
    let c = task_catalog();
    assert forall|i: int| 0 <= i < 5 implies join_path(
        minerva_dir_of(root),
        crate::text::replace_all((#[trigger] c[i]).relative_path@, "<task-id>"@, task_id),
    ) == task_entry(root, task_id, names[i]) by {
        reveal_strlit("task.yaml");
        reveal_strlit("instructions.md");
        reveal_strlit("declaration.md");
        reveal_strlit("notes.md");
        reveal_strlit("events.jsonl");
        reveal_strlit("tasks/<task-id>/task.yaml");
        reveal_strlit("tasks/<task-id>/instructions.md");
        reveal_strlit("tasks/<task-id>/declaration.md");
        reveal_strlit("tasks/<task-id>/notes.md");
        reveal_strlit("tasks/<task-id>/events.jsonl");
        let f = names[i];
        assert(is_component(f));
        assert(forall|k: int| 0 <= k < f.len() ==> #[trigger] f[k] != '<');
        assert(c[i].relative_path@ =~= "tasks/"@ + "<task-id>"@ + "/"@ + f);
        lemma_task_catalog_path(root, task_id, c[i].relative_path@, f);
    }
}


/// Which entries of the project catalog are directories, and their names.
pub proof fn lemma_catalog_dirs(root: Seq<char>)
    ensures
        project_catalog().len() == 10,
        forall|i: int| 0 <= i < 4 ==> (#[trigger] project_catalog()[i].relative_path@).last() != '/',
        forall|i: int| 0 <= i < 10 ==> (#[trigger] project_catalog()[i].relative_path@).len() > 0,
        forall|i: int| 4 <= i < 10 ==> (#[trigger] project_catalog()[i].relative_path@).last() == '/',
        project_catalog()[4].relative_path@.drop_last() == "task-types"@,
        project_catalog()[5].relative_path@.drop_last() == "tasks"@,
        project_catalog()[6].relative_path@.drop_last() == "indexes"@,
        project_catalog()[7].relative_path@.drop_last() == "contexts"@,
        project_catalog()[8].relative_path@.drop_last() == "sessions"@,
        project_catalog()[9].relative_path@.drop_last() == "locks"@,
{
    reveal_strlit("project.yaml");
    reveal_strlit("config.yaml");
    reveal_strlit("instructions.md");
    reveal_strlit("schema-version");
    reveal_strlit("task-types/");
    reveal_strlit("tasks/");
    reveal_strlit("indexes/");
    reveal_strlit("contexts/");
    reveal_strlit("sessions/");
    reveal_strlit("locks/");
    reveal_strlit("task-types");
    reveal_strlit("tasks");
    reveal_strlit("indexes");
    reveal_strlit("contexts");
    reveal_strlit("sessions");
    reveal_strlit("locks");
    let c = project_catalog();
    assert(c[4].relative_path@.drop_last() =~= "task-types"@);
    assert(c[5].relative_path@.drop_last() =~= "tasks"@);
    assert(c[6].relative_path@.drop_last() =~= "indexes"@);
    assert(c[7].relative_path@.drop_last() =~= "contexts"@);
    assert(c[8].relative_path@.drop_last() =~= "sessions"@);
    assert(c[9].relative_path@.drop_last() =~= "locks"@);
}

}
