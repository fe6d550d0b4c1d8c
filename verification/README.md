# minerva_storage

The storage layer of Minerva, a task and context manager that keeps its
state in a `.minerva` directory beside a repository. The decisions of the
layer are written in Verus and proved against their contracts; the file
system work around them is ordinary Rust.

## Layout

- `src/` — the verified library.
  - `layout`, `path`: where every file of a project lives, over a model of
    Unix paths.
  - `atomic_write`, `file_lock`: replacing a file through a temporary file,
    as a state machine whose requested steps the caller performs; the
    contents of lock files.
  - `validation`, `findings`, `event_log`, `task_index`: project validation
    as findings, sorted stably; event logs read line by line; freshness of
    the derived task index.
  - `catalog`, `repository`, `project_init`: searching and resolving tasks,
    locating a project, initialization decisions.
  - `repair`, `migration`, `yaml`: safe repairs and the migration from the
    unversioned layout, including the rewrite of YAML documents through
    serde_yaml.
  - `schema`, `error`, `documents`, `text`: schema checks, RFC 3339 times
    through humantime, errors and document shapes.
- `app/` — the file-system side: reading and writing files, taking locks,
  walking directories, and the serde forms of the document types.
- `tests/` — tests of the library, run against the real outside crates.

## What the library leaves to others

Tasks, projects and relationships are values of the `minerva_domain`
crate, and the services over them belong to `minerva_application`; this
crate does not depend on either. Converting those values to and from the
stored YAML documents, which needs their types, is therefore not part of
this library. The functions here take what such a conversion reads as
plain values: a task's identifier, title, type and status as text, the
results of the hierarchy and relationship checks, and so on.
