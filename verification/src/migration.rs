//! Migration of a project's files from the unversioned layout (schema 0)
//! to schema version 1.
//!
//! Reading and rewriting the YAML documents is the caller's; the decisions
//! and the report of the migration are made here.

use vstd::prelude::*;
use crate::error::MinervaError;
use crate::layout::MinervaLayout;
use crate::path::{file_name, file_name_of, relative, relative_to};
use crate::repair::{with_file_name, with_file_name_of};
use crate::text::{append_str, concat, decimal, decimal_string, owned, trim, trimmed};
use crate::yaml::{
    emit_yaml, has_key, mapping_entries, mapping_extend, mapping_insert_number, mapping_new, parse_yaml,
    text_result, YamlNode, yaml_entries, yaml_mapping_text, yaml_read, yaml_sequence_text, EntryView, YamlItem, YamlOut,
    YamlShape, YamlValue,
};

verus! {

/// Whether a migrated file is created or rewritten.
#[derive(Debug, Clone, Copy, PartialEq, Eq, Structural)]
pub enum ProjectMigrationAction {
    Create,
    Update,
}

/// A file that the migration writes.
#[derive(Debug)]
pub struct FilePlan {
    pub action: ProjectMigrationAction,
    pub path: String,
    pub contents: String,
    pub message: String,
}

/// One file written by a migration step, as reported.
#[derive(Debug)]
pub struct ProjectMigrationOperation {
    pub action: ProjectMigrationAction,
    /// The path relative to the project root.
    pub path: String,
    /// Where the previous contents were saved, relative to the root.
    pub backup_path: Option<String>,
    pub message: String,
}

/// One step of a migration.
#[derive(Debug)]
pub struct ProjectMigrationStep {
    pub name: String,
    pub from_version: u32,
    pub to_version: u32,
    pub operations: Vec<ProjectMigrationOperation>,
}

/// The outcome of a migration.
#[derive(Debug)]
pub struct ProjectMigrationResult {
    pub start_version: u32,
    pub target_version: u32,
    pub steps: Vec<ProjectMigrationStep>,
}

/// The reason given for a schema marker that is neither current nor
/// awaiting migration.
pub open spec fn unsupported_marker_reason(contents: Seq<char>) -> Seq<char> {
    "unsupported schema marker `"@ + trim(contents) + "`"@
}

/// The schema version a project starts from. `marker` is what the schema
/// marker at `marker_path` reads, `None` when it does not exist;
/// `legacy_pending` tells whether unversioned files await migration. A
/// marker other than `1\n` is refused unless files await migration; the
/// project is at version 0 when they do, and at version 1 otherwise.
pub fn start_version(marker: &Option<String>, marker_path: &str, legacy_pending: bool) -> (r: Result<u32, MinervaError>)
    ensures
        (marker matches Some(m) && m@ != "1\n"@ && !legacy_pending) ==> (r matches Err(
            MinervaError::SchemaError { path, reason },
        ) && path@ == marker_path@ && reason@ == unsupported_marker_reason(marker->0@)),
        !(marker matches Some(m) && m@ != "1\n"@ && !legacy_pending) ==> r == Ok::<u32, MinervaError>(
            if legacy_pending { 0u32 } else { 1u32 },
        ),
{
    if let Some(m) = marker {
        let current = owned("1\n");
        if *m != current && !legacy_pending {
            let mut reason = concat("unsupported schema marker `", trimmed(m.as_str()).as_str());
            append_str(&mut reason, "`");
            return Err(MinervaError::SchemaError { path: owned(marker_path), reason });
        }
    }
    Ok(if legacy_pending { 0 } else { 1 })
}

/// The plan for the schema marker at `path`, given what it reads now
/// (`None` when it cannot be read): it is written unless it reads `1\n`.
pub fn schema_marker(path: &str, current: &Option<String>) -> (p: Option<FilePlan>)
    ensures
        (current matches Some(c) && c@ == "1\n"@) ==> p is None,
        !(current matches Some(c) && c@ == "1\n"@) ==> (p matches Some(f) && f.action
            == ProjectMigrationAction::Create && f.path@ == path@ && f.contents@ == "1\n"@ && f.message@
            == "created schema marker"@),
{
    let marker = owned("1\n");
    let up_to_date = match current {
        Some(c) => *c == marker,
        None => false,
    };
    if up_to_date {
        None
    } else {
        Some(FilePlan {
            action: ProjectMigrationAction::Create,
            path: owned(path),
            contents: marker,
            message: owned("created schema marker"),
        })
    }
}

/// The plan for a document whose migrated text is `contents`: it is
/// rewritten only when that differs from what it holds now.
pub fn changed(path: &str, contents: String, current: &str, message: &str) -> (p: Option<FilePlan>)
    ensures
        current@ == contents@ ==> p is None,
        current@ != contents@ ==> (p matches Some(f) && f.action == ProjectMigrationAction::Update
            && f.path@ == path@ && f.contents@ == contents@ && f.message@ == message@),
{
    let now = owned(current);
    if now == contents {
        None
    } else {
        Some(FilePlan {
            action: ProjectMigrationAction::Update,
            path: owned(path),
            contents,
            message: owned(message),
        })
    }
}

/// What a YAML document holds under the key `schema_version`.
#[derive(Debug, Clone, Copy, PartialEq, Eq, Structural)]
pub enum SchemaVersionEntry {
    /// No such key.
    Absent,
    /// The number 1.
    One,
    /// Anything else.
    Other,
}

/// How a document is migrated: `Ok(true)` when `schema_version: 1` is to
/// be put first, `Ok(false)` when it stays as it is; a document that is
/// not a mapping, or whose schema version is not 1, is refused.
pub fn migrate_mapping(path: &str, is_mapping: bool, entry: SchemaVersionEntry) -> (r: Result<bool, MinervaError>)
    ensures
        !is_mapping ==> (r matches Err(MinervaError::SchemaError { path: p, reason }) && p@ == path@
            && reason@ == "expected mapping document"@),
        is_mapping && entry == SchemaVersionEntry::Other ==> (r matches Err(
            MinervaError::SchemaError { path: p, reason },
        ) && p@ == path@ && reason@ == "schema_version must be 1 when present"@),
        is_mapping && entry == SchemaVersionEntry::One ==> r == Ok::<bool, MinervaError>(false),
        is_mapping && entry == SchemaVersionEntry::Absent ==> r == Ok::<bool, MinervaError>(true),
{
    if !is_mapping {
        return Err(MinervaError::SchemaError { path: owned(path), reason: owned("expected mapping document") });
    }
    match entry {
        SchemaVersionEntry::One => Ok(false),
        SchemaVersionEntry::Absent => Ok(true),
        SchemaVersionEntry::Other => Err(MinervaError::SchemaError {
            path: owned(path),
            reason: owned("schema_version must be 1 when present"),
        }),
    }
}

/// The name of the backup the migration takes of a file at `stamp`
/// seconds after the epoch: `schema-migration-backup-<stamp>-` and the
/// file's name (`file` when it has none).
pub open spec fn migration_backup_name(path: Seq<char>, stamp: u64) -> Seq<char> {
    let name = match file_name_of(path) {
        Some(n) => n,
        None => "file"@,
    };
    "schema-migration-backup-"@ + decimal(stamp as nat) + "-"@ + name
}

/// Where the migration saves a file before rewriting it.
pub fn migration_backup_path(path: &str, stamp: u64) -> (r: String)
    ensures
        r@ == with_file_name_of(path@, migration_backup_name(path@, stamp)),
{
    let name = match file_name(path) {
        Some(n) => n,
        None => owned("file"),
    };
    let mut n = concat("schema-migration-backup-", decimal_string(stamp).as_str());
    append_str(&mut n, "-");
    append_str(&mut n, name.as_str());
    with_file_name(path, n.as_str())
}

/// The name of the migration from schema 0 to schema 1.
pub const STEP_NAME: &'static str = "v0_to_v1";

/// What a reported migration operation says.
pub open spec fn operation_matches(
    op: ProjectMigrationOperation,
    plan: FilePlan,
    backup: Option<String>,
    root: Seq<char>,
) -> bool {
    &&& op.action == plan.action
    &&& op.path@ == relative_to(plan.path@, root)
    &&& op.backup_path matches Some(b) ==> (backup matches Some(x) && b@ == relative_to(x@, root))
    &&& op.backup_path is None ==> backup is None
    &&& op.message@ == plan.message@
}

/// The step from schema 0 to schema 1 that writes `plans`, where
/// `backups[i]` is the backup taken of the file of `plans[i]` (`None` when
/// it did not exist); no step when there is nothing to write.
pub fn migration_step(
    layout: &MinervaLayout,
    plans: &Vec<FilePlan>,
    backups: &Vec<Option<String>>,
) -> (s: Option<ProjectMigrationStep>)
    requires
        plans.len() == backups.len(),
    ensures
        plans@.len() == 0 ==> s is None,
        plans@.len() > 0 ==> (s matches Some(step) && step.name@ == STEP_NAME@ && step.from_version == 0
            && step.to_version == 1 && step.operations@.len() == plans@.len() && forall|i: int|
            0 <= i < plans@.len() ==> operation_matches(
                #[trigger] step.operations@[i],
                plans@[i],
                backups@[i],
                layout.root_path(),
            )),
{
    if plans.len() == 0 {
        return None;
    }
    let mut operations: Vec<ProjectMigrationOperation> = Vec::new();
    let mut i: usize = 0;
    while i < plans.len()
        invariant
            i <= plans.len() == backups.len(),
            operations@.len() == i,
            forall|k: int| 0 <= k < i ==> operation_matches(
                #[trigger] operations@[k],
                plans@[k],
                backups@[k],
                layout.root_path(),
            ),
        decreases plans.len() - i,
    {
        let plan = &plans[i];
        let backup_path = match &backups[i] {
            Some(b) => Some(relative(b.as_str(), layout.root())),
            None => None,
        };
        operations.push(ProjectMigrationOperation {
            action: plan.action,
            path: relative(plan.path.as_str(), layout.root()),
            backup_path,
            message: owned(plan.message.as_str()),
        });
        i = i + 1;
    }
    Some(ProjectMigrationStep { name: owned(STEP_NAME), from_version: 0, to_version: 1, operations })
}

/// The outcome of migrating a project that starts at `start_version`: the
/// schema-0 step is taken only from version 0, and only when there is one.
pub fn migration_result(start_version: u32, step: Option<ProjectMigrationStep>) -> (r: ProjectMigrationResult)
    ensures
        r.start_version == start_version,
        r.target_version == 1,
        (start_version == 0 && step is Some) ==> r.steps@ == seq![step->0],
        !(start_version == 0 && step is Some) ==> r.steps@.len() == 0,
{
    let mut steps: Vec<ProjectMigrationStep> = Vec::new();
    if start_version == 0 {
        if let Some(s) = step {
            steps.push(s);
            assert(steps@ =~= seq![step->0]);
        }
    }
    ProjectMigrationResult { start_version, target_version: 1, steps }
}


// ---------------------------------------------------------------------
// Planning the rewrite of a document
// ---------------------------------------------------------------------

/// What a mapping holds under the key `schema_version`, judged by its
/// first entry with that key (a mapping has at most one).
pub open spec fn schema_entry(entries: Seq<EntryView>) -> SchemaVersionEntry
    decreases entries.len(),
{
    if entries.len() == 0 {
        SchemaVersionEntry::Absent
    } else if entries[0].0 == YamlNode::String("schema_version"@) {
        if entries[0].1 == YamlNode::PosInt(1) {
            SchemaVersionEntry::One
        } else {
            SchemaVersionEntry::Other
        }
    } else {
        schema_entry(entries.drop_first())
    }
}

proof fn lemma_schema_entry_absent(entries: Seq<EntryView>)
    requires
        schema_entry(entries) == SchemaVersionEntry::Absent,
    ensures
        !has_key(entries, "schema_version"@),
    decreases entries.len(),
{
    if entries.len() > 0 {
        lemma_schema_entry_absent(entries.drop_first());
        assert forall|i: int| 0 <= i < entries.len() implies #[trigger] entries[i].0 != YamlNode::String("schema_version"@) by {
            if i > 0 {
                assert(entries[i] == entries.drop_first()[i - 1]);
            }
        }
    }
}

/// What the mapping `m` holds under `schema_version`.
pub fn schema_version_entry(m: &serde_yaml::Mapping) -> (e: SchemaVersionEntry)
    ensures
        e == schema_entry(yaml_entries(*m)),
{
    let entries = mapping_entries(m);
    let ghost es = yaml_entries(*m);
    let key = owned("schema_version");
    let mut i: usize = 0;
    assert(es.skip(0) =~= es);
    assert(crate::yaml::entries_read(es).len() == es.len());
    assert(crate::yaml::entry_views(entries@).len() == entries@.len());
    while i < entries.len()
        invariant
            i <= entries.len() == es.len(),
            es == yaml_entries(*m),
            crate::yaml::entry_views(entries@) == crate::yaml::entries_read(es),
            key@ == "schema_version"@,
            schema_entry(es) == schema_entry(es.skip(i as int)),
        decreases entries.len() - i,
    {
        let ghost rest = es.skip(i as int);
        assert(rest[0] == es[i as int]);
        assert(crate::yaml::entries_read(es)[i as int] == crate::yaml::entry_views(entries@)[i as int]);
        let (k, n) = &entries[i];
        let is_key = match k {
            Some(t) => *t == key,
            None => false,
        };
        if is_key {
            assert(rest[0].0 == YamlNode::String("schema_version"@));
            assert(crate::yaml::number_u64(rest[0].1) == *n);
            let one = match n {
                Some(v) => *v == 1,
                None => false,
            };
            assert(rest.len() > 0);
            assert(one == (rest[0].1 == YamlNode::PosInt(1)));
            return if one { SchemaVersionEntry::One } else { SchemaVersionEntry::Other };
        }
        assert(rest.drop_first() =~= es.skip(i + 1));
        i = i + 1;
    }
    SchemaVersionEntry::Absent
}

/// The entries of the mapping after migration: `schema_version: 1` put
/// first when it was absent, the mapping as it is when it held 1.
pub open spec fn migrated_entries(entries: Seq<EntryView>) -> Seq<EntryView> {
    if schema_entry(entries) == SchemaVersionEntry::Absent {
        seq![(YamlNode::String("schema_version"@), YamlNode::PosInt(1))] + entries
    } else {
        entries
    }
}

/// Migrates one mapping of the document at `path`: a `schema_version`
/// other than 1 is refused; an absent one is put first as 1.
pub fn migrated_mapping(path: &str, m: serde_yaml::Mapping) -> (r: Result<serde_yaml::Mapping, MinervaError>)
    ensures
        schema_entry(yaml_entries(m)) == SchemaVersionEntry::Other ==> (r matches Err(
            MinervaError::SchemaError { path: p, reason },
        ) && p@ == path@ && reason@ == "schema_version must be 1 when present"@),
        schema_entry(yaml_entries(m)) != SchemaVersionEntry::Other ==> (r matches Ok(n) && yaml_entries(n)
            == migrated_entries(yaml_entries(m))),
{
    let entry = schema_version_entry(&m);
    match migrate_mapping(path, true, entry) {
        Err(e) => Err(e),
        Ok(false) => Ok(m),
        Ok(true) => {
            proof {
                lemma_schema_entry_absent(yaml_entries(m));
            }
            let mut n = mapping_new();
            mapping_insert_number(&mut n, owned("schema_version"), 1);
            let ghost first = yaml_entries(n);
            assert(first =~= seq![(YamlNode::String("schema_version"@), YamlNode::PosInt(1))]);
            mapping_extend(&mut n, m);
            Ok(n)
        },
    }
}

/// The plan for the document at `path`, now holding `current`, given
/// what emitting its migrated form gave: an emitter error is a schema
/// error of the document, a text equal to `current` needs no write, and
/// any other text is written over the document.
pub open spec fn plan_from_emitted(
    r: Result<Option<FilePlan>, MinervaError>,
    path: Seq<char>,
    emitted: Result<Seq<char>, Seq<char>>,
    current: Seq<char>,
    message: Seq<char>,
) -> bool {
    match emitted {
        Err(e) => r matches Err(MinervaError::SchemaError { path: p, reason }) && p@ == path && reason@ == e,
        Ok(s) => if s == current {
            r matches Ok(None)
        } else {
            r matches Ok(Some(f)) && f.action == ProjectMigrationAction::Update && f.path@ == path && f.contents@
                == s && f.message@ == message
        },
    }
}

/// The plan for the document at `path`, now holding `current`, from what
/// emitting its migrated form gave.
pub fn emitted_plan(path: &str, emitted: Result<String, String>, current: &str, message: &str) -> (r: Result<
    Option<FilePlan>,
    MinervaError,
>)
    ensures
        plan_from_emitted(r, path@, text_result(emitted), current@, message@),
{
    match emitted {
        Err(e) => Err(MinervaError::SchemaError { path: owned(path), reason: e }),
        Ok(s) => Ok(changed(path, s, current, message)),
    }
}

/// The plan for a YAML document at `path` that holds `current`: it must
/// be a mapping whose `schema_version`, if any, is 1; it is rewritten,
/// with `schema_version: 1` first when that was absent, when the emitted
/// text differs from `current`.
pub fn document_plan(path: &str, current: &str, message: &str) -> (r: Result<Option<FilePlan>, MinervaError>)
    ensures
        yaml_read(current@) matches Err(e) ==> (r matches Err(MinervaError::SchemaError { path: p, reason })
            && p@ == path@ && reason@ == e),
        (yaml_read(current@) matches Ok(s) && !(s is Mapping)) ==> (r matches Err(
            MinervaError::SchemaError { path: p, reason },
        ) && p@ == path@ && reason@ == "expected mapping document"@),
        (yaml_read(current@) matches Ok(YamlShape::Mapping(es)) && schema_entry(es) == SchemaVersionEntry::Other)
            ==> (r matches Err(MinervaError::SchemaError { path: p, reason }) && p@ == path@ && reason@
            == "schema_version must be 1 when present"@),
        yaml_read(current@) matches Ok(YamlShape::Mapping(es)) ==> (schema_entry(es) != SchemaVersionEntry::Other
            ==> plan_from_emitted(r, path@, yaml_mapping_text(migrated_entries(es)), current@, message@)),
{
    match parse_yaml(current) {
        Err(e) => Err(MinervaError::SchemaError { path: owned(path), reason: e }),
        Ok(YamlValue::Mapping(m)) => match migrated_mapping(path, m) {
            Err(e) => Err(e),
            Ok(n) => emitted_plan(path, emit_yaml(YamlOut::Mapping(n)), current, message),
        },
        Ok(_) => Err(MinervaError::SchemaError { path: owned(path), reason: owned("expected mapping document") }),
    }
}

/// The reason the first item of `items` that cannot be migrated gives:
/// one that is no mapping, or whose `schema_version` is not 1.
pub open spec fn first_item_error(items: Seq<Option<Seq<EntryView>>>) -> Option<Seq<char>>
    decreases items.len(),
{
    if items.len() == 0 {
        None
    } else {
        match items[0] {
            None => Some("expected mapping document"@),
            Some(es) => if schema_entry(es) == SchemaVersionEntry::Other {
                Some("schema_version must be 1 when present"@)
            } else {
                first_item_error(items.drop_first())
            },
        }
    }
}

/// The items of a relationship list of mappings, in order, each with its
/// entries migrated.
pub open spec fn migrated_items(items: Seq<Option<Seq<EntryView>>>) -> Seq<Seq<EntryView>> {
    items.map_values(|it: Option<Seq<EntryView>>| migrated_entries(it->Some_0))
}

/// The message of a rewritten relationship file.
pub const RELATIONSHIPS_MESSAGE: &'static str = "added schema version to relationships";

/// The plan for a relationship file at `path` that holds `current`: it
/// must be a list of mappings, each migrated as a document is; it is
/// rewritten when the emitted text differs from `current`.
pub fn relationship_plan(path: &str, current: &str) -> (r: Result<Option<FilePlan>, MinervaError>)
    ensures
        yaml_read(current@) matches Err(e) ==> (r matches Err(MinervaError::SchemaError { path: p, reason })
            && p@ == path@ && reason@ == e),
        (yaml_read(current@) matches Ok(s) && !(s is Sequence)) ==> (r matches Err(
            MinervaError::SchemaError { path: p, reason },
        ) && p@ == path@ && reason@ == "expected relationship list"@),
        yaml_read(current@) matches Ok(YamlShape::Sequence(items)) ==> (first_item_error(items) is Some ==> (r
            matches Err(MinervaError::SchemaError { path: p, reason }) && p@ == path@ && Some(reason@)
            == first_item_error(items))),
        yaml_read(current@) matches Ok(YamlShape::Sequence(items)) ==> (first_item_error(items) is None
            ==> plan_from_emitted(
            r,
            path@,
            yaml_sequence_text(migrated_items(items)),
            current@,
            RELATIONSHIPS_MESSAGE@,
        )),
{
    let items = match parse_yaml(current) {
        Err(e) => return Err(MinervaError::SchemaError { path: owned(path), reason: e }),
        Ok(YamlValue::Sequence(items)) => items,
        Ok(_) => return Err(MinervaError::SchemaError { path: owned(path), reason: owned("expected relationship list") }),
    };
    let ghost all = items@.map_values(|i: YamlItem| crate::yaml::item_view(i));
    assert(yaml_read(current@) == Ok::<YamlShape, Seq<char>>(YamlShape::Sequence(all)));
    let n_items = items.len();
    let mut rest = items;
    let mut out: Vec<serde_yaml::Mapping> = Vec::new();
    let mut k: usize = 0;
    assert(all.skip(0) =~= all);
    while rest.len() > 0
        invariant
            k + rest@.len() == all.len(),
            all.len() == n_items,
            yaml_read(current@) == Ok::<YamlShape, Seq<char>>(YamlShape::Sequence(all)),
            rest@.map_values(|i: YamlItem| crate::yaml::item_view(i)) == all.skip(k as int),
            first_item_error(all) == first_item_error(all.skip(k as int)),
            out@.len() == k,
            forall|j: int| 0 <= j < k ==> (#[trigger] all[j]) is Some && yaml_entries(out@[j]) == migrated_entries(
                all[j]->Some_0),
        decreases rest@.len(),
    {
        let ghost tail = all.skip(k as int);
        let item = rest.remove(0);
        assert(tail[0] == crate::yaml::item_view(item));
        assert(tail[0] == all[k as int]);
        assert(tail.drop_first() =~= all.skip(k + 1));
        assert(rest@.map_values(|i: YamlItem| crate::yaml::item_view(i)) =~= all.skip(k + 1));
        match item {
            YamlItem::Other => {
                return Err(MinervaError::SchemaError { path: owned(path), reason: owned("expected mapping document") });
            },
            YamlItem::Mapping(m) => match migrated_mapping(path, m) {
                Err(e) => return Err(e),
                Ok(n) => out.push(n),
            },
        }
        k = k + 1;
    }
    assert(out@.map_values(|m: serde_yaml::Mapping| yaml_entries(m)) =~= migrated_items(all));
    emitted_plan(path, emit_yaml(YamlOut::Sequence(out)), current, RELATIONSHIPS_MESSAGE)
}


/// Migrating entries is idempotent: once migrated, a mapping holds
/// `schema_version: 1`, and migrating it again changes nothing.
pub proof fn lemma_migration_idempotent(es: Seq<EntryView>)
    requires
        schema_entry(es) != SchemaVersionEntry::Other,
    ensures
        schema_entry(migrated_entries(es)) == SchemaVersionEntry::One,
        migrated_entries(migrated_entries(es)) == migrated_entries(es),
{
    reveal_strlit("schema_version");
    if schema_entry(es) == SchemaVersionEntry::Absent {
        let m = migrated_entries(es);
        assert(m[0] == (YamlNode::String("schema_version"@), YamlNode::PosInt(1)));
    }
}

/// A document whose text is already what emitting its migrated form
/// gives is not rewritten: the plan is to write nothing.
pub proof fn lemma_stable_text_plans_nothing(
    r: Result<Option<FilePlan>, MinervaError>,
    path: Seq<char>,
    current: Seq<char>,
    message: Seq<char>,
)
    requires
        plan_from_emitted(r, path, Ok(current), current, message),
    ensures
        r matches Ok(None),
{
}

}
