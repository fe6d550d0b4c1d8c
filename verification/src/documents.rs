//! The plain shapes of stored documents whose fields the library reads.

use vstd::prelude::*;
use crate::error::MinervaError;
use crate::schema::{
    format_document_time, parse_document_time, require_schema, rfc3339_parsed, rfc3339_text,
    unsupported_schema_reason, Timestamp,
};
use crate::text::owned;

verus! {

/// A status as stored in `project.yaml`.
#[derive(Debug, Clone, PartialEq, Eq)]
pub struct StatusDocument {
    pub key: String,
    pub terminal: bool,
}

/// A permitted status change as stored in `project.yaml`.
#[derive(Debug, Clone, PartialEq, Eq)]
pub struct TransitionDocument {
    pub from: String,
    pub to: String,
}

/// The files a task reads and writes, as stored in `task.yaml`.
#[derive(Debug, Clone, PartialEq, Eq)]
pub struct TaskResourcesDocument {
    pub reads: Vec<String>,
    pub writes: Vec<String>,
}

impl Default for TaskResourcesDocument {
    fn default() -> (d: Self)
        ensures
            d.reads@.len() == 0,
            d.writes@.len() == 0,
    {
        TaskResourcesDocument { reads: Vec::new(), writes: Vec::new() }
    }
}

/// The facts recorded about a task, as stored in `task.yaml`.
#[derive(Debug, Clone, PartialEq, Eq)]
pub struct TaskFactsDocument {
    pub modules: Vec<String>,
    pub files: Vec<String>,
    pub migrations_required: bool,
    pub feature_flags: Vec<String>,
    pub acceptance_checks: Vec<String>,
    pub resources: TaskResourcesDocument,
}

impl Default for TaskFactsDocument {
    fn default() -> (d: Self)
        ensures
            d.modules@.len() == 0,
            d.files@.len() == 0,
            !d.migrations_required,
            d.feature_flags@.len() == 0,
            d.acceptance_checks@.len() == 0,
            d.resources.reads@.len() == 0,
            d.resources.writes@.len() == 0,
    {
        TaskFactsDocument {
            modules: Vec::new(),
            files: Vec::new(),
            migrations_required: false,
            feature_flags: Vec::new(),
            acceptance_checks: Vec::new(),
            resources: TaskResourcesDocument::default(),
        }
    }
}

/// Who updated a task's declaration.
#[derive(Debug, Clone, PartialEq, Eq)]
pub enum DeclarationActor {
    Human,
    System,
    Agent(String),
}

/// Who caused an event of a task's log.
#[derive(Debug, Clone, PartialEq, Eq)]
pub enum TaskEventActor {
    Human,
    System,
    Agent { name: String },
}

/// The event actor for a declaration actor: the same kind, an agent
/// keeping its name.
pub open spec fn event_actor_of(value: DeclarationActor) -> TaskEventActor {
    match value {
        DeclarationActor::Human => TaskEventActor::Human,
        DeclarationActor::System => TaskEventActor::System,
        DeclarationActor::Agent(name) => TaskEventActor::Agent { name },
    }
}

impl From<DeclarationActor> for TaskEventActor {
    fn from(value: DeclarationActor) -> (r: Self)
        ensures
            r == event_actor_of(value),
    {
        match value {
            DeclarationActor::Human => TaskEventActor::Human,
            DeclarationActor::System => TaskEventActor::System,
            DeclarationActor::Agent(name) => TaskEventActor::Agent { name },
        }
    }
}

impl vstd::std_specs::convert::FromSpecImpl<DeclarationActor> for TaskEventActor {
    open spec fn obeys_from_spec() -> bool {
        true
    }

    open spec fn from_spec(value: DeclarationActor) -> Self {
        event_actor_of(value)
    }
}


/// The first of `texts` that is no RFC 3339 time, with humantime's
/// reason, if any.
pub open spec fn first_bad_time(texts: Seq<Seq<char>>) -> Option<Seq<char>>
    decreases texts.len(),
{
    if texts.len() == 0 {
        None
    } else {
        match rfc3339_parsed(texts[0]) {
            Err(m) => Some(m),
            Ok(_) => first_bad_time(texts.drop_first()),
        }
    }
}

/// The time an RFC 3339 text denotes.
pub open spec fn time_of(text: Seq<char>) -> Timestamp {
    Timestamp { secs: rfc3339_parsed(text)->Ok_0.0, nanos: rfc3339_parsed(text)->Ok_0.1 }
}

/// Reads the times of a stored document (a task's creation, update and
/// completion times, a project's creation time), after its schema check:
/// an unsupported schema version comes first, then the first malformed
/// time, each an invalid `schema_version` configuration.
pub fn read_document_times(schema_version: u32, texts: &Vec<String>) -> (r: Result<Vec<Timestamp>, MinervaError>)
    ensures
        schema_version != 1 ==> (r matches Err(MinervaError::InvalidConfiguration { key, reason }) && key@
            == "schema_version"@ && reason@ == unsupported_schema_reason(schema_version)),
        schema_version == 1 ==> (first_bad_time(texts@.map_values(|t: String| t@)) matches Some(m) ==> (r matches Err(
            MinervaError::InvalidConfiguration { key, reason },
        ) && key@ == "schema_version"@ && reason@ == m)),
        schema_version == 1 ==> (first_bad_time(texts@.map_values(|t: String| t@)) is None ==> (r matches Ok(ts)
            && ts@.len() == texts@.len() && forall|i: int| 0 <= i < ts@.len() ==> #[trigger] ts@[i] == time_of(
            texts@[i]@,
        ))),
{
    require_schema(schema_version)?;
    let ghost all = texts@.map_values(|t: String| t@);
    let mut out: Vec<Timestamp> = Vec::new();
    let mut i: usize = 0;
    assert(all.skip(0) =~= all);
    while i < texts.len()
        invariant
            i <= texts.len(),
            schema_version == 1,
            all == texts@.map_values(|t: String| t@),
            first_bad_time(all) == first_bad_time(all.skip(i as int)),
            out@.len() == i,
            forall|k: int| 0 <= k < i ==> #[trigger] out@[k] == time_of(texts@[k]@),
        decreases texts.len() - i,
    {
        let ghost rest = all.skip(i as int);
        assert(rest[0] == texts@[i as int]@);
        assert(rest.drop_first() =~= all.skip(i + 1));
        match parse_document_time(texts[i].as_str(), "schema_version") {
            Err(e) => return Err(e),
            Ok(t) => out.push(t),
        }
        i = i + 1;
    }
    Ok(out)
}

proof fn lemma_all_times_read(texts: Seq<Seq<char>>)
    requires
        forall|i: int| 0 <= i < texts.len() ==> rfc3339_parsed(#[trigger] texts[i]) is Ok,
    ensures
        first_bad_time(texts) is None,
    decreases texts.len(),
{
    if texts.len() > 0 {
        assert(rfc3339_parsed(texts[0]) is Ok);
        assert forall|i: int| 0 <= i < texts.drop_first().len() implies rfc3339_parsed(
            #[trigger] texts.drop_first()[i],
        ) is Ok by {
            assert(texts.drop_first()[i] == texts[i + 1]);
        }
        lemma_all_times_read(texts.drop_first());
    }
}

/// Whether `t` can be written as an RFC 3339 time: no later than the year
/// 9999.
pub open spec fn writable_time(t: Timestamp) -> bool {
    t.secs < 253_402_300_800 && t.nanos < 1_000_000_000
}

/// Writes the times of a document, in order.
pub fn write_document_times(times: &Vec<Timestamp>) -> (r: Vec<String>)
    requires
        forall|i: int| 0 <= i < times@.len() ==> writable_time(#[trigger] times@[i]),
    ensures
        r@.len() == times@.len(),
        forall|i: int| 0 <= i < r@.len() ==> (#[trigger] r@[i])@ == rfc3339_text(times@[i]),
        usize::BITS == 64 ==> first_bad_time(r@.map_values(|s: String| s@)) is None,
        usize::BITS == 64 ==> forall|i: int| 0 <= i < r@.len() ==> time_of((#[trigger] r@[i])@) == times@[i],
{
    let mut r: Vec<String> = Vec::new();
    let mut i: usize = 0;
    while i < times.len()
        invariant
            i <= times.len(),
            forall|k: int| 0 <= k < times@.len() ==> writable_time(#[trigger] times@[k]),
            r@.len() == i,
            forall|k: int| 0 <= k < i ==> (#[trigger] r@[k])@ == rfc3339_text(times@[k]),
            usize::BITS == 64 ==> forall|k: int| 0 <= k < i ==> rfc3339_parsed((#[trigger] r@[k])@) == Ok::<
                (u64, u32),
                Seq<char>,
            >((times@[k].secs, times@[k].nanos)),
        decreases times.len() - i,
    {
        assert(writable_time(times@[i as int]));
        r.push(format_document_time(times[i]));
        i = i + 1;
    }
    proof {
        if usize::BITS == 64 {
            lemma_all_times_read(r@.map_values(|s: String| s@));
        }
    }
    r
}

}
