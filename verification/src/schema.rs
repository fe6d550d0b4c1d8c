//! Schema checks and error wrapping shared by the stored documents, and
//! the RFC 3339 timestamps they hold.

use vstd::prelude::*;
use crate::error::{error_text, MinervaError};
use crate::text::{append_str, concat, decimal, decimal_string, owned};

verus! {

/// The only schema version of stored documents.
pub const SUPPORTED_SCHEMA: u32 = 1;

/// The reason given for an unsupported schema version.
pub open spec fn unsupported_schema_reason(version: u32) -> Seq<char> {
    "unsupported schema version `"@ + decimal(version as nat) + "`"@
}

/// Accepts schema version 1 only; any other version is an invalid
/// `schema_version` configuration.
pub fn require_schema(schema_version: u32) -> (r: Result<(), MinervaError>)
    ensures
        schema_version == 1 ==> r is Ok,
        schema_version != 1 ==> (r matches Err(MinervaError::InvalidConfiguration { key, reason })
            && key@ == "schema_version"@ && reason@ == unsupported_schema_reason(schema_version)),
{
    if schema_version == SUPPORTED_SCHEMA {
        return Ok(());
    }
    let mut reason = concat("unsupported schema version `", decimal_string(schema_version as u64).as_str());
    append_str(&mut reason, "`");
    Err(MinervaError::InvalidConfiguration { key: owned("schema_version"), reason })
}

/// The reason a stored document gives when wrapped into a schema error:
/// `key: reason` for an invalid configuration, the reason of a schema
/// error, and the error's text otherwise.
pub open spec fn schema_reason(err: MinervaError) -> Seq<char> {
    match err {
        MinervaError::InvalidConfiguration { key, reason } => key@ + ": "@ + reason@,
        MinervaError::SchemaError { reason, .. } => reason@,
        other => error_text(other),
    }
}

/// Reports `err`, raised while reading or writing the file at `path`, as
/// a schema error of that file.
pub fn schema_error(path: &str, err: MinervaError) -> (r: MinervaError)
    ensures
        r matches MinervaError::SchemaError { path: p, reason } && p@ == path@ && reason@
            == schema_reason(err),
{
    let reason = match &err {
        MinervaError::InvalidConfiguration { key, reason } => {
            let mut r = concat(key.as_str(), ": ");
            append_str(&mut r, reason.as_str());
            r
        },
        MinervaError::SchemaError { reason, .. } => owned(reason.as_str()),
        _ => err.describe(),
    };
    assert(reason@ =~= schema_reason(err));
    MinervaError::SchemaError { path: owned(path), reason }
}

/// The error for a task write that does not follow the stored task: a
/// rejected `version` becomes a version conflict naming the expected and
/// the written versions; any other rejection is a schema error.
pub fn conflict_or_schema(path: &str, expected: u64, actual: u64, err: MinervaError) -> (r: MinervaError)
    ensures
        (err matches MinervaError::InvalidConfiguration { key, .. } && key@ == "version"@) ==> (r
            matches MinervaError::VersionConflict { path: p, expected: e, actual: a } && p@ == path@
            && e@ == decimal(expected as nat) && a@ == decimal(actual as nat)),
        !(err matches MinervaError::InvalidConfiguration { key, .. } && key@ == "version"@) ==> (r
            matches MinervaError::SchemaError { path: p, reason } && p@ == path@ && reason@
            == schema_reason(err)),
{
    let is_version = match &err {
        MinervaError::InvalidConfiguration { key, .. } => *key == owned("version"),
        _ => false,
    };
    if is_version {
        MinervaError::VersionConflict {
            path: owned(path),
            expected: decimal_string(expected),
            actual: decimal_string(actual),
        }
    } else {
        schema_error(path, err)
    }
}

/// Checks the schema version of the derived task index.
pub fn validate_index_schema(schema_version: u32) -> (r: Result<(), String>)
    ensures
        schema_version == 1 ==> r is Ok,
        schema_version != 1 ==> (r matches Err(m) && m@ == "schema_version must be 1"@),
{
    if schema_version == SUPPORTED_SCHEMA {
        Ok(())
    } else {
        Err(owned("schema_version must be 1"))
    }
}

/// The derived index of all tasks.
#[derive(Debug)]
pub struct TaskIndexDocument<T> {
    pub schema_version: u32,
    pub tasks: Vec<T>,
}

impl<T> TaskIndexDocument<T> {
    /// The index of `tasks`, at the current schema version.
    pub fn from_tasks(tasks: Vec<T>) -> (d: Self)
        ensures
            d.schema_version == 1,
            d.tasks@ == tasks@,
    {
        TaskIndexDocument { schema_version: SUPPORTED_SCHEMA, tasks }
    }

    /// Accepts the index only at the current schema version.
    pub fn validate(&self) -> (r: Result<(), String>)
        ensures
            self.schema_version == 1 ==> r is Ok,
            self.schema_version != 1 ==> (r matches Err(m) && m@ == "schema_version must be 1"@),
    {
        validate_index_schema(self.schema_version)
    }
}

// ---------------------------------------------------------------------
// Timestamps
// ---------------------------------------------------------------------

/// A point in time after the Unix epoch.
#[derive(Debug, Clone, Copy, PartialEq, Eq, Structural)]
pub struct Timestamp {
    /// Whole seconds since the epoch.
    pub secs: u64,
    /// Nanoseconds past `secs`, below one second.
    pub nanos: u32,
}

/// What humantime's `parse_rfc3339` returns for a text: the seconds and
/// nanoseconds after the epoch it denotes, or the text of its error.
pub uninterp spec fn rfc3339_parsed(text: Seq<char>) -> Result<(u64, u32), Seq<char>>;

/// What humantime's `format_rfc3339` displays for the time `t`.
pub uninterp spec fn rfc3339_text(t: Timestamp) -> Seq<char>;

/// humantime `parse_rfc3339`, as seconds and nanoseconds after the epoch.
/// It accepts no time after the last second of the year 9999 nor one
/// before 1970, its nanoseconds stay below a billion, and its error
/// displays one of three texts.
#[verifier::external_body]
fn parse_rfc3339(text: &str) -> (r: Result<Timestamp, String>)
    ensures
        r matches Ok(t) ==> rfc3339_parsed(text@) matches Ok(p) && p.0 == t.secs && p.1 == t.nanos
            && t.secs <= 253_402_300_799 && t.nanos < 1_000_000_000,
        r matches Err(e) ==> rfc3339_parsed(text@) matches Err(m) && m == e@ && (e@
            == "numeric component is out of range"@ || e@ == "bad character where digit is expected"@
            || e@ == "timestamp format is invalid"@),
{
    match humantime::parse_rfc3339(text) {
        Ok(time) => match time.duration_since(std::time::UNIX_EPOCH) {
            Ok(d) => Ok(Timestamp { secs: d.as_secs(), nanos: d.subsec_nanos() }),
            Err(e) => Err(e.to_string()),
        },
        Err(e) => Err(e.to_string()),
    }
}

/// humantime `format_rfc3339`, displayed. Its display fails, and
/// `to_string` panics, from the year 10000 on, which `requires` leaves
/// out. The text holds every nanosecond (none, or all nine digits), and
/// on 64-bit targets, where humantime parses up to the year 9999,
/// `parse_rfc3339` reads it back as the same time.
#[verifier::external_body]
fn format_rfc3339(t: Timestamp) -> (r: String)
    requires
        t.secs < 253_402_300_800,
        t.nanos < 1_000_000_000,
    ensures
        r@ == rfc3339_text(t) && (usize::BITS == 64 ==> rfc3339_parsed(r@) == Ok::<(u64, u32), Seq<char>>(
            (t.secs, t.nanos),
        )),
{
    let time = std::time::UNIX_EPOCH + std::time::Duration::new(t.secs, t.nanos);
    humantime::format_rfc3339(time).to_string()
}

/// Reads a time stored in a document; a malformed time is an invalid
/// configuration under `key`, with humantime's reason.
pub fn parse_document_time(text: &str, key: &str) -> (r: Result<Timestamp, MinervaError>)
    ensures
        rfc3339_parsed(text@) matches Ok(p) ==> (r matches Ok(t) && t.secs == p.0 && t.nanos == p.1),
        rfc3339_parsed(text@) matches Err(m) ==> (r matches Err(
            MinervaError::InvalidConfiguration { key: k, reason },
        ) && k@ == key@ && reason@ == m),
        r matches Ok(t) ==> t.secs <= 253_402_300_799 && t.nanos < 1_000_000_000,
{
    match parse_rfc3339(text) {
        Ok(t) => Ok(t),
        Err(e) => Err(MinervaError::InvalidConfiguration { key: owned(key), reason: e }),
    }
}

/// Writes a time into a document; on 64-bit targets the text reads back
/// as the same time.
pub fn format_document_time(t: Timestamp) -> (r: String)
    requires
        t.secs < 253_402_300_800,
        t.nanos < 1_000_000_000,
    ensures
        r@ == rfc3339_text(t),
        usize::BITS == 64 ==> rfc3339_parsed(r@) == Ok::<(u64, u32), Seq<char>>((t.secs, t.nanos)),
{
    format_rfc3339(t)
}

}
