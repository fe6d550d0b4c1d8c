use minerva_storage::documents::{read_document_times, write_document_times, DeclarationActor, TaskEventActor, TaskFactsDocument, TaskResourcesDocument};
use minerva_storage::error::join_strings;
use minerva_storage::schema::{
    conflict_or_schema, format_document_time, parse_document_time, require_schema, schema_error,
    validate_index_schema, TaskIndexDocument, Timestamp,
};
use minerva_storage::MinervaError;

fn invalid(key: &str, reason: &str) -> MinervaError {
    MinervaError::InvalidConfiguration { key: key.to_string(), reason: reason.to_string() }
}

#[test]
fn schema_version_one_is_the_only_supported() {
    assert_eq!(require_schema(1), Ok(()));
    assert_eq!(require_schema(0), Err(invalid("schema_version", "unsupported schema version `0`")));
    assert_eq!(require_schema(42), Err(invalid("schema_version", "unsupported schema version `42`")));
}

#[test]
fn schema_errors_wrap_reasons() {
    let e = schema_error("p.yaml", invalid("version", "must increase"));
    assert_eq!(e, MinervaError::SchemaError { path: "p.yaml".into(), reason: "version: must increase".into() });
    let e = schema_error("p.yaml", MinervaError::SchemaError { path: "x".into(), reason: "bad".into() });
    assert_eq!(e, MinervaError::SchemaError { path: "p.yaml".into(), reason: "bad".into() });
    let e = schema_error("p.yaml", MinervaError::TaskNotFound { task_ref: "7".into() });
    assert_eq!(e, MinervaError::SchemaError { path: "p.yaml".into(), reason: "task `7` was not found".into() });
}

#[test]
fn rejected_version_becomes_version_conflict() {
    let e = conflict_or_schema("t.yaml", 4, 3, invalid("version", "stale"));
    assert_eq!(
        e,
        MinervaError::VersionConflict { path: "t.yaml".into(), expected: "4".into(), actual: "3".into() }
    );
    let e = conflict_or_schema("t.yaml", 4, 3, invalid("title", "empty"));
    assert_eq!(e, MinervaError::SchemaError { path: "t.yaml".into(), reason: "title: empty".into() });
}

#[test]
fn index_schema_is_checked() {
    assert_eq!(validate_index_schema(1), Ok(()));
    assert_eq!(validate_index_schema(2), Err("schema_version must be 1".to_string()));
    let doc = TaskIndexDocument::from_tasks(vec![1u8, 2, 3]);
    assert_eq!(doc.schema_version, 1);
    assert_eq!(doc.validate(), Ok(()));
    let bad = TaskIndexDocument { schema_version: 0, tasks: Vec::<u8>::new() };
    assert!(bad.validate().is_err());
}

#[test]
fn document_times_parse_and_format() {
    let t = parse_document_time("2018-02-14T00:28:07Z", "schema_version").unwrap();
    assert_eq!(t, Timestamp { secs: 1518568087, nanos: 0 });
    assert_eq!(format_document_time(t), "2018-02-14T00:28:07Z");
    let t = parse_document_time("1970-01-01T00:00:00.123Z", "schema_version").unwrap();
    assert_eq!(t, Timestamp { secs: 0, nanos: 123_000_000 });
    assert_eq!(format_document_time(t), "1970-01-01T00:00:00.123000000Z");
    assert_eq!(
        parse_document_time("yesterday", "declaration.updated_at"),
        Err(invalid("declaration.updated_at", "timestamp format is invalid"))
    );
    assert_eq!(
        parse_document_time("1969-12-31T23:59:59Z", "schema_version"),
        Err(invalid("schema_version", "numeric component is out of range"))
    );
}

#[test]
fn written_time_reads_back() {
    let t = Timestamp { secs: 1_700_000_000, nanos: 5 };
    let text = format_document_time(t);
    assert_eq!(parse_document_time(&text, "k"), Ok(t));
}

#[test]
fn error_texts() {
    assert_eq!(MinervaError::ProjectAlreadyInitialized.describe(), "project is already initialized");
    assert_eq!(MinervaError::ProjectNotInitialized.describe(), "project is not initialized");
    assert_eq!(
        MinervaError::LockConflict { path: "l".into() }.describe(),
        "lock `l` is held by another writer"
    );
    assert_eq!(
        MinervaError::AmbiguousTaskReference { task_ref: "fix".into(), matches: vec!["1 fix a".into(), "2 fix b".into()] }
            .describe(),
        "task reference `fix` is ambiguous: 1 fix a, 2 fix b"
    );
    assert_eq!(join_strings(&vec![], ", "), "");
}

#[test]
fn event_actor_from_declaration_actor() {
    assert_eq!(TaskEventActor::from(DeclarationActor::Human), TaskEventActor::Human);
    assert_eq!(TaskEventActor::from(DeclarationActor::System), TaskEventActor::System);
    assert_eq!(
        TaskEventActor::from(DeclarationActor::Agent("codex".into())),
        TaskEventActor::Agent { name: "codex".into() }
    );
}

#[test]
fn default_facts_are_empty() {
    let f = TaskFactsDocument::default();
    assert!(f.modules.is_empty() && f.files.is_empty() && !f.migrations_required);
    assert_eq!(f.resources, TaskResourcesDocument::default());
}

#[test]
fn document_times_are_read_after_the_schema_check() {
    let texts = vec!["2024-01-02T03:04:05Z".to_string(), "2024-01-02T03:04:06.5Z".to_string()];
    let times = read_document_times(1, &texts).unwrap();
    assert_eq!(times, vec![Timestamp { secs: 1704164645, nanos: 0 }, Timestamp { secs: 1704164646, nanos: 500_000_000 }]);
    assert_eq!(write_document_times(&times), vec!["2024-01-02T03:04:05Z".to_string(), "2024-01-02T03:04:06.500000000Z".to_string()]);
    assert_eq!(
        read_document_times(2, &vec!["nonsense".to_string()]),
        Err(MinervaError::InvalidConfiguration { key: "schema_version".into(), reason: "unsupported schema version `2`".into() })
    );
    assert_eq!(
        read_document_times(1, &vec!["2024-01-02T03:04:05Z".to_string(), "nonsense".to_string()]),
        Err(MinervaError::InvalidConfiguration { key: "schema_version".into(), reason: "timestamp format is invalid".into() })
    );
}

#[test]
fn written_times_read_back() {
    let times = vec![
        Timestamp { secs: 0, nanos: 0 },
        Timestamp { secs: 253_402_300_799, nanos: 999_999_999 },
        Timestamp { secs: 1_700_000_000, nanos: 1 },
    ];
    assert_eq!(read_document_times(1, &write_document_times(&times)), Ok(times));
}
