//! Every error variant, provoked by the input that owes it.

use dump::error::Error;
use dump::index::V1IndexReader;
use dump::reader::{open_dump, read_tasks, RawDump, RawIndex};

fn lines(v: &[&str]) -> Vec<String> {
    v.iter().map(|s| s.to_string()).collect()
}

fn dump_with(metadata: Option<&str>, indexes: Vec<RawIndex>) -> RawDump {
    RawDump {
        metadata: metadata.map(|s| s.to_string()),
        indexes,
    }
}

fn plain_index(name: Option<&str>, updates: &[&str]) -> RawIndex {
    RawIndex {
        name: name.map(|s| s.to_string()),
        documents: lines(&[]),
        settings: "{}".to_string(),
        updates: lines(updates),
    }
}

#[test]
fn missing_metadata_is_corrupt() {
    let r = open_dump(dump_with(None, vec![]));
    assert!(matches!(r, Err(Error::CorruptMetadata)));
}

#[test]
fn malformed_metadata_is_corrupt() {
    let r = open_dump(dump_with(Some("not json at all"), vec![]));
    assert!(matches!(r, Err(Error::CorruptMetadata)));
    let r = open_dump(dump_with(Some(r#"{"creation_date":"2020"}"#), vec![]));
    assert!(matches!(r, Err(Error::CorruptMetadata)));
}

#[test]
fn unknown_format_version_is_unsupported() {
    let r = open_dump(dump_with(Some(r#"{"format_version":9}"#), vec![]));
    assert!(matches!(r, Err(Error::UnsupportedVersion)));
}

#[test]
fn undecodable_index_name_fails_whole_open() {
    let raw = dump_with(
        Some(r#"{"format_version":1}"#),
        vec![
            plain_index(Some("fine"), &[]),
            plain_index(None, &[]),
        ],
    );
    let r = open_dump(raw);
    assert!(matches!(r, Err(Error::BadIndexName)));
}

#[test]
fn malformed_first_task_line_fails_open() {
    let raw = dump_with(
        Some(r#"{"format_version":1}"#),
        vec![plain_index(Some("idx"), &["{ not a record"])],
    );
    match open_dump(raw) {
        Err(Error::ParseError { index, line }) => {
            assert_eq!(index, "idx");
            assert_eq!(line, 0);
        },
        other => panic!("expected a parse failure, got {:?}", other.is_ok()),
    }
}

#[test]
fn malformed_later_task_line_surfaces_in_tasks() {
    let raw = dump_with(
        Some(r#"{"format_version":1}"#),
        vec![plain_index(
            Some("idx"),
            &[r#"{"enqueued_at":1}"#, r#"{"enqueued_at":2}"#, "broken"],
        )],
    );
    match read_tasks(raw) {
        Err(Error::ParseError { index, line }) => {
            assert_eq!(index, "idx");
            assert_eq!(line, 2);
        },
        other => panic!("expected a parse failure, got {:?}", other.is_ok()),
    }
}

#[test]
fn task_record_without_timestamp_is_malformed() {
    let raw = dump_with(
        Some(r#"{"format_version":1}"#),
        vec![plain_index(Some("idx"), &[r#"{"kind":"DocumentAddition"}"#])],
    );
    assert!(matches!(
        read_tasks(raw),
        Err(Error::ParseError { line: 0, .. })
    ));
}

#[test]
fn malformed_document_line_names_index_and_line() {
    let mut idx = V1IndexReader::new(
        "movies".to_string(),
        lines(&[r#"{"id":1}"#, "oops", r#"{"id":3}"#]),
        "{}".to_string(),
        lines(&[]),
    )
    .unwrap();
    match idx.documents() {
        Err(Error::ParseError { index, line }) => {
            assert_eq!(index, "movies");
            assert_eq!(line, 1);
        },
        _ => panic!("expected a parse failure"),
    }
}

#[test]
fn malformed_settings_fail_to_parse() {
    let idx = V1IndexReader::new(
        "movies".to_string(),
        lines(&[]),
        "{ open brace".to_string(),
        lines(&[]),
    )
    .unwrap();
    assert!(matches!(
        idx.settings(),
        Err(Error::ParseError { line: 0, .. })
    ));
}

#[test]
fn corrupt_metadata_wins_over_bad_indexes() {
    let raw = dump_with(Some("not json"), vec![plain_index(None, &["junk"])]);
    assert!(matches!(open_dump(raw), Err(Error::CorruptMetadata)));
}

#[test]
fn unsupported_version_wins_over_bad_indexes() {
    let raw = dump_with(
        Some(r#"{"format_version":2}"#),
        vec![plain_index(None, &["junk"])],
    );
    assert!(matches!(open_dump(raw), Err(Error::UnsupportedVersion)));
}

#[test]
fn first_failing_index_decides_the_error() {
    // the bad name comes before the malformed first task record
    let raw = dump_with(
        Some(r#"{"format_version":1}"#),
        vec![
            plain_index(None, &[]),
            plain_index(Some("idx"), &["{ not a record"]),
        ],
    );
    assert!(matches!(open_dump(raw), Err(Error::BadIndexName)));
}

#[test]
fn other_indexes_remain_usable_after_one_fails() {
    let raw = dump_with(
        Some(r#"{"format_version":1}"#),
        vec![
            plain_index(Some("good"), &[r#"{"enqueued_at":1}"#]),
            plain_index(Some("bad"), &[r#"{"enqueued_at":2}"#, "broken"]),
        ],
    );
    let mut d = open_dump(raw).unwrap();
    assert!(d.tasks().is_err());
    // the good index's documents and settings still answer
    assert!(d.indexes()[0].settings().is_ok());
}
