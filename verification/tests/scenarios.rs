//! End-to-end scenarios over whole dumps.

use dump::error::Version;
use dump::reader::{open_dump, read_tasks, DumpReader, RawDump, RawIndex};

fn lines(v: &[&str]) -> Vec<String> {
    v.iter().map(|s| s.to_string()).collect()
}

fn movies_dump() -> RawDump {
    RawDump {
        metadata: Some(r#"{"format_version":1}"#.to_string()),
        indexes: vec![RawIndex {
            name: Some("movies".to_string()),
            documents: lines(&[
                r#"{"id":1,"title":"Carol"}"#,
                r#"{"id":2,"title":"Wonder Woman"}"#,
                r#"{"id":3,"title":"Life of Pi"}"#,
            ]),
            settings: r#"{"displayed_attributes":["title"],"searchable_attributes":["title"]}"#
                .to_string(),
            updates: lines(&[
                r#"{"enqueued_at":10,"kind":"DocumentAddition"}"#,
                r#"{"enqueued_at":30,"kind":"SettingsUpdate"}"#,
            ]),
        }],
    }
}

#[test]
fn one_index_version_name_documents_tasks() {
    let mut d = open_dump(movies_dump()).unwrap();
    assert_eq!(d.version(), Version::V1);
    assert!(d.date().is_none());
    assert_eq!(d.indexes().len(), 1);
    assert_eq!(d.indexes()[0].name().as_str(), "movies");

    let DumpReader::V1(ref mut v1) = d;
    let docs = v1.indexes[0].documents().unwrap();
    assert_eq!(docs.len(), 3);
    assert_eq!(docs[0]["title"], "Carol");
    assert_eq!(docs[1]["title"], "Wonder Woman");
    assert_eq!(docs[2]["title"], "Life of Pi");

    let tasks = d.tasks().unwrap();
    let times: Vec<u64> = tasks.iter().map(|t| t.enqueued_at()).collect();
    assert_eq!(times, vec![10, 30]);
}

#[test]
fn two_indexes_interleave_by_timestamp() {
    let raw = RawDump {
        metadata: Some(r#"{"format_version":1}"#.to_string()),
        indexes: vec![
            RawIndex {
                name: Some("a".to_string()),
                documents: lines(&[]),
                settings: "{}".to_string(),
                updates: lines(&[r#"{"enqueued_at":5}"#, r#"{"enqueued_at":20}"#]),
            },
            RawIndex {
                name: Some("b".to_string()),
                documents: lines(&[]),
                settings: "{}".to_string(),
                updates: lines(&[r#"{"enqueued_at":10}"#]),
            },
        ],
    };
    let tasks = read_tasks(raw).unwrap();
    let times: Vec<u64> = tasks.iter().map(|t| t.enqueued_at()).collect();
    assert_eq!(times, vec![5, 10, 20]);
    // the middle task really is index b's record
    assert_eq!(tasks[1].raw, r#"{"enqueued_at":10}"#);
}

#[test]
fn empty_logs_yield_no_tasks_but_indexes_remain() {
    let raw = RawDump {
        metadata: Some(r#"{"format_version":1}"#.to_string()),
        indexes: vec![
            RawIndex {
                name: Some("a".to_string()),
                documents: lines(&[]),
                settings: "{}".to_string(),
                updates: lines(&[]),
            },
            RawIndex {
                name: Some("b".to_string()),
                documents: lines(&[]),
                settings: "{}".to_string(),
                updates: lines(&[]),
            },
        ],
    };
    let mut d = open_dump(raw).unwrap();
    assert_eq!(d.indexes().len(), 2);
    let tasks = d.tasks().unwrap();
    assert!(tasks.is_empty());
}

#[test]
fn equal_timestamps_keep_discovery_order() {
    let raw = RawDump {
        metadata: Some(r#"{"format_version":1}"#.to_string()),
        indexes: vec![
            RawIndex {
                name: Some("first".to_string()),
                documents: lines(&[]),
                settings: "{}".to_string(),
                updates: lines(&[r#"{"enqueued_at":7,"src":"first"}"#]),
            },
            RawIndex {
                name: Some("second".to_string()),
                documents: lines(&[]),
                settings: "{}".to_string(),
                updates: lines(&[r#"{"enqueued_at":7,"src":"second"}"#]),
            },
        ],
    };
    let tasks = read_tasks(raw).unwrap();
    assert_eq!(tasks.len(), 2);
    assert_eq!(tasks[0].raw, r#"{"enqueued_at":7,"src":"first"}"#);
    assert_eq!(tasks[1].raw, r#"{"enqueued_at":7,"src":"second"}"#);
}

#[test]
fn unsorted_log_still_yields_every_record() {
    // the ascending-output guarantee assumes each log is ascending on
    // disk; a log that breaks that invariant still loses no record
    let raw = RawDump {
        metadata: Some(r#"{"format_version":1}"#.to_string()),
        indexes: vec![RawIndex {
            name: Some("odd".to_string()),
            documents: lines(&[]),
            settings: "{}".to_string(),
            updates: lines(&[r#"{"enqueued_at":9}"#, r#"{"enqueued_at":2}"#]),
        }],
    };
    let tasks = read_tasks(raw).unwrap();
    let times: Vec<u64> = tasks.iter().map(|t| t.enqueued_at()).collect();
    assert_eq!(times, vec![9, 2]);
}

#[test]
fn keys_are_empty_for_the_first_revision() {
    let d = open_dump(movies_dump()).unwrap();
    assert!(d.keys().is_empty());
}

#[test]
fn many_indexes_merge_to_sorted_stream() {
    let raw = RawDump {
        metadata: Some(r#"{"format_version":1}"#.to_string()),
        indexes: vec![
            RawIndex {
                name: Some("x".to_string()),
                documents: lines(&[]),
                settings: "{}".to_string(),
                updates: lines(&[
                    r#"{"enqueued_at":1}"#,
                    r#"{"enqueued_at":4}"#,
                    r#"{"enqueued_at":9}"#,
                ]),
            },
            RawIndex {
                name: Some("y".to_string()),
                documents: lines(&[]),
                settings: "{}".to_string(),
                updates: lines(&[r#"{"enqueued_at":2}"#, r#"{"enqueued_at":8}"#]),
            },
            RawIndex {
                name: Some("z".to_string()),
                documents: lines(&[]),
                settings: "{}".to_string(),
                updates: lines(&[r#"{"enqueued_at":3}"#]),
            },
        ],
    };
    let tasks = read_tasks(raw).unwrap();
    let times: Vec<u64> = tasks.iter().map(|t| t.enqueued_at()).collect();
    assert_eq!(times, vec![1, 2, 3, 4, 8, 9]);
}
