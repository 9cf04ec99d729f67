//! Documents come out as the exact structured value of their source
//! line, and the parsing boundary really parses.

use dump::index::V1IndexReader;
use dump::task::UpdateStatus;

fn lines(v: &[&str]) -> Vec<String> {
    v.iter().map(|s| s.to_string()).collect()
}

#[test]
fn documents_equal_the_parse_of_their_source_line() {
    let sources = [
        r#"{"id":1,"nested":{"a":[1,2,3],"b":null},"t":"x"}"#,
        r#"[1,"two",3.5,{"deep":true}]"#,
        r#""just a string""#,
        r#"42"#,
    ];
    let mut idx = V1IndexReader::new(
        "rt".to_string(),
        lines(&sources),
        "{}".to_string(),
        lines(&[]),
    )
    .unwrap();
    let docs = idx.documents().unwrap();
    assert_eq!(docs.len(), sources.len());
    for (doc, src) in docs.iter().zip(sources.iter()) {
        let reparsed: serde_json::Value = serde_json::from_str(src).unwrap();
        assert_eq!(doc, &reparsed);
    }
}

#[test]
fn documents_are_single_pass() {
    let mut idx = V1IndexReader::new(
        "rt".to_string(),
        lines(&[r#"{"id":1}"#, r#"{"id":2}"#]),
        "{}".to_string(),
        lines(&[]),
    )
    .unwrap();
    let first = idx.next_document().unwrap().unwrap();
    assert_eq!(first["id"], 1);
    // the drain picks up after the pull, and a second drain is empty
    let rest = idx.documents().unwrap();
    assert_eq!(rest.len(), 1);
    assert_eq!(rest[0]["id"], 2);
    assert!(idx.documents().unwrap().is_empty());
    assert!(idx.next_document().unwrap().is_none());
}

#[test]
fn settings_parse_is_idempotent_and_exact() {
    let settings_src = r#"{"ranking_rules":["typo","words"],"distinct_attribute":null}"#;
    let idx = V1IndexReader::new(
        "s".to_string(),
        lines(&[]),
        settings_src.to_string(),
        lines(&[]),
    )
    .unwrap();
    let once = idx.settings().unwrap();
    let twice = idx.settings().unwrap();
    assert_eq!(once, twice);
    let reparsed: serde_json::Value = serde_json::from_str(settings_src).unwrap();
    assert_eq!(once, reparsed);
}

#[test]
fn task_timestamps_are_really_extracted() {
    // a cursor that handed text back unchanged could not produce these
    // numeric keys, nor order them
    let line_a = r#"{"kind":"z","enqueued_at":18446744073709551615}"#;
    let line_b = r#"{"enqueued_at":0,"kind":"a"}"#;
    let mut idx = V1IndexReader::new(
        "t".to_string(),
        lines(&[]),
        "{}".to_string(),
        lines(&[line_a, line_b]),
    )
    .unwrap();
    let first: UpdateStatus = idx.next_update().unwrap().unwrap();
    assert_eq!(first.enqueued_at(), u64::MAX);
    assert_eq!(first.raw, line_a);
    let second = idx.next_update().unwrap().unwrap();
    assert_eq!(second.enqueued_at(), 0);
    assert_eq!(second.raw, line_b);
    assert!(idx.next_update().unwrap().is_none());
    assert!(idx.peek().is_none());
}

#[test]
fn peek_does_not_advance() {
    let mut idx = V1IndexReader::new(
        "p".to_string(),
        lines(&[]),
        "{}".to_string(),
        lines(&[r#"{"enqueued_at":3}"#]),
    )
    .unwrap();
    assert_eq!(idx.peek().as_ref().unwrap().enqueued_at(), 3);
    assert_eq!(idx.peek().as_ref().unwrap().enqueued_at(), 3);
    assert_eq!(idx.next_update().unwrap().unwrap().enqueued_at(), 3);
    assert!(idx.peek().is_none());
}
