use horus::domain::State;
use horus::runtime::{convert, ContainerSummary, RuntimeError};

fn summary() -> ContainerSummary {
    ContainerSummary {
        id: Some("abc123def456789".into()),
        names: Some(vec!["/memos".into()]),
        image: Some("ghcr.io/usememos/memos:latest".into()),
        state: Some("RUNNING".into()),
        status: Some("Up 3 hours".into()),
    }
}

#[test]
fn converts_a_typical_summary() {
    let c = convert(summary()).unwrap();
    assert_eq!(c.name, "memos");
    assert_eq!(c.state, State::Running);
    assert_eq!(c.status, "Up 3 hours");
}

#[test]
fn falls_back_to_a_short_id_when_unnamed() {
    let c = convert(ContainerSummary { names: None, ..summary() }).unwrap();
    assert_eq!(c.name, "abc123def456");
}

#[test]
fn rejects_a_summary_without_an_id() {
    let err = convert(ContainerSummary { id: None, ..summary() });
    assert!(matches!(err, Err(RuntimeError::Malformed(_))));
}

#[test]
fn missing_fields_take_their_defaults() {
    let c = convert(ContainerSummary {
        id: Some("short".into()),
        names: Some(vec![]),
        image: None,
        state: None,
        status: None,
    })
    .unwrap();
    assert_eq!(c.id, "short");
    assert_eq!(c.name, "short");
    assert_eq!(c.image, "");
    assert_eq!(c.status, "");
    assert_eq!(c.state, State::Other("unknown".into()));
}

#[test]
fn every_leading_slash_is_trimmed_and_only_the_first_name_counts() {
    let c = convert(ContainerSummary {
        names: Some(vec!["//a/b".into(), "/other".into()]),
        ..summary()
    })
    .unwrap();
    assert_eq!(c.name, "a/b");
}

#[test]
fn the_missing_id_error_says_so() {
    let err = convert(ContainerSummary { id: None, ..summary() }).unwrap_err();
    assert_eq!(err, RuntimeError::Malformed("container has no id".into()));
}
