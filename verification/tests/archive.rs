use tasklog::archive::{add_archive, init, recover_archive, remove_archive};
use tasklog::def::RecordEntry;
use tasklog::state::RecordState;
use tasklog::time::parse_date_to_timestamp;

fn record(uuid: &str, start: &str, end: &str, state: RecordState) -> RecordEntry {
    RecordEntry {
        uuid: uuid.to_string(),
        start_date: start.to_string(),
        end_date: end.to_string(),
        title: format!("title of {}", uuid),
        plan: vec![],
        tags: vec![],
        state,
    }
}

fn uuids(records: &[RecordEntry]) -> Vec<&str> {
    records.iter().map(|r| r.uuid.as_str()).collect()
}

#[test]
fn archive_init_keeps_order_and_states() {
    let archive = init(vec![
        Some(record("a", "2020-01-01", "2020-01-02", RecordState::Running)),
        None,
        Some(record("b", "2020-01-01", "2020-01-02", RecordState::NotStarted)),
    ]);
    assert_eq!(uuids(&archive), ["a", "b"]);
    assert_eq!(archive[0].state, RecordState::Running);
    assert_eq!(archive[1].state, RecordState::NotStarted);
}

#[test]
fn archive_add_and_remove() {
    let mut archive = init(vec![]);
    add_archive(&mut archive, record("a", "2020-01-01", "2020-01-02", RecordState::Finished));
    add_archive(&mut archive, record("b", "2020-01-01", "2020-01-02", RecordState::Giveup));
    add_archive(&mut archive, record("c", "2020-01-01", "2020-01-02", RecordState::Timeout));
    assert_eq!(uuids(&archive), ["a", "b", "c"]);
    let removed = remove_archive(&mut archive, 0).unwrap();
    assert_eq!(removed.uuid, "a");
    assert_eq!(uuids(&archive), ["b", "c"]);
    assert!(remove_archive(&mut archive, 2).is_none());
    assert_eq!(uuids(&archive), ["b", "c"]);
}

#[test]
fn recover_brings_a_record_back_as_a_new_one() {
    let now = parse_date_to_timestamp("2024-03-12").unwrap();
    let mut archive = vec![
        record("a", "2024-03-10", "2024-03-15", RecordState::Timeout),
        record("b", "2020-01-01", "2020-01-02", RecordState::Finished),
    ];
    let mut records = vec![record("r", "2024-01-01", "2024-01-02", RecordState::Timeout)];
    assert!(recover_archive(&mut archive, &mut records, 0, "new-id".to_string(), now));
    assert_eq!(uuids(&archive), ["b"]);
    assert_eq!(uuids(&records), ["new-id", "r"]);
    assert_eq!(records[0].title, "title of a");
    assert_eq!(records[0].state, RecordState::Running);
    assert!(!recover_archive(&mut archive, &mut records, 1, "other".to_string(), now));
    assert_eq!(uuids(&archive), ["b"]);
    assert_eq!(uuids(&records), ["new-id", "r"]);
}
