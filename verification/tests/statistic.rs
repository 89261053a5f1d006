use tasklog::def::RecordEntry;
use tasklog::state::RecordState;
use tasklog::statistic::{
    counts_by_state, days_by_state, init, mean_days_by_state, total_days_spent,
    whole_days_between, StatBucket,
};
use tasklog::time::parse_date_to_timestamp;

fn record(start: &str, end: &str, state: RecordState) -> RecordEntry {
    RecordEntry {
        uuid: String::new(),
        start_date: start.to_string(),
        end_date: end.to_string(),
        title: String::new(),
        plan: vec![],
        tags: vec![],
        state,
    }
}

fn at(date: &str) -> i64 {
    parse_date_to_timestamp(date).unwrap()
}

fn values(buckets: &[StatBucket]) -> Vec<i32> {
    buckets.iter().map(|b| b.value).collect()
}

fn sample() -> Vec<RecordEntry> {
    vec![
        // Ended: 10 days.
        record("2024-01-01", "2024-01-11", RecordState::Finished),
        // Ended: 4 days.
        record("2024-02-01", "2024-02-05", RecordState::Finished),
        // Still running at 2024-03-12: 2 days so far.
        record("2024-03-10", "2024-03-20", RecordState::Running),
        // Starts later: nothing.
        record("2024-04-01", "2024-04-30", RecordState::NotStarted),
        // Unreadable date: nothing.
        record("2024-01-01", "someday", RecordState::Running),
        // Ended: 7 days.
        record("2024-01-01", "2024-01-08", RecordState::Timeout),
        // Started but never set running: 1 day so far.
        record("2024-03-11", "2024-03-31", RecordState::NotStarted),
        // Starts later: nothing.
        record("2024-05-01", "2024-05-02", RecordState::Giveup),
    ]
}

const TIMED: [RecordState; 4] = [
    RecordState::Running,
    RecordState::Finished,
    RecordState::Giveup,
    RecordState::Timeout,
];

#[test]
fn total_days_counts_started_records_up_to_now() {
    assert_eq!(total_days_spent(&sample(), at("2024-03-12")), 10 + 4 + 2 + 7 + 1);
    assert_eq!(total_days_spent(&sample(), at("2023-01-01")), 0);
    assert_eq!(total_days_spent(&sample(), at("2030-01-01")), 10 + 4 + 10 + 29 + 7 + 20 + 1);
    assert_eq!(total_days_spent(&vec![], at("2024-03-12")), 0);
}

#[test]
fn total_days_counts_whole_days_only() {
    let entries = vec![record("2024-03-10", "2024-03-20", RecordState::Running)];
    assert_eq!(total_days_spent(&entries, at("2024-03-10")), 0);
    assert_eq!(total_days_spent(&entries, at("2024-03-10") + 86399), 0);
    assert_eq!(total_days_spent(&entries, at("2024-03-11")), 1);
    assert_eq!(total_days_spent(&entries, at("2024-03-12") - 1), 1);
    assert_eq!(total_days_spent(&entries, at("2024-03-20")), 10);
    assert_eq!(total_days_spent(&entries, i64::MAX), 10);
    assert_eq!(total_days_spent(&entries, i64::MIN), 0);
}

#[test]
fn counts_by_state_tallies_every_record() {
    let buckets = counts_by_state(&sample());
    assert_eq!(
        buckets,
        [
            StatBucket { state: RecordState::NotStarted, value: 2 },
            StatBucket { state: RecordState::Running, value: 2 },
            StatBucket { state: RecordState::Finished, value: 2 },
            StatBucket { state: RecordState::Giveup, value: 1 },
            StatBucket { state: RecordState::Timeout, value: 1 },
        ]
    );
    assert_eq!(values(&counts_by_state(&vec![])), [0, 0, 0, 0, 0]);
}

#[test]
fn days_by_state_sums_in_the_row_of_the_state() {
    let buckets = days_by_state(&sample(), at("2024-03-12"));
    assert_eq!(
        buckets,
        [
            StatBucket { state: RecordState::Running, value: 2 },
            StatBucket { state: RecordState::Finished, value: 14 },
            StatBucket { state: RecordState::Giveup, value: 0 },
            StatBucket { state: RecordState::Timeout, value: 7 },
        ]
    );
    assert_eq!(values(&days_by_state(&vec![], 0)), [0, 0, 0, 0]);
}

#[test]
fn mean_days_by_state_divides_by_the_counted_records() {
    let buckets = mean_days_by_state(&sample(), at("2024-03-12"));
    assert_eq!(
        buckets,
        [
            // One of the two running records has an unreadable date.
            StatBucket { state: RecordState::Running, value: 2 },
            StatBucket { state: RecordState::Finished, value: 7 },
            StatBucket { state: RecordState::Giveup, value: 0 },
            StatBucket { state: RecordState::Timeout, value: 7 },
        ]
    );
}

#[test]
fn mean_rounds_towards_zero() {
    let entries = vec![
        record("2024-01-01", "2024-01-02", RecordState::Finished),
        record("2024-01-01", "2024-01-03", RecordState::Finished),
        record("2024-01-01", "2024-01-05", RecordState::Finished),
    ];
    // 1 + 2 + 4 days over three records.
    assert_eq!(values(&mean_days_by_state(&entries, at("2024-02-01"))), [0, 2, 0, 0]);
    // An end before the start counts as negative days.
    let backwards = vec![
        record("2024-01-04", "2024-01-01", RecordState::Timeout),
        record("2024-01-06", "2024-01-02", RecordState::Timeout),
    ];
    assert_eq!(values(&days_by_state(&backwards, at("2024-02-01"))), [0, 0, 0, -7]);
    assert_eq!(values(&mean_days_by_state(&backwards, at("2024-02-01"))), [0, 0, 0, -3]);
}

#[test]
fn mean_of_a_state_without_records_is_zero() {
    let only_finished = vec![record("2024-01-01", "2024-01-11", RecordState::Finished)];
    let buckets = mean_days_by_state(&only_finished, at("2024-03-12"));
    assert_eq!(values(&buckets), [0, 10, 0, 0]);
    let buckets = mean_days_by_state(&vec![], at("2024-03-12"));
    assert_eq!(values(&buckets), [0, 0, 0, 0]);
    // Records that do not count leave the mean at zero too.
    let uncounted = vec![
        record("?", "2024-01-11", RecordState::Running),
        record("2024-06-01", "2024-06-11", RecordState::Giveup),
        record("2024-01-01", "2024-01-11", RecordState::NotStarted),
    ];
    let buckets = mean_days_by_state(&uncounted, at("2024-03-12"));
    assert_eq!(values(&buckets), [0, 0, 0, 0]);
    for (bucket, state) in buckets.iter().zip(TIMED) {
        assert_eq!(bucket.state, state);
    }
}

#[test]
fn figures_do_not_depend_on_the_order_of_the_lists() {
    let now = at("2024-03-12");
    let archived: Vec<Option<RecordEntry>> = sample().into_iter().take(3).map(Some).collect();
    let active: Vec<Option<RecordEntry>> = sample().into_iter().skip(3).map(Some).collect();
    let one = init(archived.clone(), active.clone());
    let other = init(active, archived);
    assert_eq!(one.len(), 8);
    assert_eq!(total_days_spent(&one, now), total_days_spent(&other, now));
    assert_eq!(counts_by_state(&one), counts_by_state(&other));
    assert_eq!(days_by_state(&one, now), days_by_state(&other, now));
    assert_eq!(mean_days_by_state(&one, now), mean_days_by_state(&other, now));
}

#[test]
fn init_puts_archived_records_first_and_drops_undecoded_rows() {
    let archived = vec![None, Some(record("2023-01-01", "2023-01-02", RecordState::Finished))];
    let active = vec![
        Some(record("2024-01-01", "2024-01-02", RecordState::Running)),
        None,
        Some(record("2025-01-01", "2025-01-02", RecordState::NotStarted)),
    ];
    let all = init(archived, active);
    let starts: Vec<&str> = all.iter().map(|r| r.start_date.as_str()).collect();
    assert_eq!(starts, ["2023-01-01", "2024-01-01", "2025-01-01"]);
}

#[test]
fn whole_days_of_one_record() {
    let day = 86400;
    // Still running: up to now, in whole days.
    assert_eq!(whole_days_between(0, 10 * day, 0), 0);
    assert_eq!(whole_days_between(0, 10 * day, day - 1), 0);
    assert_eq!(whole_days_between(0, 10 * day, day), 1);
    assert_eq!(whole_days_between(0, 10 * day, 10 * day - 1), 9);
    // Ended: up to the end date.
    assert_eq!(whole_days_between(0, 10 * day, 10 * day), 10);
    assert_eq!(whole_days_between(0, 10 * day, i64::MAX), 10);
    assert_eq!(whole_days_between(-3 * day, 4 * day, 100 * day), 7);
    // An end before the start counts as negative days.
    assert_eq!(whole_days_between(5 * day, 2 * day, 5 * day), -3);
    assert_eq!(whole_days_between(3 * day, 3 * day, 3 * day), 0);
}
