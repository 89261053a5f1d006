//! Figures over many records: the days spent on them, and how the records
//! and their days divide among the states.
//!
//! A record counts from its start date to its end date, or to `now` while it
//! is still running. A record whose dates cannot be read, or whose start
//! date lies after `now`, counts for nothing. All figures are sums over the
//! records, so the order of the records does not matter.

use crate::def::{decoded_rows, keep_decoded, records_view, RecordEntry, RecordView};
use crate::state::RecordState;
use crate::time::{date_of, lemma_day_number_bounds, parse_date_to_timestamp, text_timestamp};
use vstd::prelude::*;

verus! {

/// One row of a chart: a state and the figure that belongs to it.
#[derive(Debug, Clone, Copy, PartialEq, Eq, Structural)]
pub struct StatBucket {
    pub state: RecordState,
    pub value: i32,
}

/// A record takes part in the day counts at the instant `now`: both of its
/// dates can be read, and it has started.
pub open spec fn is_counted(record: RecordView, now: int) -> bool {
    match (text_timestamp(record.start_date), text_timestamp(record.end_date)) {
        (Some(start), Some(_)) => start <= now,
        _ => false,
    }
}

/// The whole days spent on a record at the instant `now`: from its start
/// date to its end date, or to `now` if that is earlier; zero for a record
/// that does not count.
pub open spec fn days_spent(record: RecordView, now: int) -> int {
    match (text_timestamp(record.start_date), text_timestamp(record.end_date)) {
        (Some(start), Some(end)) => if now < start {
            0
        } else if now < end {
            (now - start) / 86400
        } else {
            (end - start) / 86400
        },
        _ => 0,
    }
}

/// The days spent on a record if it is in `state`, zero if it is not.
pub open spec fn days_spent_in(record: RecordView, state: RecordState, now: int) -> int {
    if record.state == state {
        days_spent(record, now)
    } else {
        0
    }
}

/// The days spent on all the records.
pub open spec fn total_days(records: Seq<RecordView>, now: int) -> int
    decreases records.len(),
{
    if records.len() == 0 {
        0
    } else {
        total_days(records.drop_last(), now) + days_spent(records.last(), now)
    }
}

/// The days spent on the records that are in `state`.
pub open spec fn state_days(records: Seq<RecordView>, state: RecordState, now: int) -> int
    decreases records.len(),
{
    if records.len() == 0 {
        0
    } else {
        state_days(records.drop_last(), state, now) + days_spent_in(records.last(), state, now)
    }
}

/// The number of records that are in `state`.
pub open spec fn state_count(records: Seq<RecordView>, state: RecordState) -> nat {
    records.filter(|record: RecordView| record.state == state).len()
}

/// The number of records in `state` that take part in the day counts.
pub open spec fn counted_in_state(records: Seq<RecordView>, state: RecordState, now: int) -> nat {
    records.filter(|record: RecordView| record.state == state && is_counted(record, now)).len()
}

/// The quotient of a division that rounds towards zero.
pub open spec fn quotient_toward_zero(dividend: int, divisor: int) -> int {
    if dividend >= 0 {
        dividend / divisor
    } else {
        -((-dividend) / divisor)
    }
}

/// A figure as an `i32`: the figure itself wherever it fits, and else its
/// low 32 bits, as sums of `i32` wrap around.
pub open spec fn wrapped(figure: int) -> i32 {
    figure as i32
}

/// The mean of the days spent on the records of a state: the days as an
/// `i32` divided by the number of records that count, towards zero; zero
/// where no record counts.
pub open spec fn mean_days(records: Seq<RecordView>, state: RecordState, now: int) -> int {
    if counted_in_state(records, state, now) == 0 {
        0
    } else {
        quotient_toward_zero(
            wrapped(state_days(records, state, now)) as int,
            counted_in_state(records, state, now) as int,
        )
    }
}

/// The states that records are counted by, in the order of the chart.
pub open spec fn counted_states() -> Seq<RecordState> {
    seq![
        RecordState::NotStarted,
        RecordState::Running,
        RecordState::Finished,
        RecordState::Giveup,
        RecordState::Timeout,
    ]
}

/// The states that days are counted by, in the order of the chart. A record
/// that has not started has spent no days.
pub open spec fn timed_states() -> Seq<RecordState> {
    seq![RecordState::Running, RecordState::Finished, RecordState::Giveup, RecordState::Timeout]
}

/// The days of two lists together are the sum of their days.
pub proof fn lemma_total_days_concat(first: Seq<RecordView>, second: Seq<RecordView>, now: int)
    ensures
        total_days(first + second, now) == total_days(first, now) + total_days(second, now),
    decreases second.len(),
{
    if second.len() == 0 {
        assert(first + second =~= first);
    } else {
        assert((first + second).drop_last() =~= first + second.drop_last());
        lemma_total_days_concat(first, second.drop_last(), now);
    }
}

/// The days of a state in two lists together are the sum of its days in each.
pub proof fn lemma_state_days_concat(
    first: Seq<RecordView>,
    second: Seq<RecordView>,
    state: RecordState,
    now: int,
)
    ensures
        state_days(first + second, state, now) == state_days(first, state, now) + state_days(
            second,
            state,
            now,
        ),
    decreases second.len(),
{
    if second.len() == 0 {
        assert(first + second =~= first);
    } else {
        assert((first + second).drop_last() =~= first + second.drop_last());
        lemma_state_days_concat(first, second.drop_last(), state, now);
    }
}

/// The figures do not depend on which of two lists comes first, the
/// archived records or the active ones.
pub proof fn lemma_figures_ignore_list_order(
    first: Seq<RecordView>,
    second: Seq<RecordView>,
    state: RecordState,
    now: int,
)
    ensures
        total_days(first + second, now) == total_days(second + first, now),
        state_days(first + second, state, now) == state_days(second + first, state, now),
        state_count(first + second, state) == state_count(second + first, state),
        counted_in_state(first + second, state, now) == counted_in_state(
            second + first,
            state,
            now,
        ),
        mean_days(first + second, state, now) == mean_days(second + first, state, now),
{
    lemma_total_days_concat(first, second, now);
    lemma_total_days_concat(second, first, now);
    lemma_state_days_concat(first, second, state, now);
    lemma_state_days_concat(second, first, state, now);
    let in_state = |record: RecordView| record.state == state;
    Seq::filter_distributes_over_add(first, second, in_state);
    Seq::filter_distributes_over_add(second, first, in_state);
    let counted = |record: RecordView| record.state == state && is_counted(record, now);
    Seq::filter_distributes_over_add(first, second, counted);
    Seq::filter_distributes_over_add(second, first, counted);
}

/// No record has spent more days than lie between the first and the last
/// date of the calendar.
pub proof fn lemma_days_spent_bounds(record: RecordView, now: int)
    ensures
        -most_days() <= days_spent(record, now) <= most_days(),
{
    match (date_of(record.start_date), date_of(record.end_date)) {
        (Some(start), Some(end)) => {
            lemma_day_number_bounds(start);
            lemma_day_number_bounds(end);
        },
        _ => {},
    }
}

/// The days spent on a list of records are bounded by the length of the
/// list, so the figures of a short list are exact: they fit an `i32` for up
/// to eleven records.
pub proof fn lemma_total_days_bounds(records: Seq<RecordView>, state: RecordState, now: int)
    ensures
        -191491528 * records.len() <= total_days(records, now) <= 191491528 * records.len(),
        -191491528 * records.len() <= state_days(records, state, now) <= 191491528
            * records.len(),
        records.len() <= 11 ==> wrapped(total_days(records, now)) == total_days(records, now),
        records.len() <= 11 ==> wrapped(state_days(records, state, now)) == state_days(
            records,
            state,
            now,
        ),
    decreases records.len(),
{
    if records.len() > 0 {
        lemma_total_days_bounds(records.drop_last(), state, now);
        lemma_days_spent_bounds(records.last(), now);
    }
}

/// A state without a record that counts has a mean of zero: nothing is
/// divided by zero.
pub proof fn lemma_mean_of_no_records(records: Seq<RecordView>, state: RecordState, now: int)
    requires
        counted_in_state(records, state, now) == 0,
    ensures
        mean_days(records, state, now) == 0,
{
}

/// All the records behind the figures: the archived ones, then the active
/// ones, each taken from its stored rows. A row that could not be decoded is
/// `None` and dropped.
pub fn init(archived: Vec<Option<RecordEntry>>, active: Vec<Option<RecordEntry>>) -> (all: Vec<
    RecordEntry,
>)
    ensures
        all@ == decoded_rows(archived@) + decoded_rows(active@),
{
    let mut all = keep_decoded(archived);
    let mut rest = keep_decoded(active);
    all.append(&mut rest);
    all
}

/// The most days a single record can have spent.
pub open spec fn most_days() -> int {
    191491528
}

/// The days spent on one record, `None` for a record that does not count.
fn entry_days(entry: &RecordEntry, now: i64) -> (days: Option<i64>)
    ensures
        days is Some == is_counted(entry@, now as int),
        days matches Some(spent) ==> spent as int == days_spent(entry@, now as int),
        days is None ==> days_spent(entry@, now as int) == 0,
        days matches Some(spent) ==> -most_days() <= spent <= most_days(),
{
    let start = match parse_date_to_timestamp(entry.start_date.as_str()) {
        Ok(seconds) => seconds,
        Err(_) => {
            return None;
        },
    };
    let end = match parse_date_to_timestamp(entry.end_date.as_str()) {
        Ok(seconds) => seconds,
        Err(_) => {
            return None;
        },
    };
    if now < start {
        return None;
    }
    Some(whole_days_between(start, end, now))
}

/// The whole days that a record which has started has spent: from the
/// midnight `start` to the midnight `end`, or to `now` if that is earlier.
/// `start` and `end` are timestamps of dates.
pub fn whole_days_between(start: i64, end: i64, now: i64) -> (days: i64)
    requires
        start % 86400 == 0,
        end % 86400 == 0,
        -8334601228800 <= start <= 8210266790400,
        -8334601228800 <= end <= 8210266790400,
        start <= now,
    ensures
        days as int == if now < end {
            (now - start) / 86400
        } else {
            (end - start) / 86400
        },
        -191491528 <= days <= 191491528,
{
    if now < end {
        (now - start) / 86400
    } else {
        let from: i64 = start / 86400;
        let to: i64 = end / 86400;
        assert(end - start == (to - from) * 86400);
        to - from
    }
}

/// The whole days spent on all the records at the instant `now`.
///
/// A record counts from its start date to its end date, or to `now` while
/// it is still running; a record that has not started or whose dates cannot
/// be read counts for nothing. The result is the sum wherever it fits an
/// `i32`, see [`wrapped`] and [`lemma_total_days_bounds`].
pub fn total_days_spent(entries: &Vec<RecordEntry>, now: i64) -> (total: i32)
    ensures
        total == wrapped(total_days(records_view(entries@), now as int)),
{
    let ghost all = records_view(entries@);
    let mut sum: i128 = 0;
    let mut index: usize = 0;
    assert(all.take(0) =~= Seq::empty());
    while index < entries.len()
        invariant
            index <= entries.len(),
            all == records_view(entries@),
            sum as int == total_days(all.take(index as int), now as int),
            -191491528 * index <= sum <= 191491528 * index,
        decreases entries.len() - index,
    {
        proof {
            let longer = all.take(index + 1);
            assert(longer.drop_last() =~= all.take(index as int));
            assert(longer.last() == entries[index as int]@);
        }
        match entry_days(&entries[index], now) {
            Some(spent) => {
                sum = sum + spent as i128;
            },
            None => {},
        }
        index = index + 1;
    }
    assert(all.take(entries.len() as int) =~= all);
    #[verifier::truncate]
    (sum as i32)
}

/// One more record adds one to the count of its state and nothing to the
/// counts of the others.
proof fn lemma_state_count_push(records: Seq<RecordView>, record: RecordView, state: RecordState)
    ensures
        state_count(records.push(record), state) == state_count(records, state) + (if record.state
            == state {
            1int
        } else {
            0int
        }),
{
    records.lemma_filter_len_push(|record: RecordView| record.state == state, record);
}

/// One more record adds one to the counted records of its state if it
/// counts, and nothing otherwise.
proof fn lemma_counted_push(
    records: Seq<RecordView>,
    record: RecordView,
    state: RecordState,
    now: int,
)
    ensures
        counted_in_state(records.push(record), state, now) == counted_in_state(
            records,
            state,
            now,
        ) + (if record.state == state && is_counted(record, now) {
            1int
        } else {
            0int
        }),
{
    records.lemma_filter_len_push(
        |record: RecordView| record.state == state && is_counted(record, now),
        record,
    );
}

/// One more record adds its days to the days of its state.
proof fn lemma_state_days_push(
    records: Seq<RecordView>,
    record: RecordView,
    state: RecordState,
    now: int,
)
    ensures
        state_days(records.push(record), state, now) == state_days(records, state, now)
            + days_spent_in(record, state, now),
{
    assert(records.push(record).drop_last() =~= records);
}

/// The row of a state in the chart of record counts.
fn count_position(state: RecordState) -> (position: usize)
    ensures
        position < 5,
        counted_states()[position as int] == state,
{
    match state {
        RecordState::NotStarted => 0,
        RecordState::Running => 1,
        RecordState::Finished => 2,
        RecordState::Giveup => 3,
        RecordState::Timeout => 4,
    }
}

/// The row of a state in the charts of days, `None` for a record that has
/// not started.
fn days_position(state: RecordState) -> (position: Option<usize>)
    ensures
        match position {
            Some(row) => row < 4 && timed_states()[row as int] == state,
            None => state == RecordState::NotStarted,
        },
{
    match state {
        RecordState::NotStarted => None,
        RecordState::Running => Some(0),
        RecordState::Finished => Some(1),
        RecordState::Giveup => Some(2),
        RecordState::Timeout => Some(3),
    }
}

/// The state of a row in the chart of record counts.
fn counted_state(row: usize) -> (state: RecordState)
    requires
        row < 5,
    ensures
        state == counted_states()[row as int],
{
    if row == 0 {
        RecordState::NotStarted
    } else if row == 1 {
        RecordState::Running
    } else if row == 2 {
        RecordState::Finished
    } else if row == 3 {
        RecordState::Giveup
    } else {
        RecordState::Timeout
    }
}

/// How many records are in each state: five rows, for `NotStarted`,
/// `Running`, `Finished`, `Giveup` and `Timeout` in this order. The dates
/// play no part.
pub fn counts_by_state(entries: &Vec<RecordEntry>) -> (buckets: Vec<StatBucket>)
    ensures
        buckets@.len() == 5,
        forall|row: int|
            0 <= row < 5 ==> (#[trigger] buckets@[row]).state == counted_states()[row]
                && buckets@[row].value == wrapped(
                state_count(records_view(entries@), counted_states()[row]) as int,
            ),
{
    let ghost all = records_view(entries@);
    let mut counts: Vec<usize> = Vec::new();
    let mut row: usize = 0;
    while row < 5
        invariant
            row <= 5,
            counts@.len() == row,
            forall|k: int| 0 <= k < row ==> counts@[k] == 0,
        decreases 5 - row,
    {
        counts.push(0);
        row = row + 1;
    }
    let mut index: usize = 0;
    assert(all.take(0) =~= Seq::empty());
    while index < entries.len()
        invariant
            index <= entries.len(),
            all == records_view(entries@),
            counts@.len() == 5,
            forall|k: int|
                0 <= k < 5 ==> #[trigger] counts@[k] == state_count(
                    all.take(index as int),
                    counted_states()[k],
                ),
            forall|k: int| 0 <= k < 5 ==> #[trigger] counts@[k] <= index,
        decreases entries.len() - index,
    {
        let position: usize = count_position(entries[index].state);
        let ghost before = counts@;
        let bumped: usize = counts[position] + 1;
        counts.set(position, bumped);
        proof {
            assert(all.take(index + 1) =~= all.take(index as int).push(all[index as int]));
            assert forall|k: int| 0 <= k < 5 implies #[trigger] counts@[k] == state_count(
                all.take(index + 1),
                counted_states()[k],
            ) by {
                lemma_state_count_push(
                    all.take(index as int),
                    all[index as int],
                    counted_states()[k],
                );
                assert(before[k] == state_count(all.take(index as int), counted_states()[k]));
            }
        }
        index = index + 1;
    }
    assert(all.take(entries.len() as int) =~= all);
    let mut buckets: Vec<StatBucket> = Vec::new();
    let mut row: usize = 0;
    while row < 5
        invariant
            row <= 5,
            counts@.len() == 5,
            buckets@.len() == row,
            forall|k: int|
                0 <= k < 5 ==> #[trigger] counts@[k] == state_count(all, counted_states()[k]),
            forall|k: int|
                0 <= k < row ==> (#[trigger] buckets@[k]).state == counted_states()[k]
                    && buckets@[k].value == wrapped(state_count(all, counted_states()[k]) as int),
        decreases 5 - row,
    {
        let count: usize = counts[row];
        let value: i32 = #[verifier::truncate]
        (count as i32);
        buckets.push(StatBucket { state: counted_state(row), value });
        row = row + 1;
    }
    buckets
}

/// The days and the counted records of each state that days are counted
/// by, one row for each.
fn tally(entries: &Vec<RecordEntry>, now: i64) -> (sums: (Vec<i128>, Vec<usize>))
    ensures
        sums.0@.len() == 4,
        sums.1@.len() == 4,
        forall|k: int|
            0 <= k < 4 ==> #[trigger] sums.0@[k] == state_days(
                records_view(entries@),
                timed_states()[k],
                now as int,
            ),
        forall|k: int|
            0 <= k < 4 ==> #[trigger] sums.1@[k] == counted_in_state(
                records_view(entries@),
                timed_states()[k],
                now as int,
            ),
{
    let ghost all = records_view(entries@);
    let mut days: Vec<i128> = Vec::new();
    let mut counts: Vec<usize> = Vec::new();
    let mut row: usize = 0;
    while row < 4
        invariant
            row <= 4,
            days@.len() == row,
            counts@.len() == row,
            forall|k: int| 0 <= k < row ==> days@[k] == 0,
            forall|k: int| 0 <= k < row ==> counts@[k] == 0,
        decreases 4 - row,
    {
        days.push(0);
        counts.push(0);
        row = row + 1;
    }
    let mut index: usize = 0;
    assert(all.take(0) =~= Seq::empty());
    assert forall|k: int| 0 <= k < 4 implies counted_in_state(
        all.take(0),
        #[trigger] timed_states()[k],
        now as int,
    ) == 0 by {
        reveal(Seq::filter);
    }
    while index < entries.len()
        invariant
            index <= entries.len(),
            all == records_view(entries@),
            days@.len() == 4,
            counts@.len() == 4,
            forall|k: int|
                0 <= k < 4 ==> #[trigger] days@[k] == state_days(
                    all.take(index as int),
                    timed_states()[k],
                    now as int,
                ),
            forall|k: int|
                0 <= k < 4 ==> #[trigger] counts@[k] == counted_in_state(
                    all.take(index as int),
                    timed_states()[k],
                    now as int,
                ),
            forall|k: int|
                0 <= k < 4 ==> -191491528 * index <= #[trigger] days@[k] <= 191491528 * index,
            forall|k: int| 0 <= k < 4 ==> #[trigger] counts@[k] <= index,
        decreases entries.len() - index,
    {
        let ghost days_before = days@;
        let ghost counts_before = counts@;
        let ghost record = all[index as int];
        match days_position(entries[index].state) {
            Some(position) => {
                match entry_days(&entries[index], now) {
                    Some(spent) => {
                        let sum: i128 = days[position] + spent as i128;
                        days.set(position, sum);
                        let count: usize = counts[position] + 1;
                        counts.set(position, count);
                    },
                    None => {},
                }
            },
            None => {},
        }
        proof {
            assert(all.take(index + 1) =~= all.take(index as int).push(record));
            assert forall|k: int| 0 <= k < 4 implies #[trigger] days@[k] == state_days(
                all.take(index + 1),
                timed_states()[k],
                now as int,
            ) by {
                lemma_state_days_push(all.take(index as int), record, timed_states()[k], now as int);
                assert(days_before[k] == state_days(
                    all.take(index as int),
                    timed_states()[k],
                    now as int,
                ));
            }
            assert forall|k: int| 0 <= k < 4 implies #[trigger] counts@[k] == counted_in_state(
                all.take(index + 1),
                timed_states()[k],
                now as int,
            ) by {
                lemma_counted_push(all.take(index as int), record, timed_states()[k], now as int);
                assert(counts_before[k] == counted_in_state(
                    all.take(index as int),
                    timed_states()[k],
                    now as int,
                ));
            }
            assert forall|k: int| 0 <= k < 4 implies -191491528 * (index + 1) <= #[trigger] days@[k]
                <= 191491528 * (index + 1) by {
                assert(-191491528 * index <= days_before[k] <= 191491528 * index);
            }
        }
        index = index + 1;
    }
    assert(all.take(entries.len() as int) =~= all);
    (days, counts)
}

/// The state of a row in the charts of days.
fn timed_state(row: usize) -> (state: RecordState)
    requires
        row < 4,
    ensures
        state == timed_states()[row as int],
{
    if row == 0 {
        RecordState::Running
    } else if row == 1 {
        RecordState::Finished
    } else if row == 2 {
        RecordState::Giveup
    } else {
        RecordState::Timeout
    }
}

/// The days spent on the records of each state at the instant `now`: four
/// rows, for `Running`, `Finished`, `Giveup` and `Timeout` in this order. Each record counts as in [`total_days_spent`], in the row of
/// its own state.
pub fn days_by_state(entries: &Vec<RecordEntry>, now: i64) -> (buckets: Vec<StatBucket>)
    ensures
        buckets@.len() == 4,
        forall|row: int|
            0 <= row < 4 ==> (#[trigger] buckets@[row]).state == timed_states()[row]
                && buckets@[row].value == wrapped(
                state_days(records_view(entries@), timed_states()[row], now as int),
            ),
{
    let ghost all = records_view(entries@);
    let (days, counts) = tally(entries, now);
    let mut buckets: Vec<StatBucket> = Vec::new();
    let mut row: usize = 0;
    while row < 4
        invariant
            row <= 4,
            days@.len() == 4,
            buckets@.len() == row,
            forall|k: int|
                0 <= k < 4 ==> #[trigger] days@[k] == state_days(
                    all,
                    timed_states()[k],
                    now as int,
                ),
            forall|k: int|
                0 <= k < row ==> (#[trigger] buckets@[k]).state == timed_states()[k]
                    && buckets@[k].value == wrapped(state_days(all, timed_states()[k], now as int)),
        decreases 4 - row,
    {
        let sum: i128 = days[row];
        let value: i32 = #[verifier::truncate]
        (sum as i32);
        buckets.push(StatBucket { state: timed_state(row), value });
        row = row + 1;
    }
    buckets
}

/// The mean of the days spent on the records of each state at the instant
/// `now`: four rows, for `Running`, `Finished`, `Giveup` and `Timeout` in
/// this order. Each row is the figure of [`days_by_state`] divided by the
/// number of records that count in that state, rounded towards zero. A
/// state without such a record has the mean zero.
pub fn mean_days_by_state(entries: &Vec<RecordEntry>, now: i64) -> (buckets: Vec<StatBucket>)
    ensures
        buckets@.len() == 4,
        forall|row: int|
            0 <= row < 4 ==> (#[trigger] buckets@[row]).state == timed_states()[row]
                && buckets@[row].value == mean_days(
                records_view(entries@),
                timed_states()[row],
                now as int,
            ),
        forall|row: int|
            0 <= row < 4 && counted_in_state(
                records_view(entries@),
                timed_states()[row],
                now as int,
            ) == 0 ==> (#[trigger] buckets@[row]).value == 0,
{
    let ghost all = records_view(entries@);
    let (days, counts) = tally(entries, now);
    let mut buckets: Vec<StatBucket> = Vec::new();
    let mut row: usize = 0;
    while row < 4
        invariant
            row <= 4,
            days@.len() == 4,
            counts@.len() == 4,
            buckets@.len() == row,
            forall|k: int|
                0 <= k < 4 ==> #[trigger] days@[k] == state_days(
                    all,
                    timed_states()[k],
                    now as int,
                ),
            forall|k: int|
                0 <= k < 4 ==> #[trigger] counts@[k] == counted_in_state(
                    all,
                    timed_states()[k],
                    now as int,
                ),
            forall|k: int|
                0 <= k < row ==> (#[trigger] buckets@[k]).state == timed_states()[k]
                    && buckets@[k].value == mean_days(all, timed_states()[k], now as int),
        decreases 4 - row,
    {
        let sum: i128 = days[row];
        let count: usize = counts[row];
        let figure: i32 = #[verifier::truncate]
        (sum as i32);
        let value: i32 = if count == 0 {
            0
        } else {
            let mean: i128 = figure as i128 / count as i128;
            mean as i32
        };
        buckets.push(StatBucket { state: timed_state(row), value });
        row = row + 1;
    }
    buckets
}

} // verus!
