//! Records: what is shown of a single one (how far it has come, how many
//! days it has left, which step of its plan is next), how its state and
//! dates change, and the edits of the list of records.

use crate::def::{
    decoded_rows, keep_decoded, plan_view, records_view, PlanStepView, RecordEntry, RecordPlanEntry,
    RecordView,
};
use crate::state::{derive_state, lemma_state_settles, next_state, widen, RecordState};
use crate::time::{day_difference, now_timestamp, text_day_difference, text_timestamp, Date};
use uuid::Uuid;
use vstd::prelude::*;

verus! {

/// A part of a whole, such as finished steps out of all steps. The
/// denominator is never zero and the numerator never exceeds it.
#[derive(Debug, Clone, Copy, PartialEq, Eq, Structural)]
pub struct Fraction {
    pub numerator: u64,
    pub denominator: u64,
}

/// The number of finished steps in a plan.
pub open spec fn finished_steps(plan: Seq<PlanStepView>) -> nat {
    plan.filter(|step: PlanStepView| step.is_finished).len()
}

/// A day difference that is known, or zero where a date could not be read.
pub open spec fn known_days(difference: Option<int>) -> int {
    match difference {
        Some(days) => days,
        None => 0,
    }
}

/// Days from the start date to the end date, never negative.
pub open spec fn days_left(start_date: Seq<char>, end_date: Seq<char>) -> int {
    let days = known_days(text_day_difference(start_date, end_date));
    if days < 0 {
        0
    } else {
        days
    }
}

/// Numerator and denominator of a record's progress, from its plan and the
/// two day differences that count without a plan: from the start date to
/// today, of which a negative one counts as zero, and from the start date to
/// the end date, which counts as one day at least.
pub open spec fn progress_from(plan: Seq<PlanStepView>, elapsed: Option<int>, span: Option<int>) -> (
    int,
    int,
) {
    let passed = if known_days(elapsed) < 0 {
        0
    } else {
        known_days(elapsed)
    };
    let whole = if known_days(span) < 1 {
        1
    } else {
        known_days(span)
    };
    if plan.len() > 0 {
        (finished_steps(plan) as int, plan.len() as int)
    } else if passed >= whole {
        (1, 1)
    } else {
        (passed, whole)
    }
}

/// Numerator and denominator of a record's progress on the day `today`.
/// With a plan it is the share of finished steps, whatever the dates say.
/// Without one it is the share of the record's days that have passed, and
/// complete once they have all passed.
pub open spec fn progress_of(
    plan: Seq<PlanStepView>,
    start_date: Seq<char>,
    end_date: Seq<char>,
    today: Seq<char>,
) -> (int, int) {
    progress_from(
        plan,
        text_day_difference(start_date, today),
        text_day_difference(start_date, end_date),
    )
}

/// The progress of a record with a plan is the same whatever its dates and
/// the day are.
pub proof fn lemma_plan_progress_ignores_dates(
    plan: Seq<PlanStepView>,
    start_date: Seq<char>,
    end_date: Seq<char>,
    today: Seq<char>,
    other_start: Seq<char>,
    other_end: Seq<char>,
    other_day: Seq<char>,
)
    requires
        plan.len() > 0,
    ensures
        progress_of(plan, start_date, end_date, today) == progress_of(
            plan,
            other_start,
            other_end,
            other_day,
        ),
{
}

/// The decimal digits of a number from 0 up, most significant first.
pub open spec fn decimal_digits(value: int) -> Seq<int>
    decreases value,
{
    if value < 10 {
        seq![value]
    } else {
        decimal_digits(value / 10).push(value % 10)
    }
}

/// The digits shown for a number of days: a single digit is padded with a
/// leading zero, a longer number shows its decimal digits.
pub open spec fn display_digits(days: int) -> Seq<int> {
    if days < 10 {
        seq![0, days]
    } else {
        decimal_digits(days)
    }
}

/// The position of the first unfinished step, or the number of steps where
/// all are finished.
pub open spec fn first_unfinished(plan: Seq<PlanStepView>) -> int
    decreases plan.len(),
{
    if plan.len() == 0 {
        0
    } else if !plan[0].is_finished {
        0
    } else {
        1 + first_unfinished(plan.drop_first())
    }
}

/// The steps of a plan that are finished, counted.
fn count_finished(plan: &Vec<RecordPlanEntry>) -> (count: usize)
    ensures
        count == finished_steps(plan_view(plan@)),
        count <= plan.len(),
{
    let ghost steps = plan_view(plan@);
    let ghost finished = |step: PlanStepView| step.is_finished;
    let mut count: usize = 0;
    let mut index: usize = 0;
    assert(steps.take(0) =~= Seq::empty());
    while index < plan.len()
        invariant
            index <= plan.len(),
            count <= index,
            steps == plan_view(plan@),
            finished == |step: PlanStepView| step.is_finished,
            count == steps.take(index as int).filter(finished).len(),
        decreases plan.len() - index,
    {
        proof {
            let before = steps.take(index as int);
            before.lemma_filter_len_push(finished, steps[index as int]);
            assert(steps.take(index + 1) =~= before.push(steps[index as int]));
        }
        if plan[index].is_finished {
            count = count + 1;
        }
        index = index + 1;
    }
    assert(steps.take(plan.len() as int) =~= steps);
    count
}

/// How far a record has come, from its plan and its two day differences;
/// see [`progress_from`]. `None` stands for a difference that is not known
/// because a date could not be read.
pub fn fraction_of(plan: &Vec<RecordPlanEntry>, elapsed: Option<i64>, span: Option<i64>) -> (progress:
    Fraction)
    ensures
        (progress.numerator as int, progress.denominator as int) == progress_from(
            plan_view(plan@),
            widen(elapsed),
            widen(span),
        ),
        progress.numerator <= progress.denominator,
        progress.denominator > 0,
{
    if plan.len() > 0 {
        let finished: usize = count_finished(plan);
        Fraction { numerator: finished as u64, denominator: plan.len() as u64 }
    } else {
        let passed: i64 = match elapsed {
            Some(days) => if days < 0 {
                0
            } else {
                days
            },
            None => 0,
        };
        let whole: i64 = match span {
            Some(days) => if days < 1 {
                1
            } else {
                days
            },
            None => 1,
        };
        if passed >= whole {
            Fraction { numerator: 1, denominator: 1 }
        } else {
            Fraction { numerator: passed as u64, denominator: whole as u64 }
        }
    }
}

/// The day difference of two date texts, `None` where one of them is no
/// date.
fn read_day_difference(from: &str, to: &str) -> (difference: Option<i64>)
    ensures
        widen(difference) == text_day_difference(from@, to@),
{
    match day_difference(from, to) {
        Ok(days) => Some(days),
        Err(_) => None,
    }
}

/// How far a record has come, as a fraction between zero and one.
///
/// A record with a plan has come as far as its plan: finished steps out of
/// all steps. A record without one has come as far as its time: days since
/// the start date out of the days from start to end, complete once today is
/// on or past the end date. A date that cannot be read counts as no days.
pub fn progress_fraction(plan: &Vec<RecordPlanEntry>, start_date: &str, end_date: &str, today: &str) -> (progress:
    Fraction)
    ensures
        (progress.numerator as int, progress.denominator as int) == progress_of(
            plan_view(plan@),
            start_date@,
            end_date@,
            today@,
        ),
        progress.numerator <= progress.denominator,
        progress.denominator > 0,
{
    let elapsed = read_day_difference(start_date, today);
    let span = read_day_difference(start_date, end_date);
    fraction_of(plan, elapsed, span)
}

/// The days a record runs, from its start date to its end date: zero where
/// the end is not after the start or a date cannot be read.
pub fn remaining_days(start_date: &str, end_date: &str) -> (days: i32)
    ensures
        days as int == days_left(start_date@, end_date@),
{
    match day_difference(start_date, end_date) {
        Ok(days) => {
            if days < 0 {
                0
            } else {
                days as i32
            }
        },
        Err(_) => 0,
    }
}

/// The decimal digits of a number from 0 up, most significant first.
fn digits_of(value: i32) -> (digits: Vec<i32>)
    requires
        value >= 0,
    ensures
        digits@.map_values(|digit: i32| digit as int) == decimal_digits(value as int),
    decreases value,
{
    if value < 10 {
        let mut digits: Vec<i32> = Vec::new();
        digits.push(value);
        assert(digits@.map_values(|digit: i32| digit as int) =~= seq![value as int]);
        digits
    } else {
        let mut digits = digits_of(value / 10);
        let ghost leading = digits@;
        digits.push(value % 10);
        assert(digits@.map_values(|digit: i32| digit as int) =~= leading.map_values(
            |digit: i32| digit as int,
        ).push((value % 10) as int));
        digits
    }
}

/// The digits shown for a number of days. A number below ten gives two
/// digits, a zero and the number; any other gives its decimal digits from
/// left to right.
pub fn days_digits(days: i32) -> (digits: Vec<i32>)
    ensures
        digits@.map_values(|digit: i32| digit as int) == display_digits(days as int),
{
    if days < 10 {
        let mut digits: Vec<i32> = Vec::new();
        digits.push(0);
        digits.push(days);
        assert(digits@.map_values(|digit: i32| digit as int) =~= seq![0int, days as int]);
        digits
    } else {
        digits_of(days)
    }
}

/// The digits shown for the days a record runs; see [`remaining_days`] and
/// [`days_digits`].
pub fn remaining_days_digits(start_date: &str, end_date: &str) -> (digits: Vec<i32>)
    ensures
        digits@.map_values(|digit: i32| digit as int) == display_digits(
            days_left(start_date@, end_date@),
        ),
{
    days_digits(remaining_days(start_date, end_date))
}

/// The step of a plan that is next: the position of the first step that is
/// not finished, or the number of steps where none is left.
pub fn current_plan_step(plan: &Vec<RecordPlanEntry>) -> (position: i32)
    requires
        plan.len() <= i32::MAX,
    ensures
        position as int == first_unfinished(plan_view(plan@)),
        0 <= position <= plan.len(),
        forall|i: int| 0 <= i < position ==> plan[i].is_finished,
        position < plan.len() ==> !plan[position as int].is_finished,
{
    let ghost steps = plan_view(plan@);
    let mut index: usize = 0;
    assert(steps.skip(0) =~= steps);
    while index < plan.len()
        invariant
            index <= plan.len(),
            plan.len() <= i32::MAX,
            steps == plan_view(plan@),
            forall|i: int| 0 <= i < index ==> plan[i].is_finished,
            first_unfinished(steps) == index + first_unfinished(steps.skip(index as int)),
        decreases plan.len() - index,
    {
        let ghost rest = steps.skip(index as int);
        assert(rest[0] == steps[index as int]);
        assert(rest.drop_first() =~= steps.skip(index + 1));
        if !plan[index].is_finished {
            return index as i32;
        }
        index = index + 1;
    }
    assert(steps.skip(plan.len() as int).len() == 0);
    index as i32
}

/// A record with the state that follows from its dates at the instant `now`,
/// or unchanged where it keeps its state.
pub open spec fn refreshed(record: RecordView, now: int) -> RecordView {
    match next_state(
        text_timestamp(record.start_date),
        text_timestamp(record.end_date),
        record.state,
        now,
    ) {
        Some(state) => RecordView { state, ..record },
        None => record,
    }
}

/// A record after the user has moved it to the state `target` on the day
/// `today`, before its dates are put in order.
///
/// Starting a record that had not started stamps its start date; taking up
/// again a record that had ended stamps its end date. Finishing or giving up
/// stamps the end date, and the start date too if the record never started.
pub open spec fn stamped(record: RecordView, target: RecordState, today: Seq<char>) -> RecordView {
    match target {
        RecordState::Running => match record.state {
            RecordState::NotStarted => RecordView {
                state: RecordState::Running,
                start_date: today,
                ..record
            },
            RecordState::Running => record,
            _ => RecordView { state: RecordState::Running, end_date: today, ..record },
        },
        RecordState::Finished | RecordState::Giveup => RecordView {
            state: target,
            end_date: today,
            start_date: if record.state == RecordState::NotStarted {
                today
            } else {
                record.start_date
            },
            ..record
        },
        _ => record,
    }
}

/// A record whose end date is moved to its start date if it lay before it.
pub open spec fn with_ordered_dates(record: RecordView) -> RecordView {
    match text_day_difference(record.start_date, record.end_date) {
        Some(days) => if days < 0 {
            RecordView { end_date: record.start_date, ..record }
        } else {
            record
        },
        None => record,
    }
}

/// The end date of a record is not before its start date, as far as both
/// dates can be read.
pub open spec fn dates_ordered(record: RecordView) -> bool {
    text_day_difference(record.start_date, record.end_date) matches Some(days) ==> days >= 0
}

/// The states a user can move a record to.
pub open spec fn user_can_set(target: RecordState) -> bool {
    target == RecordState::Running || target == RecordState::Finished || target
        == RecordState::Giveup
}

/// A record after the user has moved it to the state `target` on the day
/// `today`. Nothing changes for a state that only the clock can bring about.
pub open spec fn state_changed(record: RecordView, target: RecordState, today: Seq<char>) -> RecordView {
    if user_can_set(target) {
        with_ordered_dates(stamped(record, target, today))
    } else {
        record
    }
}

/// After the user has changed a record's state, its end date is not before
/// its start date, as far as both dates can be read.
pub proof fn lemma_state_change_orders_dates(record: RecordView, target: RecordState, today: Seq<char>)
    requires
        user_can_set(target),
    ensures
        dates_ordered(state_changed(record, target, today)),
{
}

/// Bringing a record up to the same instant twice changes nothing more than
/// doing it once, provided its end date is not before its start date.
pub proof fn lemma_refresh_settles(record: RecordView, now: int)
    requires
        dates_ordered(record),
    ensures
        refreshed(refreshed(record, now), now) == refreshed(record, now),
{
    let start = text_timestamp(record.start_date);
    let end = text_timestamp(record.end_date);
    if start is Some && end is Some {
        let days = text_day_difference(record.start_date, record.end_date)->0;
        assert(days >= 0);
        assert(days == (end->0 - start->0) / 86400);
        assert(start->0 <= end->0);
    }
    lemma_state_settles(start, end, record.state, now);
}

/// Gives a record the state that follows from its dates at the instant
/// `now`; a record that keeps its state is left as it is.
pub fn refresh_state(entry: &mut RecordEntry, now: i64)
    ensures
        final(entry)@ == refreshed(old(entry)@, now as int),
{
    let derived = derive_state(entry.start_date.as_str(), entry.end_date.as_str(), entry.state, now);
    match derived {
        Some(state) => {
            entry.state = state;
        },
        None => {},
    }
}

/// Moves a record to the state the user chose, on the day `today` (a date
/// text in the form `YYYY-MM-DD`), and says whether anything was done.
///
/// Only `Running`, `Finished` and `Giveup` can be chosen. The dates are
/// stamped as [`stamped`] says, and an end date that would lie before the
/// start date is moved to the start date.
pub fn change_state(entry: &mut RecordEntry, target: RecordState, today: &str) -> (changed: bool)
    ensures
        final(entry)@ == state_changed(old(entry)@, target, today@),
        changed == user_can_set(target),
        changed ==> dates_ordered(final(entry)@),
{
    let previous = entry.state;
    match target {
        RecordState::Running => {
            entry.state = RecordState::Running;
            match previous {
                RecordState::NotStarted => {
                    entry.start_date = today.to_owned();
                },
                RecordState::Running => {},
                _ => {
                    entry.end_date = today.to_owned();
                },
            }
        },
        RecordState::Finished | RecordState::Giveup => {
            entry.state = target;
            entry.end_date = today.to_owned();
            if previous == RecordState::NotStarted {
                entry.start_date = today.to_owned();
            }
        },
        _ => {
            return false;
        },
    }
    assert(entry@ == stamped(old(entry)@, target, today@));
    match day_difference(entry.start_date.as_str(), entry.end_date.as_str()) {
        Ok(days) => {
            if days < 0 {
                entry.end_date = entry.start_date.clone();
            }
        },
        Err(_) => {},
    }
    true
}

/// A record under another identifier.
pub open spec fn with_uuid(record: RecordView, uuid: Seq<char>) -> RecordView {
    RecordView { uuid, ..record }
}

/// The list shown after loading: each stored record with its state brought
/// up to the instant `now`, the record stored last coming first.
pub open spec fn loaded_list(stored: Seq<RecordView>, now: int) -> Seq<RecordView> {
    Seq::new(stored.len(), |i: int| refreshed(stored[stored.len() - 1 - i], now))
}

/// Builds the list of records from the stored rows, of which the ones that
/// could not be decoded are `None` and dropped; see [`loaded_list`].
pub fn init(rows: Vec<Option<RecordEntry>>, now: i64) -> (records: Vec<RecordEntry>)
    ensures
        records_view(records@) == loaded_list(records_view(decoded_rows(rows@)), now as int),
{
    let loaded = keep_decoded(rows);
    let ghost stored = records_view(loaded@);
    let mut rest = loaded;
    let mut records: Vec<RecordEntry> = Vec::new();
    while rest.len() > 0
        invariant
            rest.len() + records.len() == stored.len(),
            records_view(rest@) == stored.take(rest.len() as int),
            forall|i: int|
                0 <= i < records.len() ==> (#[trigger] records[i])@ == refreshed(
                    stored[stored.len() - 1 - i],
                    now as int,
                ),
        decreases rest.len(),
    {
        let ghost before = rest@;
        let mut entry = rest.pop().unwrap();
        assert(entry@ == records_view(before)[before.len() - 1]);
        assert(records_view(rest@) =~= stored.take(rest.len() as int));
        refresh_state(&mut entry, now);
        records.push(entry);
    }
    assert(records_view(records@) =~= loaded_list(stored, now as int));
    records
}

/// Adds a record at the head of the list, under the identifier `uuid` and
/// with the state that follows from its dates at the instant `now`.
pub fn new_record(records: &mut Vec<RecordEntry>, entry: RecordEntry, uuid: String, now: i64)
    ensures
        records_view(final(records)@) == records_view(old(records)@).insert(
            0,
            refreshed(with_uuid(entry@, uuid@), now as int),
        ),
{
    let mut entry = entry;
    entry.uuid = uuid;
    refresh_state(&mut entry, now);
    let ghost added = entry@;
    records.insert(0, entry);
    assert(records_view(records@) =~= records_view(old(records)@).insert(0, added));
}

/// Not verified: `uuid::Uuid::new_v4` and the `Display` of `Uuid`. The
/// identifier is random; it is always written in the hyphenated form, which
/// has 36 characters. `uuid` gives up on a machine that hands out no random
/// bytes.
#[verifier::external_body]
fn fresh_uuid() -> (uuid: String)
    ensures
        uuid@.len() == 36,
{
    Uuid::new_v4().to_string()
}

/// Adds a record at the head of the list under a fresh random identifier,
/// with the state that follows from its dates today.
///
/// Identifier and day are decided outside, so the result is stated for
/// whichever they were.
pub fn add_record(records: &mut Vec<RecordEntry>, entry: RecordEntry)
    ensures
        exists|uuid: Seq<char>, today: Date|
            #![trigger with_uuid(entry@, uuid), today.timestamp()]
            today.is_valid() && uuid.len() == 36 && records_view(final(records)@) == records_view(
                old(records)@,
            ).insert(0, refreshed(with_uuid(entry@, uuid), today.timestamp())),
{
    let uuid = fresh_uuid();
    let now = now_timestamp();
    let ghost today = choose|today: Date|
        today.is_valid() && now as int == #[trigger] today.timestamp();
    let ghost id = uuid@;
    new_record(records, entry, uuid, now);
    assert(today.is_valid() && id.len() == 36 && records_view(records@) == records_view(
        old(records)@,
    ).insert(0, refreshed(with_uuid(entry@, id), today.timestamp())));
}

/// Replaces the record that has the identifier of `entry` by `entry`, with
/// the state that follows from its dates at the instant `now`, and gives its
/// position. Where several records share the identifier the first one is
/// replaced; where none has it the list stays as it is.
pub fn update_record(records: &mut Vec<RecordEntry>, entry: RecordEntry, now: i64) -> (position: Option<
    usize,
>)
    ensures
        match position {
            Some(index) => {
                &&& index < old(records).len()
                &&& old(records)[index as int].uuid@ == entry.uuid@
                &&& forall|i: int| 0 <= i < index ==> old(records)[i].uuid@ != entry.uuid@
                &&& records_view(final(records)@) == records_view(old(records)@).update(
                    index as int,
                    refreshed(entry@, now as int),
                )
            },
            None => {
                &&& forall|i: int| 0 <= i < old(records).len() ==> old(records)[i].uuid@ != entry.uuid@
                &&& final(records)@ == old(records)@
            },
        },
{
    let mut index: usize = 0;
    while index < records.len()
        invariant
            index <= records.len(),
            records@ == old(records)@,
            forall|i: int| 0 <= i < index ==> records[i].uuid@ != entry.uuid@,
        decreases records.len() - index,
    {
        if records[index].uuid == entry.uuid {
            let mut entry = entry;
            refresh_state(&mut entry, now);
            let ghost replaced = entry@;
            records.set(index, entry);
            assert(records_view(records@) =~= records_view(old(records)@).update(
                index as int,
                replaced,
            ));
            return Some(index);
        }
        index = index + 1;
    }
    None
}

/// Takes the record at `index` out of the list and hands it over; `None`,
/// and no change, where the list has no such position.
pub fn remove_record(records: &mut Vec<RecordEntry>, index: usize) -> (removed: Option<RecordEntry>)
    ensures
        match removed {
            Some(entry) => index < old(records).len() && entry == old(records)[index as int]
                && final(records)@ == old(records)@.remove(index as int),
            None => index >= old(records).len() && final(records)@ == old(records)@,
        },
{
    if index < records.len() {
        Some(records.remove(index))
    } else {
        None
    }
}

/// Moves the record at `index` to the state the user chose, on the day
/// `today`; see [`change_state`]. Says whether anything was done: nothing is
/// where the list has no such position or the state cannot be chosen.
pub fn update_record_state(
    records: &mut Vec<RecordEntry>,
    index: usize,
    target: RecordState,
    today: &str,
) -> (changed: bool)
    ensures
        changed == (index < old(records).len() && user_can_set(target)),
        changed ==> records_view(final(records)@) == records_view(old(records)@).update(
            index as int,
            state_changed(old(records)[index as int]@, target, today@),
        ),
        !changed ==> final(records)@ == old(records)@,
{
    if index >= records.len() {
        return false;
    }
    let mut entry = records[index].clone();
    if !change_state(&mut entry, target, today) {
        return false;
    }
    let ghost changed_entry = entry@;
    records.set(index, entry);
    assert(records_view(records@) =~= records_view(old(records)@).update(
        index as int,
        changed_entry,
    ));
    true
}

/// The record that the edit dialog opens with: an empty record for a
/// negative position, which stands for a new record, and else a copy of the
/// record at that position. `None` where the list has no such position.
pub fn open_record_dialog(records: &Vec<RecordEntry>, index: i32) -> (edited: Option<RecordEntry>)
    ensures
        match edited {
            Some(entry) => if index < 0 {
                entry@ == RecordEntry::default_view()
            } else {
                index < records.len() && entry@ == records[index as int]@
            },
            None => index >= records.len(),
        },
{
    if index < 0 {
        Some(RecordEntry::default())
    } else if (index as usize) < records.len() {
        Some(records[index as usize].clone())
    } else {
        None
    }
}

/// Moves the record at `index` from the list of records to the end of the
/// archive, as it is, and says whether the list had such a position.
pub fn archive_record(records: &mut Vec<RecordEntry>, archive: &mut Vec<RecordEntry>, index: usize) -> (done:
    bool)
    ensures
        done == (index < old(records).len()),
        done ==> final(records)@ == old(records)@.remove(index as int),
        done ==> final(archive)@ == old(archive)@.push(old(records)[index as int]),
        !done ==> final(records)@ == old(records)@ && final(archive)@ == old(archive)@,
{
    match remove_record(records, index) {
        Some(entry) => {
            archive.push(entry);
            true
        },
        None => false,
    }
}

} // verus!
