//! The plan of a record: an ordered list of steps that are known by their
//! position only.

use crate::def::{plan_view, texts_view, PlanStepView, RecordEntry, RecordPlanEntry, RecordView};
use crate::reorder::{move_item, moved};
use crate::time::{day_difference, text_day_difference};
use vstd::prelude::*;

verus! {

/// Why no plan can be asked for.
#[derive(Debug, Clone, Copy, PartialEq, Eq, Structural)]
pub enum PlanRequestError {
    /// One of the record's dates cannot be read.
    UnreadableDate,
    /// The end date is not after the start date, so there are no days to
    /// plan.
    EndNotAfterStart,
}

/// A step that is not finished and says nothing yet.
pub open spec fn empty_step() -> PlanStepView {
    PlanStepView { detail: Seq::empty(), is_finished: false }
}

/// One unfinished step for each of the details, in their order.
pub open spec fn steps_of(details: Seq<Seq<char>>) -> Seq<PlanStepView> {
    details.map_values(|detail: Seq<char>| PlanStepView { detail, is_finished: false })
}

/// A record with another plan.
pub open spec fn with_plan(record: RecordView, plan: Seq<PlanStepView>) -> RecordView {
    RecordView { plan, ..record }
}

/// Adds an empty, unfinished step at the end of the plan.
pub fn add_record_plan(plan: &mut Vec<RecordPlanEntry>)
    ensures
        plan_view(final(plan)@) == plan_view(old(plan)@).push(empty_step()),
{
    let step = RecordPlanEntry::default();
    plan.push(step);
    assert(plan_view(plan@) =~= plan_view(old(plan)@).push(empty_step()));
}

/// Takes the step at `index` out of the plan and hands it over; `None`, and
/// no change, where the plan has no such position.
pub fn remove_record_plan(plan: &mut Vec<RecordPlanEntry>, index: usize) -> (removed: Option<
    RecordPlanEntry,
>)
    ensures
        match removed {
            Some(step) => {
                &&& index < old(plan).len()
                &&& step == old(plan)[index as int]
                &&& final(plan)@ == old(plan)@.remove(index as int)
            },
            None => index >= old(plan).len() && final(plan)@ == old(plan)@,
        },
{
    if index < plan.len() {
        Some(plan.remove(index))
    } else {
        None
    }
}

/// Removes every step of the plan.
pub fn remove_all_record_plans(plan: &mut Vec<RecordPlanEntry>)
    ensures
        final(plan)@ == Seq::<RecordPlanEntry>::empty(),
{
    plan.clear();
}

/// Puts `step` in the place of the step at `index` and says whether the
/// plan had such a position; without one the plan stays as it is.
pub fn update_record_plan(plan: &mut Vec<RecordPlanEntry>, index: usize, step: RecordPlanEntry) -> (done:
    bool)
    ensures
        done == (index < old(plan).len()),
        done ==> final(plan)@ == old(plan)@.update(index as int, step),
        !done ==> final(plan)@ == old(plan)@,
{
    if index < plan.len() {
        plan.set(index, step);
        true
    } else {
        false
    }
}

/// Moves the step at `start_index` to the position `target_slot`; see
/// [`move_item`].
pub fn move_record_plan(plan: &mut Vec<RecordPlanEntry>, start_index: i32, target_slot: i64)
    ensures
        final(plan)@ == moved(old(plan)@, start_index as int, target_slot as int),
{
    move_item(plan, start_index, target_slot);
}

/// The number of days to ask a plan for: the days from the start date to
/// the end date, which must be at least one.
pub fn plan_request_days(start_date: &str, end_date: &str) -> (result: Result<u32, PlanRequestError>)
    ensures
        match result {
            Ok(days) => text_day_difference(start_date@, end_date@) == Some(days as int) && days
                > 0,
            Err(PlanRequestError::UnreadableDate) => text_day_difference(start_date@, end_date@)
                is None,
            Err(PlanRequestError::EndNotAfterStart) => text_day_difference(
                start_date@,
                end_date@,
            ) matches Some(days) && days <= 0,
        },
{
    match day_difference(start_date, end_date) {
        Ok(days) => {
            if days > 0 {
                Ok(days as u32)
            } else {
                Err(PlanRequestError::EndNotAfterStart)
            }
        },
        Err(_) => Err(PlanRequestError::UnreadableDate),
    }
}

/// Unfinished steps for the details of a generated plan, in their order.
fn steps_from_details(details: Vec<String>) -> (plan: Vec<RecordPlanEntry>)
    ensures
        plan_view(plan@) == steps_of(texts_view(details@)),
{
    let ghost all = details@;
    let mut plan: Vec<RecordPlanEntry> = Vec::new();
    for detail in iter: details
        invariant
            all == iter.seq(),
            plan@.len() == iter.index(),
            forall|i: int|
                0 <= i < iter.index() ==> (#[trigger] plan@[i])@ == (PlanStepView {
                    detail: all[i]@,
                    is_finished: false,
                }),
    {
        plan.push(RecordPlanEntry { detail, is_finished: false });
    }
    assert(plan_view(plan@) =~= steps_of(texts_view(all)));
    plan
}

/// Gives a record the plan that was generated for the record with the
/// identifier `uuid`: one unfinished step for each detail. A plan that was
/// generated for another record is dropped and the record stays as it is.
/// Says whether the plan was taken.
pub fn apply_generated_plan(entry: &mut RecordEntry, uuid: &str, details: Vec<String>) -> (taken: bool)
    ensures
        taken == (old(entry).uuid@ == uuid@),
        taken ==> final(entry)@ == with_plan(old(entry)@, steps_of(texts_view(details@))),
        !taken ==> *final(entry) == *old(entry),
{
    if entry.uuid == uuid.to_owned() {
        entry.plan = steps_from_details(details);
        true
    } else {
        false
    }
}

/// Settles a plan request that was made for the record with the identifier
/// `uuid`. `reply` is the generated plan, or `None` where the request
/// failed. The record takes the plan if there is one and it was made for
/// this record; a failed request, or a plan for another record, leaves the
/// record as it was, its plan included. Says whether the plan was taken.
pub fn take_plan_reply(entry: &mut RecordEntry, uuid: &str, reply: Option<Vec<String>>) -> (taken:
    bool)
    ensures
        taken == (reply is Some && old(entry).uuid@ == uuid@),
        taken ==> final(entry)@ == with_plan(old(entry)@, steps_of(texts_view(reply->0@))),
        !taken ==> *final(entry) == *old(entry),
{
    match reply {
        Some(details) => apply_generated_plan(entry, uuid, details),
        None => false,
    }
}

} // verus!
