//! The stored shape of a record and of the steps of its plan.
//!
//! Contracts speak of records through their views: a record's texts as
//! sequences of characters, its plan and tags as sequences.

use crate::state::RecordState;
use vstd::prelude::*;

verus! {

/// One step of a record's plan. A step has no identity but its position.
#[derive(Debug)]
pub struct RecordPlanEntry {
    pub detail: String,
    pub is_finished: bool,
}

/// What a plan step holds.
pub struct PlanStepView {
    pub detail: Seq<char>,
    pub is_finished: bool,
}

/// A tracked task: its dates in the form `YYYY-MM-DD`, its plan in the order
/// the steps were entered, its tags and its lifecycle state.
#[derive(Debug)]
pub struct RecordEntry {
    pub uuid: String,
    pub start_date: String,
    pub end_date: String,
    pub title: String,
    pub plan: Vec<RecordPlanEntry>,
    pub tags: Vec<String>,
    pub state: RecordState,
}

/// What a record holds.
pub struct RecordView {
    pub uuid: Seq<char>,
    pub start_date: Seq<char>,
    pub end_date: Seq<char>,
    pub title: Seq<char>,
    pub plan: Seq<PlanStepView>,
    pub tags: Seq<Seq<char>>,
    pub state: RecordState,
}

/// The steps of a plan, each by its view.
pub open spec fn plan_view(plan: Seq<RecordPlanEntry>) -> Seq<PlanStepView> {
    plan.map_values(|step: RecordPlanEntry| step@)
}

/// A list of texts, each by its characters.
pub open spec fn texts_view(texts: Seq<String>) -> Seq<Seq<char>> {
    texts.map_values(|text: String| text@)
}

/// A list of records, each by its view.
pub open spec fn records_view(records: Seq<RecordEntry>) -> Seq<RecordView> {
    records.map_values(|record: RecordEntry| record@)
}

impl View for RecordPlanEntry {
    type V = PlanStepView;

    open spec fn view(&self) -> PlanStepView {
        PlanStepView { detail: self.detail@, is_finished: self.is_finished }
    }
}

impl View for RecordEntry {
    type V = RecordView;

    open spec fn view(&self) -> RecordView {
        RecordView {
            uuid: self.uuid@,
            start_date: self.start_date@,
            end_date: self.end_date@,
            title: self.title@,
            plan: plan_view(self.plan@),
            tags: texts_view(self.tags@),
            state: self.state,
        }
    }
}

impl Clone for RecordPlanEntry {
    fn clone(&self) -> (copy: Self)
        ensures
            copy@ == self@,
    {
        RecordPlanEntry { detail: self.detail.clone(), is_finished: self.is_finished }
    }
}

impl Default for RecordPlanEntry {
    fn default() -> (step: Self)
        ensures
            step@ == (PlanStepView { detail: Seq::empty(), is_finished: false }),
    {
        RecordPlanEntry { detail: String::new(), is_finished: false }
    }
}

impl Clone for RecordEntry {
    fn clone(&self) -> (copy: Self)
        ensures
            copy@ == self@,
    {
        let plan = self.plan.clone();
        let tags = self.tags.clone();
        assert(plan_view(plan@) =~= plan_view(self.plan@));
        assert(texts_view(tags@) =~= texts_view(self.tags@));
        RecordEntry {
            uuid: self.uuid.clone(),
            start_date: self.start_date.clone(),
            end_date: self.end_date.clone(),
            title: self.title.clone(),
            plan,
            tags,
            state: self.state,
        }
    }
}

impl RecordEntry {
    /// What a new record holds: nothing, and it has not started.
    pub open spec fn default_view() -> RecordView {
        RecordView {
            uuid: Seq::empty(),
            start_date: Seq::empty(),
            end_date: Seq::empty(),
            title: Seq::empty(),
            plan: Seq::empty(),
            tags: Seq::empty(),
            state: RecordState::NotStarted,
        }
    }
}

impl Default for RecordEntry {
    fn default() -> (record: Self)
        ensures
            record@ == RecordEntry::default_view(),
    {
        let record = RecordEntry {
            uuid: String::new(),
            start_date: String::new(),
            end_date: String::new(),
            title: String::new(),
            plan: Vec::new(),
            tags: Vec::new(),
            state: RecordState::NotStarted,
        };
        assert(plan_view(record.plan@) =~= Seq::empty());
        assert(texts_view(record.tags@) =~= Seq::empty());
        record
    }
}

/// The records among stored rows, in the order of the rows. A row that
/// could not be decoded holds no record and is passed over.
pub open spec fn decoded_rows(rows: Seq<Option<RecordEntry>>) -> Seq<RecordEntry>
    decreases rows.len(),
{
    if rows.len() == 0 {
        Seq::empty()
    } else {
        match rows.last() {
            Some(record) => decoded_rows(rows.drop_last()).push(record),
            None => decoded_rows(rows.drop_last()),
        }
    }
}

/// Keeps the records of stored rows and drops the rows that could not be
/// decoded: one bad row does not fail the load.
pub fn keep_decoded(rows: Vec<Option<RecordEntry>>) -> (records: Vec<RecordEntry>)
    ensures
        records@ == decoded_rows(rows@),
{
    let ghost all = rows@;
    let mut records: Vec<RecordEntry> = Vec::new();
    assert(all.take(0) =~= Seq::empty());
    for row in iter: rows
        invariant
            all == iter.seq(),
            records@ == decoded_rows(all.take(iter.index() as int)),
    {
        proof {
            let longer = all.take(iter.index() + 1);
            assert(longer.drop_last() =~= all.take(iter.index() as int));
            assert(longer.last() == row);
        }
        match row {
            Some(record) => {
                records.push(record);
            },
            None => {},
        }
    }
    assert(all.take(all.len() as int) =~= all);
    records
}

} // verus!
