//! Searching the list of records by title.
//!
//! The list on display is `live`. While a search is going on, `snapshot`
//! keeps the list as it was before the search began; outside a search it is
//! empty. That `snapshot` is empty is the only sign that no search is going
//! on.

use crate::def::{records_view, RecordEntry, RecordView};
use crate::text::{contains, is_substring};
use vstd::prelude::*;

verus! {

/// The list on display and, during a search, the list behind it.
#[derive(Debug)]
pub struct SearchCache {
    pub live: Vec<RecordEntry>,
    pub snapshot: Vec<RecordEntry>,
}

/// What the two lists hold.
pub struct SearchView {
    pub live: Seq<RecordView>,
    pub snapshot: Seq<RecordView>,
}

impl View for SearchCache {
    type V = SearchView;

    open spec fn view(&self) -> SearchView {
        SearchView { live: records_view(self.live@), snapshot: records_view(self.snapshot@) }
    }
}

/// The records whose title contains the keyword, in their order.
pub open spec fn matching(records: Seq<RecordView>, keyword: Seq<char>) -> Seq<RecordView> {
    records.filter(|record: RecordView| is_substring(keyword, record.title))
}

/// The list that a search starts from: the snapshot if there is one, else
/// the list on display.
pub open spec fn search_base(cache: SearchView) -> Seq<RecordView> {
    if cache.snapshot.len() == 0 {
        cache.live
    } else {
        cache.snapshot
    }
}

/// The two lists after a keyword has been entered. An empty keyword ends
/// the search: the snapshot goes back on display and is dropped. Any other
/// keyword shows the matching records of the list the search started from.
pub open spec fn filtered(cache: SearchView, keyword: Seq<char>) -> SearchView {
    if keyword.len() == 0 {
        SearchView { live: cache.snapshot, snapshot: Seq::empty() }
    } else {
        SearchView { live: matching(search_base(cache), keyword), snapshot: search_base(cache) }
    }
}

/// Ending a search brings back the list the search started from, in its
/// order, and leaves no search going on. For a list that was not being
/// searched, that is the list itself.
pub proof fn lemma_search_round_trip(cache: SearchView, keyword: Seq<char>)
    requires
        keyword.len() > 0,
    ensures
        filtered(filtered(cache, keyword), Seq::empty()).live == search_base(cache),
        filtered(filtered(cache, keyword), Seq::empty()).snapshot.len() == 0,
        cache.snapshot.len() == 0 ==> filtered(filtered(cache, keyword), Seq::empty()).live
            == cache.live,
{
}

/// A further keyword searches the list the search started from, not the
/// matches of the keyword before.
pub proof fn lemma_search_starts_from_snapshot(cache: SearchView, first: Seq<char>, second: Seq<char>)
    requires
        first.len() > 0,
        second.len() > 0,
    ensures
        filtered(filtered(cache, first), second).live == matching(search_base(cache), second),
{
    let base = search_base(cache);
    if base.len() == 0 {
        assert(matching(base, first) =~= base) by {
            reveal(Seq::filter);
        }
    }
}

/// Copies of the records whose title contains the keyword, in their order.
fn matching_records(records: &Vec<RecordEntry>, keyword: &str) -> (kept: Vec<RecordEntry>)
    ensures
        records_view(kept@) == matching(records_view(records@), keyword@),
{
    let ghost all = records_view(records@);
    let ghost wanted = |record: RecordView| is_substring(keyword@, record.title);
    let mut kept: Vec<RecordEntry> = Vec::new();
    let mut index: usize = 0;
    assert(all.take(0).filter(wanted) =~= records_view(kept@)) by {
        reveal(Seq::filter);
        assert(all.take(0) =~= Seq::empty());
    }
    while index < records.len()
        invariant
            index <= records.len(),
            all == records_view(records@),
            wanted == |record: RecordView| is_substring(keyword@, record.title),
            records_view(kept@) == all.take(index as int).filter(wanted),
        decreases records.len() - index,
    {
        proof {
            let before = all.take(index as int);
            before.lemma_filter_push(all[index as int], wanted);
            assert(all.take(index + 1) =~= before.push(all[index as int]));
        }
        if contains(records[index].title.as_str(), keyword) {
            let ghost shown = records_view(kept@);
            kept.push(records[index].clone());
            assert(records_view(kept@) =~= shown.push(all[index as int]));
        }
        index = index + 1;
    }
    assert(all.take(records.len() as int) =~= all);
    kept
}

impl SearchCache {
    /// A list on display with no search going on.
    pub fn new(live: Vec<RecordEntry>) -> (cache: SearchCache)
        ensures
            cache.live@ == live@,
            cache.snapshot@.len() == 0,
    {
        SearchCache { live, snapshot: Vec::new() }
    }

    /// A search is going on.
    pub open spec fn is_searching(&self) -> bool {
        self.snapshot@.len() > 0
    }

    /// Enters a search keyword; see [`filtered`].
    ///
    /// The first keyword of a search puts the list on display aside as the
    /// snapshot. Every keyword shows the records of the snapshot whose title
    /// contains it. The empty keyword ends the search and puts the snapshot
    /// back on display.
    pub fn apply_filter(&mut self, keyword: &str)
        ensures
            final(self)@ == filtered(old(self)@, keyword@),
    {
        if keyword.is_empty() {
            std::mem::swap(&mut self.live, &mut self.snapshot);
            self.snapshot.clear();
            assert(records_view(self.snapshot@) =~= Seq::empty());
        } else {
            if self.snapshot.len() == 0 {
                std::mem::swap(&mut self.live, &mut self.snapshot);
            }
            assert(records_view(self.snapshot@) == search_base(old(self)@));
            self.live = matching_records(&self.snapshot, keyword);
        }
    }
}

} // verus!
