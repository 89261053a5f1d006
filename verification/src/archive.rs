//! The archive: records set aside, in the order they were archived. An
//! archived record has the shape of an active one and keeps the state it
//! had; the clock does not touch it.

use crate::def::{decoded_rows, keep_decoded, records_view, RecordEntry};
use crate::record::{new_record, refreshed, with_uuid};
use vstd::prelude::*;

verus! {

/// The archive as loaded from its stored rows: the records in the order of
/// the rows, with their states as stored. A row that could not be decoded is
/// `None` and dropped.
pub fn init(rows: Vec<Option<RecordEntry>>) -> (archive: Vec<RecordEntry>)
    ensures
        archive@ == decoded_rows(rows@),
{
    keep_decoded(rows)
}

/// Puts a record at the end of the archive.
pub fn add_archive(archive: &mut Vec<RecordEntry>, entry: RecordEntry)
    ensures
        final(archive)@ == old(archive)@.push(entry),
{
    archive.push(entry);
}

/// Takes the record at `index` out of the archive and hands it over;
/// `None`, and no change, where the archive has no such position.
pub fn remove_archive(archive: &mut Vec<RecordEntry>, index: usize) -> (removed: Option<RecordEntry>)
    ensures
        match removed {
            Some(entry) => index < old(archive).len() && entry == old(archive)[index as int]
                && final(archive)@ == old(archive)@.remove(index as int),
            None => index >= old(archive).len() && final(archive)@ == old(archive)@,
        },
{
    if index < archive.len() {
        Some(archive.remove(index))
    } else {
        None
    }
}

/// Brings the archived record at `index` back: it leaves the archive and
/// enters the list of records at the head, as a new record under the
/// identifier `uuid` and with the state that follows from its dates at the
/// instant `now`. Says whether the archive had such a position.
pub fn recover_archive(
    archive: &mut Vec<RecordEntry>,
    records: &mut Vec<RecordEntry>,
    index: usize,
    uuid: String,
    now: i64,
) -> (done: bool)
    ensures
        done == (index < old(archive).len()),
        done ==> final(archive)@ == old(archive)@.remove(index as int),
        done ==> records_view(final(records)@) == records_view(old(records)@).insert(
            0,
            refreshed(with_uuid(old(archive)[index as int]@, uuid@), now as int),
        ),
        !done ==> final(archive)@ == old(archive)@ && final(records)@ == old(records)@,
{
    match remove_archive(archive, index) {
        Some(entry) => {
            new_record(records, entry, uuid, now);
            true
        },
        None => false,
    }
}

} // verus!
