//! What the output tree holds after records have been written. Writing is
//! left to the caller; this says what it amounts to.

use crate::edge::EdgeView;
use crate::record::{record_of, RecordView};
use vstd::prelude::*;

verus! {

/// The files of the output tree: the contents of each file, by its path.
pub type Files = Map<Seq<char>, Seq<char>>;

/// The files after `record` has been written: the file at its path holds
/// its contents and nothing else, and no other file has changed.
pub open spec fn written(files: Files, record: RecordView) -> Files {
    files.insert(record.path, record.contents)
}

/// The files after `records` have been written one after the other.
pub open spec fn written_all(files: Files, records: Seq<RecordView>) -> Files
    decreases records.len(),
{
    if records.len() == 0 {
        files
    } else {
        written(written_all(files, records.drop_last()), records.last())
    }
}

/// The contents of the last of `records` that goes to `path`, if any does.
pub open spec fn last_for(records: Seq<RecordView>, path: Seq<char>) -> Option<Seq<char>>
    decreases records.len(),
{
    if records.len() == 0 {
        None
    } else if records.last().path == path {
        Some(records.last().contents)
    } else {
        last_for(records.drop_last(), path)
    }
}

/// Writing the same edge twice leaves what writing it once leaves: the
/// second write replaces the file by the same contents, and nothing is
/// appended.
pub proof fn lemma_write_twice(files: Files, edge: EdgeView)
    ensures
        written(written(files, record_of(edge)), record_of(edge)) == written(
            files,
            record_of(edge),
        ),
        written(files, record_of(edge))[record_of(edge).path] == record_of(edge).contents,
{
    let record = record_of(edge);
    assert(written(written(files, record), record) =~= written(files, record));
}

/// After `records` have been written, a path to which one of them goes
/// holds the contents of the last of them that goes there, and every other
/// path holds what it held before.
pub proof fn lemma_written_all(files: Files, records: Seq<RecordView>, path: Seq<char>)
    ensures
        match last_for(records, path) {
            Some(contents) => written_all(files, records).contains_key(path) && written_all(
                files,
                records,
            )[path] == contents,
            None => written_all(files, records).contains_key(path) == files.contains_key(path)
                && written_all(files, records)[path] == files[path],
        },
    decreases records.len(),
{
    if records.len() > 0 {
        lemma_written_all(files, records.drop_last(), path);
    }
}

/// Writing the records of a page again, after all of them have been
/// written, changes nothing: a run that starts over at the same page leaves
/// the files as they were.
pub proof fn lemma_write_page_twice(files: Files, records: Seq<RecordView>)
    ensures
        written_all(written_all(files, records), records) == written_all(files, records),
{
    let once = written_all(files, records);
    let twice = written_all(once, records);
    assert forall|path: Seq<char>| #[trigger]
        twice.dom().contains(path) == once.dom().contains(path) by {
        lemma_written_all(files, records, path);
        lemma_written_all(once, records, path);
    }
    assert forall|path: Seq<char>| twice.dom().contains(path) implies #[trigger] twice[path]
        == once[path] by {
        lemma_written_all(files, records, path);
        lemma_written_all(once, records, path);
    }
    assert(twice.dom() =~= once.dom());
    assert(twice =~= once);
}

} // verus!
