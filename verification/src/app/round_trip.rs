//! What was written is what is read: a file is followed through the records of a write,
//! the entry that the index gets, and the reads that the entry leads to.
use vstd::prelude::*;

use super::append::{
    extent_located, extent_read, hash_goes_on, hash_reply, hash_verdict, read_goes_on, read_reply,
    taken, ExtentState, HashActionModel, HashState, ReadActionModel,
};
use super::data::{
    file_begun, file_ended, record_written, without_digest, written_file, ActiveModel, DataState,
    HashModel,
};
use super::flow::{CommandModel, TapeReply};
use crate::device::tape::ReadRecord;
use crate::hash::sha256_text;
use crate::ltfs::index::{
    file_at, lemma_positions, path_parts, walk, AttributeEntry, Extent, FileModel, IndexModel,
};
use crate::ltfs::index_law::{attributes_storable, directory_storable, file_storable};
use crate::ltfs::path_law::{file_in, replaced_file_is_found, replacing_keeps_other_files};
use crate::ltfs::stored_law::{found_file_is_storable, replacing_keeps_storable};
use crate::ltfs::uid_law::{replacing_keeps_uids, tree_uids};

verus! {

/// The bytes of records, one behind the other.
pub open spec fn joined_records(records: Seq<Vec<u8>>) -> Seq<u8>
    decreases records.len(),
{
    if records.len() == 0 {
        Seq::empty()
    } else {
        joined_records(records.drop_last()) + records.last()@
    }
}

/// The writer once all records have been written.
pub open spec fn all_written(s: DataState, records: Seq<Vec<u8>>) -> DataState
    decreases records.len(),
{
    if records.len() == 0 {
        s
    } else {
        record_written(all_written(s, records.drop_last()), records.last()@)
    }
}

/// The reply that brings a record.
pub open spec fn record_reply(record: Vec<u8>) -> TapeReply {
    TapeReply::Record(ReadRecord::Data(record))
}

/// How many bytes of a record are put out.
pub open spec fn put_out(action: ReadActionModel) -> nat {
    match action {
        ReadActionModel::Output { count, .. } => count,
        _ => 0,
    }
}

/// The reader once it has been given all records, and what it has put out.
pub open spec fn all_read(s: ExtentState, path: Seq<char>, records: Seq<Vec<u8>>) -> (
    ExtentState,
    Seq<u8>,
)
    decreases records.len(),
{
    if records.len() == 0 {
        (s, Seq::empty())
    } else {
        let (before, out) = all_read(s, path, records.drop_last());
        let (after, action) = read_reply(before, path, record_reply(records.last()), false);
        (after, out + records.last()@.subrange(0, put_out(action) as int))
    }
}

/// The check once it has been given all records.
pub open spec fn all_checked(s: HashState, records: Seq<Vec<u8>>) -> (HashState, HashActionModel)
    decreases records.len(),
{
    if records.len() == 0 {
        (s, hash_goes_on(s))
    } else {
        hash_reply(all_checked(s, records.drop_last()).0, record_reply(records.last()))
    }
}

/// No record is empty.
pub open spec fn none_empty(records: Seq<Vec<u8>>) -> bool {
    forall|i: int| 0 <= i < records.len() ==> (#[trigger] records[i])@.len() > 0
}

proof fn lemma_drop_last(records: Seq<Vec<u8>>)
    requires
        none_empty(records),
        records.len() > 0,
    ensures
        none_empty(records.drop_last()),
        joined_records(records).len() > joined_records(records.drop_last()).len(),
{
    assert forall|i: int| 0 <= i < records.drop_last().len() implies (
    #[trigger] records.drop_last()[i])@.len() > 0 by {
        assert(records.drop_last()[i] == records[i]);
    }
    assert(records[records.len() - 1]@.len() > 0);
}

proof fn lemma_all_written(s: DataState, records: Seq<Vec<u8>>)
    requires
        s.active is Some,
        s.active->0.bytes_written == 0,
        s.active->0.bytes == Seq::<u8>::empty(),
        joined_records(records).len() <= u64::MAX,
        s.position + records.len() <= u64::MAX,
    ensures
        ({
            let t = all_written(s, records);
            &&& t.position == s.position + records.len()
            &&& t.index == s.index
            &&& t.hashes == s.hashes
            &&& t.data_partition == s.data_partition
            &&& t.active == Some(
                ActiveModel {
                    bytes_written: joined_records(records).len() as u64,
                    bytes: joined_records(records),
                    ..s.active->0
                },
            )
        }),
    decreases records.len(),
{
    if records.len() > 0 {
        assert(joined_records(records).len() == joined_records(records.drop_last()).len()
            + records.last()@.len());
        lemma_all_written(s, records.drop_last());
    }
}

/// A reader in its only extent, of which it has read `n` bytes.
pub open spec fn inside(s: ExtentState, extents: Seq<Extent>, n: nat) -> bool {
    &&& s.extents == extents
    &&& extents.len() == 1
    &&& s.at == 0
    &&& s.located
    &&& s.bytes == n
    &&& s.remaining > 0
    &&& s.remaining + n == extents[0].byte_count
}

/// A reader behind its only extent.
pub open spec fn behind(s: ExtentState, extents: Seq<Extent>) -> bool {
    &&& s.extents == extents
    &&& extents.len() == 1
    &&& s.at == 1
    &&& s.bytes == extents[0].byte_count
}

proof fn lemma_one_read(s: ExtentState, extents: Seq<Extent>, n: nat, len: nat)
    requires
        inside(s, extents, n),
        n + len <= extents[0].byte_count,
    ensures
        taken(s, len) == len,
        n + len < extents[0].byte_count ==> inside(extent_read(s, len), extents, n + len),
        n + len == extents[0].byte_count ==> behind(extent_read(s, len), extents),
{
}

proof fn lemma_all_read(s: ExtentState, extents: Seq<Extent>, path: Seq<char>, records: Seq<Vec<u8>>)
    requires
        inside(s, extents, 0),
        none_empty(records),
        joined_records(records).len() <= extents[0].byte_count,
    ensures
        all_read(s, path, records).1 == joined_records(records),
        joined_records(records).len() < extents[0].byte_count ==> inside(
            all_read(s, path, records).0,
            extents,
            joined_records(records).len(),
        ),
        joined_records(records).len() == extents[0].byte_count ==> behind(
            all_read(s, path, records).0,
            extents,
        ),
    decreases records.len(),
{
    if records.len() > 0 {
        let rest = records.drop_last();
        lemma_drop_last(records);
        lemma_all_read(s, extents, path, rest);
        let before = all_read(s, path, rest).0;
        lemma_one_read(before, extents, joined_records(rest).len(), records.last()@.len());
        assert(records.last()@.subrange(0, records.last()@.len() as int) =~= records.last()@);
    }
}

proof fn lemma_all_checked(s: HashState, extents: Seq<Extent>, records: Seq<Vec<u8>>)
    requires
        inside(s.reader, extents, 0),
        s.bytes == Seq::<u8>::empty(),
        none_empty(records),
        joined_records(records).len() <= extents[0].byte_count,
    ensures
        ({
            let t = all_checked(s, records).0;
            &&& t.bytes == joined_records(records)
            &&& t.path == s.path
            &&& t.expected == s.expected
            &&& t.length == s.length
            &&& all_checked(s, records).1 == hash_goes_on(t)
            &&& joined_records(records).len() < extents[0].byte_count ==> inside(
                t.reader,
                extents,
                joined_records(records).len(),
            )
            &&& joined_records(records).len() == extents[0].byte_count ==> behind(
                t.reader,
                extents,
            )
        }),
    decreases records.len(),
{
    if records.len() > 0 {
        let rest = records.drop_last();
        lemma_drop_last(records);
        lemma_all_checked(s, extents, rest);
        let before = all_checked(s, rest).0;
        lemma_one_read(before.reader, extents, joined_records(rest).len(), records.last()@.len());
        assert(records.last()@.subrange(0, records.last()@.len() as int) =~= records.last()@);
    }
}

/// A reader that has not begun.
pub open spec fn fresh(extents: Seq<Extent>) -> ExtentState {
    ExtentState { extents, at: 0, located: false, remaining: 0, logical_block: 0, bytes: 0 }
}

/// The writer behind a file, all of whose records were taken by the drive.
pub open spec fn file_written(
    s: DataState,
    target: Seq<char>,
    description: Seq<char>,
    records: Seq<Vec<u8>>,
) -> Result<DataState, Seq<char>> {
    let size = joined_records(records).len() as u64;
    file_ended(all_written(file_begun(s, target, description, size), records), size)
}

/// A file that has ended is found in the index with what was written of it: its length and
/// its digest, in one extent that begins where it was begun.
pub proof fn ended_file_is_indexed(s: DataState, actual_size: u64)
    requires
        file_ended(s, actual_size) is Ok,
    ensures
        ({
            let a = s.active->0;
            let next = file_ended(s, actual_size)->Ok_0;
            &&& file_at(s.index.root, a.target) is Some
            &&& file_at(next.index.root, a.target) == Some(
                written_file(
                    file_at(s.index.root, a.target)->0,
                    s.data_partition,
                    a.start_block,
                    a.bytes_written,
                    sha256_text(a.bytes),
                ),
            )
        }),
{
    let a = s.active->0;
    let parts = path_parts(a.target);
    let entry = file_at(s.index.root, a.target)->0;
    let at = walk(s.index.root, parts.drop_last())->0;
    lemma_positions(at.entries, parts.last());
    let written = written_file(
        entry,
        s.data_partition,
        a.start_block,
        a.bytes_written,
        sha256_text(a.bytes),
    );
    assert(file_in(s.index.root, parts.drop_last(), parts.last()) == Some(entry));
    replaced_file_is_found(s.index.root, parts.drop_last(), parts.last(), written);
}

/// A file that has ended keeps its number, and so does every other entry.
pub proof fn ended_file_keeps_uids(s: DataState, actual_size: u64)
    requires
        file_ended(s, actual_size) is Ok,
    ensures
        tree_uids(file_ended(s, actual_size)->Ok_0.index.root) == tree_uids(s.index.root),
{
    let a = s.active->0;
    let parts = path_parts(a.target);
    let entry = file_at(s.index.root, a.target)->0;
    let written = written_file(
        entry,
        s.data_partition,
        a.start_block,
        a.bytes_written,
        sha256_text(a.bytes),
    );
    assert(file_in(s.index.root, parts.drop_last(), parts.last()) == Some(entry));
    replacing_keeps_uids(s.index.root, parts.drop_last(), parts.last(), written);
}

/// A file that has ended leaves every other file of the index as it was.
pub proof fn ended_file_keeps_other_files(s: DataState, actual_size: u64, other: Seq<char>)
    requires
        file_ended(s, actual_size) is Ok,
        path_parts(other) != path_parts(s.active->0.target),
    ensures
        file_at(file_ended(s, actual_size)->Ok_0.index.root, other) == file_at(
            s.index.root,
            other,
        ),
{
    let a = s.active->0;
    let parts = path_parts(a.target);
    let others = path_parts(other);
    let entry = file_at(s.index.root, a.target)->0;
    let at = walk(s.index.root, parts.drop_last())->0;
    lemma_positions(at.entries, parts.last());
    let written = written_file(
        entry,
        s.data_partition,
        a.start_block,
        a.bytes_written,
        sha256_text(a.bytes),
    );
    assert(file_in(s.index.root, parts.drop_last(), parts.last()) == Some(entry));
    if others.len() > 0 {
        if parts.drop_last() == others.drop_last() && parts.last() == others.last() {
            assert(parts =~= others) by {
                assert(parts =~= parts.drop_last().push(parts.last()));
                assert(others =~= others.drop_last().push(others.last()));
            }
        }
        replacing_keeps_other_files(
            s.index.root,
            parts.drop_last(),
            parts.last(),
            written,
            others.drop_last(),
            others.last(),
        );
    }
}

/// A planned file whose records the drive has taken ends well, and is found in the index
/// with their length and their digest, in one extent that begins at its first record; the
/// next file begins behind its last one.
pub proof fn written_file_is_indexed(
    s: DataState,
    target: Seq<char>,
    description: Seq<char>,
    records: Seq<Vec<u8>>,
)
    requires
        file_at(s.index.root, target) is Some,
        joined_records(records).len() <= u64::MAX,
        s.position + records.len() <= u64::MAX,
    ensures
        file_written(s, target, description, records) is Ok,
        ({
            let done = file_written(s, target, description, records)->Ok_0;
            let bytes = joined_records(records);
            &&& done.active is None
            &&& done.position == s.position + records.len()
            &&& done.hashes == s.hashes.push(
                HashModel { path: target, sha256: sha256_text(bytes) },
            )
            &&& file_at(done.index.root, target) == Some(
                written_file(
                    file_at(s.index.root, target)->0,
                    s.data_partition,
                    s.position,
                    bytes.len() as u64,
                    sha256_text(bytes),
                ),
            )
        }),
{
    let size = joined_records(records).len() as u64;
    let begun = file_begun(s, target, description, size);
    lemma_all_written(begun, records);
    ended_file_is_indexed(all_written(begun, records), size);
}

/// A file that has been written leaves every other file of the index as it was.
pub proof fn writing_keeps_other_files(
    s: DataState,
    target: Seq<char>,
    description: Seq<char>,
    records: Seq<Vec<u8>>,
    other: Seq<char>,
)
    requires
        file_at(s.index.root, target) is Some,
        joined_records(records).len() <= u64::MAX,
        s.position + records.len() <= u64::MAX,
        path_parts(other) != path_parts(target),
    ensures
        file_written(s, target, description, records) is Ok,
        file_at(file_written(s, target, description, records)->Ok_0.index.root, other) == file_at(
            s.index.root,
            other,
        ),
{
    let size = joined_records(records).len() as u64;
    let begun = file_begun(s, target, description, size);
    lemma_all_written(begun, records);
    ended_file_keeps_other_files(all_written(begun, records), size, other);
}

proof fn lemma_digest_storable(list: Seq<AttributeEntry>)
    requires
        attributes_storable(list),
    ensures
        attributes_storable(without_digest(list)),
    decreases list.len(),
{
    if list.len() > 0 {
        let rest = list.drop_last();
        assert forall|i: int| 0 <= i < rest.len() implies match (#[trigger] rest[i]).value_type {
            Some(t) => crate::ltfs::xml::plain_value(t),
            None => true,
        } by {
            assert(rest[i] == list[i]);
        }
        lemma_digest_storable(rest);
        assert(list[list.len() - 1] == list.last());
    }
}

/// The index of a volume stays one that its document gives back when a file is written.
pub proof fn writing_keeps_storable(
    s: DataState,
    target: Seq<char>,
    description: Seq<char>,
    records: Seq<Vec<u8>>,
)
    requires
        file_at(s.index.root, target) is Some,
        joined_records(records).len() <= u64::MAX,
        s.position + records.len() <= u64::MAX,
        s.data_partition <= 1,
        directory_storable(s.index.root),
    ensures
        ({
            let done = file_written(s, target, description, records)->Ok_0;
            &&& directory_storable(done.index.root)
            &&& done.index == (IndexModel { root: done.index.root, ..s.index })
            &&& done.index.root.name == s.index.root.name
        }),
{
    written_file_is_indexed(s, target, description, records);
    let size = joined_records(records).len() as u64;
    lemma_all_written(file_begun(s, target, description, size), records);
    let parts = path_parts(target);
    let entry = file_at(s.index.root, target)->0;
    let written = written_file(
        entry,
        s.data_partition,
        s.position,
        size,
        sha256_text(joined_records(records)),
    );
    assert(file_in(s.index.root, parts.drop_last(), parts.last()) == Some(entry));
    found_file_is_storable(s.index.root, parts.drop_last(), parts.last());
    lemma_digest_storable(entry.extended_attributes);
    assert(file_storable(written));
    replacing_keeps_storable(s.index.root, parts.drop_last(), parts.last(), written);
}

/// A file is read back as it was written: a read of its entry goes to the block of its
/// first record, puts out the bytes of its records and nothing else, and is then finished.
pub proof fn written_file_reads_back(
    file: FileModel,
    partition: u8,
    start_block: u64,
    path: Seq<char>,
    records: Seq<Vec<u8>>,
)
    requires
        records.len() > 0,
        none_empty(records),
        joined_records(records).len() <= u64::MAX,
    ensures
        ({
            let bytes = joined_records(records);
            let size = bytes.len() as u64;
            let entry = written_file(file, partition, start_block, size, sha256_text(bytes));
            let start = fresh(entry.extents);
            let (located, first) = read_reply(start, path, TapeReply::Done, false);
            let (last, out) = all_read(located, path, records);
            &&& entry.length == size
            &&& read_goes_on(start, false) == ReadActionModel::Command(
                CommandModel::Locate { partition, block: start_block },
            )
            &&& first == ReadActionModel::Command(CommandModel::ReadRecord)
            &&& out == bytes
            &&& read_goes_on(last, false) == ReadActionModel::Finished(size)
        }),
{
    lemma_drop_last(records);
    let bytes = joined_records(records);
    let size = bytes.len() as u64;
    let entry = written_file(file, partition, start_block, size, sha256_text(bytes));
    assert(bytes.len() > 0);
    let located = extent_located(fresh(entry.extents));
    assert(inside(located, entry.extents, 0));
    lemma_all_read(located, entry.extents, path, records);
}

/// A file whose records come back as they were written passes the check by its digest.
pub proof fn unchanged_file_passes_check(
    file: FileModel,
    partition: u8,
    start_block: u64,
    path: Seq<char>,
    records: Seq<Vec<u8>>,
)
    requires
        records.len() > 0,
        none_empty(records),
        joined_records(records).len() <= u64::MAX,
    ensures
        ({
            let bytes = joined_records(records);
            let size = bytes.len() as u64;
            let entry = written_file(file, partition, start_block, size, sha256_text(bytes));
            let start = HashState {
                path,
                expected: sha256_text(bytes),
                length: entry.length,
                reader: fresh(entry.extents),
                bytes: Seq::empty(),
            };
            let located = hash_reply(start, TapeReply::Done).0;
            all_checked(located, records).1 == HashActionModel::Finished(Ok(()))
        }),
{
    lemma_drop_last(records);
    let bytes = joined_records(records);
    let size = bytes.len() as u64;
    let entry = written_file(file, partition, start_block, size, sha256_text(bytes));
    let start = HashState {
        path,
        expected: sha256_text(bytes),
        length: entry.length,
        reader: fresh(entry.extents),
        bytes: Seq::empty(),
    };
    let located = hash_reply(start, TapeReply::Done).0;
    assert(inside(located.reader, entry.extents, 0));
    lemma_all_checked(located, entry.extents, records);
    let last = all_checked(located, records).0;
    assert(hash_verdict(last) == Ok::<(), Seq<char>>(()));
}

/// A check that passes has read as many bytes as the index says, and their digest is the
/// one that was recorded.
pub proof fn passed_check_has_the_digest(s: HashState, records: Seq<Vec<u8>>)
    requires
        all_checked(s, records).1 == HashActionModel::Finished(Ok(())),
        records.len() > 0,
        all_checked(s, records.drop_last()).0.reader.located,
    ensures
        sha256_text(all_checked(s, records).0.bytes) == all_checked(s, records).0.expected,
        all_checked(s, records).0.reader.bytes == all_checked(s, records).0.length,
{
}

/// An empty file is read without a record.
pub proof fn empty_file_reads_back(
    file: FileModel,
    partition: u8,
    start_block: u64,
    sha256: Seq<char>,
)
    ensures
        ({
            let entry = written_file(file, partition, start_block, 0, sha256);
            entry.length == 0 && read_goes_on(fresh(entry.extents), false)
                == ReadActionModel::Finished(0)
        }),
{
}

} // verus!
