//! What stands on a partition is found: the newest index, whatever records it was cut
//! into, every group of records, and the label.
use vstd::prelude::*;
use vstd::string::*;
use vstd::utf8::*;

use super::commit::{
    chunks_join, chunks_of, index_copy_steps, record_steps, CommitStepModel, CommitWorkModel,
};
use super::flow::{CommandModel, TapeReply};
use super::format_law::ansi_label_reads_back;
use super::probe::{
    begins_like_xml, candidate_spec, group_index, latest_begin, latest_closed, latest_next,
    probe_begin, probe_next, read_at_begin, read_at_next, scan_begin, scan_next, CandidateRecord,
    LatestActionModel, LatestState, ProbeActionModel, ProbeState, ReadAtActionModel, ReadAtState,
    ScanActionModel, ScanState, MAX_INDEX_BYTES,
};
use super::round_trip::{joined_records, record_reply};
use crate::device::tape::ReadRecord;
use crate::ltfs::document::{lemma_rendered_concat, lemma_rendered_one, line_break};
use crate::ltfs::index::IndexModel;
use crate::ltfs::index_xml::{
    element_events, index_element, index_events, index_from, index_xml, IndexFault,
};
use crate::ltfs::label::{
    ansi_label_spec, ansi_record, is_barcode, label_from, LabelFault, LabelModel,
};
use crate::ltfs::scan::{grouping, is_index, last_index, Grouping, ScanRecord};
use crate::ltfs::stored_law::{index_writable, recounted, stored_index_reads_back};
use crate::ltfs::xml::{read_plainly, xml_events, XmlEvent};
use crate::text::without_leading;

verus! {

// ---------------------------------------------------------------------------
// What is read of a partition
// ---------------------------------------------------------------------------

/// What is read of a group of records with the file mark behind it.
pub open spec fn group_told(records: Seq<Vec<u8>>) -> Seq<TapeReply> {
    records.map_values(|r: Vec<u8>| record_reply(r)).push(TapeReply::Record(ReadRecord::Filemark))
}

/// What is read of groups, one behind the other.
pub open spec fn groups_told(groups: Seq<Seq<Vec<u8>>>) -> Seq<TapeReply>
    decreases groups.len(),
{
    if groups.len() == 0 {
        Seq::empty()
    } else {
        groups_told(groups.drop_last()) + group_told(groups.last())
    }
}

/// How many blocks groups take, with the file marks behind them.
pub open spec fn blocks_of(groups: Seq<Seq<Vec<u8>>>) -> nat
    decreases groups.len(),
{
    if groups.len() == 0 {
        0
    } else {
        blocks_of(groups.drop_last()) + groups.last().len() + 1
    }
}

/// The records of a group hold the document of an index, cut anywhere.
pub open spec fn holds_index(records: Seq<Vec<u8>>, text: Seq<char>, index: IndexModel) -> bool {
    &&& joined_records(records).len() > 0
    &&& joined_records(records) == encode_utf8(text)
    &&& index_from(xml_events(text)) == Ok::<IndexModel, IndexFault>(index)
}

/// The records of a group hold no index.
pub open spec fn holds_none(records: Seq<Vec<u8>>) -> bool {
    forall|text: Seq<char>|
        joined_records(records) == encode_utf8(text) && joined_records(records).len() > 0
            ==> !((#[trigger] index_from(xml_events(text))) is Ok)
}

proof fn lemma_more_blocks(groups: Seq<Seq<Vec<u8>>>, k: int)
    requires
        0 <= k <= groups.len(),
    ensures
        blocks_of(groups.take(k)) <= blocks_of(groups),
    decreases groups.len() - k,
{
    if k < groups.len() {
        lemma_more_blocks(groups, k + 1);
        assert(groups.take(k + 1).drop_last() =~= groups.take(k));
    } else {
        assert(groups.take(k) =~= groups);
    }
}

// ---------------------------------------------------------------------------
// The newest index
// ---------------------------------------------------------------------------

/// A scan for the newest index once it has been told so much; it starts at block 4.
pub open spec fn latest_run(partition: u8, told: Seq<TapeReply>) -> (LatestState, LatestActionModel)
    decreases told.len(),
{
    if told.len() == 0 {
        latest_begin(partition)
    } else {
        latest_next(latest_run(partition, told.drop_last()).0, told.last())
    }
}

/// What a scan is told of a partition: the tape has been located, the groups are read, and
/// then comes the end of the data.
pub open spec fn partition_told(groups: Seq<Seq<Vec<u8>>>) -> Seq<TapeReply> {
    (seq![TapeReply::Done] + groups_told(groups)).push(TapeReply::Record(ReadRecord::Eod))
}

proof fn lemma_latest_records(
    partition: u8,
    told: Seq<TapeReply>,
    records: Seq<Vec<u8>>,
)
    requires
        latest_run(partition, told).0.located,
        latest_run(partition, told).0.records == Seq::<u8>::empty(),
        latest_run(partition, told).0.file_records == 0,
        records.len() <= u64::MAX,
    ensures
        ({
            let s = latest_run(partition, told).0;
            let t = latest_run(
                partition,
                told + records.map_values(|r: Vec<u8>| record_reply(r)),
            ).0;
            t == (LatestState {
                records: joined_records(records),
                file_records: records.len() as u64,
                ..s
            })
        }),
    decreases records.len(),
{
    let f = |r: Vec<u8>| record_reply(r);
    let all = told + records.map_values(f);
    if records.len() == 0 {
        assert(all =~= told);
    } else {
        let rest = records.drop_last();
        lemma_latest_records(partition, told, rest);
        assert(all.drop_last() =~= told + rest.map_values(f));
        assert(all.last() == record_reply(records.last()));
    }
}

proof fn lemma_latest_groups(partition: u8, groups: Seq<Seq<Vec<u8>>>)
    requires
        4 + blocks_of(groups) <= u64::MAX,
    ensures
        ({
            let s = latest_run(partition, seq![TapeReply::Done] + groups_told(groups)).0;
            &&& s.located
            &&& s.records == Seq::<u8>::empty()
            &&& s.file_records == 0
            &&& s.file_start == 4 + blocks_of(groups)
        }),
        groups.len() > 0 ==> ({
            let s = latest_run(
                partition,
                seq![TapeReply::Done] + groups_told(groups.drop_last()),
            ).0;
            let t = latest_run(partition, seq![TapeReply::Done] + groups_told(groups)).0;
            let found = group_index(joined_records(groups.last()));
            &&& t.latest == if found is Some {
                found
            } else {
                s.latest
            }
            &&& t.last_start == if found is Some {
                Some((4 + blocks_of(groups.drop_last())) as u64)
            } else {
                s.last_start
            }
        }),
    decreases groups.len(),
{
    let start = seq![TapeReply::Done];
    assert(start.drop_last() =~= Seq::<TapeReply>::empty());
    if groups.len() == 0 {
        assert(start + groups_told(groups) =~= start);
        let begun = latest_run(partition, start.drop_last());
        assert(begun.0.file_start == 4);
        assert(latest_run(partition, start) == latest_next(begun.0, TapeReply::Done));
    } else {
        let before = start + groups_told(groups.drop_last());
        let records = groups.last();
        lemma_latest_groups(partition, groups.drop_last());
        lemma_latest_records(partition, before, records);
        let all = start + groups_told(groups);
        let read = before + records.map_values(|r: Vec<u8>| record_reply(r));
        assert(all.drop_last() =~= read);
        assert(all.last() == TapeReply::Record(ReadRecord::Filemark));
        assert(latest_run(partition, all).0 == latest_closed(latest_run(partition, read).0));
        assert(latest_run(partition, read).0.file_records == records.len());
    }
}

proof fn lemma_group_index(records: Seq<Vec<u8>>)
    ensures
        forall|text: Seq<char>, index: IndexModel| #[trigger]
            holds_index(records, text, index) ==> group_index(joined_records(records)) == Some(
                index,
            ),
        holds_none(records) ==> group_index(joined_records(records)) is None,
{
    let bytes = joined_records(records);
    assert forall|text: Seq<char>, index: IndexModel| #[trigger]
        holds_index(records, text, index) implies group_index(bytes) == Some(index) by {
        encode_utf8_valid_utf8(text);
        encode_utf8_decode_utf8(text);
    }
    if holds_none(records) && group_index(bytes) is Some {
        let text = decode_utf8(bytes);
        decode_utf8_encode_utf8(bytes);
        assert(index_from(xml_events(text)) is Ok);
    }
}

proof fn lemma_latest_stays(partition: u8, groups: Seq<Seq<Vec<u8>>>, k: int)
    requires
        4 + blocks_of(groups) <= u64::MAX,
        0 <= k <= groups.len(),
        forall|j: int| k <= j < groups.len() ==> holds_none(#[trigger] groups[j]),
    ensures
        ({
            let s = latest_run(partition, seq![TapeReply::Done] + groups_told(groups.take(k))).0;
            let t = latest_run(partition, seq![TapeReply::Done] + groups_told(groups)).0;
            t.latest == s.latest && t.last_start == s.last_start
        }),
    decreases groups.len(),
{
    if k == groups.len() {
        assert(groups.take(k) =~= groups);
    } else {
        let rest = groups.drop_last();
        assert forall|j: int| k <= j < rest.len() implies holds_none(#[trigger] rest[j]) by {
            assert(rest[j] == groups[j]);
        }
        lemma_latest_stays(partition, rest, k);
        assert(rest.take(k) =~= groups.take(k));
        lemma_latest_groups(partition, groups);
        assert(holds_none(groups[groups.len() - 1]));
        lemma_group_index(groups.last());
    }
}

/// The newest index of a partition is found, whatever records its document was cut into and
/// whatever stands before it: a scan that is told of the groups of a partition and then of
/// the end of the data gives the last index that stands there, and the block in front of
/// its first record.
pub proof fn newest_index_is_found(partition: u8, groups: Seq<Seq<Vec<u8>>>, k: int)
    requires
        4 + blocks_of(groups) <= u64::MAX,
        0 <= k < groups.len(),
    ensures
        (forall|j: int| k < j < groups.len() ==> holds_none(#[trigger] groups[j])) ==> forall|
            text: Seq<char>,
            index: IndexModel,
        | #[trigger]
            holds_index(groups[k], text, index) ==> latest_run(partition, partition_told(groups)).1
                == LatestActionModel::Finished(
                Some(index),
                Some((4 + blocks_of(groups.take(k)) - 1) as u64),
            ),
{
    if forall|j: int| k < j < groups.len() ==> holds_none(#[trigger] groups[j]) {
        let first = groups.take(k + 1);
        lemma_more_blocks(groups, k + 1);
        lemma_latest_stays(partition, groups, k + 1);
        lemma_latest_groups(partition, first);
        assert(first.drop_last() =~= groups.take(k));
        assert(first.last() == groups[k]);
        lemma_group_index(groups[k]);
        let all = partition_told(groups);
        lemma_latest_groups(partition, groups);
        assert(all.drop_last() =~= seq![TapeReply::Done] + groups_told(groups));
    }
}

/// A partition that holds no index has none: a scan finds neither an index nor a place.
pub proof fn no_index_is_made_up(partition: u8, groups: Seq<Seq<Vec<u8>>>)
    requires
        4 + blocks_of(groups) <= u64::MAX,
    ensures
        (forall|j: int| 0 <= j < groups.len() ==> holds_none(#[trigger] groups[j])) ==> latest_run(
            partition,
            partition_told(groups),
        ).1 == LatestActionModel::Finished(None, None),
{
    if forall|j: int| 0 <= j < groups.len() ==> holds_none(#[trigger] groups[j]) {
        lemma_latest_stays(partition, groups, 0);
        let none = groups.take(0);
        assert(none =~= Seq::<Seq<Vec<u8>>>::empty());
        let start = seq![TapeReply::Done];
        assert(start + groups_told(none) =~= start);
        assert(start.drop_last() =~= Seq::<TapeReply>::empty());
        let begun = latest_run(partition, start.drop_last());
        assert(latest_run(partition, start) == latest_next(begun.0, TapeReply::Done));
        let all = partition_told(groups);
        lemma_latest_groups(partition, groups);
        assert(all.drop_last() =~= start + groups_told(groups));
    }
}

/// The records that steps of a commit write.
pub open spec fn records_of(steps: Seq<CommitStepModel>) -> Seq<Seq<u8>>
    decreases steps.len(),
{
    if steps.len() == 0 {
        Seq::empty()
    } else {
        match steps.last().work {
            CommitWorkModel::Command(CommandModel::WriteRecord { data }) => records_of(
                steps.drop_last(),
            ).push(data),
            _ => records_of(steps.drop_last()),
        }
    }
}

proof fn lemma_records_of(before: Seq<CommitStepModel>, chunks: Seq<Seq<u8>>)
    ensures
        records_of(before + record_steps(chunks)) == records_of(before) + chunks,
    decreases chunks.len(),
{
    let all = before + record_steps(chunks);
    if chunks.len() == 0 {
        assert(all =~= before);
        assert(records_of(before) + chunks =~= records_of(before));
    } else {
        lemma_records_of(before, chunks.drop_last());
        assert(all.drop_last() =~= before + record_steps(chunks.drop_last()));
        assert(records_of(before) + chunks =~= (records_of(before) + chunks.drop_last()).push(
            chunks.last(),
        ));
    }
}

proof fn lemma_copy_records(copy: IndexModel, write_block: u64, blocksize: nat)
    ensures
        records_of(index_copy_steps(copy, write_block, blocksize)) == chunks_of(
            encode_utf8(index_xml(copy)),
            blocksize,
        ),
{
    let chunks = chunks_of(encode_utf8(index_xml(copy)), blocksize);
    let all = index_copy_steps(copy, write_block, blocksize);
    let head = all.take(4);
    lemma_records_of(head, chunks);
    assert(all.drop_last() =~= head + record_steps(chunks));
    reveal_with_fuel(records_of, 6);
    assert(head.drop_last().drop_last().drop_last().drop_last().len() == 0);
    assert(records_of(head) =~= Seq::<Seq<u8>>::empty());
    assert(records_of(head) + chunks =~= chunks);
}

proof fn lemma_joined(records: Seq<Vec<u8>>, chunks: Seq<Seq<u8>>)
    requires
        records.map_values(|r: Vec<u8>| r@) == chunks,
    ensures
        joined_records(records) == chunks.flatten(),
    decreases records.len(),
{
    let f = |r: Vec<u8>| r@;
    if records.len() == 0 {
        assert(chunks =~= Seq::<Seq<u8>>::empty());
        assert(chunks.flatten() =~= Seq::<u8>::empty());
    } else {
        assert(records.drop_last().map_values(f) =~= chunks.drop_last());
        lemma_joined(records.drop_last(), chunks.drop_last());
        chunks.lemma_flatten_and_flatten_alt_are_equivalent();
        chunks.drop_last().lemma_flatten_and_flatten_alt_are_equivalent();
        assert(chunks.last() == records.last()@);
    }
}

proof fn lemma_document_not_empty(m: IndexModel)
    ensures
        encode_utf8(index_xml(m)).len() > 0,
{
    let first = seq![XmlEvent::Declaration];
    let rest = line_break() + element_events(index_element(m)) + line_break();
    assert(index_events(m) =~= first + rest);
    lemma_rendered_concat(first, rest);
    lemma_rendered_one(XmlEvent::Declaration);
    reveal_strlit("<?xml version=\"1.0\" encoding=\"UTF-8\"?>");
    encode_utf8_decode_utf8(index_xml(m));
    if encode_utf8(index_xml(m)).len() == 0 {
        assert(encode_utf8(index_xml(m)) =~= Seq::<u8>::empty());
        assert(decode_utf8(Seq::<u8>::empty()).len() == 0);
    }
}

/// The index that a commit writes is found by the next inspection, with the counts of its
/// tree, and the place that is found is the one that the commit wrote to: where the records
/// of the copy stand on the index partition, with anything in front of the file mark at
/// `write_block`, a scan gives the copy and `write_block`.
pub proof fn committed_index_is_found(
    copy: IndexModel,
    write_block: u64,
    blocksize: nat,
    partition: u8,
    before: Seq<Seq<Vec<u8>>>,
    records: Seq<Vec<u8>>,
)
    requires
        index_writable(copy),
        blocksize > 0,
        records.map_values(|r: Vec<u8>| r@) == records_of(
            index_copy_steps(copy, write_block, blocksize),
        ),
        write_block == 4 + blocks_of(before) - 1,
        4 + blocks_of(before.push(records)) <= u64::MAX,
    ensures
        read_plainly(index_xml(copy), xml_events(index_xml(copy))) ==> latest_run(
            partition,
            partition_told(before.push(records)),
        ).1 == LatestActionModel::Finished(Some(recounted(copy)), Some(write_block)),
{
    let text = index_xml(copy);
    let groups = before.push(records);
    if read_plainly(text, xml_events(text)) {
        stored_index_reads_back(copy);
        lemma_document_not_empty(copy);
        lemma_copy_records(copy, write_block, blocksize);
        chunks_join(encode_utf8(text), blocksize);
        lemma_joined(records, chunks_of(encode_utf8(text), blocksize));
        let k = groups.len() - 1;
        newest_index_is_found(partition, groups, k);
        assert(groups.take(k) =~= before);
        assert(groups[k] == records);
        assert(holds_index(groups[k], text, recounted(copy)));
    }
}

/// A scan begins behind the label and reads record by record up to the end of the data; a
/// device error ends it with its message, and only a device error does.
pub proof fn scan_reads_to_the_end(partition: u8, told: Seq<TapeReply>)
    ensures
        latest_run(partition, Seq::empty()).1 == LatestActionModel::Command(
            CommandModel::Locate { partition, block: 4 },
        ),
        told.len() > 0 && told[0] == TapeReply::Done && (forall|i: int|
            0 < i < told.len() ==> (#[trigger] told[i]) is Record && told[i] != TapeReply::Record(
                ReadRecord::Eod,
            )) ==> {
            &&& latest_run(partition, told).1 == LatestActionModel::Command(
                CommandModel::ReadRecord,
            )
            &&& forall|message: String| #[trigger]
                latest_run(partition, told.push(TapeReply::Failed(message))).1
                    == LatestActionModel::Failed(message@)
            &&& latest_run(partition, told.push(TapeReply::Record(ReadRecord::Eod))).1 is Finished
        },
    decreases told.len(),
{
    if told.len() > 0 && told[0] == TapeReply::Done && (forall|i: int|
        0 < i < told.len() ==> (#[trigger] told[i]) is Record && told[i] != TapeReply::Record(
            ReadRecord::Eod,
        )) {
        let before = told.drop_last();
        if before.len() > 0 {
            assert(before[0] == told[0]);
            assert forall|i: int| 0 < i < before.len() implies (#[trigger] before[i]) is Record
                && before[i] != TapeReply::Record(ReadRecord::Eod) by {
                assert(before[i] == told[i]);
            }
            scan_reads_to_the_end(partition, before);
            lemma_located(partition, before);
            assert(told[told.len() - 1] is Record);
        } else {
            assert(before =~= Seq::<TapeReply>::empty());
        }
        lemma_located(partition, told);
        assert forall|message: String| #[trigger]
            latest_run(partition, told.push(TapeReply::Failed(message))).1
                == LatestActionModel::Failed(message@) by {
            assert(told.push(TapeReply::Failed(message)).drop_last() =~= told);
        }
        assert(told.push(TapeReply::Record(ReadRecord::Eod)).drop_last() =~= told);
    }
}

proof fn lemma_located(partition: u8, told: Seq<TapeReply>)
    requires
        told.len() > 0,
        told[0] == TapeReply::Done,
    ensures
        latest_run(partition, told).0.located,
    decreases told.len(),
{
    let before = told.drop_last();
    if before.len() > 0 {
        assert(before[0] == told[0]);
        lemma_located(partition, before);
    } else {
        assert(before =~= Seq::<TapeReply>::empty());
        assert(latest_run(partition, before).0.located == false);
    }
}

// ---------------------------------------------------------------------------
// All groups of a partition
// ---------------------------------------------------------------------------

/// A scan for all candidates once it has been told so much.
pub open spec fn candidates_run(partition: u8, told: Seq<TapeReply>) -> (ScanState, ScanActionModel)
    decreases told.len(),
{
    if told.len() == 0 {
        scan_begin(partition)
    } else {
        scan_next(candidates_run(partition, told.drop_last()).0, told.last())
    }
}

/// A candidate tells of the group of records that begins at a block: where it stands, how
/// many bytes it has, and the index that it holds.
pub open spec fn tells_of(
    c: CandidateRecord,
    partition: u8,
    block: int,
    records: Seq<Vec<u8>>,
) -> bool {
    &&& c.partition == partition
    &&& c.block == block
    &&& c.byte_len == joined_records(records).len()
    &&& c.index is Some <==> c.parse_error is None
    &&& !begins_like_xml(records[0]@) ==> c.index is None
    &&& begins_like_xml(records[0]@) ==> forall|text: Seq<char>, index: IndexModel|
        text.len() > 0 && text[0] != '\u{feff}' && #[trigger] holds_index(records, text, index)
            ==> c.index == Some(index)
}

/// The candidates tell of the groups that hold data, in their order, and of nothing else.
pub open spec fn tell_of_all(
    list: Seq<CandidateRecord>,
    partition: u8,
    groups: Seq<Seq<Vec<u8>>>,
) -> bool
    decreases groups.len(),
{
    if groups.len() == 0 {
        list.len() == 0
    } else if joined_records(groups.last()).len() == 0 {
        tell_of_all(list, partition, groups.drop_last())
    } else {
        &&& list.len() > 0
        &&& tells_of(
            list.last(),
            partition,
            (4 + blocks_of(groups.drop_last())) as int,
            groups.last(),
        )
        &&& tell_of_all(list.drop_last(), partition, groups.drop_last())
    }
}

/// The bytes that groups hold.
pub open spec fn bytes_fit(groups: Seq<Seq<Vec<u8>>>) -> bool {
    forall|k: int|
        0 <= k < groups.len() ==> joined_records(#[trigger] groups[k]).len() <= usize::MAX
}

proof fn lemma_tells_of(partition: u8, block: u64, records: Seq<Vec<u8>>)
    requires
        records.len() > 0,
        joined_records(records).len() <= usize::MAX,
    ensures
        ({
            let like = begins_like_xml(records[0]@);
            let held = if like {
                joined_records(records)
            } else {
                Seq::empty()
            };
            tells_of(
                candidate_spec(
                    partition,
                    block,
                    joined_records(records).len() as usize,
                    like,
                    held,
                ),
                partition,
                block as int,
                records,
            )
        }),
{
    let bytes = joined_records(records);
    assert forall|text: Seq<char>, index: IndexModel|
        text.len() > 0 && text[0] != '\u{feff}' && #[trigger] holds_index(
            records,
            text,
            index,
        ) implies valid_utf8(bytes) && without_leading(decode_utf8(bytes), '\u{feff}') == text
        && index_from(xml_events(text)) == Ok::<IndexModel, IndexFault>(index) by {
        encode_utf8_valid_utf8(text);
        encode_utf8_decode_utf8(text);
    }
}

proof fn lemma_scan_records(partition: u8, told: Seq<TapeReply>, records: Seq<Vec<u8>>)
    requires
        candidates_run(partition, told).0.located,
        candidates_run(partition, told).0.records == Seq::<u8>::empty(),
        candidates_run(partition, told).0.byte_len == 0,
        candidates_run(partition, told).0.looks_like_index is None,
        candidates_run(partition, told).0.file_records == 0,
        records.len() <= u64::MAX,
        joined_records(records).len() <= usize::MAX,
    ensures
        ({
            let s = candidates_run(partition, told).0;
            let t = candidates_run(
                partition,
                told + records.map_values(|r: Vec<u8>| record_reply(r)),
            ).0;
            let like = records.len() > 0 && begins_like_xml(records[0]@);
            t == (ScanState {
                records: if like {
                    joined_records(records)
                } else {
                    Seq::empty()
                },
                byte_len: joined_records(records).len() as usize,
                looks_like_index: if records.len() > 0 {
                    Some(like)
                } else {
                    None
                },
                file_records: records.len() as u64,
                ..s
            })
        }),
    decreases records.len(),
{
    let f = |r: Vec<u8>| record_reply(r);
    let all = told + records.map_values(f);
    if records.len() == 0 {
        assert(all =~= told);
    } else {
        let rest = records.drop_last();
        assert(joined_records(records).len() == joined_records(rest).len()
            + records.last()@.len());
        lemma_scan_records(partition, told, rest);
        assert(all.drop_last() =~= told + rest.map_values(f));
        assert(all.last() == record_reply(records.last()));
        if rest.len() > 0 {
            assert(rest[0] == records[0]);
        } else {
            assert(joined_records(rest) =~= Seq::<u8>::empty());
            assert(joined_records(records) =~= records[0]@);
            assert(Seq::<u8>::empty() + records[0]@ =~= records[0]@);
        }
    }
}

proof fn lemma_scan_groups(partition: u8, groups: Seq<Seq<Vec<u8>>>)
    requires
        4 + blocks_of(groups) <= u64::MAX,
        bytes_fit(groups),
    ensures
        ({
            let s = candidates_run(partition, seq![TapeReply::Done] + groups_told(groups)).0;
            &&& s.partition == partition
            &&& s.located
            &&& s.records == Seq::<u8>::empty()
            &&& s.byte_len == 0
            &&& s.looks_like_index is None
            &&& s.file_records == 0
            &&& s.file_start == 4 + blocks_of(groups)
            &&& tell_of_all(s.candidates, partition, groups)
        }),
    decreases groups.len(),
{
    let start = seq![TapeReply::Done];
    assert(start.drop_last() =~= Seq::<TapeReply>::empty());
    if groups.len() == 0 {
        assert(start + groups_told(groups) =~= start);
        let begun = candidates_run(partition, start.drop_last());
        assert(begun.0.file_start == 4);
        assert(candidates_run(partition, start) == scan_next(begun.0, TapeReply::Done));
    } else {
        let rest = groups.drop_last();
        let before = start + groups_told(rest);
        let records = groups.last();
        assert forall|k: int| 0 <= k < rest.len() implies joined_records(#[trigger] rest[k]).len()
            <= usize::MAX by {
            assert(rest[k] == groups[k]);
        }
        assert(joined_records(groups[groups.len() - 1]).len() <= usize::MAX);
        lemma_scan_groups(partition, rest);
        lemma_scan_records(partition, before, records);
        let all = start + groups_told(groups);
        let read = before + records.map_values(|r: Vec<u8>| record_reply(r));
        assert(all.drop_last() =~= read);
        assert(all.last() == TapeReply::Record(ReadRecord::Filemark));
        let s = candidates_run(partition, read).0;
        assert(candidates_run(partition, all) == scan_next(s, all.last()));
        assert(s.file_records == records.len());
        if joined_records(records).len() > 0 {
            lemma_tells_of(partition, s.file_start, records);
            let list = candidates_run(partition, all).0.candidates;
            assert(list.drop_last() =~= s.candidates);
        }
    }
}

/// Every group of records of a partition that holds data is found, in the order of the tape,
/// with the block that it begins at, its bytes, and the index that it holds; nothing else is
/// found.
pub proof fn every_group_is_found(partition: u8, groups: Seq<Seq<Vec<u8>>>)
    requires
        4 + blocks_of(groups) <= u64::MAX,
        bytes_fit(groups),
    ensures
        candidates_run(partition, Seq::empty()).1 == ScanActionModel::Command(
            CommandModel::Locate { partition, block: 4 },
        ),
        candidates_run(partition, partition_told(groups)).1 is Finished,
        tell_of_all(
            candidates_run(partition, partition_told(groups)).1->Finished_0,
            partition,
            groups,
        ),
{
    lemma_scan_groups(partition, groups);
    let all = partition_told(groups);
    assert(all.drop_last() =~= seq![TapeReply::Done] + groups_told(groups));
}

// ---------------------------------------------------------------------------
// The group at one block
// ---------------------------------------------------------------------------

/// A read of the candidate at a block once it has been told so much.
pub open spec fn candidate_run(partition: u8, block: u64, told: Seq<TapeReply>) -> (
    ReadAtState,
    ReadAtActionModel,
)
    decreases told.len(),
{
    if told.len() == 0 {
        read_at_begin(partition, block)
    } else {
        read_at_next(candidate_run(partition, block, told.drop_last()).0, told.last())
    }
}

proof fn lemma_read_records(partition: u8, block: u64, records: Seq<Vec<u8>>)
    requires
        records.len() > 0 ==> begins_like_xml(records[0]@),
        joined_records(records).len() <= MAX_INDEX_BYTES,
    ensures
        candidate_run(
            partition,
            block,
            seq![TapeReply::Done] + records.map_values(|r: Vec<u8>| record_reply(r)),
        ) == (
            ReadAtState {
                partition,
                start_block: block,
                located: true,
                records: joined_records(records),
                byte_len: joined_records(records).len() as usize,
                looks_like_index: if records.len() > 0 {
                    Some(true)
                } else {
                    None
                },
            },
            ReadAtActionModel::Command(CommandModel::ReadRecord),
        ),
    decreases records.len(),
{
    let f = |r: Vec<u8>| record_reply(r);
    let start = seq![TapeReply::Done];
    let all = start + records.map_values(f);
    assert(start.drop_last() =~= Seq::<TapeReply>::empty());
    if records.len() == 0 {
        assert(all =~= start);
        let begun = candidate_run(partition, block, start.drop_last());
        assert(candidate_run(partition, block, start) == read_at_next(begun.0, TapeReply::Done));
    } else {
        let rest = records.drop_last();
        assert(joined_records(records).len() == joined_records(rest).len()
            + records.last()@.len());
        if rest.len() > 0 {
            assert(rest[0] == records[0]);
        }
        lemma_read_records(partition, block, rest);
        assert(all.drop_last() =~= start + rest.map_values(f));
        assert(all.last() == record_reply(records.last()));
    }
}

/// The index that stands at a block is read from there, whatever records it was cut into,
/// up to the file mark or the end of the data behind it.
pub proof fn index_at_a_block_is_read(
    partition: u8,
    block: u64,
    records: Seq<Vec<u8>>,
    behind: ReadRecord,
)
    requires
        records.len() > 0,
        begins_like_xml(records[0]@),
        joined_records(records).len() <= MAX_INDEX_BYTES,
        !(behind is Data),
    ensures
        ({
            let told = (seq![TapeReply::Done] + records.map_values(
                |r: Vec<u8>| record_reply(r),
            )).push(TapeReply::Record(behind));
            let end = candidate_run(partition, block, told).1;
            end is Finished && tells_of(end->Finished_0, partition, block as int, records)
        }),
        candidate_run(partition, block, Seq::empty()).1 == ReadAtActionModel::Command(
            CommandModel::Locate { partition, block },
        ),
{
    lemma_read_records(partition, block, records);
    let read = seq![TapeReply::Done] + records.map_values(|r: Vec<u8>| record_reply(r));
    let told = read.push(TapeReply::Record(behind));
    assert(told.drop_last() =~= read);
    lemma_tells_of(partition, block, records);
}

/// What does not begin like a document, or is too long for one, is no index: the read ends
/// there, and says why.
pub proof fn data_at_a_block_is_no_index(
    partition: u8,
    block: u64,
    records: Seq<Vec<u8>>,
    next: Vec<u8>,
)
    requires
        records.len() > 0 ==> begins_like_xml(records[0]@),
        joined_records(records).len() <= MAX_INDEX_BYTES,
        if records.len() == 0 {
            !begins_like_xml(next@)
        } else {
            joined_records(records).len() + next@.len() > MAX_INDEX_BYTES
        },
    ensures
        ({
            let told = (seq![TapeReply::Done] + records.map_values(
                |r: Vec<u8>| record_reply(r),
            )).push(record_reply(next));
            let end = candidate_run(partition, block, told).1;
            &&& end is Finished
            &&& end->Finished_0.partition == partition
            &&& end->Finished_0.block == block
            &&& end->Finished_0.index is None
            &&& end->Finished_0.parse_error is Some
        }),
{
    lemma_read_records(partition, block, records);
    let read = seq![TapeReply::Done] + records.map_values(|r: Vec<u8>| record_reply(r));
    let told = read.push(record_reply(next));
    assert(told.drop_last() =~= read);
}

// ---------------------------------------------------------------------------
// The label
// ---------------------------------------------------------------------------

/// A probe for a label once it has been told so much.
pub open spec fn label_run(partition: u8, told: Seq<TapeReply>) -> (ProbeState, ProbeActionModel)
    decreases told.len(),
{
    if told.len() == 0 {
        probe_begin(partition)
    } else {
        probe_next(label_run(partition, told.drop_last()).0, told.last())
    }
}

/// What a probe is told of the label of a partition, once the tape has been located.
pub open spec fn label_told(volume: Vec<u8>, document: Vec<u8>) -> Seq<TapeReply> {
    seq![
        TapeReply::Done,
        record_reply(volume),
        TapeReply::Record(ReadRecord::Filemark),
        record_reply(document),
        TapeReply::Record(ReadRecord::Filemark),
    ]
}

/// The label that stands on a partition is found: the barcode of its first record, and what
/// its document says.
pub proof fn label_is_found(
    partition: u8,
    volume: Vec<u8>,
    document: Vec<u8>,
    barcode: Seq<char>,
    text: Seq<char>,
)
    requires
        is_barcode(barcode),
        volume@ == ansi_record(barcode),
        document@ == encode_utf8(text),
    ensures
        label_run(partition, Seq::empty()).1 == ProbeActionModel::Command(
            CommandModel::Locate { partition, block: 0 },
        ),
        forall|label: LabelModel|
            label_from(xml_events(text)) == Ok::<LabelModel, LabelFault>(label)
                ==> #[trigger] label_run(partition, label_told(volume, document)).1
                == ProbeActionModel::Found(barcode, label),
        label_from(xml_events(text)) is Err ==> label_run(
            partition,
            label_told(volume, document).take(4),
        ).1 is NoLabel,
{
    ansi_label_reads_back(barcode);
    encode_utf8_valid_utf8(text);
    encode_utf8_decode_utf8(text);
    let all = label_told(volume, document);
    assert(all.take(0) =~= Seq::<TapeReply>::empty());
    lemma_label_step(partition, all, 0);
    lemma_label_step(partition, all, 1);
    lemma_label_step(partition, all, 2);
    lemma_label_step(partition, all, 3);
    lemma_label_step(partition, all, 4);
    assert(all.take(5) =~= all);
}

proof fn lemma_label_step(partition: u8, all: Seq<TapeReply>, k: int)
    requires
        0 <= k < all.len(),
    ensures
        label_run(partition, all.take(k + 1)) == probe_next(
            label_run(partition, all.take(k)).0,
            all[k],
        ),
{
    assert(all.take(k + 1).drop_last() =~= all.take(k));
}

/// A partition without VOL1 in its first record has no label, whatever follows.
pub proof fn no_label_without_its_record(partition: u8, first: ReadRecord)
    requires
        first is Data ==> ansi_label_spec(first->Data_0@) is None,
    ensures
        label_run(partition, seq![TapeReply::Done, TapeReply::Record(first)]).1 is NoLabel,
{
    let all = seq![TapeReply::Done, TapeReply::Record(first)];
    assert(all.take(0) =~= Seq::<TapeReply>::empty());
    lemma_label_step(partition, all, 0);
    lemma_label_step(partition, all, 1);
    assert(all.take(2) =~= all);
}

// ---------------------------------------------------------------------------
// Records that are at hand
// ---------------------------------------------------------------------------

/// The records of groups, with a file mark behind each group.
pub open spec fn group_records(groups: Seq<Seq<Vec<u8>>>) -> Seq<ScanRecord>
    decreases groups.len(),
{
    if groups.len() == 0 {
        Seq::empty()
    } else {
        group_records(groups.drop_last()) + groups.last().map_values(
            |r: Vec<u8>| ScanRecord::Data(r),
        ).push(ScanRecord::Filemark)
    }
}

proof fn lemma_grouped_data(before: Seq<ScanRecord>, records: Seq<Vec<u8>>)
    requires
        !grouping(before).ended,
        !grouping(before).saw_data,
        grouping(before).current == Seq::<u8>::empty(),
    ensures
        grouping(before + records.map_values(|r: Vec<u8>| ScanRecord::Data(r))) == (Grouping {
            current: joined_records(records),
            saw_data: records.len() > 0,
            ..grouping(before)
        }),
    decreases records.len(),
{
    let f = |r: Vec<u8>| ScanRecord::Data(r);
    let all = before + records.map_values(f);
    if records.len() == 0 {
        assert(all =~= before);
    } else {
        lemma_grouped_data(before, records.drop_last());
        assert(all.drop_last() =~= before + records.drop_last().map_values(f));
        assert(all.last() == ScanRecord::Data(records.last()));
    }
}

proof fn lemma_grouped(groups: Seq<Seq<Vec<u8>>>)
    ensures
        ({
            let g = grouping(group_records(groups));
            &&& !g.ended
            &&& !g.saw_data
            &&& g.current == Seq::<u8>::empty()
            &&& groups.len() > 0 ==> g.groups == if groups.last().len() > 0 {
                grouping(group_records(groups.drop_last())).groups.push(
                    joined_records(groups.last()),
                )
            } else {
                grouping(group_records(groups.drop_last())).groups
            }
        }),
    decreases groups.len(),
{
    if groups.len() > 0 {
        let before = group_records(groups.drop_last());
        let f = |r: Vec<u8>| ScanRecord::Data(r);
        lemma_grouped(groups.drop_last());
        lemma_grouped_data(before, groups.last());
        let all = group_records(groups);
        assert(all.drop_last() =~= before + groups.last().map_values(f));
        assert(all.last() == ScanRecord::Filemark);
    }
}

proof fn lemma_last_index(groups: Seq<Seq<Vec<u8>>>, k: int, text: Seq<char>, index: IndexModel)
    requires
        0 <= k < groups.len(),
        holds_index(groups[k], text, index),
        forall|j: int| k < j < groups.len() ==> holds_none(#[trigger] groups[j]),
        forall|j: int|
            k < j < groups.len() ==> (#[trigger] groups[j]).len() > 0 ==> joined_records(
                groups[j],
            ).len() > 0,
    ensures
        last_index(grouping(group_records(groups)).groups) == Some(text),
    decreases groups.len(),
{
    lemma_grouped(groups);
    let last = groups.len() - 1;
    let told = grouping(group_records(groups)).groups;
    if k == last {
        encode_utf8_valid_utf8(text);
        encode_utf8_decode_utf8(text);
        assert(groups.last().len() > 0) by {
            if groups.last().len() == 0 {
                assert(joined_records(groups.last()).len() == 0);
            }
        }
    } else {
        let rest = groups.drop_last();
        assert(holds_none(groups[last]));
        assert forall|j: int| k < j < rest.len() implies holds_none(#[trigger] rest[j]) by {
            assert(rest[j] == groups[j]);
        }
        assert forall|j: int| k < j < rest.len() implies ((#[trigger] rest[j]).len() > 0
            ==> joined_records(rest[j]).len() > 0) by {
            assert(rest[j] == groups[j]);
        }
        lemma_last_index(rest, k, text, index);
        if groups.last().len() > 0 {
            let bytes = joined_records(groups.last());
            assert(!is_index(bytes)) by {
                if is_index(bytes) {
                    decode_utf8_encode_utf8(bytes);
                    assert(index_from(xml_events(decode_utf8(bytes))) is Ok);
                }
            }
            assert(told.drop_last() =~= grouping(group_records(rest)).groups);
        }
    }
}

/// The text of the newest index is found among records that are at hand, whatever records
/// it was cut into, and whatever follows the end of the data.
pub proof fn newest_text_is_found(
    groups: Seq<Seq<Vec<u8>>>,
    behind: Seq<ScanRecord>,
    k: int,
)
    requires
        0 <= k < groups.len(),
        forall|j: int|
            k < j < groups.len() ==> (#[trigger] groups[j]).len() > 0 ==> joined_records(
                groups[j],
            ).len() > 0,
    ensures
        (forall|j: int| k < j < groups.len() ==> holds_none(#[trigger] groups[j])) ==> forall|
            text: Seq<char>,
            index: IndexModel,
        | #[trigger]
            holds_index(groups[k], text, index) ==> last_index(
                grouping(group_records(groups).push(ScanRecord::Eod) + behind).groups,
            ) == Some(text),
{
    let ended = group_records(groups).push(ScanRecord::Eod);
    assert(ended.drop_last() =~= group_records(groups));
    lemma_grouped(groups);
    lemma_nothing_behind(ended, behind);
    assert(grouping(ended).groups == grouping(group_records(groups)).groups);
    if forall|j: int| k < j < groups.len() ==> holds_none(#[trigger] groups[j]) {
        assert forall|text: Seq<char>, index: IndexModel| #[trigger]
            holds_index(groups[k], text, index) implies last_index(
            grouping(ended + behind).groups,
        ) == Some(text) by {
            lemma_last_index(groups, k, text, index);
        }
    }
}

proof fn lemma_nothing_behind(ended: Seq<ScanRecord>, behind: Seq<ScanRecord>)
    requires
        grouping(ended).ended,
    ensures
        grouping(ended + behind) == grouping(ended),
    decreases behind.len(),
{
    if behind.len() == 0 {
        assert(ended + behind =~= ended);
    } else {
        lemma_nothing_behind(ended, behind.drop_last());
        assert((ended + behind).drop_last() =~= ended + behind.drop_last());
    }
}

} // verus!
