//! What an inspection, a diagnosis and the check before a write find of a volume.
use vstd::prelude::*;
use vstd::utf8::*;

use super::append::{append_begin, append_next, AppendActionModel, AppendStage, AppendState};
use super::flow::{CommandModel, TapeReply};
use super::inspect::{
    diagnose_begin, diagnose_next, inspect_begin, inspect_next, ordered_blocks, with_block,
    DiagnoseActionModel, DiagnoseReply, DiagnoseState, InspectActionModel, InspectReply,
    InspectState,
};
use super::probe::{
    candidate_records, xml_at, CandidateRecord, LatestActionModel, ProbeActionModel, ReadAtAction,
    ScanAction,
};
use super::probe_law::holds_index;
use super::round_trip::{joined_records, record_reply};
use crate::device::scsi::TapePosition;
use crate::device::tape::ReadRecord;
use crate::ltfs::index::{IndexModel, TapePos};
use crate::ltfs::index_xml::{index_from, IndexFault};
use crate::ltfs::xml::xml_events;

verus! {

// ---------------------------------------------------------------------------
// Where data may be appended
// ---------------------------------------------------------------------------

/// A check once it has been told so much.
pub open spec fn append_run(
    referenced: TapePos,
    uuid: Seq<char>,
    generation: u64,
    told: Seq<TapeReply>,
) -> (AppendState, AppendActionModel)
    decreases told.len(),
{
    if told.len() == 0 {
        append_begin(referenced, uuid, generation)
    } else {
        append_next(append_run(referenced, uuid, generation, told.drop_last()).0, told.last())
    }
}

/// The check had gone on up to the last reply.
pub open spec fn append_goes_on(
    referenced: TapePos,
    uuid: Seq<char>,
    generation: u64,
    told: Seq<TapeReply>,
) -> bool
    decreases told.len(),
{
    told.len() == 0 || (append_goes_on(referenced, uuid, generation, told.drop_last())
        && append_run(referenced, uuid, generation, told.drop_last()).1 is Command)
}

/// What the check of a volume is told whose data partition ends with the index: the tape has
/// been located, the records of the index are read, then its file mark, where the tape
/// stands, the end of the data, and that it has been located again.
pub open spec fn end_told(records: Seq<Vec<u8>>, at: TapePosition) -> Seq<TapeReply> {
    seq![TapeReply::Done] + records.map_values(|r: Vec<u8>| record_reply(r)) + seq![
        TapeReply::Record(ReadRecord::Filemark),
        TapeReply::Position(at),
        TapeReply::Record(ReadRecord::Eod),
        TapeReply::Done,
    ]
}

/// An index that the index partition may point to.
pub open spec fn is_referenced(
    index: IndexModel,
    referenced: TapePos,
    uuid: Seq<char>,
    generation: u64,
) -> bool {
    &&& index.self_location == referenced
    &&& index.volume_uuid == uuid
    &&& index.generation <= generation
}

proof fn lemma_append_records(
    referenced: TapePos,
    uuid: Seq<char>,
    generation: u64,
    records: Seq<Vec<u8>>,
)
    requires
        records.len() > 0 ==> xml_at(records[0]@, 0),
    ensures
        ({
            let told = seq![TapeReply::Done] + records.map_values(|r: Vec<u8>| record_reply(r));
            append_run(referenced, uuid, generation, told) == (
                AppendState {
                    stage: AppendStage::Record,
                    group: joined_records(records),
                    group_is_xml: if records.len() > 0 {
                        Some(true)
                    } else {
                        None
                    },
                    ..append_begin(referenced, uuid, generation).0
                },
                AppendActionModel::Command(CommandModel::ReadRecord),
            )
        }),
    decreases records.len(),
{
    let f = |r: Vec<u8>| record_reply(r);
    let start = seq![TapeReply::Done];
    let told = start + records.map_values(f);
    assert(start.drop_last() =~= Seq::<TapeReply>::empty());
    if records.len() == 0 {
        assert(told =~= start);
        let begun = append_run(referenced, uuid, generation, start.drop_last());
        assert(begun == append_begin(referenced, uuid, generation));
        assert(append_run(referenced, uuid, generation, start) == append_next(
            begun.0,
            TapeReply::Done,
        ));
    } else {
        let rest = records.drop_last();
        if rest.len() > 0 {
            assert(rest[0] == records[0]);
        }
        lemma_append_records(referenced, uuid, generation, rest);
        assert(told.drop_last() =~= start + rest.map_values(f));
        assert(told.last() == record_reply(records.last()));
    }
}

/// Data may be appended to a volume whose data partition ends with the index that the index
/// partition points to, whatever records that index was cut into: behind its file mark,
/// where the drive said that the tape stood. The tape is sent back there, and it is not
/// appended to an index that stands elsewhere, belongs to another volume or is newer.
pub proof fn consistent_volume_is_appended_to(
    referenced: TapePos,
    uuid: Seq<char>,
    generation: u64,
    records: Seq<Vec<u8>>,
    at: TapePosition,
)
    requires
        records.len() > 0,
        xml_at(records[0]@, 0),
    ensures
        append_run(referenced, uuid, generation, Seq::empty()).1 == AppendActionModel::Command(
            CommandModel::Locate { partition: referenced.partition, block: referenced.startblock },
        ),
        forall|text: Seq<char>, index: IndexModel| #[trigger]
            holds_index(records, text, index) ==> {
                let told = end_told(records, at);
                if is_referenced(index, referenced, uuid, generation) {
                    &&& append_run(referenced, uuid, generation, told).1
                        == AppendActionModel::Finished(at.block)
                    &&& append_run(referenced, uuid, generation, told.drop_last()).1
                        == AppendActionModel::Command(
                        CommandModel::Locate { partition: referenced.partition, block: at.block },
                    )
                } else {
                    append_run(
                        referenced,
                        uuid,
                        generation,
                        told.drop_last().drop_last(),
                    ).1 is Failed
                }
            },
{
    lemma_append_records(referenced, uuid, generation, records);
    let read = seq![TapeReply::Done] + records.map_values(|r: Vec<u8>| record_reply(r));
    let told = end_told(records, at);
    assert forall|text: Seq<char>, index: IndexModel| #[trigger]
        holds_index(records, text, index) implies valid_utf8(joined_records(records))
        && index_from(xml_events(decode_utf8(joined_records(records)))) == Ok::<
        IndexModel,
        IndexFault,
    >(index) by {
        encode_utf8_valid_utf8(text);
        encode_utf8_decode_utf8(text);
    }
    let one = read.push(TapeReply::Record(ReadRecord::Filemark));
    let two = one.push(TapeReply::Position(at));
    let three = two.push(TapeReply::Record(ReadRecord::Eod));
    assert(one.drop_last() =~= read);
    assert(two.drop_last() =~= one);
    assert(three.drop_last() =~= two);
    assert(told.drop_last() =~= three);
    assert(told.last() == TapeReply::Done);
    let s = append_run(referenced, uuid, generation, read).0;
    let marked = AppendState { stage: AppendStage::Mark, ..s };
    assert(append_run(referenced, uuid, generation, one).0 == marked);
    let closed = append_next(marked, TapeReply::Position(at));
    assert(append_run(referenced, uuid, generation, two) == closed);
    let ended = append_next(closed.0, TapeReply::Record(ReadRecord::Eod));
    assert(append_run(referenced, uuid, generation, three) == ended);
    assert(append_run(referenced, uuid, generation, told) == append_next(
        ended.0,
        TapeReply::Done,
    ));
}

/// All replies but the first are records of data.
spec fn only_data(told: Seq<TapeReply>) -> bool {
    &&& told.len() > 0
    &&& told[0] is Done
    &&& forall|i: int|
        1 <= i < told.len() ==> ((#[trigger] told[i]) matches TapeReply::Record(r) && r is Data)
}

spec fn append_holds(
    referenced: TapePos,
    uuid: Seq<char>,
    generation: u64,
    told: Seq<TapeReply>,
) -> bool {
    let (s, action) = append_run(referenced, uuid, generation, told);
    let n = told.len() as int;
    action is Failed || match s.stage {
        AppendStage::Locate => n == 0,
        AppendStage::Record => match s.referenced_end {
            None => only_data(told) && !s.saw_tail,
            Some(end) => s.saw_tail || (n >= 3 && only_data(told.take(n - 2)) && told[n - 2]
                == TapeReply::Record(ReadRecord::Filemark) && (told[n - 1]
                matches TapeReply::Position(at) && at.block == end)),
        },
        AppendStage::Mark => match s.referenced_end {
            None => n >= 2 && only_data(told.take(n - 1)) && told[n - 1] == TapeReply::Record(
                ReadRecord::Filemark,
            ) && !s.saw_tail,
            Some(_) => true,
        },
        AppendStage::Return => n >= 4 && (s.referenced_end matches Some(end) && (if action
            is Finished {
            &&& n >= 5
            &&& action == AppendActionModel::Finished(end)
            &&& told[n - 1] is Done
            &&& told[n - 2] == TapeReply::Record(ReadRecord::Eod)
            &&& (told[n - 3] matches TapeReply::Position(at) && at.block == end)
            &&& told[n - 4] == TapeReply::Record(ReadRecord::Filemark)
            &&& only_data(told.take(n - 4))
        } else {
            &&& told[n - 1] == TapeReply::Record(ReadRecord::Eod)
            &&& (told[n - 2] matches TapeReply::Position(at) && at.block == end)
            &&& told[n - 3] == TapeReply::Record(ReadRecord::Filemark)
            &&& only_data(told.take(n - 3))
        })),
    }
}

proof fn lemma_append(referenced: TapePos, uuid: Seq<char>, generation: u64, told: Seq<TapeReply>)
    requires
        append_goes_on(referenced, uuid, generation, told),
    ensures
        append_holds(referenced, uuid, generation, told),
    decreases told.len(),
{
    if told.len() > 0 {
        let before = told.drop_last();
        lemma_append(referenced, uuid, generation, before);
        let n = told.len() as int;
        assert forall|i: int| 0 <= i < before.len() implies #[trigger] before[i] == told[i] by {}
        assert forall|i: int| 0 <= i < n - 1 implies #[trigger] told[i] == before[i] by {}
        let s = append_run(referenced, uuid, generation, before).0;
        match s.stage {
            AppendStage::Record => {
                if s.referenced_end is None {
                    assert(told.take(n - 1) =~= before);
                } else if !s.saw_tail {
                    assert(told.take(n - 3) =~= before.take(n - 3));
                }
            },
            AppendStage::Mark => {
                if s.referenced_end is None {
                    assert(told.take(n - 2) =~= before.take(n - 2));
                }
            },
            AppendStage::Return => {
                assert(told.take(n - 4) =~= before.take(n - 4));
            },
            _ => {},
        }
    }
}

/// Nothing is ever appended to a volume where something stands behind the index that the
/// index partition points to: a check that allows it has read nothing but the records of one
/// group, its file mark and, at once behind that, the end of the data, and it allows the
/// block at which the drive said that the tape stood behind the mark.
pub proof fn nothing_is_overwritten(
    referenced: TapePos,
    uuid: Seq<char>,
    generation: u64,
    told: Seq<TapeReply>,
    block: u64,
)
    requires
        append_goes_on(referenced, uuid, generation, told),
        append_run(referenced, uuid, generation, told).1 == AppendActionModel::Finished(block),
    ensures
        ({
            let n = told.len() as int;
            &&& n >= 5
            &&& told[0] is Done
            &&& forall|i: int|
                1 <= i < n - 4 ==> ((#[trigger] told[i]) matches TapeReply::Record(r) && r is Data)
            &&& told[n - 4] == TapeReply::Record(ReadRecord::Filemark)
            &&& told[n - 3] matches TapeReply::Position(at)
            &&& at.block == block
            &&& told[n - 2] == TapeReply::Record(ReadRecord::Eod)
            &&& told[n - 1] is Done
        }),
{
    lemma_append(referenced, uuid, generation, told);
    let n = told.len() as int;
    let before = told.drop_last();
    lemma_append(referenced, uuid, generation, before);
    let first = told.take(n - 4);
    assert forall|i: int| 1 <= i < n - 4 implies ((#[trigger] told[i]) matches TapeReply::Record(r)
        && r is Data) by {
        assert(first[i] == told[i]);
    }
    assert(first[0] == told[0]);
}

// ---------------------------------------------------------------------------
// An inspection
// ---------------------------------------------------------------------------

/// An inspection once it has been told so much.
pub open spec fn inspect_run(told: Seq<InspectReply>) -> (InspectState, InspectActionModel)
    decreases told.len(),
{
    if told.len() == 0 {
        inspect_begin()
    } else {
        inspect_next(inspect_run(told.drop_last()).0, told.last())
    }
}

/// The partition that is not `partition`.
pub open spec fn opposite(partition: u8) -> u8 {
    (1 - partition) as u8
}

proof fn lemma_inspect_more(told: Seq<InspectReply>, reply: InspectReply)
    ensures
        inspect_run(told.push(reply)) == inspect_next(inspect_run(told).0, reply),
{
    assert(told.push(reply).drop_last() =~= told);
}

proof fn lemma_inspect_begun(at: TapePosition)
    requires
        at.partition <= 1,
    ensures
        ({
            let told = seq![
                InspectReply::Tape(TapeReply::Done),
                InspectReply::Tape(TapeReply::Done),
                InspectReply::Tape(TapeReply::Position(at)),
            ];
            let (s, action) = inspect_run(told);
            &&& action == (InspectActionModel::Probe { partition: at.partition as u8 })
            &&& s.stage is FirstProbe
            &&& s.start_partition == at.partition
            &&& s.warnings == Seq::<Seq<char>>::empty()
            &&& s.second is None
        }),
{
    let done = InspectReply::Tape(TapeReply::Done);
    let none = Seq::<InspectReply>::empty();
    lemma_inspect_more(none, done);
    lemma_inspect_more(none.push(done), done);
    lemma_inspect_more(none.push(done).push(done), InspectReply::Tape(TapeReply::Position(at)));
    assert(none.push(done).push(done).push(InspectReply::Tape(TapeReply::Position(at))) =~= seq![
        done,
        done,
        InspectReply::Tape(TapeReply::Position(at)),
    ]);
}

/// A volume is recognised by the label of either partition, and its index is the one that is
/// found on the partition that its labels call the index partition: on the one on which the
/// tape stands where its own label says so, without a look at the other one, else on the
/// other where the label there says so. The place of the index goes with the index.
pub proof fn labelled_volume_is_recognized(
    at: TapePosition,
    first: InspectReply,
    second: InspectReply,
    scanned: InspectReply,
)
    requires
        at.partition <= 1,
        first is Probed,
        second is Probed,
        scanned is Scanned,
    ensures
        ({
            let p = at.partition as u8;
            let begun = seq![
                InspectReply::Tape(TapeReply::Done),
                InspectReply::Tape(TapeReply::Done),
                InspectReply::Tape(TapeReply::Position(at)),
            ];
            let one = first->Probed_0@;
            let two = second->Probed_0@;
            let outcome = scanned->Scanned_0@;
            let after = inspect_run(begun.push(first).push(scanned)).1;
            let later = inspect_run(begun.push(first).push(second).push(scanned)).1;
            let own = one matches ProbeActionModel::Found(_, l) && l.this_partition
                == l.index_partition;
            &&& own ==> {
                &&& inspect_run(begun.push(first)).1 == (InspectActionModel::Scan { partition: p })
                &&& after is Finished
                &&& tells_volume(after, one, outcome)
            }
            &&& !own ==> inspect_run(begun.push(first)).1 == (InspectActionModel::Probe {
                partition: opposite(p),
            })
            &&& !own && (one is Found || two is Found) ==> {
                let main = if one is Found {
                    one
                } else {
                    two
                };
                &&& tells_volume(later, main, outcome)
                &&& two is Found && two->Found_1.this_partition == main->Found_1.index_partition && (
                one is Found ==> one->Found_1.this_partition != one->Found_1.index_partition)
                    ==> inspect_run(begun.push(first).push(second)).1 == (InspectActionModel::Scan {
                    partition: opposite(p),
                })
            }
            &&& !(one is Found) && !(two is Found) ==> (inspect_run(
                begun.push(first).push(second),
            ).1 matches InspectActionModel::Finished(v) && !v.recognized && v.label is None
                && v.index is None && v.reason is Some)
        }),
{
    let begun = seq![
        InspectReply::Tape(TapeReply::Done),
        InspectReply::Tape(TapeReply::Done),
        InspectReply::Tape(TapeReply::Position(at)),
    ];
    lemma_inspect_begun(at);
    lemma_inspect_more(begun, first);
    lemma_inspect_more(begun.push(first), second);
    lemma_inspect_more(begun.push(first), scanned);
    lemma_inspect_more(begun.push(first).push(second), scanned);
}

/// A volume is recognised with a label and what a scan has found.
pub open spec fn tells_volume(
    action: InspectActionModel,
    label: ProbeActionModel,
    outcome: LatestActionModel,
) -> bool {
    &&& action matches InspectActionModel::Finished(v)
    &&& v.recognized
    &&& v.ansi_barcode == Some(label->Found_0)
    &&& v.label == Some(label->Found_1)
    &&& outcome matches LatestActionModel::Finished(index, block)
        ==> v.index == index && (index is Some ==> v.index_write_block == block)
    &&& !(outcome is Finished) ==> v.index is None && v.index_write_block is None
    &&& v.index is None ==> v.index_write_block is None && v.warnings.len() > 0
}

// ---------------------------------------------------------------------------
// A diagnosis
// ---------------------------------------------------------------------------

/// A diagnosis once it has been told so much.
pub open spec fn diagnose_run(full: bool, told: Seq<DiagnoseReply>) -> (
    DiagnoseState,
    DiagnoseActionModel,
)
    decreases told.len(),
{
    if told.len() == 0 {
        diagnose_begin(full)
    } else {
        diagnose_next(diagnose_run(full, told.drop_last()).0, told.last())
    }
}

/// The diagnosis had gone on up to the last reply.
pub open spec fn diagnosis_goes_on(full: bool, told: Seq<DiagnoseReply>) -> bool
    decreases told.len(),
{
    told.len() == 0 || (diagnosis_goes_on(full, told.drop_last()) && !(diagnose_run(
        full,
        told.drop_last(),
    ).1 is Finished) && !(diagnose_run(full, told.drop_last()).1 is Failed))
}

/// The candidates that a diagnosis has been told, in their order.
pub open spec fn candidates_told(told: Seq<DiagnoseReply>) -> Seq<CandidateRecord>
    decreases told.len(),
{
    if told.len() == 0 {
        Seq::empty()
    } else {
        candidates_told(told.drop_last()) + match told.last() {
            DiagnoseReply::Scanned(ScanAction::Finished(list)) => candidate_records(list@),
            DiagnoseReply::Read(ReadAtAction::Finished(c)) => seq![
                super::probe::candidate_record(c),
            ],
            _ => Seq::empty(),
        }
    }
}

/// The volumes that the labels name that a diagnosis has been told.
pub open spec fn labels_told(told: Seq<DiagnoseReply>) -> Seq<Seq<char>>
    decreases told.len(),
{
    if told.len() == 0 {
        Seq::empty()
    } else {
        match told.last() {
            DiagnoseReply::Probed(outcome) => match outcome@ {
                ProbeActionModel::Found(_, label) => labels_told(told.drop_last()).push(
                    label.volume_uuid,
                ),
                _ => labels_told(told.drop_last()),
            },
            _ => labels_told(told.drop_last()),
        }
    }
}

/// How many of the replies to a diagnosis say that something could not be read.
pub open spec fn troubles_told(told: Seq<DiagnoseReply>) -> nat
    decreases told.len(),
{
    if told.len() == 0 {
        0
    } else {
        troubles_told(told.drop_last()) + match told.last() {
            DiagnoseReply::Probed(outcome) => if outcome@ is Found {
                0nat
            } else {
                1nat
            },
            DiagnoseReply::Scanned(ScanAction::Failed(_)) => 1,
            DiagnoseReply::Read(ReadAtAction::Failed(_)) => 1,
            DiagnoseReply::Tape(TapeReply::Failed(_)) => 1,
            _ => 0,
        }
    }
}

spec fn diagnosis_holds(full: bool, told: Seq<DiagnoseReply>) -> bool {
    let (s, action) = diagnose_run(full, told);
    match action {
        DiagnoseActionModel::Failed(_) => true,
        DiagnoseActionModel::Finished(d) => {
            &&& d.candidates == candidates_told(told)
            &&& d.partition_errors.len() >= troubles_told(told)
            &&& d.label_uuid == (if labels_told(told).len() > 0 {
                Some(labels_told(told)[0])
            } else {
                None
            })
            &&& d.safe_for_normal_write ==> labels_told(told).len() == 2 && labels_told(told)[0]
                == labels_told(told)[1]
        },
        _ => {
            &&& s.candidates == candidates_told(told)
            &&& s.errors.len() >= troubles_told(told)
            &&& s.label_uuids.map_values(|p: (u8, Seq<char>)| p.1) == labels_told(told)
        },
    }
}

proof fn lemma_diagnosis(full: bool, told: Seq<DiagnoseReply>)
    requires
        diagnosis_goes_on(full, told),
    ensures
        diagnosis_holds(full, told),
    decreases told.len(),
{
    let f = |p: (u8, Seq<char>)| p.1;
    if told.len() == 0 {
        assert(Seq::<(u8, Seq<char>)>::empty().map_values(f) =~= Seq::<Seq<char>>::empty());
    } else {
        let before = told.drop_last();
        lemma_diagnosis(full, before);
        let s = diagnose_run(full, before).0;
        assert(candidates_told(before) + Seq::<CandidateRecord>::empty() =~= candidates_told(
            before,
        ));
        match told.last() {
            DiagnoseReply::Probed(outcome) => {
                match outcome@ {
                    ProbeActionModel::Found(_, label) => {
                        if s.stage is Probe {
                            let p = s.stage->Probe_partition;
                            assert(s.label_uuids.push((p, label.volume_uuid)).map_values(f)
                                =~= s.label_uuids.map_values(f).push(label.volume_uuid));
                        }
                    },
                    _ => {},
                }
            },
            DiagnoseReply::Read(ReadAtAction::Finished(c)) => {
                assert(s.candidates.push(super::probe::candidate_record(c)) =~= s.candidates
                    + seq![super::probe::candidate_record(c)]);
            },
            _ => {},
        }
        let u = s.label_uuids;
        assert(u.map_values(f).len() == u.len());
        if u.len() > 0 {
            assert(u.map_values(f)[0] == u[0].1);
        }
        if u.len() == 2 {
            assert(u.map_values(f)[1] == u[1].1);
        }
    }
}

/// A diagnosis drops nothing: it ends with all candidates that it was told, in their order,
/// and reports at least one thing for everything that could not be read. It calls a volume
/// safe only where both partitions have a label, and both of the same volume.
pub proof fn diagnosis_drops_nothing(full: bool, told: Seq<DiagnoseReply>)
    requires
        diagnosis_goes_on(full, told),
        diagnose_run(full, told).1 is Finished,
    ensures
        ({
            let d = diagnose_run(full, told).1->Finished_0;
            &&& d.candidates == candidates_told(told)
            &&& d.partition_errors.len() >= troubles_told(told)
            &&& d.label_uuid == (if labels_told(told).len() > 0 {
                Some(labels_told(told)[0])
            } else {
                None
            })
            &&& d.safe_for_normal_write ==> labels_told(told).len() == 2 && labels_told(told)[0]
                == labels_told(told)[1]
        }),
{
    lemma_diagnosis(full, told);
}

proof fn lemma_with_block(list: Seq<u64>, block: u64)
    requires
        forall|i: int, j: int| 0 <= i < j < list.len() ==> list[i] < list[j],
    ensures
        ({
            let out = with_block(list, block);
            &&& forall|i: int, j: int| 0 <= i < j < out.len() ==> out[i] < out[j]
            &&& forall|b: u64| #[trigger] out.contains(b) <==> list.contains(b) || b == block
        }),
    decreases list.len(),
{
    let out = with_block(list, block);
    if list.len() == 0 {
        assert(out[0] == block);
    } else if list.last() < block {
        assert(out.last() == block);
        assert forall|b: u64| #[trigger] out.contains(b) <==> list.contains(b) || b == block by {
            if list.contains(b) {
                let i = choose|i: int| 0 <= i < list.len() && list[i] == b;
                assert(out[i] == b);
            }
            if out.contains(b) {
                let i = choose|i: int| 0 <= i < out.len() && out[i] == b;
                if i < list.len() {
                    assert(list[i] == b);
                }
            }
            assert(out[list.len() as int] == block);
        }
    } else if list.last() == block {
        assert(list[list.len() - 1] == block);
    } else {
        let rest = list.drop_last();
        let head = with_block(rest, block);
        lemma_with_block(rest, block);
        assert forall|i: int| 0 <= i < head.len() implies #[trigger] head[i] < list.last() by {
            assert(head.contains(head[i]));
            if rest.contains(head[i]) {
                let j = choose|j: int| 0 <= j < rest.len() && rest[j] == head[i];
                assert(list[j] < list[list.len() - 1]);
            }
        }
        assert forall|b: u64| #[trigger] out.contains(b) <==> list.contains(b) || b == block by {
            if list.contains(b) {
                let i = choose|i: int| 0 <= i < list.len() && list[i] == b;
                if i < rest.len() {
                    assert(rest[i] == b);
                    assert(head.contains(b));
                    let j = choose|j: int| 0 <= j < head.len() && head[j] == b;
                    assert(out[j] == b);
                } else {
                    assert(out[head.len() as int] == b);
                }
            }
            if b == block {
                assert(head.contains(b));
                let j = choose|j: int| 0 <= j < head.len() && head[j] == b;
                assert(out[j] == b);
            }
            if out.contains(b) {
                let i = choose|i: int| 0 <= i < out.len() && out[i] == b;
                if i < head.len() {
                    assert(head[i] == b);
                    assert(head.contains(b));
                    if rest.contains(b) {
                        let j = choose|j: int| 0 <= j < rest.len() && rest[j] == b;
                        assert(list[j] == b);
                    }
                } else {
                    assert(list[list.len() - 1] == b);
                }
            }
        }
    }
}

/// The blocks that a diagnosis reads are those that something points to, each once, from the
/// lowest to the highest.
pub proof fn targets_are_read_once(list: Seq<u64>)
    ensures
        ({
            let out = ordered_blocks(list);
            &&& forall|i: int, j: int| 0 <= i < j < out.len() ==> out[i] < out[j]
            &&& forall|b: u64| #[trigger] out.contains(b) <==> list.contains(b)
        }),
    decreases list.len(),
{
    if list.len() > 0 {
        let rest = list.drop_last();
        targets_are_read_once(rest);
        lemma_with_block(ordered_blocks(rest), list.last());
        assert forall|b: u64| #[trigger] ordered_blocks(list).contains(b) <==> list.contains(b) by {
            if list.contains(b) {
                let i = choose|i: int| 0 <= i < list.len() && list[i] == b;
                if i < rest.len() {
                    assert(rest[i] == b);
                }
            }
            if rest.contains(b) {
                let i = choose|i: int| 0 <= i < rest.len() && rest[i] == b;
                assert(list[i] == b);
            }
            assert(list[list.len() - 1] == list.last());
        }
    }
}

} // verus!
