//! Finding the newest index in a stream of tape records.
//!
//! Behind the label an index partition holds
//!
//! ```text
//! [index records...][file mark][index records...][file mark] ... end of data
//! ```
//!
//! An index may span several records and ends with a file mark. Groups that are not an
//! index, such as a damaged old one, are passed over.
use vstd::prelude::*;
use vstd::utf8::*;

use super::index::Index;
use super::index_xml::index_from;
use super::xml::xml_events;
use crate::bytes::append_bytes;
use crate::text::{opt_view, utf8_string};

verus! {

/// A record of the stream.
#[derive(Debug, Clone, PartialEq, Eq)]
pub enum ScanRecord {
    Data(Vec<u8>),
    Filemark,
    Eod,
}

/// How far a stream has been cut into groups.
pub struct Grouping {
    /// The bytes of each finished group that holds data.
    pub groups: Seq<Seq<u8>>,
    /// The bytes of the group that is not finished.
    pub current: Seq<u8>,
    /// Whether that group holds a data record.
    pub saw_data: bool,
    /// Whether the end of data has been met.
    pub ended: bool,
}

/// The groups of a stream: data records up to a file mark or the end of data. Nothing
/// counts behind the end of data.
pub open spec fn grouping(records: Seq<ScanRecord>) -> Grouping
    decreases records.len(),
{
    if records.len() == 0 {
        Grouping { groups: Seq::empty(), current: Seq::empty(), saw_data: false, ended: false }
    } else {
        let before = grouping(records.drop_last());
        if before.ended {
            before
        } else {
            match records.last() {
                ScanRecord::Data(bytes) => Grouping {
                    current: before.current + bytes@,
                    saw_data: true,
                    ..before
                },
                ScanRecord::Filemark => closed_group(before, false),
                ScanRecord::Eod => closed_group(before, true),
            }
        }
    }
}

pub open spec fn closed_group(before: Grouping, ended: bool) -> Grouping {
    Grouping {
        groups: if before.saw_data {
            before.groups.push(before.current)
        } else {
            before.groups
        },
        current: Seq::empty(),
        saw_data: false,
        ended,
    }
}

/// The bytes are the UTF-8 text of an LTFS index.
pub open spec fn is_index(bytes: Seq<u8>) -> bool {
    valid_utf8(bytes) && index_from(xml_events(decode_utf8(bytes))) is Ok
}

/// The text of the last group that is an index.
pub open spec fn last_index(groups: Seq<Seq<u8>>) -> Option<Seq<char>>
    decreases groups.len(),
{
    if groups.len() == 0 {
        None
    } else if is_index(groups.last()) {
        Some(decode_utf8(groups.last()))
    } else {
        last_index(groups.drop_last())
    }
}

fn index_text(bytes: Vec<u8>) -> (text: Option<String>)
    ensures
        opt_view(text) == (if is_index(bytes@) {
            Some(decode_utf8(bytes@))
        } else {
            None
        }),
{
    match utf8_string(bytes) {
        Ok(text) => if Index::parse_xml(text.as_str()).is_ok() {
            Some(text)
        } else {
            None
        },
        Err(_) => None,
    }
}

/// The text of the newest index in the stream: the last group that is one.
pub fn find_latest_index(records: Vec<ScanRecord>) -> (latest: Option<String>)
    ensures
        opt_view(latest) == last_index(grouping(records@).groups),
{
    let mut latest: Option<String> = None;
    let mut current: Vec<u8> = Vec::new();
    let mut saw_data = false;
    let mut i: usize = 0;
    assert(records@.subrange(0, 0) =~= Seq::<ScanRecord>::empty());
    while i < records.len()
        invariant
            i <= records@.len(),
            !grouping(records@.subrange(0, i as int)).ended,
            current@ == grouping(records@.subrange(0, i as int)).current,
            saw_data == grouping(records@.subrange(0, i as int)).saw_data,
            opt_view(latest) == last_index(grouping(records@.subrange(0, i as int)).groups),
        decreases records@.len() - i,
    {
        let ghost before = grouping(records@.subrange(0, i as int));
        proof {
            let next = records@.subrange(0, i + 1);
            assert(next.drop_last() =~= records@.subrange(0, i as int));
            assert(next.last() == records@[i as int]);
        }
        match &records[i] {
            ScanRecord::Data(bytes) => {
                append_bytes(&mut current, bytes.as_slice());
                saw_data = true;
            },
            ScanRecord::Filemark => {
                if saw_data {
                    proof {
                        assert(before.groups.push(before.current).drop_last() =~= before.groups);
                    }
                    match index_text(current) {
                        Some(text) => {
                            latest = Some(text);
                        },
                        None => {},
                    }
                }
                current = Vec::new();
                saw_data = false;
            },
            ScanRecord::Eod => {
                if saw_data {
                    proof {
                        assert(before.groups.push(before.current).drop_last() =~= before.groups);
                    }
                    match index_text(current) {
                        Some(text) => {
                            latest = Some(text);
                        },
                        None => {},
                    }
                }
                proof {
                    lemma_ended(records@, i + 1);
                }
                return latest;
            },
        }
        i = i + 1;
    }
    assert(records@.subrange(0, i as int) =~= records@);
    latest
}

/// Nothing counts behind the end of data.
pub proof fn lemma_ended(records: Seq<ScanRecord>, n: int)
    requires
        0 <= n <= records.len(),
        grouping(records.subrange(0, n)).ended,
    ensures
        grouping(records) == grouping(records.subrange(0, n)),
    decreases records.len() - n,
{
    if n == records.len() {
        assert(records.subrange(0, n) =~= records);
    } else {
        assert(records.subrange(0, n + 1).drop_last() =~= records.subrange(0, n));
        lemma_ended(records, n + 1);
    }
}

/// The newest index, where there is one, is the text of a group that is an index, and
/// no later group is one; where there is none, no group is.
pub proof fn lemma_last_index(groups: Seq<Seq<u8>>)
    ensures
        match last_index(groups) {
            Some(text) => exists|k: int|
                #![trigger groups[k]]
                0 <= k < groups.len() && is_index(groups[k]) && text == decode_utf8(groups[k])
                    && forall|j: int| k < j < groups.len() ==> !is_index(#[trigger] groups[j]),
            None => forall|j: int| 0 <= j < groups.len() ==> !is_index(#[trigger] groups[j]),
        },
    decreases groups.len(),
{
    if groups.len() > 0 {
        if is_index(groups.last()) {
            let k = groups.len() - 1;
            assert(is_index(groups[k]));
        } else {
            let shorter = groups.drop_last();
            lemma_last_index(shorter);
            assert forall|j: int| 0 <= j < shorter.len() implies shorter[j] == #[trigger] groups[j] by {}
            if last_index(groups) is Some {
                let k = choose|k: int|
                    #![trigger shorter[k]]
                    0 <= k < shorter.len() && is_index(shorter[k]) && last_index(shorter)->0
                        == decode_utf8(shorter[k]) && forall|j: int|
                        k < j < shorter.len() ==> !is_index(#[trigger] shorter[j]);
                assert(is_index(groups[k]));
                assert forall|j: int| k < j < groups.len() implies !is_index(#[trigger] groups[j]) by {
                    if j < shorter.len() {
                        assert(!is_index(shorter[j]));
                    }
                }
            } else {
                assert forall|j: int| 0 <= j < groups.len() implies !is_index(
                    #[trigger] groups[j],
                ) by {
                    if j < shorter.len() {
                        assert(!is_index(shorter[j]));
                    }
                }
            }
        }
    }
}

} // verus!
