//! A file in several extents is read as a whole.
use vstd::prelude::*;

use super::append::{extent_command, extent_located, extent_start, ExtentState};
use super::flow::CommandModel;
use super::round_trip::{all_read, joined_records};
use crate::ltfs::index::Extent;

verus! {

/// Records hold an extent: it ends in the last of them.
pub open spec fn holds_extent(x: Extent, records: Seq<Vec<u8>>) -> bool {
    &&& x.byte_count > 0
    &&& records.len() > 0
    &&& joined_records(records).len() >= x.byte_count
    &&& joined_records(records.drop_last()).len() < x.byte_count
}

/// The reader once it has been given the records of the first `n` extents, each once the tape
/// has been located, and what it has put out.
pub open spec fn extents_read(
    extents: Seq<Extent>,
    path: Seq<char>,
    stored: Seq<Seq<Vec<u8>>>,
    n: nat,
) -> (ExtentState, Seq<u8>)
    decreases n,
{
    if n == 0 {
        (extent_start(extents), Seq::empty())
    } else {
        let (s, out) = extents_read(extents, path, stored, (n - 1) as nat);
        let (t, more) = all_read(extent_located(s), path, stored[n - 1]);
        (t, out + more)
    }
}

/// What the first `n` extents hold.
pub open spec fn extents_hold(
    extents: Seq<Extent>,
    stored: Seq<Seq<Vec<u8>>>,
    n: nat,
) -> Seq<u8>
    decreases n,
{
    if n == 0 {
        Seq::empty()
    } else {
        extents_hold(extents, stored, (n - 1) as nat) + joined_records(stored[n - 1]).take(
            extents[n - 1].byte_count as int,
        )
    }
}

proof fn lemma_inside(s: ExtentState, path: Seq<char>, records: Seq<Vec<u8>>)
    requires
        s.located,
        s.at < s.extents.len(),
        joined_records(records).len() < s.remaining,
    ensures
        ({
            let (t, out) = all_read(s, path, records);
            &&& t.extents == s.extents
            &&& t.at == s.at
            &&& t.located
            &&& t.remaining == s.remaining - joined_records(records).len()
            &&& out == joined_records(records)
        }),
    decreases records.len(),
{
    if records.len() > 0 {
        let rest = records.drop_last();
        assert(joined_records(records).len() == joined_records(rest).len()
            + records.last()@.len());
        lemma_inside(s, path, rest);
        let bytes = records.last()@;
        assert(bytes.subrange(0, bytes.len() as int) =~= bytes);
    }
}

proof fn lemma_extent(s: ExtentState, path: Seq<char>, records: Seq<Vec<u8>>)
    requires
        !s.located,
        s.at < s.extents.len(),
        holds_extent(s.extents[s.at as int], records),
    ensures
        ({
            let (t, out) = all_read(extent_located(s), path, records);
            &&& t.extents == s.extents
            &&& t.at == s.at + 1
            &&& !t.located
            &&& out == joined_records(records).take(s.extents[s.at as int].byte_count as int)
        }),
{
    let there = extent_located(s);
    let rest = records.drop_last();
    let n = there.remaining - joined_records(rest).len();
    lemma_inside(there, path, rest);
    assert(joined_records(records).len() == joined_records(rest).len() + records.last()@.len());
    let out = all_read(there, path, records).1;
    assert(out =~= joined_records(records).take(there.remaining as int));
}

/// A file is read extent by extent, in the order of its entry: the tape is sent to each in
/// turn, and what is put out is what the extents hold, one behind the other, and not what
/// stands behind them in their last records.
pub proof fn file_is_read_from_all_extents(
    extents: Seq<Extent>,
    path: Seq<char>,
    stored: Seq<Seq<Vec<u8>>>,
    n: nat,
)
    requires
        n <= extents.len(),
        stored.len() == extents.len(),
        forall|i: int| 0 <= i < extents.len() ==> holds_extent(#[trigger] extents[i], stored[i]),
    ensures
        ({
            let (s, out) = extents_read(extents, path, stored, n);
            &&& out == extents_hold(extents, stored, n)
            &&& n < extents.len() ==> extent_command(s) == Some(
                CommandModel::Locate {
                    partition: extents[n as int].partition,
                    block: extents[n as int].start_block,
                },
            )
            &&& n == extents.len() ==> extent_command(s) is None
        }),
{
    lemma_extents(extents, path, stored, n);
}

proof fn lemma_extents(
    extents: Seq<Extent>,
    path: Seq<char>,
    stored: Seq<Seq<Vec<u8>>>,
    n: nat,
)
    requires
        n <= extents.len(),
        stored.len() == extents.len(),
        forall|i: int| 0 <= i < extents.len() ==> holds_extent(#[trigger] extents[i], stored[i]),
    ensures
        ({
            let (s, out) = extents_read(extents, path, stored, n);
            &&& out == extents_hold(extents, stored, n)
            &&& s.extents == extents
            &&& s.at == n
            &&& !s.located
        }),
    decreases n,
{
    if n > 0 {
        lemma_extents(extents, path, stored, (n - 1) as nat);
        let s = extents_read(extents, path, stored, (n - 1) as nat).0;
        assert(holds_extent(extents[n - 1], stored[n - 1]));
        lemma_extent(s, path, stored[n - 1]);
    }
}

} // verus!
