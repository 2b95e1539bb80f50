//! LTFS volumes on tape: what is known of one, and whether its index copies agree.
use vstd::prelude::*;
use vstd::string::*;

use crate::ltfs::index::{Index, IndexModel};
use crate::ltfs::label::Label;
use crate::ltfs::mam::{VciModel, VolumeCoherencyInformation};
use crate::text::same;

verus! {

/// What an inspection of a volume found.
#[derive(Debug, PartialEq, Eq)]
pub struct VolumeInfo {
    /// A valid LTFS label was found.
    pub recognized: bool,
    /// Why none was.
    pub reason: Option<String>,
    pub warnings: Vec<String>,
    /// The volume serial of the ANSI label.
    pub ansi_barcode: Option<String>,
    pub label: Option<Label>,
    /// The newest index that could be read.
    pub index: Option<Index>,
    /// The file mark in front of the newest index of the index partition, which is where
    /// a new index is written.
    pub index_write_block: Option<u64>,
}

impl Default for VolumeInfo {
    fn default() -> (info: VolumeInfo)
        ensures
            !info.recognized,
            info.reason is None,
            info.warnings@.len() == 0,
            info.ansi_barcode is None,
            info.label is None,
            info.index is None,
            info.index_write_block is None,
    {
        VolumeInfo {
            recognized: false,
            reason: None,
            warnings: Vec::new(),
            ansi_barcode: None,
            label: None,
            index: None,
            index_write_block: None,
        }
    }
}

/// An index that was found on tape, or a group of records that could be one.
#[derive(Debug, PartialEq, Eq)]
pub struct IndexCandidateDiagnostic {
    pub physical_partition: u8,
    pub actual_start_block: u64,
    pub byte_len: usize,
    pub index: Option<Index>,
    pub parse_error: Option<String>,
}

#[derive(Debug, Clone, Copy, PartialEq, Eq, Structural)]
pub enum VolumeConsistency {
    Healthy,
    MamUnavailable,
    NoUsableIndex,
    IndexCopyMissing,
    DivergentIndexes,
    ForeignIndex,
    InvalidIndexLocation,
    StaleVci,
    DivergentVci,
    DivergentLabels,
    UnindexedTail,
}

/// A VCI and the partition that it was read for.
pub type VciCopy = (u8, VolumeCoherencyInformation);

/// The outcome of a diagnosis.
#[derive(Debug, PartialEq, Eq)]
pub struct VolumeDiagnosis {
    pub label_uuid: Option<String>,
    pub candidates: Vec<IndexCandidateDiagnostic>,
    pub vci: Vec<VciCopy>,
    pub partition_errors: Vec<String>,
    pub consistency: VolumeConsistency,
    pub safe_for_normal_write: bool,
}

/// What the classification reads of a candidate.
pub struct CandidateModel {
    pub partition: u8,
    pub block: u64,
    pub index: Option<IndexModel>,
}

impl View for IndexCandidateDiagnostic {
    type V = CandidateModel;

    open spec fn view(&self) -> CandidateModel {
        CandidateModel {
            partition: self.physical_partition,
            block: self.actual_start_block,
            index: match self.index {
                Some(index) => Some(index@),
                None => None,
            },
        }
    }
}

/// What the classification reads of a VCI copy.
pub struct VciCopyModel {
    pub partition: u8,
    pub vci: VciModel,
}

pub open spec fn copy_model(c: VciCopy) -> VciCopyModel {
    VciCopyModel { partition: c.0, vci: c.1@ }
}

pub open spec fn candidate_models(list: Seq<IndexCandidateDiagnostic>) -> Seq<CandidateModel> {
    list.map_values(|c: IndexCandidateDiagnostic| c@)
}

pub open spec fn vci_models(list: Seq<VciCopy>) -> Seq<VciCopyModel> {
    list.map_values(|c: VciCopy| copy_model(c))
}

// ---------------------------------------------------------------------------
// Consistency
// ---------------------------------------------------------------------------

/// The candidate was read as an index.
pub open spec fn usable(c: CandidateModel) -> bool {
    c.index is Some
}

/// The index belongs to another volume than the label.
pub open spec fn foreign(c: CandidateModel, label_uuid: Option<Seq<char>>) -> bool {
    usable(c) && label_uuid is Some && c.index->0.volume_uuid != label_uuid->0
}

/// The index says that it stands elsewhere.
pub open spec fn mislocated(c: CandidateModel) -> bool {
    usable(c) && (c.index->0.self_location.partition != c.partition
        || c.index->0.self_location.startblock != c.block)
}

/// The position of the usable candidate of a partition with the highest generation, the
/// last of them where several have it.
pub open spec fn newest(candidates: Seq<CandidateModel>, partition: u8) -> Option<int>
    decreases candidates.len(),
{
    if candidates.len() == 0 {
        None
    } else {
        let before = newest(candidates.drop_last(), partition);
        let c = candidates.last();
        if usable(c) && c.partition == partition && (before is None || c.index->0.generation
            >= candidates[before->0].index->0.generation) {
            Some(candidates.len() - 1)
        } else {
            before
        }
    }
}

/// Something that could be an index stands behind the newest index of its partition.
pub open spec fn has_tail(candidates: Seq<CandidateModel>, k: int) -> bool {
    exists|i: int|
        #![trigger candidates[i]]
        0 <= i < candidates.len() && candidates[i].partition == candidates[k].partition
            && candidates[i].block > candidates[k].block
}

/// The two VCI copies are of one generation, one volume and one change reference.
pub open spec fn vci_agree(vci: Seq<VciCopyModel>) -> bool {
    vci.len() == 2 && forall|i: int|
        #![trigger vci[i]]
        0 <= i < vci.len() ==> vci[i].vci.generation == vci[0].vci.generation
            && vci[i].vci.volume_uuid == vci[0].vci.volume_uuid && vci[i].vci.vcr == vci[0].vci.vcr
}

/// The VCI copy is that of the index.
pub open spec fn vci_matches(c: VciCopyModel, index: IndexModel) -> bool {
    c.vci.generation == index.generation && c.vci.volume_uuid == index.volume_uuid
}

/// The VCI copy points to the newest index of its partition.
pub open spec fn vci_points(c: VciCopyModel, first: CandidateModel, second: CandidateModel) -> bool {
    if c.partition == first.partition {
        c.vci.block == first.block
    } else if c.partition == second.partition {
        c.vci.block == second.block
    } else {
        false
    }
}

/// How consistent a volume is. The checks are made in this order; the first that fails
/// decides.
pub open spec fn consistency_spec(
    label_uuid: Option<Seq<char>>,
    candidates: Seq<CandidateModel>,
    vci: Seq<VciCopyModel>,
) -> VolumeConsistency {
    let k0 = newest(candidates, 0);
    let k1 = newest(candidates, 1);
    if forall|i: int| 0 <= i < candidates.len() ==> !usable(#[trigger] candidates[i]) {
        VolumeConsistency::NoUsableIndex
    } else if exists|i: int| 0 <= i < candidates.len() && foreign(#[trigger] candidates[i], label_uuid) {
        VolumeConsistency::ForeignIndex
    } else if exists|i: int| 0 <= i < candidates.len() && mislocated(#[trigger] candidates[i]) {
        VolumeConsistency::InvalidIndexLocation
    } else if k0 is None || k1 is None {
        VolumeConsistency::IndexCopyMissing
    } else if has_tail(candidates, k0->0) || has_tail(candidates, k1->0) {
        VolumeConsistency::UnindexedTail
    } else {
        let first = candidates[k0->0].index->0;
        let second = candidates[k1->0].index->0;
        if second.generation != first.generation || second.volume_uuid != first.volume_uuid {
            VolumeConsistency::DivergentIndexes
        } else if vci.len() == 0 {
            VolumeConsistency::MamUnavailable
        } else if !vci_agree(vci) {
            VolumeConsistency::DivergentVci
        } else if exists|i: int| 0 <= i < vci.len() && !vci_matches(#[trigger] vci[i], first) {
            VolumeConsistency::StaleVci
        } else if exists|i: int|
            0 <= i < vci.len() && !vci_points(
                #[trigger] vci[i],
                candidates[k0->0],
                candidates[k1->0],
            ) {
            VolumeConsistency::StaleVci
        } else {
            VolumeConsistency::Healthy
        }
    }
}

/// Normal writes are safe on a healthy volume, and where only the VCI cannot be read.
pub open spec fn safe_spec(consistency: VolumeConsistency) -> bool {
    consistency is Healthy || consistency is MamUnavailable
}

fn find_newest(candidates: &Vec<IndexCandidateDiagnostic>, partition: u8) -> (position: Option<
    usize,
>)
    ensures
        match (position, newest(candidate_models(candidates@), partition)) {
            (Some(p), Some(k)) => p == k && p < candidates@.len()
                && candidates@[p as int].index is Some
                && candidates@[p as int].physical_partition == partition,
            (None, None) => true,
            _ => false,
        },
{
    let ghost all = candidate_models(candidates@);
    let mut best: Option<usize> = None;
    let mut generation: u64 = 0;
    let mut i: usize = 0;
    assert(all.subrange(0, 0) =~= Seq::<CandidateModel>::empty());
    while i < candidates.len()
        invariant
            i <= candidates@.len(),
            all == candidate_models(candidates@),
            match (best, newest(all.subrange(0, i as int), partition)) {
                (Some(p), Some(k)) => p == k && p < i && candidates@[p as int].index is Some
                    && generation == candidates@[p as int].index->0.generation
                    && candidates@[p as int].physical_partition == partition,
                (None, None) => true,
                _ => false,
            },
        decreases candidates@.len() - i,
    {
        proof {
            let next = all.subrange(0, i + 1);
            assert(next.drop_last() =~= all.subrange(0, i as int));
            assert(next.last() == candidates@[i as int]@);
            if best is Some {
                assert(next[best->0 as int] == candidates@[best->0 as int]@);
                assert(all.subrange(0, i as int)[best->0 as int] == candidates@[best->0 as int]@);
            }
        }
        match &candidates[i].index {
            Some(index) => {
                if candidates[i].physical_partition == partition && (best.is_none()
                    || index.generation >= generation) {
                    best = Some(i);
                    generation = index.generation;
                }
            },
            None => {},
        }
        i = i + 1;
    }
    assert(all.subrange(0, i as int) =~= all);
    best
}

fn tail_behind(candidates: &Vec<IndexCandidateDiagnostic>, k: usize) -> (yes: bool)
    requires
        k < candidates@.len(),
    ensures
        yes == has_tail(candidate_models(candidates@), k as int),
{
    let ghost all = candidate_models(candidates@);
    let partition: u8 = candidates[k].physical_partition;
    let block: u64 = candidates[k].actual_start_block;
    assert(all[k as int] == candidates@[k as int]@);
    let mut i: usize = 0;
    while i < candidates.len()
        invariant
            i <= candidates@.len(),
            k < candidates@.len(),
            all == candidate_models(candidates@),
            all[k as int].partition == partition,
            all[k as int].block == block,
            forall|j: int|
                #![trigger all[j]]
                0 <= j < i ==> !(all[j].partition == partition && all[j].block > block),
        decreases candidates@.len() - i,
    {
        assert(all[i as int] == candidates@[i as int]@);
        if candidates[i].physical_partition == partition && candidates[i].actual_start_block
            > block {
            return true;
        }
        i = i + 1;
    }
    false
}

/// What a pass over the candidates finds.
struct Findings {
    any_usable: bool,
    any_foreign: bool,
    any_mislocated: bool,
}

fn survey(label_uuid: Option<&str>, candidates: &Vec<IndexCandidateDiagnostic>) -> (f: Findings)
    ensures
        f.any_usable == !(forall|i: int|
            0 <= i < candidates@.len() ==> !usable(
                #[trigger] candidate_models(candidates@)[i],
            )),
        f.any_foreign == (exists|i: int|
            0 <= i < candidates@.len() && foreign(
                #[trigger] candidate_models(candidates@)[i],
                match label_uuid {
                    Some(u) => Some(u@),
                    None => None,
                },
            )),
        f.any_mislocated == (exists|i: int|
            0 <= i < candidates@.len() && mislocated(
                #[trigger] candidate_models(candidates@)[i],
            )),
{
    let ghost all = candidate_models(candidates@);
    let ghost uuid = match label_uuid {
        Some(u) => Some(u@),
        None => None,
    };
    let mut f = Findings { any_usable: false, any_foreign: false, any_mislocated: false };
    let mut i: usize = 0;
    while i < candidates.len()
        invariant
            i <= candidates@.len(),
            all == candidate_models(candidates@),
            uuid == (match label_uuid {
                Some(u) => Some(u@),
                None => None,
            }),
            f.any_usable == !(forall|j: int| 0 <= j < i ==> !usable(#[trigger] all[j])),
            f.any_foreign == (exists|j: int| 0 <= j < i && foreign(#[trigger] all[j], uuid)),
            f.any_mislocated == (exists|j: int| 0 <= j < i && mislocated(#[trigger] all[j])),
        decreases candidates@.len() - i,
    {
        let c = &candidates[i];
        assert(all[i as int] == c@);
        match &c.index {
            Some(index) => {
                f.any_usable = true;
                match label_uuid {
                    Some(u) => {
                        if !same(index.volume_uuid.as_str(), u) {
                            f.any_foreign = true;
                        }
                    },
                    None => {},
                }
                if index.self_location.partition != c.physical_partition
                    || index.self_location.startblock != c.actual_start_block {
                    f.any_mislocated = true;
                }
            },
            None => {},
        }
        i = i + 1;
    }
    f
}

fn copies_agree(vci: &Vec<VciCopy>) -> (yes: bool)
    ensures
        yes == vci_agree(vci_models(vci@)),
{
    let ghost all = vci_models(vci@);
    if vci.len() != 2 {
        return false;
    }
    assert(all[0] == copy_model(vci@[0]) && all[1] == copy_model(vci@[1]));
    let a = &vci[0].1;
    let b = &vci[1].1;
    let equal = b.generation == a.generation && same(
        b.volume_uuid.as_str(),
        a.volume_uuid.as_str(),
    ) && crate::bytes::same_bytes(b.vcr.as_slice(), a.vcr.as_slice());
    proof {
        if equal {
            assert forall|i: int| #![trigger all[i]] 0 <= i < all.len() implies all[i].vci.generation
                == all[0].vci.generation && all[i].vci.volume_uuid == all[0].vci.volume_uuid
                && all[i].vci.vcr == all[0].vci.vcr by {
                if i == 1 {
                    assert(all[i] == copy_model(vci@[1]));
                }
            }
        } else {
            assert(!vci_agree(all));
        }
    }
    equal
}

fn copies_current(
    vci: &Vec<VciCopy>,
    first: &Index,
    c0: &IndexCandidateDiagnostic,
    c1: &IndexCandidateDiagnostic,
) -> (result: (bool, bool))
    ensures
        result.0 == !(exists|i: int|
            0 <= i < vci@.len() && !vci_matches(#[trigger] vci_models(vci@)[i], first@)),
        result.1 == !(exists|i: int|
            0 <= i < vci@.len() && !vci_points(#[trigger] vci_models(vci@)[i], c0@, c1@)),
{
    let ghost all = vci_models(vci@);
    let mut matching = true;
    let mut pointing = true;
    let mut i: usize = 0;
    while i < vci.len()
        invariant
            i <= vci@.len(),
            all == vci_models(vci@),
            matching == !(exists|j: int| 0 <= j < i && !vci_matches(#[trigger] all[j], first@)),
            pointing == !(exists|j: int| 0 <= j < i && !vci_points(#[trigger] all[j], c0@, c1@)),
        decreases vci@.len() - i,
    {
        let c = &vci[i];
        assert(all[i as int] == copy_model(*c));
        if c.1.generation != first.generation || !same(
            c.1.volume_uuid.as_str(),
            first.volume_uuid.as_str(),
        ) {
            matching = false;
        }
        let points = if c.0 == c0.physical_partition {
            c.1.block == c0.actual_start_block
        } else if c.0 == c1.physical_partition {
            c.1.block == c1.actual_start_block
        } else {
            false
        };
        if !points {
            pointing = false;
        }
        i = i + 1;
    }
    (matching, pointing)
}

/// How consistent a volume is, and whether normal writes to it are safe.
pub fn classify_volume_consistency(
    label_uuid: Option<&str>,
    candidates: &Vec<IndexCandidateDiagnostic>,
    vci: &Vec<VciCopy>,
) -> (result: (VolumeConsistency, bool))
    ensures
        result.0 == consistency_spec(
            match label_uuid {
                Some(u) => Some(u@),
                None => None,
            },
            candidate_models(candidates@),
            vci_models(vci@),
        ),
        result.1 == safe_spec(result.0),
{
    let ghost all = candidate_models(candidates@);
    assert(all.len() == candidates@.len());
    assert(vci_models(vci@).len() == vci@.len());
    let found = survey(label_uuid, candidates);
    if !found.any_usable {
        return (VolumeConsistency::NoUsableIndex, false);
    }
    if found.any_foreign {
        return (VolumeConsistency::ForeignIndex, false);
    }
    if found.any_mislocated {
        return (VolumeConsistency::InvalidIndexLocation, false);
    }
    let (k0, k1) = match (find_newest(candidates, 0), find_newest(candidates, 1)) {
        (Some(k0), Some(k1)) => (k0, k1),
        _ => {
            return (VolumeConsistency::IndexCopyMissing, false);
        },
    };
    assert(all[k0 as int] == candidates@[k0 as int]@);
    assert(all[k1 as int] == candidates@[k1 as int]@);
    if tail_behind(candidates, k0) || tail_behind(candidates, k1) {
        return (VolumeConsistency::UnindexedTail, false);
    }
    let (first, second) = match (&candidates[k0].index, &candidates[k1].index) {
        (Some(first), Some(second)) => (first, second),
        _ => {
            return (VolumeConsistency::IndexCopyMissing, false);
        },
    };
    if second.generation != first.generation || !same(
        second.volume_uuid.as_str(),
        first.volume_uuid.as_str(),
    ) {
        return (VolumeConsistency::DivergentIndexes, false);
    }
    if vci.len() == 0 {
        return (VolumeConsistency::MamUnavailable, true);
    }
    if !copies_agree(vci) {
        return (VolumeConsistency::DivergentVci, false);
    }
    let (matching, pointing) = copies_current(vci, first, &candidates[k0], &candidates[k1]);
    if !matching || !pointing {
        return (VolumeConsistency::StaleVci, false);
    }
    (VolumeConsistency::Healthy, true)
}

proof fn lemma_newest(candidates: Seq<CandidateModel>, partition: u8)
    ensures
        match newest(candidates, partition) {
            Some(k) => 0 <= k < candidates.len() && usable(candidates[k])
                && candidates[k].partition == partition && forall|i: int|
                #![trigger candidates[i]]
                0 <= i < candidates.len() && usable(candidates[i]) && candidates[i].partition
                    == partition ==> candidates[i].index->0.generation
                    <= candidates[k].index->0.generation,
            None => forall|i: int|
                #![trigger candidates[i]]
                0 <= i < candidates.len() ==> !(usable(candidates[i]) && candidates[i].partition
                    == partition),
        },
    decreases candidates.len(),
{
    if candidates.len() > 0 {
        let front = candidates.drop_last();
        lemma_newest(front, partition);
        assert forall|i: int| 0 <= i < front.len() implies front[i] == #[trigger] candidates[i] by {}
        assert(candidates[candidates.len() - 1] == candidates.last());
    }
}

/// A volume that is safe to write has an index on both partitions, of one generation and
/// one volume, that of the label, each where it says it stands, newest in its partition
/// and with nothing behind it.
pub proof fn safe_volume_has_matching_copies(
    label_uuid: Option<Seq<char>>,
    candidates: Seq<CandidateModel>,
    vci: Seq<VciCopyModel>,
)
    requires
        safe_spec(consistency_spec(label_uuid, candidates, vci)),
    ensures
        exists|i: int, j: int|
            #![trigger candidates[i], candidates[j]]
            0 <= i < candidates.len() && 0 <= j < candidates.len() && usable(candidates[i])
                && usable(candidates[j]) && candidates[i].partition == 0 && candidates[j].partition
                == 1 && candidates[i].index->0.generation == candidates[j].index->0.generation
                && candidates[i].index->0.volume_uuid == candidates[j].index->0.volume_uuid && (
            label_uuid is Some ==> candidates[i].index->0.volume_uuid == label_uuid->0)
                && !mislocated(candidates[i]) && !mislocated(candidates[j]) && !has_tail(
                candidates,
                i,
            ) && !has_tail(candidates, j),
{
    lemma_newest(candidates, 0);
    lemma_newest(candidates, 1);
    let i = newest(candidates, 0)->0;
    let j = newest(candidates, 1)->0;
    assert(!foreign(candidates[i], label_uuid));
    assert(!mislocated(candidates[i]));
    assert(!mislocated(candidates[j]));
}

/// A healthy volume has two VCI copies of the generation and volume of its index, and
/// each points to the newest index of its partition.
pub proof fn healthy_volume_has_current_vci(
    label_uuid: Option<Seq<char>>,
    candidates: Seq<CandidateModel>,
    vci: Seq<VciCopyModel>,
)
    requires
        consistency_spec(label_uuid, candidates, vci) is Healthy,
    ensures
        vci.len() == 2,
        newest(candidates, 0) is Some,
        newest(candidates, 1) is Some,
        forall|i: int|
            #![trigger vci[i]]
            0 <= i < 2 ==> vci_matches(vci[i], candidates[newest(candidates, 0)->0].index->0)
                && vci_points(
                vci[i],
                candidates[newest(candidates, 0)->0],
                candidates[newest(candidates, 1)->0],
            ),
{
}

/// An index candidate that belongs to a volume and stands where it says.
pub open spec fn at_home(c: CandidateModel, uuid: Seq<char>) -> bool {
    usable(c) ==> c.index->0.volume_uuid == uuid && c.index->0.self_location.partition
        == c.partition && c.index->0.self_location.startblock == c.block
}

/// Of a partition, `k` is the newest index, and nothing stands behind it.
pub open spec fn stands_last(candidates: Seq<CandidateModel>, k: int, generation: u64) -> bool {
    &&& 0 <= k < candidates.len()
    &&& usable(candidates[k])
    &&& candidates[k].index->0.generation == generation
    &&& forall|i: int|
        0 <= i < candidates.len() && i != k && (#[trigger] candidates[i]).partition
            == candidates[k].partition ==> candidates[i].block <= candidates[k].block && (usable(
            candidates[i],
        ) ==> candidates[i].index->0.generation < generation)
}

/// A volume that a commit has left is healthy: where the newest index of each partition is of
/// the same generation and volume, all indexes belong to the volume of the label and stand
/// where they say, nothing stands behind the newest ones, and the coherency information of
/// both partitions, with one reference, tells that generation and where its index stands.
/// Without any coherency information the volume is still safe to write.
pub proof fn committed_volume_is_healthy(
    uuid: Seq<char>,
    labelled: bool,
    candidates: Seq<CandidateModel>,
    vci: Seq<VciCopyModel>,
    generation: u64,
    i: int,
    j: int,
)
    requires
        stands_last(candidates, i, generation),
        stands_last(candidates, j, generation),
        candidates[i].partition == 0,
        candidates[j].partition == 1,
        forall|k: int| 0 <= k < candidates.len() ==> at_home(#[trigger] candidates[k], uuid),
        vci.len() == 0 || vci.len() == 2,
        forall|k: int|
            0 <= k < vci.len() ==> {
                &&& (#[trigger] vci[k]).partition <= 1
                &&& vci[k].vci.generation == generation
                &&& vci[k].vci.volume_uuid == uuid
                &&& vci[k].vci.vcr == vci[0].vci.vcr
                &&& vci[k].vci.block == if vci[k].partition == 0 {
                    candidates[i].block
                } else {
                    candidates[j].block
                }
            },
    ensures
        ({
            let found = consistency_spec(
                if labelled {
                    Some(uuid)
                } else {
                    None
                },
                candidates,
                vci,
            );
            &&& safe_spec(found)
            &&& vci.len() == 2 ==> found is Healthy
        }),
{
    lemma_newest(candidates, 0);
    lemma_newest(candidates, 1);
    let k0 = newest(candidates, 0);
    let k1 = newest(candidates, 1);
    assert(usable(candidates[i]) && usable(candidates[j]));
    assert(k0 is Some && k1 is Some);
    assert(k0->0 == i) by {
        if k0->0 != i {
            assert(candidates[k0->0].partition == candidates[i].partition);
        }
    }
    assert(k1->0 == j) by {
        if k1->0 != j {
            assert(candidates[k1->0].partition == candidates[j].partition);
        }
    }
    let label = if labelled {
        Some(uuid)
    } else {
        None
    };
    assert forall|k: int| 0 <= k < candidates.len() implies !foreign(
        #[trigger] candidates[k],
        label,
    ) && !mislocated(candidates[k]) by {
        assert(at_home(candidates[k], uuid));
    }
    assert(at_home(candidates[i], uuid) && at_home(candidates[j], uuid));
    assert(!has_tail(candidates, i));
    assert(!has_tail(candidates, j));
    if vci.len() == 2 {
        assert(vci_agree(vci));
        assert forall|k: int| 0 <= k < vci.len() implies vci_matches(
            #[trigger] vci[k],
            candidates[i].index->0,
        ) && vci_points(vci[k], candidates[i], candidates[j]) by {}
    }
}

} // verus!
