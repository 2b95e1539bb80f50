//! What is to be written: source roots, what they hold, and where it goes on the volume.
use vstd::prelude::*;
use vstd::string::*;

use crate::ltfs::index::{
    directory_at, entry_models, entry_name, lemma_entries, Directory, DirModel, Index,
};
use crate::paths::{file_name, file_name_spec, path_starts_with, starts_with_path};
use crate::text::{cat2, cat3, cat4, position_of, same, trim_end_char, views, without_trailing};

verus! {

// ---------------------------------------------------------------------------
// Destinations
// ---------------------------------------------------------------------------

/// The name that a source root gets on the volume.
pub open spec fn root_name_spec(path: Seq<char>) -> Result<Seq<char>, Seq<char>> {
    match file_name_spec(path) {
        Some(name) => Ok(name),
        None => Err("source root 没有可用的 LTFS 名称: "@ + path),
    }
}

pub open spec fn text_outcome(result: Result<String, String>) -> Result<Seq<char>, Seq<char>> {
    match result {
        Ok(text) => Ok(text@),
        Err(message) => Err(message@),
    }
}

/// The name that a source root gets on the volume: its last component.
pub fn source_root_name(source_root: &str) -> (result: Result<String, String>)
    ensures
        text_outcome(result) == root_name_spec(source_root@),
{
    match file_name(source_root) {
        Some(name) => Ok(name),
        None => Err(cat2("source root 没有可用的 LTFS 名称: ", source_root)),
    }
}

/// `name` below a directory of the volume.
pub open spec fn target_path(directory: Seq<char>, name: Seq<char>) -> Seq<char> {
    if directory == "/"@ {
        "/"@ + name
    } else {
        without_trailing(directory, '/') + "/"@ + name
    }
}

fn target_of(directory: &str, name: &str) -> (path: String)
    ensures
        path@ == target_path(directory@, name@),
{
    if same(directory, "/") {
        cat2("/", name)
    } else {
        cat3(trim_end_char(directory, '/').as_str(), "/", name)
    }
}

/// An entry of the directory has the name.
pub open spec fn has_entry(d: DirModel, name: Seq<char>) -> bool {
    exists|i: int| 0 <= i < d.entries.len() && entry_name(#[trigger] d.entries[i]) == name
}

/// Whether a directory has an entry with the name.
pub fn contains_entry(d: &Directory, name: &str) -> (yes: bool)
    ensures
        yes == has_entry(d@, name@),
{
    proof {
        lemma_entries(*d);
    }
    let mut i: usize = 0;
    while i < d.entries.len()
        invariant
            i <= d.entries@.len(),
            d@.entries == entry_models(d.entries@),
            forall|j: int| 0 <= j < i ==> entry_name(#[trigger] d@.entries[j]) != name@,
        decreases d.entries@.len() - i,
    {
        assert(d@.entries[i as int] == d.entries@[i as int]@);
        if same(d.entries[i].name(), name) {
            return true;
        }
        i = i + 1;
    }
    false
}

/// Where a source root goes: a new entry of an existing directory that is not read-only.
pub open spec fn destination_spec(
    root: DirModel,
    source_root: Seq<char>,
    directory: Seq<char>,
) -> Result<Seq<char>, Seq<char>> {
    match root_name_spec(source_root) {
        Err(message) => Err(message),
        Ok(name) => match directory_at(root, directory) {
            None => Err("LTFS destination 不存在: "@ + directory),
            Some(d) => if d.readonly {
                Err("LTFS destination 为 readonly: "@ + directory)
            } else if has_entry(d, name) {
                Err("LTFS target 已存在: "@ + directory + "/"@ + name)
            } else {
                Ok(target_path(directory, name))
            },
        },
    }
}

/// Where a source root goes in a directory of the volume.
pub fn plan_write_destination(index: &Index, source_root: &str, destination_directory: &str) -> (result:
    Result<String, String>)
    ensures
        text_outcome(result) == destination_spec(
            index.root@,
            source_root@,
            destination_directory@,
        ),
{
    let name = match source_root_name(source_root) {
        Ok(name) => name,
        Err(message) => {
            return Err(message);
        },
    };
    match index.find_directory(destination_directory) {
        None => Err(cat2("LTFS destination 不存在: ", destination_directory)),
        Some(d) => {
            if d.readonly {
                Err(cat2("LTFS destination 为 readonly: ", destination_directory))
            } else if contains_entry(d, name.as_str()) {
                Err(cat4("LTFS target 已存在: ", destination_directory, "/", name.as_str()))
            } else {
                Ok(target_of(destination_directory, name.as_str()))
            }
        },
    }
}

/// Where several source roots go; no two may go to the same place.
pub open spec fn destinations_spec(
    root: DirModel,
    source_roots: Seq<Seq<char>>,
    directory: Seq<char>,
) -> Result<Seq<Seq<char>>, Seq<char>>
    decreases source_roots.len(),
{
    if source_roots.len() == 0 {
        Ok(Seq::empty())
    } else {
        match destinations_spec(root, source_roots.drop_last(), directory) {
            Err(message) => Err(message),
            Ok(targets) => match destination_spec(root, source_roots.last(), directory) {
                Err(message) => Err(message),
                Ok(target) => if targets.contains(target) {
                    Err("多个 source root 映射到同一个 LTFS target: "@ + target)
                } else {
                    Ok(targets.push(target))
                },
            },
        }
    }
}

proof fn lemma_destinations_error(
    root: DirModel,
    source_roots: Seq<Seq<char>>,
    directory: Seq<char>,
    n: int,
)
    requires
        0 <= n <= source_roots.len(),
        destinations_spec(root, source_roots.subrange(0, n), directory) is Err,
    ensures
        destinations_spec(root, source_roots, directory) == destinations_spec(
            root,
            source_roots.subrange(0, n),
            directory,
        ),
    decreases source_roots.len() - n,
{
    if n == source_roots.len() {
        assert(source_roots.subrange(0, n) =~= source_roots);
    } else {
        assert(source_roots.subrange(0, n + 1).drop_last() =~= source_roots.subrange(0, n));
        lemma_destinations_error(root, source_roots, directory, n + 1);
    }
}

/// Where the source roots go in a directory of the volume.
pub fn validate_write_destinations(
    index: &Index,
    source_roots: &Vec<String>,
    destination_directory: &str,
) -> (result: Result<Vec<String>, String>)
    ensures
        match result {
            Ok(targets) => destinations_spec(
                index.root@,
                views(source_roots@),
                destination_directory@,
            ) == Ok::<Seq<Seq<char>>, Seq<char>>(views(targets@)),
            Err(message) => destinations_spec(
                index.root@,
                views(source_roots@),
                destination_directory@,
            ) == Err::<Seq<Seq<char>>, Seq<char>>(message@),
        },
{
    let ghost roots = views(source_roots@);
    let mut targets: Vec<String> = Vec::new();
    let mut i: usize = 0;
    proof {
        assert(roots.subrange(0, 0) =~= Seq::<Seq<char>>::empty());
        assert(views(targets@) =~= Seq::<Seq<char>>::empty());
    }
    while i < source_roots.len()
        invariant
            i <= source_roots@.len(),
            roots == views(source_roots@),
            destinations_spec(
                index.root@,
                roots.subrange(0, i as int),
                destination_directory@,
            ) == Ok::<Seq<Seq<char>>, Seq<char>>(views(targets@)),
        decreases source_roots@.len() - i,
    {
        proof {
            let next = roots.subrange(0, i + 1);
            assert(next.drop_last() =~= roots.subrange(0, i as int));
            assert(next.last() == source_roots@[i as int]@);
        }
        match plan_write_destination(index, source_roots[i].as_str(), destination_directory) {
            Ok(target) => {
                match position_of(&targets, target.as_str()) {
                    Some(p) => {
                        proof {
                            assert(views(targets@)[p as int] == target@);
                            lemma_destinations_error(
                                index.root@,
                                roots,
                                destination_directory@,
                                i + 1,
                            );
                        }
                        return Err(
                            cat2(
                                "多个 source root 映射到同一个 LTFS target: ",
                                target.as_str(),
                            ),
                        );
                    },
                    None => {
                        assert(!views(targets@).contains(target@)) by {
                            if views(targets@).contains(target@) {
                                let k = choose|k: int|
                                    0 <= k < views(targets@).len() && views(targets@)[k] == target@;
                                assert(targets@[k]@ == target@);
                            }
                        }
                        let ghost before = targets@;
                        targets.push(target);
                        assert(views(targets@) =~= views(before).push(target@));
                    },
                }
            },
            Err(message) => {
                proof {
                    lemma_destinations_error(index.root@, roots, destination_directory@, i + 1);
                }
                return Err(message);
            },
        }
        i = i + 1;
    }
    assert(roots.subrange(0, i as int) =~= roots);
    Ok(targets)
}

/// Destinations that are granted are as many as the source roots and all different.
pub proof fn destinations_are_distinct(
    root: DirModel,
    source_roots: Seq<Seq<char>>,
    directory: Seq<char>,
)
    requires
        destinations_spec(root, source_roots, directory) is Ok,
    ensures
        destinations_spec(root, source_roots, directory)->Ok_0.len() == source_roots.len(),
        destinations_spec(root, source_roots, directory)->Ok_0.no_duplicates(),
    decreases source_roots.len(),
{
    if source_roots.len() > 0 {
        destinations_are_distinct(root, source_roots.drop_last(), directory);
    }
}

// ---------------------------------------------------------------------------
// Scanning sources
// ---------------------------------------------------------------------------

/// A file as it was when it was scanned.
#[derive(Debug, PartialEq, Eq)]
pub struct SourceFileSnapshot {
    pub path: String,
    pub size: u64,
}

/// What the source roots hold.
#[derive(Debug, PartialEq, Eq)]
pub struct SourcePlan {
    pub roots: Vec<String>,
    pub files: Vec<SourceFileSnapshot>,
    pub directories_total: usize,
    pub payload_bytes: u64,
    pub scanned_at: String,
}

/// The model of what the source roots hold.
#[verifier::ext_equal]
pub struct SourceModel {
    pub roots: Seq<Seq<char>>,
    pub files: Seq<(Seq<char>, u64)>,
    pub directories_total: usize,
    pub payload_bytes: u64,
    pub scanned_at: Seq<char>,
}

pub open spec fn file_pairs(list: Seq<SourceFileSnapshot>) -> Seq<(Seq<char>, u64)> {
    list.map_values(|f: SourceFileSnapshot| (f.path@, f.size))
}

impl View for SourcePlan {
    type V = SourceModel;

    open spec fn view(&self) -> SourceModel {
        SourceModel {
            roots: views(self.roots@),
            files: file_pairs(self.files@),
            directories_total: self.directories_total,
            payload_bytes: self.payload_bytes,
            scanned_at: self.scanned_at@,
        }
    }
}

/// How far a scan is.
#[derive(Debug, PartialEq, Eq)]
pub struct SourceScanProgress {
    pub current_path: String,
    pub files_seen: usize,
    pub directories_seen: usize,
    pub payload_bytes: u64,
}

/// What an entry of a source is.
#[derive(Debug, Clone, Copy, PartialEq, Eq, Structural)]
pub enum SourceEntry {
    Symlink,
    File { size: u64 },
    Directory,
    Other,
}

/// One of the paths is the other or lies below it.
pub open spec fn overlap(a: Seq<char>, b: Seq<char>) -> bool {
    path_starts_with(a, b) || path_starts_with(b, a)
}

/// A path overlaps one of those that are there.
pub open spec fn overlaps_any(roots: Seq<Seq<char>>, path: Seq<char>) -> bool {
    exists|i: int| 0 <= i < roots.len() && overlap(path, #[trigger] roots[i])
}

/// The plan with an entry of a source, or why the entry cannot be written.
pub open spec fn scanned(
    p: SourceModel,
    path: Seq<char>,
    entry: SourceEntry,
    cancelled: bool,
) -> Result<SourceModel, Seq<char>> {
    if cancelled {
        Err("[cancelled]source scan 已取消"@)
    } else {
        match entry {
            SourceEntry::Symlink => Err("第一阶段暂不写入符号链接: "@ + path),
            SourceEntry::File { size } => if p.payload_bytes + size > u64::MAX {
                Err("source payload bytes 溢出"@)
            } else {
                Ok(
                    SourceModel {
                        payload_bytes: (p.payload_bytes + size) as u64,
                        files: p.files.push((path, size)),
                        ..p
                    },
                )
            },
            SourceEntry::Directory => Ok(
                SourceModel {
                    directories_total: if p.directories_total == usize::MAX {
                        usize::MAX
                    } else {
                        (p.directories_total + 1) as usize
                    },
                    ..p
                },
            ),
            SourceEntry::Other => Err("source 不是普通文件或目录: "@ + path),
        }
    }
}

impl SourcePlan {
    /// A plan without roots.
    pub fn empty(scanned_at: &str) -> (plan: SourcePlan)
        ensures
            plan@ == (SourceModel {
                roots: Seq::empty(),
                files: Seq::empty(),
                directories_total: 0,
                payload_bytes: 0,
                scanned_at: scanned_at@,
            }),
    {
        let plan = SourcePlan {
            roots: Vec::new(),
            files: Vec::new(),
            directories_total: 0,
            payload_bytes: 0,
            scanned_at: scanned_at.to_owned(),
        };
        assert(plan@ =~= SourceModel {
            roots: Seq::empty(),
            files: Seq::empty(),
            directories_total: 0,
            payload_bytes: 0,
            scanned_at: scanned_at@,
        });
        plan
    }

    /// Adds a root, given by the path that it was asked for and the one that it resolves
    /// to. Roots may not be symbolic links, and none may lie in another.
    pub fn add_root(&mut self, root: &str, symlink: bool, canonical: &str) -> (result: Result<
        (),
        String,
    >)
        ensures
            match result {
                Ok(_) => !symlink && !overlaps_any(old(self)@.roots, canonical@) && final(self)@
                    == (SourceModel { roots: old(self)@.roots.push(canonical@), ..old(self)@ }),
                Err(message) => final(self)@ == old(self)@ && message@ == (if symlink {
                    "第一阶段暂不写入符号链接: "@ + root@
                } else {
                    "source roots 重复或互相包含: "@ + root@
                }) && (symlink || overlaps_any(old(self)@.roots, canonical@)),
            },
    {
        if symlink {
            return Err(cat2("第一阶段暂不写入符号链接: ", root));
        }
        let ghost roots = views(self.roots@);
        let mut i: usize = 0;
        while i < self.roots.len()
            invariant
                !symlink,
                *self == *old(self),
                i <= self.roots@.len(),
                roots == views(self.roots@),
                forall|j: int| 0 <= j < i ==> !overlap(canonical@, #[trigger] roots[j]),
            decreases self.roots@.len() - i,
        {
            let existing = self.roots[i].as_str();
            assert(roots[i as int] == existing@);
            if starts_with_path(canonical, existing) || starts_with_path(existing, canonical) {
                return Err(cat2("source roots 重复或互相包含: ", root));
            }
            i = i + 1;
        }
        let text = canonical.to_owned();
        self.roots.push(text);
        assert(views(self.roots@) =~= roots.push(canonical@));
        Ok(())
    }

    /// Adds an entry of a source. On success the progress is reported.
    pub fn add_entry(&mut self, path: &str, entry: SourceEntry, cancelled: bool) -> (result: Result<
        SourceScanProgress,
        String,
    >)
        ensures
            match result {
                Ok(progress) => scanned(old(self)@, path@, entry, cancelled) == Ok::<
                    SourceModel,
                    Seq<char>,
                >(final(self)@) && progress.current_path@ == path@ && progress.files_seen
                    == final(self)@.files.len() && progress.directories_seen
                    == final(self)@.directories_total && progress.payload_bytes
                    == final(self)@.payload_bytes,
                Err(message) => final(self)@ == old(self)@ && scanned(
                    old(self)@,
                    path@,
                    entry,
                    cancelled,
                ) == Err::<SourceModel, Seq<char>>(message@),
            },
    {
        if cancelled {
            return Err("[cancelled]source scan 已取消".to_owned());
        }
        match entry {
            SourceEntry::Symlink => {
                return Err(cat2("第一阶段暂不写入符号链接: ", path));
            },
            SourceEntry::File { size } => {
                match self.payload_bytes.checked_add(size) {
                    Some(total) => {
                        self.payload_bytes = total;
                    },
                    None => {
                        return Err("source payload bytes 溢出".to_owned());
                    },
                }
                let ghost before = self.files@;
                self.files.push(SourceFileSnapshot { path: path.to_owned(), size });
                assert(file_pairs(self.files@) =~= file_pairs(before).push((path@, size)));
            },
            SourceEntry::Directory => {
                self.directories_total = self.directories_total.saturating_add(1);
            },
            SourceEntry::Other => {
                return Err(cat2("source 不是普通文件或目录: ", path));
            },
        }
        assert(self@.files.len() == self.files@.len());
        Ok(
            SourceScanProgress {
                current_path: path.to_owned(),
                files_seen: self.files.len(),
                directories_seen: self.directories_total,
                payload_bytes: self.payload_bytes,
            },
        )
    }
}

/// The sizes of the files add up to the payload.
pub open spec fn sizes_total(files: Seq<(Seq<char>, u64)>) -> nat
    decreases files.len(),
{
    if files.len() == 0 {
        0
    } else {
        sizes_total(files.drop_last()) + files.last().1 as nat
    }
}

/// A scan keeps the payload equal to the sum of the sizes of its files.
pub proof fn scan_keeps_payload(
    p: SourceModel,
    path: Seq<char>,
    entry: SourceEntry,
    cancelled: bool,
)
    requires
        p.payload_bytes == sizes_total(p.files),
        scanned(p, path, entry, cancelled) is Ok,
    ensures
        scanned(p, path, entry, cancelled)->Ok_0.payload_bytes == sizes_total(
            scanned(p, path, entry, cancelled)->Ok_0.files,
        ),
{
    match entry {
        SourceEntry::File { size } => {
            assert(p.files.push((path, size)).drop_last() =~= p.files);
        },
        _ => {},
    }
}

// ---------------------------------------------------------------------------
// Capacity
// ---------------------------------------------------------------------------

#[derive(Debug, Clone, Copy, PartialEq, Eq, Structural)]
pub enum CapacitySource {
    MamRemainingCapacity,
}

#[derive(Debug, Clone, Copy, PartialEq, Eq, Structural)]
pub enum CapacityStatus {
    Normal,
    WarningAboveNinetyPercent,
    BlockedInsufficient,
    Unknown,
}

/// Whether a payload fits on the tape. The planned fraction is the quotient of
/// `payload_bytes` and `available_bytes`, where that is not zero.
#[derive(Debug, PartialEq, Eq)]
pub struct CapacityAssessment {
    pub payload_bytes: u64,
    pub available_bytes: Option<u64>,
    pub status: CapacityStatus,
    pub source: Option<CapacitySource>,
    pub sampled_at: String,
}

/// The capacity in bytes, where it is known and fits in 64 bits.
pub open spec fn available_spec(remaining_mib: Option<u64>) -> Option<u64> {
    match remaining_mib {
        Some(mib) => if mib * 1048576 <= u64::MAX {
            Some((mib * 1048576) as u64)
        } else {
            None
        },
        None => None,
    }
}

/// More than nine tenths is worth a warning; more than all of it is too much.
pub open spec fn status_spec(payload: u64, available: Option<u64>) -> CapacityStatus {
    match available {
        None => CapacityStatus::Unknown,
        Some(bytes) => if payload > bytes {
            CapacityStatus::BlockedInsufficient
        } else if payload * 10 > bytes * 9 {
            CapacityStatus::WarningAboveNinetyPercent
        } else {
            CapacityStatus::Normal
        },
    }
}

/// Whether a payload fits in the remaining capacity of a tape.
pub fn assess_write_capacity(
    payload_bytes: u64,
    remaining_capacity_mib: Option<u64>,
    sampled_at: &str,
) -> (assessment: CapacityAssessment)
    ensures
        assessment.payload_bytes == payload_bytes,
        assessment.available_bytes == available_spec(remaining_capacity_mib),
        assessment.status == status_spec(payload_bytes, available_spec(remaining_capacity_mib)),
        assessment.source == (if available_spec(remaining_capacity_mib) is Some {
            Some(CapacitySource::MamRemainingCapacity)
        } else {
            None
        }),
        assessment.sampled_at@ == sampled_at@,
{
    let available_bytes: Option<u64> = match remaining_capacity_mib {
        Some(mib) => mib.checked_mul(1048576),
        None => None,
    };
    let status = match available_bytes {
        None => CapacityStatus::Unknown,
        Some(available) => {
            if payload_bytes > available {
                CapacityStatus::BlockedInsufficient
            } else if (payload_bytes as u128) * 10 > (available as u128) * 9 {
                CapacityStatus::WarningAboveNinetyPercent
            } else {
                CapacityStatus::Normal
            }
        },
    };
    CapacityAssessment {
        payload_bytes,
        available_bytes,
        status,
        source: if available_bytes.is_some() {
            Some(CapacitySource::MamRemainingCapacity)
        } else {
            None
        },
        sampled_at: sampled_at.to_owned(),
    }
}

/// A payload that is not blocked fits in the capacity, and one that is normal leaves a
/// tenth of it free.
pub proof fn capacity_thresholds(payload: u64, available: u64)
    ensures
        status_spec(payload, Some(available)) is BlockedInsufficient <==> payload > available,
        status_spec(payload, Some(available)) is Normal ==> payload <= available - available / 10,
{
}

// ---------------------------------------------------------------------------
// The confirmed plan
// ---------------------------------------------------------------------------

/// What a plan held when it was confirmed.
#[derive(Debug, Clone, Copy, PartialEq, Eq, Structural)]
pub struct WritePlanExpectation {
    pub files: usize,
    pub directories: usize,
    pub payload_bytes: u64,
}

/// "F files / D directories / B bytes".
pub open spec fn totals_text(files: nat, directories: nat, bytes: nat) -> Seq<char> {
    crate::text::decimal_spec(files) + " files / "@ + crate::text::decimal_spec(directories)
        + " directories / "@ + crate::text::decimal_spec(bytes) + " bytes"@
}

fn totals(files: usize, directories: usize, bytes: u64) -> (text: String)
    ensures
        text@ == totals_text(files as nat, directories as nat, bytes as nat),
{
    crate::text::cat6(
        crate::text::decimal(files as u64).as_str(),
        " files / ",
        crate::text::decimal(directories as u64).as_str(),
        " directories / ",
        crate::text::decimal(bytes).as_str(),
        " bytes",
    )
}

/// Whether a plan is still what was confirmed.
pub fn validate_write_plan_expectation(
    files: usize,
    directories: usize,
    payload_bytes: u64,
    expected: WritePlanExpectation,
) -> (result: Result<(), String>)
    ensures
        match result {
            Ok(_) => files == expected.files && directories == expected.directories
                && payload_bytes == expected.payload_bytes,
            Err(message) => !(files == expected.files && directories == expected.directories
                && payload_bytes == expected.payload_bytes) && message@
                == "source 在最终确认后发生变化：计划 "@ + totals_text(
                expected.files as nat,
                expected.directories as nat,
                expected.payload_bytes as nat,
            ) + "，当前 "@ + totals_text(files as nat, directories as nat, payload_bytes as nat),
        },
{
    if files == expected.files && directories == expected.directories && payload_bytes
        == expected.payload_bytes {
        return Ok(());
    }
    Err(
        cat4(
            "source 在最终确认后发生变化：计划 ",
            totals(expected.files, expected.directories, expected.payload_bytes).as_str(),
            "，当前 ",
            totals(files, directories, payload_bytes).as_str(),
        ),
    )
}

} // verus!
