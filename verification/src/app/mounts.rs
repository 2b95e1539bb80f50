//! Mounted filesystems and host directories.
use vstd::prelude::*;
use vstd::string::*;

use crate::paths::{
    component_count, components, lemma_path_le_total, lemma_path_le_trans, path_at_most, path_le,
    path_starts_with, same_path, same_path_spec, starts_with_path,
};
use crate::sort::{
    ascending, lemma_sorted_models, sorted_by, sorting_by_orders, stable_sort, stably_sorted,
    total_order, Ranked,
};
use crate::text::{
    cat3, decimal, decimal_spec, has_prefix, lemma_text_le_total, lemma_text_le_trans, lines,
    lines_spec, replace, replaced_spec, same, split_at_spec, split_at_text, starts_with, text_le,
    views, words, words_spec,
};

verus! {

/// A filesystem that the host has mounted.
#[derive(Debug, PartialEq, Eq)]
pub struct MountedFilesystem {
    pub mount_point: String,
    pub filesystem_type: String,
    pub source: String,
    pub network: bool,
}

/// The model of a mounted filesystem.
#[verifier::ext_equal]
pub struct MountModel {
    pub mount_point: Seq<char>,
    pub filesystem_type: Seq<char>,
    pub source: Seq<char>,
    pub network: bool,
}

impl View for MountedFilesystem {
    type V = MountModel;

    open spec fn view(&self) -> MountModel {
        MountModel {
            mount_point: self.mount_point@,
            filesystem_type: self.filesystem_type@,
            source: self.source@,
            network: self.network,
        }
    }
}

impl Clone for MountedFilesystem {
    fn clone(&self) -> (copy: MountedFilesystem)
        ensures
            copy == *self,
    {
        MountedFilesystem {
            mount_point: self.mount_point.clone(),
            filesystem_type: self.filesystem_type.clone(),
            source: self.source.clone(),
            network: self.network,
        }
    }
}

pub open spec fn mount_models(list: Seq<MountedFilesystem>) -> Seq<MountModel> {
    list.map_values(|m: MountedFilesystem| m@)
}

#[derive(Debug, Clone, Copy, PartialEq, Eq, Structural)]
pub enum BrowserEntryKind {
    Directory,
    File,
    Symlink,
    Other,
}

/// An entry of a host directory.
#[derive(Debug, PartialEq, Eq)]
pub struct BrowserEntry {
    pub path: String,
    pub name: String,
    pub kind: BrowserEntryKind,
    pub size: Option<u64>,
}

impl Clone for BrowserEntry {
    fn clone(&self) -> (copy: BrowserEntry)
        ensures
            copy == *self,
    {
        BrowserEntry {
            path: self.path.clone(),
            name: self.name.clone(),
            kind: self.kind,
            size: self.size,
        }
    }
}

// ---------------------------------------------------------------------------
// The mount table
// ---------------------------------------------------------------------------

/// Blanks, tabs, line feeds and backslashes are written as octal escapes.
pub open spec fn unescaped_mount(value: Seq<char>) -> Seq<char> {
    let a = replaced_spec(value, "\\040"@, " "@);
    let b = replaced_spec(a, "\\011"@, "\t"@);
    let c = replaced_spec(b, "\\012"@, "\n"@);
    replaced_spec(c, "\\134"@, "\\"@)
}

pub fn unescape_mountinfo(value: &str) -> (text: String)
    ensures
        text@ == unescaped_mount(value@),
{
    proof {
        reveal_strlit("\\040");
        reveal_strlit("\\011");
        reveal_strlit("\\012");
        reveal_strlit("\\134");
    }
    let a = replace(value, "\\040", " ");
    let b = replace(a.as_str(), "\\011", "\t");
    let c = replace(b.as_str(), "\\012", "\n");
    replace(c.as_str(), "\\134", "\\")
}

/// A filesystem that is reached over a network.
pub open spec fn is_network(filesystem_type: Seq<char>) -> bool {
    ||| filesystem_type == "nfs"@
    ||| filesystem_type == "nfs4"@
    ||| filesystem_type == "cifs"@
    ||| filesystem_type == "smb3"@
    ||| filesystem_type == "9p"@
    ||| filesystem_type == "ceph"@
    ||| filesystem_type == "glusterfs"@
    ||| filesystem_type == "sshfs"@
    ||| has_prefix(filesystem_type, "fuse.sshfs"@)
}

pub fn is_network_filesystem(filesystem_type: &str) -> (yes: bool)
    ensures
        yes == is_network(filesystem_type@),
{
    same(filesystem_type, "nfs") || same(filesystem_type, "nfs4") || same(filesystem_type, "cifs")
        || same(filesystem_type, "smb3") || same(filesystem_type, "9p") || same(
        filesystem_type,
        "ceph",
    ) || same(filesystem_type, "glusterfs") || same(filesystem_type, "sshfs") || starts_with(
        filesystem_type,
        "fuse.sshfs",
    )
}

/// A line of the mount table: the mount point is the fifth field before " - ", the type
/// and the source are the first two behind it.
pub open spec fn mount_line(line: Seq<char>, number: nat) -> Result<MountModel, Seq<char>> {
    match split_at_spec(line, " - "@) {
        None => Err("mountinfo 第 "@ + decimal_spec(number) + " 行缺少分隔符"@),
        Some((before, after)) => {
            let fields = words_spec(before);
            let trailing = words_spec(after);
            if fields.len() < 5 || trailing.len() < 2 {
                Err("mountinfo 第 "@ + decimal_spec(number) + " 行字段不足"@)
            } else {
                Ok(
                    MountModel {
                        mount_point: unescaped_mount(fields[4]),
                        filesystem_type: trailing[0],
                        source: unescaped_mount(trailing[1]),
                        network: is_network(trailing[0]),
                    },
                )
            }
        },
    }
}

/// The mounts of the table, line by line; the first faulty line is reported.
pub open spec fn mount_table(rows: Seq<Seq<char>>) -> Result<Seq<MountModel>, Seq<char>>
    decreases rows.len(),
{
    if rows.len() == 0 {
        Ok(Seq::empty())
    } else {
        match mount_table(rows.drop_last()) {
            Err(message) => Err(message),
            Ok(before) => match mount_line(rows.last(), rows.len()) {
                Err(message) => Err(message),
                Ok(mount) => Ok(before.push(mount)),
            },
        }
    }
}

/// Network mounts first, then by mount point.
pub open spec fn mount_le(a: MountModel, b: MountModel) -> bool {
    if a.network != b.network {
        a.network
    } else {
        path_le(a.mount_point, b.mount_point)
    }
}

/// Of neighbours with the same mount point only the first stays.
pub open spec fn without_repeats(list: Seq<MountModel>) -> Seq<MountModel>
    decreases list.len(),
{
    if list.len() == 0 {
        list
    } else {
        let before = without_repeats(list.drop_last());
        if before.len() > 0 && same_path_spec(list.last().mount_point, before.last().mount_point) {
            before
        } else {
            before.push(list.last())
        }
    }
}

/// What the text of the mount table stands for.
pub open spec fn mountinfo_spec(text: Seq<char>) -> Result<Seq<MountModel>, Seq<char>> {
    match mount_table(lines_spec(text)) {
        Err(message) => Err(message),
        Ok(list) => Ok(without_repeats(sorted_by(list, |a: MountModel, b: MountModel| mount_le(a, b)))),
    }
}

impl Ranked for MountedFilesystem {
    open spec fn ranks_at_most(&self, other: &MountedFilesystem) -> bool {
        mount_le(self@, other@)
    }

    fn at_most(&self, other: &MountedFilesystem) -> (yes: bool) {
        if self.network != other.network {
            self.network
        } else {
            path_at_most(self.mount_point.as_str(), other.mount_point.as_str())
        }
    }

    proof fn ranks_total(a: &MountedFilesystem, b: &MountedFilesystem) {
        lemma_path_le_total(a.mount_point@, b.mount_point@);
    }

    proof fn ranks_transitive(a: &MountedFilesystem, b: &MountedFilesystem, c: &MountedFilesystem) {
        if a.network == b.network && b.network == c.network {
            lemma_path_le_trans(a.mount_point@, b.mount_point@, c.mount_point@);
        }
    }
}

fn read_line(line: &String, number: u64) -> (result: Result<MountedFilesystem, String>)
    ensures
        match result {
            Ok(mount) => mount_line(line@, number as nat) == Ok::<MountModel, Seq<char>>(mount@),
            Err(message) => mount_line(line@, number as nat) == Err::<MountModel, Seq<char>>(
                message@,
            ),
        },
{
    proof {
        reveal_strlit(" - ");
    }
    match split_at_text(line.as_str(), " - ") {
        None => Err(cat3("mountinfo 第 ", decimal(number).as_str(), " 行缺少分隔符")),
        Some((before, after)) => {
            let fields = words(before.as_str());
            let trailing = words(after.as_str());
            assert(views(fields@).len() == fields@.len());
            assert(views(trailing@).len() == trailing@.len());
            if fields.len() < 5 || trailing.len() < 2 {
                return Err(cat3("mountinfo 第 ", decimal(number).as_str(), " 行字段不足"));
            }
            assert(views(fields@)[4] == fields@[4]@);
            assert(views(trailing@)[0] == trailing@[0]@);
            assert(views(trailing@)[1] == trailing@[1]@);
            Ok(
                MountedFilesystem {
                    mount_point: unescape_mountinfo(fields[4].as_str()),
                    filesystem_type: trailing[0].clone(),
                    source: unescape_mountinfo(trailing[1].as_str()),
                    network: is_network_filesystem(trailing[0].as_str()),
                },
            )
        },
    }
}

fn drop_repeats(list: Vec<MountedFilesystem>) -> (kept: Vec<MountedFilesystem>)
    ensures
        mount_models(kept@) == without_repeats(mount_models(list@)),
{
    let ghost all = mount_models(list@);
    let mut kept: Vec<MountedFilesystem> = Vec::new();
    let mut i: usize = 0;
    assert(mount_models(kept@) =~= without_repeats(all.subrange(0, 0)));
    while i < list.len()
        invariant
            i <= list@.len(),
            all == mount_models(list@),
            mount_models(kept@) == without_repeats(all.subrange(0, i as int)),
        decreases list@.len() - i,
    {
        proof {
            let next = all.subrange(0, i + 1);
            assert(next.drop_last() =~= all.subrange(0, i as int));
            assert(next.last() == list@[i as int]@);
            assert(mount_models(kept@).len() == kept@.len());
            if kept@.len() > 0 {
                assert(mount_models(kept@).last() == kept@[kept@.len() - 1]@);
            }
        }
        let ghost before = kept@;
        let repeated = kept.len() > 0 && same_path(
            list[i].mount_point.as_str(),
            kept[kept.len() - 1].mount_point.as_str(),
        );
        if !repeated {
            kept.push(list[i].clone());
            assert(mount_models(kept@) =~= mount_models(before).push(list@[i as int]@));
        }
        i = i + 1;
    }
    assert(all.subrange(0, i as int) =~= all);
    kept
}

pub open spec fn mounts_outcome(result: Result<Vec<MountedFilesystem>, String>) -> Result<
    Seq<MountModel>,
    Seq<char>,
> {
    match result {
        Ok(list) => Ok(mount_models(list@)),
        Err(message) => Err(message@),
    }
}

/// Reads the text of the mount table: network mounts first, then by mount point, each
/// mount point once.
pub fn parse_mountinfo(text: &str) -> (result: Result<Vec<MountedFilesystem>, String>)
    ensures
        mounts_outcome(result) == mountinfo_spec(text@),
{
    let rows = lines(text);
    let ghost all = views(rows@);
    let mut mounts: Vec<MountedFilesystem> = Vec::new();
    let mut i: usize = 0;
    proof {
        assert(all.subrange(0, 0) =~= Seq::<Seq<char>>::empty());
        assert(mount_models(mounts@) =~= Seq::<MountModel>::empty());
    }
    while i < rows.len()
        invariant
            i <= rows@.len(),
            all == views(rows@),
            all == lines_spec(text@),
            mount_table(all.subrange(0, i as int)) == Ok::<Seq<MountModel>, Seq<char>>(
                mount_models(mounts@),
            ),
        decreases rows@.len() - i,
    {
        proof {
            let next = all.subrange(0, i + 1);
            assert(next.drop_last() =~= all.subrange(0, i as int));
            assert(next.last() == rows@[i as int]@);
        }
        match read_line(&rows[i], i as u64 + 1) {
            Ok(mount) => {
                let ghost before = mounts@;
                mounts.push(mount);
                assert(mount_models(mounts@) =~= mount_models(before).push(mount@));
            },
            Err(message) => {
                proof {
                    lemma_table_error(all, i + 1);
                }
                return Err(message);
            },
        }
        i = i + 1;
    }
    assert(all.subrange(0, i as int) =~= all);
    let ghost unsorted = mounts@;
    let sorted = stable_sort(mounts);
    proof {
        let le = |a: MountModel, b: MountModel| mount_le(a, b);
        let f = |m: MountedFilesystem| m@;
        lemma_sorted_models(unsorted, f, le);
        assert(unsorted.map_values(f) == mount_models(unsorted));
        assert(mount_models(sorted@) == sorted_by(mount_models(unsorted), le));
    }
    Ok(drop_repeats(sorted))
}

/// A faulty line makes the whole table faulty.
proof fn lemma_table_error(rows: Seq<Seq<char>>, n: int)
    requires
        0 <= n <= rows.len(),
        mount_table(rows.subrange(0, n)) is Err,
    ensures
        mount_table(rows) == mount_table(rows.subrange(0, n)),
    decreases rows.len() - n,
{
    if n == rows.len() {
        assert(rows.subrange(0, n) =~= rows);
    } else {
        assert(rows.subrange(0, n + 1).drop_last() =~= rows.subrange(0, n));
        lemma_table_error(rows, n + 1);
    }
}

/// No mount point stands next to itself, and every network mount comes before every
/// other.
pub open spec fn mounts_listed(list: Seq<MountModel>) -> bool {
    &&& forall|i: int|
        0 < i < list.len() ==> !same_path_spec(
            (#[trigger] list[i]).mount_point,
            list[i - 1].mount_point,
        )
    &&& forall|i: int, j: int|
        0 <= i < j < list.len() && (#[trigger] list[j]).network ==> (#[trigger] list[i]).network
}

proof fn lemma_without_repeats(list: Seq<MountModel>)
    requires
        ascending(list, |a: MountModel, b: MountModel| mount_le(a, b)),
    ensures
        mounts_listed(without_repeats(list)),
        forall|i: int|
            0 <= i < without_repeats(list).len() ==> list.contains(
                #[trigger] without_repeats(list)[i],
            ),
    decreases list.len(),
{
    if list.len() > 0 {
        let le = |a: MountModel, b: MountModel| mount_le(a, b);
        let front = list.drop_last();
        assert(ascending(front, le)) by {
            assert forall|i: int, j: int| 0 <= i < j < front.len() implies le(
                #[trigger] front[i],
                #[trigger] front[j],
            ) by {
                assert(le(list[i], list[j]));
            }
        }
        lemma_without_repeats(front);
        let before = without_repeats(front);
        let all = without_repeats(list);
        assert forall|i: int| 0 <= i < all.len() implies list.contains(#[trigger] all[i]) by {
            if i < before.len() {
                assert(all[i] == before[i]);
                let k = choose|k: int| 0 <= k < front.len() && front[k] == before[i];
                assert(list[k] == before[i]);
            } else {
                assert(all[i] == list[list.len() - 1]);
            }
        }
        assert forall|i: int, j: int| 0 <= i < j < all.len() && (
        #[trigger] all[j]).network implies (#[trigger] all[i]).network by {
            assert(all[i] == before[i]);
            if j < before.len() {
                assert(all[j] == before[j]);
            } else {
                let k = choose|k: int| 0 <= k < front.len() && front[k] == before[i];
                assert(le(list[k], list[list.len() - 1]));
            }
        }
        assert forall|i: int| 0 < i < all.len() implies !same_path_spec(
            (#[trigger] all[i]).mount_point,
            all[i - 1].mount_point,
        ) by {
            if i < before.len() {
                assert(all[i] == before[i] && all[i - 1] == before[i - 1]);
            }
        }
    }
}

/// The mounts of a table are listed with the network mounts first, and no mount point
/// stands next to itself.
pub proof fn mountinfo_is_listed(text: Seq<char>)
    ensures
        match mountinfo_spec(text) {
            Ok(list) => mounts_listed(list),
            Err(_) => true,
        },
{
    let le = |a: MountModel, b: MountModel| mount_le(a, b);
    match mount_table(lines_spec(text)) {
        Ok(list) => {
            assert(total_order(le)) by {
                assert forall|a: MountModel, b: MountModel| #[trigger] le(a, b) || le(b, a) by {
                    lemma_path_le_total(a.mount_point, b.mount_point);
                }
                assert forall|a: MountModel, b: MountModel, c: MountModel| #[trigger] le(a, b)
                    && #[trigger] le(b, c) implies le(a, c) by {
                    if a.network == b.network && b.network == c.network {
                        lemma_path_le_trans(a.mount_point, b.mount_point, c.mount_point);
                    }
                }
            }
            sorting_by_orders(list, le);
            lemma_without_repeats(sorted_by(list, le));
        },
        Err(_) => {},
    }
}

// ---------------------------------------------------------------------------
// Choosing filesystems
// ---------------------------------------------------------------------------

/// A filesystem that is worth offering: a network mount, a filesystem of a disk, or a
/// mount in a place where media are mounted.
pub open spec fn is_selectable(m: MountModel) -> bool {
    let t = m.filesystem_type;
    ||| m.network
    ||| t == "ext2"@
    ||| t == "ext3"@
    ||| t == "ext4"@
    ||| t == "xfs"@
    ||| t == "btrfs"@
    ||| t == "zfs"@
    ||| t == "vfat"@
    ||| t == "exfat"@
    ||| t == "ntfs"@
    ||| t == "ntfs3"@
    ||| t == "f2fs"@
    ||| same_path_spec(m.mount_point, "/tmp"@)
    ||| path_starts_with(m.mount_point, "/run/media"@)
    ||| path_starts_with(m.mount_point, "/mnt"@)
    ||| path_starts_with(m.mount_point, "/media"@)
}

fn selectable(m: &MountedFilesystem) -> (yes: bool)
    ensures
        yes == is_selectable(m@),
{
    let t = m.filesystem_type.as_str();
    let p = m.mount_point.as_str();
    m.network || same(t, "ext2") || same(t, "ext3") || same(t, "ext4") || same(t, "xfs") || same(
        t,
        "btrfs",
    ) || same(t, "zfs") || same(t, "vfat") || same(t, "exfat") || same(t, "ntfs") || same(
        t,
        "ntfs3",
    ) || same(t, "f2fs") || same_path(p, "/tmp") || starts_with_path(p, "/run/media")
        || starts_with_path(p, "/mnt") || starts_with_path(p, "/media")
}

/// The mounts that are worth offering, in their order.
pub open spec fn selectable_spec(list: Seq<MountModel>) -> Seq<MountModel>
    decreases list.len(),
{
    if list.len() == 0 {
        list
    } else if is_selectable(list.last()) {
        selectable_spec(list.drop_last()).push(list.last())
    } else {
        selectable_spec(list.drop_last())
    }
}

/// The mounts that are worth offering, in their order.
pub fn selectable_filesystems(list: Vec<MountedFilesystem>) -> (kept: Vec<MountedFilesystem>)
    ensures
        mount_models(kept@) == selectable_spec(mount_models(list@)),
{
    let ghost all = mount_models(list@);
    let mut kept: Vec<MountedFilesystem> = Vec::new();
    let mut i: usize = 0;
    assert(mount_models(kept@) =~= selectable_spec(all.subrange(0, 0)));
    while i < list.len()
        invariant
            i <= list@.len(),
            all == mount_models(list@),
            mount_models(kept@) == selectable_spec(all.subrange(0, i as int)),
        decreases list@.len() - i,
    {
        proof {
            let next = all.subrange(0, i + 1);
            assert(next.drop_last() =~= all.subrange(0, i as int));
            assert(next.last() == list@[i as int]@);
        }
        let ghost before = kept@;
        if selectable(&list[i]) {
            kept.push(list[i].clone());
            assert(mount_models(kept@) =~= mount_models(before).push(list@[i as int]@));
        }
        i = i + 1;
    }
    assert(all.subrange(0, i as int) =~= all);
    kept
}

/// The position of the mount that a path lies on: of those above it the one with the most
/// components, the last of them where several have as many.
pub open spec fn mount_of(list: Seq<MountModel>, path: Seq<char>) -> Option<int>
    decreases list.len(),
{
    if list.len() == 0 {
        None
    } else {
        let before = mount_of(list.drop_last(), path);
        let m = list.last();
        if path_starts_with(path, m.mount_point) && (before is None || component_count(
            m.mount_point,
        ) >= component_count(list[before->0].mount_point)) {
            Some(list.len() - 1)
        } else {
            before
        }
    }
}

/// The mount that a path lies on.
pub fn mounted_filesystem_for_path<'a>(list: &'a Vec<MountedFilesystem>, path: &str) -> (mount:
    Option<&'a MountedFilesystem>)
    ensures
        match (mount, mount_of(mount_models(list@), path@)) {
            (Some(m), Some(k)) => 0 <= k < list@.len() && *m == list@[k],
            (None, None) => true,
            _ => false,
        },
{
    let ghost all = mount_models(list@);
    let mut best: Option<usize> = None;
    let mut count: u128 = 0;
    let mut i: usize = 0;
    assert(all.subrange(0, 0) =~= Seq::<MountModel>::empty());
    while i < list.len()
        invariant
            i <= list@.len(),
            all == mount_models(list@),
            match (best, mount_of(all.subrange(0, i as int), path@)) {
                (Some(b), Some(k)) => b == k && b < i && count == component_count(
                    all[b as int].mount_point,
                ),
                (None, None) => true,
                _ => false,
            },
        decreases list@.len() - i,
    {
        proof {
            let next = all.subrange(0, i + 1);
            assert(next.drop_last() =~= all.subrange(0, i as int));
            assert(next.last() == list@[i as int]@);
        }
        let point = list[i].mount_point.as_str();
        if starts_with_path(path, point) {
            let n: u128 = components(point);
            if best.is_none() || n >= count {
                best = Some(i);
                count = n;
            }
        }
        i = i + 1;
    }
    assert(all.subrange(0, i as int) =~= all);
    match best {
        Some(b) => Some(&list[b]),
        None => None,
    }
}

// ---------------------------------------------------------------------------
// Directories
// ---------------------------------------------------------------------------

/// Directories first, then by name.
pub open spec fn entry_le(a: BrowserEntry, b: BrowserEntry) -> bool {
    if (a.kind is Directory) != (b.kind is Directory) {
        a.kind is Directory
    } else {
        text_le(a.name@, b.name@)
    }
}

impl Ranked for BrowserEntry {
    open spec fn ranks_at_most(&self, other: &BrowserEntry) -> bool {
        entry_le(*self, *other)
    }

    fn at_most(&self, other: &BrowserEntry) -> (yes: bool) {
        let left = self.kind == BrowserEntryKind::Directory;
        let right = other.kind == BrowserEntryKind::Directory;
        if left != right {
            left
        } else {
            crate::text::at_most(self.name.as_str(), other.name.as_str())
        }
    }

    proof fn ranks_total(a: &BrowserEntry, b: &BrowserEntry) {
        lemma_text_le_total(a.name@, b.name@);
    }

    proof fn ranks_transitive(a: &BrowserEntry, b: &BrowserEntry, c: &BrowserEntry) {
        if (a.kind is Directory) == (b.kind is Directory) && (b.kind is Directory)
            == (c.kind is Directory) {
            lemma_text_le_trans(a.name@, b.name@, c.name@);
        }
    }
}

/// The kind of an entry, given what its metadata says. A symbolic link counts as one
/// whatever it leads to.
pub fn entry_kind(symlink: bool, directory: bool, file: bool) -> (kind: BrowserEntryKind)
    ensures
        kind == (if symlink {
            BrowserEntryKind::Symlink
        } else if directory {
            BrowserEntryKind::Directory
        } else if file {
            BrowserEntryKind::File
        } else {
            BrowserEntryKind::Other
        }),
{
    if symlink {
        BrowserEntryKind::Symlink
    } else if directory {
        BrowserEntryKind::Directory
    } else if file {
        BrowserEntryKind::File
    } else {
        BrowserEntryKind::Other
    }
}

/// The entries of a directory as they are shown: directories first, then by name.
pub fn browse_directory(entries: Vec<BrowserEntry>) -> (sorted: Vec<BrowserEntry>)
    ensures
        sorted@ == stably_sorted(entries@),
{
    stable_sort(entries)
}

} // verus!
