//! LTFS indexes: what an index says of its volume, and the directory tree in it.
use vstd::prelude::*;

use crate::text::{clone_opt, opt_view, same, split, split_spec, views};

verus! {

/// A place on tape.
#[derive(Debug, Clone, Copy, PartialEq, Eq, Structural)]
pub struct TapePos {
    pub partition: u8,
    pub startblock: u64,
}

/// The times of a file or directory, as text.
#[derive(Debug, PartialEq, Eq)]
pub struct FileTimes {
    pub creation_time: Option<String>,
    pub change_time: Option<String>,
    pub modify_time: Option<String>,
    pub access_time: Option<String>,
    pub backup_time: Option<String>,
}

/// A run of blocks that holds a part of a file.
#[derive(Debug, Clone, Copy, PartialEq, Eq, Structural)]
pub struct Extent {
    pub file_offset: u64,
    pub partition: u8,
    pub start_block: u64,
    pub byte_count: u64,
}

/// An extended attribute.
#[derive(Debug, PartialEq, Eq)]
pub struct ExtendedAttribute {
    pub key: String,
    pub value: String,
    pub value_type: Option<String>,
}

/// A file, or a symbolic link where it has a target.
#[derive(Debug, PartialEq, Eq)]
pub struct FileEntry {
    pub name: String,
    pub fileuid: u64,
    pub length: u64,
    pub readonly: bool,
    pub times: FileTimes,
    pub extents: Vec<Extent>,
    pub extended_attributes: Vec<ExtendedAttribute>,
    pub symlink_target: Option<String>,
}

/// A directory.
#[derive(Debug, PartialEq, Eq)]
pub struct Directory {
    pub name: String,
    pub fileuid: u64,
    pub readonly: bool,
    pub times: FileTimes,
    pub extended_attributes: Vec<ExtendedAttribute>,
    pub entries: Vec<DirectoryEntry>,
}

/// What a directory holds.
#[derive(Debug, PartialEq, Eq)]
pub enum DirectoryEntry {
    Directory(Directory),
    File(FileEntry),
}

/// An LTFS index.
#[derive(Debug, PartialEq, Eq)]
pub struct Index {
    pub version: String,
    pub creator: String,
    pub volume_uuid: String,
    /// The name of the root directory, which is the name of the volume.
    pub volume_name: Option<String>,
    pub generation: u64,
    pub update_time: String,
    pub self_location: TapePos,
    pub previous_location: Option<TapePos>,
    pub allow_policy_update: bool,
    /// "unlocked", "locked" or "permlocked".
    pub volume_lock_state: Option<String>,
    pub highest_file_uid: Option<u64>,
    /// The number of `<file>` and `<symlink>` elements.
    pub file_count: u64,
    /// The number of `<directory>` elements below the root.
    pub directory_count: u64,
    pub root: Directory,
}

// ---------------------------------------------------------------------------
// Models
// ---------------------------------------------------------------------------

#[verifier::ext_equal]
pub struct TimesModel {
    pub creation_time: Option<Seq<char>>,
    pub change_time: Option<Seq<char>>,
    pub modify_time: Option<Seq<char>>,
    pub access_time: Option<Seq<char>>,
    pub backup_time: Option<Seq<char>>,
}

#[verifier::ext_equal]
pub struct AttributeEntry {
    pub key: Seq<char>,
    pub value: Seq<char>,
    pub value_type: Option<Seq<char>>,
}

#[verifier::ext_equal]
pub struct FileModel {
    pub name: Seq<char>,
    pub fileuid: u64,
    pub length: u64,
    pub readonly: bool,
    pub times: TimesModel,
    pub extents: Seq<Extent>,
    pub extended_attributes: Seq<AttributeEntry>,
    pub symlink_target: Option<Seq<char>>,
}

#[verifier::ext_equal]
pub struct DirModel {
    pub name: Seq<char>,
    pub fileuid: u64,
    pub readonly: bool,
    pub times: TimesModel,
    pub extended_attributes: Seq<AttributeEntry>,
    pub entries: Seq<EntryModel>,
}

#[verifier::ext_equal]
pub enum EntryModel {
    Directory(DirModel),
    File(FileModel),
}

#[verifier::ext_equal]
pub struct IndexModel {
    pub version: Seq<char>,
    pub creator: Seq<char>,
    pub volume_uuid: Seq<char>,
    pub volume_name: Option<Seq<char>>,
    pub generation: u64,
    pub update_time: Seq<char>,
    pub self_location: TapePos,
    pub previous_location: Option<TapePos>,
    pub allow_policy_update: bool,
    pub volume_lock_state: Option<Seq<char>>,
    pub highest_file_uid: Option<u64>,
    pub file_count: u64,
    pub directory_count: u64,
    pub root: DirModel,
}

impl View for FileTimes {
    type V = TimesModel;

    open spec fn view(&self) -> TimesModel {
        TimesModel {
            creation_time: opt_view(self.creation_time),
            change_time: opt_view(self.change_time),
            modify_time: opt_view(self.modify_time),
            access_time: opt_view(self.access_time),
            backup_time: opt_view(self.backup_time),
        }
    }
}

impl View for ExtendedAttribute {
    type V = AttributeEntry;

    open spec fn view(&self) -> AttributeEntry {
        AttributeEntry {
            key: self.key@,
            value: self.value@,
            value_type: opt_view(self.value_type),
        }
    }
}

/// The models of a list of extended attributes.
pub open spec fn attribute_entries(list: Seq<ExtendedAttribute>) -> Seq<AttributeEntry> {
    list.map_values(|a: ExtendedAttribute| a@)
}

impl View for FileEntry {
    type V = FileModel;

    open spec fn view(&self) -> FileModel {
        FileModel {
            name: self.name@,
            fileuid: self.fileuid,
            length: self.length,
            readonly: self.readonly,
            times: self.times@,
            extents: self.extents@,
            extended_attributes: attribute_entries(self.extended_attributes@),
            symlink_target: opt_view(self.symlink_target),
        }
    }
}

/// The model of a directory.
pub open spec fn dir_model(d: Directory) -> DirModel
    decreases d, 0nat,
{
    DirModel {
        name: d.name@,
        fileuid: d.fileuid,
        readonly: d.readonly,
        times: d.times@,
        extended_attributes: attribute_entries(d.extended_attributes@),
        entries: first_entries(d.entries, d.entries@.len()),
    }
}

/// The model of an entry.
pub open spec fn entry_model(e: DirectoryEntry) -> EntryModel
    decreases e, 0nat,
{
    match e {
        DirectoryEntry::Directory(d) => EntryModel::Directory(dir_model(d)),
        DirectoryEntry::File(f) => EntryModel::File(f@),
    }
}

/// The models of the first `n` entries of a list.
pub open spec fn first_entries(list: Vec<DirectoryEntry>, n: nat) -> Seq<EntryModel>
    decreases list, n,
{
    if n == 0 || n > list@.len() {
        Seq::empty()
    } else {
        first_entries(list, (n - 1) as nat).push(entry_model(list[n - 1]))
    }
}

impl View for Directory {
    type V = DirModel;

    open spec fn view(&self) -> DirModel {
        dir_model(*self)
    }
}

impl View for DirectoryEntry {
    type V = EntryModel;

    open spec fn view(&self) -> EntryModel {
        entry_model(*self)
    }
}

impl View for Index {
    type V = IndexModel;

    open spec fn view(&self) -> IndexModel {
        IndexModel {
            version: self.version@,
            creator: self.creator@,
            volume_uuid: self.volume_uuid@,
            volume_name: opt_view(self.volume_name),
            generation: self.generation,
            update_time: self.update_time@,
            self_location: self.self_location,
            previous_location: self.previous_location,
            allow_policy_update: self.allow_policy_update,
            volume_lock_state: opt_view(self.volume_lock_state),
            highest_file_uid: self.highest_file_uid,
            file_count: self.file_count,
            directory_count: self.directory_count,
            root: self.root@,
        }
    }
}

/// The models of a sequence of entries.
pub open spec fn entry_models(list: Seq<DirectoryEntry>) -> Seq<EntryModel> {
    list.map_values(|e: DirectoryEntry| e@)
}

proof fn lemma_first_entries(list: Vec<DirectoryEntry>, n: nat)
    requires
        n <= list@.len(),
    ensures
        first_entries(list, n) == entry_models(list@.subrange(0, n as int)),
    decreases n,
{
    if n > 0 {
        lemma_first_entries(list, (n - 1) as nat);
        assert(entry_models(list@.subrange(0, n as int)) =~= entry_models(
            list@.subrange(0, n - 1),
        ).push(list@[n - 1]@));
    } else {
        assert(entry_models(list@.subrange(0, 0)) =~= Seq::<EntryModel>::empty());
    }
}

/// The entries of a directory, as models.
pub proof fn lemma_entries(d: Directory)
    ensures
        d@.entries == entry_models(d.entries@),
{
    lemma_first_entries(d.entries, d.entries@.len());
    assert(d.entries@.subrange(0, d.entries@.len() as int) =~= d.entries@);
}

// ---------------------------------------------------------------------------
// Copies and defaults
// ---------------------------------------------------------------------------

impl Clone for FileTimes {
    fn clone(&self) -> (copy: FileTimes)
        ensures
            copy@ == self@,
    {
        FileTimes {
            creation_time: clone_opt(&self.creation_time),
            change_time: clone_opt(&self.change_time),
            modify_time: clone_opt(&self.modify_time),
            access_time: clone_opt(&self.access_time),
            backup_time: clone_opt(&self.backup_time),
        }
    }
}

impl Default for FileTimes {
    fn default() -> (times: FileTimes)
        ensures
            times@ == no_times(),
    {
        FileTimes {
            creation_time: None,
            change_time: None,
            modify_time: None,
            access_time: None,
            backup_time: None,
        }
    }
}

/// No time is known.
pub open spec fn no_times() -> TimesModel {
    TimesModel {
        creation_time: None,
        change_time: None,
        modify_time: None,
        access_time: None,
        backup_time: None,
    }
}

impl Clone for ExtendedAttribute {
    fn clone(&self) -> (copy: ExtendedAttribute)
        ensures
            copy@ == self@,
    {
        ExtendedAttribute {
            key: self.key.clone(),
            value: self.value.clone(),
            value_type: clone_opt(&self.value_type),
        }
    }
}

fn copy_attributes(list: &Vec<ExtendedAttribute>) -> (copy: Vec<ExtendedAttribute>)
    ensures
        attribute_entries(copy@) == attribute_entries(list@),
{
    let mut copy: Vec<ExtendedAttribute> = Vec::new();
    let mut i: usize = 0;
    while i < list.len()
        invariant
            i <= list@.len(),
            copy@.len() == i,
            forall|j: int| 0 <= j < i ==> #[trigger] copy@[j]@ == list@[j]@,
        decreases list@.len() - i,
    {
        copy.push(list[i].clone());
        i = i + 1;
    }
    assert(attribute_entries(copy@) =~= attribute_entries(list@));
    copy
}

fn copy_extents(list: &Vec<Extent>) -> (copy: Vec<Extent>)
    ensures
        copy@ == list@,
{
    let mut copy: Vec<Extent> = Vec::new();
    let mut i: usize = 0;
    while i < list.len()
        invariant
            i <= list@.len(),
            copy@ == list@.subrange(0, i as int),
        decreases list@.len() - i,
    {
        copy.push(list[i]);
        i = i + 1;
        assert(copy@ =~= list@.subrange(0, i as int));
    }
    assert(copy@ =~= list@);
    copy
}

impl Clone for FileEntry {
    fn clone(&self) -> (copy: FileEntry)
        ensures
            copy@ == self@,
    {
        FileEntry {
            name: self.name.clone(),
            fileuid: self.fileuid,
            length: self.length,
            readonly: self.readonly,
            times: self.times.clone(),
            extents: copy_extents(&self.extents),
            extended_attributes: copy_attributes(&self.extended_attributes),
            symlink_target: clone_opt(&self.symlink_target),
        }
    }
}

fn copy_directory(d: &Directory) -> (copy: Directory)
    ensures
        copy@ == d@,
    decreases d,
{
    let mut entries: Vec<DirectoryEntry> = Vec::new();
    let mut i: usize = 0;
    while i < d.entries.len()
        invariant
            i <= d.entries@.len(),
            entries@.len() == i,
            forall|j: int| 0 <= j < i ==> #[trigger] entries@[j]@ == d.entries@[j]@,
        decreases d.entries@.len() - i,
    {
        let entry = match &d.entries[i] {
            DirectoryEntry::Directory(sub) => {
                assert(decreases_to!(d.entries => d.entries[i as int]));
                DirectoryEntry::Directory(copy_directory(sub))
            },
            DirectoryEntry::File(f) => DirectoryEntry::File(f.clone()),
        };
        entries.push(entry);
        i = i + 1;
    }
    let copy = Directory {
        name: d.name.clone(),
        fileuid: d.fileuid,
        readonly: d.readonly,
        times: d.times.clone(),
        extended_attributes: copy_attributes(&d.extended_attributes),
        entries,
    };
    proof {
        lemma_entries(*d);
        lemma_entries(copy);
        assert(entry_models(copy.entries@) =~= entry_models(d.entries@));
    }
    copy
}

impl Clone for Directory {
    fn clone(&self) -> (copy: Directory)
        ensures
            copy@ == self@,
    {
        copy_directory(self)
    }
}

impl Clone for DirectoryEntry {
    fn clone(&self) -> (copy: DirectoryEntry)
        ensures
            copy@ == self@,
    {
        match self {
            DirectoryEntry::Directory(d) => DirectoryEntry::Directory(copy_directory(d)),
            DirectoryEntry::File(f) => DirectoryEntry::File(f.clone()),
        }
    }
}

impl Clone for Index {
    fn clone(&self) -> (copy: Index)
        ensures
            copy@ == self@,
    {
        Index {
            version: self.version.clone(),
            creator: self.creator.clone(),
            volume_uuid: self.volume_uuid.clone(),
            volume_name: clone_opt(&self.volume_name),
            generation: self.generation,
            update_time: self.update_time.clone(),
            self_location: self.self_location,
            previous_location: self.previous_location,
            allow_policy_update: self.allow_policy_update,
            volume_lock_state: clone_opt(&self.volume_lock_state),
            highest_file_uid: self.highest_file_uid,
            file_count: self.file_count,
            directory_count: self.directory_count,
            root: copy_directory(&self.root),
        }
    }
}

/// A directory without a name, times or entries.
pub open spec fn empty_directory() -> DirModel {
    DirModel {
        name: Seq::empty(),
        fileuid: 0,
        readonly: false,
        times: no_times(),
        extended_attributes: Seq::empty(),
        entries: Seq::empty(),
    }
}

impl Default for Directory {
    fn default() -> (d: Directory)
        ensures
            d@ == empty_directory(),
    {
        let d = Directory {
            name: String::new(),
            fileuid: 0,
            readonly: false,
            times: FileTimes::default(),
            extended_attributes: Vec::new(),
            entries: Vec::new(),
        };
        proof {
            lemma_entries(d);
            assert(entry_models(d.entries@) =~= Seq::<EntryModel>::empty());
            assert(attribute_entries(d.extended_attributes@) =~= Seq::<AttributeEntry>::empty());
        }
        d
    }
}

// ---------------------------------------------------------------------------
// Paths
// ---------------------------------------------------------------------------

/// The pieces of a list that are not empty.
pub open spec fn nonempty(list: Seq<Seq<char>>) -> Seq<Seq<char>>
    decreases list.len(),
{
    if list.len() == 0 {
        Seq::empty()
    } else if list.last().len() > 0 {
        nonempty(list.drop_last()).push(list.last())
    } else {
        nonempty(list.drop_last())
    }
}

/// The names in a path; leading, trailing and doubled slashes do not matter.
pub open spec fn path_parts(path: Seq<char>) -> Seq<Seq<char>> {
    nonempty(split_spec(path, '/'))
}

/// The names in a path.
pub fn parts_of(path: &str) -> (parts: Vec<String>)
    ensures
        views(parts@) == path_parts(path@),
{
    let pieces = split(path, '/');
    let ghost all = views(pieces@);
    let mut parts: Vec<String> = Vec::new();
    let mut i: usize = 0;
    proof {
        assert(views(parts@) =~= nonempty(all.subrange(0, 0)));
    }
    while i < pieces.len()
        invariant
            i <= pieces@.len(),
            all == views(pieces@),
            views(parts@) == nonempty(all.subrange(0, i as int)),
        decreases pieces@.len() - i,
    {
        let ghost before = parts@;
        proof {
            let next = all.subrange(0, i + 1);
            assert(next.drop_last() =~= all.subrange(0, i as int));
            assert(next.last() == pieces@[i as int]@);
        }
        if !pieces[i].as_str().is_empty() {
            parts.push(pieces[i].clone());
            assert(views(parts@) =~= views(before).push(pieces@[i as int]@));
        }
        i = i + 1;
    }
    assert(all.subrange(0, i as int) =~= all);
    parts
}

/// The name of an entry.
pub open spec fn entry_name(e: EntryModel) -> Seq<char> {
    match e {
        EntryModel::Directory(d) => d.name,
        EntryModel::File(f) => f.name,
    }
}

/// The position of the first directory with the given name, or the number of entries.
pub open spec fn directory_position(entries: Seq<EntryModel>, name: Seq<char>) -> int
    decreases entries.len(),
{
    if entries.len() == 0 || (entries[0] is Directory && entry_name(entries[0]) == name) {
        0
    } else {
        1 + directory_position(entries.drop_first(), name)
    }
}

/// The position of the first file with the given name, or the number of entries.
pub open spec fn file_position(entries: Seq<EntryModel>, name: Seq<char>) -> int
    decreases entries.len(),
{
    if entries.len() == 0 || (entries[0] is File && entry_name(entries[0]) == name) {
        0
    } else {
        1 + file_position(entries.drop_first(), name)
    }
}

pub proof fn lemma_positions(entries: Seq<EntryModel>, name: Seq<char>)
    ensures
        0 <= directory_position(entries, name) <= entries.len(),
        directory_position(entries, name) < entries.len() ==> entries[directory_position(
            entries,
            name,
        )] is Directory && entry_name(entries[directory_position(entries, name)]) == name,
        0 <= file_position(entries, name) <= entries.len(),
        file_position(entries, name) < entries.len() ==> entries[file_position(
            entries,
            name,
        )] is File && entry_name(entries[file_position(entries, name)]) == name,
    decreases entries.len(),
{
    if entries.len() > 0 {
        lemma_positions(entries.drop_first(), name);
    }
}

/// The directory at the end of a path, from `d` on.
pub open spec fn walk(d: DirModel, parts: Seq<Seq<char>>) -> Option<DirModel>
    decreases parts.len(),
{
    if parts.len() == 0 {
        Some(d)
    } else {
        let k = directory_position(d.entries, parts[0]);
        if k < d.entries.len() {
            walk(d.entries[k]->Directory_0, parts.drop_first())
        } else {
            None
        }
    }
}

/// The directory at a path.
pub open spec fn directory_at(root: DirModel, path: Seq<char>) -> Option<DirModel> {
    walk(root, path_parts(path))
}

/// The file at a path.
pub open spec fn file_at(root: DirModel, path: Seq<char>) -> Option<FileModel> {
    let parts = path_parts(path);
    if parts.len() == 0 {
        None
    } else {
        match walk(root, parts.drop_last()) {
            None => None,
            Some(d) => {
                let k = file_position(d.entries, parts.last());
                if k < d.entries.len() {
                    Some(d.entries[k]->File_0)
                } else {
                    None
                }
            },
        }
    }
}

impl DirectoryEntry {
    /// The name of the entry.
    pub fn name(&self) -> (name: &str)
        ensures
            name@ == entry_name(self@),
    {
        match self {
            DirectoryEntry::Directory(d) => d.name.as_str(),
            DirectoryEntry::File(f) => f.name.as_str(),
        }
    }
}

fn position_of_directory(d: &Directory, name: &str) -> (position: usize)
    ensures
        position == directory_position(d@.entries, name@),
        position <= d.entries@.len(),
        position < d.entries@.len() ==> d.entries@[position as int] is Directory,
{
    let ghost all = entry_models(d.entries@);
    proof {
        lemma_entries(*d);
        lemma_positions(all, name@);
        assert(all.subrange(0, all.len() as int) =~= all);
    }
    let mut i: usize = 0;
    while i < d.entries.len()
        invariant
            i <= d.entries@.len(),
            all == entry_models(d.entries@),
            all == d@.entries,
            directory_position(all, name@) == i + directory_position(
                all.subrange(i as int, all.len() as int),
                name@,
            ),
        decreases d.entries@.len() - i,
    {
        let ghost rest = all.subrange(i as int, all.len() as int);
        assert(rest[0] == d.entries@[i as int]@);
        assert(rest.drop_first() =~= all.subrange(i + 1, all.len() as int));
        match &d.entries[i] {
            DirectoryEntry::Directory(sub) => {
                if same(sub.name.as_str(), name) {
                    return i;
                }
            },
            DirectoryEntry::File(_) => {},
        }
        i = i + 1;
    }
    i
}

fn position_of_file(d: &Directory, name: &str) -> (position: usize)
    ensures
        position == file_position(d@.entries, name@),
        position <= d.entries@.len(),
        position < d.entries@.len() ==> d.entries@[position as int] is File,
{
    let ghost all = entry_models(d.entries@);
    proof {
        lemma_entries(*d);
        lemma_positions(all, name@);
        assert(all.subrange(0, all.len() as int) =~= all);
    }
    let mut i: usize = 0;
    while i < d.entries.len()
        invariant
            i <= d.entries@.len(),
            all == entry_models(d.entries@),
            all == d@.entries,
            file_position(all, name@) == i + file_position(
                all.subrange(i as int, all.len() as int),
                name@,
            ),
        decreases d.entries@.len() - i,
    {
        let ghost rest = all.subrange(i as int, all.len() as int);
        assert(rest[0] == d.entries@[i as int]@);
        assert(rest.drop_first() =~= all.subrange(i + 1, all.len() as int));
        match &d.entries[i] {
            DirectoryEntry::File(f) => {
                if same(f.name.as_str(), name) {
                    return i;
                }
            },
            DirectoryEntry::Directory(_) => {},
        }
        i = i + 1;
    }
    i
}

pub open spec fn opt_dir(d: Option<&Directory>) -> Option<DirModel> {
    match d {
        Some(d) => Some(d@),
        None => None,
    }
}

pub open spec fn opt_file(f: Option<&FileEntry>) -> Option<FileModel> {
    match f {
        Some(f) => Some(f@),
        None => None,
    }
}

fn walk_to<'a>(root: &'a Directory, parts: &Vec<String>, count: usize) -> (result: Option<
    &'a Directory,
>)
    requires
        count <= parts@.len(),
    ensures
        opt_dir(result) == walk(root@, views(parts@).subrange(0, count as int)),
{
    let mut at = root;
    let ghost names = views(parts@).subrange(0, count as int);
    let mut i: usize = 0;
    assert(names.subrange(0, count as int) =~= names);
    while i < count
        invariant
            i <= count <= parts@.len(),
            names == views(parts@).subrange(0, count as int),
            walk(root@, names) == walk(at@, names.subrange(i as int, count as int)),
        decreases count - i,
    {
        let ghost rest = names.subrange(i as int, count as int);
        assert(rest[0] == parts@[i as int]@);
        assert(rest.drop_first() =~= names.subrange(i + 1, count as int));
        let k: usize = position_of_directory(at, parts[i].as_str());
        proof {
            lemma_entries(*at);
        }
        if k == at.entries.len() {
            return None;
        }
        match &at.entries[k] {
            DirectoryEntry::Directory(sub) => {
                at = sub;
            },
            DirectoryEntry::File(_) => {
                return None;
            },
        }
        i = i + 1;
    }
    Some(at)
}

// ---------------------------------------------------------------------------
// Changing the tree
// ---------------------------------------------------------------------------

/// `d` with `entry` added at the end of the directory that `parts` leads to.
pub open spec fn inserted(d: DirModel, parts: Seq<Seq<char>>, entry: EntryModel) -> DirModel
    decreases parts.len(),
{
    if parts.len() == 0 {
        DirModel { entries: d.entries.push(entry), ..d }
    } else {
        let k = directory_position(d.entries, parts[0]);
        let sub = inserted(d.entries[k]->Directory_0, parts.drop_first(), entry);
        DirModel { entries: d.entries.update(k, EntryModel::Directory(sub)), ..d }
    }
}

/// `d` with the first file called `name` in the directory that `parts` leads to
/// replaced by `file`.
pub open spec fn replaced(
    d: DirModel,
    parts: Seq<Seq<char>>,
    name: Seq<char>,
    file: FileModel,
) -> DirModel
    decreases parts.len(),
{
    if parts.len() == 0 {
        let k = file_position(d.entries, name);
        DirModel { entries: d.entries.update(k, EntryModel::File(file)), ..d }
    } else {
        let k = directory_position(d.entries, parts[0]);
        let sub = replaced(d.entries[k]->Directory_0, parts.drop_first(), name, file);
        DirModel { entries: d.entries.update(k, EntryModel::Directory(sub)), ..d }
    }
}

fn set_entry(d: &mut Directory, k: usize, entry: DirectoryEntry)
    requires
        k < old(d).entries@.len(),
    ensures
        final(d)@ == (DirModel {
            entries: old(d)@.entries.update(k as int, entry@),
            ..old(d)@
        }),
{
    let ghost before = *d;
    d.entries.set(k, entry);
    proof {
        lemma_entries(before);
        lemma_entries(*d);
        assert(entry_models(d.entries@) =~= entry_models(before.entries@).update(
            k as int,
            entry@,
        ));
    }
}

fn take_directory(d: &mut Directory, k: usize) -> (sub: Directory)
    requires
        k < old(d).entries@.len(),
        old(d).entries@[k as int] is Directory,
    ensures
        EntryModel::Directory(sub@) == old(d)@.entries[k as int],
        final(d).entries@.len() == old(d).entries@.len(),
        forall|e: EntryModel|
            #![trigger old(d)@.entries.update(k as int, e)]
            (DirModel { entries: final(d)@.entries.update(k as int, e), ..final(d)@ }) == (
            DirModel { entries: old(d)@.entries.update(k as int, e), ..old(d)@ }),
{
    let ghost before = *d;
    let placeholder = DirectoryEntry::Directory(Directory::default());
    let mut slot = placeholder;
    let ghost hole = slot@;
    proof {
        lemma_entries(before);
    }
    let taken = d.entries.remove(k);
    d.entries.insert(k, slot);
    proof {
        lemma_entries(*d);
        assert(entry_models(d.entries@) =~= entry_models(before.entries@).update(k as int, hole));
        assert forall|e: EntryModel|
            #![trigger before@.entries.update(k as int, e)]
            (DirModel { entries: d@.entries.update(k as int, e), ..d@ }) == (DirModel {
                entries: before@.entries.update(k as int, e),
                ..before@
            }) by {
            assert(d@.entries.update(k as int, e) =~= before@.entries.update(k as int, e));
        }
    }
    match taken {
        DirectoryEntry::Directory(sub) => sub,
        DirectoryEntry::File(_) => Directory::default(),
    }
}

fn insert_below(d: &mut Directory, parts: &Vec<String>, from: usize, entry: DirectoryEntry)
    requires
        from <= parts@.len(),
        walk(old(d)@, views(parts@).subrange(from as int, parts@.len() as int)) is Some,
    ensures
        final(d)@ == inserted(
            old(d)@,
            views(parts@).subrange(from as int, parts@.len() as int),
            entry@,
        ),
    decreases parts@.len() - from,
{
    let ghost names = views(parts@).subrange(from as int, parts@.len() as int);
    if from == parts.len() {
        let ghost before = *d;
        d.entries.push(entry);
        proof {
            lemma_entries(before);
            lemma_entries(*d);
            assert(entry_models(d.entries@) =~= entry_models(before.entries@).push(entry@));
        }
    } else {
        assert(names[0] == parts@[from as int]@);
        assert(names.drop_first() =~= views(parts@).subrange(from + 1, parts@.len() as int));
        let k: usize = position_of_directory(d, parts[from].as_str());
        proof {
            lemma_entries(*d);
            lemma_positions(d@.entries, names[0]);
        }
        let ghost before = d@;
        let mut sub = take_directory(d, k);
        insert_below(&mut sub, parts, from + 1, entry);
        let wrapped = DirectoryEntry::Directory(sub);
        assert(before.entries.update(k as int, wrapped@) == before.entries.update(
            k as int,
            EntryModel::Directory(sub@),
        ));
        set_entry(d, k, wrapped);
    }
}

fn replace_below(d: &mut Directory, parts: &Vec<String>, from: usize, file: FileEntry)
    requires
        from < parts@.len(),
        walk(old(d)@, views(parts@).subrange(from as int, parts@.len() - 1)) is Some,
        ({
            let at = walk(old(d)@, views(parts@).subrange(from as int, parts@.len() - 1))->0;
            file_position(at.entries, views(parts@).last()) < at.entries.len()
        }),
    ensures
        final(d)@ == replaced(
            old(d)@,
            views(parts@).subrange(from as int, parts@.len() - 1),
            views(parts@).last(),
            file@,
        ),
    decreases parts@.len() - from,
{
    let ghost names = views(parts@).subrange(from as int, parts@.len() - 1);
    if from == parts.len() - 1 {
        let k: usize = position_of_file(d, parts[from].as_str());
        proof {
            lemma_entries(*d);
        }
        set_entry(d, k, DirectoryEntry::File(file));
    } else {
        assert(names[0] == parts@[from as int]@);
        assert(names.drop_first() =~= views(parts@).subrange(from + 1, parts@.len() - 1));
        let k: usize = position_of_directory(d, parts[from].as_str());
        proof {
            lemma_entries(*d);
            lemma_positions(d@.entries, names[0]);
        }
        let ghost before = d@;
        let mut sub = take_directory(d, k);
        replace_below(&mut sub, parts, from + 1, file);
        let wrapped = DirectoryEntry::Directory(sub);
        assert(before.entries.update(k as int, wrapped@) == before.entries.update(
            k as int,
            EntryModel::Directory(sub@),
        ));
        set_entry(d, k, wrapped);
    }
}

impl Index {
    /// The name of the volume.
    pub fn volume_name(&self) -> (name: Option<&str>)
        ensures
            match name {
                Some(n) => self.volume_name is Some && n@ == self.volume_name->0@,
                None => self.volume_name is None,
            },
    {
        match &self.volume_name {
            Some(name) => Some(name.as_str()),
            None => None,
        }
    }

    pub fn file_count(&self) -> (count: u64)
        ensures
            count == self.file_count,
    {
        self.file_count
    }

    pub fn directory_count(&self) -> (count: u64)
        ensures
            count == self.directory_count,
    {
        self.directory_count
    }

    /// The directory at a path.
    pub fn find_directory(&self, path: &str) -> (d: Option<&Directory>)
        ensures
            opt_dir(d) == directory_at(self.root@, path@),
    {
        let parts = parts_of(path);
        assert(views(parts@).subrange(0, parts@.len() as int) =~= views(parts@));
        walk_to(&self.root, &parts, parts.len())
    }

    /// The file at a path.
    pub fn find_file(&self, path: &str) -> (f: Option<&FileEntry>)
        ensures
            opt_file(f) == file_at(self.root@, path@),
    {
        let parts = parts_of(path);
        if parts.len() == 0 {
            return None;
        }
        let last: usize = parts.len() - 1;
        assert(views(parts@).subrange(0, last as int) =~= views(parts@).drop_last());
        assert(views(parts@).last() == parts@[last as int]@);
        match walk_to(&self.root, &parts, last) {
            None => None,
            Some(d) => {
                let k: usize = position_of_file(d, parts[last].as_str());
                proof {
                    lemma_entries(*d);
                }
                if k == d.entries.len() {
                    return None;
                }
                match &d.entries[k] {
                    DirectoryEntry::File(f) => Some(f),
                    DirectoryEntry::Directory(_) => None,
                }
            },
        }
    }

    /// Adds an entry at the end of the directory at `parent`; `false`, with the index
    /// unchanged, where there is no such directory.
    pub fn insert_entry(&mut self, parent: &str, entry: DirectoryEntry) -> (done: bool)
        ensures
            done == (directory_at(old(self).root@, parent@) is Some),
            final(self)@ == (if done {
                IndexModel {
                    root: inserted(old(self).root@, path_parts(parent@), entry@),
                    ..old(self)@
                }
            } else {
                old(self)@
            }),
    {
        let parts = parts_of(parent);
        assert(views(parts@).subrange(0, parts@.len() as int) =~= views(parts@));
        if walk_to(&self.root, &parts, parts.len()).is_none() {
            return false;
        }
        insert_below(&mut self.root, &parts, 0, entry);
        true
    }

    /// Replaces the file at a path; `false`, with the index unchanged, where there is none.
    pub fn replace_file(&mut self, path: &str, file: FileEntry) -> (done: bool)
        ensures
            done == (file_at(old(self).root@, path@) is Some),
            final(self)@ == (if done {
                IndexModel {
                    root: replaced(
                        old(self).root@,
                        path_parts(path@).drop_last(),
                        path_parts(path@).last(),
                        file@,
                    ),
                    ..old(self)@
                }
            } else {
                old(self)@
            }),
    {
        if self.find_file(path).is_none() {
            return false;
        }
        let parts = parts_of(path);
        assert(views(parts@).subrange(0, parts@.len() - 1) =~= views(parts@).drop_last());
        replace_below(&mut self.root, &parts, 0, file);
        true
    }
}

} // verus!
