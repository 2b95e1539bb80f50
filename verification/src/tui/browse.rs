//! Browsing the directories of a volume and of the host.
use vstd::prelude::*;
use vstd::string::*;

use super::erase_keys::only_tells;
use super::state::{
    FilesPane, Note, ReadPane, ReadView, SourceView, TapeBrowserEntry, UiState, WritePane,
};
use crate::app::mounts::MountedFilesystem;
use crate::ltfs::index::{
    directory_at, entry_models, DirModel, Directory, DirectoryEntry, EntryModel, Index,
};
use crate::paths::{same_path, same_path_spec};
use crate::sort::{lemma_sorted_models, sorted_by, stable_sort, Ranked};
use crate::text::{
    cat2, cat3, cat4, decimal, decimal_spec, lemma_text_le_total, lemma_text_le_trans, rsplit_once,
    rsplit_once_spec, same, text_le, views,
};

verus! {

/// The index of the volume that is shown.
pub open spec fn shown_index(s: UiState) -> Option<Index> {
    match s.device.snapshot {
        Some(snapshot) => match snapshot.volume {
            Some(volume) => volume.index,
            None => None,
        },
        None => None,
    }
}

/// The index of the volume that is shown.
pub fn index_shown(s: &UiState) -> (index: Option<&Index>)
    ensures
        match index {
            Some(i) => shown_index(*s) == Some(*i),
            None => shown_index(*s) is None,
        },
{
    match &s.device.snapshot {
        Some(snapshot) => match &snapshot.volume {
            Some(volume) => match &volume.index {
                Some(index) => Some(index),
                None => None,
            },
            None => None,
        },
        None => None,
    }
}

/// The directory at a path of the volume that is shown.
pub open spec fn shown_directory(s: UiState, path: Seq<char>) -> Option<DirModel> {
    match shown_index(s) {
        Some(index) => directory_at(index.root@, path),
        None => None,
    }
}

fn directory_shown<'a>(s: &'a UiState, path: &str) -> (directory: Option<&'a Directory>)
    ensures
        match directory {
            Some(d) => shown_directory(*s, path@) == Some(d@),
            None => shown_directory(*s, path@) is None,
        },
{
    match index_shown(s) {
        Some(index) => index.find_directory(path),
        None => None,
    }
}

/// The path of an entry of a directory of a volume.
pub open spec fn ltfs_path(parent: Seq<char>, name: Seq<char>) -> Seq<char> {
    if parent == "/"@ {
        "/"@ + name
    } else {
        parent + "/"@ + name
    }
}

/// The path of an entry of a directory of a volume.
pub fn join_ltfs_path(parent: &str, name: &str) -> (path: String)
    ensures
        path@ == ltfs_path(parent@, name@),
{
    if same(parent, "/") {
        cat2("/", name)
    } else {
        cat3(parent, "/", name)
    }
}

/// The directory that a directory of a volume lies in.
pub open spec fn ltfs_parent(path: Seq<char>) -> Seq<char> {
    match rsplit_once_spec(path, '/') {
        Some((parent, _)) => if parent.len() == 0 {
            "/"@
        } else {
            parent
        },
        None => "/"@,
    }
}

/// The directory that a directory of a volume lies in.
pub fn parent_of_ltfs(path: &str) -> (parent: String)
    ensures
        parent@ == ltfs_parent(path@),
{
    match rsplit_once(path, '/') {
        Some((parent, _)) => if parent.as_str().unicode_len() == 0 {
            "/".to_owned()
        } else {
            parent
        },
        None => "/".to_owned(),
    }
}

/// The names of the directories among entries.
pub open spec fn directory_names(entries: Seq<EntryModel>) -> Seq<Seq<char>>
    decreases entries.len(),
{
    if entries.len() == 0 {
        Seq::empty()
    } else {
        let rest = directory_names(entries.drop_last());
        match entries.last() {
            EntryModel::Directory(d) => rest.push(d.name),
            EntryModel::File(_) => rest,
        }
    }
}

/// Names in their order.
pub open spec fn names_in_order(names: Seq<Seq<char>>) -> Seq<Seq<char>> {
    sorted_by(names, |a: Seq<char>, b: Seq<char>| text_le(a, b))
}

fn sorted_directories(directory: &Directory) -> (names: Vec<String>)
    ensures
        views(names@) == names_in_order(directory_names(directory@.entries)),
{
    let ghost entries = directory@.entries;
    proof {
        crate::ltfs::index::lemma_entries(*directory);
    }
    let mut names: Vec<String> = Vec::new();
    let mut i: usize = 0;
    assert(entries.subrange(0, 0) =~= Seq::<EntryModel>::empty());
    assert(views(names@) =~= directory_names(entries.subrange(0, 0)));
    while i < directory.entries.len()
        invariant
            i <= directory.entries@.len(),
            entries == entry_models(directory.entries@),
            views(names@) == directory_names(entries.subrange(0, i as int)),
        decreases directory.entries@.len() - i,
    {
        let ghost next = entries.subrange(0, i + 1);
        assert(next.drop_last() =~= entries.subrange(0, i as int));
        assert(next.last() == directory.entries@[i as int]@);
        match &directory.entries[i] {
            DirectoryEntry::Directory(d) => {
                let ghost before = names@;
                let name = d.name.clone();
                names.push(name);
                assert(views(names@) =~= views(before).push(name@));
            },
            DirectoryEntry::File(_) => {},
        }
        i = i + 1;
    }
    assert(entries.subrange(0, i as int) =~= entries);
    let ghost unsorted = names@;
    let sorted = stable_sort(names);
    proof {
        let le = |a: Seq<char>, b: Seq<char>| text_le(a, b);
        let f = |t: String| t@;
        lemma_sorted_models(unsorted, f, le);
        assert(unsorted.map_values(f) =~= views(unsorted));
        assert(sorted@.map_values(f) =~= views(sorted@));
    }
    sorted
}

/// A directory of the volume is shown as a place to write to, or it is told that it is no
/// longer there.
pub open spec fn tape_directory_opened(s: UiState, path: Seq<char>, t: UiState) -> bool {
    match shown_directory(s, path) {
        None => only_tells(s, "LTFS directory no longer exists: "@ + path, t),
        Some(d) => {
            &&& t == (UiState {
                write: WritePane {
                    tape_directory: t.write.tape_directory,
                    tape_directories: t.write.tape_directories,
                    view: SourceView::LtfsDestination,
                    ..s.write
                },
                files: FilesPane { index: 0, ..s.files },
                note: Note { status: t.note.status, ..s.note },
                ..s
            })
            &&& t.write.tape_directory@ == path
            &&& views(t.write.tape_directories@) == names_in_order(directory_names(d.entries))
            &&& t.note.status@ == "Select this LTFS directory or browse into a child directory"@
        },
    }
}

/// Shows a directory of the volume as a place to write to.
pub fn open_tape_directory(state: &mut UiState, path: &str)
    ensures
        tape_directory_opened(*old(state), path@, *final(state)),
{
    let found = match directory_shown(state, path) {
        None => None,
        Some(d) => Some(sorted_directories(d)),
    };
    match found {
        None => {
            state.note.status = cat2("LTFS directory no longer exists: ", path);
        },
        Some(names) => {
            state.write.tape_directory = path.to_owned();
            state.write.tape_directories = names;
            state.files.index = 0;
            state.write.view = SourceView::LtfsDestination;
            state.note.status =
            "Select this LTFS directory or browse into a child directory".to_owned();
        },
    }
}

// ---------------------------------------------------------------------------
// The entries of a directory of a volume
// ---------------------------------------------------------------------------

/// The model of an entry that is shown.
#[verifier::ext_equal]
pub struct ShownEntry {
    pub name: Seq<char>,
    pub path: Seq<char>,
    pub directory: bool,
    pub size: u64,
}

impl View for TapeBrowserEntry {
    type V = ShownEntry;

    open spec fn view(&self) -> ShownEntry {
        ShownEntry {
            name: self.name@,
            path: self.path@,
            directory: self.directory,
            size: self.size,
        }
    }
}

pub open spec fn shown_models(list: Seq<TapeBrowserEntry>) -> Seq<ShownEntry> {
    list.map_values(|e: TapeBrowserEntry| e@)
}

/// Directories come first, then names in their order.
pub open spec fn shown_le(a: ShownEntry, b: ShownEntry) -> bool {
    if a.directory != b.directory {
        a.directory
    } else {
        text_le(a.name, b.name)
    }
}

impl Ranked for TapeBrowserEntry {
    open spec fn ranks_at_most(&self, other: &TapeBrowserEntry) -> bool {
        shown_le(self@, other@)
    }

    fn at_most(&self, other: &TapeBrowserEntry) -> (yes: bool) {
        if self.directory != other.directory {
            self.directory
        } else {
            crate::text::at_most(self.name.as_str(), other.name.as_str())
        }
    }

    proof fn ranks_total(a: &TapeBrowserEntry, b: &TapeBrowserEntry) {
        lemma_text_le_total(a.name@, b.name@);
    }

    proof fn ranks_transitive(a: &TapeBrowserEntry, b: &TapeBrowserEntry, c: &TapeBrowserEntry) {
        if text_le(a.name@, b.name@) && text_le(b.name@, c.name@) {
            lemma_text_le_trans(a.name@, b.name@, c.name@);
        }
    }
}

/// An entry as it is shown.
pub open spec fn shown_entry(parent: Seq<char>, e: EntryModel) -> ShownEntry {
    match e {
        EntryModel::Directory(d) => ShownEntry {
            name: d.name,
            path: ltfs_path(parent, d.name),
            directory: true,
            size: 0,
        },
        EntryModel::File(f) => ShownEntry {
            name: f.name,
            path: ltfs_path(parent, f.name),
            directory: false,
            size: f.length,
        },
    }
}

/// The entries of a directory as they are shown.
pub open spec fn shown_entries(parent: Seq<char>, entries: Seq<EntryModel>) -> Seq<ShownEntry> {
    sorted_by(
        entries.map_values(|e: EntryModel| shown_entry(parent, e)),
        |a: ShownEntry, b: ShownEntry| shown_le(a, b),
    )
}

fn list_entries(directory: &Directory, path: &str) -> (list: Vec<TapeBrowserEntry>)
    ensures
        shown_models(list@) == shown_entries(path@, directory@.entries),
{
    let ghost entries = directory@.entries;
    let ghost wanted = entries.map_values(|e: EntryModel| shown_entry(path@, e));
    proof {
        crate::ltfs::index::lemma_entries(*directory);
    }
    let mut list: Vec<TapeBrowserEntry> = Vec::new();
    let mut i: usize = 0;
    assert(shown_models(list@) =~= wanted.subrange(0, 0));
    while i < directory.entries.len()
        invariant
            i <= directory.entries@.len(),
            entries == entry_models(directory.entries@),
            wanted == entries.map_values(|e: EntryModel| shown_entry(path@, e)),
            shown_models(list@) == wanted.subrange(0, i as int),
        decreases directory.entries@.len() - i,
    {
        let ghost before = list@;
        assert(entries[i as int] == directory.entries@[i as int]@);
        let entry = match &directory.entries[i] {
            DirectoryEntry::Directory(d) => TapeBrowserEntry {
                name: d.name.clone(),
                path: join_ltfs_path(path, d.name.as_str()),
                directory: true,
                size: 0,
            },
            DirectoryEntry::File(f) => TapeBrowserEntry {
                name: f.name.clone(),
                path: join_ltfs_path(path, f.name.as_str()),
                directory: false,
                size: f.length,
            },
        };
        assert(entry@ =~= wanted[i as int]);
        list.push(entry);
        assert(shown_models(list@) =~= shown_models(before).push(entry@));
        assert(wanted.subrange(0, i + 1) =~= wanted.subrange(0, i as int).push(
            wanted[i as int],
        ));
        i = i + 1;
        assert(shown_models(list@) =~= wanted.subrange(0, i as int));
    }
    assert(wanted.subrange(0, i as int) =~= wanted);
    let ghost unsorted = list@;
    let sorted = stable_sort(list);
    proof {
        let le = |a: ShownEntry, b: ShownEntry| shown_le(a, b);
        let f = |e: TapeBrowserEntry| e@;
        lemma_sorted_models(unsorted, f, le);
        assert(unsorted.map_values(f) =~= shown_models(unsorted));
        assert(sorted@.map_values(f) =~= shown_models(sorted@));
    }
    sorted
}

/// A directory of the volume is shown for reading, or it is told that it is no longer
/// there.
pub open spec fn read_browser_opened(s: UiState, path: Seq<char>, t: UiState) -> bool {
    match shown_directory(s, path) {
        None => only_tells(s, "LTFS directory no longer exists: "@ + path, t),
        Some(d) => {
            &&& t == (UiState {
                read: ReadPane {
                    directory: t.read.directory,
                    entries: t.read.entries,
                    view: ReadView::TapeBrowser,
                    ..s.read
                },
                files: FilesPane { index: 0, ..s.files },
                ..s
            })
            &&& t.read.directory@ == path
            &&& shown_models(t.read.entries@) == shown_entries(path, d.entries)
        },
    }
}

/// Shows a directory of the volume for reading.
pub fn open_read_browser(state: &mut UiState, path: &str)
    ensures
        read_browser_opened(*old(state), path@, *final(state)),
{
    let found = match directory_shown(state, path) {
        None => None,
        Some(d) => Some(list_entries(d, path)),
    };
    match found {
        None => {
            state.note.status = cat2("LTFS directory no longer exists: ", path);
        },
        Some(entries) => {
            state.read.directory = path.to_owned();
            state.read.entries = entries;
            state.files.index = 0;
            state.read.view = ReadView::TapeBrowser;
        },
    }
}

// ---------------------------------------------------------------------------
// Selections
// ---------------------------------------------------------------------------

/// The position of the first text of a list that a test takes, or their number.
pub open spec fn first_taken(list: Seq<String>, takes: spec_fn(Seq<char>) -> bool) -> int
    decreases list.len(),
{
    if list.len() == 0 || takes(list[0]@) {
        0
    } else {
        1 + first_taken(list.drop_first(), takes)
    }
}

/// The list without the path, or with it at the end, and what is told of it.
pub open spec fn toggled(
    list: Seq<String>,
    k: int,
    path: String,
    removed: Seq<char>,
    after: Seq<String>,
    status: Seq<char>,
) -> bool {
    if k < list.len() {
        after == list.remove(k) && status == removed + path@
    } else {
        after == list.push(path) && status == "Selected "@ + path@ + " ("@ + decimal_spec(
            (list.len() + 1) as nat,
        ) + " roots total)"@
    }
}

fn toggle(list: &mut Vec<String>, position: usize, path: String, removed: &str) -> (status: String)
    requires
        position <= old(list)@.len(),
    ensures
        toggled(old(list)@, position as int, path, removed@, final(list)@, status@),
{
    if position < list.len() {
        let _ = list.remove(position);
        cat2(removed, path.as_str())
    } else {
        let text = path.clone();
        list.push(path);
        let mut status = cat4(
            "Selected ",
            text.as_str(),
            " (",
            decimal(list.len() as u64).as_str(),
        );
        status.append(" roots total)");
        status
    }
}

/// The position of a host path in a list, or its length.
pub open spec fn root_position(list: Seq<String>, path: Seq<char>) -> int {
    first_taken(list, |p: Seq<char>| same_path_spec(p, path))
}

pub fn find_root_in(list: &Vec<String>, path: &str) -> (k: usize)
    ensures
        k == root_position(list@, path@),
        k <= list@.len(),
{
    let ghost takes = |p: Seq<char>| same_path_spec(p, path@);
    let mut i: usize = 0;
    assert(list@.subrange(0, list@.len() as int) =~= list@);
    while i < list.len()
        invariant
            i <= list@.len(),
            takes == (|p: Seq<char>| same_path_spec(p, path@)),
            first_taken(list@, takes) == i + first_taken(
                list@.subrange(i as int, list@.len() as int),
                takes,
            ),
        decreases list@.len() - i,
    {
        let ghost rest = list@.subrange(i as int, list@.len() as int);
        assert(rest[0] == list@[i as int]);
        assert(rest.drop_first() =~= list@.subrange(i + 1, list@.len() as int));
        if same_path(list[i].as_str(), path) {
            return i;
        }
        i = i + 1;
    }
    i
}

/// The position of a path of the volume in a list, or its length.
pub open spec fn tape_position(list: Seq<String>, path: Seq<char>) -> int {
    first_taken(list, |p: Seq<char>| p == path)
}

pub fn find_tape_in(list: &Vec<String>, path: &str) -> (k: usize)
    ensures
        k == tape_position(list@, path@),
        k <= list@.len(),
{
    let ghost takes = |p: Seq<char>| p == path@;
    let mut i: usize = 0;
    assert(list@.subrange(0, list@.len() as int) =~= list@);
    while i < list.len()
        invariant
            i <= list@.len(),
            takes == (|p: Seq<char>| p == path@),
            first_taken(list@, takes) == i + first_taken(
                list@.subrange(i as int, list@.len() as int),
                takes,
            ),
        decreases list@.len() - i,
    {
        let ghost rest = list@.subrange(i as int, list@.len() as int);
        assert(rest[0] == list@[i as int]);
        assert(rest.drop_first() =~= list@.subrange(i + 1, list@.len() as int));
        if same(list[i].as_str(), path) {
            return i;
        }
        i = i + 1;
    }
    i
}

/// A host path is taken into the sources of a write, or out of them.
pub open spec fn source_toggled(s: UiState, path: String, t: UiState) -> bool {
    &&& t == (UiState {
        write: WritePane { roots: t.write.roots, ..s.write },
        note: Note { status: t.note.status, ..s.note },
        ..s
    })
    &&& toggled(
        s.write.roots@,
        root_position(s.write.roots@, path@),
        path,
        "Removed source "@,
        t.write.roots@,
        t.note.status@,
    )
}

/// Takes a host path into the sources of a write, or out of them.
pub fn toggle_source_root(state: &mut UiState, path: String)
    ensures
        source_toggled(*old(state), path, *final(state)),
{
    let k: usize = find_root_in(&state.write.roots, path.as_str());
    state.note.status = toggle(&mut state.write.roots, k, path, "Removed source ");
}

/// A path of the volume is taken into what is read, or out of it.
pub open spec fn selection_toggled(s: UiState, path: String, t: UiState) -> bool {
    &&& t == (UiState {
        read: ReadPane { selected: t.read.selected, ..s.read },
        note: Note { status: t.note.status, ..s.note },
        ..s
    })
    &&& toggled(
        s.read.selected@,
        tape_position(s.read.selected@, path@),
        path,
        "Removed LTFS selection "@,
        t.read.selected@,
        t.note.status@,
    )
}

/// Takes a path of the volume into what is read, or out of it.
pub fn toggle_tape_selection(state: &mut UiState, path: String)
    ensures
        selection_toggled(*old(state), path, *final(state)),
{
    let k: usize = find_tape_in(&state.read.selected, path.as_str());
    state.note.status = toggle(&mut state.read.selected, k, path, "Removed LTFS selection ");
}

/// A path that is not selected and is taken twice is as if it had not been touched.
pub proof fn toggling_twice_changes_nothing(
    list: Seq<String>,
    path: String,
    once: Seq<String>,
    twice: Seq<String>,
    first: Seq<char>,
    second: Seq<char>,
)
    requires
        tape_position(list, path@) == list.len(),
        toggled(list, tape_position(list, path@), path, "Removed LTFS selection "@, once, first),
        toggled(once, tape_position(once, path@), path, "Removed LTFS selection "@, twice, second),
    ensures
        twice == list,
{
    let takes = |p: Seq<char>| p == path@;
    lemma_first_taken_push(list, path, takes);
    assert(twice =~= list);
}

proof fn lemma_first_taken_push(list: Seq<String>, path: String, takes: spec_fn(Seq<char>) -> bool)
    requires
        first_taken(list, takes) == list.len(),
        takes(path@),
    ensures
        first_taken(list.push(path), takes) == list.len(),
    decreases list.len(),
{
    let more = list.push(path);
    if list.len() == 0 {
        assert(more[0] == path);
    } else {
        assert(more[0] == list[0]);
        assert(more.drop_first() =~= list.drop_first().push(path));
        lemma_first_taken_bound(list.drop_first(), takes);
        lemma_first_taken_push(list.drop_first(), path, takes);
    }
}

proof fn lemma_first_taken_bound(list: Seq<String>, takes: spec_fn(Seq<char>) -> bool)
    ensures
        0 <= first_taken(list, takes) <= list.len(),
    decreases list.len(),
{
    if list.len() > 0 && !takes(list[0]@) {
        lemma_first_taken_bound(list.drop_first(), takes);
    }
}

/// A path is the root of one of the mounts.
pub open spec fn is_mount_point(mounts: Seq<MountedFilesystem>, path: Seq<char>) -> bool {
    exists|i: int|
        0 <= i < mounts.len() && same_path_spec(#[trigger] mounts[i].mount_point@, path)
}

/// Whether a path is the root of one of the mounts.
pub fn at_mount_point(mounts: &Vec<MountedFilesystem>, path: &str) -> (yes: bool)
    ensures
        yes == is_mount_point(mounts@, path@),
{
    let mut i: usize = 0;
    while i < mounts.len()
        invariant
            i <= mounts@.len(),
            forall|j: int|
                0 <= j < i ==> !same_path_spec(#[trigger] mounts@[j].mount_point@, path@),
        decreases mounts@.len() - i,
    {
        if same_path(mounts[i].mount_point.as_str(), path) {
            return true;
        }
        i = i + 1;
    }
    false
}

} // verus!
