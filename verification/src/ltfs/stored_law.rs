//! What is stored is read back: an index is what its document gives, with the counts of
//! its tree, and changes of the tree keep it so.
use vstd::prelude::*;

use super::index::{
    directory_position, inserted, lemma_positions, replaced, walk, DirModel, EntryModel,
    FileModel, IndexModel,
};
use super::index_law::{
    directory_elements, directory_storable, entries_storable, file_elements, file_storable,
    index_storable, lemma_index_document, solid,
};
use super::index_xml::{
    directory_element, index_elements, index_events, index_from, index_xml, IndexFault,
};
use super::path_law::file_in;
use super::xml::{plain_document, plain_value, read_plainly, XmlEvent};

verus! {

/// An index that its document gives back but for the counts: texts are not empty and have
/// no white space around them, the version and the types of extended attributes hold no
/// special character, partitions are 0 or 1, the volume bears the name of the root
/// directory, and the tree can be counted.
pub open spec fn index_writable(m: IndexModel) -> bool {
    &&& plain_value(m.version)
    &&& solid(m.creator)
    &&& solid(m.volume_uuid)
    &&& solid(m.update_time)
    &&& m.self_location.partition <= 1
    &&& m.previous_location is Some ==> m.previous_location->0.partition <= 1
    &&& m.volume_lock_state is Some ==> solid(m.volume_lock_state->0)
    &&& m.volume_name == Some(m.root.name)
    &&& solid(m.root.name)
    &&& directory_storable(m.root)
    &&& countable(m.root)
}

/// The files and directories of a tree can be counted in 64 bits.
pub open spec fn countable(root: DirModel) -> bool {
    &&& file_elements(directory_element(root)) <= u64::MAX
    &&& 1 <= directory_elements(directory_element(root)) <= u64::MAX
}

/// The index with the counts of its tree; the root is not counted.
pub open spec fn recounted(m: IndexModel) -> IndexModel {
    IndexModel {
        file_count: file_elements(directory_element(m.root)) as u64,
        directory_count: (directory_elements(directory_element(m.root)) - 1) as u64,
        ..m
    }
}

/// The document of an index is plain, and it is read back as that index, with the counts
/// of its tree: from its events, and from whatever events a reader gives of its text.
pub proof fn stored_index_reads_back(m: IndexModel)
    requires
        index_writable(m),
    ensures
        forall|events: Seq<XmlEvent>| #[trigger]
            read_plainly(index_xml(m), events) ==> index_from(events) == Ok::<
                IndexModel,
                IndexFault,
            >(recounted(m)),
        plain_document(index_events(m)),
        index_from(index_events(m).push(XmlEvent::Eof)) == Ok::<IndexModel, IndexFault>(
            recounted(m),
        ),
{
    let n = recounted(m);
    assert(index_storable(n));
    lemma_index_document(n);
    assert(index_elements(n) == index_elements(m));
    assert(index_events(n) == index_events(m));
}

pub open spec fn entry_storable(e: EntryModel) -> bool {
    match e {
        EntryModel::Directory(d) => directory_storable(d),
        EntryModel::File(f) => file_storable(f),
    }
}

/// All entries are such that the document gives them back.
pub open spec fn all_storable(entries: Seq<EntryModel>) -> bool {
    forall|i: int| 0 <= i < entries.len() ==> entry_storable(#[trigger] entries[i])
}

proof fn lemma_all_storable(entries: Seq<EntryModel>)
    ensures
        entries_storable(entries) == all_storable(entries),
    decreases entries.len(),
{
    if entries.len() > 0 {
        lemma_all_storable(entries.drop_last());
        let rest = entries.drop_last();
        if entries_storable(entries) {
            assert forall|i: int| 0 <= i < entries.len() implies entry_storable(
                #[trigger] entries[i],
            ) by {
                if i < rest.len() {
                    assert(rest[i] == entries[i]);
                }
            }
        }
        if all_storable(entries) {
            assert forall|i: int| 0 <= i < rest.len() implies entry_storable(
                #[trigger] rest[i],
            ) by {
                assert(rest[i] == entries[i]);
            }
            assert(entry_storable(entries[entries.len() - 1]));
        }
    }
}

proof fn lemma_update_storable(d: DirModel, k: int, e: EntryModel)
    requires
        directory_storable(d),
        entry_storable(e),
        0 <= k < d.entries.len(),
    ensures
        directory_storable(DirModel { entries: d.entries.update(k, e), ..d }),
{
    lemma_all_storable(d.entries);
    lemma_all_storable(d.entries.update(k, e));
}

proof fn lemma_entry_storable(d: DirModel, k: int)
    requires
        directory_storable(d),
        0 <= k < d.entries.len(),
    ensures
        entry_storable(d.entries[k]),
{
    lemma_all_storable(d.entries);
}

/// A tree to which an entry is added is still given back by its document.
pub proof fn inserting_keeps_storable(d: DirModel, parts: Seq<Seq<char>>, entry: EntryModel)
    requires
        directory_storable(d),
        walk(d, parts) is Some,
        entry_storable(entry),
    ensures
        directory_storable(inserted(d, parts, entry)),
        inserted(d, parts, entry).name == d.name,
    decreases parts.len(),
{
    if parts.len() == 0 {
        lemma_all_storable(d.entries);
        lemma_all_storable(d.entries.push(entry));
        assert(all_storable(d.entries.push(entry)));
    } else {
        let k = directory_position(d.entries, parts[0]);
        lemma_positions(d.entries, parts[0]);
        lemma_entry_storable(d, k);
        let sub = d.entries[k]->Directory_0;
        inserting_keeps_storable(sub, parts.drop_first(), entry);
        lemma_update_storable(
            d,
            k,
            EntryModel::Directory(inserted(sub, parts.drop_first(), entry)),
        );
    }
}

/// A tree in which a file is replaced is still given back by its document.
pub proof fn replacing_keeps_storable(
    d: DirModel,
    parts: Seq<Seq<char>>,
    name: Seq<char>,
    file: FileModel,
)
    requires
        directory_storable(d),
        file_in(d, parts, name) is Some,
        file_storable(file),
    ensures
        directory_storable(replaced(d, parts, name, file)),
        replaced(d, parts, name, file).name == d.name,
    decreases parts.len(),
{
    if parts.len() == 0 {
        lemma_positions(d.entries, name);
        lemma_update_storable(
            d,
            super::index::file_position(d.entries, name),
            EntryModel::File(file),
        );
    } else {
        let k = directory_position(d.entries, parts[0]);
        lemma_positions(d.entries, parts[0]);
        lemma_entry_storable(d, k);
        let sub = d.entries[k]->Directory_0;
        replacing_keeps_storable(sub, parts.drop_first(), name, file);
        lemma_update_storable(
            d,
            k,
            EntryModel::Directory(replaced(sub, parts.drop_first(), name, file)),
        );
    }
}

/// A file that is found in a tree which its document gives back is given back too.
pub proof fn found_file_is_storable(d: DirModel, parts: Seq<Seq<char>>, name: Seq<char>)
    requires
        directory_storable(d),
        file_in(d, parts, name) is Some,
    ensures
        file_storable(file_in(d, parts, name)->0),
    decreases parts.len(),
{
    if parts.len() == 0 {
        lemma_positions(d.entries, name);
        lemma_entry_storable(d, super::index::file_position(d.entries, name));
    } else {
        let k = directory_position(d.entries, parts[0]);
        lemma_positions(d.entries, parts[0]);
        lemma_entry_storable(d, k);
        found_file_is_storable(d.entries[k]->Directory_0, parts.drop_first(), name);
    }
}

} // verus!
