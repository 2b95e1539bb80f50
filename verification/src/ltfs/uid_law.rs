//! The unique numbers of a tree: what a change of the tree does to them.
use vstd::multiset::*;
use vstd::prelude::*;

use super::index::{
    directory_position, file_position, inserted, lemma_positions, replaced, walk, DirModel,
    EntryModel, FileModel, IndexModel,
};
use super::path_law::file_in;

verus! {

/// The numbers of a directory and of all that is below it, each as often as it is used.
pub open spec fn tree_uids(d: DirModel) -> Multiset<u64>
    decreases d, 0nat,
{
    entries_uids(d.entries).insert(d.fileuid)
}

/// The numbers of entries and of all that is below them.
pub open spec fn entries_uids(entries: Seq<EntryModel>) -> Multiset<u64>
    decreases entries, 0nat,
{
    if entries.len() == 0 {
        Multiset::empty()
    } else {
        entries_uids(entries.drop_last()).add(
            match entries.last() {
                EntryModel::Directory(d) => tree_uids(d),
                EntryModel::File(f) => Multiset::singleton(f.fileuid),
            },
        )
    }
}

/// The numbers of an entry and of all that is below it.
pub open spec fn entry_uids(entry: EntryModel) -> Multiset<u64> {
    match entry {
        EntryModel::Directory(d) => tree_uids(d),
        EntryModel::File(f) => Multiset::singleton(f.fileuid),
    }
}

/// No number is used twice, and none is above `highest`.
pub open spec fn uids_below(root: DirModel, highest: u64) -> bool {
    forall|uid: u64|
        (#[trigger] tree_uids(root).count(uid)) <= 1 && (tree_uids(root).count(uid) > 0 ==> uid
            <= highest)
}

/// No number is used twice in an index, and it tells a number that none is above.
pub open spec fn uids_sound(index: IndexModel) -> bool {
    index.highest_file_uid is Some && uids_below(index.root, index.highest_file_uid->0)
}

/// A tree holds what another holds, and beside that the numbers behind `from` up to `to`,
/// each once.
pub open spec fn uids_added(before: DirModel, after: DirModel, from: u64, to: u64) -> bool {
    &&& from <= to
    &&& forall|uid: u64| #[trigger]
        tree_uids(after).count(uid) == tree_uids(before).count(uid) + if from < uid <= to {
            1nat
        } else {
            0nat
        }
}

proof fn lemma_update_uids(entries: Seq<EntryModel>, k: int, e: EntryModel)
    requires
        0 <= k < entries.len(),
    ensures
        entries_uids(entries.update(k, e)).add(entry_uids(entries[k])) =~= entries_uids(
            entries,
        ).add(entry_uids(e)),
    decreases entries.len(),
{
    let all = entries.update(k, e);
    if k == entries.len() - 1 {
        assert(all.drop_last() =~= entries.drop_last());
    } else {
        lemma_update_uids(entries.drop_last(), k, e);
        assert(all.drop_last() =~= entries.drop_last().update(k, e));
        let before = entries.drop_last();
        assert forall|uid: u64| #[trigger]
            entries_uids(all).add(entry_uids(entries[k])).count(uid) == entries_uids(entries).add(
            entry_uids(e),
        ).count(uid) by {
            assert(entries_uids(before.update(k, e)).add(entry_uids(before[k])).count(uid)
                == entries_uids(before).add(entry_uids(e)).count(uid));
        }
    }
}

/// An entry that is added brings its own numbers and changes no other.
pub proof fn inserting_adds_uids(d: DirModel, parts: Seq<Seq<char>>, entry: EntryModel)
    requires
        walk(d, parts) is Some,
    ensures
        tree_uids(inserted(d, parts, entry)) =~= tree_uids(d).add(entry_uids(entry)),
    decreases parts.len(),
{
    let after = inserted(d, parts, entry);
    if parts.len() == 0 {
        assert(after.entries.drop_last() =~= d.entries);
    } else {
        let k = directory_position(d.entries, parts[0]);
        lemma_positions(d.entries, parts[0]);
        let sub = d.entries[k]->Directory_0;
        let changed = inserted(sub, parts.drop_first(), entry);
        inserting_adds_uids(sub, parts.drop_first(), entry);
        lemma_update_uids(d.entries, k, EntryModel::Directory(changed));
        assert forall|uid: u64| #[trigger]
            tree_uids(after).count(uid) == tree_uids(d).add(entry_uids(entry)).count(uid) by {
            assert(entries_uids(after.entries).add(entry_uids(d.entries[k])).count(uid)
                == entries_uids(d.entries).add(tree_uids(changed)).count(uid));
            assert(tree_uids(changed).count(uid) == tree_uids(sub).count(uid) + entry_uids(
                entry,
            ).count(uid));
        }
    }
}

/// A file that takes the place of one with the same number changes no number.
pub proof fn replacing_keeps_uids(
    d: DirModel,
    parts: Seq<Seq<char>>,
    name: Seq<char>,
    file: FileModel,
)
    requires
        file_in(d, parts, name) is Some,
        file.fileuid == file_in(d, parts, name)->0.fileuid,
    ensures
        tree_uids(replaced(d, parts, name, file)) =~= tree_uids(d),
    decreases parts.len(),
{
    let after = replaced(d, parts, name, file);
    if parts.len() == 0 {
        let k = file_position(d.entries, name);
        lemma_positions(d.entries, name);
        lemma_update_uids(d.entries, k, EntryModel::File(file));
        assert forall|uid: u64| #[trigger]
            tree_uids(after).count(uid) == tree_uids(d).count(uid) by {
            assert(entries_uids(after.entries).add(entry_uids(d.entries[k])).count(uid)
                == entries_uids(d.entries).add(entry_uids(EntryModel::File(file))).count(uid));
        }
    } else {
        let k = directory_position(d.entries, parts[0]);
        lemma_positions(d.entries, parts[0]);
        let sub = d.entries[k]->Directory_0;
        let changed = replaced(sub, parts.drop_first(), name, file);
        replacing_keeps_uids(sub, parts.drop_first(), name, file);
        lemma_update_uids(d.entries, k, EntryModel::Directory(changed));
        assert forall|uid: u64| #[trigger]
            tree_uids(after).count(uid) == tree_uids(d).count(uid) by {
            assert(entries_uids(after.entries).add(entry_uids(d.entries[k])).count(uid)
                == entries_uids(d.entries).add(tree_uids(changed)).count(uid));
        }
    }
}

/// Where a tree gets the numbers behind the highest one, each once, none is used twice
/// afterwards, and none is above the new highest one.
pub proof fn added_uids_stay_sound(before: DirModel, after: DirModel, from: u64, to: u64)
    requires
        uids_below(before, from),
        uids_added(before, after, from, to),
    ensures
        uids_below(after, to),
{
    assert forall|uid: u64|
        (#[trigger] tree_uids(after).count(uid)) <= 1 && (tree_uids(after).count(uid) > 0 ==> uid
            <= to) by {
        assert(tree_uids(before).count(uid) <= 1);
    }
}

} // verus!
