//! What a change of the tree of an index means for what is found in it.
use vstd::prelude::*;

use super::index::{
    directory_position, entry_name, file_position, inserted, lemma_positions, replaced, walk,
    DirModel, EntryModel, FileModel,
};

verus! {

/// The file called `name` in the directory that `parts` leads to.
pub open spec fn file_in(d: DirModel, parts: Seq<Seq<char>>, name: Seq<char>) -> Option<FileModel> {
    match walk(d, parts) {
        None => None,
        Some(at) => {
            let k = file_position(at.entries, name);
            if k < at.entries.len() {
                Some(at.entries[k]->File_0)
            } else {
                None
            }
        },
    }
}

/// Two entries of one kind and one name.
pub open spec fn alike(a: EntryModel, b: EntryModel) -> bool {
    entry_name(a) == entry_name(b) && (a is Directory <==> b is Directory)
}

proof fn lemma_update_positions(entries: Seq<EntryModel>, k: int, e: EntryModel, name: Seq<char>)
    requires
        0 <= k < entries.len(),
        alike(entries[k], e),
    ensures
        directory_position(entries.update(k, e), name) == directory_position(entries, name),
        file_position(entries.update(k, e), name) == file_position(entries, name),
    decreases entries.len(),
{
    let rest = entries.drop_first();
    let changed = entries.update(k, e);
    if k == 0 {
        assert(changed.drop_first() =~= rest);
    } else {
        lemma_update_positions(rest, k - 1, e, name);
        assert(changed.drop_first() =~= rest.update(k - 1, e));
    }
}

proof fn lemma_push_positions(entries: Seq<EntryModel>, e: EntryModel, name: Seq<char>)
    ensures
        directory_position(entries.push(e), name) == (if directory_position(entries, name)
            < entries.len() || (e is Directory && entry_name(e) == name) {
            directory_position(entries, name)
        } else {
            entries.len() as int + 1
        }),
        file_position(entries.push(e), name) == (if file_position(entries, name) < entries.len()
            || (e is File && entry_name(e) == name) {
            file_position(entries, name)
        } else {
            entries.len() as int + 1
        }),
    decreases entries.len(),
{
    lemma_positions(entries, name);
    let all = entries.push(e);
    if entries.len() > 0 {
        lemma_positions(entries.drop_first(), name);
        lemma_push_positions(entries.drop_first(), e, name);
        assert(all.drop_first() =~= entries.drop_first().push(e));
        assert(all[0] == entries[0]);
    } else {
        assert(all.drop_first() =~= Seq::<EntryModel>::empty());
        assert(directory_position(all.drop_first(), name) == 0);
        assert(file_position(all.drop_first(), name) == 0);
        assert(all[0] == e);
    }
}

/// A file that takes the place of another is found in its place.
pub proof fn replaced_file_is_found(
    d: DirModel,
    parts: Seq<Seq<char>>,
    name: Seq<char>,
    file: FileModel,
)
    requires
        file_in(d, parts, name) is Some,
        file.name == name,
    ensures
        file_in(replaced(d, parts, name, file), parts, name) == Some(file),
    decreases parts.len(),
{
    let after = replaced(d, parts, name, file);
    if parts.len() == 0 {
        let k = file_position(d.entries, name);
        lemma_positions(d.entries, name);
        lemma_update_positions(d.entries, k, EntryModel::File(file), name);
    } else {
        let k = directory_position(d.entries, parts[0]);
        lemma_positions(d.entries, parts[0]);
        let sub = d.entries[k]->Directory_0;
        replaced_file_is_found(sub, parts.drop_first(), name, file);
        lemma_replaced_name(sub, parts.drop_first(), name, file);
        lemma_update_positions(
            d.entries,
            k,
            EntryModel::Directory(replaced(sub, parts.drop_first(), name, file)),
            parts[0],
        );
    }
}

proof fn lemma_replaced_name(
    d: DirModel,
    parts: Seq<Seq<char>>,
    name: Seq<char>,
    file: FileModel,
)
    ensures
        replaced(d, parts, name, file).name == d.name,
{
}

/// A file that takes the place of another leaves every file with another path as it is.
pub proof fn replacing_keeps_other_files(
    d: DirModel,
    parts: Seq<Seq<char>>,
    name: Seq<char>,
    file: FileModel,
    other_parts: Seq<Seq<char>>,
    other: Seq<char>,
)
    requires
        file_in(d, parts, name) is Some,
        file.name == name,
        parts != other_parts || name != other,
    ensures
        file_in(replaced(d, parts, name, file), other_parts, other) == file_in(
            d,
            other_parts,
            other,
        ),
    decreases parts.len(),
{
    if parts.len() == 0 {
        let k = file_position(d.entries, name);
        lemma_positions(d.entries, name);
        if other_parts.len() == 0 {
            assert(parts =~= other_parts);
            lemma_update_positions(d.entries, k, EntryModel::File(file), other);
            lemma_positions(d.entries, other);
        } else {
            lemma_update_positions(d.entries, k, EntryModel::File(file), other_parts[0]);
            lemma_positions(d.entries, other_parts[0]);
        }
    } else {
        let k = directory_position(d.entries, parts[0]);
        lemma_positions(d.entries, parts[0]);
        let sub = d.entries[k]->Directory_0;
        let changed = EntryModel::Directory(replaced(sub, parts.drop_first(), name, file));
        lemma_replaced_name(sub, parts.drop_first(), name, file);
        if other_parts.len() == 0 {
            lemma_update_positions(d.entries, k, changed, other);
            lemma_positions(d.entries, other);
        } else {
            lemma_update_positions(d.entries, k, changed, other_parts[0]);
            lemma_positions(d.entries, other_parts[0]);
            if other_parts[0] == parts[0] {
                if parts.drop_first() == other_parts.drop_first() {
                    assert(parts =~= other_parts) by {
                        assert(parts =~= seq![parts[0]] + parts.drop_first());
                        assert(other_parts =~= seq![parts[0]] + parts.drop_first());
                    }
                }
                replacing_keeps_other_files(
                    sub,
                    parts.drop_first(),
                    name,
                    file,
                    other_parts.drop_first(),
                    other,
                );
            }
        }
    }
}

/// A file that is added to a directory without one of its name is found there.
pub proof fn inserted_file_is_found(d: DirModel, parts: Seq<Seq<char>>, file: FileModel)
    requires
        walk(d, parts) is Some,
        file_in(d, parts, file.name) is None,
    ensures
        file_in(inserted(d, parts, EntryModel::File(file)), parts, file.name) == Some(file),
    decreases parts.len(),
{
    let entry = EntryModel::File(file);
    if parts.len() == 0 {
        lemma_positions(d.entries, file.name);
        lemma_push_positions(d.entries, entry, file.name);
    } else {
        let k = directory_position(d.entries, parts[0]);
        lemma_positions(d.entries, parts[0]);
        let sub = d.entries[k]->Directory_0;
        inserted_file_is_found(sub, parts.drop_first(), file);
        lemma_inserted_name(sub, parts.drop_first(), entry);
        lemma_update_positions(
            d.entries,
            k,
            EntryModel::Directory(inserted(sub, parts.drop_first(), entry)),
            parts[0],
        );
    }
}

/// A directory that is added where there is none of its name is found there.
pub proof fn inserted_directory_is_found(d: DirModel, parts: Seq<Seq<char>>, new: DirModel)
    requires
        walk(d, parts) is Some,
        walk(d, parts.push(new.name)) is None,
    ensures
        walk(inserted(d, parts, EntryModel::Directory(new)), parts.push(new.name)) == Some(new),
    decreases parts.len(),
{
    let entry = EntryModel::Directory(new);
    let whole = parts.push(new.name);
    if parts.len() == 0 {
        assert(whole.drop_first() =~= Seq::<Seq<char>>::empty());
        lemma_positions(d.entries, new.name);
        lemma_push_positions(d.entries, entry, new.name);
        assert(directory_position(d.entries, new.name) == d.entries.len()) by {
            let k = directory_position(d.entries, new.name);
            if k < d.entries.len() {
                assert(walk(d.entries[k]->Directory_0, whole.drop_first()) is Some);
            }
        }
        assert(walk(new, whole.drop_first()) == Some(new));
    } else {
        assert(whole.drop_first() =~= parts.drop_first().push(new.name));
        let k = directory_position(d.entries, parts[0]);
        lemma_positions(d.entries, parts[0]);
        let sub = d.entries[k]->Directory_0;
        inserted_directory_is_found(sub, parts.drop_first(), new);
        lemma_inserted_name(sub, parts.drop_first(), entry);
        lemma_update_positions(
            d.entries,
            k,
            EntryModel::Directory(inserted(sub, parts.drop_first(), entry)),
            parts[0],
        );
    }
}

proof fn lemma_inserted_name(d: DirModel, parts: Seq<Seq<char>>, entry: EntryModel)
    ensures
        inserted(d, parts, entry).name == d.name,
{
}

/// What is added leaves every file that could be found where it is.
pub proof fn inserting_keeps_files(
    d: DirModel,
    parts: Seq<Seq<char>>,
    entry: EntryModel,
    other_parts: Seq<Seq<char>>,
    other: Seq<char>,
)
    requires
        walk(d, parts) is Some,
        file_in(d, other_parts, other) is Some,
    ensures
        file_in(inserted(d, parts, entry), other_parts, other) == file_in(d, other_parts, other),
    decreases parts.len(),
{
    if parts.len() == 0 {
        if other_parts.len() == 0 {
            lemma_positions(d.entries, other);
            lemma_push_positions(d.entries, entry, other);
        } else {
            lemma_positions(d.entries, other_parts[0]);
            lemma_push_positions(d.entries, entry, other_parts[0]);
        }
    } else {
        let k = directory_position(d.entries, parts[0]);
        lemma_positions(d.entries, parts[0]);
        let sub = d.entries[k]->Directory_0;
        let changed = EntryModel::Directory(inserted(sub, parts.drop_first(), entry));
        lemma_inserted_name(sub, parts.drop_first(), entry);
        if other_parts.len() == 0 {
            lemma_update_positions(d.entries, k, changed, other);
            lemma_positions(d.entries, other);
        } else {
            lemma_update_positions(d.entries, k, changed, other_parts[0]);
            lemma_positions(d.entries, other_parts[0]);
            if other_parts[0] == parts[0] {
                inserting_keeps_files(
                    sub,
                    parts.drop_first(),
                    entry,
                    other_parts.drop_first(),
                    other,
                );
            }
        }
    }
}

} // verus!
