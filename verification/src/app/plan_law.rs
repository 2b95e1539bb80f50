//! What is planned is found: every file of a plan has its entry in the planned index, and
//! its bytes are counted.
use vstd::multiset::*;
use vstd::prelude::*;
use vstd::string::*;

use super::plan::{
    child_target, inner_path, lemma_child_is_below, new_directory, new_file, place, planned,
    planned_children, plan_start, planned_roots, planned_test_file, root_target, saturating_count,
    target_parts, test_attributes, PlanState, PlannedModel, PlannedSourceModel, SourceKind,
    SourceNode,
};
use super::source::has_entry;
use super::write::{source_plan, WriteSource};
use crate::ltfs::index::{
    directory_at, file_at, inserted, lemma_positions, nonempty, path_parts, walk, DirModel,
    EntryModel, FileModel, IndexModel,
};
use crate::ltfs::index_law::directory_storable;
use crate::ltfs::path_law::{file_in, inserted_file_is_found, inserting_keeps_files};
use crate::ltfs::stored_law::inserting_keeps_storable;
use crate::ltfs::uid_law::{
    added_uids_stay_sound, entries_uids, entry_uids, inserting_adds_uids, tree_uids, uids_added,
    uids_below, uids_sound,
};
use crate::sort::stably_sorted;
use crate::text::{
    first_index, lemma_first_index, lemma_last_index, rsplit_once_spec, split_spec, without_leading,
    without_trailing,
};

verus! {

proof fn lemma_split_concat(a: Seq<char>, b: Seq<char>, c: char)
    ensures
        split_spec(a.push(c) + b, c) == split_spec(a, c) + split_spec(b, c),
    decreases a.len(),
{
    let whole = a.push(c) + b;
    lemma_first_index(a, c);
    lemma_first_index(b, c);
    lemma_first_index(whole, c);
    let k = first_index(a, c);
    let w = first_index(whole, c);
    if k < a.len() {
        assert(whole[k] == c);
        assert(w == k) by {
            if w < k {
                assert(whole[w] == a[w]);
            } else if k < w {
                assert(whole[k] != c);
            }
        }
        let rest = a.subrange(k + 1, a.len() as int);
        lemma_split_concat(rest, b, c);
        assert(whole.subrange(0, k) =~= a.subrange(0, k));
        assert(whole.subrange(k + 1, whole.len() as int) =~= rest.push(c) + b);
        lemma_first_index(rest, c);
        lemma_first_index(rest.push(c) + b, c);
        let head = seq![a.subrange(0, k)];
        assert(split_spec(whole, c) == head + split_spec(rest.push(c) + b, c));
        assert(split_spec(a, c) == head + split_spec(rest, c));
        assert(head + (split_spec(rest, c) + split_spec(b, c)) =~= head + split_spec(rest, c)
            + split_spec(b, c));
    } else {
        assert(whole[a.len() as int] == c);
        assert(w == a.len()) by {
            if w < a.len() {
                assert(whole[w] == a[w]);
            } else if a.len() < w {
                assert(whole[a.len() as int] != c);
            }
        }
        assert(whole.subrange(0, w) =~= a);
        assert(whole.subrange(w + 1, whole.len() as int) =~= b);
    }
}

proof fn lemma_nonempty_concat(a: Seq<Seq<char>>, b: Seq<Seq<char>>)
    ensures
        nonempty(a + b) == nonempty(a) + nonempty(b),
    decreases b.len(),
{
    if b.len() == 0 {
        assert(a + b =~= a);
        assert(nonempty(a) + nonempty(b) =~= nonempty(a));
    } else {
        lemma_nonempty_concat(a, b.drop_last());
        assert((a + b).drop_last() =~= a + b.drop_last());
        assert((a + b).last() == b.last());
        assert(nonempty(a + b) =~= nonempty(a) + nonempty(b));
    }
}

/// The names in a path are those in front of a slash and those behind it.
pub proof fn names_join_at_slash(a: Seq<char>, b: Seq<char>)
    ensures
        path_parts(a.push('/') + b) == path_parts(a) + path_parts(b),
{
    lemma_split_concat(a, b, '/');
    lemma_nonempty_concat(split_spec(a, '/'), split_spec(b, '/'));
}

proof fn lemma_no_names()
    ensures
        path_parts(Seq::<char>::empty()) == Seq::<Seq<char>>::empty(),
{
    let none = Seq::<char>::empty();
    lemma_first_index(none, '/');
    assert(split_spec(none, '/') =~= seq![none]);
    assert(split_spec(none, '/').drop_last() =~= Seq::<Seq<char>>::empty());
    assert(nonempty(split_spec(none, '/').drop_last()) == Seq::<Seq<char>>::empty());
}

proof fn lemma_one_name(name: Seq<char>)
    requires
        name.len() > 0,
        forall|i: int| 0 <= i < name.len() ==> name[i] != '/',
    ensures
        path_parts(name) == seq![name],
{
    lemma_first_index(name, '/');
    assert(split_spec(name, '/') =~= seq![name]);
    assert(split_spec(name, '/').drop_last() =~= Seq::<Seq<char>>::empty());
    assert(nonempty(split_spec(name, '/').drop_last()) =~= Seq::<Seq<char>>::empty());
    assert(nonempty(split_spec(name, '/')) =~= seq![name]);
}

proof fn lemma_leading(path: Seq<char>)
    ensures
        path_parts(without_leading(path, '/')) == path_parts(path),
    decreases path.len(),
{
    if path.len() > 0 && path[0] == '/' {
        lemma_leading(path.drop_first());
        lemma_no_names();
        assert(path =~= Seq::<char>::empty().push('/') + path.drop_first());
        names_join_at_slash(Seq::empty(), path.drop_first());
        assert(path_parts(path) =~= path_parts(path.drop_first()));
    }
}

proof fn lemma_trailing(path: Seq<char>)
    ensures
        path_parts(without_trailing(path, '/')) == path_parts(path),
    decreases path.len(),
{
    if path.len() > 0 && path.last() == '/' {
        lemma_trailing(path.drop_last());
        lemma_no_names();
        assert(path =~= path.drop_last().push('/') + Seq::<char>::empty());
        names_join_at_slash(path.drop_last(), Seq::empty());
        assert(path_parts(path) =~= path_parts(path.drop_last()));
    }
}

/// A target path names its parent and, behind that, itself.
pub proof fn target_names_its_parent(target: Seq<char>)
    requires
        target_parts(target) is Ok,
    ensures
        path_parts(target) == path_parts(target_parts(target)->Ok_0.0).push(
            target_parts(target)->Ok_0.1,
        ),
{
    let inner = inner_path(target);
    let (parent, name) = target_parts(target)->Ok_0;
    lemma_leading(target);
    lemma_trailing(without_leading(target, '/'));
    lemma_last_index(inner, '/');
    match rsplit_once_spec(inner, '/') {
        Some(pair) => {
            assert(inner =~= parent.push('/') + name);
            names_join_at_slash(parent, name);
        },
        None => {
            lemma_no_names();
        },
    }
    lemma_one_name(name);
    assert(path_parts(target) =~= path_parts(parent).push(name));
}

/// Every file of a plan is in the index, with its size.
pub open spec fn files_found(root: DirModel, files: Seq<PlannedModel>) -> bool {
    forall|i: int|
        0 <= i < files.len() ==> file_at(root, (#[trigger] files[i]).target) is Some && file_at(
            root,
            files[i].target,
        )->0.length == files[i].size
}

proof fn lemma_still_found(
    root: DirModel,
    parts: Seq<Seq<char>>,
    entry: EntryModel,
    files: Seq<PlannedModel>,
)
    requires
        walk(root, parts) is Some,
        files_found(root, files),
    ensures
        files_found(inserted(root, parts, entry), files),
{
    assert forall|i: int| 0 <= i < files.len() implies file_at(
        inserted(root, parts, entry),
        (#[trigger] files[i]).target,
    ) == file_at(root, files[i].target) by {
        let names = path_parts(files[i].target);
        assert(file_at(root, files[i].target) is Some);
        assert(file_in(root, names.drop_last(), names.last()) == file_at(root, files[i].target));
        inserting_keeps_files(root, parts, entry, names.drop_last(), names.last());
    }
}

proof fn lemma_place_is_free(root: DirModel, target: Seq<char>)
    requires
        place(root, target) is Ok,
    ensures
        ({
            let (parent, name) = place(root, target)->Ok_0;
            &&& target_parts(target) == place(root, target)
            &&& walk(root, path_parts(parent)) is Some
            &&& file_in(root, path_parts(parent), name) is None
        }),
{
    let (parent, name) = place(root, target)->Ok_0;
    let d = directory_at(root, parent)->0;
    lemma_positions(d.entries, name);
    assert(!has_entry(d, name));
}

proof fn lemma_new_file_found(
    st: PlanState,
    target: Seq<char>,
    file: FileModel,
    planned: PlannedModel,
)
    requires
        place(st.root, target) is Ok,
        files_found(st.root, st.files),
        planned.target == target,
        file.name == place(st.root, target)->Ok_0.1,
        file.length == planned.size,
    ensures
        files_found(
            inserted(
                st.root,
                path_parts(place(st.root, target)->Ok_0.0),
                EntryModel::File(file),
            ),
            st.files.push(planned),
        ),
{
    let (parent, name) = place(st.root, target)->Ok_0;
    let parts = path_parts(parent);
    let root = inserted(st.root, parts, EntryModel::File(file));
    lemma_place_is_free(st.root, target);
    lemma_still_found(st.root, parts, EntryModel::File(file), st.files);
    inserted_file_is_found(st.root, parts, file);
    target_names_its_parent(target);
    assert(path_parts(target).drop_last() =~= parts);
    assert(path_parts(target).last() == name);
    assert(file_at(root, target) == Some(file));
    let files = st.files.push(planned);
    assert forall|i: int| 0 <= i < files.len() implies file_at(root, (#[trigger] files[i]).target)
        is Some && file_at(root, files[i].target)->0.length == files[i].size by {
        if i < st.files.len() {
            assert(files[i] == st.files[i]);
        }
    }
}

/// Every file that a source tree adds to a plan is found in the planned index, with the
/// size that was planned; the files that were found before still are.
pub proof fn planned_files_are_found(
    st: PlanState,
    node: SourceNode,
    target: Seq<char>,
    now: Seq<char>,
)
    requires
        files_found(st.root, st.files),
        planned(st, node, target, now) is Ok,
    ensures
        ({
            let after = planned(st, node, target, now)->Ok_0;
            files_found(after.root, after.files)
        }),
    decreases node, 0nat,
{
    let (parent, name) = place(st.root, target)->Ok_0;
    let uid = (st.highest_uid + 1) as u64;
    match node.kind {
        SourceKind::File { size } => {
            lemma_new_file_found(
                st,
                target,
                new_file(name, uid, size, now),
                PlannedModel { source: PlannedSourceModel::Local(node.path@), target, size },
            );
        },
        SourceKind::Directory { children } => {
            let entry = EntryModel::Directory(new_directory(name, uid, now));
            lemma_place_is_free(st.root, target);
            lemma_still_found(st.root, path_parts(parent), entry, st.files);
            let next = PlanState {
                root: inserted(st.root, path_parts(parent), entry),
                directories: saturating_count(st.directories),
                highest_uid: uid,
                ..st
            };
            lemma_children_found(next, children, children@.len(), target, now);
        },
        _ => {},
    }
}

proof fn lemma_children_found(
    st: PlanState,
    children: Vec<SourceNode>,
    n: nat,
    target: Seq<char>,
    now: Seq<char>,
)
    requires
        files_found(st.root, st.files),
        planned_children(st, children, n, target, now) is Ok,
    ensures
        ({
            let after = planned_children(st, children, n, target, now)->Ok_0;
            files_found(after.root, after.files)
        }),
    decreases children, n,
{
    if n == 0 || n > children@.len() {
    } else {
        lemma_children_found(st, children, (n - 1) as nat, target, now);
        let before = planned_children(st, children, (n - 1) as nat, target, now)->Ok_0;
        let child = stably_sorted(children@)[n - 1];
        lemma_child_is_below(children, n - 1);
        planned_files_are_found(before, child, child_target(target, child.file_name@), now);
    }
}

/// Every file of a plan of several roots is found in the planned index.
pub proof fn planned_roots_are_found(
    st: PlanState,
    roots: Seq<SourceNode>,
    directory: Seq<char>,
    now: Seq<char>,
)
    requires
        files_found(st.root, st.files),
        planned_roots(st, roots, directory, now) is Ok,
    ensures
        ({
            let after = planned_roots(st, roots, directory, now)->Ok_0;
            files_found(after.root, after.files)
        }),
    decreases roots.len(),
{
    if roots.len() > 0 {
        planned_roots_are_found(st, roots.drop_last(), directory, now);
        let before = planned_roots(st, roots.drop_last(), directory, now)->Ok_0;
        let target = root_target(roots.last().path@, directory)->Ok_0;
        planned_files_are_found(before, roots.last(), target, now);
    }
}

/// A planned file of test data is found in the planned index.
pub proof fn planned_test_file_is_found(
    st: PlanState,
    target: Seq<char>,
    size: u64,
    seed: u64,
    now: Seq<char>,
)
    requires
        planned_test_file(st, target, size, seed, now) is Ok,
    ensures
        ({
            let after = planned_test_file(st, target, size, seed, now)->Ok_0;
            files_found(after.root, after.files)
        }),
{
    let empty = PlanState { files: Seq::empty(), ..st };
    let (parent, name) = place(st.root, target)->Ok_0;
    let after = planned_test_file(st, target, size, seed, now)->Ok_0;
    let uid = (st.highest_uid + 1) as u64;
    let file = FileModel {
        extended_attributes: test_attributes(size, seed),
        ..new_file(name, uid, size, now)
    };
    lemma_new_file_found(empty, target, file, after.files[0]);
    assert(empty.files.push(after.files[0]) =~= after.files);
}

/// A tree that its document gives back stays so when a source tree is planned into it.
pub proof fn planning_keeps_storable(
    st: PlanState,
    node: SourceNode,
    target: Seq<char>,
    now: Seq<char>,
)
    requires
        directory_storable(st.root),
        planned(st, node, target, now) is Ok,
    ensures
        ({
            let after = planned(st, node, target, now)->Ok_0;
            directory_storable(after.root) && after.root.name == st.root.name
        }),
    decreases node, 0nat,
{
    let (parent, name) = place(st.root, target)->Ok_0;
    let uid = (st.highest_uid + 1) as u64;
    lemma_place_is_free(st.root, target);
    match node.kind {
        SourceKind::File { size } => {
            inserting_keeps_storable(
                st.root,
                path_parts(parent),
                EntryModel::File(new_file(name, uid, size, now)),
            );
        },
        SourceKind::Directory { children } => {
            let entry = EntryModel::Directory(new_directory(name, uid, now));
            inserting_keeps_storable(st.root, path_parts(parent), entry);
            let next = PlanState {
                root: inserted(st.root, path_parts(parent), entry),
                directories: saturating_count(st.directories),
                highest_uid: uid,
                ..st
            };
            lemma_children_storable(next, children, children@.len(), target, now);
        },
        _ => {},
    }
}

proof fn lemma_children_storable(
    st: PlanState,
    children: Vec<SourceNode>,
    n: nat,
    target: Seq<char>,
    now: Seq<char>,
)
    requires
        directory_storable(st.root),
        planned_children(st, children, n, target, now) is Ok,
    ensures
        ({
            let after = planned_children(st, children, n, target, now)->Ok_0;
            directory_storable(after.root) && after.root.name == st.root.name
        }),
    decreases children, n,
{
    if n == 0 || n > children@.len() {
    } else {
        lemma_children_storable(st, children, (n - 1) as nat, target, now);
        let before = planned_children(st, children, (n - 1) as nat, target, now)->Ok_0;
        let child = stably_sorted(children@)[n - 1];
        lemma_child_is_below(children, n - 1);
        planning_keeps_storable(before, child, child_target(target, child.file_name@), now);
    }
}

// ---------------------------------------------------------------------------
// No target is planned twice
// ---------------------------------------------------------------------------

/// No two files have the same target.
pub open spec fn targets_differ(files: Seq<PlannedModel>) -> bool {
    forall|i: int, j: int|
        0 <= i < j < files.len() ==> path_parts((#[trigger] files[i]).target) != path_parts(
            (#[trigger] files[j]).target,
        )
}

proof fn lemma_new_target(st: PlanState, target: Seq<char>, planned: PlannedModel)
    requires
        place(st.root, target) is Ok,
        files_found(st.root, st.files),
        targets_differ(st.files),
        planned.target == target,
    ensures
        targets_differ(st.files.push(planned)),
{
    let (parent, name) = place(st.root, target)->Ok_0;
    lemma_place_is_free(st.root, target);
    target_names_its_parent(target);
    assert(path_parts(target).drop_last() =~= path_parts(parent));
    assert(file_at(st.root, target) is None);
    let files = st.files.push(planned);
    assert forall|i: int, j: int| 0 <= i < j < files.len() implies path_parts(
        (#[trigger] files[i]).target,
    ) != path_parts((#[trigger] files[j]).target) by {
        assert(files[i] == st.files[i]);
        if j < st.files.len() {
            assert(files[j] == st.files[j]);
        } else {
            assert(file_at(st.root, st.files[i].target) is Some);
        }
    }
}

/// The targets of a plan still differ when a source tree is added to it.
pub proof fn planned_targets_differ(
    st: PlanState,
    node: SourceNode,
    target: Seq<char>,
    now: Seq<char>,
)
    requires
        files_found(st.root, st.files),
        targets_differ(st.files),
        planned(st, node, target, now) is Ok,
    ensures
        targets_differ(planned(st, node, target, now)->Ok_0.files),
    decreases node, 0nat,
{
    let (parent, name) = place(st.root, target)->Ok_0;
    let uid = (st.highest_uid + 1) as u64;
    match node.kind {
        SourceKind::File { size } => {
            let file = PlannedModel { source: PlannedSourceModel::Local(node.path@), target, size };
            lemma_new_target(st, target, file);
        },
        SourceKind::Directory { children } => {
            let entry = EntryModel::Directory(new_directory(name, uid, now));
            lemma_place_is_free(st.root, target);
            lemma_still_found(st.root, path_parts(parent), entry, st.files);
            let next = PlanState {
                root: inserted(st.root, path_parts(parent), entry),
                directories: saturating_count(st.directories),
                highest_uid: uid,
                ..st
            };
            lemma_children_differ(next, children, children@.len(), target, now);
        },
        _ => {},
    }
}

proof fn lemma_children_differ(
    st: PlanState,
    children: Vec<SourceNode>,
    n: nat,
    target: Seq<char>,
    now: Seq<char>,
)
    requires
        files_found(st.root, st.files),
        targets_differ(st.files),
        planned_children(st, children, n, target, now) is Ok,
    ensures
        targets_differ(planned_children(st, children, n, target, now)->Ok_0.files),
    decreases children, n,
{
    if n == 0 || n > children@.len() {
    } else {
        lemma_children_differ(st, children, (n - 1) as nat, target, now);
        lemma_children_found(st, children, (n - 1) as nat, target, now);
        let before = planned_children(st, children, (n - 1) as nat, target, now)->Ok_0;
        let child = stably_sorted(children@)[n - 1];
        lemma_child_is_below(children, n - 1);
        planned_targets_differ(before, child, child_target(target, child.file_name@), now);
    }
}

proof fn lemma_roots_differ(
    st: PlanState,
    roots: Seq<SourceNode>,
    directory: Seq<char>,
    now: Seq<char>,
)
    requires
        files_found(st.root, st.files),
        targets_differ(st.files),
        planned_roots(st, roots, directory, now) is Ok,
    ensures
        targets_differ(planned_roots(st, roots, directory, now)->Ok_0.files),
    decreases roots.len(),
{
    if roots.len() > 0 {
        lemma_roots_differ(st, roots.drop_last(), directory, now);
        planned_roots_are_found(st, roots.drop_last(), directory, now);
        let before = planned_roots(st, roots.drop_last(), directory, now)->Ok_0;
        let target = root_target(roots.last().path@, directory)->Ok_0;
        planned_targets_differ(before, roots.last(), target, now);
    }
}

/// The plan for a source names no target twice.
pub proof fn plan_names_no_target_twice(
    index: IndexModel,
    source: WriteSource,
    target: Seq<char>,
    now: Seq<char>,
)
    requires
        source_plan(index, source, target, now) is Ok,
    ensures
        targets_differ(source_plan(index, source, target, now)->Ok_0.files),
{
    let start = plan_start(index);
    match source {
        WriteSource::Local(node) => {
            planned_targets_differ(start, node, target, now);
        },
        WriteSource::LocalRoots(roots) => {
            lemma_roots_differ(start, roots@, target, now);
        },
        WriteSource::Pseudorandom { .. } => {},
    }
}

// ---------------------------------------------------------------------------
// How much is planned
// ---------------------------------------------------------------------------

/// The bytes of planned files.
pub open spec fn planned_bytes(files: Seq<PlannedModel>) -> nat
    decreases files.len(),
{
    if files.len() == 0 {
        0
    } else {
        planned_bytes(files.drop_last()) + files.last().size as nat
    }
}

/// The total of a plan stays the sum of the sizes of its files when a source tree is added.
pub proof fn planned_bytes_are_counted(
    st: PlanState,
    node: SourceNode,
    target: Seq<char>,
    now: Seq<char>,
)
    requires
        st.total_bytes == planned_bytes(st.files),
        planned(st, node, target, now) is Ok,
    ensures
        ({
            let after = planned(st, node, target, now)->Ok_0;
            after.total_bytes == planned_bytes(after.files)
        }),
    decreases node, 0nat,
{
    let (parent, name) = place(st.root, target)->Ok_0;
    let uid = (st.highest_uid + 1) as u64;
    match node.kind {
        SourceKind::File { size } => {
            let after = planned(st, node, target, now)->Ok_0;
            assert(after.files.drop_last() =~= st.files);
        },
        SourceKind::Directory { children } => {
            let entry = EntryModel::Directory(new_directory(name, uid, now));
            let next = PlanState {
                root: inserted(st.root, path_parts(parent), entry),
                directories: saturating_count(st.directories),
                highest_uid: uid,
                ..st
            };
            lemma_children_counted(next, children, children@.len(), target, now);
        },
        _ => {},
    }
}

proof fn lemma_children_counted(
    st: PlanState,
    children: Vec<SourceNode>,
    n: nat,
    target: Seq<char>,
    now: Seq<char>,
)
    requires
        st.total_bytes == planned_bytes(st.files),
        planned_children(st, children, n, target, now) is Ok,
    ensures
        ({
            let after = planned_children(st, children, n, target, now)->Ok_0;
            after.total_bytes == planned_bytes(after.files)
        }),
    decreases children, n,
{
    if n == 0 || n > children@.len() {
    } else {
        lemma_children_counted(st, children, (n - 1) as nat, target, now);
        let before = planned_children(st, children, (n - 1) as nat, target, now)->Ok_0;
        let child = stably_sorted(children@)[n - 1];
        lemma_child_is_below(children, n - 1);
        planned_bytes_are_counted(before, child, child_target(target, child.file_name@), now);
    }
}

proof fn lemma_roots_counted(
    st: PlanState,
    roots: Seq<SourceNode>,
    directory: Seq<char>,
    now: Seq<char>,
)
    requires
        st.total_bytes == planned_bytes(st.files),
        planned_roots(st, roots, directory, now) is Ok,
    ensures
        ({
            let after = planned_roots(st, roots, directory, now)->Ok_0;
            after.total_bytes == planned_bytes(after.files)
        }),
    decreases roots.len(),
{
    if roots.len() > 0 {
        lemma_roots_counted(st, roots.drop_last(), directory, now);
        let before = planned_roots(st, roots.drop_last(), directory, now)->Ok_0;
        let target = root_target(roots.last().path@, directory)->Ok_0;
        planned_bytes_are_counted(before, roots.last(), target, now);
    }
}

/// The total of the plan for a source is the sum of the sizes of its files.
pub proof fn plan_counts_its_bytes(
    index: IndexModel,
    source: WriteSource,
    target: Seq<char>,
    now: Seq<char>,
)
    requires
        source_plan(index, source, target, now) is Ok,
    ensures
        ({
            let plan = source_plan(index, source, target, now)->Ok_0;
            plan.total_bytes == planned_bytes(plan.files)
        }),
{
    let start = plan_start(index);
    match source {
        WriteSource::Local(node) => {
            planned_bytes_are_counted(start, node, target, now);
        },
        WriteSource::LocalRoots(roots) => {
            lemma_roots_counted(start, roots@, target, now);
        },
        WriteSource::Pseudorandom { size, seed } => {
            let after = planned_test_file(start, target, size, seed, now)->Ok_0;
            assert(after.files.drop_last() =~= Seq::<PlannedModel>::empty());
            assert(planned_bytes(after.files.drop_last()) == 0);
        },
    }
}

// ---------------------------------------------------------------------------
// What is new, and what stays
// ---------------------------------------------------------------------------

/// Every file of a tree is found as it is in another.
pub open spec fn files_kept(before: DirModel, after: DirModel) -> bool {
    forall|path: Seq<char>| #[trigger]
        file_at(before, path) is Some ==> file_at(after, path) == file_at(before, path)
}

/// What a plan adds to another: each new entry has the next number, there is a number for
/// every file and every directory that it counts, and the files that were there stay.
pub open spec fn entries_added(before: PlanState, after: PlanState) -> bool {
    &&& uids_added(before.root, after.root, before.highest_uid, after.highest_uid)
    &&& files_kept(before.root, after.root)
    &&& before.files.is_prefix_of(after.files)
    &&& before.directories <= after.directories
    &&& after.directories < usize::MAX ==> after.highest_uid - before.highest_uid == (
    after.files.len() - before.files.len()) + (after.directories - before.directories)
}

proof fn lemma_added_on(a: PlanState, b: PlanState, c: PlanState)
    requires
        entries_added(a, b),
        entries_added(b, c),
    ensures
        entries_added(a, c),
{
    assert forall|uid: u64| #[trigger]
        tree_uids(c.root).count(uid) == tree_uids(a.root).count(uid) + if a.highest_uid < uid
            <= c.highest_uid {
            1nat
        } else {
            0nat
        } by {
        assert(tree_uids(b.root).count(uid) == tree_uids(a.root).count(uid) + if a.highest_uid
            < uid <= b.highest_uid {
            1nat
        } else {
            0nat
        });
    }
    assert forall|path: Seq<char>| #[trigger] file_at(a.root, path) is Some implies file_at(
        c.root,
        path,
    ) == file_at(a.root, path) by {
        assert(file_at(b.root, path) is Some);
    }
}

proof fn lemma_entry_added(st: PlanState, target: Seq<char>, entry: EntryModel)
    requires
        place(st.root, target) is Ok,
        st.highest_uid < u64::MAX,
        entry_uids(entry) == Multiset::singleton((st.highest_uid + 1) as u64),
    ensures
        ({
            let parts = path_parts(place(st.root, target)->Ok_0.0);
            let root = inserted(st.root, parts, entry);
            &&& uids_added(st.root, root, st.highest_uid, (st.highest_uid + 1) as u64)
            &&& files_kept(st.root, root)
        }),
{
    let parts = path_parts(place(st.root, target)->Ok_0.0);
    let root = inserted(st.root, parts, entry);
    lemma_place_is_free(st.root, target);
    inserting_adds_uids(st.root, parts, entry);
    assert forall|path: Seq<char>| #[trigger] file_at(st.root, path) is Some implies file_at(
        root,
        path,
    ) == file_at(st.root, path) by {
        let names = path_parts(path);
        assert(file_in(st.root, names.drop_last(), names.last()) == file_at(st.root, path));
        inserting_keeps_files(st.root, parts, entry, names.drop_last(), names.last());
    }
}

/// A source tree that is planned into an index gets the numbers behind the highest one,
/// each entry one, and leaves the files that are there as they are.
pub proof fn planned_entries_are_new(
    st: PlanState,
    node: SourceNode,
    target: Seq<char>,
    now: Seq<char>,
)
    requires
        planned(st, node, target, now) is Ok,
    ensures
        entries_added(st, planned(st, node, target, now)->Ok_0),
    decreases node, 0nat,
{
    let (parent, name) = place(st.root, target)->Ok_0;
    let uid = (st.highest_uid + 1) as u64;
    match node.kind {
        SourceKind::File { size } => {
            let entry = EntryModel::File(new_file(name, uid, size, now));
            lemma_entry_added(st, target, entry);
        },
        SourceKind::Directory { children } => {
            let empty = new_directory(name, uid, now);
            assert(entries_uids(empty.entries) =~= Multiset::<u64>::empty());
            assert(tree_uids(empty) =~= Multiset::singleton(uid));
            let entry = EntryModel::Directory(empty);
            lemma_entry_added(st, target, entry);
            let next = PlanState {
                root: inserted(st.root, path_parts(parent), entry),
                directories: saturating_count(st.directories),
                highest_uid: uid,
                ..st
            };
            assert(entries_added(st, next));
            lemma_children_are_new(next, children, children@.len(), target, now);
            lemma_added_on(st, next, planned(st, node, target, now)->Ok_0);
        },
        _ => {},
    }
}

proof fn lemma_children_are_new(
    st: PlanState,
    children: Vec<SourceNode>,
    n: nat,
    target: Seq<char>,
    now: Seq<char>,
)
    requires
        planned_children(st, children, n, target, now) is Ok,
    ensures
        entries_added(st, planned_children(st, children, n, target, now)->Ok_0),
    decreases children, n,
{
    if n == 0 || n > children@.len() {
    } else {
        lemma_children_are_new(st, children, (n - 1) as nat, target, now);
        let before = planned_children(st, children, (n - 1) as nat, target, now)->Ok_0;
        let child = stably_sorted(children@)[n - 1];
        lemma_child_is_below(children, n - 1);
        planned_entries_are_new(before, child, child_target(target, child.file_name@), now);
        lemma_added_on(st, before, planned_children(st, children, n, target, now)->Ok_0);
    }
}

proof fn lemma_roots_are_new(
    st: PlanState,
    roots: Seq<SourceNode>,
    directory: Seq<char>,
    now: Seq<char>,
)
    requires
        planned_roots(st, roots, directory, now) is Ok,
    ensures
        entries_added(st, planned_roots(st, roots, directory, now)->Ok_0),
    decreases roots.len(),
{
    if roots.len() > 0 {
        lemma_roots_are_new(st, roots.drop_last(), directory, now);
        let before = planned_roots(st, roots.drop_last(), directory, now)->Ok_0;
        let target = root_target(roots.last().path@, directory)->Ok_0;
        planned_entries_are_new(before, roots.last(), target, now);
        lemma_added_on(st, before, planned_roots(st, roots, directory, now)->Ok_0);
    }
}

/// The plan for a source leaves every file of the index as it is, and numbers its entries on
/// from the highest number of the index: with as many numbers as it has files and
/// directories, and none used twice where none was.
pub proof fn plan_numbers_its_entries(
    index: IndexModel,
    source: WriteSource,
    target: Seq<char>,
    now: Seq<char>,
)
    requires
        source_plan(index, source, target, now) is Ok,
    ensures
        ({
            let plan = source_plan(index, source, target, now)->Ok_0;
            let from = match index.highest_file_uid {
                Some(uid) => uid,
                None => 0,
            };
            &&& uids_added(index.root, plan.root, from, plan.highest_uid)
            &&& uids_sound(index) ==> uids_below(plan.root, plan.highest_uid)
            &&& files_kept(index.root, plan.root)
            &&& plan.directories < usize::MAX ==> plan.highest_uid - from == plan.files.len()
                + plan.directories
        }),
{
    let start = plan_start(index);
    let plan = source_plan(index, source, target, now)->Ok_0;
    match source {
        WriteSource::Local(node) => {
            planned_entries_are_new(start, node, target, now);
        },
        WriteSource::LocalRoots(roots) => {
            lemma_roots_are_new(start, roots@, target, now);
        },
        WriteSource::Pseudorandom { size, seed } => {
            let name = place(index.root, target)->Ok_0.1;
            let uid = (start.highest_uid + 1) as u64;
            let file = FileModel {
                extended_attributes: test_attributes(size, seed),
                ..new_file(name, uid, size, now)
            };
            lemma_entry_added(start, target, EntryModel::File(file));
        },
    }
    if uids_sound(index) {
        added_uids_stay_sound(index.root, plan.root, start.highest_uid, plan.highest_uid);
    }
}

/// Every file of the plan for a source is found in the planned index, with its size.
pub proof fn plan_files_are_found(
    index: IndexModel,
    source: WriteSource,
    target: Seq<char>,
    now: Seq<char>,
)
    requires
        source_plan(index, source, target, now) is Ok,
    ensures
        ({
            let plan = source_plan(index, source, target, now)->Ok_0;
            files_found(plan.root, plan.files)
        }),
{
    let start = plan_start(index);
    match source {
        WriteSource::Local(node) => {
            planned_files_are_found(start, node, target, now);
        },
        WriteSource::LocalRoots(roots) => {
            planned_roots_are_found(start, roots@, target, now);
        },
        WriteSource::Pseudorandom { size, seed } => {
            planned_test_file_is_found(start, target, size, seed, now);
        },
    }
}

/// Planned files go where nothing was: the index has no file at their targets.
pub proof fn plan_targets_were_free(
    index: IndexModel,
    source: WriteSource,
    target: Seq<char>,
    now: Seq<char>,
)
    requires
        source_plan(index, source, target, now) is Ok,
    ensures
        targets_free(index.root, source_plan(index, source, target, now)->Ok_0.files),
{
    let start = plan_start(index);
    let root = index.root;
    match source {
        WriteSource::Local(node) => {
            lemma_free(root, start, node, target, now);
        },
        WriteSource::LocalRoots(roots) => {
            lemma_roots_free(root, start, roots@, target, now);
        },
        WriteSource::Pseudorandom { size, seed } => {
            lemma_target_is_free(start.root, target);
        },
    }
}

/// No file is at the targets of a plan.
pub open spec fn targets_free(root: DirModel, files: Seq<PlannedModel>) -> bool {
    forall|i: int| 0 <= i < files.len() ==> file_at(root, (#[trigger] files[i]).target) is None
}

proof fn lemma_target_is_free(root: DirModel, target: Seq<char>)
    requires
        place(root, target) is Ok,
    ensures
        file_at(root, target) is None,
{
    let (parent, name) = place(root, target)->Ok_0;
    lemma_place_is_free(root, target);
    target_names_its_parent(target);
    assert(path_parts(target).drop_last() =~= path_parts(parent));
}

proof fn lemma_free(
    root: DirModel,
    st: PlanState,
    node: SourceNode,
    target: Seq<char>,
    now: Seq<char>,
)
    requires
        files_kept(root, st.root),
        targets_free(root, st.files),
        planned(st, node, target, now) is Ok,
    ensures
        targets_free(root, planned(st, node, target, now)->Ok_0.files),
        files_kept(root, planned(st, node, target, now)->Ok_0.root),
    decreases node, 0nat,
{
    let (parent, name) = place(st.root, target)->Ok_0;
    let uid = (st.highest_uid + 1) as u64;
    let after = planned(st, node, target, now)->Ok_0;
    lemma_target_is_free(st.root, target);
    planned_entries_are_new(st, node, target, now);
    lemma_kept_on(root, st.root, after.root);
    match node.kind {
        SourceKind::File { size } => {
            if file_at(root, target) is Some {
                assert(file_at(st.root, target) == file_at(root, target));
            }
        },
        SourceKind::Directory { children } => {
            let entry = EntryModel::Directory(new_directory(name, uid, now));
            let next = PlanState {
                root: inserted(st.root, path_parts(parent), entry),
                directories: saturating_count(st.directories),
                highest_uid: uid,
                ..st
            };
            assert(entries_uids(new_directory(name, uid, now).entries)
                =~= Multiset::<u64>::empty());
            assert(entry_uids(entry) =~= Multiset::singleton(uid));
            lemma_entry_added(st, target, entry);
            lemma_kept_on(root, st.root, next.root);
            lemma_children_free(root, next, children, children@.len(), target, now);
        },
        _ => {},
    }
}

proof fn lemma_kept_on(a: DirModel, b: DirModel, c: DirModel)
    requires
        files_kept(a, b),
        files_kept(b, c),
    ensures
        files_kept(a, c),
{
    assert forall|path: Seq<char>| #[trigger] file_at(a, path) is Some implies file_at(c, path)
        == file_at(a, path) by {
        assert(file_at(b, path) is Some);
    }
}

proof fn lemma_children_free(
    root: DirModel,
    st: PlanState,
    children: Vec<SourceNode>,
    n: nat,
    target: Seq<char>,
    now: Seq<char>,
)
    requires
        files_kept(root, st.root),
        targets_free(root, st.files),
        planned_children(st, children, n, target, now) is Ok,
    ensures
        targets_free(root, planned_children(st, children, n, target, now)->Ok_0.files),
        files_kept(root, planned_children(st, children, n, target, now)->Ok_0.root),
    decreases children, n,
{
    if n == 0 || n > children@.len() {
    } else {
        lemma_children_free(root, st, children, (n - 1) as nat, target, now);
        let before = planned_children(st, children, (n - 1) as nat, target, now)->Ok_0;
        let child = stably_sorted(children@)[n - 1];
        lemma_child_is_below(children, n - 1);
        lemma_free(root, before, child, child_target(target, child.file_name@), now);
    }
}

proof fn lemma_roots_free(
    root: DirModel,
    st: PlanState,
    roots: Seq<SourceNode>,
    directory: Seq<char>,
    now: Seq<char>,
)
    requires
        files_kept(root, st.root),
        targets_free(root, st.files),
        planned_roots(st, roots, directory, now) is Ok,
    ensures
        targets_free(root, planned_roots(st, roots, directory, now)->Ok_0.files),
        files_kept(root, planned_roots(st, roots, directory, now)->Ok_0.root),
    decreases roots.len(),
{
    if roots.len() > 0 {
        lemma_roots_free(root, st, roots.drop_last(), directory, now);
        let before = planned_roots(st, roots.drop_last(), directory, now)->Ok_0;
        let target = root_target(roots.last().path@, directory)->Ok_0;
        lemma_free(root, before, roots.last(), target, now);
    }
}

} // verus!
