//! What a scan of source roots finds in a tree that does not change.
use vstd::prelude::*;

use super::scan::{
    by_name, named_before, root_entries, root_entry, scan_next, scan_start, ChildModel,
    QuestionModel, ScanActionModel, ScanReplyModel, ScanStage, ScanState,
};
use super::source::{overlap, overlaps_any, sizes_total, SourceEntry, SourceModel};
use crate::sort::{lemma_sorted_by_models, sorted_by, sorted_by_value_was_there};
use crate::text::text_le;

verus! {

/// A file or a directory of the host, with what is below it, in the order in which the
/// host lists it.
pub struct TreeModel {
    pub path: Seq<char>,
    pub name: Seq<char>,
    pub utf8: bool,
    pub kind: TreeKind,
}

pub enum TreeKind {
    File(u64),
    Directory(Seq<TreeModel>),
}

/// A tree as its directory lists it.
pub open spec fn child_of(t: TreeModel) -> ChildModel {
    ChildModel { path: t.path, name: t.name, utf8: t.utf8 }
}

/// A directory as the host lists it.
pub open spec fn listing(children: Seq<TreeModel>) -> Seq<ChildModel> {
    children.map_values(|t: TreeModel| child_of(t))
}

/// Siblings by name.
pub open spec fn siblings(children: Seq<TreeModel>) -> Seq<TreeModel> {
    sorted_by(children, |a: TreeModel, b: TreeModel| text_le(a.name, b.name))
}

/// The regular files of a tree with their sizes: depth first, siblings by name.
pub open spec fn tree_files(t: TreeModel) -> Seq<(Seq<char>, u64)>
    decreases t, 0nat,
{
    match t.kind {
        TreeKind::File(size) => seq![(t.path, size)],
        TreeKind::Directory(children) => files_below(children, children.len()),
    }
}

/// The files of the first `n` siblings.
pub open spec fn files_below(children: Seq<TreeModel>, n: nat) -> Seq<(Seq<char>, u64)>
    decreases children, n,
    via files_below_ends
{
    if n == 0 || n > children.len() {
        Seq::empty()
    } else {
        files_below(children, (n - 1) as nat) + tree_files(siblings(children)[n - 1])
    }
}

#[via_fn]
proof fn files_below_ends(children: Seq<TreeModel>, n: nat) {
    if 0 < n && n <= children.len() {
        lemma_sibling_is_below(children, n - 1);
    }
}

proof fn lemma_sibling_is_below(children: Seq<TreeModel>, n: int)
    requires
        0 <= n < children.len(),
    ensures
        siblings(children).len() == children.len(),
        decreases_to!(children => siblings(children)[n]),
        exists|k: int| 0 <= k < children.len() && children[k] == siblings(children)[n],
{
    let order = |a: TreeModel, b: TreeModel| text_le(a.name, b.name);
    sorted_by_value_was_there(children, order, n);
    let k = choose|k: int| 0 <= k < children.len() && children[k] == siblings(children)[n];
    assert(decreases_to!(children => children[k]));
}

/// The number of directories of a tree, itself included.
pub open spec fn tree_directories(t: TreeModel) -> nat
    decreases t, 0nat,
{
    match t.kind {
        TreeKind::File(_) => 0,
        TreeKind::Directory(children) => 1 + directories_below(children, children.len()),
    }
}

/// The directories of the first `n` siblings.
pub open spec fn directories_below(children: Seq<TreeModel>, n: nat) -> nat
    decreases children, n,
    via directories_below_ends
{
    if n == 0 || n > children.len() {
        0
    } else {
        directories_below(children, (n - 1) as nat) + tree_directories(siblings(children)[n - 1])
    }
}

#[via_fn]
proof fn directories_below_ends(children: Seq<TreeModel>, n: nat) {
    if 0 < n && n <= children.len() {
        lemma_sibling_is_below(children, n - 1);
    }
}

/// All names of a tree are UTF-8.
pub open spec fn named(t: TreeModel) -> bool
    decreases t, 0nat,
{
    t.utf8 && match t.kind {
        TreeKind::File(_) => true,
        TreeKind::Directory(children) => named_below(children, children.len()),
    }
}

pub open spec fn named_below(children: Seq<TreeModel>, n: nat) -> bool
    decreases children, n,
    via named_below_ends
{
    n == 0 || n > children.len() || (named_below(children, (n - 1) as nat) && named(
        siblings(children)[n - 1],
    ))
}

#[via_fn]
proof fn named_below_ends(children: Seq<TreeModel>, n: nat) {
    if 0 < n && n <= children.len() {
        lemma_sibling_is_below(children, n - 1);
    }
}

/// A scan that is told of a tree, of which it asks next, what is there.
pub open spec fn run_tree(s: ScanState, t: TreeModel) -> (ScanState, ScanActionModel)
    decreases t, 0nat,
{
    match t.kind {
        TreeKind::File(size) => scan_next(
            s,
            ScanReplyModel::Entry(SourceEntry::File { size }),
            false,
        ),
        TreeKind::Directory(children) => {
            let inside = scan_next(s, ScanReplyModel::Entry(SourceEntry::Directory), false).0;
            let first = scan_next(inside, ScanReplyModel::Children(listing(children)), false);
            run_below(first, children, children.len())
        },
    }
}

/// The same for the first `n` siblings.
pub open spec fn run_below(
    start: (ScanState, ScanActionModel),
    children: Seq<TreeModel>,
    n: nat,
) -> (ScanState, ScanActionModel)
    decreases children, n,
    via run_below_ends
{
    if n == 0 || n > children.len() {
        start
    } else {
        run_tree(run_below(start, children, (n - 1) as nat).0, siblings(children)[n - 1])
    }
}

#[via_fn]
proof fn run_below_ends(
    start: (ScanState, ScanActionModel),
    children: Seq<TreeModel>,
    n: nat,
) {
    if 0 < n && n <= children.len() {
        lemma_sibling_is_below(children, n - 1);
    }
}

/// The plan with what was found.
pub open spec fn found(plan: SourceModel, files: Seq<(Seq<char>, u64)>, directories: nat) -> SourceModel {
    SourceModel {
        files: plan.files + files,
        directories_total: (plan.directories_total + directories) as usize,
        payload_bytes: (plan.payload_bytes + sizes_total(files)) as u64,
        ..plan
    }
}

/// What was found can be counted.
pub open spec fn counts(plan: SourceModel, files: Seq<(Seq<char>, u64)>, directories: nat) -> bool {
    &&& plan.payload_bytes + sizes_total(files) <= u64::MAX
    &&& plan.directories_total + directories <= usize::MAX
}

/// A scan that is about to look at the last of the pending entries, or has ended.
pub open spec fn stands(run: (ScanState, ScanActionModel)) -> bool {
    let (s, action) = run;
    &&& forall|i: int| 0 <= i < s.pending.len() ==> (#[trigger] s.pending[i]).utf8
    &&& if s.pending.len() == 0 {
        s.stage is Ended && action.question is Finished
    } else {
        s.stage is Entry && action.question == (QuestionModel::Look { path: s.pending.last().path })
    }
}

/// The scan once it has been told of what `plan` holds, with the rest of the entries.
pub open spec fn moved_to(
    s: ScanState,
    plan: SourceModel,
    pending: Seq<ChildModel>,
) -> ScanState {
    ScanState {
        plan,
        pending,
        stage: if pending.len() == 0 {
            ScanStage::Ended
        } else {
            ScanStage::Entry
        },
        ..s
    }
}

proof fn lemma_sizes(a: Seq<(Seq<char>, u64)>, b: Seq<(Seq<char>, u64)>)
    ensures
        sizes_total(a + b) == sizes_total(a) + sizes_total(b),
    decreases b.len(),
{
    if b.len() == 0 {
        assert(a + b =~= a);
    } else {
        lemma_sizes(a, b.drop_last());
        assert((a + b).drop_last() =~= a + b.drop_last());
    }
}

proof fn lemma_found_twice(
    plan: SourceModel,
    a: Seq<(Seq<char>, u64)>,
    d: nat,
    b: Seq<(Seq<char>, u64)>,
    e: nat,
)
    requires
        counts(plan, a + b, d + e),
    ensures
        counts(plan, a, d),
        counts(found(plan, a, d), b, e),
        found(found(plan, a, d), b, e) == found(plan, a + b, d + e),
{
    lemma_sizes(a, b);
    assert(plan.files + a + b =~= plan.files + (a + b));
    assert(found(found(plan, a, d), b, e) =~= found(plan, a + b, d + e));
}

proof fn lemma_found_nothing(plan: SourceModel)
    ensures
        found(plan, Seq::empty(), 0) == plan,
{
    assert(plan.files + Seq::<(Seq<char>, u64)>::empty() =~= plan.files);
    assert(found(plan, Seq::empty(), 0) =~= plan);
}

proof fn lemma_below_grows(children: Seq<TreeModel>, n: nat, m: nat)
    requires
        n <= m <= children.len(),
    ensures
        sizes_total(files_below(children, n)) <= sizes_total(files_below(children, m)),
        directories_below(children, n) <= directories_below(children, m),
        named_below(children, m) ==> named_below(children, n),
    decreases m - n,
{
    if n < m {
        lemma_below_grows(children, n, (m - 1) as nat);
        lemma_sizes(
            files_below(children, (m - 1) as nat),
            tree_files(siblings(children)[m - 1]),
        );
    }
}

proof fn lemma_listed(children: Seq<TreeModel>)
    ensures
        by_name(listing(children)) == listing(siblings(children)),
        siblings(children).len() == children.len(),
{
    let order = |a: TreeModel, b: TreeModel| text_le(a.name, b.name);
    lemma_sorted_by_models(children, order, |t: TreeModel| child_of(t), named_before());
    crate::sort::sorting_by_keeps(children, order);
}

proof fn lemma_named_siblings(children: Seq<TreeModel>, n: nat, i: int)
    requires
        named_below(children, n),
        0 <= i < n <= children.len(),
    ensures
        named(siblings(children)[i]),
    decreases n,
{
    if i < n - 1 {
        lemma_named_siblings(children, (n - 1) as nat, i);
    }
}

/// Told truly of a tree, a scan counts its files and directories, each once, depth first
/// and siblings by name, and goes on with the entry behind it.
pub proof fn scan_follows_the_tree(s: ScanState, t: TreeModel)
    requires
        s.stage is Entry,
        s.pending.len() > 0,
        s.pending.last() == child_of(t),
        forall|i: int| 0 <= i < s.pending.len() ==> (#[trigger] s.pending[i]).utf8,
        named(t),
        counts(s.plan, tree_files(t), tree_directories(t)),
    ensures
        stands(run_tree(s, t)),
        run_tree(s, t).0 == moved_to(
            s,
            found(s.plan, tree_files(t), tree_directories(t)),
            s.pending.drop_last(),
        ),
    decreases t, 0nat,
{
    let rest = s.pending.drop_last();
    match t.kind {
        TreeKind::File(size) => {
            let one = seq![(t.path, size)];
            assert(one.drop_last() =~= Seq::<(Seq<char>, u64)>::empty());
            assert(sizes_total(one.drop_last()) == 0);
            assert(sizes_total(one) == size);
            assert(s.plan.files.push((t.path, size)) =~= s.plan.files + one);
            let after = run_tree(s, t).0;
            assert(after.plan =~= found(s.plan, one, 0));
            assert(after =~= moved_to(s, found(s.plan, one, 0), rest));
        },
        TreeKind::Directory(children) => {
            let line = siblings(children);
            let inside = scan_next(s, ScanReplyModel::Entry(SourceEntry::Directory), false).0;
            let first = scan_next(inside, ScanReplyModel::Children(listing(children)), false);
            let all = listing(line).reverse();
            lemma_listed(children);
            assert(inside.pending == s.pending);
            assert(first.0.pending =~= rest + all);
            assert forall|i: int| 0 <= i < (rest + all).len() implies (
            #[trigger] (rest + all)[i]).utf8 by {
                if i < rest.len() {
                    assert((rest + all)[i] == s.pending[i]);
                } else {
                    let j = line.len() - 1 - (i - rest.len());
                    assert((rest + all)[i] == child_of(line[j]));
                    lemma_named_siblings(children, children.len(), j);
                }
            }
            let base = found(s.plan, Seq::empty(), 1);
            assert(s.plan.files + Seq::<(Seq<char>, u64)>::empty() =~= s.plan.files);
            assert(sizes_total(Seq::<(Seq<char>, u64)>::empty()) == 0);
            assert(inside.plan =~= base);
            assert(Seq::<(Seq<char>, u64)>::empty() + files_below(children, children.len())
                =~= files_below(children, children.len()));
            lemma_found_twice(
                s.plan,
                Seq::empty(),
                1,
                files_below(children, children.len()),
                directories_below(children, children.len()),
            );
            lemma_found_nothing(base);
            assert(first.0 =~= moved_to(s, base, rest + all));
            lemma_scan_below(s, base, rest, first, children, children.len());
            assert(rest + listing(line).subrange(
                children.len() as int,
                line.len() as int,
            ).reverse() =~= rest);
        },
    }
}

proof fn lemma_scan_below(
    s: ScanState,
    base: SourceModel,
    rest: Seq<ChildModel>,
    first: (ScanState, ScanActionModel),
    children: Seq<TreeModel>,
    n: nat,
)
    requires
        n <= children.len(),
        siblings(children).len() == children.len(),
        named_below(children, children.len()),
        counts(
            base,
            files_below(children, children.len()),
            directories_below(children, children.len()),
        ),
        stands(first),
        first.0 == moved_to(s, base, rest + listing(siblings(children)).reverse()),
    ensures
        stands(run_below(first, children, n)),
        run_below(first, children, n).0 == moved_to(
            s,
            found(base, files_below(children, n), directories_below(children, n)),
            rest + listing(siblings(children)).subrange(
                n as int,
                children.len() as int,
            ).reverse(),
        ),
    decreases children, n,
{
    let line = listing(siblings(children));
    if n == 0 {
        lemma_found_nothing(base);
        assert(line.subrange(0, line.len() as int) =~= line);
    } else {
        let m = (n - 1) as nat;
        let t = siblings(children)[n - 1];
        lemma_scan_below(s, base, rest, first, children, m);
        lemma_sibling_is_below(children, n - 1);
        lemma_below_grows(children, n, children.len());
        lemma_named_siblings(children, children.len(), n - 1);
        lemma_found_twice(
            base,
            files_below(children, m),
            directories_below(children, m),
            tree_files(t),
            tree_directories(t),
        );
        let before = run_below(first, children, m).0;
        let waiting = line.subrange(m as int, line.len() as int).reverse();
        let left = line.subrange(n as int, line.len() as int).reverse();
        assert(line.subrange(m as int, line.len() as int)[0] == child_of(t));
        assert(waiting =~= left.push(child_of(t)));
        assert(before.pending =~= (rest + left).push(child_of(t)));
        assert(before.pending.drop_last() =~= rest + left);
        scan_follows_the_tree(before, t);
    }
}

// ---------------------------------------------------------------------------
// Several roots
// ---------------------------------------------------------------------------

/// The paths of trees.
pub open spec fn paths_of(trees: Seq<TreeModel>) -> Seq<Seq<char>> {
    trees.map_values(|t: TreeModel| t.path)
}

/// The files of roots, one root after the other.
pub open spec fn files_of(trees: Seq<TreeModel>) -> Seq<(Seq<char>, u64)>
    decreases trees.len(),
{
    if trees.len() == 0 {
        Seq::empty()
    } else {
        files_of(trees.drop_last()) + tree_files(trees.last())
    }
}

/// The number of directories of roots.
pub open spec fn directories_of(trees: Seq<TreeModel>) -> nat
    decreases trees.len(),
{
    if trees.len() == 0 {
        0
    } else {
        directories_of(trees.drop_last()) + tree_directories(trees.last())
    }
}

/// A scan that is told what the first `n` roots resolve to.
pub open spec fn run_roots(asked: Seq<Seq<char>>, at: Seq<char>, trees: Seq<TreeModel>, n: nat) -> (
    ScanState,
    ScanActionModel,
)
    decreases n,
{
    if n == 0 {
        (
            scan_start(asked, at),
            ScanActionModel { progress: None, question: QuestionModel::Resolve { root: asked[0] } },
        )
    } else {
        scan_next(
            run_roots(asked, at, trees, (n - 1) as nat).0,
            ScanReplyModel::Resolved { symlink: false, canonical: trees[n - 1].path },
            false,
        )
    }
}

/// A scan that is then told what is in the first `n` of them.
pub open spec fn run_all(asked: Seq<Seq<char>>, at: Seq<char>, trees: Seq<TreeModel>, n: nat) -> (
    ScanState,
    ScanActionModel,
)
    decreases n,
{
    if n == 0 {
        run_roots(asked, at, trees, trees.len())
    } else {
        run_tree(run_all(asked, at, trees, (n - 1) as nat).0, trees[n - 1])
    }
}

/// Roots that can be scanned together: none lies in another, all names below them are
/// UTF-8, and they bear no names themselves.
pub open spec fn scannable(trees: Seq<TreeModel>) -> bool {
    &&& forall|i: int, j: int|
        0 <= i < j < trees.len() ==> !overlap(#[trigger] trees[j].path, #[trigger] trees[i].path)
    &&& forall|i: int|
        0 <= i < trees.len() ==> named(#[trigger] trees[i]) && trees[i].name.len() == 0
}

proof fn lemma_run_roots(asked: Seq<Seq<char>>, at: Seq<char>, trees: Seq<TreeModel>, n: nat)
    requires
        n <= trees.len(),
        0 < trees.len(),
        asked.len() == trees.len(),
        scannable(trees),
    ensures
        ({
            let s = run_roots(asked, at, trees, n).0;
            let start = scan_start(asked, at);
            let plan = SourceModel { roots: paths_of(trees).subrange(0, n as int), ..start.plan };
            if n < trees.len() {
                s == (ScanState { at: n, plan, ..start })
            } else {
                &&& stands(run_roots(asked, at, trees, n))
                &&& s == moved_to(
                    ScanState { at: n, ..start },
                    plan,
                    root_entries(paths_of(trees)).reverse(),
                )
            }
        }),
    decreases n,
{
    let start = scan_start(asked, at);
    let paths = paths_of(trees);
    if n == 0 {
        assert(paths.subrange(0, 0) =~= Seq::<Seq<char>>::empty());
        assert(run_roots(asked, at, trees, n).0 =~= ScanState {
            at: 0,
            plan: SourceModel { roots: paths.subrange(0, 0), ..start.plan },
            ..start
        });
    } else {
        let m = (n - 1) as nat;
        lemma_run_roots(asked, at, trees, m);
        let roots = paths.subrange(0, m as int);
        assert(!overlaps_any(roots, trees[m as int].path)) by {
            assert forall|i: int| 0 <= i < roots.len() implies !overlap(
                trees[m as int].path,
                #[trigger] roots[i],
            ) by {
                assert(roots[i] == trees[i].path);
            }
        }
        assert(roots.push(trees[m as int].path) =~= paths.subrange(0, n as int));
        if n == trees.len() {
            assert(paths.subrange(0, n as int) =~= paths);
            let pending = root_entries(paths).reverse();
            assert(pending.len() > 0);
            assert forall|i: int| 0 <= i < pending.len() implies (#[trigger] pending[i]).utf8 by {
                assert(pending[i] == root_entry(paths[paths.len() - 1 - i]));
            }
        }
    }
}

proof fn lemma_roots_grow(trees: Seq<TreeModel>, n: int)
    requires
        0 <= n <= trees.len(),
    ensures
        sizes_total(files_of(trees.subrange(0, n))) <= sizes_total(files_of(trees)),
        directories_of(trees.subrange(0, n)) <= directories_of(trees),
    decreases trees.len() - n,
{
    if n < trees.len() {
        lemma_roots_grow(trees, n + 1);
        let next = trees.subrange(0, n + 1);
        assert(next.drop_last() =~= trees.subrange(0, n));
        lemma_sizes(files_of(next.drop_last()), tree_files(next.last()));
    } else {
        assert(trees.subrange(0, n) =~= trees);
    }
}

proof fn lemma_run_all(asked: Seq<Seq<char>>, at: Seq<char>, trees: Seq<TreeModel>, n: nat)
    requires
        n <= trees.len(),
        0 < trees.len(),
        asked.len() == trees.len(),
        scannable(trees),
        sizes_total(files_of(trees)) <= u64::MAX,
        directories_of(trees) <= usize::MAX,
    ensures
        ({
            let start = scan_start(asked, at);
            let plan = SourceModel { roots: paths_of(trees), ..start.plan };
            let done = trees.subrange(0, n as int);
            &&& stands(run_all(asked, at, trees, n))
            &&& run_all(asked, at, trees, n).0 == moved_to(
                ScanState { at: trees.len(), ..start },
                found(plan, files_of(done), directories_of(done)),
                root_entries(paths_of(trees)).subrange(n as int, trees.len() as int).reverse(),
            )
        }),
    decreases n,
{
    let start = scan_start(asked, at);
    let plan = SourceModel { roots: paths_of(trees), ..start.plan };
    let entries = root_entries(paths_of(trees));
    if n == 0 {
        lemma_run_roots(asked, at, trees, trees.len());
        lemma_found_nothing(plan);
        assert(paths_of(trees).subrange(0, trees.len() as int) =~= paths_of(trees));
        assert(trees.subrange(0, 0) =~= Seq::<TreeModel>::empty());
        assert(entries.subrange(0, trees.len() as int) =~= entries);
    } else {
        let m = (n - 1) as nat;
        let t = trees[m as int];
        lemma_run_all(asked, at, trees, m);
        lemma_roots_grow(trees, n as int);
        let done = trees.subrange(0, m as int);
        let next = trees.subrange(0, n as int);
        assert(next.drop_last() =~= done);
        assert(next.last() == t);
        lemma_found_twice(
            plan,
            files_of(done),
            directories_of(done),
            tree_files(t),
            tree_directories(t),
        );
        let before = run_all(asked, at, trees, m).0;
        let left = entries.subrange(n as int, entries.len() as int).reverse();
        assert(child_of(t) =~= entries[m as int]);
        assert(entries.subrange(m as int, entries.len() as int).reverse() =~= left.push(
            child_of(t),
        ));
        assert(before.pending.drop_last() =~= left);
        scan_follows_the_tree(before, t);
    }
}

/// A scan of roots that do not change ends with a plan that names every root by the path
/// that it resolves to, and every regular file below them once: one root after the other,
/// depth first, siblings by name. It counts every directory, the roots included, and the
/// payload is the sum of the sizes.
pub proof fn scan_finds_every_file(asked: Seq<Seq<char>>, at: Seq<char>, trees: Seq<TreeModel>)
    requires
        0 < trees.len(),
        asked.len() == trees.len(),
        scannable(trees),
        sizes_total(files_of(trees)) <= u64::MAX,
        directories_of(trees) <= usize::MAX,
    ensures
        ({
            let (last, action) = run_all(asked, at, trees, trees.len());
            &&& action.question is Finished
            &&& last.plan.roots == paths_of(trees)
            &&& last.plan.files == files_of(trees)
            &&& last.plan.directories_total == directories_of(trees)
            &&& last.plan.payload_bytes == sizes_total(files_of(trees))
            &&& last.plan.scanned_at == at
        }),
{
    lemma_run_all(asked, at, trees, trees.len());
    assert(trees.subrange(0, trees.len() as int) =~= trees);
    assert(Seq::<(Seq<char>, u64)>::empty() + files_of(trees) =~= files_of(trees));
}

/// A link, or an entry that is neither a file nor a directory, ends a scan.
pub proof fn scan_refuses_other_entries(s: ScanState, entry: SourceEntry)
    requires
        s.stage is Entry,
        entry is Symlink || entry is Other,
    ensures
        scan_next(s, ScanReplyModel::Entry(entry), false).1.question is Failed,
{
}

} // verus!
