//! Host paths as text: components, parents, names and prefixes.
use vstd::prelude::*;
use vstd::string::*;

use crate::text::{
    at_most, cat3, join, joined, lemma_text_le_total, lemma_text_le_trans, same, split, split_spec,
    text_le, views,
};

verus! {

/// The pieces of a path that count: not empty, and not a dot, except for a dot that
/// begins a relative path (`from` is the position of the first piece).
pub open spec fn counted_pieces(pieces: Seq<Seq<char>>) -> Seq<Seq<char>>
    decreases pieces.len(),
{
    if pieces.len() == 0 {
        Seq::empty()
    } else {
        let before = counted_pieces(pieces.drop_last());
        let piece = pieces.last();
        if piece.len() == 0 || (piece == "."@ && pieces.len() > 1) {
            before
        } else {
            before.push(piece)
        }
    }
}

/// A path that begins at the root.
pub open spec fn is_absolute(path: Seq<char>) -> bool {
    path.len() > 0 && path[0] == '/'
}

/// The components of a path behind the root, if it has one.
pub open spec fn path_names(path: Seq<char>) -> Seq<Seq<char>> {
    counted_pieces(split_spec(path, '/'))
}

/// The number of components of a path; the root counts as one.
pub open spec fn component_count(path: Seq<char>) -> nat {
    path_names(path).len() + (if is_absolute(path) {
        1nat
    } else {
        0
    })
}

/// The text of a path with the given components.
pub open spec fn path_text(absolute: bool, names: Seq<Seq<char>>) -> Seq<char> {
    if absolute {
        "/"@ + joined(names, "/"@)
    } else {
        joined(names, "/"@)
    }
}

/// `base` is `path` or one of the directories above it.
pub open spec fn path_starts_with(path: Seq<char>, base: Seq<char>) -> bool {
    &&& is_absolute(path) == is_absolute(base) || (path_names(base).len() == 0 && !is_absolute(
        base,
    ))
    &&& path_names(base).len() <= path_names(path).len()
    &&& path_names(path).subrange(0, path_names(base).len() as int) == path_names(base)
}

/// The path without its last component; `None` for the root and for an empty path.
pub open spec fn parent_spec(path: Seq<char>) -> Option<Seq<char>> {
    let names = path_names(path);
    if names.len() == 0 {
        None
    } else {
        Some(path_text(is_absolute(path), names.drop_last()))
    }
}

/// The last component, where it is a name.
pub open spec fn file_name_spec(path: Seq<char>) -> Option<Seq<char>> {
    let names = path_names(path);
    if names.len() == 0 || names.last() == ".."@ || names.last() == "."@ {
        None
    } else {
        Some(names.last())
    }
}

/// `name` below `directory`.
pub open spec fn join_spec(directory: Seq<char>, name: Seq<char>) -> Seq<char> {
    if is_absolute(name) {
        name
    } else if directory.len() == 0 || directory.last() == '/' {
        directory + name
    } else {
        directory + "/"@ + name
    }
}

pub fn absolute(path: &str) -> (yes: bool)
    ensures
        yes == is_absolute(path@),
{
    path.unicode_len() > 0 && path.get_char(0) == '/'
}

/// The components of a path behind the root.
pub fn names_of(path: &str) -> (names: Vec<String>)
    ensures
        views(names@) == path_names(path@),
{
    let pieces = split(path, '/');
    let ghost all = views(pieces@);
    let mut names: Vec<String> = Vec::new();
    let mut i: usize = 0;
    assert(views(names@) =~= counted_pieces(all.subrange(0, 0)));
    while i < pieces.len()
        invariant
            i <= pieces@.len(),
            all == views(pieces@),
            views(names@) == counted_pieces(all.subrange(0, i as int)),
        decreases pieces@.len() - i,
    {
        let ghost before = names@;
        proof {
            let next = all.subrange(0, i + 1);
            assert(next.drop_last() =~= all.subrange(0, i as int));
            assert(next.last() == pieces@[i as int]@);
        }
        if !(pieces[i].as_str().is_empty() || (same(pieces[i].as_str(), ".") && i > 0)) {
            names.push(pieces[i].clone());
            assert(views(names@) =~= views(before).push(pieces@[i as int]@));
        }
        i = i + 1;
    }
    assert(all.subrange(0, i as int) =~= all);
    names
}

/// The text of a path with the given components.
pub fn text_of(absolute: bool, names: &Vec<String>) -> (path: String)
    ensures
        path@ == path_text(absolute, views(names@)),
{
    let rest = join(names, "/");
    if absolute {
        crate::text::cat2("/", rest.as_str())
    } else {
        rest
    }
}

pub fn components(path: &str) -> (count: u128)
    ensures
        count == component_count(path@),
{
    let names = names_of(path);
    assert(views(names@).len() == names@.len());
    if absolute(path) {
        names.len() as u128 + 1
    } else {
        names.len() as u128
    }
}

/// The kind of a component: a dot, two dots, or a name.
pub open spec fn name_kind(name: Seq<char>) -> int {
    if name == "."@ {
        1
    } else if name == ".."@ {
        2
    } else {
        3
    }
}

/// The order of components: a dot, two dots, then names in the order of their text.
pub open spec fn name_le(a: Seq<char>, b: Seq<char>) -> bool {
    if name_kind(a) != name_kind(b) {
        name_kind(a) < name_kind(b)
    } else {
        text_le(a, b)
    }
}

/// Component by component; a path comes before those below it.
pub open spec fn names_le(a: Seq<Seq<char>>, b: Seq<Seq<char>>) -> bool
    decreases a.len(),
{
    if a.len() == 0 {
        true
    } else if b.len() == 0 {
        false
    } else if a[0] != b[0] {
        name_le(a[0], b[0])
    } else {
        names_le(a.drop_first(), b.drop_first())
    }
}

/// The order of paths. A path that begins at the root comes before one that does not,
/// unless that one is empty.
pub open spec fn path_le(a: Seq<char>, b: Seq<char>) -> bool {
    if is_absolute(a) == is_absolute(b) {
        names_le(path_names(a), path_names(b))
    } else if is_absolute(a) {
        path_names(b).len() > 0
    } else {
        path_names(a).len() == 0
    }
}

proof fn lemma_name_le(a: Seq<char>, b: Seq<char>, c: Seq<char>)
    ensures
        name_le(a, b) || name_le(b, a),
        name_le(a, b) && name_le(b, a) ==> a == b,
        name_le(a, b) && name_le(b, c) ==> name_le(a, c),
{
    lemma_text_le_total(a, b);
    if text_le(a, b) && text_le(b, c) {
        lemma_text_le_trans(a, b, c);
    }
}

proof fn lemma_names_le_total(a: Seq<Seq<char>>, b: Seq<Seq<char>>)
    ensures
        names_le(a, b) || names_le(b, a),
    decreases a.len(),
{
    if a.len() > 0 && b.len() > 0 {
        if a[0] == b[0] {
            lemma_names_le_total(a.drop_first(), b.drop_first());
        } else {
            lemma_name_le(a[0], b[0], a[0]);
        }
    }
}

proof fn lemma_names_le_trans(a: Seq<Seq<char>>, b: Seq<Seq<char>>, c: Seq<Seq<char>>)
    requires
        names_le(a, b),
        names_le(b, c),
    ensures
        names_le(a, c),
    decreases a.len(),
{
    if a.len() > 0 && b.len() > 0 && c.len() > 0 {
        lemma_name_le(a[0], b[0], c[0]);
        lemma_name_le(c[0], b[0], a[0]);
        if a[0] == b[0] && b[0] == c[0] {
            lemma_names_le_trans(a.drop_first(), b.drop_first(), c.drop_first());
        }
    }
}

pub proof fn lemma_path_le_total(a: Seq<char>, b: Seq<char>)
    ensures
        path_le(a, b) || path_le(b, a),
{
    lemma_names_le_total(path_names(a), path_names(b));
}

pub proof fn lemma_path_le_trans(a: Seq<char>, b: Seq<char>, c: Seq<char>)
    requires
        path_le(a, b),
        path_le(b, c),
    ensures
        path_le(a, c),
{
    if is_absolute(a) == is_absolute(b) && is_absolute(b) == is_absolute(c) {
        lemma_names_le_trans(path_names(a), path_names(b), path_names(c));
    }
}

fn kind_of(name: &str) -> (kind: u8)
    ensures
        kind == name_kind(name@),
{
    if same(name, ".") {
        1
    } else if same(name, "..") {
        2
    } else {
        3
    }
}

fn names_at_most(a: &Vec<String>, b: &Vec<String>) -> (yes: bool)
    ensures
        yes == names_le(views(a@), views(b@)),
{
    let ghost left = views(a@);
    let ghost right = views(b@);
    let mut i: usize = 0;
    proof {
        assert(left.subrange(0, left.len() as int) =~= left);
        assert(right.subrange(0, right.len() as int) =~= right);
    }
    loop
        invariant
            left == views(a@),
            right == views(b@),
            i <= a@.len(),
            i <= b@.len(),
            names_le(left, right) == names_le(
                left.subrange(i as int, left.len() as int),
                right.subrange(i as int, right.len() as int),
            ),
        decreases a@.len() - i,
    {
        if i == a.len() {
            return true;
        }
        if i == b.len() {
            return false;
        }
        let x = a[i].as_str();
        let y = b[i].as_str();
        proof {
            assert(left.subrange(i as int, left.len() as int)[0] == x@);
            assert(right.subrange(i as int, right.len() as int)[0] == y@);
            assert(left.subrange(i as int, left.len() as int).drop_first() =~= left.subrange(
                i + 1,
                left.len() as int,
            ));
            assert(right.subrange(i as int, right.len() as int).drop_first() =~= right.subrange(
                i + 1,
                right.len() as int,
            ));
        }
        if !same(x, y) {
            let left_kind: u8 = kind_of(x);
            let right_kind: u8 = kind_of(y);
            if left_kind != right_kind {
                return left_kind < right_kind;
            }
            return at_most(x, y);
        }
        i = i + 1;
    }
}

pub fn path_at_most(a: &str, b: &str) -> (yes: bool)
    ensures
        yes == path_le(a@, b@),
{
    let left = names_of(a);
    let right = names_of(b);
    assert(views(left@).len() == left@.len());
    assert(views(right@).len() == right@.len());
    if absolute(a) == absolute(b) {
        names_at_most(&left, &right)
    } else if absolute(a) {
        right.len() > 0
    } else {
        left.len() == 0
    }
}

pub fn starts_with_path(path: &str, base: &str) -> (yes: bool)
    ensures
        yes == path_starts_with(path@, base@),
{
    let names = names_of(path);
    let prefix = names_of(base);
    let ghost all = views(names@);
    let ghost wanted = views(prefix@);
    let rooted = absolute(base);
    if absolute(path) != rooted && !(prefix.len() == 0 && !rooted) {
        return false;
    }
    if prefix.len() > names.len() {
        return false;
    }
    let mut i: usize = 0;
    while i < prefix.len()
        invariant
            i <= prefix@.len() <= names@.len(),
            all == views(names@),
            all == path_names(path@),
            wanted == views(prefix@),
            wanted == path_names(base@),
            all.subrange(0, i as int) == wanted.subrange(0, i as int),
        decreases prefix@.len() - i,
    {
        if !same(names[i].as_str(), prefix[i].as_str()) {
            proof {
                assert(all.subrange(0, wanted.len() as int)[i as int] != wanted[i as int]);
            }
            return false;
        }
        assert(all.subrange(0, i + 1) =~= all.subrange(0, i as int).push(all[i as int]));
        assert(wanted.subrange(0, i + 1) =~= wanted.subrange(0, i as int).push(wanted[i as int]));
        i = i + 1;
    }
    assert(wanted.subrange(0, i as int) =~= wanted);
    true
}

pub fn parent(path: &str) -> (result: Option<String>)
    ensures
        crate::text::opt_view(result) == parent_spec(path@),
{
    let mut names = names_of(path);
    let ghost all = views(names@);
    if names.len() == 0 {
        return None;
    }
    let _ = names.pop();
    assert(views(names@) =~= all.drop_last());
    Some(text_of(absolute(path), &names))
}

pub fn file_name(path: &str) -> (name: Option<String>)
    ensures
        crate::text::opt_view(name) == file_name_spec(path@),
{
    let names = names_of(path);
    if names.len() == 0 {
        return None;
    }
    let last = &names[names.len() - 1];
    assert(views(names@).last() == last@);
    if same(last.as_str(), "..") || same(last.as_str(), ".") {
        return None;
    }
    Some(last.clone())
}

pub fn join_path(directory: &str, name: &str) -> (path: String)
    ensures
        path@ == join_spec(directory@, name@),
{
    if absolute(name) {
        return name.to_owned();
    }
    let n: usize = directory.unicode_len();
    if n == 0 || directory.get_char(n - 1) == '/' {
        crate::text::cat2(directory, name)
    } else {
        cat3(directory, "/", name)
    }
}

/// Whether two paths have the same components.
pub open spec fn same_path_spec(a: Seq<char>, b: Seq<char>) -> bool {
    is_absolute(a) == is_absolute(b) && path_names(a) == path_names(b)
}

pub fn same_path(a: &str, b: &str) -> (yes: bool)
    ensures
        yes == same_path_spec(a@, b@),
{
    let left = names_of(a);
    let right = names_of(b);
    if absolute(a) != absolute(b) || left.len() != right.len() {
        assert(views(left@).len() == left@.len());
        assert(views(right@).len() == right@.len());
        return false;
    }
    let mut i: usize = 0;
    while i < left.len()
        invariant
            i <= left@.len(),
            left@.len() == right@.len(),
            views(left@) == path_names(a@),
            views(right@) == path_names(b@),
            forall|j: int| 0 <= j < i ==> #[trigger] views(left@)[j] == views(right@)[j],
        decreases left@.len() - i,
    {
        if !same(left[i].as_str(), right[i].as_str()) {
            assert(views(left@)[i as int] != views(right@)[i as int]);
            return false;
        }
        i = i + 1;
    }
    assert(views(left@) =~= views(right@));
    true
}

} // verus!
