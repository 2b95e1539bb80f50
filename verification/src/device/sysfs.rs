//! Names and links under `/sys`: which entries are tape drives, and which SCSI generic
//! device belongs to a tape drive.
//!
//! The entries `class/scsi_tape/nst0` and `class/scsi_generic/sg1` are links below the
//! directory of one SCSI device; two entries belong together when that directory is the
//! same.
use vstd::prelude::*;
use vstd::string::*;

use crate::paths::{absolute, is_absolute, names_of, path_names, path_text, text_of};
use crate::sort::{stable_sort, stably_sorted};
use crate::text::{
    chars_of, has_prefix, is_digit, opt_view, same, split, split_spec,
    starts_with, views,
};

verus! {

/// At least one character, and decimal digits only.
pub open spec fn all_digits(text: Seq<char>) -> bool {
    forall|i: int| 0 <= i < text.len() ==> is_digit(#[trigger] text[i])
}

fn digits_from(chars: &Vec<char>, from: usize) -> (yes: bool)
    requires
        from <= chars@.len(),
    ensures
        yes == all_digits(chars@.subrange(from as int, chars@.len() as int)),
{
    let ghost rest = chars@.subrange(from as int, chars@.len() as int);
    let mut i: usize = from;
    while i < chars.len()
        invariant
            from <= i <= chars@.len(),
            rest == chars@.subrange(from as int, chars@.len() as int),
            forall|j: int| 0 <= j < i - from ==> is_digit(#[trigger] rest[j]),
        decreases chars@.len() - i,
    {
        let c = chars[i];
        if c < '0' || c > '9' {
            assert(rest[i - from] == c);
            return false;
        }
        i = i + 1;
    }
    true
}

/// "nst" and a number: the entry of a drive that does not rewind, without a mode suffix.
pub open spec fn is_base_nst_spec(name: Seq<char>) -> bool {
    has_prefix(name, "nst"@) && name.len() > 3 && all_digits(name.subrange(3, name.len() as int))
}

pub fn is_base_nst(name: &str) -> (yes: bool)
    ensures
        yes == is_base_nst_spec(name@),
{
    if !starts_with(name, "nst") {
        return false;
    }
    proof {
        reveal_strlit("nst");
    }
    let chars = chars_of(name);
    if chars.len() == 3 {
        return false;
    }
    digits_from(&chars, 3)
}

/// "sg" and a number, which may be missing.
pub open spec fn is_sg_name(name: Seq<char>) -> bool {
    has_prefix(name, "sg"@) && all_digits(name.subrange(2, name.len() as int))
}

fn sg_name(name: &str) -> (yes: bool)
    ensures
        yes == is_sg_name(name@),
{
    if !starts_with(name, "sg") {
        return false;
    }
    proof {
        reveal_strlit("sg");
    }
    let chars = chars_of(name);
    digits_from(&chars, 2)
}

/// The names of a list that are drives.
pub open spec fn base_names(names: Seq<String>) -> Seq<String>
    decreases names.len(),
{
    if names.len() == 0 {
        Seq::empty()
    } else if is_base_nst_spec(names.last()@) {
        base_names(names.drop_last()).push(names.last())
    } else {
        base_names(names.drop_last())
    }
}

/// The tape drives among the entries of `class/scsi_tape`, sorted. Entries with a mode
/// suffix and entries that rewind lead to the same drives and are left out.
pub fn enumerate_tape_bases(entries: Vec<String>) -> (names: Vec<String>)
    ensures
        names@ == stably_sorted(base_names(entries@)),
{
    let mut found: Vec<String> = Vec::new();
    let mut i: usize = 0;
    assert(found@ =~= base_names(entries@.subrange(0, 0)));
    while i < entries.len()
        invariant
            i <= entries@.len(),
            found@ == base_names(entries@.subrange(0, i as int)),
        decreases entries@.len() - i,
    {
        proof {
            let next = entries@.subrange(0, i + 1);
            assert(next.drop_last() =~= entries@.subrange(0, i as int));
            assert(next.last() == entries@[i as int]);
        }
        if is_base_nst(entries[i].as_str()) {
            found.push(entries[i].clone());
        }
        i = i + 1;
    }
    assert(entries@.subrange(0, i as int) =~= entries@);
    stable_sort(found)
}

/// Four numbers separated by colons.
pub open spec fn is_device_id(text: Seq<char>) -> bool {
    let parts = split_spec(text, ':');
    parts.len() == 4 && forall|i: int|
        0 <= i < parts.len() ==> (#[trigger] parts[i]).len() > 0 && all_digits(parts[i])
}

pub fn is_scsi_device_id(s: &str) -> (yes: bool)
    ensures
        yes == is_device_id(s@),
{
    let parts = split(s, ':');
    let ghost all = views(parts@);
    assert(all.len() == parts@.len());
    if parts.len() != 4 {
        return false;
    }
    let mut i: usize = 0;
    while i < parts.len()
        invariant
            i <= parts@.len(),
            all == views(parts@),
            all == split_spec(s@, ':'),
            forall|j: int| 0 <= j < i ==> (#[trigger] all[j]).len() > 0 && all_digits(all[j]),
        decreases parts@.len() - i,
    {
        let chars = chars_of(parts[i].as_str());
        assert(all[i as int] == chars@);
        assert(chars@.subrange(0, chars@.len() as int) =~= chars@);
        if chars.len() == 0 || !digits_from(&chars, 0) {
            return false;
        }
        i = i + 1;
    }
    true
}

/// The position of the first component that is a SCSI device, or their number.
pub open spec fn device_position(names: Seq<Seq<char>>) -> int
    decreases names.len(),
{
    if names.len() == 0 || is_device_id(names[0]) {
        0
    } else {
        1 + device_position(names.drop_first())
    }
}

/// The directory of the SCSI device in a path: everything up to its identifier.
pub open spec fn device_dir_spec(path: Seq<char>) -> Option<Seq<char>> {
    let names = path_names(path);
    let k = device_position(names);
    if k < names.len() {
        Some(path_text(is_absolute(path), names.subrange(0, k + 1)))
    } else {
        None
    }
}

proof fn lemma_device_position(names: Seq<Seq<char>>)
    ensures
        0 <= device_position(names) <= names.len(),
    decreases names.len(),
{
    if names.len() > 0 {
        lemma_device_position(names.drop_first());
    }
}

/// The directory of the SCSI device that a resolved link lies below, such as
/// `/sys/devices/.../6:0:0:0` for `/sys/devices/.../6:0:0:0/scsi_tape/nst0`.
pub fn scsi_device_dir_from_path(path: &str) -> (dir: Option<String>)
    ensures
        opt_view(dir) == device_dir_spec(path@),
{
    let names = names_of(path);
    let ghost all = views(names@);
    let mut kept: Vec<String> = Vec::new();
    let mut i: usize = 0;
    proof {
        lemma_device_position(all);
        assert(all.subrange(0, all.len() as int) =~= all);
        assert(views(kept@) =~= all.subrange(0, 0));
    }
    while i < names.len()
        invariant
            i <= names@.len(),
            all == views(names@),
            all == path_names(path@),
            views(kept@) == all.subrange(0, i as int),
            device_position(all) == i + device_position(all.subrange(i as int, all.len() as int)),
        decreases names@.len() - i,
    {
        let ghost rest = all.subrange(i as int, all.len() as int);
        let ghost before = kept@;
        assert(rest[0] == names@[i as int]@);
        assert(rest.drop_first() =~= all.subrange(i + 1, all.len() as int));
        kept.push(names[i].clone());
        assert(views(kept@) =~= views(before).push(names@[i as int]@));
        assert(views(kept@) =~= all.subrange(0, i + 1));
        if is_scsi_device_id(names[i].as_str()) {
            return Some(text_of(absolute(path), &kept));
        }
        i = i + 1;
    }
    None
}

/// An entry of `class/scsi_generic`: its name, and where its link leads.
#[derive(Debug, Clone, PartialEq, Eq)]
pub struct ClassEntry {
    pub name: String,
    pub resolved: Option<String>,
}

/// The device directory that an entry leads to.
pub open spec fn entry_dir(e: ClassEntry) -> Option<Seq<char>> {
    match e.resolved {
        Some(path) => device_dir_spec(path@),
        None => None,
    }
}

/// The entry is a SCSI generic device below `dir`.
pub open spec fn entry_matches(e: ClassEntry, dir: Seq<char>) -> bool {
    is_sg_name(e.name@) && entry_dir(e) == Some(dir)
}

/// The first SCSI generic device that shares the device directory of a tape drive.
pub open spec fn sg_for(entries: Seq<ClassEntry>, dir: Seq<char>) -> Option<Seq<char>>
    decreases entries.len(),
{
    if entries.len() == 0 {
        None
    } else if entry_matches(entries[0], dir) {
        Some(entries[0].name@)
    } else {
        sg_for(entries.drop_first(), dir)
    }
}

/// The SCSI generic device of the tape drive whose link leads to `tape_path`.
pub fn find_sg_for_tape(tape_path: &Option<String>, entries: &Vec<ClassEntry>) -> (name: Option<
    String,
>)
    ensures
        opt_view(name) == (match *tape_path {
            Some(path) => match device_dir_spec(path@) {
                Some(dir) => sg_for(entries@, dir),
                None => None,
            },
            None => None,
        }),
{
    let dir = match tape_path {
        Some(path) => match scsi_device_dir_from_path(path.as_str()) {
            Some(dir) => dir,
            None => {
                return None;
            },
        },
        None => {
            return None;
        },
    };
    let mut i: usize = 0;
    assert(entries@.subrange(0, entries@.len() as int) =~= entries@);
    while i < entries.len()
        invariant
            i <= entries@.len(),
            tape_path is Some,
            device_dir_spec(tape_path->0@) == Some(dir@),
            sg_for(entries@, dir@) == sg_for(
                entries@.subrange(i as int, entries@.len() as int),
                dir@,
            ),
        decreases entries@.len() - i,
    {
        let ghost rest = entries@.subrange(i as int, entries@.len() as int);
        assert(rest[0] == entries@[i as int]);
        assert(rest.drop_first() =~= entries@.subrange(i + 1, entries@.len() as int));
        if sg_name(entries[i].name.as_str()) {
            match &entries[i].resolved {
                Some(path) => match scsi_device_dir_from_path(path.as_str()) {
                    Some(found) => {
                        if same(found.as_str(), dir.as_str()) {
                            return Some(entries[i].name.clone());
                        }
                    },
                    None => {},
                },
                None => {},
            }
        }
        i = i + 1;
    }
    None
}

/// The directory of a device ends with the first name on the way that is a device number,
/// whatever follows it: all entries of a device lead to the same directory.
pub proof fn entries_of_a_device_share_its_directory(
    path: Seq<char>,
    other: Seq<char>,
    above: Seq<Seq<char>>,
    id: Seq<char>,
    below: Seq<Seq<char>>,
    beside: Seq<Seq<char>>,
)
    requires
        is_device_id(id),
        forall|i: int| 0 <= i < above.len() ==> !is_device_id(#[trigger] above[i]),
        path_names(path) == above.push(id) + below,
        path_names(other) == above.push(id) + beside,
        is_absolute(path) == is_absolute(other),
    ensures
        device_dir_spec(path) is Some,
        device_dir_spec(path) == device_dir_spec(other),
        device_dir_spec(path) == Some(path_text(is_absolute(path), above.push(id))),
{
    lemma_first_id(above, id, below);
    lemma_first_id(above, id, beside);
    let n = above.len() as int;
    assert((above.push(id) + below).subrange(0, n + 1) =~= above.push(id));
    assert((above.push(id) + beside).subrange(0, n + 1) =~= above.push(id));
}

proof fn lemma_first_id(above: Seq<Seq<char>>, id: Seq<char>, below: Seq<Seq<char>>)
    requires
        is_device_id(id),
        forall|i: int| 0 <= i < above.len() ==> !is_device_id(#[trigger] above[i]),
    ensures
        device_position(above.push(id) + below) == above.len(),
    decreases above.len(),
{
    let names = above.push(id) + below;
    if above.len() == 0 {
        assert(names[0] == id);
    } else {
        let rest = above.drop_first();
        assert(names[0] == above[0]);
        assert forall|i: int| 0 <= i < rest.len() implies !is_device_id(#[trigger] rest[i]) by {
            assert(rest[i] == above[i + 1]);
        }
        lemma_first_id(rest, id, below);
        assert(names.drop_first() =~= rest.push(id) + below);
    }
}

/// The generic entry of a drive is the first one that is called like one and leads to the
/// directory of the drive; there is none where no entry does.
pub proof fn drive_gets_its_own_generic_entry(entries: Seq<ClassEntry>, dir: Seq<char>)
    ensures
        match sg_for(entries, dir) {
            Some(name) => exists|k: int|
                0 <= k < entries.len() && (#[trigger] entries[k]).name@ == name && is_sg_name(name)
                    && entry_dir(entries[k]) == Some(dir) && forall|i: int|
                    0 <= i < k ==> !(is_sg_name((#[trigger] entries[i]).name@) && entry_dir(
                        entries[i],
                    ) == Some(dir)),
            None => forall|i: int|
                0 <= i < entries.len() ==> !(is_sg_name((#[trigger] entries[i]).name@)
                    && entry_dir(entries[i]) == Some(dir)),
        },
    decreases entries.len(),
{
    if entries.len() > 0 {
        let rest = entries.drop_first();
        if entry_matches(entries[0], dir) {
            assert(entries[0].name@ == sg_for(entries, dir)->0);
        } else {
            drive_gets_its_own_generic_entry(rest, dir);
            match sg_for(rest, dir) {
                Some(name) => {
                    let k = choose|k: int|
                        0 <= k < rest.len() && (#[trigger] rest[k]).name@ == name && is_sg_name(
                            name,
                        ) && entry_dir(rest[k]) == Some(dir) && forall|i: int|
                            0 <= i < k ==> !(is_sg_name((#[trigger] rest[i]).name@) && entry_dir(
                                rest[i],
                            ) == Some(dir));
                    assert(entries[k + 1] == rest[k]);
                    assert forall|i: int| 0 <= i < k + 1 implies !(is_sg_name(
                        (#[trigger] entries[i]).name@,
                    ) && entry_dir(entries[i]) == Some(dir)) by {
                        if i > 0 {
                            assert(rest[i - 1] == entries[i]);
                        }
                    }
                },
                None => {
                    assert forall|i: int| 0 <= i < entries.len() implies !(is_sg_name(
                        (#[trigger] entries[i]).name@,
                    ) && entry_dir(entries[i]) == Some(dir)) by {
                        if i > 0 {
                            assert(rest[i - 1] == entries[i]);
                        }
                    }
                },
            }
        }
    }
}

} // verus!
