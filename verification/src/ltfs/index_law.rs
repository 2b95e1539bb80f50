//! Reading back index documents: the document of an index stands for that index.
use vstd::prelude::*;

use super::document::{
    balanced, field, lemma_balanced_concat, lemma_balanced_element, lemma_document,
    lemma_escaped_plain, lemma_flat_balanced, lemma_plain_concat, lemma_reference_value,
    lemma_text_plain, line_break, piece, plain_events, text_events,
};
use super::index::{
    AttributeEntry, DirModel, EntryModel, Extent, FileModel, IndexModel, TapePos, TimesModel,
};
use super::index_xml::{
    attribute_element, attribute_elements, attribute_of, attributes_in, children_events,
    contents_in, directory_element, directory_of, element_events, entries_in, entry_elements,
    extent_element, extent_elements, extent_of, extents_in, file_element, file_of, flag_set,
    index_close, index_element, index_elements, index_events, index_finish, index_flush, index_from,
    index_open, index_run, index_start, index_step, index_text, leaf, lemma_children_concat,
    lemma_children_one, lemma_leaf_events, node, number_or_zero, opt_leaf, partition_or_zero,
    position_elements, root_directory, time_elements, times_of, IndexFault, IndexProgress,
};
use super::label::{bool_spec, bool_text, partition_char, partition_spec, u64_spec};
use super::tree::{
    child_spec, document_tree, opened, tree_start, tree_step, tree_steps, with_child, with_text,
    ElementModel,
};
use super::xml::{
    attribute_content, entity_name, has_single_attribute, no_reference, plain_content,
    plain_document, plain_event, plain_name, plain_value, quoted_value, XmlEvent,
};
use crate::text::{
    decimal_spec, is_digit, is_space, lemma_decimal, lemma_parse_decimal, trimmed, trimmed_start,
};

verus! {

// ---------------------------------------------------------------------------
// Names
// ---------------------------------------------------------------------------

/// The length and the first letter of a name, which tell the names of an index apart.
spec fn tag(name: Seq<char>) -> (nat, char) {
    (name.len(), name[0])
}

/// The names of an index document are plain, and these are their tags.
proof fn lemma_tags()
    ensures
        tag("creator"@) == (7nat, 'c') && plain_name("creator"@),
        tag("volumeuuid"@) == (10nat, 'v') && plain_name("volumeuuid"@),
        tag("generationnumber"@) == (16nat, 'g') && plain_name("generationnumber"@),
        tag("updatetime"@) == (10nat, 'u') && plain_name("updatetime"@),
        tag("location"@) == (8nat, 'l') && plain_name("location"@),
        tag("previousgenerationlocation"@) == (26nat, 'p') && plain_name(
            "previousgenerationlocation"@,
        ),
        tag("allowpolicyupdate"@) == (17nat, 'a') && plain_name("allowpolicyupdate"@),
        tag("highestfileuid"@) == (14nat, 'h') && plain_name("highestfileuid"@),
        tag("volumelockstate"@) == (15nat, 'v') && plain_name("volumelockstate"@),
        tag("directory"@) == (9nat, 'd') && plain_name("directory"@),
        tag("partition"@) == (9nat, 'p') && plain_name("partition"@),
        tag("startblock"@) == (10nat, 's') && plain_name("startblock"@),
        tag("name"@) == (4nat, 'n') && plain_name("name"@),
        tag("readonly"@) == (8nat, 'r') && plain_name("readonly"@),
        tag("fileuid"@) == (7nat, 'f') && plain_name("fileuid"@),
        tag("creationtime"@) == (12nat, 'c') && plain_name("creationtime"@),
        tag("changetime"@) == (10nat, 'c') && plain_name("changetime"@),
        tag("modifytime"@) == (10nat, 'm') && plain_name("modifytime"@),
        tag("accesstime"@) == (10nat, 'a') && plain_name("accesstime"@),
        tag("backuptime"@) == (10nat, 'b') && plain_name("backuptime"@),
        tag("extendedattributes"@) == (18nat, 'e') && plain_name("extendedattributes"@),
        tag("contents"@) == (8nat, 'c') && plain_name("contents"@),
        tag("file"@) == (4nat, 'f') && plain_name("file"@),
        tag("symlink"@) == (7nat, 's') && plain_name("symlink"@),
        tag("length"@) == (6nat, 'l') && plain_name("length"@),
        tag("extentinfo"@) == (10nat, 'e') && plain_name("extentinfo"@),
        tag("extent"@) == (6nat, 'e') && plain_name("extent"@),
        tag("fileoffset"@) == (10nat, 'f') && plain_name("fileoffset"@),
        tag("byteoffset"@) == (10nat, 'b') && plain_name("byteoffset"@),
        tag("bytecount"@) == (9nat, 'b') && plain_name("bytecount"@),
        tag("xattr"@) == (5nat, 'x') && plain_name("xattr"@),
        tag("key"@) == (3nat, 'k') && plain_name("key"@),
        tag("value"@) == (5nat, 'v') && plain_name("value"@),
        tag("type"@) == (4nat, 't') && plain_name("type"@),
        tag("version"@) == (7nat, 'v') && plain_name("version"@),
        tag("ltfsindex"@) == (9nat, 'l') && plain_name("ltfsindex"@),
{
    reveal_strlit("creator");
    reveal_strlit("volumeuuid");
    reveal_strlit("generationnumber");
    reveal_strlit("updatetime");
    reveal_strlit("location");
    reveal_strlit("previousgenerationlocation");
    reveal_strlit("allowpolicyupdate");
    reveal_strlit("highestfileuid");
    reveal_strlit("volumelockstate");
    reveal_strlit("directory");
    reveal_strlit("partition");
    reveal_strlit("startblock");
    reveal_strlit("name");
    reveal_strlit("readonly");
    reveal_strlit("fileuid");
    reveal_strlit("creationtime");
    reveal_strlit("changetime");
    reveal_strlit("modifytime");
    reveal_strlit("accesstime");
    reveal_strlit("backuptime");
    reveal_strlit("extendedattributes");
    reveal_strlit("contents");
    reveal_strlit("file");
    reveal_strlit("symlink");
    reveal_strlit("length");
    reveal_strlit("extentinfo");
    reveal_strlit("extent");
    reveal_strlit("fileoffset");
    reveal_strlit("byteoffset");
    reveal_strlit("bytecount");
    reveal_strlit("xattr");
    reveal_strlit("key");
    reveal_strlit("value");
    reveal_strlit("type");
    reveal_strlit("version");
    reveal_strlit("ltfsindex");
}

// ---------------------------------------------------------------------------
// What an index must be like
// ---------------------------------------------------------------------------

/// Text that is not empty and has no white space around it.
pub open spec fn solid(text: Seq<char>) -> bool {
    text.len() > 0 && trimmed(text) == text
}

pub open spec fn attributes_storable(list: Seq<AttributeEntry>) -> bool {
    forall|i: int|
        #![trigger list[i]]
        0 <= i < list.len() ==> match list[i].value_type {
            Some(t) => plain_value(t),
            None => true,
        }
}

pub open spec fn file_storable(f: FileModel) -> bool {
    &&& attributes_storable(f.extended_attributes)
    &&& forall|i: int| 0 <= i < f.extents.len() ==> (#[trigger] f.extents[i]).partition <= 1
}

pub open spec fn directory_storable(d: DirModel) -> bool
    decreases d, 0nat,
{
    attributes_storable(d.extended_attributes) && entries_storable(d.entries)
}

pub open spec fn entries_storable(entries: Seq<EntryModel>) -> bool
    decreases entries, 0nat,
{
    entries.len() == 0 || (entries_storable(entries.drop_last()) && match entries.last() {
        EntryModel::Directory(d) => directory_storable(d),
        EntryModel::File(f) => file_storable(f),
    })
}

/// The number of `<file>` and `<symlink>` elements in an element, itself included.
pub open spec fn file_elements(e: ElementModel) -> nat
    decreases e, 0nat,
{
    (if e.name == "file"@ || e.name == "symlink"@ {
        1nat
    } else {
        0
    }) + files_among(e.children)
}

pub open spec fn files_among(children: Seq<ElementModel>) -> nat
    decreases children, 0nat,
{
    if children.len() == 0 {
        0
    } else {
        files_among(children.drop_last()) + file_elements(children.last())
    }
}

/// The number of `<directory>` elements in an element, itself included.
pub open spec fn directory_elements(e: ElementModel) -> nat
    decreases e, 0nat,
{
    (if e.name == "directory"@ {
        1nat
    } else {
        0
    }) + directories_among(e.children)
}

pub open spec fn directories_among(children: Seq<ElementModel>) -> nat
    decreases children, 0nat,
{
    if children.len() == 0 {
        0
    } else {
        directories_among(children.drop_last()) + directory_elements(children.last())
    }
}

/// An index that its document gives back: texts are not empty and have no white space
/// around them, the version and the types of extended attributes hold no special
/// character, partitions are 0 or 1, the volume bears the name of the root directory,
/// and the counts are those of the tree.
pub open spec fn index_storable(m: IndexModel) -> bool {
    &&& plain_value(m.version)
    &&& solid(m.creator)
    &&& solid(m.volume_uuid)
    &&& solid(m.update_time)
    &&& m.self_location.partition <= 1
    &&& m.previous_location is Some ==> m.previous_location->0.partition <= 1
    &&& m.volume_lock_state is Some ==> solid(m.volume_lock_state->0)
    &&& m.volume_name == Some(m.root.name)
    &&& solid(m.root.name)
    &&& directory_storable(m.root)
    &&& m.file_count == file_elements(directory_element(m.root))
    &&& m.directory_count + 1 == directory_elements(directory_element(m.root))
}

// ---------------------------------------------------------------------------
// The document is plain
// ---------------------------------------------------------------------------

/// Every tag of the element is plain, and none is named like the root of an index.
spec fn plain_tree(e: ElementModel) -> bool
    decreases e, 0nat,
{
    plain_event(XmlEvent::Start(e.name, e.content)) && e.name != "ltfsindex"@ && plain_trees(
        e.children,
    )
}

spec fn plain_trees(children: Seq<ElementModel>) -> bool
    decreases children, 0nat,
{
    children.len() == 0 || (plain_trees(children.drop_last()) && plain_tree(children.last()))
}

/// Plain and balanced, with no text at either end.
spec fn tagged(events: Seq<XmlEvent>) -> bool {
    &&& plain_events(events)
    &&& balanced(events)
    &&& events.len() > 0 ==> !(events[0] is Text) && !(events.last() is Text)
}

proof fn lemma_tree_tagged(e: ElementModel)
    requires
        plain_event(XmlEvent::Start(e.name, e.content)),
        plain_trees(e.children),
    ensures
        tagged(element_events(e)),
        element_events(e).len() >= 2,
    decreases e, 0nat,
{
    lemma_trees_tagged(e.children);
    lemma_text_plain(e.text);
    let text = text_events(e.text);
    let inner = children_events(e.children);
    lemma_flat_balanced(text);
    lemma_plain_concat(text, inner);
    lemma_balanced_concat(text, inner);
    lemma_balanced_element(e.name, e.content, text + inner);
    let head = seq![XmlEvent::Start(e.name, e.content)];
    let tail = seq![XmlEvent::End(e.name)];
    assert(plain_events(head));
    assert(plain_events(tail));
    lemma_plain_concat(head, text + inner);
    lemma_plain_concat(head + (text + inner), tail);
    assert(element_events(e) =~= head + (text + inner) + tail);
}

proof fn lemma_trees_tagged(children: Seq<ElementModel>)
    requires
        plain_trees(children),
    ensures
        tagged(children_events(children)),
    decreases children, 0nat,
{
    if children.len() == 0 {
        lemma_flat_balanced(children_events(children));
    } else {
        let a = children_events(children.drop_last());
        let b = element_events(children.last());
        lemma_trees_tagged(children.drop_last());
        assert(plain_tree(children.last()));
        lemma_tree_tagged(children.last());
        lemma_plain_concat(a, b);
        lemma_balanced_concat(a, b);
        if a.len() > 0 {
            assert((a + b)[0] == a[0]);
        }
        assert((a + b).last() == b.last());
    }
}

proof fn lemma_trees_concat(a: Seq<ElementModel>, b: Seq<ElementModel>)
    requires
        plain_trees(a),
        plain_trees(b),
    ensures
        plain_trees(a + b),
    decreases b.len(),
{
    if b.len() == 0 {
        assert(a + b =~= a);
    } else {
        assert((a + b).drop_last() =~= a + b.drop_last());
        lemma_trees_concat(a, b.drop_last());
    }
}

proof fn lemma_trees_all(children: Seq<ElementModel>)
    requires
        forall|i: int| 0 <= i < children.len() ==> plain_tree(#[trigger] children[i]),
    ensures
        plain_trees(children),
    decreases children.len(),
{
    if children.len() > 0 {
        assert forall|i: int| 0 <= i < children.drop_last().len() implies plain_tree(
            #[trigger] children.drop_last()[i],
        ) by {
            assert(children.drop_last()[i] == children[i]);
        }
        lemma_trees_all(children.drop_last());
        assert(children.last() == children[children.len() - 1]);
    }
}

proof fn lemma_leaf_tree(name: Seq<char>, text: Seq<char>)
    requires
        plain_name(name),
        name != "ltfsindex"@,
    ensures
        plain_tree(leaf(name, text)),
{
    assert(plain_trees(Seq::empty()));
}

proof fn lemma_opt_leaf_tree(name: Seq<char>, text: Option<Seq<char>>)
    requires
        plain_name(name),
        name != "ltfsindex"@,
    ensures
        plain_trees(opt_leaf(name, text)),
{
    if text is Some {
        lemma_leaf_tree(name, text->0);
    }
    lemma_trees_all(opt_leaf(name, text));
}

proof fn lemma_times_tree(t: TimesModel)
    ensures
        plain_trees(time_elements(t)),
{
    lemma_tags();
    lemma_opt_leaf_tree("creationtime"@, t.creation_time);
    lemma_opt_leaf_tree("changetime"@, t.change_time);
    lemma_opt_leaf_tree("modifytime"@, t.modify_time);
    lemma_opt_leaf_tree("accesstime"@, t.access_time);
    lemma_opt_leaf_tree("backuptime"@, t.backup_time);
    let a = opt_leaf("creationtime"@, t.creation_time);
    let b = a + opt_leaf("changetime"@, t.change_time);
    let c = b + opt_leaf("modifytime"@, t.modify_time);
    let d = c + opt_leaf("accesstime"@, t.access_time);
    lemma_trees_concat(a, opt_leaf("changetime"@, t.change_time));
    lemma_trees_concat(b, opt_leaf("modifytime"@, t.modify_time));
    lemma_trees_concat(c, opt_leaf("accesstime"@, t.access_time));
    lemma_trees_concat(d, opt_leaf("backuptime"@, t.backup_time));
}

proof fn lemma_attributes_tree(list: Seq<AttributeEntry>)
    requires
        attributes_storable(list),
    ensures
        plain_trees(attribute_elements(list)),
{
    lemma_tags();
    let all = list.map_values(|a: AttributeEntry| attribute_element(a));
    assert forall|i: int| 0 <= i < all.len() implies plain_tree(#[trigger] all[i]) by {
        let a = list[i];
        let value = attribute_element(a).children[1];
        lemma_leaf_tree("key"@, a.key);
        if a.value_type is Some {
            let t = a.value_type->0;
            lemma_escaped_plain(t);
            assert(plain_content("value"@, attribute_content("value"@, "type"@, t)));
        }
        assert(plain_trees(Seq::empty()));
        assert(plain_tree(value));
        lemma_trees_all(attribute_element(a).children);
    }
    lemma_trees_all(all);
    assert(list.len() > 0 ==> plain_tree(node("extendedattributes"@, all)));
    lemma_trees_all(attribute_elements(list));
}

proof fn lemma_extents_tree(list: Seq<Extent>)
    ensures
        plain_trees(extent_elements(list)),
{
    lemma_tags();
    let all = list.map_values(|x: Extent| extent_element(x));
    assert forall|i: int| 0 <= i < all.len() implies plain_tree(#[trigger] all[i]) by {
        let x = list[i];
        lemma_leaf_tree("fileoffset"@, decimal_spec(x.file_offset as nat));
        lemma_leaf_tree("partition"@, seq![partition_char(x.partition)]);
        lemma_leaf_tree("startblock"@, decimal_spec(x.start_block as nat));
        lemma_leaf_tree("byteoffset"@, "0"@);
        lemma_leaf_tree("bytecount"@, decimal_spec(x.byte_count as nat));
        lemma_trees_all(extent_element(x).children);
    }
    lemma_trees_all(all);
    assert(list.len() > 0 ==> plain_tree(node("extentinfo"@, all)));
    lemma_trees_all(extent_elements(list));
}

/// What stands before the times in the element of a file.
spec fn file_head(f: FileModel) -> Seq<ElementModel> {
    seq![
        leaf("name"@, f.name),
        leaf("length"@, decimal_spec(f.length as nat)),
        leaf("readonly"@, bool_text(f.readonly)),
        leaf("fileuid"@, decimal_spec(f.fileuid as nat)),
    ]
}

/// What stands before the times in the element of a directory.
spec fn directory_head(d: DirModel) -> Seq<ElementModel> {
    seq![
        leaf("name"@, d.name),
        leaf("readonly"@, bool_text(d.readonly)),
        leaf("fileuid"@, decimal_spec(d.fileuid as nat)),
    ]
}

proof fn lemma_file_tree(f: FileModel)
    requires
        file_storable(f),
    ensures
        plain_tree(file_element(f)),
{
    lemma_tags();
    let a = file_head(f);
    lemma_leaf_tree("name"@, f.name);
    lemma_leaf_tree("length"@, decimal_spec(f.length as nat));
    lemma_leaf_tree("readonly"@, bool_text(f.readonly));
    lemma_leaf_tree("fileuid"@, decimal_spec(f.fileuid as nat));
    lemma_trees_all(a);
    lemma_times_tree(f.times);
    lemma_opt_leaf_tree("symlink"@, f.symlink_target);
    lemma_extents_tree(f.extents);
    lemma_attributes_tree(f.extended_attributes);
    let b = a + time_elements(f.times);
    let c = b + opt_leaf("symlink"@, f.symlink_target);
    let d = c + extent_elements(f.extents);
    lemma_trees_concat(a, time_elements(f.times));
    lemma_trees_concat(b, opt_leaf("symlink"@, f.symlink_target));
    lemma_trees_concat(c, extent_elements(f.extents));
    lemma_trees_concat(d, attribute_elements(f.extended_attributes));
}

proof fn lemma_directory_tree(d: DirModel)
    requires
        directory_storable(d),
    ensures
        plain_tree(directory_element(d)),
    decreases d, 0nat,
{
    lemma_tags();
    let a = directory_head(d);
    lemma_leaf_tree("name"@, d.name);
    lemma_leaf_tree("readonly"@, bool_text(d.readonly));
    lemma_leaf_tree("fileuid"@, decimal_spec(d.fileuid as nat));
    lemma_trees_all(a);
    lemma_times_tree(d.times);
    lemma_attributes_tree(d.extended_attributes);
    lemma_entries_tree(d.entries);
    let contents = node("contents"@, entry_elements(d.entries));
    assert(plain_tree(contents));
    lemma_trees_all(seq![contents]);
    let b = a + time_elements(d.times);
    let c = b + attribute_elements(d.extended_attributes);
    lemma_trees_concat(a, time_elements(d.times));
    lemma_trees_concat(b, attribute_elements(d.extended_attributes));
    lemma_trees_concat(c, seq![contents]);
}

proof fn lemma_entries_tree(entries: Seq<EntryModel>)
    requires
        entries_storable(entries),
    ensures
        plain_trees(entry_elements(entries)),
    decreases entries, 0nat,
{
    if entries.len() > 0 {
        lemma_entries_tree(entries.drop_last());
        match entries.last() {
            EntryModel::Directory(d) => {
                lemma_directory_tree(d);
            },
            EntryModel::File(f) => {
                lemma_file_tree(f);
            },
        }
        let all = entry_elements(entries);
        assert(all.drop_last() =~= entry_elements(entries.drop_last()));
    }
}

// ---------------------------------------------------------------------------
// The elements of the document
// ---------------------------------------------------------------------------

proof fn lemma_tree_concat(stack: Seq<ElementModel>, a: Seq<XmlEvent>, b: Seq<XmlEvent>)
    ensures
        tree_steps(stack, a + b) == tree_steps(tree_steps(stack, a), b),
    decreases b.len(),
{
    if b.len() == 0 {
        assert(a + b =~= a);
    } else {
        assert((a + b).drop_last() =~= a + b.drop_last());
        lemma_tree_concat(stack, a, b.drop_last());
    }
}

proof fn lemma_tree_one(stack: Seq<ElementModel>, event: XmlEvent)
    ensures
        tree_steps(stack, seq![event]) == tree_step(stack, event),
{
    assert(seq![event].drop_last() =~= Seq::<XmlEvent>::empty());
    assert(tree_steps(stack, seq![event].drop_last()) == stack);
}

proof fn lemma_tree_text(stack: Seq<ElementModel>, text: Seq<char>)
    requires
        stack.len() > 0,
    ensures
        tree_steps(stack, text_events(text)) == with_text(stack, text),
    decreases text.len(),
{
    let goal = with_text(stack, text);
    if text.len() == 0 {
        assert(stack.last().text + text =~= stack.last().text);
        assert(goal =~= stack);
    } else {
        let c = text.last();
        let before = text_events(text.drop_last());
        lemma_tree_text(stack, text.drop_last());
        let middle = with_text(stack, text.drop_last());
        assert(with_text(middle, seq![c]) =~= goal) by {
            assert(stack.last().text + text.drop_last() + seq![c] =~= stack.last().text + text);
        }
        match entity_name(c) {
            Some(name) => {
                lemma_reference_value(c);
                assert(text_events(text).drop_last() =~= before);
            },
            None => {
                if before.len() > 0 && before.last() is Text {
                    let x = before.last()->Text_0;
                    lemma_text_plain(text.drop_last());
                    assert(plain_event(before[before.len() - 1]));
                    assert(no_reference(x));
                    assert(no_reference(x.push(c)));
                    assert(text_events(text).drop_last() =~= before.drop_last());
                    let q = tree_steps(stack, before.drop_last());
                    assert(middle == with_text(q, x));
                    assert(q.len() > 0) by {
                        if q.len() == 0 {
                            assert(middle.len() == 0);
                        }
                    }
                    assert(q.last().text + x.push(c) =~= q.last().text + x + seq![c]);
                    assert(with_text(q, x.push(c)) =~= with_text(middle, seq![c]));
                } else {
                    assert(no_reference(seq![c]));
                    assert(text_events(text).drop_last() =~= before);
                }
            },
        }
    }
}

/// `stack` with more children in its innermost element.
spec fn with_children(stack: Seq<ElementModel>, children: Seq<ElementModel>) -> Seq<ElementModel> {
    let top = stack.last();
    stack.drop_last().push(ElementModel { children: top.children + children, ..top })
}

/// Reading the events of an element adds that element.
proof fn lemma_tree_element(stack: Seq<ElementModel>, e: ElementModel)
    requires
        stack.len() > 0,
    ensures
        tree_steps(stack, element_events(e)) == with_child(stack, e),
    decreases e, 0nat,
{
    let start = XmlEvent::Start(e.name, e.content);
    let end = XmlEvent::End(e.name);
    let s1 = stack.push(opened(e.name, e.content));
    lemma_tree_one(stack, start);
    let text = text_events(e.text);
    lemma_tree_concat(stack, seq![start], text);
    lemma_tree_text(s1, e.text);
    let s2 = with_text(s1, e.text);
    lemma_tree_concat(stack, seq![start] + text, children_events(e.children));
    lemma_tree_children(s2, e.children);
    let s3 = with_children(s2, e.children);
    assert(Seq::<char>::empty() + e.text =~= e.text);
    assert(Seq::<ElementModel>::empty() + e.children =~= e.children);
    assert(s3 =~= stack.push(e));
    lemma_tree_concat(stack, seq![start] + text + children_events(e.children), seq![end]);
    lemma_tree_one(s3, end);
    assert(stack.push(e).drop_last() =~= stack);
}

proof fn lemma_tree_children(stack: Seq<ElementModel>, children: Seq<ElementModel>)
    requires
        stack.len() > 0,
    ensures
        tree_steps(stack, children_events(children)) == with_children(stack, children),
    decreases children, 0nat,
{
    if children.len() == 0 {
        assert(stack.last().children + children =~= stack.last().children);
        assert(with_children(stack, children) =~= stack);
    } else {
        let a = children_events(children.drop_last());
        let b = element_events(children.last());
        lemma_tree_concat(stack, a, b);
        lemma_tree_children(stack, children.drop_last());
        let middle = with_children(stack, children.drop_last());
        lemma_tree_element(middle, children.last());
        assert((stack.last().children + children.drop_last()).push(children.last())
            =~= stack.last().children + children);
        assert(with_child(middle, children.last()) =~= with_children(stack, children));
    }
}

/// The document of an index has one element.
proof fn lemma_index_tree(m: IndexModel)
    ensures
        ({
            let document = document_tree(index_events(m).push(XmlEvent::Eof));
            document.children == seq![index_element(m)]
        }),
{
    let events = index_events(m).push(XmlEvent::Eof);
    let s0 = tree_start();
    let declaration = seq![XmlEvent::Declaration];
    lemma_tree_one(s0, XmlEvent::Declaration);
    lemma_tree_concat(s0, declaration, line_break());
    reveal_strlit("\n");
    assert(no_reference("\n"@));
    lemma_tree_one(s0, XmlEvent::Text("\n"@));
    let s1 = with_text(s0, "\n"@);
    lemma_tree_concat(s0, declaration + line_break(), element_events(index_element(m)));
    lemma_tree_element(s1, index_element(m));
    let s2 = with_child(s1, index_element(m));
    lemma_tree_concat(
        s0,
        declaration + line_break() + element_events(index_element(m)),
        line_break(),
    );
    lemma_tree_one(s2, XmlEvent::Text("\n"@));
    let s3 = with_text(s2, "\n"@);
    assert(events.drop_last() =~= index_events(m));
    assert(tree_steps(s0, events) == s3);
    assert(s3[0].children =~= seq![index_element(m)]);
}

// ---------------------------------------------------------------------------
// The directory tree
// ---------------------------------------------------------------------------

proof fn lemma_child_concat(a: Seq<ElementModel>, b: Seq<ElementModel>, name: Seq<char>)
    ensures
        child_spec(a + b, name) == (match child_spec(a, name) {
            Some(c) => Some(c),
            None => child_spec(b, name),
        }),
    decreases a.len(),
{
    if a.len() == 0 {
        assert(a + b =~= b);
    } else {
        assert((a + b).drop_first() =~= a.drop_first() + b);
        lemma_child_concat(a.drop_first(), b, name);
    }
}

proof fn lemma_child_one(e: ElementModel, name: Seq<char>)
    ensures
        child_spec(seq![e], name) == (if e.name == name {
            Some(e)
        } else {
            None
        }),
{
    assert(seq![e].drop_first() =~= Seq::<ElementModel>::empty());
    assert(child_spec(seq![e].drop_first(), name) is None);
}

proof fn lemma_child_opt(leaf_name: Seq<char>, text: Option<Seq<char>>, name: Seq<char>)
    ensures
        child_spec(opt_leaf(leaf_name, text), name) == (if leaf_name == name && text is Some {
            Some(leaf(leaf_name, text->0))
        } else {
            None
        }),
{
    match text {
        Some(t) => {
            lemma_child_one(leaf(leaf_name, t), name);
        },
        None => {
            assert(child_spec(Seq::<ElementModel>::empty(), name) is None);
        },
    }
}

/// Looking among the times.
proof fn lemma_child_times(t: TimesModel, name: Seq<char>)
    ensures
        child_spec(time_elements(t), name) == (if name == "creationtime"@ {
            opt_child(name, t.creation_time)
        } else if name == "changetime"@ {
            opt_child(name, t.change_time)
        } else if name == "modifytime"@ {
            opt_child(name, t.modify_time)
        } else if name == "accesstime"@ {
            opt_child(name, t.access_time)
        } else if name == "backuptime"@ {
            opt_child(name, t.backup_time)
        } else {
            None
        }),
{
    lemma_tags();
    let a = opt_leaf("creationtime"@, t.creation_time);
    let b = a + opt_leaf("changetime"@, t.change_time);
    let c = b + opt_leaf("modifytime"@, t.modify_time);
    let d = c + opt_leaf("accesstime"@, t.access_time);
    lemma_child_opt("creationtime"@, t.creation_time, name);
    lemma_child_opt("changetime"@, t.change_time, name);
    lemma_child_opt("modifytime"@, t.modify_time, name);
    lemma_child_opt("accesstime"@, t.access_time, name);
    lemma_child_opt("backuptime"@, t.backup_time, name);
    lemma_child_concat(a, opt_leaf("changetime"@, t.change_time), name);
    lemma_child_concat(b, opt_leaf("modifytime"@, t.modify_time), name);
    lemma_child_concat(c, opt_leaf("accesstime"@, t.access_time), name);
    lemma_child_concat(d, opt_leaf("backuptime"@, t.backup_time), name);
}

spec fn opt_child(name: Seq<char>, text: Option<Seq<char>>) -> Option<ElementModel> {
    match text {
        Some(t) => Some(leaf(name, t)),
        None => None,
    }
}

proof fn lemma_child_attributes(list: Seq<AttributeEntry>, name: Seq<char>)
    ensures
        child_spec(attribute_elements(list), name) == (if list.len() > 0 && name
            == "extendedattributes"@ {
            Some(attribute_elements(list)[0])
        } else {
            None
        }),
{
    if list.len() > 0 {
        lemma_child_one(attribute_elements(list)[0], name);
        assert(attribute_elements(list) =~= seq![attribute_elements(list)[0]]);
    } else {
        assert(child_spec(Seq::<ElementModel>::empty(), name) is None);
    }
}

proof fn lemma_child_extents(list: Seq<Extent>, name: Seq<char>)
    ensures
        child_spec(extent_elements(list), name) == (if list.len() > 0 && name == "extentinfo"@ {
            Some(extent_elements(list)[0])
        } else {
            None
        }),
{
    if list.len() > 0 {
        lemma_child_one(extent_elements(list)[0], name);
        assert(extent_elements(list) =~= seq![extent_elements(list)[0]]);
    } else {
        assert(child_spec(Seq::<ElementModel>::empty(), name) is None);
    }
}

/// Text without white space at its ends is its own trimmed form.
proof fn lemma_trimmed(text: Seq<char>)
    requires
        text.len() > 0,
        !is_space(text[0]),
        !is_space(text.last()),
    ensures
        trimmed(text) == text,
{
    assert(trimmed_start(text) == text);
}

proof fn lemma_number(n: u64)
    ensures
        number_or_zero(Some(decimal_spec(n as nat))) == n,
        solid(decimal_spec(n as nat)),
        u64_spec(decimal_spec(n as nat)) == Some(n),
{
    let text = decimal_spec(n as nat);
    lemma_decimal(n as nat);
    lemma_parse_decimal(n as nat, u64::MAX as nat);
    assert(is_digit(text[0]));
    assert(is_digit(text[text.len() - 1]));
    lemma_trimmed(text);
}

proof fn lemma_partition(n: u8)
    requires
        n <= 1,
    ensures
        partition_or_zero(Some(seq![partition_char(n)])) == n,
        solid(seq![partition_char(n)]),
        partition_spec(seq![partition_char(n)]) == Some(n),
{
    reveal_strlit("a");
    reveal_strlit("b");
    reveal_strlit("0");
    reveal_strlit("1");
    assert(seq!['a'] =~= "a"@);
    assert(seq!['b'] =~= "b"@);
    assert(seq!['b'][0] != "a"@[0]);
    assert(seq!['b'][0] != "0"@[0]);
    lemma_trimmed(seq![partition_char(n)]);
}

proof fn lemma_flag(b: bool)
    ensures
        flag_set(Some(bool_text(b))) == b,
        solid(bool_text(b)),
        bool_spec(bool_text(b)) == Some(b),
{
    reveal_strlit("true");
    reveal_strlit("false");
    assert("true"@.len() != "false"@.len());
    lemma_trimmed(bool_text(b));
}

proof fn lemma_attribute_read(a: AttributeEntry)
    requires
        a.value_type is Some ==> plain_value(a.value_type->0),
    ensures
        attribute_of(attribute_element(a)) == a,
        attribute_element(a).name == "xattr"@,
{
    lemma_tags();
    let children = attribute_element(a).children;
    let key = leaf("key"@, a.key);
    let value = children[1];
    assert(children =~= seq![key] + seq![value]);
    lemma_child_concat(seq![key], seq![value], "key"@);
    lemma_child_concat(seq![key], seq![value], "value"@);
    lemma_child_one(key, "key"@);
    lemma_child_one(key, "value"@);
    lemma_child_one(value, "value"@);
    if a.value_type is Some {
        let t = a.value_type->0;
        lemma_escaped_plain(t);
        let content = attribute_content("value"@, "type"@, t);
        reveal_strlit(" ");
        reveal_strlit("=\"");
        reveal_strlit("\"");
        assert(quoted_value("value"@, content, "type"@) =~= t);
        assert(has_single_attribute("value"@, content, "type"@));
        assert(content.len() != "value"@.len());
    }
    assert(attribute_of(attribute_element(a)) =~= a);
}

proof fn lemma_attributes_read(list: Seq<AttributeEntry>)
    requires
        attributes_storable(list),
    ensures
        attributes_in(list.map_values(|a: AttributeEntry| attribute_element(a))) == list,
    decreases list.len(),
{
    let all = list.map_values(|a: AttributeEntry| attribute_element(a));
    if list.len() == 0 {
        assert(attributes_in(all) =~= list);
    } else {
        let shorter = list.drop_last();
        assert forall|i: int|
            #![trigger shorter[i]]
            0 <= i < shorter.len() implies match shorter[i].value_type {
            Some(t) => plain_value(t),
            None => true,
        } by {
            assert(shorter[i] == list[i]);
        }
        lemma_attributes_read(shorter);
        assert(all.drop_last() =~= shorter.map_values(|a: AttributeEntry| attribute_element(a)));
        assert(list[list.len() - 1] == list.last());
        lemma_attribute_read(list.last());
        assert(attributes_in(all) =~= list);
    }
}

proof fn lemma_extent_read(x: Extent)
    requires
        x.partition <= 1,
    ensures
        extent_of(extent_element(x)) == x,
        extent_element(x).name == "extent"@,
{
    lemma_tags();
    lemma_number(x.file_offset);
    lemma_number(x.start_block);
    lemma_number(x.byte_count);
    lemma_partition(x.partition);
    let children = extent_element(x).children;
    let e = children;
    assert(e.drop_first()[0] == e[1]);
    assert(e.drop_first().drop_first()[0] == e[2]);
    assert(e.drop_first().drop_first().drop_first()[0] == e[3]);
    assert(e.drop_first().drop_first().drop_first().drop_first()[0] == e[4]);
    reveal_with_fuel(child_spec, 6);
    assert(child_spec(e, "fileoffset"@) == Some(e[0]));
    assert(child_spec(e, "partition"@) == Some(e[1]));
    assert(child_spec(e, "startblock"@) == Some(e[2]));
    assert(child_spec(e, "bytecount"@) == Some(e[4]));
}

proof fn lemma_extents_read(list: Seq<Extent>)
    requires
        forall|i: int| 0 <= i < list.len() ==> (#[trigger] list[i]).partition <= 1,
    ensures
        extents_in(list.map_values(|x: Extent| extent_element(x))) == list,
    decreases list.len(),
{
    let all = list.map_values(|x: Extent| extent_element(x));
    if list.len() == 0 {
        assert(extents_in(all) =~= list);
    } else {
        let shorter = list.drop_last();
        assert forall|i: int| 0 <= i < shorter.len() implies (#[trigger] shorter[i]).partition
            <= 1 by {
            assert(shorter[i] == list[i]);
        }
        lemma_extents_read(shorter);
        assert(all.drop_last() =~= shorter.map_values(|x: Extent| extent_element(x)));
        assert(list[list.len() - 1] == list.last());
        lemma_extent_read(list.last());
        assert(extents_in(all) =~= list);
    }
}

/// Looking among the children of the element of a file.
proof fn lemma_child_file(f: FileModel, name: Seq<char>)
    ensures
        child_spec(file_element(f).children, name) == (if name == "name"@ {
            Some(leaf("name"@, f.name))
        } else if name == "length"@ {
            Some(leaf("length"@, decimal_spec(f.length as nat)))
        } else if name == "readonly"@ {
            Some(leaf("readonly"@, bool_text(f.readonly)))
        } else if name == "fileuid"@ {
            Some(leaf("fileuid"@, decimal_spec(f.fileuid as nat)))
        } else {
            match child_spec(time_elements(f.times), name) {
                Some(c) => Some(c),
                None => match child_spec(opt_leaf("symlink"@, f.symlink_target), name) {
                    Some(c) => Some(c),
                    None => match child_spec(extent_elements(f.extents), name) {
                        Some(c) => Some(c),
                        None => child_spec(attribute_elements(f.extended_attributes), name),
                    },
                },
            }
        }),
{
    let a = file_head(f);
    let b = a + time_elements(f.times);
    let c = b + opt_leaf("symlink"@, f.symlink_target);
    let d = c + extent_elements(f.extents);
    lemma_child_concat(a, time_elements(f.times), name);
    lemma_child_concat(b, opt_leaf("symlink"@, f.symlink_target), name);
    lemma_child_concat(c, extent_elements(f.extents), name);
    lemma_child_concat(d, attribute_elements(f.extended_attributes), name);
    assert(a.drop_first()[0] == a[1]);
    assert(a.drop_first().drop_first()[0] == a[2]);
    assert(a.drop_first().drop_first().drop_first()[0] == a[3]);
    reveal_with_fuel(child_spec, 6);
}

proof fn lemma_times_read(t: TimesModel, e: ElementModel)
    requires
        child_spec(e.children, "creationtime"@) == child_spec(time_elements(t), "creationtime"@),
        child_spec(e.children, "changetime"@) == child_spec(time_elements(t), "changetime"@),
        child_spec(e.children, "modifytime"@) == child_spec(time_elements(t), "modifytime"@),
        child_spec(e.children, "accesstime"@) == child_spec(time_elements(t), "accesstime"@),
        child_spec(e.children, "backuptime"@) == child_spec(time_elements(t), "backuptime"@),
    ensures
        times_of(e) == t,
{
    lemma_tags();
    lemma_child_times(t, "creationtime"@);
    lemma_child_times(t, "changetime"@);
    lemma_child_times(t, "modifytime"@);
    lemma_child_times(t, "accesstime"@);
    lemma_child_times(t, "backuptime"@);
    assert(times_of(e) =~= t);
}

proof fn lemma_file_times(f: FileModel, name: Seq<char>)
    requires
        name == "creationtime"@ || name == "changetime"@ || name == "modifytime"@ || name
            == "accesstime"@ || name == "backuptime"@,
    ensures
        child_spec(file_element(f).children, name) == child_spec(time_elements(f.times), name),
{
    lemma_tags();
    lemma_child_file(f, name);
    lemma_child_times(f.times, name);
    lemma_child_opt("symlink"@, f.symlink_target, name);
    lemma_child_extents(f.extents, name);
    lemma_child_attributes(f.extended_attributes, name);
}

proof fn lemma_file_read(f: FileModel)
    requires
        file_storable(f),
    ensures
        file_of(file_element(f)) == f,
{
    lemma_tags();
    let e = file_element(f);
    lemma_child_file(f, "name"@);
    lemma_child_file(f, "length"@);
    lemma_child_file(f, "readonly"@);
    lemma_child_file(f, "fileuid"@);
    lemma_number(f.length);
    lemma_number(f.fileuid);
    lemma_flag(f.readonly);
    lemma_file_times(f, "creationtime"@);
    lemma_file_times(f, "changetime"@);
    lemma_file_times(f, "modifytime"@);
    lemma_file_times(f, "accesstime"@);
    lemma_file_times(f, "backuptime"@);
    lemma_times_read(f.times, e);
    lemma_child_file(f, "symlink"@);
    lemma_child_times(f.times, "symlink"@);
    lemma_child_opt("symlink"@, f.symlink_target, "symlink"@);
    lemma_child_extents(f.extents, "symlink"@);
    lemma_child_attributes(f.extended_attributes, "symlink"@);
    lemma_child_file(f, "extentinfo"@);
    lemma_child_times(f.times, "extentinfo"@);
    lemma_child_opt("symlink"@, f.symlink_target, "extentinfo"@);
    lemma_child_extents(f.extents, "extentinfo"@);
    lemma_child_attributes(f.extended_attributes, "extentinfo"@);
    lemma_extents_read(f.extents);
    lemma_child_file(f, "extendedattributes"@);
    lemma_child_times(f.times, "extendedattributes"@);
    lemma_child_opt("symlink"@, f.symlink_target, "extendedattributes"@);
    lemma_child_extents(f.extents, "extendedattributes"@);
    lemma_child_attributes(f.extended_attributes, "extendedattributes"@);
    lemma_attributes_read(f.extended_attributes);
    assert(f.extents.len() == 0 ==> f.extents =~= Seq::<Extent>::empty());
    assert(f.extended_attributes.len() == 0 ==> f.extended_attributes =~= Seq::<
        AttributeEntry,
    >::empty());
    assert(file_of(e) =~= f);
}

/// Looking among the children of the element of a directory.
proof fn lemma_child_directory(d: DirModel, name: Seq<char>)
    ensures
        child_spec(directory_element(d).children, name) == (if name == "name"@ {
            Some(leaf("name"@, d.name))
        } else if name == "readonly"@ {
            Some(leaf("readonly"@, bool_text(d.readonly)))
        } else if name == "fileuid"@ {
            Some(leaf("fileuid"@, decimal_spec(d.fileuid as nat)))
        } else {
            match child_spec(time_elements(d.times), name) {
                Some(c) => Some(c),
                None => match child_spec(attribute_elements(d.extended_attributes), name) {
                    Some(c) => Some(c),
                    None => if name == "contents"@ {
                        Some(node("contents"@, entry_elements(d.entries)))
                    } else {
                        None
                    },
                },
            }
        }),
{
    let a = directory_head(d);
    let b = a + time_elements(d.times);
    let c = b + attribute_elements(d.extended_attributes);
    let contents = node("contents"@, entry_elements(d.entries));
    lemma_child_concat(a, time_elements(d.times), name);
    lemma_child_concat(b, attribute_elements(d.extended_attributes), name);
    lemma_child_concat(c, seq![contents], name);
    lemma_child_one(contents, name);
    assert(a.drop_first()[0] == a[1]);
    assert(a.drop_first().drop_first()[0] == a[2]);
    reveal_with_fuel(child_spec, 5);
}

proof fn lemma_directory_times(d: DirModel, name: Seq<char>)
    requires
        name == "creationtime"@ || name == "changetime"@ || name == "modifytime"@ || name
            == "accesstime"@ || name == "backuptime"@,
    ensures
        child_spec(directory_element(d).children, name) == child_spec(time_elements(d.times), name),
{
    lemma_tags();
    lemma_child_directory(d, name);
    lemma_child_times(d.times, name);
    lemma_child_attributes(d.extended_attributes, name);
}

proof fn lemma_contents_child(children: Seq<ElementModel>)
    ensures
        contents_in(children) == (match child_spec(children, "contents"@) {
            Some(c) => entries_in(c.children),
            None => Seq::empty(),
        }),
    decreases children.len(),
{
    if children.len() > 0 && children[0].name != "contents"@ {
        lemma_contents_child(children.drop_first());
    }
}

proof fn lemma_directory_read(d: DirModel)
    requires
        directory_storable(d),
    ensures
        directory_of(directory_element(d)) == d,
    decreases d, 0nat,
{
    lemma_tags();
    let e = directory_element(d);
    lemma_child_directory(d, "name"@);
    lemma_child_directory(d, "readonly"@);
    lemma_child_directory(d, "fileuid"@);
    lemma_number(d.fileuid);
    lemma_flag(d.readonly);
    lemma_directory_times(d, "creationtime"@);
    lemma_directory_times(d, "changetime"@);
    lemma_directory_times(d, "modifytime"@);
    lemma_directory_times(d, "accesstime"@);
    lemma_directory_times(d, "backuptime"@);
    lemma_times_read(d.times, e);
    lemma_child_directory(d, "extendedattributes"@);
    lemma_child_times(d.times, "extendedattributes"@);
    lemma_child_attributes(d.extended_attributes, "extendedattributes"@);
    lemma_attributes_read(d.extended_attributes);
    lemma_child_directory(d, "contents"@);
    lemma_child_times(d.times, "contents"@);
    lemma_child_attributes(d.extended_attributes, "contents"@);
    lemma_contents_child(e.children);
    lemma_entries_read(d.entries);
    assert(d.extended_attributes.len() == 0 ==> d.extended_attributes =~= Seq::<
        AttributeEntry,
    >::empty());
    assert(directory_of(e) =~= d);
}

proof fn lemma_entries_read(entries: Seq<EntryModel>)
    requires
        entries_storable(entries),
    ensures
        entries_in(entry_elements(entries)) == entries,
    decreases entries, 0nat,
{
    lemma_tags();
    if entries.len() == 0 {
        assert(entries_in(entry_elements(entries)) =~= entries);
    } else {
        lemma_entries_read(entries.drop_last());
        let all = entry_elements(entries);
        assert(all.drop_last() =~= entry_elements(entries.drop_last()));
        match entries.last() {
            EntryModel::Directory(d) => {
                lemma_directory_read(d);
                assert(directory_element(d).name == "directory"@);
            },
            EntryModel::File(f) => {
                lemma_file_read(f);
                assert(file_element(f).name == "file"@);
            },
        }
        assert(entries_in(all) =~= entries);
    }
}

// ---------------------------------------------------------------------------
// The summary
// ---------------------------------------------------------------------------

spec fn ok(p: IndexProgress) -> Result<IndexProgress, IndexFault> {
    Ok(p)
}

/// A run of events, from the first to the last.
#[verifier::opaque]
spec fn index_steps(p: IndexProgress, events: Seq<XmlEvent>) -> Result<IndexProgress, IndexFault>
    decreases events.len(),
{
    if events.len() == 0 {
        Ok(p)
    } else {
        match index_steps(p, events.drop_last()) {
            Ok(q) => index_step(q, events.last()),
            Err(fault) => Err(fault),
        }
    }
}

proof fn lemma_steps_none(p: IndexProgress)
    ensures
        index_steps(p, Seq::empty()) == ok(p),
{
    reveal(index_steps);
}

proof fn lemma_steps_concat(p: IndexProgress, a: Seq<XmlEvent>, b: Seq<XmlEvent>)
    ensures
        index_steps(p, a + b) == (match index_steps(p, a) {
            Ok(q) => index_steps(q, b),
            Err(fault) => Err(fault),
        }),
    decreases b.len(),
{
    reveal(index_steps);
    if b.len() == 0 {
        assert(a + b =~= a);
    } else {
        assert((a + b).drop_last() =~= a + b.drop_last());
        lemma_steps_concat(p, a, b.drop_last());
    }
}

proof fn lemma_steps_one(p: IndexProgress, event: XmlEvent)
    ensures
        index_steps(p, seq![event]) == index_step(p, event),
{
    reveal(index_steps);
    assert(seq![event].drop_last() =~= Seq::<XmlEvent>::empty());
    assert(index_steps(p, seq![event].drop_last()) == ok(p));
}

proof fn lemma_run_steps(p: IndexProgress, a: Seq<XmlEvent>, rest: Seq<XmlEvent>)
    requires
        forall|i: int| 0 <= i < a.len() ==> !((#[trigger] a[i]) is Eof),
    ensures
        index_run(p, a + rest) == (match index_steps(p, a) {
            Ok(q) => index_run(q, rest),
            Err(fault) => Err(fault),
        }),
    decreases a.len(),
{
    reveal(index_steps);
    if a.len() == 0 {
        assert(a + rest =~= rest);
    } else {
        let tail = seq![a.last()] + rest;
        assert(a.drop_last() + tail =~= a + rest);
        lemma_run_steps(p, a.drop_last(), tail);
        assert(tail.drop_first() =~= rest);
    }
}

proof fn lemma_steps_text(p: IndexProgress, text: Seq<char>)
    ensures
        index_steps(p, text_events(text)) == ok(IndexProgress { run: p.run + text, ..p }),
    decreases text.len(),
{
    reveal(index_steps);
    let goal = IndexProgress { run: p.run + text, ..p };
    if text.len() == 0 {
        assert(p.run + text =~= p.run);
    } else {
        let c = text.last();
        let before = text_events(text.drop_last());
        lemma_steps_text(p, text.drop_last());
        let middle = IndexProgress { run: p.run + text.drop_last(), ..p };
        assert(middle.run + seq![c] =~= goal.run);
        match entity_name(c) {
            Some(name) => {
                lemma_reference_value(c);
                assert(text_events(text).drop_last() =~= before);
            },
            None => {
                if before.len() > 0 && before.last() is Text {
                    let x = before.last()->Text_0;
                    lemma_text_plain(text.drop_last());
                    assert(plain_event(before[before.len() - 1]));
                    assert(no_reference(x));
                    assert(no_reference(x.push(c)));
                    assert(text_events(text).drop_last() =~= before.drop_last());
                    let q = index_steps(p, before.drop_last())->Ok_0;
                    assert(middle == IndexProgress { run: q.run + x, ..q });
                    assert(q.run + x.push(c) =~= goal.run);
                } else {
                    assert(no_reference(seq![c]));
                    assert(text_events(text).drop_last() =~= before);
                }
            },
        }
    }
}

/// Nothing is left of a run of white space.
proof fn lemma_flush_empty(p: IndexProgress)
    requires
        p.run == Seq::<char>::empty() || p.run == "\n"@,
    ensures
        index_flush(p) == ok(IndexProgress { run: Seq::empty(), ..p }),
{
    reveal_strlit("\n");
    let run = p.run;
    if run.len() == 1 {
        assert(is_space(run[0]));
        assert(run.drop_first() =~= Seq::<char>::empty());
        assert(trimmed_start(run) == trimmed_start(Seq::<char>::empty()));
    }
    assert(trimmed(run).len() == 0);
}

/// In the tree, behind the name of the volume, text does not matter.
spec fn below(p: IndexProgress) -> bool {
    p.in_directory && p.section is Directory && p.volume_name is Some && p.dir_depth >= 1
}

proof fn lemma_flush_below(p: IndexProgress)
    requires
        below(p),
    ensures
        index_flush(p) == ok(IndexProgress { run: Seq::empty(), ..p }),
{
}

/// `p` with the elements counted, right behind an end tag.
spec fn counted(p: IndexProgress, files: nat, directories: nat) -> IndexProgress {
    IndexProgress {
        file_count: p.file_count + files,
        directory_count: p.directory_count + directories,
        elem: Seq::empty(),
        run: Seq::empty(),
        ..p
    }
}

/// In the tree an element is counted, and nothing else changes.
proof fn lemma_steps_element(p: IndexProgress, e: ElementModel)
    requires
        below(p),
        plain_tree(e),
    ensures
        index_steps(p, element_events(e)) == ok(
            counted(p, file_elements(e), directory_elements(e)),
        ),
    decreases e, 0nat,
{
    lemma_tags();
    let start = XmlEvent::Start(e.name, e.content);
    let end = XmlEvent::End(e.name);
    lemma_steps_one(p, start);
    lemma_flush_below(p);
    let p1 = index_open(IndexProgress { run: Seq::empty(), ..p }, e.name, e.content);
    assert(index_step(p, start) == ok(p1));
    assert(below(p1));
    let text = text_events(e.text);
    lemma_steps_concat(p, seq![start], text);
    lemma_steps_text(p1, e.text);
    let p2 = IndexProgress { run: p1.run + e.text, ..p1 };
    lemma_steps_concat(p, seq![start] + text, children_events(e.children));
    lemma_steps_children(p2, e.children);
    let p3 = if e.children.len() == 0 {
        p2
    } else {
        counted(p2, files_among(e.children), directories_among(e.children))
    };
    assert(below(p3));
    lemma_steps_concat(p, seq![start] + text + children_events(e.children), seq![end]);
    lemma_steps_one(p3, end);
    lemma_flush_below(p3);
    let p4 = index_close(IndexProgress { run: Seq::empty(), ..p3 }, e.name);
    assert(index_step(p3, end) == ok(p4));
    assert(p4 =~= counted(p, file_elements(e), directory_elements(e)));
}

proof fn lemma_steps_children(p: IndexProgress, children: Seq<ElementModel>)
    requires
        below(p),
        plain_trees(children),
    ensures
        index_steps(p, children_events(children)) == ok(
            if children.len() == 0 {
                p
            } else {
                counted(p, files_among(children), directories_among(children))
            },
        ),
    decreases children, 0nat,
{
    if children.len() == 0 {
        assert(children_events(children) =~= Seq::<XmlEvent>::empty());
        lemma_steps_none(p);
    } else {
        let a = children_events(children.drop_last());
        let b = element_events(children.last());
        lemma_steps_children(p, children.drop_last());
        lemma_steps_concat(p, a, b);
        let q = index_steps(p, a)->Ok_0;
        lemma_steps_element(q, children.last());
        if children.drop_last().len() == 0 {
            assert(files_among(children.drop_last()) == 0);
            assert(directories_among(children.drop_last()) == 0);
        }
    }
}

proof fn lemma_trees_tail(children: Seq<ElementModel>)
    requires
        plain_trees(children),
        children.len() > 0,
    ensures
        plain_tree(children[0]),
        plain_trees(children.drop_first()),
    decreases children.len(),
{
    if children.len() > 1 {
        lemma_trees_tail(children.drop_last());
        assert(children.drop_first().drop_last() =~= children.drop_last().drop_first());
        assert(children.drop_first().last() == children.last());
        assert(children.drop_last()[0] == children[0]);
    } else {
        assert(children.last() == children[0]);
        assert(children.drop_first() =~= Seq::<ElementModel>::empty());
    }
}

proof fn lemma_among_tail(children: Seq<ElementModel>)
    requires
        children.len() > 0,
    ensures
        files_among(children) == file_elements(children[0]) + files_among(children.drop_first()),
        directories_among(children) == directory_elements(children[0]) + directories_among(
            children.drop_first(),
        ),
    decreases children.len(),
{
    if children.len() > 1 {
        lemma_among_tail(children.drop_last());
        assert(children.drop_first().drop_last() =~= children.drop_last().drop_first());
        assert(children.drop_first().last() == children.last());
        assert(children.drop_last()[0] == children[0]);
    } else {
        assert(children.last() == children[0]);
        assert(children.drop_first() =~= Seq::<ElementModel>::empty());
        assert(children.drop_last() =~= Seq::<ElementModel>::empty());
        assert(files_among(children.drop_last()) == 0);
        assert(directories_among(children.drop_last()) == 0);
    }
}

/// The root directory gives the volume its name, and its elements are counted.
proof fn lemma_steps_root(p: IndexProgress, d: DirModel)
    requires
        p.section is Root,
        !p.in_directory,
        p.run == Seq::<char>::empty(),
        p.file_count == 0,
        p.directory_count == 0,
        solid(d.name),
        directory_storable(d),
    ensures
        index_steps(p, element_events(directory_element(d))) == ok(
            IndexProgress {
                directory_seen: true,
                volume_name: Some(d.name),
                file_count: file_elements(directory_element(d)),
                directory_count: (directory_elements(directory_element(d)) - 1) as nat,
                dir_depth: 0,
                elem: Seq::empty(),
                ..p
            },
        ),
{
    lemma_tags();
    let e = directory_element(d);
    lemma_directory_tree(d);
    let start = XmlEvent::Start(e.name, e.content);
    let end = XmlEvent::End(e.name);
    let first = leaf("name"@, d.name);
    let rest = e.children.drop_first();
    assert(e.children[0] == first);
    assert(e.children =~= seq![first] + rest);
    lemma_trees_tail(e.children);
    lemma_among_tail(e.children);
    lemma_children_concat(seq![first], rest);
    lemma_children_one(first);
    lemma_leaf_events("name"@, d.name);
    let name_events = field("name"@, d.name);
    let rest_events = children_events(rest);
    assert(text_events(Seq::<char>::empty()) =~= Seq::<XmlEvent>::empty());
    assert(element_events(e) =~= seq![start] + name_events + rest_events + seq![end]);
    // The start tag.
    lemma_steps_one(p, start);
    lemma_flush_empty(p);
    let p1 = index_open(p, e.name, e.content);
    assert(IndexProgress { run: Seq::empty(), ..p } =~= p);
    assert(index_step(p, start) == ok(p1));
    assert(p1.volume_name is None);
    // The name.
    lemma_steps_field(p1, "name"@, d.name);
    let p2 = IndexProgress { volume_name: Some(d.name), elem: Seq::empty(), ..p1 };
    lemma_steps_concat(p, seq![start], name_events);
    assert(file_elements(first) == 0) by {
        assert(files_among(Seq::<ElementModel>::empty()) == 0);
    }
    assert(directory_elements(first) == 0) by {
        assert(directories_among(Seq::<ElementModel>::empty()) == 0);
    }
    // The rest.
    lemma_steps_children(p2, rest);
    lemma_steps_concat(p, seq![start] + name_events, rest_events);
    assert(files_among(Seq::<ElementModel>::empty()) == 0);
    assert(directories_among(Seq::<ElementModel>::empty()) == 0);
    let p3 = IndexProgress {
        file_count: files_among(rest),
        directory_count: directories_among(rest),
        ..p2
    };
    if rest.len() == 0 {
        assert(rest =~= Seq::<ElementModel>::empty());
        assert(p3 =~= p2);
    } else {
        assert(p3 =~= counted(p2, files_among(rest), directories_among(rest)));
    }
    // The end tag.
    lemma_steps_concat(p, seq![start] + name_events + rest_events, seq![end]);
    lemma_steps_one(p3, end);
    lemma_flush_below(p3);
    assert(IndexProgress { run: Seq::empty(), ..p3 } =~= p3);
}

/// A field is taken at its end tag.
proof fn lemma_steps_field(p: IndexProgress, name: Seq<char>, text: Seq<char>)
    requires
        p.run == Seq::<char>::empty(),
        solid(text),
        index_open(p, name, name) == (IndexProgress { elem: name, ..p }),
    ensures
        index_steps(p, field(name, text)) == (match index_text(
            IndexProgress { elem: name, ..p },
            text,
        ) {
            Ok(q) => ok(index_close(q, name)),
            Err(fault) => Err(fault),
        }),
{
    let start = XmlEvent::Start(name, name);
    let end = XmlEvent::End(name);
    lemma_steps_one(p, start);
    lemma_flush_empty(p);
    assert(IndexProgress { run: Seq::empty(), ..p } =~= p);
    let p1 = IndexProgress { elem: name, ..p };
    lemma_steps_concat(p, seq![start], text_events(text));
    lemma_steps_text(p1, text);
    let p2 = IndexProgress { run: text, ..p1 };
    assert(Seq::<char>::empty() + text =~= text);
    lemma_steps_concat(p, seq![start] + text_events(text), seq![end]);
    lemma_steps_one(p2, end);
    assert(IndexProgress { run: Seq::empty(), ..p2 } =~= p1);
    assert(index_flush(p2) == index_text(p1, text));
}

/// The fields of the summary, at the top of the document.
spec fn at_top(p: IndexProgress) -> bool {
    p.section is Root && !p.in_directory && p.run == Seq::<char>::empty()
}

proof fn lemma_top_texts(p: IndexProgress, m: IndexModel)
    requires
        at_top(p),
        index_storable(m),
    ensures
        index_steps(p, element_events(leaf("creator"@, m.creator))) == ok(
            IndexProgress { creator: Some(m.creator), elem: Seq::empty(), ..p },
        ),
        index_steps(p, element_events(leaf("volumeuuid"@, m.volume_uuid))) == ok(
            IndexProgress { volume_uuid: Some(m.volume_uuid), elem: Seq::empty(), ..p },
        ),
        index_steps(p, element_events(leaf("updatetime"@, m.update_time))) == ok(
            IndexProgress { update_time: Some(m.update_time), elem: Seq::empty(), ..p },
        ),
        m.volume_lock_state is Some ==> index_steps(
            p,
            element_events(leaf("volumelockstate"@, m.volume_lock_state->0)),
        ) == ok(
            IndexProgress { volume_lock_state: m.volume_lock_state, elem: Seq::empty(), ..p },
        ),
{
    lemma_tags();
    lemma_leaf_events("creator"@, m.creator);
    lemma_leaf_events("volumeuuid"@, m.volume_uuid);
    lemma_leaf_events("updatetime"@, m.update_time);
    lemma_steps_field(p, "creator"@, m.creator);
    lemma_steps_field(p, "volumeuuid"@, m.volume_uuid);
    lemma_steps_field(p, "updatetime"@, m.update_time);
    if m.volume_lock_state is Some {
        lemma_leaf_events("volumelockstate"@, m.volume_lock_state->0);
        lemma_steps_field(p, "volumelockstate"@, m.volume_lock_state->0);
    }
}

proof fn lemma_top_numbers(p: IndexProgress, m: IndexModel)
    requires
        at_top(p),
    ensures
        index_steps(
            p,
            element_events(leaf("generationnumber"@, decimal_spec(m.generation as nat))),
        ) == ok(IndexProgress { generation: Some(m.generation), elem: Seq::empty(), ..p }),
        index_steps(
            p,
            element_events(leaf("allowpolicyupdate"@, bool_text(m.allow_policy_update))),
        ) == ok(
            IndexProgress {
                allow_policy_update: Some(m.allow_policy_update),
                elem: Seq::empty(),
                ..p
            },
        ),
        m.highest_file_uid is Some ==> index_steps(
            p,
            element_events(leaf("highestfileuid"@, decimal_spec(m.highest_file_uid->0 as nat))),
        ) == ok(IndexProgress { highest_file_uid: m.highest_file_uid, elem: Seq::empty(), ..p }),
{
    lemma_tags();
    let text = decimal_spec(m.generation as nat);
    lemma_number(m.generation);
    lemma_leaf_events("generationnumber"@, text);
    lemma_steps_field(p, "generationnumber"@, text);
    lemma_flag(m.allow_policy_update);
    lemma_leaf_events("allowpolicyupdate"@, bool_text(m.allow_policy_update));
    lemma_steps_field(p, "allowpolicyupdate"@, bool_text(m.allow_policy_update));
    if m.highest_file_uid is Some {
        let uid = decimal_spec(m.highest_file_uid->0 as nat);
        lemma_number(m.highest_file_uid->0);
        lemma_leaf_events("highestfileuid"@, uid);
        lemma_steps_field(p, "highestfileuid"@, uid);
    }
}

/// The events of a location element.
proof fn lemma_position_events(name: Seq<char>, at: TapePos)
    ensures
        element_events(node(name, position_elements(at))) == seq![XmlEvent::Start(name, name)]
            + field("partition"@, seq![partition_char(at.partition)]) + field(
            "startblock"@,
            decimal_spec(at.startblock as nat),
        ) + seq![XmlEvent::End(name)],
{
    let a = leaf("partition"@, seq![partition_char(at.partition)]);
    let b = leaf("startblock"@, decimal_spec(at.startblock as nat));
    assert(position_elements(at) =~= seq![a] + seq![b]);
    lemma_children_concat(seq![a], seq![b]);
    lemma_children_one(a);
    lemma_children_one(b);
    lemma_leaf_events("partition"@, seq![partition_char(at.partition)]);
    lemma_leaf_events("startblock"@, decimal_spec(at.startblock as nat));
    assert(text_events(Seq::<char>::empty()) =~= Seq::<XmlEvent>::empty());
    assert(element_events(node(name, position_elements(at))) =~= seq![XmlEvent::Start(name, name)]
        + field("partition"@, seq![partition_char(at.partition)]) + field(
        "startblock"@,
        decimal_spec(at.startblock as nat),
    ) + seq![XmlEvent::End(name)]);
}

proof fn lemma_top_location(p: IndexProgress, at: TapePos, previous: bool)
    requires
        at_top(p),
        at.partition <= 1,
    ensures
        previous ==> index_steps(
            p,
            element_events(node("previousgenerationlocation"@, position_elements(at))),
        ) == ok(
            IndexProgress {
                prev_partition: Some(at.partition),
                prev_block: Some(at.startblock),
                elem: Seq::empty(),
                ..p
            },
        ),
        !previous ==> index_steps(p, element_events(node("location"@, position_elements(at))))
            == ok(
            IndexProgress {
                self_partition: Some(at.partition),
                self_block: Some(at.startblock),
                elem: Seq::empty(),
                ..p
            },
        ),
{
    lemma_tags();
    let name = if previous {
        "previousgenerationlocation"@
    } else {
        "location"@
    };
    lemma_position_events(name, at);
    lemma_number(at.startblock);
    lemma_partition(at.partition);
    let part = seq![partition_char(at.partition)];
    let block = decimal_spec(at.startblock as nat);
    let start = XmlEvent::Start(name, name);
    let end = XmlEvent::End(name);
    lemma_steps_one(p, start);
    lemma_flush_empty(p);
    assert(IndexProgress { run: Seq::empty(), ..p } =~= p);
    let p1 = index_open(p, name, name);
    lemma_steps_field(p1, "partition"@, part);
    let p2 = if previous {
        IndexProgress { prev_partition: Some(at.partition), elem: Seq::empty(), ..p1 }
    } else {
        IndexProgress { self_partition: Some(at.partition), elem: Seq::empty(), ..p1 }
    };
    lemma_steps_field(p2, "startblock"@, block);
    let p3 = if previous {
        IndexProgress { prev_block: Some(at.startblock), ..p2 }
    } else {
        IndexProgress { self_block: Some(at.startblock), ..p2 }
    };
    let a = seq![start] + field("partition"@, part);
    lemma_steps_concat(p, seq![start], field("partition"@, part));
    lemma_steps_concat(p, a, field("startblock"@, block));
    lemma_steps_concat(p, a + field("startblock"@, block), seq![end]);
    lemma_steps_one(p3, end);
    lemma_flush_empty(p3);
    assert(IndexProgress { run: Seq::empty(), ..p3 } =~= p3);
}

/// One more element at the top of the document.
proof fn lemma_steps_next(
    p: IndexProgress,
    done: Seq<ElementModel>,
    q: IndexProgress,
    e: ElementModel,
    r: IndexProgress,
)
    requires
        index_steps(p, children_events(done)) == ok(q),
        index_steps(q, element_events(e)) == ok(r),
    ensures
        index_steps(p, children_events(done + seq![e])) == ok(r),
{
    lemma_children_concat(done, seq![e]);
    lemma_children_one(e);
    lemma_steps_concat(p, children_events(done), element_events(e));
}

/// What the summary is behind the whole root element.
spec fn summary(p: IndexProgress, m: IndexModel) -> IndexProgress {
    IndexProgress {
        creator: Some(m.creator),
        volume_uuid: Some(m.volume_uuid),
        generation: Some(m.generation),
        update_time: Some(m.update_time),
        self_partition: Some(m.self_location.partition),
        self_block: Some(m.self_location.startblock),
        prev_partition: match m.previous_location {
            Some(at) => Some(at.partition),
            None => p.prev_partition,
        },
        prev_block: match m.previous_location {
            Some(at) => Some(at.startblock),
            None => p.prev_block,
        },
        allow_policy_update: Some(m.allow_policy_update),
        highest_file_uid: match m.highest_file_uid {
            Some(uid) => Some(uid),
            None => p.highest_file_uid,
        },
        volume_lock_state: match m.volume_lock_state {
            Some(state) => Some(state),
            None => p.volume_lock_state,
        },
        volume_name: Some(m.root.name),
        directory_seen: true,
        file_count: file_elements(directory_element(m.root)),
        directory_count: (directory_elements(directory_element(m.root)) - 1) as nat,
        dir_depth: 0,
        elem: Seq::empty(),
        ..p
    }
}

proof fn lemma_steps_index(p: IndexProgress, m: IndexModel)
    requires
        at_top(p),
        p.file_count == 0,
        p.directory_count == 0,
        index_storable(m),
    ensures
        index_steps(p, children_events(index_elements(m))) == ok(summary(p, m)),
{
    let none = Seq::<ElementModel>::empty();
    assert(children_events(none) =~= Seq::<XmlEvent>::empty());
    lemma_steps_none(p);
    let e1 = leaf("creator"@, m.creator);
    lemma_top_texts(p, m);
    let p1 = IndexProgress { creator: Some(m.creator), elem: Seq::empty(), ..p };
    lemma_steps_next(p, none, p, e1, p1);
    let c1 = none + seq![e1];
    let e2 = leaf("volumeuuid"@, m.volume_uuid);
    lemma_top_texts(p1, m);
    let p2 = IndexProgress { volume_uuid: Some(m.volume_uuid), ..p1 };
    lemma_steps_next(p, c1, p1, e2, p2);
    let c2 = c1 + seq![e2];
    let e3 = leaf("generationnumber"@, decimal_spec(m.generation as nat));
    lemma_top_numbers(p2, m);
    let p3 = IndexProgress { generation: Some(m.generation), ..p2 };
    lemma_steps_next(p, c2, p2, e3, p3);
    let c3 = c2 + seq![e3];
    let e4 = leaf("updatetime"@, m.update_time);
    lemma_top_texts(p3, m);
    let p4 = IndexProgress { update_time: Some(m.update_time), ..p3 };
    lemma_steps_next(p, c3, p3, e4, p4);
    let c4 = c3 + seq![e4];
    let e5 = node("location"@, position_elements(m.self_location));
    lemma_top_location(p4, m.self_location, false);
    let p5 = IndexProgress {
        self_partition: Some(m.self_location.partition),
        self_block: Some(m.self_location.startblock),
        ..p4
    };
    lemma_steps_next(p, c4, p4, e5, p5);
    let c5 = c4 + seq![e5];
    let (c6, p6) = match m.previous_location {
        Some(at) => {
            let e6 = node("previousgenerationlocation"@, position_elements(at));
            lemma_top_location(p5, at, true);
            let p6 = IndexProgress {
                prev_partition: Some(at.partition),
                prev_block: Some(at.startblock),
                ..p5
            };
            lemma_steps_next(p, c5, p5, e6, p6);
            (c5 + seq![e6], p6)
        },
        None => (c5, p5),
    };
    let e7 = leaf("allowpolicyupdate"@, bool_text(m.allow_policy_update));
    lemma_top_numbers(p6, m);
    let p7 = IndexProgress { allow_policy_update: Some(m.allow_policy_update), ..p6 };
    lemma_steps_next(p, c6, p6, e7, p7);
    let c7 = c6 + seq![e7];
    let (c8, p8) = match m.highest_file_uid {
        Some(uid) => {
            let e8 = leaf("highestfileuid"@, decimal_spec(uid as nat));
            lemma_top_numbers(p7, m);
            let p8 = IndexProgress { highest_file_uid: Some(uid), ..p7 };
            lemma_steps_next(p, c7, p7, e8, p8);
            (c7 + seq![e8], p8)
        },
        None => (c7, p7),
    };
    let (c9, p9) = match m.volume_lock_state {
        Some(state) => {
            let e9 = leaf("volumelockstate"@, state);
            lemma_top_texts(p8, m);
            let p9 = IndexProgress { volume_lock_state: Some(state), ..p8 };
            lemma_steps_next(p, c8, p8, e9, p9);
            (c8 + seq![e9], p9)
        },
        None => (c8, p8),
    };
    let e10 = directory_element(m.root);
    lemma_steps_root(p9, m.root);
    let p10 = IndexProgress {
        directory_seen: true,
        volume_name: Some(m.root.name),
        file_count: file_elements(e10),
        directory_count: (directory_elements(e10) - 1) as nat,
        dir_depth: 0,
        elem: Seq::empty(),
        ..p9
    };
    lemma_steps_next(p, c9, p9, e10, p10);
    assert(c9 + seq![e10] =~= index_elements(m));
    assert(p10 =~= summary(p, m));
}

proof fn lemma_index_plain(m: IndexModel)
    requires
        index_storable(m),
    ensures
        plain_document(index_events(m)),
{
    lemma_tags();
    lemma_escaped_plain(m.version);
    let content = attribute_content("ltfsindex"@, "version"@, m.version);
    assert(plain_content("ltfsindex"@, content));
    lemma_directory_tree(m.root);
    let head = seq![
        leaf("creator"@, m.creator),
        leaf("volumeuuid"@, m.volume_uuid),
        leaf("generationnumber"@, decimal_spec(m.generation as nat)),
        leaf("updatetime"@, m.update_time),
        node("location"@, position_elements(m.self_location)),
    ];
    lemma_leaf_tree("creator"@, m.creator);
    lemma_leaf_tree("volumeuuid"@, m.volume_uuid);
    lemma_leaf_tree("generationnumber"@, decimal_spec(m.generation as nat));
    lemma_leaf_tree("updatetime"@, m.update_time);
    lemma_position_tree("location"@, m.self_location);
    lemma_trees_all(head);
    let previous = match m.previous_location {
        Some(at) => seq![node("previousgenerationlocation"@, position_elements(at))],
        None => Seq::empty(),
    };
    if m.previous_location is Some {
        lemma_position_tree("previousgenerationlocation"@, m.previous_location->0);
    }
    lemma_trees_all(previous);
    let allow = seq![leaf("allowpolicyupdate"@, bool_text(m.allow_policy_update))];
    lemma_leaf_tree("allowpolicyupdate"@, bool_text(m.allow_policy_update));
    lemma_trees_all(allow);
    let highest = match m.highest_file_uid {
        Some(uid) => seq![leaf("highestfileuid"@, decimal_spec(uid as nat))],
        None => Seq::empty(),
    };
    if m.highest_file_uid is Some {
        lemma_leaf_tree("highestfileuid"@, decimal_spec(m.highest_file_uid->0 as nat));
    }
    lemma_trees_all(highest);
    lemma_opt_leaf_tree("volumelockstate"@, m.volume_lock_state);
    lemma_trees_all(seq![directory_element(m.root)]);
    lemma_trees_concat(head, previous);
    lemma_trees_concat(head + previous, allow);
    lemma_trees_concat(head + previous + allow, highest);
    lemma_trees_concat(
        head + previous + allow + highest,
        opt_leaf("volumelockstate"@, m.volume_lock_state),
    );
    lemma_trees_concat(
        head + previous + allow + highest + opt_leaf("volumelockstate"@, m.volume_lock_state),
        seq![directory_element(m.root)],
    );
    lemma_tree_tagged(index_element(m));
    assert(piece(element_events(index_element(m)), false, false)) by {
        reveal(piece);
    }
    lemma_document(element_events(index_element(m)));
}

proof fn lemma_position_tree(name: Seq<char>, at: TapePos)
    requires
        plain_name(name),
        name != "ltfsindex"@,
    ensures
        plain_tree(node(name, position_elements(at))),
{
    lemma_tags();
    lemma_leaf_tree("partition"@, seq![partition_char(at.partition)]);
    lemma_leaf_tree("startblock"@, decimal_spec(at.startblock as nat));
    lemma_trees_all(position_elements(at));
}

proof fn lemma_index_steps(m: IndexModel)
    requires
        index_storable(m),
    ensures
        ({
            let p = IndexProgress {
                root_seen: true,
                version: Some(m.version),
                elem: "ltfsindex"@,
                ..index_start()
            };
            index_steps(index_start(), index_events(m)) == ok(
                IndexProgress { run: "\n"@, ..summary(p, m) },
            )
        }),
{
    lemma_tags();
    let p0 = index_start();
    let declaration = seq![XmlEvent::Declaration];
    lemma_steps_one(p0, XmlEvent::Declaration);
    lemma_flush_empty(p0);
    assert(IndexProgress { run: Seq::empty(), ..p0 } =~= p0);
    reveal_strlit("\n");
    assert(no_reference("\n"@));
    lemma_steps_concat(p0, declaration, line_break());
    lemma_steps_one(p0, XmlEvent::Text("\n"@));
    assert(Seq::<char>::empty() + "\n"@ =~= "\n"@);
    let p1 = IndexProgress { run: "\n"@, ..p0 };
    // The start tag.
    let content = attribute_content("ltfsindex"@, "version"@, m.version);
    lemma_escaped_plain(m.version);
    reveal_strlit(" ");
    reveal_strlit("=\"");
    reveal_strlit("\"");
    assert(quoted_value("ltfsindex"@, content, "version"@) =~= m.version);
    assert(has_single_attribute("ltfsindex"@, content, "version"@));
    assert(content.len() != "ltfsindex"@.len());
    let start = XmlEvent::Start("ltfsindex"@, content);
    let end = XmlEvent::End("ltfsindex"@);
    lemma_steps_one(p1, start);
    lemma_flush_empty(p1);
    assert(IndexProgress { run: Seq::empty(), ..p1 } =~= p0);
    let p2 = index_open(p0, "ltfsindex"@, content);
    // The elements.
    let inner = children_events(index_elements(m));
    lemma_steps_index(p2, m);
    let p3 = summary(p2, m);
    lemma_steps_concat(p1, seq![start], inner);
    lemma_steps_concat(p1, seq![start] + inner, seq![end]);
    lemma_steps_one(p3, end);
    lemma_flush_empty(p3);
    assert(IndexProgress { run: Seq::empty(), ..p3 } =~= p3);
    let root = element_events(index_element(m));
    assert(text_events(Seq::<char>::empty()) =~= Seq::<XmlEvent>::empty());
    assert(root =~= seq![start] + inner + seq![end]);
    assert(index_close(p3, "ltfsindex"@) =~= p3);
    // The last line break.
    lemma_steps_concat(p0, declaration + line_break(), root);
    lemma_steps_concat(p0, declaration + line_break() + root, line_break());
    lemma_steps_one(p3, XmlEvent::Text("\n"@));
}

/// Looking for the root directory among the elements of an index.
proof fn lemma_root_child(m: IndexModel)
    ensures
        child_spec(index_elements(m), "directory"@) == Some(directory_element(m.root)),
{
    lemma_tags();
    let all = index_elements(m);
    let before = all.drop_last();
    assert(all =~= before + seq![directory_element(m.root)]);
    assert forall|i: int| 0 <= i < before.len() implies (#[trigger] before[i]).name
        != "directory"@ by {
        let n = before[i].name;
        assert(n == "creator"@ || n == "volumeuuid"@ || n == "generationnumber"@ || n
            == "updatetime"@ || n == "location"@ || n == "previousgenerationlocation"@ || n
            == "allowpolicyupdate"@ || n == "highestfileuid"@ || n == "volumelockstate"@);
    }
    lemma_no_child(before, "directory"@);
    lemma_child_concat(before, seq![directory_element(m.root)], "directory"@);
    lemma_child_one(directory_element(m.root), "directory"@);
}

proof fn lemma_no_child(children: Seq<ElementModel>, name: Seq<char>)
    requires
        forall|i: int| 0 <= i < children.len() ==> (#[trigger] children[i]).name != name,
    ensures
        child_spec(children, name) is None,
    decreases children.len(),
{
    if children.len() > 0 {
        assert(children[0].name != name);
        let rest = children.drop_first();
        assert forall|i: int| 0 <= i < rest.len() implies (#[trigger] rest[i]).name != name by {
            assert(rest[i] == children[i + 1]);
        }
        lemma_no_child(rest, name);
    }
}

/// The document of an index is plain, and its events stand for that index.
pub proof fn lemma_index_document(m: IndexModel)
    requires
        index_storable(m),
    ensures
        plain_document(index_events(m)),
        index_from(index_events(m).push(XmlEvent::Eof)) == Ok::<IndexModel, IndexFault>(m),
{
    lemma_index_plain(m);
    lemma_index_steps(m);
    lemma_index_tree(m);
    lemma_root_child(m);
    lemma_directory_read(m.root);
    let events = index_events(m);
    let rest = seq![XmlEvent::Eof];
    assert(events.push(XmlEvent::Eof) =~= events + rest);
    assert forall|i: int| 0 <= i < events.len() implies !((#[trigger] events[i]) is Eof) by {
        assert(plain_event(events[i]));
    }
    lemma_run_steps(index_start(), events, rest);
    let last = index_steps(index_start(), events)->Ok_0;
    lemma_flush_empty(last);
    let document = document_tree(events.push(XmlEvent::Eof));
    assert(document.children[0] == index_element(m));
    assert(root_directory(document) == m.root);
    let p = IndexProgress { run: Seq::empty(), ..last };
    assert(index_finish(p, m.root)->Ok_0 =~= m);
}

} // verus!
