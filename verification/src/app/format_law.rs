//! What a format writes is read back: the identifiers, the labels and the indexes of a new
//! volume.
use vstd::multiset::*;
use vstd::prelude::*;
use vstd::string::*;
use vstd::utf8::*;

use super::format::{
    format_fault, hex_run, initial_index, initial_label, uuid_text, versioned, FormatRequest,
};
use crate::ltfs::index::IndexModel;
use crate::ltfs::index_law::{
    directories_among, directory_elements, file_elements, files_among, solid,
};
use crate::ltfs::index_xml::{
    directory_element, entry_elements, index_events, index_from, index_xml, IndexFault,
};
use crate::ltfs::label::{
    ansi_label_spec, ansi_record, is_barcode, is_barcode_byte, label_events, label_from,
    label_reads_back, label_xml, until_nul, LabelFault, LabelModel,
};
use crate::ltfs::mam::{is_hex_byte, is_uuid};
use crate::ltfs::stored_law::{recounted, stored_index_reads_back};
use crate::ltfs::uid_law::{entries_uids, tree_uids, uids_sound};
use crate::ltfs::tree::ElementModel;
use crate::ltfs::xml::{read_plainly, XmlEvent};
use crate::text::{
    hex_spec, is_hex_char, is_space, lemma_hex_shape, pow16, trimmed, trimmed_end, trimmed_start,
};

verus! {

proof fn lemma_trimmed_text(text: Seq<char>)
    requires
        text.len() > 0,
        !is_space(text[0]),
        !is_space(text.last()),
    ensures
        trimmed(text) == text,
{
    assert(trimmed_start(text) == text);
    assert(trimmed_end(text) == text);
}

pub proof fn lemma_until_nul(bytes: Seq<u8>)
    requires
        forall|i: int| 0 <= i < bytes.len() ==> #[trigger] bytes[i] != 0,
    ensures
        until_nul(bytes) == Seq::new(bytes.len(), |i: int| bytes[i] as char),
    decreases bytes.len(),
{
    if bytes.len() > 0 {
        let rest = bytes.drop_first();
        assert forall|i: int| 0 <= i < rest.len() implies #[trigger] rest[i] != 0 by {
            assert(rest[i] == bytes[i + 1]);
        }
        lemma_until_nul(rest);
    }
    assert(until_nul(bytes) =~= Seq::new(bytes.len(), |i: int| bytes[i] as char));
}

/// A text is given by its bytes, where all of them are ASCII.
pub proof fn lemma_ascii_text(text: Seq<char>)
    requires
        forall|i: int| 0 <= i < encode_utf8(text).len() ==> #[trigger] encode_utf8(text)[i] < 128,
    ensures
        text == Seq::new(encode_utf8(text).len(), |i: int| encode_utf8(text)[i] as char),
{
    let bytes = encode_utf8(text);
    let same = Seq::new(bytes.len(), |i: int| bytes[i] as char);
    assert(is_ascii_chars(same)) by {
        assert forall|i: int| 0 <= i < same.len() implies '\0' <= #[trigger] same[i] <= '\u{7f}' by {
            assert(bytes[i] < 128);
        }
    }
    is_ascii_chars_encode_utf8(same);
    assert(encode_utf8(same) =~= bytes) by {
        assert forall|i: int| 0 <= i < bytes.len() implies encode_utf8(same)[i] == bytes[i] by {
            assert(same[i] as u8 == bytes[i]);
        }
    }
    encode_utf8_decode_utf8(text);
    encode_utf8_decode_utf8(same);
}

/// The ANSI label of a volume gives its serial back.
pub proof fn ansi_label_reads_back(barcode: Seq<char>)
    requires
        is_barcode(barcode),
    ensures
        ansi_label_spec(ansi_record(barcode)) == Some(barcode),
{
    let bytes = encode_utf8(barcode);
    let record = ansi_record(barcode);
    assert forall|i: int| 0 <= i < bytes.len() implies #[trigger] bytes[i] < 128 by {
        assert(is_barcode_byte(bytes[i]));
    }
    lemma_ascii_text(barcode);
    assert(record.subrange(4, 10) =~= bytes);
    assert forall|i: int| 0 <= i < bytes.len() implies #[trigger] bytes[i] != 0 by {
        assert(is_barcode_byte(bytes[i]));
    }
    lemma_until_nul(bytes);
    assert(until_nul(bytes) == barcode);
    assert(is_barcode_byte(bytes[0]) && is_barcode_byte(bytes[5]));
    lemma_trimmed_text(barcode);
}

proof fn lemma_hex_run(bytes: Seq<u8>, from: int, to: int)
    requires
        0 <= from <= to <= bytes.len(),
    ensures
        hex_run(bytes, from, to).len() == 2 * (to - from),
        forall|i: int|
            0 <= i < 2 * (to - from) ==> is_hex_char(#[trigger] hex_run(bytes, from, to)[i]),
    decreases to - from,
{
    if from < to {
        lemma_hex_run(bytes, from, to - 1);
        reveal_with_fuel(pow16, 3);
        lemma_hex_shape(bytes[to - 1] as nat, 2);
        let head = hex_run(bytes, from, to - 1);
        let all = hex_run(bytes, from, to);
        assert forall|i: int| 0 <= i < 2 * (to - from) implies is_hex_char(#[trigger] all[i]) by {
            if i < head.len() {
                assert(all[i] == head[i]);
            } else {
                assert(all[i] == hex_spec(bytes[to - 1] as nat, 2)[i - head.len()]);
            }
        }
    }
}

/// The identifier that is made of random bytes has the form of a UUID.
pub proof fn random_uuid_is_well_formed(random: Seq<u8>)
    requires
        random.len() == 16,
    ensures
        is_uuid(uuid_text(random)),
        uuid_text(random).len() == 36,
{
    let b = versioned(random);
    let text = uuid_text(random);
    lemma_hex_run(b, 0, 4);
    lemma_hex_run(b, 4, 6);
    lemma_hex_run(b, 6, 8);
    lemma_hex_run(b, 8, 10);
    lemma_hex_run(b, 10, 16);
    reveal_strlit("-");
    let dash = "-"@;
    assert(dash.len() == 1 && dash[0] == '-');
    assert(text.len() == 36);
    assert forall|i: int| 0 <= i < 36 implies (if i == 8 || i == 13 || i == 18 || i == 23 {
        #[trigger] text[i] == '-'
    } else {
        is_hex_char(text[i])
    }) by {
        if i < 8 {
            assert(text[i] == hex_run(b, 0, 4)[i]);
        } else if i == 8 || i == 13 || i == 18 || i == 23 {
            assert(text[i] == dash[0]);
        } else if i < 13 {
            assert(text[i] == hex_run(b, 4, 6)[i - 9]);
        } else if i < 18 {
            assert(text[i] == hex_run(b, 6, 8)[i - 14]);
        } else if i < 23 {
            assert(text[i] == hex_run(b, 8, 10)[i - 19]);
        } else {
            assert(text[i] == hex_run(b, 10, 16)[i - 24]);
        }
    }
    assert(is_ascii_chars(text)) by {
        assert forall|i: int| 0 <= i < text.len() implies '\0' <= #[trigger] text[i] <= '\u{7f}' by {
            assert(text[i] == '-' || is_hex_char(text[i]));
        }
    }
    is_ascii_chars_encode_utf8(text);
    let bytes = encode_utf8(text);
    assert forall|i: int| 0 <= i < 36 implies (if i == 8 || i == 13 || i == 18 || i == 23 {
        #[trigger] bytes[i] == 45
    } else {
        is_hex_byte(bytes[i])
    }) by {
        assert(text[i] as u8 == bytes[i]);
    }
}

/// An element without children that stands for no entry.
pub open spec fn is_plain_leaf(e: ElementModel) -> bool {
    e.children.len() == 0 && e.name != "file"@ && e.name != "symlink"@ && e.name != "directory"@
}

proof fn lemma_leaves_count_nothing(children: Seq<ElementModel>)
    requires
        forall|i: int| 0 <= i < children.len() ==> is_plain_leaf(#[trigger] children[i]),
    ensures
        files_among(children) == 0,
        directories_among(children) == 0,
    decreases children.len(),
{
    if children.len() > 0 {
        let rest = children.drop_last();
        assert forall|i: int| 0 <= i < rest.len() implies is_plain_leaf(#[trigger] rest[i]) by {
            assert(rest[i] == children[i]);
        }
        lemma_leaves_count_nothing(rest);
        assert(is_plain_leaf(children[children.len() - 1]));
        assert(files_among(children.last().children) == 0);
        assert(directories_among(children.last().children) == 0);
        assert(file_elements(children.last()) == 0);
        assert(directory_elements(children.last()) == 0);
    }
}

proof fn lemma_empty_root(m: IndexModel)
    requires
        m.root.entries.len() == 0,
        m.root.extended_attributes.len() == 0,
    ensures
        file_elements(directory_element(m.root)) == 0,
        directory_elements(directory_element(m.root)) == 1,
{
    let element = directory_element(m.root);
    reveal_strlit("file");
    reveal_strlit("symlink");
    reveal_strlit("directory");
    reveal_strlit("name");
    reveal_strlit("readonly");
    reveal_strlit("fileuid");
    reveal_strlit("creationtime");
    reveal_strlit("changetime");
    reveal_strlit("modifytime");
    reveal_strlit("accesstime");
    reveal_strlit("backuptime");
    reveal_strlit("contents");
    assert("file"@.len() == 4 && "symlink"@.len() == 7 && "directory"@.len() == 9);
    assert("name"@[0] != "file"@[0]);
    assert("readonly"@.len() == 8 && "contents"@.len() == 8);
    assert("fileuid"@[0] != "symlink"@[0]);
    assert("creationtime"@.len() == 12);
    assert("changetime"@.len() == 10 && "modifytime"@.len() == 10);
    assert("accesstime"@.len() == 10 && "backuptime"@.len() == 10);
    assert(entry_elements(m.root.entries).len() == 0);
    let children = element.children;
    assert forall|i: int| 0 <= i < children.len() implies is_plain_leaf(#[trigger] children[i]) by {
    }
    lemma_leaves_count_nothing(children);
}

/// The labels and the indexes of a new volume are read back as they were written, from
/// both partitions: from the events of their documents, and from whatever events a reader
/// gives of the texts that are written.
pub proof fn new_volume_reads_back(
    r: FormatRequest,
    uuid: Seq<char>,
    time: Seq<char>,
    version: Seq<char>,
    partition: u8,
)
    requires
        format_fault(r) is None,
        trimmed(r.volume_name) == r.volume_name,
        solid(uuid),
        solid(time),
        partition <= 1,
    ensures
        ({
            let label = initial_label(r, uuid, time, version, partition);
            let index = initial_index(r, uuid, time, version, partition);
            &&& forall|events: Seq<XmlEvent>| #[trigger]
                read_plainly(label_xml(label), events) ==> label_from(events) == Ok::<
                    LabelModel,
                    LabelFault,
                >(label)
            &&& forall|events: Seq<XmlEvent>| #[trigger]
                read_plainly(index_xml(index), events) ==> index_from(events) == Ok::<
                    IndexModel,
                    IndexFault,
                >(index)
            &&& label_from(label_events(label).push(XmlEvent::Eof)) == Ok::<
                LabelModel,
                LabelFault,
            >(label)
            &&& index_from(index_events(index).push(XmlEvent::Eof)) == Ok::<
                IndexModel,
                IndexFault,
            >(index)
        }),
{
    let label = initial_label(r, uuid, time, version, partition);
    let index = initial_index(r, uuid, time, version, partition);
    reveal_strlit("2.4.0");
    reveal_strlit("tapecpy ");
    reveal_strlit(" - Linux - format");
    reveal_strlit("unlocked");
    let creator = label.creator;
    assert(creator.len() > 0 && creator[0] == 't');
    assert(creator.last() == 't');
    lemma_trimmed_text(creator);
    lemma_trimmed_text("unlocked"@);
    label_reads_back(label);
    lemma_empty_root(index);
    stored_index_reads_back(index);
    assert(recounted(index) =~= index);
}

/// The index of a new volume numbers its root and nothing else, and tells that number: the
/// first write starts from a sound index.
pub proof fn new_volume_is_numbered(
    r: FormatRequest,
    uuid: Seq<char>,
    time: Seq<char>,
    version: Seq<char>,
    partition: u8,
)
    ensures
        ({
            let index = initial_index(r, uuid, time, version, partition);
            &&& uids_sound(index)
            &&& tree_uids(index.root).count(index.highest_file_uid->0) == 1
            &&& index.root.entries.len() == 0
            &&& index.self_location.partition == partition
        }),
{
    let index = initial_index(r, uuid, time, version, partition);
    assert(entries_uids(index.root.entries) =~= Multiset::<u64>::empty());
    assert(tree_uids(index.root) =~= Multiset::singleton(1u64));
}

} // verus!
