//! LTFS labels.
//!
//! Each partition begins with
//!
//! ```text
//! [ANSI VOL1 label, 80 bytes][file mark][LTFS XML label][file mark]
//! ```
//!
//! Bytes 24 to 27 of the ANSI label hold the signature "LTFS", bytes 4 to 9 the
//! six-character volume serial. The XML label names the creator, the format time, the
//! volume, the partition it stands in, and the roles of the partitions.
use vstd::prelude::*;
use vstd::string::*;
use vstd::utf8::*;

use super::document::{
    element, field, lemma_append, lemma_append_line, lemma_break_piece, lemma_document,
    lemma_element_piece, lemma_escaped_plain, lemma_field_piece, lemma_raw_field_piece,
    lemma_reference_value, lemma_text_plain, line_break, raw_field, text_events, XmlWriter,
};
use super::xml::{
    attribute_content, attribute_value, attribute_value_spec, decode_general_ref, entity_name,
    escaped, events_of, has_single_attribute, no_reference, quoted_value, plain_content, plain_document, plain_event,
    plain_name, plain_value, read_items, read_plainly, reference_value, rendered, text_value, unescape_text,
    xml_events, XmlEvent, XmlItem,
};
use crate::text::{
    cat2, decimal, decimal_spec, is_digit, lemma_decimal, lemma_parse_decimal, opt_view, parse_unsigned, parse_unsigned_spec, same, string_of,
    trim, trimmed,
};

verus! {

/// The length of the ANSI VOL1 label.
pub const ANSI_LABEL_LEN: usize = 80;

/// What an ANSI VOL1 label says: the volume serial.
#[derive(Debug, Clone, PartialEq, Eq)]
pub struct AnsiLabel {
    pub barcode: String,
}

/// The bytes up to the first zero, as characters.
pub open spec fn until_nul(bytes: Seq<u8>) -> Seq<char>
    decreases bytes.len(),
{
    if bytes.len() == 0 || bytes[0] == 0 {
        Seq::empty()
    } else {
        seq![bytes[0] as char] + until_nul(bytes.drop_first())
    }
}

/// A fixed-width text field: what stands before the first zero byte, trimmed.
pub open spec fn ascii_field_spec(bytes: Seq<u8>) -> Seq<char> {
    trimmed(until_nul(bytes))
}

/// The bytes up to the first zero, as a text.
pub fn text_until_nul(bytes: &[u8]) -> (text: String)
    ensures
        text@ == until_nul(bytes@),
{
    let mut chars: Vec<char> = Vec::new();
    let mut i: usize = 0;
    assert(bytes@.subrange(0, bytes@.len() as int) =~= bytes@);
    assert(chars@ + until_nul(bytes@) =~= until_nul(bytes@));
    while i < bytes.len() && bytes[i] != 0
        invariant
            i <= bytes@.len(),
            chars@ + until_nul(bytes@.subrange(i as int, bytes@.len() as int)) == until_nul(bytes@),
        decreases bytes@.len() - i,
    {
        let ghost rest = bytes@.subrange(i as int, bytes@.len() as int);
        let ghost before = chars@;
        chars.push(bytes[i] as char);
        i = i + 1;
        proof {
            assert(rest.drop_first() =~= bytes@.subrange(i as int, bytes@.len() as int));
            assert(chars@ + until_nul(rest.drop_first()) =~= before + until_nul(rest));
        }
    }
    assert(chars@ =~= until_nul(bytes@));
    assert(chars@.subrange(0, chars@.len() as int) =~= chars@);
    string_of(&chars, 0, chars.len())
}

/// A fixed-width text field: what stands before the first zero byte, trimmed.
pub fn ascii_field(bytes: &[u8]) -> (text: String)
    ensures
        text@ == ascii_field_spec(bytes@),
{
    trim(text_until_nul(bytes).as_str())
}

/// An upper-case ASCII letter or a digit.
pub open spec fn is_barcode_byte(b: u8) -> bool {
    (65 <= b <= 90) || (48 <= b <= 57)
}

/// Six upper-case ASCII letters or digits.
pub open spec fn is_barcode(text: Seq<char>) -> bool {
    let bytes = encode_utf8(text);
    bytes.len() == 6 && forall|i: int| 0 <= i < bytes.len() ==> is_barcode_byte(#[trigger] bytes[i])
}

/// The signature of an LTFS volume: "LTFS" at byte 24.
pub open spec fn has_ltfs_signature(record: Seq<u8>) -> bool {
    record[24] == 76 && record[25] == 84 && record[26] == 70 && record[27] == 83
}

/// What an ANSI label record stands for.
pub open spec fn ansi_label_spec(record: Seq<u8>) -> Option<Seq<char>> {
    if record.len() >= 80 && has_ltfs_signature(record) {
        Some(ascii_field_spec(record.subrange(4, 10)))
    } else {
        None
    }
}

/// The ANSI label record of a volume serial: "VOL1", the serial, "L", "LTFS" at byte 24,
/// "4" as the last byte, and blanks elsewhere.
pub open spec fn ansi_record(barcode: Seq<char>) -> Seq<u8> {
    Seq::new(
        80,
        |i: int|
            if i == 0 {
                86u8
            } else if i == 1 {
                79u8
            } else if i == 2 {
                76u8
            } else if i == 3 {
                49u8
            } else if 4 <= i < 10 {
                encode_utf8(barcode)[i - 4]
            } else if i == 10 {
                76u8
            } else if i == 24 {
                76u8
            } else if i == 25 {
                84u8
            } else if i == 26 {
                70u8
            } else if i == 27 {
                83u8
            } else if i == 79 {
                52u8
            } else {
                32u8
            },
    )
}

impl AnsiLabel {
    /// Reads an ANSI VOL1 record; `None` where it is shorter than 80 bytes or does not
    /// carry the LTFS signature.
    pub fn parse(buf: &[u8]) -> (label: Option<AnsiLabel>)
        ensures
            (match label {
                Some(l) => Some(l.barcode@),
                None => None,
            }) == ansi_label_spec(buf@),
    {
        if buf.len() < ANSI_LABEL_LEN {
            return None;
        }
        if buf[24] != 76 || buf[25] != 84 || buf[26] != 70 || buf[27] != 83 {
            return None;
        }
        Some(AnsiLabel { barcode: ascii_field(vstd::slice::slice_subrange(buf, 4, 10)) })
    }

    /// The 80-byte ANSI VOL1 record of the label; an error where the serial is not six
    /// upper-case ASCII letters or digits.
    pub fn to_bytes(&self) -> (record: Result<[u8; 80], LabelError>)
        ensures
            match record {
                Ok(r) => is_barcode(self.barcode@) && r@ == ansi_record(self.barcode@),
                Err(e) => !is_barcode(self.barcode@) && e@ == LabelFault::InvalidBarcode,
            },
    {
        let serial = self.barcode.as_str().as_bytes();
        if serial.len() != 6 {
            return Err(LabelError::InvalidBarcode);
        }
        let mut i: usize = 0;
        while i < 6
            invariant
                i <= 6,
                serial@.len() == 6,
                serial@ == encode_utf8(self.barcode@),
                forall|j: int| 0 <= j < i ==> is_barcode_byte(#[trigger] serial@[j]),
            decreases 6 - i,
        {
            let b: u8 = serial[i];
            if !((b >= 65 && b <= 90) || (b >= 48 && b <= 57)) {
                assert(!is_barcode_byte(serial@[i as int]));
                return Err(LabelError::InvalidBarcode);
            }
            i = i + 1;
        }
        let mut raw: [u8; 80] = [32u8; 80];
        raw[0] = 86;
        raw[1] = 79;
        raw[2] = 76;
        raw[3] = 49;
        raw[4] = serial[0];
        raw[5] = serial[1];
        raw[6] = serial[2];
        raw[7] = serial[3];
        raw[8] = serial[4];
        raw[9] = serial[5];
        raw[10] = 76;
        raw[24] = 76;
        raw[25] = 84;
        raw[26] = 70;
        raw[27] = 83;
        raw[79] = 52;
        assert(raw@ =~= ansi_record(self.barcode@));
        Ok(raw)
    }
}

/// An LTFS label.
#[derive(Debug, Clone, PartialEq, Eq)]
pub struct Label {
    /// The version attribute of the top element, such as "2.4.0".
    pub version: String,
    pub creator: String,
    pub format_time: String,
    pub volume_uuid: String,
    pub blocksize: u64,
    pub compression: bool,
    /// The partition that holds this label.
    pub this_partition: u8,
    /// The partition that holds indexes.
    pub index_partition: u8,
    /// The partition that holds data.
    pub data_partition: u8,
}

/// Why a label cannot be read or written.
#[derive(Debug, Clone, PartialEq, Eq)]
pub enum LabelError {
    Xml(String),
    NotLtfsLabel,
    MissingVersion,
    MissingField(&'static str),
    BadNumber(&'static str),
    InvalidBarcode,
}

/// The model of a label.
#[verifier::ext_equal]
pub struct LabelModel {
    pub version: Seq<char>,
    pub creator: Seq<char>,
    pub format_time: Seq<char>,
    pub volume_uuid: Seq<char>,
    pub blocksize: u64,
    pub compression: bool,
    pub this_partition: u8,
    pub index_partition: u8,
    pub data_partition: u8,
}

/// The model of a label error.
pub enum LabelFault {
    Xml(Seq<char>),
    NotLtfsLabel,
    MissingVersion,
    MissingField(Seq<char>),
    BadNumber(Seq<char>),
    InvalidBarcode,
}

impl View for Label {
    type V = LabelModel;

    open spec fn view(&self) -> LabelModel {
        LabelModel {
            version: self.version@,
            creator: self.creator@,
            format_time: self.format_time@,
            volume_uuid: self.volume_uuid@,
            blocksize: self.blocksize,
            compression: self.compression,
            this_partition: self.this_partition,
            index_partition: self.index_partition,
            data_partition: self.data_partition,
        }
    }
}

impl View for LabelError {
    type V = LabelFault;

    open spec fn view(&self) -> LabelFault {
        match *self {
            LabelError::Xml(message) => LabelFault::Xml(message@),
            LabelError::NotLtfsLabel => LabelFault::NotLtfsLabel,
            LabelError::MissingVersion => LabelFault::MissingVersion,
            LabelError::MissingField(name) => LabelFault::MissingField(name@),
            LabelError::BadNumber(name) => LabelFault::BadNumber(name@),
            LabelError::InvalidBarcode => LabelFault::InvalidBarcode,
        }
    }
}

impl LabelError {
    /// The message of the error.
    pub fn text(&self) -> (text: String)
        ensures
            text@ == (match self@ {
                LabelFault::Xml(message) => "XML 解析失败: "@ + message,
                LabelFault::NotLtfsLabel => "顶层元素不是 <ltfslabel>"@,
                LabelFault::MissingVersion => "缺少 version 属性"@,
                LabelFault::MissingField(name) => "缺少必需字段 <"@ + name + ">"@,
                LabelFault::BadNumber(name) => "<"@ + name + "> 不是有效数字"@,
                LabelFault::InvalidBarcode => "Barcode 必须是 6 位大写 ASCII 字母或数字"@,
            }),
    {
        match self {
            LabelError::Xml(message) => cat2("XML 解析失败: ", message.as_str()),
            LabelError::NotLtfsLabel => "顶层元素不是 <ltfslabel>".to_owned(),
            LabelError::MissingVersion => "缺少 version 属性".to_owned(),
            LabelError::MissingField(name) => crate::text::cat3("缺少必需字段 <", name, ">"),
            LabelError::BadNumber(name) => crate::text::cat3("<", name, "> 不是有效数字"),
            LabelError::InvalidBarcode => "Barcode 必须是 6 位大写 ASCII 字母或数字".to_owned(),
        }
    }
}

/// The part of a label document that is being read.
#[derive(Debug, Clone, Copy, PartialEq, Eq, Structural)]
pub enum LabelSection {
    Root,
    Location,
    Partitions,
}

/// What has been read of a label document.
pub struct LabelScan {
    section: LabelSection,
    elem: String,
    field_text: String,
    root_seen: bool,
    version: Option<String>,
    creator: Option<String>,
    format_time: Option<String>,
    volume_uuid: Option<String>,
    blocksize: Option<u64>,
    compression: Option<bool>,
    this_partition: Option<u8>,
    index_partition: Option<u8>,
    data_partition: Option<u8>,
}

/// The model of what has been read of a label document.
#[verifier::ext_equal]
pub struct LabelProgress {
    pub section: LabelSection,
    pub elem: Seq<char>,
    pub field_text: Seq<char>,
    pub root_seen: bool,
    pub version: Option<Seq<char>>,
    pub creator: Option<Seq<char>>,
    pub format_time: Option<Seq<char>>,
    pub volume_uuid: Option<Seq<char>>,
    pub blocksize: Option<u64>,
    pub compression: Option<bool>,
    pub this_partition: Option<u8>,
    pub index_partition: Option<u8>,
    pub data_partition: Option<u8>,
}

impl View for LabelScan {
    type V = LabelProgress;

    closed spec fn view(&self) -> LabelProgress {
        LabelProgress {
            section: self.section,
            elem: self.elem@,
            field_text: self.field_text@,
            root_seen: self.root_seen,
            version: opt_view(self.version),
            creator: opt_view(self.creator),
            format_time: opt_view(self.format_time),
            volume_uuid: opt_view(self.volume_uuid),
            blocksize: self.blocksize,
            compression: self.compression,
            this_partition: self.this_partition,
            index_partition: self.index_partition,
            data_partition: self.data_partition,
        }
    }
}

/// Nothing read yet.
pub open spec fn label_start() -> LabelProgress {
    LabelProgress {
        section: LabelSection::Root,
        elem: Seq::empty(),
        field_text: Seq::empty(),
        root_seen: false,
        version: None,
        creator: None,
        format_time: None,
        volume_uuid: None,
        blocksize: None,
        compression: None,
        this_partition: None,
        index_partition: None,
        data_partition: None,
    }
}

/// A partition is written 'a' or 'b'; '0' and '1' are understood too.
pub open spec fn partition_spec(text: Seq<char>) -> Option<u8> {
    if text == "a"@ || text == "0"@ {
        Some(0u8)
    } else if text == "b"@ || text == "1"@ {
        Some(1u8)
    } else {
        None
    }
}

/// "true" and "false".
pub open spec fn bool_spec(text: Seq<char>) -> Option<bool> {
    if text == "true"@ {
        Some(true)
    } else if text == "false"@ {
        Some(false)
    } else {
        None
    }
}

/// An unsigned 64-bit numeral.
pub open spec fn u64_spec(text: Seq<char>) -> Option<u64> {
    match parse_unsigned_spec(text, u64::MAX as nat) {
        Some(n) => Some(n as u64),
        None => None,
    }
}

/// Reads an unsigned 64-bit numeral.
pub fn parse_u64(text: &str) -> (value: Option<u64>)
    ensures
        value == u64_spec(text@),
{
    parse_unsigned(text, u64::MAX)
}

/// Reads a partition.
pub fn parse_partition(text: &str) -> (value: Option<u8>)
    ensures
        value == partition_spec(text@),
{
    if same(text, "a") || same(text, "0") {
        Some(0)
    } else if same(text, "b") || same(text, "1") {
        Some(1)
    } else {
        None
    }
}

/// Reads a truth value.
pub fn parse_bool(text: &str) -> (value: Option<bool>)
    ensures
        value == bool_spec(text@),
{
    if same(text, "true") {
        Some(true)
    } else if same(text, "false") {
        Some(false)
    } else {
        None
    }
}

/// A start tag or an empty element opens a field, and a section where it names one.
pub open spec fn label_open(p: LabelProgress, name: Seq<char>, content: Seq<char>) -> LabelProgress {
    let opened = LabelProgress { elem: name, field_text: Seq::empty(), ..p };
    if name == "ltfslabel"@ {
        LabelProgress {
            root_seen: true,
            version: attribute_value_spec(name, content, "version"@),
            ..opened
        }
    } else if name == "location"@ {
        LabelProgress { section: LabelSection::Location, ..opened }
    } else if name == "partitions"@ {
        LabelProgress { section: LabelSection::Partitions, ..opened }
    } else {
        opened
    }
}

/// The text of a field is taken at its end tag; an empty one is passed over.
pub open spec fn label_field(p: LabelProgress) -> Result<LabelProgress, LabelFault> {
    let text = p.field_text;
    if text.len() == 0 {
        Ok(p)
    } else if p.section is Root && p.elem == "creator"@ {
        Ok(LabelProgress { creator: Some(text), ..p })
    } else if p.section is Root && p.elem == "formattime"@ {
        Ok(LabelProgress { format_time: Some(text), ..p })
    } else if p.section is Root && p.elem == "volumeuuid"@ {
        Ok(LabelProgress { volume_uuid: Some(text), ..p })
    } else if p.section is Root && p.elem == "blocksize"@ {
        match u64_spec(text) {
            Some(n) => Ok(LabelProgress { blocksize: Some(n), ..p }),
            None => Err(LabelFault::BadNumber("blocksize"@)),
        }
    } else if p.section is Root && p.elem == "compression"@ {
        match bool_spec(text) {
            Some(b) => Ok(LabelProgress { compression: Some(b), ..p }),
            None => Err(LabelFault::BadNumber("compression"@)),
        }
    } else if p.section is Location && p.elem == "partition"@ {
        match partition_spec(text) {
            Some(n) => Ok(LabelProgress { this_partition: Some(n), ..p }),
            None => Err(LabelFault::BadNumber("partition"@)),
        }
    } else if p.section is Partitions && p.elem == "index"@ {
        match partition_spec(text) {
            Some(n) => Ok(LabelProgress { index_partition: Some(n), ..p }),
            None => Err(LabelFault::BadNumber("index"@)),
        }
    } else if p.section is Partitions && p.elem == "data"@ {
        match partition_spec(text) {
            Some(n) => Ok(LabelProgress { data_partition: Some(n), ..p }),
            None => Err(LabelFault::BadNumber("data"@)),
        }
    } else {
        Ok(p)
    }
}

/// Behind an end tag.
pub open spec fn label_close(p: LabelProgress, name: Seq<char>) -> LabelProgress {
    LabelProgress {
        section: if name == "location"@ || name == "partitions"@ {
            LabelSection::Root
        } else {
            p.section
        },
        elem: Seq::empty(),
        field_text: Seq::empty(),
        ..p
    }
}

/// One event of a label document.
pub open spec fn label_step(p: LabelProgress, event: XmlEvent) -> Result<LabelProgress, LabelFault> {
    match event {
        XmlEvent::Start(name, content) => Ok(label_open(p, name, content)),
        XmlEvent::Empty(name, content) => Ok(label_open(p, name, content)),
        XmlEvent::Text(raw) => match text_value(raw) {
            Ok(text) => Ok(LabelProgress { field_text: p.field_text + text, ..p }),
            Err(message) => Err(LabelFault::Xml(message)),
        },
        XmlEvent::Reference(name) => match reference_value(name) {
            Ok(text) => Ok(LabelProgress { field_text: p.field_text + text, ..p }),
            Err(message) => Err(LabelFault::Xml(message)),
        },
        XmlEvent::End(name) => match label_field(p) {
            Ok(q) => Ok(label_close(q, name)),
            Err(fault) => Err(fault),
        },
        XmlEvent::Failed(message) => Err(LabelFault::Xml(message)),
        _ => Ok(p),
    }
}

/// What is missing is reported in a fixed order.
pub open spec fn label_finish(p: LabelProgress) -> Result<LabelModel, LabelFault> {
    if !p.root_seen {
        Err(LabelFault::NotLtfsLabel)
    } else if p.version is None {
        Err(LabelFault::MissingVersion)
    } else if p.creator is None {
        Err(LabelFault::MissingField("creator"@))
    } else if p.format_time is None {
        Err(LabelFault::MissingField("formattime"@))
    } else if p.volume_uuid is None {
        Err(LabelFault::MissingField("volumeuuid"@))
    } else if p.blocksize is None {
        Err(LabelFault::MissingField("blocksize"@))
    } else if p.compression is None {
        Err(LabelFault::MissingField("compression"@))
    } else if p.this_partition is None {
        Err(LabelFault::MissingField("location/partition"@))
    } else if p.index_partition is None {
        Err(LabelFault::MissingField("partitions/index"@))
    } else if p.data_partition is None {
        Err(LabelFault::MissingField("partitions/data"@))
    } else {
        Ok(
            LabelModel {
                version: p.version->0,
                creator: p.creator->0,
                format_time: p.format_time->0,
                volume_uuid: p.volume_uuid->0,
                blocksize: p.blocksize->0,
                compression: p.compression->0,
                this_partition: p.this_partition->0,
                index_partition: p.index_partition->0,
                data_partition: p.data_partition->0,
            },
        )
    }
}

/// The label that a sequence of events stands for, read on from `p`.
pub open spec fn label_read(p: LabelProgress, events: Seq<XmlEvent>) -> Result<LabelModel, LabelFault>
    decreases events.len(),
{
    if events.len() == 0 || events[0] is Eof {
        label_finish(p)
    } else {
        match label_step(p, events[0]) {
            Ok(q) => label_read(q, events.drop_first()),
            Err(fault) => Err(fault),
        }
    }
}

/// The label that a document stands for.
pub open spec fn label_from(events: Seq<XmlEvent>) -> Result<LabelModel, LabelFault> {
    label_read(label_start(), events)
}

/// The model of the result of reading a label.
pub open spec fn label_outcome(result: Result<Label, LabelError>) -> Result<LabelModel, LabelFault> {
    match result {
        Ok(label) => Ok(label@),
        Err(error) => Err(error@),
    }
}

impl LabelScan {
    fn new() -> (scan: LabelScan)
        ensures
            scan@ == label_start(),
    {
        LabelScan {
            section: LabelSection::Root,
            elem: String::new(),
            field_text: String::new(),
            root_seen: false,
            version: None,
            creator: None,
            format_time: None,
            volume_uuid: None,
            blocksize: None,
            compression: None,
            this_partition: None,
            index_partition: None,
            data_partition: None,
        }
    }

    fn open(&mut self, name: &String, content: &String)
        ensures
            final(self)@ == label_open(old(self)@, name@, content@),
    {
        if same(name.as_str(), "ltfslabel") {
            self.root_seen = true;
            self.version = attribute_value(name.as_str(), content.as_str(), "version");
        } else if same(name.as_str(), "location") {
            self.section = LabelSection::Location;
        } else if same(name.as_str(), "partitions") {
            self.section = LabelSection::Partitions;
        }
        self.elem = name.clone();
        self.field_text = String::new();
    }

    fn take_field(&mut self) -> (result: Result<(), LabelError>)
        ensures
            match result {
                Ok(_) => label_field(old(self)@) == Ok::<LabelProgress, LabelFault>(final(self)@),
                Err(e) => label_field(old(self)@) == Err::<LabelProgress, LabelFault>(e@),
            },
    {
        if self.field_text.as_str().is_empty() {
            return Ok(());
        }
        let text = self.field_text.clone();
        let elem = self.elem.as_str();
        match self.section {
            LabelSection::Root => {
                if same(elem, "creator") {
                    self.creator = Some(text);
                } else if same(elem, "formattime") {
                    self.format_time = Some(text);
                } else if same(elem, "volumeuuid") {
                    self.volume_uuid = Some(text);
                } else if same(elem, "blocksize") {
                    match parse_u64(text.as_str()) {
                        Some(n) => {
                            self.blocksize = Some(n);
                        },
                        None => {
                            return Err(LabelError::BadNumber("blocksize"));
                        },
                    }
                } else if same(elem, "compression") {
                    match parse_bool(text.as_str()) {
                        Some(b) => {
                            self.compression = Some(b);
                        },
                        None => {
                            return Err(LabelError::BadNumber("compression"));
                        },
                    }
                }
            },
            LabelSection::Location => {
                if same(elem, "partition") {
                    match parse_partition(text.as_str()) {
                        Some(n) => {
                            self.this_partition = Some(n);
                        },
                        None => {
                            return Err(LabelError::BadNumber("partition"));
                        },
                    }
                }
            },
            LabelSection::Partitions => {
                if same(elem, "index") {
                    match parse_partition(text.as_str()) {
                        Some(n) => {
                            self.index_partition = Some(n);
                        },
                        None => {
                            return Err(LabelError::BadNumber("index"));
                        },
                    }
                } else if same(elem, "data") {
                    match parse_partition(text.as_str()) {
                        Some(n) => {
                            self.data_partition = Some(n);
                        },
                        None => {
                            return Err(LabelError::BadNumber("data"));
                        },
                    }
                }
            },
        }
        Ok(())
    }

    fn step(&mut self, item: &XmlItem) -> (result: Result<(), LabelError>)
        ensures
            match result {
                Ok(_) => label_step(old(self)@, item@) == Ok::<LabelProgress, LabelFault>(
                    final(self)@,
                ),
                Err(e) => label_step(old(self)@, item@) == Err::<LabelProgress, LabelFault>(e@),
            },
    {
        match item {
            XmlItem::Start(name, content) => {
                self.open(name, content);
            },
            XmlItem::Empty(name, content) => {
                self.open(name, content);
            },
            XmlItem::Text(raw) => match unescape_text(raw.as_str()) {
                Ok(text) => {
                    self.field_text.append(text.as_str());
                },
                Err(message) => {
                    return Err(LabelError::Xml(message));
                },
            },
            XmlItem::Reference(name) => match decode_general_ref(name.as_str()) {
                Ok(text) => {
                    self.field_text.append(text.as_str());
                },
                Err(message) => {
                    return Err(LabelError::Xml(message));
                },
            },
            XmlItem::End(name) => {
                match self.take_field() {
                    Ok(_) => {},
                    Err(error) => {
                        return Err(error);
                    },
                }
                if same(name.as_str(), "location") || same(name.as_str(), "partitions") {
                    self.section = LabelSection::Root;
                }
                self.elem = String::new();
                self.field_text = String::new();
            },
            XmlItem::Failed(message) => {
                return Err(LabelError::Xml(message.clone()));
            },
            _ => {},
        }
        Ok(())
    }

    fn finish(self) -> (result: Result<Label, LabelError>)
        ensures
            label_outcome(result) == label_finish(self@),
    {
        if !self.root_seen {
            return Err(LabelError::NotLtfsLabel);
        }
        let version = match self.version {
            Some(value) => value,
            None => {
                return Err(LabelError::MissingVersion);
            },
        };
        let creator = match self.creator {
            Some(value) => value,
            None => {
                return Err(LabelError::MissingField("creator"));
            },
        };
        let format_time = match self.format_time {
            Some(value) => value,
            None => {
                return Err(LabelError::MissingField("formattime"));
            },
        };
        let volume_uuid = match self.volume_uuid {
            Some(value) => value,
            None => {
                return Err(LabelError::MissingField("volumeuuid"));
            },
        };
        let blocksize: u64 = match self.blocksize {
            Some(value) => value,
            None => {
                return Err(LabelError::MissingField("blocksize"));
            },
        };
        let compression = match self.compression {
            Some(value) => value,
            None => {
                return Err(LabelError::MissingField("compression"));
            },
        };
        let this_partition: u8 = match self.this_partition {
            Some(value) => value,
            None => {
                return Err(LabelError::MissingField("location/partition"));
            },
        };
        let index_partition: u8 = match self.index_partition {
            Some(value) => value,
            None => {
                return Err(LabelError::MissingField("partitions/index"));
            },
        };
        let data_partition: u8 = match self.data_partition {
            Some(value) => value,
            None => {
                return Err(LabelError::MissingField("partitions/data"));
            },
        };
        Ok(
            Label {
                version,
                creator,
                format_time,
                volume_uuid,
                blocksize,
                compression,
                this_partition,
                index_partition,
                data_partition,
            },
        )
    }
}

/// How a partition is written: 'a', 'b', and beyond them the character that many
/// places behind '0', at most U+00FF.
pub open spec fn partition_char(partition: u8) -> char {
    if partition == 0 {
        'a'
    } else if partition == 1 {
        'b'
    } else if partition <= 207 {
        ((48 + partition) as u8) as char
    } else {
        255u8 as char
    }
}

pub fn partition_name(partition: u8) -> (name: char)
    ensures
        name == partition_char(partition),
{
    if partition == 0 {
        'a'
    } else if partition == 1 {
        'b'
    } else {
        48u8.saturating_add(partition) as char
    }
}

/// "true" or "false".
pub open spec fn bool_text(value: bool) -> Seq<char> {
    if value {
        "true"@
    } else {
        "false"@
    }
}

/// The events of the XML document of a label.
pub open spec fn label_events(label: LabelModel) -> Seq<XmlEvent> {
    seq![XmlEvent::Declaration] + line_break() + label_root(label) + line_break()
}

/// The root element.
pub open spec fn label_root(label: LabelModel) -> Seq<XmlEvent> {
    seq![label_start_tag(label)] + label_body(label) + seq![XmlEvent::End("ltfslabel"@)]
}

/// The start tag of the root element.
pub open spec fn label_start_tag(label: LabelModel) -> XmlEvent {
    XmlEvent::Start(
        "ltfslabel"@,
        attribute_content("ltfslabel"@, "version"@, escaped(label.version)),
    )
}

/// What the root element holds, one line for each field.
pub open spec fn label_body(label: LabelModel) -> Seq<XmlEvent> {
    line_break() + field("creator"@, label.creator) + line_break() + field(
        "formattime"@,
        label.format_time,
    ) + line_break() + field("volumeuuid"@, label.volume_uuid) + line_break() + label_location(
        label,
    ) + line_break() + label_partitions(label) + line_break() + raw_field(
        "blocksize"@,
        decimal_spec(label.blocksize as nat),
    ) + line_break() + raw_field("compression"@, bool_text(label.compression)) + line_break()
}

/// The partition that the label stands in.
pub open spec fn label_location(label: LabelModel) -> Seq<XmlEvent> {
    element("location"@, raw_field("partition"@, seq![partition_char(label.this_partition)]))
}

/// The roles of the partitions.
pub open spec fn label_partitions(label: LabelModel) -> Seq<XmlEvent> {
    element(
        "partitions"@,
        raw_field("index"@, seq![partition_char(label.index_partition)]) + raw_field(
            "data"@,
            seq![partition_char(label.data_partition)],
        ),
    )
}

/// The XML document of a label.
pub open spec fn label_xml(label: LabelModel) -> Seq<char> {
    rendered(label_events(label))
}

/// A label that its document gives back: the version holds no special character, the
/// text fields are not empty, and the partitions are 0 or 1.
pub open spec fn label_storable(label: LabelModel) -> bool {
    &&& plain_value(label.version)
    &&& label.creator.len() > 0
    &&& label.format_time.len() > 0
    &&& label.volume_uuid.len() > 0
    &&& label.this_partition <= 1
    &&& label.index_partition <= 1
    &&& label.data_partition <= 1
}

impl Label {
    /// Reads a label document. The document of a label is read back as that label.
    pub fn parse_xml(xml: &str) -> (result: Result<Label, LabelError>)
        ensures
            label_outcome(result) == label_from(xml_events(xml@)),
            forall|label: LabelModel|
                label_storable(label) && xml@ == #[trigger] label_xml(label) ==> result is Ok
                    && result->Ok_0@ == label,
    {
        let items = read_items(xml);
        proof {
            assert forall|label: LabelModel|
                label_storable(label) && xml@ == #[trigger] label_xml(label) implies label_from(
                xml_events(xml@),
            ) == Ok::<LabelModel, LabelFault>(label) by {
                label_reads_back(label);
            }
        }
        Label::from_items(&items)
    }

    /// The label that a sequence of events stands for.
    pub fn from_items(items: &Vec<XmlItem>) -> (result: Result<Label, LabelError>)
        ensures
            label_outcome(result) == label_from(events_of(items@)),
    {
        let mut scan = LabelScan::new();
        let ghost events = events_of(items@);
        let mut i: usize = 0;
        assert(events.subrange(0, events.len() as int) =~= events);
        while i < items.len()
            invariant
                i <= items@.len(),
                events == events_of(items@),
                label_from(events) == label_read(
                    scan@,
                    events.subrange(i as int, events.len() as int),
                ),
            decreases items@.len() - i,
        {
            let ghost rest = events.subrange(i as int, events.len() as int);
            assert(rest[0] == items@[i as int]@);
            assert(rest.drop_first() =~= events.subrange(i + 1, events.len() as int));
            let last = match &items[i] {
                XmlItem::Eof => true,
                _ => false,
            };
            if last {
                return scan.finish();
            }
            match scan.step(&items[i]) {
                Ok(_) => {},
                Err(error) => {
                    return Err(error);
                },
            }
            i = i + 1;
        }
        scan.finish()
    }

    /// The label as an LTFS 2.x XML document.
    #[verifier::rlimit(60)]
    pub fn to_xml(&self) -> (xml: String)
        ensures
            xml@ == label_xml(self@),
    {
        let mut xml = XmlWriter::new();
        xml.declaration();
        xml.newline();
        xml.start_with("ltfslabel", "version", self.version.as_str());
        xml.newline();
        xml.field("creator", self.creator.as_str());
        xml.newline();
        xml.field("formattime", self.format_time.as_str());
        xml.newline();
        xml.field("volumeuuid", self.volume_uuid.as_str());
        xml.newline();
        let ghost before = xml@;
        xml.start("location");
        xml.raw_field("partition", char_string(partition_name(self.this_partition)).as_str());
        xml.end("location");
        assert(xml@ =~= before + label_location(self@));
        xml.newline();
        let ghost before = xml@;
        xml.start("partitions");
        xml.raw_field("index", char_string(partition_name(self.index_partition)).as_str());
        xml.raw_field("data", char_string(partition_name(self.data_partition)).as_str());
        xml.end("partitions");
        assert(xml@ =~= before + label_partitions(self@));
        xml.newline();
        xml.raw_field("blocksize", decimal(self.blocksize).as_str());
        xml.newline();
        xml.raw_field("compression", if self.compression { "true" } else { "false" });
        xml.newline();
        xml.end("ltfslabel");
        xml.newline();
        assert(xml@ =~= label_events(self@));
        xml.finish()
    }
}

/// A text of one character.
pub fn char_string(c: char) -> (text: String)
    ensures
        text@ == seq![c],
{
    let mut text = String::new();
    text.push(c);
    assert(text@ =~= seq![c]);
    text
}

// ---------------------------------------------------------------------------
// Reading back what was written
// ---------------------------------------------------------------------------

/// A run of events, from the first to the last.
#[verifier::opaque]
spec fn label_steps(p: LabelProgress, events: Seq<XmlEvent>) -> Result<LabelProgress, LabelFault>
    decreases events.len(),
{
    if events.len() == 0 {
        Ok(p)
    } else {
        match label_steps(p, events.drop_last()) {
            Ok(q) => label_step(q, events.last()),
            Err(fault) => Err(fault),
        }
    }
}

proof fn lemma_steps_concat(p: LabelProgress, a: Seq<XmlEvent>, b: Seq<XmlEvent>)
    ensures
        label_steps(p, a + b) == (match label_steps(p, a) {
            Ok(q) => label_steps(q, b),
            Err(fault) => Err(fault),
        }),
    decreases b.len(),
{
    reveal(label_steps);
    if b.len() == 0 {
        assert(a + b =~= a);
    } else {
        assert((a + b).drop_last() =~= a + b.drop_last());
        lemma_steps_concat(p, a, b.drop_last());
    }
}

proof fn lemma_steps_one(p: LabelProgress, event: XmlEvent)
    ensures
        label_steps(p, seq![event]) == label_step(p, event),
{
    reveal(label_steps);
    assert(seq![event].drop_last() =~= Seq::<XmlEvent>::empty());
    assert(label_steps(p, seq![event].drop_last()) == Ok::<LabelProgress, LabelFault>(p));
}

proof fn lemma_read_steps(p: LabelProgress, a: Seq<XmlEvent>, rest: Seq<XmlEvent>)
    requires
        forall|i: int| 0 <= i < a.len() ==> !((#[trigger] a[i]) is Eof),
    ensures
        label_read(p, a + rest) == (match label_steps(p, a) {
            Ok(q) => label_read(q, rest),
            Err(fault) => Err(fault),
        }),
    decreases a.len(),
{
    reveal(label_steps);
    if a.len() == 0 {
        assert(a + rest =~= rest);
    } else {
        let tail = seq![a.last()] + rest;
        assert(a.drop_last() + tail =~= a + rest);
        lemma_read_steps(p, a.drop_last(), tail);
        assert(tail.drop_first() =~= rest);
    }
}

/// The events of a text add that text to the field.
proof fn lemma_steps_text(p: LabelProgress, text: Seq<char>)
    ensures
        label_steps(p, text_events(text)) == Ok::<LabelProgress, LabelFault>(
            LabelProgress { field_text: p.field_text + text, ..p },
        ),
    decreases text.len(),
{
    reveal(label_steps);
    let goal = LabelProgress { field_text: p.field_text + text, ..p };
    if text.len() == 0 {
        assert(p.field_text + text =~= p.field_text);
    } else {
        let c = text.last();
        let before = text_events(text.drop_last());
        lemma_steps_text(p, text.drop_last());
        let middle = LabelProgress { field_text: p.field_text + text.drop_last(), ..p };
        assert(middle.field_text + seq![c] =~= goal.field_text);
        match entity_name(c) {
            Some(name) => {
                lemma_reference_value(c);
                assert(text_events(text).drop_last() =~= before);
            },
            None => {
                if before.len() > 0 && before.last() is Text {
                    let x = before.last()->Text_0;
                    lemma_text_plain(text.drop_last());
                    assert(plain_event(before[before.len() - 1]));
                    assert(no_reference(x));
                    assert(no_reference(x.push(c)));
                    assert(text_events(text).drop_last() =~= before.drop_last());
                    let q = label_steps(p, before.drop_last())->Ok_0;
                    assert(middle == LabelProgress { field_text: q.field_text + x, ..q });
                    assert(q.field_text + x.push(c) =~= goal.field_text);
                } else {
                    assert(no_reference(seq![c]));
                    assert(text_events(text).drop_last() =~= before);
                }
            },
        }
    }
}

/// A name that opens no section.
spec fn ordinary_name(name: Seq<char>) -> bool {
    name != "ltfslabel"@ && name != "location"@ && name != "partitions"@
}

/// A field is taken at its end tag.
proof fn lemma_steps_element(p: LabelProgress, name: Seq<char>, text: Seq<char>, inner: Seq<XmlEvent>)
    requires
        ordinary_name(name),
        inner == text_events(text) || (inner == seq![XmlEvent::Text(text)] && no_reference(text)),
    ensures
        label_steps(p, element(name, inner)) == label_step(
            LabelProgress { elem: name, field_text: text, ..p },
            XmlEvent::End(name),
        ),
{
    let opened = LabelProgress { elem: name, field_text: Seq::empty(), ..p };
    let head = seq![XmlEvent::Start(name, name)];
    lemma_steps_one(p, XmlEvent::Start(name, name));
    lemma_steps_concat(p, head, inner);
    assert(Seq::<char>::empty() + text =~= text);
    if inner == text_events(text) {
        lemma_steps_text(opened, text);
    } else {
        lemma_steps_one(opened, XmlEvent::Text(text));
    }
    let filled = LabelProgress { elem: name, field_text: text, ..p };
    assert(label_steps(opened, inner) == Ok::<LabelProgress, LabelFault>(filled));
    lemma_steps_concat(p, head + inner, seq![XmlEvent::End(name)]);
    lemma_steps_one(filled, XmlEvent::End(name));
}

/// A line break outside a field changes nothing that the next tag does not reset.
proof fn lemma_steps_break(p: LabelProgress)
    ensures
        label_steps(p, line_break()) == Ok::<LabelProgress, LabelFault>(
            LabelProgress { field_text: p.field_text + "\n"@, ..p },
        ),
{
    reveal_strlit("\n");
    assert(no_reference("\n"@));
    lemma_steps_one(p, XmlEvent::Text("\n"@));
}

proof fn lemma_label_names()
    ensures
        ordinary_name("creator"@) && ordinary_name("formattime"@) && ordinary_name("volumeuuid"@),
        ordinary_name("blocksize"@) && ordinary_name("compression"@) && ordinary_name("partition"@),
        ordinary_name("index"@) && ordinary_name("data"@),
        plain_name("creator"@) && plain_name("formattime"@) && plain_name("volumeuuid"@),
        plain_name("blocksize"@) && plain_name("compression"@) && plain_name("partition"@),
        plain_name("index"@) && plain_name("data"@) && plain_name("location"@),
        plain_name("partitions"@) && plain_name("ltfslabel"@) && plain_name("version"@),
        "formattime"@ != "creator"@,
        "volumeuuid"@ != "creator"@ && "volumeuuid"@ != "formattime"@,
        "blocksize"@ != "creator"@ && "blocksize"@ != "formattime"@ && "blocksize"@ != "volumeuuid"@,
        "compression"@ != "creator"@ && "compression"@ != "formattime"@ && "compression"@
            != "volumeuuid"@ && "compression"@ != "blocksize"@,
        "data"@ != "index"@,
        "location"@ != "ltfslabel"@ && "partitions"@ != "ltfslabel"@ && "partitions"@ != "location"@,
        "ltfslabel"@ != "creator"@ && "ltfslabel"@ != "location"@ && "ltfslabel"@ != "partitions"@,
{
    reveal_strlit("creator");
    reveal_strlit("formattime");
    reveal_strlit("volumeuuid");
    reveal_strlit("blocksize");
    reveal_strlit("compression");
    reveal_strlit("partition");
    reveal_strlit("index");
    reveal_strlit("data");
    reveal_strlit("location");
    reveal_strlit("partitions");
    reveal_strlit("ltfslabel");
    reveal_strlit("version");
    assert("formattime"@[0] != "volumeuuid"@[0]);
    assert("formattime"@[0] != "partitions"@[0]);
    assert("volumeuuid"@[0] != "partitions"@[0]);
    assert("blocksize"@[0] != "ltfslabel"@[0]);
    assert("partition"@[0] != "ltfslabel"@[0]);
    assert("creator"@.len() == 7 && "formattime"@.len() == 10 && "volumeuuid"@.len() == 10);
    assert("blocksize"@.len() == 9 && "compression"@.len() == 11 && "partition"@.len() == 9);
    assert("index"@.len() == 5 && "data"@.len() == 4 && "location"@.len() == 8);
    assert("partitions"@.len() == 10 && "ltfslabel"@.len() == 9);
}

proof fn lemma_partition_text(partition: u8)
    requires
        partition <= 1,
    ensures
        partition_spec(seq![partition_char(partition)]) == Some(partition),
        plain_event(XmlEvent::Text(seq![partition_char(partition)])),
        no_reference(seq![partition_char(partition)]),
{
    reveal_strlit("a");
    reveal_strlit("b");
    reveal_strlit("0");
    reveal_strlit("1");
    assert(seq!['a'] =~= "a"@);
    assert(seq!['b'] =~= "b"@);
    assert(seq!['b'][0] != "a"@[0]);
    assert(seq!['b'][0] != "0"@[0]);
}

proof fn lemma_value_texts(label: LabelModel)
    ensures
        plain_event(XmlEvent::Text(decimal_spec(label.blocksize as nat))),
        no_reference(decimal_spec(label.blocksize as nat)),
        u64_spec(decimal_spec(label.blocksize as nat)) == Some(label.blocksize),
        plain_event(XmlEvent::Text(bool_text(label.compression))),
        no_reference(bool_text(label.compression)),
        bool_spec(bool_text(label.compression)) == Some(label.compression),
{
    let n = label.blocksize as nat;
    lemma_decimal(n);
    lemma_parse_decimal(n, u64::MAX as nat);
    assert forall|i: int| 0 <= i < decimal_spec(n).len() implies #[trigger] decimal_spec(n)[i] != '<'
        && decimal_spec(n)[i] != '&' by {
        assert(is_digit(decimal_spec(n)[i]));
    }
    reveal_strlit("true");
    reveal_strlit("false");
    assert("true"@.len() != "false"@.len());
}

proof fn lemma_label_plain(label: LabelModel)
    requires
        label_storable(label),
    ensures
        plain_document(label_events(label)),
{
    lemma_label_names();
    lemma_partition_text(label.this_partition);
    lemma_partition_text(label.index_partition);
    lemma_partition_text(label.data_partition);
    lemma_value_texts(label);
    lemma_escaped_plain(label.version);
    let content = attribute_content("ltfslabel"@, "version"@, label.version);
    let creator = field("creator"@, label.creator);
    let time = field("formattime"@, label.format_time);
    let uuid = field("volumeuuid"@, label.volume_uuid);
    let blocksize = raw_field("blocksize"@, decimal_spec(label.blocksize as nat));
    let compression = raw_field("compression"@, bool_text(label.compression));
    lemma_field_piece("creator"@, label.creator);
    lemma_field_piece("formattime"@, label.format_time);
    lemma_field_piece("volumeuuid"@, label.volume_uuid);
    let this_text = seq![partition_char(label.this_partition)];
    let index_text = seq![partition_char(label.index_partition)];
    let data_text = seq![partition_char(label.data_partition)];
    let index = raw_field("index"@, index_text);
    let data = raw_field("data"@, data_text);
    lemma_raw_field_piece("partition"@, this_text);
    lemma_element_piece(
        "location"@,
        "location"@,
        raw_field("partition"@, this_text),
        false,
        false,
    );
    lemma_raw_field_piece("index"@, index_text);
    lemma_raw_field_piece("data"@, data_text);
    lemma_append(index, false, false, data, false, false);
    lemma_element_piece("partitions"@, "partitions"@, index + data, false, false);
    lemma_raw_field_piece("blocksize"@, decimal_spec(label.blocksize as nat));
    lemma_raw_field_piece("compression"@, bool_text(label.compression));
    lemma_break_piece();
    let a1 = line_break() + creator + line_break();
    lemma_append_line(line_break(), true, creator);
    let a2 = a1 + time + line_break();
    lemma_append_line(a1, true, time);
    let a3 = a2 + uuid + line_break();
    lemma_append_line(a2, true, uuid);
    let a4 = a3 + label_location(label) + line_break();
    lemma_append_line(a3, true, label_location(label));
    let a5 = a4 + label_partitions(label) + line_break();
    lemma_append_line(a4, true, label_partitions(label));
    let a6 = a5 + blocksize + line_break();
    lemma_append_line(a5, true, blocksize);
    lemma_append_line(a6, true, compression);
    assert(plain_content("ltfslabel"@, content));
    lemma_element_piece("ltfslabel"@, content, label_body(label), true, true);
    lemma_document(label_root(label));
}

/// The progress between two fields: only a line break since the last tag.
spec fn between(p: LabelProgress) -> LabelProgress {
    LabelProgress { field_text: "\n"@, elem: Seq::empty(), ..p }
}

/// A line that takes the progress from one to the next.
proof fn lemma_steps_line(
    p: LabelProgress,
    done: Seq<XmlEvent>,
    q: LabelProgress,
    line: Seq<XmlEvent>,
    r: LabelProgress,
)
    requires
        label_steps(p, done) == Ok::<LabelProgress, LabelFault>(q),
        label_steps(q, line) == Ok::<LabelProgress, LabelFault>(closed(r)),
    ensures
        label_steps(p, done + line + line_break()) == Ok::<LabelProgress, LabelFault>(between(r)),
{
    lemma_steps_concat(p, done, line);
    lemma_steps_concat(p, done + line, line_break());
    lemma_steps_break(closed(r));
    assert(Seq::<char>::empty() + "\n"@ =~= "\n"@);
}

/// The progress right behind an end tag.
spec fn closed(p: LabelProgress) -> LabelProgress {
    LabelProgress { field_text: Seq::empty(), elem: Seq::empty(), ..p }
}

proof fn lemma_texts(p: LabelProgress, label: LabelModel)
    requires
        p.section is Root,
        label_storable(label),
    ensures
        label_steps(p, field("creator"@, label.creator)) == Ok::<LabelProgress, LabelFault>(
            closed(LabelProgress { creator: Some(label.creator), ..p }),
        ),
        label_steps(p, field("formattime"@, label.format_time)) == Ok::<LabelProgress, LabelFault>(
            closed(LabelProgress { format_time: Some(label.format_time), ..p }),
        ),
        label_steps(p, field("volumeuuid"@, label.volume_uuid)) == Ok::<LabelProgress, LabelFault>(
            closed(LabelProgress { volume_uuid: Some(label.volume_uuid), ..p }),
        ),
{
    lemma_label_names();
    lemma_steps_element(p, "creator"@, label.creator, text_events(label.creator));
    lemma_steps_element(p, "formattime"@, label.format_time, text_events(label.format_time));
    lemma_steps_element(p, "volumeuuid"@, label.volume_uuid, text_events(label.volume_uuid));
}

proof fn lemma_numbers(p: LabelProgress, label: LabelModel)
    requires
        p.section is Root,
    ensures
        label_steps(p, raw_field("blocksize"@, decimal_spec(label.blocksize as nat))) == Ok::<
            LabelProgress,
            LabelFault,
        >(closed(LabelProgress { blocksize: Some(label.blocksize), ..p })),
        label_steps(p, raw_field("compression"@, bool_text(label.compression))) == Ok::<
            LabelProgress,
            LabelFault,
        >(closed(LabelProgress { compression: Some(label.compression), ..p })),
{
    lemma_label_names();
    lemma_value_texts(label);
    let size_text = decimal_spec(label.blocksize as nat);
    lemma_decimal(label.blocksize as nat);
    lemma_steps_element(p, "blocksize"@, size_text, seq![XmlEvent::Text(size_text)]);
    let flag_text = bool_text(label.compression);
    lemma_steps_element(p, "compression"@, flag_text, seq![XmlEvent::Text(flag_text)]);
}

proof fn lemma_location(p: LabelProgress, label: LabelModel)
    requires
        p.section is Root,
        label_storable(label),
    ensures
        label_steps(p, label_location(label)) == Ok::<LabelProgress, LabelFault>(
            closed(LabelProgress { this_partition: Some(label.this_partition), ..p }),
        ),
{
    lemma_label_names();
    lemma_partition_text(label.this_partition);
    let this_text = seq![partition_char(label.this_partition)];
    let inside = label_open(p, "location"@, "location"@);
    lemma_steps_one(p, XmlEvent::Start("location"@, "location"@));
    lemma_steps_element(inside, "partition"@, this_text, seq![XmlEvent::Text(this_text)]);
    let filled = closed(
        LabelProgress { this_partition: Some(label.this_partition), ..inside },
    );
    let open = seq![XmlEvent::Start("location"@, "location"@)];
    let part = raw_field("partition"@, this_text);
    lemma_steps_concat(p, open, part);
    lemma_steps_concat(p, open + part, seq![XmlEvent::End("location"@)]);
    lemma_steps_one(filled, XmlEvent::End("location"@));
}

proof fn lemma_partitions(p: LabelProgress, label: LabelModel)
    requires
        p.section is Root,
        label_storable(label),
    ensures
        label_steps(p, label_partitions(label)) == Ok::<LabelProgress, LabelFault>(
            closed(
                LabelProgress {
                    index_partition: Some(label.index_partition),
                    data_partition: Some(label.data_partition),
                    ..p
                },
            ),
        ),
{
    lemma_label_names();
    lemma_partition_text(label.index_partition);
    lemma_partition_text(label.data_partition);
    let index_text = seq![partition_char(label.index_partition)];
    let data_text = seq![partition_char(label.data_partition)];
    let inside = label_open(p, "partitions"@, "partitions"@);
    lemma_steps_one(p, XmlEvent::Start("partitions"@, "partitions"@));
    lemma_steps_element(inside, "index"@, index_text, seq![XmlEvent::Text(index_text)]);
    let half = closed(LabelProgress { index_partition: Some(label.index_partition), ..inside });
    lemma_steps_element(half, "data"@, data_text, seq![XmlEvent::Text(data_text)]);
    let filled = closed(LabelProgress { data_partition: Some(label.data_partition), ..half });
    let open = seq![XmlEvent::Start("partitions"@, "partitions"@)];
    let first = raw_field("index"@, index_text);
    let second = raw_field("data"@, data_text);
    lemma_steps_concat(inside, first, second);
    lemma_steps_concat(p, open, first + second);
    lemma_steps_concat(p, open + (first + second), seq![XmlEvent::End("partitions"@)]);
    lemma_steps_one(filled, XmlEvent::End("partitions"@));
}

proof fn lemma_label_tag(p: LabelProgress, label: LabelModel)
    requires
        plain_value(label.version),
    ensures
        label_step(p, label_start_tag(label)) == Ok::<LabelProgress, LabelFault>(
            LabelProgress {
                root_seen: true,
                version: Some(label.version),
                elem: "ltfslabel"@,
                field_text: Seq::empty(),
                ..p
            },
        ),
{
    lemma_label_names();
    lemma_escaped_plain(label.version);
    let content = attribute_content("ltfslabel"@, "version"@, label.version);
    reveal_strlit("ltfslabel");
    reveal_strlit("version");
    reveal_strlit(" ");
    reveal_strlit("=\"");
    reveal_strlit("\"");
    assert(quoted_value("ltfslabel"@, content, "version"@) =~= label.version);
    assert(has_single_attribute("ltfslabel"@, content, "version"@));
    assert(content.len() != "ltfslabel"@.len());
}

proof fn lemma_label_steps(label: LabelModel)
    requires
        label_storable(label),
    ensures
        label_steps(label_start(), label_events(label)) is Ok,
        label_finish(label_steps(label_start(), label_events(label))->Ok_0) == Ok::<
            LabelModel,
            LabelFault,
        >(label),
{
    let p0 = label_start();
    let tag = label_start_tag(label);
    lemma_label_tag(
        LabelProgress { field_text: Seq::<char>::empty() + "\n"@, ..p0 },
        label,
    );
    let p1 = LabelProgress {
        root_seen: true,
        version: Some(label.version),
        elem: "ltfslabel"@,
        field_text: Seq::empty(),
        ..p0
    };
    lemma_steps_break(p1);
    assert(Seq::<char>::empty() + "\n"@ =~= "\n"@);
    let p2 = LabelProgress { field_text: "\n"@, ..p1 };
    // The body, line by line.
    lemma_texts(p2, label);
    let line = field("creator"@, label.creator);
    let p3 = between(LabelProgress { creator: Some(label.creator), ..p2 });
    lemma_steps_line(p1, line_break(), p2, line, LabelProgress { creator: Some(label.creator), ..p2 });
    let d3 = line_break() + line + line_break();
    lemma_texts(p3, label);
    let line = field("formattime"@, label.format_time);
    let q4 = LabelProgress { format_time: Some(label.format_time), ..p3 };
    lemma_steps_line(p1, d3, p3, line, q4);
    let d4 = d3 + line + line_break();
    let p4 = between(q4);
    lemma_texts(p4, label);
    let line = field("volumeuuid"@, label.volume_uuid);
    let q5 = LabelProgress { volume_uuid: Some(label.volume_uuid), ..p4 };
    lemma_steps_line(p1, d4, p4, line, q5);
    let d5 = d4 + line + line_break();
    let p5 = between(q5);
    lemma_location(p5, label);
    let q6 = LabelProgress { this_partition: Some(label.this_partition), ..p5 };
    lemma_steps_line(p1, d5, p5, label_location(label), q6);
    let d6 = d5 + label_location(label) + line_break();
    let p6 = between(q6);
    lemma_partitions(p6, label);
    let q7 = LabelProgress {
        index_partition: Some(label.index_partition),
        data_partition: Some(label.data_partition),
        ..p6
    };
    lemma_steps_line(p1, d6, p6, label_partitions(label), q7);
    let d7 = d6 + label_partitions(label) + line_break();
    let p7 = between(q7);
    lemma_numbers(p7, label);
    let line = raw_field("blocksize"@, decimal_spec(label.blocksize as nat));
    let q8 = LabelProgress { blocksize: Some(label.blocksize), ..p7 };
    lemma_steps_line(p1, d7, p7, line, q8);
    let d8 = d7 + line + line_break();
    let p8 = between(q8);
    lemma_numbers(p8, label);
    let line = raw_field("compression"@, bool_text(label.compression));
    let q9 = LabelProgress { compression: Some(label.compression), ..p8 };
    lemma_steps_line(p1, d8, p8, line, q9);
    let p9 = between(q9);
    assert(label_steps(p1, label_body(label)) == Ok::<LabelProgress, LabelFault>(p9));
    lemma_label_frame(label, p9);
}

/// The events round the body leave what the body has set.
proof fn lemma_label_frame(label: LabelModel, last: LabelProgress)
    requires
        label_storable(label),
        last.elem == Seq::<char>::empty(),
        ({
            let p1 = LabelProgress {
                root_seen: true,
                version: Some(label.version),
                elem: "ltfslabel"@,
                field_text: Seq::empty(),
                ..label_start()
            };
            label_steps(p1, label_body(label)) == Ok::<LabelProgress, LabelFault>(last)
        }),
    ensures
        label_steps(label_start(), label_events(label)) is Ok,
        label_finish(label_steps(label_start(), label_events(label))->Ok_0) == label_finish(last),
{
    let p0 = label_start();
    let tag = label_start_tag(label);
    let d0 = seq![XmlEvent::Declaration];
    lemma_steps_one(p0, XmlEvent::Declaration);
    lemma_steps_concat(p0, d0, line_break());
    lemma_steps_break(p0);
    let p1 = LabelProgress { field_text: p0.field_text + "\n"@, ..p0 };
    lemma_label_tag(p1, label);
    lemma_steps_one(p1, tag);
    let p2 = label_step(p1, tag)->Ok_0;
    lemma_steps_concat(p1, seq![tag], label_body(label));
    let end = XmlEvent::End("ltfslabel"@);
    lemma_steps_concat(p1, seq![tag] + label_body(label), seq![end]);
    lemma_steps_one(last, end);
    reveal_strlit("creator");
    reveal_strlit("formattime");
    reveal_strlit("volumeuuid");
    reveal_strlit("blocksize");
    reveal_strlit("compression");
    reveal_strlit("partition");
    reveal_strlit("index");
    reveal_strlit("data");
    assert(label_field(last) == Ok::<LabelProgress, LabelFault>(last)) by {
        assert(last.elem.len() == 0);
    }
    let p3 = label_close(last, "ltfslabel"@);
    lemma_steps_concat(p0, d0 + line_break(), label_root(label));
    lemma_steps_concat(p0, d0 + line_break() + label_root(label), line_break());
    lemma_steps_break(p3);
}

/// The document of a label is plain, and it is read back as that label: from its events,
/// and from whatever events a reader gives of its text.
pub proof fn label_reads_back(label: LabelModel)
    requires
        label_storable(label),
    ensures
        forall|events: Seq<XmlEvent>| #[trigger]
            read_plainly(label_xml(label), events) ==> label_from(events) == Ok::<
                LabelModel,
                LabelFault,
            >(label),
        plain_document(label_events(label)),
        label_from(label_events(label).push(XmlEvent::Eof)) == Ok::<LabelModel, LabelFault>(label),
{
    lemma_label_plain(label);
    lemma_label_steps(label);
    let events = label_events(label);
    let rest = seq![XmlEvent::Eof];
    assert(events.push(XmlEvent::Eof) =~= events + rest);
    assert forall|i: int| 0 <= i < events.len() implies !((#[trigger] events[i]) is Eof) by {
        assert(plain_event(events[i]));
    }
    lemma_read_steps(label_start(), events, rest);
}

} // verus!
