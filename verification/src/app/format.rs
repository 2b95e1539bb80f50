//! Formatting a cartridge as a new LTFS volume.
use vstd::prelude::*;
use vstd::string::*;
use vstd::utf8::*;

use super::flow::{failure, failure_of, refusal, refusal_of, CommandModel, TapeCommand, TapeReply};

use crate::device::tape::MamAttributeFormat;
use crate::ltfs::index::{
    entry_models, lemma_entries, AttributeEntry, DirModel, Directory, EntryModel, FileTimes, Index,
    IndexModel, TapePos, TimesModel,
};
use crate::ltfs::index_xml::index_xml;
use crate::ltfs::label::{ansi_record, is_barcode, label_xml, AnsiLabel, Label, LabelModel};
use crate::ltfs::mam::{
    attribute_models, eight_bytes, format_host_attributes, host_attributes, is_uuid, is_vcr,
    vci_bytes, AttributeModel, AttributeValue, ValueFormat, VciModel, VolumeCoherencyInformation,
    VOLUME_CHANGE_REFERENCE, VOLUME_COHERENCY_INFORMATION,
};
use crate::text::{
    cat3, cat4, cat6, chars_of, decimal, decimal_spec, hex_padded, hex_spec, is_digit, views,
};

verus! {

/// What a new volume is to be.
#[derive(Debug, Clone, PartialEq, Eq)]
pub struct FormatOptions {
    /// The volume serial: six characters.
    pub barcode: String,
    /// The name of the root directory.
    pub volume_name: String,
    /// The largest record.
    pub block_size: u64,
    pub compression: bool,
}

/// The model of the options.
#[verifier::ext_equal]
pub struct FormatRequest {
    pub barcode: Seq<char>,
    pub volume_name: Seq<char>,
    pub block_size: u64,
    pub compression: bool,
}

impl View for FormatOptions {
    type V = FormatRequest;

    open spec fn view(&self) -> FormatRequest {
        FormatRequest {
            barcode: self.barcode@,
            volume_name: self.volume_name@,
            block_size: self.block_size,
            compression: self.compression,
        }
    }
}

/// Unicode's control characters.
pub open spec fn is_control(c: char) -> bool {
    (c as u32) < 0x20 || 0x7f <= (c as u32) <= 0x9f
}

/// Whether a character is a control character.
pub fn is_control_char(c: char) -> (yes: bool)
    ensures
        yes == is_control(c),
{
    let n: u32 = c as u32;
    n < 0x20 || (0x7f <= n && n <= 0x9f)
}

/// A request for records of 512 KiB and compression.
pub open spec fn new_request(barcode: Seq<char>, volume_name: Seq<char>) -> FormatRequest {
    FormatRequest { barcode, volume_name, block_size: 524288, compression: true }
}

pub open spec fn has_control(text: Seq<char>) -> bool {
    exists|i: int| 0 <= i < text.len() && is_control(#[trigger] text[i])
}

/// What is wrong with the options.
pub open spec fn format_fault(r: FormatRequest) -> Option<Seq<char>> {
    if !is_barcode(r.barcode) {
        Some("Barcode 必须是 6 位大写 ASCII 字母或数字"@)
    } else if r.volume_name.len() == 0 {
        Some("LTFS Volume Name 不能为空"@)
    } else if has_control(r.volume_name) {
        Some("LTFS Volume Name 不能包含控制字符"@)
    } else if r.block_size == 0 || r.block_size > 1048576 {
        Some("LTFS block size 必须在 1..=1048576 字节范围内"@)
    } else {
        None
    }
}

fn contains_control(text: &str) -> (yes: bool)
    ensures
        yes == has_control(text@),
{
    let chars = chars_of(text);
    let mut i: usize = 0;
    while i < chars.len()
        invariant
            i <= chars@.len(),
            chars@ == text@,
            forall|j: int| 0 <= j < i ==> !is_control(#[trigger] text@[j]),
        decreases chars@.len() - i,
    {
        if is_control_char(chars[i]) {
            assert(is_control(text@[i as int]));
            return true;
        }
        i = i + 1;
    }
    false
}

impl FormatOptions {
    /// Options with records of 512 KiB and compression.
    pub fn new(barcode: &str, volume_name: &str) -> (options: FormatOptions)
        ensures
            options@ == new_request(barcode@, volume_name@),
    {
        FormatOptions {
            barcode: barcode.to_owned(),
            volume_name: volume_name.to_owned(),
            block_size: 524288,
            compression: true,
        }
    }

    /// Whether a volume can be made with the options.
    pub fn validate(&self) -> (result: Result<(), String>)
        ensures
            match result {
                Ok(_) => format_fault(self@) is None,
                Err(message) => format_fault(self@) == Some(message@),
            },
    {
        let label = AnsiLabel { barcode: self.barcode.clone() };
        match label.to_bytes() {
            Ok(_) => {},
            Err(error) => {
                return Err(error.text());
            },
        }
        if self.volume_name.as_str().is_empty() {
            return Err("LTFS Volume Name 不能为空".to_owned());
        }
        if contains_control(self.volume_name.as_str()) {
            return Err("LTFS Volume Name 不能包含控制字符".to_owned());
        }
        if self.block_size == 0 || self.block_size > 1048576 {
            return Err("LTFS block size 必须在 1..=1048576 字节范围内".to_owned());
        }
        Ok(())
    }
}

// ---------------------------------------------------------------------------
// The image of a new volume
// ---------------------------------------------------------------------------

/// Everything that is written to the two partitions of a new volume.
#[derive(Debug)]
pub struct InitialFormatImage {
    pub ansi: [u8; 80],
    pub data_label_xml: String,
    pub index_label_xml: String,
    pub data_index_xml: String,
    pub index_index_xml: String,
}

/// The label of a new volume on one of its partitions.
pub open spec fn initial_label(
    r: FormatRequest,
    uuid: Seq<char>,
    time: Seq<char>,
    version: Seq<char>,
    partition: u8,
) -> LabelModel {
    LabelModel {
        version: "2.4.0"@,
        creator: "tapecpy "@ + version + " - Linux - format"@,
        format_time: time,
        volume_uuid: uuid,
        blocksize: r.block_size,
        compression: r.compression,
        this_partition: partition,
        index_partition: 0,
        data_partition: 1,
    }
}

/// The same time for everything.
pub open spec fn all_times(time: Seq<char>) -> TimesModel {
    TimesModel {
        creation_time: Some(time),
        change_time: Some(time),
        modify_time: Some(time),
        access_time: Some(time),
        backup_time: Some(time),
    }
}

/// The first index of a new volume on one of its partitions. The copy on the index
/// partition points back to the one on the data partition.
pub open spec fn initial_index(
    r: FormatRequest,
    uuid: Seq<char>,
    time: Seq<char>,
    version: Seq<char>,
    partition: u8,
) -> IndexModel {
    IndexModel {
        version: "2.4.0"@,
        creator: "tapecpy "@ + version + " - Linux - format"@,
        volume_uuid: uuid,
        volume_name: Some(r.volume_name),
        generation: 1,
        update_time: time,
        self_location: TapePos { partition, startblock: 5 },
        previous_location: if partition == 0 {
            Some(TapePos { partition: 1, startblock: 5 })
        } else {
            None
        },
        allow_policy_update: false,
        volume_lock_state: Some("unlocked"@),
        highest_file_uid: Some(1),
        file_count: 0,
        directory_count: 0,
        root: DirModel {
            name: r.volume_name,
            fileuid: 1,
            readonly: false,
            times: all_times(time),
            extended_attributes: Seq::empty(),
            entries: Seq::empty(),
        },
    }
}

/// Makes everything that is written to a new volume: on each partition VOL1 in block 0,
/// the label in block 2 and the first index in block 5, with file marks between them.
pub fn build_initial_format_image(
    options: &FormatOptions,
    volume_uuid: &str,
    format_time: &str,
    app_version: &str,
) -> (result: Result<InitialFormatImage, String>)
    ensures
        match result {
            Ok(image) => format_fault(options@) is None && image.ansi@ == ansi_record(
                options.barcode@,
            ) && image.data_label_xml@ == label_xml(
                initial_label(options@, volume_uuid@, format_time@, app_version@, 1),
            ) && image.index_label_xml@ == label_xml(
                initial_label(options@, volume_uuid@, format_time@, app_version@, 0),
            ) && image.data_index_xml@ == index_xml(
                initial_index(options@, volume_uuid@, format_time@, app_version@, 1),
            ) && image.index_index_xml@ == index_xml(
                initial_index(options@, volume_uuid@, format_time@, app_version@, 0),
            ),
            Err(message) => format_fault(options@) == Some(message@),
        },
{
    match options.validate() {
        Ok(_) => {},
        Err(message) => {
            return Err(message);
        },
    }
    let creator = cat3("tapecpy ", app_version, " - Linux - format");
    let ansi_label = AnsiLabel { barcode: options.barcode.clone() };
    let ansi = match ansi_label.to_bytes() {
        Ok(ansi) => ansi,
        Err(error) => {
            return Err(error.text());
        },
    };
    let mut label = Label {
        version: "2.4.0".to_owned(),
        creator: creator.clone(),
        format_time: format_time.to_owned(),
        volume_uuid: volume_uuid.to_owned(),
        blocksize: options.block_size,
        compression: options.compression,
        this_partition: 1,
        index_partition: 0,
        data_partition: 1,
    };
    let data_label_xml = label.to_xml();
    label.this_partition = 0;
    let index_label_xml = label.to_xml();
    let root = Directory {
        name: options.volume_name.clone(),
        fileuid: 1,
        readonly: false,
        times: FileTimes {
            creation_time: Some(format_time.to_owned()),
            change_time: Some(format_time.to_owned()),
            modify_time: Some(format_time.to_owned()),
            access_time: Some(format_time.to_owned()),
            backup_time: Some(format_time.to_owned()),
        },
        extended_attributes: Vec::new(),
        entries: Vec::new(),
    };
    proof {
        lemma_entries(root);
        assert(entry_models(root.entries@) =~= Seq::<EntryModel>::empty());
        assert(crate::ltfs::index::attribute_entries(root.extended_attributes@) =~= Seq::<
            AttributeEntry,
        >::empty());
    }
    let mut index = Index {
        version: "2.4.0".to_owned(),
        creator,
        volume_uuid: volume_uuid.to_owned(),
        volume_name: Some(options.volume_name.clone()),
        generation: 1,
        update_time: format_time.to_owned(),
        self_location: TapePos { partition: 1, startblock: 5 },
        previous_location: None,
        allow_policy_update: false,
        volume_lock_state: Some("unlocked".to_owned()),
        highest_file_uid: Some(1),
        file_count: 0,
        directory_count: 0,
        root,
    };
    assert(index@ =~= initial_index(options@, volume_uuid@, format_time@, app_version@, 1));
    let data_index_xml = index.to_xml();
    index.self_location = TapePos { partition: 0, startblock: 5 };
    index.previous_location = Some(TapePos { partition: 1, startblock: 5 });
    assert(index@ =~= initial_index(options@, volume_uuid@, format_time@, app_version@, 0));
    let index_index_xml = index.to_xml();
    Ok(
        InitialFormatImage {
            ansi,
            data_label_xml,
            index_label_xml,
            data_index_xml,
            index_index_xml,
        },
    )
}

/// The two labels of a new volume name the same volume and the same roles, and the two
/// indexes differ only in where they stand and in the pointer from the index partition
/// to the data partition.
pub proof fn initial_copies_agree(
    r: FormatRequest,
    uuid: Seq<char>,
    time: Seq<char>,
    version: Seq<char>,
)
    ensures
        initial_label(r, uuid, time, version, 0) == (LabelModel {
            this_partition: 0,
            ..initial_label(r, uuid, time, version, 1)
        }),
        initial_index(r, uuid, time, version, 0) == (IndexModel {
            self_location: TapePos { partition: 0, startblock: 5 },
            previous_location: Some(
                initial_index(r, uuid, time, version, 1).self_location,
            ),
            ..initial_index(r, uuid, time, version, 1)
        }),
{
}

// ---------------------------------------------------------------------------
// Identifiers
// ---------------------------------------------------------------------------

/// The random bytes with the version and the variant of a random UUID.
pub open spec fn versioned(bytes: Seq<u8>) -> Seq<u8> {
    bytes.update(6, (bytes[6] % 16 + 0x40) as u8).update(8, (bytes[8] % 64 + 0x80) as u8)
}

/// Two hexadecimal digits for each of the bytes from one position to another.
pub open spec fn hex_run(bytes: Seq<u8>, from: int, to: int) -> Seq<char>
    decreases to - from,
{
    if from >= to {
        Seq::empty()
    } else {
        hex_run(bytes, from, to - 1) + hex_spec(bytes[to - 1] as nat, 2)
    }
}

fn hex_run_of(bytes: &[u8], from: usize, to: usize) -> (text: String)
    requires
        from <= to <= bytes@.len(),
    ensures
        text@ == hex_run(bytes@, from as int, to as int),
{
    let mut text = String::new();
    let mut i: usize = from;
    while i < to
        invariant
            from <= i <= to <= bytes@.len(),
            text@ == hex_run(bytes@, from as int, i as int),
        decreases to - i,
    {
        text.append(hex_padded(bytes[i] as u64, 2).as_str());
        i = i + 1;
    }
    text
}

/// The text of a random UUID.
pub open spec fn uuid_text(random: Seq<u8>) -> Seq<char> {
    let b = versioned(random);
    hex_run(b, 0, 4) + "-"@ + hex_run(b, 4, 6) + "-"@ + hex_run(b, 6, 8) + "-"@ + hex_run(b, 8, 10)
        + "-"@ + hex_run(b, 10, 16)
}

/// A volume identifier made of sixteen random bytes.
pub fn uuid_from_random(random: [u8; 16]) -> (uuid: String)
    ensures
        uuid@ == uuid_text(random@),
{
    let mut b = random;
    let version: u8 = b[6] % 16 + 0x40;
    let variant: u8 = b[8] % 64 + 0x80;
    b[6] = version;
    b[8] = variant;
    assert(b@ =~= versioned(random@));
    let mut uuid = cat6(
        hex_run_of(&b, 0, 4).as_str(),
        "-",
        hex_run_of(&b, 4, 6).as_str(),
        "-",
        hex_run_of(&b, 6, 8).as_str(),
        "-",
    );
    uuid.append(hex_run_of(&b, 8, 10).as_str());
    uuid.append("-");
    uuid.append(hex_run_of(&b, 10, 16).as_str());
    uuid
}

/// The first `n` decimal digits of a text.
pub open spec fn first_digits(text: Seq<char>, n: nat) -> Seq<char>
    decreases text.len(),
{
    if text.len() == 0 {
        Seq::empty()
    } else {
        let before = first_digits(text.drop_last(), n);
        if is_digit(text.last()) && before.len() < n {
            before.push(text.last())
        } else {
            before
        }
    }
}

/// The first twelve digits of a time: year, month, day, hour and minute.
pub fn written_time(format_time: &str) -> (digits: String)
    ensures
        digits@ == first_digits(format_time@, 12),
{
    let chars = chars_of(format_time);
    let mut digits = String::new();
    let mut count: usize = 0;
    let mut i: usize = 0;
    assert(chars@.subrange(0, 0) =~= Seq::<char>::empty());
    while i < chars.len()
        invariant
            i <= chars@.len(),
            count <= i,
            count == digits@.len(),
            digits@ == first_digits(chars@.subrange(0, i as int), 12),
        decreases chars@.len() - i,
    {
        proof {
            let next = chars@.subrange(0, i + 1);
            assert(next.drop_last() =~= chars@.subrange(0, i as int));
        }
        let c = chars[i];
        if '0' <= c && c <= '9' && count < 12 {
            digits.push(c);
            count = count + 1;
        }
        i = i + 1;
    }
    assert(chars@.subrange(0, i as int) =~= format_time@);
    digits
}

// ---------------------------------------------------------------------------
// The run
// ---------------------------------------------------------------------------

#[derive(Debug, Clone, Copy, PartialEq, Eq, Structural)]
pub enum FormatPhase {
    Preparing,
    Partitioning,
    WritingMam,
    WritingDataPartition,
    WritingIndexPartition,
    WritingCoherency,
    Completed,
}

/// What is reported while a cartridge is formatted.
#[derive(Debug, Clone, PartialEq, Eq)]
pub struct FormatEvent {
    pub phase: FormatPhase,
    pub message: String,
}

/// The model of an event.
#[verifier::ext_equal]
pub struct FormatNote {
    pub phase: FormatPhase,
    pub message: Seq<char>,
}

impl View for FormatEvent {
    type V = FormatNote;

    open spec fn view(&self) -> FormatNote {
        FormatNote { phase: self.phase, message: self.message@ }
    }
}

pub open spec fn note(phase: FormatPhase, message: Seq<char>) -> FormatNote {
    FormatNote { phase, message }
}

pub open spec fn format_notes(list: Seq<FormatEvent>) -> Seq<FormatNote> {
    list.map_values(|e: FormatEvent| e@)
}

fn emit_format(phase: FormatPhase, message: &str) -> (event: FormatEvent)
    ensures
        event@ == note(phase, message@),
{
    FormatEvent { phase, message: message.to_owned() }
}

/// What came of a format.
#[derive(Debug, Clone, PartialEq, Eq)]
pub struct FormatResult {
    pub barcode: String,
    pub volume_name: String,
    pub volume_uuid: String,
    pub generation: u64,
}

/// What is reported of a format that has ended well: the volume is in its first
/// generation.
pub fn format_result(options: &FormatOptions, volume_uuid: &str) -> (result: FormatResult)
    ensures
        result.barcode@ == options.barcode@,
        result.volume_name@ == options.volume_name@,
        result.volume_uuid@ == volume_uuid@,
        result.generation == 1,
{
    FormatResult {
        barcode: options.barcode.clone(),
        volume_name: options.volume_name.clone(),
        volume_uuid: volume_uuid.to_owned(),
        generation: 1,
    }
}

/// A step of a format, and what is expected of it.
#[derive(Debug, PartialEq, Eq)]
pub enum FormatKind {
    /// The command has to be done.
    Command(TapeCommand),
    /// An attribute is written; where it is optional, a failure is only reported.
    Attribute { id: u16, format: MamAttributeFormat, value: Vec<u8>, required: bool },
    /// The tape has to stand at block 5 of the partition.
    Position { partition: u8 },
    /// The volume change reference is read.
    Reference,
    /// The coherency information of a partition is written.
    Coherency { partition: u8 },
}

/// The model of a step.
pub enum FormatKindModel {
    Command(CommandModel),
    Attribute { id: u16, format: MamAttributeFormat, value: Seq<u8>, required: bool },
    Position { partition: u8 },
    Reference,
    Coherency { partition: u8 },
}

impl View for FormatKind {
    type V = FormatKindModel;

    open spec fn view(&self) -> FormatKindModel {
        match *self {
            FormatKind::Command(command) => FormatKindModel::Command(command@),
            FormatKind::Attribute { id, format, value, required } => FormatKindModel::Attribute {
                id,
                format,
                value: value@,
                required,
            },
            FormatKind::Position { partition } => FormatKindModel::Position { partition },
            FormatKind::Reference => FormatKindModel::Reference,
            FormatKind::Coherency { partition } => FormatKindModel::Coherency { partition },
        }
    }
}

/// A step with what is reported before it.
#[derive(Debug, PartialEq, Eq)]
pub struct FormatStep {
    pub event: Option<FormatEvent>,
    pub kind: FormatKind,
}

/// The model of a step with what is reported before it.
#[verifier::ext_equal]
pub struct FormatStepModel {
    pub event: Option<FormatNote>,
    pub kind: FormatKindModel,
}

impl View for FormatStep {
    type V = FormatStepModel;

    open spec fn view(&self) -> FormatStepModel {
        FormatStepModel {
            event: match self.event {
                Some(e) => Some(e@),
                None => None,
            },
            kind: self.kind@,
        }
    }
}

pub open spec fn step_models(list: Seq<FormatStep>) -> Seq<FormatStepModel> {
    list.map_values(|s: FormatStep| s@)
}

pub open spec fn plain_step(kind: FormatKindModel) -> FormatStepModel {
    FormatStepModel { event: None, kind }
}

pub open spec fn announced(event: FormatNote, kind: FormatKindModel) -> FormatStepModel {
    FormatStepModel { event: Some(event), kind }
}

pub open spec fn mam_format(format: ValueFormat) -> MamAttributeFormat {
    match format {
        ValueFormat::Binary => MamAttributeFormat::Binary,
        ValueFormat::Ascii => MamAttributeFormat::Ascii,
        ValueFormat::Text => MamAttributeFormat::Text,
    }
}

/// The steps that write the attributes of a volume.
pub open spec fn attribute_steps(list: Seq<AttributeModel>) -> Seq<FormatStepModel> {
    Seq::new(
        list.len(),
        |i: int|
            FormatStepModel {
                event: if i == 0 {
                    Some(note(FormatPhase::WritingMam, "写入 LTFS MAM attributes"@))
                } else {
                    None
                },
                kind: FormatKindModel::Attribute {
                    id: list[i].id,
                    format: mam_format(list[i].format),
                    value: list[i].value,
                    required: list[i].required,
                },
            },
    )
}

/// The steps that write a partition from its start: VOL1, a file mark, the label, two
/// file marks, the index in block 5, a file mark.
pub open spec fn partition_steps(
    event: FormatNote,
    partition: u8,
    ansi: Seq<u8>,
    label: Seq<char>,
    index: Seq<char>,
) -> Seq<FormatStepModel> {
    seq![
        announced(
            event,
            FormatKindModel::Command(CommandModel::Locate { partition, block: 0 }),
        ),
        plain_step(FormatKindModel::Command(CommandModel::WriteRecord { data: ansi })),
        plain_step(FormatKindModel::Command(CommandModel::WriteFilemark)),
        plain_step(
            FormatKindModel::Command(CommandModel::WriteRecord { data: encode_utf8(label) }),
        ),
        plain_step(FormatKindModel::Command(CommandModel::WriteFilemark)),
        plain_step(FormatKindModel::Command(CommandModel::WriteFilemark)),
        plain_step(FormatKindModel::Position { partition }),
        plain_step(
            FormatKindModel::Command(CommandModel::WriteRecord { data: encode_utf8(index) }),
        ),
        plain_step(FormatKindModel::Command(CommandModel::WriteFilemark)),
    ]
}

/// All steps of a format: the partitions, the attributes, the data partition, the index
/// partition, and last the coherency information of both.
pub open spec fn format_script(
    r: FormatRequest,
    uuid: Seq<char>,
    time: Seq<char>,
    version: Seq<char>,
) -> Seq<FormatStepModel> {
    seq![
        announced(
            note(FormatPhase::Partitioning, "创建 index/data 两个分区"@),
            FormatKindModel::Command(CommandModel::EnsureWriteAnywhere),
        ),
        plain_step(FormatKindModel::Command(CommandModel::FormatLtfsPartitions)),
        plain_step(FormatKindModel::Command(CommandModel::SetVariableBlock)),
    ] + attribute_steps(
        host_attributes(r.volume_name, r.barcode, uuid, version, first_digits(time, 12)),
    ) + partition_steps(
        note(FormatPhase::WritingDataPartition, "写入 data 分区 label/index"@),
        1,
        ansi_record(r.barcode),
        label_xml(initial_label(r, uuid, time, version, 1)),
        index_xml(initial_index(r, uuid, time, version, 1)),
    ) + partition_steps(
        note(FormatPhase::WritingIndexPartition, "写入 index 分区 label/index"@),
        0,
        ansi_record(r.barcode),
        label_xml(initial_label(r, uuid, time, version, 0)),
        index_xml(initial_index(r, uuid, time, version, 0)),
    ) + seq![
        announced(
            note(FormatPhase::WritingCoherency, "写入两分区 Volume Coherency Information"@),
            FormatKindModel::Command(CommandModel::Flush),
        ),
        plain_step(FormatKindModel::Reference),
        plain_step(FormatKindModel::Coherency { partition: 0 }),
        plain_step(FormatKindModel::Coherency { partition: 1 }),
    ]
}

/// What a run waits for.
#[derive(Debug, Clone, Copy, PartialEq, Eq, Structural)]
pub enum FormatWait {
    Done,
    Attribute { id: u16, required: bool },
    Position { partition: u8 },
    Reference,
    Ended,
}

/// A run that formats a cartridge.
pub struct FormatSession {
    rest: Vec<FormatStep>,
    wait: FormatWait,
    warnings: Vec<String>,
    vcr: Vec<u8>,
    volume_uuid: String,
}

/// The model of a run: the steps ahead, what it waits for, the attributes that were not
/// written, and the volume change reference.
#[verifier::ext_equal]
pub struct FormatState {
    pub rest: Seq<FormatStepModel>,
    pub wait: FormatWait,
    pub warnings: Seq<Seq<char>>,
    pub vcr: Seq<u8>,
    pub volume_uuid: Seq<char>,
}

impl View for FormatSession {
    type V = FormatState;

    closed spec fn view(&self) -> FormatState {
        FormatState {
            rest: step_models(self.rest@),
            wait: self.wait,
            warnings: views(self.warnings@),
            vcr: self.vcr@,
            volume_uuid: self.volume_uuid@,
        }
    }
}

/// What a run does next.
#[derive(Debug, PartialEq, Eq)]
pub enum FormatAction {
    Command(TapeCommand),
    Finished(Result<(), String>),
}

pub enum FormatActionModel {
    Command(CommandModel),
    Finished(Result<(), Seq<char>>),
}

impl View for FormatAction {
    type V = FormatActionModel;

    open spec fn view(&self) -> FormatActionModel {
        match *self {
            FormatAction::Command(command) => FormatActionModel::Command(command@),
            FormatAction::Finished(result) => FormatActionModel::Finished(
                match result {
                    Ok(_) => Ok(()),
                    Err(message) => Err(message@),
                },
            ),
        }
    }
}

/// A move of a run: what is reported first, and what is done then.
#[derive(Debug, PartialEq, Eq)]
pub struct FormatMove {
    pub events: Vec<FormatEvent>,
    pub action: FormatAction,
}

/// A move of a run, with the state behind it.
#[verifier::ext_equal]
pub struct FormatTurn {
    pub state: FormatState,
    pub events: Seq<FormatNote>,
    pub action: FormatActionModel,
}

pub open spec fn format_move(state: FormatState, m: FormatMove) -> FormatTurn {
    FormatTurn { state, events: format_notes(m.events@), action: m.action@ }
}

/// What a run that ends reports and returns.
pub open spec fn format_ends(
    s: FormatState,
    events: Seq<FormatNote>,
    result: Result<(), Seq<char>>,
) -> FormatTurn {
    FormatTurn {
        state: FormatState { wait: FormatWait::Ended, ..s },
        events,
        action: FormatActionModel::Finished(result),
    }
}

/// The warnings are reported once the attributes are behind.
pub open spec fn warning_notes(warnings: Seq<Seq<char>>) -> Seq<FormatNote> {
    warnings.map_values(|w: Seq<char>| note(FormatPhase::WritingMam, w))
}

/// The coherency information of a partition, or why there is none.
pub open spec fn initial_vci(vcr: Seq<u8>, uuid: Seq<char>) -> Result<Seq<u8>, Seq<char>> {
    if !is_uuid(uuid) {
        Err("volume UUID 格式无效"@)
    } else if !is_vcr(vcr) {
        Err("VCR 无效（为空、全零或全 FF）"@)
    } else {
        Ok(
            vci_bytes(
                VciModel {
                    vcr: eight_bytes(vcr),
                    generation: 1,
                    block: 5,
                    volume_uuid: uuid,
                    acsi_version: 1,
                },
            ),
        )
    }
}

/// The run enters its next step, or ends where there is none.
pub open spec fn format_advance(s: FormatState) -> FormatTurn {
    if s.rest.len() == 0 {
        format_ends(s, seq![note(FormatPhase::Completed, "LTFS format 完成"@)], Ok(()))
    } else {
        let step = s.rest[0];
        let past_attributes = !(step.kind is Attribute);
        let first = if past_attributes {
            warning_notes(s.warnings)
        } else {
            Seq::empty()
        };
        let events = match step.event {
            Some(e) => first.push(e),
            None => first,
        };
        let t = FormatState {
            rest: s.rest.drop_first(),
            warnings: if past_attributes {
                Seq::empty()
            } else {
                s.warnings
            },
            ..s
        };
        match step.kind {
            FormatKindModel::Command(command) => FormatTurn {
                state: FormatState { wait: FormatWait::Done, ..t },
                events,
                action: FormatActionModel::Command(command),
            },
            FormatKindModel::Attribute { id, format, value, required } => FormatTurn {
                state: FormatState { wait: FormatWait::Attribute { id, required }, ..t },
                events,
                action: FormatActionModel::Command(
                    CommandModel::WriteMam { partition: 0, id, format, value },
                ),
            },
            FormatKindModel::Position { partition } => FormatTurn {
                state: FormatState { wait: FormatWait::Position { partition }, ..t },
                events,
                action: FormatActionModel::Command(CommandModel::ReadPosition),
            },
            FormatKindModel::Reference => FormatTurn {
                state: FormatState { wait: FormatWait::Reference, ..t },
                events,
                action: FormatActionModel::Command(
                    CommandModel::ReadMam { partition: 0, id: VOLUME_CHANGE_REFERENCE },
                ),
            },
            FormatKindModel::Coherency { partition } => match initial_vci(s.vcr, s.volume_uuid) {
                Ok(value) => FormatTurn {
                    state: FormatState { wait: FormatWait::Done, ..t },
                    events,
                    action: FormatActionModel::Command(
                        CommandModel::WriteMam {
                            partition,
                            id: VOLUME_COHERENCY_INFORMATION,
                            format: MamAttributeFormat::Binary,
                            value,
                        },
                    ),
                },
                Err(message) => format_ends(t, events, Err(message)),
            },
        }
    }
}

/// The next move of a run, given what came of its last command.
pub open spec fn format_next(s: FormatState, reply: TapeReply) -> FormatTurn {
    match s.wait {
        FormatWait::Done => match failure(reply) {
            None => format_advance(s),
            Some(message) => format_ends(s, Seq::empty(), Err(message)),
        },
        FormatWait::Attribute { id, required } => match failure(reply) {
            None => format_advance(s),
            Some(message) => if required {
                format_ends(s, Seq::empty(), Err(message))
            } else {
                format_advance(
                    FormatState {
                        warnings: s.warnings.push(
                            "可选 MAM attribute 0x"@ + upper_hex(id) + " 不受支持："@ + message,
                        ),
                        ..s
                    },
                )
            },
        },
        FormatWait::Position { partition } => match reply {
            TapeReply::Position(at) => if at.partition == partition && at.block == 5 {
                format_advance(s)
            } else {
                format_ends(
                    s,
                    Seq::empty(),
                    Err(
                        "初始 index 位置异常：期望 p"@ + decimal_spec(partition as nat)
                            + "b5，实际 p"@ + decimal_spec(at.partition as nat) + "b"@
                            + decimal_spec(at.block as nat),
                    ),
                )
            },
            _ => format_ends(s, Seq::empty(), Err(refusal(reply))),
        },
        FormatWait::Reference => match reply {
            TapeReply::Bytes(bytes) => format_advance(FormatState { vcr: bytes@, ..s }),
            _ => format_ends(s, Seq::empty(), Err(refusal(reply))),
        },
        FormatWait::Ended => format_ends(s, Seq::empty(), Err(refusal(reply))),
    }
}

/// A hexadecimal digit in upper case.
pub open spec fn upper_digit(d: nat) -> char {
    if d < 10 {
        (('0' as u32) + d) as char
    } else {
        (('A' as u32) + (d - 10)) as char
    }
}

/// Four hexadecimal digits in upper case.
pub open spec fn upper_hex(n: u16) -> Seq<char> {
    seq![
        upper_digit((n / 4096) as nat),
        upper_digit((n / 256 % 16) as nat),
        upper_digit((n / 16 % 16) as nat),
        upper_digit((n % 16) as nat),
    ]
}

fn upper_digit_of(d: u16) -> (c: char)
    requires
        d < 16,
    ensures
        c == upper_digit(d as nat),
{
    if d < 10 {
        (48 + d as u8) as char
    } else {
        (65 + (d as u8 - 10)) as char
    }
}

fn upper_hex_of(n: u16) -> (text: String)
    ensures
        text@ == upper_hex(n),
{
    let mut text = String::new();
    text.push(upper_digit_of(n / 4096));
    text.push(upper_digit_of(n / 256 % 16));
    text.push(upper_digit_of(n / 16 % 16));
    text.push(upper_digit_of(n % 16));
    assert(text@ =~= upper_hex(n));
    text
}

fn push_step(script: &mut Vec<FormatStep>, event: Option<FormatEvent>, kind: FormatKind)
    ensures
        step_models(final(script)@) == step_models(old(script)@).push(
            FormatStepModel {
                event: match event {
                    Some(e) => Some(e@),
                    None => None,
                },
                kind: kind@,
            },
        ),
{
    let ghost before = script@;
    let step = FormatStep { event, kind };
    script.push(step);
    assert(step_models(script@) =~= step_models(before).push(step@));
}

fn text_bytes(text: &String) -> (bytes: Vec<u8>)
    ensures
        bytes@ == encode_utf8(text@),
{
    vstd::slice::slice_to_vec(text.as_str().as_bytes())
}

fn push_partition(
    script: &mut Vec<FormatStep>,
    event: FormatEvent,
    partition: u8,
    ansi: &[u8; 80],
    label: &String,
    index: &String,
)
    ensures
        step_models(final(script)@) == step_models(old(script)@) + partition_steps(
            event@,
            partition,
            ansi@,
            label@,
            index@,
        ),
{
    push_step(
        script,
        Some(event),
        FormatKind::Command(TapeCommand::Locate { partition, block: 0 }),
    );
    push_step(
        script,
        None,
        FormatKind::Command(
            TapeCommand::WriteRecord { data: vstd::slice::slice_to_vec(ansi.as_slice()) },
        ),
    );
    push_step(script, None, FormatKind::Command(TapeCommand::WriteFilemark));
    push_step(
        script,
        None,
        FormatKind::Command(TapeCommand::WriteRecord { data: text_bytes(label) }),
    );
    push_step(script, None, FormatKind::Command(TapeCommand::WriteFilemark));
    push_step(script, None, FormatKind::Command(TapeCommand::WriteFilemark));
    push_step(script, None, FormatKind::Position { partition });
    push_step(
        script,
        None,
        FormatKind::Command(TapeCommand::WriteRecord { data: text_bytes(index) }),
    );
    push_step(script, None, FormatKind::Command(TapeCommand::WriteFilemark));
    assert(step_models(script@) =~= step_models(old(script)@) + partition_steps(
        event@,
        partition,
        ansi@,
        label@,
        index@,
    ));
}

fn push_attributes(script: &mut Vec<FormatStep>, list: Vec<AttributeValue>)
    ensures
        step_models(final(script)@) == step_models(old(script)@) + attribute_steps(
            attribute_models(list@),
        ),
{
    let ghost before = step_models(script@);
    let ghost models = attribute_models(list@);
    let mut i: usize = 0;
    assert(step_models(script@) =~= before + attribute_steps(models).subrange(0, 0));
    while i < list.len()
        invariant
            i <= list@.len(),
            models == attribute_models(list@),
            step_models(script@) == before + attribute_steps(models).subrange(0, i as int),
        decreases list@.len() - i,
    {
        let a = &list[i];
        assert(models[i as int] == a@);
        let format = match a.format {
            ValueFormat::Binary => MamAttributeFormat::Binary,
            ValueFormat::Ascii => MamAttributeFormat::Ascii,
            ValueFormat::Text => MamAttributeFormat::Text,
        };
        let event = if i == 0 {
            Some(emit_format(FormatPhase::WritingMam, "写入 LTFS MAM attributes"))
        } else {
            None
        };
        push_step(
            script,
            event,
            FormatKind::Attribute {
                id: a.id,
                format,
                value: vstd::slice::slice_to_vec(a.value.as_slice()),
                required: a.required,
            },
        );
        i = i + 1;
        assert(step_models(script@) =~= before + attribute_steps(models).subrange(0, i as int));
    }
    assert(attribute_steps(models).subrange(0, i as int) =~= attribute_steps(models));
}

/// What is reported before a format is prepared.
pub fn preparing_event() -> (event: FormatEvent)
    ensures
        event@ == note(FormatPhase::Preparing, "生成初始 LTFS metadata"@),
{
    emit_format(FormatPhase::Preparing, "生成初始 LTFS metadata")
}

/// A run at its start.
pub open spec fn format_start(
    r: FormatRequest,
    uuid: Seq<char>,
    time: Seq<char>,
    version: Seq<char>,
) -> FormatState {
    FormatState {
        rest: format_script(r, uuid, time, version),
        wait: FormatWait::Done,
        warnings: Seq::empty(),
        vcr: Seq::empty(),
        volume_uuid: uuid,
    }
}

impl FormatSession {
    /// Prepares a run; an error where the options do not allow a volume.
    pub fn new(
        options: &FormatOptions,
        volume_uuid: &str,
        format_time: &str,
        app_version: &str,
    ) -> (result: Result<FormatSession, String>)
        ensures
            match result {
                Ok(session) => format_fault(options@) is None && session@ == format_start(
                    options@,
                    volume_uuid@,
                    format_time@,
                    app_version@,
                ),
                Err(message) => format_fault(options@) == Some(message@),
            },
    {
        let image = match build_initial_format_image(
            options,
            volume_uuid,
            format_time,
            app_version,
        ) {
            Ok(image) => image,
            Err(message) => {
                return Err(message);
            },
        };
        let attributes = format_host_attributes(
            options.volume_name.as_str(),
            options.barcode.as_str(),
            volume_uuid,
            app_version,
            written_time(format_time).as_str(),
        );
        let mut script: Vec<FormatStep> = Vec::new();
        push_step(
            &mut script,
            Some(emit_format(FormatPhase::Partitioning, "创建 index/data 两个分区")),
            FormatKind::Command(TapeCommand::EnsureWriteAnywhere),
        );
        push_step(&mut script, None, FormatKind::Command(TapeCommand::FormatLtfsPartitions));
        push_step(&mut script, None, FormatKind::Command(TapeCommand::SetVariableBlock));
        push_attributes(&mut script, attributes);
        push_partition(
            &mut script,
            emit_format(FormatPhase::WritingDataPartition, "写入 data 分区 label/index"),
            1,
            &image.ansi,
            &image.data_label_xml,
            &image.data_index_xml,
        );
        push_partition(
            &mut script,
            emit_format(FormatPhase::WritingIndexPartition, "写入 index 分区 label/index"),
            0,
            &image.ansi,
            &image.index_label_xml,
            &image.index_index_xml,
        );
        let ghost most = step_models(script@);
        push_step(
            &mut script,
            Some(
                emit_format(
                    FormatPhase::WritingCoherency,
                    "写入两分区 Volume Coherency Information",
                ),
            ),
            FormatKind::Command(TapeCommand::Flush),
        );
        push_step(&mut script, None, FormatKind::Reference);
        push_step(&mut script, None, FormatKind::Coherency { partition: 0 });
        push_step(&mut script, None, FormatKind::Coherency { partition: 1 });
        proof {
            let head = seq![
                announced(
                    note(FormatPhase::Partitioning, "创建 index/data 两个分区"@),
                    FormatKindModel::Command(CommandModel::EnsureWriteAnywhere),
                ),
                plain_step(FormatKindModel::Command(CommandModel::FormatLtfsPartitions)),
                plain_step(FormatKindModel::Command(CommandModel::SetVariableBlock)),
            ];
            assert(Seq::<FormatStepModel>::empty().push(head[0]).push(head[1]).push(head[2])
                =~= head);
            assert(step_models(Seq::<FormatStep>::empty()) =~= Seq::<FormatStepModel>::empty());
            assert(step_models(script@) =~= format_script(
                options@,
                volume_uuid@,
                format_time@,
                app_version@,
            ));
        }
        let warnings: Vec<String> = Vec::new();
        assert(views(warnings@) =~= Seq::<Seq<char>>::empty());
        Ok(
            FormatSession {
                rest: script,
                wait: FormatWait::Done,
                warnings,
                vcr: Vec::new(),
                volume_uuid: volume_uuid.to_owned(),
            },
        )
    }

    fn end(&mut self, events: Vec<FormatEvent>, result: Result<(), String>) -> (m: FormatMove)
        ensures
            format_move(final(self)@, m) == format_ends(
                old(self)@,
                format_notes(events@),
                match result {
                    Ok(_) => Ok(()),
                    Err(message) => Err(message@),
                },
            ),
    {
        self.wait = FormatWait::Ended;
        FormatMove { events, action: FormatAction::Finished(result) }
    }

    fn fail(&mut self, message: String) -> (m: FormatMove)
        ensures
            format_move(final(self)@, m) == format_ends(
                old(self)@,
                Seq::empty(),
                Err(message@),
            ),
    {
        let events: Vec<FormatEvent> = Vec::new();
        assert(format_notes(events@) =~= Seq::<FormatNote>::empty());
        self.end(events, Err(message))
    }

    fn take_warnings(&mut self) -> (events: Vec<FormatEvent>)
        ensures
            format_notes(events@) == warning_notes(old(self)@.warnings),
            final(self)@ == (FormatState { warnings: Seq::empty(), ..old(self)@ }),
    {
        let mut events: Vec<FormatEvent> = Vec::new();
        let mut i: usize = 0;
        while i < self.warnings.len()
            invariant
                i <= self.warnings@.len(),
                format_notes(events@) == warning_notes(views(self.warnings@)).subrange(0, i as int),
            decreases self.warnings@.len() - i,
        {
            let ghost before = events@;
            let event = emit_format(FormatPhase::WritingMam, self.warnings[i].as_str());
            events.push(event);
            assert(format_notes(events@) =~= format_notes(before).push(event@));
            i = i + 1;
            assert(format_notes(events@) =~= warning_notes(views(self.warnings@)).subrange(
                0,
                i as int,
            ));
        }
        assert(format_notes(events@) =~= warning_notes(views(self.warnings@)));
        self.warnings = Vec::new();
        assert(views(self.warnings@) =~= Seq::<Seq<char>>::empty());
        events
    }

    /// The first move of a prepared run, and the move behind a command that was done.
    pub fn advance(&mut self) -> (m: FormatMove)
        ensures
            format_move(final(self)@, m) == format_advance(old(self)@),
    {
        if self.rest.len() == 0 {
            let mut events: Vec<FormatEvent> = Vec::new();
            events.push(emit_format(FormatPhase::Completed, "LTFS format 完成"));
            assert(format_notes(events@) =~= seq![
                note(FormatPhase::Completed, "LTFS format 完成"@),
            ]);
            return self.end(events, Ok(()));
        }
        let ghost whole = self.rest@;
        let step = self.rest.remove(0);
        assert(step_models(self.rest@) =~= step_models(whole).drop_first());
        assert(step_models(whole)[0] == step@);
        let past_attributes = match &step.kind {
            FormatKind::Attribute { .. } => false,
            _ => true,
        };
        let mut events: Vec<FormatEvent> = if past_attributes {
            self.take_warnings()
        } else {
            let none: Vec<FormatEvent> = Vec::new();
            assert(format_notes(none@) =~= Seq::<FormatNote>::empty());
            none
        };
        match step.event {
            Some(event) => {
                let ghost before = events@;
                events.push(event);
                assert(format_notes(events@) =~= format_notes(before).push(event@));
            },
            None => {},
        }
        match step.kind {
            FormatKind::Command(command) => {
                self.wait = FormatWait::Done;
                FormatMove { events, action: FormatAction::Command(command) }
            },
            FormatKind::Attribute { id, format, value, required } => {
                self.wait = FormatWait::Attribute { id, required };
                FormatMove {
                    events,
                    action: FormatAction::Command(
                        TapeCommand::WriteMam { partition: 0, id, format, value },
                    ),
                }
            },
            FormatKind::Position { partition } => {
                self.wait = FormatWait::Position { partition };
                FormatMove { events, action: FormatAction::Command(TapeCommand::ReadPosition) }
            },
            FormatKind::Reference => {
                self.wait = FormatWait::Reference;
                FormatMove {
                    events,
                    action: FormatAction::Command(
                        TapeCommand::ReadMam { partition: 0, id: VOLUME_CHANGE_REFERENCE },
                    ),
                }
            },
            FormatKind::Coherency { partition } => {
                let vci = match VolumeCoherencyInformation::new(
                    self.vcr.as_slice(),
                    1,
                    5,
                    self.volume_uuid.as_str(),
                ) {
                    Ok(vci) => vci,
                    Err(message) => {
                        return self.end(events, Err(message));
                    },
                };
                match vci.to_bytes() {
                    Ok(value) => {
                        self.wait = FormatWait::Done;
                        FormatMove {
                            events,
                            action: FormatAction::Command(
                                TapeCommand::WriteMam {
                                    partition,
                                    id: VOLUME_COHERENCY_INFORMATION,
                                    format: MamAttributeFormat::Binary,
                                    value,
                                },
                            ),
                        }
                    },
                    Err(message) => self.end(events, Err(message)),
                }
            },
        }
    }

    /// The next move, given what came of the last command.
    pub fn run(&mut self, reply: TapeReply) -> (m: FormatMove)
        ensures
            format_move(final(self)@, m) == format_next(old(self)@, reply),
    {
        match self.wait {
            FormatWait::Done => match failure_of(reply) {
                None => self.advance(),
                Some(message) => self.fail(message),
            },
            FormatWait::Attribute { id, required } => match failure_of(reply) {
                None => self.advance(),
                Some(message) => if required {
                    self.fail(message)
                } else {
                    let warning = cat4(
                        "可选 MAM attribute 0x",
                        upper_hex_of(id).as_str(),
                        " 不受支持：",
                        message.as_str(),
                    );
                    let ghost before = self.warnings@;
                    self.warnings.push(warning);
                    assert(views(self.warnings@) =~= views(before).push(warning@));
                    self.advance()
                },
            },
            FormatWait::Position { partition } => match reply {
                TapeReply::Position(at) => {
                    if at.partition == partition as u32 && at.block == 5 {
                        self.advance()
                    } else {
                        let message = cat6(
                            "初始 index 位置异常：期望 p",
                            decimal(partition as u64).as_str(),
                            "b5，实际 p",
                            decimal(at.partition as u64).as_str(),
                            "b",
                            decimal(at.block).as_str(),
                        );
                        self.fail(message)
                    }
                },
                other => {
                    let message = refusal_of(other);
                    self.fail(message)
                },
            },
            FormatWait::Reference => match reply {
                TapeReply::Bytes(bytes) => {
                    self.vcr = bytes;
                    self.advance()
                },
                other => {
                    let message = refusal_of(other);
                    self.fail(message)
                },
            },
            FormatWait::Ended => {
                let message = refusal_of(reply);
                self.fail(message)
            },
        }
    }
}

/// The coherency information of a new volume is written only behind the indexes of both
/// partitions, and nothing else is written behind it.
pub proof fn coherency_comes_last(
    r: FormatRequest,
    uuid: Seq<char>,
    time: Seq<char>,
    version: Seq<char>,
)
    ensures
        ({
            let script = format_script(r, uuid, time, version);
            forall|i: int|
                #![trigger script[i]]
                0 <= i < script.len() && script[i].kind is Coherency ==> i >= script.len() - 2
        }),
        format_script(r, uuid, time, version).len() == 34,
        ({
            let script = format_script(r, uuid, time, version);
            script[32].kind == FormatKindModel::Coherency { partition: 0 } && script[33].kind
                == FormatKindModel::Coherency { partition: 1 }
        }),
{
    let script = format_script(r, uuid, time, version);
    let attributes = attribute_steps(
        host_attributes(r.volume_name, r.barcode, uuid, version, first_digits(time, 12)),
    );
    assert(attributes.len() == 9);
    assert forall|i: int| #![trigger script[i]] 0 <= i < script.len() && script[i].kind is Coherency
        implies i >= script.len() - 2 by {
        if 3 <= i < 12 {
            assert(script[i] == attributes[i - 3]);
        }
    }
}

} // verus!
