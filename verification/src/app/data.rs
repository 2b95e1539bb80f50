//! The data of a write: what comes from the source, record by record, and what it makes
//! of the index.
use vstd::prelude::*;
use vstd::string::*;

use super::append::{end_of_data_spec, is_end_of_data_error, FileHash};
use super::probe::saturating;
use super::write_state::{progress_event, WriteEvent, WritePhase, WriteProgress};
use crate::device::{device_fault_text, DeviceFault, Error};
use crate::hash::{digest_text, hashed_bytes, new_hasher, sha256_text, take_bytes, Sha256Hasher};
use crate::ltfs::index::{
    attribute_entries, file_at, path_parts, replaced, AttributeEntry, ExtendedAttribute, Extent,
    FileEntry, FileModel, Index, IndexModel,
};
use crate::text::{cat2, cat4, cat7, decimal, decimal_spec, lowered, opt_view, same_ignoring_case};

verus! {

/// How much of the source is read ahead.
pub const DEFAULT_WRITE_BUFFER_BYTES: usize = 536870912;

/// How many blocks are read ahead, and how many bytes they hold.
pub open spec fn buffer_shape(block_size: usize, capacity_bytes: usize) -> Result<
    (int, int),
    Seq<char>,
> {
    if block_size == 0 {
        Err("write pipeline block size 不能为 0"@)
    } else {
        let rounded = (capacity_bytes + block_size - 1) / block_size as int;
        let blocks = if rounded < 1 {
            1
        } else {
            rounded
        };
        if blocks * block_size > usize::MAX {
            Err("write pipeline capacity 溢出"@)
        } else {
            Ok((blocks, blocks * block_size))
        }
    }
}

/// How many blocks are read ahead, and how many bytes they hold: at least one block, and
/// as many as the capacity takes, rounded up.
pub fn pipeline_capacity(block_size: usize, capacity_bytes: usize) -> (result: Result<
    (usize, usize),
    String,
>)
    ensures
        match result {
            Ok((blocks, bytes)) => buffer_shape(block_size, capacity_bytes) == Ok::<
                (int, int),
                Seq<char>,
            >((blocks as int, bytes as int)),
            Err(message) => buffer_shape(block_size, capacity_bytes) == Err::<
                (int, int),
                Seq<char>,
            >(message@),
        },
{
    if block_size == 0 {
        return Err("write pipeline block size 不能为 0".to_owned());
    }
    let whole: usize = capacity_bytes / block_size;
    let rest: usize = capacity_bytes % block_size;
    proof {
        vstd::arithmetic::div_mod::lemma_fundamental_div_mod(
            capacity_bytes as int,
            block_size as int,
        );
        let q = whole as int;
        let r = rest as int;
        let d = block_size as int;
        if r == 0 {
            assert(capacity_bytes + d - 1 == q * d + (d - 1)) by (nonlinear_arith)
                requires
                    capacity_bytes == d * q,
            ;
            vstd::arithmetic::div_mod::lemma_fundamental_div_mod_converse(
                capacity_bytes + block_size - 1,
                d,
                q,
                d - 1,
            );
        } else {
            assert(capacity_bytes + d - 1 == (q + 1) * d + (r - 1)) by (nonlinear_arith)
                requires
                    capacity_bytes == d * q + r,
            ;
            vstd::arithmetic::div_mod::lemma_fundamental_div_mod_converse(
                capacity_bytes + block_size - 1,
                d,
                q + 1,
                r - 1,
            );
        }
        assert(whole <= capacity_bytes) by (nonlinear_arith)
            requires
                capacity_bytes == d * q + r,
                q == whole,
                d >= 1,
                r >= 0,
                q >= 0,
        ;
        if whole == usize::MAX {
            assert(rest == 0) by (nonlinear_arith)
                requires
                    capacity_bytes == d * q + r,
                    q == usize::MAX,
                    d >= 1,
                    r >= 0,
                    rest == r,
                    capacity_bytes <= usize::MAX,
            ;
        }
    }
    let rounded: usize = if rest == 0 { whole } else { whole + 1 };
    let blocks: usize = if rounded < 1 { 1 } else { rounded };
    match blocks.checked_mul(block_size) {
        Some(bytes) => Ok((blocks, bytes)),
        None => Err("write pipeline capacity 溢出".to_owned()),
    }
}

/// What the reader of the source hands on.
#[derive(Debug, PartialEq, Eq)]
pub enum SourcePipelineMessage {
    FileStart { target: String, description: String, expected_size: u64 },
    Data(Vec<u8>),
    FileEnd { actual_size: u64 },
    Error(String),
}

/// A file that is being written.
pub struct ActiveWriteFile {
    target: String,
    description: String,
    expected_size: u64,
    start_block: u64,
    bytes_written: u64,
    hasher: Sha256Hasher,
}

/// The model of a file that is being written, with the bytes that were.
#[verifier::ext_equal]
pub struct ActiveModel {
    pub target: Seq<char>,
    pub description: Seq<char>,
    pub expected_size: u64,
    pub start_block: u64,
    pub bytes_written: u64,
    pub bytes: Seq<u8>,
}

impl View for ActiveWriteFile {
    type V = ActiveModel;

    closed spec fn view(&self) -> ActiveModel {
        ActiveModel {
            target: self.target@,
            description: self.description@,
            expected_size: self.expected_size,
            start_block: self.start_block,
            bytes_written: self.bytes_written,
            bytes: hashed_bytes(self.hasher),
        }
    }
}

/// The model of a digest.
#[verifier::ext_equal]
pub struct HashModel {
    pub path: Seq<char>,
    pub sha256: Seq<char>,
}

impl View for FileHash {
    type V = HashModel;

    open spec fn view(&self) -> HashModel {
        HashModel { path: self.path@, sha256: self.sha256@ }
    }
}

pub open spec fn hash_models(list: Seq<FileHash>) -> Seq<HashModel> {
    list.map_values(|h: FileHash| h@)
}

/// The writer of the data of a volume.
pub struct DataWriter {
    pub index: Index,
    pub data_partition: u8,
    /// The block that the next record goes to.
    pub position: u64,
    pub progress: WriteProgress,
    pub first_write: bool,
    pub active: Option<ActiveWriteFile>,
    pub hashes: Vec<FileHash>,
}

/// The model of a writer.
#[verifier::ext_equal]
pub struct DataState {
    pub index: IndexModel,
    pub data_partition: u8,
    pub position: u64,
    pub progress: WriteProgress,
    pub first_write: bool,
    pub active: Option<ActiveModel>,
    pub hashes: Seq<HashModel>,
}

pub open spec fn opt_active(a: Option<ActiveWriteFile>) -> Option<ActiveModel> {
    match a {
        Some(file) => Some(file@),
        None => None,
    }
}

impl View for DataWriter {
    type V = DataState;

    open spec fn view(&self) -> DataState {
        DataState {
            index: self.index@,
            data_partition: self.data_partition,
            position: self.position,
            progress: self.progress,
            first_write: self.first_write,
            active: opt_active(self.active),
            hashes: hash_models(self.hashes@),
        }
    }
}

/// The file that is being written.
pub open spec fn current_target(s: DataState) -> Option<Seq<char>> {
    match s.active {
        Some(file) => Some(file.target),
        None => None,
    }
}

/// The writer once a file has begun.
pub open spec fn file_begun(
    s: DataState,
    target: Seq<char>,
    description: Seq<char>,
    expected_size: u64,
) -> DataState {
    DataState {
        active: Some(
            ActiveModel {
                target,
                description,
                expected_size,
                start_block: s.position,
                bytes_written: 0,
                bytes: Seq::empty(),
            },
        ),
        ..s
    }
}

/// The writer once a record has been written.
pub open spec fn record_written(s: DataState, bytes: Seq<u8>) -> DataState {
    let file = s.active->0;
    let total = saturating(s.progress.bytes_written as int, bytes.len() as int);
    let position = saturating(s.position as int, 1);
    DataState {
        first_write: false,
        position,
        progress: WriteProgress {
            bytes_written: total,
            logical_block: Some(position),
            ..s.progress
        },
        active: Some(
            ActiveModel {
                bytes_written: saturating(file.bytes_written as int, bytes.len() as int),
                bytes: file.bytes + bytes,
                ..file
            },
        ),
        ..s
    }
}

/// Why a record could not be written.
pub open spec fn write_fault(s: DataState, fault: DeviceFault) -> Seq<char> {
    if s.first_write && end_of_data_spec(fault) {
        "写入被拒绝：驱动器报告的 EOD 与磁带实际内容不一致（刚用 mkltfs 格式化的磁带常见）。这可能是因为格式化后驱动器 EOD 标记未与内容同步。详情: "@
            + device_fault_text(fault)
    } else {
        "写入 "@ + s.active->0.description + " 失败: "@ + device_fault_text(fault)
    }
}

/// The attributes that do not hold the digest of the file.
pub open spec fn without_digest(list: Seq<AttributeEntry>) -> Seq<AttributeEntry>
    decreases list.len(),
{
    if list.len() == 0 {
        Seq::empty()
    } else {
        let rest = without_digest(list.drop_last());
        if lowered(list.last().key) == lowered("ltfs.hash.sha256sum"@) {
            rest
        } else {
            rest.push(list.last())
        }
    }
}

/// The entry of a file that has been written: in one extent, with its digest.
pub open spec fn written_file(
    f: FileModel,
    partition: u8,
    start_block: u64,
    bytes: u64,
    sha256: Seq<char>,
) -> FileModel {
    FileModel {
        length: bytes,
        extents: if bytes > 0 {
            seq![Extent { file_offset: 0, partition, start_block, byte_count: bytes }]
        } else {
            Seq::empty()
        },
        extended_attributes: without_digest(f.extended_attributes).push(
            AttributeEntry { key: "ltfs.hash.sha256sum"@, value: sha256, value_type: None },
        ),
        ..f
    }
}

/// The entry of a file that has been written.
pub fn written_entry(
    file: &FileEntry,
    partition: u8,
    start_block: u64,
    bytes: u64,
    sha256: &str,
) -> (entry: FileEntry)
    ensures
        entry@ == written_file(file@, partition, start_block, bytes, sha256@),
{
    let mut attributes: Vec<ExtendedAttribute> = Vec::new();
    let ghost models = attribute_entries(file.extended_attributes@);
    let mut i: usize = 0;
    assert(models.subrange(0, 0) =~= Seq::<AttributeEntry>::empty());
    assert(attribute_entries(attributes@) =~= without_digest(models.subrange(0, 0)));
    while i < file.extended_attributes.len()
        invariant
            i <= file.extended_attributes@.len(),
            models == attribute_entries(file.extended_attributes@),
            attribute_entries(attributes@) == without_digest(models.subrange(0, i as int)),
        decreases file.extended_attributes@.len() - i,
    {
        let ghost next = models.subrange(0, i + 1);
        let a = &file.extended_attributes[i];
        assert(next.drop_last() =~= models.subrange(0, i as int));
        assert(next.last() == a@);
        if !same_ignoring_case(a.key.as_str(), "ltfs.hash.sha256sum") {
            let ghost before = attributes@;
            let copy = a.clone();
            attributes.push(copy);
            assert(attribute_entries(attributes@) =~= attribute_entries(before).push(copy@));
        }
        i = i + 1;
    }
    assert(models.subrange(0, i as int) =~= models);
    let ghost before = attributes@;
    let digest = ExtendedAttribute {
        key: "ltfs.hash.sha256sum".to_owned(),
        value: sha256.to_owned(),
        value_type: None,
    };
    attributes.push(digest);
    assert(attribute_entries(attributes@) =~= attribute_entries(before).push(digest@));
    let mut extents: Vec<Extent> = Vec::new();
    if bytes > 0 {
        extents.push(Extent { file_offset: 0, partition, start_block, byte_count: bytes });
    }
    let copy = file.clone();
    let entry = FileEntry {
        name: copy.name,
        fileuid: copy.fileuid,
        length: bytes,
        readonly: copy.readonly,
        times: copy.times,
        extents,
        extended_attributes: attributes,
        symlink_target: copy.symlink_target,
    };
    assert(entry@ =~= written_file(file@, partition, start_block, bytes, sha256@));
    entry
}

/// What ends a file, or why it cannot end: its size is not what was planned.
pub open spec fn file_ended(s: DataState, actual_size: u64) -> Result<DataState, Seq<char>> {
    match s.active {
        None => Err("source pipeline 在 FileStart 前发送了 FileEnd"@),
        Some(file) => if actual_size != file.expected_size || file.bytes_written
            != file.expected_size {
            Err(
                "源文件大小在规划后发生变化："@ + file.description + "（计划 "@ + decimal_spec(
                    file.expected_size as nat,
                ) + " 字节，实际读取 "@ + decimal_spec(actual_size as nat) + " 字节，实际写入 "@
                    + decimal_spec(file.bytes_written as nat) + " 字节）"@,
            )
        } else {
            match file_at(s.index.root, file.target) {
                None => Err("文件条目未在写入前规划: "@ + file.target),
                Some(entry) => {
                    let sha256 = sha256_text(file.bytes);
                    let written = written_file(
                        entry,
                        s.data_partition,
                        file.start_block,
                        file.bytes_written,
                        sha256,
                    );
                    Ok(
                        DataState {
                            index: IndexModel {
                                root: replaced(
                                    s.index.root,
                                    path_parts(file.target).drop_last(),
                                    path_parts(file.target).last(),
                                    written,
                                ),
                                ..s.index
                            },
                            progress: WriteProgress {
                                files_completed: saturating_files(s.progress.files_completed),
                                ..s.progress
                            },
                            active: None,
                            hashes: s.hashes.push(HashModel { path: file.target, sha256 }),
                            ..s
                        },
                    )
                },
            }
        },
    }
}

/// One more file.
pub open spec fn saturating_files(n: usize) -> usize {
    if n == usize::MAX {
        n
    } else {
        (n + 1) as usize
    }
}

/// What ends a file: the new state, and the event that reports it.
pub open spec fn end_outcome(
    result: Result<WriteEvent, String>,
    after: DataState,
    before: DataState,
    actual_size: u64,
) -> bool {
    match file_ended(before, actual_size) {
        Ok(state) => result is Ok && after == state && result->Ok_0@ == progress_event(
            state.progress,
            WritePhase::WritingData,
            current_target(before),
        ),
        Err(message) => result is Err && result->Err_0@ == message,
    }
}

impl DataWriter {
    /// A writer that begins at a block of the data partition.
    pub fn new(index: Index, data_partition: u8, position: u64, progress: WriteProgress) -> (writer:
        DataWriter)
        ensures
            writer@ == (DataState {
                index: index@,
                data_partition,
                position,
                progress: WriteProgress {
                    partition: Some(data_partition),
                    logical_block: Some(position),
                    ..progress
                },
                first_write: true,
                active: None,
                hashes: Seq::empty(),
            }),
    {
        let mut at = progress;
        at.partition = Some(data_partition);
        at.logical_block = Some(position);
        let writer = DataWriter {
            index,
            data_partition,
            position,
            progress: at,
            first_write: true,
            active: None,
            hashes: Vec::new(),
        };
        assert(writer@.hashes =~= Seq::empty());
        writer
    }

    /// The file that is being written.
    pub fn current_file(&self) -> (target: Option<String>)
        ensures
            opt_view(target) == current_target(self@),
    {
        match &self.active {
            Some(file) => Some(file.target.clone()),
            None => None,
        }
    }

    /// A file begins.
    pub fn start_file(&mut self, target: String, description: String, expected_size: u64) -> (result:
        Result<WriteEvent, String>)
        ensures
            if old(self)@.active is Some {
                result is Err && result->Err_0@ == "source pipeline 在上一文件结束前发送了新文件"@
                    && final(self)@ == old(self)@
            } else {
                result is Ok && result->Ok_0@ == progress_event(
                    old(self)@.progress,
                    WritePhase::WritingData,
                    Some(target@),
                ) && final(self)@ == file_begun(old(self)@, target@, description@, expected_size)
            },
    {
        if self.active.is_some() {
            return Err("source pipeline 在上一文件结束前发送了新文件".to_owned());
        }
        let event = self.progress.event(WritePhase::WritingData, Some(target.clone()));
        self.active = Some(
            ActiveWriteFile {
                target,
                description,
                expected_size,
                start_block: self.position,
                bytes_written: 0,
                hasher: new_hasher(),
            },
        );
        Ok(event)
    }

    /// Why a record could not be written.
    pub fn refused(&self, error: &Error) -> (message: String)
        requires
            self@.active is Some,
        ensures
            message@ == write_fault(self@, error@),
    {
        if self.first_write && is_end_of_data_error(error) {
            return cat2(
                "写入被拒绝：驱动器报告的 EOD 与磁带实际内容不一致（刚用 mkltfs 格式化的磁带常见）。这可能是因为格式化后驱动器 EOD 标记未与内容同步。详情: ",
                error.text().as_str(),
            );
        }
        match &self.active {
            Some(file) => cat4(
                "写入 ",
                file.description.as_str(),
                " 失败: ",
                error.text().as_str(),
            ),
            None => error.text(),
        }
    }

    /// A record has been written.
    pub fn written(&mut self, data: &[u8])
        requires
            old(self)@.active is Some,
        ensures
            final(self)@ == record_written(old(self)@, data@),
    {
        match self.active.take() {
            Some(file) => {
                let mut file = file;
                take_bytes(&mut file.hasher, data);
                file.bytes_written = file.bytes_written.saturating_add(data.len() as u64);
                self.active = Some(file);
            },
            None => {},
        }
        self.first_write = false;
        self.position = self.position.saturating_add(1);
        self.progress.bytes_written = self.progress.bytes_written.saturating_add(
            data.len() as u64,
        );
        self.progress.logical_block = Some(self.position);
    }

    /// A file ends.
    pub fn end_file(&mut self, actual_size: u64) -> (result: Result<WriteEvent, String>)
        ensures
            end_outcome(result, final(self)@, old(self)@, actual_size),
    {
        let file = match self.active.take() {
            None => {
                return Err("source pipeline 在 FileStart 前发送了 FileEnd".to_owned());
            },
            Some(file) => file,
        };
        if actual_size != file.expected_size || file.bytes_written != file.expected_size {
            let mut text = cat7(
                "源文件大小在规划后发生变化：",
                file.description.as_str(),
                "（计划 ",
                decimal(file.expected_size).as_str(),
                " 字节，实际读取 ",
                decimal(actual_size).as_str(),
                " 字节，实际写入 ",
            );
            text.append(decimal(file.bytes_written).as_str());
            text.append(" 字节）");
            return Err(text);
        }
        let sha256 = digest_text(file.hasher);
        let entry = match self.index.find_file(file.target.as_str()) {
            None => {
                return Err(cat2("文件条目未在写入前规划: ", file.target.as_str()));
            },
            Some(entry) => written_entry(
                entry,
                self.data_partition,
                file.start_block,
                file.bytes_written,
                sha256.as_str(),
            ),
        };
        let _ = self.index.replace_file(file.target.as_str(), entry);
        let ghost before = self.hashes@;
        let hash = FileHash { path: file.target.clone(), sha256 };
        self.hashes.push(hash);
        assert(hash_models(self.hashes@) =~= hash_models(before).push(hash@));
        if self.progress.files_completed < usize::MAX {
            self.progress.files_completed = self.progress.files_completed + 1;
        }
        Ok(self.progress.event(WritePhase::WritingData, Some(file.target)))
    }
}

/// A file whose records hold as many bytes as were planned is found in the index with
/// one extent that begins where its first record was written.
pub proof fn written_file_has_its_extent(
    f: FileModel,
    partition: u8,
    start_block: u64,
    bytes: u64,
    sha256: Seq<char>,
)
    requires
        bytes > 0,
    ensures
        ({
            let w = written_file(f, partition, start_block, bytes, sha256);
            w.length == bytes && super::append::extents_total(w.extents) == bytes
                && w.extents[0].start_block == start_block && w.extents[0].partition == partition
                && w.extended_attributes.last().value == sha256
        }),
{
    let w = written_file(f, partition, start_block, bytes, sha256);
    assert(w.extents.drop_last() =~= Seq::<Extent>::empty());
    assert(super::append::extents_total(w.extents.drop_last()) == 0);
}

} // verus!
