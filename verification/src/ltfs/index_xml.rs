//! Reading and writing LTFS index documents.
//!
//! The top element is `<ltfsindex version="...">`. The summary of the volume is read
//! event by event; the directory tree is read from the elements of the document.
use vstd::prelude::*;
use vstd::string::*;

use super::document::{field, line_break, text_events, XmlWriter};
use super::index::{
    attribute_entries, empty_directory, entry_models, lemma_entries, AttributeEntry, DirModel,
    Directory, DirectoryEntry, EntryModel, ExtendedAttribute, Extent, FileEntry, FileModel,
    FileTimes, Index, IndexModel, TapePos, TimesModel,
};
use super::stored_law::{index_writable, recounted, stored_index_reads_back};
use super::label::{
    bool_spec, bool_text, parse_bool, parse_partition, parse_u64, partition_char, partition_name,
    partition_spec, u64_spec,
};
use super::tree::{
    build_tree, child, child_spec, child_text, child_text_spec, document_tree, lemma_children,
    models, ElementModel, XmlElement,
};
use super::xml::{
    attribute_content, attribute_value, attribute_value_spec, decode_general_ref, escaped,
    events_of, read_items, reference_value, rendered, text_value, unescape_text, xml_events,
    XmlEvent, XmlItem,
};
use crate::text::{cat2, cat3, decimal, decimal_spec, opt_view, same, trim, trimmed};

verus! {

/// Why an index cannot be read.
#[derive(Debug, Clone, PartialEq, Eq)]
pub enum IndexError {
    Xml(String),
    NotLtfsIndex,
    MissingVersion,
    MissingField(&'static str),
    BadNumber(&'static str),
    BadBool(&'static str),
}

/// The model of an index error.
pub enum IndexFault {
    Xml(Seq<char>),
    NotLtfsIndex,
    MissingVersion,
    MissingField(Seq<char>),
    BadNumber(Seq<char>),
    BadBool(Seq<char>),
}

impl View for IndexError {
    type V = IndexFault;

    open spec fn view(&self) -> IndexFault {
        match *self {
            IndexError::Xml(message) => IndexFault::Xml(message@),
            IndexError::NotLtfsIndex => IndexFault::NotLtfsIndex,
            IndexError::MissingVersion => IndexFault::MissingVersion,
            IndexError::MissingField(name) => IndexFault::MissingField(name@),
            IndexError::BadNumber(name) => IndexFault::BadNumber(name@),
            IndexError::BadBool(name) => IndexFault::BadBool(name@),
        }
    }
}

/// The message of an index error.
pub open spec fn index_fault_text(fault: IndexFault) -> Seq<char> {
    match fault {
        IndexFault::Xml(message) => "XML 解析失败: "@ + message,
        IndexFault::NotLtfsIndex => "顶层元素不是 <ltfsindex>"@,
        IndexFault::MissingVersion => "缺少 version 属性"@,
        IndexFault::MissingField(name) => "缺少必需字段 <"@ + name + ">"@,
        IndexFault::BadNumber(name) => "<"@ + name + "> 不是有效数字"@,
        IndexFault::BadBool(name) => "<"@ + name + "> 不是有效布尔值"@,
    }
}

impl IndexError {
    /// The message of the error.
    pub fn text(&self) -> (text: String)
        ensures
            text@ == index_fault_text(self@),
    {
        match self {
            IndexError::Xml(message) => cat2("XML 解析失败: ", message.as_str()),
            IndexError::NotLtfsIndex => "顶层元素不是 <ltfsindex>".to_owned(),
            IndexError::MissingVersion => "缺少 version 属性".to_owned(),
            IndexError::MissingField(name) => cat3("缺少必需字段 <", name, ">"),
            IndexError::BadNumber(name) => cat3("<", name, "> 不是有效数字"),
            IndexError::BadBool(name) => cat3("<", name, "> 不是有效布尔值"),
        }
    }
}

// ---------------------------------------------------------------------------
// The summary
// ---------------------------------------------------------------------------

/// The part of an index document that is being read.
#[derive(Debug, Clone, Copy, PartialEq, Eq, Structural)]
pub enum IndexSection {
    Root,
    Location,
    PrevLocation,
    Directory,
}

/// What has been read of an index document. `run` is the text since the last tag or
/// other markup.
pub struct IndexScan {
    section: IndexSection,
    elem: String,
    run: String,
    root_seen: bool,
    directory_seen: bool,
    in_directory: bool,
    dir_depth: u64,
    directory_count: u64,
    file_count: u64,
    version: Option<String>,
    creator: Option<String>,
    volume_uuid: Option<String>,
    volume_name: Option<String>,
    generation: Option<u64>,
    update_time: Option<String>,
    allow_policy_update: Option<bool>,
    volume_lock_state: Option<String>,
    highest_file_uid: Option<u64>,
    self_partition: Option<u8>,
    self_block: Option<u64>,
    prev_partition: Option<u8>,
    prev_block: Option<u64>,
}

/// The model of what has been read of an index document.
#[verifier::ext_equal]
pub struct IndexProgress {
    pub section: IndexSection,
    pub elem: Seq<char>,
    pub run: Seq<char>,
    pub root_seen: bool,
    pub directory_seen: bool,
    pub in_directory: bool,
    pub dir_depth: nat,
    pub directory_count: nat,
    pub file_count: nat,
    pub version: Option<Seq<char>>,
    pub creator: Option<Seq<char>>,
    pub volume_uuid: Option<Seq<char>>,
    pub volume_name: Option<Seq<char>>,
    pub generation: Option<u64>,
    pub update_time: Option<Seq<char>>,
    pub allow_policy_update: Option<bool>,
    pub volume_lock_state: Option<Seq<char>>,
    pub highest_file_uid: Option<u64>,
    pub self_partition: Option<u8>,
    pub self_block: Option<u64>,
    pub prev_partition: Option<u8>,
    pub prev_block: Option<u64>,
}

impl View for IndexScan {
    type V = IndexProgress;

    closed spec fn view(&self) -> IndexProgress {
        IndexProgress {
            section: self.section,
            elem: self.elem@,
            run: self.run@,
            root_seen: self.root_seen,
            directory_seen: self.directory_seen,
            in_directory: self.in_directory,
            dir_depth: self.dir_depth as nat,
            directory_count: self.directory_count as nat,
            file_count: self.file_count as nat,
            version: opt_view(self.version),
            creator: opt_view(self.creator),
            volume_uuid: opt_view(self.volume_uuid),
            volume_name: opt_view(self.volume_name),
            generation: self.generation,
            update_time: opt_view(self.update_time),
            allow_policy_update: self.allow_policy_update,
            volume_lock_state: opt_view(self.volume_lock_state),
            highest_file_uid: self.highest_file_uid,
            self_partition: self.self_partition,
            self_block: self.self_block,
            prev_partition: self.prev_partition,
            prev_block: self.prev_block,
        }
    }
}

/// Nothing read yet.
pub open spec fn index_start() -> IndexProgress {
    IndexProgress {
        section: IndexSection::Root,
        elem: Seq::empty(),
        run: Seq::empty(),
        root_seen: false,
        directory_seen: false,
        in_directory: false,
        dir_depth: 0,
        directory_count: 0,
        file_count: 0,
        version: None,
        creator: None,
        volume_uuid: None,
        volume_name: None,
        generation: None,
        update_time: None,
        allow_policy_update: None,
        volume_lock_state: None,
        highest_file_uid: None,
        self_partition: None,
        self_block: None,
        prev_partition: None,
        prev_block: None,
    }
}

/// A start tag or an empty element.
pub open spec fn index_open(p: IndexProgress, name: Seq<char>, content: Seq<char>) -> IndexProgress {
    let q = IndexProgress { elem: name, ..p };
    if name == "ltfsindex"@ {
        IndexProgress {
            root_seen: true,
            version: attribute_value_spec(name, content, "version"@),
            ..q
        }
    } else if name == "location"@ && p.section is Root {
        IndexProgress { section: IndexSection::Location, ..q }
    } else if name == "previousgenerationlocation"@ && p.section is Root {
        IndexProgress { section: IndexSection::PrevLocation, ..q }
    } else if name == "directory"@ && p.section is Root {
        IndexProgress {
            section: IndexSection::Directory,
            directory_seen: true,
            in_directory: true,
            dir_depth: 1,
            volume_name: attribute_value_spec(name, content, "name"@),
            ..q
        }
    } else if p.in_directory && name == "directory"@ {
        IndexProgress {
            directory_count: p.directory_count + 1,
            dir_depth: p.dir_depth + 1,
            ..q
        }
    } else if p.in_directory && (name == "file"@ || name == "symlink"@) {
        IndexProgress { file_count: p.file_count + 1, ..q }
    } else {
        q
    }
}

/// An end tag.
pub open spec fn index_close(p: IndexProgress, name: Seq<char>) -> IndexProgress {
    let q = IndexProgress { elem: Seq::empty(), ..p };
    if name == "location"@ && p.section is Location {
        IndexProgress { section: IndexSection::Root, ..q }
    } else if name == "previousgenerationlocation"@ && p.section is PrevLocation {
        IndexProgress { section: IndexSection::Root, ..q }
    } else if name == "directory"@ && p.in_directory {
        let depth = if p.dir_depth > 0 {
            (p.dir_depth - 1) as nat
        } else {
            0
        };
        if depth == 0 {
            IndexProgress {
                dir_depth: 0,
                in_directory: false,
                section: IndexSection::Root,
                ..q
            }
        } else {
            IndexProgress { dir_depth: depth, ..q }
        }
    } else {
        q
    }
}

/// A text, trimmed and not empty, under the current element.
pub open spec fn index_text(p: IndexProgress, text: Seq<char>) -> Result<IndexProgress, IndexFault> {
    if p.in_directory {
        if p.volume_name is None && p.dir_depth == 1 && p.elem == "name"@ {
            Ok(IndexProgress { volume_name: Some(text), ..p })
        } else {
            Ok(p)
        }
    } else if p.section is Root && p.elem == "creator"@ {
        Ok(IndexProgress { creator: Some(text), ..p })
    } else if p.section is Root && p.elem == "volumeuuid"@ {
        Ok(IndexProgress { volume_uuid: Some(text), ..p })
    } else if p.section is Root && p.elem == "generationnumber"@ {
        match u64_spec(text) {
            Some(n) => Ok(IndexProgress { generation: Some(n), ..p }),
            None => Err(IndexFault::BadNumber("generationnumber"@)),
        }
    } else if p.section is Root && p.elem == "updatetime"@ {
        Ok(IndexProgress { update_time: Some(text), ..p })
    } else if p.section is Root && p.elem == "allowpolicyupdate"@ {
        match bool_spec(text) {
            Some(b) => Ok(IndexProgress { allow_policy_update: Some(b), ..p }),
            None => Err(IndexFault::BadBool("allowpolicyupdate"@)),
        }
    } else if p.section is Root && p.elem == "volumelockstate"@ {
        Ok(IndexProgress { volume_lock_state: Some(text), ..p })
    } else if p.section is Root && p.elem == "highestfileuid"@ {
        match u64_spec(text) {
            Some(n) => Ok(IndexProgress { highest_file_uid: Some(n), ..p }),
            None => Err(IndexFault::BadNumber("highestfileuid"@)),
        }
    } else if p.section is Location && p.elem == "partition"@ {
        match partition_spec(text) {
            Some(n) => Ok(IndexProgress { self_partition: Some(n), ..p }),
            None => Err(IndexFault::BadNumber("partition"@)),
        }
    } else if p.section is Location && p.elem == "startblock"@ {
        match u64_spec(text) {
            Some(n) => Ok(IndexProgress { self_block: Some(n), ..p }),
            None => Err(IndexFault::BadNumber("startblock"@)),
        }
    } else if p.section is PrevLocation && p.elem == "partition"@ {
        match partition_spec(text) {
            Some(n) => Ok(IndexProgress { prev_partition: Some(n), ..p }),
            None => Err(IndexFault::BadNumber("partition"@)),
        }
    } else if p.section is PrevLocation && p.elem == "startblock"@ {
        match u64_spec(text) {
            Some(n) => Ok(IndexProgress { prev_block: Some(n), ..p }),
            None => Err(IndexFault::BadNumber("startblock"@)),
        }
    } else {
        Ok(p)
    }
}

/// The end of a run of text: white space around it does not count, and an empty run is
/// passed over.
pub open spec fn index_flush(p: IndexProgress) -> Result<IndexProgress, IndexFault> {
    let text = trimmed(p.run);
    let q = IndexProgress { run: Seq::empty(), ..p };
    if text.len() == 0 {
        Ok(q)
    } else {
        index_text(q, text)
    }
}

/// One event of an index document. A reference that can be decoded is part of the text
/// around it; one that cannot ends the run of text.
pub open spec fn index_step(p: IndexProgress, event: XmlEvent) -> Result<IndexProgress, IndexFault> {
    match event {
        XmlEvent::Text(raw) => match text_value(raw) {
            Ok(text) => Ok(IndexProgress { run: p.run + text, ..p }),
            Err(message) => Err(IndexFault::Xml(message)),
        },
        XmlEvent::Reference(name) => match reference_value(name) {
            Ok(text) => Ok(IndexProgress { run: p.run + text, ..p }),
            Err(_) => index_flush(p),
        },
        _ => match index_flush(p) {
            Err(fault) => Err(fault),
            Ok(q) => match event {
                XmlEvent::Start(name, content) => Ok(index_open(q, name, content)),
                XmlEvent::Empty(name, content) => Ok(index_open(q, name, content)),
                XmlEvent::End(name) => Ok(index_close(q, name)),
                XmlEvent::Failed(message) => Err(IndexFault::Xml(message)),
                _ => Ok(q),
            },
        },
    }
}

/// What is missing is reported in a fixed order.
pub open spec fn index_finish(p: IndexProgress, root: DirModel) -> Result<IndexModel, IndexFault> {
    if !p.root_seen {
        Err(IndexFault::NotLtfsIndex)
    } else if p.self_partition is None {
        Err(IndexFault::MissingField("location/partition"@))
    } else if p.self_block is None {
        Err(IndexFault::MissingField("location/startblock"@))
    } else if p.version is None {
        Err(IndexFault::MissingVersion)
    } else if p.creator is None {
        Err(IndexFault::MissingField("creator"@))
    } else if p.volume_uuid is None {
        Err(IndexFault::MissingField("volumeuuid"@))
    } else if p.generation is None {
        Err(IndexFault::MissingField("generationnumber"@))
    } else if p.update_time is None {
        Err(IndexFault::MissingField("updatetime"@))
    } else if p.allow_policy_update is None {
        Err(IndexFault::MissingField("allowpolicyupdate"@))
    } else if !p.directory_seen {
        Err(IndexFault::MissingField("directory"@))
    } else {
        Ok(
            IndexModel {
                version: p.version->0,
                creator: p.creator->0,
                volume_uuid: p.volume_uuid->0,
                volume_name: p.volume_name,
                generation: p.generation->0,
                update_time: p.update_time->0,
                self_location: TapePos {
                    partition: p.self_partition->0,
                    startblock: p.self_block->0,
                },
                previous_location: if p.prev_partition is Some && p.prev_block is Some {
                    Some(TapePos { partition: p.prev_partition->0, startblock: p.prev_block->0 })
                } else {
                    None
                },
                allow_policy_update: p.allow_policy_update->0,
                volume_lock_state: p.volume_lock_state,
                highest_file_uid: p.highest_file_uid,
                file_count: p.file_count as u64,
                directory_count: p.directory_count as u64,
                root,
            },
        )
    }
}

/// The progress behind the events of a document, up to its end of file.
pub open spec fn index_run(p: IndexProgress, events: Seq<XmlEvent>) -> Result<
    IndexProgress,
    IndexFault,
>
    decreases events.len(),
{
    if events.len() == 0 || events[0] is Eof {
        index_flush(p)
    } else {
        match index_step(p, events[0]) {
            Ok(q) => index_run(q, events.drop_first()),
            Err(fault) => Err(fault),
        }
    }
}

/// The index that a document stands for.
pub open spec fn index_from(events: Seq<XmlEvent>) -> Result<IndexModel, IndexFault> {
    match index_run(index_start(), events) {
        Err(fault) => Err(fault),
        Ok(p) => index_finish(p, root_directory(document_tree(events))),
    }
}

/// The model of the result of reading an index.
pub open spec fn index_outcome(result: Result<Index, IndexError>) -> Result<IndexModel, IndexFault> {
    match result {
        Ok(index) => Ok(index@),
        Err(error) => Err(error@),
    }
}

/// The model of a step.
pub open spec fn step_ok(result: Result<IndexProgress, IndexFault>, p: IndexProgress) -> bool {
    result == Ok::<IndexProgress, IndexFault>(p)
}

pub open spec fn step_err(result: Result<IndexProgress, IndexFault>, fault: IndexFault) -> bool {
    result == Err::<IndexProgress, IndexFault>(fault)
}

impl IndexScan {
    fn new() -> (scan: IndexScan)
        ensures
            scan@ == index_start(),
    {
        IndexScan {
            section: IndexSection::Root,
            elem: String::new(),
            run: String::new(),
            root_seen: false,
            directory_seen: false,
            in_directory: false,
            dir_depth: 0,
            directory_count: 0,
            file_count: 0,
            version: None,
            creator: None,
            volume_uuid: None,
            volume_name: None,
            generation: None,
            update_time: None,
            allow_policy_update: None,
            volume_lock_state: None,
            highest_file_uid: None,
            self_partition: None,
            self_block: None,
            prev_partition: None,
            prev_block: None,
        }
    }

    fn open(&mut self, name: &String, content: &String)
        requires
            old(self)@.dir_depth < u64::MAX,
            old(self)@.directory_count < u64::MAX,
            old(self)@.file_count < u64::MAX,
        ensures
            final(self)@ == index_open(old(self)@, name@, content@),
    {
        let n = name.as_str();
        if same(n, "ltfsindex") {
            self.root_seen = true;
            self.version = attribute_value(n, content.as_str(), "version");
        } else if same(n, "location") && self.section == IndexSection::Root {
            self.section = IndexSection::Location;
        } else if same(n, "previousgenerationlocation") && self.section == IndexSection::Root {
            self.section = IndexSection::PrevLocation;
        } else if same(n, "directory") && self.section == IndexSection::Root {
            self.section = IndexSection::Directory;
            self.directory_seen = true;
            self.in_directory = true;
            self.dir_depth = 1;
            self.volume_name = attribute_value(n, content.as_str(), "name");
        } else if self.in_directory {
            if same(n, "directory") {
                self.directory_count = self.directory_count + 1;
                self.dir_depth = self.dir_depth + 1;
            } else if same(n, "file") || same(n, "symlink") {
                self.file_count = self.file_count + 1;
            }
        }
        self.elem = name.clone();
    }

    fn close(&mut self, name: &String)
        ensures
            final(self)@ == index_close(old(self)@, name@),
    {
        let n = name.as_str();
        if same(n, "location") && self.section == IndexSection::Location {
            self.section = IndexSection::Root;
        } else if same(n, "previousgenerationlocation") && self.section
            == IndexSection::PrevLocation {
            self.section = IndexSection::Root;
        } else if same(n, "directory") && self.in_directory {
            if self.dir_depth > 0 {
                self.dir_depth = self.dir_depth - 1;
            }
            if self.dir_depth == 0 {
                self.in_directory = false;
                self.section = IndexSection::Root;
            }
        }
        self.elem = String::new();
    }

    fn take_text(&mut self, text: String) -> (result: Result<(), IndexError>)
        ensures
            match result {
                Ok(_) => step_ok(index_text(old(self)@, text@), final(self)@),
                Err(e) => step_err(index_text(old(self)@, text@), e@),
            },
    {
        let elem = self.elem.as_str();
        if self.in_directory {
            if self.volume_name.is_none() && self.dir_depth == 1 && same(elem, "name") {
                self.volume_name = Some(text);
            }
            return Ok(());
        }
        match self.section {
            IndexSection::Root => {
                if same(elem, "creator") {
                    self.creator = Some(text);
                } else if same(elem, "volumeuuid") {
                    self.volume_uuid = Some(text);
                } else if same(elem, "generationnumber") {
                    match parse_u64(text.as_str()) {
                        Some(n) => {
                            self.generation = Some(n);
                        },
                        None => {
                            return Err(IndexError::BadNumber("generationnumber"));
                        },
                    }
                } else if same(elem, "updatetime") {
                    self.update_time = Some(text);
                } else if same(elem, "allowpolicyupdate") {
                    match parse_bool(text.as_str()) {
                        Some(b) => {
                            self.allow_policy_update = Some(b);
                        },
                        None => {
                            return Err(IndexError::BadBool("allowpolicyupdate"));
                        },
                    }
                } else if same(elem, "volumelockstate") {
                    self.volume_lock_state = Some(text);
                } else if same(elem, "highestfileuid") {
                    match parse_u64(text.as_str()) {
                        Some(n) => {
                            self.highest_file_uid = Some(n);
                        },
                        None => {
                            return Err(IndexError::BadNumber("highestfileuid"));
                        },
                    }
                }
            },
            IndexSection::Location => {
                if same(elem, "partition") {
                    match parse_partition(text.as_str()) {
                        Some(n) => {
                            self.self_partition = Some(n);
                        },
                        None => {
                            return Err(IndexError::BadNumber("partition"));
                        },
                    }
                } else if same(elem, "startblock") {
                    match parse_u64(text.as_str()) {
                        Some(n) => {
                            self.self_block = Some(n);
                        },
                        None => {
                            return Err(IndexError::BadNumber("startblock"));
                        },
                    }
                }
            },
            IndexSection::PrevLocation => {
                if same(elem, "partition") {
                    match parse_partition(text.as_str()) {
                        Some(n) => {
                            self.prev_partition = Some(n);
                        },
                        None => {
                            return Err(IndexError::BadNumber("partition"));
                        },
                    }
                } else if same(elem, "startblock") {
                    match parse_u64(text.as_str()) {
                        Some(n) => {
                            self.prev_block = Some(n);
                        },
                        None => {
                            return Err(IndexError::BadNumber("startblock"));
                        },
                    }
                }
            },
            IndexSection::Directory => {},
        }
        Ok(())
    }

    fn flush(&mut self) -> (result: Result<(), IndexError>)
        ensures
            match result {
                Ok(_) => step_ok(index_flush(old(self)@), final(self)@),
                Err(e) => step_err(index_flush(old(self)@), e@),
            },
            result is Ok ==> final(self)@.dir_depth == old(self)@.dir_depth
                && final(self)@.directory_count == old(self)@.directory_count
                && final(self)@.file_count == old(self)@.file_count,
    {
        let text = trim(self.run.as_str());
        self.run = String::new();
        if text.as_str().is_empty() {
            Ok(())
        } else {
            self.take_text(text)
        }
    }

    fn step(&mut self, item: &XmlItem) -> (result: Result<(), IndexError>)
        requires
            old(self)@.dir_depth < u64::MAX,
            old(self)@.directory_count < u64::MAX,
            old(self)@.file_count < u64::MAX,
        ensures
            match result {
                Ok(_) => step_ok(index_step(old(self)@, item@), final(self)@),
                Err(e) => step_err(index_step(old(self)@, item@), e@),
            },
            result is Ok ==> final(self)@.dir_depth <= old(self)@.dir_depth + 1
                && final(self)@.directory_count <= old(self)@.directory_count + 1
                && final(self)@.file_count <= old(self)@.file_count + 1,
    {
        match item {
            XmlItem::Text(raw) => match unescape_text(raw.as_str()) {
                Ok(text) => {
                    self.run.append(text.as_str());
                    return Ok(());
                },
                Err(message) => {
                    return Err(IndexError::Xml(message));
                },
            },
            XmlItem::Reference(name) => {
                return match decode_general_ref(name.as_str()) {
                    Ok(text) => {
                        self.run.append(text.as_str());
                        Ok(())
                    },
                    Err(_) => self.flush(),
                };
            },
            _ => {},
        }
        match self.flush() {
            Ok(_) => {},
            Err(error) => {
                return Err(error);
            },
        }
        match item {
            XmlItem::Start(name, content) => {
                self.open(name, content);
            },
            XmlItem::Empty(name, content) => {
                self.open(name, content);
            },
            XmlItem::End(name) => {
                self.close(name);
            },
            XmlItem::Failed(message) => {
                return Err(IndexError::Xml(message.clone()));
            },
            _ => {},
        }
        Ok(())
    }

    fn finish(self, root: Directory) -> (result: Result<Index, IndexError>)
        ensures
            index_outcome(result) == index_finish(self@, root@),
    {
        if !self.root_seen {
            return Err(IndexError::NotLtfsIndex);
        }
        let partition: u8 = match self.self_partition {
            Some(value) => value,
            None => {
                return Err(IndexError::MissingField("location/partition"));
            },
        };
        let startblock: u64 = match self.self_block {
            Some(value) => value,
            None => {
                return Err(IndexError::MissingField("location/startblock"));
            },
        };
        let previous_location = match (self.prev_partition, self.prev_block) {
            (Some(partition), Some(startblock)) => Some(TapePos { partition, startblock }),
            _ => None,
        };
        let version = match self.version {
            Some(value) => value,
            None => {
                return Err(IndexError::MissingVersion);
            },
        };
        let creator = match self.creator {
            Some(value) => value,
            None => {
                return Err(IndexError::MissingField("creator"));
            },
        };
        let volume_uuid = match self.volume_uuid {
            Some(value) => value,
            None => {
                return Err(IndexError::MissingField("volumeuuid"));
            },
        };
        let generation: u64 = match self.generation {
            Some(value) => value,
            None => {
                return Err(IndexError::MissingField("generationnumber"));
            },
        };
        let update_time = match self.update_time {
            Some(value) => value,
            None => {
                return Err(IndexError::MissingField("updatetime"));
            },
        };
        let allow_policy_update = match self.allow_policy_update {
            Some(value) => value,
            None => {
                return Err(IndexError::MissingField("allowpolicyupdate"));
            },
        };
        if !self.directory_seen {
            return Err(IndexError::MissingField("directory"));
        }
        Ok(
            Index {
                version,
                creator,
                volume_uuid,
                volume_name: self.volume_name,
                generation,
                update_time,
                self_location: TapePos { partition, startblock },
                previous_location,
                allow_policy_update,
                volume_lock_state: self.volume_lock_state,
                highest_file_uid: self.highest_file_uid,
                file_count: self.file_count,
                directory_count: self.directory_count,
                root,
            },
        )
    }
}

/// Reads the summary of a document.
fn scan_items(items: &Vec<XmlItem>) -> (result: Result<IndexScan, IndexError>)
    ensures
        match result {
            Ok(scan) => step_ok(index_run(index_start(), events_of(items@)), scan@),
            Err(e) => step_err(index_run(index_start(), events_of(items@)), e@),
        },
{
    let mut scan = IndexScan::new();
    let ghost events = events_of(items@);
    let mut i: usize = 0;
    assert(events.subrange(0, events.len() as int) =~= events);
    while i < items.len()
        invariant
            i <= items@.len(),
            events == events_of(items@),
            scan@.dir_depth <= i,
            scan@.directory_count <= i,
            scan@.file_count <= i,
            index_run(index_start(), events) == index_run(
                scan@,
                events.subrange(i as int, events.len() as int),
            ),
        decreases items@.len() - i,
    {
        let ghost rest = events.subrange(i as int, events.len() as int);
        assert(rest[0] == items@[i as int]@);
        assert(rest.drop_first() =~= events.subrange(i + 1, events.len() as int));
        let last = match &items[i] {
            XmlItem::Eof => true,
            _ => false,
        };
        if last {
            return match scan.flush() {
                Ok(_) => Ok(scan),
                Err(error) => Err(error),
            };
        }
        match scan.step(&items[i]) {
            Ok(_) => {},
            Err(error) => {
                return Err(error);
            },
        }
        i = i + 1;
    }
    match scan.flush() {
        Ok(_) => Ok(scan),
        Err(error) => Err(error),
    }
}

// ---------------------------------------------------------------------------
// The directory tree
// ---------------------------------------------------------------------------

/// The number that an optional text stands for; 0 where there is none.
pub open spec fn number_or_zero(text: Option<Seq<char>>) -> u64 {
    match text {
        Some(t) => match u64_spec(trimmed(t)) {
            Some(n) => n,
            None => 0,
        },
        None => 0,
    }
}

/// The partition that an optional text stands for; 0 where there is none.
pub open spec fn partition_or_zero(text: Option<Seq<char>>) -> u8 {
    match text {
        Some(t) => match partition_spec(trimmed(t)) {
            Some(n) => n,
            None => 0,
        },
        None => 0,
    }
}

/// "true", and nothing else, counts as true.
pub open spec fn flag_set(text: Option<Seq<char>>) -> bool {
    match text {
        Some(t) => trimmed(t) == "true"@,
        None => false,
    }
}

/// The times in an element.
pub open spec fn times_of(e: ElementModel) -> TimesModel {
    TimesModel {
        creation_time: child_text_spec(e, "creationtime"@),
        change_time: child_text_spec(e, "changetime"@),
        modify_time: child_text_spec(e, "modifytime"@),
        access_time: child_text_spec(e, "accesstime"@),
        backup_time: child_text_spec(e, "backuptime"@),
    }
}

/// The extended attribute that an `<xattr>` element stands for.
pub open spec fn attribute_of(e: ElementModel) -> AttributeEntry {
    AttributeEntry {
        key: text_or_empty(child_text_spec(e, "key"@)),
        value: text_or_empty(child_text_spec(e, "value"@)),
        value_type: match child_spec(e.children, "value"@) {
            Some(v) => attribute_value_spec(v.name, v.content, "type"@),
            None => None,
        },
    }
}

pub open spec fn text_or_empty(text: Option<Seq<char>>) -> Seq<char> {
    match text {
        Some(t) => t,
        None => Seq::empty(),
    }
}

/// The `<xattr>` elements of a list.
pub open spec fn attributes_in(children: Seq<ElementModel>) -> Seq<AttributeEntry>
    decreases children.len(),
{
    if children.len() == 0 {
        Seq::empty()
    } else if children.last().name == "xattr"@ {
        attributes_in(children.drop_last()).push(attribute_of(children.last()))
    } else {
        attributes_in(children.drop_last())
    }
}

/// The extended attributes in an element.
pub open spec fn extended_attributes_of(e: ElementModel) -> Seq<AttributeEntry> {
    match child_spec(e.children, "extendedattributes"@) {
        Some(list) => attributes_in(list.children),
        None => Seq::empty(),
    }
}

/// The extent that an `<extent>` element stands for.
pub open spec fn extent_of(e: ElementModel) -> Extent {
    Extent {
        file_offset: number_or_zero(child_text_spec(e, "fileoffset"@)),
        partition: partition_or_zero(child_text_spec(e, "partition"@)),
        start_block: number_or_zero(child_text_spec(e, "startblock"@)),
        byte_count: number_or_zero(child_text_spec(e, "bytecount"@)),
    }
}

/// The `<extent>` elements of a list.
pub open spec fn extents_in(children: Seq<ElementModel>) -> Seq<Extent>
    decreases children.len(),
{
    if children.len() == 0 {
        Seq::empty()
    } else if children.last().name == "extent"@ {
        extents_in(children.drop_last()).push(extent_of(children.last()))
    } else {
        extents_in(children.drop_last())
    }
}

/// The file that a `<file>` or `<symlink>` element stands for. A file that is a link
/// names its target in a `<symlink>` element; a `<symlink>` element in `<target>`.
pub open spec fn file_of(e: ElementModel) -> FileModel {
    FileModel {
        name: text_or_empty(child_text_spec(e, "name"@)),
        fileuid: number_or_zero(child_text_spec(e, "fileuid"@)),
        length: number_or_zero(child_text_spec(e, "length"@)),
        readonly: flag_set(child_text_spec(e, "readonly"@)),
        times: times_of(e),
        extents: match child_spec(e.children, "extentinfo"@) {
            Some(list) => extents_in(list.children),
            None => Seq::empty(),
        },
        extended_attributes: extended_attributes_of(e),
        symlink_target: if e.name == "symlink"@ {
            child_text_spec(e, "target"@)
        } else {
            child_text_spec(e, "symlink"@)
        },
    }
}

/// The directory that a `<directory>` element stands for.
pub open spec fn directory_of(e: ElementModel) -> DirModel
    decreases e, 0nat,
{
    DirModel {
        name: match child_text_spec(e, "name"@) {
            Some(name) => name,
            None => text_or_empty(attribute_value_spec(e.name, e.content, "name"@)),
        },
        fileuid: number_or_zero(child_text_spec(e, "fileuid"@)),
        readonly: flag_set(child_text_spec(e, "readonly"@)),
        times: times_of(e),
        extended_attributes: extended_attributes_of(e),
        entries: contents_in(e.children),
    }
}

/// The entries in the first `<contents>` element of a list.
pub open spec fn contents_in(children: Seq<ElementModel>) -> Seq<EntryModel>
    decreases children, 0nat,
{
    if children.len() == 0 {
        Seq::empty()
    } else if children[0].name == "contents"@ {
        entries_in(children[0].children)
    } else {
        contents_in(children.drop_first())
    }
}

/// The entries that a list of elements stands for, in their order; other elements are
/// passed over.
pub open spec fn entries_in(children: Seq<ElementModel>) -> Seq<EntryModel>
    decreases children, 0nat,
{
    if children.len() == 0 {
        Seq::empty()
    } else {
        let e = children.last();
        let before = entries_in(children.drop_last());
        if e.name == "directory"@ {
            before.push(EntryModel::Directory(directory_of(e)))
        } else if e.name == "file"@ || e.name == "symlink"@ {
            before.push(EntryModel::File(file_of(e)))
        } else {
            before
        }
    }
}

/// The root directory: the first `<directory>` in the first element of the document.
pub open spec fn root_directory(document: ElementModel) -> DirModel {
    if document.children.len() == 0 {
        empty_directory()
    } else {
        match child_spec(document.children[0].children, "directory"@) {
            Some(e) => directory_of(e),
            None => empty_directory(),
        }
    }
}

fn number(text: Option<String>) -> (n: u64)
    ensures
        n == number_or_zero(opt_view(text)),
{
    match text {
        Some(t) => match parse_u64(trim(t.as_str()).as_str()) {
            Some(n) => n,
            None => 0,
        },
        None => 0,
    }
}

fn partition(text: Option<String>) -> (n: u8)
    ensures
        n == partition_or_zero(opt_view(text)),
{
    match text {
        Some(t) => match parse_partition(trim(t.as_str()).as_str()) {
            Some(n) => n,
            None => 0,
        },
        None => 0,
    }
}

fn flag(text: Option<String>) -> (set: bool)
    ensures
        set == flag_set(opt_view(text)),
{
    match text {
        Some(t) => same(trim(t.as_str()).as_str(), "true"),
        None => false,
    }
}

fn text_or_default(text: Option<String>) -> (t: String)
    ensures
        t@ == text_or_empty(opt_view(text)),
{
    match text {
        Some(t) => t,
        None => String::new(),
    }
}

fn read_times(e: &XmlElement) -> (times: FileTimes)
    ensures
        times@ == times_of(e@),
{
    FileTimes {
        creation_time: child_text(e, "creationtime"),
        change_time: child_text(e, "changetime"),
        modify_time: child_text(e, "modifytime"),
        access_time: child_text(e, "accesstime"),
        backup_time: child_text(e, "backuptime"),
    }
}

fn read_attribute(e: &XmlElement) -> (a: ExtendedAttribute)
    ensures
        a@ == attribute_of(e@),
{
    ExtendedAttribute {
        key: text_or_default(child_text(e, "key")),
        value: text_or_default(child_text(e, "value")),
        value_type: match child(e, "value") {
            Some(v) => attribute_value(v.name.as_str(), v.content.as_str(), "type"),
            None => None,
        },
    }
}

fn read_attributes(e: &XmlElement) -> (list: Vec<ExtendedAttribute>)
    ensures
        attribute_entries(list@) == extended_attributes_of(e@),
{
    let mut list: Vec<ExtendedAttribute> = Vec::new();
    assert(attribute_entries(list@) =~= Seq::<AttributeEntry>::empty());
    match child(e, "extendedattributes") {
        None => {},
        Some(holder) => {
            let ghost all = models(holder.children@);
            proof {
                lemma_children(*holder);
                assert(all.subrange(0, 0) =~= Seq::<ElementModel>::empty());
            }
            let mut i: usize = 0;
            while i < holder.children.len()
                invariant
                    i <= holder.children@.len(),
                    all == models(holder.children@),
                    attribute_entries(list@) == attributes_in(all.subrange(0, i as int)),
                decreases holder.children@.len() - i,
            {
                let ghost before = list@;
                proof {
                    let next = all.subrange(0, i + 1);
                    assert(next.drop_last() =~= all.subrange(0, i as int));
                    assert(next.last() == holder.children@[i as int]@);
                }
                if same(holder.children[i].name.as_str(), "xattr") {
                    let a = read_attribute(&holder.children[i]);
                    list.push(a);
                    assert(attribute_entries(list@) =~= attribute_entries(before).push(a@));
                }
                i = i + 1;
            }
            assert(all.subrange(0, i as int) =~= all);
        },
    }
    list
}

fn read_extent(e: &XmlElement) -> (x: Extent)
    ensures
        x == extent_of(e@),
{
    Extent {
        file_offset: number(child_text(e, "fileoffset")),
        partition: partition(child_text(e, "partition")),
        start_block: number(child_text(e, "startblock")),
        byte_count: number(child_text(e, "bytecount")),
    }
}

fn read_extents(e: &XmlElement) -> (list: Vec<Extent>)
    ensures
        list@ == file_of(e@).extents,
{
    let mut list: Vec<Extent> = Vec::new();
    match child(e, "extentinfo") {
        None => {},
        Some(holder) => {
            let ghost all = models(holder.children@);
            proof {
                lemma_children(*holder);
                assert(all.subrange(0, 0) =~= Seq::<ElementModel>::empty());
            }
            let mut i: usize = 0;
            while i < holder.children.len()
                invariant
                    i <= holder.children@.len(),
                    all == models(holder.children@),
                    list@ == extents_in(all.subrange(0, i as int)),
                decreases holder.children@.len() - i,
            {
                proof {
                    let next = all.subrange(0, i + 1);
                    assert(next.drop_last() =~= all.subrange(0, i as int));
                    assert(next.last() == holder.children@[i as int]@);
                }
                if same(holder.children[i].name.as_str(), "extent") {
                    list.push(read_extent(&holder.children[i]));
                }
                i = i + 1;
            }
            assert(all.subrange(0, i as int) =~= all);
        },
    }
    list
}

fn read_file(e: &XmlElement) -> (f: FileEntry)
    ensures
        f@ == file_of(e@),
{
    FileEntry {
        name: text_or_default(child_text(e, "name")),
        fileuid: number(child_text(e, "fileuid")),
        length: number(child_text(e, "length")),
        readonly: flag(child_text(e, "readonly")),
        times: read_times(e),
        extents: read_extents(e),
        extended_attributes: read_attributes(e),
        symlink_target: if same(e.name.as_str(), "symlink") {
            child_text(e, "target")
        } else {
            child_text(e, "symlink")
        },
    }
}

/// `contents_in` is what the first `<contents>` child holds.
proof fn lemma_contents(children: Seq<ElementModel>)
    ensures
        contents_in(children) == (match child_spec(children, "contents"@) {
            Some(c) => entries_in(c.children),
            None => Seq::empty(),
        }),
    decreases children.len(),
{
    if children.len() > 0 && children[0].name != "contents"@ {
        lemma_contents(children.drop_first());
    }
}

fn read_directory(e: &XmlElement) -> (d: Directory)
    ensures
        d@ == directory_of(e@),
    decreases e,
{
    let mut entries: Vec<DirectoryEntry> = Vec::new();
    proof {
        lemma_contents(e@.children);
        assert(entry_models(entries@) =~= Seq::<EntryModel>::empty());
    }
    match child(e, "contents") {
        None => {},
        Some(holder) => {
            let ghost all = models(holder.children@);
            proof {
                lemma_children(*holder);
                assert(all.subrange(0, 0) =~= Seq::<ElementModel>::empty());
                let k = choose|k: int|
                    0 <= k < e.children@.len() && #[trigger] e.children@[k] == *holder;
                assert(decreases_to!(e.children => e.children[k]));
            }
            let mut i: usize = 0;
            while i < holder.children.len()
                invariant
                    i <= holder.children@.len(),
                    decreases_to!(e => holder.children),
                    all == models(holder.children@),
                    entry_models(entries@) == entries_in(all.subrange(0, i as int)),
                decreases holder.children@.len() - i,
            {
                let ghost before = entries@;
                proof {
                    let next = all.subrange(0, i + 1);
                    assert(next.drop_last() =~= all.subrange(0, i as int));
                    assert(next.last() == holder.children@[i as int]@);
                    assert(decreases_to!(holder.children => holder.children[i as int]));
                }
                let name = holder.children[i].name.as_str();
                if same(name, "directory") {
                    let sub = read_directory(&holder.children[i]);
                    let entry = DirectoryEntry::Directory(sub);
                    entries.push(entry);
                    assert(entry_models(entries@) =~= entry_models(before).push(entry@));
                } else if same(name, "file") || same(name, "symlink") {
                    let f = read_file(&holder.children[i]);
                    let entry = DirectoryEntry::File(f);
                    entries.push(entry);
                    assert(entry_models(entries@) =~= entry_models(before).push(entry@));
                }
                i = i + 1;
            }
            assert(all.subrange(0, i as int) =~= all);
        },
    }
    let d = Directory {
        name: match child_text(e, "name") {
            Some(name) => name,
            None => text_or_default(attribute_value(e.name.as_str(), e.content.as_str(), "name")),
        },
        fileuid: number(child_text(e, "fileuid")),
        readonly: flag(child_text(e, "readonly")),
        times: read_times(e),
        extended_attributes: read_attributes(e),
        entries,
    };
    proof {
        lemma_entries(d);
    }
    d
}

fn read_root(document: &XmlElement) -> (d: Directory)
    ensures
        d@ == root_directory(document@),
{
    proof {
        lemma_children(*document);
    }
    if document.children.len() == 0 {
        return Directory::default();
    }
    assert(document@.children[0] == document.children@[0]@);
    match child(&document.children[0], "directory") {
        Some(e) => read_directory(e),
        None => Directory::default(),
    }
}

// ---------------------------------------------------------------------------
// Writing
// ---------------------------------------------------------------------------

/// The events of an element: its tag, its text, its children, its end tag.
pub open spec fn element_events(e: ElementModel) -> Seq<XmlEvent>
    decreases e, 0nat,
{
    seq![XmlEvent::Start(e.name, e.content)] + text_events(e.text) + children_events(e.children)
        + seq![XmlEvent::End(e.name)]
}

/// The events of a list of elements.
pub open spec fn children_events(children: Seq<ElementModel>) -> Seq<XmlEvent>
    decreases children, 0nat,
{
    if children.len() == 0 {
        Seq::empty()
    } else {
        children_events(children.drop_last()) + element_events(children.last())
    }
}

/// An element that holds text only.
pub open spec fn leaf(name: Seq<char>, text: Seq<char>) -> ElementModel {
    ElementModel { name, content: name, text, children: Seq::empty() }
}

/// An element that holds elements only.
pub open spec fn node(name: Seq<char>, children: Seq<ElementModel>) -> ElementModel {
    ElementModel { name, content: name, text: Seq::empty(), children }
}

/// An element for a text that may be absent.
pub open spec fn opt_leaf(name: Seq<char>, text: Option<Seq<char>>) -> Seq<ElementModel> {
    match text {
        Some(t) => seq![leaf(name, t)],
        None => Seq::empty(),
    }
}

pub open spec fn time_elements(t: TimesModel) -> Seq<ElementModel> {
    opt_leaf("creationtime"@, t.creation_time) + opt_leaf("changetime"@, t.change_time) + opt_leaf(
        "modifytime"@,
        t.modify_time,
    ) + opt_leaf("accesstime"@, t.access_time) + opt_leaf("backuptime"@, t.backup_time)
}

/// The `<xattr>` element of an extended attribute.
pub open spec fn attribute_element(a: AttributeEntry) -> ElementModel {
    node(
        "xattr"@,
        seq![
            leaf("key"@, a.key),
            ElementModel {
                name: "value"@,
                content: match a.value_type {
                    Some(t) => attribute_content("value"@, "type"@, escaped(t)),
                    None => "value"@,
                },
                text: a.value,
                children: Seq::empty(),
            },
        ],
    )
}

pub open spec fn attribute_elements(list: Seq<AttributeEntry>) -> Seq<ElementModel> {
    if list.len() == 0 {
        Seq::empty()
    } else {
        seq![node("extendedattributes"@, list.map_values(|a: AttributeEntry| attribute_element(a)))]
    }
}

/// The `<extent>` element of an extent.
pub open spec fn extent_element(x: Extent) -> ElementModel {
    node(
        "extent"@,
        seq![
            leaf("fileoffset"@, decimal_spec(x.file_offset as nat)),
            leaf("partition"@, seq![partition_char(x.partition)]),
            leaf("startblock"@, decimal_spec(x.start_block as nat)),
            leaf("byteoffset"@, "0"@),
            leaf("bytecount"@, decimal_spec(x.byte_count as nat)),
        ],
    )
}

pub open spec fn extent_elements(list: Seq<Extent>) -> Seq<ElementModel> {
    if list.len() == 0 {
        Seq::empty()
    } else {
        seq![node("extentinfo"@, list.map_values(|x: Extent| extent_element(x)))]
    }
}

/// The `<file>` element of a file.
pub open spec fn file_element(f: FileModel) -> ElementModel {
    node(
        "file"@,
        seq![
            leaf("name"@, f.name),
            leaf("length"@, decimal_spec(f.length as nat)),
            leaf("readonly"@, bool_text(f.readonly)),
            leaf("fileuid"@, decimal_spec(f.fileuid as nat)),
        ] + time_elements(f.times) + opt_leaf("symlink"@, f.symlink_target) + extent_elements(
            f.extents,
        ) + attribute_elements(f.extended_attributes),
    )
}

/// The `<directory>` element of a directory.
pub open spec fn directory_element(d: DirModel) -> ElementModel
    decreases d, 0nat,
{
    node(
        "directory"@,
        seq![
            leaf("name"@, d.name),
            leaf("readonly"@, bool_text(d.readonly)),
            leaf("fileuid"@, decimal_spec(d.fileuid as nat)),
        ] + time_elements(d.times) + attribute_elements(d.extended_attributes) + seq![
            node("contents"@, entry_elements(d.entries)),
        ],
    )
}

/// The elements of the entries of a directory.
pub open spec fn entry_elements(entries: Seq<EntryModel>) -> Seq<ElementModel>
    decreases entries, 0nat,
{
    if entries.len() == 0 {
        Seq::empty()
    } else {
        entry_elements(entries.drop_last()).push(
            match entries.last() {
                EntryModel::Directory(d) => directory_element(d),
                EntryModel::File(f) => file_element(f),
            },
        )
    }
}

/// The elements of a location.
pub open spec fn position_elements(at: TapePos) -> Seq<ElementModel> {
    seq![
        leaf("partition"@, seq![partition_char(at.partition)]),
        leaf("startblock"@, decimal_spec(at.startblock as nat)),
    ]
}

/// The elements of an index document, in their order.
pub open spec fn index_elements(m: IndexModel) -> Seq<ElementModel> {
    seq![
        leaf("creator"@, m.creator),
        leaf("volumeuuid"@, m.volume_uuid),
        leaf("generationnumber"@, decimal_spec(m.generation as nat)),
        leaf("updatetime"@, m.update_time),
        node("location"@, position_elements(m.self_location)),
    ] + (match m.previous_location {
        Some(at) => seq![node("previousgenerationlocation"@, position_elements(at))],
        None => Seq::empty(),
    }) + seq![leaf("allowpolicyupdate"@, bool_text(m.allow_policy_update))] + (
    match m.highest_file_uid {
        Some(uid) => seq![leaf("highestfileuid"@, decimal_spec(uid as nat))],
        None => Seq::empty(),
    }) + opt_leaf("volumelockstate"@, m.volume_lock_state) + seq![directory_element(m.root)]
}

/// The root element of an index document.
pub open spec fn index_element(m: IndexModel) -> ElementModel {
    ElementModel {
        name: "ltfsindex"@,
        content: attribute_content("ltfsindex"@, "version"@, escaped(m.version)),
        text: Seq::empty(),
        children: index_elements(m),
    }
}

/// The events of an index document.
pub open spec fn index_events(m: IndexModel) -> Seq<XmlEvent> {
    seq![XmlEvent::Declaration] + line_break() + element_events(index_element(m)) + line_break()
}

/// The XML document of an index.
pub open spec fn index_xml(m: IndexModel) -> Seq<char> {
    rendered(index_events(m))
}

pub proof fn lemma_children_concat(a: Seq<ElementModel>, b: Seq<ElementModel>)
    ensures
        children_events(a + b) == children_events(a) + children_events(b),
    decreases b.len(),
{
    if b.len() == 0 {
        assert(a + b =~= a);
        assert(children_events(a) + children_events(b) =~= children_events(a));
    } else {
        assert((a + b).drop_last() =~= a + b.drop_last());
        lemma_children_concat(a, b.drop_last());
        assert(children_events(a + b) =~= children_events(a) + children_events(b));
    }
}

pub proof fn lemma_children_one(e: ElementModel)
    ensures
        children_events(seq![e]) == element_events(e),
{
    assert(seq![e].drop_last() =~= Seq::<ElementModel>::empty());
    assert(children_events(seq![e].drop_last()) =~= Seq::<XmlEvent>::empty());
    assert(children_events(seq![e]) =~= element_events(e));
}

pub proof fn lemma_leaf_events(name: Seq<char>, text: Seq<char>)
    ensures
        element_events(leaf(name, text)) == field(name, text),
{
    assert(children_events(Seq::empty()) =~= Seq::<XmlEvent>::empty());
    assert(element_events(leaf(name, text)) =~= field(name, text));
}

/// The events of a node: tags round the events of its children.
pub proof fn lemma_node_events(name: Seq<char>, children: Seq<ElementModel>)
    ensures
        element_events(node(name, children)) == seq![XmlEvent::Start(name, name)]
            + children_events(children) + seq![XmlEvent::End(name)],
{
    assert(text_events(Seq::<char>::empty()) =~= Seq::<XmlEvent>::empty());
    assert(element_events(node(name, children)) =~= seq![XmlEvent::Start(name, name)]
        + children_events(children) + seq![XmlEvent::End(name)]);
}

/// A writer of elements: `written` lists the elements that stand behind `before`.
fn write_leaf(
    xml: &mut XmlWriter,
    name: &str,
    text: &str,
    Ghost(before): Ghost<Seq<XmlEvent>>,
    Ghost(written): Ghost<Seq<ElementModel>>,
)
    requires
        old(xml).wf(),
        old(xml)@ == before + children_events(written),
    ensures
        final(xml).wf(),
        final(xml)@ == before + children_events(written.push(leaf(name@, text@))),
{
    xml.field(name, text);
    proof {
        lemma_leaf_events(name@, text@);
        assert(written.push(leaf(name@, text@)).drop_last() =~= written);
        assert(xml@ =~= before + children_events(written.push(leaf(name@, text@))));
    }
}

fn write_opt_leaf(
    xml: &mut XmlWriter,
    name: &str,
    text: &Option<String>,
    Ghost(before): Ghost<Seq<XmlEvent>>,
    Ghost(written): Ghost<Seq<ElementModel>>,
)
    requires
        old(xml).wf(),
        old(xml)@ == before + children_events(written),
    ensures
        final(xml).wf(),
        final(xml)@ == before + children_events(written + opt_leaf(name@, opt_view(*text))),
{
    match text {
        Some(t) => {
            write_leaf(xml, name, t.as_str(), Ghost(before), Ghost(written));
            assert(written.push(leaf(name@, t@)) =~= written + opt_leaf(name@, opt_view(*text)));
        },
        None => {
            assert(written + opt_leaf(name@, opt_view(*text)) =~= written);
        },
    }
}

fn write_times(
    xml: &mut XmlWriter,
    times: &FileTimes,
    Ghost(before): Ghost<Seq<XmlEvent>>,
    Ghost(written): Ghost<Seq<ElementModel>>,
)
    requires
        old(xml).wf(),
        old(xml)@ == before + children_events(written),
    ensures
        final(xml).wf(),
        final(xml)@ == before + children_events(written + time_elements(times@)),
{
    let ghost w0 = written;
    write_opt_leaf(xml, "creationtime", &times.creation_time, Ghost(before), Ghost(w0));
    let ghost w1 = w0 + opt_leaf("creationtime"@, opt_view(times.creation_time));
    write_opt_leaf(xml, "changetime", &times.change_time, Ghost(before), Ghost(w1));
    let ghost w2 = w1 + opt_leaf("changetime"@, opt_view(times.change_time));
    write_opt_leaf(xml, "modifytime", &times.modify_time, Ghost(before), Ghost(w2));
    let ghost w3 = w2 + opt_leaf("modifytime"@, opt_view(times.modify_time));
    write_opt_leaf(xml, "accesstime", &times.access_time, Ghost(before), Ghost(w3));
    let ghost w4 = w3 + opt_leaf("accesstime"@, opt_view(times.access_time));
    write_opt_leaf(xml, "backuptime", &times.backup_time, Ghost(before), Ghost(w4));
    let ghost w5 = w4 + opt_leaf("backuptime"@, opt_view(times.backup_time));
    assert(w5 =~= written + time_elements(times@));
}

/// Closes a node whose children stand behind its start tag.
fn close_node(
    xml: &mut XmlWriter,
    name: &str,
    Ghost(before): Ghost<Seq<XmlEvent>>,
    Ghost(written): Ghost<Seq<ElementModel>>,
    Ghost(children): Ghost<Seq<ElementModel>>,
)
    requires
        old(xml).wf(),
        old(xml)@ == (before + children_events(written)) + seq![XmlEvent::Start(name@, name@)]
            + children_events(children),
    ensures
        final(xml).wf(),
        final(xml)@ == before + children_events(written.push(node(name@, children))),
{
    xml.end(name);
    proof {
        lemma_node_events(name@, children);
        assert(written.push(node(name@, children)).drop_last() =~= written);
        assert(xml@ =~= before + children_events(written.push(node(name@, children))));
    }
}

fn write_attribute(
    xml: &mut XmlWriter,
    a: &ExtendedAttribute,
    Ghost(before): Ghost<Seq<XmlEvent>>,
    Ghost(written): Ghost<Seq<ElementModel>>,
)
    requires
        old(xml).wf(),
        old(xml)@ == before + children_events(written),
    ensures
        final(xml).wf(),
        final(xml)@ == before + children_events(written.push(attribute_element(a@))),
{
    let ghost base = xml@;
    xml.start("xattr");
    let ghost inner = xml@;
    assert(inner + children_events(Seq::empty()) =~= inner);
    write_leaf(xml, "key", a.key.as_str(), Ghost(inner), Ghost(Seq::empty()));
    let ghost c1 = Seq::<ElementModel>::empty().push(leaf("key"@, a.key@));
    let ghost start = xml@;
    let ghost value = attribute_element(a@).children[1];
    match &a.value_type {
        Some(t) => {
            xml.start_with("value", "type", t.as_str());
        },
        None => {
            xml.start("value");
        },
    }
    xml.text(a.value.as_str());
    xml.end("value");
    proof {
        assert(children_events(Seq::<ElementModel>::empty()) =~= Seq::<XmlEvent>::empty());
        assert(xml@ =~= start + element_events(value));
        let c2 = c1.push(value);
        assert(c2.drop_last() =~= c1);
        assert(xml@ =~= inner + children_events(c2));
        assert(c2 =~= attribute_element(a@).children);
    }
    close_node(
        xml,
        "xattr",
        Ghost(before),
        Ghost(written),
        Ghost(attribute_element(a@).children),
    );
}

fn write_attributes(
    xml: &mut XmlWriter,
    list: &Vec<ExtendedAttribute>,
    Ghost(before): Ghost<Seq<XmlEvent>>,
    Ghost(written): Ghost<Seq<ElementModel>>,
)
    requires
        old(xml).wf(),
        old(xml)@ == before + children_events(written),
    ensures
        final(xml).wf(),
        final(xml)@ == before + children_events(
            written + attribute_elements(attribute_entries(list@)),
        ),
{
    let ghost entries = attribute_entries(list@);
    if list.len() == 0 {
        assert(written + attribute_elements(entries) =~= written);
        return;
    }
    let ghost all = entries.map_values(|a: AttributeEntry| attribute_element(a));
    xml.start("extendedattributes");
    let ghost inner = xml@;
    let mut i: usize = 0;
    assert(all.subrange(0, 0) =~= Seq::<ElementModel>::empty());
    assert(inner + children_events(Seq::<ElementModel>::empty()) =~= inner);
    while i < list.len()
        invariant
            i <= list@.len(),
            xml.wf(),
            all.len() == list@.len(),
            forall|j: int| 0 <= j < all.len() ==> #[trigger] all[j] == attribute_element(list@[j]@),
            xml@ == inner + children_events(all.subrange(0, i as int)),
        decreases list@.len() - i,
    {
        write_attribute(xml, &list[i], Ghost(inner), Ghost(all.subrange(0, i as int)));
        assert(all.subrange(0, i as int).push(attribute_element(list@[i as int]@)) =~= all.subrange(
            0,
            i + 1,
        ));
        i = i + 1;
    }
    assert(all.subrange(0, i as int) =~= all);
    close_node(xml, "extendedattributes", Ghost(before), Ghost(written), Ghost(all));
    assert(written.push(node("extendedattributes"@, all)) =~= written + attribute_elements(entries));
}

fn write_extent(
    xml: &mut XmlWriter,
    x: &Extent,
    Ghost(before): Ghost<Seq<XmlEvent>>,
    Ghost(written): Ghost<Seq<ElementModel>>,
)
    requires
        old(xml).wf(),
        old(xml)@ == before + children_events(written),
    ensures
        final(xml).wf(),
        final(xml)@ == before + children_events(written.push(extent_element(*x))),
{
    xml.start("extent");
    let ghost inner = xml@;
    let ghost c0 = Seq::<ElementModel>::empty();
    assert(inner + children_events(c0) =~= inner);
    write_leaf(xml, "fileoffset", decimal(x.file_offset).as_str(), Ghost(inner), Ghost(c0));
    let ghost c1 = c0.push(leaf("fileoffset"@, decimal_spec(x.file_offset as nat)));
    write_leaf(
        xml,
        "partition",
        super::label::char_string(partition_name(x.partition)).as_str(),
        Ghost(inner),
        Ghost(c1),
    );
    let ghost c2 = c1.push(leaf("partition"@, super::document::chars(partition_char(x.partition))));
    write_leaf(xml, "startblock", decimal(x.start_block).as_str(), Ghost(inner), Ghost(c2));
    let ghost c3 = c2.push(leaf("startblock"@, decimal_spec(x.start_block as nat)));
    write_leaf(xml, "byteoffset", "0", Ghost(inner), Ghost(c3));
    let ghost c4 = c3.push(leaf("byteoffset"@, "0"@));
    write_leaf(xml, "bytecount", decimal(x.byte_count).as_str(), Ghost(inner), Ghost(c4));
    let ghost c5 = c4.push(leaf("bytecount"@, decimal_spec(x.byte_count as nat)));
    assert(c5 =~= extent_element(*x).children);
    close_node(xml, "extent", Ghost(before), Ghost(written), Ghost(c5));
}

fn write_extents(
    xml: &mut XmlWriter,
    list: &Vec<Extent>,
    Ghost(before): Ghost<Seq<XmlEvent>>,
    Ghost(written): Ghost<Seq<ElementModel>>,
)
    requires
        old(xml).wf(),
        old(xml)@ == before + children_events(written),
    ensures
        final(xml).wf(),
        final(xml)@ == before + children_events(written + extent_elements(list@)),
{
    if list.len() == 0 {
        assert(written + extent_elements(list@) =~= written);
        return;
    }
    let ghost all = list@.map_values(|x: Extent| extent_element(x));
    xml.start("extentinfo");
    let ghost inner = xml@;
    let mut i: usize = 0;
    assert(all.subrange(0, 0) =~= Seq::<ElementModel>::empty());
    assert(inner + children_events(Seq::<ElementModel>::empty()) =~= inner);
    while i < list.len()
        invariant
            i <= list@.len(),
            xml.wf(),
            all.len() == list@.len(),
            forall|j: int| 0 <= j < all.len() ==> #[trigger] all[j] == extent_element(list@[j]),
            xml@ == inner + children_events(all.subrange(0, i as int)),
        decreases list@.len() - i,
    {
        write_extent(xml, &list[i], Ghost(inner), Ghost(all.subrange(0, i as int)));
        assert(all.subrange(0, i as int).push(extent_element(list@[i as int])) =~= all.subrange(
            0,
            i + 1,
        ));
        i = i + 1;
    }
    assert(all.subrange(0, i as int) =~= all);
    close_node(xml, "extentinfo", Ghost(before), Ghost(written), Ghost(all));
    assert(written.push(node("extentinfo"@, all)) =~= written + extent_elements(list@));
}

fn write_file(
    xml: &mut XmlWriter,
    f: &FileEntry,
    Ghost(before): Ghost<Seq<XmlEvent>>,
    Ghost(written): Ghost<Seq<ElementModel>>,
)
    requires
        old(xml).wf(),
        old(xml)@ == before + children_events(written),
    ensures
        final(xml).wf(),
        final(xml)@ == before + children_events(written.push(file_element(f@))),
{
    xml.start("file");
    let ghost inner = xml@;
    let ghost c0 = Seq::<ElementModel>::empty();
    assert(inner + children_events(c0) =~= inner);
    write_leaf(xml, "name", f.name.as_str(), Ghost(inner), Ghost(c0));
    let ghost c1 = c0.push(leaf("name"@, f.name@));
    write_leaf(xml, "length", decimal(f.length).as_str(), Ghost(inner), Ghost(c1));
    let ghost c2 = c1.push(leaf("length"@, decimal_spec(f.length as nat)));
    let readonly = if f.readonly { "true" } else { "false" };
    write_leaf(xml, "readonly", readonly, Ghost(inner), Ghost(c2));
    let ghost c3 = c2.push(leaf("readonly"@, bool_text(f.readonly)));
    write_leaf(xml, "fileuid", decimal(f.fileuid).as_str(), Ghost(inner), Ghost(c3));
    let ghost c4 = c3.push(leaf("fileuid"@, decimal_spec(f.fileuid as nat)));
    write_times(xml, &f.times, Ghost(inner), Ghost(c4));
    let ghost c5 = c4 + time_elements(f.times@);
    write_opt_leaf(xml, "symlink", &f.symlink_target, Ghost(inner), Ghost(c5));
    let ghost c6 = c5 + opt_leaf("symlink"@, opt_view(f.symlink_target));
    write_extents(xml, &f.extents, Ghost(inner), Ghost(c6));
    let ghost c7 = c6 + extent_elements(f.extents@);
    write_attributes(xml, &f.extended_attributes, Ghost(inner), Ghost(c7));
    let ghost c8 = c7 + attribute_elements(attribute_entries(f.extended_attributes@));
    assert(c8 =~= file_element(f@).children);
    close_node(xml, "file", Ghost(before), Ghost(written), Ghost(c8));
}

fn write_directory(
    xml: &mut XmlWriter,
    d: &Directory,
    Ghost(before): Ghost<Seq<XmlEvent>>,
    Ghost(written): Ghost<Seq<ElementModel>>,
)
    requires
        old(xml).wf(),
        old(xml)@ == before + children_events(written),
    ensures
        final(xml).wf(),
        final(xml)@ == before + children_events(written.push(directory_element(d@))),
    decreases d,
{
    xml.start("directory");
    let ghost inner = xml@;
    let ghost c0 = Seq::<ElementModel>::empty();
    assert(inner + children_events(c0) =~= inner);
    write_leaf(xml, "name", d.name.as_str(), Ghost(inner), Ghost(c0));
    let ghost c1 = c0.push(leaf("name"@, d.name@));
    let readonly = if d.readonly { "true" } else { "false" };
    write_leaf(xml, "readonly", readonly, Ghost(inner), Ghost(c1));
    let ghost c2 = c1.push(leaf("readonly"@, bool_text(d.readonly)));
    write_leaf(xml, "fileuid", decimal(d.fileuid).as_str(), Ghost(inner), Ghost(c2));
    let ghost c3 = c2.push(leaf("fileuid"@, decimal_spec(d.fileuid as nat)));
    write_times(xml, &d.times, Ghost(inner), Ghost(c3));
    let ghost c4 = c3 + time_elements(d.times@);
    write_attributes(xml, &d.extended_attributes, Ghost(inner), Ghost(c4));
    let ghost c5 = c4 + attribute_elements(attribute_entries(d.extended_attributes@));
    let ghost base = xml@;
    xml.start("contents");
    let ghost contents = xml@;
    let ghost entries = entry_models(d.entries@);
    proof {
        lemma_entries(*d);
        assert(entries.subrange(0, 0) =~= Seq::<EntryModel>::empty());
        assert(contents + children_events(Seq::<ElementModel>::empty()) =~= contents);
    }
    let mut i: usize = 0;
    while i < d.entries.len()
        invariant
            i <= d.entries@.len(),
            xml.wf(),
            entries == entry_models(d.entries@),
            xml@ == contents + children_events(entry_elements(entries.subrange(0, i as int))),
        decreases d.entries@.len() - i,
    {
        let ghost done = entry_elements(entries.subrange(0, i as int));
        proof {
            let next = entries.subrange(0, i + 1);
            assert(next.drop_last() =~= entries.subrange(0, i as int));
            assert(next.last() == d.entries@[i as int]@);
            assert(decreases_to!(d.entries => d.entries[i as int]));
        }
        match &d.entries[i] {
            DirectoryEntry::Directory(sub) => {
                write_directory(xml, sub, Ghost(contents), Ghost(done));
            },
            DirectoryEntry::File(f) => {
                write_file(xml, f, Ghost(contents), Ghost(done));
            },
        }
        i = i + 1;
    }
    assert(entries.subrange(0, i as int) =~= entries);
    close_node(xml, "contents", Ghost(inner), Ghost(c5), Ghost(entry_elements(entries)));
    let ghost c6 = c5.push(node("contents"@, entry_elements(entries)));
    assert(c6 =~= directory_element(d@).children);
    close_node(xml, "directory", Ghost(before), Ghost(written), Ghost(c6));
}

fn write_position(
    xml: &mut XmlWriter,
    name: &str,
    at: &TapePos,
    Ghost(before): Ghost<Seq<XmlEvent>>,
    Ghost(written): Ghost<Seq<ElementModel>>,
)
    requires
        old(xml).wf(),
        old(xml)@ == before + children_events(written),
    ensures
        final(xml).wf(),
        final(xml)@ == before + children_events(written.push(node(name@, position_elements(*at)))),
{
    xml.start(name);
    let ghost inner = xml@;
    let ghost c0 = Seq::<ElementModel>::empty();
    assert(inner + children_events(c0) =~= inner);
    write_leaf(
        xml,
        "partition",
        super::label::char_string(partition_name(at.partition)).as_str(),
        Ghost(inner),
        Ghost(c0),
    );
    let ghost c1 = c0.push(leaf("partition"@, super::document::chars(partition_char(at.partition))));
    write_leaf(xml, "startblock", decimal(at.startblock).as_str(), Ghost(inner), Ghost(c1));
    let ghost c2 = c1.push(leaf("startblock"@, decimal_spec(at.startblock as nat)));
    assert(c2 =~= position_elements(*at));
    close_node(xml, name, Ghost(before), Ghost(written), Ghost(c2));
}

impl Index {
    /// Reads an index document. The document of an index is read back as that index, with
    /// the counts of its tree.
    pub fn parse_xml(xml: &str) -> (result: Result<Index, IndexError>)
        ensures
            index_outcome(result) == index_from(xml_events(xml@)),
            forall|m: IndexModel|
                index_writable(m) && xml@ == #[trigger] index_xml(m) ==> result is Ok
                    && result->Ok_0@ == recounted(m),
    {
        let items = read_items(xml);
        proof {
            assert forall|m: IndexModel|
                index_writable(m) && xml@ == #[trigger] index_xml(m) implies index_from(
                xml_events(xml@),
            ) == Ok::<IndexModel, IndexFault>(recounted(m)) by {
                stored_index_reads_back(m);
            }
        }
        Index::from_items(&items)
    }

    /// The index that a sequence of events stands for.
    pub fn from_items(items: &Vec<XmlItem>) -> (result: Result<Index, IndexError>)
        ensures
            index_outcome(result) == index_from(events_of(items@)),
    {
        match scan_items(items) {
            Ok(scan) => {
                let document = build_tree(items);
                let root = read_root(&document);
                scan.finish(root)
            },
            Err(error) => Err(error),
        }
    }

    /// The index as an XML document.
    #[verifier::rlimit(60)]
    pub fn to_xml(&self) -> (text: String)
        ensures
            text@ == index_xml(self@),
    {
        let mut xml = XmlWriter::new();
        xml.declaration();
        xml.newline();
        let ghost before = xml@;
        xml.start_with("ltfsindex", "version", self.version.as_str());
        let ghost inner = xml@;
        let ghost c0 = Seq::<ElementModel>::empty();
        assert(inner + children_events(c0) =~= inner);
        write_leaf(&mut xml, "creator", self.creator.as_str(), Ghost(inner), Ghost(c0));
        let ghost c1 = c0.push(leaf("creator"@, self.creator@));
        write_leaf(&mut xml, "volumeuuid", self.volume_uuid.as_str(), Ghost(inner), Ghost(c1));
        let ghost c2 = c1.push(leaf("volumeuuid"@, self.volume_uuid@));
        write_leaf(
            &mut xml,
            "generationnumber",
            decimal(self.generation).as_str(),
            Ghost(inner),
            Ghost(c2),
        );
        let ghost c3 = c2.push(leaf("generationnumber"@, decimal_spec(self.generation as nat)));
        write_leaf(&mut xml, "updatetime", self.update_time.as_str(), Ghost(inner), Ghost(c3));
        let ghost c4 = c3.push(leaf("updatetime"@, self.update_time@));
        write_position(&mut xml, "location", &self.self_location, Ghost(inner), Ghost(c4));
        let ghost c5 = c4.push(node("location"@, position_elements(self.self_location)));
        let ghost mut c6 = c5;
        match &self.previous_location {
            Some(at) => {
                write_position(
                    &mut xml,
                    "previousgenerationlocation",
                    at,
                    Ghost(inner),
                    Ghost(c5),
                );
                proof {
                    c6 = c5.push(node("previousgenerationlocation"@, position_elements(*at)));
                }
            },
            None => {},
        }
        let allow = if self.allow_policy_update { "true" } else { "false" };
        write_leaf(&mut xml, "allowpolicyupdate", allow, Ghost(inner), Ghost(c6));
        let ghost c7 = c6.push(leaf("allowpolicyupdate"@, bool_text(self.allow_policy_update)));
        let ghost mut c8 = c7;
        match self.highest_file_uid {
            Some(uid) => {
                write_leaf(
                    &mut xml,
                    "highestfileuid",
                    decimal(uid).as_str(),
                    Ghost(inner),
                    Ghost(c7),
                );
                proof {
                    c8 = c7.push(leaf("highestfileuid"@, decimal_spec(uid as nat)));
                }
            },
            None => {},
        }
        write_opt_leaf(
            &mut xml,
            "volumelockstate",
            &self.volume_lock_state,
            Ghost(inner),
            Ghost(c8),
        );
        let ghost c9 = c8 + opt_leaf("volumelockstate"@, opt_view(self.volume_lock_state));
        write_directory(&mut xml, &self.root, Ghost(inner), Ghost(c9));
        let ghost c10 = c9.push(directory_element(self.root@));
        assert(c10 =~= index_elements(self@));
        xml.end("ltfsindex");
        proof {
            assert(text_events(Seq::<char>::empty()) =~= Seq::<XmlEvent>::empty());
            assert(xml@ =~= before + element_events(index_element(self@)));
        }
        xml.newline();
        assert(xml@ =~= index_events(self@));
        xml.finish()
    }
}

} // verus!
