use std::collections::HashMap;

use tapecpy::app::append::{FileRead, ReadAction};
use tapecpy::app::data::SourcePipelineMessage;
use tapecpy::app::erase::{EraseAction, EraseEvent, EraseMode, EraseSession};
use tapecpy::app::flow::{TapeCommand, TapeReply};
use tapecpy::app::format::{
    build_initial_format_image, format_result, uuid_from_random, FormatAction, FormatOptions, FormatSession,
};
use tapecpy::app::inspect::{
    DiagnoseAction, DiagnoseReply, DiagnosisRun, InspectAction, InspectReply, VolumeInspection,
};
use tapecpy::app::plan::{PlannedFile, PlannedSource, SourceKind, SourceNode};
use tapecpy::app::probe::{
    CandidateRead, CandidateScan, LabelProbe, LatestAction, LatestScan, ProbeAction, ReadAtAction,
    ScanAction,
};
use tapecpy::app::random::PseudorandomReader;
use tapecpy::app::reader::{ReaderAction, ReaderReply, SourceReader};
use tapecpy::app::volume::{VolumeConsistency, VolumeDiagnosis, VolumeInfo};
use tapecpy::app::write::{WriteAction, WriteReply, WriteSession, WriteSource, WriteSummary};
use tapecpy::app::write_state::{WriteFailpoint, WriteFailure, WriteOptions, WriteVerification};
use tapecpy::device::scsi::TapePosition;
use tapecpy::device::tape::{LongEraseStatus, ReadRecord};
use tapecpy::ltfs::index::Index;
use tapecpy::ltfs::label::{AnsiLabel, Label};

const NOW: &str = "2026-08-10T00:00:00.000000000Z";

#[derive(Clone)]
enum Item {
    Data(Vec<u8>),
    Mark,
}

/// A cartridge with its partitions and its memory.
#[derive(Default)]
struct Cartridge {
    partitions: Vec<Vec<Item>>,
    partition: usize,
    block: usize,
    mam: HashMap<(u8, u16), Vec<u8>>,
    refuse_memory: bool,
    log: Vec<&'static str>,
}

impl Cartridge {
    fn put(&mut self, item: Item) -> TapeReply {
        let block = self.block;
        let items = &mut self.partitions[self.partition];
        items.truncate(block);
        items.push(item);
        self.block += 1;
        TapeReply::Done
    }

    fn run(&mut self, command: TapeCommand) -> TapeReply {
        match command {
            TapeCommand::FormatLtfsPartitions | TapeCommand::CreateMinimumErasePartition => {
                self.log.push("partition");
                self.partitions = vec![Vec::new(), Vec::new()];
                self.mam.clear();
                TapeReply::Done
            }
            TapeCommand::RemovePartitions | TapeCommand::ShortErase => {
                self.log.push("unpartition");
                self.partitions = vec![Vec::new()];
                self.partition = 0;
                self.mam.clear();
                TapeReply::Done
            }
            TapeCommand::StartLongErase => {
                self.log.push("erase");
                let partition = self.partition;
                self.partitions[partition].clear();
                TapeReply::Done
            }
            TapeCommand::LongEraseStatus => TapeReply::Erase(LongEraseStatus::Complete),
            TapeCommand::Locate { partition, block } => {
                let reached = self
                    .partitions
                    .get(partition as usize)
                    .is_some_and(|items| block as usize <= items.len());
                if !reached {
                    return TapeReply::Failed("no such block".into());
                }
                self.partition = partition as usize;
                self.block = block as usize;
                TapeReply::Done
            }
            TapeCommand::ReadPosition => TapeReply::Position(TapePosition {
                partition: self.partition as u32,
                block: self.block as u64,
            }),
            TapeCommand::SpaceToEod => {
                self.block = self.partitions[self.partition].len();
                TapeReply::Block(self.block as u64)
            }
            TapeCommand::ReadRecord => {
                match self.partitions[self.partition].get(self.block).cloned() {
                    Some(Item::Data(data)) => {
                        self.block += 1;
                        TapeReply::Record(ReadRecord::Data(data))
                    }
                    Some(Item::Mark) => {
                        self.block += 1;
                        TapeReply::Record(ReadRecord::Filemark)
                    }
                    None => TapeReply::Record(ReadRecord::Eod),
                }
            }
            TapeCommand::WriteRecord { data } => self.put(Item::Data(data)),
            TapeCommand::WriteFilemark => self.put(Item::Mark),
            TapeCommand::ReadMam { partition, id } => match self.mam.get(&(partition, id)) {
                _ if id == 0x0009 => TapeReply::Bytes(vec![0, 0, 0, 7]),
                Some(value) => TapeReply::Bytes(value.clone()),
                None => TapeReply::Failed("no such attribute".into()),
            },
            TapeCommand::WriteMam {
                partition,
                id,
                value,
                ..
            } => {
                if self.refuse_memory && id == 0x080c {
                    return TapeReply::Failed("memory is read-only".into());
                }
                self.mam.insert((partition, id), value);
                TapeReply::Done
            }
            TapeCommand::Rewind => {
                self.block = 0;
                TapeReply::Done
            }
            _ => TapeReply::Done,
        }
    }
}

fn format(tape: &mut Cartridge) -> Result<(), String> {
    let options = FormatOptions::new("E6008A", "Archive");
    let uuid = uuid_from_random([7; 16]);
    let mut machine = FormatSession::new(&options, &uuid, NOW, "0.1.0").unwrap();
    let mut turn = machine.advance();
    loop {
        match turn.action {
            FormatAction::Command(command) => turn = machine.run(tape.run(command)),
            FormatAction::Finished(result) => {
                let told = format_result(&options, &uuid);
                assert_eq!((told.volume_uuid, told.generation), (uuid, 1));
                return result;
            }
        }
    }
}

fn probe(tape: &mut Cartridge, partition: u8) -> ProbeAction {
    let (mut machine, mut command) = LabelProbe::new(partition);
    loop {
        match machine.next(tape.run(command)) {
            ProbeAction::Command(next) => command = next,
            done => return done,
        }
    }
}

fn scan_latest(tape: &mut Cartridge, partition: u8) -> LatestAction {
    let (mut machine, mut command) = LatestScan::new(partition);
    loop {
        match machine.next(tape.run(command)) {
            LatestAction::Command(next) => command = next,
            done => return done,
        }
    }
}

fn inspect(tape: &mut Cartridge) -> VolumeInfo {
    let (mut machine, command) = VolumeInspection::new();
    let mut reply = InspectReply::Tape(tape.run(command));
    loop {
        reply = match machine.next(reply) {
            InspectAction::Command(command) => InspectReply::Tape(tape.run(command)),
            InspectAction::Probe { partition } => InspectReply::Probed(probe(tape, partition)),
            InspectAction::Scan { partition } => {
                InspectReply::Scanned(scan_latest(tape, partition))
            }
            InspectAction::Finished(volume) => return volume,
            InspectAction::Failed(message) => panic!("{message}"),
        };
    }
}

fn diagnose(tape: &mut Cartridge, full: bool) -> VolumeDiagnosis {
    let (mut machine, command) = DiagnosisRun::new(full);
    let mut reply = DiagnoseReply::Tape(tape.run(command));
    loop {
        reply = match machine.next(reply) {
            DiagnoseAction::Command(command) => DiagnoseReply::Tape(tape.run(command)),
            DiagnoseAction::Probe { partition } => DiagnoseReply::Probed(probe(tape, partition)),
            DiagnoseAction::Scan { partition } => {
                let (mut scan, mut command) = CandidateScan::new(partition);
                DiagnoseReply::Scanned(loop {
                    match scan.next(tape.run(command)) {
                        ScanAction::Command(next) => command = next,
                        done => break done,
                    }
                })
            }
            DiagnoseAction::Read { block } => {
                let (mut read, mut command) = CandidateRead::new(1, block);
                DiagnoseReply::Read(loop {
                    match read.next(tape.run(command)) {
                        ReadAtAction::Command(next) => command = next,
                        done => break done,
                    }
                })
            }
            DiagnoseAction::Finished(diagnosis) => return diagnosis,
            DiagnoseAction::Failed(message) => panic!("{message}"),
        };
    }
}

fn messages(files: Vec<PlannedFile>, block: usize) -> Vec<SourcePipelineMessage> {
    let mut list = Vec::new();
    for file in files {
        let PlannedSource::Pseudorandom { seed } = file.source else {
            panic!("only test data")
        };
        list.push(SourcePipelineMessage::FileStart {
            target: file.target,
            description: "test data".into(),
            expected_size: file.size,
        });
        let mut reader = PseudorandomReader::new(seed, file.size);
        loop {
            let bytes = reader.read(block);
            if bytes.is_empty() {
                break;
            }
            list.push(SourcePipelineMessage::Data(bytes));
        }
        list.push(SourcePipelineMessage::FileEnd {
            actual_size: file.size,
        });
    }
    list
}

fn options() -> WriteOptions {
    WriteOptions {
        verification: WriteVerification::ReadBackSha256,
        expected_source: None,
        failpoint: None,
        cancellation: None,
        cancelpoint: None,
    }
}

fn write(
    tape: &mut Cartridge,
    path: &str,
    size: u64,
    options: WriteOptions,
) -> Result<WriteSummary, WriteFailure> {
    let mut queue = Vec::new();
    let (mut machine, mut turn) = WriteSession::new(path, options);
    loop {
        let reply = match turn.action {
            WriteAction::Inspect => WriteReply::Volume(inspect(tape)),
            WriteAction::Command(command) => WriteReply::Tape(tape.run(command)),
            WriteAction::LookAtSource => WriteReply::Source {
                source: WriteSource::Pseudorandom { size, seed: size },
                now: NOW.into(),
            },
            WriteAction::StartPipeline { files, .. } => {
                queue = messages(files, 1000);
                WriteReply::Done
            }
            WriteAction::Receive => WriteReply::Message(Some(queue.remove(0))),
            WriteAction::SamplePerformance | WriteAction::FinishPipeline => {
                WriteReply::Performance(None)
            }
            WriteAction::SampleChannels { .. } => WriteReply::Channels(None),
            WriteAction::ReadHealth => WriteReply::Done,
            WriteAction::Finished(summary) => return Ok(summary),
            WriteAction::Failed(failure) => return Err(failure),
        };
        (machine, turn) = machine.run(reply, false);
    }
}

fn read(tape: &mut Cartridge, path: &str) -> Result<Vec<u8>, String> {
    let volume = inspect(tape);
    let mut machine = FileRead::new(volume.recognized, &volume.reason, &volume.index, path)?;
    let mut out = Vec::new();
    let mut action = machine.go_on(false);
    loop {
        match action {
            ReadAction::Command(command) => {
                let reply = tape.run(command);
                action = machine.next(&reply, false);
                if let (
                    ReadAction::Output { count, .. },
                    TapeReply::Record(ReadRecord::Data(data)),
                ) = (&action, &reply)
                {
                    out.extend_from_slice(&data[..*count]);
                }
            }
            ReadAction::Output { .. } => action = machine.go_on(false),
            ReadAction::Finished(bytes) => {
                assert_eq!(bytes as usize, out.len());
                return Ok(out);
            }
            ReadAction::Failed(message) => return Err(message),
        }
    }
}

fn erase(tape: &mut Cartridge, mode: EraseMode) -> (Vec<EraseEvent>, Result<(), String>) {
    let mut events = Vec::new();
    let (mut machine, mut turn) = EraseSession::new(mode);
    loop {
        events.extend(turn.event.take());
        match turn.action {
            EraseAction::Command(command) => turn = machine.run(tape.run(command)),
            EraseAction::Finished(result) => {
                assert_eq!(machine.result(9).mode, mode);
                return (events, result);
            }
        }
    }
}

#[test]
fn a_new_volume_is_recognized() {
    let mut tape = Cartridge::default();
    assert_eq!(format(&mut tape), Ok(()));
    let volume = inspect(&mut tape);
    assert!(volume.recognized);
    assert_eq!(volume.ansi_barcode.as_deref(), Some("E6008A"));
    let index = volume.index.unwrap();
    assert_eq!(index.generation, 1);
    assert_eq!(index.volume_name(), Some("Archive"));
    assert_eq!(index.volume_uuid, volume.label.unwrap().volume_uuid);
    let diagnosis = diagnose(&mut tape, false);
    assert_eq!(diagnosis.consistency, VolumeConsistency::Healthy);
    assert!(diagnosis.safe_for_normal_write);
    assert_eq!(diagnose(&mut tape, true).consistency, diagnosis.consistency);
}

#[test]
fn what_is_written_is_read_back() {
    let mut tape = Cartridge::default();
    format(&mut tape).unwrap();
    let first = write(&mut tape, "/a.bin", 2500, options()).unwrap();
    assert_eq!((first.bytes, first.files, first.generation), (2500, 1, 2));
    let second = write(&mut tape, "/b.bin", 10, options()).unwrap();
    assert_eq!(second.generation, 3);
    assert!(second.data_start_block > first.data_start_block);
    assert_eq!(
        read(&mut tape, "/a.bin").unwrap(),
        PseudorandomReader::new(2500, 2500).read(2500)
    );
    assert_eq!(
        read(&mut tape, "/b.bin").unwrap(),
        PseudorandomReader::new(10, 10).read(10)
    );
    assert_eq!(read(&mut tape, "/c.bin"), Err("文件不存在: /c.bin".into()));
    let index = inspect(&mut tape).index.unwrap();
    assert_eq!((index.generation, index.file_count()), (3, 2));
    assert_eq!(index.find_file("/a.bin").unwrap().extents.len(), 1);
    assert!(diagnose(&mut tape, true).safe_for_normal_write);
    let again = write(&mut tape, "/a.bin", 5, options()).unwrap_err();
    assert!(again.message.contains("目标已存在"));
    assert!(again.safe_to_retry);
}

#[test]
fn changed_records_fail_the_check() {
    let mut tape = Cartridge::default();
    format(&mut tape).unwrap();
    let summary = write(&mut tape, "/a.bin", 100, options()).unwrap();
    let hash = &summary.hashes[0];
    let block = summary.data_start_block as usize;
    if let Item::Data(data) = &mut tape.partitions[1][block] {
        data[3] ^= 1;
    }
    assert_ne!(
        read(&mut tape, "/a.bin").unwrap(),
        PseudorandomReader::new(100, 100).read(100)
    );
    let index = inspect(&mut tape).index.unwrap();
    let check = tapecpy::app::append::HashCheck::new(&index, hash).unwrap();
    let (mut action, mut check) = check.go_on();
    let verdict = loop {
        match action {
            tapecpy::app::append::HashAction::Command(command) => {
                let reply = tape.run(command);
                (action, check) = check.unwrap().next(reply);
            }
            tapecpy::app::append::HashAction::Finished(verdict) => break verdict,
        }
    };
    assert!(verdict.unwrap_err().contains("SHA-256 不匹配"));
}

#[test]
fn an_interrupted_commit_is_found_by_diagnosis() {
    for point in [
        WriteFailpoint::AfterFirstDataRecord,
        WriteFailpoint::AfterDataIndex,
        WriteFailpoint::AfterIndexes,
    ] {
        let mut tape = Cartridge::default();
        format(&mut tape).unwrap();
        let mut stopped = options();
        stopped.failpoint = Some(point);
        let failure = write(&mut tape, "/a.bin", 2500, stopped).unwrap_err();
        assert!(failure.requires_diagnosis);
        if point != WriteFailpoint::AfterFirstDataRecord {
            assert!(!diagnose(&mut tape, true).safe_for_normal_write);
        }
        let next = write(&mut tape, "/b.bin", 5, options());
        assert!(next.is_err());
    }
}

#[test]
fn coherency_that_cannot_be_written_is_reported() {
    let mut tape = Cartridge {
        refuse_memory: true,
        ..Cartridge::default()
    };
    assert!(format(&mut tape).is_err());
}

#[test]
fn erased_cartridges_hold_no_volume() {
    let mut tape = Cartridge::default();
    format(&mut tape).unwrap();
    tape.log.clear();
    let (events, result) = erase(&mut tape, EraseMode::Short);
    assert_eq!(result, Ok(()));
    assert!(!events.is_empty());
    assert!(!inspect(&mut tape).recognized);

    format(&mut tape).unwrap();
    tape.log.clear();
    let (_, result) = erase(&mut tape, EraseMode::Long);
    assert_eq!(result, Ok(()));
    assert_eq!(tape.log, vec!["unpartition", "erase"]);

    format(&mut tape).unwrap();
    tape.log.clear();
    let (_, result) = erase(&mut tape, EraseMode::MinimumPartitionLong);
    assert_eq!(result, Ok(()));
    assert_eq!(tape.log, vec!["partition", "erase", "unpartition"]);
    assert_eq!(tape.partitions.len(), 1);
}

#[test]
fn names_with_blanks_around_them_lose_them() {
    let options = FormatOptions::new("ABC123", " blank ");
    let uuid = uuid_from_random([1; 16]);
    let image = build_initial_format_image(&options, &uuid, NOW, "0.1.0").unwrap();
    assert_eq!(AnsiLabel::parse(&image.ansi).unwrap().barcode, "ABC123");
    let label = Label::parse_xml(&image.index_label_xml).unwrap();
    assert_eq!(label.volume_uuid, uuid);
    let index = Index::parse_xml(&image.data_index_xml).unwrap();
    assert_eq!(index.volume_name(), Some("blank"));
}

/// What the reader of a source hands on, where the files hold the given bytes.
fn handed_on(
    files: Vec<PlannedFile>,
    contents: &HashMap<&str, &[u8]>,
    block: usize,
) -> Vec<SourcePipelineMessage> {
    let mut list = Vec::new();
    let mut rest: Vec<u8> = Vec::new();
    let (mut reader, mut action) = SourceReader::new(files, 2, false);
    loop {
        let reply = match action {
            ReaderAction::Send(message) => {
                list.push(message);
                ReaderReply::Done
            }
            ReaderAction::Open { source, .. } => {
                let PlannedSource::Local(path) = source else {
                    panic!("only files")
                };
                rest = contents[path.as_str()].to_vec();
                ReaderReply::Done
            }
            ReaderAction::TakeBlock => ReaderReply::NoBlock,
            ReaderAction::WaitForBlock => ReaderReply::Block,
            ReaderAction::MakeBlock | ReaderAction::Read => {
                let count = block.min(rest.len());
                ReaderReply::Bytes(rest.drain(..count).collect())
            }
            ReaderAction::Finished => return list,
            ReaderAction::Failed(message) => panic!("{message}"),
        };
        action = reader.next(reply, false);
    }
}

fn node(path: &str, kind: SourceKind) -> SourceNode {
    SourceNode {
        path: path.into(),
        file_name: path.rsplit('/').next().unwrap().into(),
        utf8: true,
        kind,
    }
}

/// Writes a tree of three files; the reader takes the last message from `spoil`.
fn write_tree(
    tape: &mut Cartridge,
    spoil: Option<SourcePipelineMessage>,
) -> Result<WriteSummary, WriteFailure> {
    let contents: HashMap<&str, &[u8]> = HashMap::from([
        ("/s/abc", &b"abc"[..]),
        ("/s/sub/empty", &b""[..]),
        ("/s/sub/long", &[7; 2500][..]),
    ]);
    let mut spoil = spoil;
    let mut queue = Vec::new();
    let (mut machine, mut turn) = WriteSession::new("/in", options());
    loop {
        let reply = match turn.action {
            WriteAction::Inspect => WriteReply::Volume(inspect(tape)),
            WriteAction::Command(command) => WriteReply::Tape(tape.run(command)),
            WriteAction::LookAtSource => {
                let file = |path: &str| {
                    let size = contents[path].len() as u64;
                    node(path, SourceKind::File { size })
                };
                let below = vec![file("/s/sub/long"), file("/s/sub/empty")];
                let children = vec![
                    node("/s/sub", SourceKind::Directory { children: below }),
                    file("/s/abc"),
                ];
                WriteReply::Source {
                    source: WriteSource::Local(node("/s", SourceKind::Directory { children })),
                    now: NOW.into(),
                }
            }
            WriteAction::StartPipeline { files, .. } => {
                queue = handed_on(files, &contents, 1000);
                if let Some(message) = spoil.take() {
                    let last = queue.len() - 1;
                    queue[last] = message;
                }
                WriteReply::Done
            }
            WriteAction::Receive => WriteReply::Message(Some(queue.remove(0))),
            WriteAction::SamplePerformance | WriteAction::FinishPipeline => {
                WriteReply::Performance(None)
            }
            WriteAction::SampleChannels { .. } => WriteReply::Channels(None),
            WriteAction::ReadHealth => WriteReply::Done,
            WriteAction::Finished(summary) => return Ok(summary),
            WriteAction::Failed(failure) => return Err(failure),
        };
        (machine, turn) = machine.run(reply, false);
    }
}

#[test]
fn a_finished_write_is_whole() {
    let mut tape = Cartridge::default();
    format(&mut tape).unwrap();
    let before = inspect(&mut tape).index.unwrap();
    let summary = write_tree(&mut tape, None).unwrap();
    assert_eq!(summary.generation, before.generation + 1);
    assert_eq!((summary.files, summary.directories), (3, 2));
    assert_eq!(summary.bytes, 2503);
    assert_eq!(summary.file_uid, before.highest_file_uid.unwrap() + 5);
    assert_eq!(summary.verification, WriteVerification::ReadBackSha256);
    let paths: Vec<&str> = summary.hashes.iter().map(|hash| hash.path.as_str()).collect();
    assert_eq!(paths, vec!["/in/abc", "/in/sub/empty", "/in/sub/long"]);
    assert_eq!(
        summary.hashes[0].sha256,
        "ba7816bf8f01cfea414140de5dae2223b00361a396177a9cb410ff61f20015ad"
    );
    assert_eq!(
        summary.hashes[1].sha256,
        "e3b0c44298fc1c149afbf4c8996fb92427ae41e4649b934ca495991b7852b855"
    );
    assert_eq!(read(&mut tape, "/in/abc").unwrap(), b"abc");
    assert_eq!(read(&mut tape, "/in/sub/empty").unwrap(), b"");
    assert_eq!(read(&mut tape, "/in/sub/long").unwrap(), vec![7; 2500]);
}

#[test]
fn a_write_that_is_not_whole_fails() {
    let mut tape = Cartridge::default();
    format(&mut tape).unwrap();
    let short = SourcePipelineMessage::FileEnd { actual_size: 2499 };
    let failure = write_tree(&mut tape, Some(short)).unwrap_err();
    assert!(failure.message.contains("源文件大小在规划后发生变化"));
    let mut tape = Cartridge::default();
    format(&mut tape).unwrap();
    let lost = SourcePipelineMessage::Error("lost".into());
    assert!(write_tree(&mut tape, Some(lost)).unwrap_err().message.contains("lost"));
}
