use tapecpy::app::append::{
    hash_verdict_for, is_end_of_data_error, AppendAction, AppendCheck, ExtentReader, FileHash,
    FileRead, HashAction, HashCheck, ReadAction,
};
use tapecpy::app::commit::{CommitAction, CommitPlaces, CommitRun};
use tapecpy::app::data::{pipeline_capacity, written_entry, DataWriter, SourcePipelineMessage};
use tapecpy::app::drives::{DriveHealth, DriveHealthDelta};
use tapecpy::app::flow::{TapeCommand, TapeReply};
use tapecpy::app::format::{build_initial_format_image, uuid_from_random, FormatOptions};
use tapecpy::app::mam_report::inspect_mam;
use tapecpy::app::mounts::{
    browse_directory, parse_mountinfo, BrowserEntry, BrowserEntryKind,
};
use tapecpy::app::plan::{
    plan_pseudorandom_file, plan_source_roots, plan_source_tree, PlannedFile, PlannedSource,
    SourceKind, SourceNode,
};
use tapecpy::app::random::PseudorandomReader;
use tapecpy::app::reader::{ReaderAction, ReaderReply, SourceReader};
use tapecpy::app::scan::{scan_source_roots, ScanChild, ScanQuestion, ScanReply};
use tapecpy::app::snapshot::{ltfs_time, media_lifecycle, CalendarTime, MediaLifecycle};
use tapecpy::app::source::{
    assess_write_capacity, plan_write_destination, validate_write_destinations,
    validate_write_plan_expectation, CapacitySource, CapacityStatus, SourceEntry, SourcePlan,
    WritePlanExpectation,
};
use tapecpy::app::telemetry::{
    ChannelClock, ChannelTelemetryState, ChannelTelemetryTracker, SourcePipelineSnapshot,
    WritePerformanceState, CHANNEL_HISTORY_CAPACITY,
};
use tapecpy::app::volume::{
    classify_volume_consistency, IndexCandidateDiagnostic, VolumeConsistency, VolumeInfo,
};
use tapecpy::app::write::{WriteAction, WriteMove, WriteReply, WriteSession, WriteSource};
use tapecpy::app::write_state::{
    check_write_stop, classify_write_failure, CancellationToken, ChannelTelemetrySample,
    WriteCommitState, WriteEvent, WriteFailpoint, WriteOptions, WritePhase, WriteProgress,
    WriteVerification,
};
use tapecpy::device::channel_error::{ChannelCounters, ChannelRate};
use tapecpy::device::log::ErrorCounters;
use tapecpy::device::scsi::{MamAttributeRecord, TapePosition};
use tapecpy::device::tape::ReadRecord;
use tapecpy::device::{Error, MamInfo, MediaInfo, MediaPresence};
use tapecpy::ltfs::index::{
    Directory, DirectoryEntry, ExtendedAttribute, Extent, FileEntry, FileTimes, Index, TapePos,
};
use tapecpy::ltfs::label::{AnsiLabel, Label};
use tapecpy::ltfs::mam::VolumeCoherencyInformation;

const UUID: &str = "00000000-0000-0000-0000-000000000000";

fn key(value: f64) -> i64 {
    let bits = value.to_bits() as i64;
    bits ^ ((((bits >> 63) as u64) >> 1) as i64)
}

fn mam_info() -> MamInfo {
    MamInfo {
        barcode: None,
        volume_identifier: None,
        medium_manufacturer: None,
        medium_serial: None,
        medium_type: None,
        remaining_capacity_mib: None,
        max_capacity_mib: None,
        load_count: None,
        tape_alert_flags: None,
        total_written_mib: None,
        total_read_mib: None,
    }
}

fn file_entry(name: &str) -> FileEntry {
    FileEntry {
        name: name.into(),
        fileuid: 0,
        length: 0,
        readonly: false,
        times: FileTimes::default(),
        extents: Vec::new(),
        extended_attributes: Vec::new(),
        symlink_target: None,
    }
}

fn empty_index() -> Index {
    Index {
        version: "2.4.0".into(),
        creator: "test".into(),
        volume_uuid: UUID.into(),
        volume_name: None,
        generation: 1,
        update_time: "2026-08-09T00:00:00.000000000Z".into(),
        self_location: TapePos {
            partition: 0,
            startblock: 5,
        },
        previous_location: Some(TapePos {
            partition: 1,
            startblock: 5,
        }),
        allow_policy_update: false,
        volume_lock_state: Some("unlocked".into()),
        highest_file_uid: Some(1),
        file_count: 0,
        directory_count: 0,
        root: Directory {
            name: "test".into(),
            fileuid: 1,
            ..Default::default()
        },
    }
}

fn label() -> Label {
    Label {
        version: "2.4.0".into(),
        creator: "test".into(),
        format_time: "now".into(),
        volume_uuid: UUID.into(),
        blocksize: 524288,
        compression: true,
        this_partition: 0,
        index_partition: 0,
        data_partition: 1,
    }
}

fn source_file(path: &str, size: u64) -> SourceNode {
    SourceNode {
        path: path.into(),
        file_name: path.rsplit('/').next().unwrap().into(),
        utf8: true,
        kind: SourceKind::File { size },
    }
}

fn source_directory(path: &str, children: Vec<SourceNode>) -> SourceNode {
    SourceNode {
        path: path.into(),
        file_name: path.rsplit('/').next().unwrap().into(),
        utf8: true,
        kind: SourceKind::Directory { children },
    }
}

#[test]
fn tui_media_lifecycle_distinguishes_unthreaded_cartridge() {
    let no_media = MediaInfo {
        presence: MediaPresence::NotLoaded,
        ..Default::default()
    };
    assert_eq!(
        media_lifecycle(Some(&no_media)),
        MediaLifecycle::NoMediaDetected
    );

    let present = MediaInfo {
        presence: MediaPresence::NotLoaded,
        mam: Some(mam_info()),
        ..Default::default()
    };
    assert_eq!(
        media_lifecycle(Some(&present)),
        MediaLifecycle::PresentUnthreaded
    );

    let loaded = MediaInfo {
        presence: MediaPresence::Loaded,
        ..Default::default()
    };
    assert_eq!(
        media_lifecycle(Some(&loaded)),
        MediaLifecycle::LoadedThreaded
    );
    assert_eq!(media_lifecycle(None), MediaLifecycle::Unknown);
}

#[test]
fn tui_channel_tracker_keeps_last_sample_when_refresh_fails() {
    let mut tracker = ChannelTelemetryTracker::default();
    let baseline = DriveHealth {
        write_channels: Some(vec![ChannelCounters {
            c1_errors: 10,
            ccps: 100,
            ..Default::default()
        }]),
        ..Default::default()
    };
    assert!(tracker.pending(Some(&baseline)).is_none());
    assert!(tracker
        .observe(Some(&baseline), Vec::new(), "t0")
        .rates
        .is_empty());

    let sample = DriveHealth {
        write_channels: Some(vec![ChannelCounters {
            c1_errors: 20,
            ccps: 200,
            ..Default::default()
        }]),
        ..Default::default()
    };
    let pending = tracker.pending(Some(&sample)).unwrap();
    let rates = pending
        .iter()
        .map(|delta| ChannelRate {
            channel: delta.channel,
            log10_bit_error_rate: Some(key(-4.5)),
            ccp_advanced: delta.ccp_advanced,
        })
        .collect();
    let current = tracker.observe(Some(&sample), rates, "t1");
    assert_eq!(current.rates.len(), 1);
    assert_eq!(current.last_success.as_deref(), Some("t1"));
    assert_eq!(current.session_worst, Some((0, key(-4.5))));
    assert!(!current.stale);

    let stale = tracker.mark_error("temporary failure");
    assert_eq!(stale.rates, current.rates);
    assert_eq!(stale.last_success.as_deref(), Some("t1"));
    assert!(stale.stale);
}

#[test]
fn plans_directory_tree_in_stable_order() {
    let root = source_directory(
        "/src",
        vec![
            source_directory("/src/sub", vec![source_file("/src/sub/c.bin", 3)]),
            source_file("/src/b.bin", 2),
            source_file("/src/a.bin", 1),
        ],
    );
    let mut index = empty_index();
    let plan = plan_source_tree(&mut index, &root, "/batch", "now").unwrap();
    assert_eq!(plan.directories, 2);
    assert_eq!(plan.total_bytes, 6);
    assert_eq!(plan.files.len(), 3);
    assert_eq!(plan.files[0].target, "/batch/a.bin");
    assert_eq!(plan.files[1].target, "/batch/b.bin");
    assert_eq!(plan.files[2].target, "/batch/sub/c.bin");
    assert!(index.find_directory("/batch/sub").is_some());
    assert!(index.find_file("/batch/sub/c.bin").is_some());
    assert_eq!(plan.highest_uid, 6);
}

#[test]
fn planning_rejects_existing_target_before_execution() {
    let root = source_file("/tmp/source", 1);
    let mut index = empty_index();
    index
        .root
        .entries
        .push(DirectoryEntry::File(file_entry("exists.bin")));
    let error = plan_source_tree(&mut index, &root, "/exists.bin", "now").unwrap_err();
    assert!(error.contains("目标已存在"));
}

#[test]
fn write_destination_uses_source_basename_and_rejects_conflicts() {
    let mut index = empty_index();
    index
        .root
        .entries
        .push(DirectoryEntry::Directory(Directory {
            name: "archive".into(),
            ..Directory::default()
        }));
    assert_eq!(
        plan_write_destination(&index, "/mnt/nfs/session01", "/archive").unwrap(),
        "/archive/session01"
    );
    assert!(index.insert_entry("/archive", DirectoryEntry::File(file_entry("session01"))));
    assert!(
        plan_write_destination(&index, "/mnt/nfs/session01", "/archive")
            .unwrap_err()
            .contains("已存在")
    );
}

#[test]
fn multiple_roots_share_one_plan_and_reject_duplicate_target_names() {
    let mut index = empty_index();
    let paths = vec!["/base/left".to_string(), "/base/right".to_string()];
    let targets = validate_write_destinations(&index, &paths, "/").unwrap();
    assert_eq!(targets, vec!["/left", "/right"]);
    let roots = vec![
        source_directory("/base/left", vec![source_file("/base/left/a.bin", 2)]),
        source_directory("/base/right", vec![source_file("/base/right/b.bin", 3)]),
    ];
    let plan = plan_source_roots(&mut index, &roots, "/", "now").unwrap();
    assert_eq!(plan.files.len(), 2);
    assert_eq!(plan.directories, 2);
    assert_eq!(plan.total_bytes, 5);
    assert!(index.find_file("/left/a.bin").is_some());
    assert!(index.find_file("/right/b.bin").is_some());

    let duplicates = vec![
        "/base/duplicate/one/same".to_string(),
        "/base/duplicate/two/same".to_string(),
    ];
    let error = validate_write_destinations(&empty_index(), &duplicates, "/").unwrap_err();
    assert!(error.contains("同一个 LTFS target"));
}

/// Runs a scan over a host with the given entries: files with their sizes, directories
/// with their children.
fn run_scan(
    roots: Vec<String>,
    host: &[(&str, Option<u64>, &[&str])],
    cancelled: bool,
) -> Result<(SourcePlan, Vec<u64>), String> {
    let (mut scan, mut action) = scan_source_roots(roots, "now")?;
    let mut payloads = Vec::new();
    loop {
        payloads.extend(action.progress.take().map(|progress| progress.payload_bytes));
        let entry = |path: &str| *host.iter().find(|entry| entry.0 == path).unwrap();
        let reply = match action.question {
            ScanQuestion::Resolve { root } => ScanReply::Resolved {
                symlink: false,
                canonical: root,
            },
            ScanQuestion::Look { path } => ScanReply::Entry(match entry(&path).1 {
                Some(size) => SourceEntry::File { size },
                None => SourceEntry::Directory,
            }),
            ScanQuestion::List { path } => ScanReply::Children(
                entry(&path)
                    .2
                    .iter()
                    .map(|name| ScanChild {
                        path: format!("{path}/{name}"),
                        name: name.to_string(),
                        utf8: !name.contains('?'),
                    })
                    .collect(),
            ),
            ScanQuestion::Finished => return Ok((scan.into_plan(), payloads)),
            ScanQuestion::Failed(message) => return Err(message),
        };
        action = scan.next(reply, cancelled);
    }
}

const HOST: [(&str, Option<u64>, &[&str]); 5] = [
    ("/root", None, &["sub", "b.bin", "a.bin"]),
    ("/root/b.bin", Some(2), &[]),
    ("/root/a.bin", Some(1), &[]),
    ("/root/sub", None, &["c.bin"]),
    ("/root/sub/c.bin", Some(3), &[]),
];

#[test]
fn source_scan_builds_stable_progress_denominator() {
    let (plan, payloads) = run_scan(vec!["/root".into()], &HOST, false).unwrap();
    assert_eq!(payloads, vec![0, 1, 3, 3, 6]);
    assert_eq!(plan.files.len(), 3);
    assert_eq!(plan.directories_total, 2);
    assert_eq!(plan.payload_bytes, 6);
    assert!(plan.files[0].path.ends_with("a.bin"));
    assert!(plan.files[1].path.ends_with("b.bin"));
    assert!(plan.files[2].path.ends_with("sub/c.bin"));
    assert_eq!(plan.files[2].size, 3);

    let overlap = run_scan(vec!["/root".into(), "/root/sub".into()], &HOST, false).unwrap_err();
    assert!(overlap.contains("互相包含"));
    assert!(run_scan(Vec::new(), &HOST, false).is_err());
}

#[test]
fn roots_are_scanned_one_after_the_other() {
    let host: [(&str, Option<u64>, &[&str]); 5] = [
        ("/z", None, &["2", "1"]),
        ("/z/2", Some(2), &[]),
        ("/z/1", None, &["x"]),
        ("/z/1/x", Some(5), &[]),
        ("/a", Some(1), &[]),
    ];
    let (plan, _) = run_scan(vec!["/z".into(), "/a".into()], &host, false).unwrap();
    let paths: Vec<&str> = plan.files.iter().map(|file| file.path.as_str()).collect();
    assert_eq!(paths, vec!["/z/1/x", "/z/2", "/a"]);
    assert_eq!(plan.roots, vec!["/z", "/a"]);
    assert_eq!((plan.directories_total, plan.payload_bytes), (2, 8));
}

#[test]
fn scans_end_at_what_cannot_be_written() {
    let host: [(&str, Option<u64>, &[&str]); 2] = [("/r", None, &["?", "a"]), ("/r/a", Some(1), &[])];
    assert_eq!(
        run_scan(vec!["/r".into()], &host, false).unwrap_err(),
        "文件名不是 UTF-8: /r/?"
    );
    let (mut scan, _) = scan_source_roots(vec!["/l".into()], "now").unwrap();
    let action = scan.next(
        ScanReply::Resolved {
            symlink: true,
            canonical: "/l".into(),
        },
        false,
    );
    assert_eq!(
        action.question,
        ScanQuestion::Failed("第一阶段暂不写入符号链接: /l".into())
    );
    let (mut scan, _) = scan_source_roots(vec!["/l".into()], "now").unwrap();
    assert_eq!(
        scan.next(ScanReply::Failed("gone".into()), false).question,
        ScanQuestion::Failed("gone".into())
    );
}

#[test]
fn source_scan_obeys_cancellation_before_io_walk() {
    let mut token = CancellationToken::default();
    token.request_cancel();
    let error = run_scan(vec!["/root".into()], &HOST, token.is_cancelled()).unwrap_err();
    assert!(error.contains("cancelled"));
}

#[test]
fn capacity_assessment_has_warning_blocked_and_unknown_states() {
    let mib = 1024 * 1024;
    let normal = assess_write_capacity(90 * mib, Some(100), "t0");
    assert_eq!(normal.status, CapacityStatus::Normal);
    assert_eq!(normal.source, Some(CapacitySource::MamRemainingCapacity));

    let warning = assess_write_capacity(91 * mib, Some(100), "t1");
    assert_eq!(warning.status, CapacityStatus::WarningAboveNinetyPercent);
    assert!(warning.payload_bytes as f64 / warning.available_bytes.unwrap() as f64 > 0.9);

    let blocked = assess_write_capacity(101 * mib, Some(100), "t2");
    assert_eq!(blocked.status, CapacityStatus::BlockedInsufficient);

    let unknown = assess_write_capacity(1, None, "t3");
    assert_eq!(unknown.status, CapacityStatus::Unknown);
    assert_eq!(unknown.available_bytes, None);
}

#[test]
fn write_progress_events_carry_stable_totals_and_progress() {
    let mut events = Vec::new();
    let mut progress = WriteProgress {
        files_total: 2,
        bytes_total: 30,
        files_completed: 0,
        bytes_written: 0,
        partition: None,
        logical_block: None,
    };
    events.push(progress.event(WritePhase::Preparing, None));
    events.push(progress.event(WritePhase::WritingData, Some("/a".into())));
    progress.files_completed = 1;
    progress.bytes_written = 10;
    events.push(progress.event(WritePhase::WritingData, Some("/a".into())));
    events.push(progress.event(WritePhase::FinalizingDataIndex, None));
    events.push(progress.event(WritePhase::SyncingIndexPartition, None));
    progress.files_completed = 2;
    progress.bytes_written = 30;
    events.push(progress.event(WritePhase::Completed, None));

    assert_eq!(events.first().unwrap().phase, WritePhase::Preparing);
    assert_eq!(events.last().unwrap().phase, WritePhase::Completed);
    assert_eq!(events[2].files_completed, 1);
    assert_eq!(events[2].bytes_written, 10);
    assert!(events.iter().all(|event| event.files_total == 2));
    assert!(events.iter().all(|event| event.bytes_total == 30));
}

fn event(phase: WritePhase, bytes_written: u64) -> WriteEvent {
    WriteEvent {
        phase,
        current_file: Some("/test.bin".into()),
        files_completed: 0,
        files_total: 1,
        bytes_written,
        bytes_total: 1024,
        partition: Some(1),
        logical_block: Some(7),
        telemetry: None,
        performance: None,
        failure: None,
    }
}

#[test]
fn write_failure_classifies_commit_boundaries() {
    let cases = [
        (WritePhase::Preparing, 0, WriteCommitState::NotStarted),
        (WritePhase::WritingData, 1, WriteCommitState::DataIncomplete),
        (
            WritePhase::FinalizingDataIndex,
            1024,
            WriteCommitState::DataIncomplete,
        ),
        (
            WritePhase::SyncingIndexPartition,
            1024,
            WriteCommitState::DataIndexOnly,
        ),
        (
            WritePhase::UpdatingCoherency,
            1024,
            WriteCommitState::IndexesWritten,
        ),
        (WritePhase::Verifying, 1024, WriteCommitState::Committed),
    ];
    for (phase, bytes, expected) in cases {
        let event = event(phase, bytes);
        let failure = classify_write_failure(Some(&event), "injected".into());
        assert_eq!(failure.commit_state, expected);
        assert_eq!(
            failure.safe_to_retry,
            expected == WriteCommitState::NotStarted
        );
        assert_eq!(
            failure.requires_diagnosis,
            !matches!(
                expected,
                WriteCommitState::NotStarted | WriteCommitState::Committed
            )
        );
    }
}

#[test]
fn partial_vci_failure_requires_diagnosis() {
    let event = WriteEvent {
        phase: WritePhase::UpdatingCoherency,
        current_file: None,
        files_completed: 1,
        files_total: 1,
        bytes_written: 10,
        bytes_total: 10,
        partition: Some(0),
        logical_block: Some(5),
        telemetry: None,
        performance: None,
        failure: None,
    };
    let failure = classify_write_failure(Some(&event), "[state:C4]second VCI failed".into());
    assert_eq!(failure.commit_state, WriteCommitState::CoherencyPartial);
    assert!(failure.requires_diagnosis);
    assert_eq!(failure.message, "second VCI failed");
    assert_eq!(
        failure.text(),
        "second VCI failed [phase=UpdatingCoherency, commit=CoherencyPartial, bytes=10, position=p0b5]"
    );
}

#[test]
fn cancellation_token_is_distinct_from_failure() {
    let mut token = CancellationToken::default();
    assert!(!token.is_cancelled());
    token.request_cancel();
    assert!(token.is_cancelled());
    let mut options = WriteOptions {
        expected_source: None,
        cancellation: Some(token),
        ..WriteOptions::default()
    };
    let error = check_write_stop(&mut options, WriteFailpoint::AfterDataIndex).unwrap_err();
    let failure = classify_write_failure(None, error);
    assert!(failure.cancelled);
}

#[test]
fn write_plan_expectation_detects_source_changes() {
    let expected = WritePlanExpectation {
        files: 2,
        directories: 1,
        payload_bytes: 1024,
    };
    validate_write_plan_expectation(2, 1, 1024, expected).unwrap();
    let error = validate_write_plan_expectation(2, 1, 1025, expected).unwrap_err();
    assert!(error.contains("最终确认后发生变化"));
}

#[test]
fn mountinfo_marks_nfs_and_cifs_and_decodes_paths() {
    let mounts = parse_mountinfo(
        "36 25 0:32 / /mnt/local\\040disk rw - ext4 /dev/sda1 rw\n\
         37 25 0:33 / /mnt/archive rw - nfs4 nas:/archive rw\n\
         38 25 0:34 / /mnt/media rw - cifs //server/media rw\n",
    )
    .unwrap();
    assert_eq!(mounts[0].filesystem_type, "nfs4");
    assert!(mounts[0].network);
    assert_eq!(mounts[1].filesystem_type, "cifs");
    assert!(mounts[1].network);
    assert_eq!(mounts[2].mount_point, "/mnt/local disk");
    assert!(!mounts[2].network);
}

#[test]
fn directory_browser_is_shallow_and_directories_sort_first() {
    let entries = browse_directory(vec![
        BrowserEntry {
            path: "/root/a.bin".into(),
            name: "a.bin".into(),
            kind: BrowserEntryKind::File,
            size: Some(4),
        },
        BrowserEntry {
            path: "/root/z-dir".into(),
            name: "z-dir".into(),
            kind: BrowserEntryKind::Directory,
            size: None,
        },
    ]);
    assert_eq!(entries.len(), 2);
    assert_eq!(entries[0].kind, BrowserEntryKind::Directory);
    assert_eq!(entries[1].size, Some(4));
}

fn index_candidate(partition: u8, block: u64, generation: u64) -> IndexCandidateDiagnostic {
    let mut index = empty_index();
    index.generation = generation;
    index.self_location = TapePos {
        partition,
        startblock: block,
    };
    IndexCandidateDiagnostic {
        physical_partition: partition,
        actual_start_block: block,
        byte_len: 100,
        index: Some(index),
        parse_error: None,
    }
}

fn test_vci(partition: u8, block: u64, generation: u64) -> (u8, VolumeCoherencyInformation) {
    (
        partition,
        VolumeCoherencyInformation {
            vcr: vec![1],
            generation,
            block,
            volume_uuid: UUID.into(),
            acsi_version: 1,
        },
    )
}

#[test]
fn consistency_requires_matching_index_and_vci_copies() {
    let candidates = vec![index_candidate(0, 5, 4), index_candidate(1, 9, 4)];
    let vci = vec![test_vci(0, 5, 4), test_vci(1, 9, 4)];
    assert_eq!(
        classify_volume_consistency(
            Some("00000000-0000-0000-0000-000000000000"),
            &candidates,
            &vci
        ),
        (VolumeConsistency::Healthy, true)
    );

    let mut split = vec![index_candidate(0, 5, 4), index_candidate(1, 9, 4)];
    split[1].index.as_mut().unwrap().generation = 3;
    assert_eq!(
        classify_volume_consistency(None, &split, &vci).0,
        VolumeConsistency::DivergentIndexes
    );

    let stale_vci = vec![test_vci(0, 5, 3), test_vci(1, 9, 3)];
    assert_eq!(
        classify_volume_consistency(None, &candidates, &stale_vci).0,
        VolumeConsistency::StaleVci
    );

    let split_vci = vec![test_vci(0, 5, 4), test_vci(1, 9, 3)];
    assert_eq!(
        classify_volume_consistency(None, &candidates, &split_vci).0,
        VolumeConsistency::DivergentVci
    );
}

#[test]
fn consistency_rejects_foreign_missing_and_mislocated_indexes() {
    let candidates = vec![index_candidate(0, 5, 4), index_candidate(1, 9, 4)];
    assert_eq!(
        classify_volume_consistency(Some("foreign"), &candidates, &Vec::new()).0,
        VolumeConsistency::ForeignIndex
    );
    assert_eq!(
        classify_volume_consistency(None, &vec![index_candidate(0, 5, 4)], &Vec::new()).0,
        VolumeConsistency::IndexCopyMissing
    );
    let mut misplaced = vec![index_candidate(0, 5, 4), index_candidate(1, 9, 4)];
    misplaced[0].actual_start_block = 6;
    assert_eq!(
        classify_volume_consistency(None, &misplaced, &Vec::new()).0,
        VolumeConsistency::InvalidIndexLocation
    );
    assert_eq!(
        classify_volume_consistency(None, &Vec::new(), &Vec::new()).0,
        VolumeConsistency::NoUsableIndex
    );
    assert_eq!(
        classify_volume_consistency(None, &candidates, &Vec::new()),
        (VolumeConsistency::MamUnavailable, true)
    );

    let mut tail = vec![index_candidate(0, 5, 4), index_candidate(1, 9, 4)];
    tail.push(IndexCandidateDiagnostic {
        physical_partition: 1,
        actual_start_block: 10,
        byte_len: 512,
        index: None,
        parse_error: Some("ordinary data".into()),
    });
    assert_eq!(
        classify_volume_consistency(None, &tail, &Vec::new()).0,
        VolumeConsistency::UnindexedTail
    );
}

#[test]
fn health_delta_uses_session_baseline_and_detects_counter_reset() {
    let before = DriveHealth {
        write_errors: Some(ErrorCounters {
            total_corrected: Some(100),
            uncorrected: Some(2),
            ..Default::default()
        }),
        read_errors: Some(ErrorCounters {
            total_corrected: Some(50),
            uncorrected: Some(4),
            ..Default::default()
        }),
        ..Default::default()
    };
    let after = DriveHealth {
        write_errors: Some(ErrorCounters {
            total_corrected: Some(107),
            uncorrected: Some(2),
            ..Default::default()
        }),
        read_errors: Some(ErrorCounters {
            total_corrected: Some(3),
            uncorrected: Some(5),
            ..Default::default()
        }),
        tape_alerts: vec![3, 20],
        ..Default::default()
    };
    let delta = DriveHealthDelta::between(&before, &after, Vec::new());
    assert_eq!(delta.corrected_write_errors, Some(7));
    assert_eq!(delta.hard_write_errors, Some(0));
    assert_eq!(delta.corrected_read_errors, None);
    assert_eq!(delta.hard_read_errors, Some(1));
    assert_eq!(delta.active_tape_alerts, vec![3, 20]);
}

#[test]
fn pseudorandom_stream_is_bounded_and_reproducible() {
    let mut reader = PseudorandomReader::new(42, 19);
    let first = reader.read(100);
    let second = PseudorandomReader::new(42, 19).read(100);
    assert_eq!(first.len(), 19);
    assert_eq!(first, second);
    assert_ne!(first, vec![0; 19]);
    assert!(reader.read(100).is_empty());

    let mut chunked = PseudorandomReader::new(42, 19);
    let mut pieces = Vec::new();
    loop {
        let three = chunked.read(3);
        if three.is_empty() {
            break;
        }
        pieces.extend_from_slice(&three);
    }
    assert_eq!(first, pieces);
}

/// Runs a reader of test files with one block handed back whenever one was sent.
fn run_reader(files: Vec<PlannedFile>, block: usize, blocks: usize) -> Vec<SourcePipelineMessage> {
    let mut sent = Vec::new();
    let (mut reader, mut action) = SourceReader::new(files, blocks, false);
    let mut source: Option<PseudorandomReader> = None;
    let mut free = 0usize;
    loop {
        let reply = match action {
            ReaderAction::Send(message) => {
                if matches!(message, SourcePipelineMessage::Data(_)) {
                    free += 1;
                }
                sent.push(message);
                ReaderReply::Done
            }
            ReaderAction::Open { source: from, size } => {
                source = match from {
                    PlannedSource::Pseudorandom { seed } => {
                        Some(PseudorandomReader::new(seed, size))
                    }
                    PlannedSource::Local(_) => None,
                };
                ReaderReply::Done
            }
            ReaderAction::TakeBlock => {
                if free > 0 {
                    free -= 1;
                    ReaderReply::Block
                } else {
                    ReaderReply::NoBlock
                }
            }
            ReaderAction::WaitForBlock => panic!("a block was handed back"),
            ReaderAction::MakeBlock | ReaderAction::Read => {
                ReaderReply::Bytes(source.as_mut().unwrap().read(block))
            }
            ReaderAction::Finished => return sent,
            ReaderAction::Failed(message) => {
                sent.push(SourcePipelineMessage::Error(message));
                return sent;
            }
        };
        action = reader.next(reply, false);
    }
}

#[test]
fn source_pipeline_preserves_file_boundaries_and_recycles_bounded_buffers() {
    assert_eq!(pipeline_capacity(4, 8), Ok((2, 8)));
    let files = vec![
        PlannedFile {
            source: PlannedSource::Pseudorandom { seed: 1 },
            target: "/one".into(),
            size: 10,
        },
        PlannedFile {
            source: PlannedSource::Pseudorandom { seed: 2 },
            target: "/two".into(),
            size: 7,
        },
    ];
    let mut read = 0;
    let events: Vec<String> = run_reader(files, 4, 2)
        .into_iter()
        .map(|message| match message {
            SourcePipelineMessage::FileStart { target, .. } => format!("start:{target}"),
            SourcePipelineMessage::Data(data) => {
                read += data.len();
                format!("data:{}", data.len())
            }
            SourcePipelineMessage::FileEnd { actual_size } => format!("end:{actual_size}"),
            SourcePipelineMessage::Error(error) => panic!("{error}"),
        })
        .collect();
    assert_eq!(
        events,
        [
            "start:/one",
            "data:4",
            "data:4",
            "data:2",
            "end:10",
            "start:/two",
            "data:4",
            "data:3",
            "end:7",
        ]
    );
    assert_eq!(read, 17);
}

#[test]
fn source_pipeline_reports_cancellation_before_opening_a_file() {
    let files = vec![PlannedFile {
        source: PlannedSource::Pseudorandom { seed: 1 },
        target: "/cancelled".into(),
        size: 8,
    }];
    let (_, action) = SourceReader::new(files, 2, true);
    let ReaderAction::Failed(error) = action else {
        panic!("expected cancellation error")
    };
    assert!(error.contains("[cancelled]"));
}

#[test]
fn source_pipeline_preserves_source_error_identity() {
    let files = vec![PlannedFile {
        source: PlannedSource::Local("/missing/source".into()),
        target: "/missing".into(),
        size: 8,
    }];
    let (mut reader, action) = SourceReader::new(files, 2, false);
    assert!(matches!(
        action,
        ReaderAction::Send(SourcePipelineMessage::FileStart { .. })
    ));
    let action = reader.next(ReaderReply::Done, false);
    assert!(matches!(action, ReaderAction::Open { .. }));
    let action = reader.next(
        ReaderReply::Failed("打开 /missing/source 失败: not found".into()),
        false,
    );
    let ReaderAction::Failed(error) = action else {
        panic!("expected source error")
    };
    assert!(error.contains("打开"));
    assert!(error.contains("/missing/source"));
}

#[test]
fn source_pipeline_applies_bounded_backpressure() {
    let files = vec![PlannedFile {
        source: PlannedSource::Pseudorandom { seed: 9 },
        target: "/large".into(),
        size: 1_024,
    }];
    let (blocks, _) = pipeline_capacity(4, 8).unwrap();
    let (mut reader, mut action) = SourceReader::new(files, blocks, false);
    let mut source = PseudorandomReader::new(9, 1_024);
    let mut queued = 0;
    loop {
        let reply = match action {
            ReaderAction::Send(SourcePipelineMessage::Data(data)) => {
                queued += data.len();
                ReaderReply::Done
            }
            ReaderAction::Send(_) | ReaderAction::Open { .. } => ReaderReply::Done,
            ReaderAction::TakeBlock => ReaderReply::NoBlock,
            ReaderAction::MakeBlock => ReaderReply::Bytes(source.read(4)),
            ReaderAction::WaitForBlock => break,
            _ => panic!("the reader ran past its blocks"),
        };
        action = reader.next(reply, false);
    }
    assert_eq!(queued, 8);
}

#[test]
fn telemetry_history_rolls_but_session_worst_survives() {
    let mut state = ChannelTelemetryState::new(None);
    for i in 0..CHANNEL_HISTORY_CAPACITY + 5 {
        let rate = if i == 0 { key(-2.5) } else { key(-6.0) };
        state.record_sample(ChannelTelemetrySample {
            elapsed_millis: i as u64 * 5_000,
            timestamp: format!("sample-{i}"),
            partition: 1,
            logical_block: i as u64,
            throughput_bytes_per_second: (i as f64 * 1024.0).to_bits(),
            channel_rates: vec![ChannelRate {
                channel: 3,
                log10_bit_error_rate: Some(rate),
                ccp_advanced: true,
            }],
            worst_rate: Some(rate),
        });
    }
    state.warn("page unavailable".into());
    let (history, worst, warnings) = state.finish();
    assert_eq!(history.len(), CHANNEL_HISTORY_CAPACITY);
    assert_eq!(history.first().unwrap().logical_block, 5);
    let worst = worst.unwrap();
    assert_eq!(worst.rate, key(-2.5));
    assert_eq!(worst.logical_block, 0);
    assert_eq!(warnings, vec!["page unavailable"]);
}

#[test]
fn throughput_is_measured_between_samples() {
    let mut meter = WritePerformanceState::new(1000);
    let pipeline = SourcePipelineSnapshot {
        bytes_read: 500,
        queued_bytes: 4,
        capacity_bytes: 8,
        reader_waiting: false,
        writer_waiting: true,
    };
    assert!(meter.sample(pipeline, 300, 1999, false).is_none());
    let delta = meter.sample(pipeline, 300, 3000, false).unwrap();
    assert_eq!(
        (delta.source_bytes, delta.tape_bytes, delta.elapsed_millis),
        (500, 300, 2000)
    );
    let forced = meter.sample(pipeline, 350, 3001, true).unwrap();
    assert_eq!((forced.source_bytes, forced.tape_bytes), (0, 50));

    let mut clock = ChannelClock::begin_data(1000);
    assert!(!clock.due(5999));
    assert!(clock.due(6000));
    assert!(!clock.due(6001));
    assert_eq!(clock.measure(7000, 100), (100, 6000, 6000));
}

#[test]
fn initial_format_image_is_consistent_across_partitions() {
    let options = FormatOptions::new("E6008A", "archive & test");
    let image = build_initial_format_image(
        &options,
        "11111111-2222-4333-8444-555555555555",
        "2026-08-09T13:00:00.000000000Z",
        "0.1.0",
    )
    .unwrap();

    assert_eq!(AnsiLabel::parse(&image.ansi).unwrap().barcode, "E6008A");
    let data_label = Label::parse_xml(&image.data_label_xml).unwrap();
    let index_label = Label::parse_xml(&image.index_label_xml).unwrap();
    assert_eq!(data_label.volume_uuid, index_label.volume_uuid);
    assert_eq!(data_label.this_partition, 1);
    assert_eq!(index_label.this_partition, 0);

    let data_index = Index::parse_xml(&image.data_index_xml).unwrap();
    let index_index = Index::parse_xml(&image.index_index_xml).unwrap();
    assert_eq!(data_index.generation, 1);
    assert_eq!(
        data_index.self_location,
        TapePos {
            partition: 1,
            startblock: 5
        }
    );
    assert_eq!(data_index.previous_location, None);
    assert_eq!(
        index_index.self_location,
        TapePos {
            partition: 0,
            startblock: 5
        }
    );
    assert_eq!(
        index_index.previous_location,
        Some(TapePos {
            partition: 1,
            startblock: 5
        })
    );
    assert_eq!(index_index.volume_name(), Some("archive & test"));
    assert_eq!(
        Index::parse_xml(&index_index.to_xml()).unwrap(),
        index_index
    );
}

#[test]
fn format_options_reject_unsafe_identifiers_before_device_access() {
    assert!(FormatOptions::new("short", "volume").validate().is_err());
    assert!(FormatOptions::new("E6008A", "").validate().is_err());
    assert!(
        FormatOptions::new("E6008A", "bad\nname")
            .validate()
            .is_err()
    );
}

#[test]
fn random_bytes_become_a_uuid_of_version_four() {
    assert_eq!(
        uuid_from_random([0xff; 16]),
        "ffffffff-ffff-4fff-bfff-ffffffffffff"
    );
    assert_eq!(
        ltfs_time(CalendarTime {
            year: 2026,
            month: 8,
            day: 9,
            hour: 7,
            minute: 5,
            second: 3,
            nanosecond: 42,
        }),
        "2026-08-09T07:05:03.000000042Z"
    );
}

// ---------------------------------------------------------------------------
// A write from its start to its end
// ---------------------------------------------------------------------------

/// A tape that remembers what was written to it.
#[derive(Default)]
struct FakeTape {
    written: Vec<Vec<u8>>,
    marks: usize,
    mam: Vec<(u8, Vec<u8>)>,
    located: Vec<(u8, u64)>,
    reads: Vec<TapeReply>,
}

impl FakeTape {
    fn run(&mut self, command: TapeCommand) -> TapeReply {
        match command {
            TapeCommand::WriteRecord { data } => {
                self.written.push(data);
                TapeReply::Done
            }
            TapeCommand::WriteFilemark => {
                self.marks += 1;
                TapeReply::Done
            }
            TapeCommand::Locate { partition, block } => {
                self.located.push((partition, block));
                TapeReply::Done
            }
            TapeCommand::ReadMam { id, .. } => {
                if id == 0x0009 {
                    TapeReply::Bytes(vec![0, 0, 0, 7])
                } else {
                    TapeReply::Failed("unsupported".into())
                }
            }
            TapeCommand::WriteMam {
                partition, value, ..
            } => {
                self.mam.push((partition, value));
                TapeReply::Done
            }
            TapeCommand::ReadRecord | TapeCommand::ReadPosition => self.reads.remove(0),
            _ => TapeReply::Done,
        }
    }
}

fn volume() -> VolumeInfo {
    VolumeInfo {
        recognized: true,
        reason: None,
        warnings: Vec::new(),
        ansi_barcode: Some("E6008A".into()),
        label: Some(label()),
        index: Some(empty_index()),
        index_write_block: Some(4),
    }
}

/// The replies to the check of the end of the data: the index that is pointed to, a file
/// mark, and nothing behind it.
fn clean_end() -> Vec<TapeReply> {
    let mut index = empty_index();
    index.self_location = TapePos {
        partition: 1,
        startblock: 5,
    };
    index.previous_location = None;
    vec![
        TapeReply::Record(ReadRecord::Data(index.to_xml().into_bytes())),
        TapeReply::Record(ReadRecord::Filemark),
        TapeReply::Position(TapePosition {
            partition: 1,
            block: 7,
        }),
        TapeReply::Record(ReadRecord::Eod),
    ]
}

/// Runs a write of a test file of 10 bytes in blocks of 4.
fn run_write(options: WriteOptions, tape: &mut FakeTape) -> (Vec<WriteEvent>, WriteAction) {
    let mut messages = Vec::new();
    let mut events = Vec::new();
    let (mut session, mut step): (WriteSession, WriteMove) = WriteSession::new("/test.bin", options);
    loop {
        events.append(&mut step.events);
        let reply = match step.action {
            WriteAction::Inspect => WriteReply::Volume(volume()),
            WriteAction::Command(command) => {
                let verifying = matches!(command, TapeCommand::ReadRecord) && tape.reads.is_empty();
                if verifying {
                    let data = tape.written[0].clone();
                    WriteReply::Tape(TapeReply::Record(ReadRecord::Data(data)))
                } else {
                    WriteReply::Tape(tape.run(command))
                }
            }
            WriteAction::LookAtSource => WriteReply::Source {
                source: WriteSource::Pseudorandom { size: 10, seed: 3 },
                now: "2026-08-10T00:00:00.000000000Z".into(),
            },
            WriteAction::StartPipeline { files, blocksize } => {
                assert_eq!(blocksize, 524288);
                messages = run_reader(files, 16, 2);
                WriteReply::Done
            }
            WriteAction::Receive => WriteReply::Message(Some(messages.remove(0))),
            WriteAction::SamplePerformance | WriteAction::FinishPipeline => {
                WriteReply::Performance(None)
            }
            WriteAction::SampleChannels { .. } => WriteReply::Channels(None),
            WriteAction::ReadHealth => WriteReply::Done,
            end => return (events, end),
        };
        let (next, moved) = session.run(reply, false);
        session = next;
        step = moved;
    }
}

#[test]
fn a_write_commits_both_indexes_and_their_coherency() {
    let mut tape = FakeTape {
        reads: clean_end(),
        ..FakeTape::default()
    };
    let options = WriteOptions {
        verification: WriteVerification::ReadBackSha256,
        ..WriteOptions::default()
    };
    let (events, end) = run_write(options, &mut tape);
    let WriteAction::Finished(summary) = end else {
        panic!("the write failed: {end:?}")
    };
    assert_eq!((summary.bytes, summary.files, summary.generation), (10, 1, 2));
    assert_eq!(summary.data_start_block, 7);
    assert_eq!(summary.hashes.len(), 1);
    assert_eq!(tape.written[0], PseudorandomReader::new(3, 10).read(10));
    let data_index = Index::parse_xml(std::str::from_utf8(&tape.written[1]).unwrap()).unwrap();
    let copy = Index::parse_xml(std::str::from_utf8(&tape.written[2]).unwrap()).unwrap();
    assert_eq!(data_index.generation, 2);
    assert_eq!(
        data_index.self_location,
        TapePos {
            partition: 1,
            startblock: 9
        }
    );
    assert_eq!(copy.previous_location, Some(data_index.self_location));
    assert_eq!(
        copy.self_location,
        TapePos {
            partition: 0,
            startblock: 5
        }
    );
    let file = copy.find_file("/test.bin").unwrap();
    assert_eq!(file.length, 10);
    assert_eq!(file.extents[0].start_block, 7);
    assert_eq!(
        file.extended_attributes.last().unwrap().value,
        summary.hashes[0].sha256
    );
    assert_eq!(tape.marks, 4);
    assert_eq!(tape.mam.len(), 2);
    let first = VolumeCoherencyInformation::parse(&tape.mam[0].1).unwrap();
    assert_eq!((tape.mam[0].0, first.block, first.generation), (0, 5, 2));
    let second = VolumeCoherencyInformation::parse(&tape.mam[1].1).unwrap();
    assert_eq!((tape.mam[1].0, second.block, second.generation), (1, 9, 2));
    let phases: Vec<WritePhase> = events.iter().map(|event| event.phase).collect();
    assert_eq!(phases.first(), Some(&WritePhase::Preparing));
    assert_eq!(phases.last(), Some(&WritePhase::Completed));
}

#[test]
fn a_write_stops_where_it_is_told_to() {
    let mut tape = FakeTape {
        reads: clean_end(),
        ..FakeTape::default()
    };
    let options = WriteOptions {
        failpoint: Some(WriteFailpoint::AfterFirstVci),
        ..WriteOptions::default()
    };
    let (events, end) = run_write(options, &mut tape);
    let WriteAction::Failed(failure) = end else {
        panic!("the write went on")
    };
    assert_eq!(failure.commit_state, WriteCommitState::CoherencyPartial);
    assert!(failure.requires_diagnosis);
    assert_eq!(tape.mam.len(), 1);
    assert_eq!(events.last().unwrap().phase, WritePhase::Failed);

    let mut tape = FakeTape {
        reads: clean_end(),
        ..FakeTape::default()
    };
    let options = WriteOptions {
        cancellation: Some(CancellationToken::default()),
        cancelpoint: Some(WriteFailpoint::AfterFirstDataRecord),
        ..WriteOptions::default()
    };
    let (_, end) = run_write(options, &mut tape);
    let WriteAction::Failed(failure) = end else {
        panic!("the write went on")
    };
    assert!(failure.cancelled);
    assert_eq!(failure.commit_state, WriteCommitState::DataIncomplete);
    assert_eq!(tape.written.len(), 1);
}

#[test]
fn a_write_changes_nothing_where_the_tape_goes_on() {
    let mut reads = clean_end();
    reads.insert(3, TapeReply::Record(ReadRecord::Data(vec![1, 2, 3])));
    let mut tape = FakeTape {
        reads,
        ..FakeTape::default()
    };
    let (_, end) = run_write(WriteOptions::default(), &mut tape);
    let WriteAction::Failed(failure) = end else {
        panic!("the write went on")
    };
    assert!(failure.message.contains("不一致"));
    assert!(failure.requires_diagnosis);
    assert!(tape.written.is_empty());
    assert_eq!(tape.marks, 0);
    assert!(tape.mam.is_empty());
}

#[test]
fn the_end_of_data_is_refused_for_each_reason() {
    let at = TapePos {
        partition: 1,
        startblock: 5,
    };
    let (mut check, command) = AppendCheck::new(at, UUID, 1);
    assert_eq!(
        command,
        TapeCommand::Locate {
            partition: 1,
            block: 5
        }
    );
    assert_eq!(
        check.next(TapeReply::Done),
        AppendAction::Command(TapeCommand::ReadRecord)
    );
    assert!(matches!(
        check.next(TapeReply::Record(ReadRecord::Eod)),
        AppendAction::Failed(message) if message.contains("没有 filemark")
    ));

    let (mut check, _) = AppendCheck::new(at, "another", 1);
    check.next(TapeReply::Done);
    let replies = clean_end();
    let mut last = None;
    for reply in replies {
        last = Some(check.next(reply));
        if matches!(last, Some(AppendAction::Failed(_))) {
            break;
        }
    }
    assert!(matches!(
        last,
        Some(AppendAction::Failed(message)) if message.contains("UUID")
    ));
}

#[test]
fn a_commit_that_cannot_read_the_reference_says_what_is_written() {
    let places = CommitPlaces {
        data_partition: 1,
        index_partition: 0,
        data_end: 8,
        index_write_block: 4,
        last: TapePos {
            partition: 1,
            startblock: 5,
        },
    };
    let progress = WriteProgress {
        files_total: 0,
        bytes_total: 0,
        files_completed: 0,
        bytes_written: 0,
        partition: Some(1),
        logical_block: Some(8),
    };
    let (mut run, _) = CommitRun::new(
        empty_index(),
        "now",
        7,
        places,
        64,
        progress,
        WriteOptions::default(),
    );
    let mut events = Vec::new();
    let mut action = run.go(&mut events);
    let mut records = 0;
    loop {
        let reply = match action {
            CommitAction::Command(TapeCommand::ReadMam { .. }) => {
                TapeReply::Failed("no MAM".into())
            }
            CommitAction::Command(TapeCommand::WriteRecord { data }) => {
                assert!(data.len() <= 64);
                records += 1;
                TapeReply::Done
            }
            CommitAction::Command(_) => TapeReply::Done,
            CommitAction::Finished => panic!("the commit finished"),
            CommitAction::Failed(message) => {
                assert_eq!(message, "两个 index 已写完，但更新 MAM VCI 失败：no MAM");
                break;
            }
        };
        action = run.next(reply, &mut events);
    }
    assert!(records > 2);
    assert_eq!(events.len(), 3);
}

#[test]
fn refused_records_are_told_apart() {
    let mut writer = DataWriter::new(
        empty_index(),
        1,
        7,
        WriteProgress {
            files_total: 1,
            bytes_total: 4,
            files_completed: 0,
            bytes_written: 0,
            partition: None,
            logical_block: None,
        },
    );
    assert!(writer.end_file(0).is_err());
    writer
        .start_file("/f".into(), "source f".into(), 4)
        .unwrap();
    assert!(writer.start_file("/g".into(), "g".into(), 1).is_err());
    let mut sense = vec![0u8; 18];
    sense[0] = 0x70;
    sense[2] = 0x08;
    let end = Error::Scsi {
        device: "/dev/sg1".into(),
        status: 2,
        host_status: 0,
        driver_status: 0,
        sense,
    };
    assert!(is_end_of_data_error(&end));
    assert!(writer.refused(&end).contains("EOD"));
    let other = Error::Protocol("broken".into());
    assert!(!is_end_of_data_error(&other));
    assert_eq!(writer.refused(&other), format!("写入 source f 失败: {}", other.text()));
    writer.written(&[1, 2]);
    assert!(writer.refused(&end).starts_with("写入 source f"));
    let message = writer.end_file(4).unwrap_err();
    assert!(message.contains("计划 4 字节，实际读取 4 字节，实际写入 2 字节"));
}

#[test]
fn a_written_entry_has_one_digest() {
    let mut file = file_entry("a");
    file.extended_attributes = vec![
        ExtendedAttribute {
            key: "LTFS.Hash.SHA256sum".into(),
            value: "old".into(),
            value_type: None,
        },
        ExtendedAttribute {
            key: "kept".into(),
            value: "1".into(),
            value_type: None,
        },
    ];
    let entry = written_entry(&file, 1, 20, 9, "new");
    assert_eq!(entry.length, 9);
    assert_eq!(
        entry.extents,
        vec![Extent {
            file_offset: 0,
            partition: 1,
            start_block: 20,
            byte_count: 9
        }]
    );
    assert_eq!(entry.extended_attributes.len(), 2);
    assert_eq!(entry.extended_attributes[1].value, "new");
    assert!(written_entry(&file, 1, 20, 0, "new").extents.is_empty());
}

#[test]
fn files_are_read_extent_by_extent() {
    let mut index = empty_index();
    let mut file = file_entry("a");
    file.length = 6;
    file.extents = vec![
        Extent {
            file_offset: 0,
            partition: 1,
            start_block: 10,
            byte_count: 4,
        },
        Extent {
            file_offset: 4,
            partition: 1,
            start_block: 30,
            byte_count: 2,
        },
    ];
    index.root.entries.push(DirectoryEntry::File(file));
    let index = Some(index);
    assert!(FileRead::new(false, &None, &index, "/a").is_err());
    assert!(FileRead::new(true, &None, &None, "/a").is_err());
    assert!(FileRead::new(true, &None, &index, "/b").is_err());
    let mut read = FileRead::new(true, &None, &index, "/a").unwrap();
    let mut action = read.go_on(false);
    let mut bytes = Vec::new();
    let mut records = vec![vec![1, 2, 3, 4], vec![5, 6, 7]];
    let mut places = Vec::new();
    loop {
        action = match action {
            ReadAction::Command(TapeCommand::Locate { partition, block }) => {
                places.push((partition, block));
                read.next(&TapeReply::Done, false)
            }
            ReadAction::Command(_) => {
                let reply = TapeReply::Record(ReadRecord::Data(records.remove(0)));
                let next = read.next(&reply, false);
                if let (
                    ReadAction::Output { count, .. },
                    TapeReply::Record(ReadRecord::Data(data)),
                ) = (&next, &reply)
                {
                    bytes.extend_from_slice(&data[..*count]);
                }
                next
            }
            ReadAction::Output { .. } => read.go_on(false),
            ReadAction::Finished(n) => {
                assert_eq!(n, 6);
                break;
            }
            ReadAction::Failed(message) => panic!("{message}"),
        };
    }
    assert_eq!(bytes, vec![1, 2, 3, 4, 5, 6]);
    assert_eq!(places, vec![(1, 10), (1, 30)]);
    let reader = ExtentReader::new(&Vec::new());
    assert!(reader.is_done());
}

#[test]
fn what_is_read_back_is_compared_by_its_digest() {
    let mut index = empty_index();
    let mut file = file_entry("a");
    file.length = 3;
    file.extents = vec![Extent {
        file_offset: 0,
        partition: 1,
        start_block: 10,
        byte_count: 3,
    }];
    index.root.entries.push(DirectoryEntry::File(file));
    let digest = "ba7816bf8f01cfea414140de5dae2223b00361a396177a9cb410ff61f20015ad";
    let run = |sha256: &str| {
        let check = HashCheck::new(
            &index,
            &FileHash {
                path: "/a".into(),
                sha256: sha256.into(),
            },
        )
        .unwrap();
        let (_, check) = check.go_on();
        let (_, check) = check.unwrap().next(TapeReply::Done);
        let (action, _) = check
            .unwrap()
            .next(TapeReply::Record(ReadRecord::Data(b"abc".to_vec())));
        action
    };
    assert_eq!(run(digest), HashAction::Finished(Ok(())));
    assert!(matches!(run("other"), HashAction::Finished(Err(_))));
    assert!(hash_verdict_for("/a", "x", 3, 2, "x").unwrap_err().contains("长度不匹配"));
    assert!(hash_verdict_for("/a", "x", 3, 3, "y").unwrap_err().contains("SHA-256"));
    assert!(HashCheck::new(
        &index,
        &FileHash {
            path: "/none".into(),
            sha256: digest.into()
        }
    )
    .is_err());
}

#[test]
fn test_files_are_described_in_the_index() {
    let mut index = empty_index();
    let plan = plan_pseudorandom_file(&mut index, "/r.bin", 19, 42, "now").unwrap();
    assert_eq!(plan.total_bytes, 19);
    assert_eq!(
        plan.files[0].source.description(),
        "pseudorandom(seed=42)"
    );
    let file = index.find_file("/r.bin").unwrap();
    assert_eq!(file.extended_attributes[1].value, "42");
    assert!(plan_pseudorandom_file(&mut index, "/", 1, 1, "now").is_err());
}

#[test]
fn memory_of_a_cartridge_is_reported_for_both_partitions() {
    let vci = VolumeCoherencyInformation::new(&[1], 3, 9, UUID)
        .unwrap()
        .to_bytes()
        .unwrap();
    let first = Ok(vec![
        MamAttributeRecord {
            id: 0x080c,
            format: 0,
            value: vci,
        },
        MamAttributeRecord {
            id: 0x0400,
            format: 0,
            value: vec![1],
        },
    ]);
    let second = Err("no partition".to_string());
    let report = inspect_mam(&first, &second);
    assert_eq!(report.partitions.len(), 1);
    assert_eq!(report.partitions[0].attributes.len(), 1);
    assert_eq!(
        report.partitions[0].attributes[0].vci.as_ref().unwrap().generation,
        3
    );
    assert_eq!(report.warnings, vec!["partition 1 MAM 读取失败: no partition"]);
}
