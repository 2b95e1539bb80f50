use tapecpy::app::erase::EraseMode;
use tapecpy::app::mounts::{BrowserEntry, BrowserEntryKind, MountedFilesystem};
use tapecpy::app::snapshot::{
    inspect_device_snapshot_basic, pending_device_snapshot, wants_volume, with_diagnosis,
    with_volume, DeviceSnapshot, MediaLifecycle,
};
use tapecpy::app::source::{assess_write_capacity, SourceEntry, SourcePlan};
use tapecpy::app::telemetry::ChannelTelemetryFrame;
use tapecpy::app::volume::VolumeInfo;
use tapecpy::device::channel_error::ChannelRate;
use tapecpy::device::{MediaInfo, MediaPresence, TapeDrive};
use tapecpy::job::id::JobId;
use tapecpy::job::order::{Endpoint, JobSpec, OperationKind};
use tapecpy::job::state::{JobPhase, JobState};
use tapecpy::ltfs::index::{Directory, DirectoryEntry, Index, TapePos};
use tapecpy::tui::browse::{join_ltfs_path, open_tape_directory, toggle_tape_selection};
use tapecpy::tui::device::{cartridge_outcome, CartridgeAction, DeviceWorker, WorkerTask};
use tapecpy::tui::device_pages::{
    cartridge_lines, drive_lines, error_text, header_lines, header_temperature, ltfs_notice,
    ltfs_operations_lines, mam_bytes, operations_lines, sequential_directory_lines,
    sequential_filename_lines, sequential_mounts_lines, warning_lines,
};
use tapecpy::tui::erase_keys::handle_erase_key;
use tapecpy::tui::events::{apply_file_event, apply_job_event, apply_worker_event};
use tapecpy::tui::format_keys::handle_format_key;
use tapecpy::tui::job_pages::{active_jobs, channel_cells, completion_lines, job_lines};
use tapecpy::tui::keys::{handle_key, not_taken};
use tapecpy::tui::pages::{
    erase_footer, erase_heading, erase_lines, format_footer, format_heading, format_lines,
    read_footer, restore_count, restore_heading, restore_rows, source_footer, source_plan_lines,
    WriteFigures,
};
use tapecpy::tui::read_keys::back_read_level;
use tapecpy::tui::sequential_keys::{handle_sequential_key, output_checked};
use tapecpy::tui::source_keys::{back_write_level, handle_source_key};
use tapecpy::tui::start::{apply_start, start_write_job, StartKind, StartOutcome};
use tapecpy::tui::state::{
    display_clock, Effect, EraseView, FileCommand, FileEvent, FormatField, FormatView, JobEvent,
    Key, Page, ReadView, SequentialMode, SequentialView, SnapshotScope, SourceView, UiState,
    WorkerCommand, WorkerEvent, WorkerOwnershipState,
};
use tapecpy::tui::view::{
    braille_rows, cartridge_operation_line, graph_columns, header_status, ltfs_operation_line,
    visible_range, HeaderStatus, ShownLine, Tone,
};

fn ready() -> UiState {
    let mut state = UiState::default();
    state.note.busy = None;
    state
}

fn drive(serial: &str) -> TapeDrive {
    TapeDrive {
        name: "nst0".into(),
        nst_path: "/dev/nst0".into(),
        st_path: "/dev/st0".into(),
        sg_path: "/dev/sg1".into(),
        vendor: "V".into(),
        model: "M".into(),
        revision: "R".into(),
        serial: serial.into(),
    }
}

fn loaded() -> MediaInfo {
    MediaInfo {
        presence: MediaPresence::Loaded,
        density_code: Some(0x58),
        ..Default::default()
    }
}

fn snapshot() -> DeviceSnapshot {
    inspect_device_snapshot_basic(
        drive("S1"),
        Ok(loaded()),
        Ok(Default::default()),
        "t0".into(),
    )
}

fn index() -> Index {
    Index {
        version: "2.4.0".into(),
        creator: "test".into(),
        volume_uuid: "u".into(),
        volume_name: Some("vol".into()),
        generation: 1,
        update_time: "t".into(),
        self_location: TapePos {
            partition: 0,
            startblock: 5,
        },
        previous_location: None,
        allow_policy_update: false,
        volume_lock_state: None,
        highest_file_uid: Some(1),
        file_count: 0,
        directory_count: 2,
        root: Directory {
            name: "vol".into(),
            entries: vec![
                DirectoryEntry::Directory(Directory {
                    name: "b".into(),
                    ..Default::default()
                }),
                DirectoryEntry::Directory(Directory {
                    name: "a".into(),
                    ..Default::default()
                }),
            ],
            ..Default::default()
        },
    }
}

fn volume() -> VolumeInfo {
    VolumeInfo {
        recognized: true,
        index: Some(index()),
        ..Default::default()
    }
}

fn job(serial: &str, phase: JobPhase) -> JobState {
    let endpoint = |path: &str| Endpoint {
        path: path.into(),
        filesystem_type: None,
        mount_source: None,
    };
    let spec = JobSpec::new(
        JobId::parse("job-1").unwrap(),
        OperationKind::Write,
        "/dev/sg1".into(),
        serial.into(),
        endpoint("/source"),
        endpoint("/destination"),
        false,
        "t".into(),
    );
    let mut state = JobState::queued(spec).unwrap();
    state.phase = phase;
    state
}

fn text_of(line: ShownLine) -> String {
    match line {
        ShownLine::Text { text, .. } => text,
        other => panic!("not a text: {other:?}"),
    }
}

#[test]
fn suspended_worker_rejects_all_device_access() {
    assert!(WorkerOwnershipState::Active.allows_device_access());
    assert!(!WorkerOwnershipState::Suspending.allows_device_access());
    assert!(!WorkerOwnershipState::Suspended.allows_device_access());
}

#[test]
fn telemetry_timestamp_is_displayed_to_whole_seconds_only() {
    assert_eq!(display_clock("2026-08-14T12:10:35.114344947Z"), "12:10:35");
    assert_eq!(display_clock("unknown"), "unknown");
}

#[test]
fn short_or_split_clocks_are_shown_as_they_are() {
    assert_eq!(display_clock("dateT12:10"), "dateT12:10");
    assert_eq!(display_clock("dateT12:10:3é5"), "dateT12:10:3é5");
}

#[test]
fn successful_device_event_clears_current_error_status() {
    let mut state = UiState::default();
    state.note.last_error = Some("temporary device error".into());
    assert_eq!(header_status(&state).word(), "ERROR");
    apply_worker_event(&mut state, WorkerEvent::Drives(Vec::new()));
    assert!(state.note.last_error.is_none());
    assert_ne!(header_status(&state).word(), "ERROR");
    assert_eq!(state.note.status, "0 tape drive(s) discovered");
}

#[test]
fn preview_cartridge_operations_are_english_only() {
    let line = text_of(cartridge_operation_line(
        "3",
        "Unthread",
        "Keep inserted",
        true,
        false,
    ));
    assert_eq!(line, "[3] Unthread           Keep inserted  Ready");
    assert!(
        !line
            .chars()
            .any(|character| ('\u{4e00}'..='\u{9fff}').contains(&character))
    );
}

#[test]
fn ltfs_operations_are_english_only() {
    let line = text_of(ltfs_operation_line("1", "Read LTFS…", true));
    assert_eq!(line, "[1] Read LTFS…                 Ready");
    assert!(
        !line
            .chars()
            .any(|character| ('\u{4e00}'..='\u{9fff}').contains(&character))
    );
}

#[test]
fn braille_graph_is_bounded_and_keeps_recent_samples() {
    let keys = [1.0f64, 2.0, 3.0, 4.0, 5.0]
        .iter()
        .map(|value| value.to_bits() as i64)
        .collect();
    let columns = graph_columns(&keys, 4);
    assert_eq!(columns.len(), 4);
    assert_eq!(f64::from_bits(columns[3] as u64), 5.0);
    let filled = columns
        .iter()
        .map(|column| (f64::from_bits(*column as u64) / 5.0 * 8.0).round() as usize)
        .collect();
    let graph = braille_rows(&filled, 2, 2);
    assert_eq!(graph.len(), 2);
    assert!(graph.iter().all(|line| line.len() == 2));
    assert_ne!(graph[0], vec![0, 0]);
    assert_eq!(graph[1][1], 0xff);
}

#[test]
fn empty_braille_graph_has_stable_dimensions() {
    assert!(graph_columns(&Vec::new(), 6).is_empty());
    let graph = braille_rows(&Vec::new(), 3, 2);
    assert_eq!(graph.len(), 2);
    assert!(graph.iter().all(|line| line.len() == 3));
    assert!(graph.iter().all(|line| line.iter().all(|dots| *dots == 0)));
}

#[test]
fn format_editor_normalizes_serial_and_accepts_unicode_volume_name() {
    let mut state = UiState::default();
    state.page = Page::Format;
    state.format.view = FormatView::Editing;
    state.format.field = FormatField::VolumeSerial;
    for character in "ab12cd7".chars() {
        handle_format_key(&mut state, Key::Char(character));
    }
    assert_eq!(state.format.volume_serial, "AB12CD");
    handle_format_key(&mut state, Key::Tab);
    for character in "测试卷".chars() {
        handle_format_key(&mut state, Key::Char(character));
    }
    assert_eq!(state.format.volume_name, "测试卷");
    handle_format_key(&mut state, Key::Enter);
    assert_eq!(state.format.view, FormatView::Confirm);
    assert!(format_lines(&state)
        .list
        .iter()
        .any(|line| matches!(line, ShownLine::Text { text, .. } if text.contains("DESTROYED"))));
}

#[test]
fn confirmed_format_sends_validated_options_and_running_blocks_exit() {
    let mut state = UiState::default();
    state.page = Page::Format;
    state.format.view = FormatView::Confirm;
    state.format.volume_serial = "ABC123".into();
    state.format.volume_name = "Archive Test".into();
    let effect = handle_format_key(&mut state, Key::Char('y'));
    assert_eq!(state.format.view, FormatView::Running);
    match effect.as_ref().unwrap() {
        Effect::Device(WorkerCommand::Format(options)) => {
            assert_eq!(options.barcode, "ABC123");
            assert_eq!(options.volume_name, "Archive Test");
        }
        _ => panic!("expected Format command"),
    }
    handle_format_key(&mut state, Key::Char('q'));
    assert_eq!(state.page, Page::Format);
    assert_eq!(state.format.view, FormatView::Running);
    not_taken(&mut state, &effect.unwrap());
    assert_eq!(state.format.view, FormatView::Complete);
}

#[test]
fn write_q_navigation_walks_back_one_level_at_a_time() {
    let mut state = UiState::default();
    state.page = Page::WriteSource;
    state.write.view = SourceView::Confirm;
    state.start.confirm = true;
    state.write.tape_target = Some("/restore".into());

    back_write_level(&mut state);
    assert_eq!(state.page, Page::WriteSource);
    assert_eq!(state.write.view, SourceView::LtfsDestination);
    assert!(!state.start.confirm);
    assert!(state.write.tape_target.is_none());

    back_write_level(&mut state);
    assert_eq!(state.write.view, SourceView::Plan);
    back_write_level(&mut state);
    assert_eq!(state.write.view, SourceView::Directory);
    back_write_level(&mut state);
    assert_eq!(state.write.view, SourceView::Mounts);
    back_write_level(&mut state);
    assert_eq!(state.page, Page::Ltfs);
}

#[test]
fn read_q_navigation_walks_back_one_level_at_a_time() {
    let mut state = UiState::default();
    state.page = Page::ReadRestore;
    state.read.view = ReadView::Confirm;
    state.start.confirm = true;
    state.read.destination = Some("/restore".into());

    back_read_level(&mut state);
    assert_eq!(state.page, Page::ReadRestore);
    assert_eq!(state.read.view, ReadView::Destination);
    assert!(!state.start.confirm);
    assert!(state.read.destination.is_none());

    back_read_level(&mut state);
    assert_eq!(state.read.view, ReadView::Mounts);
    back_read_level(&mut state);
    assert_eq!(state.read.view, ReadView::Plan);
    back_read_level(&mut state);
    assert_eq!(state.read.view, ReadView::TapeBrowser);
    back_read_level(&mut state);
    assert_eq!(state.page, Page::Ltfs);
}

#[test]
fn format_q_navigation_returns_through_format_parent() {
    let mut state = UiState::default();
    state.page = Page::Format;
    state.format.view = FormatView::Confirm;

    handle_format_key(&mut state, Key::Char('q'));
    assert_eq!(state.page, Page::Format);
    assert_eq!(state.format.view, FormatView::Editing);
    handle_format_key(&mut state, Key::Char('q'));
    assert_eq!(state.page, Page::Ltfs);
}

#[test]
fn sequential_menu_reuses_mount_browser_and_returns_one_level() {
    let mut state = UiState::default();
    state.page = Page::Sequential;
    state.sequential.view = SequentialView::Menu;

    let effect = handle_sequential_key(&mut state, Key::Char('2'));
    assert_eq!(state.sequential.mode, Some(SequentialMode::TarWrite));
    assert!(state.files.busy);
    assert_eq!(effect, Some(Effect::File(FileCommand::ListMounts)));

    state.files.busy = false;
    state.sequential.view = SequentialView::Mounts;
    handle_sequential_key(&mut state, Key::Char('q'));
    assert_eq!(state.page, Page::Sequential);
    assert_eq!(state.sequential.view, SequentialView::Menu);
    handle_sequential_key(&mut state, Key::Char('q'));
    assert_eq!(state.page, Page::Overview);
}

#[test]
fn erase_selector_exposes_all_modes_and_requires_confirmation() {
    let mut state = UiState::default();
    state.page = Page::Erase;
    state.erase.view = EraseView::SelectMode;
    state.erase.mode = EraseMode::Short;
    handle_erase_key(&mut state, Key::Char('2'));
    assert_eq!(state.erase.mode, EraseMode::Long);
    handle_erase_key(&mut state, Key::Char('3'));
    assert_eq!(state.erase.mode, EraseMode::MinimumPartitionLong);
    handle_erase_key(&mut state, Key::Enter);
    assert_eq!(state.erase.view, EraseView::Confirm);
}

#[test]
fn confirmed_erase_sends_mode_and_running_blocks_exit() {
    let mut state = UiState::default();
    state.page = Page::Erase;
    state.erase.view = EraseView::Confirm;
    state.erase.mode = EraseMode::Short;
    let effect = handle_erase_key(&mut state, Key::Char('y'));
    assert_eq!(state.erase.view, EraseView::Running);
    match effect.unwrap() {
        Effect::Device(WorkerCommand::Erase(mode)) => assert_eq!(mode, EraseMode::Short),
        _ => panic!("expected Erase command"),
    }
    handle_erase_key(&mut state, Key::Char('q'));
    assert_eq!(state.page, Page::Erase);
    assert_eq!(state.erase.view, EraseView::Running);
    let lines = erase_lines(&state, "12.5%").list;
    assert_eq!(
        lines[0],
        ShownLine::Fact {
            label: "Drive",
            value: "— —".into()
        }
    );
}

#[test]
fn drives_are_opened_or_lead_to_their_job() {
    let mut state = ready();
    state.device.drives = vec![drive("S1"), drive("S2")];
    handle_key(&mut state, Key::Down, "now");
    assert_eq!(state.device.drive_index, 1);
    let effect = handle_key(&mut state, Key::Enter, "now");
    assert_eq!(effect, Some(Effect::Device(WorkerCommand::Select(1))));
    assert!(state.device.selected);
    assert_eq!(handle_key(&mut state, Key::Char('q'), "now"), None);
    assert!(!state.quit);

    let mut state = ready();
    state.device.drives = vec![drive("S1")];
    state.jobs.list = vec![job("S1", JobPhase::Running)];
    assert_eq!(handle_key(&mut state, Key::Enter, "now"), None);
    assert_eq!(state.page, Page::Jobs);
    handle_key(&mut state, Key::Char('c'), "now");
    assert!(state.jobs.cancel_confirm);
    let effect = handle_key(&mut state, Key::Char('y'), "now");
    assert!(matches!(effect, Some(Effect::CancelJob(id)) if id.as_str() == "job-1"));
}

#[test]
fn a_claimed_drive_is_left_alone() {
    let mut state = ready();
    state.device.selected = true;
    state.device.snapshot = Some(snapshot());
    let command = apply_job_event(
        &mut state,
        JobEvent::States(vec![job("S1", JobPhase::Running)]),
    );
    assert_eq!(command, Some(WorkerCommand::Suspend));
    assert_eq!(header_status(&state), HeaderStatus::Working);
    assert_eq!(handle_key(&mut state, Key::Char('4'), "now"), None);
    assert!(state.note.status.starts_with("Eject blocked"));
    handle_key(&mut state, Key::Char('5'), "now");
    assert_eq!(state.page, Page::Overview);
    let command = apply_job_event(
        &mut state,
        JobEvent::States(vec![job("S1", JobPhase::Completed)]),
    );
    assert_eq!(command, Some(WorkerCommand::Resume));
    assert!(matches!(
        handle_key(&mut state, Key::Char('4'), "now"),
        Some(Effect::Cartridge(WorkerCommand::Unload, "Eject"))
    ));
    apply_job_event(&mut state, JobEvent::Error("lost".into()));
    assert_eq!(state.note.status, "JOB ERROR: lost");
}

#[test]
fn the_volume_is_opened_once_it_has_been_read() {
    let mut state = ready();
    state.device.selected = true;
    state.device.snapshot = Some(snapshot());
    let effect = handle_key(&mut state, Key::Char('6'), "now");
    assert_eq!(effect, Some(Effect::Device(WorkerCommand::ReadLtfs)));
    assert!(state.device.ltfs_open_pending);
    let (with, wanted) = with_volume(snapshot(), Ok(volume()));
    assert!(wanted);
    apply_worker_event(
        &mut state,
        WorkerEvent::Snapshot(
            Box::new(with),
            ChannelTelemetryFrame::default(),
            SnapshotScope::Ltfs,
        ),
    );
    assert_eq!(state.page, Page::Ltfs);
    assert!(state.device.ltfs_read);
    assert_eq!(handle_key(&mut state, Key::Char('1'), "now"), None);
    assert_eq!(state.page, Page::ReadRestore);
    assert_eq!(state.read.entries[0].path, "/a");
    let (failed, wanted) = with_volume(snapshot(), Err("no label".into()));
    assert!(!wanted);
    apply_worker_event(
        &mut state,
        WorkerEvent::Snapshot(
            Box::new(failed),
            ChannelTelemetryFrame::default(),
            SnapshotScope::Ltfs,
        ),
    );
    assert_eq!(
        state.note.status,
        "LTFS probe failed: LTFS 查询失败: no label"
    );
}

#[test]
fn directories_of_the_volume_are_shown_in_order() {
    let mut state = ready();
    let (with, _) = with_volume(snapshot(), Ok(volume()));
    state.device.snapshot = Some(with);
    open_tape_directory(&mut state, "/");
    assert_eq!(state.write.tape_directories, vec!["a", "b"]);
    open_tape_directory(&mut state, "/none");
    assert_eq!(state.note.status, "LTFS directory no longer exists: /none");
    assert_eq!(join_ltfs_path("/", "a"), "/a");
    assert_eq!(join_ltfs_path("/a", "b"), "/a/b");
    toggle_tape_selection(&mut state, "/a".into());
    assert_eq!(state.note.status, "Selected /a (1 roots total)");
    toggle_tape_selection(&mut state, "/a".into());
    assert!(state.read.selected.is_empty());
}

#[test]
fn a_confirmed_write_becomes_an_order() {
    let mut plan = SourcePlan::empty("now");
    plan.add_root("/data/a", false, "/data/a").unwrap();
    plan.add_entry("/data/a", SourceEntry::File { size: 5 }, false)
        .unwrap();
    let capacity = assess_write_capacity(5, Some(10), "t");
    let mut state = ready();
    state.page = Page::WriteSource;
    state.write.view = SourceView::Confirm;
    state.write.tape_target = Some("/".into());
    state.write.plan = Some(plan);
    state.write.capacity = Some(capacity);
    state.files.mounts = vec![MountedFilesystem {
        mount_point: "/data".into(),
        filesystem_type: "ext4".into(),
        source: "/dev/sda1".into(),
        network: false,
    }];
    let canonical = vec![Ok("/data/a".to_string())];
    let id = JobId::parse("w").unwrap();
    assert!(start_write_job(&mut state, id.clone(), "t".into(), &canonical, None).is_none());
    assert_eq!(state.note.status, "Device snapshot is unavailable");
    let (with, _) = with_volume(snapshot(), Ok(volume()));
    state.device.snapshot = Some(with);
    assert_eq!(handle_source_key(&mut state, Key::Char('y')), None);
    assert_eq!(handle_source_key(&mut state, Key::Enter), None);
    assert!(state.start.confirm);
    assert_eq!(
        handle_source_key(&mut state, Key::Char('y')),
        Some(Effect::StartWrite)
    );
    let order = start_write_job(&mut state, id, "t".into(), &canonical, None).unwrap();
    assert_eq!(order.source.filesystem_type.as_deref(), Some("ext4"));
    assert_eq!(order.volume_name.as_deref(), Some("vol"));
    assert_eq!(order.write_preflight.as_ref().unwrap().payload_bytes, 5);
    let queued = JobState::queued(order).unwrap();
    apply_start(&mut state, StartKind::Write, StartOutcome::Started(queued));
    assert_eq!(state.page, Page::Jobs);
    assert_eq!(state.jobs.list.len(), 1);
    apply_start(&mut state, StartKind::Write, StartOutcome::NotStarted("no".into()));
    assert_eq!(state.note.status, "Failed to start detached Write: no");
}

#[test]
fn file_events_go_to_the_page_that_is_shown() {
    let mut state = ready();
    state.page = Page::ReadRestore;
    let entries = || {
        vec![
            BrowserEntry {
                path: "/m/d".into(),
                name: "d".into(),
                kind: BrowserEntryKind::Directory,
                size: None,
            },
            BrowserEntry {
                path: "/m/f".into(),
                name: "f".into(),
                kind: BrowserEntryKind::File,
                size: Some(1),
            },
        ]
    };
    apply_file_event(&mut state, FileEvent::Directory("/m".into(), entries()));
    assert_eq!(state.files.entries.len(), 1);
    assert_eq!(state.read.view, ReadView::Destination);
    state.page = Page::WriteSource;
    apply_file_event(&mut state, FileEvent::Directory("/m".into(), entries()));
    assert_eq!(state.files.entries.len(), 2);
    handle_source_key(&mut state, Key::Char(' '));
    assert_eq!(state.write.roots, vec!["/m/d"]);
    let effect = handle_source_key(&mut state, Key::Char('s'));
    assert!(matches!(effect, Some(Effect::File(FileCommand::Scan(paths, None))) if paths == ["/m/d"]));
    state.page = Page::Sequential;
    apply_file_event(&mut state, FileEvent::Error("lost".into()));
    assert_eq!(state.note.status, "lost");
}

#[test]
fn recovery_images_never_replace_a_file() {
    let mut state = ready();
    assert_eq!(output_checked(&mut state, "/d/x.raw".into(), true), None);
    assert_eq!(state.note.status, "Destination already exists: /d/x.raw");
    assert_eq!(
        output_checked(&mut state, "/d/x.raw".into(), false),
        Some(Effect::Device(WorkerCommand::AssessSequential(Some(
            "/d".into()
        ))))
    );
    assert!(state.note.busy.is_some());
    assert_eq!(handle_key(&mut state, Key::Char('q'), "now"), None);
}

#[test]
fn the_worker_does_nothing_with_a_drive_that_it_does_not_own() {
    let mut worker = DeviceWorker::new();
    assert_eq!(worker.command(WorkerCommand::Refresh), WorkerTask::Rest);
    worker.discovered(vec![drive("S1")]);
    assert!(matches!(
        worker.command(WorkerCommand::Select(3)),
        WorkerTask::Refuse(WorkerEvent::Error(_))
    ));
    assert!(matches!(
        worker.command(WorkerCommand::Select(0)),
        WorkerTask::Refresh { anew: true, .. }
    ));
    assert!(worker.telemetry_due(5000));
    assert_eq!(
        worker.command(WorkerCommand::Unload),
        WorkerTask::Cartridge(CartridgeAction::Unload)
    );
    assert_eq!(worker.command(WorkerCommand::Suspend), WorkerTask::Acknowledge);
    assert!(!worker.telemetry_due(5000));
    assert_eq!(
        worker.command(WorkerCommand::Erase(EraseMode::Short)),
        WorkerTask::Tell(WorkerEvent::Status(
            "Erase rejected: device worker is suspended".into()
        ))
    );
    assert_eq!(worker.command(WorkerCommand::Resume), WorkerTask::Resumed);
    assert_eq!(
        cartridge_outcome(CartridgeAction::Unload, MediaLifecycle::NoMediaDetected),
        WorkerEvent::Status("eject completed: No media detected".into())
    );
    assert!(matches!(
        cartridge_outcome(CartridgeAction::Load, MediaLifecycle::Unknown),
        WorkerEvent::Error(_)
    ));
}

#[test]
fn snapshots_gather_warnings() {
    let pending = pending_device_snapshot(drive("S1"), "t".into());
    assert_eq!(pending.lifecycle, MediaLifecycle::Unknown);
    let basic = inspect_device_snapshot_basic(
        drive("S1"),
        Err("no media".into()),
        Err("no pages".into()),
        "t".into(),
    );
    assert_eq!(
        basic.warnings,
        vec!["介质状态查询失败: no media", "健康状态查询失败: no pages"]
    );
    assert!(!wants_volume(&basic));
    assert!(wants_volume(&snapshot()));
    let after = with_diagnosis(snapshot(), Err("failed".into()));
    assert_eq!(after.warnings, vec!["一致性诊断失败: failed"]);
    let mut state = ready();
    state.device.snapshot = Some(after);
    assert_eq!(header_status(&state), HeaderStatus::Warning);
    assert_eq!(
        error_text(&state),
        "No operation error recorded\n\nWarnings:\n一致性诊断失败: failed"
    );
}

#[test]
fn pages_show_what_is_known() {
    let mut state = ready();
    let shown = snapshot();
    let lines = operations_lines(&state, &shown).list;
    assert_eq!(lines.len(), 13);
    assert!(matches!(&lines[3], ShownLine::Text { text, .. } if text.ends_with("Ready")));
    let lines = ltfs_operations_lines(&state, &shown).list;
    assert!(matches!(&lines[0], ShownLine::Text { text, .. } if text.ends_with("—")));
    state.device.snapshot = Some(shown);
    assert_eq!(header_lines(&state).0, "V M  ·  S1  ·  /dev/nst0");
    let failed = job("S1", JobPhase::Failed);
    assert_eq!(active_jobs(&vec![job("S1", JobPhase::Queued), failed]), 1);
    let mut failed = job("S1", JobPhase::Failed);
    failed.error = Some("broken".into());
    failed.requires_diagnosis = true;
    assert_eq!(job_lines(&failed, "—", "—").list.len(), 11);
    assert_eq!(completion_lines(&failed, "—").list.len(), 20);
    let cells = channel_cells(
        &vec![ChannelRate {
            channel: 2,
            log10_bit_error_rate: Some(-5),
            ccp_advanced: false,
        }],
        Some(-5),
        None,
    );
    assert!(cells[2].worst && cells[2].idle && !cells[3].worst);
    let mut plan = SourcePlan::empty("t");
    for i in 0..7 {
        let root = format!("/r{i}");
        plan.add_root(&root, false, &root).unwrap();
    }
    let figures = WriteFigures {
        payload: "0 B".into(),
        available: "Unknown".into(),
        planned: "Unknown".into(),
    };
    let lines = source_plan_lines(&plan, &None, &figures).list;
    assert_eq!(lines.len(), 1 + 5 + 1 + 7);
}

#[test]
fn the_selected_entry_stays_visible() {
    assert_eq!(visible_range(10, 0, 4), (0, 4));
    assert_eq!(visible_range(10, 7, 4), (4, 8));
    assert_eq!(visible_range(2, 0, 4), (0, 2));
    assert_eq!(visible_range(5, 4, 0), (4, 5));
}

#[test]
fn a_command_that_is_not_taken_changes_little() {
    let mut state = ready();
    state.erase.progress = Some(7);
    state.erase.view = EraseView::Running;
    let effect = Effect::Device(WorkerCommand::Erase(EraseMode::Long));
    not_taken(&mut state, &effect);
    assert_eq!(state.erase.view, EraseView::Complete);
    assert_eq!(state.erase.progress, Some(7));
    assert_eq!(
        state.erase.message,
        "ERASE FAILED: device worker is unavailable"
    );
}

fn entry(name: &str, kind: BrowserEntryKind) -> BrowserEntry {
    BrowserEntry {
        path: format!("/m/{name}"),
        name: name.into(),
        kind,
        size: None,
    }
}

#[test]
fn only_directories_are_offered_for_a_restore() {
    let mut state = ready();
    assert_eq!(restore_heading(&state), " Restore into: — ");
    state.page = Page::ReadRestore;
    let listed = vec![
        entry("a", BrowserEntryKind::Directory),
        entry("f", BrowserEntryKind::File),
        entry("b", BrowserEntryKind::Directory),
        entry("l", BrowserEntryKind::Symlink),
        entry("c", BrowserEntryKind::Directory),
    ];
    apply_file_event(&mut state, FileEvent::Directory("/m".into(), listed));
    state.write.roots = vec!["/m/b".into()];
    state.files.index = 1;
    assert_eq!(restore_heading(&state), " Restore into: /m ");
    assert_eq!(restore_count(&state), 3);
    let rows = restore_rows(&state, 1, 3);
    let names: Vec<&str> = rows.iter().map(|row| row.name.as_str()).collect();
    assert_eq!(names, vec!["b", "c"]);
    assert!(rows.iter().all(|row| !row.marked && row.kind == "DIR" && row.size.is_none()));
    assert!(rows[0].selected && !rows[1].selected);
    assert_eq!(
        handle_key(&mut state, Key::Enter, "now"),
        Some(Effect::File(FileCommand::Browse("/m/b".into())))
    );
    state.files.entries = vec![
        entry("f", BrowserEntryKind::File),
        entry("a", BrowserEntryKind::Directory),
    ];
    state.files.index = 0;
    assert_eq!(restore_count(&state), 1);
    assert_eq!(restore_rows(&state, 0, 1)[0].name, "a");
    assert!(restore_rows(&state, 0, 1)[0].selected);
    assert!(restore_rows(&state, 1, 1).is_empty());
}

#[test]
fn messages_stand_above_the_keys() {
    let mut state = ready();
    state.erase.view = EraseView::SelectMode;
    state.erase.message = "Cartridge is write protected".into();
    assert_eq!(
        erase_footer(&state),
        "Cartridge is write protected\n↑↓/j k or 1/2/3 Select  Enter Review  Q/Esc Back"
    );
    state.format.view = FormatView::Confirm;
    state.format.message = "Review".into();
    assert_eq!(
        format_footer(&state),
        "Review\nY DESTROY AND FORMAT  N/Esc/Q Return to editing"
    );
    state.note.status = "Trusted LTFS index is unavailable".into();
    state.read.view = ReadView::Plan;
    assert_eq!(
        read_footer(&state),
        "Trusted LTFS index is unavailable\nEnter Choose restore destination  Esc Change selection  Q Back"
    );
    state.write.view = SourceView::Plan;
    assert_eq!(
        source_footer(&state),
        "Trusted LTFS index is unavailable\nEnter Continue to LTFS destination  Esc Change source  Q Back"
    );
    assert_eq!(erase_heading(), "Tape Erase │ destructive media preparation");
    assert_eq!(
        format_heading(),
        "LTFS Format │ destructive cartridge initialization"
    );
}

#[test]
fn the_header_tells_how_warm_the_drive_is() {
    let mut state = ready();
    assert_eq!(header_temperature(&state, Some(30)), ("TEMP —".into(), Tone::Dim));
    let mut shown = snapshot();
    shown.health = None;
    state.device.snapshot = Some(shown);
    assert_eq!(header_temperature(&state, Some(30)), ("TEMP ?".into(), Tone::Dim));
    state.device.snapshot.as_mut().unwrap().health = Some(Default::default());
    assert_eq!(header_temperature(&state, None), ("TEMP N/A".into(), Tone::Busy));
    assert_eq!(header_temperature(&state, Some(30)), ("30°C".into(), Tone::Good));
}

#[test]
fn the_volume_is_shown_once_it_has_been_read() {
    let mut state = ready();
    let mut shown = snapshot();
    shown.warnings = vec!["one".into(), "two".into()];
    shown.lifecycle = MediaLifecycle::PresentUnthreaded;
    assert_eq!(
        ltfs_notice(&state, &shown),
        Some((" LTFS Volume ", "LTFS unavailable until media is loaded / threaded"))
    );
    shown.lifecycle = MediaLifecycle::LoadedThreaded;
    assert_eq!(
        ltfs_notice(&state, &shown),
        Some((
            " LTFS Operations ",
            "Reading LTFS partitions, label, index and consistency…"
        ))
    );
    state.device.ltfs_read = true;
    assert_eq!(ltfs_notice(&state, &shown), None);
    let warnings: Vec<String> = warning_lines(&shown).list.into_iter().map(text_of).collect();
    assert_eq!(warnings, vec!["one", "two"]);
    let labels = |lines: Vec<ShownLine>| -> Vec<&'static str> {
        lines
            .into_iter()
            .map(|line| match line {
                ShownLine::Fact { label, .. } => label,
                _ => panic!("only facts"),
            })
            .collect()
    };
    assert_eq!(
        labels(drive_lines(&shown).list),
        vec!["Model", "Serial", "Tape device", "SCSI device"]
    );
    assert_eq!(
        labels(cartridge_lines(&shown).list),
        vec!["State", "Barcode", "Media", "Write Protect"]
    );
    assert_eq!(mam_bytes(Some(3)), Some(3145728));
    assert_eq!(mam_bytes(Some(u64::MAX)), None);
    assert_eq!(mam_bytes(None), None);
}

#[test]
fn sequential_work_lists_what_can_be_chosen() {
    let mut state = ready();
    state.files.mounts = vec![MountedFilesystem {
        source: "srv:/x".into(),
        mount_point: "/mnt/x".into(),
        filesystem_type: "nfs".into(),
        network: true,
    }];
    let texts = |lines: Vec<ShownLine>| -> Vec<String> { lines.into_iter().map(text_of).collect() };
    assert_eq!(
        texts(sequential_mounts_lines(&state).list),
        vec!["> Network  nfs        /mnt/x", "Enter Browse  Q Back"]
    );
    state.files.entries = vec![
        entry("d", BrowserEntryKind::Directory),
        entry("f", BrowserEntryKind::File),
    ];
    state.files.index = 1;
    assert_eq!(
        texts(sequential_directory_lines(&state).list),
        vec![
            "  Directory d",
            "> File     f",
            "Enter Open directory  S Use current directory  Esc Parent",
        ]
    );
    state.sequential.mode = Some(SequentialMode::TarWrite);
    assert_eq!(
        texts(sequential_directory_lines(&state).list)[2],
        "Enter Open directory  Space Select source  Esc Parent"
    );
    state.sequential.filename = "image.raw".into();
    assert_eq!(
        texts(sequential_filename_lines(&state).list),
        vec!["Recovery image filename", "> image.raw", "Enter Continue  Esc Back"]
    );
}

#[test]
fn a_claimed_drive_is_only_probed() {
    for digit in '1'..='7' {
        let mut state = ready();
        state.page = Page::Overview;
        state.device.selected = true;
        state.device.snapshot = Some(snapshot());
        state.jobs.list = vec![job("S1", JobPhase::Queued)];
        let effect = handle_key(&mut state, Key::Char(digit), "now");
        if digit == '6' {
            assert_eq!(effect, Some(Effect::Device(WorkerCommand::ReadLtfs)));
        } else {
            assert_eq!(effect, None);
        }
        assert_ne!(state.page, Page::Erase);
    }
}

#[test]
fn typed_values_stand_in_brackets() {
    let mut state = UiState::default();
    state.format.view = FormatView::Editing;
    state.format.field = FormatField::VolumeSerial;
    state.format.volume_serial = "AB".into();
    let lines = format_lines(&state).list;
    assert_eq!(
        lines[2],
        ShownLine::Field {
            label: "Volume Serial       ",
            value: "[ AB     ]".into(),
            behind: "   exactly 6 ASCII letters/digits",
            typed: true,
        }
    );
    assert!(matches!(&lines[5], ShownLine::Field { typed: false, .. }));
}
