use tapecpy::app::mounts::MountedFilesystem;
use tapecpy::app::source::{assess_write_capacity, SourceEntry, SourcePlan};
use tapecpy::app::telemetry::PERFORMANCE_HISTORY_CAPACITY;
use tapecpy::app::write_state::{
    CancellationToken, ChannelTelemetrySample, WriteEvent, WritePerformanceSample, WritePhase,
    WriteVerification,
};
use tapecpy::device::channel_error::ChannelRate;
use tapecpy::device::TapeDrive;
use tapecpy::job::control::{
    cancel_outcome, check_message_size, handle_request, status_outcome, watch_timeout, JobControl,
    MessageSide, Request, Response, StatusOutcome, MAX_MESSAGE_BYTES,
};
use tapecpy::job::id::{default_job_root, JobId, JobPaths};
use tapecpy::job::order::{
    validate_host_mount, CompletionAction, Endpoint, JobCapacityStatus, JobSpec, OperationKind,
    PROTOCOL_VERSION,
};
use tapecpy::job::runner::{
    apply_update, check_capacity, JobRun, RunnerAction, RunnerReply, RunnerUpdate, WriteOutcome,
};
use tapecpy::job::state::{
    order_states, reconcile_interrupted, EjectStatus, JobPhase, JobState, VerificationStatus,
};

fn key(value: f64) -> i64 {
    let bits = value.to_bits() as i64;
    bits ^ ((((bits >> 63) as u64) >> 1) as i64)
}

fn spec(operation: OperationKind) -> JobSpec {
    JobSpec {
        protocol_version: PROTOCOL_VERSION,
        id: JobId::parse("test-job").unwrap(),
        operation,
        drive_selector: "/dev/sg1".into(),
        drive_serial: "TEST123".into(),
        source: Endpoint {
            path: "/source".into(),
            filesystem_type: Some("nfs4".into()),
            mount_source: Some("nas:/archive".into()),
        },
        source_roots: Vec::new(),
        destination: Endpoint {
            path: "/destination".into(),
            filesystem_type: None,
            mount_source: None,
        },
        read_back_verify: false,
        completion_action: CompletionAction::KeepLoaded,
        volume_barcode: None,
        volume_name: None,
        created_at: "2026-08-10T00:00:00Z".into(),
        write_preflight: None,
    }
}

fn write_event(phase: WritePhase) -> WriteEvent {
    WriteEvent {
        phase,
        current_file: None,
        files_completed: 1,
        files_total: 1,
        bytes_written: 10,
        bytes_total: 10,
        partition: Some(1),
        logical_block: Some(20),
        telemetry: None,
        performance: None,
        failure: None,
    }
}

fn plan_of(roots: &[(&str, &str, u64)]) -> SourcePlan {
    let mut plan = SourcePlan::empty("now");
    for (root, file, size) in roots {
        plan.add_root(root, false, root).unwrap();
        plan.add_entry(root, SourceEntry::Directory, false).unwrap();
        plan.add_entry(file, SourceEntry::File { size: *size }, false)
            .unwrap();
    }
    plan
}

#[test]
fn detached_read_rejects_stdout_destination() {
    let mut value = spec(OperationKind::Read);
    value.destination.path = "-".into();
    assert!(value.validate().unwrap_err().contains("stdout"));
}

#[test]
fn detached_read_rejects_write_completion_options() {
    let mut value = spec(OperationKind::Read);
    value.completion_action = CompletionAction::EjectAfterCommit;
    assert!(value.validate().unwrap_err().contains("Read job"));
    value.completion_action = CompletionAction::KeepLoaded;
    value.read_back_verify = true;
    assert!(value.validate().unwrap_err().contains("Read job"));
}

#[test]
fn write_preflight_requires_capacity_acknowledgement_and_matching_source() {
    let plan = plan_of(&[("/root", "/root/one.bin", 950_000)]);
    let warning = assess_write_capacity(plan.payload_bytes, Some(1), "sampled");

    let mut value = spec(OperationKind::Write);
    value.source.path = "/root".into();
    let canonical = vec![Ok("/root".to_string())];
    assert!(
        value
            .clone()
            .with_write_preflight(&canonical, &plan, &warning, None, false)
            .unwrap_err()
            .contains("warning")
    );
    assert!(
        value
            .with_write_preflight(&canonical, &plan, &warning, None, true)
            .is_ok()
    );

    let mut wrong_source = spec(OperationKind::Write);
    wrong_source.source.path = "/root/one.bin".into();
    assert!(
        wrong_source
            .with_write_preflight(
                &vec![Ok("/root/one.bin".to_string())],
                &plan,
                &warning,
                None,
                true
            )
            .unwrap_err()
            .contains("不一致")
    );
}

#[test]
fn write_preflight_accepts_multiple_explicit_source_roots() {
    let plan = plan_of(&[
        ("/base/first", "/base/first/one.bin", 1),
        ("/base/second", "/base/second/two.bin", 2),
    ]);
    let capacity = assess_write_capacity(plan.payload_bytes, Some(10), "sampled");
    let endpoints = ["/base/first", "/base/second"]
        .into_iter()
        .map(|path| Endpoint {
            path: path.to_string(),
            filesystem_type: None,
            mount_source: None,
        })
        .collect::<Vec<_>>();
    let canonical = vec![
        Ok("/base/first".to_string()),
        Ok("/base/second".to_string()),
    ];
    let value = spec(OperationKind::Write)
        .with_source_roots(endpoints)
        .with_write_preflight(&canonical, &plan, &capacity, None, false)
        .unwrap();
    assert_eq!(value.source_roots.len(), 2);
    assert_eq!(value.write_preflight.unwrap().roots.len(), 2);
}

#[test]
fn orders_are_refused_for_each_reason() {
    let mut value = spec(OperationKind::Write);
    value.protocol_version = 7;
    assert_eq!(
        value.validate().unwrap_err(),
        "不支持 job protocol version 7（当前为 1）"
    );
    let mut value = spec(OperationKind::Write);
    value.drive_serial = String::new();
    assert!(value.validate().unwrap_err().contains("磁带机身份"));
    let mut value = spec(OperationKind::Write);
    value.source.path = String::new();
    assert!(value.validate().unwrap_err().contains("不能为空"));
    assert!(JobId::parse("a/b").is_err());
    assert!(JobId::parse("").is_err());

    let plan = plan_of(&[("/root", "/root/one.bin", 2 * 1024 * 1024)]);
    let blocked = assess_write_capacity(plan.payload_bytes, Some(1), "sampled");
    assert!(spec(OperationKind::Read)
        .with_write_preflight(&vec![Ok("/root".into())], &plan, &blocked, None, true)
        .unwrap_err()
        .contains("Read job"));
    assert!(spec(OperationKind::Write)
        .with_write_preflight(&vec![Err("gone".into())], &plan, &blocked, None, true)
        .unwrap_err()
        .contains("无法确认 write source /source: gone"));
    assert!(spec(OperationKind::Write)
        .with_write_preflight(&vec![Ok("/root".into())], &plan, &blocked, None, true)
        .unwrap_err()
        .contains("available capacity"));
    assert_eq!(
        JobCapacityStatus::from(blocked.status),
        JobCapacityStatus::BlockedInsufficient
    );
}

#[test]
fn application_completed_event_waits_for_runner_completion_action() {
    let mut state = JobState::queued(spec(OperationKind::Write)).unwrap();
    state.apply_write_event(&write_event(WritePhase::Completed), "done".into());
    assert_eq!(state.phase, JobPhase::Finalizing);
    assert!(!state.phase.is_terminal());
}

#[test]
fn ipc_status_watch_and_cancel_share_one_snapshot() {
    let mut control = JobControl::new(
        JobState::queued(spec(OperationKind::Write)).unwrap(),
        CancellationToken::default(),
    );
    let response = handle_request(
        &Request::Status {
            protocol_version: PROTOCOL_VERSION,
        },
        &mut control,
        "now".into(),
    );
    assert!(matches!(response, Response::State { .. }));
    assert!(control.watch_ready(0));
    assert!(!control.watch_ready(1));
    assert_eq!(watch_timeout(60_000), 30_000);

    let response = handle_request(
        &Request::Cancel {
            protocol_version: PROTOCOL_VERSION,
        },
        &mut control,
        "now".into(),
    );
    let Response::CancelAccepted { state } = response else {
        panic!("unexpected response")
    };
    assert_eq!(state.phase, JobPhase::CancellationRequested);
    assert!(control.cancellation.is_cancelled());
    assert_eq!(control.snapshot().phase, JobPhase::CancellationRequested);

    control.state.phase = JobPhase::Completed;
    let response = handle_request(
        &Request::Cancel {
            protocol_version: PROTOCOL_VERSION,
        },
        &mut control,
        "now".into(),
    );
    assert!(matches!(
        cancel_outcome(response),
        Err(message) if message.contains("Completed")
    ));
}

#[test]
fn answers_of_the_runner_are_understood() {
    let state = JobState::queued(spec(OperationKind::Read)).unwrap();
    assert!(matches!(
        status_outcome(Ok(Response::State {
            state: Box::new(state.clone())
        })),
        StatusOutcome::Known(_)
    ));
    assert!(matches!(
        status_outcome(Ok(Response::CancelAccepted {
            state: Box::new(state)
        })),
        StatusOutcome::Failed(_)
    ));
    assert_eq!(status_outcome(Err("gone".into())), StatusOutcome::NoRunner);
    assert!(check_message_size(MAX_MESSAGE_BYTES, MessageSide::Request).is_ok());
    assert_eq!(
        check_message_size(MAX_MESSAGE_BYTES + 1, MessageSide::Response).unwrap_err(),
        "IPC response 超过大小限制"
    );
}

#[test]
fn dead_active_runner_becomes_interrupted_without_resume() {
    let mut state = JobState::queued(spec(OperationKind::Write)).unwrap();
    state.phase = JobPhase::Running;
    state.runner_pid = Some(42);
    let state = reconcile_interrupted(state, false, "now".into());
    assert_eq!(state.phase, JobPhase::Interrupted);
    assert!(state.requires_diagnosis);
    let same = reconcile_interrupted(state.clone(), false, "later".into());
    assert_eq!(same, state);
}

#[test]
fn cancellation_request_survives_progress_until_terminal_event() {
    let mut state = JobState::queued(spec(OperationKind::Write)).unwrap();
    state.phase = JobPhase::CancellationRequested;
    state.apply_write_event(
        &WriteEvent {
            phase: WritePhase::WritingData,
            current_file: Some("/still-finishing-record".into()),
            files_completed: 0,
            files_total: 1,
            bytes_written: 512,
            bytes_total: 1024,
            partition: Some(1),
            logical_block: Some(6),
            telemetry: None,
            performance: None,
            failure: None,
        },
        "later".into(),
    );
    assert_eq!(state.phase, JobPhase::CancellationRequested);
}

#[test]
fn write_telemetry_snapshot_retains_channels_worst_and_bounded_history() {
    let mut state = JobState::queued(spec(OperationKind::Write)).unwrap();
    for index in 0..PERFORMANCE_HISTORY_CAPACITY + 2 {
        let rate = if index == 0 { key(-3.0) } else { key(-6.0) };
        state.apply_write_event(
            &WriteEvent {
                phase: WritePhase::WritingData,
                current_file: Some("/sample".into()),
                files_completed: 0,
                files_total: 1,
                bytes_written: index as u64,
                bytes_total: 1_000,
                partition: Some(1),
                logical_block: Some(index as u64),
                telemetry: Some(ChannelTelemetrySample {
                    elapsed_millis: index as u64 * 5_000,
                    timestamp: format!("sample-{index}"),
                    partition: 1,
                    logical_block: index as u64,
                    throughput_bytes_per_second: (index as f64).to_bits(),
                    channel_rates: vec![ChannelRate {
                        channel: 4,
                        log10_bit_error_rate: Some(rate),
                        ccp_advanced: true,
                    }],
                    worst_rate: Some(rate),
                }),
                performance: Some(WritePerformanceSample {
                    timestamp: format!("sample-{index}"),
                    source_bytes_per_second: (index as f64 + 1.0).to_bits(),
                    tape_bytes_per_second: (index as f64).to_bits(),
                    buffer_used_bytes: 4,
                    buffer_capacity_bytes: 8,
                    reader_waiting: false,
                    writer_waiting: false,
                }),
                failure: None,
            },
            format!("sample-{index}"),
        );
    }
    assert_eq!(state.progress.channel_rates[0].channel, 4);
    assert_eq!(state.progress.session_worst_channel, Some(4));
    assert_eq!(state.progress.session_worst_channel_rate, Some(key(-3.0)));
    assert_eq!(
        state.progress.throughput_history.len(),
        PERFORMANCE_HISTORY_CAPACITY
    );
    assert_eq!(
        f64::from_bits(state.progress.throughput_history[0].bytes_per_second),
        2.0
    );
    assert_eq!(
        state.progress.source_bytes_per_second.map(f64::from_bits),
        Some(602.0)
    );
    assert_eq!(state.progress.buffer_used_bytes, Some(4));
}

#[test]
fn protocol_version_mismatch_is_explicit() {
    let mut control = JobControl::new(
        JobState::queued(spec(OperationKind::Write)).unwrap(),
        CancellationToken::default(),
    );
    let response = handle_request(
        &Request::Status {
            protocol_version: PROTOCOL_VERSION + 1,
        },
        &mut control,
        "now".into(),
    );
    let Response::Error { message } = response else {
        panic!("version mismatch was accepted")
    };
    assert!(message.contains("version"));
}

#[test]
fn job_listing_ignores_non_jobs_and_orders_latest_first() {
    let mut first_state = JobState::queued(spec(OperationKind::Read)).unwrap();
    first_state.updated_at = "2026-08-10T00:00:00Z".into();
    let mut second_spec = spec(OperationKind::Write);
    second_spec.id = JobId::parse("second-job").unwrap();
    let mut second_state = JobState::queued(second_spec).unwrap();
    second_state.updated_at = "2026-08-10T01:00:00Z".into();
    assert!(JobId::parse(".locks").is_err());

    let states = order_states(vec![first_state, second_state]);
    assert_eq!(states.len(), 2);
    assert_eq!(states[0].spec.id.as_str(), "second-job");
}

#[test]
fn job_files_lie_below_the_state_directory() {
    let id = JobId::new(0x1234, 0xab);
    assert_eq!(
        id.as_str(),
        "00000000000000000000000000001234-000000ab"
    );
    assert!(JobId::parse(id.as_str()).is_ok());
    let root = default_job_root(None, Some("/home/u".into())).unwrap();
    assert_eq!(root, "/home/u/.local/state/tapecpy/jobs");
    assert_eq!(
        default_job_root(Some("/state".into()), None).unwrap(),
        "/state/tapecpy/jobs"
    );
    assert!(default_job_root(None, None).is_err());
    let paths = JobPaths::new("/jobs", &JobId::parse("a").unwrap());
    assert_eq!(paths.socket, "/jobs/a/control.sock");
}

#[test]
fn runner_failures_are_told_apart() {
    let mut state = JobState::queued(spec(OperationKind::Write)).unwrap();
    state.start(7, "t1".into());
    assert_eq!(state.phase, JobPhase::Starting);
    assert_eq!(state.runner_pid, Some(7));
    let mut cancelled = state.clone();
    cancelled.fail("[cancelled]stopped", false, "t2".into());
    assert_eq!(cancelled.phase, JobPhase::Cancelled);
    assert_eq!(cancelled.error.as_deref(), Some("stopped"));
    state.progress.bytes_completed = 1;
    state.fail("broken", false, "t2".into());
    assert_eq!(state.phase, JobPhase::Failed);
    assert!(state.requires_diagnosis);
}

fn drive(serial: &str) -> TapeDrive {
    TapeDrive {
        name: "nst0".into(),
        nst_path: "/dev/nst0".into(),
        st_path: "/dev/st0".into(),
        sg_path: "/dev/sg1".into(),
        vendor: "V".into(),
        model: "M".into(),
        revision: "R".into(),
        serial: serial.into(),
    }
}

fn mount() -> MountedFilesystem {
    MountedFilesystem {
        mount_point: "/".into(),
        filesystem_type: "nfs4".into(),
        source: "nas:/archive".into(),
        network: true,
    }
}

#[test]
fn a_runner_checks_everything_before_it_writes() {
    let mut order = spec(OperationKind::Write);
    order.completion_action = CompletionAction::EjectAfterCommit;
    order.read_back_verify = true;
    let (mut run, action) = JobRun::new(order);
    assert!(matches!(action, RunnerAction::Lease { .. }));
    assert_eq!(run.run_operation(RunnerReply::Done), RunnerAction::Discover);
    assert_eq!(
        run.run_operation(RunnerReply::Drives(vec![drive("TEST123")])),
        RunnerAction::ReadMounts
    );
    assert_eq!(
        run.run_operation(RunnerReply::Mounts {
            mounts: Ok(vec![mount()]),
            resolved: vec![Ok("/source".into())],
        }),
        RunnerAction::Update(RunnerUpdate::Running)
    );
    let RunnerAction::Write { options } = run.run_operation(RunnerReply::Done) else {
        panic!("expected a write")
    };
    assert_eq!(options.verification, WriteVerification::ReadBackSha256);
    let outcome = WriteOutcome {
        generation: 5,
        corrected_write_errors: Some(1),
        hard_write_errors: Some(0),
        corrected_read_errors: None,
        hard_read_errors: None,
        tape_alerts: vec![3],
    };
    let RunnerAction::Update(written) = run.run_operation(RunnerReply::Written(outcome)) else {
        panic!("expected an update")
    };
    let mut order = spec(OperationKind::Write);
    order.completion_action = CompletionAction::EjectAfterCommit;
    order.read_back_verify = true;
    let mut state = JobState::queued(order).unwrap();
    apply_update(&mut state, written, "t".into());
    assert_eq!(state.phase, JobPhase::Ejecting);
    assert_eq!(state.completion.generation, Some(5));
    assert_eq!(state.completion.verification, VerificationStatus::Passed);
    assert_eq!(run.run_operation(RunnerReply::Done), RunnerAction::Eject);
    let RunnerAction::Update(failed) = run.run_operation(RunnerReply::Failed("stuck".into()))
    else {
        panic!("expected an update")
    };
    apply_update(&mut state, failed, "t".into());
    assert_eq!(state.phase, JobPhase::Completed);
    assert_eq!(state.completion.eject, EjectStatus::Failed("stuck".into()));
    assert!(state.completion.index_committed);
    assert_eq!(run.run_operation(RunnerReply::Done), RunnerAction::Finished);
}

#[test]
fn a_runner_refuses_another_drive_or_mount() {
    let (mut run, _) = JobRun::new(spec(OperationKind::Write));
    run.run_operation(RunnerReply::Done);
    assert!(matches!(
        run.run_operation(RunnerReply::Drives(vec![drive("OTHER")])),
        RunnerAction::Failed(message) if message.contains("身份变化")
    ));
    let (mut run, _) = JobRun::new(spec(OperationKind::Write));
    run.run_operation(RunnerReply::Done);
    run.run_operation(RunnerReply::Drives(vec![drive("TEST123")]));
    assert!(matches!(
        run.run_operation(RunnerReply::Mounts {
            mounts: Ok(Vec::new()),
            resolved: vec![Ok("/source".into())],
        }),
        RunnerAction::Failed(message) if message.contains("不属于任何 mount")
    ));
    let mut other = mount();
    other.source = "elsewhere".into();
    let endpoint = spec(OperationKind::Write).source;
    let here = Ok("/source".to_string());
    assert!(validate_host_mount(&endpoint, &here, &Ok(vec![other])).is_err());
    assert!(validate_host_mount(&endpoint, &here, &Ok(vec![mount()])).is_ok());
    assert_eq!(
        validate_host_mount(&endpoint, &Err("gone".into()), &Ok(vec![mount()])),
        Err("gone".into())
    );
    assert!(check_capacity(10, false, None, "t").is_some());
    assert!(check_capacity(10, true, None, "t").is_none());
    assert!(check_capacity(2 << 20, true, Some(1), "t").is_some());
}

#[test]
fn a_read_job_is_completed_once_its_output_is_safe() {
    let (mut run, _) = JobRun::new(spec(OperationKind::Read));
    run.run_operation(RunnerReply::Done);
    run.run_operation(RunnerReply::Drives(vec![drive("TEST123")]));
    run.run_operation(RunnerReply::Mounts {
            mounts: Ok(Vec::new()),
            resolved: vec![Ok("/source".into())],
        });
    assert_eq!(run.run_operation(RunnerReply::Done), RunnerAction::OpenOutput);
    assert_eq!(run.run_operation(RunnerReply::Done), RunnerAction::Read);
    assert_eq!(
        run.run_operation(RunnerReply::Read(9)),
        RunnerAction::SyncOutput
    );
    assert_eq!(
        run.run_operation(RunnerReply::Done),
        RunnerAction::Update(RunnerUpdate::ReadCompleted(9))
    );
}
