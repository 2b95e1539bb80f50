use tapecpy::app::append::FileHash;
use tapecpy::app::drives::{DriveHealth, DriveHealthDelta};
use tapecpy::app::erase::{EraseEvent, EraseMode, ErasePhase, EraseResult};
use tapecpy::app::mam_report::inspect_mam;
use tapecpy::app::snapshot::WriteResult;
use tapecpy::app::volume::{
    IndexCandidateDiagnostic, VolumeConsistency, VolumeDiagnosis, VolumeInfo,
};
use tapecpy::app::write_state::{WriteEvent, WritePhase, WriteVerification};
use tapecpy::device::channel_error::ChannelRate;
use tapecpy::device::mtio::{TapeStatus, GMT_WR_PROT};
use tapecpy::device::scsi::MamAttributeRecord;
use tapecpy::device::{MamInfo, MediaInfo, MediaPresence, TapeDrive};
use tapecpy::ltfs::index::{Directory, DirectoryEntry, FileEntry, FileTimes, Index, TapePos};
use tapecpy::reports::{
    describe_diagnosis, describe_health, describe_mam, describe_media, describe_result,
    erase_outcome, erase_warning, line_of_erase, line_of_row, list_directory, list_drives,
    CapacityTexts, Line, ResultTexts, SampleTexts, WriteWatch,
};

fn drive() -> TapeDrive {
    TapeDrive {
        name: "nst0".into(),
        nst_path: "/dev/nst0".into(),
        st_path: "/dev/st0".into(),
        sg_path: "/dev/sg1".into(),
        vendor: "QUANTUM".into(),
        model: "ULTRIUM 5".into(),
        revision: "3210".into(),
        serial: "HU1".into(),
    }
}

fn shown(line: &Line) -> String {
    match line {
        Line::Out(text) => format!("out {text}"),
        Line::Fault(text) => format!("err {text}"),
    }
}

#[test]
fn drives_are_numbered_from_one() {
    assert_eq!(list_drives(&Vec::new()).lines, vec!["未发现磁带机。"]);
    assert_eq!(
        list_drives(&vec![drive()]).lines,
        vec![
            format!(
                "{:<6}{:<10}{:<20}{:<16}{:<12}SCSI 设备",
                "序号", "厂商", "型号", "序列号", "磁带设备"
            ),
            format!(
                "{:<6}{:<10}{:<20}{:<16}{:<12}{}",
                1, "QUANTUM", "ULTRIUM 5", "HU1", "/dev/nst0", "/dev/sg1"
            ),
        ]
    );
}

#[test]
fn cartridges_are_described() {
    let texts = CapacityTexts {
        remaining: "R".into(),
        maximum: "M".into(),
        written: "W".into(),
        read: "D".into(),
    };
    let media = MediaInfo {
        presence: MediaPresence::Loaded,
        tape_status: Some(TapeStatus {
            drive_type: 0,
            density_code: 0x58,
            block_size: 0,
            gstat: GMT_WR_PROT,
            soft_errors: 0,
            file_no: 2,
            block_no: -1,
            partition: 1,
        }),
        density_code: Some(0x58),
        mam: Some(MamInfo {
            barcode: Some("ABC123".into()),
            volume_identifier: Some(String::new()),
            medium_manufacturer: None,
            medium_serial: Some("77".into()),
            medium_type: Some(1),
            remaining_capacity_mib: Some(5),
            max_capacity_mib: None,
            load_count: Some(3),
            tape_alert_flags: Some(0),
            total_written_mib: Some(9),
            total_read_mib: None,
        }),
    };
    let lines = describe_media(&media, &texts).lines;
    assert_eq!(lines[0], "介质状态: 已装载");
    assert_eq!(lines[1], "  密度:        0x58");
    assert!(lines[2].starts_with("  格式:        "));
    assert_eq!(
        &lines[3..],
        [
            "  块大小:      可变",
            "  当前分区:    1",
            "  位置:        文件 2 / 块 -1",
            "  写保护:      是",
            "  Barcode:     ABC123",
            "  标准8位标签: ABC123L5（6 位卷序列 + 介质代际码，供核对物理标签）",
            "  介质序列号:  77",
            "  介质类型:    0x01",
            "  剩余容量:    R",
            "  装载次数:    3",
            "  累计写入:    W",
        ]
    );
}

#[test]
fn health_goes_to_both_streams() {
    let health = DriveHealth {
        write_errors: None,
        read_errors: None,
        tape_alerts: vec![3, 20],
        write_channels: Some(Vec::new()),
        read_channels: None,
        warnings: vec!["no page".into()],
    };
    let lines: Vec<String> = describe_health(&drive(), &health).lines.iter().map(shown).collect();
    assert_eq!(
        lines,
        vec![
            "out 磁带机: /dev/sg1 (ULTRIUM 5)",
            "out 写入错误计数: 不可用",
            "out 读取错误计数: 不可用",
            "out TapeAlert: 3, 20",
            "err 警告: no page",
            "out 写通道 diagnostic baseline: 0 个通道",
        ]
    );
}

fn index() -> Index {
    let file = |name: &str, target: Option<&str>| {
        DirectoryEntry::File(FileEntry {
            name: name.into(),
            fileuid: 2,
            length: 5,
            readonly: false,
            times: FileTimes::default(),
            extents: Vec::new(),
            extended_attributes: Vec::new(),
            symlink_target: target.map(|text| text.into()),
        })
    };
    Index {
        version: "2.4.0".into(),
        creator: "test".into(),
        volume_uuid: "u".into(),
        volume_name: None,
        generation: 4,
        update_time: "t".into(),
        self_location: TapePos {
            partition: 0,
            startblock: 5,
        },
        previous_location: Some(TapePos {
            partition: 1,
            startblock: 9,
        }),
        allow_policy_update: false,
        volume_lock_state: None,
        highest_file_uid: None,
        file_count: 2,
        directory_count: 2,
        root: Directory {
            name: "vol".into(),
            entries: vec![
                DirectoryEntry::Directory(Directory {
                    name: "d".into(),
                    ..Default::default()
                }),
                file("f", None),
                file("l", Some("f")),
            ],
            ..Default::default()
        },
    }
}

#[test]
fn diagnoses_name_every_index() {
    let diagnosis = VolumeDiagnosis {
        label_uuid: Some("u".into()),
        candidates: vec![
            IndexCandidateDiagnostic {
                physical_partition: 0,
                actual_start_block: 5,
                byte_len: 100,
                index: Some(index()),
                parse_error: None,
            },
            IndexCandidateDiagnostic {
                physical_partition: 1,
                actual_start_block: 9,
                byte_len: 7,
                index: None,
                parse_error: None,
            },
        ],
        vci: Vec::new(),
        partition_errors: vec!["bad".into()],
        consistency: VolumeConsistency::IndexCopyMissing,
        safe_for_normal_write: false,
    };
    assert_eq!(
        describe_diagnosis(&diagnosis).lines,
        vec![
            "一致性: IndexCopyMissing".to_string(),
            "普通写入安全: false".to_string(),
            "Label UUID: u".to_string(),
            format!(
                "P0 B5 100 bytes: index gen=4 uuid=u self=p0b5 previous={:?}",
                index().previous_location
            ),
            "P1 B9 7 bytes: INVALID: 未知解析错误".to_string(),
            "  警告: bad".to_string(),
        ]
    );
}

#[test]
fn attributes_are_shown_by_their_format() {
    let records = vec![
        MamAttributeRecord {
            id: 0x0806,
            format: 1,
            value: b"AB\"  ".to_vec(),
        },
        MamAttributeRecord {
            id: 0x0820,
            format: 0,
            value: vec![0xab, 0x01],
        },
    ];
    let report = inspect_mam(&Ok(records), &Err("gone".into()));
    let lines = describe_mam(&report).lines;
    assert_eq!(lines[0], "");
    assert_eq!(lines[1], "MAM partition 0:");
    assert_eq!(lines[2], format!("  0x0806  format=1  {:?}", "AB\""));
    assert_eq!(lines[3], "  0x0820  format=0  AB01");
    assert!(lines.last().unwrap().starts_with("  警告: "));
}

#[test]
fn directories_are_listed() {
    let volume = VolumeInfo {
        recognized: true,
        index: Some(index()),
        ..Default::default()
    };
    let listing = list_directory(&volume, "/").unwrap();
    assert_eq!(listing.head.lines, vec!["vol/  (gen 4)"]);
    let lines: Vec<String> = listing.rows.iter().map(|row| line_of_row(row, "5 B")).collect();
    assert_eq!(
        lines,
        vec![
            format!("  d   {:>10}  d/", ""),
            format!("  -   {:>10}  f", "5 B"),
            format!("  l   {:>10}  l -> f", "-"),
        ]
    );
    assert_eq!(
        list_directory(&volume, "/x").err().as_deref(),
        Some("目录不存在: /x")
    );
    let unknown = VolumeInfo::default();
    assert_eq!(
        list_directory(&unknown, "/").unwrap().head.lines,
        vec!["LTFS: 否（无法浏览）"]
    );
}

#[test]
fn a_write_is_followed_file_by_file() {
    let texts = SampleTexts {
        elapsed: "1.0".into(),
        speed: "2.0".into(),
        worst: "-3.00".into(),
    };
    let event = |completed: usize| WriteEvent {
        phase: WritePhase::WritingData,
        current_file: Some("/a".into()),
        files_completed: completed,
        files_total: 2,
        bytes_written: 5,
        bytes_total: 9,
        partition: None,
        logical_block: None,
        telemetry: None,
        performance: None,
        failure: None,
    };
    let mut watch = WriteWatch { last_completed: 0 };
    assert_eq!(watch.observe(&event(0), &texts).lines, vec!["写入文件 1/2: /a"]);
    assert_eq!(
        watch.observe(&event(1), &texts).lines,
        vec!["  已完成 1/2（5/9 字节）"]
    );
    assert_eq!(watch.observe(&event(1), &texts).lines, vec!["写入文件 2/2: /a"]);
    let mut done = event(2);
    done.phase = WritePhase::Completed;
    assert_eq!(watch.observe(&done, &texts).lines, vec!["写入会话已安全完成。"]);
    assert_eq!(watch.last_completed, 1);
}

fn health() -> DriveHealth {
    DriveHealth {
        write_errors: None,
        read_errors: None,
        tape_alerts: Vec::new(),
        write_channels: None,
        read_channels: None,
        warnings: vec!["w".into()],
    }
}

#[test]
fn results_tell_how_the_drive_fared() {
    let result = WriteResult {
        bytes: 10,
        files: 1,
        directories: 2,
        file_uid: 3,
        generation: 4,
        data_start_block: 5,
        hashes: vec![FileHash {
            path: "/a".into(),
            sha256: "00".into(),
        }],
        verification: WriteVerification::ReadBackSha256,
        health_before: health(),
        health_after: health(),
        health_delta: DriveHealthDelta {
            corrected_write_errors: Some(1),
            hard_write_errors: None,
            corrected_read_errors: None,
            hard_read_errors: None,
            active_tape_alerts: vec![4],
            write_channel_rates: vec![
                ChannelRate {
                    channel: 0,
                    log10_bit_error_rate: Some(-5),
                    ccp_advanced: true,
                },
                ChannelRate {
                    channel: 1,
                    log10_bit_error_rate: None,
                    ccp_advanced: false,
                },
            ],
            worst_write_channel_rate: Some(-5),
        },
        telemetry_history: Vec::new(),
        session_worst_channel_rate: None,
        telemetry_warnings: vec!["p".into()],
    };
    let texts = ResultTexts {
        rates: vec!["-1.00".into(), "?".into()],
        worst: "-1.00".into(),
        session_worst: String::new(),
        session_elapsed: String::new(),
    };
    let lines: Vec<String> = describe_result("/t", &result, &texts).lines.iter().map(shown).collect();
    assert_eq!(
        lines,
        vec![
            "out 已写入 1 个文件 / 2 个目录 / 10 字节 -> /t (highest uid 3, index gen 4)",
            "out SHA-256 00  /a",
            "out 写后回读校验通过。",
            "out 本次设备计数变化: corrected-write=1 hard-write=n/a corrected-read=n/a hard-read=n/a",
            "out   Channel 0: -1.00",
            "out   Channel 1: n/a",
            "out LTFSCopyGUI 最大通道错误率指数: -1.00",
            "err 警告: 写入完成时存在 TapeAlert flags: 4",
            "err 遥测警告: w",
            "err 遥测警告: w",
            "err 周期遥测警告: p",
            "out 通道错误率历史: 0 samples（容量 120，默认显示 60）",
        ]
    );
}

#[test]
fn erases_are_told() {
    assert_eq!(
        erase_warning(&drive(), EraseMode::Long),
        "警告：正在对 /dev/sg1 中的磁带执行 long erase，现有数据将被销毁"
    );
    let event = EraseEvent {
        phase: ErasePhase::Erasing,
        progress: Some(1),
        message: "m".into(),
    };
    assert_eq!(line_of_erase(&event, "12.5"), "[Erasing] m（12.5%）");
    let result = EraseResult {
        mode: EraseMode::Short,
        elapsed_seconds: 7,
    };
    assert_eq!(erase_outcome(&result), "short erase 完成，耗时 7 秒");
}
