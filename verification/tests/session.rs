use tapecpy::device::command::{
    command_block, diagnostic_block, log_sense_block, sent_bytes,
};
use tapecpy::device::media::{inspect_media, presence_of};
use tapecpy::device::scsi::{MamAttributeRecord, ScsiResult, TapePosition};
use tapecpy::device::session::{
    ScsiAnswer, ScsiCommand, ScsiKind, ScsiReply, TapeAction, TapeSession, TapeValue,
};
use tapecpy::device::tape::{LongEraseStatus, MamAttributeFormat, ReadRecord, READ_BUF_LEN};
use tapecpy::device::{Error, MediaPresence};

fn good(data: Vec<u8>) -> ScsiReply {
    answer(0, 0, Vec::new(), data)
}

fn answer(status: u8, resid: i32, sense: Vec<u8>, data: Vec<u8>) -> ScsiReply {
    Ok(ScsiAnswer {
        result: ScsiResult {
            status,
            host_status: 0,
            driver_status: 0,
            resid,
            sense,
        },
        data,
    })
}

fn kind(action: &TapeAction) -> ScsiKind {
    match action {
        TapeAction::Command(command) => command.kind,
        other => panic!("no command: {other:?}"),
    }
}

fn position(partition: u8, block: u8) -> Vec<u8> {
    let mut data = vec![0u8; 32];
    data[7] = partition;
    data[15] = block;
    data
}

#[test]
fn variable_blocks_keep_the_density() {
    let mut session = TapeSession::open("/dev/sg1");
    assert_eq!(session.path(), "/dev/sg1");
    let action = session.set_variable_block();
    assert_eq!(kind(&action), ScsiKind::ModeSense { page: 0, len: 12 });
    let mut page = vec![0u8; 12];
    page[3] = 8;
    page[4] = 0x58;
    let action = session.next(good(page));
    assert_eq!(
        action,
        TapeAction::Command(ScsiCommand {
            kind: ScsiKind::ModeSelect6,
            data: vec![0, 0, 0x10, 8, 0x58, 0, 0, 0, 0, 0, 0, 0],
        })
    );
    assert_eq!(
        session.next(good(Vec::new())),
        TapeAction::Finished(TapeValue::Done)
    );
}

#[test]
fn append_only_mode_is_switched_off_between_unload_and_load() {
    let mut session = TapeSession::open("/dev/sg1");
    session.ensure_write_anywhere();
    assert_eq!(
        session.next(good(vec![0u8; 48])),
        TapeAction::Finished(TapeValue::Done)
    );
    session.ensure_write_anywhere();
    let mut page = vec![0u8; 48];
    page[0] = 1;
    page[16] = 0x90;
    page[21] = 0x1f;
    let action = session.next(good(page));
    assert_eq!(kind(&action), ScsiKind::StartStop { load: false });
    let action = session.next(good(Vec::new()));
    let TapeAction::Command(command) = action else {
        panic!("expected MODE SELECT")
    };
    assert_eq!(command.kind, ScsiKind::ModeSelect10);
    assert_eq!(
        (command.data[0], command.data[16], command.data[21]),
        (0, 0x10, 0x0f)
    );
    let action = session.next(good(Vec::new()));
    assert_eq!(kind(&action), ScsiKind::StartStop { load: true });
    let action = session.next(good(Vec::new()));
    assert_eq!(kind(&action), ScsiKind::ModeSense { page: 0, len: 12 });
}

#[test]
fn a_drive_without_extra_partitions_is_not_formatted() {
    let mut session = TapeSession::open("/dev/sg1");
    assert_eq!(
        kind(&session.format_ltfs_partitions()),
        ScsiKind::StartStop { load: true }
    );
    assert_eq!(
        kind(&session.next(good(Vec::new()))),
        ScsiKind::ModeSense10 {
            page: 0x11,
            subpage: 0,
            len: 28
        }
    );
    let mut page = vec![0u8; 28];
    page[16] = 0x11;
    assert_eq!(
        session.next(good(page.clone())),
        TapeAction::Failed(Error::Protocol(
            "驱动器不支持创建 LTFS 所需的额外分区".into()
        ))
    );
    page[18] = 1;
    session.create_minimum_erase_partition();
    session.next(good(Vec::new()));
    let TapeAction::Command(command) = session.next(good(page)) else {
        panic!("expected MODE SELECT")
    };
    assert_eq!(command.data.len(), 28);
    assert_eq!(&command.data[24..28], [0, 1, 0xff, 0xff]);
    assert_eq!(
        kind(&session.next(good(Vec::new()))),
        ScsiKind::FormatMedium { layout: 1 }
    );
    assert_eq!(
        session.next(good(Vec::new())),
        TapeAction::Finished(TapeValue::Done)
    );
}

#[test]
fn locate_changes_the_partition_only_where_needed() {
    let mut session = TapeSession::open("/dev/sg1");
    assert_eq!(
        kind(&session.locate(1, 7)),
        ScsiKind::Locate {
            partition: 1,
            block: 7,
            change: true
        }
    );
    assert_eq!(
        kind(&session.next(good(Vec::new()))),
        ScsiKind::ReadPosition { len: 32 }
    );
    assert_eq!(
        session.next(good(position(1, 7))),
        TapeAction::Finished(TapeValue::Done)
    );
    assert_eq!(
        kind(&session.locate(1, 9)),
        ScsiKind::Locate {
            partition: 1,
            block: 9,
            change: false
        }
    );
    session.remove_partitions();
    session.next(good(Vec::new()));
    assert_eq!(
        kind(&session.locate(1, 9)),
        ScsiKind::Locate {
            partition: 1,
            block: 9,
            change: true
        }
    );
    session.read_position();
    assert_eq!(
        session.next(good(position(0, 3))),
        TapeAction::Finished(TapeValue::Position(TapePosition {
            partition: 0,
            block: 3
        }))
    );
    session.space_to_eod();
    session.next(good(Vec::new()));
    assert_eq!(
        session.next(good(position(1, 4))),
        TapeAction::Finished(TapeValue::Block(4))
    );
}

#[test]
fn records_marks_and_the_end_are_told_apart() {
    let mut session = TapeSession::open("/dev/sg1");
    session.read_record();
    let reply = answer(0, READ_BUF_LEN as i32 - 3, Vec::new(), vec![7; READ_BUF_LEN]);
    assert_eq!(
        session.next(reply),
        TapeAction::Finished(TapeValue::Record(ReadRecord::Data(vec![7, 7, 7])))
    );
    for (flags, outcome) in [(0x80u8, ReadRecord::Filemark), (0x08, ReadRecord::Eod)] {
        let mut sense = vec![0u8; 18];
        sense[0] = 0x70;
        sense[2] = flags;
        session.read_record();
        let reply = answer(2, 0, sense, vec![0; READ_BUF_LEN]);
        assert_eq!(
            session.next(reply),
            TapeAction::Finished(TapeValue::Record(outcome))
        );
    }
    let mut sense = vec![0u8; 18];
    sense[0] = 0x70;
    sense[2] = 0x20;
    session.read_record();
    let TapeAction::Failed(error) =
        session.next(answer(2, READ_BUF_LEN as i32, sense, vec![0; READ_BUF_LEN]))
    else {
        panic!("expected an error")
    };
    assert!(error.text().starts_with("/dev/sg1 (READ（记录超过缓冲区）): SCSI status=0x02"));
}

#[test]
fn refusals_name_the_step() {
    let mut session = TapeSession::open("/dev/sg1");
    session.rewind();
    let TapeAction::Failed(error) = session.next(answer(2, 0, vec![0x70], Vec::new())) else {
        panic!("expected an error")
    };
    assert_eq!(
        error.text(),
        "/dev/sg1 (REWIND): SCSI status=0x02 host=0x0000 driver=0x0000 sense=[70]"
    );
    session.read_mam_attributes(1);
    let TapeAction::Failed(error) = session.next(Err("gone".into())) else {
        panic!("expected an error")
    };
    assert_eq!(error.text(), "从 /dev/sg1 读取 partition 1 MAM 列表失败: gone");
}

#[test]
fn attributes_are_written_and_read() {
    let mut session = TapeSession::open("/dev/sg1");
    let action = session.write_mam_attribute(1, 0x080c, MamAttributeFormat::Ascii, &[1, 2]);
    assert_eq!(
        action,
        TapeAction::Command(ScsiCommand {
            kind: ScsiKind::WriteAttribute { partition: 1 },
            data: vec![0x08, 0x0c, 1, 0, 2, 1, 2],
        })
    );
    let long = vec![0u8; 0x10000];
    assert_eq!(
        session.write_mam_attribute(1, 1, MamAttributeFormat::Text, &long),
        TapeAction::Failed(Error::Protocol("MAM attribute value 过长".into()))
    );
    let mut data = vec![0u8; 512];
    data[4..11].copy_from_slice(&[0x08, 0x0c, 1, 0, 2, 1, 2]);
    session.read_mam_attribute(0, 0x080c);
    assert_eq!(
        session.next(answer(0, 501, Vec::new(), data.clone())),
        TapeAction::Finished(TapeValue::Bytes(vec![1, 2]))
    );
    session.read_mam_attribute(0, 0x0801);
    assert_eq!(
        session.next(answer(0, 501, Vec::new(), data.clone())),
        TapeAction::Failed(Error::Protocol("MAM attribute 0x0801 不存在".into()))
    );
    data.resize(8192, 0);
    session.read_mam_attributes(0);
    assert_eq!(
        session.next(answer(0, 8192 - 11, Vec::new(), data)),
        TapeAction::Finished(TapeValue::Attributes(vec![MamAttributeRecord {
            id: 0x080c,
            format: 1,
            value: vec![1, 2],
        }]))
    );
}

#[test]
fn other_operations_send_their_commands() {
    let mut session = TapeSession::open("/dev/sg1");
    assert_eq!(
        kind(&session.short_erase()),
        ScsiKind::StartStop { load: true }
    );
    assert_eq!(kind(&session.next(good(Vec::new()))), ScsiKind::Rewind);
    session.next(good(Vec::new()));
    assert_eq!(
        kind(&session.next(good(position(0, 0)))),
        ScsiKind::Erase {
            long: false,
            immediate: false
        }
    );
    session.start_long_erase();
    session.next(good(Vec::new()));
    assert_eq!(
        kind(&session.next(good(position(0, 0)))),
        ScsiKind::Erase {
            long: true,
            immediate: true
        }
    );
    session.long_erase_status();
    assert_eq!(
        session.next(good(vec![0; 32])),
        TapeAction::Finished(TapeValue::Erase(LongEraseStatus::Complete))
    );
    assert_eq!(
        kind(&session.rethread()),
        ScsiKind::LoadUnload { action: 0x0a }
    );
    assert_eq!(
        kind(&session.next(good(Vec::new()))),
        ScsiKind::LoadUnload { action: 0x01 }
    );
    assert_eq!(
        kind(&session.unload()),
        ScsiKind::PreventRemoval { prevent: false }
    );
    assert_eq!(
        kind(&session.write_filemark()),
        ScsiKind::WriteFilemarks { count: 1 }
    );
    assert_eq!(
        kind(&session.flush()),
        ScsiKind::WriteFilemarks { count: 0 }
    );
    assert_eq!(
        session.write_record(vec![5]),
        TapeAction::Command(ScsiCommand {
            kind: ScsiKind::Write,
            data: vec![5],
        })
    );
    assert_eq!(ScsiKind::Read { len: 9 }.asks_for(), 9);
}

#[test]
fn command_blocks_hold_their_fields() {
    let read = ScsiKind::Read { len: READ_BUF_LEN };
    assert_eq!(command_block(read, 0), [0x08, 0, 0x10, 0, 0, 0]);
    let locate = ScsiKind::Locate {
        partition: 1,
        block: 0x0102,
        change: true,
    };
    assert_eq!(
        command_block(locate, 0),
        [0x92, 2, 0, 1, 0, 0, 0, 0, 0, 0, 1, 2, 0, 0, 0, 0]
    );
    assert_eq!(command_block(ScsiKind::Write, 3), [0x0a, 0, 0, 0, 3, 0]);
    let page = ScsiKind::ModeSense10 {
        page: 0x11,
        subpage: 0,
        len: 28,
    };
    assert_eq!(command_block(page, 0), [0x5a, 0, 0x11, 0, 0, 0, 0, 0, 28, 0]);
    let attribute = ScsiKind::WriteAttribute { partition: 1 };
    let sent = sent_bytes(attribute, vec![9, 9]);
    assert_eq!(sent, [0, 0, 0, 2, 9, 9]);
    assert_eq!(command_block(attribute, sent.len())[10..14], [0, 0, 0, 6]);
    assert_eq!(sent_bytes(ScsiKind::Write, vec![9]), [9]);
    assert_eq!(
        log_sense_block(0x2e, 0xffff),
        [0x4d, 0, 0x6e, 0, 0, 0, 0, 0xff, 0xff, 0]
    );
    assert_eq!(diagnostic_block(0x88, 4), [0x1c, 1, 0x88, 0, 4, 0]);
    let erase = ScsiKind::Erase {
        long: true,
        immediate: true,
    };
    assert_eq!(command_block(erase, 0), [0x19, 3, 0, 0, 0, 0]);
}

fn ready(status: u8, sense: Vec<u8>) -> ScsiResult {
    ScsiResult {
        status,
        host_status: 0,
        driver_status: 0,
        resid: 0,
        sense,
    }
}

#[test]
fn cartridges_are_seen_by_their_answers() {
    let sense = |key: u8, asc: u8| {
        let mut sense = vec![0u8; 18];
        sense[0] = 0x70;
        sense[2] = key;
        sense[12] = asc;
        sense
    };
    assert_eq!(presence_of(&ready(0, Vec::new())), MediaPresence::Loaded);
    assert_eq!(
        presence_of(&ready(2, sense(2, 0x3a))),
        MediaPresence::NotLoaded
    );
    assert_eq!(presence_of(&ready(2, sense(2, 4))), MediaPresence::NotReady);
    assert_eq!(presence_of(&ready(2, Vec::new())), MediaPresence::Unknown);
    let memory = vec![
        MamAttributeRecord {
            id: 0x0806,
            format: 1,
            value: b"ABC123 ".to_vec(),
        },
        MamAttributeRecord {
            id: 0x0000,
            format: 0,
            value: vec![0, 0, 0, 0, 0, 0, 1, 2],
        },
    ];
    let media = inspect_media(&ready(0, Vec::new()), None, Some(0x58), Some(memory));
    let mam = media.mam.unwrap();
    assert_eq!(mam.barcode.as_deref(), Some("ABC123"));
    assert_eq!(mam.remaining_capacity_mib, Some(258));
    assert_eq!(mam.load_count, None);
}
