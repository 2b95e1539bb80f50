use tapecpy::device::channel_error::{
    deltas, parse_page as parse_channels, worst_rate, ChannelCounters, ChannelRate, PageKind,
    RateSource, RATE_FLOOR, RATE_NEGATIVE_INFINITY, RATE_ZERO,
};
use tapecpy::device::density::{density_name, density_table, lto_generation_suffix};
use tapecpy::device::lease::{busy_message, lock_name, safe_serial, LeaseOwner};
use tapecpy::device::log::{active_tape_alerts, error_counters, parse_page, ParseError};
use tapecpy::device::mtio::{
    mt_ioctl_get, TapeStatus, GMT_IM_REP_EN, GMT_ONLINE, GMT_WR_PROT,
};
use tapecpy::device::scsi::{
    ascii_field, inquiry_cdb, parse_mam_attributes, parse_read_position, parse_sense, parse_serial,
    parse_standard_inquiry,
};
use tapecpy::device::sysfs::{
    enumerate_tape_bases, find_sg_for_tape, is_base_nst, scsi_device_dir_from_path, ClassEntry,
};
use tapecpy::device::tape::{
    classify_long_erase_sense, configure_ltfs_partition_page, mam_descriptor, LongEraseStatus,
    MamAttributeFormat,
};
use tapecpy::device::Error;

/// The ordering key of a floating point number.
fn key(value: f64) -> i64 {
    let bits = value.to_bits() as i64;
    bits ^ ((((bits >> 63) as u64) >> 1) as i64)
}

fn rates(before: &Vec<ChannelCounters>, after: &Vec<ChannelCounters>) -> Vec<ChannelRate> {
    deltas(before, after)
        .iter()
        .map(|delta| ChannelRate {
            channel: delta.channel,
            log10_bit_error_rate: match delta.source {
                RateSource::Measured { c1, ccps } => {
                    Some(key(((c1 as f64) / (ccps as f64) / 2.0 / 1920.0).log10()))
                }
                RateSource::Idle => Some(key(-2.98)),
                RateSource::Unknown => None,
            },
            ccp_advanced: delta.ccp_advanced,
        })
        .collect()
}

#[test]
fn parses_and_calculates_gui_compatible_rate() {
    let body = b"7\r\n2B5\r\n0\r\n0\r\n0000000A\t0\t0\t0\t00000558\r\n";
    let mut page = vec![0x88, 0, 0, body.len() as u8];
    page.extend_from_slice(body);
    let before = parse_channels(&page, PageKind::Write).unwrap();
    let mut after = before.clone();
    after[0].c1_errors += 10;
    after[0].ccps += 100;
    let result = rates(&before, &after);
    let expected = (10.0_f64 / 100.0 / 2.0 / 1920.0).log10();
    assert_eq!(result[0].log10_bit_error_rate, Some(key(expected)));
    assert!(result[0].ccp_advanced);
    assert_eq!(worst_rate(&result), result[0].log10_bit_error_rate);
}

#[test]
fn matches_gui_null_channel_and_zero_error_rules() {
    let before = vec![ChannelCounters::default(), ChannelCounters::default()];
    let mut after = before.clone();
    after[0].ccps = 10;
    let result = rates(&before, &after);
    assert_eq!(result[0].log10_bit_error_rate, Some(key(f64::NEG_INFINITY)));
    assert_eq!(result[1].log10_bit_error_rate, Some(key(-2.98)));
    assert_eq!(worst_rate(&result), Some(key(-2.98)));

    let no_progress = rates(&before, &before);
    assert_eq!(worst_rate(&no_progress), Some(key(0.0)));
}

#[test]
fn rate_keys_are_those_of_the_numbers() {
    assert_eq!(key(0.0), RATE_ZERO);
    assert_eq!(key(f64::NEG_INFINITY), RATE_NEGATIVE_INFINITY);
    assert_eq!(key(-10.0), RATE_FLOOR);
    assert!(key(-3.0) > key(-6.0));
    let low = [ChannelRate {
        channel: 0,
        log10_bit_error_rate: Some(key(-11.0)),
        ccp_advanced: true,
    }];
    assert_eq!(worst_rate(&low), Some(key(0.0)));
}

#[test]
fn known_lto_codes() {
    assert_eq!(density_name(0x58), Some("LTO-5"));
    assert_eq!(density_name(0x5a), Some("LTO-6"));
    assert_eq!(density_name(0x5c), Some("LTO-7"));
    assert_eq!(density_name(0x5e), Some("LTO-8"));
    assert_eq!(density_name(0x60), Some("LTO-9"));
}

#[test]
fn unknown_code_returns_none() {
    assert_eq!(density_name(0xfe), None);
    assert_eq!(density_name(0x00), Some("default"));
}

#[test]
fn lto_generation_suffix_mapping() {
    assert_eq!(lto_generation_suffix(0x58), Some("L5"));
    assert_eq!(lto_generation_suffix(0x5a), Some("L6"));
    assert_eq!(lto_generation_suffix(0x5c), Some("L7"));
    assert_eq!(lto_generation_suffix(0x5d), Some("M8"));
    assert_eq!(lto_generation_suffix(0x60), Some("L9"));
    assert_eq!(lto_generation_suffix(0x19), None);
}

#[test]
fn table_is_sorted_by_code() {
    let codes: Vec<u8> = density_table().iter().map(|(c, _)| *c).collect();
    let mut sorted = codes.clone();
    sorted.sort_unstable();
    assert_eq!(codes, sorted);
    assert!(codes.windows(2).all(|w| w[0] != w[1]), "代码不允许重复");
}

#[test]
fn lease_is_exclusive_and_reports_owner_metadata() {
    let first = LeaseOwner::job_runner("Write", "job-1");
    let error = busy_message("SERIAL/ONE", &first.metadata(1));
    assert!(error.contains("kind=job-runner"));
    assert!(error.contains("job=job-1"));
    assert_eq!(lock_name("SERIAL/ONE"), lock_name("SERIAL/ONE"));
    assert!(!safe_serial("SERIAL/ONE").contains('/'));
    assert_eq!(
        LeaseOwner::new("cli", "diagnose").metadata(42),
        "pid=42 kind=cli operation=diagnose"
    );
}

#[test]
fn parses_variable_length_parameters() {
    let page = [0x02, 0, 0, 13, 0, 3, 0, 4, 0, 0, 0, 7, 0, 6, 0, 1, 2];
    let parameters = parse_page(&page, 0x02).unwrap();
    assert_eq!(parameters.len(), 2);
    let counters = error_counters(&parameters);
    assert_eq!(counters.total_corrected, Some(7));
    assert_eq!(counters.uncorrected, Some(2));
}

#[test]
fn rejects_truncated_parameter() {
    let page = [0x2e, 0, 0, 5, 0, 1, 0, 2, 1];
    assert_eq!(
        parse_page(&page, 0x2e),
        Err(ParseError::TruncatedParameter { code: 1 })
    );
}

#[test]
fn log_pages_are_refused_for_each_reason() {
    assert_eq!(parse_page(&[0x02, 0], 0x02), Err(ParseError::TruncatedHeader));
    assert!(matches!(
        parse_page(&[0x03, 0, 0, 0], 0x02),
        Err(ParseError::WrongPage { .. })
    ));
    assert!(matches!(
        parse_page(&[0x02, 0, 0, 9, 1], 0x02),
        Err(ParseError::TruncatedPage { .. })
    ));
    let alerts = [0x2e, 0, 0, 10, 0, 3, 0, 1, 1, 0, 4, 0, 1, 0];
    assert_eq!(
        active_tape_alerts(&parse_page(&alerts, 0x2e).unwrap()),
        vec![3]
    );
}

#[test]
fn mtioctl_get_number_on_x86_64() {
    assert_eq!(mt_ioctl_get(48), 0x8030_6d02);
}

#[test]
fn decode_status_bits() {
    let s = TapeStatus {
        drive_type: 0x72,
        density_code: 0x58,
        block_size: 512,
        gstat: GMT_ONLINE | GMT_IM_REP_EN | GMT_WR_PROT,
        soft_errors: 3,
        file_no: 1,
        block_no: 42,
        partition: 0,
    };
    assert!(s.is_online());
    assert!(s.is_write_protected());
    assert!(!s.is_bot());
    assert!(!s.is_door_open());
}

#[test]
fn parse_standard_inquiry_response() {
    let mut buf = [b' '; 96];
    buf[0] = 0x00;
    buf[1] = 0x01;
    buf[8..16].copy_from_slice(b"QUANTUM ");
    buf[16..32].copy_from_slice(b"ULTRIUM 5       ");
    buf[32..36].copy_from_slice(b"3210");
    let (vendor, model, revision) = parse_standard_inquiry(&buf);
    assert_eq!(vendor, "QUANTUM");
    assert_eq!(model, "ULTRIUM 5");
    assert_eq!(revision, "3210");
}

#[test]
fn parse_serial_vpd() {
    let mut buf = vec![0u8; 256];
    buf[0] = 0x00;
    buf[1] = 0x80;
    buf[2] = 0x00;
    buf[3] = 10;
    buf[4..14].copy_from_slice(b"HU1340YHGE");
    assert_eq!(parse_serial(&buf), "HU1340YHGE");
}

#[test]
fn parse_serial_trims_trailing_spaces() {
    let mut buf = vec![0u8; 32];
    buf[1] = 0x80;
    buf[2] = 0x00;
    buf[3] = 8;
    buf[4..12].copy_from_slice(b"AB12    ");
    assert_eq!(parse_serial(&buf), "AB12");
}

#[test]
fn parse_wrong_page_returns_empty() {
    let mut buf = vec![0u8; 32];
    buf[1] = 0x83;
    assert_eq!(parse_serial(&buf), "");
}

#[test]
fn parse_inquiry_handles_nul_padding() {
    let mut buf = [0u8; 96];
    buf[8..12].copy_from_slice(b"TEST");
    let (vendor, model, _) = parse_standard_inquiry(&buf);
    assert_eq!(vendor, "TEST");
    assert_eq!(model, "");
}

#[test]
fn identity_bytes_are_read_as_latin_letters() {
    let mut buf = [b' '; 96];
    buf[8..11].copy_from_slice(&[b'A', 0xff, b'B']);
    let (vendor, _, _) = parse_standard_inquiry(&buf);
    assert_eq!(vendor, "A\u{ff}B");
}

#[test]
fn scsi_responses_are_decoded() {
    assert_eq!(inquiry_cdb(true, 0x80, 0x0102), [0x12, 1, 0x80, 1, 2, 0]);
    assert!(parse_sense(&[0u8; 4]).is_none());
    let mut sense = [0u8; 18];
    sense[0] = 0x70;
    sense[2] = 0x08;
    sense[12] = 0x00;
    sense[13] = 0x05;
    let parsed = parse_sense(&sense).unwrap();
    assert_eq!((parsed.key, parsed.asc, parsed.ascq), (0x08, 0x00, 0x05));
    assert!(parse_read_position(&[0u8; 4]).is_none());
    let attributes = [0, 0, 0, 7, 0x08, 0x06, 0x01, 0, 2, b'A', b'B'];
    let list = parse_mam_attributes(&attributes);
    assert_eq!(list.len(), 1);
    assert_eq!(list[0].id, 0x0806);
    assert_eq!(list[0].value, b"AB");
}

#[test]
fn scsi_device_dir_extraction() {
    let p = "/sys/devices/pci0000:00/0000:00:01.0/host6/target6:0:0/6:0:0:0/scsi_tape/nst0";
    assert_eq!(
        scsi_device_dir_from_path(p).unwrap(),
        "/sys/devices/pci0000:00/0000:00:01.0/host6/target6:0:0/6:0:0:0"
    );
    assert_eq!(scsi_device_dir_from_path("/sys/class/scsi_tape/nst0"), None);
}

#[test]
fn enumerate_and_match_fake_sysfs() {
    let names = ["nst0", "nst0a", "nst0l", "nst0m", "st0"];
    let bases = enumerate_tape_bases(names.iter().map(|n| n.to_string()).collect());
    assert_eq!(bases, vec!["nst0".to_string()]);
    let tape = Some("/sys/devices/test/6:0:0:0/scsi_tape/nst0".to_string());
    let entries = vec![ClassEntry {
        name: "sg1".into(),
        resolved: Some("/sys/devices/test/6:0:0:0/scsi_generic/sg1".into()),
    }];
    assert_eq!(find_sg_for_tape(&tape, &entries).as_deref(), Some("sg1"));
}

#[test]
fn unmatched_sg_is_ignored() {
    let tape = Some("/sys/devices/test/6:0:0:0/scsi_tape/nst0".to_string());
    let entries = vec![ClassEntry {
        name: "sg0".into(),
        resolved: Some("/sys/devices/ata/0:0:0:0/scsi_generic/sg0".into()),
    }];
    assert_eq!(
        enumerate_tape_bases(vec!["nst0".to_string()]),
        vec!["nst0".to_string()]
    );
    assert_eq!(find_sg_for_tape(&tape, &entries), None);
}

#[test]
fn base_nst_name_rule() {
    assert!(is_base_nst("nst0"));
    assert!(is_base_nst("nst12"));
    assert!(!is_base_nst("nst0a"));
    assert!(!is_base_nst("st0"));
    assert!(!is_base_nst("nst"));
}

#[test]
fn configures_openltfs_compatible_partition_page() {
    let mut page = vec![0u8; 28];
    page[16] = 0x91;
    page[17] = 0x0a;
    page[18] = 1;
    configure_ltfs_partition_page(&mut page).unwrap();
    assert_eq!(page[16], 0x11);
    assert_eq!(page[19], 1);
    assert_eq!(page[20] & 0xe0, 0x20);
    assert_eq!(&page[24..28], &[0, 1, 0xff, 0xff]);
}

#[test]
fn rejects_drive_without_extra_partition_support() {
    let mut page = vec![0u8; 28];
    page[16] = 0x11;
    assert!(configure_ltfs_partition_page(&mut page).is_err());
}

#[test]
fn classifies_long_erase_progress_and_completion() {
    let mut active = [0u8; 32];
    active[0] = 0x70;
    active[2] = 0x02;
    active[12] = 0x00;
    active[13] = 0x18;
    active[16] = 0x12;
    active[17] = 0x34;
    assert_eq!(
        classify_long_erase_sense(&active).unwrap(),
        LongEraseStatus::InProgress {
            progress: Some(0x1234)
        }
    );

    let complete = [0u8; 32];
    assert_eq!(
        classify_long_erase_sense(&complete).unwrap(),
        LongEraseStatus::Complete
    );
}

#[test]
fn device_errors_are_told_in_words() {
    let io = Error::Io {
        context: "open /dev/sg1".into(),
        source: "denied".into(),
    };
    assert_eq!(io.text(), "open /dev/sg1: denied");
    let scsi = Error::Scsi {
        device: "/dev/sg1".into(),
        status: 2,
        host_status: 0,
        driver_status: 8,
        sense: vec![0x70, 0, 8],
    };
    assert!(scsi.text().starts_with("/dev/sg1: SCSI status=0x02 host=0x0000"));
    let value = vec![1u8; 70000];
    assert!(mam_descriptor(0x080c, MamAttributeFormat::Binary, &value).is_err());
}

#[test]
fn text_fields_lose_trailing_blanks_only() {
    assert_eq!(ascii_field(b" AB \0C"), " AB");
    let mut buf = [b' '; 96];
    buf[9..11].copy_from_slice(b"AB");
    assert_eq!(parse_standard_inquiry(&buf).0, " AB");
}
