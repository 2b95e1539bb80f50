use tapecpy::app::erase::EraseMode;
use tapecpy::app::volume::VolumeInfo;
use tapecpy::app::write_state::WriteFailpoint;
use tapecpy::cli::{
    describe_volume, display_counter, display_dir_name, hex_compact, looks_like_selector,
    parse_byte_size, parse_diagnose, parse_erase, parse_format, parse_read, parse_write,
    parse_write_random, status_flags,
};
use tapecpy::device::mtio::{TapeStatus, GMT_BOT, GMT_EOD};
use tapecpy::ltfs::index::Directory;

fn args(list: &[&str]) -> Vec<String> {
    list.iter().map(|text| text.to_string()).collect()
}

#[test]
fn sizes_take_units_in_any_case() {
    assert_eq!(parse_byte_size("80GiB"), Ok(80 * 1024 * 1024 * 1024));
    assert_eq!(parse_byte_size("3mb"), Ok(3_000_000));
    assert_eq!(parse_byte_size("17"), Ok(17));
    assert_eq!(parse_byte_size("17B"), Ok(17));
    assert_eq!(parse_byte_size("x"), Err("无效大小: x".into()));
    assert_eq!(parse_byte_size("1 GiB"), Err("不支持的大小单位: 1 GiB".into()));
    assert_eq!(
        parse_byte_size("99999999999GiB"),
        Err("大小溢出: 99999999999GiB".into())
    );
}

#[test]
fn reads_take_a_drive_and_an_output() {
    let read = parse_read(&args(&["/dev/nst0", "/a", "-o", "out"])).unwrap();
    assert_eq!(read.selector.as_deref(), Some("/dev/nst0"));
    assert_eq!(read.path, "/a");
    assert_eq!(read.output.as_deref(), Some("out"));
    let read = parse_read(&args(&["1"])).unwrap();
    assert_eq!((read.selector, read.path.as_str()), (None, "1"));
    assert!(parse_read(&args(&["/a", "--output"])).unwrap().output.is_none());
    assert!(parse_read(&Vec::new()).is_err());
    assert!(looks_like_selector("12"));
    assert!(!looks_like_selector("/a"));
}

#[test]
fn writes_take_two_paths() {
    let write = parse_write(&args(&["a", "--read-back-verify", "/b", "2"])).unwrap();
    assert!(write.read_back_verify);
    assert_eq!((write.local.as_str(), write.tape_path.as_str()), ("a", "/b"));
    assert_eq!(write.selector.as_deref(), Some("2"));
    assert!(parse_write(&args(&["a"])).is_err());
}

#[test]
fn random_writes_take_options_anywhere() {
    let random = parse_write_random(&args(&[
        "--seed=5",
        "1MiB",
        "--failpoint=before-verify",
        "/r",
    ]))
    .unwrap();
    assert_eq!((random.size, random.seed), (1048576, Some(5)));
    assert_eq!(random.failpoint, Some(WriteFailpoint::BeforeVerify));
    assert_eq!(random.cancelpoint, None);
    assert_eq!(
        parse_write_random(&args(&["--seed=x", "1", "/r"])),
        Err("无效 seed: x".into())
    );
    assert!(parse_write_random(&args(&["--cancelpoint=never", "1", "/r"])).is_err());
    assert_eq!(
        parse_write_random(&args(&["0", "/r"])),
        Err("随机流大小必须大于 0".into())
    );
}

#[test]
fn destruction_has_to_be_forced() {
    assert!(parse_format(&args(&["E6008A", "name"])).unwrap_err().contains("--force"));
    let format = parse_format(&args(&["E6008A", "--force", "name"])).unwrap();
    assert_eq!(format.options.volume_name, "name");
    assert!(parse_format(&args(&["bad", "name", "--force"])).is_err());
    assert!(parse_erase(&args(&["short"])).unwrap_err().contains("--force"));
    let erase = parse_erase(&args(&["minimum-long", "1", "--force"])).unwrap();
    assert_eq!(erase.mode, EraseMode::MinimumPartitionLong);
    assert_eq!(erase.selector.as_deref(), Some("1"));
    assert!(parse_erase(&args(&["fast", "--force"])).unwrap_err().contains("`fast`"));
    assert_eq!(
        parse_diagnose(&args(&["--full", "2"])),
        (Some("2".into()), true)
    );
}

#[test]
fn results_are_told_in_words() {
    assert_eq!(hex_compact(&[0x0a, 0xff]), "0AFF");
    assert_eq!(display_counter(None), "n/a");
    assert_eq!(display_counter(Some(3)), "3");
    let status = TapeStatus {
        drive_type: 0,
        density_code: 0,
        block_size: 0,
        gstat: GMT_BOT | GMT_EOD,
        soft_errors: 0,
        file_no: 0,
        block_no: 0,
        partition: 0,
    };
    assert_eq!(status_flags(&status), "BOT EOD");
    let root = Directory {
        name: "vol".into(),
        ..Default::default()
    };
    assert_eq!(display_dir_name(&root, "/"), "vol/");
    assert_eq!(display_dir_name(&root, "/a"), "/a/");
    let unknown = VolumeInfo {
        reason: Some("blank".into()),
        warnings: vec!["w".into()],
        ..Default::default()
    };
    assert_eq!(
        describe_volume(&unknown).lines,
        vec!["LTFS: 否", "  原因: blank", "  警告: w"]
    );
}
