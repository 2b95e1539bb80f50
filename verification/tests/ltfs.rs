use tapecpy::ltfs::index::{Index, TapePos};
use tapecpy::ltfs::index_xml::IndexError;
use tapecpy::ltfs::label::{AnsiLabel, Label, LabelError};
use tapecpy::ltfs::mam::{
    format_host_attributes, VolumeCoherencyInformation, APPLICATION_NAME,
    MEDIUM_GLOBALLY_UNIQUE_IDENTIFIER, USER_MEDIUM_TEXT_LABEL,
};
use tapecpy::ltfs::scan::{find_latest_index, ScanRecord};
use tapecpy::ltfs::validate::validate_xml_document;
use tapecpy::ltfs::xml::{attribute_value, validate_xml_attributes, XmlItem};

const INDEX_XML: &str = r#"<?xml version="1.0" encoding="UTF-8"?>
<ltfsindex version="2.4.0">
  <creator>IBM LTFS 2.4.8.4 (IBM LTFS)</creator>
  <volumeuuid>c72c9917-cf2e-4873-8b64-9ac05b2f324c</volumeuuid>
  <generationnumber>2</generationnumber>
  <updatetime>2026-06-18T11:28:00.0000000+00:00</updatetime>
  <location>
    <partition>a</partition>
    <startblock>5</startblock>
  </location>
  <previousgenerationlocation>
    <partition>a</partition>
    <startblock>4</startblock>
  </previousgenerationlocation>
  <allowpolicyupdate>false</allowpolicyupdate>
  <highestfileuid>4</highestfileuid>
  <volumelockstate>unlocked</volumelockstate>
  <directory>
    <name>/</name>
    <fileuid>1</fileuid>
    <contents>
      <file>
        <name>notes.txt</name>
        <fileuid>2</fileuid>
        <length>1024</length>
        <creationtime>2026-06-18T11:28:00.0000000+00:00</creationtime>
        <changetime>2026-06-18T11:28:00.0000000+00:00</changetime>
        <extentinfo>
          <extent>
            <fileoffset>0</fileoffset>
            <byteoffset>0</byteoffset>
            <bytecount>1024</bytecount>
            <partition>b</partition>
          </extent>
        </extentinfo>
      </file>
      <directory>
        <name>sub</name>
        <fileuid>3</fileuid>
        <contents>
          <file>
            <name>inner.bin</name>
            <fileuid>4</fileuid>
            <length>2048</length>
          </file>
        </contents>
      </directory>
      <symlink>
        <name>link</name>
        <target>/notes.txt</target>
      </symlink>
    </contents>
  </directory>
</ltfsindex>"#;

const REAL_INDEX_XML: &str = r#"<?xml version="1.0" encoding="UTF-8"?>
<ltfsindex version="2.4.0">
<creator>IBM LTFS 2.4.8.4 (Prelim) - Linux - mkltfs - Format</creator>
<volumeuuid>0cc710d4-bc2f-4c54-823e-a44413987f5d</volumeuuid>
<generationnumber>1</generationnumber>
<updatetime>2026-08-09T09:29:32.530506355Z</updatetime>
<location>
<partition>a</partition>
<startblock>5</startblock>
</location>
<previousgenerationlocation>
<partition>b</partition>
<startblock>5</startblock>
</previousgenerationlocation>
<allowpolicyupdate>true</allowpolicyupdate>
<highestfileuid>1</highestfileuid>
<volumelockstate>unlocked</volumelockstate>
<directory>
<name>tapecpy M2 test</name>
<readonly>false</readonly>
<creationtime>2026-08-09T09:29:05.552272521Z</creationtime>
<changetime>2026-08-09T09:29:05.552272521Z</changetime>
<modifytime>2026-08-09T09:29:05.552272521Z</modifytime>
<accesstime>2026-08-09T09:29:05.552272521Z</accesstime>
<backuptime>2026-08-09T09:29:05.552272521Z</backuptime>
<fileuid>1</fileuid>
<contents/>
</directory>
</ltfsindex>"#;

#[test]
fn parse_index_xml() {
    let idx = Index::parse_xml(INDEX_XML).unwrap();
    assert_eq!(idx.version, "2.4.0");
    assert_eq!(idx.volume_name.as_deref(), Some("/"));
    assert_eq!(idx.generation, 2);
    assert_eq!(idx.self_location, TapePos { partition: 0, startblock: 5 });
    assert_eq!(
        idx.previous_location,
        Some(TapePos { partition: 0, startblock: 4 })
    );
    assert!(!idx.allow_policy_update);
    assert_eq!(idx.volume_lock_state.as_deref(), Some("unlocked"));
    assert_eq!(idx.highest_file_uid, Some(4));
    assert_eq!(idx.file_count, 3); // notes.txt + inner.bin + symlink
    assert_eq!(idx.directory_count, 1); // 子目录 sub，不含根
}

#[test]
fn index_xml_rejects_wrong_top_tag() {
    let xml = INDEX_XML.replace("<ltfsindex", "<notindex");
    assert!(Index::parse_xml(&xml).is_err());
}

#[test]
fn index_xml_missing_generation() {
    let xml = INDEX_XML.replace("<generationnumber>2</generationnumber>", "");
    assert_eq!(
        Index::parse_xml(&xml),
        Err(IndexError::MissingField("generationnumber"))
    );
}

#[test]
fn index_xml_without_previous_location() {
    let xml = INDEX_XML.replace(
        "<previousgenerationlocation>\n    <partition>a</partition>\n    <startblock>4</startblock>\n  </previousgenerationlocation>\n",
        "",
    );
    let idx = Index::parse_xml(&xml).unwrap();
    assert_eq!(idx.previous_location, None);
}

#[test]
fn index_xml_empty_directory() {
    let xml = INDEX_XML.replace(
        "<file>\n        <name>notes.txt</name>\n        <fileuid>2</fileuid>\n        <length>1024</length>\n        <creationtime>2026-06-18T11:28:00.0000000+00:00</creationtime>\n        <changetime>2026-06-18T11:28:00.0000000+00:00</changetime>\n        <extentinfo>\n          <extent>\n            <fileoffset>0</fileoffset>\n            <byteoffset>0</byteoffset>\n            <bytecount>1024</bytecount>\n            <partition>b</partition>\n          </extent>\n        </extentinfo>\n      </file>\n",
        "",
    );
    let idx = Index::parse_xml(&xml).unwrap();
    assert_eq!(idx.file_count, 2);
}

#[test]
fn parse_real_mkltfs_index() {
    let idx = Index::parse_xml(REAL_INDEX_XML).unwrap();
    assert_eq!(idx.volume_name.as_deref(), Some("tapecpy M2 test"));
    assert_eq!(idx.creator, "IBM LTFS 2.4.8.4 (Prelim) - Linux - mkltfs - Format");
    assert_eq!(idx.volume_uuid, "0cc710d4-bc2f-4c54-823e-a44413987f5d");
    assert_eq!(idx.generation, 1);
    assert_eq!(idx.self_location, TapePos { partition: 0, startblock: 5 });
    assert_eq!(
        idx.previous_location,
        Some(TapePos { partition: 1, startblock: 5 })
    );
    assert!(idx.allow_policy_update);
    assert_eq!(idx.highest_file_uid, Some(1));
    assert_eq!(idx.volume_lock_state.as_deref(), Some("unlocked"));
    assert_eq!(idx.file_count, 0);
    assert_eq!(idx.directory_count, 0);
}

const LABEL_XML: &str = r#"<?xml version="1.0" encoding="UTF-8"?>
<ltfslabel version="2.4.0">
  <creator>IBM LTFS 2.4.8.4 (IBM LTFS)</creator>
  <formattime>2014-10-10T10:10:10.0000000+00:00</formattime>
  <volumeuuid>c72c9917-cf2e-4873-8b64-9ac05b2f324c</volumeuuid>
  <location>
    <partition>a</partition>
  </location>
  <partitions>
    <index>a</index>
    <data>b</data>
  </partitions>
  <blocksize>524288</blocksize>
  <compression>false</compression>
</ltfslabel>"#;

const REAL_LABEL_XML: &str = r#"<?xml version="1.0" encoding="UTF-8"?>
<ltfslabel version="2.4.0">
    <creator>IBM LTFS 2.4.8.4 (Prelim) - Linux - mkltfs</creator>
    <formattime>2026-08-09T09:29:05.552272521Z</formattime>
    <volumeuuid>0cc710d4-bc2f-4c54-823e-a44413987f5d</volumeuuid>
    <location>
        <partition>a</partition>
    </location>
    <partitions>
        <index>a</index>
        <data>b</data>
    </partitions>
    <blocksize>524288</blocksize>
    <compression>true</compression>
</ltfslabel>"#;

#[test]
fn parse_ansi_label() {
    let mut buf = [b' '; 80];
    buf[..4].copy_from_slice(b"VOL1");
    buf[4..10].copy_from_slice(b"E6008A");
    buf[24..28].copy_from_slice(b"LTFS");
    let label = AnsiLabel::parse(&buf).unwrap();
    assert_eq!(label.barcode, "E6008A");
}

#[test]
fn ansi_label_rejects_non_ltfs_signature() {
    let mut buf = [b' '; 80];
    buf[..4].copy_from_slice(b"VOL1");
    buf[24..28].copy_from_slice(b"XXXX");
    assert_eq!(AnsiLabel::parse(&buf), None);
    assert_eq!(AnsiLabel::parse(&buf[..40]), None);
}

#[test]
fn ansi_label_generation_round_trips() {
    let raw = AnsiLabel {
        barcode: "E6008A".into(),
    }
    .to_bytes()
    .unwrap();
    assert_eq!(raw.len(), 80);
    assert_eq!(&raw[..4], b"VOL1");
    assert_eq!(&raw[24..28], b"LTFS");
    assert_eq!(raw[79], b'4');
    assert_eq!(AnsiLabel::parse(&raw).unwrap().barcode, "E6008A");
    assert!(
        AnsiLabel {
            barcode: "bad".into()
        }
        .to_bytes()
        .is_err()
    );
}

#[test]
fn parse_label_xml() {
    let label = Label::parse_xml(LABEL_XML).unwrap();
    assert_eq!(label.version, "2.4.0");
    assert_eq!(label.creator, "IBM LTFS 2.4.8.4 (IBM LTFS)");
    assert_eq!(label.volume_uuid, "c72c9917-cf2e-4873-8b64-9ac05b2f324c");
    assert_eq!(label.format_time, "2014-10-10T10:10:10.0000000+00:00");
    assert_eq!(label.blocksize, 524288);
    assert!(!label.compression);
    assert_eq!(label.this_partition, 0);
    assert_eq!(label.index_partition, 0);
    assert_eq!(label.data_partition, 1);
}

#[test]
fn label_xml_rejects_wrong_top_tag() {
    let xml = LABEL_XML.replace("<ltfslabel", "<notlabel");
    assert!(Label::parse_xml(&xml).is_err());
}

#[test]
fn label_xml_missing_required_field() {
    let xml = LABEL_XML.replace("<creator>IBM LTFS 2.4.8.4 (IBM LTFS)</creator>", "");
    assert_eq!(
        Label::parse_xml(&xml),
        Err(LabelError::MissingField("creator"))
    );
}

#[test]
fn label_xml_handles_compression_true() {
    let xml = LABEL_XML.replace(
        "<compression>false</compression>",
        "<compression>true</compression>",
    );
    assert!(Label::parse_xml(&xml).unwrap().compression);
}

#[test]
fn parse_real_mkltfs_label() {
    let label = Label::parse_xml(REAL_LABEL_XML).unwrap();
    assert_eq!(label.version, "2.4.0");
    assert_eq!(label.creator, "IBM LTFS 2.4.8.4 (Prelim) - Linux - mkltfs");
    assert_eq!(label.volume_uuid, "0cc710d4-bc2f-4c54-823e-a44413987f5d");
    assert_eq!(label.this_partition, 0);
    assert_eq!(label.index_partition, 0);
    assert_eq!(label.data_partition, 1);
    assert_eq!(label.blocksize, 524288);
    assert!(label.compression);
}

#[test]
fn generated_label_round_trips_and_escapes_text() {
    let mut label = Label::parse_xml(REAL_LABEL_XML).unwrap();
    label.creator = "tapecpy & test".into();
    let xml = label.to_xml();
    assert!(xml.contains("tapecpy &amp; test"));
    assert_eq!(Label::parse_xml(&xml).unwrap(), label);
}

#[test]
fn partition_accepts_digit_form_too() {
    let xml = REAL_LABEL_XML
        .replace("<partition>a</partition>", "<partition>0</partition>")
        .replace("<index>a</index>", "<index>0</index>")
        .replace("<data>b</data>", "<data>1</data>");
    let label = Label::parse_xml(&xml).unwrap();
    assert_eq!(label.this_partition, 0);
    assert_eq!(label.index_partition, 0);
    assert_eq!(label.data_partition, 1);
}

const UUID: &str = "90492284-35d4-436a-bbee-12121ae0fbac";

#[test]
fn vci_round_trip_and_layout() {
    let vci = VolumeCoherencyInformation::new(&[1, 2, 3, 4], 7, 42, UUID).unwrap();
    let bytes = vci.to_bytes().unwrap();
    assert_eq!(bytes.len(), 70);
    assert_eq!(bytes[0], 8);
    assert_eq!(&bytes[1..9], &[0, 0, 0, 0, 1, 2, 3, 4]);
    assert_eq!(&bytes[27..32], b"LTFS\0");
    assert_eq!(VolumeCoherencyInformation::parse(&bytes).unwrap(), vci);
}

#[test]
fn rejects_invalid_vcr_and_block() {
    assert!(VolumeCoherencyInformation::new(&[0; 4], 1, 5, UUID).is_err());
    assert!(VolumeCoherencyInformation::new(&[0xff; 4], 1, 5, UUID).is_err());
    assert!(VolumeCoherencyInformation::new(&[1], 1, 0, UUID).is_err());
}

#[test]
fn host_attributes_follow_ltfs_24_rules() {
    let attrs = format_host_attributes("卷名", "E6008A", UUID, "0.1.0", "202608101234");
    let app = attrs.iter().find(|a| a.id == APPLICATION_NAME).unwrap();
    assert!(app.value.starts_with(b"LTFS tapecpy"));
    let name = attrs
        .iter()
        .find(|a| a.id == USER_MEDIUM_TEXT_LABEL)
        .unwrap();
    let encoded_name = "卷名".as_bytes();
    assert_eq!(&name.value[..encoded_name.len()], encoded_name);
    assert_eq!(name.value[encoded_name.len()], 0);
    assert!(
        attrs
            .iter()
            .any(|a| a.id == MEDIUM_GLOBALLY_UNIQUE_IDENTIFIER)
    );
}

#[test]
fn validates_complete_document_and_rejects_malformed_document() {
    validate_xml_document(
        "<?xml version=\"1.0\"?><ltfsindex><directory/></ltfsindex>\n",
        b"ltfsindex",
    )
    .unwrap();
    assert!(validate_xml_document("<ltfsindex><directory/>", b"ltfsindex").is_err());
    assert!(validate_xml_document("<ltfsindex/><ltfsindex/>", b"ltfsindex").is_err());
    assert!(validate_xml_document("<!DOCTYPE ltfsindex><ltfsindex/>", b"ltfsindex").is_err());
    assert!(validate_xml_document("<ltfsindex><a></ltfsindex>", b"ltfsindex").is_err());
}

fn index_xml(generation: u64) -> String {
    format!(
        r#"<?xml version="1.0" encoding="UTF-8"?>
<ltfsindex version="2.4.0">
  <creator>test</creator>
  <volumeuuid>c72c9917-cf2e-4873-8b64-9ac05b2f324c</volumeuuid>
  <generationnumber>{generation}</generationnumber>
  <updatetime>2026-06-18T11:28:00.0000000+00:00</updatetime>
  <location>
    <partition>0</partition>
    <startblock>{}</startblock>
  </location>
  <allowpolicyupdate>false</allowpolicyupdate>
  <highestfileuid>1</highestfileuid>
  <directory name="/"/>
</ltfsindex>"#,
        4 + generation
    )
}

#[test]
fn picks_latest_parseable_index() {
    let gen1 = index_xml(1);
    let gen2 = index_xml(2);
    let gen2_head = &gen2.as_bytes()[..gen2.len() / 2];
    let gen2_tail = &gen2.as_bytes()[gen2.len() / 2..];

    let records = vec![
        ScanRecord::Filemark,
        ScanRecord::Data(gen1.as_bytes().to_vec()),
        ScanRecord::Filemark,
        ScanRecord::Data(gen2_head.to_vec()),
        ScanRecord::Data(gen2_tail.to_vec()),
        ScanRecord::Filemark,
        ScanRecord::Eod,
    ];
    let latest = find_latest_index(records).unwrap();
    let idx = Index::parse_xml(&latest).unwrap();
    assert_eq!(idx.generation, 2);
}

#[test]
fn skips_corrupted_index_and_keeps_older_one() {
    let gen1 = index_xml(1);
    let corrupted = b"<ltfsindex version=\"2.4.0\"><garbage";
    let records = vec![
        ScanRecord::Filemark,
        ScanRecord::Data(gen1.as_bytes().to_vec()),
        ScanRecord::Filemark,
        ScanRecord::Data(corrupted.to_vec()),
        ScanRecord::Filemark,
        ScanRecord::Eod,
    ];
    let latest = find_latest_index(records).unwrap();
    let idx = Index::parse_xml(&latest).unwrap();
    assert_eq!(idx.generation, 1);
}

#[test]
fn no_index_returns_none() {
    let records = vec![
        ScanRecord::Data(b"random non-xml data".to_vec()),
        ScanRecord::Filemark,
        ScanRecord::Eod,
    ];
    assert_eq!(find_latest_index(records), None);
}

#[test]
fn labels_are_refused_for_each_reason() {
    assert!(matches!(Label::parse_xml("<a"), Err(LabelError::Xml(_))));
    assert_eq!(Label::parse_xml("<a></a>"), Err(LabelError::NotLtfsLabel));
    assert_eq!(
        Label::parse_xml("<ltfslabel></ltfslabel>"),
        Err(LabelError::MissingVersion)
    );
    let xml = LABEL_XML.replace("524288", "many");
    assert!(matches!(Label::parse_xml(&xml), Err(LabelError::BadNumber(_))));
    let error = Label::parse_xml(&xml).unwrap_err();
    assert!(!error.text().is_empty());
}

#[test]
fn indexes_are_refused_for_each_reason() {
    assert!(matches!(Index::parse_xml("<a"), Err(IndexError::Xml(_))));
    assert_eq!(Index::parse_xml("<a></a>"), Err(IndexError::NotLtfsIndex));
    let xml = INDEX_XML.replace(
        "<generationnumber>2</generationnumber>",
        "<generationnumber>two</generationnumber>",
    );
    assert!(matches!(Index::parse_xml(&xml), Err(IndexError::BadNumber(_))));
}

#[test]
fn a_written_index_is_read_back() {
    let index = Index::parse_xml(REAL_INDEX_XML).unwrap();
    let again = Index::parse_xml(&index.to_xml()).unwrap();
    assert_eq!(again, index);
    let tree = Index::parse_xml(INDEX_XML).unwrap();
    assert!(tree.find_file("/sub/inner.bin").is_some());
    assert!(tree.find_directory("/sub").is_some());
    assert!(tree.find_file("/sub/none").is_none());
}

#[test]
fn names_are_escaped_and_unescaped() {
    let mut index = Index::parse_xml(REAL_INDEX_XML).unwrap();
    index.creator = "a < b & \"c\" > 'd'".into();
    let xml = index.to_xml();
    assert!(!xml.contains("a < b"));
    assert_eq!(Index::parse_xml(&xml).unwrap().creator, index.creator);
}

#[test]
fn coherency_information_is_refused_for_each_reason() {
    assert!(VolumeCoherencyInformation::parse(&[]).is_err());
    assert!(VolumeCoherencyInformation::parse(&[8, 1, 2]).is_err());
    assert!(VolumeCoherencyInformation::new(&[1], 1, 5, "not-a-uuid").is_err());
    let good = VolumeCoherencyInformation::new(&[1], 1, 5, UUID).unwrap();
    let mut bytes = good.to_bytes().unwrap();
    bytes[27] = b'X';
    assert!(VolumeCoherencyInformation::parse(&bytes).is_err());
}

#[test]
fn index_xml_needs_its_directory() {
    let xml = "<ltfsindex version='2.4.0'><creator>c</creator><volumeuuid>u</volumeuuid>\
               <generationnumber>1</generationnumber><updatetime>t</updatetime>\
               <location><partition>a</partition><startblock>5</startblock></location>\
               <allowpolicyupdate>false</allowpolicyupdate></ltfsindex>";
    assert_eq!(
        Index::parse_xml(xml),
        Err(IndexError::MissingField("directory"))
    );
}

#[test]
fn unknown_references_end_a_run_of_text() {
    let creator = "<creator>IBM LTFS 2.4.8.4 (IBM LTFS)</creator>";
    let unknown = INDEX_XML.replace(creator, "<creator>a&foo;b</creator>");
    assert_eq!(Index::parse_xml(&unknown).unwrap().creator, "b");
    let known = INDEX_XML.replace(creator, "<creator>a &amp; b</creator>");
    assert_eq!(Index::parse_xml(&known).unwrap().creator, "a & b");
}

#[test]
fn tags_begin_with_their_names() {
    assert_eq!(attribute_value("ab", "a", "k"), None);
    assert_eq!(
        attribute_value("ab", "ab k=\"v\"", "k").as_deref(),
        Some("v")
    );
    assert_eq!(
        validate_xml_attributes("ab", "a"),
        Err("XML tag does not begin with its name".into())
    );
    assert!(validate_xml_attributes("ab", "ab k=v").is_err());
    let items = vec![XmlItem::Start("ltfsindex".into(), "l".into()), XmlItem::Eof];
    assert!(Index::from_items(&items).is_err());
}
