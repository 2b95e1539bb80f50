//! What the memory of a cartridge holds, for a look at it.
use vstd::prelude::*;
use vstd::string::*;

use crate::device::scsi::MamAttributeRecord;
use crate::ltfs::mam::{
    vci_parsed, VciModel, VolumeCoherencyInformation, VOLUME_COHERENCY_INFORMATION,
};
use crate::text::{cat4, decimal, decimal_spec, opt_view, views};

verus! {

/// An attribute, with the coherency information where it holds one.
#[derive(Debug, PartialEq, Eq)]
pub struct MamDiagnosticAttribute {
    pub id: u16,
    pub format: u8,
    pub value: Vec<u8>,
    pub vci: Option<VolumeCoherencyInformation>,
    pub parse_warning: Option<String>,
}

/// The attributes of a partition.
#[derive(Debug, PartialEq, Eq)]
pub struct PartitionMamDiagnostic {
    pub partition: u8,
    pub attributes: Vec<MamDiagnosticAttribute>,
}

/// The attributes of both partitions.
#[derive(Debug, PartialEq, Eq)]
pub struct MamDiagnostic {
    pub partitions: Vec<PartitionMamDiagnostic>,
    pub warnings: Vec<String>,
}

/// The model of an attribute.
#[verifier::ext_equal]
pub struct ReportedAttribute {
    pub id: u16,
    pub format: u8,
    pub value: Seq<u8>,
    pub vci: Option<VciModel>,
    pub parse_warning: Option<Seq<char>>,
}

impl View for MamDiagnosticAttribute {
    type V = ReportedAttribute;

    open spec fn view(&self) -> ReportedAttribute {
        ReportedAttribute {
            id: self.id,
            format: self.format,
            value: self.value@,
            vci: match self.vci {
                Some(v) => Some(v@),
                None => None,
            },
            parse_warning: opt_view(self.parse_warning),
        }
    }
}

pub open spec fn reported_attributes(list: Seq<MamDiagnosticAttribute>) -> Seq<ReportedAttribute> {
    list.map_values(|a: MamDiagnosticAttribute| a@)
}

/// The model of the attributes of a partition.
#[verifier::ext_equal]
pub struct ReportedPartition {
    pub partition: u8,
    pub attributes: Seq<ReportedAttribute>,
}

impl View for PartitionMamDiagnostic {
    type V = ReportedPartition;

    open spec fn view(&self) -> ReportedPartition {
        ReportedPartition {
            partition: self.partition,
            attributes: reported_attributes(self.attributes@),
        }
    }
}

pub open spec fn reported_partitions(list: Seq<PartitionMamDiagnostic>) -> Seq<ReportedPartition> {
    list.map_values(|p: PartitionMamDiagnostic| p@)
}

/// The attributes that LTFS uses.
pub open spec fn is_ltfs_attribute(id: u16) -> bool {
    (0x0800 <= id && id <= 0x080c) || id == 0x0820 || id == 0x0009
}

/// An attribute as it is reported.
pub open spec fn reported(record: MamAttributeRecord) -> ReportedAttribute {
    ReportedAttribute {
        id: record.id,
        format: record.format,
        value: record.value@,
        vci: if record.id == VOLUME_COHERENCY_INFORMATION {
            match vci_parsed(record.value@) {
                Ok(vci) => Some(vci),
                Err(_) => None,
            }
        } else {
            None
        },
        parse_warning: if record.id == VOLUME_COHERENCY_INFORMATION {
            match vci_parsed(record.value@) {
                Ok(_) => None,
                Err(message) => Some(message),
            }
        } else {
            None
        },
    }
}

/// The attributes that LTFS uses, as they are reported.
pub open spec fn reported_records(records: Seq<MamAttributeRecord>) -> Seq<ReportedAttribute>
    decreases records.len(),
{
    if records.len() == 0 {
        Seq::empty()
    } else {
        let rest = reported_records(records.drop_last());
        if is_ltfs_attribute(records.last().id) {
            rest.push(reported(records.last()))
        } else {
            rest
        }
    }
}

fn report_records(records: &Vec<MamAttributeRecord>) -> (list: Vec<MamDiagnosticAttribute>)
    ensures
        reported_attributes(list@) == reported_records(records@),
{
    let mut list: Vec<MamDiagnosticAttribute> = Vec::new();
    let mut i: usize = 0;
    assert(records@.subrange(0, 0) =~= Seq::<MamAttributeRecord>::empty());
    assert(reported_attributes(list@) =~= reported_records(records@.subrange(0, 0)));
    while i < records.len()
        invariant
            i <= records@.len(),
            reported_attributes(list@) == reported_records(records@.subrange(0, i as int)),
        decreases records@.len() - i,
    {
        let ghost next = records@.subrange(0, i + 1);
        assert(next.drop_last() =~= records@.subrange(0, i as int));
        assert(next.last() == records@[i as int]);
        let record = &records[i];
        if (0x0800 <= record.id && record.id <= 0x080c) || record.id == 0x0820 || record.id
            == 0x0009 {
            let (vci, parse_warning) = if record.id == VOLUME_COHERENCY_INFORMATION {
                match VolumeCoherencyInformation::parse(record.value.as_slice()) {
                    Ok(vci) => (Some(vci), None),
                    Err(message) => (None, Some(message)),
                }
            } else {
                (None, None)
            };
            let ghost before = list@;
            let attribute = MamDiagnosticAttribute {
                id: record.id,
                format: record.format,
                value: vstd::slice::slice_to_vec(record.value.as_slice()),
                vci,
                parse_warning,
            };
            assert(attribute@ =~= reported(*record));
            list.push(attribute);
            assert(reported_attributes(list@) =~= reported_attributes(before).push(attribute@));
        }
        i = i + 1;
    }
    assert(records@.subrange(0, i as int) =~= records@);
    list
}

/// What came of reading the attributes of a partition.
pub type MamReply = Result<Vec<MamAttributeRecord>, String>;

/// The partition that a reply reports.
pub open spec fn partition_report(partition: u8, reply: MamReply) -> Seq<ReportedPartition> {
    match reply {
        Ok(records) => seq![
            ReportedPartition { partition, attributes: reported_records(records@) },
        ],
        Err(_) => Seq::empty(),
    }
}

/// The warning that a reply gives.
pub open spec fn partition_warning(partition: u8, reply: MamReply) -> Seq<Seq<char>> {
    match reply {
        Ok(_) => Seq::empty(),
        Err(message) => seq![
            "partition "@ + decimal_spec(partition as nat) + " MAM 读取失败: "@ + message@,
        ],
    }
}

fn report_partition(report: &mut MamDiagnostic, partition: u8, reply: &MamReply)
    ensures
        reported_partitions(final(report).partitions@) == reported_partitions(
            old(report).partitions@,
        ) + partition_report(partition, *reply),
        views(final(report).warnings@) == views(old(report).warnings@) + partition_warning(
            partition,
            *reply,
        ),
{
    let ghost parts = report.partitions@;
    let ghost warnings = report.warnings@;
    match reply {
        Ok(records) => {
            let p = PartitionMamDiagnostic { partition, attributes: report_records(records) };
            report.partitions.push(p);
            assert(reported_partitions(report.partitions@) =~= reported_partitions(parts)
                + seq![p@]);
            assert(views(warnings) + Seq::<Seq<char>>::empty() =~= views(warnings));
        },
        Err(message) => {
            let text = cat4(
                "partition ",
                decimal(partition as u64).as_str(),
                " MAM 读取失败: ",
                message.as_str(),
            );
            report.warnings.push(text);
            assert(views(report.warnings@) =~= views(warnings) + seq![text@]);
            assert(reported_partitions(parts) + Seq::<ReportedPartition>::empty()
                =~= reported_partitions(parts));
        },
    }
}

/// What the memory of a cartridge holds for both partitions. Where the second cannot be
/// read the first is still reported.
pub fn inspect_mam(first: &MamReply, second: &MamReply) -> (report: MamDiagnostic)
    ensures
        reported_partitions(report.partitions@) == partition_report(0, *first) + partition_report(
            1,
            *second,
        ),
        views(report.warnings@) == partition_warning(0, *first) + partition_warning(1, *second),
{
    let mut report = MamDiagnostic { partitions: Vec::new(), warnings: Vec::new() };
    assert(reported_partitions(report.partitions@) =~= Seq::<ReportedPartition>::empty());
    assert(views(report.warnings@) =~= Seq::<Seq<char>>::empty());
    report_partition(&mut report, 0, first);
    report_partition(&mut report, 1, second);
    assert(reported_partitions(report.partitions@) =~= partition_report(0, *first)
        + partition_report(1, *second));
    assert(views(report.warnings@) =~= partition_warning(0, *first) + partition_warning(
        1,
        *second,
    ));
    report
}

} // verus!
