//! Tape devices: what their responses mean, and the data that is sent to them.
pub mod channel_error;
pub mod channel_law;
pub mod command;
pub mod command_law;
pub mod density;
pub mod lease;
pub mod log;
pub mod log_law;
pub mod media;
pub mod mtio;
pub mod scsi;
pub mod session;
pub mod session_law;
pub mod sysfs;
pub mod tape;

use vstd::prelude::*;
use vstd::string::*;

use crate::text::{cat2, cat3, hex_padded, hex_spec, join, joined, opt_view, views};
use density::{density_name, density_name_spec, lto_generation_suffix, lto_suffix_spec};
use mtio::TapeStatus;

verus! {

/// A tape drive.
#[derive(Debug, PartialEq, Eq)]
pub struct TapeDrive {
    /// The name of the device that does not rewind, such as "nst0".
    pub name: String,
    /// The device that does not rewind.
    pub nst_path: String,
    /// The device that rewinds when it is closed.
    pub st_path: String,
    /// The SCSI generic device.
    pub sg_path: String,
    pub vendor: String,
    pub model: String,
    pub revision: String,
    pub serial: String,
}

impl Clone for TapeDrive {
    fn clone(&self) -> (copy: TapeDrive)
        ensures
            copy == *self,
    {
        TapeDrive {
            name: self.name.clone(),
            nst_path: self.nst_path.clone(),
            st_path: self.st_path.clone(),
            sg_path: self.sg_path.clone(),
            vendor: self.vendor.clone(),
            model: self.model.clone(),
            revision: self.revision.clone(),
            serial: self.serial.clone(),
        }
    }
}

/// The drive that an enumerated name, its SCSI generic device and its INQUIRY data stand
/// for.
pub fn drive_identity(
    nst_name: &str,
    sg_name: &str,
    vendor: String,
    model: String,
    revision: String,
    serial: String,
) -> (drive: TapeDrive)
    requires
        nst_name@.len() >= 3,
    ensures
        drive.name@ == nst_name@,
        drive.nst_path@ == "/dev/"@ + nst_name@,
        drive.st_path@ == "/dev/st"@ + nst_name@.subrange(3, nst_name@.len() as int),
        drive.sg_path@ == "/dev/"@ + sg_name@,
        drive.vendor@ == vendor@,
        drive.model@ == model@,
        drive.revision@ == revision@,
        drive.serial@ == serial@,
{
    let length: usize = nst_name.unicode_len();
    TapeDrive {
        name: nst_name.to_owned(),
        nst_path: cat2("/dev/", nst_name),
        st_path: cat2("/dev/st", nst_name.substring_char(3, length)),
        sg_path: cat2("/dev/", sg_name),
        vendor,
        model,
        revision,
        serial,
    }
}

/// Why a device cannot be used.
#[derive(Debug, Clone, PartialEq, Eq)]
pub enum Error {
    Io { context: String, source: String },
    Scsi { device: String, status: u8, host_status: u16, driver_status: u16, sense: Vec<u8> },
    Protocol(String),
}

/// The model of a device error.
pub enum DeviceFault {
    Io { context: Seq<char>, source: Seq<char> },
    Scsi { device: Seq<char>, status: u8, host_status: u16, driver_status: u16, sense: Seq<u8> },
    Protocol(Seq<char>),
}

impl View for Error {
    type V = DeviceFault;

    open spec fn view(&self) -> DeviceFault {
        match *self {
            Error::Io { context, source } => DeviceFault::Io {
                context: context@,
                source: source@,
            },
            Error::Scsi { device, status, host_status, driver_status, sense } =>
                DeviceFault::Scsi {
                    device: device@,
                    status,
                    host_status,
                    driver_status,
                    sense: sense@,
                },
            Error::Protocol(message) => DeviceFault::Protocol(message@),
        }
    }
}

/// Bytes in hexadecimal.
pub open spec fn hex_bytes(bytes: Seq<u8>) -> Seq<Seq<char>> {
    bytes.map_values(|b: u8| hex_spec(b as nat, 2))
}

/// The message of a device error.
pub open spec fn device_fault_text(fault: DeviceFault) -> Seq<char> {
    match fault {
        DeviceFault::Io { context, source } => context + ": "@ + source,
        DeviceFault::Scsi { device, status, host_status, driver_status, sense } => {
            let head = device + ": SCSI status=0x"@ + hex_spec(status as nat, 2) + " host=0x"@
                + hex_spec(host_status as nat, 4) + " driver=0x"@ + hex_spec(
                driver_status as nat,
                4,
            );
            if sense.len() == 0 {
                head
            } else {
                head + " sense=["@ + joined(hex_bytes(sense), " "@) + "]"@
            }
        },
        DeviceFault::Protocol(message) => message,
    }
}

fn hex_list(bytes: &Vec<u8>) -> (list: Vec<String>)
    ensures
        views(list@) == hex_bytes(bytes@),
{
    let mut list: Vec<String> = Vec::new();
    let mut i: usize = 0;
    while i < bytes.len()
        invariant
            i <= bytes@.len(),
            views(list@) == hex_bytes(bytes@).subrange(0, i as int),
        decreases bytes@.len() - i,
    {
        let ghost before = list@;
        let text = hex_padded(bytes[i] as u64, 2);
        list.push(text);
        assert(views(list@) =~= views(before).push(text@));
        i = i + 1;
        assert(views(list@) =~= hex_bytes(bytes@).subrange(0, i as int));
    }
    assert(views(list@) =~= hex_bytes(bytes@));
    list
}

impl Error {
    /// The message of the error: what failed, with the status and the sense data of a
    /// SCSI command in full.
    pub fn text(&self) -> (text: String)
        ensures
            text@ == device_fault_text(self@),
    {
        match self {
            Error::Io { context, source } => cat3(context.as_str(), ": ", source.as_str()),
            Error::Scsi { device, status, host_status, driver_status, sense } => {
                let mut text = crate::text::cat6(
                    device.as_str(),
                    ": SCSI status=0x",
                    hex_padded(*status as u64, 2).as_str(),
                    " host=0x",
                    hex_padded(*host_status as u64, 4).as_str(),
                    " driver=0x",
                );
                text.append(hex_padded(*driver_status as u64, 4).as_str());
                if sense.len() > 0 {
                    text.append(" sense=[");
                    text.append(join(&hex_list(sense), " ").as_str());
                    text.append("]");
                }
                text
            },
            Error::Protocol(message) => message.clone(),
        }
    }
}

/// Whether a cartridge is in the drive.
#[derive(Debug, Clone, Copy, PartialEq, Eq, Structural)]
pub enum MediaPresence {
    Loaded,
    NotLoaded,
    NotReady,
    Unknown,
}

/// What the medium auxiliary memory says of a cartridge.
#[derive(Debug, PartialEq, Eq)]
pub struct MamInfo {
    pub barcode: Option<String>,
    pub volume_identifier: Option<String>,
    pub medium_manufacturer: Option<String>,
    pub medium_serial: Option<String>,
    pub medium_type: Option<u8>,
    pub remaining_capacity_mib: Option<u64>,
    pub max_capacity_mib: Option<u64>,
    pub load_count: Option<u64>,
    pub tape_alert_flags: Option<u64>,
    pub total_written_mib: Option<u64>,
    pub total_read_mib: Option<u64>,
}

/// What is known of the cartridge in a drive.
#[derive(Debug, PartialEq, Eq)]
pub struct MediaInfo {
    pub presence: MediaPresence,
    pub tape_status: Option<TapeStatus>,
    pub density_code: Option<u8>,
    pub mam: Option<MamInfo>,
}

impl Default for MediaInfo {
    fn default() -> (media: MediaInfo)
        ensures
            media.presence == MediaPresence::Unknown,
            media.tape_status is None,
            media.density_code is None,
            media.mam is None,
    {
        MediaInfo {
            presence: MediaPresence::Unknown,
            tape_status: None,
            density_code: None,
            mam: None,
        }
    }
}

/// The barcode in the memory of a cartridge.
pub open spec fn media_barcode(media: MediaInfo) -> Option<Seq<char>> {
    match media.mam {
        Some(mam) => opt_view(mam.barcode),
        None => None,
    }
}

/// The eight characters of a physical label: a six-character barcode and the media
/// identifier of the density.
pub open spec fn label_hint_spec(media: MediaInfo) -> Option<Seq<char>> {
    match (media_barcode(media), media.density_code) {
        (Some(barcode), Some(code)) => match lto_suffix_spec(code) {
            Some(suffix) => if barcode.len() == 6 {
                Some(barcode + suffix)
            } else {
                None
            },
            None => None,
        },
        _ => None,
    }
}

impl MediaInfo {
    /// The name of the density.
    pub fn density_name(&self) -> (name: Option<&'static str>)
        ensures
            (match name {
                Some(n) => Some(n@),
                None => None,
            }) == (match self.density_code {
                Some(code) => density_name_spec(code),
                None => None,
            }),
    {
        match self.density_code {
            Some(code) => density_name(code),
            None => None,
        }
    }

    /// The barcode in the memory of the cartridge.
    pub fn barcode(&self) -> (barcode: Option<&String>)
        ensures
            (match barcode {
                Some(b) => Some(b@),
                None => None,
            }) == media_barcode(*self),
    {
        match &self.mam {
            Some(mam) => match &mam.barcode {
                Some(barcode) => Some(barcode),
                None => None,
            },
            None => None,
        }
    }

    /// The text of the physical label, where barcode and density give it.
    pub fn full_label_hint(&self) -> (label: Option<String>)
        ensures
            opt_view(label) == label_hint_spec(*self),
    {
        match (self.barcode(), self.density_code) {
            (Some(barcode), Some(code)) => match lto_generation_suffix(code) {
                Some(suffix) => if barcode.as_str().unicode_len() == 6 {
                    Some(cat2(barcode.as_str(), suffix))
                } else {
                    None
                },
                None => None,
            },
            _ => None,
        }
    }
}

} // verus!
