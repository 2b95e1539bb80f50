//! The status that the Linux `st` driver reports for a drive.
use vstd::prelude::*;

verus! {

/// The status of a drive, decoded.
#[derive(Debug, Clone, Copy, PartialEq, Eq, Structural)]
pub struct TapeStatus {
    /// The type code of the driver.
    pub drive_type: u32,
    pub density_code: u8,
    /// The block size; 0 for variable blocks.
    pub block_size: u32,
    /// The general status bits.
    pub gstat: u32,
    /// Soft errors since the last status.
    pub soft_errors: u32,
    pub file_no: i32,
    pub block_no: i32,
    pub partition: u8,
}

pub const GMT_EOF: u32 = 0x8000_0000;

pub const GMT_BOT: u32 = 0x4000_0000;

pub const GMT_EOT: u32 = 0x2000_0000;

/// A setmark (DDS).
pub const GMT_SM: u32 = 0x1000_0000;

pub const GMT_EOD: u32 = 0x0800_0000;

pub const GMT_WR_PROT: u32 = 0x0400_0000;

pub const GMT_ONLINE: u32 = 0x0100_0000;

pub const GMT_D_6250: u32 = 0x0080_0000;

pub const GMT_D_1600: u32 = 0x0040_0000;

pub const GMT_D_800: u32 = 0x0020_0000;

/// The door is open: no tape.
pub const GMT_DR_OPEN: u32 = 0x0004_0000;

pub const GMT_IM_REP_EN: u32 = 0x0001_0000;

/// The drive asks to be cleaned.
pub const GMT_CLN: u32 = 0x0000_8000;

impl TapeStatus {
    pub fn is_online(&self) -> (yes: bool)
        ensures
            yes == (self.gstat & GMT_ONLINE != 0),
    {
        self.gstat & GMT_ONLINE != 0
    }

    pub fn is_bot(&self) -> (yes: bool)
        ensures
            yes == (self.gstat & GMT_BOT != 0),
    {
        self.gstat & GMT_BOT != 0
    }

    pub fn is_eof(&self) -> (yes: bool)
        ensures
            yes == (self.gstat & GMT_EOF != 0),
    {
        self.gstat & GMT_EOF != 0
    }

    pub fn is_eot(&self) -> (yes: bool)
        ensures
            yes == (self.gstat & GMT_EOT != 0),
    {
        self.gstat & GMT_EOT != 0
    }

    pub fn is_eod(&self) -> (yes: bool)
        ensures
            yes == (self.gstat & GMT_EOD != 0),
    {
        self.gstat & GMT_EOD != 0
    }

    pub fn is_write_protected(&self) -> (yes: bool)
        ensures
            yes == write_protected(*self),
    {
        self.gstat & GMT_WR_PROT != 0
    }

    pub fn is_door_open(&self) -> (yes: bool)
        ensures
            yes == (self.gstat & GMT_DR_OPEN != 0),
    {
        self.gstat & GMT_DR_OPEN != 0
    }

    pub fn cleaning_requested(&self) -> (yes: bool)
        ensures
            yes == (self.gstat & GMT_CLN != 0),
    {
        self.gstat & GMT_CLN != 0
    }
}

/// The cartridge cannot be written.
pub open spec fn write_protected(status: TapeStatus) -> bool {
    status.gstat & GMT_WR_PROT != 0
}

/// The fields of the driver's status as they come, sign-extended fields as their
/// two's complement.
#[derive(Debug, Clone, Copy, PartialEq, Eq, Structural)]
pub struct RawStatus {
    pub mt_type: u64,
    pub mt_resid: u64,
    pub mt_dsreg: u64,
    pub mt_gstat: u64,
    pub mt_erreg: u64,
    pub mt_fileno: i32,
    pub mt_blkno: i32,
}

/// What the raw fields mean: the density stands in bits 24 to 31 of `mt_dsreg` and the
/// block size below them, the soft errors in the low 16 bits of `mt_erreg`, the
/// partition in the low 8 bits of `mt_resid`.
pub open spec fn status_spec(raw: RawStatus) -> TapeStatus {
    TapeStatus {
        drive_type: (raw.mt_type % 0x1_0000_0000) as u32,
        density_code: (raw.mt_dsreg / 0x100_0000 % 0x100) as u8,
        block_size: (raw.mt_dsreg % 0x100_0000) as u32,
        gstat: (raw.mt_gstat % 0x1_0000_0000) as u32,
        soft_errors: (raw.mt_erreg % 0x1_0000) as u32,
        file_no: raw.mt_fileno,
        block_no: raw.mt_blkno,
        partition: (raw.mt_resid % 0x100) as u8,
    }
}

/// Decodes the status of a drive.
pub fn decode_status(raw: RawStatus) -> (status: TapeStatus)
    ensures
        status == status_spec(raw),
{
    TapeStatus {
        drive_type: (raw.mt_type % 0x1_0000_0000) as u32,
        density_code: (raw.mt_dsreg / 0x100_0000 % 0x100) as u8,
        block_size: (raw.mt_dsreg % 0x100_0000) as u32,
        gstat: (raw.mt_gstat % 0x1_0000_0000) as u32,
        soft_errors: (raw.mt_erreg % 0x1_0000) as u32,
        file_no: raw.mt_fileno,
        block_no: raw.mt_blkno,
        partition: (raw.mt_resid % 0x100) as u8,
    }
}

/// The number of the `MTIOCGET` request for a status of `size` bytes: read direction in
/// bits 30 and 31, the size in bits 16 to 29, the letter 'm' and the number 2.
pub fn mt_ioctl_get(size: u64) -> (number: u64)
    requires
        size < 0x4000,
    ensures
        number == 2 * 0x4000_0000 + size * 0x1_0000 + 109 * 0x100 + 2,
{
    2 * 0x4000_0000 + size * 0x1_0000 + 109 * 0x100 + 2
}

} // verus!
