//! Density codes and the formats they stand for.
use vstd::prelude::*;

verus! {

/// The density codes that are known, in ascending order, with the names of their formats.
pub open spec fn density_entries() -> Seq<(u8, Seq<char>)> {
    seq![
        (0x00u8, "default"@),
        (0x01u8, "NRZI (800 bpi) 9-track reel"@),
        (0x02u8, "PE (1600 bpi) 9-track reel"@),
        (0x03u8, "GCR (6250 bpi) 9-track reel"@),
        (0x04u8, "QIC-11"@),
        (0x05u8, "QIC-45/60 (GCR, 8000 bpi)"@),
        (0x06u8, "PE (3200 bpi) 9-track reel"@),
        (0x07u8, "IMFM (6400 bpi)"@),
        (0x08u8, "GCR (8000 bpi)"@),
        (0x09u8, "3480/3490E, GCR (37871 bpi)"@),
        (0x0au8, "MFM (6667 bpi)"@),
        (0x0bu8, "PE (1600 bpi)"@),
        (0x0cu8, "GCR (12960 bpi)"@),
        (0x0du8, "GCR (25380 bpi)"@),
        (0x0fu8, "QIC-120 (GCR 10000 bpi)"@),
        (0x10u8, "QIC-150/250 (GCR 10000 bpi)"@),
        (0x11u8, "QIC-320/525 (GCR 16000 bpi)"@),
        (0x12u8, "QIC-1350 (RLL 51667 bpi)"@),
        (0x13u8, "DDS (61000 bpi)"@),
        (0x14u8, "EXB-8200 (RLL 43245 bpi)"@),
        (0x15u8, "EXB-8500 or QIC-1000"@),
        (0x16u8, "MFM 10000 bpi"@),
        (0x17u8, "MFM 42500 bpi"@),
        (0x18u8, "TZ86"@),
        (0x19u8, "DLT 10GB"@),
        (0x1au8, "DLT 20GB"@),
        (0x1bu8, "DLT 35GB"@),
        (0x1cu8, "QIC-385M"@),
        (0x1du8, "QIC-410M"@),
        (0x1eu8, "QIC-1000C"@),
        (0x1fu8, "QIC-2100C"@),
        (0x20u8, "QIC-6GB"@),
        (0x21u8, "QIC-20GB"@),
        (0x22u8, "QIC-2GB"@),
        (0x23u8, "QIC-875"@),
        (0x24u8, "DDS-2"@),
        (0x25u8, "DDS-3"@),
        (0x26u8, "DDS-4 or QIC-4GB"@),
        (0x27u8, "Exabyte Mammoth"@),
        (0x28u8, "Exabyte Mammoth-2"@),
        (0x29u8, "QIC-3080MC, IBM 3590 B"@),
        (0x2au8, "IBM 3590 E"@),
        (0x30u8, "AIT-1 or MLR3"@),
        (0x31u8, "AIT-2"@),
        (0x32u8, "AIT-3 or SLR7"@),
        (0x33u8, "SLR6"@),
        (0x34u8, "SLR100"@),
        (0x40u8, "LTO-1 (Ultrium 1)"@),
        (0x41u8, "LTO-2 (Ultrium 2)"@),
        (0x42u8, "LTO-2"@),
        (0x44u8, "LTO-3"@),
        (0x45u8, "QIC-3095-MC (TR-4)"@),
        (0x46u8, "LTO-4"@),
        (0x47u8, "DDS-5 or TR-5"@),
        (0x48u8, "SDLT220"@),
        (0x49u8, "SDLT320"@),
        (0x4au8, "SDLT600, T10000A"@),
        (0x4bu8, "T10000B"@),
        (0x4cu8, "T10000C"@),
        (0x4du8, "T10000D"@),
        (0x51u8, "IBM 3592 J1A"@),
        (0x52u8, "IBM 3592 E05 (TS1120)"@),
        (0x53u8, "IBM 3592 E06 (TS1130)"@),
        (0x54u8, "IBM 3592 E07 (TS1140)"@),
        (0x55u8, "IBM 3592 E08 (TS1150)"@),
        (0x56u8, "IBM 3592 55F (TS1155)"@),
        (0x57u8, "IBM 3592 60F (TS1160)"@),
        (0x58u8, "LTO-5"@),
        (0x59u8, "IBM 3592 70F (TS1170)"@),
        (0x5au8, "LTO-6"@),
        (0x5cu8, "LTO-7"@),
        (0x5du8, "LTO-7 M8"@),
        (0x5eu8, "LTO-8"@),
        (0x60u8, "LTO-9"@),
        (0x71u8, "IBM 3592 J1A, encrypted"@),
        (0x72u8, "IBM 3592 E05, encrypted"@),
        (0x73u8, "IBM 3592 E06, encrypted"@),
        (0x74u8, "IBM 3592 E07, encrypted"@),
        (0x75u8, "IBM 3592 E08, encrypted"@),
        (0x76u8, "IBM 3592 55F, encrypted"@),
        (0x77u8, "IBM 3592 60F, encrypted"@),
        (0x79u8, "IBM 3592 70F, encrypted"@),
        (0x80u8, "DLT 15GB uncomp. or Ecrix"@),
        (0x81u8, "DLT 15GB compressed"@),
        (0x82u8, "DLT 20GB uncompressed"@),
        (0x83u8, "DLT 20GB compressed"@),
        (0x84u8, "DLT 35GB uncompressed"@),
        (0x85u8, "DLT 35GB compressed"@),
        (0x86u8, "DLT1 40 GB uncompressed"@),
        (0x87u8, "DLT1 40 GB compressed"@),
        (0x88u8, "DLT 40GB uncompressed"@),
        (0x89u8, "DLT 40GB compressed"@),
        (0x8cu8, "EXB-8505 compressed"@),
        (0x90u8, "SDLT110 uncompr/EXB-8205 compr"@),
        (0x91u8, "SDLT110 compressed"@),
        (0x92u8, "SDLT160 uncompressed"@),
        (0x93u8, "SDLT160 compressed"@),
    ]
}

/// A table of density codes.
pub open spec fn table_view(table: Seq<(u8, &'static str)>) -> Seq<(u8, Seq<char>)> {
    table.map_values(|entry: (u8, &'static str)| (entry.0, entry.1@))
}

/// The table of density codes.
pub fn density_table() -> (table: [(u8, &'static str); 97])
    ensures
        table_view(table@) == density_entries(),
{
    let table: [(u8, &'static str); 97] = [
        (0x00, "default"),
        (0x01, "NRZI (800 bpi) 9-track reel"),
        (0x02, "PE (1600 bpi) 9-track reel"),
        (0x03, "GCR (6250 bpi) 9-track reel"),
        (0x04, "QIC-11"),
        (0x05, "QIC-45/60 (GCR, 8000 bpi)"),
        (0x06, "PE (3200 bpi) 9-track reel"),
        (0x07, "IMFM (6400 bpi)"),
        (0x08, "GCR (8000 bpi)"),
        (0x09, "3480/3490E, GCR (37871 bpi)"),
        (0x0a, "MFM (6667 bpi)"),
        (0x0b, "PE (1600 bpi)"),
        (0x0c, "GCR (12960 bpi)"),
        (0x0d, "GCR (25380 bpi)"),
        (0x0f, "QIC-120 (GCR 10000 bpi)"),
        (0x10, "QIC-150/250 (GCR 10000 bpi)"),
        (0x11, "QIC-320/525 (GCR 16000 bpi)"),
        (0x12, "QIC-1350 (RLL 51667 bpi)"),
        (0x13, "DDS (61000 bpi)"),
        (0x14, "EXB-8200 (RLL 43245 bpi)"),
        (0x15, "EXB-8500 or QIC-1000"),
        (0x16, "MFM 10000 bpi"),
        (0x17, "MFM 42500 bpi"),
        (0x18, "TZ86"),
        (0x19, "DLT 10GB"),
        (0x1a, "DLT 20GB"),
        (0x1b, "DLT 35GB"),
        (0x1c, "QIC-385M"),
        (0x1d, "QIC-410M"),
        (0x1e, "QIC-1000C"),
        (0x1f, "QIC-2100C"),
        (0x20, "QIC-6GB"),
        (0x21, "QIC-20GB"),
        (0x22, "QIC-2GB"),
        (0x23, "QIC-875"),
        (0x24, "DDS-2"),
        (0x25, "DDS-3"),
        (0x26, "DDS-4 or QIC-4GB"),
        (0x27, "Exabyte Mammoth"),
        (0x28, "Exabyte Mammoth-2"),
        (0x29, "QIC-3080MC, IBM 3590 B"),
        (0x2a, "IBM 3590 E"),
        (0x30, "AIT-1 or MLR3"),
        (0x31, "AIT-2"),
        (0x32, "AIT-3 or SLR7"),
        (0x33, "SLR6"),
        (0x34, "SLR100"),
        (0x40, "LTO-1 (Ultrium 1)"),
        (0x41, "LTO-2 (Ultrium 2)"),
        (0x42, "LTO-2"),
        (0x44, "LTO-3"),
        (0x45, "QIC-3095-MC (TR-4)"),
        (0x46, "LTO-4"),
        (0x47, "DDS-5 or TR-5"),
        (0x48, "SDLT220"),
        (0x49, "SDLT320"),
        (0x4a, "SDLT600, T10000A"),
        (0x4b, "T10000B"),
        (0x4c, "T10000C"),
        (0x4d, "T10000D"),
        (0x51, "IBM 3592 J1A"),
        (0x52, "IBM 3592 E05 (TS1120)"),
        (0x53, "IBM 3592 E06 (TS1130)"),
        (0x54, "IBM 3592 E07 (TS1140)"),
        (0x55, "IBM 3592 E08 (TS1150)"),
        (0x56, "IBM 3592 55F (TS1155)"),
        (0x57, "IBM 3592 60F (TS1160)"),
        (0x58, "LTO-5"),
        (0x59, "IBM 3592 70F (TS1170)"),
        (0x5a, "LTO-6"),
        (0x5c, "LTO-7"),
        (0x5d, "LTO-7 M8"),
        (0x5e, "LTO-8"),
        (0x60, "LTO-9"),
        (0x71, "IBM 3592 J1A, encrypted"),
        (0x72, "IBM 3592 E05, encrypted"),
        (0x73, "IBM 3592 E06, encrypted"),
        (0x74, "IBM 3592 E07, encrypted"),
        (0x75, "IBM 3592 E08, encrypted"),
        (0x76, "IBM 3592 55F, encrypted"),
        (0x77, "IBM 3592 60F, encrypted"),
        (0x79, "IBM 3592 70F, encrypted"),
        (0x80, "DLT 15GB uncomp. or Ecrix"),
        (0x81, "DLT 15GB compressed"),
        (0x82, "DLT 20GB uncompressed"),
        (0x83, "DLT 20GB compressed"),
        (0x84, "DLT 35GB uncompressed"),
        (0x85, "DLT 35GB compressed"),
        (0x86, "DLT1 40 GB uncompressed"),
        (0x87, "DLT1 40 GB compressed"),
        (0x88, "DLT 40GB uncompressed"),
        (0x89, "DLT 40GB compressed"),
        (0x8c, "EXB-8505 compressed"),
        (0x90, "SDLT110 uncompr/EXB-8205 compr"),
        (0x91, "SDLT110 compressed"),
        (0x92, "SDLT160 uncompressed"),
        (0x93, "SDLT160 compressed"),
    ];
    assert(table_view(table@) =~= density_entries());
    table
}

/// The codes of the table ascend.
pub proof fn density_codes_ascend()
    ensures
        forall|i: int|
            0 <= i < density_entries().len() - 1 ==> (#[trigger] density_entries()[i]).0
                < density_entries()[i + 1].0,
{
}

/// The position of the first entry with the given code, or the number of entries.
pub open spec fn density_position(table: Seq<(u8, Seq<char>)>, code: u8) -> int
    decreases table.len(),
{
    if table.len() == 0 || table[0].0 == code {
        0
    } else {
        1 + density_position(table.drop_first(), code)
    }
}

/// The name of the format that a density code stands for.
pub open spec fn density_name_spec(code: u8) -> Option<Seq<char>> {
    let k = density_position(density_entries(), code);
    if k < density_entries().len() {
        Some(density_entries()[k].1)
    } else {
        None
    }
}

proof fn lemma_density_position(table: Seq<(u8, Seq<char>)>, code: u8)
    ensures
        0 <= density_position(table, code) <= table.len(),
        density_position(table, code) < table.len() ==> table[density_position(table, code)].0
            == code,
        forall|j: int| 0 <= j < density_position(table, code) ==> table[j].0 != code,
    decreases table.len(),
{
    if table.len() > 0 && table[0].0 != code {
        lemma_density_position(table.drop_first(), code);
        assert forall|j: int| 0 <= j < density_position(table, code) implies table[j].0 != code by {
            if j > 0 {
                assert(table[j] == table.drop_first()[j - 1]);
            }
        }
    }
}

/// The name of the format that a density code stands for; `None` for an unknown code.
pub fn density_name(code: u8) -> (name: Option<&'static str>)
    ensures
        (match name {
            Some(n) => Some(n@),
            None => None,
        }) == density_name_spec(code),
{
    let table = density_table();
    let ghost entries = density_entries();
    let mut i: usize = 0;
    proof {
        lemma_density_position(entries, code);
    }
    while i < table.len()
        invariant
            i <= table@.len(),
            entries == density_entries(),
            table_view(table@) == entries,
            i <= density_position(entries, code) <= entries.len(),
            density_position(entries, code) < entries.len() ==> entries[density_position(
                entries,
                code,
            )].0 == code,
            forall|j: int| 0 <= j < density_position(entries, code) ==> entries[j].0 != code,
        decreases table@.len() - i,
    {
        assert(entries[i as int] == table_view(table@)[i as int]);
        if table[i].0 == code {
            return Some(table[i].1);
        }
        i = i + 1;
    }
    None
}

/// The media identifier that ends the barcode of an LTO cartridge.
pub open spec fn lto_suffix_spec(code: u8) -> Option<Seq<char>> {
    if code == 0x40 {
        Some("L1"@)
    } else if code == 0x42 {
        Some("L2"@)
    } else if code == 0x44 {
        Some("L3"@)
    } else if code == 0x46 {
        Some("L4"@)
    } else if code == 0x58 {
        Some("L5"@)
    } else if code == 0x5a {
        Some("L6"@)
    } else if code == 0x5c {
        Some("L7"@)
    } else if code == 0x5d {
        Some("M8"@)
    } else if code == 0x5e {
        Some("L8"@)
    } else if code == 0x60 {
        Some("L9"@)
    } else {
        None
    }
}

/// The media identifier that ends the barcode of an LTO cartridge: a volume serial of
/// six characters is followed by these two. `None` where the code is not that of an
/// ordinary LTO data cartridge.
pub fn lto_generation_suffix(code: u8) -> (suffix: Option<&'static str>)
    ensures
        (match suffix {
            Some(s) => Some(s@),
            None => None,
        }) == lto_suffix_spec(code),
{
    match code {
        0x40 => Some("L1"),
        0x42 => Some("L2"),
        0x44 => Some("L3"),
        0x46 => Some("L4"),
        0x58 => Some("L5"),
        0x5a => Some("L6"),
        0x5c => Some("L7"),
        0x5d => Some("M8"),
        0x5e => Some("L8"),
        0x60 => Some("L9"),
        _ => None,
    }
}

} // verus!
