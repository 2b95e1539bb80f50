//! Values of the medium auxiliary memory (MAM) attributes that LTFS uses.
use vstd::prelude::*;
use vstd::string::*;
use vstd::utf8::*;

use crate::bytes::{
    append_bytes, be_bytes, be_u64, be_value, lemma_be_round_trip, lemma_pow256, to_be,
};
use crate::text::utf8_string;

verus! {

pub const VOLUME_CHANGE_REFERENCE: u16 = 0x0009;

pub const APPLICATION_VENDOR: u16 = 0x0800;

pub const APPLICATION_NAME: u16 = 0x0801;

pub const APPLICATION_VERSION: u16 = 0x0802;

pub const USER_MEDIUM_TEXT_LABEL: u16 = 0x0803;

pub const DATE_TIME_LAST_WRITTEN: u16 = 0x0804;

pub const TEXT_LOCALIZATION_IDENTIFIER: u16 = 0x0805;

pub const BARCODE: u16 = 0x0806;

pub const APPLICATION_FORMAT_VERSION: u16 = 0x080b;

pub const VOLUME_COHERENCY_INFORMATION: u16 = 0x080c;

pub const MEDIUM_GLOBALLY_UNIQUE_IDENTIFIER: u16 = 0x0820;

#[derive(Debug, Clone, Copy, PartialEq, Eq, Structural)]
pub enum ValueFormat {
    Binary,
    Ascii,
    Text,
}

/// An attribute to be written.
#[derive(Debug, Clone, PartialEq, Eq)]
pub struct AttributeValue {
    pub id: u16,
    pub format: ValueFormat,
    pub value: Vec<u8>,
    pub required: bool,
}

/// The model of an attribute.
#[verifier::ext_equal]
pub struct AttributeModel {
    pub id: u16,
    pub format: ValueFormat,
    pub value: Seq<u8>,
    pub required: bool,
}

impl View for AttributeValue {
    type V = AttributeModel;

    open spec fn view(&self) -> AttributeModel {
        AttributeModel {
            id: self.id,
            format: self.format,
            value: self.value@,
            required: self.required,
        }
    }
}

pub open spec fn attribute_models(list: Seq<AttributeValue>) -> Seq<AttributeModel> {
    list.map_values(|a: AttributeValue| a@)
}

/// A fixed-width field: the first bytes of the value, filled up with blanks.
pub open spec fn blank_padded(bytes: Seq<u8>, len: nat) -> Seq<u8> {
    Seq::new(
        len,
        |i: int|
            if i < bytes.len() {
                bytes[i]
            } else {
                32u8
            },
    )
}

pub open spec fn ascii_spec(id: u16, value: Seq<char>, len: nat, required: bool) -> AttributeModel {
    AttributeModel {
        id,
        format: ValueFormat::Ascii,
        value: blank_padded(encode_utf8(value), len),
        required,
    }
}

/// The largest character boundary that is not beyond `end`.
pub open spec fn boundary_below(bytes: Seq<u8>, end: int) -> int
    decreases end,
{
    if end <= 0 || is_char_boundary(bytes, end) {
        end
    } else {
        boundary_below(bytes, end - 1)
    }
}

/// Where a text is cut so that at least one zero byte follows it in `len` bytes.
pub open spec fn text_cut(value: Seq<char>, len: nat) -> int {
    let bytes = encode_utf8(value);
    boundary_below(
        bytes,
        if bytes.len() < len - 1 {
            bytes.len() as int
        } else {
            len - 1
        },
    )
}

/// The text, cut at a character boundary, followed by zero bytes.
pub open spec fn nul_padded(value: Seq<char>, len: nat) -> Seq<u8> {
    Seq::new(
        len,
        |i: int|
            if len > 0 && i < text_cut(value, len) {
                encode_utf8(value)[i]
            } else {
                0u8
            },
    )
}

/// The host attributes of a freshly formatted volume, in the order in which they are
/// written.
pub open spec fn host_attributes(
    volume_name: Seq<char>,
    barcode: Seq<char>,
    volume_uuid: Seq<char>,
    app_version: Seq<char>,
    written_time: Seq<char>,
) -> Seq<AttributeModel> {
    seq![
        ascii_spec(APPLICATION_VENDOR, "tapecpy"@, 8, true),
        ascii_spec(APPLICATION_NAME, "LTFS tapecpy"@, 32, true),
        ascii_spec(APPLICATION_VERSION, app_version, 8, true),
        AttributeModel {
            id: USER_MEDIUM_TEXT_LABEL,
            format: ValueFormat::Text,
            value: nul_padded(volume_name, 160),
            required: false,
        },
        AttributeModel {
            id: TEXT_LOCALIZATION_IDENTIFIER,
            format: ValueFormat::Binary,
            value: seq![0x81u8],
            required: false,
        },
        ascii_spec(BARCODE, barcode, 32, false),
        ascii_spec(APPLICATION_FORMAT_VERSION, "2.4.0"@, 16, true),
        ascii_spec(DATE_TIME_LAST_WRITTEN, written_time, 12, false),
        AttributeModel {
            id: MEDIUM_GLOBALLY_UNIQUE_IDENTIFIER,
            format: ValueFormat::Binary,
            value: encode_utf8(volume_uuid),
            required: false,
        },
    ]
}

/// The host attributes of a freshly formatted volume. The application name begins with
/// "LTFS ", and text is UTF-8.
pub fn format_host_attributes(
    volume_name: &str,
    barcode: &str,
    volume_uuid: &str,
    app_version: &str,
    written_time: &str,
) -> (list: Vec<AttributeValue>)
    ensures
        attribute_models(list@) == host_attributes(
            volume_name@,
            barcode@,
            volume_uuid@,
            app_version@,
            written_time@,
        ),
{
    let mut list: Vec<AttributeValue> = Vec::new();
    list.push(ascii(APPLICATION_VENDOR, "tapecpy", 8, true));
    list.push(ascii(APPLICATION_NAME, "LTFS tapecpy", 32, true));
    list.push(ascii(APPLICATION_VERSION, app_version, 8, true));
    list.push(
        AttributeValue {
            id: USER_MEDIUM_TEXT_LABEL,
            format: ValueFormat::Text,
            value: null_terminated_utf8(volume_name, 160),
            required: false,
        },
    );
    let mut locale: Vec<u8> = Vec::new();
    locale.push(0x81);
    assert(locale@ =~= seq![0x81u8]);
    list.push(
        AttributeValue {
            id: TEXT_LOCALIZATION_IDENTIFIER,
            format: ValueFormat::Binary,
            value: locale,
            required: false,
        },
    );
    list.push(ascii(BARCODE, barcode, 32, false));
    list.push(ascii(APPLICATION_FORMAT_VERSION, "2.4.0", 16, true));
    list.push(ascii(DATE_TIME_LAST_WRITTEN, written_time, 12, false));
    list.push(
        AttributeValue {
            id: MEDIUM_GLOBALLY_UNIQUE_IDENTIFIER,
            format: ValueFormat::Binary,
            value: vstd::slice::slice_to_vec(volume_uuid.as_bytes()),
            required: false,
        },
    );
    assert(attribute_models(list@) =~= host_attributes(
        volume_name@,
        barcode@,
        volume_uuid@,
        app_version@,
        written_time@,
    ));
    list
}

fn ascii(id: u16, value: &str, len: usize, required: bool) -> (a: AttributeValue)
    ensures
        a@ == ascii_spec(id, value@, len as nat, required),
{
    let bytes = value.as_bytes();
    let mut out: Vec<u8> = Vec::new();
    let mut i: usize = 0;
    while i < len
        invariant
            i <= len,
            bytes@ == encode_utf8(value@),
            out@ == blank_padded(bytes@, len as nat).subrange(0, i as int),
        decreases len - i,
    {
        out.push(if i < bytes.len() { bytes[i] } else { 32 });
        i = i + 1;
        assert(out@ =~= blank_padded(bytes@, len as nat).subrange(0, i as int));
    }
    assert(out@ =~= blank_padded(bytes@, len as nat));
    AttributeValue { id, format: ValueFormat::Ascii, value: out, required }
}

fn null_terminated_utf8(value: &str, len: usize) -> (out: Vec<u8>)
    ensures
        out@ == nul_padded(value@, len as nat),
{
    let bytes = value.as_bytes();
    let mut out: Vec<u8> = Vec::new();
    let mut end: usize = 0;
    if len > 0 {
        end = if bytes.len() < len - 1 { bytes.len() } else { len - 1 };
        let ghost first = end as int;
        proof {
            encode_utf8_valid_utf8(value@);
            is_char_boundary_start_end_of_seq(bytes@);
        }
        while !value.is_char_boundary(end)
            invariant
                end <= first <= bytes@.len(),
                bytes@ == encode_utf8(value@),
                is_char_boundary(bytes@, 0),
                boundary_below(bytes@, first) == boundary_below(bytes@, end as int),
            decreases end,
        {
            end = end - 1;
        }
        assert(end == text_cut(value@, len as nat));
    }
    let mut i: usize = 0;
    while i < len
        invariant
            i <= len,
            end <= bytes@.len(),
            len > 0 ==> end == text_cut(value@, len as nat),
            bytes@ == encode_utf8(value@),
            out@ == nul_padded(value@, len as nat).subrange(0, i as int),
        decreases len - i,
    {
        out.push(if i < end { bytes[i] } else { 0 });
        i = i + 1;
        assert(out@ =~= nul_padded(value@, len as nat).subrange(0, i as int));
    }
    assert(out@ =~= nul_padded(value@, len as nat));
    out
}

// ---------------------------------------------------------------------------
// Volume coherency information
// ---------------------------------------------------------------------------

/// Volume coherency information (VCI): which index a partition held, and at which
/// volume change reference (VCR), when it was last consistent.
#[derive(Debug, Clone, PartialEq, Eq)]
pub struct VolumeCoherencyInformation {
    pub vcr: Vec<u8>,
    pub generation: u64,
    pub block: u64,
    pub volume_uuid: String,
    pub acsi_version: u8,
}

/// The model of a VCI.
#[verifier::ext_equal]
pub struct VciModel {
    pub vcr: Seq<u8>,
    pub generation: u64,
    pub block: u64,
    pub volume_uuid: Seq<char>,
    pub acsi_version: u8,
}

impl View for VolumeCoherencyInformation {
    type V = VciModel;

    open spec fn view(&self) -> VciModel {
        VciModel {
            vcr: self.vcr@,
            generation: self.generation,
            block: self.block,
            volume_uuid: self.volume_uuid@,
            acsi_version: self.acsi_version,
        }
    }
}

/// An ASCII hexadecimal digit.
pub open spec fn is_hex_byte(b: u8) -> bool {
    (48 <= b <= 57) || (65 <= b <= 70) || (97 <= b <= 102)
}

/// The form of a UUID: hexadecimal digits in groups of 8, 4, 4, 4 and 12.
pub open spec fn is_uuid_bytes(bytes: Seq<u8>) -> bool {
    &&& bytes.len() == 36
    &&& forall|i: int|
        0 <= i < 36 ==> if i == 8 || i == 13 || i == 18 || i == 23 {
            #[trigger] bytes[i] == 45
        } else {
            is_hex_byte(bytes[i])
        }
}

pub open spec fn is_uuid(text: Seq<char>) -> bool {
    is_uuid_bytes(encode_utf8(text))
}

/// A volume change reference that says something: not empty, not all zero, not all ones.
pub open spec fn is_vcr(vcr: Seq<u8>) -> bool {
    &&& vcr.len() > 0
    &&& exists|i: int| 0 <= i < vcr.len() && #[trigger] vcr[i] != 0
    &&& exists|i: int| 0 <= i < vcr.len() && #[trigger] vcr[i] != 0xff
}

/// The last eight bytes, with zeros in front of a shorter reference.
pub open spec fn eight_bytes(vcr: Seq<u8>) -> Seq<u8> {
    Seq::new(
        8,
        |i: int|
            if vcr.len() - 8 + i >= 0 {
                vcr[vcr.len() - 8 + i]
            } else {
                0u8
            },
    )
}

/// The first five bytes of the application client specific information: "LTFS" and a zero.
pub open spec fn ltfs_mark() -> Seq<u8> {
    seq![76u8, 84u8, 70u8, 83u8, 0u8]
}

/// A VCI as bytes.
pub open spec fn vci_bytes(vci: VciModel) -> Seq<u8> {
    seq![vci.vcr.len() as u8] + vci.vcr + be_bytes(vci.generation as nat, 8) + be_bytes(
        vci.block as nat,
        8,
    ) + be_bytes(43, 2) + ltfs_mark() + encode_utf8(vci.volume_uuid) + seq![0u8, vci.acsi_version]
}

/// What a byte sequence stands for as VCI, or what is wrong with it.
pub open spec fn vci_parsed(bytes: Seq<u8>) -> Result<VciModel, Seq<char>> {
    if bytes.len() == 0 {
        Err("VCI 为空"@)
    } else {
        let n = bytes[0] as int;
        let fixed = n + 19;
        let acsi_len = be_value(bytes.subrange(n + 17, n + 19));
        if bytes.len() < fixed {
            Err("VCI 在固定字段中截断"@)
        } else if bytes.len() < fixed + acsi_len || acsi_len < 43 {
            Err("VCI ACSI 截断或长度不足"@)
        } else {
            let acsi = bytes.subrange(fixed, fixed + acsi_len);
            if acsi.subrange(0, 5) != ltfs_mark() || acsi[41] != 0 {
                Err("VCI ACSI 不是 LTFS 格式"@)
            } else if !valid_utf8(acsi.subrange(5, 41)) {
                Err("VCI UUID 不是 ASCII/UTF-8"@)
            } else if !is_uuid(decode_utf8(acsi.subrange(5, 41))) {
                Err("volume UUID 格式无效"@)
            } else {
                Ok(
                    VciModel {
                        vcr: bytes.subrange(1, 1 + n),
                        generation: be_value(bytes.subrange(n + 1, n + 9)) as u64,
                        block: be_value(bytes.subrange(n + 9, n + 17)) as u64,
                        volume_uuid: decode_utf8(acsi.subrange(5, 41)),
                        acsi_version: acsi[42],
                    },
                )
            }
        }
    }
}

/// The model of the result of reading a VCI.
pub open spec fn vci_outcome(result: Result<VolumeCoherencyInformation, String>) -> Result<
    VciModel,
    Seq<char>,
> {
    match result {
        Ok(vci) => Ok(vci@),
        Err(message) => Err(message@),
    }
}

fn all_equal(bytes: &[u8], b: u8) -> (yes: bool)
    ensures
        yes == !(exists|i: int| 0 <= i < bytes@.len() && #[trigger] bytes@[i] != b),
{
    let mut i: usize = 0;
    while i < bytes.len()
        invariant
            i <= bytes@.len(),
            forall|j: int| 0 <= j < i ==> #[trigger] bytes@[j] == b,
        decreases bytes@.len() - i,
    {
        if bytes[i] != b {
            assert(bytes@[i as int] != b);
            return false;
        }
        i = i + 1;
    }
    true
}

/// Whether a text has the form of a UUID.
pub fn validate_uuid(value: &str) -> (result: Result<(), String>)
    ensures
        match result {
            Ok(_) => is_uuid(value@),
            Err(message) => !is_uuid(value@) && message@ == "volume UUID 格式无效"@,
        },
{
    let bytes = value.as_bytes();
    if bytes.len() != 36 {
        return Err("volume UUID 格式无效".to_owned());
    }
    let mut i: usize = 0;
    while i < 36
        invariant
            i <= 36,
            bytes@.len() == 36,
            bytes@ == encode_utf8(value@),
            forall|j: int|
                0 <= j < i ==> if j == 8 || j == 13 || j == 18 || j == 23 {
                    #[trigger] bytes@[j] == 45
                } else {
                    is_hex_byte(bytes@[j])
                },
        decreases 36 - i,
    {
        let b: u8 = bytes[i];
        let good = if i == 8 || i == 13 || i == 18 || i == 23 {
            b == 45
        } else {
            (b >= 48 && b <= 57) || (b >= 65 && b <= 70) || (b >= 97 && b <= 102)
        };
        if !good {
            assert(bytes@[i as int] == b);
            return Err("volume UUID 格式无效".to_owned());
        }
        i = i + 1;
    }
    Ok(())
}

impl VolumeCoherencyInformation {
    /// The VCI of an index. Drives give the reference in four or eight bytes; it is kept
    /// as eight, with zeros in front.
    pub fn new(vcr: &[u8], generation: u64, block: u64, volume_uuid: &str) -> (result: Result<
        Self,
        String,
    >)
        ensures
            vci_outcome(result) == (if !is_uuid(volume_uuid@) {
                Err("volume UUID 格式无效"@)
            } else if block == 0 {
                Err("VCI index block 不能为 0"@)
            } else if !is_vcr(vcr@) {
                Err("VCR 无效（为空、全零或全 FF）"@)
            } else {
                Ok(
                    VciModel {
                        vcr: eight_bytes(vcr@),
                        generation,
                        block,
                        volume_uuid: volume_uuid@,
                        acsi_version: 1,
                    },
                )
            }),
    {
        match validate_uuid(volume_uuid) {
            Ok(_) => {},
            Err(message) => {
                return Err(message);
            },
        }
        if block == 0 {
            return Err("VCI index block 不能为 0".to_owned());
        }
        if vcr.len() == 0 || all_equal(vcr, 0) || all_equal(vcr, 0xff) {
            return Err("VCR 无效（为空、全零或全 FF）".to_owned());
        }
        let mut normalized: Vec<u8> = Vec::new();
        let mut i: usize = 0;
        while i < 8
            invariant
                i <= 8,
                normalized@ == eight_bytes(vcr@).subrange(0, i as int),
            decreases 8 - i,
        {
            let b: u8 = if vcr.len() >= 8 - i { vcr[vcr.len() - (8 - i)] } else { 0 };
            normalized.push(b);
            i = i + 1;
            assert(normalized@ =~= eight_bytes(vcr@).subrange(0, i as int));
        }
        assert(normalized@ =~= eight_bytes(vcr@));
        Ok(
            VolumeCoherencyInformation {
                vcr: normalized,
                generation,
                block,
                volume_uuid: volume_uuid.to_owned(),
                acsi_version: 1,
            },
        )
    }

    /// The bytes of the attribute.
    pub fn to_bytes(&self) -> (result: Result<Vec<u8>, String>)
        ensures
            match result {
                Ok(bytes) => is_uuid(self.volume_uuid@) && 0 < self.vcr@.len() <= 255 && bytes@
                    == vci_bytes(self@),
                Err(message) => if !is_uuid(self.volume_uuid@) {
                    message@ == "volume UUID 格式无效"@
                } else {
                    !(0 < self.vcr@.len() <= 255) && message@ == "VCI VCR 长度无效"@
                },
            },
    {
        match validate_uuid(self.volume_uuid.as_str()) {
            Ok(_) => {},
            Err(message) => {
                return Err(message);
            },
        }
        if self.vcr.len() == 0 || self.vcr.len() > 255 {
            return Err("VCI VCR 长度无效".to_owned());
        }
        let mut out: Vec<u8> = Vec::new();
        out.push(self.vcr.len() as u8);
        append_bytes(&mut out, self.vcr.as_slice());
        append_bytes(&mut out, to_be(self.generation, 8).as_slice());
        append_bytes(&mut out, to_be(self.block, 8).as_slice());
        append_bytes(&mut out, to_be(43, 2).as_slice());
        let ghost head = out@;
        out.push(76);
        out.push(84);
        out.push(70);
        out.push(83);
        out.push(0);
        assert(out@ =~= head + ltfs_mark());
        append_bytes(&mut out, self.volume_uuid.as_str().as_bytes());
        out.push(0);
        out.push(self.acsi_version);
        assert(out@ =~= vci_bytes(self@));
        Ok(out)
    }

    /// Reads the bytes of the attribute.
    pub fn parse(bytes: &[u8]) -> (result: Result<Self, String>)
        ensures
            vci_outcome(result) == vci_parsed(bytes@),
    {
        if bytes.len() == 0 {
            return Err("VCI 为空".to_owned());
        }
        let vcr_len: usize = bytes[0] as usize;
        let fixed: usize = vcr_len + 19;
        if bytes.len() < fixed {
            return Err("VCI 在固定字段中截断".to_owned());
        }
        proof {
            lemma_pow256();
            crate::bytes::lemma_be_value_bound(bytes@.subrange(vcr_len + 17, vcr_len + 19));
        }
        let generation: u64 = be_u64(
            vstd::slice::slice_subrange(bytes, vcr_len + 1, vcr_len + 9),
        );
        let block: u64 = be_u64(vstd::slice::slice_subrange(bytes, vcr_len + 9, vcr_len + 17));
        let acsi_len: usize = be_u64(
            vstd::slice::slice_subrange(bytes, vcr_len + 17, vcr_len + 19),
        ) as usize;
        if bytes.len() < fixed + acsi_len || acsi_len < 43 {
            return Err("VCI ACSI 截断或长度不足".to_owned());
        }
        let acsi = vstd::slice::slice_subrange(bytes, fixed, fixed + acsi_len);
        let marked = acsi[0] == 76 && acsi[1] == 84 && acsi[2] == 70 && acsi[3] == 83 && acsi[4]
            == 0;
        proof {
            let head = acsi@.subrange(0, 5);
            if marked {
                assert(head =~= ltfs_mark());
            } else {
                assert(head[0] == acsi@[0] && head[1] == acsi@[1] && head[2] == acsi@[2] && head[3]
                    == acsi@[3] && head[4] == acsi@[4]);
                assert(head != ltfs_mark());
            }
        }
        if !marked || acsi[41] != 0 {
            return Err("VCI ACSI 不是 LTFS 格式".to_owned());
        }
        let text = vstd::slice::slice_to_vec(vstd::slice::slice_subrange(acsi, 5, 41));
        let volume_uuid = match utf8_string(text) {
            Ok(text) => text,
            Err(_) => {
                return Err("VCI UUID 不是 ASCII/UTF-8".to_owned());
            },
        };
        match validate_uuid(volume_uuid.as_str()) {
            Ok(_) => {},
            Err(message) => {
                return Err(message);
            },
        }
        Ok(
            VolumeCoherencyInformation {
                vcr: vstd::slice::slice_to_vec(
                    vstd::slice::slice_subrange(bytes, 1, 1 + vcr_len),
                ),
                generation,
                block,
                volume_uuid,
                acsi_version: acsi[42],
            },
        )
    }
}

/// The bytes of a VCI give it back.
pub proof fn vci_round_trip(vci: VciModel)
    requires
        is_uuid(vci.volume_uuid),
        0 < vci.vcr.len() <= 255,
    ensures
        vci_parsed(vci_bytes(vci)) == Ok::<VciModel, Seq<char>>(vci),
{
    let bytes = vci_bytes(vci);
    let n = vci.vcr.len() as int;
    let generation = be_bytes(vci.generation as nat, 8);
    let block = be_bytes(vci.block as nat, 8);
    let length = be_bytes(43, 2);
    let uuid = encode_utf8(vci.volume_uuid);
    lemma_pow256();
    lemma_be_round_trip(vci.generation as nat, 8);
    lemma_be_round_trip(vci.block as nat, 8);
    lemma_be_round_trip(43, 2);
    assert(bytes[0] == n);
    assert(bytes.subrange(1, 1 + n) =~= vci.vcr);
    assert(bytes.subrange(n + 1, n + 9) =~= generation);
    assert(bytes.subrange(n + 9, n + 17) =~= block);
    assert(bytes.subrange(n + 17, n + 19) =~= length);
    let acsi = bytes.subrange(n + 19, n + 19 + 43);
    assert(acsi.subrange(0, 5) =~= ltfs_mark());
    assert(acsi.subrange(5, 41) =~= uuid);
    encode_utf8_valid_utf8(vci.volume_uuid);
    encode_utf8_decode_utf8(vci.volume_uuid);
    assert(vci_parsed(bytes)->Ok_0 =~= vci);
}

/// A VCI that is made for an index can be written and is read back as it was made: the
/// reference in eight bytes, which are its own where it has eight.
pub proof fn vci_made_is_read_back(
    vcr: Seq<u8>,
    generation: u64,
    block: u64,
    volume_uuid: Seq<char>,
)
    requires
        is_uuid(volume_uuid),
    ensures
        ({
            let made = VciModel {
                vcr: eight_bytes(vcr),
                generation,
                block,
                volume_uuid,
                acsi_version: 1,
            };
            &&& 0 < made.vcr.len() <= 255
            &&& vci_parsed(vci_bytes(made)) == Ok::<VciModel, Seq<char>>(made)
        }),
        vcr.len() == 8 ==> eight_bytes(vcr) == vcr,
{
    let made = VciModel {
        vcr: eight_bytes(vcr),
        generation,
        block,
        volume_uuid,
        acsi_version: 1,
    };
    assert(made.vcr.len() == 8);
    vci_round_trip(made);
    if vcr.len() == 8 {
        assert(eight_bytes(vcr) =~= vcr);
    }
}

} // verus!
