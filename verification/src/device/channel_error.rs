//! The channel error pages 87h and 88h of LTO drives.
//!
//! A bit error rate is `log10(delta C1 / delta CCP / 2 / 1920)`. Rates are compared here
//! by their ordering keys: the integers that stand for the numbers in the total order of
//! 64-bit floating point (negative numbers complemented below the sign bit). The rates
//! themselves are computed where they are shown.
use vstd::prelude::*;
use vstd::string::*;
use vstd::utf8::*;

use crate::bytes::{be_pair, be_value};
use crate::text::{
    cat2, cat3, cat4, chars_of, decimal, decimal_spec, hex_padded, hex_spec, utf8_string, views,
};

verus! {

#[derive(Debug, Clone, Copy, PartialEq, Eq, Structural)]
pub enum PageKind {
    Read,
    Write,
}

pub open spec fn page_code_spec(kind: PageKind) -> u8 {
    match kind {
        PageKind::Read => 0x87,
        PageKind::Write => 0x88,
    }
}

/// The number of fields in front of the channels.
pub open spec fn summary_fields_spec(kind: PageKind) -> nat {
    match kind {
        PageKind::Read => 5,
        PageKind::Write => 4,
    }
}

impl PageKind {
    pub fn page_code(self) -> (code: u8)
        ensures
            code == page_code_spec(self),
    {
        match self {
            PageKind::Read => 0x87,
            PageKind::Write => 0x88,
        }
    }

    pub fn summary_fields(self) -> (count: usize)
        ensures
            count == summary_fields_spec(self),
    {
        match self {
            PageKind::Read => 5,
            PageKind::Write => 4,
        }
    }
}

/// The counters of one channel.
#[derive(Debug, Clone, Copy, PartialEq, Eq, Structural)]
pub struct ChannelCounters {
    pub c1_errors: u64,
    pub c1_uncorrectable: u64,
    pub header_errors: u64,
    pub write_pass_errors: u64,
    pub ccps: u64,
}

impl Default for ChannelCounters {
    fn default() -> (counters: ChannelCounters)
        ensures
            counters == (ChannelCounters {
                c1_errors: 0,
                c1_uncorrectable: 0,
                header_errors: 0,
                write_pass_errors: 0,
                ccps: 0,
            }),
    {
        ChannelCounters {
            c1_errors: 0,
            c1_uncorrectable: 0,
            header_errors: 0,
            write_pass_errors: 0,
            ccps: 0,
        }
    }
}

// ---------------------------------------------------------------------------
// Words and hexadecimal numerals
// ---------------------------------------------------------------------------

/// Blank, tab, line feed, form feed and carriage return.
pub open spec fn is_ascii_space(c: char) -> bool {
    c == ' ' || c == '\t' || c == '\n' || c == '\x0c' || c == '\r'
}

/// The finished words of a text, and the one that its end stands in.
pub open spec fn word_state(text: Seq<char>) -> (Seq<Seq<char>>, Seq<char>)
    decreases text.len(),
{
    if text.len() == 0 {
        (Seq::empty(), Seq::empty())
    } else {
        let (words, current) = word_state(text.drop_last());
        if is_ascii_space(text.last()) {
            (closed_words(words, current), Seq::empty())
        } else {
            (words, current.push(text.last()))
        }
    }
}

pub open spec fn closed_words(words: Seq<Seq<char>>, current: Seq<char>) -> Seq<Seq<char>> {
    if current.len() > 0 {
        words.push(current)
    } else {
        words
    }
}

/// The words of a text, separated by ASCII white space.
pub open spec fn words_spec(text: Seq<char>) -> Seq<Seq<char>> {
    let (words, current) = word_state(text);
    closed_words(words, current)
}

fn words(text: &str) -> (list: Vec<String>)
    ensures
        views(list@) == words_spec(text@),
{
    let chars = chars_of(text);
    let mut list: Vec<String> = Vec::new();
    let mut current = String::new();
    let mut i: usize = 0;
    proof {
        assert(text@.subrange(0, 0) =~= Seq::<char>::empty());
        assert(views(list@) =~= Seq::<Seq<char>>::empty());
    }
    while i < chars.len()
        invariant
            i <= chars@.len(),
            chars@ == text@,
            word_state(text@.subrange(0, i as int)) == (views(list@), current@),
        decreases chars@.len() - i,
    {
        proof {
            let next = text@.subrange(0, i + 1);
            assert(next.drop_last() =~= text@.subrange(0, i as int));
            assert(next.last() == chars@[i as int]);
        }
        let c = chars[i];
        if c == ' ' || c == '\t' || c == '\n' || c == '\x0c' || c == '\r' {
            if !current.as_str().is_empty() {
                let ghost before = list@;
                let word = current;
                list.push(word);
                assert(views(list@) =~= views(before).push(word@));
            }
            current = String::new();
        } else {
            current.push(c);
        }
        i = i + 1;
    }
    assert(text@.subrange(0, i as int) =~= text@);
    if !current.as_str().is_empty() {
        let ghost before = list@;
        list.push(current);
        assert(views(list@) =~= views(before).push(current@));
    }
    list
}

/// The value of a hexadecimal digit.
pub open spec fn hex_digit(c: char) -> Option<nat> {
    if '0' <= c <= '9' {
        Some((c as u32 - '0' as u32) as nat)
    } else if 'a' <= c <= 'f' {
        Some((c as u32 - 'a' as u32 + 10) as nat)
    } else if 'A' <= c <= 'F' {
        Some((c as u32 - 'A' as u32 + 10) as nat)
    } else {
        None
    }
}

/// The value of a sequence of hexadecimal digits.
pub open spec fn hex_value(digits: Seq<char>) -> Option<nat>
    decreases digits.len(),
{
    if digits.len() == 0 {
        Some(0)
    } else {
        match (hex_value(digits.drop_last()), hex_digit(digits.last())) {
            (Some(high), Some(low)) => Some(high * 16 + low),
            _ => None,
        }
    }
}

/// A 64-bit hexadecimal numeral, with an optional plus sign.
pub open spec fn hex_u64(text: Seq<char>) -> Option<u64> {
    let digits = crate::text::numeral_digits(text);
    match hex_value(digits) {
        Some(n) => if digits.len() > 0 && n <= u64::MAX {
            Some(n as u64)
        } else {
            None
        },
        None => None,
    }
}

fn digit_value(c: char) -> (d: Option<u64>)
    ensures
        match d {
            Some(n) => hex_digit(c) == Some(n as nat) && n < 16,
            None => hex_digit(c) is None,
        },
{
    if '0' <= c && c <= '9' {
        Some((c as u32 - '0' as u32) as u64)
    } else if 'a' <= c && c <= 'f' {
        Some((c as u32 - 'a' as u32 + 10) as u64)
    } else if 'A' <= c && c <= 'F' {
        Some((c as u32 - 'A' as u32 + 10) as u64)
    } else {
        None
    }
}

fn parse_hex(text: &str) -> (value: Option<u64>)
    ensures
        value == hex_u64(text@),
{
    let chars = chars_of(text);
    let start: usize = if chars.len() > 0 && chars[0] == '+' { 1 } else { 0 };
    let ghost digits = crate::text::numeral_digits(text@);
    assert(digits =~= chars@.subrange(start as int, chars@.len() as int));
    if start == chars.len() {
        return None;
    }
    let mut value: u64 = 0;
    let mut fits = true;
    let mut good = true;
    let mut i: usize = start;
    assert(digits.subrange(0, 0) =~= Seq::<char>::empty());
    while i < chars.len()
        invariant
            start <= i <= chars@.len(),
            digits == chars@.subrange(start as int, chars@.len() as int),
            good == (hex_value(digits.subrange(0, i - start)) is Some),
            good && fits ==> hex_value(digits.subrange(0, i - start)) == Some(value as nat),
            good && !fits ==> hex_value(digits.subrange(0, i - start))->0 > u64::MAX,
        decreases chars@.len() - i,
    {
        proof {
            let next = digits.subrange(0, i - start + 1);
            assert(next.drop_last() =~= digits.subrange(0, i - start));
            assert(next.last() == chars@[i as int]);
        }
        match digit_value(chars[i]) {
            Some(d) => {
                if good && fits {
                    if value > u64::MAX / 16 {
                        fits = false;
                    } else {
                        value = value * 16 + d;
                    }
                }
            },
            None => {
                good = false;
            },
        }
        i = i + 1;
    }
    assert(digits.subrange(0, i - start) =~= digits);
    if good && fits { Some(value) } else { None }
}

// ---------------------------------------------------------------------------
// Pages
// ---------------------------------------------------------------------------

/// The counters that five fields stand for; the first that is not a numeral is reported.
pub open spec fn counters_of(fields: Seq<Seq<char>>) -> Result<ChannelCounters, Seq<char>> {
    if hex_u64(fields[0]) is None {
        Err("无效 diagnostic 十六进制字段: "@ + fields[0])
    } else if hex_u64(fields[1]) is None {
        Err("无效 diagnostic 十六进制字段: "@ + fields[1])
    } else if hex_u64(fields[2]) is None {
        Err("无效 diagnostic 十六进制字段: "@ + fields[2])
    } else if hex_u64(fields[3]) is None {
        Err("无效 diagnostic 十六进制字段: "@ + fields[3])
    } else if hex_u64(fields[4]) is None {
        Err("无效 diagnostic 十六进制字段: "@ + fields[4])
    } else {
        Ok(
            ChannelCounters {
                c1_errors: hex_u64(fields[0])->0,
                c1_uncorrectable: hex_u64(fields[1])->0,
                header_errors: hex_u64(fields[2])->0,
                write_pass_errors: hex_u64(fields[3])->0,
                ccps: hex_u64(fields[4])->0,
            },
        )
    }
}

/// The channels that a list of fields stands for, five fields each.
pub open spec fn channels_of(fields: Seq<Seq<char>>) -> Result<Seq<ChannelCounters>, Seq<char>>
    decreases fields.len(),
{
    if fields.len() < 5 {
        Ok(Seq::empty())
    } else {
        match counters_of(fields.subrange(0, 5)) {
            Err(message) => Err(message),
            Ok(first) => match channels_of(fields.subrange(5, fields.len() as int)) {
                Err(message) => Err(message),
                Ok(rest) => Ok(seq![first] + rest),
            },
        }
    }
}

/// A channel error page.
pub open spec fn channel_page(data: Seq<u8>, kind: PageKind) -> Result<
    Seq<ChannelCounters>,
    Seq<char>,
> {
    let summary = summary_fields_spec(kind) as int;
    if data.len() < 4 {
        Err("diagnostic page header 截断"@)
    } else if data[0] != page_code_spec(kind) {
        Err(
            "diagnostic page code 不匹配：期望 0x"@ + hex_spec(page_code_spec(kind) as nat, 2)
                + "，实际 0x"@ + hex_spec(data[0] as nat, 2),
        )
    } else {
        let declared = be_value(data.subrange(2, 4)) as int;
        if data.len() < declared + 4 {
            Err("diagnostic page 正文截断"@)
        } else {
            let body = data.subrange(4, 4 + declared);
            if !valid_utf8(body) {
                Err("diagnostic page 不是 ASCII/UTF-8"@)
            } else {
                let fields = words_spec(decode_utf8(body));
                if fields.len() < summary {
                    Err("diagnostic page 缺少 summary 字段"@)
                } else if (fields.len() - summary) % 5 != 0 {
                    Err(
                        "diagnostic channel 字段数 "@ + decimal_spec((fields.len() - summary) as nat)
                            + " 不是 5 的倍数"@,
                    )
                } else {
                    channels_of(fields.subrange(summary, fields.len() as int))
                }
            }
        }
    }
}

pub open spec fn channels_outcome(result: Result<Vec<ChannelCounters>, String>) -> Result<
    Seq<ChannelCounters>,
    Seq<char>,
> {
    match result {
        Ok(list) => Ok(list@),
        Err(message) => Err(message@),
    }
}

fn field_value(field: &String) -> (result: Result<u64, String>)
    ensures
        match result {
            Ok(n) => hex_u64(field@) == Some(n),
            Err(message) => hex_u64(field@) is None && message@
                == "无效 diagnostic 十六进制字段: "@ + field@,
        },
{
    match parse_hex(field.as_str()) {
        Some(n) => Ok(n),
        None => Err(cat2("无效 diagnostic 十六进制字段: ", field.as_str())),
    }
}

fn read_counters(fields: &Vec<String>, at: usize) -> (result: Result<ChannelCounters, String>)
    requires
        at + 5 <= fields@.len(),
    ensures
        match result {
            Ok(c) => counters_of(views(fields@).subrange(at as int, at + 5)) == Ok::<
                ChannelCounters,
                Seq<char>,
            >(c),
            Err(message) => counters_of(views(fields@).subrange(at as int, at + 5)) == Err::<
                ChannelCounters,
                Seq<char>,
            >(message@),
        },
{
    let count: usize = fields.len();
    assert(at + 5 <= count);
    let ghost five = views(fields@).subrange(at as int, at + 5);
    assert(five[0] == fields@[at as int]@ && five[1] == fields@[at + 1]@ && five[2] == fields@[at
        + 2]@ && five[3] == fields@[at + 3]@ && five[4] == fields@[at + 4]@);
    let c1_errors: u64 = match field_value(&fields[at]) {
        Ok(n) => n,
        Err(message) => {
            return Err(message);
        },
    };
    let c1_uncorrectable: u64 = match field_value(&fields[at + 1]) {
        Ok(n) => n,
        Err(message) => {
            return Err(message);
        },
    };
    let header_errors: u64 = match field_value(&fields[at + 2]) {
        Ok(n) => n,
        Err(message) => {
            return Err(message);
        },
    };
    let write_pass_errors: u64 = match field_value(&fields[at + 3]) {
        Ok(n) => n,
        Err(message) => {
            return Err(message);
        },
    };
    let ccps: u64 = match field_value(&fields[at + 4]) {
        Ok(n) => n,
        Err(message) => {
            return Err(message);
        },
    };
    Ok(ChannelCounters { c1_errors, c1_uncorrectable, header_errors, write_pass_errors, ccps })
}

fn read_channels(fields: &Vec<String>, from: usize) -> (result: Result<
    Vec<ChannelCounters>,
    String,
>)
    requires
        from <= fields@.len(),
    ensures
        channels_outcome(result) == channels_of(
            views(fields@).subrange(from as int, fields@.len() as int),
        ),
{
    let ghost all = views(fields@);
    let ghost channels = all.subrange(from as int, all.len() as int);
    let mut list: Vec<ChannelCounters> = Vec::new();
    let mut at: usize = from;
    proof {
        assert(forall|s: Seq<ChannelCounters>| #[trigger]
            (Seq::<ChannelCounters>::empty() + s) =~= s);
        assert(list@ =~= Seq::<ChannelCounters>::empty());
    }
    while fields.len() - at >= 5
        invariant
            from <= at <= fields@.len(),
            all == views(fields@),
            channels == all.subrange(from as int, all.len() as int),
            channels_of(channels) == (match channels_of(
                all.subrange(at as int, all.len() as int),
            ) {
                Ok(rest) => Ok(list@ + rest),
                Err(message) => Err(message),
            }),
        decreases fields@.len() - at,
    {
        let ghost rest = all.subrange(at as int, all.len() as int);
        assert(rest.subrange(0, 5) =~= all.subrange(at as int, at + 5));
        assert(rest.subrange(5, rest.len() as int) =~= all.subrange(at + 5, all.len() as int));
        match read_counters(fields, at) {
            Ok(counters) => {
                let ghost before = list@;
                list.push(counters);
                proof {
                    match channels_of(all.subrange(at + 5, all.len() as int)) {
                        Ok(more) => {
                            assert(before + (seq![counters] + more) =~= list@ + more);
                        },
                        Err(message) => {},
                    }
                }
            },
            Err(message) => {
                return Err(message);
            },
        }
        at = at + 5;
    }
    assert(list@ + Seq::<ChannelCounters>::empty() =~= list@);
    Ok(list)
}

/// Reads a channel error page: a four-byte header and text in hexadecimal fields, some
/// for the page as a whole and five for each channel.
pub fn parse_page(data: &[u8], kind: PageKind) -> (result: Result<Vec<ChannelCounters>, String>)
    ensures
        channels_outcome(result) == channel_page(data@, kind),
{
    if data.len() < 4 {
        return Err("diagnostic page header 截断".to_owned());
    }
    if data[0] != kind.page_code() {
        return Err(
            cat4(
                "diagnostic page code 不匹配：期望 0x",
                hex_padded(kind.page_code() as u64, 2).as_str(),
                "，实际 0x",
                hex_padded(data[0] as u64, 2).as_str(),
            ),
        );
    }
    let declared: usize = be_pair(data[2], data[3]) as usize;
    assert(seq![data@[2], data@[3]] =~= data@.subrange(2, 4));
    if data.len() < declared + 4 {
        return Err("diagnostic page 正文截断".to_owned());
    }
    let body = vstd::slice::slice_to_vec(vstd::slice::slice_subrange(data, 4, 4 + declared));
    let text = match utf8_string(body) {
        Ok(text) => text,
        Err(_) => {
            return Err("diagnostic page 不是 ASCII/UTF-8".to_owned());
        },
    };
    let fields = words(text.as_str());
    let ghost all = views(fields@);
    assert(all.len() == fields@.len());
    let summary: usize = kind.summary_fields();
    if fields.len() < summary {
        return Err("diagnostic page 缺少 summary 字段".to_owned());
    }
    let count: usize = fields.len() - summary;
    if count % 5 != 0 {
        return Err(
            cat3("diagnostic channel 字段数 ", decimal(count as u64).as_str(), " 不是 5 的倍数"),
        );
    }
    read_channels(&fields, summary)
}

// ---------------------------------------------------------------------------
// Rates
// ---------------------------------------------------------------------------

/// Where the rate of a channel comes from.
#[derive(Debug, Clone, Copy, PartialEq, Eq, Structural)]
pub enum RateSource {
    /// The quotient of errors and codeword pairs since the last sample.
    Measured { c1: u64, ccps: u64 },
    /// The channel did not advance; a fixed rate of -2.98 stands for it.
    Idle,
    /// A counter went backwards.
    Unknown,
}

/// What happened on a channel between two samples.
#[derive(Debug, Clone, Copy, PartialEq, Eq, Structural)]
pub struct ChannelDelta {
    pub channel: usize,
    pub source: RateSource,
    pub ccp_advanced: bool,
}

/// What happened on a channel between two samples.
pub open spec fn delta_spec(
    channel: usize,
    before: ChannelCounters,
    after: ChannelCounters,
) -> ChannelDelta {
    ChannelDelta {
        channel,
        source: if after.ccps > before.ccps && after.c1_errors >= before.c1_errors {
            RateSource::Measured {
                c1: (after.c1_errors - before.c1_errors) as u64,
                ccps: (after.ccps - before.ccps) as u64,
            }
        } else if after.ccps == before.ccps {
            RateSource::Idle
        } else {
            RateSource::Unknown
        },
        ccp_advanced: after.ccps > before.ccps,
    }
}

/// What happened on each channel that is in both samples.
pub fn deltas(before: &Vec<ChannelCounters>, after: &Vec<ChannelCounters>) -> (list: Vec<
    ChannelDelta,
>)
    ensures
        list@.len() == (if before@.len() < after@.len() {
            before@.len()
        } else {
            after@.len()
        }),
        forall|i: int|
            0 <= i < list@.len() ==> #[trigger] list@[i] == delta_spec(
                i as usize,
                before@[i],
                after@[i],
            ),
{
    let count: usize = if before.len() < after.len() { before.len() } else { after.len() };
    let mut list: Vec<ChannelDelta> = Vec::new();
    let mut i: usize = 0;
    while i < count
        invariant
            i <= count,
            count <= before@.len(),
            count <= after@.len(),
            list@.len() == i,
            forall|j: int|
                0 <= j < i ==> #[trigger] list@[j] == delta_spec(j as usize, before@[j], after@[j]),
        decreases count - i,
    {
        let b = before[i];
        let a = after[i];
        let advanced = a.ccps > b.ccps;
        let source = if advanced && a.c1_errors >= b.c1_errors {
            RateSource::Measured { c1: a.c1_errors - b.c1_errors, ccps: a.ccps - b.ccps }
        } else if a.ccps == b.ccps {
            RateSource::Idle
        } else {
            RateSource::Unknown
        };
        list.push(ChannelDelta { channel: i, source, ccp_advanced: advanced });
        i = i + 1;
    }
    list
}

/// The rate of a channel, by its ordering key.
#[derive(Debug, Clone, Copy, PartialEq, Eq, Structural)]
pub struct ChannelRate {
    pub channel: usize,
    pub log10_bit_error_rate: Option<i64>,
    pub ccp_advanced: bool,
}

/// The ordering key of zero.
pub const RATE_ZERO: i64 = 0;

/// The ordering key of the largest rate below zero.
pub const RATE_BELOW_ZERO: i64 = -2;

/// The ordering key of negative infinity.
pub const RATE_NEGATIVE_INFINITY: i64 = -9218868437227405313;

/// The ordering key of -10.
pub const RATE_FLOOR: i64 = -4621819117588971521;

/// The rate is a number below zero.
pub open spec fn is_negative(key: i64) -> bool {
    RATE_NEGATIVE_INFINITY <= key <= RATE_BELOW_ZERO
}

/// The largest rate below zero, if there is one.
pub open spec fn largest_negative(rates: Seq<ChannelRate>) -> Option<i64>
    decreases rates.len(),
{
    if rates.len() == 0 {
        None
    } else {
        let before = largest_negative(rates.drop_last());
        match rates.last().log10_bit_error_rate {
            Some(key) => if is_negative(key) && (before is None || key >= before->0) {
                Some(key)
            } else {
                before
            },
            None => before,
        }
    }
}

/// The worst rate to report: zero where no channel advanced or where the largest rate
/// below zero is under -10; `None` where no rate is below zero.
pub open spec fn worst_rate_spec(rates: Seq<ChannelRate>) -> Option<i64> {
    if forall|i: int| 0 <= i < rates.len() ==> !(#[trigger] rates[i]).ccp_advanced {
        Some(RATE_ZERO)
    } else {
        match largest_negative(rates) {
            None => None,
            Some(key) => if key < RATE_FLOOR {
                Some(RATE_ZERO)
            } else {
                Some(key)
            },
        }
    }
}

/// The worst rate of a sample.
pub fn worst_rate(rates: &[ChannelRate]) -> (worst: Option<i64>)
    ensures
        worst == worst_rate_spec(rates@),
{
    let mut advanced = false;
    let mut largest: Option<i64> = None;
    let mut i: usize = 0;
    assert(rates@.subrange(0, 0) =~= Seq::<ChannelRate>::empty());
    while i < rates.len()
        invariant
            i <= rates@.len(),
            advanced == !(forall|j: int| 0 <= j < i ==> !(#[trigger] rates@[j]).ccp_advanced),
            largest == largest_negative(rates@.subrange(0, i as int)),
        decreases rates@.len() - i,
    {
        proof {
            let next = rates@.subrange(0, i + 1);
            assert(next.drop_last() =~= rates@.subrange(0, i as int));
            assert(next.last() == rates@[i as int]);
        }
        if rates[i].ccp_advanced {
            advanced = true;
        }
        match rates[i].log10_bit_error_rate {
            Some(key) => {
                if RATE_NEGATIVE_INFINITY <= key && key <= RATE_BELOW_ZERO {
                    let better = match largest {
                        Some(old_key) => key >= old_key,
                        None => true,
                    };
                    if better {
                        largest = Some(key);
                    }
                }
            },
            None => {},
        }
        i = i + 1;
    }
    assert(rates@.subrange(0, i as int) =~= rates@);
    if !advanced {
        return Some(RATE_ZERO);
    }
    match largest {
        None => None,
        Some(key) => if key < RATE_FLOOR { Some(RATE_ZERO) } else { Some(key) },
    }
}

} // verus!
