//! Text helpers: concatenation, decimal and hexadecimal numerals, trimming,
//! splitting and ordering, each stated over the characters of the text.
use vstd::prelude::*;
use vstd::string::*;
use vstd::utf8::*;

verus! {

broadcast use vstd::string::group_string_axioms;

/// `String::push`: the character goes to the end of the text.
pub assume_specification[ String::push ](s: &mut String, c: char)
    ensures
        final(s)@ == old(s)@.push(c),
;

/// What `String::from_utf8` reports of a malformed byte sequence.
pub uninterp spec fn utf8_fault(bytes: Seq<u8>) -> Seq<char>;

/// `String::from_utf8`: succeeds exactly on valid UTF-8 and then gives the decoded text.
/// The wording of the error is left to `utf8_fault`.
#[verifier::external_body]
pub(crate) fn utf8_string(bytes: Vec<u8>) -> (text: Result<String, String>)
    ensures
        text is Ok <==> valid_utf8(bytes@),
        text is Ok ==> text->Ok_0@ == decode_utf8(bytes@),
        text is Err ==> text->Err_0@ == utf8_fault(bytes@),
{
    match String::from_utf8(bytes) {
        Ok(text) => Ok(text),
        Err(error) => Err(error.to_string()),
    }
}

/// The characters that `String::from_utf8_lossy` gives for a byte sequence.
pub uninterp spec fn lossy_utf8(bytes: Seq<u8>) -> Seq<char>;

/// `String::from_utf8_lossy`: valid UTF-8 is decoded as it stands. Which characters
/// replace malformed sequences is left to `lossy_utf8`.
#[verifier::external_body]
pub(crate) fn utf8_string_lossy(bytes: &[u8]) -> (text: String)
    ensures
        text@ == lossy_utf8(bytes@),
        valid_utf8(bytes@) ==> text@ == decode_utf8(bytes@),
{
    String::from_utf8_lossy(bytes).into_owned()
}

/// How the `Debug` form of a text looks.
pub uninterp spec fn debug_text(text: Seq<char>) -> Seq<char>;

/// The `Debug` form of `str`, as `format!` writes it: quoted, with escapes. Which
/// characters are escaped is left to `debug_text`.
#[verifier::external_body]
pub(crate) fn debug_of(text: &str) -> (quoted: String)
    ensures
        quoted@ == debug_text(text@),
{
    format!("{:?}", text)
}

// ---------------------------------------------------------------------------
// Characters and concatenation
// ---------------------------------------------------------------------------

/// The characters of `text`, in order.
pub fn chars_of(text: &str) -> (chars: Vec<char>)
    ensures
        chars@ == text@,
{
    let mut chars: Vec<char> = Vec::new();
    for c in rest: text.chars()
        invariant
            rest.seq() == text@,
            chars@ == text@.subrange(0, rest.index()),
    {
        chars.push(c);
        assert(chars@ =~= text@.subrange(0, rest.index() + 1));
    }
    assert(chars@ =~= text@);
    chars
}

/// The text made of `chars[from..to]`.
pub fn string_of(chars: &Vec<char>, from: usize, to: usize) -> (text: String)
    requires
        from <= to <= chars@.len(),
    ensures
        text@ == chars@.subrange(from as int, to as int),
{
    let mut text = String::new();
    let mut i: usize = from;
    while i < to
        invariant
            from <= i <= to <= chars@.len(),
            text@ == chars@.subrange(from as int, i as int),
        decreases to - i,
    {
        text.push(chars[i]);
        i = i + 1;
        assert(text@ =~= chars@.subrange(from as int, i as int));
    }
    text
}

/// Two texts are the same exactly when their characters are.
pub fn same(a: &str, b: &str) -> (equal: bool)
    ensures
        equal == (a@ == b@),
{
    a.to_owned() == b.to_owned()
}

pub fn cat2(a: &str, b: &str) -> (text: String)
    ensures
        text@ == a@ + b@,
{
    let mut text = a.to_owned();
    text.append(b);
    text
}

pub fn cat3(a: &str, b: &str, c: &str) -> (text: String)
    ensures
        text@ == a@ + b@ + c@,
{
    let mut text = cat2(a, b);
    text.append(c);
    text
}

pub fn cat4(a: &str, b: &str, c: &str, d: &str) -> (text: String)
    ensures
        text@ == a@ + b@ + c@ + d@,
{
    let mut text = cat3(a, b, c);
    text.append(d);
    text
}

pub fn cat5(a: &str, b: &str, c: &str, d: &str, e: &str) -> (text: String)
    ensures
        text@ == a@ + b@ + c@ + d@ + e@,
{
    let mut text = cat4(a, b, c, d);
    text.append(e);
    text
}

pub fn cat6(a: &str, b: &str, c: &str, d: &str, e: &str, f: &str) -> (text: String)
    ensures
        text@ == a@ + b@ + c@ + d@ + e@ + f@,
{
    let mut text = cat5(a, b, c, d, e);
    text.append(f);
    text
}

pub fn cat7(a: &str, b: &str, c: &str, d: &str, e: &str, f: &str, g: &str) -> (text: String)
    ensures
        text@ == a@ + b@ + c@ + d@ + e@ + f@ + g@,
{
    let mut text = cat6(a, b, c, d, e, f);
    text.append(g);
    text
}

/// The views of the texts of a list.
pub open spec fn views(list: Seq<String>) -> Seq<Seq<char>> {
    list.map_values(|s: String| s@)
}

/// The view of an optional text.
pub open spec fn opt_view(text: Option<String>) -> Option<Seq<char>> {
    match text {
        Some(t) => Some(t@),
        None => None,
    }
}

/// A copy of an optional text.
pub fn clone_opt(text: &Option<String>) -> (copy: Option<String>)
    ensures
        copy == *text,
{
    match text {
        Some(t) => Some(t.clone()),
        None => None,
    }
}

/// A copy of a list of texts.
pub fn clone_list(list: &Vec<String>) -> (copy: Vec<String>)
    ensures
        copy@ == list@,
{
    let mut copy: Vec<String> = Vec::new();
    let mut i: usize = 0;
    while i < list.len()
        invariant
            i <= list@.len(),
            copy@ == list@.subrange(0, i as int),
        decreases list@.len() - i,
    {
        copy.push(list[i].clone());
        i = i + 1;
        assert(copy@ =~= list@.subrange(0, i as int));
    }
    assert(copy@ =~= list@);
    copy
}

/// The position of the first text of `list` that equals `text`.
pub fn position_of(list: &Vec<String>, text: &str) -> (position: Option<usize>)
    ensures
        match position {
            Some(p) => p < list@.len() && list@[p as int]@ == text@ && forall|j: int|
                0 <= j < p ==> #[trigger] list@[j]@ != text@,
            None => forall|j: int| 0 <= j < list@.len() ==> #[trigger] list@[j]@ != text@,
        },
{
    let mut i: usize = 0;
    while i < list.len()
        invariant
            i <= list@.len(),
            forall|j: int| 0 <= j < i ==> #[trigger] list@[j]@ != text@,
        decreases list@.len() - i,
    {
        if same(list[i].as_str(), text) {
            return Some(i);
        }
        i = i + 1;
    }
    None
}

// ---------------------------------------------------------------------------
// Numerals
// ---------------------------------------------------------------------------

/// The character of a digit below sixteen, in lower case.
pub open spec fn digit_char(d: nat) -> char {
    if d < 10 {
        (('0' as u32) + d) as char
    } else {
        (('a' as u32) + (d - 10)) as char
    }
}

/// The numeral of `n` in base `base`, without leading zeros.
pub open spec fn numeral(n: nat, base: nat) -> Seq<char>
    decreases n,
    via numeral_decreases
{
    if base < 2 || n < base {
        seq![digit_char(n)]
    } else {
        numeral(n / base, base).push(digit_char(n % base))
    }
}

#[via_fn]
proof fn numeral_decreases(n: nat, base: nat) {
    if base >= 2 && n >= base {
        assert(n / base < n) by (nonlinear_arith)
            requires
                n >= base,
                base >= 2,
        ;
    }
}

/// The decimal numeral of `n`.
pub open spec fn decimal_spec(n: nat) -> Seq<char> {
    numeral(n, 10)
}

fn digit_of(d: u64) -> (c: char)
    requires
        d < 16,
    ensures
        c == digit_char(d as nat),
{
    if d < 10 {
        (48 + d as u8) as char
    } else {
        (97 + (d as u8 - 10)) as char
    }
}

fn numeral_of(n: u64, base: u64) -> (text: String)
    requires
        2 <= base <= 16,
    ensures
        text@ == numeral(n as nat, base as nat),
    decreases n,
{
    if n < base {
        let mut text = String::new();
        text.push(digit_of(n));
        assert(text@ =~= seq![digit_char(n as nat)]);
        text
    } else {
        proof {
            assert(n / base < n) by (nonlinear_arith)
                requires
                    n >= base,
                    base >= 2,
            ;
        }
        let mut text = numeral_of(n / base, base);
        text.push(digit_of(n % base));
        text
    }
}

/// `n` in decimal.
pub fn decimal(n: u64) -> (text: String)
    ensures
        text@ == decimal_spec(n as nat),
{
    numeral_of(n, 10)
}

/// `n` in lower-case hexadecimal, without a prefix.
pub fn hex(n: u64) -> (text: String)
    ensures
        text@ == numeral(n as nat, 16),
{
    numeral_of(n, 16)
}

/// `text` with copies of `fill` in front until it has at least `width` characters.
pub open spec fn left_padded(text: Seq<char>, width: nat, fill: char) -> Seq<char>
    decreases width - text.len(),
{
    if text.len() >= width {
        text
    } else {
        left_padded(seq![fill] + text, width, fill)
    }
}

/// `n` in lower-case hexadecimal with at least `width` digits.
pub open spec fn hex_spec(n: nat, width: nat) -> Seq<char> {
    left_padded(numeral(n, 16), width, '0')
}

/// `n` in lower-case hexadecimal with at least `width` digits.
pub fn hex_padded(n: u64, width: usize) -> (text: String)
    ensures
        text@ == hex_spec(n as nat, width as nat),
{
    pad_left(hex(n).as_str(), width, '0')
}

fn wide_numeral(n: u128) -> (text: String)
    ensures
        text@ == numeral(n as nat, 16),
    decreases n,
{
    if n < 16 {
        let mut text = String::new();
        text.push(digit_of(n as u64));
        assert(text@ =~= numeral(n as nat, 16));
        text
    } else {
        let mut text = wide_numeral(n / 16);
        text.push(digit_of((n % 16) as u64));
        text
    }
}

/// `n` in hexadecimal, with zeros in front up to a width.
pub fn hex_wide(n: u128, width: usize) -> (text: String)
    ensures
        text@ == hex_spec(n as nat, width as nat),
{
    pad_left(wide_numeral(n).as_str(), width, '0')
}

/// A hexadecimal digit, as it is written here.
pub open spec fn is_hex_char(c: char) -> bool {
    ('0' <= c && c <= '9') || ('a' <= c && c <= 'f')
}

proof fn lemma_numeral_shape(n: nat, width: nat)
    requires
        n < pow16(width),
        width > 0,
    ensures
        0 < numeral(n, 16).len() <= width,
        forall|i: int| 0 <= i < numeral(n, 16).len() ==> is_hex_char(#[trigger] numeral(n, 16)[i]),
    decreases width,
{
    assert(is_hex_char(digit_char(n % 16)));
    if n >= 16 {
        if width == 1 {
            assert(pow16(1) == 16 * pow16(0));
        }
        assert(n / 16 < pow16((width - 1) as nat)) by (nonlinear_arith)
            requires
                n < 16 * pow16((width - 1) as nat),
        ;
        lemma_numeral_shape(n / 16, (width - 1) as nat);
    } else {
        assert(is_hex_char(digit_char(n)));
    }
}

/// `16` to the power `k`.
pub open spec fn pow16(k: nat) -> nat
    decreases k,
{
    if k == 0 {
        1
    } else {
        16 * pow16((k - 1) as nat)
    }
}

proof fn lemma_padded_shape(text: Seq<char>, width: nat)
    requires
        text.len() <= width,
        forall|i: int| 0 <= i < text.len() ==> is_hex_char(#[trigger] text[i]),
    ensures
        left_padded(text, width, '0').len() == width,
        forall|i: int|
            0 <= i < width ==> is_hex_char(#[trigger] left_padded(text, width, '0')[i]),
    decreases width - text.len(),
{
    if text.len() < width {
        let more = seq!['0'] + text;
        assert forall|i: int| 0 <= i < more.len() implies is_hex_char(#[trigger] more[i]) by {
            if i > 0 {
                assert(more[i] == text[i - 1]);
            }
        }
        lemma_padded_shape(more, width);
    }
}

/// A number that fits in so many hexadecimal digits is written in just as many.
pub proof fn lemma_hex_shape(n: nat, width: nat)
    requires
        n < pow16(width),
        width > 0,
    ensures
        hex_spec(n, width).len() == width,
        forall|i: int| 0 <= i < width ==> is_hex_char(#[trigger] hex_spec(n, width)[i]),
{
    lemma_numeral_shape(n, width);
    lemma_padded_shape(numeral(n, 16), width);
}

/// Pads `text` on the left.
pub fn pad_left(text: &str, width: usize, fill: char) -> (padded: String)
    ensures
        padded@ == left_padded(text@, width as nat, fill),
{
    let length: usize = text.unicode_len();
    let mut padded = text.to_owned();
    let mut i: usize = length;
    while i < width
        invariant
            length <= i,
            i <= width || i == length,
            padded@.len() == i,
            left_padded(padded@, width as nat, fill) == left_padded(text@, width as nat, fill),
        decreases width - i,
    {
        let mut longer = String::new();
        longer.push(fill);
        longer.append(padded.as_str());
        assert(longer@ =~= seq![fill] + padded@);
        padded = longer;
        i = i + 1;
    }
    padded
}

/// `text` with copies of `fill` behind it until it has at least `width` characters.
pub open spec fn right_padded(text: Seq<char>, width: nat, fill: char) -> Seq<char>
    decreases width - text.len(),
{
    if text.len() >= width {
        text
    } else {
        right_padded(text.push(fill), width, fill)
    }
}

/// Pads `text` on the right.
pub fn pad_right(text: &str, width: usize, fill: char) -> (padded: String)
    ensures
        padded@ == right_padded(text@, width as nat, fill),
{
    let length: usize = text.unicode_len();
    let mut padded = text.to_owned();
    let mut i: usize = length;
    while i < width
        invariant
            length <= i,
            i <= width || i == length,
            padded@.len() == i,
            right_padded(padded@, width as nat, fill) == right_padded(text@, width as nat, fill),
        decreases width - i,
    {
        padded.push(fill);
        i = i + 1;
    }
    padded
}

/// Whether a character is an ASCII decimal digit.
pub open spec fn is_digit(c: char) -> bool {
    '0' <= c <= '9'
}

/// The value of a sequence of decimal digits.
pub open spec fn digits_value(digits: Seq<char>) -> nat
    decreases digits.len(),
{
    if digits.len() == 0 {
        0
    } else {
        (digits_value(digits.drop_last()) * 10 + (digits.last() as u32 - '0' as u32)) as nat
    }
}

/// The digits of an unsigned numeral: what follows an optional plus sign.
pub open spec fn numeral_digits(text: Seq<char>) -> Seq<char> {
    if text.len() > 0 && text[0] == '+' {
        text.subrange(1, text.len() as int)
    } else {
        text
    }
}

/// What an unsigned decimal numeral stands for, where it is one and does not exceed `max`.
pub open spec fn parse_unsigned_spec(text: Seq<char>, max: nat) -> Option<nat> {
    let digits = numeral_digits(text);
    if digits.len() > 0 && (forall|i: int|
        0 <= i < digits.len() ==> is_digit(#[trigger] digits[i])) && digits_value(digits) <= max {
        Some(digits_value(digits))
    } else {
        None
    }
}

/// A decimal numeral has digits only, and stands for the number it was made from.
pub proof fn lemma_decimal(n: nat)
    ensures
        decimal_spec(n).len() > 0,
        forall|i: int| 0 <= i < decimal_spec(n).len() ==> is_digit(#[trigger] decimal_spec(n)[i]),
        digits_value(decimal_spec(n)) == n,
        numeral_digits(decimal_spec(n)) == decimal_spec(n),
    decreases n,
{
    let text = decimal_spec(n);
    if n < 10 {
        assert(text =~= seq![digit_char(n)]);
        assert(text.drop_last() =~= Seq::<char>::empty());
        assert(digits_value(text.drop_last()) == 0);
    } else {
        lemma_decimal(n / 10);
        assert(text.drop_last() =~= decimal_spec(n / 10));
        assert(text.last() == digit_char(n % 10));
        assert forall|i: int| 0 <= i < text.len() implies is_digit(#[trigger] text[i]) by {
            if i < text.len() - 1 {
                assert(text[i] == decimal_spec(n / 10)[i]);
            }
        }
    }
    assert(is_digit(text[0]));
}

/// Parsing a decimal numeral gives the number back.
pub proof fn lemma_parse_decimal(n: nat, max: nat)
    requires
        n <= max,
    ensures
        parse_unsigned_spec(decimal_spec(n), max) == Some(n),
{
    lemma_decimal(n);
}

/// Parses an unsigned decimal numeral of at most `max`, with an optional plus sign.
pub fn parse_unsigned(text: &str, max: u64) -> (value: Option<u64>)
    ensures
        match value {
            Some(v) => parse_unsigned_spec(text@, max as nat) == Some(v as nat),
            None => parse_unsigned_spec(text@, max as nat) is None,
        },
{
    let chars = chars_of(text);
    let start: usize = if chars.len() > 0 && chars[0] == '+' { 1 } else { 0 };
    let ghost digits = numeral_digits(text@);
    proof {
        assert(digits =~= chars@.subrange(start as int, chars@.len() as int));
    }
    if start == chars.len() {
        return None;
    }
    let mut value: u64 = 0;
    let mut i: usize = start;
    let mut fits = true;
    while i < chars.len()
        invariant
            start <= i <= chars@.len(),
            digits == chars@.subrange(start as int, chars@.len() as int),
            digits == numeral_digits(text@),
            forall|j: int| 0 <= j < i - start ==> is_digit(#[trigger] digits[j]),
            fits ==> value == digits_value(digits.subrange(0, i - start)) && value <= max,
            !fits ==> digits_value(digits.subrange(0, i - start)) > max,
        decreases chars@.len() - i,
    {
        let c = chars[i];
        assert(c == digits[i - start]);
        if c < '0' || c > '9' {
            return None;
        }
        let d: u64 = (c as u32 - '0' as u32) as u64;
        let ghost before = digits.subrange(0, i - start);
        let ghost after = digits.subrange(0, i - start + 1);
        proof {
            assert(after.drop_last() =~= before);
            assert(after.last() == c);
            assert(digits_value(after) == digits_value(before) * 10 + d);
        }
        if fits {
            if value > max / 10 {
                fits = false;
            } else {
                let tens: u64 = value * 10;
                if d > max - tens {
                    fits = false;
                } else {
                    value = tens + d;
                }
            }
        }
        i = i + 1;
    }
    assert(digits.subrange(0, chars@.len() - start) =~= digits);
    if fits { Some(value) } else { None }
}

// ---------------------------------------------------------------------------
// White space
// ---------------------------------------------------------------------------

/// Unicode's `White_Space` property.
pub open spec fn is_space(c: char) -> bool {
    let n = c as u32;
    ||| 0x9 <= n <= 0xd
    ||| n == 0x20
    ||| n == 0x85
    ||| n == 0xa0
    ||| n == 0x1680
    ||| 0x2000 <= n <= 0x200a
    ||| n == 0x2028
    ||| n == 0x2029
    ||| n == 0x202f
    ||| n == 0x205f
    ||| n == 0x3000
}

fn space(c: char) -> (yes: bool)
    ensures
        yes == is_space(c),
{
    let n: u32 = c as u32;
    (0x9 <= n && n <= 0xd) || n == 0x20 || n == 0x85 || n == 0xa0 || n == 0x1680 || (0x2000 <= n
        && n <= 0x200a) || n == 0x2028 || n == 0x2029 || n == 0x202f || n == 0x205f || n == 0x3000
}

/// `text` without the white space at its start.
pub open spec fn trimmed_start(text: Seq<char>) -> Seq<char>
    decreases text.len(),
{
    if text.len() > 0 && is_space(text[0]) {
        trimmed_start(text.drop_first())
    } else {
        text
    }
}

/// `text` without the white space at its end.
pub open spec fn trimmed_end(text: Seq<char>) -> Seq<char>
    decreases text.len(),
{
    if text.len() > 0 && is_space(text.last()) {
        trimmed_end(text.drop_last())
    } else {
        text
    }
}

/// `text` without the white space around it.
pub open spec fn trimmed(text: Seq<char>) -> Seq<char> {
    trimmed_end(trimmed_start(text))
}

/// Removes white space on both sides.
pub fn trim(text: &str) -> (result: String)
    ensures
        result@ == trimmed(text@),
{
    let chars = chars_of(text);
    let mut from: usize = 0;
    assert(chars@.subrange(0, chars@.len() as int) =~= text@);
    while from < chars.len() && space(chars[from])
        invariant
            from <= chars@.len(),
            trimmed_start(chars@.subrange(from as int, chars@.len() as int)) == trimmed_start(text@),
        decreases chars@.len() - from,
    {
        assert(chars@.subrange(from as int, chars@.len() as int).drop_first() =~= chars@.subrange(
            from + 1,
            chars@.len() as int,
        ));
        from = from + 1;
    }
    assert(trimmed_start(text@) == chars@.subrange(from as int, chars@.len() as int));
    let mut to: usize = chars.len();
    while to > from && space(chars[to - 1])
        invariant
            from <= to <= chars@.len(),
            trimmed_end(chars@.subrange(from as int, to as int)) == trimmed(text@),
        decreases to,
    {
        assert(chars@.subrange(from as int, to as int).drop_last() =~= chars@.subrange(
            from as int,
            to - 1,
        ));
        to = to - 1;
    }
    string_of(&chars, from, to)
}

/// Removes white space at the end.
pub fn trim_end(text: &str) -> (result: String)
    ensures
        result@ == trimmed_end(text@),
{
    let chars = chars_of(text);
    let mut to: usize = chars.len();
    assert(chars@.subrange(0, to as int) =~= text@);
    while to > 0 && space(chars[to - 1])
        invariant
            to <= chars@.len(),
            trimmed_end(chars@.subrange(0, to as int)) == trimmed_end(text@),
        decreases to,
    {
        assert(chars@.subrange(0, to as int).drop_last() =~= chars@.subrange(0, to - 1));
        to = to - 1;
    }
    string_of(&chars, 0, to)
}

// ---------------------------------------------------------------------------
// Prefixes, suffixes, splitting
// ---------------------------------------------------------------------------

/// `prefix` is how `text` begins.
pub open spec fn has_prefix(text: Seq<char>, prefix: Seq<char>) -> bool {
    prefix.len() <= text.len() && text.subrange(0, prefix.len() as int) == prefix
}

/// `suffix` is how `text` ends.
pub open spec fn has_suffix(text: Seq<char>, suffix: Seq<char>) -> bool {
    suffix.len() <= text.len() && text.subrange(text.len() - suffix.len(), text.len() as int)
        == suffix
}

pub fn starts_with(text: &str, prefix: &str) -> (yes: bool)
    ensures
        yes == has_prefix(text@, prefix@),
{
    let length: usize = prefix.unicode_len();
    if text.unicode_len() < length {
        return false;
    }
    same(text.substring_char(0, length), prefix)
}

pub fn ends_with(text: &str, suffix: &str) -> (yes: bool)
    ensures
        yes == has_suffix(text@, suffix@),
{
    let length: usize = suffix.unicode_len();
    let total: usize = text.unicode_len();
    if total < length {
        return false;
    }
    same(text.substring_char(total - length, total), suffix)
}

/// The position of the first `c` in `text`, or the length where there is none.
pub open spec fn first_index(text: Seq<char>, c: char) -> int
    decreases text.len(),
{
    if text.len() == 0 || text[0] == c {
        0
    } else {
        1 + first_index(text.drop_first(), c)
    }
}

/// The position of the last `c` in `text`, or -1 where there is none.
pub open spec fn last_index(text: Seq<char>, c: char) -> int
    decreases text.len(),
{
    if text.len() == 0 {
        -1
    } else if text.last() == c {
        text.len() - 1
    } else {
        last_index(text.drop_last(), c)
    }
}

pub proof fn lemma_first_index(text: Seq<char>, c: char)
    ensures
        0 <= first_index(text, c) <= text.len(),
        first_index(text, c) < text.len() ==> text[first_index(text, c)] == c,
        forall|j: int| 0 <= j < first_index(text, c) ==> text[j] != c,
    decreases text.len(),
{
    if text.len() > 0 && text[0] != c {
        lemma_first_index(text.drop_first(), c);
        assert forall|j: int| 0 <= j < first_index(text, c) implies text[j] != c by {
            if j > 0 {
                assert(text[j] == text.drop_first()[j - 1]);
            }
        }
    }
}

proof fn lemma_first_index_is(text: Seq<char>, c: char, k: int)
    requires
        0 <= k <= text.len(),
        k < text.len() ==> text[k] == c,
        forall|j: int| 0 <= j < k ==> text[j] != c,
    ensures
        first_index(text, c) == k,
{
    lemma_first_index(text, c);
    let f = first_index(text, c);
    if f < k {
        assert(text[f] != c);
    }
}

pub proof fn lemma_last_index(text: Seq<char>, c: char)
    ensures
        -1 <= last_index(text, c) < text.len(),
        last_index(text, c) >= 0 ==> text[last_index(text, c)] == c,
        forall|j: int| last_index(text, c) < j < text.len() ==> text[j] != c,
    decreases text.len(),
{
    if text.len() > 0 && text.last() != c {
        lemma_last_index(text.drop_last(), c);
        assert forall|j: int| last_index(text, c) < j < text.len() implies text[j] != c by {
            if j < text.len() - 1 {
                assert(text[j] == text.drop_last()[j]);
            }
        }
    }
}

proof fn lemma_last_index_is(text: Seq<char>, c: char, k: int)
    requires
        -1 <= k < text.len(),
        k >= 0 ==> text[k] == c,
        forall|j: int| k < j < text.len() ==> text[j] != c,
    ensures
        last_index(text, c) == k,
{
    lemma_last_index(text, c);
    let f = last_index(text, c);
    if f > k {
        assert(text[f] != c);
    }
}

/// The text in front of the first `c` and the text behind it.
pub open spec fn split_once_spec(text: Seq<char>, c: char) -> Option<(Seq<char>, Seq<char>)> {
    let k = first_index(text, c);
    if k < text.len() {
        Some((text.subrange(0, k), text.subrange(k + 1, text.len() as int)))
    } else {
        None
    }
}

/// The text in front of the last `c` and the text behind it.
pub open spec fn rsplit_once_spec(text: Seq<char>, c: char) -> Option<(Seq<char>, Seq<char>)> {
    let k = last_index(text, c);
    if k >= 0 {
        Some((text.subrange(0, k), text.subrange(k + 1, text.len() as int)))
    } else {
        None
    }
}

pub open spec fn pair_view(pair: Option<(String, String)>) -> Option<(Seq<char>, Seq<char>)> {
    match pair {
        Some((a, b)) => Some((a@, b@)),
        None => None,
    }
}

pub fn split_once(text: &str, c: char) -> (pair: Option<(String, String)>)
    ensures
        pair_view(pair) == split_once_spec(text@, c),
{
    let chars = chars_of(text);
    let mut i: usize = 0;
    while i < chars.len()
        invariant
            i <= chars@.len(),
            chars@ == text@,
            forall|j: int| 0 <= j < i ==> text@[j] != c,
        decreases chars@.len() - i,
    {
        if chars[i] == c {
            proof {
                lemma_first_index_is(text@, c, i as int);
            }
            return Some((string_of(&chars, 0, i), string_of(&chars, i + 1, chars.len())));
        }
        i = i + 1;
    }
    proof {
        lemma_first_index_is(text@, c, i as int);
    }
    None
}

pub fn rsplit_once(text: &str, c: char) -> (pair: Option<(String, String)>)
    ensures
        pair_view(pair) == rsplit_once_spec(text@, c),
{
    let chars = chars_of(text);
    let mut i: usize = chars.len();
    while i > 0
        invariant
            i <= chars@.len(),
            chars@ == text@,
            forall|j: int| i <= j < text@.len() ==> text@[j] != c,
        decreases i,
    {
        if chars[i - 1] == c {
            proof {
                lemma_last_index_is(text@, c, i - 1);
            }
            return Some((string_of(&chars, 0, i - 1), string_of(&chars, i, chars.len())));
        }
        i = i - 1;
    }
    proof {
        lemma_last_index_is(text@, c, -1);
    }
    None
}

/// The pieces between the occurrences of `c`, empty ones included.
pub open spec fn split_spec(text: Seq<char>, c: char) -> Seq<Seq<char>>
    decreases text.len(),
    when 0 <= first_index(text, c)
{
    let k = first_index(text, c);
    if k < text.len() {
        seq![text.subrange(0, k)] + split_spec(text.subrange(k + 1, text.len() as int), c)
    } else {
        seq![text]
    }
}

pub fn split(text: &str, c: char) -> (pieces: Vec<String>)
    ensures
        views(pieces@) == split_spec(text@, c),
{
    let chars = chars_of(text);
    let mut pieces: Vec<String> = Vec::new();
    let mut start: usize = 0;
    let mut i: usize = 0;
    proof {
        lemma_first_index(text@, c);
        assert(text@.subrange(0, text@.len() as int) =~= text@);
        assert(views(pieces@) + split_spec(text@, c) =~= split_spec(text@, c));
    }
    while i < chars.len()
        invariant
            start <= i <= chars@.len(),
            chars@ == text@,
            forall|j: int| start <= j < i ==> text@[j] != c,
            views(pieces@) + split_spec(text@.subrange(start as int, text@.len() as int), c)
                == split_spec(text@, c),
        decreases chars@.len() - i,
    {
        if chars[i] == c {
            let piece = string_of(&chars, start, i);
            let ghost rest = text@.subrange(start as int, text@.len() as int);
            let ghost old_pieces = pieces@;
            pieces.push(piece);
            proof {
                lemma_first_index_is(rest, c, i - start);
                assert(rest.subrange(0, i - start) =~= piece@);
                let tail = text@.subrange(i + 1, text@.len() as int);
                assert(rest.subrange(i - start + 1, rest.len() as int) =~= tail);
                lemma_first_index(tail, c);
                assert(views(pieces@) =~= views(old_pieces).push(piece@));
                assert(views(pieces@) + split_spec(tail, c) =~= views(old_pieces) + split_spec(
                    rest,
                    c,
                ));
            }
            start = i + 1;
        }
        i = i + 1;
    }
    let piece = string_of(&chars, start, chars.len());
    let ghost rest = text@.subrange(start as int, text@.len() as int);
    let ghost old_pieces = pieces@;
    pieces.push(piece);
    proof {
        lemma_first_index_is(rest, c, rest.len() as int);
        assert(views(pieces@) =~= views(old_pieces) + seq![rest]);
    }
    pieces
}

/// The texts of a list with `separator` between them.
pub open spec fn joined(list: Seq<Seq<char>>, separator: Seq<char>) -> Seq<char>
    decreases list.len(),
{
    if list.len() == 0 {
        Seq::empty()
    } else if list.len() == 1 {
        list[0]
    } else {
        joined(list.drop_last(), separator) + separator + list.last()
    }
}

pub fn join(list: &Vec<String>, separator: &str) -> (text: String)
    ensures
        text@ == joined(views(list@), separator@),
{
    let mut text = String::new();
    let mut i: usize = 0;
    while i < list.len()
        invariant
            i <= list@.len(),
            text@ == joined(views(list@).subrange(0, i as int), separator@),
        decreases list@.len() - i,
    {
        if i > 0 {
            text.append(separator);
        }
        text.append(list[i].as_str());
        proof {
            let next = views(list@).subrange(0, i + 1);
            assert(next.drop_last() =~= views(list@).subrange(0, i as int));
            if i == 0 {
                assert(text@ =~= next[0]);
            }
        }
        i = i + 1;
    }
    assert(views(list@).subrange(0, i as int) =~= views(list@));
    text
}

// ---------------------------------------------------------------------------
// Order
// ---------------------------------------------------------------------------

/// Character-wise lexicographic order, which is also the order of the UTF-8 bytes.
pub open spec fn text_le(a: Seq<char>, b: Seq<char>) -> bool
    decreases a.len(),
{
    if a.len() == 0 {
        true
    } else if b.len() == 0 {
        false
    } else if a[0] != b[0] {
        (a[0] as u32) < (b[0] as u32)
    } else {
        text_le(a.drop_first(), b.drop_first())
    }
}

pub fn at_most(a: &str, b: &str) -> (yes: bool)
    ensures
        yes == text_le(a@, b@),
{
    let left = chars_of(a);
    let right = chars_of(b);
    let mut i: usize = 0;
    proof {
        assert(a@.subrange(0, a@.len() as int) =~= a@);
        assert(b@.subrange(0, b@.len() as int) =~= b@);
    }
    loop
        invariant
            left@ == a@,
            right@ == b@,
            i <= a@.len(),
            i <= b@.len(),
            text_le(a@, b@) == text_le(
                a@.subrange(i as int, a@.len() as int),
                b@.subrange(i as int, b@.len() as int),
            ),
        decreases a@.len() - i,
    {
        if i == left.len() {
            return true;
        }
        if i == right.len() {
            return false;
        }
        let x = left[i];
        let y = right[i];
        if x != y {
            return (x as u32) < (y as u32);
        }
        proof {
            assert(a@.subrange(i as int, a@.len() as int).drop_first() =~= a@.subrange(
                i + 1,
                a@.len() as int,
            ));
            assert(b@.subrange(i as int, b@.len() as int).drop_first() =~= b@.subrange(
                i + 1,
                b@.len() as int,
            ));
        }
        i = i + 1;
    }
}

pub proof fn lemma_text_le_total(a: Seq<char>, b: Seq<char>)
    ensures
        text_le(a, b) || text_le(b, a),
        text_le(a, b) && text_le(b, a) ==> a == b,
    decreases a.len(),
{
    if a.len() > 0 && b.len() > 0 {
        if a[0] == b[0] {
            lemma_text_le_total(a.drop_first(), b.drop_first());
            if text_le(a, b) && text_le(b, a) {
                assert(a =~= seq![a[0]] + a.drop_first());
                assert(b =~= seq![b[0]] + b.drop_first());
            }
        } else {
            let x = a[0];
            let y = b[0];
            char_u32_cast(x, x as u32);
            char_u32_cast(y, y as u32);
        }
    } else if a.len() == 0 && b.len() == 0 {
        assert(a =~= b);
    }
}

pub proof fn lemma_text_le_trans(a: Seq<char>, b: Seq<char>, c: Seq<char>)
    requires
        text_le(a, b),
        text_le(b, c),
    ensures
        text_le(a, c),
    decreases a.len(),
{
    if a.len() > 0 && b.len() > 0 && c.len() > 0 {
        if a[0] == b[0] && b[0] == c[0] {
            lemma_text_le_trans(a.drop_first(), b.drop_first(), c.drop_first());
        } 
    }
}

// ---------------------------------------------------------------------------
// Lines, words, replacement
// ---------------------------------------------------------------------------

/// A line without the carriage return at its end.
pub open spec fn without_return(line: Seq<char>) -> Seq<char> {
    if line.len() > 0 && line.last() == '\r' {
        line.drop_last()
    } else {
        line
    }
}

/// The lines that pieces between line feeds stand for: a carriage return before a line
/// feed does not count, and nothing behind the last line feed is no line.
pub open spec fn lines_of(pieces: Seq<Seq<char>>) -> Seq<Seq<char>> {
    let ended = Seq::new((pieces.len() - 1) as nat, |i: int| without_return(pieces[i]));
    if pieces.last().len() > 0 {
        ended.push(pieces.last())
    } else {
        ended
    }
}

/// The lines of a text.
pub open spec fn lines_spec(text: Seq<char>) -> Seq<Seq<char>> {
    lines_of(split_spec(text, '\n'))
}

/// The lines of a text.
pub fn lines(text: &str) -> (list: Vec<String>)
    ensures
        views(list@) == lines_spec(text@),
{
    let pieces = split(text, '\n');
    let ghost all = views(pieces@);
    proof {
        lemma_first_index(text@, '\n');
        assert(all.len() == pieces@.len());
        assert(split_spec(text@, '\n').len() > 0);
    }
    let last: usize = pieces.len() - 1;
    let ghost ended = Seq::new((all.len() - 1) as nat, |i: int| without_return(all[i]));
    let mut list: Vec<String> = Vec::new();
    let mut i: usize = 0;
    assert(views(list@) =~= ended.subrange(0, 0));
    while i < last
        invariant
            i <= last,
            last == pieces@.len() - 1,
            all == views(pieces@),
            ended == Seq::new((all.len() - 1) as nat, |i: int| without_return(all[i])),
            views(list@) == ended.subrange(0, i as int),
        decreases last - i,
    {
        let ghost before = list@;
        let piece = pieces[i].as_str();
        let n: usize = piece.unicode_len();
        let line = if n > 0 && piece.get_char(n - 1) == '\r' {
            piece.substring_char(0, n - 1).to_owned()
        } else {
            piece.to_owned()
        };
        assert(line@ =~= without_return(piece@));
        list.push(line);
        assert(views(list@) =~= views(before).push(line@));
        i = i + 1;
        assert(views(list@) =~= ended.subrange(0, i as int));
    }
    assert(ended.subrange(0, last as int) =~= ended);
    assert(all.last() == pieces@[last as int]@);
    if !pieces[last].as_str().is_empty() {
        let ghost before = list@;
        list.push(pieces[last].clone());
        assert(views(list@) =~= views(before).push(all.last()));
    }
    list
}

/// The finished words of a text, and the one that its end stands in.
pub open spec fn word_progress(text: Seq<char>) -> (Seq<Seq<char>>, Seq<char>)
    decreases text.len(),
{
    if text.len() == 0 {
        (Seq::empty(), Seq::empty())
    } else {
        let (done, current) = word_progress(text.drop_last());
        if is_space(text.last()) {
            (with_word(done, current), Seq::empty())
        } else {
            (done, current.push(text.last()))
        }
    }
}

pub open spec fn with_word(done: Seq<Seq<char>>, current: Seq<char>) -> Seq<Seq<char>> {
    if current.len() > 0 {
        done.push(current)
    } else {
        done
    }
}

/// The words of a text, separated by white space.
pub open spec fn words_spec(text: Seq<char>) -> Seq<Seq<char>> {
    let (done, current) = word_progress(text);
    with_word(done, current)
}

/// The words of a text.
pub fn words(text: &str) -> (list: Vec<String>)
    ensures
        views(list@) == words_spec(text@),
{
    let chars = chars_of(text);
    let mut list: Vec<String> = Vec::new();
    let mut current = String::new();
    let mut i: usize = 0;
    proof {
        assert(text@.subrange(0, 0) =~= Seq::<char>::empty());
        assert(views(list@) =~= Seq::<Seq<char>>::empty());
    }
    while i < chars.len()
        invariant
            i <= chars@.len(),
            chars@ == text@,
            word_progress(text@.subrange(0, i as int)) == (views(list@), current@),
        decreases chars@.len() - i,
    {
        proof {
            let next = text@.subrange(0, i + 1);
            assert(next.drop_last() =~= text@.subrange(0, i as int));
            assert(next.last() == chars@[i as int]);
        }
        let c = chars[i];
        if space(c) {
            if !current.as_str().is_empty() {
                let ghost before = list@;
                let word = current;
                list.push(word);
                assert(views(list@) =~= views(before).push(word@));
            }
            current = String::new();
        } else {
            current.push(c);
        }
        i = i + 1;
    }
    assert(text@.subrange(0, i as int) =~= text@);
    if !current.as_str().is_empty() {
        let ghost before = list@;
        list.push(current);
        assert(views(list@) =~= views(before).push(current@));
    }
    list
}

/// The position of the first occurrence of `piece`, or the length where there is none.
pub open spec fn find_spec(text: Seq<char>, piece: Seq<char>) -> int
    decreases text.len(),
{
    if text.len() == 0 || has_prefix(text, piece) {
        0
    } else {
        1 + find_spec(text.drop_first(), piece)
    }
}

/// The text in front of the first occurrence of `piece`, and the text behind it.
pub open spec fn split_at_spec(text: Seq<char>, piece: Seq<char>) -> Option<(Seq<char>, Seq<char>)> {
    let k = find_spec(text, piece);
    if k + piece.len() <= text.len() {
        Some((text.subrange(0, k), text.subrange(k + piece.len(), text.len() as int)))
    } else {
        None
    }
}

/// Splits a text at the first occurrence of a piece.
pub fn split_at_text(text: &str, piece: &str) -> (pair: Option<(String, String)>)
    requires
        piece@.len() > 0,
    ensures
        pair_view(pair) == split_at_spec(text@, piece@),
{
    let n: usize = text.unicode_len();
    let m: usize = piece.unicode_len();
    let mut i: usize = 0;
    assert(text@.subrange(0, n as int) =~= text@);
    while i < n
        invariant
            i <= n == text@.len(),
            m == piece@.len(),
            m > 0,
            find_spec(text@, piece@) == i + find_spec(text@.subrange(i as int, n as int), piece@),
        decreases n - i,
    {
        let ghost rest = text@.subrange(i as int, n as int);
        assert(rest.drop_first() =~= text@.subrange(i + 1, n as int));
        if starts_with(text.substring_char(i, n), piece) {
            assert(has_prefix(rest, piece@));
            return Some(
                (text.substring_char(0, i).to_owned(), text.substring_char(i + m, n).to_owned()),
            );
        }
        i = i + 1;
    }
    None
}

/// `piece` occurs in `text`.
pub open spec fn contains_spec(text: Seq<char>, piece: Seq<char>) -> bool {
    split_at_spec(text, piece) is Some
}

/// Whether a piece occurs in a text.
pub fn contains(text: &str, piece: &str) -> (yes: bool)
    requires
        piece@.len() > 0,
    ensures
        yes == contains_spec(text@, piece@),
{
    split_at_text(text, piece).is_some()
}

/// A character with ASCII capitals in lower case.
pub open spec fn lower(c: char) -> char {
    if 'A' <= c <= 'Z' {
        ((c as u32 + 32) as u8) as char
    } else {
        c
    }
}

/// A text with ASCII capitals in lower case.
pub open spec fn lowered(text: Seq<char>) -> Seq<char> {
    text.map_values(|c: char| lower(c))
}

fn lower_of(c: char) -> (l: char)
    ensures
        l == lower(c),
{
    if 'A' <= c && c <= 'Z' {
        ((c as u32 + 32) as u8) as char
    } else {
        c
    }
}

/// Whether two texts are the same but for the case of ASCII letters.
pub fn same_ignoring_case(a: &str, b: &str) -> (yes: bool)
    ensures
        yes == (lowered(a@) == lowered(b@)),
{
    let left = chars_of(a);
    let right = chars_of(b);
    if left.len() != right.len() {
        assert(lowered(a@).len() != lowered(b@).len());
        return false;
    }
    let mut i: usize = 0;
    while i < left.len()
        invariant
            i <= left@.len(),
            left@ == a@,
            right@ == b@,
            left@.len() == right@.len(),
            forall|j: int| 0 <= j < i ==> #[trigger] lowered(a@)[j] == lowered(b@)[j],
        decreases left@.len() - i,
    {
        if lower_of(left[i]) != lower_of(right[i]) {
            assert(lowered(a@)[i as int] != lowered(b@)[i as int]);
            return false;
        }
        assert(lowered(a@)[i as int] == lowered(b@)[i as int]);
        i = i + 1;
    }
    assert(lowered(a@) =~= lowered(b@));
    true
}

/// `text` with `with` in place of each occurrence of `piece`, from left to right.
pub open spec fn replaced_spec(text: Seq<char>, piece: Seq<char>, with: Seq<char>) -> Seq<char>
    decreases text.len(),
{
    if text.len() == 0 || piece.len() == 0 {
        text
    } else if has_prefix(text, piece) {
        with + replaced_spec(text.subrange(piece.len() as int, text.len() as int), piece, with)
    } else {
        seq![text[0]] + replaced_spec(text.drop_first(), piece, with)
    }
}

/// Replaces each occurrence of a piece.
pub fn replace(text: &str, piece: &str, with: &str) -> (result: String)
    requires
        piece@.len() > 0,
    ensures
        result@ == replaced_spec(text@, piece@, with@),
{
    let n: usize = text.unicode_len();
    let m: usize = piece.unicode_len();
    let mut result = String::new();
    let mut i: usize = 0;
    proof {
        assert(text@.subrange(0, n as int) =~= text@);
        assert(Seq::<char>::empty() + replaced_spec(text@, piece@, with@) =~= replaced_spec(
            text@,
            piece@,
            with@,
        ));
    }
    while i < n
        invariant
            i <= n == text@.len(),
            m == piece@.len(),
            m > 0,
            result@ + replaced_spec(text@.subrange(i as int, n as int), piece@, with@)
                == replaced_spec(text@, piece@, with@),
        decreases n - i,
    {
        let ghost rest = text@.subrange(i as int, n as int);
        let ghost before = result@;
        if starts_with(text.substring_char(i, n), piece) {
            result.append(with);
            i = i + m;
            proof {
                let tail = text@.subrange(i as int, n as int);
                assert(rest.subrange(m as int, rest.len() as int) =~= tail);
                assert(result@ + replaced_spec(tail, piece@, with@) =~= before + replaced_spec(
                    rest,
                    piece@,
                    with@,
                ));
            }
        } else {
            result.push(text.get_char(i));
            i = i + 1;
            proof {
                let tail = text@.subrange(i as int, n as int);
                assert(rest.drop_first() =~= tail);
                assert(result@ + replaced_spec(tail, piece@, with@) =~= before + replaced_spec(
                    rest,
                    piece@,
                    with@,
                ));
            }
        }
    }
    proof {
        assert(text@.subrange(i as int, n as int) =~= Seq::<char>::empty());
        assert(result@ + Seq::<char>::empty() =~= result@);
    }
    result
}

/// `text` without the copies of `c` at its end.
pub open spec fn without_trailing(text: Seq<char>, c: char) -> Seq<char>
    decreases text.len(),
{
    if text.len() > 0 && text.last() == c {
        without_trailing(text.drop_last(), c)
    } else {
        text
    }
}

/// `text` without the copies of `c` at its start.
pub open spec fn without_leading(text: Seq<char>, c: char) -> Seq<char>
    decreases text.len(),
{
    if text.len() > 0 && text[0] == c {
        without_leading(text.drop_first(), c)
    } else {
        text
    }
}

pub fn trim_start_char(text: &str, c: char) -> (result: String)
    ensures
        result@ == without_leading(text@, c),
{
    let chars = chars_of(text);
    let mut from: usize = 0;
    assert(chars@.subrange(0, chars@.len() as int) =~= text@);
    while from < chars.len() && chars[from] == c
        invariant
            from <= chars@.len(),
            without_leading(chars@.subrange(from as int, chars@.len() as int), c)
                == without_leading(text@, c),
        decreases chars@.len() - from,
    {
        assert(chars@.subrange(from as int, chars@.len() as int).drop_first() =~= chars@.subrange(
            from + 1,
            chars@.len() as int,
        ));
        from = from + 1;
    }
    string_of(&chars, from, chars.len())
}

pub fn trim_end_char(text: &str, c: char) -> (result: String)
    ensures
        result@ == without_trailing(text@, c),
{
    let chars = chars_of(text);
    let mut to: usize = chars.len();
    assert(chars@.subrange(0, to as int) =~= text@);
    while to > 0 && chars[to - 1] == c
        invariant
            to <= chars@.len(),
            without_trailing(chars@.subrange(0, to as int), c) == without_trailing(text@, c),
        decreases to,
    {
        assert(chars@.subrange(0, to as int).drop_last() =~= chars@.subrange(0, to - 1));
        to = to - 1;
    }
    string_of(&chars, 0, to)
}

} // verus!
