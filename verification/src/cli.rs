//! The command line: what is asked for, and how results are told.
use vstd::prelude::*;
use vstd::string::*;

use crate::app::erase::EraseMode;
use crate::app::format::{format_fault, new_request, FormatOptions};
use crate::app::volume::VolumeInfo;
use crate::app::write_state::{failpoint_spec, WriteFailpoint};
use crate::device::mtio::{
    TapeStatus, GMT_BOT, GMT_CLN, GMT_DR_OPEN, GMT_EOD, GMT_EOF, GMT_EOT,
};
use crate::device::{MediaPresence, TapeDrive};
use crate::ltfs::index::{Directory, Index};
use crate::ltfs::label::Label;
use crate::text::{
    cat2, cat3, cat4, cat5, cat7, decimal, decimal_spec, has_prefix, join, joined, lemma_decimal,
    lemma_parse_decimal, lowered,
    parse_unsigned, parse_unsigned_spec, same, same_ignoring_case, starts_with, views,
};

verus! {

// ---------------------------------------------------------------------------
// Sizes
// ---------------------------------------------------------------------------

pub open spec fn is_digit(c: char) -> bool {
    '0' <= c && c <= '9'
}

/// How many digits a text begins with.
pub open spec fn digit_count(text: Seq<char>) -> nat
    decreases text.len(),
{
    if text.len() == 0 || !is_digit(text[0]) {
        0
    } else {
        1 + digit_count(text.drop_first())
    }
}

proof fn lemma_digit_count(text: Seq<char>, k: int)
    requires
        0 <= k <= text.len(),
        forall|j: int| 0 <= j < k ==> is_digit(#[trigger] text[j]),
        k < text.len() ==> !is_digit(text[k]),
    ensures
        digit_count(text) == k,
    decreases k,
{
    if k > 0 {
        let rest = text.drop_first();
        assert(is_digit(text[0]));
        assert forall|j: int| 0 <= j < k - 1 implies is_digit(#[trigger] rest[j]) by {
            assert(rest[j] == text[j + 1]);
        }
        lemma_digit_count(rest, k - 1);
    }
}

/// How many bytes a unit stands for; the case of its letters does not matter.
pub open spec fn unit_bytes(unit: Seq<char>) -> Option<nat> {
    let u = lowered(unit);
    if unit.len() == 0 || u == lowered("b"@) {
        Some(1)
    } else if u == lowered("mib"@) {
        Some(1048576)
    } else if u == lowered("gib"@) {
        Some(1073741824)
    } else if u == lowered("mb"@) {
        Some(1000000)
    } else if u == lowered("gb"@) {
        Some(1000000000)
    } else {
        None
    }
}

/// The size that a text gives: a number, and a unit right behind it.
pub open spec fn size_spec(text: Seq<char>) -> Result<nat, Seq<char>> {
    let k = digit_count(text) as int;
    match parse_unsigned_spec(text.subrange(0, k), u64::MAX as nat) {
        None => Err("无效大小: "@ + text),
        Some(number) => match unit_bytes(text.subrange(k, text.len() as int)) {
            None => Err("不支持的大小单位: "@ + text),
            Some(bytes) => if number * bytes <= u64::MAX {
                Ok(number * bytes)
            } else {
                Err("大小溢出: "@ + text)
            },
        },
    }
}

fn bytes_of_unit(unit: &str) -> (bytes: Option<u64>)
    ensures
        match bytes {
            Some(n) => unit_bytes(unit@) == Some(n as nat),
            None => unit_bytes(unit@) is None,
        },
{
    if unit.unicode_len() == 0 || same_ignoring_case(unit, "b") {
        Some(1)
    } else if same_ignoring_case(unit, "mib") {
        Some(1048576)
    } else if same_ignoring_case(unit, "gib") {
        Some(1073741824)
    } else if same_ignoring_case(unit, "mb") {
        Some(1000000)
    } else if same_ignoring_case(unit, "gb") {
        Some(1000000000)
    } else {
        None
    }
}

/// The size that a text gives.
pub fn parse_byte_size(text: &str) -> (result: Result<u64, String>)
    ensures
        match result {
            Ok(size) => size_spec(text@) == Ok::<nat, Seq<char>>(size as nat),
            Err(message) => size_spec(text@) == Err::<nat, Seq<char>>(message@),
        },
{
    let len: usize = text.unicode_len();
    let mut k: usize = 0;
    while k < len
        invariant_except_break
            k <= len,
            len == text@.len(),
            forall|j: int| 0 <= j < k ==> is_digit(#[trigger] text@[j]),
        ensures
            k <= len,
            forall|j: int| 0 <= j < k ==> is_digit(#[trigger] text@[j]),
            k < len ==> !is_digit(text@[k as int]),
        decreases len - k,
    {
        let c = text.get_char(k);
        if !('0' <= c && c <= '9') {
            break;
        }
        k = k + 1;
    }
    proof {
        lemma_digit_count(text@, k as int);
    }
    let number: u64 = match parse_unsigned(text.substring_char(0, k), u64::MAX) {
        Some(n) => n,
        None => {
            return Err(cat2("无效大小: ", text));
        },
    };
    let bytes: u64 = match bytes_of_unit(text.substring_char(k, len)) {
        Some(n) => n,
        None => {
            return Err(cat2("不支持的大小单位: ", text));
        },
    };
    match number.checked_mul(bytes) {
        Some(size) => Ok(size),
        None => Err(cat2("大小溢出: ", text)),
    }
}

// ---------------------------------------------------------------------------
// Arguments
// ---------------------------------------------------------------------------

/// A text that names a drive rather than a path: a device, or a number.
pub open spec fn selector_spec(text: Seq<char>) -> bool {
    has_prefix(text, "/dev/"@) || parse_unsigned_spec(text, usize::MAX as nat) is Some
}

/// Whether a text names a drive rather than a path.
pub fn looks_like_selector(text: &str) -> (yes: bool)
    ensures
        yes == selector_spec(text@),
{
    starts_with(text, "/dev/") || parse_unsigned(text, usize::MAX as u64).is_some()
}

/// The arguments without a flag.
pub open spec fn without_flag(args: Seq<String>, flag: Seq<char>) -> Seq<String>
    decreases args.len(),
{
    if args.len() == 0 {
        Seq::empty()
    } else {
        let rest = without_flag(args.drop_last(), flag);
        if args.last()@ == flag {
            rest
        } else {
            rest.push(args.last())
        }
    }
}

/// A flag is among the arguments.
pub open spec fn has_flag(args: Seq<String>, flag: Seq<char>) -> bool {
    exists|i: int| 0 <= i < args.len() && (#[trigger] args[i])@ == flag
}

/// The arguments without a flag, and whether it was there.
pub fn take_flag(args: &Vec<String>, flag: &str) -> (result: (Vec<String>, bool))
    ensures
        result.0@ == without_flag(args@, flag@),
        result.1 == has_flag(args@, flag@),
{
    let mut rest: Vec<String> = Vec::new();
    let mut found = false;
    let mut i: usize = 0;
    assert(args@.subrange(0, 0) =~= Seq::<String>::empty());
    while i < args.len()
        invariant
            i <= args@.len(),
            rest@ == without_flag(args@.subrange(0, i as int), flag@),
            found == has_flag(args@.subrange(0, i as int), flag@),
        decreases args@.len() - i,
    {
        let ghost before = args@.subrange(0, i as int);
        let ghost next = args@.subrange(0, i + 1);
        assert(next.drop_last() =~= before);
        assert(next.last() == args@[i as int]);
        if same(args[i].as_str(), flag) {
            found = true;
            assert(next[i as int]@ == flag@);
        } else {
            rest.push(args[i].clone());
            assert(has_flag(next, flag@) == has_flag(before, flag@)) by {
                if has_flag(next, flag@) {
                    let j = choose|j: int| 0 <= j < next.len() && (#[trigger] next[j])@ == flag@;
                    assert(before[j]@ == flag@);
                }
                if has_flag(before, flag@) {
                    let j = choose|j: int|
                        0 <= j < before.len() && (#[trigger] before[j])@ == flag@;
                    assert(next[j]@ == flag@);
                }
            }
        }
        i = i + 1;
    }
    assert(args@.subrange(0, i as int) =~= args@);
    (rest, found)
}

/// A read of a file: the drive, the path on the volume, and the output.
#[derive(Debug, PartialEq, Eq)]
pub struct ReadArguments {
    pub selector: Option<String>,
    pub path: String,
    pub output: Option<String>,
}

/// The argument names the output.
pub open spec fn names_output(text: Seq<char>) -> bool {
    text == "-o"@ || text == "--output"@
}

/// The output that the arguments from `k` on give, where one was given before: the last one
/// counts.
pub open spec fn output_from(args: Seq<String>, k: int, before: Option<String>) -> Option<String>
    decreases args.len() - k,
{
    if k >= args.len() {
        before
    } else if names_output(args[k]@) {
        if k + 1 < args.len() {
            output_from(args, k + 2, Some(args[k + 1]))
        } else {
            None
        }
    } else {
        output_from(args, k + 1, before)
    }
}

/// Where the path stands: behind the drive, where that is given.
pub open spec fn read_offset(args: Seq<String>) -> int {
    if args.len() >= 2 && selector_spec(args[0]@) {
        1
    } else {
        0
    }
}

/// The arguments of a read.
pub fn parse_read(args: &Vec<String>) -> (result: Result<ReadArguments, String>)
    ensures
        ({
            let at = read_offset(args@);
            match result {
                Ok(read) => at < args@.len() && read == (ReadArguments {
                    selector: if at == 1 {
                        Some(args@[0])
                    } else {
                        None
                    },
                    path: args@[at],
                    output: output_from(args@, at + 1, None),
                }),
                Err(message) => at >= args@.len() && message@
                    == "用法: tapecpy read [选择器] <路径> [-o 输出文件]"@,
            }
        }),
{
    let at: usize = if args.len() >= 2 && looks_like_selector(args[0].as_str()) {
        1
    } else {
        0
    };
    if at >= args.len() {
        return Err("用法: tapecpy read [选择器] <路径> [-o 输出文件]".to_owned());
    }
    let mut output: Option<String> = None;
    let mut k: usize = at + 1;
    while k < args.len()
        invariant
            at < args@.len(),
            at == read_offset(args@),
            output_from(args@, at + 1, None) == output_from(args@, k as int, output),
        decreases args@.len() - k,
    {
        if same(args[k].as_str(), "-o") || same(args[k].as_str(), "--output") {
            if args.len() - k >= 2 {
                output = Some(args[k + 1].clone());
                k = k + 2;
            } else {
                output = None;
                k = args.len();
            }
        } else {
            k = k + 1;
        }
    }
    Ok(
        ReadArguments {
            selector: if at == 1 {
                Some(args[0].clone())
            } else {
                None
            },
            path: args[at].clone(),
            output,
        },
    )
}

/// A write: what, where to, in which drive, and whether it is read back.
#[derive(Debug, PartialEq, Eq)]
pub struct WriteArguments {
    pub local: String,
    pub tape_path: String,
    pub selector: Option<String>,
    pub read_back_verify: bool,
}

/// The element of a list, where it has so many.
pub open spec fn nth(list: Seq<String>, k: int) -> Option<String> {
    if 0 <= k < list.len() {
        Some(list[k])
    } else {
        None
    }
}

fn clone_nth(list: &Vec<String>, k: usize) -> (item: Option<String>)
    ensures
        item == nth(list@, k as int),
{
    if k < list.len() {
        Some(list[k].clone())
    } else {
        None
    }
}

/// The arguments of a write.
pub fn parse_write(args: &Vec<String>) -> (result: Result<WriteArguments, String>)
    ensures
        ({
            let rest = without_flag(args@, "--read-back-verify"@);
            match result {
                Ok(write) => 2 <= rest.len() <= 3 && write == (WriteArguments {
                    local: rest[0],
                    tape_path: rest[1],
                    selector: nth(rest, 2),
                    read_back_verify: has_flag(args@, "--read-back-verify"@),
                }),
                Err(message) => !(2 <= rest.len() <= 3) && message@
                    == "用法: tapecpy write <本地路径> <磁带路径> [选择器] [--read-back-verify]"@,
            }
        }),
{
    let (rest, verify) = take_flag(args, "--read-back-verify");
    if rest.len() < 2 || rest.len() > 3 {
        return Err(
            "用法: tapecpy write <本地路径> <磁带路径> [选择器] [--read-back-verify]".to_owned(),
        );
    }
    Ok(
        WriteArguments {
            local: rest[0].clone(),
            tape_path: rest[1].clone(),
            selector: clone_nth(&rest, 2),
            read_back_verify: verify,
        },
    )
}

/// A write of a test file.
#[derive(Debug, PartialEq, Eq)]
pub struct RandomArguments {
    pub size: u64,
    pub tape_path: String,
    pub selector: Option<String>,
    /// Chosen by the time where none is given.
    pub seed: Option<u64>,
    pub failpoint: Option<WriteFailpoint>,
    pub cancelpoint: Option<WriteFailpoint>,
}

/// The options of a write of a test file, and the other arguments.
#[verifier::ext_equal]
pub struct RandomOptions {
    pub seed: Option<u64>,
    pub failpoint: Option<WriteFailpoint>,
    pub cancelpoint: Option<WriteFailpoint>,
    pub rest: Seq<String>,
}

/// The text behind a prefix.
pub open spec fn behind(text: Seq<char>, prefix: Seq<char>) -> Seq<char> {
    text.subrange(prefix.len() as int, text.len() as int)
}

/// The options with one more argument.
pub open spec fn option_taken(o: RandomOptions, arg: String) -> Result<RandomOptions, Seq<char>> {
    if has_prefix(arg@, "--seed="@) {
        let value = behind(arg@, "--seed="@);
        match parse_unsigned_spec(value, u64::MAX as nat) {
            Some(n) => Ok(RandomOptions { seed: Some(n as u64), ..o }),
            None => Err("无效 seed: "@ + value),
        }
    } else if has_prefix(arg@, "--failpoint="@) {
        let value = behind(arg@, "--failpoint="@);
        match failpoint_spec(value) {
            Some(point) => Ok(RandomOptions { failpoint: Some(point), ..o }),
            None => Err("未知 write failpoint: "@ + value),
        }
    } else if has_prefix(arg@, "--cancelpoint="@) {
        let value = behind(arg@, "--cancelpoint="@);
        match failpoint_spec(value) {
            Some(point) => Ok(RandomOptions { cancelpoint: Some(point), ..o }),
            None => Err("未知 write failpoint: "@ + value),
        }
    } else {
        Ok(RandomOptions { rest: o.rest.push(arg), ..o })
    }
}

/// The options of a list of arguments.
pub open spec fn random_options(args: Seq<String>) -> Result<RandomOptions, Seq<char>>
    decreases args.len(),
{
    if args.len() == 0 {
        Ok(
            RandomOptions {
                seed: None,
                failpoint: None,
                cancelpoint: None,
                rest: Seq::empty(),
            },
        )
    } else {
        match random_options(args.drop_last()) {
            Err(message) => Err(message),
            Ok(o) => option_taken(o, args.last()),
        }
    }
}

proof fn lemma_options_error(args: Seq<String>, k: int)
    requires
        0 <= k <= args.len(),
        random_options(args.subrange(0, k)) is Err,
    ensures
        random_options(args) == random_options(args.subrange(0, k)),
    decreases args.len() - k,
{
    if k < args.len() {
        assert(args.subrange(0, k + 1).drop_last() =~= args.subrange(0, k));
        lemma_options_error(args, k + 1);
    } else {
        assert(args.subrange(0, k) =~= args);
    }
}

/// What the arguments of a write of a test file ask for.
pub open spec fn random_request(args: Seq<String>) -> Result<(RandomOptions, nat), Seq<char>> {
    match random_options(args) {
        Err(message) => Err(message),
        Ok(o) => if !(2 <= o.rest.len() <= 3) {
            Err("用法: tapecpy write-random <大小> <磁带路径> [选择器] [--seed=N]"@)
        } else {
            match size_spec(o.rest[0]@) {
                Err(message) => Err(message),
                Ok(size) => if size == 0 {
                    Err("随机流大小必须大于 0"@)
                } else {
                    Ok((o, size))
                },
            }
        },
    }
}

fn value_behind<'a>(arg: &'a str, prefix: &str) -> (value: Option<&'a str>)
    ensures
        match value {
            Some(v) => has_prefix(arg@, prefix@) && v@ == behind(arg@, prefix@),
            None => !has_prefix(arg@, prefix@),
        },
{
    if starts_with(arg, prefix) {
        Some(arg.substring_char(prefix.unicode_len(), arg.unicode_len()))
    } else {
        None
    }
}

/// The arguments of a write of a test file.
pub fn parse_write_random(args: &Vec<String>) -> (result: Result<RandomArguments, String>)
    ensures
        match (result, random_request(args@)) {
            (Ok(r), Ok((o, size))) => r == (RandomArguments {
                size: size as u64,
                tape_path: o.rest[1],
                selector: nth(o.rest, 2),
                seed: o.seed,
                failpoint: o.failpoint,
                cancelpoint: o.cancelpoint,
            }),
            (Err(message), Err(expected)) => message@ == expected,
            _ => false,
        },
{
    let mut seed: Option<u64> = None;
    let mut failpoint: Option<WriteFailpoint> = None;
    let mut cancelpoint: Option<WriteFailpoint> = None;
    let mut rest: Vec<String> = Vec::new();
    let mut i: usize = 0;
    assert(args@.subrange(0, 0) =~= Seq::<String>::empty());
    assert(rest@ =~= Seq::<String>::empty());
    while i < args.len()
        invariant
            i <= args@.len(),
            random_options(args@.subrange(0, i as int)) == Ok::<RandomOptions, Seq<char>>(
                RandomOptions { seed, failpoint, cancelpoint, rest: rest@ },
            ),
        decreases args@.len() - i,
    {
        let ghost next = args@.subrange(0, i + 1);
        assert(next.drop_last() =~= args@.subrange(0, i as int));
        assert(next.last() == args@[i as int]);
        let arg = args[i].as_str();
        match value_behind(arg, "--seed=") {
            Some(value) => match parse_unsigned(value, u64::MAX) {
                Some(n) => {
                    seed = Some(n);
                },
                None => {
                    proof {
                        lemma_options_error(args@, i + 1);
                    }
                    return Err(cat2("无效 seed: ", value));
                },
            },
            None => match value_behind(arg, "--failpoint=") {
                Some(value) => match WriteFailpoint::parse(value) {
                    Ok(point) => {
                        failpoint = Some(point);
                    },
                    Err(message) => {
                        proof {
                            lemma_options_error(args@, i + 1);
                        }
                        return Err(message);
                    },
                },
                None => match value_behind(arg, "--cancelpoint=") {
                    Some(value) => match WriteFailpoint::parse(value) {
                        Ok(point) => {
                            cancelpoint = Some(point);
                        },
                        Err(message) => {
                            proof {
                                lemma_options_error(args@, i + 1);
                            }
                            return Err(message);
                        },
                    },
                    None => {
                        rest.push(args[i].clone());
                    },
                },
            },
        }
        i = i + 1;
    }
    assert(args@.subrange(0, i as int) =~= args@);
    if rest.len() < 2 || rest.len() > 3 {
        return Err(
            "用法: tapecpy write-random <大小> <磁带路径> [选择器] [--seed=N]".to_owned(),
        );
    }
    let size: u64 = match parse_byte_size(rest[0].as_str()) {
        Ok(size) => size,
        Err(message) => {
            return Err(message);
        },
    };
    if size == 0 {
        return Err("随机流大小必须大于 0".to_owned());
    }
    Ok(
        RandomArguments {
            size,
            tape_path: rest[1].clone(),
            selector: clone_nth(&rest, 2),
            seed,
            failpoint,
            cancelpoint,
        },
    )
}

/// A format: the options, and the drive.
#[derive(Debug, PartialEq, Eq)]
pub struct FormatArguments {
    pub options: FormatOptions,
    pub selector: Option<String>,
}

/// Why the arguments of a format cannot be used.
pub open spec fn format_arguments_fault(args: Seq<String>) -> Option<Seq<char>> {
    let rest = without_flag(args, "--force"@);
    if !has_flag(args, "--force"@) {
        Some("format 会销毁当前磁带上的全部数据；确认后请重新执行并加上 --force"@)
    } else if !(2 <= rest.len() <= 3) {
        Some("用法: tapecpy format <6位Barcode> <Volume Name> [选择器] --force"@)
    } else {
        format_fault(new_request(rest[0]@, rest[1]@))
    }
}

/// The arguments of a format, which has to be forced.
pub fn parse_format(args: &Vec<String>) -> (result: Result<FormatArguments, String>)
    ensures
        match result {
            Ok(f) => format_arguments_fault(args@) is None && f.options@ == new_request(
                without_flag(args@, "--force"@)[0]@,
                without_flag(args@, "--force"@)[1]@,
            ) && f.selector == nth(without_flag(args@, "--force"@), 2),
            Err(message) => format_arguments_fault(args@) == Some(message@),
        },
{
    let (rest, force) = take_flag(args, "--force");
    if !force {
        return Err(
            "format 会销毁当前磁带上的全部数据；确认后请重新执行并加上 --force".to_owned(),
        );
    }
    if rest.len() < 2 || rest.len() > 3 {
        return Err("用法: tapecpy format <6位Barcode> <Volume Name> [选择器] --force".to_owned());
    }
    let options = FormatOptions::new(rest[0].as_str(), rest[1].as_str());
    match options.validate() {
        Ok(_) => Ok(FormatArguments { options, selector: clone_nth(&rest, 2) }),
        Err(message) => Err(message),
    }
}

/// An erase: the mode, and the drive.
#[derive(Debug, PartialEq, Eq)]
pub struct EraseArguments {
    pub mode: EraseMode,
    pub selector: Option<String>,
}

/// The mode that a word stands for.
pub open spec fn mode_word(text: Seq<char>) -> Option<EraseMode> {
    if text == "short"@ {
        Some(EraseMode::Short)
    } else if text == "long"@ {
        Some(EraseMode::Long)
    } else if text == "minimum"@ || text == "minimum-long"@ {
        Some(EraseMode::MinimumPartitionLong)
    } else {
        None
    }
}

/// Why the arguments of an erase cannot be used.
pub open spec fn erase_arguments_fault(args: Seq<String>) -> Option<Seq<char>> {
    let rest = without_flag(args, "--force"@);
    if !has_flag(args, "--force"@) {
        Some("erase 会销毁当前磁带上的数据；确认后请重新执行并加上 --force"@)
    } else if !(1 <= rest.len() <= 2) {
        Some("用法: tapecpy erase <short|long|minimum> [选择器] --force"@)
    } else if mode_word(rest[0]@) is None {
        Some("未知 erase 模式 `"@ + rest[0]@ + "`；应为 short、long 或 minimum"@)
    } else {
        None
    }
}

/// The arguments of an erase, which has to be forced.
pub fn parse_erase(args: &Vec<String>) -> (result: Result<EraseArguments, String>)
    ensures
        match result {
            Ok(e) => erase_arguments_fault(args@) is None && mode_word(
                without_flag(args@, "--force"@)[0]@,
            ) == Some(e.mode) && e.selector == nth(without_flag(args@, "--force"@), 1),
            Err(message) => erase_arguments_fault(args@) == Some(message@),
        },
{
    let (rest, force) = take_flag(args, "--force");
    if !force {
        return Err("erase 会销毁当前磁带上的数据；确认后请重新执行并加上 --force".to_owned());
    }
    if rest.len() < 1 || rest.len() > 2 {
        return Err("用法: tapecpy erase <short|long|minimum> [选择器] --force".to_owned());
    }
    let word = rest[0].as_str();
    let mode = if same(word, "short") {
        EraseMode::Short
    } else if same(word, "long") {
        EraseMode::Long
    } else if same(word, "minimum") || same(word, "minimum-long") {
        EraseMode::MinimumPartitionLong
    } else {
        return Err(
            cat3("未知 erase 模式 `", word, "`；应为 short、long 或 minimum"),
        );
    };
    Ok(EraseArguments { mode, selector: clone_nth(&rest, 1) })
}

/// Nothing is destroyed without the word for it.
pub proof fn destruction_is_forced(args: Seq<String>)
    ensures
        format_arguments_fault(args) is None ==> has_flag(args, "--force"@),
        erase_arguments_fault(args) is None ==> has_flag(args, "--force"@),
{
}

/// The arguments of a diagnosis: the drive, and whether everything is read.
pub fn parse_diagnose(args: &Vec<String>) -> (result: (Option<String>, bool))
    ensures
        result.0 == nth(without_flag(args@, "--full"@), 0),
        result.1 == has_flag(args@, "--full"@),
{
    let (rest, full) = take_flag(args, "--full");
    (clone_nth(&rest, 0), full)
}

// ---------------------------------------------------------------------------
// Words
// ---------------------------------------------------------------------------

/// A counter of the drive, or that there is none.
pub fn display_counter(value: Option<u64>) -> (text: String)
    ensures
        text@ == (match value {
            Some(n) => decimal_spec(n as nat),
            None => "n/a"@,
        }),
{
    match value {
        Some(n) => decimal(n),
        None => "n/a".to_owned(),
    }
}

/// A hexadecimal digit in capitals.
pub open spec fn capital_digit(d: nat) -> char {
    if d < 10 {
        ((48 + d) as u8) as char
    } else {
        ((55 + d) as u8) as char
    }
}

/// Bytes in capital hexadecimal, two digits each.
pub open spec fn capital_hex(bytes: Seq<u8>) -> Seq<char>
    decreases bytes.len(),
{
    if bytes.len() == 0 {
        Seq::empty()
    } else {
        let b = bytes.last() as nat;
        capital_hex(bytes.drop_last()).push(capital_digit(b / 16)).push(capital_digit(b % 16))
    }
}

fn capital_digit_of(d: u8) -> (c: char)
    requires
        d < 16,
    ensures
        c == capital_digit(d as nat),
{
    if d < 10 {
        (48 + d) as char
    } else {
        (55 + d) as char
    }
}

/// Bytes in capital hexadecimal, two digits each.
pub fn hex_compact(bytes: &[u8]) -> (text: String)
    ensures
        text@ == capital_hex(bytes@),
{
    let mut text = String::new();
    let mut i: usize = 0;
    assert(text@ =~= capital_hex(bytes@.subrange(0, 0)));
    while i < bytes.len()
        invariant
            i <= bytes@.len(),
            text@ == capital_hex(bytes@.subrange(0, i as int)),
        decreases bytes@.len() - i,
    {
        let ghost next = bytes@.subrange(0, i + 1);
        assert(next.drop_last() =~= bytes@.subrange(0, i as int));
        assert(next.last() == bytes@[i as int]);
        text.push(capital_digit_of(bytes[i] / 16));
        text.push(capital_digit_of(bytes[i] % 16));
        i = i + 1;
    }
    assert(bytes@.subrange(0, i as int) =~= bytes@);
    text
}

/// The heading of a directory.
pub fn display_dir_name(directory: &Directory, path: &str) -> (text: String)
    ensures
        text@ == (if path@ == "/"@ || path@.len() == 0 {
            directory.name@ + "/"@
        } else {
            path@ + "/"@
        }),
{
    if same(path, "/") || path.unicode_len() == 0 {
        cat2(directory.name.as_str(), "/")
    } else {
        cat2(path, "/")
    }
}

/// Whether a cartridge is there, in words.
pub fn presence_label(presence: MediaPresence) -> (text: &'static str)
    ensures
        text@ == (match presence {
            MediaPresence::Loaded => "已装载"@,
            MediaPresence::NotLoaded => "未装载"@,
            MediaPresence::NotReady => "驱动器未就绪"@,
            MediaPresence::Unknown => "未知"@,
        }),
{
    match presence {
        MediaPresence::Loaded => "已装载",
        MediaPresence::NotLoaded => "未装载",
        MediaPresence::NotReady => "驱动器未就绪",
        MediaPresence::Unknown => "未知",
    }
}

pub open spec fn yes_no_words(value: bool) -> Seq<char> {
    if value {
        "是"@
    } else {
        "否"@
    }
}

pub fn yes_no(value: bool) -> (text: &'static str)
    ensures
        text@ == yes_no_words(value),
{
    if value {
        "是"
    } else {
        "否"
    }
}

/// A list with a word more, where it applies.
pub open spec fn with_word(list: Seq<Seq<char>>, applies: bool, word: Seq<char>) -> Seq<Seq<char>> {
    if applies {
        list.push(word)
    } else {
        list
    }
}

/// The status bits that are named.
pub open spec fn flag_words(status: TapeStatus) -> Seq<Seq<char>> {
    let a = with_word(Seq::empty(), status.gstat & GMT_BOT != 0, "BOT"@);
    let b = with_word(a, status.gstat & GMT_EOF != 0, "EOF"@);
    let c = with_word(b, status.gstat & GMT_EOT != 0, "EOT"@);
    let d = with_word(c, status.gstat & GMT_EOD != 0, "EOD"@);
    let e = with_word(d, status.gstat & GMT_DR_OPEN != 0, "DR_OPEN"@);
    with_word(e, status.gstat & GMT_CLN != 0, "CLN"@)
}

fn add_word(list: &mut Vec<String>, applies: bool, word: &str)
    ensures
        views(final(list)@) == with_word(views(old(list)@), applies, word@),
{
    if applies {
        let ghost before = list@;
        let text = word.to_owned();
        list.push(text);
        assert(views(list@) =~= views(before).push(text@));
    }
}

/// The status bits, by their names.
pub fn status_flags(status: &TapeStatus) -> (text: String)
    ensures
        text@ == joined(flag_words(*status), " "@),
{
    let mut list: Vec<String> = Vec::new();
    assert(views(list@) =~= Seq::<Seq<char>>::empty());
    add_word(&mut list, status.is_bot(), "BOT");
    add_word(&mut list, status.is_eof(), "EOF");
    add_word(&mut list, status.is_eot(), "EOT");
    add_word(&mut list, status.is_eod(), "EOD");
    add_word(&mut list, status.is_door_open(), "DR_OPEN");
    add_word(&mut list, status.cleaning_requested(), "CLN");
    join(&list, " ")
}

// ---------------------------------------------------------------------------
// Reports
// ---------------------------------------------------------------------------

/// Lines that are printed.
pub struct Report {
    pub lines: Vec<String>,
}

impl View for Report {
    type V = Seq<Seq<char>>;

    open spec fn view(&self) -> Seq<Seq<char>> {
        views(self.lines@)
    }
}

impl Report {
    pub fn new() -> (report: Report)
        ensures
            report@ == Seq::<Seq<char>>::empty(),
    {
        let report = Report { lines: Vec::new() };
        assert(report@ =~= Seq::<Seq<char>>::empty());
        report
    }

    pub fn line(&mut self, text: String)
        ensures
            final(self)@ == old(self)@.push(text@),
    {
        let ghost before = self.lines@;
        self.lines.push(text);
        assert(views(self.lines@) =~= views(before).push(text@));
    }
}

/// What is told of a drive.
pub open spec fn drive_report(drive: TapeDrive) -> Seq<Seq<char>> {
    seq![
        "磁带机: "@ + drive.nst_path@ + "  (回绕设备 "@ + drive.st_path@ + ")"@,
        "  SCSI 设备:   "@ + drive.sg_path@,
        "  厂商:        "@ + drive.vendor@,
        "  型号:        "@ + drive.model@,
        "  固件版本:    "@ + drive.revision@,
        "  序列号:      "@ + drive.serial@,
    ]
}

/// What is told of a drive.
pub fn drive_header(drive: &TapeDrive) -> (report: Report)
    ensures
        report@ == drive_report(*drive),
{
    let mut report = Report::new();
    report.line(
        cat5(
            "磁带机: ",
            drive.nst_path.as_str(),
            "  (回绕设备 ",
            drive.st_path.as_str(),
            ")",
        ),
    );
    report.line(cat2("  SCSI 设备:   ", drive.sg_path.as_str()));
    report.line(cat2("  厂商:        ", drive.vendor.as_str()));
    report.line(cat2("  型号:        ", drive.model.as_str()));
    report.line(cat2("  固件版本:    ", drive.revision.as_str()));
    report.line(cat2("  序列号:      ", drive.serial.as_str()));
    assert(report@ =~= drive_report(*drive));
    report
}

/// What is told of a label.
pub open spec fn label_report(label: Label) -> Seq<Seq<char>> {
    seq![
        "  格式版本:    "@ + label.version@,
        "  Volume UUID: "@ + label.volume_uuid@,
        "  创建程序:    "@ + label.creator@,
        "  格式化时间:  "@ + label.format_time@,
        "  块大小:      "@ + decimal_spec(label.blocksize as nat) + " 字节"@,
        "  压缩:        "@ + yes_no_words(label.compression),
        "  分区:        index="@ + decimal_spec(label.index_partition as nat) + ", data="@
            + decimal_spec(label.data_partition as nat),
    ]
}

/// What is told of an index.
pub open spec fn index_report(index: Index) -> Seq<Seq<char>> {
    seq![
        "  最新 index:  gen "@ + decimal_spec(index.generation as nat) + " @ (分区 "@
            + decimal_spec(index.self_location.partition as nat) + ", 块 "@ + decimal_spec(
            index.self_location.startblock as nat,
        ) + ")"@,
        "  更新时间:    "@ + index.update_time@,
        "  文件/目录:   "@ + decimal_spec(index.file_count as nat) + " / "@ + decimal_spec(
            index.directory_count as nat,
        ),
    ] + (match index.highest_file_uid {
        Some(uid) => seq!["  HighestUID:  "@ + decimal_spec(uid as nat)],
        None => Seq::<Seq<char>>::empty(),
    }) + (match index.volume_lock_state {
        Some(state) => seq!["  锁状态:      "@ + state@],
        None => Seq::<Seq<char>>::empty(),
    })
}

/// The warnings, one a line.
pub open spec fn warning_report(warnings: Seq<String>) -> Seq<Seq<char>> {
    warnings.map_values(|w: String| "  警告: "@ + w@)
}

/// What is told of a volume.
pub open spec fn volume_report(v: VolumeInfo) -> Seq<Seq<char>> {
    if !v.recognized {
        seq!["LTFS: 否"@] + (match v.reason {
            Some(reason) => seq!["  原因: "@ + reason@],
            None => Seq::<Seq<char>>::empty(),
        }) + warning_report(v.warnings@)
    } else {
        seq!["LTFS: 是"@] + (match v.index {
            Some(index) => match index.volume_name {
                Some(name) => if name@.len() > 0 {
                    seq!["  Volume Name: "@ + name@]
                } else {
                    Seq::<Seq<char>>::empty()
                },
                None => Seq::<Seq<char>>::empty(),
            },
            None => Seq::<Seq<char>>::empty(),
        }) + (match v.label {
            Some(label) => label_report(label),
            None => Seq::<Seq<char>>::empty(),
        }) + (match v.ansi_barcode {
            Some(barcode) => seq!["  Barcode:     "@ + barcode@ + "（ANSI label）"@],
            None => Seq::<Seq<char>>::empty(),
        }) + (match v.index {
            Some(index) => index_report(index),
            None => Seq::<Seq<char>>::empty(),
        }) + warning_report(v.warnings@)
    }
}

fn add_label(report: &mut Report, label: &Label)
    ensures
        final(report)@ == old(report)@ + label_report(*label),
{
    report.line(cat2("  格式版本:    ", label.version.as_str()));
    report.line(cat2("  Volume UUID: ", label.volume_uuid.as_str()));
    report.line(cat2("  创建程序:    ", label.creator.as_str()));
    report.line(cat2("  格式化时间:  ", label.format_time.as_str()));
    report.line(cat3("  块大小:      ", decimal(label.blocksize).as_str(), " 字节"));
    report.line(cat2("  压缩:        ", yes_no(label.compression)));
    report.line(
        cat4(
            "  分区:        index=",
            decimal(label.index_partition as u64).as_str(),
            ", data=",
            decimal(label.data_partition as u64).as_str(),
        ),
    );
    assert(report@ =~= old(report)@ + label_report(*label));
}

fn add_index(report: &mut Report, index: &Index)
    ensures
        final(report)@ == old(report)@ + index_report(*index),
{
    report.line(
        cat7(
            "  最新 index:  gen ",
            decimal(index.generation).as_str(),
            " @ (分区 ",
            decimal(index.self_location.partition as u64).as_str(),
            ", 块 ",
            decimal(index.self_location.startblock).as_str(),
            ")",
        ),
    );
    report.line(cat2("  更新时间:    ", index.update_time.as_str()));
    report.line(
        cat4(
            "  文件/目录:   ",
            decimal(index.file_count()).as_str(),
            " / ",
            decimal(index.directory_count()).as_str(),
        ),
    );
    match index.highest_file_uid {
        Some(uid) => {
            report.line(cat2("  HighestUID:  ", decimal(uid).as_str()));
        },
        None => {},
    }
    match &index.volume_lock_state {
        Some(state) => {
            report.line(cat2("  锁状态:      ", state.as_str()));
        },
        None => {},
    }
    assert(report@ =~= old(report)@ + index_report(*index));
}

/// Adds the warnings to a report.
pub fn add_warnings(report: &mut Report, warnings: &Vec<String>)
    ensures
        final(report)@ == old(report)@ + warning_report(warnings@),
{
    let ghost start = report@;
    let ghost wanted = warning_report(warnings@);
    let mut i: usize = 0;
    assert(start + wanted.subrange(0, 0) =~= start);
    while i < warnings.len()
        invariant
            i <= warnings@.len(),
            wanted == warning_report(warnings@),
            report@ == start + wanted.subrange(0, i as int),
        decreases warnings@.len() - i,
    {
        report.line(cat2("  警告: ", warnings[i].as_str()));
        i = i + 1;
        assert(report@ =~= start + wanted.subrange(0, i as int));
    }
    assert(wanted.subrange(0, i as int) =~= wanted);
}

/// What is told of a volume.
pub fn describe_volume(v: &VolumeInfo) -> (report: Report)
    ensures
        report@ == volume_report(*v),
{
    let mut report = Report::new();
    if !v.recognized {
        report.line("LTFS: 否".to_owned());
        match &v.reason {
            Some(reason) => {
                report.line(cat2("  原因: ", reason.as_str()));
            },
            None => {},
        }
        add_warnings(&mut report, &v.warnings);
        assert(report@ =~= volume_report(*v));
        return report;
    }
    report.line("LTFS: 是".to_owned());
    match &v.index {
        Some(index) => match &index.volume_name {
            Some(name) => {
                if name.as_str().unicode_len() > 0 {
                    report.line(cat2("  Volume Name: ", name.as_str()));
                }
            },
            None => {},
        },
        None => {},
    }
    match &v.label {
        Some(label) => {
            add_label(&mut report, label);
        },
        None => {},
    }
    match &v.ansi_barcode {
        Some(barcode) => {
            report.line(cat3("  Barcode:     ", barcode.as_str(), "（ANSI label）"));
        },
        None => {},
    }
    match &v.index {
        Some(index) => {
            add_index(&mut report, index);
        },
        None => {},
    }
    add_warnings(&mut report, &v.warnings);
    assert(report@ =~= volume_report(*v));
    report
}

/// A size is read as it is written: a numeral with no unit or with B gives as many bytes, MB
/// and GB stand for powers of ten, MiB and GiB for powers of two, in any case of letters. A
/// size that does not fit is refused.
pub proof fn written_size_is_read(n: nat, unit: Seq<char>, bytes: nat)
    requires
        n <= u64::MAX,
        unit.len() > 0 ==> !is_digit(unit[0]),
        ({
            ||| unit.len() == 0 && bytes == 1
            ||| lowered(unit) == "b"@ && bytes == 1
            ||| lowered(unit) == "mb"@ && bytes == 1000 * 1000
            ||| lowered(unit) == "gb"@ && bytes == 1000 * 1000 * 1000
            ||| lowered(unit) == "mib"@ && bytes == 1024 * 1024
            ||| lowered(unit) == "gib"@ && bytes == 1024 * 1024 * 1024
        }),
    ensures
        n * bytes <= u64::MAX ==> size_spec(decimal_spec(n) + unit) == Ok::<nat, Seq<char>>(
            n * bytes,
        ),
        n * bytes > u64::MAX ==> size_spec(decimal_spec(n) + unit) is Err,
{
    let text = decimal_spec(n) + unit;
    let k = decimal_spec(n).len() as int;
    lemma_decimal(n);
    lemma_parse_decimal(n, u64::MAX as nat);
    assert forall|j: int| 0 <= j < k implies is_digit(#[trigger] text[j]) by {
        assert(text[j] == decimal_spec(n)[j]);
    }
    lemma_digit_count(text, k);
    assert(text.subrange(0, k) =~= decimal_spec(n));
    assert(text.subrange(k, text.len() as int) =~= unit);
    reveal_strlit("b");
    reveal_strlit("mb");
    reveal_strlit("gb");
    reveal_strlit("mib");
    reveal_strlit("gib");
    assert(lowered("b"@) =~= "b"@);
    assert(lowered("mb"@) =~= "mb"@);
    assert(lowered("gb"@) =~= "gb"@);
    assert(lowered("mib"@) =~= "mib"@);
    assert(lowered("gib"@) =~= "gib"@);
    assert("b"@.len() == 1 && "mb"@.len() == 2 && "gb"@.len() == 2 && "mib"@.len() == 3
        && "gib"@.len() == 3);
    assert("mb"@[0] != "gb"@[0] && "mib"@[0] != "gib"@[0]);
}

} // verus!
