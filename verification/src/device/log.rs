//! LOG SENSE pages.
use vstd::prelude::*;

use crate::bytes::{be_pair, be_u64, be_value};

verus! {

/// A parameter of a log page.
#[derive(Debug, Clone, PartialEq, Eq)]
pub struct LogParameter {
    pub code: u16,
    pub control: u8,
    pub value: Vec<u8>,
}

/// The model of a parameter.
#[verifier::ext_equal]
pub struct ParameterModel {
    pub code: u16,
    pub control: u8,
    pub value: Seq<u8>,
}

impl View for LogParameter {
    type V = ParameterModel;

    open spec fn view(&self) -> ParameterModel {
        ParameterModel { code: self.code, control: self.control, value: self.value@ }
    }
}

pub open spec fn parameter_models(list: Seq<LogParameter>) -> Seq<ParameterModel> {
    list.map_values(|p: LogParameter| p@)
}

/// Why a log page cannot be read.
#[derive(Debug, Clone, Copy, PartialEq, Eq, Structural)]
pub enum ParseError {
    TruncatedHeader,
    WrongPage { expected: u8, actual: u8 },
    TruncatedPage { declared: usize, actual: usize },
    TruncatedParameter { code: u16 },
}

/// The parameters in a sequence of bytes: a code in two bytes, a control byte, a length,
/// and that many bytes.
pub open spec fn parameters_in(data: Seq<u8>) -> Result<Seq<ParameterModel>, ParseError>
    decreases data.len(),
{
    if data.len() == 0 {
        Ok(Seq::empty())
    } else if data.len() < 4 {
        Err(ParseError::TruncatedParameter { code: 0 })
    } else {
        let code = be_value(data.subrange(0, 2)) as u16;
        let len = data[3] as int;
        if data.len() - 4 < len {
            Err(ParseError::TruncatedParameter { code })
        } else {
            match parameters_in(data.subrange(4 + len, data.len() as int)) {
                Ok(rest) => Ok(
                    seq![
                        ParameterModel { code, control: data[2], value: data.subrange(4, 4 + len) },
                    ] + rest,
                ),
                Err(e) => Err(e),
            }
        }
    }
}

/// A log page: the page code, a length in bytes 2 and 3, and the parameters.
pub open spec fn page_spec(data: Seq<u8>, expected_page: u8) -> Result<
    Seq<ParameterModel>,
    ParseError,
> {
    if data.len() < 4 {
        Err(ParseError::TruncatedHeader)
    } else if data[0] % 64 != expected_page {
        Err(ParseError::WrongPage { expected: expected_page, actual: (data[0] % 64) as u8 })
    } else {
        let end = 4 + be_value(data.subrange(2, 4));
        if data.len() < end {
            Err(ParseError::TruncatedPage { declared: end as usize, actual: data.len() as usize })
        } else {
            parameters_in(data.subrange(4, end as int))
        }
    }
}

pub open spec fn page_outcome(result: Result<Vec<LogParameter>, ParseError>) -> Result<
    Seq<ParameterModel>,
    ParseError,
> {
    match result {
        Ok(list) => Ok(parameter_models(list@)),
        Err(e) => Err(e),
    }
}

/// Reads a log page.
pub fn parse_page(data: &[u8], expected_page: u8) -> (result: Result<Vec<LogParameter>, ParseError>)
    ensures
        page_outcome(result) == page_spec(data@, expected_page),
{
    if data.len() < 4 {
        return Err(ParseError::TruncatedHeader);
    }
    let actual_page: u8 = data[0] % 64;
    if actual_page != expected_page {
        return Err(ParseError::WrongPage { expected: expected_page, actual: actual_page });
    }
    let declared: usize = be_pair(data[2], data[3]) as usize;
    assert(seq![data@[2], data@[3]] =~= data@.subrange(2, 4));
    let end: usize = 4 + declared;
    if data.len() < end {
        return Err(ParseError::TruncatedPage { declared: end, actual: data.len() });
    }
    let ghost body = data@.subrange(4, end as int);
    let mut parameters: Vec<LogParameter> = Vec::new();
    let mut offset: usize = 4;
    proof {
        assert(parameter_models(parameters@) =~= Seq::<ParameterModel>::empty());
        assert(data@.subrange(offset as int, end as int) =~= body);
        assert(forall|s: Seq<ParameterModel>| #[trigger] (Seq::<ParameterModel>::empty() + s) =~= s);
    }
    while offset < end
        invariant
            4 <= offset <= end <= data@.len(),
            end <= 4 + 0xffff,
            body == data@.subrange(4, end as int),
            page_spec(data@, expected_page) == parameters_in(body),
            parameters_in(body) == (match parameters_in(
                data@.subrange(offset as int, end as int),
            ) {
                Ok(rest) => Ok(parameter_models(parameters@) + rest),
                Err(e) => Err(e),
            }),
        decreases end - offset,
    {
        let ghost rest = data@.subrange(offset as int, end as int);
        if end - offset < 4 {
            return Err(ParseError::TruncatedParameter { code: 0 });
        }
        assert(rest.subrange(0, 2) =~= seq![data@[offset as int], data@[offset + 1]]);
        let code: u16 = be_pair(data[offset], data[offset + 1]);
        let len: usize = data[offset + 3] as usize;
        if end - offset - 4 < len {
            return Err(ParseError::TruncatedParameter { code });
        }
        let value = vstd::slice::slice_to_vec(
            vstd::slice::slice_subrange(data, offset + 4, offset + 4 + len),
        );
        let ghost before = parameters@;
        let parameter = LogParameter { code, control: data[offset + 2], value };
        parameters.push(parameter);
        proof {
            assert(value@ =~= rest.subrange(4, 4 + len));
            let tail = data@.subrange(offset + 4 + len, end as int);
            assert(rest.subrange(4 + len, rest.len() as int) =~= tail);
            match parameters_in(tail) {
                Ok(more) => {
                    assert(parameter_models(before) + (seq![parameter@] + more)
                        =~= parameter_models(parameters@) + more);
                },
                Err(e) => {},
            }
        }
        offset = offset + 4 + len;
    }
    proof {
        assert(data@.subrange(offset as int, end as int) =~= Seq::<u8>::empty());
        assert(parameter_models(parameters@) + Seq::<ParameterModel>::empty() =~= parameter_models(
            parameters@,
        ));
    }
    Ok(parameters)
}

/// The big-endian value of one to eight bytes.
pub open spec fn unsigned_spec(value: Seq<u8>) -> Option<u64> {
    if 0 < value.len() <= 8 {
        Some(be_value(value) as u64)
    } else {
        None
    }
}

/// The big-endian value of one to eight bytes.
pub fn unsigned_value(value: &[u8]) -> (n: Option<u64>)
    ensures
        n == unsigned_spec(value@),
{
    if value.len() == 0 || value.len() > 8 {
        return None;
    }
    Some(be_u64(value))
}

/// The counters of an error counter page.
#[derive(Debug, Clone, Copy, PartialEq, Eq, Structural)]
pub struct ErrorCounters {
    pub corrected_without_delay: Option<u64>,
    pub corrected_with_delay: Option<u64>,
    pub total_corrected: Option<u64>,
    pub correction_processed: Option<u64>,
    pub data_processed: Option<u64>,
    pub uncorrected: Option<u64>,
}

/// The value of the last parameter with the given code; `None` where there is none, or
/// where it is not a number.
pub open spec fn counter_spec(parameters: Seq<ParameterModel>, code: u16) -> Option<u64>
    decreases parameters.len(),
{
    if parameters.len() == 0 {
        None
    } else if parameters.last().code == code {
        unsigned_spec(parameters.last().value)
    } else {
        counter_spec(parameters.drop_last(), code)
    }
}

pub open spec fn counters_spec(parameters: Seq<ParameterModel>) -> ErrorCounters {
    ErrorCounters {
        corrected_without_delay: counter_spec(parameters, 0),
        corrected_with_delay: counter_spec(parameters, 1),
        total_corrected: counter_spec(parameters, 3),
        correction_processed: counter_spec(parameters, 4),
        data_processed: counter_spec(parameters, 5),
        uncorrected: counter_spec(parameters, 6),
    }
}

impl Default for ErrorCounters {
    fn default() -> (counters: ErrorCounters)
        ensures
            counters == counters_spec(Seq::empty()),
    {
        ErrorCounters {
            corrected_without_delay: None,
            corrected_with_delay: None,
            total_corrected: None,
            correction_processed: None,
            data_processed: None,
            uncorrected: None,
        }
    }
}

/// The error counters of a page.
pub fn error_counters(parameters: &[LogParameter]) -> (counters: ErrorCounters)
    ensures
        counters == counters_spec(parameter_models(parameters@)),
{
    let mut counters = ErrorCounters::default();
    let ghost all = parameter_models(parameters@);
    let mut i: usize = 0;
    assert(all.subrange(0, 0) =~= Seq::<ParameterModel>::empty());
    while i < parameters.len()
        invariant
            i <= parameters@.len(),
            all == parameter_models(parameters@),
            counters == counters_spec(all.subrange(0, i as int)),
        decreases parameters@.len() - i,
    {
        proof {
            let next = all.subrange(0, i + 1);
            assert(next.drop_last() =~= all.subrange(0, i as int));
            assert(next.last() == parameters@[i as int]@);
        }
        let value = unsigned_value(parameters[i].value.as_slice());
        match parameters[i].code {
            0 => {
                counters.corrected_without_delay = value;
            },
            1 => {
                counters.corrected_with_delay = value;
            },
            3 => {
                counters.total_corrected = value;
            },
            4 => {
                counters.correction_processed = value;
            },
            5 => {
                counters.data_processed = value;
            },
            6 => {
                counters.uncorrected = value;
            },
            _ => {},
        }
        i = i + 1;
    }
    assert(all.subrange(0, i as int) =~= all);
    counters
}

/// A parameter whose value is a number other than zero.
pub open spec fn is_active(p: ParameterModel) -> bool {
    match unsigned_spec(p.value) {
        Some(n) => n != 0,
        None => false,
    }
}

/// The codes of the active parameters, in their order.
pub open spec fn active_codes(parameters: Seq<ParameterModel>) -> Seq<u16>
    decreases parameters.len(),
{
    if parameters.len() == 0 {
        Seq::empty()
    } else if is_active(parameters.last()) {
        active_codes(parameters.drop_last()).push(parameters.last().code)
    } else {
        active_codes(parameters.drop_last())
    }
}

/// The flags that are set on a TapeAlert page.
pub fn active_tape_alerts(parameters: &[LogParameter]) -> (codes: Vec<u16>)
    ensures
        codes@ == active_codes(parameter_models(parameters@)),
{
    let mut codes: Vec<u16> = Vec::new();
    let ghost all = parameter_models(parameters@);
    let mut i: usize = 0;
    assert(all.subrange(0, 0) =~= Seq::<ParameterModel>::empty());
    while i < parameters.len()
        invariant
            i <= parameters@.len(),
            all == parameter_models(parameters@),
            codes@ == active_codes(all.subrange(0, i as int)),
        decreases parameters@.len() - i,
    {
        proof {
            let next = all.subrange(0, i + 1);
            assert(next.drop_last() =~= all.subrange(0, i as int));
            assert(next.last() == parameters@[i as int]@);
        }
        match unsigned_value(parameters[i].value.as_slice()) {
            Some(n) => {
                if n != 0 {
                    codes.push(parameters[i].code);
                }
            },
            None => {},
        }
        i = i + 1;
    }
    assert(all.subrange(0, i as int) =~= all);
    codes
}

} // verus!
