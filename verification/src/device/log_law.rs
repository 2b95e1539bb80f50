//! What a log page says is what is read of it.
use vstd::prelude::*;

use super::log::{
    active_codes, counter_spec, counters_spec, page_spec, parameters_in, unsigned_spec,
    ParameterModel, ParseError,
};
use crate::bytes::be_value;

verus! {

/// The two bytes of a number, the higher one first.
pub open spec fn pair(n: int) -> Seq<u8> {
    seq![(n / 256) as u8, (n % 256) as u8]
}

pub proof fn lemma_pair(n: int)
    requires
        0 <= n < 65536,
    ensures
        be_value(pair(n)) == n,
{
    let two = pair(n);
    assert(two.drop_last().drop_last() =~= Seq::<u8>::empty());
    reveal_with_fuel(be_value, 3);
    assert(two.drop_last().last() == (n / 256) as u8);
    assert(n / 256 * 256 + n % 256 == n);
}

/// The bytes of a parameter: its code, its control byte, its length, its value.
pub open spec fn parameter_bytes(p: ParameterModel) -> Seq<u8> {
    pair(p.code as int) + seq![p.control, p.value.len() as u8] + p.value
}

/// The bytes of parameters, one behind the other.
pub open spec fn parameters_bytes(list: Seq<ParameterModel>) -> Seq<u8>
    decreases list.len(),
{
    if list.len() == 0 {
        Seq::empty()
    } else {
        parameter_bytes(list[0]) + parameters_bytes(list.drop_first())
    }
}

/// The bytes of a log page.
pub open spec fn page_bytes(page: u8, list: Seq<ParameterModel>) -> Seq<u8> {
    seq![page, 0u8] + pair(parameters_bytes(list).len() as int) + parameters_bytes(list)
}

/// The values are short enough for their lengths.
pub open spec fn values_fit(list: Seq<ParameterModel>) -> bool {
    forall|i: int| 0 <= i < list.len() ==> (#[trigger] list[i]).value.len() < 256
}

proof fn lemma_first_parameter(list: Seq<ParameterModel>)
    requires
        list.len() > 0,
        values_fit(list),
    ensures
        ({
            let data = parameters_bytes(list);
            let p = list[0];
            let n = p.value.len() as int;
            &&& data.len() >= 4 + n
            &&& be_value(data.subrange(0, 2)) == p.code
            &&& data[2] == p.control
            &&& data[3] == n
            &&& data.subrange(4, 4 + n) == p.value
            &&& data.subrange(4 + n, data.len() as int) == parameters_bytes(list.drop_first())
        }),
{
    let data = parameters_bytes(list);
    let p = list[0];
    let n = p.value.len() as int;
    lemma_pair(p.code as int);
    assert(data.subrange(0, 2) =~= pair(p.code as int));
    assert(data.subrange(4, 4 + n) =~= p.value);
    assert(data.subrange(4 + n, data.len() as int) =~= parameters_bytes(list.drop_first()));
}

proof fn lemma_fit_rest(list: Seq<ParameterModel>)
    requires
        list.len() > 0,
        values_fit(list),
    ensures
        values_fit(list.drop_first()),
{
    assert forall|i: int| 0 <= i < list.drop_first().len() implies (
    #[trigger] list.drop_first()[i]).value.len() < 256 by {
        assert(list.drop_first()[i] == list[i + 1]);
    }
}

proof fn lemma_parameters_read_back(list: Seq<ParameterModel>)
    requires
        values_fit(list),
    ensures
        parameters_in(parameters_bytes(list)) == Ok::<Seq<ParameterModel>, ParseError>(list),
    decreases list.len(),
{
    if list.len() == 0 {
        assert(list =~= Seq::<ParameterModel>::empty());
    } else {
        lemma_fit_rest(list);
        lemma_first_parameter(list);
        lemma_parameters_read_back(list.drop_first());
        let p = list[0];
        assert(seq![ParameterModel { code: p.code, control: p.control, value: p.value }]
            + list.drop_first() =~= list);
    }
}

/// A log page gives its parameters, in their order, whatever bytes follow it in the buffer
/// and whatever the two upper bits of its first byte say.
pub proof fn log_page_reads_back(page: u8, list: Seq<ParameterModel>, behind: Seq<u8>)
    requires
        values_fit(list),
        parameters_bytes(list).len() < 65536,
    ensures
        page_spec(page_bytes(page, list) + behind, (page % 64) as u8) == Ok::<
            Seq<ParameterModel>,
            ParseError,
        >(list),
        forall|other: u8|
            other != page % 64 ==> (#[trigger] page_spec(page_bytes(page, list) + behind, other))
                == Err::<Seq<ParameterModel>, ParseError>(
                ParseError::WrongPage { expected: other, actual: (page % 64) as u8 },
            ),
{
    let body = parameters_bytes(list);
    let data = page_bytes(page, list) + behind;
    lemma_pair(body.len() as int);
    assert(data.subrange(2, 4) =~= pair(body.len() as int));
    assert(data.subrange(4, 4 + body.len() as int) =~= body);
    lemma_parameters_read_back(list);
}

/// A page of which the end is missing is refused, wherever it was cut.
pub proof fn cut_log_page_is_refused(page: u8, list: Seq<ParameterModel>, n: int)
    requires
        parameters_bytes(list).len() < 65536,
        0 <= n < page_bytes(page, list).len(),
    ensures
        page_spec(page_bytes(page, list).take(n), (page % 64) as u8) is Err,
{
    let body = parameters_bytes(list);
    let data = page_bytes(page, list).take(n);
    lemma_pair(body.len() as int);
    if n >= 4 {
        assert(data.subrange(2, 4) =~= pair(body.len() as int));
    }
}

proof fn lemma_counter(list: Seq<ParameterModel>, code: u16, i: int)
    requires
        0 <= i < list.len(),
        list[i].code == code,
        forall|j: int| i < j < list.len() ==> (#[trigger] list[j]).code != code,
    ensures
        counter_spec(list, code) == unsigned_spec(list[i].value),
    decreases list.len(),
{
    if i < list.len() - 1 {
        assert(list[list.len() - 1].code != code);
        let rest = list.drop_last();
        assert forall|j: int| i < j < rest.len() implies (#[trigger] rest[j]).code != code by {
            assert(rest[j] == list[j]);
        }
        lemma_counter(rest, code, i);
    }
}

/// The counter that a parameter of an error counter page tells: 0 and 1 what was corrected
/// without and with delay, 3 what was corrected in all, 4 how often, 5 the bytes, 6 what was
/// not corrected. The last parameter with a code counts.
pub proof fn counters_have_their_codes(list: Seq<ParameterModel>, i: int)
    requires
        0 <= i < list.len(),
        forall|j: int| i < j < list.len() ==> (#[trigger] list[j]).code != list[i].code,
    ensures
        ({
            let c = counters_spec(list);
            let value = list[i].value;
            let told = if 0 < value.len() <= 8 {
                Some(be_value(value) as u64)
            } else {
                None
            };
            &&& list[i].code == 0 ==> c.corrected_without_delay == told
            &&& list[i].code == 1 ==> c.corrected_with_delay == told
            &&& list[i].code == 3 ==> c.total_corrected == told
            &&& list[i].code == 4 ==> c.correction_processed == told
            &&& list[i].code == 5 ==> c.data_processed == told
            &&& list[i].code == 6 ==> c.uncorrected == told
        }),
{
    lemma_counter(list, list[i].code, i);
}

/// A flag of a TapeAlert page is set: its value has one to eight bytes, and not all are zero.
pub open spec fn flag_is_set(p: ParameterModel) -> bool {
    0 < p.value.len() <= 8 && be_value(p.value) as u64 != 0
}

/// The flags that are told are those that are set, in the order of the page.
pub proof fn set_flags_are_told(list: Seq<ParameterModel>, i: int)
    requires
        0 <= i < list.len(),
    ensures
        active_codes(list) == active_codes(list.take(i)) + (if flag_is_set(list[i]) {
            seq![list[i].code]
        } else {
            Seq::empty()
        }) + active_codes(list.skip(i + 1)),
    decreases list.len(),
{
    let rest = list.drop_last();
    if i == list.len() - 1 {
        assert(list.take(i) =~= rest);
        assert(list.skip(i + 1) =~= Seq::<ParameterModel>::empty());
        let told = active_codes(rest) + (if flag_is_set(list[i]) {
            seq![list[i].code]
        } else {
            Seq::empty()
        });
        assert(told + active_codes(list.skip(i + 1)) =~= told);
        assert(active_codes(list) =~= told);
    } else {
        set_flags_are_told(rest, i);
        assert(rest.take(i) =~= list.take(i));
        assert(list.skip(i + 1).drop_last() =~= rest.skip(i + 1));
        assert(active_codes(list) =~= active_codes(list.take(i)) + (if flag_is_set(list[i]) {
            seq![list[i].code]
        } else {
            Seq::empty()
        }) + active_codes(list.skip(i + 1)));
    }
}

} // verus!
