//! What a channel error page says is what is read of it.
use vstd::prelude::*;
use vstd::utf8::*;

use super::channel_error::{
    channel_page, channels_of, closed_words, delta_spec, hex_u64, is_ascii_space, page_code_spec,
    summary_fields_spec, word_state, words_spec, ChannelCounters, PageKind, RateSource,
};
use super::log_law::{lemma_pair, pair};

verus! {

/// Words with a space in front of each.
pub open spec fn spaced(words: Seq<Seq<char>>) -> Seq<char>
    decreases words.len(),
{
    if words.len() == 0 {
        Seq::empty()
    } else {
        spaced(words.drop_last()).push(' ') + words.last()
    }
}

/// Words that no space divides.
pub open spec fn are_words(words: Seq<Seq<char>>) -> bool {
    forall|i: int| 0 <= i < words.len() ==> is_word(#[trigger] words[i])
}

pub open spec fn is_word(word: Seq<char>) -> bool {
    word.len() > 0 && forall|i: int| 0 <= i < word.len() ==> !is_ascii_space(#[trigger] word[i])
}

proof fn lemma_word(before: Seq<char>, word: Seq<char>)
    requires
        forall|i: int| 0 <= i < word.len() ==> !is_ascii_space(#[trigger] word[i]),
        word_state(before).1 == Seq::<char>::empty(),
    ensures
        word_state(before + word) == (word_state(before).0, word),
    decreases word.len(),
{
    if word.len() == 0 {
        assert(before + word =~= before);
        assert(word =~= Seq::<char>::empty());
    } else {
        let rest = word.drop_last();
        assert forall|i: int| 0 <= i < rest.len() implies !is_ascii_space(#[trigger] rest[i]) by {
            assert(rest[i] == word[i]);
        }
        lemma_word(before, rest);
        assert((before + word).drop_last() =~= before + rest);
        assert((before + word).last() == word.last());
        assert(word[word.len() - 1] == word.last());
        assert(rest.push(word.last()) =~= word);
    }
}

proof fn lemma_words(words: Seq<Seq<char>>)
    requires
        are_words(words),
    ensures
        words_spec(spaced(words)) == words,
    decreases words.len(),
{
    if words.len() == 0 {
        assert(words_spec(spaced(words)) =~= words);
    } else {
        let rest = words.drop_last();
        assert forall|i: int| 0 <= i < rest.len() implies is_word(#[trigger] rest[i]) by {
            assert(rest[i] == words[i]);
        }
        lemma_words(rest);
        let before = spaced(rest).push(' ');
        assert(before.drop_last() =~= spaced(rest));
        assert(word_state(before) == (rest, Seq::<char>::empty()));
        assert(is_word(words[words.len() - 1]));
        lemma_word(before, words.last());
        assert(closed_words(rest, words.last()) =~= words);
    }
}

/// Five fields in a row are the counters of a channel.
pub open spec fn fields_tell(words: Seq<Seq<char>>, at: int, c: ChannelCounters) -> bool {
    &&& hex_u64(words[at]) == Some(c.c1_errors)
    &&& hex_u64(words[at + 1]) == Some(c.c1_uncorrectable)
    &&& hex_u64(words[at + 2]) == Some(c.header_errors)
    &&& hex_u64(words[at + 3]) == Some(c.write_pass_errors)
    &&& hex_u64(words[at + 4]) == Some(c.ccps)
}

proof fn lemma_channels(words: Seq<Seq<char>>, list: Seq<ChannelCounters>)
    requires
        words.len() == 5 * list.len(),
        forall|k: int| 0 <= k < list.len() ==> fields_tell(words, 5 * k, #[trigger] list[k]),
    ensures
        channels_of(words) == Ok::<Seq<ChannelCounters>, Seq<char>>(list),
    decreases list.len(),
{
    if list.len() == 0 {
        assert(list =~= Seq::<ChannelCounters>::empty());
    } else {
        let rest = words.subrange(5, words.len() as int);
        let others = list.drop_first();
        assert forall|k: int| 0 <= k < others.len() implies fields_tell(
            rest,
            5 * k,
            #[trigger] others[k],
        ) by {
            assert(others[k] == list[k + 1]);
            assert(fields_tell(words, 5 * (k + 1), list[k + 1]));
        }
        lemma_channels(rest, others);
        assert(fields_tell(words, 5 * 0int, list[0]));
        assert(seq![list[0]] + others =~= list);
    }
}

/// A channel error page gives the counters of its channels, in their order, whatever its
/// summary fields say and whatever bytes follow it in the buffer.
pub proof fn channel_page_reads_back(
    kind: PageKind,
    words: Seq<Seq<char>>,
    list: Seq<ChannelCounters>,
    behind: Seq<u8>,
)
    requires
        are_words(words),
        words.len() == summary_fields_spec(kind) + 5 * list.len(),
        forall|k: int|
            0 <= k < list.len() ==> fields_tell(
                words,
                summary_fields_spec(kind) + 5 * k,
                #[trigger] list[k],
            ),
        encode_utf8(spaced(words)).len() < 65536,
    ensures
        ({
            let body = encode_utf8(spaced(words));
            let page = seq![page_code_spec(kind), 0u8] + pair(body.len() as int) + body;
            &&& channel_page(page + behind, kind) == Ok::<Seq<ChannelCounters>, Seq<char>>(list)
            &&& forall|n: int|
                0 <= n < page.len() ==> channel_page(#[trigger] page.take(n), kind) is Err
        }),
{
    let text = spaced(words);
    let body = encode_utf8(text);
    let page = seq![page_code_spec(kind), 0u8] + pair(body.len() as int) + body;
    let data = page + behind;
    let n: int = summary_fields_spec(kind) as int;
    lemma_pair(body.len() as int);
    assert(data.subrange(2, 4) =~= pair(body.len() as int));
    assert(data.subrange(4, 4 + body.len() as int) =~= body);
    encode_utf8_valid_utf8(text);
    encode_utf8_decode_utf8(text);
    lemma_words(words);
    let fields = words.subrange(n, words.len() as int);
    assert forall|k: int| 0 <= k < list.len() implies fields_tell(
        fields,
        5 * k,
        #[trigger] list[k],
    ) by {
        assert(fields_tell(words, n + 5 * k, list[k]));
    }
    lemma_channels(fields, list);
    assert((5 * list.len()) % 5 == 0);
    assert forall|m: int| 0 <= m < page.len() implies channel_page(
        #[trigger] page.take(m),
        kind,
    ) is Err by {
        if m >= 4 {
            assert(page.take(m).subrange(2, 4) =~= pair(body.len() as int));
        }
    }
}

/// What is measured between two samples is what came to the first one to give the second:
/// a rate only where the channel went on and its errors did not fall, rest only where
/// nothing moved.
pub proof fn measured_rate_adds_up(channel: usize, before: ChannelCounters, after: ChannelCounters)
    ensures
        ({
            let d = delta_spec(channel, before, after);
            &&& d.channel == channel
            &&& d.ccp_advanced <==> before.ccps < after.ccps
            &&& match d.source {
                RateSource::Measured { c1, ccps } => {
                    &&& before.c1_errors + c1 == after.c1_errors
                    &&& before.ccps + ccps == after.ccps
                    &&& ccps > 0
                },
                RateSource::Idle => before.ccps == after.ccps,
                RateSource::Unknown => after.ccps < before.ccps || (after.ccps > before.ccps
                    && after.c1_errors < before.c1_errors),
            }
        }),
{
}

} // verus!
