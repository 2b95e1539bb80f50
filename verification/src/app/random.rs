//! Reproducible test data: the SplitMix64 sequence, low byte first.
use vstd::prelude::*;

verus! {

/// The state behind `n` steps from a seed.
pub open spec fn state_after(seed: u64, n: nat) -> u64
    decreases n,
{
    if n == 0 {
        seed
    } else {
        ((state_after(seed, (n - 1) as nat) + 0x9e37_79b9_7f4a_7c15) % 0x1_0000_0000_0000_0000)
            as u64
    }
}

/// The product of two words, as far as it fits in one.
pub open spec fn times(a: u64, b: u64) -> u64 {
    ((a * b) % 0x1_0000_0000_0000_0000) as u64
}

/// The word that a state stands for.
pub open spec fn mixed(state: u64) -> u64 {
    let a = times(state ^ (state >> 30u64), 0xbf58_476d_1ce4_e5b9);
    let b = times(a ^ (a >> 27u64), 0x94d0_49bb_1331_11eb);
    b ^ (b >> 31u64)
}

/// The word with the given position.
pub open spec fn word_at(seed: u64, k: nat) -> u64 {
    mixed(state_after(seed, k + 1))
}

/// The byte of a word with the given position, low byte first.
pub open spec fn low_byte(word: u64, k: nat) -> u8
    decreases k,
{
    if k == 0 {
        (word % 256) as u8
    } else {
        low_byte(word / 256, (k - 1) as nat)
    }
}

/// The byte of the stream with the given position.
pub open spec fn stream_byte(seed: u64, i: nat) -> u8 {
    low_byte(word_at(seed, i / 8), i % 8)
}

/// The bytes of the stream from one position to another.
pub open spec fn stream(seed: u64, from: nat, to: nat) -> Seq<u8> {
    Seq::new((to - from) as nat, |i: int| stream_byte(seed, (from + i) as nat))
}

/// A stream of test data of a fixed length.
pub struct PseudorandomReader {
    seed: Ghost<u64>,
    position: Ghost<nat>,
    state: u64,
    remaining: u64,
    word: u64,
    word_offset: u8,
}

impl PseudorandomReader {
    /// The seed of the stream.
    pub closed spec fn seed(&self) -> u64 {
        self.seed@
    }

    /// How many bytes have been given.
    pub closed spec fn position(&self) -> nat {
        self.position@
    }

    /// How many bytes are left.
    pub closed spec fn remaining(&self) -> nat {
        self.remaining as nat
    }

    /// The state belongs to the position.
    pub closed spec fn wf(&self) -> bool {
        let p = self.position@;
        &&& self.word_offset <= 8
        &&& self.word_offset == 8 ==> p % 8 == 0 && self.state == state_after(self.seed@, p / 8)
        &&& self.word_offset < 8 ==> p % 8 == self.word_offset && self.state == state_after(
            self.seed@,
            p / 8 + 1,
        ) && forall|k: nat|
            k < 8 - self.word_offset ==> #[trigger] low_byte(self.word, k) == low_byte(
                word_at(self.seed@, p / 8),
                (k + self.word_offset) as nat,
            )
    }

    /// A stream of `size` bytes.
    pub fn new(seed: u64, size: u64) -> (reader: PseudorandomReader)
        ensures
            reader.wf(),
            reader.seed() == seed,
            reader.position() == 0,
            reader.remaining() == size,
    {
        PseudorandomReader {
            seed: Ghost(seed),
            position: Ghost(0),
            state: seed,
            remaining: size,
            word: 0,
            word_offset: 8,
        }
    }

    fn next_u64(&mut self) -> (word: u64)
        requires
            old(self).wf(),
            old(self).word_offset == 8,
        ensures
            word == word_at(old(self).seed@, old(self).position@ / 8),
            final(self).seed == old(self).seed,
            final(self).position == old(self).position,
            final(self).remaining == old(self).remaining,
            final(self).word_offset == old(self).word_offset,
            final(self).state == state_after(
                old(self).seed@,
                old(self).position@ / 8 + 1,
            ),
    {
        let ghost k = self.position@ / 8;
        self.state = self.state.wrapping_add(0x9e37_79b9_7f4a_7c15);
        proof {
            let before = old(self).state;
            assert(self.state == ((before + 0x9e37_79b9_7f4a_7c15) % 0x1_0000_0000_0000_0000));
            assert(state_after(self.seed@, k + 1) == self.state);
        }
        let a: u64 = (self.state ^ (self.state >> 30)).wrapping_mul(0xbf58_476d_1ce4_e5b9);
        let b: u64 = (a ^ (a >> 27)).wrapping_mul(0x94d0_49bb_1331_11eb);
        b ^ (b >> 31)
    }

    fn next_byte(&mut self) -> (byte: u8)
        requires
            old(self).wf(),
            old(self).remaining > 0,
        ensures
            final(self).wf(),
            final(self).seed == old(self).seed,
            final(self).position@ == old(self).position@ + 1,
            final(self).remaining == old(self).remaining - 1,
            byte == stream_byte(old(self).seed@, old(self).position@),
    {
        let ghost p = self.position@;
        if self.word_offset == 8 {
            self.word = self.next_u64();
            self.word_offset = 0;
        }
        let byte: u8 = (self.word % 256) as u8;
        proof {
            assert(low_byte(self.word, 0) == low_byte(
                word_at(self.seed@, p / 8),
                (0 + self.word_offset) as nat,
            ));
        }
        let ghost word = self.word;
        let ghost offset = self.word_offset;
        self.word = self.word / 256;
        self.word_offset = self.word_offset + 1;
        self.remaining = self.remaining - 1;
        self.position = Ghost((p + 1) as nat);
        proof {
            assert forall|k: nat| k < 8 - self.word_offset implies #[trigger] low_byte(self.word, k)
                == low_byte(word_at(self.seed@, p / 8), (k + self.word_offset) as nat) by {
                assert(low_byte(word, (k + 1) as nat) == low_byte(self.word, k));
                assert(low_byte(word, (k + 1) as nat) == low_byte(
                    word_at(self.seed@, p / 8),
                    ((k + 1) + offset) as nat,
                ));
            }
            if self.word_offset < 8 {
                assert((p + 1) / 8 == p / 8 && (p + 1) % 8 == p % 8 + 1);
            } else {
                assert((p + 1) / 8 == p / 8 + 1 && (p + 1) % 8 == 0);
            }
        }
        byte
    }

    /// The next bytes of the stream: `len` of them, or what is left.
    pub fn read(&mut self, len: usize) -> (bytes: Vec<u8>)
        requires
            old(self).wf(),
        ensures
            final(self).wf(),
            final(self).seed() == old(self).seed(),
            bytes@.len() == (if len as nat <= old(self).remaining() {
                len as nat
            } else {
                old(self).remaining()
            }),
            bytes@ == stream(
                old(self).seed(),
                old(self).position(),
                old(self).position() + bytes@.len(),
            ),
            final(self).position() == old(self).position() + bytes@.len(),
            final(self).remaining() == old(self).remaining() - bytes@.len(),
    {
        let mut bytes: Vec<u8> = Vec::new();
        let ghost seed = self.seed@;
        let ghost start = self.position@;
        let ghost size = self.remaining as nat;
        while bytes.len() < len && self.remaining > 0
            invariant
                self.wf(),
                self.seed@ == seed,
                bytes@.len() <= len,
                self.position@ == start + bytes@.len(),
                self.remaining + bytes@.len() == size,
                bytes@ == stream(seed, start, start + bytes@.len()),
            decreases len - bytes@.len(),
        {
            let ghost before = bytes@;
            let byte: u8 = self.next_byte();
            bytes.push(byte);
            assert(bytes@ =~= stream(seed, start, start + bytes@.len()));
        }
        bytes
    }
}

/// Reading a stream in two pieces gives the same bytes as reading it in one.
pub proof fn stream_splits(seed: u64, from: nat, middle: nat, to: nat)
    requires
        from <= middle <= to,
    ensures
        stream(seed, from, middle) + stream(seed, middle, to) == stream(seed, from, to),
{
    assert(stream(seed, from, middle) + stream(seed, middle, to) =~= stream(seed, from, to));
}

} // verus!
