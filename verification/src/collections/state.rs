//! The packed state word of the stack.
//!
//! Bit layout of the 64-bit word, most significant bit first:
//!
//! | bits   | field      |
//! |--------|------------|
//! | 63     | `locked`   |
//! | 62..32 | `capacity` |
//! | 31..0  | `length`   |
//!
//! Both sizes are bounded by [`MAX_LENGTH`], so bit 31 of a well-formed word
//! is always clear.

use vstd::prelude::*;

verus! {

/// Largest length and capacity the word can describe: `2^31 - 1`.
pub const MAX_LENGTH: usize = 0x7fff_ffff;

/// The lock flag: the top bit of the word.
pub const MASK_LOCK: u64 = 0x8000_0000_0000_0000;

/// The three fields that the packed word holds.
#[derive(Copy, Clone, Debug, PartialEq, Eq, Structural)]
pub struct StackState {
    pub capacity: u32,
    pub length: u32,
    pub locked: bool,
}

impl Default for StackState {
    /// The state of a stack that was never used: unlocked, no buffer, no item.
    fn default() -> (state: Self)
        ensures
            state == (StackState { capacity: 0, length: 0, locked: false }),
    {
        StackState { capacity: 0, length: 0, locked: false }
    }
}

impl StackState {
    /// Both sizes are within the 31-bit bound.
    pub open spec fn valid(self) -> bool {
        self.capacity <= MAX_LENGTH && self.length <= MAX_LENGTH
    }

    /// The word that holds these fields.
    pub open spec fn word(self) -> int {
        (if self.locked { 0x8000_0000_0000_0000int } else { 0int })
            + self.capacity * 0x1_0000_0000 + self.length
    }

    /// A word can be unpacked when its length field is within the bound.
    pub open spec fn decodable(word: u64) -> bool {
        word % 0x1_0000_0000 <= MAX_LENGTH
    }

    /// The fields that a word holds.
    pub open spec fn of_word(word: u64) -> StackState {
        StackState {
            capacity: ((word / 0x1_0000_0000) % 0x8000_0000) as u32,
            length: (word % 0x1_0000_0000) as u32,
            locked: word >= 0x8000_0000_0000_0000,
        }
    }

    /// Packing then unpacking gives the fields back.
    pub proof fn lemma_word_round_trip(self)
        requires
            self.valid(),
        ensures
            0 <= self.word() <= u64::MAX,
            Self::decodable(self.word() as u64),
            Self::of_word(self.word() as u64) == self,
    {
        let c: int = self.capacity as int;
        let l: int = self.length as int;
        let w: int = self.word();
        assert(w % 0x1_0000_0000 == l) by (nonlinear_arith)
            requires
                0 <= l < 0x1_0000_0000,
                0 <= c,
                w == c * 0x1_0000_0000 + l || w == 0x8000_0000_0000_0000 + c * 0x1_0000_0000 + l,
        ;
        assert(w / 0x1_0000_0000 == c || w / 0x1_0000_0000 == 0x8000_0000 + c) by (nonlinear_arith)
            requires
                0 <= l < 0x1_0000_0000,
                0 <= c,
                w == c * 0x1_0000_0000 + l || w == 0x8000_0000_0000_0000 + c * 0x1_0000_0000 + l,
        ;
    }

    /// Unpacking then packing gives the word back.
    pub proof fn lemma_fields_round_trip(word: u64)
        requires
            Self::decodable(word),
        ensures
            Self::of_word(word).valid(),
            Self::of_word(word).word() == word,
    {
    }

    /// Packs the fields into a word.
    pub fn encode(self) -> (word: u64)
        requires
            self.valid(),
        ensures
            word == self.word(),
            Self::decodable(word),
            Self::of_word(word) == self,
    {
        let lock: u64 = if self.locked { MASK_LOCK } else { 0 };
        let cap: u64 = (self.capacity as u64) << 32;
        let len: u64 = self.length as u64;
        let word: u64 = lock | cap | len;
        proof {
            let c: u32 = self.capacity;
            let l: u32 = self.length;
            assert(((c as u64) << 32) == c * 0x1_0000_0000) by (bit_vector)
                requires
                    c <= 0x7fff_ffff,
            ;
            assert((lock | ((c as u64) << 32) | (l as u64)) == lock + ((c as u64) << 32) + l)
                by (bit_vector)
                requires
                    c <= 0x7fff_ffff,
                    l <= 0x7fff_ffff,
                    lock == 0 || lock == 0x8000_0000_0000_0000,
            ;
            self.lemma_word_round_trip();
        }
        word
    }

    /// Packs the fields into a word, unless a size exceeds the bound.
    pub fn checked_encode(self) -> (word: Option<u64>)
        ensures
            self.valid() ==> word == Some(self.word() as u64),
            !self.valid() ==> word is None,
    {
        if self.capacity <= 0x7fff_ffff && self.length <= 0x7fff_ffff {
            Some(self.encode())
        } else {
            None
        }
    }

    /// Unpacks a word into its fields, unless its length field exceeds the
    /// bound.
    pub fn checked_decode(word: u64) -> (state: Option<StackState>)
        ensures
            Self::decodable(word) ==> state == Some(Self::of_word(word)),
            !Self::decodable(word) ==> state is None,
    {
        assert(word & 0xffff_ffff == word % 0x1_0000_0000) by (bit_vector);
        if word & 0xffff_ffff <= 0x7fff_ffff {
            Some(Self::decode(word))
        } else {
            None
        }
    }

    /// Unpacks a word into its fields.
    pub fn decode(word: u64) -> (state: StackState)
        requires
            Self::decodable(word),
        ensures
            state == Self::of_word(word),
            state.valid(),
            state.word() == word,
    {
        let sizes: u64 = word & !MASK_LOCK;
        let high: u64 = sizes >> 32;
        proof {
            assert(((word & !0x8000_0000_0000_0000u64) >> 32) == (word / 0x1_0000_0000)
                % 0x8000_0000) by (bit_vector);
            assert((word & !0x8000_0000_0000_0000u64) as u32 == word % 0x1_0000_0000)
                by (bit_vector);
            assert((word & 0x8000_0000_0000_0000u64 != 0) == (word >= 0x8000_0000_0000_0000))
                by (bit_vector);
            Self::lemma_fields_round_trip(word);
        }
        let cap: u32 = high as u32;
        let len: u32 = #[verifier::truncate] (sizes as u32);
        let locked: bool = word & MASK_LOCK != 0;
        StackState { capacity: cap, length: len, locked }
    }
}

} // verus!
