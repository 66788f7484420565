//! The numbers and addresses of the machine.
use crate::radix::{
    combine_bytes, le_bytes, lemma_combine_zeros, lemma_le_bytes_len, lemma_le_bytes_of,
    lemma_le_bytes_split, reversed, to_le_bytes,
};
use vstd::arithmetic::power::{lemma_pow_adds, pow};
use vstd::prelude::*;

verus! {

/// A 256-bit word: four limbs of 64 bits, the least significant first.
#[derive(Clone, Copy, Debug, PartialEq, Eq)]
pub struct Word {
    pub limbs: [u64; 4],
}

/// An account's address, the most significant byte first.
#[derive(Clone, Copy, Debug, PartialEq, Eq)]
pub struct Address {
    pub bytes: [u8; 20],
}

/// 2 to the 64th, what a limb weighs against the one below it.
pub open spec fn limb_base() -> nat {
    0x1_0000_0000_0000_0000
}

/// A limb is 8 bytes.
pub proof fn lemma_limb_base()
    ensures
        pow(256, 8) == limb_base(),
{
    reveal_with_fuel(pow, 9);
}

impl Word {
    /// The number.
    pub open spec fn value(self) -> nat {
        self.limbs[0] as nat + limb_base() * (self.limbs[1] as nat + limb_base() * (
        self.limbs[2] as nat + limb_base() * (self.limbs[3] as nat)))
    }

    /// The 32 bytes of the number, the least significant first.
    pub open spec fn bytes(self) -> Seq<u8> {
        le_bytes(self.value(), 32)
    }

    /// The word 0.
    pub fn zero() -> (word: Word)
        ensures
            word.value() == 0,
    {
        Word { limbs: [0, 0, 0, 0] }
    }

    /// The word with the number.
    pub fn from_u64(x: u64) -> (word: Word)
        ensures
            word.value() == x,
    {
        Word { limbs: [x, 0, 0, 0] }
    }

    /// The number, where it is a `usize`.
    pub fn to_usize(&self) -> (result: Option<usize>)
        ensures
            result == (if self.value() <= usize::MAX {
                Some(self.value() as usize)
            } else {
                None
            }),
    {
        proof {
            lemma_limbs(*self);
        }
        if self.limbs[1] != 0 || self.limbs[2] != 0 || self.limbs[3] != 0 {
            return None;
        }
        if self.limbs[0] <= usize::MAX as u64 {
            Some(self.limbs[0] as usize)
        } else {
            None
        }
    }

    /// The number, which is a `usize`.
    pub fn as_usize(&self) -> (result: usize)
        requires
            self.value() <= usize::MAX,
        ensures
            result == self.value(),
    {
        proof {
            lemma_limbs(*self);
        }
        self.limbs[0] as usize
    }

    /// The number modulo 2 to the 64th.
    pub fn low_u64(&self) -> (result: u64)
        ensures
            result == self.value() % limb_base(),
    {
        proof {
            lemma_limbs(*self);
        }
        self.limbs[0]
    }

    /// The 32 bytes of the number, the least significant first.
    pub fn to_le_bytes(&self) -> (bytes: Vec<u8>)
        ensures
            bytes@ == self.bytes(),
            bytes@.len() == 32,
    {
        let mut bytes: Vec<u8> = to_le_bytes(self.limbs[0], 8);
        let mut second: Vec<u8> = to_le_bytes(self.limbs[1], 8);
        let mut third: Vec<u8> = to_le_bytes(self.limbs[2], 8);
        let mut fourth: Vec<u8> = to_le_bytes(self.limbs[3], 8);
        bytes.append(&mut second);
        bytes.append(&mut third);
        bytes.append(&mut fourth);
        proof {
            lemma_word_bytes(*self);
        }
        bytes
    }
}

/// A word of which only the lowest limb counts is that limb, and none other is.
pub proof fn lemma_limbs(word: Word)
    ensures
        word.value() >= limb_base() <==> (word.limbs[1] != 0 || word.limbs[2] != 0
            || word.limbs[3] != 0),
        word.value() < limb_base() ==> word.value() == word.limbs[0],
        word.value() % limb_base() == word.limbs[0],
{
    let upper = word.limbs[1] as nat + limb_base() * (word.limbs[2] as nat + limb_base() * (
    word.limbs[3] as nat));
    assert(word.value() == word.limbs[0] + limb_base() * upper);
    assert(upper > 0 <==> (word.limbs[1] != 0 || word.limbs[2] != 0 || word.limbs[3] != 0));
}

/// The bytes of a word are those of its limbs.
pub proof fn lemma_word_bytes(word: Word)
    ensures
        word.bytes() == le_bytes(word.limbs[0] as nat, 8) + le_bytes(word.limbs[1] as nat, 8)
            + le_bytes(word.limbs[2] as nat, 8) + le_bytes(word.limbs[3] as nat, 8),
        word.bytes().len() == 32,
{
    lemma_limb_base();
    let w3 = word.limbs[3] as nat;
    let w2 = word.limbs[2] as nat + limb_base() * w3;
    let w1 = word.limbs[1] as nat + limb_base() * w2;
    lemma_le_bytes_split(word.limbs[2] as nat, w3, 8, 8);
    lemma_le_bytes_split(word.limbs[1] as nat, w2, 8, 16);
    lemma_le_bytes_split(word.limbs[0] as nat, w1, 8, 24);
    lemma_le_bytes_len(word.value(), 32);
    assert(word.bytes() =~= le_bytes(word.limbs[0] as nat, 8) + le_bytes(
        word.limbs[1] as nat,
        8,
    ) + le_bytes(word.limbs[2] as nat, 8) + le_bytes(word.limbs[3] as nat, 8));
}

impl Address {
    /// The bytes of the address, the least significant first.
    pub open spec fn le_bytes(self) -> Seq<u8> {
        self.bytes@.reverse()
    }

    /// The address as a number.
    pub open spec fn value(self) -> int {
        combine_bytes(self.le_bytes(), 256)
    }

    /// The bytes of the address, the least significant first.
    pub fn to_le_bytes(&self) -> (bytes: Vec<u8>)
        ensures
            bytes@ == self.le_bytes(),
            bytes@.len() == 20,
    {
        assert(self.bytes@.len() == 20);
        reversed(&self.bytes)
    }
}

/// A word that holds an address is combined as the address is.
pub proof fn lemma_address_word(address: Address, word: Word, base: int)
    requires
        word.value() == address.value(),
    ensures
        combine_bytes(word.bytes(), base) == combine_bytes(address.le_bytes(), base),
{
    lemma_le_bytes_of(address.le_bytes(), 32);
    lemma_combine_zeros(address.le_bytes(), 12, base);
}

/// A word is below 2 to the 256th.
pub proof fn lemma_word_bound(word: Word)
    ensures
        word.value() < pow(256, 32),
{
    lemma_limb_base();
    let b = limb_base() as int;
    lemma_pow_adds(256, 8, 8);
    lemma_pow_adds(256, 16, 8);
    lemma_pow_adds(256, 24, 8);
    assert(pow(256, 32) == b * b * b * b);
    let (w0, w1, w2, w3) = (
        word.limbs[0] as int,
        word.limbs[1] as int,
        word.limbs[2] as int,
        word.limbs[3] as int,
    );
    assert(w0 + b * (w1 + b * (w2 + b * w3)) < b * b * b * b);
}

} // verus!
