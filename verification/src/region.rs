//! The record of the values that the cells of a step are given.
use crate::builder::{
    ConstantDivisionGadget, MemoryAddressGadget, MemoryExpansionGadget, TransferGadget,
};
use crate::expression::{Cell, RandomLinearCombination};
use crate::radix::combine_bytes;
use crate::word::Word;
use vstd::prelude::*;

verus! {

/// The value of one cell.
#[derive(Debug)]
pub enum Scalar {
    Integer(u64),
    Word(Word),
    /// The bytes, combined with the powers of the randomness.
    Combined(Vec<u8>),
}

/// What a cell is given.
pub enum ScalarValue {
    Integer(int),
    Combined(Seq<u8>),
}

impl ScalarValue {
    /// The value, under a randomness.
    pub open spec fn under(self, randomness: int) -> int {
        match self {
            ScalarValue::Integer(x) => x,
            ScalarValue::Combined(bytes) => combine_bytes(bytes, randomness),
        }
    }
}

impl View for Scalar {
    type V = ScalarValue;

    open spec fn view(&self) -> ScalarValue {
        match self {
            Scalar::Integer(x) => ScalarValue::Integer(*x as int),
            Scalar::Word(word) => ScalarValue::Integer(word.value() as int),
            Scalar::Combined(bytes) => ScalarValue::Combined(bytes@),
        }
    }
}

/// One thing that a step is given.
#[derive(Debug)]
#[allow(inconsistent_fields)]
pub enum Assignment {
    Cell { cell: Cell, value: Scalar },
    /// One byte for each of the cells.
    Bytes { cells: RandomLinearCombination, bytes: Vec<u8> },
    /// The range of memory.
    MemoryAddress { gadget: MemoryAddressGadget, start: Word, length: Word },
    /// The size of the memory before it grows to the end of the range.
    MemoryExpansion {
        gadget: MemoryExpansionGadget,
        memory_word_size: u64,
        range: MemoryAddressGadget,
    },
    /// The balances after the transfer and before it, and the value moved.
    Transfer {
        gadget: TransferGadget,
        sender_balance_pair: (Word, Word),
        receiver_balance_pair: (Word, Word),
        value: Word,
    },
    /// The number that is divided, less what the expansion of the memory costs.
    ConstantDivision {
        gadget: ConstantDivisionGadget,
        numerator: u64,
        less: MemoryExpansionGadget,
    },
}

/// The number that is divided, once the expansion of the memory has cost this much: none where
/// it does not suffice.
pub fn dividend(numerator: u64, gas_cost: u64) -> (result: Option<u64>)
    ensures
        result == (if numerator >= gas_cost {
            Some((numerator - gas_cost) as u64)
        } else {
            None
        }),
{
    if numerator >= gas_cost {
        Some(numerator - gas_cost)
    } else {
        None
    }
}

/// What a step is given, cells by their indices and words by their numbers.
#[allow(inconsistent_fields)]
pub enum Given {
    Cell { index: int, value: ScalarValue },
    Bytes { first: int, n_cells: int, bytes: Seq<u8> },
    MemoryAddress { gadget: MemoryAddressGadget, start: int, length: int },
    MemoryExpansion {
        gadget: MemoryExpansionGadget,
        memory_word_size: int,
        range: MemoryAddressGadget,
    },
    Transfer {
        gadget: TransferGadget,
        sender_balance_pair: (int, int),
        receiver_balance_pair: (int, int),
        value: int,
    },
    ConstantDivision {
        gadget: ConstantDivisionGadget,
        numerator: int,
        less: MemoryExpansionGadget,
    },
}

impl View for Assignment {
    type V = Given;

    open spec fn view(&self) -> Given {
        match self {
            Assignment::Cell { cell, value } => Given::Cell {
                index: cell.index as int,
                value: value@,
            },
            Assignment::Bytes { cells, bytes } => Given::Bytes {
                first: cells.first as int,
                n_cells: cells.n_bytes as int,
                bytes: bytes@,
            },
            Assignment::MemoryAddress { gadget, start, length } => Given::MemoryAddress {
                gadget: *gadget,
                start: start.value() as int,
                length: length.value() as int,
            },
            Assignment::MemoryExpansion { gadget, memory_word_size, range } => {
                Given::MemoryExpansion {
                    gadget: *gadget,
                    memory_word_size: *memory_word_size as int,
                    range: *range,
                }
            },
            Assignment::Transfer { gadget, sender_balance_pair, receiver_balance_pair, value } => {
                Given::Transfer {
                    gadget: *gadget,
                    sender_balance_pair: (
                        sender_balance_pair.0.value() as int,
                        sender_balance_pair.1.value() as int,
                    ),
                    receiver_balance_pair: (
                        receiver_balance_pair.0.value() as int,
                        receiver_balance_pair.1.value() as int,
                    ),
                    value: value.value() as int,
                }
            },
            Assignment::ConstantDivision { gadget, numerator, less } => Given::ConstantDivision {
                gadget: *gadget,
                numerator: *numerator as int,
                less: *less,
            },
        }
    }
}

/// What is said of an assignment is what it holds, each thing in its place.
pub proof fn law_view_says_what_the_assignment_holds(assignment: Assignment)
    ensures
        match (assignment, assignment@) {
            (Assignment::Cell { cell, value }, Given::Cell { index, value: given }) => {
                &&& index == cell.index
                &&& match value {
                    Scalar::Integer(x) => given == ScalarValue::Integer(x as int),
                    Scalar::Word(word) => given == ScalarValue::Integer(word.value() as int),
                    Scalar::Combined(bytes) => given == ScalarValue::Combined(bytes@),
                }
            },
            (Assignment::Bytes { cells, bytes }, Given::Bytes { first, n_cells, bytes: given }) => {
                &&& first == cells.first
                &&& n_cells == cells.n_bytes
                &&& given == bytes@
            },
            (
                Assignment::MemoryAddress { gadget, start, length },
                Given::MemoryAddress { gadget: part, start: at, length: n },
            ) => {
                &&& part == gadget
                &&& at == start.value()
                &&& n == length.value()
            },
            (
                Assignment::MemoryExpansion { gadget, memory_word_size, range },
                Given::MemoryExpansion { gadget: part, memory_word_size: words, range: to },
            ) => {
                &&& part == gadget
                &&& words == memory_word_size
                &&& to == range
            },
            (
                Assignment::Transfer { gadget, sender_balance_pair, receiver_balance_pair, value },
                Given::Transfer {
                    gadget: part,
                    sender_balance_pair: sender,
                    receiver_balance_pair: receiver,
                    value: amount,
                },
            ) => {
                &&& part == gadget
                &&& sender.0 == sender_balance_pair.0.value()
                &&& sender.1 == sender_balance_pair.1.value()
                &&& receiver.0 == receiver_balance_pair.0.value()
                &&& receiver.1 == receiver_balance_pair.1.value()
                &&& amount == value.value()
            },
            (
                Assignment::ConstantDivision { gadget, numerator, less },
                Given::ConstantDivision { gadget: part, numerator: given, less: cost },
            ) => {
                &&& part == gadget
                &&& given == numerator
                &&& cost == less
            },
            _ => false,
        },
{
}

/// Takes down, one after the other, what the rows of a region are given. Nothing is lost or
/// merged, so that the assignments can be made in their order.
pub struct CachedRegion {
    /// The row of each assignment, and the assignment.
    pub assignments: Vec<(usize, Assignment)>,
}

impl View for CachedRegion {
    type V = Seq<(int, Given)>;

    open spec fn view(&self) -> Seq<(int, Given)> {
        Seq::new(
            self.assignments@.len(),
            |i: int| (self.assignments@[i].0 as int, self.assignments@[i].1@),
        )
    }
}

impl CachedRegion {
    /// A region with nothing given.
    pub fn new() -> (region: CachedRegion)
        ensures
            region@ == Seq::<(int, Given)>::empty(),
    {
        let region = CachedRegion { assignments: Vec::new() };
        assert(region@ =~= Seq::<(int, Given)>::empty());
        region
    }

    /// The row at the offset is given this.
    pub fn assign(&mut self, offset: usize, assignment: Assignment)
        ensures
            final(self)@ == old(self)@.push((offset as int, assignment@)),
    {
        self.assignments.push((offset, assignment));
        assert(self@ =~= old(self)@.push((offset as int, assignment@)));
    }

    /// The cell of the row at the offset is given the number.
    pub fn assign_integer(&mut self, offset: usize, cell: Cell, value: u64)
        ensures
            final(self)@ == old(self)@.push(
                (
                    offset as int,
                    Given::Cell {
                        index: cell.index as int,
                        value: ScalarValue::Integer(value as int),
                    },
                ),
            ),
    {
        self.assign(offset, Assignment::Cell { cell, value: Scalar::Integer(value) });
    }
}

} // verus!
