//! What has been recorded of the execution of a step.
use crate::constants::{CREATE2, CREATE_GAS};
use crate::constraint::{AccountFieldTag, CallContextFieldTag};
use crate::word::{Address, Word};
use vstd::prelude::*;

verus! {

/// A read or write that a step has made.
#[derive(Clone, Copy, Debug)]
#[allow(inconsistent_fields)]
pub enum Rw {
    /// Of the stack.
    Stack { is_write: bool, call_id: u64, stack_pointer: u64, value: Word },
    /// Of a byte of memory.
    Memory { is_write: bool, call_id: u64, memory_address: u64, byte: u8 },
    /// Of whether a transaction has accessed an account.
    TxAccessListAccount {
        is_write: bool,
        tx_id: u64,
        account_address: Address,
        is_warm: bool,
        is_warm_prev: bool,
    },
    /// Of a field of an account.
    Account {
        is_write: bool,
        account_address: Address,
        field_tag: AccountFieldTag,
        value: Word,
        value_prev: Word,
    },
    /// Of a field of a call.
    CallContext { is_write: bool, call_id: u64, field_tag: CallContextFieldTag, value: Word },
    /// Of something that a creation neither reads nor writes.
    Other,
}

impl Rw {
    /// The word read from or written to the stack.
    pub fn stack_value(&self) -> (value: Word)
        requires
            self is Stack,
        ensures
            value == self->Stack_value,
    {
        match self {
            Rw::Stack { value, .. } => *value,
            _ => Word::zero(),
        }
    }

    /// The byte read from or written to memory.
    pub fn memory_value(&self) -> (byte: u8)
        requires
            self is Memory,
        ensures
            byte == self->byte,
    {
        match self {
            Rw::Memory { byte, .. } => *byte,
            _ => 0,
        }
    }

    /// The account concerned, if any is.
    pub open spec fn spec_address(self) -> Option<Address> {
        match self {
            Rw::TxAccessListAccount { account_address, .. } => Some(account_address),
            Rw::Account { account_address, .. } => Some(account_address),
            _ => None,
        }
    }

    /// The account concerned, if any is.
    pub fn address(&self) -> (address: Option<Address>)
        ensures
            address == self.spec_address(),
    {
        match self {
            Rw::TxAccessListAccount { account_address, .. } => Some(*account_address),
            Rw::Account { account_address, .. } => Some(*account_address),
            _ => None,
        }
    }

    /// Whether the account has been accessed, after the write and before it.
    pub fn tx_access_list_value_pair(&self) -> (pair: (bool, bool))
        requires
            self is TxAccessListAccount,
        ensures
            pair == (self->is_warm, self->is_warm_prev),
    {
        match self {
            Rw::TxAccessListAccount { is_warm, is_warm_prev, .. } => (*is_warm, *is_warm_prev),
            _ => (false, false),
        }
    }

    /// The field of the account, after the write and before it.
    pub fn account_value_pair(&self) -> (pair: (Word, Word))
        requires
            self is Account,
        ensures
            pair == (self->Account_value, self->value_prev),
    {
        match self {
            Rw::Account { value, value_prev, .. } => (*value, *value_prev),
            _ => (Word::zero(), Word::zero()),
        }
    }

    /// The field of the call.
    pub fn call_context_value(&self) -> (value: Word)
        requires
            self is CallContext,
        ensures
            value == self->CallContext_value,
    {
        match self {
            Rw::CallContext { value, .. } => *value,
            _ => Word::zero(),
        }
    }
}

/// The reads and writes of a block.
pub struct Block {
    pub rws: Vec<Rw>,
}

pub struct Transaction {
    pub id: usize,
}

/// The call that a step belongs to.
pub struct Call {
    pub rw_counter_end_of_reversion: usize,
    pub is_persistent: bool,
    pub callee_address: Address,
}

/// A step of the execution.
pub struct ExecStep {
    /// The opcode executed, if one is.
    pub opcode: Option<u8>,
    /// Where the step's reads and writes stand among the block's, in the order they were made.
    pub rw_indices: Vec<usize>,
    /// The gas left before the step.
    pub gas_left: u64,
    /// The size of the memory before the step, in words.
    pub memory_word_size: u64,
}

impl ExecStep {
    /// The step has made a read or write number `k`, and the block has it.
    pub open spec fn has_rw(self, block: Block, k: int) -> bool {
        0 <= k < self.rw_indices@.len() && self.rw_indices@[k] < block.rws@.len()
    }

    /// The step's read or write number `k`.
    pub open spec fn rw(self, block: Block, k: int) -> Rw {
        block.rws@[self.rw_indices@[k] as int]
    }

    pub open spec fn is_create2(self) -> bool {
        self.opcode == Some(CREATE2)
    }

    /// How many places the salt of CREATE2 moves what comes after it.
    pub open spec fn salt_width(self) -> int {
        if self.is_create2() {
            1
        } else {
            0
        }
    }

    /// The word that the step's read or write number `k` takes from the stack.
    pub open spec fn popped(self, block: Block, k: int) -> Word {
        self.rw(block, k)->Stack_value
    }

    /// The length of the initialization code.
    pub open spec fn code_length(self, block: Block) -> int {
        self.popped(block, 2).value() as int
    }

    /// How many places the salt and the copy of the code move what comes after them.
    pub open spec fn moved(self, block: Block) -> int {
        self.salt_width() + self.code_length(block)
    }

    /// The initialization code, as it was read from memory.
    pub open spec fn code(self, block: Block) -> Seq<u8> {
        Seq::new(
            self.code_length(block) as nat,
            |i: int| self.rw(block, 4 + self.salt_width() + i)->byte,
        )
    }

    /// The step has an opcode and the gas for a creation, and its reads and writes are those of
    /// a creation wherever the gadget looks at them.
    pub open spec fn records_create(self, block: Block) -> bool {
        let moved = self.moved(block);
        &&& self.opcode is Some
        &&& self.gas_left >= CREATE_GAS
        &&& forall|k: int|
            #![trigger self.rw(block, k)]
            0 <= k < 3 ==> self.has_rw(block, k) && self.rw(block, k) is Stack
        &&& self.is_create2() ==> self.has_rw(block, 3) && self.rw(block, 3) is Stack
        &&& forall|k: int|
            #![trigger self.rw(block, k)]
            4 + self.salt_width() <= k < 4 + moved ==> self.has_rw(block, k) && self.rw(
                block,
                k,
            ) is Memory
        &&& self.has_rw(block, 7 + moved) && self.rw(block, 7 + moved) is TxAccessListAccount
        &&& self.has_rw(block, 9 + moved) && self.rw(block, 9 + moved) is Account
        &&& self.has_rw(block, 10 + moved) && self.rw(block, 10 + moved) is CallContext
        &&& self.has_rw(block, 11 + moved) && self.rw(block, 11 + moved) is CallContext
        &&& self.has_rw(block, 13 + moved) && self.rw(block, 13 + moved) is Account
        &&& self.has_rw(block, 14 + moved) && self.rw(block, 14 + moved) is Account
        &&& self.has_rw(block, 21 + moved) && self.rw(block, 21 + moved) is CallContext
    }

    /// The step's read or write number `k`, if the step has made it and the block has it.
    pub fn rw_at(&self, block: &Block, k: usize) -> (rw: Option<Rw>)
        ensures
            rw == (if self.has_rw(*block, k as int) {
                Some(self.rw(*block, k as int))
            } else {
                None
            }),
    {
        if k < self.rw_indices.len() {
            let index: usize = self.rw_indices[k];
            if index < block.rws.len() {
                return Some(block.rws[index]);
            }
        }
        None
    }

    /// Whether all that the gadget looks at is there, and is what it has to be.
    pub fn check_create(&self, block: &Block) -> (result: bool)
        ensures
            result == self.records_create(*block),
    {
        if self.opcode.is_none() || self.gas_left < CREATE_GAS {
            return false;
        }
        let salt_width: usize = if self.opcode == Some(CREATE2) {
            1
        } else {
            0
        };
        if !matches!(self.rw_at(block, 0), Some(Rw::Stack { .. })) {
            assert(!(self.has_rw(*block, 0) && self.rw(*block, 0) is Stack));
            return false;
        }
        if !matches!(self.rw_at(block, 1), Some(Rw::Stack { .. })) {
            assert(!(self.has_rw(*block, 1) && self.rw(*block, 1) is Stack));
            return false;
        }
        let length: usize = match self.rw_at(block, 2) {
            Some(Rw::Stack { value, .. }) => match value.to_usize() {
                Some(length) => length,
                None => {
                    assert(!self.has_rw(*block, 21 + self.moved(*block))) by {
                        assert(self.rw_indices.len() <= usize::MAX);
                    }
                    return false;
                },
            },
            _ => {
                assert(!(self.has_rw(*block, 2) && self.rw(*block, 2) is Stack));
                return false;
            },
        };
        if salt_width == 1 && !matches!(self.rw_at(block, 3), Some(Rw::Stack { .. })) {
            return false;
        }
        assert(self.rw_indices.len() <= usize::MAX);
        if length > usize::MAX - 22 {
            assert(!self.has_rw(*block, 21 + self.moved(*block)));
            return false;
        }
        let moved: usize = salt_width + length;
        let mut i: usize = 0;
        while i < length
            invariant
                i <= length,
                length <= usize::MAX - 22,
                salt_width <= 1,
                salt_width == self.salt_width(),
                length == self.code_length(*block),
                forall|k: int|
                    #![trigger self.rw(*block, k)]
                    4 + salt_width <= k < 4 + salt_width + i ==> self.has_rw(*block, k) && self.rw(
                        *block,
                        k,
                    ) is Memory,
            decreases length - i,
        {
            if !matches!(self.rw_at(block, 4 + salt_width + i), Some(Rw::Memory { .. })) {
                assert(!(self.has_rw(*block, 4 + salt_width + i) && self.rw(
                    *block,
                    4 + salt_width + i,
                ) is Memory));
                return false;
            }
            i = i + 1;
        }
        matches!(self.rw_at(block, 7 + moved), Some(Rw::TxAccessListAccount { .. })) && matches!(
            self.rw_at(block, 9 + moved),
            Some(Rw::Account { .. })
        ) && matches!(self.rw_at(block, 10 + moved), Some(Rw::CallContext { .. })) && matches!(
            self.rw_at(block, 11 + moved),
            Some(Rw::CallContext { .. })
        ) && matches!(self.rw_at(block, 13 + moved), Some(Rw::Account { .. })) && matches!(
            self.rw_at(block, 14 + moved),
            Some(Rw::Account { .. })
        ) && matches!(self.rw_at(block, 21 + moved), Some(Rw::CallContext { .. }))
    }
}

} // verus!
