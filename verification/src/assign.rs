//! How the gadget of CREATE and CREATE2 fills its cells.
use crate::constants::{CREATE2, CREATE_GAS};
use crate::create::CreateGadget;
use crate::hash::{code_hash_le, hash_code};
use crate::radix::{le_bytes, to_le_bytes};
use crate::region::{Assignment, CachedRegion, Given, Scalar, ScalarValue};
use crate::witness::{Block, Call, ExecStep, Rw, Transaction};
use crate::word::{limb_base, Word};
use vstd::prelude::*;

verus! {

/// 1 for true, and 0 for false.
pub open spec fn bit(b: bool) -> int {
    if b {
        1
    } else {
        0
    }
}

/// 1 for true, and 0 for false.
fn as_bit(b: bool) -> (x: u64)
    ensures
        x == bit(b),
{
    if b {
        1
    } else {
        0
    }
}

/// A cell given a number.
pub open spec fn integer(index: usize, value: int) -> Given {
    Given::Cell { index: index as int, value: ScalarValue::Integer(value) }
}

impl CreateGadget {
    /// What a step is given from the code and the stack, in the order in which it is given.
    pub open spec fn stack_assignments(
        self,
        block: Block,
        step: ExecStep,
        code_hash: Seq<u8>,
    ) -> Seq<Given> {
        seq![
            integer(self.opcode.index, step.opcode->0 as int),
            integer(self.is_create2.index, bit(step.is_create2())),
            Given::Cell {
                index: self.code_hash.index as int,
                value: ScalarValue::Combined(code_hash),
            },
            Given::Bytes {
                first: self.value.first as int,
                n_cells: self.value.n_bytes as int,
                bytes: step.popped(block, 0).bytes(),
            },
            Given::Bytes {
                first: self.salt.first as int,
                n_cells: self.salt.n_bytes as int,
                bytes: if step.is_create2() {
                    step.popped(block, 3).bytes()
                } else {
                    le_bytes(0, 32)
                },
            },
            Given::MemoryAddress {
                gadget: self.initialization_code,
                start: step.popped(block, 1).value() as int,
                length: step.code_length(block),
            },
        ]
    }

    /// What a step is given from the calling account, in the order in which it is given.
    pub open spec fn caller_assignments(
        self,
        block: Block,
        tx: Transaction,
        call: Call,
        step: ExecStep,
    ) -> Seq<Given> {
        let moved = step.moved(block);
        let access = step.rw(block, 7 + moved);
        let nonce = step.rw(block, 9 + moved)->value_prev;
        seq![
            Given::Bytes {
                first: self.new_address.first as int,
                n_cells: self.new_address.n_bytes as int,
                bytes: access->TxAccessListAccount_account_address.le_bytes(),
            },
            integer(self.tx_id.index, tx.id as int),
            integer(
                self.reversion_info.rw_counter_end_of_reversion.index,
                call.rw_counter_end_of_reversion as int,
            ),
            integer(self.reversion_info.is_persistent.index, bit(call.is_persistent)),
            integer(self.was_warm.index, bit(access->is_warm_prev)),
            Given::Bytes {
                first: self.caller_address.first as int,
                n_cells: self.caller_address.n_bytes as int,
                bytes: call.callee_address.le_bytes(),
            },
            Given::Bytes {
                first: self.nonce.first as int,
                n_cells: self.nonce.n_bytes as int,
                bytes: le_bytes(nonce.value() % limb_base(), 8),
            },
        ]
    }

    /// What a step is given from the created account and call, in the order in which it is
    /// given.
    pub open spec fn callee_assignments(self, block: Block, step: ExecStep) -> Seq<Given> {
        let moved = step.moved(block);
        let callee_end = step.rw(block, 10 + moved)->CallContext_value;
        let callee_is_persistent = step.rw(block, 11 + moved)->CallContext_value;
        let sender = step.rw(block, 13 + moved);
        let receiver = step.rw(block, 14 + moved);
        let is_success = step.rw(block, 21 + moved)->CallContext_value;
        seq![
            integer(
                self.callee_reversion_info.rw_counter_end_of_reversion.index,
                (callee_end.value() % limb_base()) as int,
            ),
            integer(
                self.callee_reversion_info.is_persistent.index,
                bit(callee_is_persistent.value() % limb_base() != 0),
            ),
            Given::Transfer {
                gadget: self.transfer,
                sender_balance_pair: (
                    sender->Account_value.value() as int,
                    sender->value_prev.value() as int,
                ),
                receiver_balance_pair: (
                    receiver->Account_value.value() as int,
                    receiver->value_prev.value() as int,
                ),
                value: step.popped(block, 0).value() as int,
            },
            Given::MemoryExpansion {
                gadget: self.memory_expansion,
                memory_word_size: step.memory_word_size as int,
                range: self.initialization_code,
            },
            Given::ConstantDivision {
                gadget: self.gas_left,
                numerator: step.gas_left - CREATE_GAS,
                less: self.memory_expansion,
            },
            integer(self.callee_is_success.index, is_success.value() as int),
        ]
    }

    /// What a step is given, in the order in which it is given. `code_hash` is the hash of the
    /// initialization code, its least significant byte first.
    pub open spec fn assignments(
        self,
        block: Block,
        tx: Transaction,
        call: Call,
        step: ExecStep,
        code_hash: Seq<u8>,
    ) -> Seq<Given> {
        self.stack_assignments(block, step, code_hash) + self.caller_assignments(
            block,
            tx,
            call,
            step,
        ) + self.callee_assignments(block, step)
    }

    /// What a step is given, with the hash of the code that it has read.
    pub open spec fn step_assignments(
        self,
        block: Block,
        tx: Transaction,
        call: Call,
        step: ExecStep,
    ) -> Seq<Given> {
        self.assignments(block, tx, call, step, code_hash_le(step.code(block)))
    }
}

/// The givens, all at the row.
pub open spec fn at_row(offset: int, givens: Seq<Given>) -> Seq<(int, Given)> {
    Seq::new(givens.len(), |i: int| (offset, givens[i]))
}

/// The initialization code, as the step has read it from memory.
pub fn initialization_code(block: &Block, step: &ExecStep) -> (code: Vec<u8>)
    requires
        step.records_create(*block),
    ensures
        code@ == step.code(*block),
{
    assert(step.rw(*block, 2) is Stack);
    assert(step.has_rw(*block, 21 + step.moved(*block)));
    assert(step.rw_indices.len() <= usize::MAX);
    let salt_width: usize = if step.opcode == Some(CREATE2) {
        1
    } else {
        0
    };
    let length: usize = block.rws[step.rw_indices[2]].stack_value().as_usize();
    let mut code: Vec<u8> = Vec::new();
    let mut i: usize = 0;
    while i < length
        invariant
            i <= length,
            length == step.code_length(*block),
            salt_width == step.salt_width(),
            step.records_create(*block),
            21 + step.moved(*block) < usize::MAX,
            code@ == step.code(*block).take(i as int),
        decreases length - i,
    {
        assert(step.rw(*block, 4 + salt_width + i) is Memory);
        code.push(block.rws[step.rw_indices[4 + salt_width + i]].memory_value());
        i = i + 1;
        assert(code@ =~= step.code(*block).take(i as int));
    }
    assert(step.code(*block).take(i as int) =~= step.code(*block));
    code
}

impl CreateGadget {
    /// The opcode, the code and the stack. Returns how many places the salt and the copy of the
    /// code move what comes after them.
    fn assign_stack(
        &self,
        region: &mut CachedRegion,
        offset: usize,
        block: &Block,
        step: &ExecStep,
        code_hash: Vec<u8>,
    ) -> (moved: usize)
        requires
            step.records_create(*block),
        ensures
            moved == step.moved(*block),
            final(region)@ == old(region)@ + at_row(
                offset as int,
                self.stack_assignments(*block, *step, code_hash@),
            ),
    {
        proof {
            assert(step.rw(*block, 0) is Stack);
            assert(step.rw(*block, 1) is Stack);
            assert(step.rw(*block, 2) is Stack);
            assert(step.has_rw(*block, 21 + step.moved(*block)));
            assert(step.rw_indices.len() <= usize::MAX);
        }
        let opcode: u8 = match step.opcode {
            Some(opcode) => opcode,
            None => 0,
        };
        let is_create2: bool = opcode == CREATE2;
        region.assign_integer(offset, self.opcode, opcode as u64);
        region.assign_integer(offset, self.is_create2, as_bit(is_create2));

        let value: Word = block.rws[step.rw_indices[0]].stack_value();
        let code_start: Word = block.rws[step.rw_indices[1]].stack_value();
        let code_length: Word = block.rws[step.rw_indices[2]].stack_value();
        let salt: Word = if is_create2 {
            block.rws[step.rw_indices[3]].stack_value()
        } else {
            Word::zero()
        };

        region.assign(
            offset,
            Assignment::Cell { cell: self.code_hash, value: Scalar::Combined(code_hash) },
        );
        region.assign(offset, Assignment::Bytes { cells: self.value, bytes: value.to_le_bytes() });
        region.assign(offset, Assignment::Bytes { cells: self.salt, bytes: salt.to_le_bytes() });
        region.assign(
            offset,
            Assignment::MemoryAddress {
                gadget: self.initialization_code,
                start: code_start,
                length: code_length,
            },
        );
        assert(region@ =~= old(region)@ + at_row(
            offset as int,
            self.stack_assignments(*block, *step, code_hash@),
        ));

        let salt_width: usize = if is_create2 {
            1
        } else {
            0
        };
        salt_width + code_length.as_usize()
    }

    /// The calling account. The salt and the copy of the code move what comes after them by
    /// `moved` places.
    fn assign_caller(
        &self,
        region: &mut CachedRegion,
        offset: usize,
        block: &Block,
        tx: &Transaction,
        call: &Call,
        step: &ExecStep,
        moved: usize,
    )
        requires
            step.records_create(*block),
            moved == step.moved(*block),
        ensures
            final(region)@ == old(region)@ + at_row(
                offset as int,
                self.caller_assignments(*block, *tx, *call, *step),
            ),
    {
        proof {
            assert(step.has_rw(*block, 21 + step.moved(*block)));
            assert(step.rw_indices.len() <= usize::MAX);
        }
        let access: Rw = block.rws[step.rw_indices[7 + moved]];
        if let Some(new_address) = access.address() {
            region.assign(
                offset,
                Assignment::Bytes { cells: self.new_address, bytes: new_address.to_le_bytes() },
            );
        }
        region.assign_integer(offset, self.tx_id, tx.id as u64);
        region.assign_integer(
            offset,
            self.reversion_info.rw_counter_end_of_reversion,
            call.rw_counter_end_of_reversion as u64,
        );
        region.assign_integer(
            offset,
            self.reversion_info.is_persistent,
            as_bit(call.is_persistent),
        );
        let (_, was_warm) = access.tx_access_list_value_pair();
        region.assign_integer(offset, self.was_warm, as_bit(was_warm));

        region.assign(
            offset,
            Assignment::Bytes {
                cells: self.caller_address,
                bytes: call.callee_address.to_le_bytes(),
            },
        );
        let (_, nonce) = block.rws[step.rw_indices[9 + moved]].account_value_pair();
        region.assign(
            offset,
            Assignment::Bytes { cells: self.nonce, bytes: to_le_bytes(nonce.low_u64(), 8) },
        );
        assert(region@ =~= old(region)@ + at_row(
            offset as int,
            self.caller_assignments(*block, *tx, *call, *step),
        ));
    }

    /// The created account and call. The salt and the copy of the code move what comes after
    /// them by `moved` places.
    fn assign_callee(
        &self,
        region: &mut CachedRegion,
        offset: usize,
        block: &Block,
        step: &ExecStep,
        moved: usize,
    )
        requires
            step.records_create(*block),
            moved == step.moved(*block),
        ensures
            final(region)@ == old(region)@ + at_row(
                offset as int,
                self.callee_assignments(*block, *step),
            ),
    {
        proof {
            assert(step.rw(*block, 0) is Stack);
            assert(step.has_rw(*block, 21 + step.moved(*block)));
            assert(step.rw_indices.len() <= usize::MAX);
        }
        let callee_end: Word = block.rws[step.rw_indices[10 + moved]].call_context_value();
        let callee_is_persistent: Word =
            block.rws[step.rw_indices[11 + moved]].call_context_value();
        region.assign_integer(
            offset,
            self.callee_reversion_info.rw_counter_end_of_reversion,
            callee_end.low_u64(),
        );
        region.assign_integer(
            offset,
            self.callee_reversion_info.is_persistent,
            as_bit(callee_is_persistent.low_u64() != 0),
        );

        let value: Word = block.rws[step.rw_indices[0]].stack_value();
        let sender_balance_pair: (Word, Word) =
            block.rws[step.rw_indices[13 + moved]].account_value_pair();
        let receiver_balance_pair: (Word, Word) =
            block.rws[step.rw_indices[14 + moved]].account_value_pair();
        region.assign(
            offset,
            Assignment::Transfer {
                gadget: self.transfer,
                sender_balance_pair,
                receiver_balance_pair,
                value,
            },
        );
        region.assign(
            offset,
            Assignment::MemoryExpansion {
                gadget: self.memory_expansion,
                memory_word_size: step.memory_word_size,
                range: self.initialization_code,
            },
        );
        region.assign(
            offset,
            Assignment::ConstantDivision {
                gadget: self.gas_left,
                numerator: step.gas_left - CREATE_GAS,
                less: self.memory_expansion,
            },
        );

        let is_success: Word = block.rws[step.rw_indices[21 + moved]].call_context_value();
        region.assign(
            offset,
            Assignment::Cell { cell: self.callee_is_success, value: Scalar::Word(is_success) },
        );
        assert(region@ =~= old(region)@ + at_row(
            offset as int,
            self.callee_assignments(*block, *step),
        ));
    }

    /// Gives the row at the offset what the step has done. `code_hash` is the hash of the
    /// initialization code, its least significant byte first.
    pub fn assign_with(
        &self,
        region: &mut CachedRegion,
        offset: usize,
        block: &Block,
        tx: &Transaction,
        call: &Call,
        step: &ExecStep,
        code_hash: Vec<u8>,
    )
        requires
            step.records_create(*block),
        ensures
            final(region)@ == old(region)@ + at_row(
                offset as int,
                self.assignments(*block, *tx, *call, *step, code_hash@),
            ),
    {
        let moved: usize = self.assign_stack(region, offset, block, step, code_hash);
        self.assign_caller(region, offset, block, tx, call, step, moved);
        self.assign_callee(region, offset, block, step, moved);
        assert(region@ =~= old(region)@ + at_row(
            offset as int,
            self.assignments(*block, *tx, *call, *step, code_hash@),
        ));
    }

    /// Gives the row at the offset what the step has done.
    pub fn assign_exec_step(
        &self,
        region: &mut CachedRegion,
        offset: usize,
        block: &Block,
        tx: &Transaction,
        call: &Call,
        step: &ExecStep,
    )
        requires
            step.records_create(*block),
        ensures
            final(region)@ == old(region)@ + at_row(
                offset as int,
                self.step_assignments(*block, *tx, *call, *step),
            ),
    {
        let code: Vec<u8> = initialization_code(block, step);
        let code_hash: Vec<u8> = hash_code(&code);
        self.assign_with(region, offset, block, tx, call, step, code_hash);
    }
}

} // verus!
