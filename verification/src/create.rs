//! The gadget of CREATE and CREATE2: what it requires of a step.
use crate::builder::{
    ConstantDivisionGadget, ConstraintBuilder, MemoryAddressGadget, MemoryExpansionGadget,
    ReversionInfo, TransferGadget,
};
use crate::constants::{CREATE, CREATE2, CREATE_GAS};
use crate::constraint::{
    rw_total, stack_total, AccountFieldTag, CallContextFieldTag, Constraint, CopyDataType,
    OtherFields, StepStateTransition, Transition,
};
use crate::expression::{Cell, Expression, RandomLinearCombination, Valuation, Variable};
use crate::hash::{code_hash_le, hash_code};
use crate::rows::{account_rows, callee_rows, caller_rows, gas_remaining, saved_rows, stack_rows};
use vstd::prelude::*;

verus! {

/// How many cells the gadget takes.
pub const N_CELLS: usize = 122;

/// How many outputs the parts of the gadget hand out.
pub const N_OUTPUTS: usize = 12;

/// Gadget for CREATE and CREATE2 opcodes
#[derive(Debug)]
pub struct CreateGadget {
    pub opcode: Cell,
    pub is_create2: Cell,
    pub value: RandomLinearCombination,
    pub initialization_code: MemoryAddressGadget,
    pub salt: RandomLinearCombination,
    pub new_address: RandomLinearCombination,
    pub callee_is_success: Cell,
    pub code_hash: Cell,
    pub tx_id: Cell,
    pub reversion_info: ReversionInfo,
    pub was_warm: Cell,
    pub caller_address: RandomLinearCombination,
    pub nonce: RandomLinearCombination,
    pub callee_reversion_info: ReversionInfo,
    pub transfer: TransferGadget,
    pub memory_expansion: MemoryExpansionGadget,
    pub gas_left: ConstantDivisionGadget,
}

impl Clone for CreateGadget {
    fn clone(&self) -> (result: CreateGadget)
        ensures
            result == *self,
    {
        CreateGadget {
            reversion_info: self.reversion_info.clone(),
            callee_reversion_info: self.callee_reversion_info.clone(),
            opcode: self.opcode,
            is_create2: self.is_create2,
            value: self.value,
            initialization_code: self.initialization_code,
            salt: self.salt,
            new_address: self.new_address,
            callee_is_success: self.callee_is_success,
            code_hash: self.code_hash,
            tx_id: self.tx_id,
            was_warm: self.was_warm,
            caller_address: self.caller_address,
            nonce: self.nonce,
            transfer: self.transfer,
            memory_expansion: self.memory_expansion,
            gas_left: self.gas_left,
        }
    }
}

impl CreateGadget {
    /// The cells of the gadget are those from `n` on, and its outputs those from `o` on, in their
    /// order.
    pub open spec fn placed_at(self, n: int, o: int) -> bool {
        &&& self.opcode.index == n
        &&& self.is_create2.index == n + 1
        &&& self.value.first == n + 2 && self.value.n_bytes == 32
        &&& self.salt.first == n + 34 && self.salt.n_bytes == 32
        &&& self.new_address.first == n + 66 && self.new_address.n_bytes == 20
        &&& self.callee_is_success.index == n + 86
        &&& self.code_hash.index == n + 87
        &&& self.tx_id.index == n + 88
        &&& self.reversion_info.rw_counter_end_of_reversion.index == n + 89
        &&& self.reversion_info.is_persistent.index == n + 90
        &&& self.was_warm.index == n + 91
        &&& self.caller_address.first == n + 92 && self.caller_address.n_bytes == 20
        &&& self.nonce.first == n + 112 && self.nonce.n_bytes == 8
        &&& self.callee_reversion_info.rw_counter_end_of_reversion.index == n + 120
        &&& self.callee_reversion_info.is_persistent.index == n + 121
        &&& self.initialization_code.placed_at(o)
        &&& self.transfer.placed_at(o + 4)
        &&& self.memory_expansion.placed_at(o + 8)
        &&& self.gas_left.placed_at(o + 10)
    }
}

impl CreateGadget {
    /// The opcode and the stack.
    fn configure_stack(cb: &mut ConstraintBuilder) -> (cells: (
        Cell,
        Cell,
        RandomLinearCombination,
        MemoryAddressGadget,
        RandomLinearCombination,
        RandomLinearCombination,
        Cell,
    ))
        requires
            old(cb).wf(),
            old(cb).condition is None,
            old(cb).n_cells + 87 <= usize::MAX,
            old(cb).n_outputs + 4 <= usize::MAX,
        ensures
            final(cb).wf(),
            final(cb).condition is None,
            final(cb).n_cells == old(cb).n_cells + 87,
            final(cb).byte_cells@ == old(cb).byte_cells@ + seq![cells.2, cells.4, cells.5],
            cells.0.index == old(cb).n_cells,
            cells.1.index == old(cb).n_cells + 1,
            cells.2.first == old(cb).n_cells + 2,
            cells.2.n_bytes == 32,
            cells.3.placed_at(old(cb).n_outputs as int),
            final(cb).n_outputs == old(cb).n_outputs + 4,
            cells.4.first == old(cb).n_cells + 34,
            cells.4.n_bytes == 32,
            cells.5.first == old(cb).n_cells + 66,
            cells.5.n_bytes == 20,
            cells.6.index == old(cb).n_cells + 86,
            forall|v: Valuation|
                #![trigger final(cb).rows(v)]
                {
                    &&& final(cb).rows(v) == old(cb).rows(v) + stack_rows(
                        cells.0,
                        cells.1,
                        cells.2,
                        cells.3,
                        cells.4,
                        cells.5,
                        cells.6,
                        v,
                        v.rw_counter + rw_total(old(cb).rows(v)),
                        v.stack_pointer + stack_total(old(cb).rows(v)),
                    )
                    &&& rw_total(final(cb).rows(v)) == rw_total(old(cb).rows(v)) + 4
                        + cells.1.eval(v)
                    &&& stack_total(final(cb).rows(v)) == stack_total(old(cb).rows(v)) + 2
                        + cells.1.eval(v)
                },
    {
        let opcode: Cell = cb.query_cell();
        cb.opcode_lookup(opcode.expr(), Expression::constant(1));

        let is_create2: Cell = cb.query_bool();
        cb.require_equal(
            "Opcode is CREATE or CREATE2",
            opcode.expr(),
            Expression::select(
                &is_create2.expr(),
                Expression::constant(CREATE2 as u64),
                Expression::constant(CREATE as u64),
            ),
        );

        let value: RandomLinearCombination = cb.query_word();
        cb.stack_pop(value.expr());

        let code: MemoryAddressGadget = cb.memory_address();
        cb.stack_pop(code.offset.expr());
        cb.stack_pop(code.length.expr());

        cb.begin_condition(is_create2.expr());
        let salt: RandomLinearCombination = cb.query_word();
        cb.stack_pop(salt.expr());
        cb.end_condition();

        let new_address: RandomLinearCombination = cb.query_rlc(20);
        let callee_is_success: Cell = cb.query_bool();
        cb.stack_push(callee_is_success.expr().times(new_address.expr()));

        assert forall|v: Valuation| #![trigger cb.rows(v)] cb.rows(v) == old(cb).rows(v)
            + stack_rows(
            opcode,
            is_create2,
            value,
            code,
            salt,
            new_address,
            callee_is_success,
            v,
            v.rw_counter + rw_total(old(cb).rows(v)),
            v.stack_pointer + stack_total(old(cb).rows(v)),
        ) by {
        }
        (opcode, is_create2, value, code, salt, new_address, callee_is_success)
    }
}

impl CreateGadget {
    /// The code and the calling account.
    fn configure_caller(
        cb: &mut ConstraintBuilder,
        code: MemoryAddressGadget,
        new_address: RandomLinearCombination,
        empty_code_hash: &[u8],
    ) -> (cells: (
        Cell,
        Cell,
        ReversionInfo,
        Cell,
        RandomLinearCombination,
        RandomLinearCombination,
    ))
        requires
            old(cb).wf(),
            old(cb).condition is None,
            old(cb).n_cells + 33 <= usize::MAX,
            new_address.wf(),
        ensures
            final(cb).wf(),
            final(cb).condition is None,
            final(cb).n_cells == old(cb).n_cells + 33,
            final(cb).byte_cells@ == old(cb).byte_cells@ + seq![cells.4, cells.5],
            final(cb).n_outputs == old(cb).n_outputs,
            cells.0.index == old(cb).n_cells,
            cells.1.index == old(cb).n_cells + 1,
            cells.2.rw_counter_end_of_reversion.index == old(cb).n_cells + 2,
            cells.2.is_persistent.index == old(cb).n_cells + 3,
            cells.3.index == old(cb).n_cells + 4,
            cells.4.first == old(cb).n_cells + 5,
            cells.4.n_bytes == 20,
            cells.5.first == old(cb).n_cells + 25,
            cells.5.n_bytes == 8,
            forall|v: Valuation|
                #![trigger cells.2.reversible_write_counter.eval(v)]
                cells.2.reversible_write_counter.eval(v) == v.reversible_write_counter + 2,
            forall|v: Valuation|
                #![trigger final(cb).rows(v)]
                {
                    &&& final(cb).rows(v) == old(cb).rows(v) + caller_rows(
                        code,
                        new_address,
                        cells.0,
                        cells.1,
                        cells.2,
                        cells.3,
                        cells.4,
                        cells.5,
                        empty_code_hash@,
                        v,
                        v.rw_counter + rw_total(old(cb).rows(v)),
                    )
                    &&& rw_total(final(cb).rows(v)) == rw_total(old(cb).rows(v)) + 6
                        + code.length.eval(v)
                    &&& stack_total(final(cb).rows(v)) == stack_total(old(cb).rows(v))
                },
    {
        let code_hash: Cell = cb.query_cell();
        cb.begin_condition(code.has_length.expr());
        cb.copy_table_lookup(
            Variable::CallId.expr(),
            CopyDataType::Memory,
            code_hash.expr(),
            CopyDataType::Bytecode,
            code.offset.expr(),
            code.address.expr(),
            Expression::constant(0),
            code.length.expr(),
            Expression::constant(0),
            code.length.expr(),
        );
        cb.end_condition();
        cb.begin_condition(code.has_length.expr().not());
        cb.require_equal("", code_hash.expr(), Expression::combine_constants(empty_code_hash));
        cb.end_condition();

        let tx_id: Cell = cb.call_context(None, CallContextFieldTag::TxId);
        let mut reversion_info: ReversionInfo = cb.reversion_info_read(None);
        let was_warm: Cell = cb.query_bool();
        cb.account_access_list_write(
            tx_id.expr(),
            new_address.from_bytes(),
            Expression::constant(1),
            was_warm.expr(),
            &mut reversion_info,
        );

        let caller_address: RandomLinearCombination = cb.query_rlc(20);
        cb.call_context_lookup(
            Expression::constant(0),
            None,
            CallContextFieldTag::CalleeAddress,
            caller_address.from_bytes(),
        );

        let nonce: RandomLinearCombination = cb.query_rlc(8);
        cb.account_write(
            caller_address.expr(),
            AccountFieldTag::Nonce,
            nonce.from_bytes().plus(Expression::constant(1)),
            nonce.from_bytes(),
            &mut reversion_info,
        );

        assert forall|v: Valuation| #![trigger cb.rows(v)] cb.rows(v) == old(cb).rows(v)
            + caller_rows(
            code,
            new_address,
            code_hash,
            tx_id,
            reversion_info,
            was_warm,
            caller_address,
            nonce,
            empty_code_hash@,
            v,
            v.rw_counter + rw_total(old(cb).rows(v)),
        ) by {
        }
        (code_hash, tx_id, reversion_info, was_warm, caller_address, nonce)
    }
}

impl CreateGadget {
    /// The created account.
    fn configure_account(
        cb: &mut ConstraintBuilder,
        value: RandomLinearCombination,
        new_address: RandomLinearCombination,
        caller_address: RandomLinearCombination,
    ) -> (parts: (ReversionInfo, TransferGadget))
        requires
            old(cb).wf(),
            old(cb).condition is None,
            old(cb).n_cells + 2 <= usize::MAX,
            old(cb).n_outputs + 4 <= usize::MAX,
            value.wf(),
            new_address.wf(),
            caller_address.wf(),
        ensures
            final(cb).wf(),
            final(cb).condition is None,
            final(cb).n_cells == old(cb).n_cells + 2,
            final(cb).byte_cells@ == old(cb).byte_cells@,
            final(cb).n_outputs == old(cb).n_outputs + 4,
            parts.0.rw_counter_end_of_reversion.index == old(cb).n_cells,
            parts.0.is_persistent.index == old(cb).n_cells + 1,
            parts.1.placed_at(old(cb).n_outputs as int),
            forall|v: Valuation|
                #![trigger parts.0.reversible_write_counter.eval(v)]
                parts.0.reversible_write_counter.eval(v) == 3,
            forall|v: Valuation|
                #![trigger final(cb).rows(v)]
                {
                    &&& final(cb).rows(v) == old(cb).rows(v) + account_rows(
                        value,
                        new_address,
                        caller_address,
                        parts.0,
                        parts.1,
                        v,
                        v.rw_counter + rw_total(old(cb).rows(v)),
                    )
                    &&& rw_total(final(cb).rows(v)) == rw_total(old(cb).rows(v)) + 5
                    &&& stack_total(final(cb).rows(v)) == stack_total(old(cb).rows(v))
                },
    {
        // The number of the step's first read is the id of the call that it begins.
        let callee_call_id: Variable = Variable::RwCounter;
        let mut info: ReversionInfo = cb.reversion_info_write(Some(callee_call_id.expr()));
        cb.account_write(
            new_address.expr(),
            AccountFieldTag::Nonce,
            Expression::constant(1),
            Expression::constant(0),
            &mut info,
        );
        let transfer: TransferGadget = cb.transfer(
            caller_address.expr(),
            new_address.expr(),
            value,
            &mut info,
        );

        assert forall|v: Valuation| #![trigger cb.rows(v)] cb.rows(v) == old(cb).rows(v)
            + account_rows(
            value,
            new_address,
            caller_address,
            info,
            transfer,
            v,
            v.rw_counter + rw_total(old(cb).rows(v)),
        ) by {
        }
        (info, transfer)
    }
}

impl CreateGadget {
    /// The memory, the gas, and the state that the calling call returns to.
    fn configure_saved(
        cb: &mut ConstraintBuilder,
        is_create2: Cell,
        code: MemoryAddressGadget,
    ) -> (parts: (MemoryExpansionGadget, ConstantDivisionGadget, Expression))
        requires
            old(cb).wf(),
            old(cb).condition is None,
            old(cb).n_outputs + 4 <= usize::MAX,
        ensures
            final(cb).wf(),
            final(cb).condition is None,
            final(cb).n_cells == old(cb).n_cells,
            final(cb).byte_cells@ == old(cb).byte_cells@,
            final(cb).n_outputs == old(cb).n_outputs + 4,
            parts.0.placed_at(old(cb).n_outputs as int),
            parts.1.placed_at(old(cb).n_outputs + 2),
            forall|v: Valuation|
                #![trigger parts.2.eval(v)]
                parts.2.eval(v) == gas_remaining(parts.0, v) - parts.1.quotient.eval(v),
            forall|v: Valuation|
                #![trigger final(cb).rows(v)]
                {
                    &&& final(cb).rows(v) == old(cb).rows(v) + saved_rows(
                        is_create2,
                        code,
                        parts.0,
                        parts.1,
                        v,
                        v.rw_counter + rw_total(old(cb).rows(v)),
                    )
                    &&& rw_total(final(cb).rows(v)) == rw_total(old(cb).rows(v)) + 5
                    &&& stack_total(final(cb).rows(v)) == stack_total(old(cb).rows(v))
                },
    {
        let expansion: MemoryExpansionGadget = cb.memory_expansion(code.address.expr());

        let stack_pointer_delta: Expression = Expression::constant(2).plus(is_create2.expr());

        // EIP-150: all but one 64th of the caller's gas is sent to the callee.
        let gas_cost: Expression = Expression::constant(CREATE_GAS).plus(
            expansion.gas_cost.expr(),
        );
        let remaining: Expression = Variable::GasLeft.expr().minus(gas_cost);
        let gas: ConstantDivisionGadget = cb.constant_division(remaining.dup(), 64);
        let callee_gas_left: Expression = remaining.minus(gas.quotient.expr());

        cb.call_context_lookup(
            Expression::constant(1),
            None,
            CallContextFieldTag::ProgramCounter,
            Variable::ProgramCounter.expr().plus(Expression::constant(1)),
        );
        cb.call_context_lookup(
            Expression::constant(1),
            None,
            CallContextFieldTag::StackPointer,
            Variable::StackPointer.expr().plus(stack_pointer_delta),
        );
        cb.call_context_lookup(
            Expression::constant(1),
            None,
            CallContextFieldTag::GasLeft,
            gas.quotient.expr(),
        );
        cb.call_context_lookup(
            Expression::constant(1),
            None,
            CallContextFieldTag::MemorySize,
            expansion.next_memory_word_size.expr(),
        );
        cb.call_context_lookup(
            Expression::constant(1),
            None,
            CallContextFieldTag::ReversibleWriteCounter,
            Variable::ReversibleWriteCounter.expr().plus(Expression::constant(2)),
        );

        assert forall|v: Valuation| #![trigger cb.rows(v)] cb.rows(v) == old(cb).rows(v)
            + saved_rows(
            is_create2,
            code,
            expansion,
            gas,
            v,
            v.rw_counter + rw_total(old(cb).rows(v)),
        ) by {
        }
        (expansion, gas, callee_gas_left)
    }
}

impl CreateGadget {
    /// The created call, and the next step.
    fn configure_callee(
        cb: &mut ConstraintBuilder,
        new_address: RandomLinearCombination,
        callee_is_success: Cell,
        code_hash: Cell,
        tx_id: Cell,
        caller_address: RandomLinearCombination,
        info: &ReversionInfo,
        expansion: MemoryExpansionGadget,
        gas: ConstantDivisionGadget,
        callee_gas_left: Expression,
    )
        requires
            old(cb).wf(),
            old(cb).condition is None,
            new_address.wf(),
            caller_address.wf(),
            forall|v: Valuation|
                #![trigger callee_gas_left.eval(v)]
                callee_gas_left.eval(v) == gas_remaining(expansion, v) - gas.quotient.eval(v),
        ensures
            final(cb).wf(),
            final(cb).condition is None,
            final(cb).n_cells == old(cb).n_cells,
            final(cb).byte_cells@ == old(cb).byte_cells@,
            final(cb).n_outputs == old(cb).n_outputs,
            forall|v: Valuation|
                #![trigger final(cb).rows(v)]
                {
                    &&& final(cb).rows(v) == old(cb).rows(v) + callee_rows(
                        new_address,
                        callee_is_success,
                        code_hash,
                        tx_id,
                        caller_address,
                        *info,
                        expansion,
                        gas,
                        v,
                        v.rw_counter + rw_total(old(cb).rows(v)),
                        rw_total(old(cb).rows(v)),
                    )
                    &&& rw_total(final(cb).rows(v)) == rw_total(old(cb).rows(v)) + 7
                    &&& stack_total(final(cb).rows(v)) == stack_total(old(cb).rows(v))
                },
    {
        // The number of the step's first read is the id of the call that it begins.
        let callee_call_id: Variable = Variable::RwCounter;
        cb.call_context_lookup(
            Expression::constant(1),
            Some(callee_call_id.expr()),
            CallContextFieldTag::CallerId,
            Variable::CallId.expr(),
        );
        cb.call_context_lookup(
            Expression::constant(1),
            Some(callee_call_id.expr()),
            CallContextFieldTag::IsSuccess,
            callee_is_success.expr(),
        );
        cb.call_context_lookup(
            Expression::constant(1),
            Some(callee_call_id.expr()),
            CallContextFieldTag::IsPersistent,
            info.is_persistent.expr(),
        );
        cb.call_context_lookup(
            Expression::constant(1),
            Some(callee_call_id.expr()),
            CallContextFieldTag::TxId,
            tx_id.expr(),
        );
        cb.call_context_lookup(
            Expression::constant(1),
            Some(callee_call_id.expr()),
            CallContextFieldTag::CallerAddress,
            caller_address.expr(),
        );
        cb.call_context_lookup(
            Expression::constant(1),
            Some(callee_call_id.expr()),
            CallContextFieldTag::CalleeAddress,
            new_address.expr(),
        );
        cb.call_context_lookup(
            Expression::constant(1),
            Some(callee_call_id.expr()),
            CallContextFieldTag::RwCounterEndOfReversion,
            info.rw_counter_end_of_reversion.expr(),
        );

        let rw_counter: Transition<Expression> = Transition::Delta(cb.rw_counter_offset());
        cb.require_step_state_transition(
            StepStateTransition {
                rw_counter,
                call_id: Transition::To(callee_call_id.expr()),
                is_root: Transition::To(Expression::constant(0)),
                is_create: Transition::To(Expression::constant(1)),
                code_hash: Transition::To(code_hash.expr()),
                gas_left: Transition::To(callee_gas_left),
                reversible_write_counter: Transition::To(Expression::constant(3)),
                others: OtherFields::NewContext,
            },
        );

        assert forall|v: Valuation| #![trigger cb.rows(v)] cb.rows(v) == old(cb).rows(v)
            + callee_rows(
            new_address,
            callee_is_success,
            code_hash,
            tx_id,
            caller_address,
            *info,
            expansion,
            gas,
            v,
            v.rw_counter + rw_total(old(cb).rows(v)),
            rw_total(old(cb).rows(v)),
        ) by {
        }
    }
}

/// All that the gadget requires of a step, with the values of a valuation. `made` reads and
/// writes come before, which have moved the stack pointer by `shift`; `empty_code_hash` is the
/// hash of no code, its least significant byte first.
pub open spec fn create_rows(
    g: CreateGadget,
    empty_code_hash: Seq<u8>,
    v: Valuation,
    made: int,
    shift: int,
) -> Seq<Constraint<int>> {
    let rw = v.rw_counter + made;
    let moved = g.is_create2.eval(v) + g.initialization_code.length.eval(v);
    stack_rows(
        g.opcode,
        g.is_create2,
        g.value,
        g.initialization_code,
        g.salt,
        g.new_address,
        g.callee_is_success,
        v,
        rw,
        v.stack_pointer + shift,
    ) + caller_rows(
        g.initialization_code,
        g.new_address,
        g.code_hash,
        g.tx_id,
        g.reversion_info,
        g.was_warm,
        g.caller_address,
        g.nonce,
        empty_code_hash,
        v,
        rw + 4 + g.is_create2.eval(v),
    ) + account_rows(
        g.value,
        g.new_address,
        g.caller_address,
        g.callee_reversion_info,
        g.transfer,
        v,
        rw + 10 + moved,
    ) + saved_rows(
        g.is_create2,
        g.initialization_code,
        g.memory_expansion,
        g.gas_left,
        v,
        rw + 15 + moved,
    ) + callee_rows(
        g.new_address,
        g.callee_is_success,
        g.code_hash,
        g.tx_id,
        g.caller_address,
        g.callee_reversion_info,
        g.memory_expansion,
        g.gas_left,
        v,
        rw + 20 + moved,
        made + 20 + moved,
    )
}

/// Appending one by one is appending all.
proof fn lemma_append<T>(base: Seq<T>, a: Seq<T>, b: Seq<T>, c: Seq<T>, d: Seq<T>, e: Seq<T>)
    ensures
        base + a + b + c + d + e == base + (a + b + c + d + e),
{
    assert(base + a + b + c + d + e =~= base + (a + b + c + d + e));
}

impl CreateGadget {
    /// The cells of the gadget that hold bytes, in the order in which they are handed out.
    pub open spec fn byte_cells(self) -> Seq<RandomLinearCombination> {
        seq![self.value, self.salt, self.new_address, self.caller_address, self.nonce]
    }

    /// `after` is `before` with all that the gadget requires of a step.
    pub open spec fn configured(
        self,
        before: ConstraintBuilder,
        after: ConstraintBuilder,
        empty_code_hash: Seq<u8>,
    ) -> bool {
        &&& after.wf()
        &&& after.condition is None
        &&& self.placed_at(before.n_cells as int, before.n_outputs as int)
        &&& after.n_cells == before.n_cells + N_CELLS
        &&& after.byte_cells@ == before.byte_cells@ + self.byte_cells()
        &&& after.n_outputs == before.n_outputs + N_OUTPUTS
        &&& forall|v: Valuation|
            #![trigger self.reversion_info.reversible_write_counter.eval(v)]
            self.reversion_info.reversible_write_counter.eval(v) == v.reversible_write_counter + 2
        &&& forall|v: Valuation|
            #![trigger self.callee_reversion_info.reversible_write_counter.eval(v)]
            self.callee_reversion_info.reversible_write_counter.eval(v) == 3
        &&& forall|v: Valuation|
            #![trigger after.rows(v)]
            {
                let made = rw_total(before.rows(v));
                let shift = stack_total(before.rows(v));
                let c2 = self.is_create2.eval(v);
                &&& after.rows(v) == before.rows(v) + create_rows(
                    self,
                    empty_code_hash,
                    v,
                    made,
                    shift,
                )
                &&& rw_total(after.rows(v)) == made + 27 + c2
                    + self.initialization_code.length.eval(v)
                &&& stack_total(after.rows(v)) == shift + 2 + c2
            }
    }

    /// Takes down what the gadget requires of a step, and hands out its cells.
    /// `empty_code_hash` is the hash of no code, its least significant byte first.
    pub fn configure_with(cb: &mut ConstraintBuilder, empty_code_hash: &[u8]) -> (gadget: Self)
        requires
            old(cb).wf(),
            old(cb).condition is None,
            old(cb).n_cells + N_CELLS <= usize::MAX,
            old(cb).n_outputs + N_OUTPUTS <= usize::MAX,
        ensures
            gadget.configured(*old(cb), *final(cb), empty_code_hash@),
    {
        let (opcode, is_create2, value, code, salt, new_address, callee_is_success) =
            Self::configure_stack(cb);
        let ghost after_stack = *cb;
        let (code_hash, tx_id, reversion_info, was_warm, caller_address, nonce) =
            Self::configure_caller(cb, code, new_address, empty_code_hash);
        let ghost after_caller = *cb;
        let (callee_reversion_info, transfer) = Self::configure_account(
            cb,
            value,
            new_address,
            caller_address,
        );
        let ghost after_account = *cb;
        let (expansion, gas, callee_gas_left) = Self::configure_saved(cb, is_create2, code);
        let ghost after_saved = *cb;
        Self::configure_callee(
            cb,
            new_address,
            callee_is_success,
            code_hash,
            tx_id,
            caller_address,
            &callee_reversion_info,
            expansion,
            gas,
            callee_gas_left,
        );
        let gadget = CreateGadget {
            opcode,
            is_create2,
            value,
            initialization_code: code,
            salt,
            new_address,
            callee_is_success,
            code_hash,
            tx_id,
            reversion_info,
            was_warm,
            caller_address,
            nonce,
            callee_reversion_info,
            transfer,
            memory_expansion: expansion,
            gas_left: gas,
        };
        assert(cb.byte_cells@ =~= old(cb).byte_cells@ + gadget.byte_cells());
        assert forall|v: Valuation| #![trigger cb.rows(v)] cb.rows(v) == old(cb).rows(v)
            + create_rows(
            gadget,
            empty_code_hash@,
            v,
            rw_total(old(cb).rows(v)),
            stack_total(old(cb).rows(v)),
        ) by {
            let made = rw_total(old(cb).rows(v));
            assert(rw_total(after_stack.rows(v)) == made + 4 + is_create2.eval(v));
            assert(rw_total(after_caller.rows(v)) == made + 10 + is_create2.eval(v)
                + code.length.eval(v));
            assert(rw_total(after_account.rows(v)) == made + 15 + is_create2.eval(v)
                + code.length.eval(v));
            assert(rw_total(after_saved.rows(v)) == made + 20 + is_create2.eval(v)
                + code.length.eval(v));
            let rw = v.rw_counter + made;
            let moved = is_create2.eval(v) + code.length.eval(v);
            lemma_append(
                old(cb).rows(v),
                stack_rows(
                    opcode,
                    is_create2,
                    value,
                    code,
                    salt,
                    new_address,
                    callee_is_success,
                    v,
                    rw,
                    v.stack_pointer + stack_total(old(cb).rows(v)),
                ),
                caller_rows(
                    code,
                    new_address,
                    code_hash,
                    tx_id,
                    reversion_info,
                    was_warm,
                    caller_address,
                    nonce,
                    empty_code_hash@,
                    v,
                    rw + 4 + is_create2.eval(v),
                ),
                account_rows(
                    value,
                    new_address,
                    caller_address,
                    callee_reversion_info,
                    transfer,
                    v,
                    rw + 10 + moved,
                ),
                saved_rows(is_create2, code, expansion, gas, v, rw + 15 + moved),
                callee_rows(
                    new_address,
                    callee_is_success,
                    code_hash,
                    tx_id,
                    caller_address,
                    callee_reversion_info,
                    expansion,
                    gas,
                    v,
                    rw + 20 + moved,
                    made + 20 + moved,
                ),
            );
        }
        gadget
    }

    /// Takes down what the gadget requires of a step, and hands out its cells.
    pub fn configure(cb: &mut ConstraintBuilder) -> (gadget: Self)
        requires
            old(cb).wf(),
            old(cb).condition is None,
            old(cb).n_cells + N_CELLS <= usize::MAX,
            old(cb).n_outputs + N_OUTPUTS <= usize::MAX,
        ensures
            gadget.configured(*old(cb), *final(cb), code_hash_le(Seq::empty())),
    {
        let no_code: Vec<u8> = Vec::new();
        let empty_code_hash: Vec<u8> = hash_code(&no_code);
        assert(no_code@ =~= Seq::<u8>::empty());
        Self::configure_with(cb, &empty_code_hash)
    }
}

} // verus!
