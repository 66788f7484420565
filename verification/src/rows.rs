//! What CREATE and CREATE2 require of a step: the constraints, with the values of a valuation.
use crate::builder::{
    ConstantDivisionGadget, MemoryAddressGadget, MemoryExpansionGadget, ReversionInfo,
    TransferGadget,
};
use crate::constants::{CREATE, CREATE2, CREATE_GAS};
use crate::constraint::{
    AccountFieldTag, CallContextFieldTag, Constraint, CopyDataType, OtherFields, Requirement,
    Reversion, StepStateTransition, Transition,
};
use crate::expression::{Cell, RandomLinearCombination, Valuation};
use crate::radix::{combine, combine_bytes};
use vstd::prelude::*;

verus! {

/// The requirement, under no condition.
pub open spec fn always(requirement: Requirement<int>) -> Constraint<int> {
    Constraint { condition: None, requirement }
}

/// The requirement, where the condition is 1.
pub open spec fn when(condition: int, requirement: Requirement<int>) -> Constraint<int> {
    Constraint { condition: Some(condition), requirement }
}

/// A read of the current call's field.
pub open spec fn read_own(
    v: Valuation,
    rw_counter: int,
    field_tag: CallContextFieldTag,
    value: int,
) -> Constraint<int> {
    always(
        Requirement::CallContext { rw_counter, is_write: 0, call_id: v.call_id, field_tag, value },
    )
}

/// A write of the current call's field.
pub open spec fn write_own(
    v: Valuation,
    rw_counter: int,
    field_tag: CallContextFieldTag,
    value: int,
) -> Constraint<int> {
    always(
        Requirement::CallContext { rw_counter, is_write: 1, call_id: v.call_id, field_tag, value },
    )
}

/// A write of the created call's field. The call has the number of the step's first read.
pub open spec fn write_callee(
    v: Valuation,
    rw_counter: int,
    field_tag: CallContextFieldTag,
    value: int,
) -> Constraint<int> {
    always(
        Requirement::CallContext {
            rw_counter,
            is_write: 1,
            call_id: v.rw_counter,
            field_tag,
            value,
        },
    )
}

/// The gas that remains once the creation and the memory are paid for.
pub open spec fn gas_remaining(expansion: MemoryExpansionGadget, v: Valuation) -> int {
    v.gas_left - (CREATE_GAS + expansion.gas_cost.eval(v))
}

/// What the gadget requires of the opcode and of the stack. The first read is `rw`, and the
/// stack pointer is at `sp`.
pub open spec fn stack_rows(
    opcode: Cell,
    is_create2: Cell,
    value: RandomLinearCombination,
    code: MemoryAddressGadget,
    salt: RandomLinearCombination,
    new_address: RandomLinearCombination,
    callee_is_success: Cell,
    v: Valuation,
    rw: int,
    sp: int,
) -> Seq<Constraint<int>> {
    let c2 = is_create2.eval(v);
    seq![
        always(Requirement::Opcode { opcode: opcode.eval(v), is_code: 1 }),
        always(Requirement::Boolean { value: c2 }),
        always(
            Requirement::Equal {
                name: "Opcode is CREATE or CREATE2",
                left: opcode.eval(v),
                right: c2 * CREATE2 + (1 - c2) * CREATE,
            },
        ),
        always(
            Requirement::Stack {
                rw_counter: rw,
                is_write: false,
                stack_pointer: sp,
                value: combine(value.values(v), v.randomness),
            },
        ),
        always(code.requirement(v)),
        always(
            Requirement::Stack {
                rw_counter: rw + 1,
                is_write: false,
                stack_pointer: sp + 1,
                value: code.offset.eval(v),
            },
        ),
        always(
            Requirement::Stack {
                rw_counter: rw + 2,
                is_write: false,
                stack_pointer: sp + 2,
                value: code.length.eval(v),
            },
        ),
        when(
            c2,
            Requirement::Stack {
                rw_counter: rw + 3,
                is_write: false,
                stack_pointer: sp + 3,
                value: combine(salt.values(v), v.randomness),
            },
        ),
        always(Requirement::Boolean { value: callee_is_success.eval(v) }),
        always(
            Requirement::Stack {
                rw_counter: rw + 3 + c2,
                is_write: true,
                stack_pointer: sp + 2 + c2,
                value: callee_is_success.eval(v) * combine(new_address.values(v), v.randomness),
            },
        ),
    ]
}

/// What the gadget requires of the code and of the calling account. The first read or write is
/// `rw`.
pub open spec fn caller_rows(
    code: MemoryAddressGadget,
    new_address: RandomLinearCombination,
    code_hash: Cell,
    tx_id: Cell,
    reversion_info: ReversionInfo,
    was_warm: Cell,
    caller_address: RandomLinearCombination,
    nonce: RandomLinearCombination,
    empty_code_hash: Seq<u8>,
    v: Valuation,
    rw: int,
) -> Seq<Constraint<int>> {
    let next = rw + code.length.eval(v);
    let end = reversion_info.rw_counter_end_of_reversion.eval(v);
    let is_persistent = reversion_info.is_persistent.eval(v);
    let count = combine(nonce.values(v), 256);
    seq![
        when(
            code.has_length.eval(v),
            Requirement::Copy {
                rw_counter: rw,
                src_id: v.call_id,
                src_tag: CopyDataType::Memory,
                dst_id: code_hash.eval(v),
                dst_tag: CopyDataType::Bytecode,
                src_addr: code.offset.eval(v),
                src_addr_end: code.address.eval(v),
                dst_addr: 0,
                length: code.length.eval(v),
                rlc_acc: 0,
                rwc_inc: code.length.eval(v),
            },
        ),
        when(
            1 - code.has_length.eval(v),
            Requirement::Equal {
                name: "",
                left: code_hash.eval(v),
                right: combine_bytes(empty_code_hash, v.randomness),
            },
        ),
        read_own(v, next, CallContextFieldTag::TxId, tx_id.eval(v)),
        read_own(v, next + 1, CallContextFieldTag::RwCounterEndOfReversion, end),
        read_own(v, next + 2, CallContextFieldTag::IsPersistent, is_persistent),
        always(Requirement::Boolean { value: was_warm.eval(v) }),
        always(
            Requirement::AccountAccessList {
                rw_counter: next + 3,
                tx_id: tx_id.eval(v),
                account_address: combine(new_address.values(v), 256),
                value: 1,
                value_prev: was_warm.eval(v),
                reversion: Reversion {
                    rw_counter: end - v.reversible_write_counter,
                    is_persistent,
                },
            },
        ),
        read_own(
            v,
            next + 4,
            CallContextFieldTag::CalleeAddress,
            combine(caller_address.values(v), 256),
        ),
        always(
            Requirement::Account {
                rw_counter: next + 5,
                account_address: combine(caller_address.values(v), v.randomness),
                field_tag: AccountFieldTag::Nonce,
                value: count + 1,
                value_prev: count,
                reversion: Reversion {
                    rw_counter: end - (v.reversible_write_counter + 1),
                    is_persistent,
                },
            },
        ),
    ]
}

/// What the gadget requires of the created account. The first read or write is `rw`.
pub open spec fn account_rows(
    value: RandomLinearCombination,
    new_address: RandomLinearCombination,
    caller_address: RandomLinearCombination,
    callee_reversion_info: ReversionInfo,
    transfer: TransferGadget,
    v: Valuation,
    rw: int,
) -> Seq<Constraint<int>> {
    let end = callee_reversion_info.rw_counter_end_of_reversion.eval(v);
    let is_persistent = callee_reversion_info.is_persistent.eval(v);
    let callee = combine(new_address.values(v), v.randomness);
    seq![
        write_callee(v, rw, CallContextFieldTag::RwCounterEndOfReversion, end),
        write_callee(v, rw + 1, CallContextFieldTag::IsPersistent, is_persistent),
        always(
            Requirement::Account {
                rw_counter: rw + 2,
                account_address: callee,
                field_tag: AccountFieldTag::Nonce,
                value: 1,
                value_prev: 0,
                reversion: Reversion { rw_counter: end, is_persistent },
            },
        ),
        always(
            transfer.requirement(
                rw + 3,
                combine(caller_address.values(v), v.randomness),
                callee,
                combine(value.values(v), v.randomness),
                Reversion { rw_counter: end - 1, is_persistent },
                v,
            ),
        ),
    ]
}

/// What the gadget requires of the memory, of the gas, and of what the calling call keeps until
/// the created one returns. The first write is `rw`.
pub open spec fn saved_rows(
    is_create2: Cell,
    code: MemoryAddressGadget,
    expansion: MemoryExpansionGadget,
    gas: ConstantDivisionGadget,
    v: Valuation,
    rw: int,
) -> Seq<Constraint<int>> {
    seq![
        always(expansion.requirement(code.address.eval(v), v)),
        always(gas.requirement(gas_remaining(expansion, v), 64, v)),
        write_own(v, rw, CallContextFieldTag::ProgramCounter, v.program_counter + 1),
        write_own(
            v,
            rw + 1,
            CallContextFieldTag::StackPointer,
            v.stack_pointer + 2 + is_create2.eval(v),
        ),
        write_own(v, rw + 2, CallContextFieldTag::GasLeft, gas.quotient.eval(v)),
        write_own(
            v,
            rw + 3,
            CallContextFieldTag::MemorySize,
            expansion.next_memory_word_size.eval(v),
        ),
        write_own(
            v,
            rw + 4,
            CallContextFieldTag::ReversibleWriteCounter,
            v.reversible_write_counter + 2,
        ),
    ]
}

/// What the gadget requires of the created call and of the next step. The first write is `rw`,
/// and `made` reads and writes come before it.
pub open spec fn callee_rows(
    new_address: RandomLinearCombination,
    callee_is_success: Cell,
    code_hash: Cell,
    tx_id: Cell,
    caller_address: RandomLinearCombination,
    callee_reversion_info: ReversionInfo,
    expansion: MemoryExpansionGadget,
    gas: ConstantDivisionGadget,
    v: Valuation,
    rw: int,
    made: int,
) -> Seq<Constraint<int>> {
    let end = callee_reversion_info.rw_counter_end_of_reversion.eval(v);
    let is_persistent = callee_reversion_info.is_persistent.eval(v);
    let caller = combine(caller_address.values(v), v.randomness);
    let callee = combine(new_address.values(v), v.randomness);
    seq![
        write_callee(v, rw, CallContextFieldTag::CallerId, v.call_id),
        write_callee(v, rw + 1, CallContextFieldTag::IsSuccess, callee_is_success.eval(v)),
        write_callee(v, rw + 2, CallContextFieldTag::IsPersistent, is_persistent),
        write_callee(v, rw + 3, CallContextFieldTag::TxId, tx_id.eval(v)),
        write_callee(v, rw + 4, CallContextFieldTag::CallerAddress, caller),
        write_callee(v, rw + 5, CallContextFieldTag::CalleeAddress, callee),
        write_callee(v, rw + 6, CallContextFieldTag::RwCounterEndOfReversion, end),
        always(
            Requirement::StepState {
                transition: StepStateTransition {
                    rw_counter: Transition::Delta(made + 7),
                    call_id: Transition::To(v.rw_counter),
                    is_root: Transition::To(0),
                    is_create: Transition::To(1),
                    code_hash: Transition::To(code_hash.eval(v)),
                    gas_left: Transition::To(gas_remaining(expansion, v) - gas.quotient.eval(v)),
                    reversible_write_counter: Transition::To(3),
                    others: OtherFields::NewContext,
                },
            },
        ),
    ]
}

} // verus!
