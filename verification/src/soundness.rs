//! What the constraints of the gadget leave possible: what follows for the machine's record,
//! whatever the cells hold, where every constraint is met.
use crate::builder::ConstraintBuilder;
use crate::constants::{CREATE, CREATE2, CREATE_GAS};
use crate::constraint::{rw_total, stack_total, AccountFieldTag, CallContextFieldTag};
use crate::create::{create_rows, CreateGadget};
use crate::execution::{
    bytes_read, empty_stack, expansion_cost, is_access, is_account, is_call_field, is_memory_read,
    is_stack, is_transfer, range_end, reached, recorded, Record, StepState,
};
use crate::expression::Valuation;
use crate::hash::code_hash_le;
use crate::laws::lemma_configured_rows;
use crate::radix::{combine, combine_bytes, le_bytes};
use crate::witness::Rw;
use vstd::prelude::*;

verus! {

/// A gadget that has been configured, and a record that meets every constraint that it has added.
pub struct Met {
    pub g: CreateGadget,
    pub before: ConstraintBuilder,
    pub after: ConstraintBuilder,
    pub record: Record,
    pub v: Valuation,
}

impl Met {
    /// The gadget is configured, and every constraint that it has added holds of the record.
    pub open spec fn holds(self) -> bool {
        &&& self.g.configured(self.before, self.after, code_hash_le(Seq::empty()))
        &&& forall|i: int|
            self.before.rows(self.v).len() <= i < self.after.rows(self.v).len() ==> recorded(
                #[trigger] self.after.rows(self.v)[i],
                self.record,
                self.v,
            )
    }

    /// The read or write number `k` of the gadget.
    pub open spec fn rw(self, k: int) -> Rw {
        (self.record.table)(self.v.rw_counter + rw_total(self.before.rows(self.v)) + k)
    }

    /// The read or write with this number.
    pub open spec fn numbered(self, n: int) -> Rw {
        (self.record.table)(n)
    }

    /// Where the stack pointer is when the gadget begins.
    pub open spec fn sp(self) -> int {
        self.v.stack_pointer + stack_total(self.before.rows(self.v))
    }

    /// 1 for CREATE2, and 0 for CREATE.
    pub open spec fn c2(self) -> int {
        self.g.is_create2.eval(self.v)
    }

    /// Where the code starts in memory.
    pub open spec fn offset(self) -> int {
        self.g.initialization_code.offset.eval(self.v)
    }

    /// The length of the code.
    pub open spec fn length(self) -> int {
        self.g.initialization_code.length.eval(self.v)
    }

    /// How many places the salt and the copy of the code move what comes after them.
    pub open spec fn moved(self) -> int {
        self.c2() + self.length()
    }

    /// 1 where the initialization succeeds, else 0.
    pub open spec fn success(self) -> int {
        self.g.callee_is_success.eval(self.v)
    }

    /// The address of the created account, combined with the randomness.
    pub open spec fn callee(self) -> int {
        combine(self.g.new_address.values(self.v), self.v.randomness)
    }

    /// The address of the calling account, combined with the randomness.
    pub open spec fn caller(self) -> int {
        combine(self.g.caller_address.values(self.v), self.v.randomness)
    }

    /// The number that the undoing of the created call ends at.
    pub open spec fn callee_end(self) -> int {
        self.g.callee_reversion_info.rw_counter_end_of_reversion.eval(self.v)
    }

    /// 1 where the created call does not revert.
    pub open spec fn callee_is_persistent(self) -> int {
        self.g.callee_reversion_info.is_persistent.eval(self.v)
    }

    /// Where the code ends in memory.
    pub open spec fn end(self) -> int {
        range_end(self.offset(), self.length())
    }

    /// The gas that remains once the creation and the memory are paid for.
    pub open spec fn remaining(self) -> int {
        self.v.gas_left - CREATE_GAS - expansion_cost(self.v.memory_word_size, self.end())
    }
}

/// Each of the constraints that the gadget adds holds of the record.
proof fn lemma_row(m: Met, i: int)
    requires
        m.holds(),
        0 <= i < 38,
    ensures
        ({
            let rows = create_rows(
                m.g,
                code_hash_le(Seq::empty()),
                m.v,
                rw_total(m.before.rows(m.v)),
                stack_total(m.before.rows(m.v)),
            );
            rows.len() == 38 && recorded(rows[i], m.record, m.v)
        }),
{
    let rows = create_rows(
        m.g,
        code_hash_le(Seq::empty()),
        m.v,
        rw_total(m.before.rows(m.v)),
        stack_total(m.before.rows(m.v)),
    );
    lemma_configured_rows(m.g, m.before, m.after, code_hash_le(Seq::empty()), m.v);
    assert(rows.len() == 38);
    let all = m.after.rows(m.v);
    assert(all[m.before.rows(m.v).len() + i] == rows[i]);
}

/// The gadget adds 38 constraints. All but three are required of every step: the salt is taken
/// from the stack for CREATE2 only, the code is copied only where there is some, and the hash is
/// that of no code only where there is none.
pub proof fn law_only_three_constraints_are_conditional(
    g: CreateGadget,
    before: ConstraintBuilder,
    after: ConstraintBuilder,
    empty_code_hash: Seq<u8>,
    v: Valuation,
    i: int,
)
    requires
        g.configured(before, after, empty_code_hash),
        0 <= i < 38,
    ensures
        after.rows(v).len() == before.rows(v).len() + 38,
        ({
            let row = after.rows(v)[before.rows(v).len() + i];
            let has_length = g.initialization_code.has_length.eval(v);
            &&& i == 7 ==> row.requirement is Stack && row.condition == Some(
                g.is_create2.eval(v),
            )
            &&& i == 10 ==> row.requirement is Copy && row.condition == Some(has_length)
            &&& i == 11 ==> row.requirement is Equal && row.condition == Some(1 - has_length)
            &&& i != 7 && i != 10 && i != 11 ==> row.condition is None
        }),
{
    lemma_configured_rows(g, before, after, empty_code_hash, v);
    let rows = create_rows(
        g,
        empty_code_hash,
        v,
        rw_total(before.rows(v)),
        stack_total(before.rows(v)),
    );
    assert(rows.len() == 38);
    assert(after.rows(v)[before.rows(v).len() + i] == rows[i]);
}

/// Only CREATE and CREATE2 meet the constraints, and the cell tells them apart.
pub proof fn law_only_create_and_create2_meet(m: Met)
    requires
        m.holds(),
    ensures
        m.c2() == 0 || m.c2() == 1,
        m.c2() == 0 ==> m.record.opcode == CREATE,
        m.c2() == 1 ==> m.record.opcode == CREATE2,
        m.g.opcode.eval(m.v) == m.record.opcode,
{
    lemma_row(m, 0);
    lemma_row(m, 1);
    lemma_row(m, 2);
}

/// The step takes the value, the place and the length of the code, and for CREATE2 the salt, from
/// the top of its stack, one after the other.
pub proof fn law_arguments_are_taken_from_the_stack(m: Met)
    requires
        m.holds(),
    ensures
        is_stack(
            m.rw(0),
            false,
            m.v.call_id,
            m.sp(),
            combine(m.g.value.values(m.v), m.v.randomness),
            m.v.randomness,
        ),
        is_stack(m.rw(1), false, m.v.call_id, m.sp() + 1, m.offset(), m.v.randomness),
        is_stack(m.rw(2), false, m.v.call_id, m.sp() + 2, m.length(), m.v.randomness),
        m.c2() == 1 ==> is_stack(
            m.rw(3),
            false,
            m.v.call_id,
            m.sp() + 3,
            combine(m.g.salt.values(m.v), m.v.randomness),
            m.v.randomness,
        ),
{
    lemma_row(m, 3);
    lemma_row(m, 5);
    lemma_row(m, 6);
    lemma_row(m, 7);
}

/// The step puts the new address on its stack where the initialization succeeds, and else 0, in
/// the place of the last of its arguments.
pub proof fn law_result_is_put_on_the_stack(m: Met)
    requires
        m.holds(),
    ensures
        m.success() == 0 || m.success() == 1,
        is_stack(
            m.rw(3 + m.c2()),
            true,
            m.v.call_id,
            m.sp() + 2 + m.c2(),
            if m.success() == 1 {
                m.callee()
            } else {
                0
            },
            m.v.randomness,
        ),
{
    lemma_row(m, 8);
    lemma_row(m, 9);
    let success = m.success();
    let address = m.callee();
    assert(success == 1 ==> success * address == address);
    assert(success == 0 ==> success * address == 0);
}

/// The step reads the code from its memory, byte by byte, and the created call runs the code that
/// was read.
pub proof fn law_code_is_read_from_memory(m: Met, k: int)
    requires
        m.holds(),
    ensures
        0 <= k < m.length() ==> is_memory_read(
            m.rw(4 + m.c2() + k),
            m.v.call_id,
            m.offset() + k,
        ),
        m.record.next.code_hash == combine_bytes(
            code_hash_le(
                bytes_read(
                    m.record.table,
                    m.v.rw_counter + rw_total(m.before.rows(m.v)) + 4 + m.c2(),
                    m.length(),
                ),
            ),
            m.v.randomness,
        ),
{
    lemma_row(m, 4);
    lemma_row(m, 10);
    lemma_row(m, 11);
    lemma_row(m, 37);
    let first = m.v.rw_counter + rw_total(m.before.rows(m.v)) + 4 + m.c2();
    if m.length() == 0 {
        assert(bytes_read(m.record.table, first, m.length()) =~= Seq::<u8>::empty());
    }
    let _ = (m.record.table)(first + k);
}

/// The step reads its transaction, where its call is undone and whether it is not, and its own
/// account. The new account is accessed, and the nonce of the step's own grows by one; where the
/// call reverts both are undone, the last first.
#[verifier::spinoff_prover]
#[verifier::rlimit(50)]
pub proof fn law_caller_is_read_and_counted(m: Met)
    requires
        m.holds(),
    ensures
        ({
            let at = 4 + m.moved();
            let tx = m.g.tx_id.eval(m.v);
            let end = m.g.reversion_info.rw_counter_end_of_reversion.eval(m.v);
            let is_persistent = m.g.reversion_info.is_persistent.eval(m.v);
            let was_warm = m.g.was_warm.eval(m.v);
            let address = combine(m.g.new_address.values(m.v), 256);
            let nonce = combine(m.g.nonce.values(m.v), 256);
            let own = combine(m.g.caller_address.values(m.v), 256);
            let made = m.v.reversible_write_counter;
            &&& is_call_field(m.rw(at), 0, m.v.call_id, CallContextFieldTag::TxId, tx)
            &&& is_call_field(
                m.rw(at + 1),
                0,
                m.v.call_id,
                CallContextFieldTag::RwCounterEndOfReversion,
                end,
            )
            &&& is_call_field(
                m.rw(at + 2),
                0,
                m.v.call_id,
                CallContextFieldTag::IsPersistent,
                is_persistent,
            )
            &&& was_warm == 0 || was_warm == 1
            &&& is_access(m.rw(at + 3), tx, address, 1, was_warm)
            &&& is_call_field(
                m.rw(at + 4),
                0,
                m.v.call_id,
                CallContextFieldTag::CalleeAddress,
                own,
            )
            &&& is_account(m.rw(at + 5), m.caller(), AccountFieldTag::Nonce, nonce + 1, nonce)
            &&& is_persistent != 1 ==> {
                &&& is_access(m.numbered(end - made), tx, address, was_warm, 1)
                &&& is_account(
                    m.numbered(end - made - 1),
                    m.caller(),
                    AccountFieldTag::Nonce,
                    nonce,
                    nonce + 1,
                )
            }
        }),
{
    lemma_row(m, 12);
    lemma_row(m, 13);
    lemma_row(m, 14);
    lemma_row(m, 15);
    lemma_row(m, 16);
    lemma_row(m, 17);
    lemma_row(m, 18);
}

/// The step tells the created call where it is undone and whether it is not, and gives the new
/// account its nonce. Where the call reverts, the nonce is taken back first.
pub proof fn law_account_gets_its_nonce(m: Met)
    requires
        m.holds(),
    ensures
        ({
            let at = 10 + m.moved();
            &&& is_call_field(
                m.rw(at),
                1,
                m.v.rw_counter,
                CallContextFieldTag::RwCounterEndOfReversion,
                m.callee_end(),
            )
            &&& is_call_field(
                m.rw(at + 1),
                1,
                m.v.rw_counter,
                CallContextFieldTag::IsPersistent,
                m.callee_is_persistent(),
            )
            &&& is_account(m.rw(at + 2), m.callee(), AccountFieldTag::Nonce, 1, 0)
            &&& m.callee_is_persistent() != 1 ==> is_account(
                m.numbered(m.callee_end()),
                m.callee(),
                AccountFieldTag::Nonce,
                0,
                1,
            )
        }),
{
    lemma_row(m, 19);
    lemma_row(m, 20);
    lemma_row(m, 21);
}

/// What the caller's balance loses the new account's gains, and it is the value taken from the
/// stack. Where the created call reverts, both balances become what they were.
#[verifier::spinoff_prover]
#[verifier::rlimit(50)]
pub proof fn law_value_moves_to_the_account(m: Met)
    requires
        m.holds(),
    ensures
        ({
            let sender = m.rw(13 + m.moved());
            let receiver = m.rw(14 + m.moved());
            let left = sender->Account_value.value() as int;
            let had = sender->value_prev.value() as int;
            let after = receiver->Account_value.value() as int;
            let before = receiver->value_prev.value() as int;
            &&& is_transfer(sender, receiver, m.caller(), m.callee(), (left, had), (after, before))
            &&& had - left == after - before
            &&& had >= left
            &&& combine_bytes(le_bytes((had - left) as nat, 32), m.v.randomness) == combine(
                m.g.value.values(m.v),
                m.v.randomness,
            )
            &&& m.callee_is_persistent() != 1 ==> is_transfer(
                m.numbered(m.callee_end() - 1),
                m.numbered(m.callee_end() - 2),
                m.caller(),
                m.callee(),
                (had, left),
                (before, after),
            )
        }),
{
    lemma_row(m, 22);
}

/// The memory grows to the end of the code and no further, at its cost.
pub proof fn law_memory_reaches_the_end_of_the_code(m: Met)
    requires
        m.holds(),
    ensures
        m.g.memory_expansion.next_memory_word_size.eval(m.v) == reached(
            m.v.memory_word_size,
            m.end(),
        ),
        m.g.memory_expansion.gas_cost.eval(m.v) == expansion_cost(m.v.memory_word_size, m.end()),
        m.length() > 0 ==> 32 * m.g.memory_expansion.next_memory_word_size.eval(m.v) >= m.offset()
            + m.length(),
        m.g.memory_expansion.next_memory_word_size.eval(m.v) > m.v.memory_word_size ==> 32 * (
        m.g.memory_expansion.next_memory_word_size.eval(m.v) - 1) < m.end(),
        m.length() == 0 && m.v.memory_word_size >= 0
            ==> m.g.memory_expansion.next_memory_word_size.eval(m.v) == m.v.memory_word_size,
        is_call_field(
            m.rw(18 + m.moved()),
            1,
            m.v.call_id,
            CallContextFieldTag::MemorySize,
            reached(m.v.memory_word_size, m.end()),
        ),
{
    lemma_row(m, 4);
    lemma_row(m, 23);
    lemma_row(m, 28);
}

/// For CREATE and CREATE2 alike, the calling call keeps one 64th of the gas that remains once the
/// creation and the memory are paid for, rounded down, and the created call gets the rest.
pub proof fn law_gas_is_split(m: Met)
    requires
        m.holds(),
    ensures
        m.remaining() >= 0,
        is_call_field(
            m.rw(17 + m.moved()),
            1,
            m.v.call_id,
            CallContextFieldTag::GasLeft,
            m.remaining() / 64,
        ),
        m.record.next.gas_left == m.remaining() - m.remaining() / 64,
{
    lemma_row(m, 4);
    lemma_row(m, 23);
    lemma_row(m, 24);
    lemma_row(m, 27);
    lemma_row(m, 37);
    let q = m.g.gas_left.quotient.eval(m.v);
    let r = m.g.gas_left.remainder.eval(m.v);
    assert(m.remaining() == 64 * q + r);
    assert(m.remaining() / 64 == q);
}

/// The calling call finds itself again at the next instruction, with its arguments off the stack
/// and its result on it, and with two more reversible writes made.
pub proof fn law_calling_call_is_saved(m: Met)
    requires
        m.holds(),
    ensures
        is_call_field(
            m.rw(15 + m.moved()),
            1,
            m.v.call_id,
            CallContextFieldTag::ProgramCounter,
            m.v.program_counter + 1,
        ),
        is_call_field(
            m.rw(16 + m.moved()),
            1,
            m.v.call_id,
            CallContextFieldTag::StackPointer,
            m.v.stack_pointer + 2 + m.c2(),
        ),
        is_call_field(
            m.rw(19 + m.moved()),
            1,
            m.v.call_id,
            CallContextFieldTag::ReversibleWriteCounter,
            m.v.reversible_write_counter + 2,
        ),
{
    lemma_row(m, 25);
    lemma_row(m, 26);
    lemma_row(m, 29);
}

/// The created call is told who calls it, whether it succeeds and whether it is undone, its
/// transaction, the two accounts, and where it is undone.
pub proof fn law_created_call_is_told(m: Met)
    requires
        m.holds(),
    ensures
        ({
            let at = 20 + m.moved();
            let id = m.v.rw_counter;
            &&& is_call_field(m.rw(at), 1, id, CallContextFieldTag::CallerId, m.v.call_id)
            &&& is_call_field(m.rw(at + 1), 1, id, CallContextFieldTag::IsSuccess, m.success())
            &&& is_call_field(
                m.rw(at + 2),
                1,
                id,
                CallContextFieldTag::IsPersistent,
                m.callee_is_persistent(),
            )
            &&& is_call_field(
                m.rw(at + 3),
                1,
                id,
                CallContextFieldTag::TxId,
                m.g.tx_id.eval(m.v),
            )
            &&& is_call_field(m.rw(at + 4), 1, id, CallContextFieldTag::CallerAddress, m.caller())
            &&& is_call_field(m.rw(at + 5), 1, id, CallContextFieldTag::CalleeAddress, m.callee())
            &&& is_call_field(
                m.rw(at + 6),
                1,
                id,
                CallContextFieldTag::RwCounterEndOfReversion,
                m.callee_end(),
            )
        }),
{
    lemma_row(m, 30);
    lemma_row(m, 31);
    lemma_row(m, 32);
    lemma_row(m, 33);
    lemma_row(m, 34);
    lemma_row(m, 35);
    lemma_row(m, 36);
}

/// Whatever the step does, the next one begins the created call: there is one state only that it
/// can start in.
pub proof fn law_next_step_can_only_begin_the_created_call(m: Met)
    requires
        m.holds(),
    ensures
        m.record.next == (StepState {
            rw_counter: m.v.rw_counter + rw_total(m.before.rows(m.v)) + 27 + m.moved(),
            call_id: m.v.rw_counter,
            is_root: 0,
            is_create: 1,
            code_hash: m.g.code_hash.eval(m.v),
            program_counter: 0,
            stack_pointer: empty_stack(),
            gas_left: m.remaining() - m.remaining() / 64,
            memory_word_size: 0,
            reversible_write_counter: 3,
        }),
{
    law_gas_is_split(m);
    lemma_row(m, 37);
}

} // verus!
