//! What holds of the gadget as a whole.
use crate::assign::bit;
use crate::builder::ConstraintBuilder;
use crate::constants::{CREATE, CREATE2, CREATE_GAS};
use crate::constraint::{
    follows, in_turn, rw_total, stack_total, CallContextFieldTag, Constraint, OtherFields,
    Requirement, StepStateTransition, Transition,
};
use crate::create::{create_rows, CreateGadget, N_CELLS};
use crate::execution::{bytes_read, expansion_cost, has_given, recorded, Execution, Record};
use crate::expression::{RandomLinearCombination, Valuation};
use crate::hash::code_hash_le;
use crate::radix::{
    combine, combine_bytes, integers, le_bytes, lemma_combine_zeros, lemma_le_bytes_len,
    lemma_le_bytes_of, lemma_le_bytes_value,
};
use crate::region::Given;
use crate::rows::{account_rows, callee_rows, caller_rows, gas_remaining, saved_rows, stack_rows};
use crate::word::{
    lemma_address_word, lemma_limb_base, lemma_limbs, lemma_word_bound, lemma_word_bytes, limb_base,
    Word,
};
use vstd::arithmetic::div_mod::{
    lemma_fundamental_div_mod, lemma_mod_multiples_vanish, lemma_small_mod,
};
use vstd::prelude::*;

verus! {

/// The valuation has all that the step is given.
pub open spec fn has_all(v: Valuation, givens: Seq<Given>) -> bool {
    forall|j: int| 0 <= j < givens.len() ==> has_given(v, #[trigger] givens[j])
}

/// What the gadget gives the step of the execution.
pub open spec fn givens_of(g: CreateGadget, x: Execution) -> Seq<Given> {
    g.step_assignments(x.block, x.tx, x.call, x.step)
}

/// The record of the execution meets the constraint.
pub open spec fn met(x: Execution, row: Constraint<int>, v: Valuation) -> bool {
    recorded(row, x.record(), v)
}

/// Cells that are given bytes have them.
pub proof fn lemma_bytes_given(cells: RandomLinearCombination, bytes: Seq<u8>, v: Valuation)
    requires
        has_given(
            v,
            Given::Bytes { first: cells.first as int, n_cells: cells.n_bytes as int, bytes },
        ),
    ensures
        cells.values(v) == integers(bytes),
{
    assert(cells.values(v) =~= integers(bytes));
}

/// The cells have what they are given.
#[verifier::spinoff_prover]
#[verifier::rlimit(50)]
pub proof fn lemma_cells(g: CreateGadget, n: int, o: int, x: Execution, v: Valuation)
    requires
        g.placed_at(n, o),
        x.is_creation(v),
        has_all(v, givens_of(g, x)),
    ensures
        g.opcode.eval(v) == x.step.opcode->0,
        g.is_create2.eval(v) == x.salt_width(),
        g.code_hash.eval(v) == combine_bytes(code_hash_le(x.code()), v.randomness),
        g.value.values(v) == integers(le_bytes(x.amount(), 32)),
        x.salt_width() == 1 ==> g.salt.values(v) == integers(x.rw(3)->Stack_value.bytes()),
        g.initialization_code.offset.eval(v) == x.code_start(),
        g.initialization_code.length.eval(v) == x.code_length(),
        g.initialization_code.has_length.eval(v) == bit(x.code_length() != 0),
        g.initialization_code.address.eval(v) == x.code_end(),
        g.memory_expansion.next_memory_word_size.eval(v) == x.memory_after(),
        g.memory_expansion.gas_cost.eval(v) == expansion_cost(
            x.step.memory_word_size as int,
            x.code_end(),
        ),
        g.new_address.values(v) == integers(x.new_address().le_bytes()),
        g.tx_id.eval(v) == x.tx.id,
        g.reversion_info.rw_counter_end_of_reversion.eval(v)
            == x.call.rw_counter_end_of_reversion,
        g.reversion_info.is_persistent.eval(v) == bit(x.call.is_persistent),
        g.was_warm.eval(v) == bit(x.rw(7 + x.moved())->is_warm_prev),
        g.caller_address.values(v) == integers(x.caller_address().le_bytes()),
        combine(g.nonce.values(v), 256) == x.nonce(),
        g.callee_reversion_info.rw_counter_end_of_reversion.eval(v) == x.callee_end(),
        g.callee_reversion_info.is_persistent.eval(v) == x.callee_is_persistent(),
        g.transfer.sender_balance.eval(v) == x.caller_balance_pair().0,
        g.transfer.sender_balance_prev.eval(v) == x.caller_balance_pair().1,
        g.transfer.receiver_balance.eval(v) == x.callee_balance_pair().0,
        g.transfer.receiver_balance_prev.eval(v) == x.callee_balance_pair().1,
        g.gas_left.quotient.eval(v) == x.gas_after() / 64,
        g.gas_left.remainder.eval(v) == x.gas_after() % 64,
        g.callee_is_success.eval(v) == x.is_success(),
{
    reveal(Execution::caller_recorded);
    reveal(Execution::account_recorded);
    let givens = givens_of(g, x);
    assert(x.step.code(x.block) =~= x.code());
    let s = g.stack_assignments(x.block, x.step, code_hash_le(x.code()));
    let c = g.caller_assignments(x.block, x.tx, x.call, x.step);
    let d = g.callee_assignments(x.block, x.step);
    assert(givens == s + c + d);
    assert forall|j: int| 0 <= j < s.len() implies has_given(v, #[trigger] s[j]) by {
        assert(givens[j] == s[j]);
    }
    assert forall|j: int| 0 <= j < c.len() implies has_given(v, #[trigger] c[j]) by {
        assert(givens[s.len() + j] == c[j]);
    }
    assert forall|j: int| 0 <= j < d.len() implies has_given(v, #[trigger] d[j]) by {
        assert(givens[s.len() + c.len() + j] == d[j]);
    }
    assert(has_given(v, s[0]));
    assert(has_given(v, s[1]));
    assert(has_given(v, s[2]));
    assert(has_given(v, s[3]));
    assert(has_given(v, s[4]));
    assert(has_given(v, s[5]));
    lemma_word_bytes(x.step.popped(x.block, 0));
    lemma_bytes_given(g.value, x.step.popped(x.block, 0).bytes(), v);
    if x.salt_width() == 1 {
        lemma_word_bytes(x.step.popped(x.block, 3));
        lemma_bytes_given(g.salt, x.step.popped(x.block, 3).bytes(), v);
    }
    assert(has_given(v, c[0]));
    assert(has_given(v, c[1]));
    assert(has_given(v, c[2]));
    assert(has_given(v, c[3]));
    assert(has_given(v, c[4]));
    assert(has_given(v, c[5]));
    assert(has_given(v, c[6]));
    lemma_bytes_given(g.new_address, x.new_address().le_bytes(), v);
    lemma_bytes_given(g.caller_address, x.caller_address().le_bytes(), v);
    let nonce = x.nonce() as nat;
    assert(nonce % limb_base() == nonce);
    lemma_limb_base();
    lemma_le_bytes_value(nonce, 8);
    lemma_bytes_given(g.nonce, le_bytes(nonce, 8), v);
    assert(has_given(v, d[0]));
    assert(has_given(v, d[1]));
    assert(has_given(v, d[2]));
    assert(has_given(v, d[3]));
    assert(has_given(v, d[4]));
    assert(has_given(v, d[5]));
}

/// What the laws on the constraints ask of an execution and a valuation: the step is a creation,
/// and the valuation has what the step is given.
pub open spec fn faithful(g: CreateGadget, n: int, o: int, x: Execution, v: Valuation) -> bool {
    &&& g.placed_at(n, o)
    &&& x.is_creation(v)
    &&& x.is_readable(v.randomness)
    &&& has_all(v, givens_of(g, x))
}

#[verifier::spinoff_prover]
#[verifier::rlimit(50)]
proof fn lemma_stack_met(g: CreateGadget, n: int, o: int, x: Execution, v: Valuation, i: int)
    requires
        faithful(g, n, o, x, v),
        0 <= i < 10,
    ensures
        ({
            let rows = stack_rows(
                g.opcode,
                g.is_create2,
                g.value,
                g.initialization_code,
                g.salt,
                g.new_address,
                g.callee_is_success,
                v,
                v.rw_counter,
                v.stack_pointer,
            );
            rows.len() == 10 && met(x, rows[i], v)
        }),
{
    reveal(Execution::stack_recorded);
    lemma_cells(g, n, o, x, v);
    let c2 = x.salt_width();
    let rw = v.rw_counter;
    assert((x.table)(rw) == x.rw(0));
    assert((x.table)(rw + 1) == x.rw(1));
    assert((x.table)(rw + 2) == x.rw(2));
    assert((x.table)(rw + 3 + c2) == x.rw(3 + c2));
    if c2 == 1 {
        assert((x.table)(rw + 3) == x.rw(3));
    }
    lemma_word_value(x.step.popped(x.block, 1));
    lemma_word_value(x.step.popped(x.block, 2));
    let pushed = x.rw(3 + c2)->Stack_value;
    let address = x.new_address();
    if x.is_success() == 1 {
        lemma_address_word(address, pushed, v.randomness);
    } else {
        assert(x.is_success() * address.value() == 0);
        lemma_zero_word(pushed, v.randomness);
    }
}

/// The bytes of a word amount, in base 256, to its number.
pub proof fn lemma_word_value(word: Word)
    ensures
        combine_bytes(word.bytes(), 256) == word.value(),
{
    lemma_limbs(word);
    lemma_word_bound(word);
    lemma_le_bytes_value(word.value(), 32);
}

/// The word 0 is combined to 0.
proof fn lemma_zero_word(word: Word, base: int)
    requires
        word.value() == 0,
    ensures
        combine_bytes(word.bytes(), base) == 0,
{
    let none = Seq::<u8>::empty();
    assert(integers(none) =~= Seq::<int>::empty());
    lemma_le_bytes_of(none, 32);
    lemma_combine_zeros(none, 32, base);
}

#[verifier::spinoff_prover]
#[verifier::rlimit(50)]
proof fn lemma_caller_met(g: CreateGadget, n: int, o: int, x: Execution, v: Valuation, i: int)
    requires
        faithful(g, n, o, x, v),
        0 <= i < 9,
    ensures
        ({
            let rows = caller_rows(
                g.initialization_code,
                g.new_address,
                g.code_hash,
                g.tx_id,
                g.reversion_info,
                g.was_warm,
                g.caller_address,
                g.nonce,
                code_hash_le(Seq::empty()),
                v,
                v.rw_counter + 4 + g.is_create2.eval(v),
            );
            rows.len() == 9 && met(x, rows[i], v)
        }),
{
    reveal(Execution::code_recorded);
    reveal(Execution::caller_recorded);
    lemma_cells(g, n, o, x, v);
    let c2 = x.salt_width();
    let m = x.moved();
    let rw = v.rw_counter;
    let length = x.code_length();
    let code = x.code();
    assert forall|k: int| 4 + m <= k < 10 + m implies (x.table)(#[trigger] (rw + k)) == x.rw(k) by {
        let _ = (x.table)(rw + k);
    }
    assert((x.table)(rw + 4 + c2 + g.initialization_code.length.eval(v)) == x.rw(4 + m));
    assert((x.table)(rw + 4 + c2 + g.initialization_code.length.eval(v) + 1) == x.rw(5 + m));
    assert((x.table)(rw + 4 + c2 + g.initialization_code.length.eval(v) + 2) == x.rw(6 + m));
    assert((x.table)(rw + 4 + c2 + g.initialization_code.length.eval(v) + 3) == x.rw(7 + m));
    assert((x.table)(rw + 4 + c2 + g.initialization_code.length.eval(v) + 4) == x.rw(8 + m));
    assert((x.table)(rw + 4 + c2 + g.initialization_code.length.eval(v) + 5) == x.rw(9 + m));
    assert(bytes_read(x.table, rw + 4 + c2, length) =~= code);
    if length == 0 {
        assert(code =~= Seq::<u8>::empty());
    }
}

#[verifier::spinoff_prover]
#[verifier::rlimit(50)]
proof fn lemma_account_met(g: CreateGadget, n: int, o: int, x: Execution, v: Valuation, i: int)
    requires
        faithful(g, n, o, x, v),
        0 <= i < 4,
    ensures
        ({
            let rows = account_rows(
                g.value,
                g.new_address,
                g.caller_address,
                g.callee_reversion_info,
                g.transfer,
                v,
                v.rw_counter + 10 + (g.is_create2.eval(v) + g.initialization_code.length.eval(v)),
            );
            rows.len() == 4 && met(x, rows[i], v)
        }),
{
    reveal(Execution::account_recorded);
    lemma_cells(g, n, o, x, v);
    let m = x.moved();
    let rw = v.rw_counter + 10 + (g.is_create2.eval(v) + g.initialization_code.length.eval(v));
    assert((x.table)(rw) == x.rw(10 + m));
    assert((x.table)(rw + 1) == x.rw(11 + m));
    assert((x.table)(rw + 2) == x.rw(12 + m));
    assert((x.table)(rw + 3) == x.rw(13 + m));
    assert((x.table)(rw + 3 + 1) == x.rw(14 + m));
}

#[verifier::spinoff_prover]
#[verifier::rlimit(50)]
proof fn lemma_saved_met(g: CreateGadget, n: int, o: int, x: Execution, v: Valuation, i: int)
    requires
        faithful(g, n, o, x, v),
        0 <= i < 7,
    ensures
        ({
            let rows = saved_rows(
                g.is_create2,
                g.initialization_code,
                g.memory_expansion,
                g.gas_left,
                v,
                v.rw_counter + 15 + (g.is_create2.eval(v) + g.initialization_code.length.eval(v)),
            );
            rows.len() == 7 && met(x, rows[i], v)
        }),
{
    reveal(Execution::saved_recorded);
    lemma_cells(g, n, o, x, v);
    let m = x.moved();
    let rw = v.rw_counter + 15 + (g.is_create2.eval(v) + g.initialization_code.length.eval(v));
    assert((x.table)(rw) == x.rw(15 + m));
    assert((x.table)(rw + 1) == x.rw(16 + m));
    assert((x.table)(rw + 2) == x.rw(17 + m));
    assert((x.table)(rw + 3) == x.rw(18 + m));
    assert((x.table)(rw + 4) == x.rw(19 + m));
}

#[verifier::spinoff_prover]
#[verifier::rlimit(50)]
proof fn lemma_callee_met(g: CreateGadget, n: int, o: int, x: Execution, v: Valuation, i: int)
    requires
        faithful(g, n, o, x, v),
        0 <= i < 8,
    ensures
        ({
            let moved = g.is_create2.eval(v) + g.initialization_code.length.eval(v);
            let rows = callee_rows(
                g.new_address,
                g.callee_is_success,
                g.code_hash,
                g.tx_id,
                g.caller_address,
                g.callee_reversion_info,
                g.memory_expansion,
                g.gas_left,
                v,
                v.rw_counter + 20 + moved,
                20 + moved,
            );
            rows.len() == 8 && met(x, rows[i], v)
        }),
{
    reveal(Execution::callee_recorded);
    reveal(Execution::next_recorded);
    lemma_cells(g, n, o, x, v);
    let m = x.moved();
    let rw = v.rw_counter + 20 + (g.is_create2.eval(v) + g.initialization_code.length.eval(v));
    assert((x.table)(rw) == x.rw(20 + m));
    assert((x.table)(rw + 1) == x.rw(21 + m));
    assert((x.table)(rw + 2) == x.rw(22 + m));
    assert((x.table)(rw + 3) == x.rw(23 + m));
    assert((x.table)(rw + 4) == x.rw(24 + m));
    assert((x.table)(rw + 5) == x.rw(25 + m));
    assert((x.table)(rw + 6) == x.rw(26 + m));
}

/// A creation that the machine has carried out and recorded meets every constraint of the
/// gadget, with the cells filled from its record. Its addresses and the place of the code amount
/// to the same combined and in base 256.
pub proof fn law_a_creation_meets_every_constraint(
    g: CreateGadget,
    n: int,
    o: int,
    x: Execution,
    v: Valuation,
    i: int,
)
    requires
        g.placed_at(n, o),
        x.is_creation(v),
        x.is_readable(v.randomness),
        has_all(v, givens_of(g, x)),
        0 <= i < create_rows(g, code_hash_le(Seq::empty()), v, 0, 0).len(),
    ensures
        met(x, create_rows(g, code_hash_le(Seq::empty()), v, 0, 0)[i], v),
{
    let rows = create_rows(g, code_hash_le(Seq::empty()), v, 0, 0);
    assert(rows.len() == 38);
    if i < 10 {
        lemma_stack_met(g, n, o, x, v, i);
    } else if i < 19 {
        lemma_caller_met(g, n, o, x, v, i - 10);
    } else if i < 23 {
        lemma_account_met(g, n, o, x, v, i - 19);
    } else if i < 30 {
        lemma_saved_met(g, n, o, x, v, i - 23);
    } else {
        lemma_callee_met(g, n, o, x, v, i - 30);
    }
}

/// No other creation does: where a creation meets every constraint, with the cells filled from
/// its record, the addresses and the place of the code amount to the same combined and in base
/// 256.
pub proof fn law_no_other_creation_meets_every_constraint(
    g: CreateGadget,
    n: int,
    o: int,
    x: Execution,
    v: Valuation,
)
    requires
        g.placed_at(n, o),
        x.is_creation(v),
        has_all(v, givens_of(g, x)),
        forall|i: int|
            0 <= i < create_rows(g, code_hash_le(Seq::empty()), v, 0, 0).len() ==> met(
                x,
                #[trigger] create_rows(g, code_hash_le(Seq::empty()), v, 0, 0)[i],
                v,
            ),
    ensures
        x.is_readable(v.randomness),
{
    let rows = create_rows(g, code_hash_le(Seq::empty()), v, 0, 0);
    let rw = v.rw_counter;
    let m = x.moved();
    lemma_cells(g, n, o, x, v);
    assert(rows.len() == 38);
    assert(met(x, rows[5], v));
    assert(met(x, rows[6], v));
    assert((x.table)(rw + 1) == x.rw(1));
    assert((x.table)(rw + 2) == x.rw(2));
    lemma_word_value(x.step.popped(x.block, 1));
    lemma_word_value(x.step.popped(x.block, 2));
    assert(met(x, rows[18], v));
    assert((x.table)(rw + 9 + m) == x.rw(9 + m));
    assert(met(x, rows[21], v));
    assert((x.table)(rw + 12 + m) == x.rw(12 + m));
    reveal(Execution::caller_recorded);
    reveal(Execution::account_recorded);
}

/// Where the randomness is 256, combining is reading in base 256.
pub proof fn law_all_is_readable_in_base_256(x: Execution)
    ensures
        x.is_readable(256),
{
}

/// The given fills the cell.
pub open spec fn fills(given: Given, index: int) -> bool {
    match given {
        Given::Cell { index: own, .. } => index == own,
        Given::Bytes { first, n_cells, .. } => first <= index < first + n_cells,
        _ => false,
    }
}

/// Every cell of the gadget is filled, none twice, and no other cell is. Where bytes are given,
/// there is one for each of the cells.
pub proof fn law_every_cell_is_filled_once(
    g: CreateGadget,
    n: int,
    o: int,
    x: Execution,
    index: int,
)
    requires
        g.placed_at(n, o),
    ensures
        n <= index < n + N_CELLS ==> exists|j: int|
            0 <= j < givens_of(g, x).len() && fills(#[trigger] givens_of(g, x)[j], index),
        forall|j: int, k: int|
            0 <= j < k < givens_of(g, x).len() ==> !(fills(#[trigger] givens_of(g, x)[j], index)
                && fills(#[trigger] givens_of(g, x)[k], index)),
        forall|j: int|
            0 <= j < givens_of(g, x).len() && fills(#[trigger] givens_of(g, x)[j], index) ==> n
                <= index < n + N_CELLS,
        forall|j: int|
            0 <= j < givens_of(g, x).len() && #[trigger] givens_of(g, x)[j] is Bytes
                ==> givens_of(g, x)[j]->n_cells == givens_of(g, x)[j]->Bytes_bytes.len(),
{
    let givens = givens_of(g, x);
    lemma_word_bytes(x.step.popped(x.block, 0));
    lemma_word_bytes(x.step.popped(x.block, 3));
    lemma_le_bytes_len(0, 32);
    lemma_le_bytes_len(x.rw(9 + x.moved())->value_prev.value() % limb_base(), 8);
    assert(x.new_address().le_bytes().len() == 20);
    assert(x.caller_address().le_bytes().len() == 20);
    let j: int = if index == n {
        0
    } else if index == n + 1 {
        1
    } else if index < n + 34 {
        3
    } else if index < n + 66 {
        4
    } else if index < n + 86 {
        6
    } else if index == n + 86 {
        18
    } else if index == n + 87 {
        2
    } else if index == n + 88 {
        7
    } else if index == n + 89 {
        8
    } else if index == n + 90 {
        9
    } else if index == n + 91 {
        10
    } else if index < n + 112 {
        11
    } else if index < n + 120 {
        12
    } else if index == n + 120 {
        13
    } else {
        14
    };
    assert(givens.len() == 19);
    assert(n <= index < n + N_CELLS ==> fills(givens[j], index));
}

/// Every constraint of a builder makes its reads and writes from the number on at which those
/// before it leave off, and stands where they have left the stack pointer.
pub proof fn law_constraints_stand_in_turn(cb: ConstraintBuilder, v: Valuation, i: int)
    requires
        cb.wf(),
        0 <= i < cb.rows(v).len(),
    ensures
        follows(cb.rows(v).take(i), cb.rows(v)[i], v),
{
    reveal(in_turn);
    assert(in_turn(cb.rows(v), v));
}

/// What the gadget requires stands after what was required before.
pub proof fn lemma_configured_rows(
    g: CreateGadget,
    before: ConstraintBuilder,
    after: ConstraintBuilder,
    empty_code_hash: Seq<u8>,
    v: Valuation,
)
    requires
        g.configured(before, after, empty_code_hash),
    ensures
        after.rows(v) == before.rows(v) + create_rows(
            g,
            empty_code_hash,
            v,
            rw_total(before.rows(v)),
            stack_total(before.rows(v)),
        ),
        rw_total(after.rows(v)) == rw_total(before.rows(v)) + 27 + g.is_create2.eval(v)
            + g.initialization_code.length.eval(v),
        stack_total(after.rows(v)) == stack_total(before.rows(v)) + 2 + g.is_create2.eval(v),
{
    let _ = after.rows(v);
}

/// The cells that the gadget takes down as holding bytes are given bytes: wherever the valuation
/// has what the step is given, each of them holds one.
pub proof fn law_byte_cells_are_given_bytes(
    g: CreateGadget,
    before: ConstraintBuilder,
    after: ConstraintBuilder,
    empty_code_hash: Seq<u8>,
    x: Execution,
    v: Valuation,
    k: int,
    index: int,
)
    requires
        g.configured(before, after, empty_code_hash),
        has_all(v, givens_of(g, x)),
        before.byte_cells@.len() <= k < after.byte_cells@.len(),
        after.byte_cells@[k].first <= index < after.byte_cells@[k].first
            + after.byte_cells@[k].n_bytes,
    ensures
        0 <= (v.cells)(index) < 256,
{
    let givens = givens_of(g, x);
    let cells = g.byte_cells()[k - before.byte_cells@.len()];
    assert(after.byte_cells@[k] == cells);
    assert(has_given(v, givens[3]));
    assert(has_given(v, givens[4]));
    assert(has_given(v, givens[6]));
    assert(has_given(v, givens[11]));
    assert(has_given(v, givens[12]));
}

/// The last constraint of the gadget.
pub open spec fn step_transition(
    before: ConstraintBuilder,
    after: ConstraintBuilder,
    v: Valuation,
) -> StepStateTransition<int> {
    after.rows(v)[before.rows(v).len() as int + 37].requirement->transition
}

/// The next step begins the created call: the number of this step's first read or write is its
/// id, it is not the root and it creates, its three reversible writes have been made, and all
/// else is as at the start of a call.
pub proof fn law_next_step_begins_the_created_call(
    g: CreateGadget,
    before: ConstraintBuilder,
    after: ConstraintBuilder,
    empty_code_hash: Seq<u8>,
    v: Valuation,
)
    requires
        g.configured(before, after, empty_code_hash),
    ensures
        ({
            let next = step_transition(before, after, v);
            &&& next.call_id == Transition::To(v.rw_counter)
            &&& next.is_root == Transition::To(0int)
            &&& next.is_create == Transition::To(1int)
            &&& next.code_hash == Transition::To(g.code_hash.eval(v))
            &&& next.reversible_write_counter == Transition::To(3int)
            &&& next.others == OtherFields::NewContext
        }),
{
    lemma_configured_rows(g, before, after, empty_code_hash, v);
}

/// The field of the calling call that the gadget saves: the `k`th of the five.
pub open spec fn saved_field(
    before: ConstraintBuilder,
    after: ConstraintBuilder,
    v: Valuation,
    k: int,
) -> Requirement<int> {
    after.rows(v)[before.rows(v).len() as int + 25 + k].requirement
}

/// The next step counts its reads and writes from where the gadget leaves off.
pub proof fn law_rw_counter_moves_by_what_is_made(
    g: CreateGadget,
    before: ConstraintBuilder,
    after: ConstraintBuilder,
    empty_code_hash: Seq<u8>,
    v: Valuation,
)
    requires
        g.configured(before, after, empty_code_hash),
    ensures
        step_transition(before, after, v).rw_counter == Transition::Delta(
            rw_total(after.rows(v)),
        ),
        rw_total(after.rows(v)) == rw_total(before.rows(v)) + 27 + g.is_create2.eval(v)
            + g.initialization_code.length.eval(v),
{
    lemma_configured_rows(g, before, after, empty_code_hash, v);
}

/// The calling call finds its stack pointer again where the gadget's reads and writes of the
/// stack have left it.
pub proof fn law_saved_stack_pointer_is_where_the_stack_is_left(
    g: CreateGadget,
    before: ConstraintBuilder,
    after: ConstraintBuilder,
    empty_code_hash: Seq<u8>,
    v: Valuation,
)
    requires
        g.configured(before, after, empty_code_hash),
    ensures
        saved_field(before, after, v, 1)->CallContext_field_tag
            == CallContextFieldTag::StackPointer,
        saved_field(before, after, v, 1)->CallContext_value == v.stack_pointer + (stack_total(
            after.rows(v),
        ) - stack_total(before.rows(v))),
{
    lemma_configured_rows(g, before, after, empty_code_hash, v);
}

/// The reversible writes that the two calls are left with are those that the gadget has made
/// for each of them: two for the calling call, and three for the created one.
pub proof fn law_reversible_writes_are_counted(
    g: CreateGadget,
    before: ConstraintBuilder,
    after: ConstraintBuilder,
    empty_code_hash: Seq<u8>,
    v: Valuation,
)
    requires
        g.configured(before, after, empty_code_hash),
    ensures
        saved_field(before, after, v, 4)->CallContext_field_tag
            == CallContextFieldTag::ReversibleWriteCounter,
        saved_field(before, after, v, 4)->CallContext_value
            == g.reversion_info.reversible_write_counter.eval(v),
        step_transition(before, after, v).reversible_write_counter == Transition::To(
            g.callee_reversion_info.reversible_write_counter.eval(v),
        ),
        g.reversion_info.reversible_write_counter.eval(v) == v.reversible_write_counter + 2,
        g.callee_reversion_info.reversible_write_counter.eval(v) == 3,
{
    lemma_configured_rows(g, before, after, empty_code_hash, v);
}

/// The created call gets all but one 64th of the gas that remains, and the calling call keeps
/// that 64th: between them they have all of it.
pub proof fn law_all_but_one_64th_of_the_gas_is_sent(
    g: CreateGadget,
    before: ConstraintBuilder,
    after: ConstraintBuilder,
    empty_code_hash: Seq<u8>,
    v: Valuation,
)
    requires
        g.configured(before, after, empty_code_hash),
        gas_remaining(g.memory_expansion, v) == 64 * g.gas_left.quotient.eval(v)
            + g.gas_left.remainder.eval(v),
        0 <= g.gas_left.remainder.eval(v) < 64,
        gas_remaining(g.memory_expansion, v) >= 0,
    ensures
        saved_field(before, after, v, 2)->CallContext_field_tag == CallContextFieldTag::GasLeft,
        saved_field(before, after, v, 2)->CallContext_value == gas_remaining(g.memory_expansion, v)
            / 64,
        step_transition(before, after, v).gas_left == Transition::To(
            gas_remaining(g.memory_expansion, v) - gas_remaining(g.memory_expansion, v) / 64,
        ),
        63 * (gas_remaining(g.memory_expansion, v) / 64) <= gas_remaining(g.memory_expansion, v)
            - gas_remaining(g.memory_expansion, v) / 64 <= gas_remaining(g.memory_expansion, v),
{
    lemma_configured_rows(g, before, after, empty_code_hash, v);
}

/// The number that is divided, as the step is given it, is the gas that remains once the creation
/// and the memory are paid for: the number that the constraints divide.
pub proof fn law_gas_given_is_the_gas_that_remains(g: CreateGadget, x: Execution, v: Valuation)
    requires
        v.gas_left == x.step.gas_left,
        has_all(v, givens_of(g, x)),
    ensures
        givens_of(g, x)[17] is ConstantDivision,
        givens_of(g, x)[17]->numerator - givens_of(g, x)[17]->less.gas_cost.eval(v)
            == gas_remaining(g.memory_expansion, v),
        gas_remaining(g.memory_expansion, v) == 64 * g.gas_left.quotient.eval(v)
            + g.gas_left.remainder.eval(v),
        0 <= g.gas_left.remainder.eval(v) < 64,
{
    assert(givens_of(g, x)[17] == Given::ConstantDivision {
        gadget: g.gas_left,
        numerator: x.step.gas_left - CREATE_GAS,
        less: g.memory_expansion,
    });
    assert(has_given(v, givens_of(g, x)[17]));
}

/// Over a field of `p` elements, the constraint holds; the lookups are left to the tables.
pub open spec fn holds_mod(row: Constraint<int>, p: int) -> bool {
    (row.condition matches Some(c) && c % p == 0) || match row.requirement {
        Requirement::Boolean { value } => value % p == 0 || value % p == 1,
        Requirement::Equal { left, right, .. } => (left - right) % p == 0,
        _ => true,
    }
}

/// Over a field of more than 255 elements, the constraints leave only the two opcodes, and tell
/// them apart. The constraint that does so says what it is for.
pub proof fn law_opcode_is_create_or_create2(
    g: CreateGadget,
    empty_code_hash: Seq<u8>,
    v: Valuation,
    made: int,
    shift: int,
    p: int,
)
    requires
        p > 255,
        forall|i: int|
            0 <= i < create_rows(g, empty_code_hash, v, made, shift).len() ==> holds_mod(
                #[trigger] create_rows(g, empty_code_hash, v, made, shift)[i],
                p,
            ),
    ensures
        g.opcode.eval(v) % p == (if g.is_create2.eval(v) % p == 1 {
            CREATE2
        } else {
            CREATE
        }),
        g.is_create2.eval(v) % p == 0 || g.is_create2.eval(v) % p == 1,
        create_rows(g, empty_code_hash, v, made, shift)[2].requirement->name
            == "Opcode is CREATE or CREATE2",
{
    let rows = create_rows(g, empty_code_hash, v, made, shift);
    assert(holds_mod(rows[1], p));
    assert(holds_mod(rows[2], p));
    let c2 = g.is_create2.eval(v);
    let opcode = g.opcode.eval(v);
    let wanted = c2 * CREATE2 + (1 - c2) * CREATE;
    assert((opcode - wanted) % p == 0);
    assert(wanted == CREATE + 5 * c2);
    let q = c2 / p;
    let r = c2 % p;
    let k = (opcode - wanted) / p;
    lemma_fundamental_div_mod(c2, p);
    lemma_fundamental_div_mod(opcode - wanted, p);
    assert(5 * (p * q) == (5 * q) * p) by (nonlinear_arith);
    assert(p * k == k * p) by (nonlinear_arith);
    assert((5 * q) * p + k * p == (5 * q + k) * p) by (nonlinear_arith);
    assert(opcode == (5 * q + k) * p + (CREATE + 5 * r));
    lemma_mod_multiples_vanish(5 * q + k, CREATE + 5 * r, p);
    assert(p * (5 * q + k) == (5 * q + k) * p) by (nonlinear_arith);
    lemma_small_mod((CREATE + 5 * r) as nat, p as nat);
}

/// Over a field, where there is no initialization code the hash is that of no code.
pub proof fn law_empty_code_has_the_empty_hash(
    g: CreateGadget,
    empty_code_hash: Seq<u8>,
    v: Valuation,
    made: int,
    shift: int,
    p: int,
)
    requires
        p > 1,
        g.initialization_code.has_length.eval(v) == 0,
        forall|i: int|
            0 <= i < create_rows(g, empty_code_hash, v, made, shift).len() ==> holds_mod(
                #[trigger] create_rows(g, empty_code_hash, v, made, shift)[i],
                p,
            ),
    ensures
        (g.code_hash.eval(v) - combine_bytes(empty_code_hash, v.randomness)) % p == 0,
        create_rows(g, empty_code_hash, v, made, shift)[11].requirement->name == "",
{
    let rows = create_rows(g, empty_code_hash, v, made, shift);
    assert(holds_mod(rows[11], p));
    lemma_small_mod(1, p as nat);
}

/// Whatever the reads and writes, where they meet every constraint the next step runs the code
/// that was read from memory, also where that is none.
pub proof fn law_next_step_runs_the_code_read(
    g: CreateGadget,
    v: Valuation,
    made: int,
    shift: int,
    record: Record,
)
    requires
        forall|i: int|
            0 <= i < create_rows(g, code_hash_le(Seq::empty()), v, made, shift).len() ==> recorded(
                #[trigger] create_rows(g, code_hash_le(Seq::empty()), v, made, shift)[i],
                record,
                v,
            ),
    ensures
        create_rows(
            g,
            code_hash_le(Seq::empty()),
            v,
            made,
            shift,
        )[37].requirement->transition.code_hash == Transition::To(
            combine_bytes(
                code_hash_le(
                    bytes_read(
                        record.table,
                        v.rw_counter + made + 4 + g.is_create2.eval(v),
                        g.initialization_code.length.eval(v),
                    ),
                ),
                v.randomness,
            ),
        ),
{
    let rows = create_rows(g, code_hash_le(Seq::empty()), v, made, shift);
    let first = v.rw_counter + made + 4 + g.is_create2.eval(v);
    let length = g.initialization_code.length.eval(v);
    assert(recorded(rows[4], record, v));
    assert(recorded(rows[10], record, v));
    assert(recorded(rows[11], record, v));
    if length == 0 {
        assert(bytes_read(record.table, first, length) =~= Seq::<u8>::empty());
    }
}

/// The reversible writes of each of the two calls are undone in the opposite order, one after
/// the other: those of the calling call on from those that it has made before, and those of the
/// created call, the two of the transfer last, from the end of its reversion on.
pub proof fn law_writes_are_undone_in_the_opposite_order(
    g: CreateGadget,
    empty_code_hash: Seq<u8>,
    v: Valuation,
    made: int,
    shift: int,
)
    ensures
        ({
            let rows = create_rows(g, empty_code_hash, v, made, shift);
            let access = rows[16].requirement;
            let nonce = rows[18].requirement;
            let callee_nonce = rows[21].requirement;
            let transfer = rows[22].requirement;
            let end = g.reversion_info.rw_counter_end_of_reversion.eval(v);
            &&& access is AccountAccessList && nonce is Account
            &&& callee_nonce is Account && transfer is Transfer
            &&& access->AccountAccessList_reversion.rw_counter == end - v.reversible_write_counter
            &&& nonce->Account_reversion.rw_counter
                == access->AccountAccessList_reversion.rw_counter - 1
            &&& callee_nonce->Account_reversion.rw_counter
                == g.callee_reversion_info.rw_counter_end_of_reversion.eval(v)
            &&& transfer->Transfer_reversion.rw_counter
                == callee_nonce->Account_reversion.rw_counter - 1
            &&& access->AccountAccessList_rw_counter < nonce->Account_rw_counter
            &&& nonce->Account_rw_counter < callee_nonce->Account_rw_counter
            &&& callee_nonce->Account_rw_counter < transfer->Transfer_rw_counter
        }),
{
}

/// The step puts the new address on the stack where the initialization succeeds, and else 0.
pub proof fn law_result_is_the_address_or_zero(
    g: CreateGadget,
    empty_code_hash: Seq<u8>,
    v: Valuation,
    made: int,
    shift: int,
)
    ensures
        ({
            let pushed = create_rows(g, empty_code_hash, v, made, shift)[9].requirement;
            let success = g.callee_is_success.eval(v);
            &&& pushed is Stack
            &&& pushed->Stack_is_write
            &&& success == 1 ==> pushed->Stack_value == combine(
                g.new_address.values(v),
                v.randomness,
            )
            &&& success == 0 ==> pushed->Stack_value == 0
        }),
{
    let success = g.callee_is_success.eval(v);
    let address = combine(g.new_address.values(v), v.randomness);
    assert(success == 1 ==> success * address == address);
    assert(success == 0 ==> success * address == 0);
}

} // verus!
