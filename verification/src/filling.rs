//! What holds of the values that the cells are given, whatever has been recorded.
use crate::assign::bit;
use crate::builder::ConstraintBuilder;
use crate::constants::CREATE_GAS;
use crate::create::{create_rows, CreateGadget};
use crate::execution::{expansion_cost, has_given, memory_cost, range_end, reached, Execution};
use crate::expression::Valuation;
use crate::hash::code_hash_le;
use crate::laws::{
    fills, givens_of, has_all, law_a_creation_meets_every_constraint, law_every_cell_is_filled_once,
    lemma_bytes_given, lemma_word_value, met,
};
use crate::radix::{
    combine, combine_bytes, integers, le_bytes, lemma_combine_zeros, lemma_le_bytes_of,
    lemma_le_bytes_value,
};
use crate::region::Given;
use crate::word::{lemma_limb_base, limb_base};
use vstd::prelude::*;

verus! {

/// `low` is what remains of the number in 64 bits.
pub open spec fn is_low(number: nat, low: int) -> bool {
    &&& 0 <= low < limb_base()
    &&& (number - low) % (limb_base() as int) == 0
}

/// The bytes of 0 amount to 0.
proof fn lemma_zero_bytes()
    ensures
        combine_bytes(le_bytes(0, 32), 256) == 0,
{
    let none = Seq::<u8>::empty();
    assert(integers(none) =~= Seq::<int>::empty());
    lemma_le_bytes_of(none, 32);
    lemma_combine_zeros(none, 32, 256);
}

/// Whatever the step has recorded, a valuation that has what the step is given holds in each cell
/// what was recorded for it. The words that are narrowed to 64 bits, the nonce and the end of the
/// created call's reversion, may have been of any size; the created call counts as persistent
/// where the low 64 bits of its field are not all 0.
#[verifier::spinoff_prover]
#[verifier::rlimit(50)]
pub proof fn law_cells_hold_what_is_recorded(
    g: CreateGadget,
    n: int,
    o: int,
    x: Execution,
    v: Valuation,
)
    requires
        g.placed_at(n, o),
        has_all(v, givens_of(g, x)),
    ensures
        g.opcode.eval(v) == x.step.opcode->0,
        g.is_create2.eval(v) == (if x.step.opcode == Some(0xf5u8) {
            1int
        } else {
            0int
        }),
        g.code_hash.eval(v) == combine_bytes(code_hash_le(x.code()), v.randomness),
        combine(g.value.values(v), 256) == x.rw(0)->Stack_value.value(),
        combine(g.salt.values(v), 256) == (if x.step.opcode == Some(0xf5u8) {
            x.rw(3)->Stack_value.value() as int
        } else {
            0
        }),
        combine(g.new_address.values(v), 256) == x.new_address().value(),
        g.tx_id.eval(v) == x.tx.id,
        g.reversion_info.rw_counter_end_of_reversion.eval(v)
            == x.call.rw_counter_end_of_reversion,
        g.reversion_info.is_persistent.eval(v) == bit(x.call.is_persistent),
        g.was_warm.eval(v) == bit(x.rw(7 + x.moved())->is_warm_prev),
        combine(g.caller_address.values(v), 256) == x.call.callee_address.value(),
        is_low(
            x.rw(9 + x.moved())->value_prev.value(),
            combine(g.nonce.values(v), 256),
        ),
        is_low(
            x.rw(10 + x.moved())->CallContext_value.value(),
            g.callee_reversion_info.rw_counter_end_of_reversion.eval(v),
        ),
        g.callee_reversion_info.is_persistent.eval(v) == (if is_low(
            x.rw(11 + x.moved())->CallContext_value.value(),
            0,
        ) {
            0int
        } else {
            1int
        }),
        g.callee_is_success.eval(v) == x.rw(21 + x.moved())->CallContext_value.value(),
{
    let givens = givens_of(g, x);
    assert(x.step.code(x.block) =~= x.code());
    assert(givens.len() == 19);
    assert(has_given(v, givens[0]));
    assert(has_given(v, givens[1]));
    assert(has_given(v, givens[2]));
    assert(has_given(v, givens[3]));
    assert(has_given(v, givens[4]));
    assert(has_given(v, givens[6]));
    assert(has_given(v, givens[7]));
    assert(has_given(v, givens[8]));
    assert(has_given(v, givens[9]));
    assert(has_given(v, givens[10]));
    assert(has_given(v, givens[11]));
    assert(has_given(v, givens[12]));
    assert(has_given(v, givens[13]));
    assert(has_given(v, givens[14]));
    assert(has_given(v, givens[18]));
    lemma_word_value(x.rw(0)->Stack_value);
    lemma_bytes_given(g.value, x.rw(0)->Stack_value.bytes(), v);
    if x.salt_width() == 1 {
        lemma_word_value(x.rw(3)->Stack_value);
        lemma_bytes_given(g.salt, x.rw(3)->Stack_value.bytes(), v);
    } else {
        lemma_zero_bytes();
        lemma_bytes_given(g.salt, le_bytes(0, 32), v);
    }
    lemma_bytes_given(g.new_address, x.new_address().le_bytes(), v);
    lemma_bytes_given(g.caller_address, x.call.callee_address.le_bytes(), v);
    let nonce = x.rw(9 + x.moved())->value_prev.value() % limb_base();
    lemma_limb_base();
    lemma_le_bytes_value(nonce, 8);
    lemma_bytes_given(g.nonce, le_bytes(nonce, 8), v);
}

/// Whatever the step has recorded, a valuation that has what the step is given holds in the
/// outputs of the parts what follows from the record: the place of the code, the memory grown to
/// its end from the size that the step starts with, the gas that this leaves divided by 64, and
/// the balances.
pub proof fn law_outputs_hold_what_follows(
    g: CreateGadget,
    n: int,
    o: int,
    x: Execution,
    v: Valuation,
)
    requires
        g.placed_at(n, o),
        has_all(v, givens_of(g, x)),
    ensures
        g.initialization_code.offset.eval(v) == x.code_start(),
        g.initialization_code.length.eval(v) == x.code_length(),
        g.initialization_code.has_length.eval(v) == bit(x.code_length() != 0),
        g.initialization_code.address.eval(v) == range_end(x.code_start(), x.code_length()),
        g.memory_expansion.next_memory_word_size.eval(v) == reached(
            x.step.memory_word_size as int,
            x.code_end(),
        ),
        g.memory_expansion.gas_cost.eval(v) == expansion_cost(
            x.step.memory_word_size as int,
            x.code_end(),
        ),
        64 * g.gas_left.quotient.eval(v) + g.gas_left.remainder.eval(v) == x.step.gas_left
            - CREATE_GAS - expansion_cost(x.step.memory_word_size as int, x.code_end()),
        0 <= g.gas_left.remainder.eval(v) < 64,
        g.transfer.sender_balance.eval(v) == x.rw(13 + x.moved())->Account_value.value(),
        g.transfer.sender_balance_prev.eval(v) == x.rw(13 + x.moved())->value_prev.value(),
        g.transfer.receiver_balance.eval(v) == x.rw(14 + x.moved())->Account_value.value(),
        g.transfer.receiver_balance_prev.eval(v) == x.rw(14 + x.moved())->value_prev.value(),
{
    let givens = givens_of(g, x);
    assert(givens.len() == 19);
    assert(has_given(v, givens[5]));
    assert(has_given(v, givens[15]));
    assert(has_given(v, givens[16]));
    assert(has_given(v, givens[17]));
}

/// The transfer is given the first word that the step takes from the stack, and the balances that
/// it records. In a creation that word is what the caller's balance loses, and what the new
/// account's gains.
pub proof fn law_transfer_is_given_the_amount_moved(g: CreateGadget, x: Execution, v: Valuation)
    ensures
        exists|j: int|
            0 <= j < givens_of(g, x).len() && (#[trigger] givens_of(g, x)[j]) is Transfer
                && givens_of(g, x)[j]->Transfer_gadget == g.transfer,
        forall|j: int|
            0 <= j < givens_of(g, x).len() && (#[trigger] givens_of(g, x)[j]) is Transfer ==> {
                let given = givens_of(g, x)[j];
                let sender = given->sender_balance_pair;
                let receiver = given->receiver_balance_pair;
                &&& given->Transfer_value == x.rw(0)->Stack_value.value()
                &&& x.is_creation(v) ==> sender.1 - sender.0 == given->Transfer_value
                &&& x.is_creation(v) ==> receiver.0 - receiver.1 == given->Transfer_value
            },
{
    reveal(Execution::account_recorded);
    let givens = givens_of(g, x);
    assert(givens.len() == 19);
    assert(givens[15] is Transfer && givens[15]->Transfer_gadget == g.transfer);
}

/// The expansion of the memory is given the size that the memory has when the step starts, in
/// words, and the range that the code is read from. In a creation that is the size in the state
/// that the step starts in.
pub proof fn law_expansion_is_given_the_memory_of_the_step(
    g: CreateGadget,
    x: Execution,
    v: Valuation,
)
    ensures
        exists|j: int|
            0 <= j < givens_of(g, x).len() && (#[trigger] givens_of(g, x)[j]) is MemoryExpansion
                && givens_of(g, x)[j]->MemoryExpansion_gadget == g.memory_expansion,
        forall|j: int|
            0 <= j < givens_of(g, x).len() && (#[trigger] givens_of(g, x)[j]) is MemoryExpansion
                ==> {
                let given = givens_of(g, x)[j];
                &&& given->memory_word_size == x.step.memory_word_size
                &&& given->range == g.initialization_code
                &&& x.is_creation(v) ==> given->memory_word_size == v.memory_word_size
            },
{
    let givens = givens_of(g, x);
    assert(givens.len() == 19);
    assert(givens[16] is MemoryExpansion && givens[16]->MemoryExpansion_gadget
        == g.memory_expansion);
}

/// What a given is for.
pub enum Place {
    /// The cells from an index on, as many as are said.
    Cells(int, int),
    /// The range of memory that the code is read from.
    Code,
    /// The transfer.
    Transfer,
    /// The expansion of the memory.
    Expansion,
    /// The division of the gas.
    Division,
}

pub open spec fn place(given: Given) -> Place {
    match given {
        Given::Cell { index, .. } => Place::Cells(index, 1),
        Given::Bytes { first, n_cells, .. } => Place::Cells(first, n_cells),
        Given::MemoryAddress { .. } => Place::Code,
        Given::Transfer { .. } => Place::Transfer,
        Given::MemoryExpansion { .. } => Place::Expansion,
        Given::ConstantDivision { .. } => Place::Division,
    }
}

/// What is given is given in this order, so that where giving fails, all that comes before has
/// been given and nothing that comes after.
pub proof fn law_givens_come_in_order(g: CreateGadget, n: int, o: int, x: Execution)
    requires
        g.placed_at(n, o),
    ensures
        givens_of(g, x).map_values(|given: Given| place(given)) == seq![
            Place::Cells(g.opcode.index as int, 1),
            Place::Cells(g.is_create2.index as int, 1),
            Place::Cells(g.code_hash.index as int, 1),
            Place::Cells(g.value.first as int, 32),
            Place::Cells(g.salt.first as int, 32),
            Place::Code,
            Place::Cells(g.new_address.first as int, 20),
            Place::Cells(g.tx_id.index as int, 1),
            Place::Cells(g.reversion_info.rw_counter_end_of_reversion.index as int, 1),
            Place::Cells(g.reversion_info.is_persistent.index as int, 1),
            Place::Cells(g.was_warm.index as int, 1),
            Place::Cells(g.caller_address.first as int, 20),
            Place::Cells(g.nonce.first as int, 8),
            Place::Cells(g.callee_reversion_info.rw_counter_end_of_reversion.index as int, 1),
            Place::Cells(g.callee_reversion_info.is_persistent.index as int, 1),
            Place::Transfer,
            Place::Expansion,
            Place::Division,
            Place::Cells(g.callee_is_success.index as int, 1),
        ],
{
    assert(givens_of(g, x).len() == 19);
}

/// The cells that are given bytes are just those that are taken down as holding bytes.
pub proof fn law_bytes_are_given_to_the_byte_cells(
    g: CreateGadget,
    before: ConstraintBuilder,
    after: ConstraintBuilder,
    empty_code_hash: Seq<u8>,
    x: Execution,
    index: int,
)
    requires
        g.configured(before, after, empty_code_hash),
    ensures
        (exists|j: int|
            0 <= j < givens_of(g, x).len() && (#[trigger] givens_of(g, x)[j]) is Bytes && fills(
                givens_of(g, x)[j],
                index,
            )) <==> (exists|k: int|
            before.byte_cells@.len() <= k < after.byte_cells@.len() && (
            #[trigger] after.byte_cells@[k]).first <= index < after.byte_cells@[k].first
                + after.byte_cells@[k].n_bytes),
{
    let givens = givens_of(g, x);
    let base = before.byte_cells@.len() as int;
    assert(givens.len() == 19);
    assert(after.byte_cells@.len() == base + 5);
    assert(after.byte_cells@[base] == g.value);
    assert(after.byte_cells@[base + 1] == g.salt);
    assert(after.byte_cells@[base + 2] == g.new_address);
    assert(after.byte_cells@[base + 3] == g.caller_address);
    assert(after.byte_cells@[base + 4] == g.nonce);
    assert(givens[3] is Bytes);
    assert(givens[4] is Bytes);
    assert(givens[6] is Bytes);
    assert(givens[11] is Bytes);
    assert(givens[12] is Bytes);
}

/// A memory costs no less for being larger.
proof fn lemma_memory_cost(words: int, end: int)
    requires
        words >= 0,
    ensures
        expansion_cost(words, end) >= 0,
{
    let more = reached(words, end);
    assert(words * words <= more * more) by (nonlinear_arith)
        requires
            0 <= words <= more,
    ;
    assert(words * words / 512 <= more * more / 512);
    assert(memory_cost(words) <= memory_cost(more));
}

/// Every creation can be assigned: it records all that the gadget looks at.
#[verifier::spinoff_prover]
#[verifier::rlimit(50)]
pub proof fn law_every_creation_can_be_assigned(x: Execution, v: Valuation)
    requires
        x.is_creation(v),
    ensures
        x.step.records_create(x.block),
{
    reveal(Execution::stack_recorded);
    reveal(Execution::code_recorded);
    reveal(Execution::caller_recorded);
    reveal(Execution::account_recorded);
    reveal(Execution::saved_recorded);
    reveal(Execution::callee_recorded);
    lemma_memory_cost(x.step.memory_word_size as int, x.code_end());
    let block = x.block;
    let step = x.step;
    let m = x.moved();
    assert forall|k: int| 0 <= k < 27 + m implies step.has_rw(block, k) && #[trigger] step.rw(
        block,
        k,
    ) == x.rw(k) by {
        let _ = step.rw_indices@[k];
    }
    assert(step.rw(block, 0) == x.rw(0));
    assert(step.rw(block, 1) == x.rw(1));
    assert(step.rw(block, 2) == x.rw(2));
    assert(x.rw(0) is Stack && x.rw(1) is Stack && x.rw(2) is Stack);
    assert(step.moved(block) == m);
    if step.is_create2() {
        assert(step.rw(block, 3) == x.rw(3));
        assert(x.rw(3) is Stack);
    }
    assert forall|k: int| 4 + step.salt_width() <= k < 4 + m implies step.has_rw(block, k)
        && #[trigger] step.rw(block, k) is Memory by {
        assert(step.rw(block, k) == x.rw(k));
    }
    assert forall|k: int| 0 <= k < 3 implies step.has_rw(block, k) && #[trigger] step.rw(
        block,
        k,
    ) is Stack by {
        assert(step.rw(block, k) == x.rw(k));
    }
    assert(step.rw(block, 7 + m) == x.rw(7 + m));
    assert(step.rw(block, 9 + m) == x.rw(9 + m));
    assert(step.rw(block, 10 + m) == x.rw(10 + m));
    assert(step.rw(block, 11 + m) == x.rw(11 + m));
    assert(step.rw(block, 13 + m) == x.rw(13 + m));
    assert(step.rw(block, 14 + m) == x.rw(14 + m));
    assert(step.rw(block, 21 + m) == x.rw(21 + m));
}

/// The value that the givens have for the cell.
pub open spec fn filled(givens: Seq<Given>, index: int, randomness: int) -> int {
    let j = choose|j: int| 0 <= j < givens.len() && fills(#[trigger] givens[j], index);
    match givens[j] {
        Given::Cell { value, .. } => value.under(randomness),
        Given::Bytes { first, bytes, .. } => bytes[index - first] as int,
        _ => 0,
    }
}

/// The valuation with its cells and outputs as the step is given them. The outputs of the gadget
/// are those from `o` on.
pub open spec fn given_to(v: Valuation, g: CreateGadget, o: int, x: Execution) -> Valuation {
    let words = x.step.memory_word_size as int;
    let cost = expansion_cost(words, x.code_end());
    let gas = x.step.gas_left - CREATE_GAS - cost;
    Valuation {
        cells: |index: int| filled(givens_of(g, x), index, v.randomness),
        outputs: |index: int|
            if index == o {
                x.code_start()
            } else if index == o + 1 {
                x.code_length()
            } else if index == o + 2 {
                bit(x.code_length() != 0)
            } else if index == o + 3 {
                x.code_end()
            } else if index == o + 4 {
                x.caller_balance_pair().0
            } else if index == o + 5 {
                x.caller_balance_pair().1
            } else if index == o + 6 {
                x.callee_balance_pair().0
            } else if index == o + 7 {
                x.callee_balance_pair().1
            } else if index == o + 8 {
                cost
            } else if index == o + 9 {
                reached(words, x.code_end())
            } else if index == o + 10 {
                gas / 64
            } else {
                gas % 64
            },
        ..v
    }
}

/// What a step is given can be had, all of it at once: nothing of it contradicts the rest.
#[verifier::spinoff_prover]
#[verifier::rlimit(50)]
pub proof fn law_what_is_given_can_be_had(
    g: CreateGadget,
    n: int,
    o: int,
    x: Execution,
    v: Valuation,
)
    requires
        g.placed_at(n, o),
    ensures
        has_all(given_to(v, g, o, x), givens_of(g, x)),
{
    let w = given_to(v, g, o, x);
    let givens = givens_of(g, x);
    assert(givens.len() == 19);
    assert forall|j: int| 0 <= j < givens.len() implies has_given(w, #[trigger] givens[j]) by {
        assert forall|index: int| fills(givens[j], index) implies #[trigger] (w.cells)(index) == (
        match givens[j] {
            Given::Cell { value, .. } => value.under(v.randomness),
            Given::Bytes { first, bytes, .. } => bytes[index - first] as int,
            _ => 0,
        }) by {
            law_every_cell_is_filled_once(g, n, o, x, index);
            let k = choose|k: int| 0 <= k < givens.len() && fills(#[trigger] givens[k], index);
            assert(k == j);
        }
        law_every_cell_is_filled_once(g, n, o, x, n);
        if givens[j] is Cell {
            assert(fills(givens[j], givens[j]->Cell_index));
        } else if givens[j] is Bytes {
            let first = givens[j]->first;
            let bytes = givens[j]->Bytes_bytes;
            assert forall|index: int|
                #![trigger (w.cells)(index)]
                first <= index < first + givens[j]->n_cells implies (w.cells)(index)
                == bytes[index - first] by {
                assert(fills(givens[j], index));
            }
        }
    }
}

/// Every creation has a witness: with the cells and outputs as the step is given them, and the
/// state that the step starts in, every constraint is met.
#[verifier::spinoff_prover]
#[verifier::rlimit(50)]
pub proof fn law_every_creation_has_a_witness(
    g: CreateGadget,
    n: int,
    o: int,
    x: Execution,
    v: Valuation,
    i: int,
)
    requires
        g.placed_at(n, o),
        x.is_creation(v),
        x.is_readable(v.randomness),
        0 <= i < 38,
    ensures
        has_all(given_to(v, g, o, x), givens_of(g, x)),
        create_rows(g, code_hash_le(Seq::empty()), given_to(v, g, o, x), 0, 0).len() == 38,
        met(
            x,
            create_rows(g, code_hash_le(Seq::empty()), given_to(v, g, o, x), 0, 0)[i],
            given_to(v, g, o, x),
        ),
{
    let w = given_to(v, g, o, x);
    law_what_is_given_can_be_had(g, n, o, x, v);
    assert(x.is_creation(w)) by {
        reveal(Execution::stack_recorded);
        reveal(Execution::code_recorded);
        reveal(Execution::caller_recorded);
        reveal(Execution::account_recorded);
        reveal(Execution::saved_recorded);
        reveal(Execution::callee_recorded);
        reveal(Execution::next_recorded);
    }
    assert(create_rows(g, code_hash_le(Seq::empty()), w, 0, 0).len() == 38);
    law_a_creation_meets_every_constraint(g, n, o, x, w, i);
}

} // verus!
