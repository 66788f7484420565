//! What a step requires of its witness, and how far the requirements move the counters.
use crate::expression::{Expression, Valuation};
use vstd::prelude::*;

verus! {

/// The fields of a call that can be read and written.
#[derive(Clone, Copy, Debug, PartialEq, Eq, Structural)]
pub enum CallContextFieldTag {
    TxId,
    RwCounterEndOfReversion,
    IsPersistent,
    CallerId,
    CallerAddress,
    CalleeAddress,
    IsSuccess,
    ProgramCounter,
    StackPointer,
    GasLeft,
    MemorySize,
    ReversibleWriteCounter,
}

/// The fields of an account that can be written.
#[derive(Clone, Copy, Debug, PartialEq, Eq, Structural)]
pub enum AccountFieldTag {
    Nonce,
    Balance,
}

/// What a copy reads from and writes to.
#[derive(Clone, Copy, Debug, PartialEq, Eq, Structural)]
pub enum CopyDataType {
    Memory,
    Bytecode,
}

/// Where a reversible write is undone, should the call revert.
#[derive(Debug)]
pub struct Reversion<E> {
    /// The number of the write that undoes it.
    pub rw_counter: E,
    /// 1 where the call does not revert, and nothing is undone; else 0.
    pub is_persistent: E,
}

/// How a field of the step's state goes over into the next step.
#[derive(Debug)]
pub enum Transition<E> {
    /// It grows by this much.
    Delta(E),
    /// It becomes this.
    To(E),
}

/// How the fields of the step's state go over into the next step that have no transition of their
/// own: the program counter, the stack pointer and the size of the memory among them.
#[derive(Clone, Copy, Debug, PartialEq, Eq, Structural)]
pub enum OtherFields {
    /// They stay as they are.
    Same,
    /// They become those of a call at its start.
    NewContext,
}

/// The state of the step after this one.
#[derive(Debug)]
pub struct StepStateTransition<E> {
    pub rw_counter: Transition<E>,
    pub call_id: Transition<E>,
    pub is_root: Transition<E>,
    pub is_create: Transition<E>,
    pub code_hash: Transition<E>,
    pub gas_left: Transition<E>,
    pub reversible_write_counter: Transition<E>,
    /// All that is not named.
    pub others: OtherFields,
}

/// One thing that is required of a step, in terms of polynomials or of their values.
#[derive(Debug)]
#[allow(inconsistent_fields)]
pub enum Requirement<E> {
    /// The value is 0 or 1.
    Boolean { value: E },
    /// The two values are the same.
    Equal { name: &'static str, left: E, right: E },
    /// The byte of the code at the program counter, code and not data where `is_code` is 1.
    Opcode { opcode: E, is_code: E },
    /// A read or write of the stack of the current call.
    Stack { rw_counter: E, is_write: bool, stack_pointer: E, value: E },
    /// A read or write of a field of a call.
    CallContext {
        rw_counter: E,
        is_write: E,
        call_id: E,
        field_tag: CallContextFieldTag,
        value: E,
    },
    /// A reversible write of whether a transaction has accessed an account.
    AccountAccessList {
        rw_counter: E,
        tx_id: E,
        account_address: E,
        value: E,
        value_prev: E,
        reversion: Reversion<E>,
    },
    /// A reversible write of a field of an account.
    Account {
        rw_counter: E,
        account_address: E,
        field_tag: AccountFieldTag,
        value: E,
        value_prev: E,
        reversion: Reversion<E>,
    },
    /// Two reversible writes of balances, the sender's first, that move the value. The first of
    /// them is undone where `reversion` says, the second one place before.
    Transfer {
        rw_counter: E,
        sender_address: E,
        receiver_address: E,
        value: E,
        sender_balance: E,
        sender_balance_prev: E,
        receiver_balance: E,
        receiver_balance_prev: E,
        reversion: Reversion<E>,
    },
    /// A copy, which makes `rwc_inc` reads and writes.
    Copy {
        rw_counter: E,
        src_id: E,
        src_tag: CopyDataType,
        dst_id: E,
        dst_tag: CopyDataType,
        src_addr: E,
        src_addr_end: E,
        dst_addr: E,
        length: E,
        rlc_acc: E,
        rwc_inc: E,
    },
    /// A range of memory: `has_length` is 1 where it is not empty, else 0, and `address` is where
    /// it ends.
    MemoryAddress { offset: E, length: E, has_length: E, address: E },
    /// The memory grows to reach the address, at the cost and to the size given.
    MemoryExpansion { address: E, gas_cost: E, next_memory_word_size: E },
    /// The quotient and the remainder are those of the division.
    ConstantDivision { numerator: E, denominator: u64, quotient: E, remainder: E },
    /// The state that the next step starts in.
    StepState { transition: StepStateTransition<E> },
}

/// A requirement, and the condition that it is made under.
#[derive(Debug)]
pub struct Constraint<E> {
    /// The requirement is made where this is 1 and not where it is 0. With none, it is made.
    pub condition: Option<E>,
    pub requirement: Requirement<E>,
}

impl Reversion<Expression> {
    pub open spec fn at(self, v: Valuation) -> Reversion<int> {
        Reversion {
            rw_counter: self.rw_counter.eval(v),
            is_persistent: self.is_persistent.eval(v),
        }
    }
}

impl Transition<Expression> {
    pub open spec fn at(self, v: Valuation) -> Transition<int> {
        match self {
            Transition::Delta(e) => Transition::Delta(e.eval(v)),
            Transition::To(e) => Transition::To(e.eval(v)),
        }
    }
}

impl StepStateTransition<Expression> {
    pub open spec fn at(self, v: Valuation) -> StepStateTransition<int> {
        StepStateTransition {
            rw_counter: self.rw_counter.at(v),
            call_id: self.call_id.at(v),
            is_root: self.is_root.at(v),
            is_create: self.is_create.at(v),
            code_hash: self.code_hash.at(v),
            gas_left: self.gas_left.at(v),
            reversible_write_counter: self.reversible_write_counter.at(v),
            others: self.others,
        }
    }
}

impl Requirement<Expression> {
    /// The requirement with the values that the polynomials take.
    pub open spec fn at(self, v: Valuation) -> Requirement<int> {
        match self {
            Requirement::Boolean { value } => Requirement::Boolean { value: value.eval(v) },
            Requirement::Equal { name, left, right } => Requirement::Equal {
                name,
                left: left.eval(v),
                right: right.eval(v),
            },
            Requirement::Opcode { opcode, is_code } => Requirement::Opcode {
                opcode: opcode.eval(v),
                is_code: is_code.eval(v),
            },
            Requirement::Stack { rw_counter, is_write, stack_pointer, value } => {
                Requirement::Stack {
                    rw_counter: rw_counter.eval(v),
                    is_write,
                    stack_pointer: stack_pointer.eval(v),
                    value: value.eval(v),
                }
            },
            Requirement::CallContext { rw_counter, is_write, call_id, field_tag, value } => {
                Requirement::CallContext {
                    rw_counter: rw_counter.eval(v),
                    is_write: is_write.eval(v),
                    call_id: call_id.eval(v),
                    field_tag,
                    value: value.eval(v),
                }
            },
            Requirement::AccountAccessList {
                rw_counter,
                tx_id,
                account_address,
                value,
                value_prev,
                reversion,
            } => Requirement::AccountAccessList {
                rw_counter: rw_counter.eval(v),
                tx_id: tx_id.eval(v),
                account_address: account_address.eval(v),
                value: value.eval(v),
                value_prev: value_prev.eval(v),
                reversion: reversion.at(v),
            },
            Requirement::Account {
                rw_counter,
                account_address,
                field_tag,
                value,
                value_prev,
                reversion,
            } => Requirement::Account {
                rw_counter: rw_counter.eval(v),
                account_address: account_address.eval(v),
                field_tag,
                value: value.eval(v),
                value_prev: value_prev.eval(v),
                reversion: reversion.at(v),
            },
            Requirement::Transfer {
                rw_counter,
                sender_address,
                receiver_address,
                value,
                sender_balance,
                sender_balance_prev,
                receiver_balance,
                receiver_balance_prev,
                reversion,
            } => Requirement::Transfer {
                rw_counter: rw_counter.eval(v),
                sender_address: sender_address.eval(v),
                receiver_address: receiver_address.eval(v),
                value: value.eval(v),
                sender_balance: sender_balance.eval(v),
                sender_balance_prev: sender_balance_prev.eval(v),
                receiver_balance: receiver_balance.eval(v),
                receiver_balance_prev: receiver_balance_prev.eval(v),
                reversion: reversion.at(v),
            },
            Requirement::Copy {
                rw_counter,
                src_id,
                src_tag,
                dst_id,
                dst_tag,
                src_addr,
                src_addr_end,
                dst_addr,
                length,
                rlc_acc,
                rwc_inc,
            } => Requirement::Copy {
                rw_counter: rw_counter.eval(v),
                src_id: src_id.eval(v),
                src_tag,
                dst_id: dst_id.eval(v),
                dst_tag,
                src_addr: src_addr.eval(v),
                src_addr_end: src_addr_end.eval(v),
                dst_addr: dst_addr.eval(v),
                length: length.eval(v),
                rlc_acc: rlc_acc.eval(v),
                rwc_inc: rwc_inc.eval(v),
            },
            Requirement::MemoryAddress { offset, length, has_length, address } => {
                Requirement::MemoryAddress {
                    offset: offset.eval(v),
                    length: length.eval(v),
                    has_length: has_length.eval(v),
                    address: address.eval(v),
                }
            },
            Requirement::MemoryExpansion { address, gas_cost, next_memory_word_size } => {
                Requirement::MemoryExpansion {
                    address: address.eval(v),
                    gas_cost: gas_cost.eval(v),
                    next_memory_word_size: next_memory_word_size.eval(v),
                }
            },
            Requirement::ConstantDivision { numerator, denominator, quotient, remainder } => {
                Requirement::ConstantDivision {
                    numerator: numerator.eval(v),
                    denominator,
                    quotient: quotient.eval(v),
                    remainder: remainder.eval(v),
                }
            },
            Requirement::StepState { transition } => Requirement::StepState {
                transition: transition.at(v),
            },
        }
    }
}

/// The transition with its value is the same one.
pub open spec fn is_valued(
    transition: Transition<Expression>,
    valued: Transition<int>,
    v: Valuation,
) -> bool {
    match (transition, valued) {
        (Transition::Delta(e), Transition::Delta(by)) => by == e.eval(v),
        (Transition::To(e), Transition::To(value)) => value == e.eval(v),
        _ => false,
    }
}

/// A requirement with the values that the polynomials take is the same requirement, of the value
/// of each of its polynomials in that polynomial's place.
pub proof fn law_values_stand_for_their_polynomials(
    requirement: Requirement<Expression>,
    v: Valuation,
)
    ensures
        requirement is Boolean ==> {
            &&& requirement.at(v) is Boolean
            &&& requirement.at(v)->Boolean_value == requirement->Boolean_value.eval(v)
        },
        requirement is Equal ==> {
            &&& requirement.at(v) is Equal
            &&& requirement.at(v)->left == requirement->left.eval(v)
            &&& requirement.at(v)->right == requirement->right.eval(v)
            &&& requirement.at(v)->name == requirement->name
        },
        requirement is Opcode ==> {
            &&& requirement.at(v) is Opcode
            &&& requirement.at(v)->opcode == requirement->opcode.eval(v)
            &&& requirement.at(v)->is_code == requirement->is_code.eval(v)
        },
        requirement is Stack ==> {
            &&& requirement.at(v) is Stack
            &&& requirement.at(v)->Stack_rw_counter == requirement->Stack_rw_counter.eval(v)
            &&& requirement.at(v)->stack_pointer == requirement->stack_pointer.eval(v)
            &&& requirement.at(v)->Stack_value == requirement->Stack_value.eval(v)
            &&& requirement.at(v)->Stack_is_write == requirement->Stack_is_write
        },
        requirement is CallContext ==> {
            &&& requirement.at(v) is CallContext
            &&& requirement.at(v)->CallContext_rw_counter
                == requirement->CallContext_rw_counter.eval(v)
            &&& requirement.at(v)->CallContext_is_write == requirement->CallContext_is_write.eval(v)
            &&& requirement.at(v)->call_id == requirement->call_id.eval(v)
            &&& requirement.at(v)->CallContext_value == requirement->CallContext_value.eval(v)
            &&& requirement.at(v)->CallContext_field_tag == requirement->CallContext_field_tag
        },
        requirement is AccountAccessList ==> {
            &&& requirement.at(v) is AccountAccessList
            &&& requirement.at(v)->AccountAccessList_rw_counter
                == requirement->AccountAccessList_rw_counter.eval(v)
            &&& requirement.at(v)->tx_id == requirement->tx_id.eval(v)
            &&& requirement.at(v)->AccountAccessList_account_address
                == requirement->AccountAccessList_account_address.eval(v)
            &&& requirement.at(v)->AccountAccessList_value
                == requirement->AccountAccessList_value.eval(v)
            &&& requirement.at(v)->AccountAccessList_value_prev
                == requirement->AccountAccessList_value_prev.eval(v)
            &&& requirement.at(v)->AccountAccessList_reversion.rw_counter
                == requirement->AccountAccessList_reversion.rw_counter.eval(v)
            &&& requirement.at(v)->AccountAccessList_reversion.is_persistent
                == requirement->AccountAccessList_reversion.is_persistent.eval(v)
        },
        requirement is Account ==> {
            &&& requirement.at(v) is Account
            &&& requirement.at(v)->Account_rw_counter == requirement->Account_rw_counter.eval(v)
            &&& requirement.at(v)->Account_account_address
                == requirement->Account_account_address.eval(v)
            &&& requirement.at(v)->Account_value == requirement->Account_value.eval(v)
            &&& requirement.at(v)->Account_value_prev == requirement->Account_value_prev.eval(v)
            &&& requirement.at(v)->Account_field_tag == requirement->Account_field_tag
            &&& requirement.at(v)->Account_reversion.rw_counter
                == requirement->Account_reversion.rw_counter.eval(v)
            &&& requirement.at(v)->Account_reversion.is_persistent
                == requirement->Account_reversion.is_persistent.eval(v)
        },
        requirement is Transfer ==> {
            &&& requirement.at(v) is Transfer
            &&& requirement.at(v)->Transfer_rw_counter == requirement->Transfer_rw_counter.eval(v)
            &&& requirement.at(v)->sender_address == requirement->sender_address.eval(v)
            &&& requirement.at(v)->receiver_address == requirement->receiver_address.eval(v)
            &&& requirement.at(v)->Transfer_value == requirement->Transfer_value.eval(v)
            &&& requirement.at(v)->sender_balance == requirement->sender_balance.eval(v)
            &&& requirement.at(v)->sender_balance_prev == requirement->sender_balance_prev.eval(v)
            &&& requirement.at(v)->receiver_balance == requirement->receiver_balance.eval(v)
            &&& requirement.at(v)->receiver_balance_prev
                == requirement->receiver_balance_prev.eval(v)
            &&& requirement.at(v)->Transfer_reversion.rw_counter
                == requirement->Transfer_reversion.rw_counter.eval(v)
            &&& requirement.at(v)->Transfer_reversion.is_persistent
                == requirement->Transfer_reversion.is_persistent.eval(v)
        },
        requirement is Copy ==> {
            &&& requirement.at(v) is Copy
            &&& requirement.at(v)->Copy_rw_counter == requirement->Copy_rw_counter.eval(v)
            &&& requirement.at(v)->src_id == requirement->src_id.eval(v)
            &&& requirement.at(v)->dst_id == requirement->dst_id.eval(v)
            &&& requirement.at(v)->src_addr == requirement->src_addr.eval(v)
            &&& requirement.at(v)->src_addr_end == requirement->src_addr_end.eval(v)
            &&& requirement.at(v)->dst_addr == requirement->dst_addr.eval(v)
            &&& requirement.at(v)->Copy_length == requirement->Copy_length.eval(v)
            &&& requirement.at(v)->rlc_acc == requirement->rlc_acc.eval(v)
            &&& requirement.at(v)->rwc_inc == requirement->rwc_inc.eval(v)
            &&& requirement.at(v)->src_tag == requirement->src_tag
            &&& requirement.at(v)->dst_tag == requirement->dst_tag
        },
        requirement is MemoryAddress ==> {
            &&& requirement.at(v) is MemoryAddress
            &&& requirement.at(v)->offset == requirement->offset.eval(v)
            &&& requirement.at(v)->MemoryAddress_length == requirement->MemoryAddress_length.eval(v)
            &&& requirement.at(v)->has_length == requirement->has_length.eval(v)
            &&& requirement.at(v)->MemoryAddress_address
                == requirement->MemoryAddress_address.eval(v)
        },
        requirement is MemoryExpansion ==> {
            &&& requirement.at(v) is MemoryExpansion
            &&& requirement.at(v)->MemoryExpansion_address
                == requirement->MemoryExpansion_address.eval(v)
            &&& requirement.at(v)->gas_cost == requirement->gas_cost.eval(v)
            &&& requirement.at(v)->next_memory_word_size
                == requirement->next_memory_word_size.eval(v)
        },
        requirement is ConstantDivision ==> {
            &&& requirement.at(v) is ConstantDivision
            &&& requirement.at(v)->numerator == requirement->numerator.eval(v)
            &&& requirement.at(v)->quotient == requirement->quotient.eval(v)
            &&& requirement.at(v)->remainder == requirement->remainder.eval(v)
            &&& requirement.at(v)->denominator == requirement->denominator
        },
        requirement is StepState ==> {
            let next = requirement->transition;
            let values = requirement.at(v)->transition;
            &&& requirement.at(v) is StepState
            &&& is_valued(next.rw_counter, values.rw_counter, v)
            &&& is_valued(next.call_id, values.call_id, v)
            &&& is_valued(next.is_root, values.is_root, v)
            &&& is_valued(next.is_create, values.is_create, v)
            &&& is_valued(next.code_hash, values.code_hash, v)
            &&& is_valued(next.gas_left, values.gas_left, v)
            &&& is_valued(next.reversible_write_counter, values.reversible_write_counter, v)
            &&& values.others == next.others
        },
{
}

/// The value of a condition.
pub open spec fn condition_at(condition: Option<Expression>, v: Valuation) -> Option<int> {
    match condition {
        Some(e) => Some(e.eval(v)),
        None => None,
    }
}

/// How much a thing that stands under the condition counts: 1 without one.
pub open spec fn weight(condition: Option<int>) -> int {
    match condition {
        Some(c) => c,
        None => 1,
    }
}

impl Constraint<Expression> {
    /// The constraint with the values that the polynomials take.
    pub open spec fn at(self, v: Valuation) -> Constraint<int> {
        Constraint {
            condition: condition_at(self.condition, v),
            requirement: self.requirement.at(v),
        }
    }
}

impl Constraint<int> {
    /// How many reads and writes the requirement makes.
    pub open spec fn rw_width(self) -> int {
        match self.requirement {
            Requirement::Stack { .. } => weight(self.condition),
            Requirement::CallContext { .. } => weight(self.condition),
            Requirement::AccountAccessList { .. } => weight(self.condition),
            Requirement::Account { .. } => weight(self.condition),
            Requirement::Transfer { .. } => 2 * weight(self.condition),
            Requirement::Copy { rwc_inc, .. } => rwc_inc,
            _ => 0,
        }
    }

    /// How far the requirement moves the stack pointer: up where a value is taken from the
    /// stack, down where one is put on it.
    pub open spec fn stack_shift(self) -> int {
        match self.requirement {
            Requirement::Stack { is_write, .. } => if is_write {
                -weight(self.condition)
            } else {
                weight(self.condition)
            },
            _ => 0,
        }
    }

    /// The number of the first read or write that the requirement makes, if it makes any.
    pub open spec fn first_rw(self) -> Option<int> {
        match self.requirement {
            Requirement::Stack { rw_counter, .. } => Some(rw_counter),
            Requirement::CallContext { rw_counter, .. } => Some(rw_counter),
            Requirement::AccountAccessList { rw_counter, .. } => Some(rw_counter),
            Requirement::Account { rw_counter, .. } => Some(rw_counter),
            Requirement::Transfer { rw_counter, .. } => Some(rw_counter),
            Requirement::Copy { rw_counter, .. } => Some(rw_counter),
            _ => None,
        }
    }
}

/// How many reads and writes the constraints make together.
#[verifier::opaque]
pub open spec fn rw_total(rows: Seq<Constraint<int>>) -> int
    decreases rows.len(),
{
    if rows.len() == 0 {
        0
    } else {
        rw_total(rows.drop_last()) + rows.last().rw_width()
    }
}

/// How far the constraints move the stack pointer together.
#[verifier::opaque]
pub open spec fn stack_total(rows: Seq<Constraint<int>>) -> int
    decreases rows.len(),
{
    if rows.len() == 0 {
        0
    } else {
        stack_total(rows.drop_last()) + rows.last().stack_shift()
    }
}

/// The constraint, after the others, makes its first read or write at the number that follows
/// theirs, and takes from the stack or puts on it where they have left the pointer.
pub open spec fn follows(rows: Seq<Constraint<int>>, row: Constraint<int>, v: Valuation) -> bool {
    &&& row.first_rw() matches Some(n) ==> n == v.rw_counter + rw_total(rows)
    &&& row.requirement matches Requirement::Stack { is_write, stack_pointer, .. } ==> {
        stack_pointer == v.stack_pointer + stack_total(rows) + (if is_write {
            row.stack_shift()
        } else {
            0
        })
    }
}

/// One more constraint adds what it makes and moves by itself.
pub proof fn lemma_totals_push(rows: Seq<Constraint<int>>, row: Constraint<int>)
    ensures
        rw_total(rows.push(row)) == rw_total(rows) + row.rw_width(),
        stack_total(rows.push(row)) == stack_total(rows) + row.stack_shift(),
{
    reveal(rw_total);
    reveal(stack_total);
    assert(rows.push(row).drop_last() =~= rows);
}

/// Each constraint stands where those before it leave off.
#[verifier::opaque]
pub open spec fn in_turn(rows: Seq<Constraint<int>>, v: Valuation) -> bool {
    forall|i: int| 0 <= i < rows.len() ==> follows(rows.take(i), #[trigger] rows[i], v)
}

/// One more constraint that follows the others leaves all in their turn.
pub proof fn lemma_in_turn_push(rows: Seq<Constraint<int>>, row: Constraint<int>, v: Valuation)
    requires
        in_turn(rows, v),
        follows(rows, row, v),
    ensures
        in_turn(rows.push(row), v),
{
    reveal(in_turn);
    let all = rows.push(row);
    assert forall|i: int| 0 <= i < all.len() implies follows(
        all.take(i),
        #[trigger] all[i],
        v,
    ) by {
        if i < rows.len() {
            assert(all.take(i) =~= rows.take(i));
            assert(all[i] == rows[i]);
        } else {
            assert(all.take(i) =~= rows);
        }
    }
}

} // verus!
