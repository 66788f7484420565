//! The record of what a step requires.
use crate::constraint::{
    condition_at, follows, in_turn, lemma_in_turn_push, lemma_totals_push, rw_total, stack_total,
    weight, AccountFieldTag, CallContextFieldTag, Constraint, CopyDataType, Requirement, Reversion,
    StepStateTransition,
};
use crate::expression::{Cell, Expression, Output, RandomLinearCombination, Valuation, Variable};
use crate::radix::combine;
use vstd::prelude::*;

verus! {

/// Takes down, one after the other, the constraints of a step. It numbers the reads and writes
/// that they make, and keeps track of the stack pointer.
pub struct ConstraintBuilder {
    pub constraints: Vec<Constraint<Expression>>,
    /// The number of cells handed out.
    pub n_cells: usize,
    /// The cells handed out for numbers, each of which holds a byte, in the order of the numbers.
    pub byte_cells: Vec<RandomLinearCombination>,
    /// The number of outputs handed out.
    pub n_outputs: usize,
    /// What the constraints stand under from here on.
    pub condition: Option<Expression>,
    /// The number of reads and writes so far.
    pub rw_counter_offset: Expression,
    /// How far the stack pointer has moved so far.
    pub stack_pointer_offset: Expression,
}

/// The cells that tell where the writes of a call are undone, and how many writes it has made.
#[derive(Debug)]
pub struct ReversionInfo {
    /// The number that the undoing of the call ends at.
    pub rw_counter_end_of_reversion: Cell,
    /// 1 where the call does not revert.
    pub is_persistent: Cell,
    /// The reversible writes of the call so far.
    pub reversible_write_counter: Expression,
}

impl Clone for ReversionInfo {
    fn clone(&self) -> (result: ReversionInfo)
        ensures
            result == *self,
    {
        ReversionInfo {
            rw_counter_end_of_reversion: self.rw_counter_end_of_reversion,
            is_persistent: self.is_persistent,
            reversible_write_counter: self.reversible_write_counter.dup(),
        }
    }
}

/// A range of memory, as the step makes use of it.
#[derive(Clone, Copy, Debug, PartialEq, Eq)]
pub struct MemoryAddressGadget {
    /// Where the range starts.
    pub offset: Output,
    pub length: Output,
    /// 1 where the range is not empty, else 0.
    pub has_length: Output,
    /// Where the range ends.
    pub address: Output,
}

impl MemoryAddressGadget {
    /// The outputs are those from `n` on.
    pub open spec fn placed_at(self, n: int) -> bool {
        &&& self.offset.index == n
        &&& self.length.index == n + 1
        &&& self.has_length.index == n + 2
        &&& self.address.index == n + 3
    }

    pub open spec fn requirement(self, v: Valuation) -> Requirement<int> {
        Requirement::MemoryAddress {
            offset: self.offset.eval(v),
            length: self.length.eval(v),
            has_length: self.has_length.eval(v),
            address: self.address.eval(v),
        }
    }
}

/// A transfer, as the step makes use of it.
#[derive(Clone, Copy, Debug, PartialEq, Eq)]
pub struct TransferGadget {
    /// The sender's balance after the transfer.
    pub sender_balance: Output,
    /// The sender's balance before it.
    pub sender_balance_prev: Output,
    /// The receiver's balance after the transfer.
    pub receiver_balance: Output,
    /// The receiver's balance before it.
    pub receiver_balance_prev: Output,
}

impl TransferGadget {
    /// The outputs are those from `n` on.
    pub open spec fn placed_at(self, n: int) -> bool {
        &&& self.sender_balance.index == n
        &&& self.sender_balance_prev.index == n + 1
        &&& self.receiver_balance.index == n + 2
        &&& self.receiver_balance_prev.index == n + 3
    }

    pub open spec fn requirement(
        self,
        rw_counter: int,
        sender_address: int,
        receiver_address: int,
        value: int,
        reversion: Reversion<int>,
        v: Valuation,
    ) -> Requirement<int> {
        Requirement::Transfer {
            rw_counter,
            sender_address,
            receiver_address,
            value,
            sender_balance: self.sender_balance.eval(v),
            sender_balance_prev: self.sender_balance_prev.eval(v),
            receiver_balance: self.receiver_balance.eval(v),
            receiver_balance_prev: self.receiver_balance_prev.eval(v),
            reversion,
        }
    }
}

/// An expansion of the memory, as the step makes use of it.
#[derive(Clone, Copy, Debug, PartialEq, Eq)]
pub struct MemoryExpansionGadget {
    /// What the expansion costs.
    pub gas_cost: Output,
    /// The size of the memory afterwards, in words.
    pub next_memory_word_size: Output,
}

impl MemoryExpansionGadget {
    /// The outputs are those from `n` on.
    pub open spec fn placed_at(self, n: int) -> bool {
        &&& self.gas_cost.index == n
        &&& self.next_memory_word_size.index == n + 1
    }

    pub open spec fn requirement(self, address: int, v: Valuation) -> Requirement<int> {
        Requirement::MemoryExpansion {
            address,
            gas_cost: self.gas_cost.eval(v),
            next_memory_word_size: self.next_memory_word_size.eval(v),
        }
    }
}

/// A division by a constant, as the step makes use of it.
#[derive(Clone, Copy, Debug, PartialEq, Eq)]
pub struct ConstantDivisionGadget {
    pub quotient: Output,
    pub remainder: Output,
}

impl ConstantDivisionGadget {
    /// The outputs are those from `n` on.
    pub open spec fn placed_at(self, n: int) -> bool {
        &&& self.quotient.index == n
        &&& self.remainder.index == n + 1
    }

    pub open spec fn requirement(
        self,
        numerator: int,
        denominator: u64,
        v: Valuation,
    ) -> Requirement<int> {
        Requirement::ConstantDivision {
            numerator,
            denominator,
            quotient: self.quotient.eval(v),
            remainder: self.remainder.eval(v),
        }
    }
}

/// The value of the polynomial, and 0 without one.
pub open spec fn value_or_zero(expression: Option<Expression>, v: Valuation) -> int {
    match expression {
        Some(e) => e.eval(v),
        None => 0,
    }
}

/// The call that an optional id names: the current one without.
pub open spec fn call_id_at(call_id: Option<Expression>, v: Valuation) -> int {
    match call_id {
        Some(e) => e.eval(v),
        None => v.call_id,
    }
}

impl ReversionInfo {
    /// Where the next reversible write is undone.
    pub open spec fn next(self, v: Valuation) -> Reversion<int> {
        Reversion {
            rw_counter: self.rw_counter_end_of_reversion.eval(v)
                - self.reversible_write_counter.eval(v),
            is_persistent: self.is_persistent.eval(v),
        }
    }

    /// The same call, `n` reversible writes later.
    pub open spec fn later(self, other: ReversionInfo, n: spec_fn(Valuation) -> int) -> bool {
        &&& self.rw_counter_end_of_reversion == other.rw_counter_end_of_reversion
        &&& self.is_persistent == other.is_persistent
        &&& forall|v: Valuation|
            #![trigger self.reversible_write_counter.eval(v)]
            self.reversible_write_counter.eval(v) == other.reversible_write_counter.eval(v) + n(v)
    }

    /// Where the next reversible write is undone, and counts `n` writes.
    fn advance(&mut self, n: Expression) -> (reversion: Reversion<Expression>)
        ensures
            forall|v: Valuation| #![trigger reversion.at(v)] reversion.at(v) == old(self).next(v),
            final(self).later(*old(self), |v: Valuation| n.eval(v)),
    {
        let reversion = Reversion {
            rw_counter: self.rw_counter_end_of_reversion.expr().minus(
                self.reversible_write_counter.dup(),
            ),
            is_persistent: self.is_persistent.expr(),
        };
        self.reversible_write_counter = self.reversible_write_counter.dup().plus(n);
        reversion
    }
}

/// The cells handed out and the condition do not bear on the constraints so far.
proof fn lemma_same_rows(after: ConstraintBuilder, before: ConstraintBuilder)
    requires
        before.wf(),
        after.n_outputs == before.n_outputs,
        after.constraints == before.constraints,
        after.rw_counter_offset == before.rw_counter_offset,
        after.stack_pointer_offset == before.stack_pointer_offset,
    ensures
        after.same_rows(before),
{
    assert forall|v: Valuation| #![trigger after.rows(v)] after.rows(v) == before.rows(v) by {
        assert(after.rows(v) =~= before.rows(v));
    }
}

impl ConstraintBuilder {
    /// The constraints so far, with the values that the polynomials take.
    pub open spec fn rows(self, v: Valuation) -> Seq<Constraint<int>> {
        Seq::new(self.constraints@.len(), |i: int| self.constraints@[i].at(v))
    }

    /// The offsets are those of the constraints so far, and each constraint stands where those
    /// before it leave off.
    pub open spec fn wf(self) -> bool {
        forall|v: Valuation|
            #![trigger self.rows(v)]
            {
                &&& self.rw_counter_offset.eval(v) == rw_total(self.rows(v))
                &&& self.stack_pointer_offset.eval(v) == stack_total(self.rows(v))
                &&& in_turn(self.rows(v), v)
            }
    }

    /// `self` has all that `other` has, and then the one requirement.
    pub open spec fn extends(
        self,
        other: ConstraintBuilder,
        requirement: spec_fn(Valuation) -> Requirement<int>,
    ) -> bool {
        &&& self.n_outputs == other.n_outputs
        &&& self.extends_with_outputs(other, requirement)
    }

    /// `self` has all that `other` has, and then the one requirement, for which outputs may have
    /// been handed out.
    pub open spec fn extends_with_outputs(
        self,
        other: ConstraintBuilder,
        requirement: spec_fn(Valuation) -> Requirement<int>,
    ) -> bool {
        &&& self.wf()
        &&& self.condition == other.condition
        &&& self.byte_cells@ == other.byte_cells@
        &&& forall|v: Valuation|
            #![trigger self.rows(v)]
            {
                let row = Constraint {
                    condition: condition_at(other.condition, v),
                    requirement: requirement(v),
                };
                &&& self.rows(v) == other.rows(v).push(row)
                &&& rw_total(self.rows(v)) == rw_total(other.rows(v)) + row.rw_width()
                &&& stack_total(self.rows(v)) == stack_total(other.rows(v)) + row.stack_shift()
            }
    }

    /// Nothing but the cells handed out and the condition differs.
    pub open spec fn same_rows(self, other: ConstraintBuilder) -> bool {
        &&& self.wf()
        &&& self.n_outputs == other.n_outputs
        &&& self.constraints == other.constraints
        &&& forall|v: Valuation| #![trigger self.rows(v)] self.rows(v) == other.rows(v)
    }

    /// `self` has all that `other` has, and then the two fields of the call that say where its
    /// writes are undone.
    pub open spec fn extends_by_reversion(
        self,
        other: ConstraintBuilder,
        call_id: Option<Expression>,
        is_write: bool,
        info: ReversionInfo,
    ) -> bool {
        &&& self.wf()
        &&& self.condition == other.condition
        &&& self.byte_cells@ == other.byte_cells@
        &&& self.n_outputs == other.n_outputs
        &&& forall|v: Valuation|
            #![trigger self.rows(v)]
            {
                let condition = condition_at(other.condition, v);
                let first = v.rw_counter + rw_total(other.rows(v));
                let write = if is_write {
                    1int
                } else {
                    0int
                };
                &&& self.rows(v) == other.rows(v).push(
                    Constraint {
                        condition,
                        requirement: Requirement::CallContext {
                            rw_counter: first,
                            is_write: write,
                            call_id: call_id_at(call_id, v),
                            field_tag: CallContextFieldTag::RwCounterEndOfReversion,
                            value: info.rw_counter_end_of_reversion.eval(v),
                        },
                    },
                ).push(
                    Constraint {
                        condition,
                        requirement: Requirement::CallContext {
                            rw_counter: first + weight(condition),
                            is_write: write,
                            call_id: call_id_at(call_id, v),
                            field_tag: CallContextFieldTag::IsPersistent,
                            value: info.is_persistent.eval(v),
                        },
                    },
                )
                &&& rw_total(self.rows(v)) == rw_total(other.rows(v)) + 2 * weight(condition)
                &&& stack_total(self.rows(v)) == stack_total(other.rows(v))
            }
    }

    /// A builder with nothing taken down.
    pub fn new() -> (builder: ConstraintBuilder)
        ensures
            builder.wf(),
            builder.n_cells == 0,
            builder.n_outputs == 0,
            builder.byte_cells@.len() == 0,
            builder.condition is None,
            builder.constraints@.len() == 0,
            forall|v: Valuation|
                #![trigger builder.rows(v)]
                {
                    &&& builder.rows(v).len() == 0
                    &&& rw_total(builder.rows(v)) == 0
                    &&& stack_total(builder.rows(v)) == 0
                },
    {
        let builder = ConstraintBuilder {
            constraints: Vec::new(),
            n_cells: 0,
            byte_cells: Vec::new(),
            n_outputs: 0,
            condition: None,
            rw_counter_offset: Expression::constant(0),
            stack_pointer_offset: Expression::constant(0),
        };
        proof {
            reveal(in_turn);
            reveal(rw_total);
            reveal(stack_total);
        }
        builder
    }

    /// Takes down one requirement under the current condition, which makes `width` reads and
    /// writes and moves the stack pointer by `shift`.
    fn record(
        &mut self,
        requirement: Requirement<Expression>,
        width: Option<Expression>,
        shift: Option<Expression>,
    )
        requires
            old(self).wf(),
            forall|v: Valuation|
                #![trigger requirement.at(v)]
                {
                    let row = Constraint {
                        condition: condition_at(old(self).condition, v),
                        requirement: requirement.at(v),
                    };
                    &&& follows(old(self).rows(v), row, v)
                    &&& value_or_zero(width, v) == row.rw_width()
                    &&& value_or_zero(shift, v) == row.stack_shift()
                },
        ensures
            final(self).extends(*old(self), |v: Valuation| requirement.at(v)),
            final(self).n_cells == old(self).n_cells,
    {
        let ghost before = *self;
        let condition: Option<Expression> = match &self.condition {
            Some(e) => Some(e.dup()),
            None => None,
        };
        let constraint = Constraint { condition, requirement };
        self.constraints.push(constraint);
        if let Some(n) = width {
            self.rw_counter_offset = self.rw_counter_offset.dup().plus(n);
        }
        if let Some(n) = shift {
            self.stack_pointer_offset = self.stack_pointer_offset.dup().plus(n);
        }
        proof {
            assert forall|v: Valuation| #![trigger self.rows(v)] ({
                let row = Constraint {
                    condition: condition_at(before.condition, v),
                    requirement: requirement.at(v),
                };
                &&& self.rows(v) == before.rows(v).push(row)
                &&& rw_total(self.rows(v)) == rw_total(before.rows(v)) + row.rw_width()
                &&& stack_total(self.rows(v)) == stack_total(before.rows(v)) + row.stack_shift()
                &&& self.rw_counter_offset.eval(v) == rw_total(self.rows(v))
                &&& self.stack_pointer_offset.eval(v) == stack_total(self.rows(v))
                &&& in_turn(self.rows(v), v)
            }) by {
                let row = constraint.at(v);
                assert(requirement.at(v) == row.requirement);
                assert(self.rows(v) =~= before.rows(v).push(row));
                lemma_totals_push(before.rows(v), row);
                lemma_in_turn_push(before.rows(v), row, v);
            }
        }
    }

    /// 1 under the current condition.
    fn unit(&self) -> (result: Expression)
        ensures
            forall|v: Valuation|
                #![trigger result.eval(v)]
                result.eval(v) == weight(condition_at(self.condition, v)),
    {
        match &self.condition {
            Some(e) => e.dup(),
            None => Expression::constant(1),
        }
    }

    /// The number of the next read or write.
    fn next_rw(&self) -> (result: Expression)
        requires
            self.wf(),
        ensures
            forall|v: Valuation|
                #![trigger result.eval(v)]
                result.eval(v) == v.rw_counter + rw_total(self.rows(v)),
    {
        let result: Expression = Variable::RwCounter.expr().plus(self.rw_counter_offset.dup());
        assert forall|v: Valuation| #![trigger result.eval(v)] result.eval(v) == v.rw_counter
            + rw_total(self.rows(v)) by {
            assert(self.rw_counter_offset.eval(v) == rw_total(self.rows(v)));
        }
        result
    }

    /// The number of reads and writes so far.
    pub fn rw_counter_offset(&self) -> (result: Expression)
        requires
            self.wf(),
        ensures
            forall|v: Valuation|
                #![trigger result.eval(v)]
                result.eval(v) == rw_total(self.rows(v)),
    {
        let result: Expression = self.rw_counter_offset.dup();
        assert forall|v: Valuation| #![trigger result.eval(v)] result.eval(v) == rw_total(
            self.rows(v),
        ) by {
            assert(self.rw_counter_offset.eval(v) == rw_total(self.rows(v)));
        }
        result
    }

    /// A new cell.
    pub fn query_cell(&mut self) -> (cell: Cell)
        requires
            old(self).wf(),
            old(self).n_cells < usize::MAX,
        ensures
            cell.index == old(self).n_cells,
            final(self).n_cells == old(self).n_cells + 1,
            final(self).byte_cells@ == old(self).byte_cells@,
            final(self).same_rows(*old(self)),
            final(self).condition == old(self).condition,
    {
        let cell = Cell { index: self.n_cells };
        self.n_cells = self.n_cells + 1;
        proof {
            lemma_same_rows(*self, *old(self));
        }
        cell
    }

    /// New cells for a number of `n_bytes` bytes, each of which holds a byte.
    pub fn query_rlc(&mut self, n_bytes: usize) -> (cells: RandomLinearCombination)
        requires
            old(self).wf(),
            old(self).n_cells + n_bytes <= usize::MAX,
        ensures
            cells.first == old(self).n_cells,
            cells.n_bytes == n_bytes,
            cells.wf(),
            final(self).n_cells == old(self).n_cells + n_bytes,
            final(self).byte_cells@ == old(self).byte_cells@.push(cells),
            final(self).same_rows(*old(self)),
            final(self).condition == old(self).condition,
    {
        let cells = RandomLinearCombination { first: self.n_cells, n_bytes };
        self.n_cells = self.n_cells + n_bytes;
        self.byte_cells.push(cells);
        proof {
            lemma_same_rows(*self, *old(self));
        }
        cells
    }

    /// New cells for a 256-bit word, each of which holds a byte.
    pub fn query_word(&mut self) -> (cells: RandomLinearCombination)
        requires
            old(self).wf(),
            old(self).n_cells + 32 <= usize::MAX,
        ensures
            cells.first == old(self).n_cells,
            cells.n_bytes == 32,
            cells.wf(),
            final(self).n_cells == old(self).n_cells + 32,
            final(self).byte_cells@ == old(self).byte_cells@.push(cells),
            final(self).same_rows(*old(self)),
            final(self).condition == old(self).condition,
    {
        self.query_rlc(32)
    }

    /// A new cell that holds 0 or 1.
    pub fn query_bool(&mut self) -> (cell: Cell)
        requires
            old(self).wf(),
            old(self).n_cells < usize::MAX,
        ensures
            cell.index == old(self).n_cells,
            final(self).n_cells == old(self).n_cells + 1,
            final(self).extends(
                *old(self),
                |v: Valuation| Requirement::Boolean { value: cell.eval(v) },
            ),
    {
        let cell: Cell = self.query_cell();
        self.record(Requirement::Boolean { value: cell.expr() }, None, None);
        cell
    }

    /// What follows stands under the condition.
    pub fn begin_condition(&mut self, condition: Expression)
        requires
            old(self).wf(),
            old(self).condition is None,
        ensures
            final(self).n_cells == old(self).n_cells,
            final(self).byte_cells@ == old(self).byte_cells@,
            final(self).same_rows(*old(self)),
            final(self).condition == Some(condition),
    {
        self.condition = Some(condition);
        proof {
            lemma_same_rows(*self, *old(self));
        }
    }

    /// What follows stands under no condition.
    pub fn end_condition(&mut self)
        requires
            old(self).wf(),
        ensures
            final(self).n_cells == old(self).n_cells,
            final(self).byte_cells@ == old(self).byte_cells@,
            final(self).same_rows(*old(self)),
            final(self).condition is None,
    {
        self.condition = None;
        proof {
            lemma_same_rows(*self, *old(self));
        }
    }

    /// The two polynomials take the same value.
    pub fn require_equal(&mut self, name: &'static str, left: Expression, right: Expression)
        requires
            old(self).wf(),
        ensures
            final(self).n_cells == old(self).n_cells,
            final(self).extends(
                *old(self),
                |v: Valuation|
                    Requirement::Equal { name, left: left.eval(v), right: right.eval(v) },
            ),
    {
        self.record(Requirement::Equal { name, left, right }, None, None);
    }

    /// The code holds the opcode at the program counter.
    pub fn opcode_lookup(&mut self, opcode: Expression, is_code: Expression)
        requires
            old(self).wf(),
        ensures
            final(self).n_cells == old(self).n_cells,
            final(self).extends(
                *old(self),
                |v: Valuation|
                    Requirement::Opcode { opcode: opcode.eval(v), is_code: is_code.eval(v) },
            ),
    {
        self.record(Requirement::Opcode { opcode, is_code }, None, None);
    }

    /// The step takes the value from the stack.
    pub fn stack_pop(&mut self, value: Expression)
        requires
            old(self).wf(),
        ensures
            final(self).n_cells == old(self).n_cells,
            final(self).extends(
                *old(self),
                |v: Valuation|
                    Requirement::Stack {
                        rw_counter: v.rw_counter + rw_total(old(self).rows(v)),
                        is_write: false,
                        stack_pointer: v.stack_pointer + stack_total(old(self).rows(v)),
                        value: value.eval(v),
                    },
            ),
    {
        let requirement = Requirement::Stack {
            rw_counter: self.next_rw(),
            is_write: false,
            stack_pointer: Variable::StackPointer.expr().plus(self.stack_pointer_offset.dup()),
            value,
        };
        proof {
            assert forall|v: Valuation| #![trigger requirement.at(v)]
                requirement.at(v)->Stack_stack_pointer == v.stack_pointer + stack_total(
                    old(self).rows(v),
                ) by {
                assert(self.rows(v) == old(self).rows(v));
            }
        }
        self.record(requirement, Some(self.unit()), Some(self.unit()));
    }

    /// The step puts the value on the stack.
    pub fn stack_push(&mut self, value: Expression)
        requires
            old(self).wf(),
        ensures
            final(self).n_cells == old(self).n_cells,
            final(self).extends(
                *old(self),
                |v: Valuation|
                    Requirement::Stack {
                        rw_counter: v.rw_counter + rw_total(old(self).rows(v)),
                        is_write: true,
                        stack_pointer: v.stack_pointer + stack_total(old(self).rows(v)) - weight(
                            condition_at(old(self).condition, v),
                        ),
                        value: value.eval(v),
                    },
            ),
    {
        let requirement = Requirement::Stack {
            rw_counter: self.next_rw(),
            is_write: true,
            stack_pointer: Variable::StackPointer.expr().plus(
                self.stack_pointer_offset.dup().minus(self.unit()),
            ),
            value,
        };
        proof {
            assert forall|v: Valuation| #![trigger requirement.at(v)]
                requirement.at(v)->Stack_stack_pointer == v.stack_pointer + stack_total(
                    old(self).rows(v),
                ) - weight(condition_at(old(self).condition, v)) by {
                assert(self.rows(v) == old(self).rows(v));
            }
        }
        self.record(requirement, Some(self.unit()), Some(self.unit().negated()));
    }

    /// The copy is made, with its reads and writes from the next one on. Where the condition
    /// does not hold, `rwc_inc` is 0 all the same.
    pub fn copy_table_lookup(
        &mut self,
        src_id: Expression,
        src_tag: CopyDataType,
        dst_id: Expression,
        dst_tag: CopyDataType,
        src_addr: Expression,
        src_addr_end: Expression,
        dst_addr: Expression,
        length: Expression,
        rlc_acc: Expression,
        rwc_inc: Expression,
    )
        requires
            old(self).wf(),
        ensures
            final(self).n_cells == old(self).n_cells,
            final(self).extends(
                *old(self),
                |v: Valuation|
                    Requirement::Copy {
                        rw_counter: v.rw_counter + rw_total(old(self).rows(v)),
                        src_id: src_id.eval(v),
                        src_tag,
                        dst_id: dst_id.eval(v),
                        dst_tag,
                        src_addr: src_addr.eval(v),
                        src_addr_end: src_addr_end.eval(v),
                        dst_addr: dst_addr.eval(v),
                        length: length.eval(v),
                        rlc_acc: rlc_acc.eval(v),
                        rwc_inc: rwc_inc.eval(v),
                    },
            ),
    {
        let width: Expression = rwc_inc.dup();
        let requirement = Requirement::Copy {
            rw_counter: self.next_rw(),
            src_id,
            src_tag,
            dst_id,
            dst_tag,
            src_addr,
            src_addr_end,
            dst_addr,
            length,
            rlc_acc,
            rwc_inc,
        };
        self.record(requirement, Some(width), None);
    }

    /// A read or write of the field of the call, the current one without a `call_id`.
    pub fn call_context_lookup(
        &mut self,
        is_write: Expression,
        call_id: Option<Expression>,
        field_tag: CallContextFieldTag,
        value: Expression,
    )
        requires
            old(self).wf(),
        ensures
            final(self).n_cells == old(self).n_cells,
            final(self).extends(
                *old(self),
                |v: Valuation|
                    Requirement::CallContext {
                        rw_counter: v.rw_counter + rw_total(old(self).rows(v)),
                        is_write: is_write.eval(v),
                        call_id: call_id_at(call_id, v),
                        field_tag,
                        value: value.eval(v),
                    },
            ),
    {
        let call_id: Expression = match call_id {
            Some(id) => id,
            None => Variable::CallId.expr(),
        };
        let requirement = Requirement::CallContext {
            rw_counter: self.next_rw(),
            is_write,
            call_id,
            field_tag,
            value,
        };
        self.record(requirement, Some(self.unit()), None);
    }

    /// A new cell that holds the field of the call.
    pub fn call_context(
        &mut self,
        call_id: Option<Expression>,
        field_tag: CallContextFieldTag,
    ) -> (cell: Cell)
        requires
            old(self).wf(),
            old(self).n_cells < usize::MAX,
        ensures
            cell.index == old(self).n_cells,
            final(self).n_cells == old(self).n_cells + 1,
            final(self).extends(
                *old(self),
                |v: Valuation|
                    Requirement::CallContext {
                        rw_counter: v.rw_counter + rw_total(old(self).rows(v)),
                        is_write: 0,
                        call_id: call_id_at(call_id, v),
                        field_tag,
                        value: cell.eval(v),
                    },
            ),
    {
        let cell: Cell = self.query_cell();
        self.call_context_lookup(Expression::constant(0), call_id, field_tag, cell.expr());
        cell
    }

    /// The whitelisting of an account by a transaction, which is undone if the call reverts.
    pub fn account_access_list_write(
        &mut self,
        tx_id: Expression,
        account_address: Expression,
        value: Expression,
        value_prev: Expression,
        reversion_info: &mut ReversionInfo,
    )
        requires
            old(self).wf(),
        ensures
            final(self).n_cells == old(self).n_cells,
            final(self).extends(
                *old(self),
                |v: Valuation|
                    Requirement::AccountAccessList {
                        rw_counter: v.rw_counter + rw_total(old(self).rows(v)),
                        tx_id: tx_id.eval(v),
                        account_address: account_address.eval(v),
                        value: value.eval(v),
                        value_prev: value_prev.eval(v),
                        reversion: old(reversion_info).next(v),
                    },
            ),
            final(reversion_info).later(
                *old(reversion_info),
                |v: Valuation| weight(condition_at(old(self).condition, v)),
            ),
    {
        let requirement = Requirement::AccountAccessList {
            rw_counter: self.next_rw(),
            tx_id,
            account_address,
            value,
            value_prev,
            reversion: reversion_info.advance(self.unit()),
        };
        self.record(requirement, Some(self.unit()), None);
    }

    /// The write of a field of an account, which is undone if the call reverts.
    pub fn account_write(
        &mut self,
        account_address: Expression,
        field_tag: AccountFieldTag,
        value: Expression,
        value_prev: Expression,
        reversion_info: &mut ReversionInfo,
    )
        requires
            old(self).wf(),
        ensures
            final(self).n_cells == old(self).n_cells,
            final(self).extends(
                *old(self),
                |v: Valuation|
                    Requirement::Account {
                        rw_counter: v.rw_counter + rw_total(old(self).rows(v)),
                        account_address: account_address.eval(v),
                        field_tag,
                        value: value.eval(v),
                        value_prev: value_prev.eval(v),
                        reversion: old(reversion_info).next(v),
                    },
            ),
            final(reversion_info).later(
                *old(reversion_info),
                |v: Valuation| weight(condition_at(old(self).condition, v)),
            ),
    {
        let requirement = Requirement::Account {
            rw_counter: self.next_rw(),
            account_address,
            field_tag,
            value,
            value_prev,
            reversion: reversion_info.advance(self.unit()),
        };
        self.record(requirement, Some(self.unit()), None);
    }

    /// The value moves from the sender's balance to the receiver's, which is undone if the call
    /// reverts.
    pub fn transfer(
        &mut self,
        sender_address: Expression,
        receiver_address: Expression,
        value: RandomLinearCombination,
        reversion_info: &mut ReversionInfo,
    ) -> (gadget: TransferGadget)
        requires
            old(self).wf(),
            old(self).n_outputs + 4 <= usize::MAX,
            value.wf(),
        ensures
            gadget.placed_at(old(self).n_outputs as int),
            final(self).n_outputs == old(self).n_outputs + 4,
            final(self).n_cells == old(self).n_cells,
            final(self).extends_with_outputs(
                *old(self),
                |v: Valuation|
                    gadget.requirement(
                        v.rw_counter + rw_total(old(self).rows(v)),
                        sender_address.eval(v),
                        receiver_address.eval(v),
                        combine(value.values(v), v.randomness),
                        old(reversion_info).next(v),
                        v,
                    ),
            ),
            final(reversion_info).later(
                *old(reversion_info),
                |v: Valuation| 2 * weight(condition_at(old(self).condition, v)),
            ),
    {
        let sender_balance: Output = self.output();
        let sender_balance_prev: Output = self.output();
        let receiver_balance: Output = self.output();
        let receiver_balance_prev: Output = self.output();
        let both: Expression = Expression::constant(2).times(self.unit());
        let requirement = Requirement::Transfer {
            rw_counter: self.next_rw(),
            sender_address,
            receiver_address,
            value: value.expr(),
            sender_balance: sender_balance.expr(),
            sender_balance_prev: sender_balance_prev.expr(),
            receiver_balance: receiver_balance.expr(),
            receiver_balance_prev: receiver_balance_prev.expr(),
            reversion: reversion_info.advance(both.dup()),
        };
        self.record(requirement, Some(both), None);
        TransferGadget {
            sender_balance,
            sender_balance_prev,
            receiver_balance,
            receiver_balance_prev,
        }
    }

    /// The two cells that tell where the writes of a call are undone, with the reads or writes
    /// of the call that fill them.
    fn reversion_info(
        &mut self,
        call_id: Option<Expression>,
        is_write: bool,
    ) -> (info: ReversionInfo)
        requires
            old(self).wf(),
            old(self).n_cells + 2 <= usize::MAX,
        ensures
            info.rw_counter_end_of_reversion.index == old(self).n_cells,
            info.is_persistent.index == old(self).n_cells + 1,
            final(self).n_cells == old(self).n_cells + 2,
            final(self).extends_by_reversion(*old(self), call_id, is_write, info),
            forall|v: Valuation|
                #![trigger info.reversible_write_counter.eval(v)]
                info.reversible_write_counter.eval(v) == (if call_id is Some {
                    0
                } else {
                    v.reversible_write_counter
                }),
    {
        let write: u64 = if is_write {
            1
        } else {
            0
        };
        let reversible_write_counter: Expression = match &call_id {
            Some(_) => Expression::constant(0),
            None => Variable::ReversibleWriteCounter.expr(),
        };
        let again: Option<Expression> = match &call_id {
            Some(id) => Some(id.dup()),
            None => None,
        };
        let end: Cell = self.query_cell();
        self.call_context_lookup(
            Expression::constant(write),
            again,
            CallContextFieldTag::RwCounterEndOfReversion,
            end.expr(),
        );
        let is_persistent: Cell = self.query_cell();
        self.call_context_lookup(
            Expression::constant(write),
            call_id,
            CallContextFieldTag::IsPersistent,
            is_persistent.expr(),
        );
        ReversionInfo {
            rw_counter_end_of_reversion: end,
            is_persistent,
            reversible_write_counter,
        }
    }

    /// The cells that tell where the writes of the call are undone, as the call has them.
    pub fn reversion_info_read(&mut self, call_id: Option<Expression>) -> (info: ReversionInfo)
        requires
            old(self).wf(),
            old(self).n_cells + 2 <= usize::MAX,
        ensures
            info.rw_counter_end_of_reversion.index == old(self).n_cells,
            info.is_persistent.index == old(self).n_cells + 1,
            final(self).n_cells == old(self).n_cells + 2,
            final(self).extends_by_reversion(*old(self), call_id, false, info),
            forall|v: Valuation|
                #![trigger info.reversible_write_counter.eval(v)]
                info.reversible_write_counter.eval(v) == (if call_id is Some {
                    0
                } else {
                    v.reversible_write_counter
                }),
    {
        self.reversion_info(call_id, false)
    }

    /// The cells that tell where the writes of the call are undone, as the step sets them.
    pub fn reversion_info_write(&mut self, call_id: Option<Expression>) -> (info: ReversionInfo)
        requires
            old(self).wf(),
            old(self).n_cells + 2 <= usize::MAX,
        ensures
            info.rw_counter_end_of_reversion.index == old(self).n_cells,
            info.is_persistent.index == old(self).n_cells + 1,
            final(self).n_cells == old(self).n_cells + 2,
            final(self).extends_by_reversion(*old(self), call_id, true, info),
            forall|v: Valuation|
                #![trigger info.reversible_write_counter.eval(v)]
                info.reversible_write_counter.eval(v) == (if call_id is Some {
                    0
                } else {
                    v.reversible_write_counter
                }),
    {
        self.reversion_info(call_id, true)
    }

    /// A new output.
    fn output(&mut self) -> (output: Output)
        requires
            old(self).wf(),
            old(self).n_outputs < usize::MAX,
        ensures
            output.index == old(self).n_outputs,
            final(self).n_outputs == old(self).n_outputs + 1,
            final(self).n_cells == old(self).n_cells,
            final(self).byte_cells@ == old(self).byte_cells@,
            final(self).condition == old(self).condition,
            final(self).constraints == old(self).constraints,
            final(self).wf(),
            forall|v: Valuation|
                #![trigger final(self).rows(v)]
                final(self).rows(v) == old(self).rows(v),
    {
        let output = Output { index: self.n_outputs };
        self.n_outputs = self.n_outputs + 1;
        proof {
            assert forall|v: Valuation| #![trigger self.rows(v)] self.rows(v) == old(self).rows(
                v,
            ) by {
                assert(self.rows(v) =~= old(self).rows(v));
            }
        }
        output
    }

    /// A range of memory.
    pub fn memory_address(&mut self) -> (gadget: MemoryAddressGadget)
        requires
            old(self).wf(),
            old(self).n_outputs + 4 <= usize::MAX,
        ensures
            gadget.placed_at(old(self).n_outputs as int),
            final(self).n_outputs == old(self).n_outputs + 4,
            final(self).n_cells == old(self).n_cells,
            final(self).extends_with_outputs(*old(self), |v: Valuation| gadget.requirement(v)),
    {
        let offset: Output = self.output();
        let length: Output = self.output();
        let has_length: Output = self.output();
        let address: Output = self.output();
        self.record(
            Requirement::MemoryAddress {
                offset: offset.expr(),
                length: length.expr(),
                has_length: has_length.expr(),
                address: address.expr(),
            },
            None,
            None,
        );
        MemoryAddressGadget { offset, length, has_length, address }
    }

    /// The memory grows to reach the address.
    pub fn memory_expansion(&mut self, address: Expression) -> (gadget: MemoryExpansionGadget)
        requires
            old(self).wf(),
            old(self).n_outputs + 2 <= usize::MAX,
        ensures
            gadget.placed_at(old(self).n_outputs as int),
            final(self).n_outputs == old(self).n_outputs + 2,
            final(self).n_cells == old(self).n_cells,
            final(self).extends_with_outputs(
                *old(self),
                |v: Valuation| gadget.requirement(address.eval(v), v),
            ),
    {
        let gas_cost: Output = self.output();
        let next_memory_word_size: Output = self.output();
        self.record(
            Requirement::MemoryExpansion {
                address,
                gas_cost: gas_cost.expr(),
                next_memory_word_size: next_memory_word_size.expr(),
            },
            None,
            None,
        );
        MemoryExpansionGadget { gas_cost, next_memory_word_size }
    }

    /// The numerator is divided by the denominator.
    pub fn constant_division(
        &mut self,
        numerator: Expression,
        denominator: u64,
    ) -> (gadget: ConstantDivisionGadget)
        requires
            old(self).wf(),
            old(self).n_outputs + 2 <= usize::MAX,
        ensures
            gadget.placed_at(old(self).n_outputs as int),
            final(self).n_outputs == old(self).n_outputs + 2,
            final(self).n_cells == old(self).n_cells,
            final(self).extends_with_outputs(
                *old(self),
                |v: Valuation| gadget.requirement(numerator.eval(v), denominator, v),
            ),
    {
        let quotient: Output = self.output();
        let remainder: Output = self.output();
        self.record(
            Requirement::ConstantDivision {
                numerator,
                denominator,
                quotient: quotient.expr(),
                remainder: remainder.expr(),
            },
            None,
            None,
        );
        ConstantDivisionGadget { quotient, remainder }
    }

    /// The state of the next step.
    pub fn require_step_state_transition(&mut self, transition: StepStateTransition<Expression>)
        requires
            old(self).wf(),
        ensures
            final(self).n_cells == old(self).n_cells,
            final(self).extends(
                *old(self),
                |v: Valuation| Requirement::StepState { transition: transition.at(v) },
            ),
    {
        self.record(Requirement::StepState { transition }, None, None);
    }
}

} // verus!
