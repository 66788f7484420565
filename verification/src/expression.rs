//! Polynomials over the cells of a step, and the values they take.
use crate::radix::{combine, combine_bytes, integers, lemma_combine_first};
use vstd::arithmetic::power::{lemma_pow0, pow};
use vstd::prelude::*;

verus! {

/// A value that a constraint of the step can speak of.
#[derive(Clone, Copy, Debug, PartialEq, Eq)]
pub enum Variable {
    /// A witness cell of the step.
    Cell(usize),
    /// The verifier's randomness, to this power.
    RandomnessPower(usize),
    /// The number of the first read or write of the step.
    RwCounter,
    /// The call that the step belongs to.
    CallId,
    /// The program counter at the step.
    ProgramCounter,
    /// The stack pointer at the step.
    StackPointer,
    /// The gas left before the step.
    GasLeft,
    /// The reversible writes that the call has made before the step.
    ReversibleWriteCounter,
    /// A value that a part of the step hands out.
    Output(usize),
}

/// A polynomial over the variables of the step.
#[derive(Debug)]
pub enum Expression {
    Constant(u64),
    Variable(Variable),
    Negated(Box<Expression>),
    Sum(Box<Expression>, Box<Expression>),
    Product(Box<Expression>, Box<Expression>),
}

/// A value for each variable of the step, and the rest of the state that the step starts in. The
/// values are integers; over a prime field, each stands for its residue.
pub struct Valuation {
    pub cells: spec_fn(int) -> int,
    pub outputs: spec_fn(int) -> int,
    pub randomness: int,
    pub rw_counter: int,
    pub call_id: int,
    pub program_counter: int,
    pub stack_pointer: int,
    pub gas_left: int,
    pub reversible_write_counter: int,
    /// 1 where the call is the root of its transaction, else 0.
    pub is_root: int,
    /// 1 where the call initializes an account, else 0.
    pub is_create: int,
    /// The hash of the code that the call runs.
    pub code_hash: int,
    /// The size of the memory, in words.
    pub memory_word_size: int,
}

impl Variable {
    /// The value of the variable.
    pub open spec fn eval(self, v: Valuation) -> int {
        match self {
            Variable::Cell(index) => (v.cells)(index as int),
            Variable::RandomnessPower(power) => pow(v.randomness, power as nat),
            Variable::RwCounter => v.rw_counter,
            Variable::CallId => v.call_id,
            Variable::ProgramCounter => v.program_counter,
            Variable::StackPointer => v.stack_pointer,
            Variable::GasLeft => v.gas_left,
            Variable::ReversibleWriteCounter => v.reversible_write_counter,
            Variable::Output(index) => (v.outputs)(index as int),
        }
    }

    /// The polynomial that is this variable.
    pub fn expr(self) -> (result: Expression)
        ensures
            forall|v: Valuation| #![trigger result.eval(v)] result.eval(v) == self.eval(v),
    {
        Expression::Variable(self)
    }
}

/// The values of the polynomials, in their order.
pub open spec fn values(expressions: Seq<Expression>, v: Valuation) -> Seq<int> {
    Seq::new(expressions.len(), |i: int| expressions[i].eval(v))
}

impl Expression {
    /// The value of the polynomial.
    pub open spec fn eval(self, v: Valuation) -> int
        decreases self,
    {
        match self {
            Expression::Constant(c) => c as int,
            Expression::Variable(variable) => variable.eval(v),
            Expression::Negated(a) => -a.eval(v),
            Expression::Sum(a, b) => a.eval(v) + b.eval(v),
            Expression::Product(a, b) => a.eval(v) * b.eval(v),
        }
    }

    /// The same polynomial once more.
    pub fn dup(&self) -> (result: Expression)
        ensures
            result == *self,
        decreases self,
    {
        match self {
            Expression::Constant(c) => Expression::Constant(*c),
            Expression::Variable(variable) => Expression::Variable(*variable),
            Expression::Negated(a) => Expression::Negated(Box::new(a.dup())),
            Expression::Sum(a, b) => Expression::Sum(Box::new(a.dup()), Box::new(b.dup())),
            Expression::Product(a, b) => Expression::Product(Box::new(a.dup()), Box::new(b.dup())),
        }
    }

    /// The constant polynomial.
    pub fn constant(c: u64) -> (result: Expression)
        ensures
            forall|v: Valuation| #![trigger result.eval(v)] result.eval(v) == c,
    {
        Expression::Constant(c)
    }

    pub fn negated(self) -> (result: Expression)
        ensures
            forall|v: Valuation| #![trigger result.eval(v)] result.eval(v) == -self.eval(v),
    {
        Expression::Negated(Box::new(self))
    }

    pub fn plus(self, other: Expression) -> (result: Expression)
        ensures
            forall|v: Valuation|
                #![trigger result.eval(v)]
                result.eval(v) == self.eval(v) + other.eval(v),
    {
        Expression::Sum(Box::new(self), Box::new(other))
    }

    pub fn minus(self, other: Expression) -> (result: Expression)
        ensures
            forall|v: Valuation|
                #![trigger result.eval(v)]
                result.eval(v) == self.eval(v) - other.eval(v),
    {
        self.plus(other.negated())
    }

    pub fn times(self, other: Expression) -> (result: Expression)
        ensures
            forall|v: Valuation|
                #![trigger result.eval(v)]
                result.eval(v) == self.eval(v) * other.eval(v),
    {
        Expression::Product(Box::new(self), Box::new(other))
    }

    /// `1 - self`: the negation, where the polynomial is 0 or 1.
    pub fn not(self) -> (result: Expression)
        ensures
            forall|v: Valuation| #![trigger result.eval(v)] result.eval(v) == 1 - self.eval(v),
    {
        Expression::constant(1).minus(self)
    }

    /// `when_true` where the selector is 1, and `when_false` where it is 0.
    pub fn select(
        selector: &Expression,
        when_true: Expression,
        when_false: Expression,
    ) -> (result: Expression)
        ensures
            forall|v: Valuation|
                #![trigger result.eval(v)]
                result.eval(v) == selector.eval(v) * when_true.eval(v) + (1 - selector.eval(v))
                    * when_false.eval(v),
    {
        selector.dup().times(when_true).plus(selector.dup().not().times(when_false))
    }

    /// The polynomial that combines the given ones with the powers of the randomness.
    pub fn random_linear_combine(bytes: &Vec<Expression>) -> (result: Expression)
        ensures
            forall|v: Valuation|
                #![trigger result.eval(v)]
                result.eval(v) == combine(values(bytes@, v), v.randomness),
    {
        let mut result: Expression = Expression::constant(0);
        let mut i: usize = 0;
        proof {
            assert forall|v: Valuation| #![trigger result.eval(v)] result.eval(v) == combine(
                values(bytes@.take(0), v),
                v.randomness,
            ) by {
                assert(values(bytes@.take(0), v) =~= Seq::<int>::empty());
            }
        }
        while i < bytes.len()
            invariant
                i <= bytes@.len(),
                forall|v: Valuation|
                    #![trigger result.eval(v)]
                    result.eval(v) == combine(values(bytes@.take(i as int), v), v.randomness),
            decreases bytes@.len() - i,
        {
            let ghost before = result;
            let byte: Expression = bytes[i].dup();
            let term: Expression = if i == 0 {
                byte
            } else {
                byte.times(Variable::RandomnessPower(i).expr())
            };
            result = result.plus(term);
            proof {
                assert forall|v: Valuation| #![trigger result.eval(v)] result.eval(v) == combine(
                    values(bytes@.take(i + 1), v),
                    v.randomness,
                ) by {
                    lemma_pow0(v.randomness);
                    assert(before.eval(v) == combine(
                        values(bytes@.take(i as int), v),
                        v.randomness,
                    ));
                    assert(term.eval(v) == bytes@[i as int].eval(v) * pow(
                        v.randomness,
                        i as nat,
                    ));
                    assert(values(bytes@.take(i + 1), v).drop_last() =~= values(
                        bytes@.take(i as int),
                        v,
                    ));
                }
            }
            i = i + 1;
        }
        assert(bytes@.take(i as int) =~= bytes@);
        result
    }

    /// The bytes, each a constant, combined with the powers of the randomness.
    pub fn combine_constants(bytes: &[u8]) -> (result: Expression)
        ensures
            forall|v: Valuation|
                #![trigger result.eval(v)]
                result.eval(v) == combine_bytes(bytes@, v.randomness),
    {
        let mut constants: Vec<Expression> = Vec::new();
        let mut i: usize = 0;
        while i < bytes.len()
            invariant
                i <= bytes@.len(),
                constants@.len() == i,
                forall|v: Valuation, j: int|
                    #![trigger constants@[j].eval(v)]
                    0 <= j < i ==> constants@[j].eval(v) == bytes@[j],
            decreases bytes@.len() - i,
        {
            constants.push(Expression::constant(bytes[i] as u64));
            i = i + 1;
        }
        let result: Expression = Expression::random_linear_combine(&constants);
        assert forall|v: Valuation| #![trigger result.eval(v)] result.eval(v) == combine_bytes(
            bytes@,
            v.randomness,
        ) by {
            assert(values(constants@, v) =~= integers(bytes@));
        }
        result
    }
}

impl Clone for Expression {
    fn clone(&self) -> (result: Expression)
        ensures
            result == *self,
    {
        self.dup()
    }
}

/// A witness cell of the step.
#[derive(Clone, Copy, Debug, PartialEq, Eq)]
pub struct Cell {
    pub index: usize,
}

impl Cell {
    /// The value of the cell.
    pub open spec fn eval(self, v: Valuation) -> int {
        (v.cells)(self.index as int)
    }

    /// The polynomial that is this cell.
    pub fn expr(self) -> (result: Expression)
        ensures
            forall|v: Valuation| #![trigger result.eval(v)] result.eval(v) == self.eval(v),
    {
        Variable::Cell(self.index).expr()
    }
}

/// A value that a part of the step hands out.
#[derive(Clone, Copy, Debug, PartialEq, Eq)]
pub struct Output {
    pub index: usize,
}

impl Output {
    /// The value.
    pub open spec fn eval(self, v: Valuation) -> int {
        (v.outputs)(self.index as int)
    }

    /// The polynomial that is this value.
    pub fn expr(self) -> (result: Expression)
        ensures
            forall|v: Valuation| #![trigger result.eval(v)] result.eval(v) == self.eval(v),
    {
        Variable::Output(self.index).expr()
    }
}

/// A number held as bytes, one cell each, the least significant byte first.
#[derive(Clone, Copy, Debug, PartialEq, Eq)]
pub struct RandomLinearCombination {
    /// The index of the first of the cells, which follow each other.
    pub first: usize,
    pub n_bytes: usize,
}

impl RandomLinearCombination {
    /// The cells have indices.
    pub open spec fn wf(self) -> bool {
        self.first + self.n_bytes <= usize::MAX
    }

    /// The values of the cells.
    pub open spec fn values(self, v: Valuation) -> Seq<int> {
        Seq::new(self.n_bytes as nat, |i: int| (v.cells)(self.first + i))
    }

    /// The cells as polynomials.
    pub fn cells(self) -> (cells: Vec<Expression>)
        requires
            self.wf(),
        ensures
            cells@.len() == self.n_bytes,
            forall|v: Valuation| #![trigger values(cells@, v)] values(cells@, v) == self.values(v),
    {
        let mut cells: Vec<Expression> = Vec::new();
        let mut i: usize = 0;
        while i < self.n_bytes
            invariant
                i <= self.n_bytes,
                self.wf(),
                cells@.len() == i,
                forall|v: Valuation, j: int|
                    #![trigger cells@[j].eval(v)]
                    0 <= j < i ==> cells@[j].eval(v) == (v.cells)(self.first + j),
            decreases self.n_bytes - i,
        {
            cells.push(Cell { index: self.first + i }.expr());
            i = i + 1;
        }
        assert forall|v: Valuation| #![trigger values(cells@, v)] values(cells@, v) == self.values(
            v,
        ) by {
            assert(values(cells@, v) =~= self.values(v));
        }
        cells
    }

    /// The cells combined with the powers of the randomness.
    pub fn expr(self) -> (result: Expression)
        requires
            self.wf(),
        ensures
            forall|v: Valuation|
                #![trigger result.eval(v)]
                result.eval(v) == combine(self.values(v), v.randomness),
    {
        let cells: Vec<Expression> = self.cells();
        let result: Expression = Expression::random_linear_combine(&cells);
        assert forall|v: Valuation| #![trigger result.eval(v)] result.eval(v) == combine(
            self.values(v),
            v.randomness,
        ) by {
            assert(values(cells@, v) == self.values(v));
        }
        result
    }

    /// The number that the cells hold, in base 256.
    pub fn from_bytes(self) -> (result: Expression)
        requires
            self.wf(),
        ensures
            forall|v: Valuation|
                #![trigger result.eval(v)]
                result.eval(v) == combine(self.values(v), 256),
    {
        let cells: Vec<Expression> = self.cells();
        let mut result: Expression = Expression::constant(0);
        let mut i: usize = cells.len();
        proof {
            assert forall|v: Valuation| #![trigger result.eval(v)] result.eval(v) == combine(
                values(cells@, v).skip(i as int),
                256,
            ) by {
                assert(values(cells@, v).skip(i as int) =~= Seq::<int>::empty());
            }
        }
        while i > 0
            invariant
                i <= cells@.len(),
                forall|v: Valuation|
                    #![trigger result.eval(v)]
                    result.eval(v) == combine(values(cells@, v).skip(i as int), 256),
            decreases i,
        {
            let ghost before = result;
            let ghost above = i;
            i = i - 1;
            result = cells[i].dup().plus(Expression::constant(256).times(result));
            proof {
                assert forall|v: Valuation| #![trigger result.eval(v)] result.eval(v) == combine(
                    values(cells@, v).skip(i as int),
                    256,
                ) by {
                    let digits = values(cells@, v).skip(i as int);
                    lemma_combine_first(digits, 256);
                    assert(digits.drop_first() =~= values(cells@, v).skip(above as int));
                    assert(before.eval(v) == combine(values(cells@, v).skip(above as int), 256));
                }
            }
        }
        assert forall|v: Valuation| #![trigger result.eval(v)] result.eval(v) == combine(
            self.values(v),
            256,
        ) by {
            assert(values(cells@, v).skip(0) =~= self.values(v));
        }
        result
    }
}

} // verus!
