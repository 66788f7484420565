use create_gadget::builder::ConstraintBuilder;
use create_gadget::constraint::{CallContextFieldTag, CopyDataType, Requirement};
use create_gadget::expression::{Expression, Variable};

/// The value of the polynomial where every cell and output is 0, the step's first read is number
/// 50 and its stack pointer 1000.
fn eval(expression: &Expression) -> i128 {
    match expression {
        Expression::Constant(c) => *c as i128,
        Expression::Variable(Variable::RwCounter) => 50,
        Expression::Variable(Variable::StackPointer) => 1000,
        Expression::Variable(Variable::CallId) => 4,
        Expression::Variable(Variable::ReversibleWriteCounter) => 9,
        Expression::Variable(_) => 0,
        Expression::Negated(a) => -eval(a),
        Expression::Sum(a, b) => eval(a) + eval(b),
        Expression::Product(a, b) => eval(a) * eval(b),
    }
}

fn stack_at(cb: &ConstraintBuilder, i: usize) -> (i128, bool, i128) {
    match &cb.constraints[i].requirement {
        Requirement::Stack { rw_counter, is_write, stack_pointer, .. } => {
            (eval(rw_counter), *is_write, eval(stack_pointer))
        }
        _ => panic!("no stack"),
    }
}

#[test]
fn what_stands_under_a_condition_counts_where_it_holds() {
    for holds in [0u64, 1] {
        let mut cb = ConstraintBuilder::new();
        cb.stack_pop(Expression::constant(1));
        cb.begin_condition(Expression::constant(holds));
        cb.stack_pop(Expression::constant(2));
        cb.end_condition();
        cb.stack_push(Expression::constant(3));
        assert_eq!(stack_at(&cb, 0), (50, false, 1000));
        assert_eq!(stack_at(&cb, 1), (51, false, 1001));
        assert_eq!(stack_at(&cb, 2), (51 + holds as i128, true, 1000 + holds as i128));
        assert!(cb.constraints[0].condition.is_none());
        assert_eq!(cb.constraints[1].condition.as_ref().map(eval), Some(holds as i128));
        assert!(cb.constraints[2].condition.is_none());
        assert_eq!(eval(&cb.rw_counter_offset()), 2 + holds as i128);
    }
}

#[test]
fn a_copy_counts_its_reads_and_writes_under_any_condition() {
    let mut cb = ConstraintBuilder::new();
    cb.begin_condition(Expression::constant(0));
    cb.copy_table_lookup(
        Expression::constant(1),
        CopyDataType::Memory,
        Expression::constant(2),
        CopyDataType::Bytecode,
        Expression::constant(3),
        Expression::constant(4),
        Expression::constant(5),
        Expression::constant(6),
        Expression::constant(7),
        Expression::constant(8),
    );
    cb.end_condition();
    assert_eq!(eval(&cb.rw_counter_offset()), 8);
}

#[test]
fn cells_and_outputs_are_handed_out_one_after_the_other() {
    let mut cb = ConstraintBuilder::new();
    assert_eq!(cb.query_cell().index, 0);
    assert_eq!(cb.query_bool().index, 1);
    let word = cb.query_word();
    assert_eq!((word.first, word.n_bytes), (2, 32));
    let address = cb.query_rlc(20);
    assert_eq!((address.first, address.n_bytes), (34, 20));
    assert_eq!(cb.n_cells, 54);
    assert_eq!(cb.byte_cells, vec![word, address]);
    assert_eq!(cb.constraints.len(), 1);
    let range = cb.memory_address();
    assert_eq!(range.offset.index, 0);
    assert_eq!(range.address.index, 3);
    let expansion = cb.memory_expansion(range.address.expr());
    assert_eq!(expansion.gas_cost.index, 4);
    let division = cb.constant_division(Expression::constant(100), 64);
    assert_eq!(division.remainder.index, 7);
    assert_eq!(cb.n_outputs, 8);
}

#[test]
fn the_writes_of_another_call_are_counted_from_0() {
    let mut cb = ConstraintBuilder::new();
    let own = cb.reversion_info_read(None);
    let other = cb.reversion_info_write(Some(Expression::constant(77)));
    assert_eq!(eval(&own.reversible_write_counter), 9);
    assert_eq!(eval(&other.reversible_write_counter), 0);
    let field_at = |i: usize| match &cb.constraints[i].requirement {
        Requirement::CallContext { rw_counter, is_write, call_id, field_tag, .. } => {
            (eval(rw_counter), eval(is_write), eval(call_id), *field_tag)
        }
        _ => panic!("no field"),
    };
    assert_eq!(field_at(0), (50, 0, 4, CallContextFieldTag::RwCounterEndOfReversion));
    assert_eq!(field_at(1), (51, 0, 4, CallContextFieldTag::IsPersistent));
    assert_eq!(field_at(2), (52, 1, 77, CallContextFieldTag::RwCounterEndOfReversion));
    assert_eq!(field_at(3), (53, 1, 77, CallContextFieldTag::IsPersistent));
}

#[test]
fn a_transfer_makes_two_reversible_writes() {
    let mut cb = ConstraintBuilder::new();
    let mut info = cb.reversion_info_read(None);
    let value = cb.query_word();
    let gadget =
        cb.transfer(Expression::constant(1), Expression::constant(2), value, &mut info);
    assert_eq!(gadget.sender_balance.index, 0);
    assert_eq!(gadget.receiver_balance_prev.index, 3);
    assert_eq!(cb.n_outputs, 4);
    assert_eq!(eval(&info.reversible_write_counter), 11);
    assert_eq!(eval(&cb.rw_counter_offset()), 4);
    match &cb.constraints[2].requirement {
        Requirement::Transfer { rw_counter, reversion, .. } => {
            assert_eq!(eval(rw_counter), 52);
            assert_eq!(eval(&reversion.rw_counter), -9);
        }
        _ => panic!("no transfer"),
    }
    assert_eq!(eval(&info.clone().reversible_write_counter), 11);
}
