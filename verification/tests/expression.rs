use create_gadget::expression::{Cell, Expression, Output, RandomLinearCombination, Variable};

/// The value of the polynomial where cell `i` holds `i + 1`, output `i` is `i + 100`, and the
/// randomness is 10.
fn eval(expression: &Expression) -> i128 {
    match expression {
        Expression::Constant(c) => *c as i128,
        Expression::Variable(variable) => match variable {
            Variable::Cell(index) => *index as i128 + 1,
            Variable::RandomnessPower(power) => 10i128.pow(*power as u32),
            Variable::RwCounter => 1000,
            Variable::CallId => 2000,
            Variable::ProgramCounter => 3000,
            Variable::StackPointer => 4000,
            Variable::GasLeft => 5000,
            Variable::ReversibleWriteCounter => 6000,
            Variable::Output(index) => *index as i128 + 100,
        },
        Expression::Negated(a) => -eval(a),
        Expression::Sum(a, b) => eval(a) + eval(b),
        Expression::Product(a, b) => eval(a) * eval(b),
    }
}

#[test]
fn the_operations_compute_what_they_say() {
    let a = || Expression::constant(7);
    let b = || Cell { index: 3 }.expr();
    assert_eq!(eval(&a().plus(b())), 11);
    assert_eq!(eval(&a().minus(b())), 3);
    assert_eq!(eval(&a().times(b())), 28);
    assert_eq!(eval(&a().negated()), -7);
    assert_eq!(eval(&b().not()), -3);
    assert_eq!(eval(&Output { index: 5 }.expr()), 105);
    assert_eq!(eval(&Variable::GasLeft.expr()), 5000);
    assert_eq!(eval(&a().plus(b()).clone()), 11);
}

#[test]
fn select_takes_the_first_where_the_selector_is_1() {
    let pick = |selector: u64| {
        let selector = Expression::constant(selector);
        eval(&Expression::select(&selector, Expression::constant(0xf5), Expression::constant(0xf0)))
    };
    assert_eq!(pick(1), 0xf5);
    assert_eq!(pick(0), 0xf0);
}

#[test]
fn cells_are_combined_with_the_randomness_or_in_base_256() {
    let cells = RandomLinearCombination { first: 4, n_bytes: 3 };
    assert_eq!(cells.cells().len(), 3);
    assert_eq!(eval(&cells.expr()), 5 + 6 * 10 + 7 * 100);
    assert_eq!(eval(&cells.from_bytes()), 5 + 6 * 256 + 7 * 65536);
    let none = RandomLinearCombination { first: 4, n_bytes: 0 };
    assert_eq!(eval(&none.expr()), 0);
    assert_eq!(eval(&none.from_bytes()), 0);
}

#[test]
fn constants_are_combined_with_the_randomness() {
    assert_eq!(eval(&Expression::combine_constants(&[9, 8, 7])), 789);
    assert_eq!(eval(&Expression::combine_constants(&[])), 0);
    let cells = vec![Cell { index: 0 }.expr(), Cell { index: 1 }.expr()];
    assert_eq!(eval(&Expression::random_linear_combine(&cells)), 21);
}
