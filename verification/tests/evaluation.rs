use murust::error::EvalError;
use murust::identifier::Identifier;
use murust::memory::Address;
use murust::namespace::NameSpace;
use murust::namespacestack::NameSpaceStack;
use murust::parsing::binop::Binop;
use murust::parsing::expression::Expression;
use murust::parsing::leftexpression::LeftExpression;
use murust::parsing::parsedvalue::ParsedValue;
use murust::parsing::ptr_kind::PtrKind;
use murust::parsing::value::Value;
use murust::types::Type;

fn num(i: isize) -> Expression {
    Expression::Const(ParsedValue::Integer(i))
}

fn boolean(b: bool) -> Expression {
    Expression::Const(ParsedValue::Boolean(b))
}

fn unit() -> Expression {
    Expression::Const(ParsedValue::Unit)
}

fn name(n: &str) -> Expression {
    Expression::Identifier(Identifier::from(n))
}

fn op(lhs: Expression, op: Binop, rhs: Expression) -> Expression {
    Expression::BinOp(Box::new(lhs), op, Box::new(rhs))
}

fn cond(c: Expression, t: Expression, f: Expression) -> Expression {
    Expression::Conditional { cond: Box::new(c), cond_true: Box::new(t), cond_false: Box::new(f) }
}

fn undefined(n: &str) -> EvalError {
    EvalError::Undefined(Identifier::from(n))
}

fn scopes() -> NameSpaceStack {
    let mut nss = NameSpaceStack::new();
    nss.push(NameSpace::new());
    nss.declare(&Identifier::from("zero"), false, Value::Integer(0)).unwrap();
    nss.declare(&Identifier::from("two"), true, Value::Integer(2)).unwrap();
    nss.declare(&Identifier::from("yes"), false, Value::Boolean(true)).unwrap();
    nss.declare(&Identifier::from("nothing"), false, Value::Unit).unwrap();
    nss
}

fn eval(e: &Expression) -> Result<Value, EvalError> {
    e.eval(&mut scopes())
}

fn mismatch(e: Expression, expected: Type, found: Type) -> EvalError {
    EvalError::TypeMismatch { expression: e, expected, found: Some(found) }
}

#[test]
fn coercions_give_the_value_or_its_kind() {
    assert_eq!(Value::Integer(-3).to_int(), Ok(-3));
    assert_eq!(Value::Boolean(true).to_int(), Err(Type::Bool));
    assert_eq!(Value::Unit.to_int(), Err(Type::Unit));
    assert_eq!(Value::Pointer(Address::HeapAddress(0)).to_int(), Err(Type::Address));
    assert_eq!(Value::Boolean(false).to_bool(), Ok(false));
    assert_eq!(Value::Integer(1).to_bool(), Err(Type::Int));
    assert_eq!(Value::Unit.to_bool(), Err(Type::Unit));
    assert_eq!(Value::Pointer(Address::HeapAddress(0)).to_bool(), Err(Type::Address));
}

#[test]
fn literals_denote_their_values() {
    assert_eq!(Value::from(ParsedValue::Integer(5)), Value::Integer(5));
    assert_eq!(Value::from(ParsedValue::Boolean(true)), Value::Boolean(true));
    assert_eq!(Value::from(ParsedValue::Unit), Value::Unit);
    assert_eq!(eval(&num(5)), Ok(Value::Integer(5)));
    assert_eq!(eval(&boolean(false)), Ok(Value::Boolean(false)));
    assert_eq!(eval(&unit()), Ok(Value::Unit));
}

#[test]
fn kinds_of_values() {
    assert_eq!(Type::from(&Value::Integer(0)), Type::Int);
    assert_eq!(Type::from(&Value::Boolean(true)), Type::Bool);
    assert_eq!(Type::from(&Value::Unit), Type::Unit);
    assert_eq!(Type::from(&Value::Pointer(Address::HeapAddress(1))), Type::Address);
}

#[test]
fn value_clone_is_equal() {
    let values = [
        Value::Integer(3),
        Value::Boolean(true),
        Value::Unit,
        Value::Pointer(Address::StackAddress(1, Identifier::from("p"))),
    ];
    for v in values {
        assert_eq!(v.clone(), v);
    }
}

#[test]
fn arithmetic_on_integers() {
    assert_eq!(eval(&op(num(7), Binop::Add, num(5))), Ok(Value::Integer(12)));
    assert_eq!(eval(&op(num(7), Binop::Sub, num(9))), Ok(Value::Integer(-2)));
    assert_eq!(eval(&op(num(-7), Binop::Mul, num(6))), Ok(Value::Integer(-42)));
    assert_eq!(eval(&op(name("two"), Binop::Add, name("two"))), Ok(Value::Integer(4)));
}

#[test]
fn arithmetic_wraps_around() {
    assert_eq!(eval(&op(num(isize::MAX), Binop::Add, num(1))), Ok(Value::Integer(isize::MIN)));
    assert_eq!(eval(&op(num(isize::MIN), Binop::Sub, num(1))), Ok(Value::Integer(isize::MAX)));
    assert_eq!(eval(&op(num(isize::MAX), Binop::Mul, num(2))), Ok(Value::Integer(-2)));
    assert_eq!(eval(&op(num(isize::MIN), Binop::Mul, num(-1))), Ok(Value::Integer(isize::MIN)));
}

#[test]
fn division_rounds_toward_zero() {
    let cases = [
        (7, 2, 3, 1),
        (-7, 2, -3, -1),
        (7, -2, -3, 1),
        (-7, -2, 3, -1),
        (6, 3, 2, 0),
        (-6, 3, -2, 0),
        (0, 5, 0, 0),
        (1, 5, 0, 1),
        (-1, 5, 0, -1),
        (isize::MAX, -1, -isize::MAX, 0),
        (isize::MIN, 1, isize::MIN, 0),
        (isize::MIN, 2, isize::MIN / 2, 0),
        (isize::MIN, isize::MAX, -1, -1),
    ];
    for (a, b, q, r) in cases {
        assert_eq!(eval(&op(num(a), Binop::Div, num(b))), Ok(Value::Integer(q)), "{} / {}", a, b);
        assert_eq!(eval(&op(num(a), Binop::Mod, num(b))), Ok(Value::Integer(r)), "{} % {}", a, b);
        assert_eq!(a / b, q);
        assert_eq!(a % b, r);
    }
}

#[test]
fn the_quotient_that_does_not_fit_wraps() {
    assert_eq!(eval(&op(num(isize::MIN), Binop::Div, num(-1))), Ok(Value::Integer(isize::MIN)));
    assert_eq!(eval(&op(num(isize::MIN), Binop::Mod, num(-1))), Ok(Value::Integer(0)));
}

#[test]
fn division_by_zero_names_the_divisor() {
    let divisor = op(num(1), Binop::Sub, num(1));
    assert_eq!(
        eval(&op(num(1), Binop::Div, op(num(1), Binop::Sub, num(1)))),
        Err(EvalError::DivisionByZero(divisor))
    );
    assert_eq!(
        eval(&op(num(1), Binop::Mod, name("zero"))),
        Err(EvalError::DivisionByZero(name("zero")))
    );
    assert_eq!(eval(&op(num(0), Binop::Div, num(0))), Err(EvalError::DivisionByZero(num(0))));
}

#[test]
fn the_left_operand_fails_first() {
    assert_eq!(
        eval(&op(boolean(true), Binop::Div, num(0))),
        Err(mismatch(boolean(true), Type::Int, Type::Bool))
    );
    assert_eq!(eval(&op(name("a"), Binop::Add, name("b"))), Err(undefined("a")));
    assert_eq!(eval(&op(num(1), Binop::Add, name("b"))), Err(undefined("b")));
    assert_eq!(
        eval(&op(op(num(1), Binop::Div, num(0)), Binop::Eq, name("b"))),
        Err(EvalError::DivisionByZero(num(0)))
    );
}

#[test]
fn ordering_on_integers() {
    assert_eq!(eval(&op(num(1), Binop::Leq, num(1))), Ok(Value::Boolean(true)));
    assert_eq!(eval(&op(num(2), Binop::Leq, num(1))), Ok(Value::Boolean(false)));
    assert_eq!(eval(&op(num(1), Binop::Geq, num(1))), Ok(Value::Boolean(true)));
    assert_eq!(eval(&op(num(0), Binop::Geq, num(1))), Ok(Value::Boolean(false)));
    assert_eq!(eval(&op(num(0), Binop::Lt, num(0))), Ok(Value::Boolean(false)));
    assert_eq!(eval(&op(num(-1), Binop::Lt, num(0))), Ok(Value::Boolean(true)));
    assert_eq!(eval(&op(num(0), Binop::Gt, num(0))), Ok(Value::Boolean(false)));
    assert_eq!(eval(&op(num(1), Binop::Gt, num(0))), Ok(Value::Boolean(true)));
}

#[test]
fn integer_operators_refuse_other_kinds() {
    for binop in [
        Binop::Add,
        Binop::Sub,
        Binop::Mul,
        Binop::Div,
        Binop::Mod,
        Binop::Leq,
        Binop::Geq,
        Binop::Lt,
        Binop::Gt,
    ] {
        assert_eq!(
            eval(&op(boolean(true), binop, boolean(false))),
            Err(mismatch(boolean(true), Type::Int, Type::Bool))
        );
        assert_eq!(
            eval(&op(num(1), binop, unit())),
            Err(mismatch(unit(), Type::Int, Type::Unit))
        );
        assert_eq!(
            eval(&op(num(1), binop, name("yes"))),
            Err(mismatch(name("yes"), Type::Int, Type::Bool))
        );
    }
}

#[test]
fn equality_within_one_kind() {
    assert_eq!(eval(&op(num(0), Binop::Eq, num(0))), Ok(Value::Boolean(true)));
    assert_eq!(eval(&op(num(0), Binop::Eq, num(1))), Ok(Value::Boolean(false)));
    assert_eq!(eval(&op(num(0), Binop::Neq, num(0))), Ok(Value::Boolean(false)));
    assert_eq!(eval(&op(num(0), Binop::Neq, num(1))), Ok(Value::Boolean(true)));
    assert_eq!(eval(&op(boolean(true), Binop::Eq, boolean(false))), Ok(Value::Boolean(false)));
    assert_eq!(eval(&op(boolean(true), Binop::Eq, boolean(true))), Ok(Value::Boolean(true)));
    assert_eq!(eval(&op(boolean(true), Binop::Neq, boolean(false))), Ok(Value::Boolean(true)));
    assert_eq!(eval(&op(boolean(false), Binop::Neq, boolean(false))), Ok(Value::Boolean(false)));
}

#[test]
fn equality_between_integer_and_boolean_is_a_type_mismatch_in_the_right_operand() {
    for binop in [Binop::Eq, Binop::Neq] {
        assert_eq!(
            eval(&op(boolean(true), binop, num(1))),
            Err(mismatch(num(1), Type::Bool, Type::Int))
        );
        assert_eq!(
            eval(&op(num(1), binop, boolean(true))),
            Err(mismatch(boolean(true), Type::Int, Type::Bool))
        );
        assert_eq!(
            eval(&op(name("two"), binop, name("yes"))),
            Err(mismatch(name("yes"), Type::Int, Type::Bool))
        );
        assert_eq!(
            eval(&op(name("yes"), binop, op(name("two"), Binop::Add, num(1)))),
            Err(mismatch(op(name("two"), Binop::Add, num(1)), Type::Bool, Type::Int))
        );
    }
}

#[test]
fn equality_on_other_kinds_is_undefined() {
    assert_eq!(eval(&op(unit(), Binop::Eq, unit())), Err(undefined("Eq")));
    assert_eq!(eval(&op(unit(), Binop::Neq, num(1))), Err(undefined("Neq")));
    assert_eq!(eval(&op(num(1), Binop::Eq, name("nothing"))), Err(undefined("Eq")));
}

#[test]
fn and_is_false_as_soon_as_one_side_is_false() {
    assert_eq!(eval(&op(boolean(true), Binop::And, boolean(true))), Ok(Value::Boolean(true)));
    assert_eq!(eval(&op(boolean(true), Binop::And, boolean(false))), Ok(Value::Boolean(false)));
    assert_eq!(eval(&op(boolean(false), Binop::And, boolean(true))), Ok(Value::Boolean(false)));
    assert_eq!(eval(&op(boolean(false), Binop::And, num(1))), Ok(Value::Boolean(false)));
    assert_eq!(eval(&op(unit(), Binop::And, boolean(false))), Ok(Value::Boolean(false)));
    assert_eq!(eval(&op(boolean(true), Binop::And, num(1))), Err(undefined("And")));
    assert_eq!(eval(&op(num(1), Binop::And, boolean(true))), Err(undefined("And")));
}

#[test]
fn and_evaluates_both_sides() {
    assert_eq!(
        eval(&op(boolean(false), Binop::And, op(num(1), Binop::Div, num(0)))),
        Err(EvalError::DivisionByZero(num(0)))
    );
    assert_eq!(eval(&op(boolean(false), Binop::And, name("absent"))), Err(undefined("absent")));
}

#[test]
fn or_is_true_when_one_side_is_true_and_false_otherwise() {
    assert_eq!(eval(&op(boolean(true), Binop::Or, boolean(false))), Ok(Value::Boolean(true)));
    assert_eq!(eval(&op(boolean(false), Binop::Or, boolean(true))), Ok(Value::Boolean(true)));
    assert_eq!(eval(&op(boolean(false), Binop::Or, boolean(false))), Ok(Value::Boolean(false)));
    assert_eq!(eval(&op(num(1), Binop::Or, boolean(true))), Ok(Value::Boolean(true)));
    assert_eq!(eval(&op(num(1), Binop::Or, num(2))), Ok(Value::Boolean(false)));
    assert_eq!(eval(&op(boolean(false), Binop::Or, unit())), Ok(Value::Boolean(false)));
}

#[test]
fn or_stops_at_a_true_left_side() {
    assert_eq!(
        eval(&op(boolean(true), Binop::Or, op(num(1), Binop::Div, num(0)))),
        Ok(Value::Boolean(true))
    );
    assert_eq!(eval(&op(boolean(true), Binop::Or, name("absent"))), Ok(Value::Boolean(true)));
    assert_eq!(
        eval(&op(boolean(false), Binop::Or, op(num(1), Binop::Div, num(0)))),
        Err(EvalError::DivisionByZero(num(0)))
    );
    assert_eq!(
        eval(&op(op(num(1), Binop::Div, num(0)), Binop::Or, boolean(true))),
        Err(EvalError::DivisionByZero(num(0)))
    );
}

#[test]
fn names_evaluate_to_what_they_are_bound_to() {
    assert_eq!(eval(&name("two")), Ok(Value::Integer(2)));
    assert_eq!(eval(&name("yes")), Ok(Value::Boolean(true)));
    assert_eq!(eval(&name("absent")), Err(undefined("absent")));
    let read = Expression::ValueAt(LeftExpression::Identifier(Identifier::from("two")));
    assert_eq!(eval(&read), Ok(Value::Integer(2)));
    let absent = Expression::ValueAt(LeftExpression::Identifier(Identifier::from("absent")));
    assert_eq!(eval(&absent), Err(undefined("absent")));
}

#[test]
fn conditional_evaluates_one_branch() {
    let quotient = op(num(1), Binop::Div, num(0));
    assert_eq!(eval(&cond(boolean(true), num(1), num(2))), Ok(Value::Integer(1)));
    assert_eq!(eval(&cond(boolean(false), num(1), num(2))), Ok(Value::Integer(2)));
    assert_eq!(eval(&cond(boolean(true), num(1), quotient.clone())), Ok(Value::Integer(1)));
    assert_eq!(eval(&cond(boolean(false), quotient.clone(), num(2))), Ok(Value::Integer(2)));
    assert_eq!(
        eval(&cond(boolean(false), num(1), quotient)),
        Err(EvalError::DivisionByZero(num(0)))
    );
    assert_eq!(eval(&cond(num(1), num(1), num(2))), Err(undefined("Conditional")));
    assert_eq!(eval(&cond(name("absent"), num(1), num(2))), Err(undefined("absent")));
}

#[test]
fn address_of_a_name() {
    let mut nss = scopes();
    nss.push(NameSpace::new());
    nss.declare(&Identifier::from("two"), false, Value::Integer(22)).unwrap();
    let two = Expression::AmpersAnd(Box::new(name("two")));
    assert_eq!(
        two.eval(&mut nss),
        Ok(Value::Pointer(Address::StackAddress(1, Identifier::from("two"))))
    );
    let zero = Expression::AmpersAnd(
        Box::new(Expression::ValueAt(LeftExpression::Identifier(Identifier::from("zero")))),
    );
    assert_eq!(
        zero.eval(&mut nss),
        Ok(Value::Pointer(Address::StackAddress(0, Identifier::from("zero"))))
    );
    let absent = Expression::AmpersAnd(Box::new(name("absent")));
    assert_eq!(absent.eval(&mut nss), Err(undefined("absent")));
}

#[test]
fn constructs_without_a_rule_say_so() {
    let not_implemented = |n: &str| EvalError::NotImplemented(Identifier::from(n));
    assert_eq!(
        eval(&Expression::NewPtr(PtrKind::Box, Box::new(num(1)))),
        Err(not_implemented("NewPtr"))
    );
    assert_eq!(eval(&Expression::Deref(Box::new(name("two")))), Err(not_implemented("Deref")));
    assert_eq!(
        eval(&Expression::AmpersAnd(Box::new(num(1)))),
        Err(not_implemented("AmpersAnd"))
    );
    let target = LeftExpression::Deref(Box::new(LeftExpression::Identifier(Identifier::from("two"))));
    assert_eq!(eval(&Expression::ValueAt(target)), Err(not_implemented("ValueAt")));
}

#[test]
fn evaluation_leaves_the_scopes_alone() {
    let mut nss = scopes();
    let e = op(op(name("two"), Binop::Mul, num(21)), Binop::Eq, num(42));
    assert_eq!(e.eval(&mut nss), Ok(Value::Boolean(true)));
    assert_eq!(e.eval(&mut nss), Ok(Value::Boolean(true)));
    assert_eq!(nss.depth(), 1);
    assert_eq!(nss.find(&Identifier::from("two")), Ok(Value::Integer(2)));
}

#[test]
fn expression_clone_is_equal() {
    let e = cond(
        op(name("a"), Binop::Lt, num(3)),
        Expression::NewPtr(PtrKind::Rc, Box::new(unit())),
        Expression::Deref(Box::new(Expression::AmpersAnd(Box::new(Expression::ValueAt(
            LeftExpression::Deref(Box::new(LeftExpression::Identifier(Identifier::from("p")))),
        ))))),
    );
    assert_eq!(e.clone(), e);
}
