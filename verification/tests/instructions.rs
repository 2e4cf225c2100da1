use murust::error::EvalError;
use murust::identifier::Identifier;
use murust::namespace::NameSpace;
use murust::namespacestack::NameSpaceStack;
use murust::parsing::binop::Binop;
use murust::parsing::expression::Expression;
use murust::parsing::instruction::Instruction;
use murust::parsing::leftexpression::LeftExpression;
use murust::parsing::parsedvalue::ParsedValue;
use murust::parsing::value::Value;

fn id(n: &str) -> Identifier {
    Identifier::from(n)
}

fn num(i: isize) -> Expression {
    Expression::Const(ParsedValue::Integer(i))
}

fn boolean(b: bool) -> Expression {
    Expression::Const(ParsedValue::Boolean(b))
}

fn name(n: &str) -> Expression {
    Expression::Identifier(id(n))
}

fn op(lhs: Expression, op: Binop, rhs: Expression) -> Expression {
    Expression::BinOp(Box::new(lhs), op, Box::new(rhs))
}

fn let_(n: &str, mutable: bool, expr: Expression) -> Instruction {
    Instruction::Let { id: id(n), mutable, expr }
}

fn write(n: &str, expr: Expression) -> Instruction {
    Instruction::WriteAt(LeftExpression::Identifier(id(n)), expr)
}

fn if_else(cond: Expression, t: Instruction, f: Instruction) -> Instruction {
    Instruction::IfElse { cond, cond_true: Box::new(t), cond_false: Box::new(f) }
}

fn while_(cond: Expression, body: Instruction) -> Instruction {
    Instruction::While(cond, Box::new(body))
}

fn scopes() -> NameSpaceStack {
    let mut nss = NameSpaceStack::new();
    nss.push(NameSpace::new());
    nss
}

fn undefined(n: &str) -> EvalError {
    EvalError::Undefined(id(n))
}

#[test]
fn expression_statement_binds_nothing() {
    let mut nss = scopes();
    assert_eq!(
        Instruction::Expr(op(num(1), Binop::Add, num(1))).exec(&mut nss),
        Ok((None, Value::Integer(2)))
    );
    assert_eq!(Instruction::Expr(name("x")).exec(&mut nss), Err(undefined("x")));
}

#[test]
fn let_binds_in_the_innermost_scope() {
    let mut nss = scopes();
    assert_eq!(
        let_("x", false, op(num(2), Binop::Mul, num(3))).exec(&mut nss),
        Ok((Some(id("x")), Value::Integer(6)))
    );
    assert_eq!(nss.find(&id("x")), Ok(Value::Integer(6)));
    assert_eq!(let_("x", true, num(1)).exec(&mut nss), Err(EvalError::AlreadyDefined(id("x"))));
    assert_eq!(nss.find(&id("x")), Ok(Value::Integer(6)));
    assert_eq!(let_("y", true, name("absent")).exec(&mut nss), Err(undefined("absent")));
    assert_eq!(nss.find(&id("y")), Err(undefined("y")));
}

#[test]
fn let_without_a_scope_fails() {
    let mut nss = NameSpaceStack::new();
    assert_eq!(let_("x", false, num(1)).exec(&mut nss), Err(EvalError::NoScope));
    assert_eq!(nss.depth(), 0);
}

#[test]
fn empty_block_yields_unit() {
    let mut nss = scopes();
    assert_eq!(Instruction::Block(vec![]).exec(&mut nss), Ok((None, Value::Unit)));
    assert_eq!(nss.depth(), 1);
}

#[test]
fn block_yields_the_value_of_its_last_instruction() {
    let mut nss = scopes();
    let block = Instruction::Block(vec![
        let_("x", false, num(1)),
        Instruction::Expr(boolean(true)),
        Instruction::Expr(op(name("x"), Binop::Add, num(1))),
    ]);
    assert_eq!(block.exec(&mut nss), Ok((None, Value::Integer(2))));
    let ends_with_loop = Instruction::Block(vec![
        Instruction::Expr(num(1)),
        while_(boolean(false), Instruction::Expr(num(2))),
    ]);
    assert_eq!(ends_with_loop.exec(&mut nss), Ok((None, Value::Unit)));
}

#[test]
fn block_of_one_declaration_yields_the_declared_value() {
    let mut nss = scopes();
    let block = Instruction::Block(vec![let_("tmp", false, num(0))]);
    assert_eq!(block.exec(&mut nss), Ok((None, Value::Integer(0))));
    assert_eq!(nss.find(&id("tmp")), Err(undefined("tmp")));
}

#[test]
fn bindings_of_a_block_end_with_it() {
    let mut nss = scopes();
    let_("x", false, num(0)).exec(&mut nss).unwrap();
    let block = Instruction::Block(vec![
        let_("x", false, num(1)),
        let_("y", false, num(2)),
        Instruction::Expr(op(name("x"), Binop::Add, name("y"))),
    ]);
    assert_eq!(block.exec(&mut nss), Ok((None, Value::Integer(3))));
    assert_eq!(nss.find(&id("x")), Ok(Value::Integer(0)));
    assert_eq!(nss.find(&id("y")), Err(undefined("y")));
    assert_eq!(nss.depth(), 1);
}

#[test]
fn failing_block_leaves_its_scope_and_keeps_earlier_effects() {
    let mut nss = scopes();
    let_("n", true, num(0)).exec(&mut nss).unwrap();
    let block = Instruction::Block(vec![
        write("n", num(1)),
        Instruction::Block(vec![
            let_("inner", false, num(5)),
            write("n", num(2)),
            Instruction::Expr(op(num(1), Binop::Div, num(0))),
            write("n", num(3)),
        ]),
        write("n", num(4)),
    ]);
    assert_eq!(block.exec(&mut nss), Err(EvalError::DivisionByZero(num(0))));
    assert_eq!(nss.depth(), 1);
    assert_eq!(nss.find(&id("n")), Ok(Value::Integer(2)));
    assert_eq!(nss.find(&id("inner")), Err(undefined("inner")));
}

#[test]
fn write_goes_to_the_nearest_owner() {
    let mut nss = scopes();
    let_("n", true, num(0)).exec(&mut nss).unwrap();
    assert_eq!(write("n", num(7)).exec(&mut nss), Ok((None, Value::Integer(7))));
    assert_eq!(nss.find(&id("n")), Ok(Value::Integer(7)));
    assert_eq!(write("absent", num(7)).exec(&mut nss), Err(undefined("absent")));
    assert_eq!(write("n", name("absent")).exec(&mut nss), Err(undefined("absent")));
    let_("fixed", false, num(0)).exec(&mut nss).unwrap();
    assert_eq!(
        write("fixed", num(1)).exec(&mut nss),
        Err(EvalError::NotMutable(Some(name("fixed"))))
    );
    assert_eq!(nss.find(&id("fixed")), Ok(Value::Integer(0)));
}

#[test]
fn write_to_an_immutable_shadow_fails() {
    let mut nss = scopes();
    let block = Instruction::Block(vec![
        let_("mayfreeze", true, num(0)),
        Instruction::Block(vec![let_("mayfreeze", false, num(1)), write("mayfreeze", num(2))]),
    ]);
    assert_eq!(block.exec(&mut nss), Err(EvalError::NotMutable(Some(name("mayfreeze")))));
    let block = Instruction::Block(vec![
        let_("maymelt", false, num(0)),
        Instruction::Block(vec![let_("maymelt", true, num(0)), write("maymelt", num(1))]),
    ]);
    assert_eq!(block.exec(&mut nss), Ok((None, Value::Integer(1))));
}

#[test]
fn write_through_a_pointer_is_not_supported() {
    let mut nss = scopes();
    let_("p", true, num(0)).exec(&mut nss).unwrap();
    let target = LeftExpression::Deref(Box::new(LeftExpression::Identifier(id("p"))));
    assert_eq!(Instruction::WriteAt(target.clone(), num(1)).exec(&mut nss), Err(undefined("WriteAt")));
    assert_eq!(
        Instruction::WriteAt(target, name("absent")).exec(&mut nss),
        Err(undefined("absent"))
    );
    assert_eq!(nss.find(&id("p")), Ok(Value::Integer(0)));
}

#[test]
fn if_else_executes_one_branch() {
    let mut nss = scopes();
    let_("n", true, num(0)).exec(&mut nss).unwrap();
    let choose = |c: Expression| if_else(c, write("n", num(1)), write("n", num(2)));
    assert_eq!(choose(boolean(true)).exec(&mut nss), Ok((None, Value::Integer(1))));
    assert_eq!(nss.find(&id("n")), Ok(Value::Integer(1)));
    assert_eq!(choose(boolean(false)).exec(&mut nss), Ok((None, Value::Integer(2))));
    assert_eq!(nss.find(&id("n")), Ok(Value::Integer(2)));
    assert_eq!(choose(num(1)).exec(&mut nss), Err(undefined("IfElse")));
    assert_eq!(choose(name("absent")).exec(&mut nss), Err(undefined("absent")));
    assert_eq!(nss.find(&id("n")), Ok(Value::Integer(2)));
}

#[test]
fn if_else_yields_what_its_branch_yields() {
    let mut nss = scopes();
    let branch = if_else(boolean(true), let_("x", false, num(3)), Instruction::Expr(num(0)));
    assert_eq!(branch.exec(&mut nss), Ok((Some(id("x")), Value::Integer(3))));
    assert_eq!(nss.find(&id("x")), Ok(Value::Integer(3)));
}

#[test]
fn while_yields_unit_whatever_its_body_yields() {
    let mut nss = scopes();
    let_("k", true, num(0)).exec(&mut nss).unwrap();
    let count = while_(
        op(name("k"), Binop::Lt, num(4)),
        Instruction::Block(vec![write("k", op(name("k"), Binop::Add, num(3)))]),
    );
    assert_eq!(count.exec(&mut nss), Ok((None, Value::Unit)));
    assert_eq!(nss.find(&id("k")), Ok(Value::Integer(6)));
    let bare = while_(op(name("k"), Binop::Lt, num(10)), write("k", op(name("k"), Binop::Add, num(1))));
    assert_eq!(bare.exec(&mut nss), Ok((None, Value::Unit)));
    assert_eq!(nss.find(&id("k")), Ok(Value::Integer(10)));
    let never = while_(boolean(false), Instruction::Expr(num(1)));
    assert_eq!(never.exec(&mut nss), Ok((None, Value::Unit)));
}

#[test]
fn while_needs_a_boolean_condition() {
    let mut nss = scopes();
    assert_eq!(while_(num(1), Instruction::Expr(num(1))).exec(&mut nss), Err(undefined("While")));
    assert_eq!(
        while_(name("absent"), Instruction::Expr(num(1))).exec(&mut nss),
        Err(undefined("absent"))
    );
}

#[test]
fn failing_iteration_ends_the_loop_with_every_scope_left() {
    let mut nss = scopes();
    let_("k", true, num(3)).exec(&mut nss).unwrap();
    let countdown = while_(
        boolean(true),
        Instruction::Block(vec![
            let_("q", false, op(num(6), Binop::Div, name("k"))),
            write("k", op(name("k"), Binop::Sub, num(1))),
        ]),
    );
    assert_eq!(countdown.exec(&mut nss), Err(EvalError::DivisionByZero(name("k"))));
    assert_eq!(nss.depth(), 1);
    assert_eq!(nss.find(&id("k")), Ok(Value::Integer(0)));
    let bare = while_(boolean(true), Instruction::Expr(op(num(1), Binop::Div, num(0))));
    assert_eq!(bare.exec(&mut nss), Err(EvalError::DivisionByZero(num(0))));
    assert_eq!(nss.depth(), 1);
    assert_eq!(nss.find(&id("k")), Ok(Value::Integer(0)));
}

#[test]
fn loop_stops_at_the_iteration_limit() {
    let mut nss = scopes();
    let_("k", true, num(0)).exec(&mut nss).unwrap();
    let forever = while_(boolean(true), write("k", op(name("k"), Binop::Add, num(1))));
    assert_eq!(forever.exec_bounded(&mut nss, 10), Err(EvalError::LoopLimit));
    assert_eq!(nss.find(&id("k")), Ok(Value::Integer(10)));
    assert_eq!(forever.exec_bounded(&mut nss, 0), Err(EvalError::LoopLimit));
    assert_eq!(nss.find(&id("k")), Ok(Value::Integer(10)));
    assert_eq!(nss.depth(), 1);
}

#[test]
fn limit_counts_the_iterations_of_each_loop_apart() {
    let mut nss = scopes();
    let_("i", true, num(0)).exec(&mut nss).unwrap();
    let_("n", true, num(0)).exec(&mut nss).unwrap();
    let nested = while_(
        op(name("i"), Binop::Lt, num(3)),
        Instruction::Block(vec![
            let_("j", true, num(0)),
            while_(
                op(name("j"), Binop::Lt, num(3)),
                Instruction::Block(vec![
                    write("j", op(name("j"), Binop::Add, num(1))),
                    write("n", op(name("n"), Binop::Add, num(1))),
                ]),
            ),
            write("i", op(name("i"), Binop::Add, num(1))),
        ]),
    );
    assert_eq!(nested.exec_bounded(&mut nss, 3), Ok((None, Value::Unit)));
    assert_eq!(nss.find(&id("n")), Ok(Value::Integer(9)));
}

#[test]
fn a_larger_limit_changes_nothing_for_a_loop_that_ends() {
    let count = |limit: usize| {
        let mut nss = scopes();
        let_("k", true, num(0)).exec(&mut nss).unwrap();
        let r = while_(
            op(name("k"), Binop::Lt, num(5)),
            write("k", op(name("k"), Binop::Add, num(1))),
        ).exec_bounded(&mut nss, limit);
        (r, nss.find(&id("k")))
    };
    assert_eq!(count(4), (Err(EvalError::LoopLimit), Ok(Value::Integer(4))));
    assert_eq!(count(5), (Ok((None, Value::Unit)), Ok(Value::Integer(5))));
    assert_eq!(count(6), count(5));
    assert_eq!(count(usize::MAX), count(5));
}

#[test]
fn without_loops_the_limit_has_no_say() {
    let mut nss = scopes();
    let block = Instruction::Block(vec![let_("x", false, num(1)), Instruction::Expr(name("x"))]);
    assert_eq!(block.exec_bounded(&mut nss, 0), Ok((None, Value::Integer(1))));
}

#[test]
fn free_has_no_rule_yet() {
    let mut nss = scopes();
    let_("p", true, num(0)).exec(&mut nss).unwrap();
    assert_eq!(
        Instruction::Free(LeftExpression::Identifier(id("p"))).exec(&mut nss),
        Err(EvalError::NotImplemented(id("Free")))
    );
    assert_eq!(nss.find(&id("p")), Ok(Value::Integer(0)));
}

#[test]
fn exec_runs_a_loop_to_its_end() {
    let mut nss = scopes();
    let_("k", true, num(0)).exec(&mut nss).unwrap();
    let count = while_(
        op(name("k"), Binop::Lt, num(100000)),
        write("k", op(name("k"), Binop::Add, num(1))),
    );
    assert_eq!(count.exec(&mut nss), Ok((None, Value::Unit)));
    assert_eq!(nss.find(&id("k")), Ok(Value::Integer(100000)));
    assert_eq!(count.exec_bounded(&mut nss, usize::MAX), Ok((None, Value::Unit)));
}
