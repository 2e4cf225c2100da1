use murust::error::EvalError;
use murust::identifier::Identifier;
use murust::memory::Address;
use murust::namespace::NameSpace;
use murust::namespacestack::NameSpaceStack;
use murust::parsing::expression::Expression;
use murust::parsing::value::Value;

fn id(name: &str) -> Identifier {
    Identifier::from(name)
}

#[test]
fn identifier_keeps_its_spelling() {
    let x = id("counter");
    assert_eq!(x.as_str(), "counter");
    assert_eq!(x.to_text(), "counter");
    assert_eq!(x.clone(), x);
    assert_eq!(x, Identifier::new("counter"));
    assert_ne!(x, id("Counter"));
    assert_eq!(x.into_string(), String::from("counter"));
}

#[test]
fn scope_declares_each_name_once() {
    let mut ns = NameSpace::new();
    assert_eq!(ns.declare(&id("x"), false, Value::Integer(1)), Ok(()));
    assert_eq!(
        ns.declare(&id("x"), true, Value::Integer(2)),
        Err(EvalError::AlreadyDefined(id("x")))
    );
    assert_eq!(ns.find(&id("x")), Ok(Value::Integer(1)));
    assert_eq!(ns.declare(&id("y"), true, Value::Boolean(true)), Ok(()));
    assert_eq!(ns.find(&id("y")), Ok(Value::Boolean(true)));
}

#[test]
fn scope_finds_only_its_own_names() {
    let ns = NameSpace::new();
    assert_eq!(ns.find(&id("x")), Err(EvalError::Undefined(id("x"))));
}

#[test]
fn scope_write_obeys_mutability() {
    let mut ns = NameSpace::new();
    ns.declare(&id("fixed"), false, Value::Integer(1)).unwrap();
    ns.declare(&id("free"), true, Value::Integer(1)).unwrap();
    assert_eq!(
        ns.set(&id("fixed"), Value::Integer(2)),
        Err(EvalError::NotMutable(Some(Expression::Identifier(id("fixed")))))
    );
    assert_eq!(ns.find(&id("fixed")), Ok(Value::Integer(1)));
    assert_eq!(ns.set(&id("free"), Value::Integer(2)), Ok(()));
    assert_eq!(ns.find(&id("free")), Ok(Value::Integer(2)));
    assert_eq!(ns.set(&id("absent"), Value::Unit), Err(EvalError::Undefined(id("absent"))));
}

#[test]
fn scope_write_may_change_the_kind() {
    let mut ns = NameSpace::new();
    ns.declare(&id("v"), true, Value::Integer(1)).unwrap();
    assert_eq!(ns.set(&id("v"), Value::Boolean(false)), Ok(()));
    assert_eq!(ns.find(&id("v")), Ok(Value::Boolean(false)));
    assert_eq!(ns.set(&id("v"), Value::Unit), Ok(()));
    assert_eq!(ns.find(&id("v")), Ok(Value::Unit));
}

#[test]
fn find_sees_the_innermost_binding() {
    let mut nss = NameSpaceStack::new();
    nss.push(NameSpace::new());
    let x = id("x");
    nss.declare(&x, false, Value::Integer(1)).unwrap();
    nss.push(NameSpace::new());
    nss.declare(&x, true, Value::Integer(2)).unwrap();
    assert_eq!(nss.find(&x), Ok(Value::Integer(2)));
    assert!(nss.pop().is_some());
    assert_eq!(nss.find(&x), Ok(Value::Integer(1)));
    assert_eq!(nss.find(&id("y")), Err(EvalError::Undefined(id("y"))));
}

#[test]
fn redeclaration_fails_in_the_same_scope_and_succeeds_in_a_nested_one() {
    let mut nss = NameSpaceStack::new();
    nss.push(NameSpace::new());
    let x = id("x");
    assert_eq!(nss.declare(&x, false, Value::Integer(1)), Ok(()));
    assert_eq!(
        nss.declare(&x, false, Value::Integer(1)),
        Err(EvalError::AlreadyDefined(id("x")))
    );
    nss.push(NameSpace::new());
    assert_eq!(nss.declare(&x, false, Value::Integer(3)), Ok(()));
    assert_eq!(
        nss.declare(&x, true, Value::Integer(4)),
        Err(EvalError::AlreadyDefined(id("x")))
    );
    assert_eq!(nss.find(&x), Ok(Value::Integer(3)));
}

#[test]
fn declaration_needs_a_scope() {
    let mut nss = NameSpaceStack::new();
    assert_eq!(nss.declare(&id("x"), true, Value::Unit), Err(EvalError::NoScope));
    assert_eq!(nss.depth(), 0);
    assert_eq!(nss.find(&id("x")), Err(EvalError::Undefined(id("x"))));
}

#[test]
fn pop_of_an_empty_stack_is_refused() {
    let mut nss = NameSpaceStack::new();
    assert!(nss.pop().is_none());
    assert_eq!(nss.depth(), 0);
    nss.push(NameSpace::new());
    assert_eq!(nss.depth(), 1);
    assert!(nss.pop().is_some());
    assert!(nss.pop().is_none());
}

#[test]
fn pop_returns_the_innermost_scope() {
    let mut nss = NameSpaceStack::new();
    nss.push(NameSpace::new());
    nss.declare(&id("outer"), false, Value::Integer(1)).unwrap();
    nss.push(NameSpace::new());
    nss.declare(&id("inner"), false, Value::Integer(2)).unwrap();
    let top = nss.pop().unwrap();
    assert_eq!(top.find(&id("inner")), Ok(Value::Integer(2)));
    assert_eq!(top.find(&id("outer")), Err(EvalError::Undefined(id("outer"))));
    assert_eq!(nss.find(&id("inner")), Err(EvalError::Undefined(id("inner"))));
}

#[test]
fn immutable_shadow_blocks_the_write_to_a_mutable_outer_binding() {
    let mut nss = NameSpaceStack::new();
    nss.push(NameSpace::new());
    let n = id("n");
    nss.declare(&n, true, Value::Integer(0)).unwrap();
    nss.push(NameSpace::new());
    nss.declare(&n, false, Value::Integer(1)).unwrap();
    assert_eq!(
        nss.set(&n, Value::Integer(2)),
        Err(EvalError::NotMutable(Some(Expression::Identifier(id("n")))))
    );
    assert_eq!(nss.find(&n), Ok(Value::Integer(1)));
    nss.pop();
    assert_eq!(nss.find(&n), Ok(Value::Integer(0)));
}

#[test]
fn mutable_shadow_takes_the_write_and_leaves_the_outer_binding() {
    let mut nss = NameSpaceStack::new();
    nss.push(NameSpace::new());
    let n = id("n");
    nss.declare(&n, false, Value::Integer(0)).unwrap();
    nss.push(NameSpace::new());
    nss.declare(&n, true, Value::Integer(1)).unwrap();
    assert_eq!(nss.set(&n, Value::Integer(2)), Ok(()));
    assert_eq!(nss.find(&n), Ok(Value::Integer(2)));
    nss.pop();
    assert_eq!(nss.find(&n), Ok(Value::Integer(0)));
}

#[test]
fn write_skips_scopes_without_the_name() {
    let mut nss = NameSpaceStack::new();
    nss.push(NameSpace::new());
    nss.declare(&id("n"), true, Value::Integer(0)).unwrap();
    nss.push(NameSpace::new());
    nss.declare(&id("other"), false, Value::Integer(9)).unwrap();
    nss.push(NameSpace::new());
    assert_eq!(nss.set(&id("n"), Value::Integer(5)), Ok(()));
    assert_eq!(nss.find(&id("n")), Ok(Value::Integer(5)));
    assert_eq!(nss.set(&id("absent"), Value::Integer(5)), Err(EvalError::Undefined(id("absent"))));
    nss.pop();
    nss.pop();
    assert_eq!(nss.find(&id("n")), Ok(Value::Integer(5)));
}

#[test]
fn address_gives_the_depth_of_the_owner() {
    let mut nss = NameSpaceStack::new();
    nss.push(NameSpace::new());
    nss.declare(&id("a"), false, Value::Integer(0)).unwrap();
    nss.push(NameSpace::new());
    nss.declare(&id("b"), false, Value::Integer(0)).unwrap();
    nss.push(NameSpace::new());
    nss.declare(&id("a"), false, Value::Integer(0)).unwrap();
    assert_eq!(nss.get_address(&id("a")), Ok(Address::StackAddress(2, id("a"))));
    assert_eq!(nss.get_address(&id("b")), Ok(Address::StackAddress(1, id("b"))));
    assert_eq!(nss.get_address(&id("c")), Err(EvalError::Undefined(id("c"))));
    nss.pop();
    assert_eq!(nss.get_address(&id("a")), Ok(Address::StackAddress(0, id("a"))));
}
