//! The evaluator: expressions to values, instructions to outcomes.

use vstd::prelude::*;
use crate::error::{EvalError, EvalErrorView};
use crate::identifier::Identifier;
use crate::memory::Address;
use crate::namespace::{result_value_view, NameSpace, Scope};
use crate::namespacestack::{result_address_view, NameSpaceStack};
use crate::parsing::binop::Binop;
use crate::parsing::expression::Expression;
use crate::parsing::instruction::Instruction;
use crate::parsing::leftexpression::LeftExpression;
use crate::parsing::value::{Value, ValueView};
use crate::semantics::{
    address_of,
    as_int,
    equality_op,
    eval_spec,
    exec_seq_spec,
    exec_spec,
    integer_op,
    lemma_seq_keeps_depth,
    loop_spec,
    takes_integers,
    value_at,
    Yield,
};
use crate::types::Type;

verus! {

/// The view of what executing an instruction yields.
pub open spec fn yield_view(r: Result<(Option<Identifier>, Value), EvalError>) -> Yield {
    match r {
        Ok((Some(id), v)) => Ok((Some(id@), v@)),
        Ok((None, v)) => Ok((None, v@)),
        Err(e) => Err(e@),
    }
}

/// Applies an arithmetic or ordering operator to two integers; `rhs` is the
/// expression that `b` came from.
fn apply_integer_op(op: Binop, a: isize, b: isize, rhs: &Expression) -> (r: Result<Value, EvalError>)
    requires
        takes_integers(op),
    ensures
        result_value_view(r) == integer_op(op, a, b, rhs@),
{
    match op {
        Binop::Add => Ok(Value::Integer(a.wrapping_add(b))),
        Binop::Sub => Ok(Value::Integer(a.wrapping_sub(b))),
        Binop::Mul => Ok(Value::Integer(a.wrapping_mul(b))),
        Binop::Div => {
            if b == 0 {
                Err(EvalError::DivisionByZero(rhs.clone()))
            } else if a == isize::MIN && b == -1 {
                Ok(Value::Integer(isize::MIN))
            } else {
                Ok(Value::Integer(a / b))
            }
        },
        Binop::Mod => {
            if b == 0 {
                Err(EvalError::DivisionByZero(rhs.clone()))
            } else if a == isize::MIN && b == -1 {
                Ok(Value::Integer(0))
            } else {
                Ok(Value::Integer(a % b))
            }
        },
        Binop::Leq => Ok(Value::Boolean(a <= b)),
        Binop::Geq => Ok(Value::Boolean(a >= b)),
        Binop::Lt => Ok(Value::Boolean(a < b)),
        _ => Ok(Value::Boolean(a > b)),
    }
}

/// Applies `==` or `!=` to two values, the second of which came from
/// `rhs`.
fn apply_equality_op(negated: bool, v1: Value, rhs: &Expression, v2: Value) -> (r: Result<
    Value,
    EvalError,
>)
    ensures
        result_value_view(r) == equality_op(negated, v1@, rhs@, v2@),
{
    match (v1, v2) {
        (Value::Integer(i1), Value::Integer(i2)) => Ok(Value::Boolean((i1 == i2) != negated)),
        (Value::Boolean(b1), Value::Boolean(b2)) => Ok(Value::Boolean((b1 == b2) != negated)),
        (Value::Boolean(_), Value::Integer(_)) => Err(
            EvalError::TypeMismatch {
                expression: rhs.clone(),
                expected: Type::Bool,
                found: Some(Type::Int),
            },
        ),
        (Value::Integer(_), Value::Boolean(_)) => Err(
            EvalError::TypeMismatch {
                expression: rhs.clone(),
                expected: Type::Int,
                found: Some(Type::Bool),
            },
        ),
        _ => Err(EvalError::Undefined(Identifier::new(if negated { "Neq" } else { "Eq" }))),
    }
}

impl Expression {
    /// Evaluates the expression and coerces the value to an integer; a
    /// value of another kind is a type mismatch in this expression.
    fn eval_and_cast_to_int(&self, nss: &mut NameSpaceStack) -> (r: Result<isize, EvalError>)
        ensures
            final(nss)@ == old(nss)@,
            match r {
                Ok(i) => as_int(self@, eval_spec(self@, old(nss)@)) == Ok::<isize, EvalErrorView>(i),
                Err(e) => as_int(self@, eval_spec(self@, old(nss)@)) == Err::<isize, EvalErrorView>(
                    e@,
                ),
            },
        decreases self, 1nat,
    {
        let v = self.eval(nss)?;
        match v.to_int() {
            Ok(i) => Ok(i),
            Err(_) => Err(
                EvalError::TypeMismatch {
                    expression: self.clone(),
                    expected: Type::Int,
                    found: Some(Type::from(&v)),
                },
            ),
        }
    }

    /// The address that `&self` denotes.
    fn eval_to_address(&self, nss: &mut NameSpaceStack) -> (r: Result<Address, EvalError>)
        ensures
            final(nss)@ == old(nss)@,
            result_address_view(r) == address_of(self@, old(nss)@),
    {
        match self {
            Expression::Identifier(id) => nss.get_address(id),
            Expression::ValueAt(LeftExpression::Identifier(id)) => nss.get_address(id),
            _ => Err(EvalError::NotImplemented(Identifier::new("AmpersAnd"))),
        }
    }

    /// Evaluates the expression in the scopes of `nss`, which it leaves as
    /// they are.
    pub fn eval(&self, nss: &mut NameSpaceStack) -> (r: Result<Value, EvalError>)
        ensures
            final(nss)@ == old(nss)@,
            result_value_view(r) == eval_spec(self@, old(nss)@),
        decreases self, 0nat,
    {
        match self {
            Expression::Const(v) => Ok(Value::from(*v)),
            Expression::BinOp(e1, op, e2) => {
                match op {
                    Binop::Eq | Binop::Neq => {
                        let v1 = e1.eval(nss)?;
                        let v2 = e2.eval(nss)?;
                        apply_equality_op(matches!(op, Binop::Neq), v1, e2, v2)
                    },
                    Binop::And => {
                        let v1 = e1.eval(nss)?;
                        let v2 = e2.eval(nss)?;
                        let b1 = v1.to_bool();
                        let b2 = v2.to_bool();
                        match (b1, b2) {
                            (Ok(true), Ok(true)) => Ok(Value::Boolean(true)),
                            (Ok(false), _) => Ok(Value::Boolean(false)),
                            (_, Ok(false)) => Ok(Value::Boolean(false)),
                            _ => Err(EvalError::Undefined(Identifier::new("And"))),
                        }
                    },
                    Binop::Or => {
                        let v1 = e1.eval(nss)?;
                        let b1 = v1.to_bool();
                        if let Ok(true) = b1 {
                            return Ok(Value::Boolean(true));
                        }
                        let v2 = e2.eval(nss)?;
                        let b2 = v2.to_bool();
                        if let Ok(true) = b2 {
                            Ok(Value::Boolean(true))
                        } else {
                            Ok(Value::Boolean(false))
                        }
                    },
                    _ => {
                        let v1 = e1.eval_and_cast_to_int(nss)?;
                        let v2 = e2.eval_and_cast_to_int(nss)?;
                        apply_integer_op(*op, v1, v2, e2)
                    },
                }
            },
            Expression::Identifier(id) => nss.find(id),
            Expression::Conditional { cond, cond_true, cond_false } => {
                let v = cond.eval(nss)?;
                let b = v.to_bool();
                match b {
                    Ok(true) => cond_true.eval(nss),
                    Ok(false) => cond_false.eval(nss),
                    _ => Err(EvalError::Undefined(Identifier::new("Conditional"))),
                }
            },
            Expression::ValueAt(lexpr) => eval_lexpr(lexpr, nss),
            Expression::NewPtr(_, _) => Err(EvalError::NotImplemented(Identifier::new("NewPtr"))),
            Expression::Deref(_) => Err(EvalError::NotImplemented(Identifier::new("Deref"))),
            Expression::AmpersAnd(target) => {
                let addr = target.eval_to_address(nss)?;
                Ok(Value::Pointer(addr))
            },
        }
    }
}

/// The value at a storage location.
fn eval_lexpr(lexpr: &LeftExpression, nss: &mut NameSpaceStack) -> (r: Result<Value, EvalError>)
    ensures
        final(nss)@ == old(nss)@,
        result_value_view(r) == value_at(lexpr@, old(nss)@),
{
    match lexpr {
        LeftExpression::Identifier(id) => nss.find(id),
        _ => Err(EvalError::NotImplemented(Identifier::new("ValueAt"))),
    }
}

impl Instruction {
    /// Executes the instruction in the scopes of `nss`. A failure keeps the
    /// effects that came before it, and the scope of every block that was
    /// entered has been left again. The iterations of a loop are counted in
    /// 128 bits, a count that no run exhausts.
    pub fn exec(&self, nss: &mut NameSpaceStack) -> (r: Result<(Option<Identifier>, Value), EvalError>)
        ensures
            yield_view(r) == exec_spec(self@, old(nss)@, u128::MAX as nat).result,
            final(nss)@ == exec_spec(self@, old(nss)@, u128::MAX as nat).scopes,
    {
        self.exec_within(nss, u128::MAX)
    }

    /// Executes the instruction as [`Instruction::exec`] does, but fails
    /// with `LoopLimit` where a loop is about to start an iteration beyond
    /// its `limit`-th.
    pub fn exec_bounded(&self, nss: &mut NameSpaceStack, limit: usize) -> (r: Result<
        (Option<Identifier>, Value),
        EvalError,
    >)
        ensures
            yield_view(r) == exec_spec(self@, old(nss)@, limit as nat).result,
            final(nss)@ == exec_spec(self@, old(nss)@, limit as nat).scopes,
    {
        self.exec_within(nss, limit as u128)
    }

    /// Executes the instruction, with at most `limit` iterations of each
    /// loop.
    fn exec_within(&self, nss: &mut NameSpaceStack, limit: u128) -> (r: Result<
        (Option<Identifier>, Value),
        EvalError,
    >)
        ensures
            yield_view(r) == exec_spec(self@, old(nss)@, limit as nat).result,
            final(nss)@ == exec_spec(self@, old(nss)@, limit as nat).scopes,
        decreases self, 1nat,
    {
        match self {
            Instruction::Expr(expr) => {
                let v = expr.eval(nss);
                Ok((None, v?))
            },
            Instruction::Let { id, mutable, expr } => {
                let v = expr.eval(nss)?;
                nss.declare(id, *mutable, v.clone())?;
                Ok((Some(id.clone()), v))
            },
            Instruction::Block(instrs) => {
                nss.push(NameSpace::new());
                let r = exec_block(instrs, nss, limit);
                proof {
                    lemma_seq_keeps_depth(
                        Instruction::models(instrs@),
                        0,
                        old(nss)@.push(Scope::empty()),
                        ValueView::Unit,
                        limit as nat,
                    );
                }
                nss.pop();
                r
            },
            Instruction::WriteAt(lexpr, expr) => {
                let v = expr.eval(nss)?;
                match lexpr {
                    LeftExpression::Identifier(id) => {
                        nss.set(id, v.clone())?;
                        Ok((None, v))
                    },
                    _ => Err(EvalError::Undefined(Identifier::new("WriteAt"))),
                }
            },
            Instruction::IfElse { cond, cond_true, cond_false } => {
                let v = cond.eval(nss)?;
                let b = v.to_bool();
                match b {
                    Ok(true) => cond_true.exec_within(nss, limit),
                    Ok(false) => cond_false.exec_within(nss, limit),
                    _ => Err(EvalError::Undefined(Identifier::new("IfElse"))),
                }
            },
            Instruction::While(cond, instr) => exec_loop(cond, instr, nss, limit),
            Instruction::Free(_) => Err(EvalError::NotImplemented(Identifier::new("Free"))),
        }
    }
}

/// Executes the instructions of a block in order, up to the first failure.
/// The block yields the value of its last instruction, and the unit value
/// when it is empty.
fn exec_block(instrs: &Vec<Instruction>, nss: &mut NameSpaceStack, limit: u128) -> (r: Result<
    (Option<Identifier>, Value),
    EvalError,
>)
    ensures
        yield_view(r) == exec_seq_spec(
            Instruction::models(instrs@),
            0,
            old(nss)@,
            ValueView::Unit,
            limit as nat,
        ).result,
        final(nss)@ == exec_seq_spec(
            Instruction::models(instrs@),
            0,
            old(nss)@,
            ValueView::Unit,
            limit as nat,
        ).scopes,
    decreases instrs, 0nat,
{
    let ghost block = Instruction::models(instrs@);
    let mut res = Value::Unit;
    let mut i: usize = 0;
    while i < instrs.len()
        invariant
            i <= instrs.len(),
            block == Instruction::models(instrs@),
            exec_seq_spec(block, i as int, nss@, res@, limit as nat) == exec_seq_spec(
                block,
                0,
                old(nss)@,
                ValueView::Unit,
                limit as nat,
            ),
        decreases instrs.len() - i,
    {
        assert(block[i as int] == instrs[i as int]@);
        match instrs[i].exec_within(nss, limit) {
            Ok((_, v)) => {
                res = v;
            },
            Err(err) => {
                return Err(err);
            },
        }
        i = i + 1;
    }
    Ok((None, res))
}

/// Runs a loop: while the condition evaluates to true, executes the body.
/// The loop yields the unit value.
fn exec_loop(cond: &Expression, body: &Instruction, nss: &mut NameSpaceStack, limit: u128) -> (r:
    Result<(Option<Identifier>, Value), EvalError>)
    ensures
        yield_view(r) == loop_spec(cond@, body@, old(nss)@, limit as nat, limit as nat).result,
        final(nss)@ == loop_spec(cond@, body@, old(nss)@, limit as nat, limit as nat).scopes,
    decreases body, 2nat,
{
    let mut left: u128 = limit;
    loop
        invariant
            loop_spec(cond@, body@, nss@, limit as nat, left as nat) == loop_spec(
                cond@,
                body@,
                old(nss)@,
                limit as nat,
                limit as nat,
            ),
        decreases left,
    {
        let v = cond.eval(nss)?;
        let b = v.to_bool();
        match b {
            Ok(true) => {
                if left == 0 {
                    return Err(EvalError::LoopLimit);
                }
                left = left - 1;
                body.exec_within(nss, limit)?;
            },
            Ok(false) => {
                return Ok((None, Value::Unit));
            },
            _ => {
                return Err(EvalError::Undefined(Identifier::new("While")));
            },
        }
    }
}

} // verus!
