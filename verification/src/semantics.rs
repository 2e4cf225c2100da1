//! The meaning of expressions and instructions, as functions on views.
//!
//! Evaluating an expression never changes the scopes, so its meaning is a
//! function from the expression and the scopes to a value or a failure.
//! Executing an instruction yields an outcome and the scopes afterwards. A
//! loop may run forever; the meaning of an instruction is therefore defined
//! relative to a limit on the number of iterations of each loop.

use vstd::prelude::*;
use crate::error::EvalErrorView;
use crate::memory::AddressView;
use crate::namespace::Scope;
use crate::namespacestack::{
    lemma_owner,
    stack_address,
    stack_declare,
    stack_find,
    stack_set,
    Scopes,
};
use crate::parsing::binop::Binop;
use crate::parsing::expression::ExpressionView;
use crate::parsing::instruction::InstructionView;
use crate::parsing::leftexpression::LeftExpressionView;
use crate::parsing::value::ValueView;
use crate::types::Type;

verus! {

/// The quotient of `a` by `b`, rounded toward zero, for `b != 0`. The one
/// quotient that does not fit, `isize::MIN / -1`, wraps to `isize::MIN`.
pub open spec fn quotient(a: isize, b: isize) -> isize {
    if a == isize::MIN && b == -1 {
        isize::MIN
    } else if a >= 0 {
        (a / b) as isize
    } else {
        (-((-a) / (b as int))) as isize
    }
}

/// The remainder that goes with [`quotient`], for `b != 0`: it has the sign
/// of `a`, or is zero.
pub open spec fn remainder(a: isize, b: isize) -> isize {
    if a >= 0 {
        (a % b) as isize
    } else {
        (-((-a) % (b as int))) as isize
    }
}

/// The result of an evaluation coerced to an integer: a failure stays, and
/// a value of another kind is a type mismatch in `e`.
pub open spec fn as_int(e: ExpressionView, r: Result<ValueView, EvalErrorView>) -> Result<
    isize,
    EvalErrorView,
> {
    match r {
        Err(err) => Err(err),
        Ok(v) => match v.to_int() {
            Ok(i) => Ok(i),
            Err(kind) => Err(
                EvalErrorView::TypeMismatch { expression: e, expected: Type::Int, found: Some(kind) },
            ),
        },
    }
}

/// Whether `op` takes two integers: the arithmetic and the ordering
/// operators.
pub open spec fn takes_integers(op: Binop) -> bool {
    match op {
        Binop::Add | Binop::Sub | Binop::Mul | Binop::Div | Binop::Mod | Binop::Leq | Binop::Geq
        | Binop::Lt | Binop::Gt => true,
        _ => false,
    }
}

/// The result of an arithmetic or ordering operator on the integers `a` and
/// `b`, where `rhs` is the expression that `b` came from. Sums, differences
/// and products wrap around; a zero divisor is a failure that carries `rhs`.
pub open spec fn integer_op(op: Binop, a: isize, b: isize, rhs: ExpressionView) -> Result<
    ValueView,
    EvalErrorView,
>
    recommends
        takes_integers(op),
{
    match op {
        Binop::Add => Ok(ValueView::Integer(a.wrapping_add(b))),
        Binop::Sub => Ok(ValueView::Integer(a.wrapping_sub(b))),
        Binop::Mul => Ok(ValueView::Integer(a.wrapping_mul(b))),
        Binop::Div => if b == 0 {
            Err(EvalErrorView::DivisionByZero(rhs))
        } else {
            Ok(ValueView::Integer(quotient(a, b)))
        },
        Binop::Mod => if b == 0 {
            Err(EvalErrorView::DivisionByZero(rhs))
        } else {
            Ok(ValueView::Integer(remainder(a, b)))
        },
        Binop::Leq => Ok(ValueView::Boolean(a <= b)),
        Binop::Geq => Ok(ValueView::Boolean(a >= b)),
        Binop::Lt => Ok(ValueView::Boolean(a < b)),
        _ => Ok(ValueView::Boolean(a > b)),
    }
}

/// The result of `==` (`negated` false) or `!=` (`negated` true) on two
/// values, the second of which came from `rhs`. Two integers or two booleans are
/// compared. An integer beside a boolean is a type mismatch in the right
/// operand: the left operand sets the kind that is expected, and the right
/// one is found to be of the other. Any other pair is undefined, under the
/// operator's name.
pub open spec fn equality_op(
    negated: bool,
    v1: ValueView,
    rhs: ExpressionView,
    v2: ValueView,
) -> Result<ValueView, EvalErrorView> {
    match (v1, v2) {
        (ValueView::Integer(i1), ValueView::Integer(i2)) => Ok(
            ValueView::Boolean((i1 == i2) != negated),
        ),
        (ValueView::Boolean(b1), ValueView::Boolean(b2)) => Ok(
            ValueView::Boolean((b1 == b2) != negated),
        ),
        (ValueView::Boolean(_), ValueView::Integer(_)) => Err(
            EvalErrorView::TypeMismatch {
                expression: rhs,
                expected: Type::Bool,
                found: Some(Type::Int),
            },
        ),
        (ValueView::Integer(_), ValueView::Boolean(_)) => Err(
            EvalErrorView::TypeMismatch {
                expression: rhs,
                expected: Type::Int,
                found: Some(Type::Bool),
            },
        ),
        _ => Err(EvalErrorView::Undefined(if negated { "Neq"@ } else { "Eq"@ })),
    }
}

/// The result of `&&` on two values: false as soon as either is the
/// boolean false, whatever the other is; true when both are true; and
/// undefined otherwise.
pub open spec fn and_op(v1: ValueView, v2: ValueView) -> Result<ValueView, EvalErrorView> {
    if v1 == ValueView::Boolean(false) || v2 == ValueView::Boolean(false) {
        Ok(ValueView::Boolean(false))
    } else if v1 == ValueView::Boolean(true) && v2 == ValueView::Boolean(true) {
        Ok(ValueView::Boolean(true))
    } else {
        Err(EvalErrorView::Undefined("And"@))
    }
}

/// The result of a binary operator, given what its operands evaluate to.
/// The left operand's failure comes first. Only `||` can succeed although
/// its right operand fails: when the left operand is true.
pub open spec fn binop(
    op: Binop,
    lhs: ExpressionView,
    r1: Result<ValueView, EvalErrorView>,
    rhs: ExpressionView,
    r2: Result<ValueView, EvalErrorView>,
) -> Result<ValueView, EvalErrorView> {
    match op {
        Binop::Eq | Binop::Neq => match r1 {
            Err(e) => Err(e),
            Ok(v1) => match r2 {
                Err(e) => Err(e),
                Ok(v2) => equality_op(op == Binop::Neq, v1, rhs, v2),
            },
        },
        Binop::And => match r1 {
            Err(e) => Err(e),
            Ok(v1) => match r2 {
                Err(e) => Err(e),
                Ok(v2) => and_op(v1, v2),
            },
        },
        Binop::Or => match r1 {
            Err(e) => Err(e),
            Ok(v1) => if v1 == ValueView::Boolean(true) {
                Ok(ValueView::Boolean(true))
            } else {
                match r2 {
                    Err(e) => Err(e),
                    Ok(v2) => Ok(ValueView::Boolean(v2 == ValueView::Boolean(true))),
                }
            },
        },
        _ => match as_int(lhs, r1) {
            Err(e) => Err(e),
            Ok(a) => match as_int(rhs, r2) {
                Err(e) => Err(e),
                Ok(b) => integer_op(op, a, b, rhs),
            },
        },
    }
}

/// The address that `&target` denotes: that of the binding, when the target
/// is a name.
pub open spec fn address_of(target: ExpressionView, scopes: Scopes) -> Result<
    AddressView,
    EvalErrorView,
> {
    match target {
        ExpressionView::Identifier(id) => stack_address(scopes, id),
        ExpressionView::ValueAt(LeftExpressionView::Identifier(id)) => stack_address(scopes, id),
        _ => Err(EvalErrorView::NotImplemented("AmpersAnd"@)),
    }
}

/// The value at a storage location: that of the binding, when the location
/// is a name.
pub open spec fn value_at(target: LeftExpressionView, scopes: Scopes) -> Result<
    ValueView,
    EvalErrorView,
> {
    match target {
        LeftExpressionView::Identifier(id) => stack_find(scopes, id),
        _ => Err(EvalErrorView::NotImplemented("ValueAt"@)),
    }
}

/// What an expression evaluates to in the given scopes.
pub open spec fn eval_spec(e: ExpressionView, scopes: Scopes) -> Result<ValueView, EvalErrorView>
    decreases e,
{
    match e {
        ExpressionView::Const(pv) => Ok(ValueView::of_literal(pv)),
        ExpressionView::Identifier(id) => stack_find(scopes, id),
        ExpressionView::BinOp(lhs, op, rhs) => binop(
            op,
            *lhs,
            eval_spec(*lhs, scopes),
            *rhs,
            eval_spec(*rhs, scopes),
        ),
        ExpressionView::Conditional { cond, cond_true, cond_false } => match eval_spec(
            *cond,
            scopes,
        ) {
            Err(err) => Err(err),
            Ok(v) => match v.to_bool() {
                Ok(true) => eval_spec(*cond_true, scopes),
                Ok(false) => eval_spec(*cond_false, scopes),
                Err(_) => Err(EvalErrorView::Undefined("Conditional"@)),
            },
        },
        ExpressionView::ValueAt(target) => value_at(target, scopes),
        ExpressionView::NewPtr(_, _) => Err(EvalErrorView::NotImplemented("NewPtr"@)),
        ExpressionView::Deref(_) => Err(EvalErrorView::NotImplemented("Deref"@)),
        ExpressionView::AmpersAnd(target) => match address_of(*target, scopes) {
            Ok(a) => Ok(ValueView::Pointer(a)),
            Err(err) => Err(err),
        },
    }
}

/// What executing an instruction yields: on success the name it bound, if
/// any, and its value.
pub type Yield = Result<(Option<Seq<char>>, ValueView), EvalErrorView>;

/// The outcome of executing an instruction: what it yields, and the scopes
/// afterwards. A failure keeps the effects that came before it.
pub struct Outcome {
    pub result: Yield,
    pub scopes: Scopes,
}

/// The outcome of a failure in the given scopes.
pub open spec fn failed(err: EvalErrorView, scopes: Scopes) -> Outcome {
    Outcome { result: Err(err), scopes }
}

/// The outcome of executing `instr` in `scopes`, where every loop fails
/// with `LoopLimit` instead of starting an iteration beyond its
/// `limit`-th.
pub open spec fn exec_spec(instr: InstructionView, scopes: Scopes, limit: nat) -> Outcome
    decreases instr, 1nat, 0nat,
{
    match instr {
        InstructionView::Expr(e) => match eval_spec(e, scopes) {
            Ok(v) => Outcome { result: Ok((None, v)), scopes },
            Err(err) => failed(err, scopes),
        },
        InstructionView::Let { id, mutable, expr } => match eval_spec(expr, scopes) {
            Ok(v) => match stack_declare(scopes, id, mutable, v) {
                (Ok(()), after) => Outcome { result: Ok((Some(id), v)), scopes: after },
                (Err(err), after) => failed(err, after),
            },
            Err(err) => failed(err, scopes),
        },
        InstructionView::Block(instrs) => {
            let inner = exec_seq_spec(
                instrs,
                0,
                scopes.push(Scope::empty()),
                ValueView::Unit,
                limit,
            );
            Outcome { result: inner.result, scopes: inner.scopes.drop_last() }
        },
        InstructionView::WriteAt(target, e) => match eval_spec(e, scopes) {
            Ok(v) => match target {
                LeftExpressionView::Identifier(id) => match stack_set(scopes, id, v) {
                    (Ok(()), after) => Outcome { result: Ok((None, v)), scopes: after },
                    (Err(err), after) => failed(err, after),
                },
                _ => failed(EvalErrorView::Undefined("WriteAt"@), scopes),
            },
            Err(err) => failed(err, scopes),
        },
        InstructionView::IfElse { cond, cond_true, cond_false } => match eval_spec(cond, scopes) {
            Ok(v) => match v.to_bool() {
                Ok(true) => exec_spec(*cond_true, scopes, limit),
                Ok(false) => exec_spec(*cond_false, scopes, limit),
                Err(_) => failed(EvalErrorView::Undefined("IfElse"@), scopes),
            },
            Err(err) => failed(err, scopes),
        },
        InstructionView::While(cond, body) => loop_spec(cond, *body, scopes, limit, limit),
        InstructionView::Free(_) => failed(EvalErrorView::NotImplemented("Free"@), scopes),
    }
}

/// The outcome of executing the instructions of a block from the `i`-th on,
/// in order, where `last` is the value of the instruction before them. The
/// first failure ends the block.
pub open spec fn exec_seq_spec(
    instrs: Seq<InstructionView>,
    i: int,
    scopes: Scopes,
    last: ValueView,
    limit: nat,
) -> Outcome
    decreases instrs, 0nat, instrs.len() - i,
{
    if 0 <= i < instrs.len() {
        let step = exec_spec(instrs[i], scopes, limit);
        match step.result {
            Ok((_, v)) => exec_seq_spec(instrs, i + 1, step.scopes, v, limit),
            Err(err) => failed(err, step.scopes),
        }
    } else {
        Outcome { result: Ok((None, last)), scopes }
    }
}

/// The outcome of a loop that may start `left` more iterations. The loop
/// yields the unit value when its condition becomes false, whatever its
/// body yielded.
pub open spec fn loop_spec(
    cond: ExpressionView,
    body: InstructionView,
    scopes: Scopes,
    limit: nat,
    left: nat,
) -> Outcome
    decreases body, 2nat, left,
{
    match eval_spec(cond, scopes) {
        Ok(v) => match v.to_bool() {
            Ok(true) => if left == 0 {
                failed(EvalErrorView::LoopLimit, scopes)
            } else {
                let step = exec_spec(body, scopes, limit);
                match step.result {
                    Ok(_) => loop_spec(cond, body, step.scopes, limit, (left - 1) as nat),
                    Err(err) => failed(err, step.scopes),
                }
            },
            Ok(false) => Outcome { result: Ok((None, ValueView::Unit)), scopes },
            Err(_) => failed(EvalErrorView::Undefined("While"@), scopes),
        },
        Err(err) => failed(err, scopes),
    }
}

/// Executing an instruction leaves as many scopes active as it found:
/// every block leaves the scope that it entered, on success and on failure.
pub proof fn lemma_exec_keeps_depth(instr: InstructionView, scopes: Scopes, limit: nat)
    ensures
        exec_spec(instr, scopes, limit).scopes.len() == scopes.len(),
    decreases instr, 1nat, 0nat,
{
    match instr {
        InstructionView::Block(instrs) => {
            let entered = scopes.push(Scope::empty());
            lemma_seq_keeps_depth(instrs, 0, entered, ValueView::Unit, limit);
            let inner = exec_seq_spec(instrs, 0, entered, ValueView::Unit, limit);
            assert(inner.scopes.drop_last().len() == scopes.len());
        },
        InstructionView::WriteAt(LeftExpressionView::Identifier(id), _) => {
            lemma_owner(scopes, id);
        },
        InstructionView::IfElse { cond, cond_true, cond_false } => {
            lemma_exec_keeps_depth(*cond_true, scopes, limit);
            lemma_exec_keeps_depth(*cond_false, scopes, limit);
        },
        InstructionView::While(cond, body) => {
            lemma_loop_keeps_depth(cond, *body, scopes, limit, limit);
        },
        _ => {},
    }
}

/// The instructions of a block leave as many scopes active as they found.
pub proof fn lemma_seq_keeps_depth(
    instrs: Seq<InstructionView>,
    i: int,
    scopes: Scopes,
    last: ValueView,
    limit: nat,
)
    ensures
        exec_seq_spec(instrs, i, scopes, last, limit).scopes.len() == scopes.len(),
    decreases instrs, 0nat, instrs.len() - i,
{
    if 0 <= i < instrs.len() {
        lemma_exec_keeps_depth(instrs[i], scopes, limit);
        let step = exec_spec(instrs[i], scopes, limit);
        match step.result {
            Ok((_, v)) => {
                lemma_seq_keeps_depth(instrs, i + 1, step.scopes, v, limit);
            },
            Err(_) => {},
        }
    }
}

/// A loop leaves as many scopes active as it found.
pub proof fn lemma_loop_keeps_depth(
    cond: ExpressionView,
    body: InstructionView,
    scopes: Scopes,
    limit: nat,
    left: nat,
)
    ensures
        loop_spec(cond, body, scopes, limit, left).scopes.len() == scopes.len(),
    decreases body, 2nat, left,
{
    if left > 0 {
        lemma_exec_keeps_depth(body, scopes, limit);
        let step = exec_spec(body, scopes, limit);
        if step.result is Ok {
            lemma_loop_keeps_depth(cond, body, step.scopes, limit, (left - 1) as nat);
        }
    }
}

} // verus!
