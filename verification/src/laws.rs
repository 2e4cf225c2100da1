//! Laws of the semantics.

use vstd::prelude::*;
use crate::error::EvalErrorView;
use crate::lexer::{digit_value, is_digit, number_at};
use crate::namespace::Scope;
use crate::namespacestack::{lemma_owner, owner, stack_declare, stack_set, Scopes};
use crate::parsing::binop::Binop;
use crate::parsing::expression::ExpressionView;
use crate::parsing::instruction::InstructionView;
use crate::parsing::leftexpression::LeftExpressionView;
use crate::parsing::value::ValueView;
use crate::semantics::{
    as_int,
    integer_op,
    eval_spec,
    exec_seq_spec,
    exec_spec,
    failed,
    loop_spec,
    quotient,
    remainder,
    Outcome,
};
use crate::text::{digit_char, natural_text};
use crate::types::Type;

verus! {

/// The absolute value of an integer.
pub open spec fn abs(i: int) -> int {
    if i < 0 {
        -i
    } else {
        i
    }
}

/// Sums, differences and products that fit are exact: wrapping shows only
/// where the mathematical result lies outside the range of the integers.
pub proof fn law_arithmetic_is_exact_where_it_fits(a: isize, b: isize, rhs: ExpressionView)
    ensures
        isize::MIN <= a + b <= isize::MAX ==> integer_op(Binop::Add, a, b, rhs) == Ok::<
            ValueView,
            EvalErrorView,
        >(ValueView::Integer((a + b) as isize)),
        isize::MIN <= a - b <= isize::MAX ==> integer_op(Binop::Sub, a, b, rhs) == Ok::<
            ValueView,
            EvalErrorView,
        >(ValueView::Integer((a - b) as isize)),
        isize::MIN <= a * b <= isize::MAX ==> integer_op(Binop::Mul, a, b, rhs) == Ok::<
            ValueView,
            EvalErrorView,
        >(ValueView::Integer((a * b) as isize)),
{
    let product = a * b;
    let modulus = usize::MAX - usize::MIN + 1;
    if isize::MIN <= product <= isize::MAX {
        if product >= 0 {
            vstd::arithmetic::div_mod::lemma_small_mod(product as nat, modulus as nat);
        } else {
            vstd::arithmetic::div_mod::lemma_small_mod((product + modulus) as nat, modulus as nat);
            vstd::arithmetic::div_mod::lemma_mod_add_multiples_vanish(product, modulus);
        }
    }
}

/// Euclidean division of a dividend that is not negative: the quotient has
/// the sign of the divisor and is no larger than the dividend.
proof fn lemma_divide_nonnegative(x: int, d: int)
    requires
        x >= 0,
        d != 0,
    ensures
        x == d * (x / d) + x % d,
        0 <= x % d < abs(d),
        d > 0 ==> 0 <= x / d <= x,
        d < 0 ==> -x <= x / d <= 0,
        d != -1 ==> -x < x / d || x == 0,
{
    let q = x / d;
    let r = x % d;
    assert(x == d * q + r && 0 <= r < abs(d)) by (nonlinear_arith)
        requires
            d != 0,
            q == x / d,
            r == x % d,
    ;
    if d > 0 {
        assert(0 <= q <= x) by (nonlinear_arith)
            requires
                x == d * q + r,
                0 <= r < d,
                x >= 0,
                d > 0,
        ;
    } else {
        assert(-x <= q <= 0) by (nonlinear_arith)
            requires
                x == d * q + r,
                0 <= r < -d,
                x >= 0,
                d < 0,
        ;
        if d != -1 && x != 0 {
            assert(-x < q) by (nonlinear_arith)
                requires
                    x == d * q + r,
                    0 <= r < -d,
                    x > 0,
                    d < -1,
            ;
        }
    }
}

/// Division rounds toward zero, and the remainder takes the sign of the
/// dividend: for a divisor other than zero, and a quotient that fits, the
/// dividend is the quotient times the divisor plus the remainder, the
/// remainder is smaller in absolute value than the divisor, and it is zero
/// or has the sign of the dividend.
pub proof fn law_division_rounds_toward_zero(a: isize, b: isize)
    requires
        b != 0,
        !(a == isize::MIN && b == -1),
    ensures
        a == quotient(a, b) * b + remainder(a, b),
        abs(remainder(a, b) as int) < abs(b as int),
        remainder(a, b) == 0 || (remainder(a, b) > 0 <==> a > 0),
{
    lemma_divide_nonnegative(abs(a as int), b as int);
    let x: int = abs(a as int);
    let d: int = b as int;
    let q = x / d;
    let r = x % d;
    if a < 0 {
        assert(x == -a);
        assert(remainder(a, b) == -r);
        assert(quotient(a, b) == -q);
        assert(a == (-q) * d + (-r)) by (nonlinear_arith)
            requires
                -a == d * q + r,
        ;
        assert(-r <= 0);
    } else {
        assert(x == a);
        assert(remainder(a, b) == r);
        assert(quotient(a, b) == q);
        assert(a == q * d + r) by (nonlinear_arith)
            requires
                a == d * q + r,
        ;
        if a == 0 {
            assert(q == 0);
            assert(d * q == 0) by (nonlinear_arith)
                requires
                    q == 0,
            ;
            assert(r == 0);
        }
    }
}

/// A division or a remainder whose left operand evaluates to an integer and
/// whose right operand evaluates to zero fails with `DivisionByZero`, and
/// the failure carries the right operand.
pub proof fn law_division_by_zero(
    op: Binop,
    lhs: ExpressionView,
    rhs: ExpressionView,
    scopes: Scopes,
)
    requires
        op == Binop::Div || op == Binop::Mod,
        as_int(lhs, eval_spec(lhs, scopes)) is Ok,
        eval_spec(rhs, scopes) == Ok::<ValueView, EvalErrorView>(ValueView::Integer(0)),
    ensures
        eval_spec(ExpressionView::BinOp(Box::new(lhs), op, Box::new(rhs)), scopes) == Err::<
            ValueView,
            EvalErrorView,
        >(EvalErrorView::DivisionByZero(rhs)),
{
}

/// Once a name is declared, declaring it again in the same scope fails
/// with `AlreadyDefined`, and declaring it in a fresh scope nested in that
/// one succeeds.
pub proof fn law_redeclaration(
    scopes: Scopes,
    id: Seq<char>,
    mutable: bool,
    value: ValueView,
    again_mutable: bool,
    again_value: ValueView,
)
    requires
        stack_declare(scopes, id, mutable, value).0 is Ok,
    ensures
        stack_declare(
            stack_declare(scopes, id, mutable, value).1,
            id,
            again_mutable,
            again_value,
        ).0 == Err::<(), EvalErrorView>(EvalErrorView::AlreadyDefined(id)),
        stack_declare(
            stack_declare(scopes, id, mutable, value).1.push(Scope::empty()),
            id,
            again_mutable,
            again_value,
        ).0 is Ok,
{
}

/// A write to a name whose innermost binding is immutable fails with
/// `NotMutable` and changes nothing, whatever the outer scopes bind the
/// name to.
pub proof fn law_immutable_write(scopes: Scopes, id: Seq<char>, value: ValueView)
    requires
        owner(scopes, id) matches Some(depth) && !scopes[depth as int][id].mutable,
    ensures
        stack_set(scopes, id, value) == (
            Err::<(), EvalErrorView>(
                EvalErrorView::NotMutable(Some(ExpressionView::Identifier(id))),
            ),
            scopes,
        ),
{
    lemma_owner(scopes, id);
    let depth = owner(scopes, id)->0 as int;
    assert(scopes.update(depth, scopes[depth]) =~= scopes);
}

/// After a name has been declared immutable, a write to it fails with
/// `NotMutable`, also where an outer scope binds the same name as mutable.
pub proof fn law_immutable_declaration(
    scopes: Scopes,
    id: Seq<char>,
    value: ValueView,
    written: ValueView,
)
    requires
        stack_declare(scopes, id, false, value).0 is Ok,
    ensures
        stack_set(stack_declare(scopes, id, false, value).1, id, written).0 == Err::<
            (),
            EvalErrorView,
        >(EvalErrorView::NotMutable(Some(ExpressionView::Identifier(id)))),
{
}

/// `||` does not look at its right operand when the left one is true, and
/// fails as the left operand does when that one fails.
pub proof fn law_or_short_circuits(lhs: ExpressionView, rhs: ExpressionView, scopes: Scopes)
    ensures
        eval_spec(lhs, scopes) == Ok::<ValueView, EvalErrorView>(ValueView::Boolean(true))
            ==> eval_spec(ExpressionView::BinOp(Box::new(lhs), Binop::Or, Box::new(rhs)), scopes)
            == Ok::<ValueView, EvalErrorView>(ValueView::Boolean(true)),
        eval_spec(lhs, scopes) is Err ==> eval_spec(
            ExpressionView::BinOp(Box::new(lhs), Binop::Or, Box::new(rhs)),
            scopes,
        ) == eval_spec(lhs, scopes),
{
}

/// `==` and `!=` between an integer and a boolean fail with a type
/// mismatch in the right operand: the left operand sets the kind that is
/// expected, and the right operand is found to be of the other kind.
pub proof fn law_mixed_equality(
    op: Binop,
    lhs: ExpressionView,
    rhs: ExpressionView,
    scopes: Scopes,
)
    requires
        op == Binop::Eq || op == Binop::Neq,
    ensures
        (eval_spec(lhs, scopes) matches Ok(ValueView::Integer(_)) && eval_spec(rhs, scopes) matches Ok(
            ValueView::Boolean(_),
        )) ==> eval_spec(ExpressionView::BinOp(Box::new(lhs), op, Box::new(rhs)), scopes) == Err::<
            ValueView,
            EvalErrorView,
        >(
            EvalErrorView::TypeMismatch {
                expression: rhs,
                expected: Type::Int,
                found: Some(Type::Bool),
            },
        ),
        (eval_spec(lhs, scopes) matches Ok(ValueView::Boolean(_)) && eval_spec(rhs, scopes) matches Ok(
            ValueView::Integer(_),
        )) ==> eval_spec(ExpressionView::BinOp(Box::new(lhs), op, Box::new(rhs)), scopes) == Err::<
            ValueView,
            EvalErrorView,
        >(
            EvalErrorView::TypeMismatch {
                expression: rhs,
                expected: Type::Bool,
                found: Some(Type::Int),
            },
        ),
{
}

/// What a block makes of the outcome of its last instruction: the value
/// without a name, and the block's own scope left.
pub open spec fn block_end(step: Outcome) -> Outcome {
    Outcome {
        result: match step.result {
            Ok((_, v)) => Ok((None, v)),
            Err(err) => Err(err),
        },
        scopes: step.scopes.drop_last(),
    }
}

/// An empty block yields the unit value and changes nothing.
pub proof fn law_empty_block(scopes: Scopes, limit: nat)
    ensures
        exec_spec(InstructionView::Block(Seq::empty()), scopes, limit) == (Outcome {
            result: Ok((None, ValueView::Unit)),
            scopes,
        }),
{
    let entered = scopes.push(Scope::empty());
    assert(exec_seq_spec(Seq::empty(), 0, entered, ValueView::Unit, limit) == Outcome {
        result: Ok((None, ValueView::Unit)),
        scopes: entered,
    });
    assert(entered.drop_last() =~= scopes);
}

/// A block whose instructions before the last one succeed yields what its
/// last instruction yields, executed in the scopes that those left.
pub proof fn law_block_yields_last(instrs: Seq<InstructionView>, scopes: Scopes, limit: nat)
    requires
        instrs.len() > 0,
        exec_seq_spec(
            instrs.drop_last(),
            0,
            scopes.push(Scope::empty()),
            ValueView::Unit,
            limit,
        ).result is Ok,
    ensures
        exec_spec(InstructionView::Block(instrs), scopes, limit) == block_end(
            exec_spec(
                instrs.last(),
                exec_seq_spec(
                    instrs.drop_last(),
                    0,
                    scopes.push(Scope::empty()),
                    ValueView::Unit,
                    limit,
                ).scopes,
                limit,
            ),
        ),
{
    lemma_seq_ends_with_last(instrs, 0, scopes.push(Scope::empty()), ValueView::Unit, limit);
}

/// The instructions of a block from the `i`-th on, split into those before
/// the last one and the last one.
proof fn lemma_seq_ends_with_last(
    instrs: Seq<InstructionView>,
    i: int,
    scopes: Scopes,
    last: ValueView,
    limit: nat,
)
    requires
        0 <= i < instrs.len(),
    ensures
        ({
            let before = exec_seq_spec(instrs.drop_last(), i, scopes, last, limit);
            let step = exec_spec(instrs.last(), before.scopes, limit);
            exec_seq_spec(instrs, i, scopes, last, limit) == if before.result is Ok {
                Outcome {
                    result: match step.result {
                        Ok((_, v)) => Ok((None, v)),
                        Err(err) => Err(err),
                    },
                    scopes: step.scopes,
                }
            } else {
                before
            }
        }),
    decreases instrs.len() - i,
{
    let front = instrs.drop_last();
    if i < instrs.len() - 1 {
        assert(front[i] == instrs[i]);
        let step = exec_spec(instrs[i], scopes, limit);
        match step.result {
            Ok((_, v)) => {
                lemma_seq_ends_with_last(instrs, i + 1, step.scopes, v, limit);
            },
            Err(_) => {},
        }
    } else {
        let step = exec_spec(instrs[i], scopes, limit);
        match step.result {
            Ok((_, v)) => {
                assert(exec_seq_spec(instrs, i + 1, step.scopes, v, limit) == Outcome {
                    result: Ok((None, v)),
                    scopes: step.scopes,
                });
            },
            Err(_) => {},
        }
    }
}

/// A loop that succeeds yields the unit value, whatever its body yields.
pub proof fn law_loop_yields_unit(
    cond: ExpressionView,
    body: InstructionView,
    scopes: Scopes,
    limit: nat,
)
    ensures
        exec_spec(InstructionView::While(cond, Box::new(body)), scopes, limit).result is Ok
            ==> exec_spec(InstructionView::While(cond, Box::new(body)), scopes, limit).result
            == Ok::<(Option<Seq<char>>, ValueView), EvalErrorView>((None, ValueView::Unit)),
{
    lemma_loop_yields_unit(cond, body, scopes, limit, limit);
}

/// A loop that may start `left` more iterations yields the unit value when
/// it succeeds.
proof fn lemma_loop_yields_unit(
    cond: ExpressionView,
    body: InstructionView,
    scopes: Scopes,
    limit: nat,
    left: nat,
)
    ensures
        loop_spec(cond, body, scopes, limit, left).result is Ok ==> loop_spec(
            cond,
            body,
            scopes,
            limit,
            left,
        ).result == Ok::<(Option<Seq<char>>, ValueView), EvalErrorView>((None, ValueView::Unit)),
    decreases left,
{
    if left > 0 {
        let step = exec_spec(body, scopes, limit);
        lemma_loop_yields_unit(cond, body, step.scopes, limit, (left - 1) as nat);
    }
}

/// The limit on loop iterations shows only through `LoopLimit`: an
/// execution that ends otherwise under some limit ends in the same way,
/// with the same scopes, under every larger limit.
pub proof fn law_limit_unobservable(
    instr: InstructionView,
    scopes: Scopes,
    limit: nat,
    larger: nat,
)
    requires
        limit <= larger,
        exec_spec(instr, scopes, limit).result != Err::<
            (Option<Seq<char>>, ValueView),
            EvalErrorView,
        >(EvalErrorView::LoopLimit),
    ensures
        exec_spec(instr, scopes, larger) == exec_spec(instr, scopes, limit),
    decreases instr, 1nat, 0nat,
{
    match instr {
        InstructionView::Block(instrs) => {
            lemma_limit_seq(instrs, 0, scopes.push(Scope::empty()), ValueView::Unit, limit, larger);
        },
        InstructionView::IfElse { cond, cond_true, cond_false } => {
            match eval_spec(cond, scopes) {
                Ok(v) => match v.to_bool() {
                    Ok(true) => law_limit_unobservable(*cond_true, scopes, limit, larger),
                    Ok(false) => law_limit_unobservable(*cond_false, scopes, limit, larger),
                    Err(_) => {},
                },
                Err(_) => {},
            }
        },
        InstructionView::While(cond, body) => {
            lemma_limit_loop(cond, *body, scopes, limit, limit, larger, larger);
        },
        _ => {},
    }
}

/// The instructions of a block that do not end in `LoopLimit` under some
/// limit end alike under every larger one.
proof fn lemma_limit_seq(
    instrs: Seq<InstructionView>,
    i: int,
    scopes: Scopes,
    last: ValueView,
    limit: nat,
    larger: nat,
)
    requires
        limit <= larger,
        exec_seq_spec(instrs, i, scopes, last, limit).result != Err::<
            (Option<Seq<char>>, ValueView),
            EvalErrorView,
        >(EvalErrorView::LoopLimit),
    ensures
        exec_seq_spec(instrs, i, scopes, last, larger) == exec_seq_spec(
            instrs,
            i,
            scopes,
            last,
            limit,
        ),
    decreases instrs, 0nat, instrs.len() - i,
{
    if 0 <= i < instrs.len() {
        let step = exec_spec(instrs[i], scopes, limit);
        law_limit_unobservable(instrs[i], scopes, limit, larger);
        match step.result {
            Ok((_, v)) => {
                lemma_limit_seq(instrs, i + 1, step.scopes, v, limit, larger);
            },
            Err(_) => {},
        }
    }
}

/// A loop that does not end in `LoopLimit` with some iterations left ends
/// alike with more of them left, and under a larger limit for the loops in
/// its body.
proof fn lemma_limit_loop(
    cond: ExpressionView,
    body: InstructionView,
    scopes: Scopes,
    limit: nat,
    left: nat,
    larger: nat,
    larger_left: nat,
)
    requires
        limit <= larger,
        left <= larger_left,
        loop_spec(cond, body, scopes, limit, left).result != Err::<
            (Option<Seq<char>>, ValueView),
            EvalErrorView,
        >(EvalErrorView::LoopLimit),
    ensures
        loop_spec(cond, body, scopes, larger, larger_left) == loop_spec(
            cond,
            body,
            scopes,
            limit,
            left,
        ),
    decreases body, 2nat, left,
{
    match eval_spec(cond, scopes) {
        Ok(v) => match v.to_bool() {
            Ok(true) => {
                let step = exec_spec(body, scopes, limit);
                law_limit_unobservable(body, scopes, limit, larger);
                if step.result is Ok {
                    lemma_limit_loop(
                        cond,
                        body,
                        step.scopes,
                        limit,
                        (left - 1) as nat,
                        larger,
                        (larger_left - 1) as nat,
                    );
                }
            },
            _ => {},
        },
        Err(_) => {},
    }
}

/// Whether every binding of `before` is still in `after`, as mutable or
/// immutable as it was.
pub open spec fn keeps_bindings(before: Scope, after: Scope) -> bool {
    forall|id: Seq<char>| #[trigger]
        before.contains_key(id) ==> after.contains_key(id) && after[id].mutable
            == before[id].mutable
}

/// Whether `after` binds the same names as `before`, each as mutable or
/// immutable as it was.
pub open spec fn same_bindings(before: Scope, after: Scope) -> bool {
    &&& keeps_bindings(before, after)
    &&& forall|id: Seq<char>| #[trigger] after.contains_key(id) ==> before.contains_key(id)
}

/// Whether the scopes `after` come from the scopes `before` by writes, and
/// by declarations in the innermost scope alone.
pub open spec fn grown_from(before: Scopes, after: Scopes) -> bool {
    &&& after.len() == before.len()
    &&& forall|k: int| 0 <= k < before.len() - 1 ==> same_bindings(before[k], #[trigger] after[k])
    &&& before.len() > 0 ==> keeps_bindings(before.last(), after.last())
}

/// An instruction declares names in the innermost scope only, and changes
/// no binding's mutability.
pub proof fn law_declarations_stay_innermost(instr: InstructionView, scopes: Scopes, limit: nat)
    ensures
        grown_from(scopes, exec_spec(instr, scopes, limit).scopes),
    decreases instr, 1nat, 0nat,
{
    match instr {
        InstructionView::Block(instrs) => {
            law_block_binds_nothing(instrs, scopes, limit);
        },
        InstructionView::IfElse { cond, cond_true, cond_false } => {
            law_declarations_stay_innermost(*cond_true, scopes, limit);
            law_declarations_stay_innermost(*cond_false, scopes, limit);
        },
        InstructionView::While(cond, body) => {
            lemma_loop_grows(cond, *body, scopes, limit, limit);
        },
        InstructionView::WriteAt(LeftExpressionView::Identifier(id), _) => {
            lemma_owner(scopes, id);
        },
        _ => {},
    }
}

/// No binding made inside a block outlives it: after the block every scope
/// binds the names that it bound before, each as mutable or immutable as it
/// was.
pub proof fn law_block_binds_nothing(instrs: Seq<InstructionView>, scopes: Scopes, limit: nat)
    ensures
        ({
            let after = exec_spec(InstructionView::Block(instrs), scopes, limit).scopes;
            &&& after.len() == scopes.len()
            &&& forall|k: int| 0 <= k < scopes.len() ==> same_bindings(scopes[k], #[trigger] after[k])
        }),
    decreases instrs, 0nat, instrs.len() + 1,
{
    let entered = scopes.push(Scope::empty());
    lemma_seq_grows(instrs, 0, entered, ValueView::Unit, limit);
    let inner = exec_seq_spec(instrs, 0, entered, ValueView::Unit, limit).scopes;
    let after = inner.drop_last();
    assert forall|k: int| 0 <= k < scopes.len() implies same_bindings(scopes[k], #[trigger] after[k]) by {
        assert(entered[k] == scopes[k]);
        assert(after[k] == inner[k]);
    }
}

/// Growth by writes and innermost declarations carries over two steps.
proof fn lemma_grown_from_chains(first: Scopes, second: Scopes, third: Scopes)
    requires
        grown_from(first, second),
        grown_from(second, third),
    ensures
        grown_from(first, third),
{
    assert forall|k: int| 0 <= k < first.len() - 1 implies same_bindings(
        first[k],
        #[trigger] third[k],
    ) by {
        assert(same_bindings(first[k], second[k]));
        assert(same_bindings(second[k], third[k]));
        lemma_keeps_bindings_chains(first[k], second[k], third[k]);
        assert forall|id: Seq<char>| #[trigger] third[k].contains_key(id) implies first[k].contains_key(
            id,
        ) by {
            assert(second[k].contains_key(id));
        }
    }
    if first.len() > 0 {
        lemma_keeps_bindings_chains(first.last(), second.last(), third.last());
    }
}

/// Bindings kept over two steps are kept over both.
proof fn lemma_keeps_bindings_chains(first: Scope, second: Scope, third: Scope)
    requires
        keeps_bindings(first, second),
        keeps_bindings(second, third),
    ensures
        keeps_bindings(first, third),
{
    assert forall|id: Seq<char>| #[trigger] first.contains_key(id) implies third.contains_key(id)
        && third[id].mutable == first[id].mutable by {
        assert(second.contains_key(id));
    }
}

/// The instructions of a block declare names in the innermost scope only.
proof fn lemma_seq_grows(
    instrs: Seq<InstructionView>,
    i: int,
    scopes: Scopes,
    last: ValueView,
    limit: nat,
)
    ensures
        grown_from(scopes, exec_seq_spec(instrs, i, scopes, last, limit).scopes),
    decreases instrs, 0nat, instrs.len() - i,
{
    if 0 <= i < instrs.len() {
        let step = exec_spec(instrs[i], scopes, limit);
        law_declarations_stay_innermost(instrs[i], scopes, limit);
        match step.result {
            Ok((_, v)) => {
                lemma_seq_grows(instrs, i + 1, step.scopes, v, limit);
                lemma_grown_from_chains(
                    scopes,
                    step.scopes,
                    exec_seq_spec(instrs, i + 1, step.scopes, v, limit).scopes,
                );
            },
            Err(_) => {},
        }
    }
}

/// A loop declares names in the innermost scope only.
proof fn lemma_loop_grows(
    cond: ExpressionView,
    body: InstructionView,
    scopes: Scopes,
    limit: nat,
    left: nat,
)
    ensures
        grown_from(scopes, loop_spec(cond, body, scopes, limit, left).scopes),
    decreases body, 2nat, left,
{
    if left > 0 {
        let step = exec_spec(body, scopes, limit);
        law_declarations_stay_innermost(body, scopes, limit);
        if step.result is Ok {
            lemma_loop_grows(cond, body, step.scopes, limit, (left - 1) as nat);
            lemma_grown_from_chains(
                scopes,
                step.scopes,
                loop_spec(cond, body, step.scopes, limit, (left - 1) as nat).scopes,
            );
        }
    }
}

/// The number that a sequence of decimal digits writes.
pub open spec fn decimal_value(digits: Seq<char>) -> nat
    decreases digits.len(),
{
    if digits.len() == 0 {
        0
    } else {
        (decimal_value(digits.drop_last()) * 10 + digit_value(digits.last())) as nat
    }
}

/// Whether every character of the sequence is a decimal digit.
pub open spec fn all_digits(digits: Seq<char>) -> bool {
    forall|i: int| 0 <= i < digits.len() ==> is_digit(#[trigger] digits[i])
}

/// The decimal text of a natural number that fits reads back as an integer
/// literal of that value, which takes up the whole text.
pub proof fn law_number_reads_back(n: nat)
    requires
        n <= isize::MAX,
    ensures
        number_at(natural_text(n), 0, 0) == Some((n as isize, natural_text(n).len() as int)),
{
    lemma_natural_text_writes(n);
    let digits = natural_text(n);
    assert(digits.take(0) =~= Seq::<char>::empty());
    lemma_number_reads(digits, 0);
}

/// The decimal text of a natural number is made of digits, and writes that
/// number.
proof fn lemma_natural_text_writes(n: nat)
    ensures
        natural_text(n).len() > 0,
        all_digits(natural_text(n)),
        decimal_value(natural_text(n)) == n,
    decreases n,
{
    if n < 10 {
        let digits = seq![digit_char(n)];
        assert(digits.drop_last() =~= Seq::<char>::empty());
        assert(decimal_value(digits.drop_last()) == 0);
        assert(digits.last() == digit_char(n));
    } else {
        lemma_natural_text_writes(n / 10);
        let front = natural_text(n / 10);
        let digits = front.push(digit_char(n % 10));
        assert(digits.drop_last() =~= front);
        assert(digits.last() == digit_char(n % 10));
        assert forall|i: int| 0 <= i < digits.len() implies is_digit(#[trigger] digits[i]) by {
            if i < front.len() {
                assert(digits[i] == front[i]);
            }
        }
    }
}

/// A longer sequence of digits writes no smaller a number than its front.
proof fn lemma_decimal_value_grows(digits: Seq<char>, k: int)
    requires
        all_digits(digits),
        0 <= k <= digits.len(),
    ensures
        decimal_value(digits.take(k)) <= decimal_value(digits),
    decreases digits.len() - k,
{
    if k < digits.len() {
        lemma_decimal_value_grows(digits, k + 1);
        let longer = digits.take(k + 1);
        assert(longer.drop_last() =~= digits.take(k));
        assert(longer.last() == digits[k]);
    } else {
        assert(digits.take(k) =~= digits);
    }
}

/// Reading digits from the `k`-th on, after those before it, gives the
/// number that all of them write.
proof fn lemma_number_reads(digits: Seq<char>, k: int)
    requires
        all_digits(digits),
        0 <= k <= digits.len(),
        decimal_value(digits) <= isize::MAX,
    ensures
        number_at(digits, k, decimal_value(digits.take(k)) as int) == Some(
            (decimal_value(digits) as isize, digits.len() as int),
        ),
    decreases digits.len() - k,
{
    if k < digits.len() {
        let longer = digits.take(k + 1);
        assert(longer.drop_last() =~= digits.take(k));
        assert(longer.last() == digits[k]);
        lemma_decimal_value_grows(digits, k + 1);
        lemma_number_reads(digits, k + 1);
    } else {
        assert(digits.take(k) =~= digits);
    }
}

} // verus!
