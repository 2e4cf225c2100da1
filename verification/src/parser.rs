//! The concrete syntax: how tokens form expressions and instructions.
//!
//! The grammar is given as functions from a position among the tokens to
//! the tree that starts there and the position behind it. Binary operators
//! associate to the left and bind, from loosest to tightest: `||`, `&&`,
//! `==` `!=`, `<=` `>=` `<` `>`, `+` `-`, `*` `/` `%`.

use vstd::prelude::*;
use vstd::string::StrSliceExecFns;
use crate::error::ParseError;
use crate::identifier::Identifier;
use crate::lexer::{chars_of, span_is, spans_within, tokenize, tokens_of, Token};
use crate::parsing::binop::Binop;
use crate::parsing::expression::{Expression, ExpressionView};
use crate::parsing::instruction::{Instruction, InstructionView};
use crate::parsing::leftexpression::{LeftExpression, LeftExpressionView};
use crate::parsing::parsedvalue::ParsedValue;
use crate::parsing::ptr_kind::PtrKind;

verus! {

/// The token at position `i`, if there is one.
pub open spec fn peek(tokens: Seq<Token>, i: int) -> Option<Token> {
    if 0 <= i < tokens.len() {
        Some(tokens[i])
    } else {
        None
    }
}

/// The number of levels of binary operators.
pub open spec fn levels() -> u8 {
    6
}

/// The operator that `token` is at the given level of precedence, where
/// level 0 binds loosest.
pub open spec fn operator_of(token: Token, level: u8) -> Option<Binop> {
    match (level, token) {
        (0, Token::OrOr) => Some(Binop::Or),
        (1, Token::AndAnd) => Some(Binop::And),
        (2, Token::EqEq) => Some(Binop::Eq),
        (2, Token::Neq) => Some(Binop::Neq),
        (3, Token::Leq) => Some(Binop::Leq),
        (3, Token::Geq) => Some(Binop::Geq),
        (3, Token::Lt) => Some(Binop::Lt),
        (3, Token::Gt) => Some(Binop::Gt),
        (4, Token::Plus) => Some(Binop::Add),
        (4, Token::Minus) => Some(Binop::Sub),
        (5, Token::Star) => Some(Binop::Mul),
        (5, Token::Slash) => Some(Binop::Div),
        (5, Token::Percent) => Some(Binop::Mod),
        _ => None,
    }
}

/// The kind of pointer that the word names, if it names one.
pub open spec fn pointer_kind(word: Seq<char>) -> Option<PtrKind> {
    if word == "Box"@ {
        Some(PtrKind::Box)
    } else if word == "Rc"@ {
        Some(PtrKind::Rc)
    } else {
        None
    }
}

/// Whether the tokens from `i` on start a heap allocation of some kind:
/// a name, `::`, the name `new`, and `(`.
pub open spec fn allocation_at(src: Seq<char>, tokens: Seq<Token>, i: int) -> Option<PtrKind> {
    match (peek(tokens, i), peek(tokens, i + 1), peek(tokens, i + 2), peek(tokens, i + 3)) {
        (
            Some(Token::Ident { start, end }),
            Some(Token::ColonColon),
            Some(Token::Ident { start: new_start, end: new_end }),
            Some(Token::LParen),
        ) => if src.subrange(new_start as int, new_end as int) == "new"@ {
            pointer_kind(src.subrange(start as int, end as int))
        } else {
            None
        },
        _ => None,
    }
}

/// The rank of the binary expressions of `level` in the order in which the
/// grammar's functions call one another at one position.
pub open spec fn binary_rank(level: u8) -> nat {
    if level < levels() {
        (8 - level) as nat
    } else {
        2
    }
}

/// A literal, a name, a heap allocation or an expression in parentheses.
pub open spec fn primary_spec(src: Seq<char>, tokens: Seq<Token>, i: int) -> Option<
    (ExpressionView, int),
>
    decreases tokens.len() - i, 0nat,
{
    match peek(tokens, i) {
        Some(Token::Int(n)) => Some((ExpressionView::Const(ParsedValue::Integer(n)), i + 1)),
        Some(Token::True) => Some((ExpressionView::Const(ParsedValue::Boolean(true)), i + 1)),
        Some(Token::False) => Some((ExpressionView::Const(ParsedValue::Boolean(false)), i + 1)),
        Some(Token::Ident { start, end }) => match allocation_at(src, tokens, i) {
            Some(kind) => match expr_spec(src, tokens, i + 4) {
                Some((e, j)) => if peek(tokens, j) == Some(Token::RParen) {
                    Some((ExpressionView::NewPtr(kind, Box::new(e)), j + 1))
                } else {
                    None
                },
                None => None,
            },
            None => Some(
                (
                    ExpressionView::ValueAt(
                        LeftExpressionView::Identifier(src.subrange(start as int, end as int)),
                    ),
                    i + 1,
                ),
            ),
        },
        Some(Token::LParen) => if peek(tokens, i + 1) == Some(Token::RParen) {
            Some((ExpressionView::Const(ParsedValue::Unit), i + 2))
        } else {
            match expr_spec(src, tokens, i + 1) {
                Some((e, j)) => if peek(tokens, j) == Some(Token::RParen) {
                    Some((e, j + 1))
                } else {
                    None
                },
                None => None,
            }
        },
        _ => None,
    }
}

/// A primary expression after any number of `&` and `*`.
pub open spec fn unary_spec(src: Seq<char>, tokens: Seq<Token>, i: int) -> Option<
    (ExpressionView, int),
>
    decreases tokens.len() - i, 1nat,
{
    match peek(tokens, i) {
        Some(Token::Amp) => match unary_spec(src, tokens, i + 1) {
            Some((e, j)) => Some((ExpressionView::AmpersAnd(Box::new(e)), j)),
            None => None,
        },
        Some(Token::Star) => match unary_spec(src, tokens, i + 1) {
            Some((e, j)) => Some((ExpressionView::Deref(Box::new(e)), j)),
            None => None,
        },
        _ => primary_spec(src, tokens, i),
    }
}

/// Operands of the next level with the operators of `level` between them.
pub open spec fn binary_spec(src: Seq<char>, tokens: Seq<Token>, i: int, level: u8) -> Option<
    (ExpressionView, int),
>
    decreases tokens.len() - i, binary_rank(level),
{
    if level >= levels() {
        unary_spec(src, tokens, i)
    } else {
        match binary_spec(src, tokens, i, (level + 1) as u8) {
            Some((lhs, j)) => if i < j <= tokens.len() {
                binary_rest_spec(src, tokens, lhs, j, level)
            } else {
                None
            },
            None => None,
        }
    }
}

/// What follows the operand `lhs` at `level`: further operators of that
/// level, each with its right operand, taken from left to right.
pub open spec fn binary_rest_spec(
    src: Seq<char>,
    tokens: Seq<Token>,
    lhs: ExpressionView,
    i: int,
    level: u8,
) -> Option<(ExpressionView, int)>
    decreases tokens.len() - i, 9nat,
{
    match peek(tokens, i) {
        Some(token) => match operator_of(token, level) {
            Some(op) => match binary_spec(src, tokens, i + 1, (level + 1) as u8) {
                Some((rhs, j)) => if i < j <= tokens.len() {
                    binary_rest_spec(
                        src,
                        tokens,
                        ExpressionView::BinOp(Box::new(lhs), op, Box::new(rhs)),
                        j,
                        level,
                    )
                } else {
                    None
                },
                None => None,
            },
            None => Some((lhs, i)),
        },
        None => Some((lhs, i)),
    }
}

/// An expression: a binary expression, or a conditional
/// `cond ? then : else` whose condition is one.
pub open spec fn expr_spec(src: Seq<char>, tokens: Seq<Token>, i: int) -> Option<
    (ExpressionView, int),
>
    decreases tokens.len() - i, 10nat,
{
    match binary_spec(src, tokens, i, 0) {
        Some((cond, j)) => if peek(tokens, j) == Some(Token::Question) && i < j {
            match expr_spec(src, tokens, j + 1) {
                Some((cond_true, k)) => if peek(tokens, k) == Some(Token::Colon) && j < k {
                    match expr_spec(src, tokens, k + 1) {
                        Some((cond_false, m)) => Some(
                            (
                                ExpressionView::Conditional {
                                    cond: Box::new(cond),
                                    cond_true: Box::new(cond_true),
                                    cond_false: Box::new(cond_false),
                                },
                                m,
                            ),
                        ),
                        None => None,
                    }
                } else {
                    None
                },
                None => None,
            }
        } else {
            Some((cond, j))
        },
        None => None,
    }
}

/// The storage location that an expression denotes when it stands left of
/// `=`: a name, or what a location points to.
pub open spec fn target_of(e: ExpressionView) -> Option<LeftExpressionView>
    decreases e,
{
    match e {
        ExpressionView::ValueAt(target) => Some(target),
        ExpressionView::Deref(inner) => match target_of(*inner) {
            Some(target) => Some(LeftExpressionView::Deref(Box::new(target))),
            None => None,
        },
        _ => None,
    }
}

/// A storage location: a name after any number of `*`.
pub open spec fn lexpr_spec(src: Seq<char>, tokens: Seq<Token>, i: int) -> Option<
    (LeftExpressionView, int),
>
    decreases tokens.len() - i,
{
    match peek(tokens, i) {
        Some(Token::Star) => match lexpr_spec(src, tokens, i + 1) {
            Some((target, j)) => Some((LeftExpressionView::Deref(Box::new(target)), j)),
            None => None,
        },
        Some(Token::Ident { start, end }) => Some(
            (LeftExpressionView::Identifier(src.subrange(start as int, end as int)), i + 1),
        ),
        _ => None,
    }
}

/// An instruction.
pub open spec fn instr_spec(src: Seq<char>, tokens: Seq<Token>, i: int) -> Option<
    (InstructionView, int),
>
    decreases tokens.len() - i, 20nat,
{
    match peek(tokens, i) {
        Some(Token::Let) => {
            let mutable = peek(tokens, i + 1) == Some(Token::Mut);
            let at = if mutable {
                i + 2
            } else {
                i + 1
            };
            match (peek(tokens, at), peek(tokens, at + 1)) {
                (Some(Token::Ident { start, end }), Some(Token::Assign)) => match expr_spec(
                    src,
                    tokens,
                    at + 2,
                ) {
                    Some((expr, j)) => Some(
                        (
                            InstructionView::Let {
                                id: src.subrange(start as int, end as int),
                                mutable,
                                expr,
                            },
                            j,
                        ),
                    ),
                    None => None,
                },
                _ => None,
            }
        },
        Some(Token::LBrace) => if peek(tokens, i + 1) == Some(Token::RBrace) {
            Some((InstructionView::Block(Seq::empty()), i + 2))
        } else {
            items_spec(src, tokens, i + 1, Seq::empty())
        },
        Some(Token::If) => match expr_spec(src, tokens, i + 1) {
            Some((cond, j)) => if i < j <= tokens.len() {
                match instr_spec(src, tokens, j) {
                    Some((cond_true, k)) => if peek(tokens, k) == Some(Token::Else) && j < k {
                        match instr_spec(src, tokens, k + 1) {
                            Some((cond_false, m)) => Some(
                                (
                                    InstructionView::IfElse {
                                        cond,
                                        cond_true: Box::new(cond_true),
                                        cond_false: Box::new(cond_false),
                                    },
                                    m,
                                ),
                            ),
                            None => None,
                        }
                    } else {
                        None
                    },
                    None => None,
                }
            } else {
                None
            },
            None => None,
        },
        Some(Token::While) => match expr_spec(src, tokens, i + 1) {
            Some((cond, j)) => if i < j <= tokens.len() {
                match instr_spec(src, tokens, j) {
                    Some((body, k)) => Some((InstructionView::While(cond, Box::new(body)), k)),
                    None => None,
                }
            } else {
                None
            },
            None => None,
        },
        Some(Token::Free) => match lexpr_spec(src, tokens, i + 1) {
            Some((target, j)) => Some((InstructionView::Free(target), j)),
            None => None,
        },
        _ => match expr_spec(src, tokens, i) {
            Some((e, j)) => if peek(tokens, j) == Some(Token::Assign) && i < j {
                match (target_of(e), expr_spec(src, tokens, j + 1)) {
                    (Some(target), Some((value, k))) => Some(
                        (InstructionView::WriteAt(target, value), k),
                    ),
                    _ => None,
                }
            } else {
                Some((InstructionView::Expr(e), j))
            },
            None => None,
        },
    }
}

/// The rest of a block, after the instructions `done`: instructions with
/// `;` between them, and `}` behind the last one.
pub open spec fn items_spec(
    src: Seq<char>,
    tokens: Seq<Token>,
    i: int,
    done: Seq<InstructionView>,
) -> Option<(InstructionView, int)>
    decreases tokens.len() - i, 21nat,
{
    match instr_spec(src, tokens, i) {
        Some((instr, j)) => if i < j {
            match peek(tokens, j) {
                Some(Token::Semi) => items_spec(src, tokens, j + 1, done.push(instr)),
                Some(Token::RBrace) => Some((InstructionView::Block(done.push(instr)), j + 1)),
                _ => None,
            }
        } else {
            None
        },
        None => None,
    }
}

/// The expression that a text is, if the whole text is one.
pub open spec fn parse_expression_spec(src: Seq<char>) -> Option<ExpressionView> {
    match tokens_of(src) {
        Some(tokens) => match expr_spec(src, tokens, 0) {
            Some((e, end)) => if end == tokens.len() {
                Some(e)
            } else {
                None
            },
            None => None,
        },
        None => None,
    }
}

/// The instruction that a text is, if the whole text is one.
pub open spec fn parse_instruction_spec(src: Seq<char>) -> Option<InstructionView> {
    match tokens_of(src) {
        Some(tokens) => match instr_spec(src, tokens, 0) {
            Some((instr, end)) => if end == tokens.len() {
                Some(instr)
            } else {
                None
            },
            None => None,
        },
        None => None,
    }
}

/// A text with its characters and its tokens.
struct Source<'a> {
    text: &'a str,
    chars: Vec<char>,
    tokens: Vec<Token>,
}

/// The view of a parsed expression and the position behind it.
spec fn parsed_expression_view(r: Option<(Expression, usize)>) -> Option<
    (ExpressionView, int),
> {
    match r {
        Some((e, j)) => Some((e@, j as int)),
        None => None,
    }
}

/// The view of a parsed storage location and the position behind it.
spec fn parsed_target_view(r: Option<(LeftExpression, usize)>) -> Option<
    (LeftExpressionView, int),
> {
    match r {
        Some((target, j)) => Some((target@, j as int)),
        None => None,
    }
}

/// The view of a parsed instruction and the position behind it.
spec fn parsed_instruction_view(r: Option<(Instruction, usize)>) -> Option<
    (InstructionView, int),
> {
    match r {
        Some((instr, j)) => Some((instr@, j as int)),
        None => None,
    }
}

/// The operator that `token` is at the given level of precedence.
fn operator_for(token: Token, level: u8) -> (op: Option<Binop>)
    ensures
        op == operator_of(token, level),
{
    match (level, token) {
        (0, Token::OrOr) => Some(Binop::Or),
        (1, Token::AndAnd) => Some(Binop::And),
        (2, Token::EqEq) => Some(Binop::Eq),
        (2, Token::Neq) => Some(Binop::Neq),
        (3, Token::Leq) => Some(Binop::Leq),
        (3, Token::Geq) => Some(Binop::Geq),
        (3, Token::Lt) => Some(Binop::Lt),
        (3, Token::Gt) => Some(Binop::Gt),
        (4, Token::Plus) => Some(Binop::Add),
        (4, Token::Minus) => Some(Binop::Sub),
        (5, Token::Star) => Some(Binop::Mul),
        (5, Token::Slash) => Some(Binop::Div),
        (5, Token::Percent) => Some(Binop::Mod),
        _ => None,
    }
}

/// The storage location that an expression denotes when it stands left of
/// `=`.
fn target_from(e: Expression) -> (r: Option<LeftExpression>)
    ensures
        match r {
            Some(target) => target_of(e@) == Some(target@),
            None => target_of(e@) is None,
        },
    decreases e,
{
    match e {
        Expression::ValueAt(target) => Some(target),
        Expression::Deref(inner) => match target_from(*inner) {
            Some(target) => Some(LeftExpression::Deref(Box::new(target))),
            None => None,
        },
        _ => None,
    }
}

impl<'a> Source<'a> {
    /// The characters are those of the text, and every name among the
    /// tokens covers a span of it.
    spec fn wf(&self) -> bool {
        &&& self.chars@ == self.text@
        &&& self.chars@.len() <= usize::MAX
        &&& self.tokens@.len() <= usize::MAX
        &&& spans_within(self.tokens@, self.chars@.len() as int)
    }

    /// The text.
    spec fn src(&self) -> Seq<char> {
        self.text@
    }

    /// The tokens of the text.
    spec fn toks(&self) -> Seq<Token> {
        self.tokens@
    }

    /// Divides `text` into tokens; `None` where it has no division.
    fn new(text: &'a str) -> (r: Option<Source<'a>>)
        ensures
            match r {
                Some(source) => source.wf() && source.src() == text@ && tokens_of(text@) == Some(
                    source.toks(),
                ),
                None => tokens_of(text@) is None,
            },
    {
        let chars = chars_of(text);
        match tokenize(&chars) {
            Some(tokens) => {
                assert(chars@.len() == chars.len() && tokens@.len() == tokens.len());
                Some(Source { text, chars, tokens })
            },
            None => None,
        }
    }

    /// The number of tokens.
    fn len(&self) -> (n: usize)
        ensures
            n == self.toks().len(),
    {
        self.tokens.len()
    }

    /// The token at position `i`, if there is one.
    fn token(&self, i: usize) -> (t: Option<Token>)
        ensures
            t == peek(self.toks(), i as int),
            t is Some ==> i < self.toks().len(),
    {
        if i < self.tokens.len() {
            Some(self.tokens[i])
        } else {
            None
        }
    }

    /// Whether the token at position `i` is `token`.
    fn token_is(&self, i: usize, token: Token) -> (b: bool)
        ensures
            b == (peek(self.toks(), i as int) == Some(token)),
            b ==> i < self.toks().len(),
    {
        i < self.tokens.len() && self.tokens[i] == token
    }

    /// The name that covers `start..end`.
    fn name(&self, start: usize, end: usize) -> (id: Identifier)
        requires
            self.wf(),
            start <= end <= self.src().len(),
        ensures
            id@ == self.src().subrange(start as int, end as int),
    {
        Identifier::new(self.text.substring_char(start, end))
    }

    /// The kind of the heap allocation that starts at `i`, if one does.
    fn allocation(&self, i: usize) -> (r: Option<PtrKind>)
        requires
            self.wf(),
        ensures
            r == allocation_at(self.src(), self.toks(), i as int),
            r is Some ==> i + 4 <= self.toks().len(),
    {
        if let Some(Token::Ident { start, end }) = self.token(i) {
            if self.token_is(i + 1, Token::ColonColon) {
                if let Some(Token::Ident { start: new_start, end: new_end }) = self.token(i + 2) {
                    if self.token_is(i + 3, Token::LParen) {
                        assert(self.toks()[i as int] == Token::Ident { start, end });
                        assert(self.toks()[i + 2] == Token::Ident {
                            start: new_start,
                            end: new_end,
                        });
                        if span_is(&self.chars, new_start, new_end, "new") {
                            if span_is(&self.chars, start, end, "Box") {
                                return Some(PtrKind::Box);
                            } else if span_is(&self.chars, start, end, "Rc") {
                                return Some(PtrKind::Rc);
                            }
                        }
                    }
                }
            }
        }
        None
    }

    /// A literal, a name, a heap allocation or an expression in
    /// parentheses.
    fn primary(&self, i: usize) -> (r: Option<(Expression, usize)>)
        requires
            self.wf(),
        ensures
            parsed_expression_view(r) == primary_spec(self.src(), self.toks(), i as int),
            r matches Some((_, j)) ==> i < j <= self.toks().len(),
        decreases self.toks().len() - i, 0nat,
    {
        match self.token(i) {
            Some(Token::Int(n)) => Some((Expression::Const(ParsedValue::Integer(n)), i + 1)),
            Some(Token::True) => Some((Expression::Const(ParsedValue::Boolean(true)), i + 1)),
            Some(Token::False) => Some((Expression::Const(ParsedValue::Boolean(false)), i + 1)),
            Some(Token::Ident { start, end }) => {
                assert(self.toks()[i as int] == Token::Ident { start, end });
                match self.allocation(i) {
                    Some(kind) => match self.expr(i + 4) {
                        Some((e, j)) => if self.token_is(j, Token::RParen) {
                            Some((Expression::NewPtr(kind, Box::new(e)), j + 1))
                        } else {
                            None
                        },
                        None => None,
                    },
                    None => Some(
                        (
                            Expression::ValueAt(LeftExpression::Identifier(self.name(start, end))),
                            i + 1,
                        ),
                    ),
                }
            },
            Some(Token::LParen) => if self.token_is(i + 1, Token::RParen) {
                Some((Expression::Const(ParsedValue::Unit), i + 2))
            } else {
                match self.expr(i + 1) {
                    Some((e, j)) => if self.token_is(j, Token::RParen) {
                        Some((e, j + 1))
                    } else {
                        None
                    },
                    None => None,
                }
            },
            _ => None,
        }
    }

    /// A primary expression after any number of `&` and `*`.
    fn unary(&self, i: usize) -> (r: Option<(Expression, usize)>)
        requires
            self.wf(),
        ensures
            parsed_expression_view(r) == unary_spec(self.src(), self.toks(), i as int),
            r matches Some((_, j)) ==> i < j <= self.toks().len(),
        decreases self.toks().len() - i, 1nat,
    {
        match self.token(i) {
            Some(Token::Amp) => match self.unary(i + 1) {
                Some((e, j)) => Some((Expression::AmpersAnd(Box::new(e)), j)),
                None => None,
            },
            Some(Token::Star) => match self.unary(i + 1) {
                Some((e, j)) => Some((Expression::Deref(Box::new(e)), j)),
                None => None,
            },
            _ => self.primary(i),
        }
    }

    /// Operands of the next level with the operators of `level` between
    /// them.
    fn binary(&self, i: usize, level: u8) -> (r: Option<(Expression, usize)>)
        requires
            self.wf(),
        ensures
            parsed_expression_view(r) == binary_spec(self.src(), self.toks(), i as int, level),
            r matches Some((_, j)) ==> i < j <= self.toks().len(),
        decreases self.toks().len() - i, binary_rank(level),
    {
        if level >= 6 {
            self.unary(i)
        } else {
            match self.binary(i, level + 1) {
                Some((lhs, j)) => self.binary_rest(lhs, j, level),
                None => None,
            }
        }
    }

    /// What follows the operand `lhs` at `level`.
    fn binary_rest(&self, lhs: Expression, i: usize, level: u8) -> (r: Option<(Expression, usize)>)
        requires
            self.wf(),
            level < 6,
            i <= self.toks().len(),
        ensures
            parsed_expression_view(r) == binary_rest_spec(
                self.src(),
                self.toks(),
                lhs@,
                i as int,
                level,
            ),
            r matches Some((_, j)) ==> i <= j <= self.toks().len(),
        decreases self.toks().len() - i, 9nat,
    {
        match self.token(i) {
            Some(token) => match operator_for(token, level) {
                Some(op) => match self.binary(i + 1, level + 1) {
                    Some((rhs, j)) => self.binary_rest(
                        Expression::BinOp(Box::new(lhs), op, Box::new(rhs)),
                        j,
                        level,
                    ),
                    None => None,
                },
                None => Some((lhs, i)),
            },
            None => Some((lhs, i)),
        }
    }

    /// An expression.
    fn expr(&self, i: usize) -> (r: Option<(Expression, usize)>)
        requires
            self.wf(),
        ensures
            parsed_expression_view(r) == expr_spec(self.src(), self.toks(), i as int),
            r matches Some((_, j)) ==> i < j <= self.toks().len(),
        decreases self.toks().len() - i, 10nat,
    {
        match self.binary(i, 0) {
            Some((cond, j)) => if self.token_is(j, Token::Question) {
                match self.expr(j + 1) {
                    Some((cond_true, k)) => if self.token_is(k, Token::Colon) {
                        match self.expr(k + 1) {
                            Some((cond_false, m)) => Some(
                                (
                                    Expression::Conditional {
                                        cond: Box::new(cond),
                                        cond_true: Box::new(cond_true),
                                        cond_false: Box::new(cond_false),
                                    },
                                    m,
                                ),
                            ),
                            None => None,
                        }
                    } else {
                        None
                    },
                    None => None,
                }
            } else {
                Some((cond, j))
            },
            None => None,
        }
    }

    /// A storage location: a name after any number of `*`.
    fn lexpr(&self, i: usize) -> (r: Option<(LeftExpression, usize)>)
        requires
            self.wf(),
        ensures
            parsed_target_view(r) == lexpr_spec(self.src(), self.toks(), i as int),
            r matches Some((_, j)) ==> i < j <= self.toks().len(),
        decreases self.toks().len() - i,
    {
        match self.token(i) {
            Some(Token::Star) => match self.lexpr(i + 1) {
                Some((target, j)) => Some((LeftExpression::Deref(Box::new(target)), j)),
                None => None,
            },
            Some(Token::Ident { start, end }) => {
                assert(self.toks()[i as int] == Token::Ident { start, end });
                Some((LeftExpression::Identifier(self.name(start, end)), i + 1))
            },
            _ => None,
        }
    }

    /// An instruction.
    fn instr(&self, i: usize) -> (r: Option<(Instruction, usize)>)
        requires
            self.wf(),
        ensures
            parsed_instruction_view(r) == instr_spec(self.src(), self.toks(), i as int),
            r matches Some((_, j)) ==> i < j <= self.toks().len(),
        decreases self.toks().len() - i, 20nat,
    {
        match self.token(i) {
            Some(Token::Let) => {
                let mutable = self.token_is(i + 1, Token::Mut);
                let at = if mutable {
                    i + 2
                } else {
                    i + 1
                };
                match self.token(at) {
                    Some(Token::Ident { start, end }) => {
                        assert(self.toks()[at as int] == Token::Ident { start, end });
                        if self.token_is(at + 1, Token::Assign) {
                            match self.expr(at + 2) {
                                Some((expr, j)) => Some(
                                    (
                                        Instruction::Let {
                                            id: self.name(start, end),
                                            mutable,
                                            expr,
                                        },
                                        j,
                                    ),
                                ),
                                None => None,
                            }
                        } else {
                            None
                        }
                    },
                    _ => None,
                }
            },
            Some(Token::LBrace) => {
                let done: Vec<Instruction> = Vec::new();
                assert(Instruction::models(done@) =~= Seq::empty());
                if self.token_is(i + 1, Token::RBrace) {
                    Some((Instruction::Block(done), i + 2))
                } else {
                    self.items(i + 1, done)
                }
            },
            Some(Token::If) => match self.expr(i + 1) {
                Some((cond, j)) => match self.instr(j) {
                    Some((cond_true, k)) => if self.token_is(k, Token::Else) {
                        match self.instr(k + 1) {
                            Some((cond_false, m)) => Some(
                                (
                                    Instruction::IfElse {
                                        cond,
                                        cond_true: Box::new(cond_true),
                                        cond_false: Box::new(cond_false),
                                    },
                                    m,
                                ),
                            ),
                            None => None,
                        }
                    } else {
                        None
                    },
                    None => None,
                },
                None => None,
            },
            Some(Token::While) => match self.expr(i + 1) {
                Some((cond, j)) => match self.instr(j) {
                    Some((body, k)) => Some((Instruction::While(cond, Box::new(body)), k)),
                    None => None,
                },
                None => None,
            },
            Some(Token::Free) => match self.lexpr(i + 1) {
                Some((target, j)) => Some((Instruction::Free(target), j)),
                None => None,
            },
            _ => match self.expr(i) {
                Some((e, j)) => if self.token_is(j, Token::Assign) {
                    match target_from(e) {
                        Some(target) => match self.expr(j + 1) {
                            Some((value, k)) => Some((Instruction::WriteAt(target, value), k)),
                            None => None,
                        },
                        None => None,
                    }
                } else {
                    Some((Instruction::Expr(e), j))
                },
                None => None,
            },
        }
    }

    /// The rest of a block, after the instructions `done`.
    fn items(&self, i: usize, done: Vec<Instruction>) -> (r: Option<(Instruction, usize)>)
        requires
            self.wf(),
        ensures
            parsed_instruction_view(r) == items_spec(
                self.src(),
                self.toks(),
                i as int,
                Instruction::models(done@),
            ),
            r matches Some((_, j)) ==> i < j <= self.toks().len(),
        decreases self.toks().len() - i, 21nat,
    {
        let mut done = done;
        match self.instr(i) {
            Some((instr, j)) => {
                let ghost before = Instruction::models(done@);
                let ghost item = instr@;
                done.push(instr);
                assert(Instruction::models(done@) =~= before.push(item));
                if self.token_is(j, Token::Semi) {
                    self.items(j + 1, done)
                } else if self.token_is(j, Token::RBrace) {
                    Some((Instruction::Block(done), j + 1))
                } else {
                    None
                }
            },
            None => None,
        }
    }
}

impl Expression {
    /// Reads an expression from `input`, which has to be one expression as
    /// a whole.
    pub fn parse(input: &str) -> (r: Result<Expression, ParseError>)
        ensures
            match r {
                Ok(e) => parse_expression_spec(input@) == Some(e@),
                Err(err) => err == ParseError::CannotParse && parse_expression_spec(input@) is None,
            },
    {
        match Source::new(input) {
            Some(source) => match source.expr(0) {
                Some((e, end)) => if end == source.len() {
                    Ok(e)
                } else {
                    Err(ParseError::CannotParse)
                },
                None => Err(ParseError::CannotParse),
            },
            None => Err(ParseError::CannotParse),
        }
    }
}

impl Instruction {
    /// Reads an instruction from `input`, which has to be one instruction
    /// as a whole.
    pub fn parse(input: &str) -> (r: Result<Instruction, ParseError>)
        ensures
            match r {
                Ok(instr) => parse_instruction_spec(input@) == Some(instr@),
                Err(err) => err == ParseError::CannotParse && parse_instruction_spec(input@)
                    is None,
            },
    {
        match Source::new(input) {
            Some(source) => match source.instr(0) {
                Some((instr, end)) => if end == source.len() {
                    Ok(instr)
                } else {
                    Err(ParseError::CannotParse)
                },
                None => Err(ParseError::CannotParse),
            },
            None => Err(ParseError::CannotParse),
        }
    }
}

} // verus!
