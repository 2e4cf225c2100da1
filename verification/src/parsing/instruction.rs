//! Instructions.

use vstd::prelude::*;
use vstd::std_specs::convert::FromSpecImpl;
use crate::error::ParseError;
use crate::identifier::Identifier;
use crate::parser::{parse_expression_spec, parse_instruction_spec};
use crate::parsing::expression::{Expression, ExpressionView};
use crate::parsing::leftexpression::{LeftExpression, LeftExpressionView};

verus! {

/// An instruction of the language.
#[derive(Debug, PartialEq)]
pub enum Instruction {
    Expr(Expression),
    Let { id: Identifier, mutable: bool, expr: Expression },
    Block(Vec<Instruction>),
    IfElse { cond: Expression, cond_true: Box<Instruction>, cond_false: Box<Instruction> },
    WriteAt(LeftExpression, Expression),
    While(Expression, Box<Instruction>),
    Free(LeftExpression),
}

/// The mathematical view of an [`Instruction`].
pub enum InstructionView {
    Expr(ExpressionView),
    Let { id: Seq<char>, mutable: bool, expr: ExpressionView },
    Block(Seq<InstructionView>),
    IfElse { cond: ExpressionView, cond_true: Box<InstructionView>, cond_false: Box<InstructionView> },
    WriteAt(LeftExpressionView, ExpressionView),
    While(ExpressionView, Box<InstructionView>),
    Free(LeftExpressionView),
}

impl Instruction {
    /// The view, by recursion on the structure.
    pub open spec fn model(&self) -> InstructionView
        decreases self,
    {
        match self {
            Instruction::Expr(e) => InstructionView::Expr(e@),
            Instruction::Let { id, mutable, expr } => InstructionView::Let {
                id: id@,
                mutable: *mutable,
                expr: expr@,
            },
            Instruction::Block(instrs) => InstructionView::Block(Self::models(instrs@)),
            Instruction::IfElse { cond, cond_true, cond_false } => InstructionView::IfElse {
                cond: cond@,
                cond_true: Box::new(cond_true.model()),
                cond_false: Box::new(cond_false.model()),
            },
            Instruction::WriteAt(l, e) => InstructionView::WriteAt(l@, e@),
            Instruction::While(cond, body) => InstructionView::While(cond@, Box::new(body.model())),
            Instruction::Free(l) => InstructionView::Free(l@),
        }
    }

    /// The views of a sequence of instructions, in order.
    pub open spec fn models(instrs: Seq<Instruction>) -> Seq<InstructionView>
        decreases instrs,
    {
        Seq::new(
            instrs.len(),
            |i: int|
                if 0 <= i < instrs.len() {
                    instrs[i].model()
                } else {
                    InstructionView::Block(Seq::empty())
                },
        )
    }
}

impl View for Instruction {
    type V = InstructionView;

    open spec fn view(&self) -> InstructionView {
        self.model()
    }
}

/// The expression that the source text of `e` reads as.
pub open spec fn reread_expression(e: ExpressionView) -> Result<ExpressionView, ParseError> {
    match parse_expression_spec(e.text()) {
        Some(read) => Ok(read),
        None => Err(ParseError::CannotParse),
    }
}

/// The instruction that the source text of `instr` reads as.
pub open spec fn reread_instruction(instr: InstructionView) -> Result<InstructionView, ParseError> {
    match parse_instruction_spec(instr.text()) {
        Some(read) => Ok(read),
        None => Err(ParseError::CannotParse),
    }
}

/// The view of the outcome of a conversion of an instruction.
pub open spec fn converted_view(r: Result<Instruction, ParseError>) -> Result<
    InstructionView,
    ParseError,
> {
    match r {
        Ok(instr) => Ok(instr@),
        Err(err) => Err(err),
    }
}

impl InstructionView {
    /// The instruction with every expression in it replaced by what its
    /// source text reads as, and likewise the branches of a conditional
    /// and the body of a loop. The first text that does not read ends the
    /// conversion, and `free` is not supported.
    pub open spec fn restricted(self) -> Result<InstructionView, ParseError>
        decreases self, 1nat, 0nat,
    {
        match self {
            InstructionView::Expr(e) => match reread_expression(e) {
                Ok(e) => Ok(InstructionView::Expr(e)),
                Err(err) => Err(err),
            },
            InstructionView::Let { id, mutable, expr } => match reread_expression(expr) {
                Ok(expr) => Ok(InstructionView::Let { id, mutable, expr }),
                Err(err) => Err(err),
            },
            InstructionView::Block(instrs) => match Self::restricted_items(instrs, instrs.len()) {
                Ok(items) => Ok(InstructionView::Block(items)),
                Err(err) => Err(err),
            },
            InstructionView::WriteAt(target, e) => match reread_expression(e) {
                Ok(e) => Ok(InstructionView::WriteAt(target, e)),
                Err(err) => Err(err),
            },
            InstructionView::IfElse { cond, cond_true, cond_false } => match reread_expression(
                cond,
            ) {
                Ok(cond) => match reread_instruction(*cond_true) {
                    Ok(cond_true) => match reread_instruction(*cond_false) {
                        Ok(cond_false) => Ok(
                            InstructionView::IfElse {
                                cond,
                                cond_true: Box::new(cond_true),
                                cond_false: Box::new(cond_false),
                            },
                        ),
                        Err(err) => Err(err),
                    },
                    Err(err) => Err(err),
                },
                Err(err) => Err(err),
            },
            InstructionView::While(cond, body) => match reread_expression(cond) {
                Ok(cond) => match reread_instruction(*body) {
                    Ok(body) => Ok(InstructionView::While(cond, Box::new(body))),
                    Err(err) => Err(err),
                },
                Err(err) => Err(err),
            },
            InstructionView::Free(_) => Err(ParseError::SyntaxNotSupported),
        }
    }

    /// The first `n` of `instrs`, each converted, or the first failure
    /// among them.
    pub open spec fn restricted_items(instrs: Seq<InstructionView>, n: nat) -> Result<
        Seq<InstructionView>,
        ParseError,
    >
        decreases instrs, 0nat, n,
    {
        if n == 0 || n > instrs.len() {
            Ok(Seq::empty())
        } else {
            match Self::restricted_items(instrs, (n - 1) as nat) {
                Ok(done) => match instrs[n - 1].restricted() {
                    Ok(item) => Ok(done.push(item)),
                    Err(err) => Err(err),
                },
                Err(err) => Err(err),
            }
        }
    }
}

/// Reads the source text of `e` again.
fn reread(e: &Expression) -> (r: Result<Expression, ParseError>)
    ensures
        match r {
            Ok(read) => reread_expression(e@) == Ok::<ExpressionView, ParseError>(read@),
            Err(err) => reread_expression(e@) == Err::<ExpressionView, ParseError>(err),
        },
{
    Expression::parse(e.to_text().as_str())
}

/// Converts the instructions of a block in order, up to the first failure.
fn restricted_block(instrs: &Vec<Instruction>) -> (r: Result<Vec<Instruction>, ParseError>)
    ensures
        match r {
            Ok(items) => InstructionView::restricted_items(
                Instruction::models(instrs@),
                instrs@.len(),
            ) == Ok::<Seq<InstructionView>, ParseError>(Instruction::models(items@)),
            Err(err) => InstructionView::restricted_items(
                Instruction::models(instrs@),
                instrs@.len(),
            ) == Err::<Seq<InstructionView>, ParseError>(err),
        },
    decreases instrs, 0nat,
{
    let ghost block = Instruction::models(instrs@);
    let mut items: Vec<Instruction> = Vec::new();
    let mut i: usize = 0;
    assert(Instruction::models(items@) =~= Seq::empty());
    while i < instrs.len()
        invariant
            i <= instrs.len(),
            block == Instruction::models(instrs@),
            InstructionView::restricted_items(block, i as nat) == Ok::<
                Seq<InstructionView>,
                ParseError,
            >(Instruction::models(items@)),
        decreases instrs.len() - i,
    {
        assert(block[i as int] == instrs[i as int]@);
        let ghost before = Instruction::models(items@);
        match instrs[i].restricted() {
            Ok(item) => {
                let ghost converted = item@;
                items.push(item);
                assert(Instruction::models(items@) =~= before.push(converted));
            },
            Err(err) => {
                proof {
                    lemma_failure_stays(block, (i + 1) as nat, block.len());
                }
                return Err(err);
            },
        }
        i = i + 1;
    }
    Ok(items)
}

/// Once the conversion of the first `n` instructions has failed, that of
/// any longer prefix fails alike.
proof fn lemma_failure_stays(instrs: Seq<InstructionView>, n: nat, m: nat)
    requires
        n <= m <= instrs.len(),
        InstructionView::restricted_items(instrs, n) is Err,
    ensures
        InstructionView::restricted_items(instrs, m) == InstructionView::restricted_items(instrs, n),
    decreases m - n,
{
    if n < m {
        lemma_failure_stays(instrs, n, (m - 1) as nat);
    }
}

impl Instruction {
    /// Converts the instruction by reading the source text of its parts
    /// again: every expression in it, the branches of a conditional and
    /// the body of a loop. Fails where a text does not read, and on `free`.
    pub fn restricted(&self) -> (r: Result<Instruction, ParseError>)
        ensures
            converted_view(r) == self@.restricted(),
        decreases self, 1nat,
    {
        match self {
            Instruction::Expr(expr) => Ok(Instruction::Expr(reread(expr)?)),
            Instruction::Let { id, mutable, expr } => {
                Ok(Instruction::Let { id: id.clone(), mutable: *mutable, expr: reread(expr)? })
            },
            Instruction::Block(instrs) => {
                let items = restricted_block(instrs)?;
                Ok(Instruction::Block(items))
            },
            Instruction::WriteAt(lexpr, expr) => {
                Ok(Instruction::WriteAt(lexpr.clone(), reread(expr)?))
            },
            Instruction::IfElse { cond, cond_true, cond_false } => {
                let cond = reread(cond)?;
                let cond_true = Box::new(Instruction::parse(cond_true.to_text().as_str())?);
                let cond_false = Box::new(Instruction::parse(cond_false.to_text().as_str())?);
                Ok(Instruction::IfElse { cond, cond_true, cond_false })
            },
            Instruction::While(cond, instr) => {
                let cond = reread(cond)?;
                let instr = Box::new(Instruction::parse(instr.to_text().as_str())?);
                Ok(Instruction::While(cond, instr))
            },
            _ => Err(ParseError::SyntaxNotSupported),
        }
    }
}

impl From<Instruction> for Result<Instruction, ParseError> {
    fn from(instr: Instruction) -> (r: Result<Instruction, ParseError>)
        ensures
            converted_view(r) == instr@.restricted(),
    {
        instr.restricted()
    }
}

/// The conversion builds new names from text, so no spec function can give
/// its result; the `ensures` of `from` states it over views.
impl FromSpecImpl<Instruction> for Result<Instruction, ParseError> {
    open spec fn obeys_from_spec() -> bool {
        false
    }

    open spec fn from_spec(instr: Instruction) -> Result<Instruction, ParseError> {
        arbitrary()
    }
}

} // verus!
