//! The source text of syntax trees, and the text of values and failures.

use vstd::prelude::*;
use vstd::string::StringExecFns;
use crate::error::{Error, ErrorView, EvalError, EvalErrorView, ParseError};
use crate::identifier::Identifier;
use crate::memory::{Address, AddressView};
use crate::parsing::binop::Binop;
use crate::parsing::expression::{Expression, ExpressionView};
use crate::parsing::instruction::{Instruction, InstructionView};
use crate::parsing::leftexpression::{LeftExpression, LeftExpressionView};
use crate::parsing::parsedvalue::ParsedValue;
use crate::parsing::ptr_kind::PtrKind;
use crate::parsing::value::{Value, ValueView};
use crate::text::{integer_text, natural_text, push_integer, push_natural};
use crate::types::Type;

verus! {

impl Identifier {
    /// The identifier as text: its spelling.
    pub fn to_text(&self) -> (s: String)
        ensures
            s@ == self@,
    {
        String::from_str(self.as_str())
    }
}

impl Type {
    /// The name of the kind.
    pub open spec fn text(self) -> Seq<char> {
        match self {
            Type::Int => "isize"@,
            Type::Bool => "bool"@,
            Type::Unit => "unit"@,
            Type::Address => "Ptr"@,
        }
    }

    /// The name of the kind.
    pub fn to_text(&self) -> (s: String)
        ensures
            s@ == self.text(),
    {
        match self {
            Type::Int => String::from_str("isize"),
            Type::Bool => String::from_str("bool"),
            Type::Unit => String::from_str("unit"),
            Type::Address => String::from_str("Ptr"),
        }
    }
}

impl Binop {
    /// The operator's symbol.
    pub open spec fn text(self) -> Seq<char> {
        match self {
            Binop::Add => "+"@,
            Binop::Sub => "-"@,
            Binop::Mul => "*"@,
            Binop::Div => "/"@,
            Binop::Mod => "%"@,
            Binop::Leq => "<="@,
            Binop::Geq => ">="@,
            Binop::Lt => "<"@,
            Binop::Gt => ">"@,
            Binop::Eq => "=="@,
            Binop::Neq => "!="@,
            Binop::And => "&&"@,
            Binop::Or => "||"@,
        }
    }

    /// The operator's symbol.
    pub fn to_text(&self) -> (s: String)
        ensures
            s@ == self.text(),
    {
        match self {
            Binop::Add => String::from_str("+"),
            Binop::Sub => String::from_str("-"),
            Binop::Mul => String::from_str("*"),
            Binop::Div => String::from_str("/"),
            Binop::Mod => String::from_str("%"),
            Binop::Leq => String::from_str("<="),
            Binop::Geq => String::from_str(">="),
            Binop::Lt => String::from_str("<"),
            Binop::Gt => String::from_str(">"),
            Binop::Eq => String::from_str("=="),
            Binop::Neq => String::from_str("!="),
            Binop::And => String::from_str("&&"),
            Binop::Or => String::from_str("||"),
        }
    }
}

impl PtrKind {
    /// The name of the pointer kind.
    pub open spec fn text(self) -> Seq<char> {
        match self {
            PtrKind::Box => "Box"@,
            PtrKind::Rc => "Rc"@,
        }
    }

    /// The name of the pointer kind.
    pub fn to_text(&self) -> (s: String)
        ensures
            s@ == self.text(),
    {
        match self {
            PtrKind::Box => String::from_str("Box"),
            PtrKind::Rc => String::from_str("Rc"),
        }
    }
}

impl ParsedValue {
    /// The literal as source text.
    pub open spec fn text(self) -> Seq<char> {
        match self {
            ParsedValue::Integer(i) => integer_text(i as int),
            ParsedValue::Boolean(b) => if b {
                "true"@
            } else {
                "false"@
            },
            ParsedValue::Unit => "()"@,
        }
    }

    /// The literal as source text.
    pub fn to_text(&self) -> (s: String)
        ensures
            s@ == self.text(),
    {
        match self {
            ParsedValue::Integer(i) => {
                let mut s = String::new();
                push_integer(&mut s, *i);
                assert(s@ =~= integer_text(*i as int));
                s
            },
            ParsedValue::Boolean(b) => if *b {
                String::from_str("true")
            } else {
                String::from_str("false")
            },
            ParsedValue::Unit => String::from_str("()"),
        }
    }
}

impl AddressView {
    /// The address as text: `@[depth, name]` on the stack, `@[slot]` in the
    /// heap.
    pub open spec fn text(self) -> Seq<char> {
        match self {
            AddressView::StackAddress(depth, id) => "@["@ + natural_text(depth) + ", "@ + id + "]"@,
            AddressView::HeapAddress(slot) => "@["@ + natural_text(slot) + "]"@,
        }
    }
}

impl Address {
    /// The address as text: `@[depth, name]` on the stack, `@[slot]` in the
    /// heap.
    pub fn to_text(&self) -> (s: String)
        ensures
            s@ == self@.text(),
    {
        let mut s = String::from_str("@[");
        match self {
            Address::StackAddress(depth, id) => {
                push_natural(&mut s, *depth as u128);
                s.append(", ");
                s.append(id.as_str());
                s.append("]");
            },
            Address::HeapAddress(slot) => {
                push_natural(&mut s, *slot as u128);
                s.append("]");
            },
        }
        s
    }
}

impl ValueView {
    /// The value as text.
    pub open spec fn text(self) -> Seq<char> {
        match self {
            ValueView::Integer(i) => integer_text(i as int),
            ValueView::Boolean(b) => if b {
                "true"@
            } else {
                "false"@
            },
            ValueView::Unit => "()"@,
            ValueView::Pointer(a) => a.text(),
        }
    }
}

impl Value {
    /// The value as text.
    pub fn to_text(&self) -> (s: String)
        ensures
            s@ == self@.text(),
    {
        match self {
            Value::Integer(i) => {
                let mut s = String::new();
                push_integer(&mut s, *i);
                assert(s@ =~= integer_text(*i as int));
                s
            },
            Value::Boolean(b) => if *b {
                String::from_str("true")
            } else {
                String::from_str("false")
            },
            Value::Unit => String::from_str("()"),
            Value::Pointer(a) => a.to_text(),
        }
    }
}

impl LeftExpressionView {
    /// The target as source text.
    pub open spec fn text(self) -> Seq<char>
        decreases self,
    {
        match self {
            LeftExpressionView::Identifier(id) => id,
            LeftExpressionView::Deref(inner) => "*"@ + inner.text(),
        }
    }
}

impl LeftExpression {
    /// The target as source text.
    pub fn to_text(&self) -> (s: String)
        ensures
            s@ == self@.text(),
        decreases self,
    {
        match self {
            LeftExpression::Identifier(id) => id.to_text(),
            LeftExpression::Deref(inner) => {
                let mut s = String::from_str("*");
                s.append(inner.to_text().as_str());
                s
            },
        }
    }
}

impl ExpressionView {
    /// The expression as source text. A binary operation stands in
    /// parentheses, so the text shows the tree without regard to
    /// precedence.
    pub open spec fn text(self) -> Seq<char>
        decreases self,
    {
        match self {
            ExpressionView::Const(pv) => pv.text(),
            ExpressionView::Identifier(id) => id,
            ExpressionView::NewPtr(kind, e) => kind.text() + "::new("@ + e.text() + ")"@,
            ExpressionView::ValueAt(target) => target.text(),
            ExpressionView::BinOp(lhs, op, rhs) => "("@ + lhs.text() + " "@ + op.text() + " "@
                + rhs.text() + ")"@,
            ExpressionView::Conditional { cond, cond_true, cond_false } => "("@ + cond.text()
                + ") ? "@ + cond_true.text() + "  : "@ + cond_false.text() + " "@,
            ExpressionView::Deref(e) => "*"@ + e.text(),
            ExpressionView::AmpersAnd(e) => "&"@ + e.text(),
        }
    }
}

impl Expression {
    /// The expression as source text.
    pub fn to_text(&self) -> (s: String)
        ensures
            s@ == self@.text(),
        decreases self,
    {
        match self {
            Expression::Const(pv) => pv.to_text(),
            Expression::Identifier(id) => id.to_text(),
            Expression::NewPtr(kind, e) => {
                let mut s = kind.to_text();
                s.append("::new(");
                s.append(e.to_text().as_str());
                s.append(")");
                s
            },
            Expression::ValueAt(target) => target.to_text(),
            Expression::BinOp(lhs, op, rhs) => {
                let mut s = String::from_str("(");
                s.append(lhs.to_text().as_str());
                s.append(" ");
                s.append(op.to_text().as_str());
                s.append(" ");
                s.append(rhs.to_text().as_str());
                s.append(")");
                s
            },
            Expression::Conditional { cond, cond_true, cond_false } => {
                let mut s = String::from_str("(");
                s.append(cond.to_text().as_str());
                s.append(") ? ");
                s.append(cond_true.to_text().as_str());
                s.append("  : ");
                s.append(cond_false.to_text().as_str());
                s.append(" ");
                s
            },
            Expression::Deref(e) => {
                let mut s = String::from_str("*");
                s.append(e.to_text().as_str());
                s
            },
            Expression::AmpersAnd(e) => {
                let mut s = String::from_str("&");
                s.append(e.to_text().as_str());
                s
            },
        }
    }
}

impl InstructionView {
    /// The instruction as source text.
    pub open spec fn text(self) -> Seq<char>
        decreases self, 1nat, 0nat,
    {
        match self {
            InstructionView::Expr(e) => e.text(),
            InstructionView::Let { id, mutable, expr } => if mutable {
                "let mut "@ + id + " = "@ + expr.text()
            } else {
                "let "@ + id + " = "@ + expr.text()
            },
            InstructionView::Block(instrs) => "{"@ + Self::joined(instrs, instrs.len()) + "}"@,
            InstructionView::IfElse { cond, cond_true, cond_false } => "if "@ + cond.text() + " "@
                + cond_true.text() + " else "@ + cond_false.text(),
            InstructionView::WriteAt(target, e) => target.text() + " = "@ + e.text(),
            InstructionView::While(cond, body) => "while "@ + cond.text() + " "@ + body.text(),
            InstructionView::Free(target) => "free "@ + target.text(),
        }
    }

    /// The texts of the first `n` of `instrs`, with `;` between them.
    pub open spec fn joined(instrs: Seq<InstructionView>, n: nat) -> Seq<char>
        decreases instrs, 0nat, n,
    {
        if n == 0 || n > instrs.len() {
            Seq::empty()
        } else if n == 1 {
            instrs[0].text()
        } else {
            Self::joined(instrs, (n - 1) as nat) + ";"@ + instrs[n - 1].text()
        }
    }
}

impl Instruction {
    /// The instruction as source text.
    pub fn to_text(&self) -> (s: String)
        ensures
            s@ == self@.text(),
        decreases self, 1nat,
    {
        match self {
            Instruction::Expr(e) => e.to_text(),
            Instruction::Let { id, mutable, expr } => {
                let mut s = if *mutable {
                    String::from_str("let mut ")
                } else {
                    String::from_str("let ")
                };
                s.append(id.as_str());
                s.append(" = ");
                s.append(expr.to_text().as_str());
                s
            },
            Instruction::Block(instrs) => block_text(instrs),
            Instruction::IfElse { cond, cond_true, cond_false } => {
                let mut s = String::from_str("if ");
                s.append(cond.to_text().as_str());
                s.append(" ");
                s.append(cond_true.to_text().as_str());
                s.append(" else ");
                s.append(cond_false.to_text().as_str());
                s
            },
            Instruction::WriteAt(target, e) => {
                let mut s = target.to_text();
                s.append(" = ");
                s.append(e.to_text().as_str());
                s
            },
            Instruction::While(cond, body) => {
                let mut s = String::from_str("while ");
                s.append(cond.to_text().as_str());
                s.append(" ");
                s.append(body.to_text().as_str());
                s
            },
            Instruction::Free(target) => {
                let mut s = String::from_str("free ");
                s.append(target.to_text().as_str());
                s
            },
        }
    }
}

/// The source text of a block: its instructions between braces, with `;`
/// between them.
fn block_text(instrs: &Vec<Instruction>) -> (s: String)
    ensures
        s@ == InstructionView::Block(Instruction::models(instrs@)).text(),
    decreases instrs, 0nat,
{
    let ghost block = Instruction::models(instrs@);
    let mut s = String::from_str("{");
    let mut i: usize = 0;
    while i < instrs.len()
        invariant
            i <= instrs.len(),
            block == Instruction::models(instrs@),
            s@ == "{"@ + InstructionView::joined(block, i as nat),
        decreases instrs.len() - i,
    {
        assert(block[i as int] == instrs[i as int]@);
        if i > 0 {
            s.append(";");
        }
        s.append(instrs[i].to_text().as_str());
        i = i + 1;
        assert(s@ =~= "{"@ + InstructionView::joined(block, i as nat));
    }
    s.append("}");
    s
}

/// The text of the expression that a failure is about, when it names one.
pub open spec fn subject_text(e: Option<ExpressionView>) -> Seq<char> {
    match e {
        Some(e) => " at `"@ + e.text() + "`"@,
        None => Seq::empty(),
    }
}

impl EvalErrorView {
    /// The message of the failure.
    pub open spec fn text(self) -> Seq<char> {
        match self {
            EvalErrorView::Undefined(id) => "Undefined identifier `"@ + id + "`."@,
            EvalErrorView::AlreadyDefined(id) => "Identifier `"@ + id + "` already defined."@,
            EvalErrorView::NotMutable(e) => "Value"@ + subject_text(e) + " is not mutable."@,
            EvalErrorView::TypeMismatch { expression, expected, found } => {
                "Type mismatch in expression `"@ + expression.text() + "`. Expected: "@
                    + expected.text() + ". Found: "@ + match found {
                    Some(kind) => kind.text(),
                    None => "unknown"@,
                }
            },
            EvalErrorView::DivisionByZero(e) => "Division by zero, `"@ + e.text()
                + "` evaluates to 0"@,
            EvalErrorView::NonAllocatedCell(e) => "Cell"@ + subject_text(e) + " is not allocated."@,
            EvalErrorView::NonInitializedValue(e) => "Value"@ + subject_text(e)
                + " is not initialized."@,
            EvalErrorView::NotImplemented(id) => "`"@ + id + "` is not implemented."@,
            EvalErrorView::NoScope => "No scope to declare in."@,
            EvalErrorView::LoopLimit => "Loop iteration limit reached."@,
        }
    }
}

/// Appends the text of the expression that a failure is about.
fn push_subject(out: &mut String, e: &Option<Expression>)
    ensures
        final(out)@ == old(out)@ + subject_text(crate::error::option_expression_view(*e)),
{
    match e {
        Some(e) => {
            out.append(" at `");
            out.append(e.to_text().as_str());
            out.append("`");
            assert(out@ =~= old(out)@ + subject_text(Some(e@)));
        },
        None => {
            assert(out@ =~= old(out)@ + Seq::<char>::empty());
        },
    }
}

impl EvalError {
    /// The message of the failure.
    pub fn to_text(&self) -> (s: String)
        ensures
            s@ == self@.text(),
    {
        match self {
            EvalError::Undefined(id) => {
                let mut s = String::from_str("Undefined identifier `");
                s.append(id.as_str());
                s.append("`.");
                s
            },
            EvalError::AlreadyDefined(id) => {
                let mut s = String::from_str("Identifier `");
                s.append(id.as_str());
                s.append("` already defined.");
                s
            },
            EvalError::NotMutable(e) => {
                let mut s = String::from_str("Value");
                push_subject(&mut s, e);
                s.append(" is not mutable.");
                s
            },
            EvalError::TypeMismatch { expression, expected, found } => {
                let mut s = String::from_str("Type mismatch in expression `");
                s.append(expression.to_text().as_str());
                s.append("`. Expected: ");
                s.append(expected.to_text().as_str());
                s.append(". Found: ");
                match found {
                    Some(kind) => s.append(kind.to_text().as_str()),
                    None => s.append("unknown"),
                }
                s
            },
            EvalError::DivisionByZero(e) => {
                let mut s = String::from_str("Division by zero, `");
                s.append(e.to_text().as_str());
                s.append("` evaluates to 0");
                s
            },
            EvalError::NonAllocatedCell(e) => {
                let mut s = String::from_str("Cell");
                push_subject(&mut s, e);
                s.append(" is not allocated.");
                s
            },
            EvalError::NonInitializedValue(e) => {
                let mut s = String::from_str("Value");
                push_subject(&mut s, e);
                s.append(" is not initialized.");
                s
            },
            EvalError::NotImplemented(id) => {
                let mut s = String::from_str("`");
                s.append(id.as_str());
                s.append("` is not implemented.");
                s
            },
            EvalError::NoScope => String::from_str("No scope to declare in."),
            EvalError::LoopLimit => String::from_str("Loop iteration limit reached."),
        }
    }
}

impl ParseError {
    /// The message of the failure.
    pub open spec fn text(self) -> Seq<char> {
        match self {
            ParseError::CannotParse => "Cannot parse."@,
            ParseError::SyntaxNotSupported => "Syntax not supported."@,
        }
    }

    /// The message of the failure.
    pub fn to_text(&self) -> (s: String)
        ensures
            s@ == self.text(),
    {
        match self {
            ParseError::CannotParse => String::from_str("Cannot parse."),
            ParseError::SyntaxNotSupported => String::from_str("Syntax not supported."),
        }
    }
}

impl ErrorView {
    /// The message of the failure, after the name of the stage that
    /// failed.
    pub open spec fn text(self) -> Seq<char> {
        match self {
            ErrorView::ParseError(e) => "Parse Error: "@ + e.text(),
            ErrorView::EvalError(e) => "Evaluation Error: "@ + e.text(),
        }
    }
}

impl Error {
    /// The message of the failure, after the name of the stage that
    /// failed.
    pub fn to_text(&self) -> (s: String)
        ensures
            s@ == self@.text(),
    {
        match self {
            Error::ParseError(e) => {
                let mut s = String::from_str("Parse Error: ");
                s.append(e.to_text().as_str());
                s
            },
            Error::EvalError(e) => {
                let mut s = String::from_str("Evaluation Error: ");
                s.append(e.to_text().as_str());
                s
            },
        }
    }
}

} // verus!
