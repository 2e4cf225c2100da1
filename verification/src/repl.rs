//! One step of an interactive session: read a line, execute it, and say
//! what came of it.

use vstd::prelude::*;
use vstd::string::StringExecFns;
use crate::error::{Error, ErrorView, ParseError};
use crate::identifier::Identifier;
use crate::namespacestack::{NameSpaceStack, Scopes};
use crate::parser::parse_instruction_spec;
use crate::parsing::instruction::Instruction;
use crate::parsing::value::{Value, ValueView};
use crate::semantics::exec_spec;
use crate::types::Type;

verus! {

/// What a line yields: on success the name it bound, if any, and its
/// value.
pub type LineYield = Result<(Option<Seq<char>>, ValueView), ErrorView>;

/// The view of what a line yields.
pub open spec fn line_view(r: Result<(Option<Identifier>, Value), Error>) -> LineYield {
    match r {
        Ok((Some(id), v)) => Ok((Some(id@), v@)),
        Ok((None, v)) => Ok((None, v@)),
        Err(e) => Err(e@),
    }
}

/// What the line `input` yields in `scopes`, and the scopes afterwards. A
/// line that is no instruction changes nothing.
pub open spec fn line_spec(input: Seq<char>, scopes: Scopes) -> (LineYield, Scopes) {
    match parse_instruction_spec(input) {
        Some(instr) => {
            let outcome = exec_spec(instr, scopes, u128::MAX as nat);
            (
                match outcome.result {
                    Ok(bound) => Ok(bound),
                    Err(e) => Err(ErrorView::EvalError(e)),
                },
                outcome.scopes,
            )
        },
        None => (Err(ErrorView::ParseError(ParseError::CannotParse)), scopes),
    }
}

/// Reads `input` as one instruction and executes it in the scopes of
/// `nss`.
pub fn parse_exec(input: &str, nss: &mut NameSpaceStack) -> (r: Result<
    (Option<Identifier>, Value),
    Error,
>)
    ensures
        line_view(r) == line_spec(input@, old(nss)@).0,
        final(nss)@ == line_spec(input@, old(nss)@).1,
{
    match Instruction::parse(input) {
        Ok(instr) => match instr.exec(nss) {
            Ok(bound) => Ok(bound),
            Err(err) => Err(Error::EvalError(err)),
        },
        Err(e) => Err(Error::ParseError(e)),
    }
}

/// The report of what a line yielded: `name : kind = value`, with `-` for
/// the name where none was bound, or the message of the failure.
pub open spec fn report_spec(r: LineYield) -> Seq<char> {
    match r {
        Ok((id, v)) => {
            let name = match id {
                Some(id) => id,
                None => "-"@,
            };
            if v == ValueView::Unit {
                name + " : unit = ()"@
            } else {
                name + " : "@ + v.kind().text() + " = "@ + v.text()
            }
        },
        Err(e) => e.text(),
    }
}

/// The report of what a line yielded.
pub fn report(r: &Result<(Option<Identifier>, Value), Error>) -> (s: String)
    ensures
        s@ == report_spec(line_view(*r)),
{
    match r {
        Ok((id, v)) => {
            let mut s = match id {
                Some(id) => id.to_text(),
                None => String::from_str("-"),
            };
            match v {
                Value::Unit => {
                    s.append(" : unit = ()");
                },
                _ => {
                    s.append(" : ");
                    s.append(Type::from(v).to_text().as_str());
                    s.append(" = ");
                    s.append(v.to_text().as_str());
                },
            }
            s
        },
        Err(e) => e.to_text(),
    }
}

} // verus!
