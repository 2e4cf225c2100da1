//! The syntax tree and the values it denotes.

pub mod binop;
pub mod parsedvalue;
pub mod ptr_kind;
pub mod value;
pub mod leftexpression;
pub mod expression;
pub mod instruction;
