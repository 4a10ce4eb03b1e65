//! Operator tags and their spellings.

use vstd::prelude::*;
use vstd::string::*;
use crate::context::Context;

verus! {

/// The prefix operators.
pub enum Prefix {
    Neg,
}

impl Prefix {
    /// The operator's spelling.
    pub open spec fn text(&self) -> Seq<char> {
        match self {
            Prefix::Neg => "-"@,
        }
    }

    /// Renders the operator. The context is left as it was.
    pub fn emit(&self, ctx: &mut Context) -> (s: String)
        ensures
            s@ == self.text(),
            *final(ctx) == *old(ctx),
    {
        match self {
            Prefix::Neg => "-".to_owned(),
        }
    }
}

/// The binary operators.
pub enum Binary {
    Add,
    Sub,
    Mul,
    Div,
    Mod,
    Equal,
    Greater,
    GreaterEq,
    Less,
    LessEq,
    ShiftLeft,
    ShiftRight,
    BitAnd,
    BitOr,
    BitXor,
}

impl Binary {
    /// The operator's spelling.
    pub open spec fn text(&self) -> Seq<char> {
        match self {
            Binary::Add => "+"@,
            Binary::Sub => "-"@,
            Binary::Mul => "*"@,
            Binary::Div => "/"@,
            Binary::Mod => "%"@,
            Binary::Equal => "=="@,
            Binary::Greater => ">"@,
            Binary::Less => "<"@,
            Binary::GreaterEq => ">="@,
            Binary::LessEq => "<="@,
            Binary::ShiftLeft => "<<"@,
            Binary::ShiftRight => ">>"@,
            Binary::BitAnd => "&"@,
            Binary::BitOr => "|"@,
            Binary::BitXor => "^"@,
        }
    }

    /// Renders the operator. The context is left as it was.
    pub fn emit(&self, ctx: &mut Context) -> (s: String)
        ensures
            s@ == self.text(),
            *final(ctx) == *old(ctx),
    {
        match self {
            Binary::Add => "+".to_owned(),
            Binary::Sub => "-".to_owned(),
            Binary::Mul => "*".to_owned(),
            Binary::Div => "/".to_owned(),
            Binary::Mod => "%".to_owned(),
            Binary::Equal => "==".to_owned(),
            Binary::Greater => ">".to_owned(),
            Binary::Less => "<".to_owned(),
            Binary::GreaterEq => ">=".to_owned(),
            Binary::LessEq => "<=".to_owned(),
            Binary::ShiftLeft => "<<".to_owned(),
            Binary::ShiftRight => ">>".to_owned(),
            Binary::BitAnd => "&".to_owned(),
            Binary::BitOr => "|".to_owned(),
            Binary::BitXor => "^".to_owned(),
        }
    }
}

} // verus!
