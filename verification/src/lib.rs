//! A small tree-shaped intermediate representation and its lowering to the
//! text of a C-family language.

pub mod text;
pub mod context;
pub mod ops;
pub mod constant;
pub mod types;
pub mod decl;
pub mod expr;
