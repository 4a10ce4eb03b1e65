//! Literal values and their spelling in the target language.

use vstd::prelude::*;
use vstd::string::*;
use crate::context::Context;
use crate::text::{join, lemma_join_step, push_decimal, signed_decimal};

verus! {

/// A literal. A floating-point literal is held as its decimal spelling: the
/// library copies it and does no arithmetic on it.
pub enum Constant {
    Integer(i64),
    Floating(String),
    String(String),
    Boolean(bool),
    Char(char),
    Array(Vec<Constant>),
}

/// The spellings of the given literals, one for one and in order.
pub open spec fn constant_texts(items: Seq<Constant>) -> Seq<Seq<char>>
    decreases items,
{
    Seq::new(
        items.len(),
        |i: int|
            if 0 <= i < items.len() {
                items[i].text()
            } else {
                Seq::empty()
            },
    )
}

impl Constant {
    /// The literal's spelling. Numbers are decimal numerals, a string stands
    /// between double quotes with its characters unchanged, a character
    /// stands for itself, and an array is its elements' spellings between
    /// braces, separated by a comma and a space.
    pub open spec fn text(&self) -> Seq<char>
        decreases self,
    {
        match self {
            Constant::Integer(v) => signed_decimal(*v as int),
            Constant::Floating(v) => v@,
            Constant::String(v) => "\""@ + v@ + "\""@,
            Constant::Boolean(v) => if *v {
                "true"@
            } else {
                "false"@
            },
            Constant::Char(v) => seq![*v],
            Constant::Array(items) => "{"@ + join(constant_texts(items@), ", "@) + "}"@,
        }
    }

    /// Renders the literal. The text depends on the literal alone, and the
    /// context is left as it was.
    pub fn emit(&self, ctx: &mut Context) -> (s: String)
        ensures
            s@ == self.text(),
            *final(ctx) == *old(ctx),
        decreases self,
    {
        match self {
            Constant::Integer(v) => {
                let mut s = String::new();
                if *v < 0 {
                    s.push('-');
                    // the magnitude of the least value does not fit the signed type
                    let m: u64 = ((-(*v + 1)) as u64) + 1;
                    push_decimal(&mut s, m);
                } else {
                    push_decimal(&mut s, *v as u64);
                }
                s
            },
            Constant::Floating(v) => v.clone(),
            Constant::String(v) => {
                let mut s = "\"".to_owned();
                s.append(v.as_str());
                s.append("\"");
                s
            },
            Constant::Boolean(v) => {
                if *v {
                    "true".to_owned()
                } else {
                    "false".to_owned()
                }
            },
            Constant::Char(v) => {
                let mut s = String::new();
                s.push(*v);
                s
            },
            Constant::Array(items) => {
                let mut s = "{".to_owned();
                let ghost texts = constant_texts(items@);
                let mut i: usize = 0;
                while i < items.len()
                    invariant
                        i <= items.len(),
                        self is Array,
                        self->Array_0 == *items,
                        texts == constant_texts(items@),
                        s@ == "{"@ + join(texts.take(i as int), ", "@),
                        *ctx == *old(ctx),
                    decreases items.len() - i,
                {
                    if i > 0 {
                        s.append(", ");
                    }
                    proof {
                        broadcast use vstd::std_specs::vec::group_vec_axioms;
                    }
                    let item = items[i].emit(ctx);
                    s.append(item.as_str());
                    proof {
                        lemma_join_step(texts, ", "@, i as int);
                    }
                    i += 1;
                }
                assert(texts.take(items.len() as int) =~= texts);
                s.append("}");
                s
            },
        }
    }
}

} // verus!
