//! Type descriptors and their spelling in the target language.

use vstd::prelude::*;
use vstd::string::*;
use crate::context::Context;
use crate::text::{decimal, join, lemma_join_step, push_decimal};

verus! {

/// A type of the target language. It is spelled, never inspected.
pub enum TypeDef {
    Void,
    Int32,
    Int64,
    Float32,
    Float64,
    Char,
    String,
    Boolean,
    Array(Box<TypeDef>, usize),
    Vector(Box<TypeDef>),
    Tuple(Vec<TypeDef>),
}

/// The spellings of the given types, one for one and in order.
pub open spec fn type_texts(items: Seq<TypeDef>) -> Seq<Seq<char>>
    decreases items,
{
    Seq::new(
        items.len(),
        |i: int|
            if 0 <= i < items.len() {
                items[i].text()
            } else {
                Seq::empty()
            },
    )
}

impl TypeDef {
    /// The type's spelling. An array is its element type followed by the
    /// length in brackets; a vector and a tuple are the generic containers
    /// of the standard library around their element types.
    pub open spec fn text(&self) -> Seq<char>
        decreases self,
    {
        match self {
            TypeDef::Void => "void"@,
            TypeDef::Int32 => "int32_t"@,
            TypeDef::Int64 => "int64_t"@,
            TypeDef::Float32 => "float"@,
            TypeDef::Float64 => "double"@,
            TypeDef::Char => "char"@,
            TypeDef::String => "std::string"@,
            TypeDef::Boolean => "bool"@,
            TypeDef::Array(t, size) => t.text() + "["@ + decimal(*size as nat) + "]"@,
            TypeDef::Vector(t) => "std::vector< "@ + t.text() + " >"@,
            TypeDef::Tuple(items) => "std::tuple< "@ + join(type_texts(items@), ", "@) + " >"@,
        }
    }

    /// Renders the type. The text depends on the type alone, and the context
    /// is left as it was.
    pub fn emit(&self, ctx: &mut Context) -> (s: String)
        ensures
            s@ == self.text(),
            *final(ctx) == *old(ctx),
        decreases self,
    {
        match self {
            TypeDef::Void => "void".to_owned(),
            TypeDef::Int32 => "int32_t".to_owned(),
            TypeDef::Int64 => "int64_t".to_owned(),
            TypeDef::Float32 => "float".to_owned(),
            TypeDef::Float64 => "double".to_owned(),
            TypeDef::Char => "char".to_owned(),
            TypeDef::String => "std::string".to_owned(),
            TypeDef::Boolean => "bool".to_owned(),
            TypeDef::Array(t, size) => {
                let mut s = t.emit(ctx);
                s.append("[");
                push_decimal(&mut s, *size as u64);
                s.append("]");
                s
            },
            TypeDef::Vector(t) => {
                let mut s = "std::vector< ".to_owned();
                let inner = t.emit(ctx);
                s.append(inner.as_str());
                s.append(" >");
                s
            },
            TypeDef::Tuple(items) => {
                let mut s = "std::tuple< ".to_owned();
                let ghost texts = type_texts(items@);
                let mut i: usize = 0;
                while i < items.len()
                    invariant
                        i <= items.len(),
                        self is Tuple,
                        self->Tuple_0 == *items,
                        texts == type_texts(items@),
                        s@ == "std::tuple< "@ + join(texts.take(i as int), ", "@),
                        *ctx == *old(ctx),
                    decreases items.len() - i,
                {
                    if i > 0 {
                        s.append(", ");
                    }
                    proof {
                        broadcast use vstd::std_specs::vec::group_vec_axioms;
                    }
                    let item = items[i].emit(ctx);
                    s.append(item.as_str());
                    proof {
                        lemma_join_step(texts, ", "@, i as int);
                    }
                    i += 1;
                }
                assert(texts.take(items.len() as int) =~= texts);
                s.append(" >");
                s
            },
        }
    }
}

} // verus!
