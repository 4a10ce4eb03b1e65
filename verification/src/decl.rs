//! Declarations: parameter lists and function definitions.

use vstd::prelude::*;
use vstd::string::*;
use crate::context::{lemma_numbers_after_fresh, temp_name, Context};
use crate::expr::{
    add_counts, allocated_of, count_temps_each, lemma_allocated_upto, lemma_temps_upto_le,
    temps_of, temps_upto, Expr,
};
use crate::text::{concat, join, lemma_concat_step, lemma_join_step};
use crate::types::TypeDef;

verus! {

/// A parameter list: names with their types, in the order of declaration.
pub struct Args {
    pub args: Vec<(String, TypeDef)>,
}

/// The spellings of the given parameters, one for one and in order: the
/// type, a space, the name.
pub open spec fn param_texts(params: Seq<(String, TypeDef)>) -> Seq<Seq<char>> {
    Seq::new(params.len(), |i: int| params[i].1.text() + " "@ + params[i].0@)
}

impl Args {
    /// The list's spelling: the parameters between parentheses, separated
    /// by a comma and a space.
    pub open spec fn text(&self) -> Seq<char> {
        "("@ + join(param_texts(self.args@), ", "@) + ")"@
    }

    /// Renders the parameter list. The text depends on the list alone, and
    /// the context is left as it was.
    pub fn emit(&self, ctx: &mut Context) -> (s: String)
        ensures
            s@ == self.text(),
            *final(ctx) == *old(ctx),
    {
        let mut s = "(".to_owned();
        let ghost texts = param_texts(self.args@);
        let mut i: usize = 0;
        while i < self.args.len()
            invariant
                i <= self.args.len(),
                texts == param_texts(self.args@),
                s@ == "("@ + join(texts.take(i as int), ", "@),
                *ctx == *old(ctx),
            decreases self.args.len() - i,
        {
            if i > 0 {
                s.append(", ");
            }
            let ty = self.args[i].1.emit(ctx);
            s.append(ty.as_str());
            s.append(" ");
            s.append(self.args[i].0.as_str());
            proof {
                lemma_join_step(texts, ", "@, i as int);
            }
            i += 1;
        }
        assert(texts.take(self.args.len() as int) =~= texts);
        s.append(")");
        s
    }
}

/// `return ` stands before the text of the last body expression and before
/// no other: every earlier expression is a plain statement.
pub proof fn lemma_return_before_last_only(f: FunDef, n: nat, i: int)
    requires
        0 <= i < f.procs@.len(),
    ensures
        ({
            let e = f.procs@[i];
            let at = n + temps_upto(f.procs@, i);
            let before = e.stmts(f.label@, at);
            let text = e.text(f.label@, at);
            &&& i == f.procs@.len() - 1 ==> f.statement(i, n) == before + "return "@ + text
                + ";\n"@
            &&& i < f.procs@.len() - 1 ==> f.statement(i, n) == before + text + ";\n"@
        }),
{
    let e = f.procs@[i];
    let at = n + temps_upto(f.procs@, i);
    assert(e.stmts(f.label@, at) + Seq::<char>::empty() =~= e.stmts(f.label@, at));
}

/// A function definition. The last expression of the body is the
/// function's result.
pub struct FunDef {
    pub label: String,
    pub ret: TypeDef,
    pub args: Args,
    pub procs: Vec<Expr>,
}

impl FunDef {
    /// The opening line: return type, the name behind `_fn_`, the parameter
    /// list and the opening brace.
    pub open spec fn header(&self) -> Seq<char> {
        self.ret.text() + " _fn_"@ + self.label@ + self.args.text() + " {\n"@
    }

    /// The number of the temporary handed out last before body expression
    /// `i` is rendered, where the function is rendered after `n`.
    pub open spec fn counter_at(&self, i: int, n: nat) -> nat {
        n + temps_upto(self.procs@, i)
    }

    /// What body expression `i` contributes to the body: the statements it
    /// asks to have placed before it, then its text as a statement of its
    /// own. `return ` stands before the text of the last body expression
    /// and of no other.
    pub open spec fn statement(&self, i: int, n: nat) -> Seq<char> {
        let e = self.procs@[i];
        let at = self.counter_at(i, n);
        e.stmts(self.label@, at) + (if i == self.procs@.len() - 1 {
            "return "@
        } else {
            Seq::empty()
        }) + e.text(self.label@, at) + ";\n"@
    }

    /// The contributions of all body expressions, in order.
    pub open spec fn statements(&self, n: nat) -> Seq<Seq<char>> {
        Seq::new(self.procs@.len(), |i: int| self.statement(i, n))
    }

    /// The function's text, rendered after `n` temporaries: the header, the
    /// body's statements, the closing brace. Self-calls in the body resolve
    /// to the function's own name.
    pub open spec fn text(&self, n: nat) -> Seq<char> {
        self.header() + concat(self.statements(n)) + "}\n"@
    }

    /// The numbers of the temporaries that rendering the function allocates
    /// after `n` have been handed out, in the order of allocation: those of
    /// its body expressions, one expression after another. These are the
    /// temporaries that the function's text declares and names.
    pub open spec fn allocated(&self, n: nat) -> Seq<nat> {
        allocated_of(self.procs@, n)
    }

    /// Every temporary that rendering the function allocates is numbered
    /// above the counter at entry, and the numbers go up by one from one
    /// allocation to the next. So the names in one function's text differ
    /// from one another, and from the name of every temporary handed out
    /// before on the same context, by the render of another function too.
    pub proof fn lemma_temporaries_fresh(self, n: nat)
        ensures
            ({
                let a = self.allocated(n);
                &&& a.len() == temps_of(self.procs@)
                &&& forall|i: int| 0 <= i < a.len() ==> #[trigger] a[i] == n + 1 + i
                &&& forall|i: int| 0 <= i < a.len() ==> #[trigger] a[i] > n
                &&& forall|i: int, j: int|
                    0 <= i < j < a.len() ==> #[trigger] a[i] < #[trigger] a[j]
                &&& forall|i: int, j: int|
                    0 <= i < j < a.len() ==> temp_name(#[trigger] a[i]) != temp_name(
                        #[trigger] a[j],
                    )
                &&& forall|i: int, m: nat|
                    0 <= i < a.len() && m <= n ==> #[trigger] temp_name(a[i]) != #[trigger] temp_name(
                        m,
                    )
            }),
    {
        lemma_allocated_upto(self.procs@, self.procs@.len() as int, n);
        lemma_numbers_after_fresh(n, temps_of(self.procs@));
    }

    /// Whether the function can be rendered in `ctx`: the temporaries that
    /// its body allocates do not exhaust the counter.
    pub open spec fn emits_in(&self, ctx: &Context) -> bool {
        ctx.counter() + temps_of(self.procs@) <= usize::MAX
    }

    /// Decides whether the function can be rendered in `ctx`.
    pub fn can_emit(&self, ctx: &Context) -> (b: bool)
        ensures
            b == self.emits_in(ctx),
    {
        add_counts(Some(ctx.local_var.count), count_temps_each(&self.procs)).is_some()
    }

    /// Renders the function. Its name is on the stack of enclosing functions
    /// while the body is rendered and off it again afterwards, so the stack
    /// ends as it began; so does the statement stream, whose additions have
    /// all gone into the body.
    pub fn emit(&self, ctx: &mut Context) -> (s: String)
        requires
            self.emits_in(old(ctx)),
        ensures
            s@ == self.text(old(ctx).counter()),
            final(ctx).buf@ == old(ctx).buf@,
            final(ctx).counter() == old(ctx).counter() + temps_of(self.procs@),
            final(ctx).counter() >= old(ctx).counter(),
            final(ctx).callee@ == old(ctx).callee@,
    {
        let ghost n = ctx.counter();
        let ghost chunks = self.statements(n);
        let mut buf = self.ret.emit(ctx);
        buf.append(" _fn_");
        buf.append(self.label.as_str());
        let params = self.args.emit(ctx);
        buf.append(params.as_str());
        buf.append(" {\n");
        ctx.callee.push(self.label.clone());
        let mut outer = String::new();
        std::mem::swap(&mut ctx.buf, &mut outer);
        let mut i: usize = 0;
        while i < self.procs.len()
            invariant
                i <= self.procs.len(),
                chunks == self.statements(n),
                buf@ == self.header() + concat(chunks.take(i as int)),
                ctx.buf@ == Seq::<char>::empty(),
                ctx.counter() == n + temps_upto(self.procs@, i as int),
                ctx.callee@.len() == old(ctx).callee@.len() + 1,
                ctx.callee@.drop_last() == old(ctx).callee@,
                ctx.self_name() == self.label@,
                n + temps_of(self.procs@) <= usize::MAX,
            decreases self.procs.len() - i,
        {
            proof {
                lemma_temps_upto_le(self.procs@, i + 1);
            }
            let text = self.procs[i].emit(ctx);
            let mut pending = String::new();
            std::mem::swap(&mut ctx.buf, &mut pending);
            buf.append(pending.as_str());
            if i == self.procs.len() - 1 {
                buf.append("return ");
            }
            buf.append(text.as_str());
            buf.append(";\n");
            proof {
                lemma_concat_step(chunks, i as int);
            }
            i += 1;
        }
        assert(chunks.take(self.procs.len() as int) =~= chunks);
        std::mem::swap(&mut ctx.buf, &mut outer);
        ctx.callee.pop();
        buf.append("}\n");
        buf
    }
}

} // verus!
