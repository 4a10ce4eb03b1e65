//! Expressions and their lowering, the conditional expression included.

use vstd::prelude::*;
use vstd::string::*;
use crate::constant::Constant;
use crate::context::{
    lemma_numbers_after_fresh, lemma_numbers_after_split, numbers_after, temp_name, Context,
};
use crate::decl::Args;
use crate::ops::{Binary, Prefix};
use crate::text::{
    append_terminated, concat, join, join_strings, lemma_concat_step, terminated, views,
};

verus! {

/// What follows an expression: a call with its arguments, or an index.
pub enum Postfix {
    FunCall(Vec<Expr>),
    Index(Box<Expr>),
}

/// An expression. Every composite owns its parts; `Callee` stands for the
/// innermost function being rendered.
pub enum Expr {
    BinOp(Box<Expr>, Binary, Box<Expr>),
    PostOp(Box<Expr>, Postfix),
    PreOp(Box<Expr>, Prefix),
    FunTree(Args, Vec<Expr>),
    Constant(Constant),
    Identifier(String),
    If(Box<Expr>, Vec<Expr>, Vec<Expr>),
    Callee,
}

/// The temporaries that rendering the first `k` of `es` allocates.
pub open spec fn temps_upto(es: Seq<Expr>, k: int) -> nat
    decreases es, k,
{
    if 0 < k <= es.len() {
        temps_upto(es, k - 1) + es[k - 1].temps()
    } else {
        0
    }
}

/// The temporaries that rendering all of `es` allocates.
pub open spec fn temps_of(es: Seq<Expr>) -> nat
    decreases es, es.len() + 1,
{
    temps_upto(es, es.len() as int)
}

/// Whether rendering one of `es` reads the name of the enclosing function.
pub open spec fn any_needs_callee(es: Seq<Expr>) -> bool
    decreases es,
{
    exists|i: int| 0 <= i < es.len() && (#[trigger] es[i]).needs_callee()
}

/// The texts of `es`, one for one and in order, rendered one after another
/// inside the function `callee`, the first after `n` temporaries.
pub open spec fn texts_of(es: Seq<Expr>, callee: Seq<char>, n: nat) -> Seq<Seq<char>>
    decreases es,
{
    Seq::new(
        es.len(),
        |i: int|
            if 0 <= i < es.len() {
                es[i].text(callee, n + temps_upto(es, i))
            } else {
                Seq::empty()
            },
    )
}

/// What each of `es` puts into the statement stream, one for one and in
/// order, rendered as for `texts_of`.
pub open spec fn stmt_parts_of(es: Seq<Expr>, callee: Seq<char>, n: nat) -> Seq<Seq<char>>
    decreases es,
{
    Seq::new(
        es.len(),
        |i: int|
            if 0 <= i < es.len() {
                es[i].stmts(callee, n + temps_upto(es, i))
            } else {
                Seq::empty()
            },
    )
}

/// The statement block that a conditional with statement branches is
/// lowered to. The `if` block holds the `then` texts and nothing else, each
/// on a line of its own and in order; an `else` block that holds the `else`
/// texts in the same way follows where there are any.
pub open spec fn if_block(
    cond: Seq<char>,
    then_texts: Seq<Seq<char>>,
    else_texts: Seq<Seq<char>>,
) -> Seq<char> {
    "if ("@ + cond + ") {\n"@ + terminated(then_texts, "\n"@) + "}"@ + (
    if else_texts.len() > 0 {
        " else {\n"@ + terminated(else_texts, "\n"@) + "}\n"@
    } else {
        Seq::empty()
    })
}

/// A conditional with exactly one expression in each branch is the ternary
/// of its three parts, each rendered by itself: the condition first, then
/// the two branches, every part after the temporaries of those before it.
/// The conditional allocates no temporary and adds no statement of its own.
pub proof fn lemma_plain_if_is_ternary(x: Expr, callee: Seq<char>, n: nat)
    requires
        x.is_plain_if(),
    ensures
        ({
            let c = x->If_0;
            let t = x->If_1@[0];
            let e = x->If_2@[0];
            &&& x.text(callee, n) == ternary(
                c.text(callee, n),
                t.text(callee, n + c.temps()),
                e.text(callee, n + c.temps() + t.temps()),
            )
            &&& x.stmts(callee, n) == c.stmts(callee, n) + t.stmts(callee, n + c.temps())
                + e.stmts(callee, n + c.temps() + t.temps())
            &&& x.temps() == c.temps() + t.temps() + e.temps()
        }),
{
    let t = x->If_1@;
    let e = x->If_2@;
    assert(temps_of(t) == t[0].temps());
    assert(temps_of(e) == e[0].temps());
}

/// A conditional of any other shape is lowered. Its value is a ternary on
/// the temporary that it allocates, the next unused one. The statements
/// it adds end with its block. The `if` block holds exactly one text for
/// each expression of the `then` list, the `else` block exactly one for
/// each of the `else` list, in the order of the lists and with nothing
/// added: text `i` of a list is the rendering of its expression `i`.
pub proof fn lemma_lowered_if_keeps_branches(x: Expr, callee: Seq<char>, n: nat)
    requires
        x is If,
        !x.is_plain_if(),
    ensures
        ({
            let c = x->If_0;
            let t = x->If_1@;
            let e = x->If_2@;
            let m = n + 1;
            let then_at = m + c.temps();
            let else_at = then_at + temps_of(t);
            let then_texts = texts_of(t, callee, then_at);
            let else_texts = texts_of(e, callee, else_at);
            &&& x.temps() == 1 + c.temps() + temps_of(t) + temps_of(e)
            &&& x.text(callee, n) == ternary(temp_name(m), "nullptr"@, "nullptr"@)
            &&& then_texts.len() == t.len()
            &&& else_texts.len() == e.len()
            &&& forall|i: int|
                0 <= i < t.len() ==> #[trigger] then_texts[i] == t[i].text(
                    callee,
                    then_at + temps_upto(t, i),
                )
            &&& forall|i: int|
                0 <= i < e.len() ==> #[trigger] else_texts[i] == e[i].text(
                    callee,
                    else_at + temps_upto(e, i),
                )
            &&& exists|before: Seq<char>|
                x.stmts(callee, n) == before + if_block(
                    c.text(callee, m),
                    then_texts,
                    else_texts,
                )
        }),
{
    let c = x->If_0;
    let t = x->If_1@;
    let e = x->If_2@;
    let m = n + 1;
    let then_at = m + c.temps();
    let else_at = then_at + temps_of(t);
    let before = "bool "@ + temp_name(m) + ";"@ + c.stmts(callee, m) + concat(
        stmt_parts_of(t, callee, then_at),
    ) + concat(stmt_parts_of(e, callee, else_at));
    assert(x.stmts(callee, n) == before + if_block(
        c.text(callee, m),
        texts_of(t, callee, then_at),
        texts_of(e, callee, else_at),
    ));
}

/// Appending the pieces of a lowered conditional to a stream one after
/// another appends their concatenation.
proof fn lemma_lowered_stream(
    base: Seq<char>,
    temp: Seq<char>,
    cond: Seq<char>,
    then_part: Seq<char>,
    else_part: Seq<char>,
    block: Seq<char>,
)
    ensures
        base + "bool "@ + temp + ";"@ + cond + then_part + else_part + block == base + ("bool "@
            + temp + ";"@ + cond + then_part + else_part + block),
{
    assert(base + "bool "@ + temp + ";"@ + cond + then_part + else_part + block =~= base + (
    "bool "@ + temp + ";"@ + cond + then_part + else_part + block));
}

/// The numbers of the temporaries that rendering the first `k` of `es`
/// allocates, the first of them rendered after `n` temporaries, in the order
/// of allocation.
pub open spec fn allocated_upto(es: Seq<Expr>, k: int, n: nat) -> Seq<nat>
    decreases es, k,
{
    if 0 < k <= es.len() {
        allocated_upto(es, k - 1, n) + es[k - 1].allocated(n + temps_upto(es, k - 1))
    } else {
        Seq::empty()
    }
}

/// The numbers of the temporaries that rendering all of `es` allocates, in
/// the order of allocation.
pub open spec fn allocated_of(es: Seq<Expr>, n: nat) -> Seq<nat>
    decreases es, es.len() + 1,
{
    allocated_upto(es, es.len() as int, n)
}

/// The temporaries that the first `k` of `es` allocate are the next unused
/// ones, in order.
pub proof fn lemma_allocated_upto(es: Seq<Expr>, k: int, n: nat)
    requires
        0 <= k <= es.len(),
    ensures
        allocated_upto(es, k, n) == numbers_after(n, temps_upto(es, k)),
    decreases es, k,
{
    if k > 0 {
        lemma_allocated_upto(es, k - 1, n);
        es[k - 1].lemma_allocated(n + temps_upto(es, k - 1));
        lemma_numbers_after_split(n, temps_upto(es, k - 1), es[k - 1].temps());
    } else {
        assert(allocated_upto(es, k, n) =~= numbers_after(n, 0));
    }
}

/// The first `k` of `es` allocate no more temporaries than all of them.
pub proof fn lemma_temps_upto_le(es: Seq<Expr>, k: int)
    requires
        0 <= k <= es.len(),
    ensures
        temps_upto(es, k) <= temps_of(es),
    decreases es.len() - k,
{
    if k < es.len() {
        lemma_temps_upto_le(es, k + 1);
    }
}

/// The sum of two counts: known where both are known and the sum fits a
/// machine word.
pub fn add_counts(a: Option<usize>, b: Option<usize>) -> (r: Option<usize>)
    ensures
        r == if a is Some && b is Some && a->0 + b->0 <= usize::MAX {
            Some((a->0 + b->0) as usize)
        } else {
            None::<usize>
        },
{
    match (a, b) {
        (Some(x), Some(y)) => x.checked_add(y),
        _ => None,
    }
}

/// Counts the temporaries that rendering all of `es` allocates; `None`
/// where the count does not fit a machine word.
pub fn count_temps_each(es: &Vec<Expr>) -> (r: Option<usize>)
    ensures
        r == if temps_of(es@) <= usize::MAX {
            Some(temps_of(es@) as usize)
        } else {
            None::<usize>
        },
    decreases es,
{
    let mut total: Option<usize> = Some(0);
    let mut i: usize = 0;
    while i < es.len()
        invariant
            i <= es.len(),
            total == if temps_upto(es@, i as int) <= usize::MAX {
                Some(temps_upto(es@, i as int) as usize)
            } else {
                None::<usize>
            },
        decreases es.len() - i,
    {
        proof {
            broadcast use vstd::std_specs::vec::group_vec_axioms;
        }
        let one = es[i].count_temps();
        total = add_counts(total, one);
        i += 1;
    }
    total
}

/// Whether rendering one of `es` reads the name of the enclosing function.
pub fn any_reads_callee(es: &Vec<Expr>) -> (b: bool)
    ensures
        b == any_needs_callee(es@),
    decreases es,
{
    let mut i: usize = 0;
    while i < es.len()
        invariant
            i <= es.len(),
            forall|j: int| 0 <= j < i ==> !(#[trigger] es@[j]).needs_callee(),
        decreases es.len() - i,
    {
        proof {
            broadcast use vstd::std_specs::vec::group_vec_axioms;
        }
        if es[i].reads_callee() {
            return true;
        }
        i += 1;
    }
    false
}

/// Renders each of `es` in order and returns the texts. Each is rendered
/// after the temporaries of those before it; the statements that they put
/// into the stream follow one another in the same order.
pub fn emit_each(es: &Vec<Expr>, ctx: &mut Context) -> (texts: Vec<String>)
    requires
        any_needs_callee(es@) ==> old(ctx).callee@.len() > 0,
        old(ctx).counter() + temps_of(es@) <= usize::MAX,
    ensures
        views(texts@) == texts_of(es@, old(ctx).self_name(), old(ctx).counter()),
        final(ctx).buf@ == old(ctx).buf@ + concat(
            stmt_parts_of(es@, old(ctx).self_name(), old(ctx).counter()),
        ),
        final(ctx).counter() == old(ctx).counter() + temps_of(es@),
        final(ctx).callee@ == old(ctx).callee@,
    decreases es,
{
    let ghost callee = ctx.self_name();
    let ghost n = ctx.counter();
    let ghost all = texts_of(es@, callee, n);
    let ghost parts = stmt_parts_of(es@, callee, n);
    let mut texts: Vec<String> = Vec::new();
    let mut i: usize = 0;
    while i < es.len()
        invariant
            i <= es.len(),
            texts@.len() == i,
            all == texts_of(es@, callee, n),
            parts == stmt_parts_of(es@, callee, n),
            forall|j: int| 0 <= j < i ==> (#[trigger] texts@[j])@ == all[j],
            ctx.buf@ == old(ctx).buf@ + concat(parts.take(i as int)),
            ctx.counter() == n + temps_upto(es@, i as int),
            ctx.callee@ == old(ctx).callee@,
            callee == old(ctx).self_name(),
            any_needs_callee(es@) ==> old(ctx).callee@.len() > 0,
            n + temps_of(es@) <= usize::MAX,
        decreases es.len() - i,
    {
        proof {
            broadcast use vstd::std_specs::vec::group_vec_axioms;
            lemma_temps_upto_le(es@, i + 1);
        }
        let text = es[i].emit(ctx);
        texts.push(text);
        proof {
            lemma_concat_step(parts, i as int);
        }
        i += 1;
    }
    assert(parts.take(es.len() as int) =~= parts);
    texts
}

/// The target's ternary expression over three rendered parts.
pub open spec fn ternary(cond: Seq<char>, then_text: Seq<char>, else_text: Seq<char>) -> Seq<char> {
    "("@ + cond + " ? "@ + then_text + " : "@ + else_text + ")"@
}

/// Lays out a ternary expression over three rendered parts.
pub fn ternary_string(cond: &str, then_text: &str, else_text: &str) -> (s: String)
    ensures
        s@ == ternary(cond@, then_text@, else_text@),
{
    let mut s = "(".to_owned();
    s.append(cond);
    s.append(" ? ");
    s.append(then_text);
    s.append(" : ");
    s.append(else_text);
    s.append(")");
    s
}

/// Lays out the statement block of a lowered conditional.
pub fn if_block_string(cond: &str, then_texts: &Vec<String>, else_texts: &Vec<String>) -> (s:
    String)
    ensures
        s@ == if_block(cond@, views(then_texts@), views(else_texts@)),
{
    let mut s = "if (".to_owned();
    s.append(cond);
    s.append(") {\n");
    append_terminated(&mut s, then_texts, "\n");
    s.append("}");
    if else_texts.len() > 0 {
        s.append(" else {\n");
        append_terminated(&mut s, else_texts, "\n");
        s.append("}\n");
    }
    s
}

impl Postfix {
    /// Counts the temporaries that rendering allocates; `None` where the
    /// count does not fit a machine word.
    pub fn count_temps(&self) -> (r: Option<usize>)
        ensures
            r == if self.temps() <= usize::MAX {
                Some(self.temps() as usize)
            } else {
                None::<usize>
            },
        decreases self,
    {
        match self {
            Postfix::FunCall(args) => count_temps_each(args),
            Postfix::Index(e) => e.count_temps(),
        }
    }

    /// Whether rendering reads the name of the enclosing function.
    pub fn reads_callee(&self) -> (b: bool)
        ensures
            b == self.needs_callee(),
        decreases self,
    {
        match self {
            Postfix::FunCall(args) => any_reads_callee(args),
            Postfix::Index(e) => e.reads_callee(),
        }
    }

    /// Renders the call's arguments or the index.
    pub fn emit(&self, ctx: &mut Context) -> (s: String)
        requires
            self.needs_callee() ==> old(ctx).callee@.len() > 0,
            old(ctx).counter() + self.temps() <= usize::MAX,
        ensures
            s@ == self.text(old(ctx).self_name(), old(ctx).counter()),
            final(ctx).buf@ == old(ctx).buf@ + self.stmts(
                old(ctx).self_name(),
                old(ctx).counter(),
            ),
            final(ctx).counter() == old(ctx).counter() + self.temps(),
            final(ctx).callee@ == old(ctx).callee@,
        decreases self,
    {
        match self {
            Postfix::FunCall(args) => {
                let texts = emit_each(args, ctx);
                let mut s = "(".to_owned();
                let list = join_strings(&texts, ", ");
                s.append(list.as_str());
                s.append(")");
                s
            },
            Postfix::Index(e) => {
                let mut s = "[".to_owned();
                let inner = e.emit(ctx);
                s.append(inner.as_str());
                s.append("]");
                s
            },
        }
    }

    /// The temporaries that rendering allocates.
    pub open spec fn temps(&self) -> nat
        decreases self,
    {
        match self {
            Postfix::FunCall(args) => temps_of(args@),
            Postfix::Index(e) => e.temps(),
        }
    }

    /// Whether rendering reads the name of the enclosing function.
    pub open spec fn needs_callee(&self) -> bool
        decreases self,
    {
        match self {
            Postfix::FunCall(args) => any_needs_callee(args@),
            Postfix::Index(e) => e.needs_callee(),
        }
    }

    /// The text: the arguments between parentheses, separated by a comma
    /// and a space, or the index between brackets.
    pub open spec fn text(&self, callee: Seq<char>, n: nat) -> Seq<char>
        decreases self,
    {
        match self {
            Postfix::FunCall(args) => "("@ + join(texts_of(args@, callee, n), ", "@) + ")"@,
            Postfix::Index(e) => "["@ + e.text(callee, n) + "]"@,
        }
    }

    /// The numbers of the temporaries that rendering allocates after `n`,
    /// in the order of allocation.
    pub open spec fn allocated(&self, n: nat) -> Seq<nat>
        decreases self,
    {
        match self {
            Postfix::FunCall(args) => allocated_of(args@, n),
            Postfix::Index(e) => e.allocated(n),
        }
    }

    /// The temporaries that rendering allocates are the next unused ones,
    /// in order.
    pub proof fn lemma_allocated(self, n: nat)
        ensures
            self.allocated(n) == numbers_after(n, self.temps()),
        decreases self,
    {
        match self {
            Postfix::FunCall(args) => {
                lemma_allocated_upto(args@, args@.len() as int, n);
            },
            Postfix::Index(e) => {
                e.lemma_allocated(n);
            },
        }
    }

    /// What rendering puts into the statement stream.
    pub open spec fn stmts(&self, callee: Seq<char>, n: nat) -> Seq<char>
        decreases self,
    {
        match self {
            Postfix::FunCall(args) => concat(stmt_parts_of(args@, callee, n)),
            Postfix::Index(e) => e.stmts(callee, n),
        }
    }
}

impl Expr {
    /// Counts the temporaries that rendering allocates; `None` where the
    /// count does not fit a machine word.
    pub fn count_temps(&self) -> (r: Option<usize>)
        ensures
            r == if self.temps() <= usize::MAX {
                Some(self.temps() as usize)
            } else {
                None::<usize>
            },
        decreases self,
    {
        match self {
            Expr::BinOp(l, _, r) => add_counts(l.count_temps(), r.count_temps()),
            Expr::PostOp(e, op) => add_counts(e.count_temps(), op.count_temps()),
            Expr::PreOp(e, _) => e.count_temps(),
            Expr::FunTree(_, _) => Some(0),
            Expr::Constant(_) => Some(0),
            Expr::Identifier(_) => Some(0),
            Expr::If(c, t, e) => {
                let own: usize = if t.len() == 1 && e.len() == 1 {
                    0
                } else {
                    1
                };
                let parts = add_counts(c.count_temps(), count_temps_each(t));
                add_counts(add_counts(Some(own), parts), count_temps_each(e))
            },
            Expr::Callee => Some(0),
        }
    }

    /// Whether rendering reads the name of the enclosing function.
    pub fn reads_callee(&self) -> (b: bool)
        ensures
            b == self.needs_callee(),
        decreases self,
    {
        match self {
            Expr::BinOp(l, _, r) => l.reads_callee() || r.reads_callee(),
            Expr::PostOp(e, op) => e.reads_callee() || op.reads_callee(),
            Expr::PreOp(e, _) => e.reads_callee(),
            Expr::FunTree(_, _) => false,
            Expr::Constant(_) => false,
            Expr::Identifier(_) => false,
            Expr::If(c, t, e) => c.reads_callee() || any_reads_callee(t) || any_reads_callee(e),
            Expr::Callee => true,
        }
    }

    /// Whether the expression can be rendered in `ctx`: an enclosing
    /// function is there if the expression refers to one, and the
    /// temporaries that it allocates do not exhaust the counter.
    pub open spec fn emits_in(&self, ctx: &Context) -> bool {
        &&& self.needs_callee() ==> ctx.callee@.len() > 0
        &&& ctx.counter() + self.temps() <= usize::MAX
    }

    /// Decides whether the expression can be rendered in `ctx`.
    pub fn can_emit(&self, ctx: &Context) -> (b: bool)
        ensures
            b == self.emits_in(ctx),
    {
        if self.reads_callee() && ctx.callee.len() == 0 {
            return false;
        }
        add_counts(Some(ctx.local_var.count), self.count_temps()).is_some()
    }

    /// Renders the expression. The result is the text that stands for its
    /// value; the statements that must run before that text is used are
    /// appended to the context's statement stream, and one temporary is
    /// allocated for each conditional that is lowered to statements. The
    /// stack of enclosing functions is read, never changed.
    pub fn emit(&self, ctx: &mut Context) -> (s: String)
        requires
            self.emits_in(old(ctx)),
        ensures
            s@ == self.text(old(ctx).self_name(), old(ctx).counter()),
            final(ctx).buf@ == old(ctx).buf@ + self.stmts(
                old(ctx).self_name(),
                old(ctx).counter(),
            ),
            final(ctx).counter() == old(ctx).counter() + self.temps(),
            final(ctx).counter() >= old(ctx).counter(),
            final(ctx).callee@ == old(ctx).callee@,
        decreases self, 1nat,
    {
        match self {
            Expr::BinOp(l, op, r) => {
                let mut s = l.emit(ctx);
                s.append(" ");
                let sym = op.emit(ctx);
                s.append(sym.as_str());
                s.append(" ");
                let right = r.emit(ctx);
                s.append(right.as_str());
                s
            },
            Expr::PostOp(e, op) => {
                let mut s = e.emit(ctx);
                let tail = op.emit(ctx);
                s.append(tail.as_str());
                s
            },
            Expr::PreOp(e, op) => {
                let mut s = op.emit(ctx);
                let operand = e.emit(ctx);
                s.append(operand.as_str());
                s
            },
            Expr::FunTree(args, _) => {
                let mut s = "[]".to_owned();
                let params = args.emit(ctx);
                s.append(params.as_str());
                s.append("{\n");
                s.append("}\n");
                s
            },
            Expr::Constant(c) => c.emit(ctx),
            Expr::Identifier(name) => name.clone(),
            Expr::Callee => ctx.callee[ctx.callee.len() - 1].clone(),
            Expr::If(c, t, e) => {
                if t.len() == 1 && e.len() == 1 {
                    self.emit_ternary(c, &t[0], &e[0], ctx)
                } else {
                    self.emit_lowered(c, t, e, ctx)
                }
            },
        }
    }

    /// Renders a conditional with one expression in each branch: the three
    /// parts in order, laid out as the target's ternary expression.
    fn emit_ternary(&self, c: &Expr, t: &Expr, e: &Expr, ctx: &mut Context) -> (s: String)
        requires
            self.is_plain_if(),
            *self->If_0 == *c,
            self->If_1@[0] == *t,
            self->If_2@[0] == *e,
            self.emits_in(old(ctx)),
        ensures
            s@ == self.text(old(ctx).self_name(), old(ctx).counter()),
            final(ctx).buf@ == old(ctx).buf@ + self.stmts(
                old(ctx).self_name(),
                old(ctx).counter(),
            ),
            final(ctx).counter() == old(ctx).counter() + self.temps(),
            final(ctx).callee@ == old(ctx).callee@,
        decreases self, 0nat,
    {
        let ghost callee = ctx.self_name();
        let ghost n = ctx.counter();
        proof {
            broadcast use vstd::std_specs::vec::group_vec_axioms;
            lemma_plain_if_is_ternary(*self, callee, n);
            assert(t.needs_callee() ==> any_needs_callee(self->If_1@));
            assert(e.needs_callee() ==> any_needs_callee(self->If_2@));
        }
        let cond = c.emit(ctx);
        let then_text = t.emit(ctx);
        let else_text = e.emit(ctx);
        ternary_string(cond.as_str(), then_text.as_str(), else_text.as_str())
    }

    /// Lowers a conditional with statement branches: allocates and declares
    /// the temporary, renders the condition and both branches, puts the
    /// block into the statement stream and returns the ternary keyed on the
    /// temporary.
    fn emit_lowered(&self, c: &Expr, t: &Vec<Expr>, e: &Vec<Expr>, ctx: &mut Context) -> (s:
        String)
        requires
            self is If,
            !self.is_plain_if(),
            *self->If_0 == *c,
            self->If_1 == *t,
            self->If_2 == *e,
            self.emits_in(old(ctx)),
        ensures
            s@ == self.text(old(ctx).self_name(), old(ctx).counter()),
            final(ctx).buf@ == old(ctx).buf@ + self.stmts(
                old(ctx).self_name(),
                old(ctx).counter(),
            ),
            final(ctx).counter() == old(ctx).counter() + self.temps(),
            final(ctx).callee@ == old(ctx).callee@,
        decreases self, 0nat,
    {
        let ghost callee = ctx.self_name();
        let ghost n = ctx.counter();
        let ghost m = n + 1;
        let ghost then_at = m + c.temps();
        let ghost else_at = then_at + temps_of(t@);
        let tf_var = ctx.local_var.next().clone();
        let name = tf_var.emit(ctx);
        ctx.buf.append("bool ");
        ctx.buf.append(name.as_str());
        ctx.buf.append(";");
        let ghost declared = ctx.buf@;
        let cond = c.emit(ctx);
        let then_texts = emit_each(t, ctx);
        let else_texts = emit_each(e, ctx);
        let block = if_block_string(cond.as_str(), &then_texts, &else_texts);
        ctx.buf.append(block.as_str());
        let s = ternary_string(name.as_str(), "nullptr", "nullptr");
        proof {
            let c_stmts = c.stmts(callee, m);
            let t_stmts = concat(stmt_parts_of(t@, callee, then_at));
            let e_stmts = concat(stmt_parts_of(e@, callee, else_at));
            assert(declared == old(ctx).buf@ + "bool "@ + temp_name(m) + ";"@);
            assert(ctx.buf@ == declared + c_stmts + t_stmts + e_stmts + block@);
            assert(self.stmts(callee, n) == "bool "@ + temp_name(m) + ";"@ + c_stmts + t_stmts
                + e_stmts + block@);
            lemma_lowered_stream(
                old(ctx).buf@,
                temp_name(m),
                c_stmts,
                t_stmts,
                e_stmts,
                block@,
            );
        }
        s
    }

    /// Whether this is a conditional with one expression in each branch,
    /// which the target's ternary operator can hold as it stands.
    pub open spec fn is_plain_if(&self) -> bool {
        match self {
            Expr::If(_, t, e) => t@.len() == 1 && e@.len() == 1,
            _ => false,
        }
    }

    /// The temporaries that rendering allocates: one for each conditional
    /// that is lowered to statements. The body of a function literal is not
    /// rendered and allocates none.
    pub open spec fn temps(&self) -> nat
        decreases self,
    {
        match self {
            Expr::BinOp(l, _, r) => l.temps() + r.temps(),
            Expr::PostOp(e, op) => e.temps() + op.temps(),
            Expr::PreOp(e, _) => e.temps(),
            Expr::FunTree(_, _) => 0,
            Expr::Constant(_) => 0,
            Expr::Identifier(_) => 0,
            Expr::If(c, t, e) => {
                let own: nat = if t@.len() == 1 && e@.len() == 1 {
                    0
                } else {
                    1
                };
                own + c.temps() + temps_of(t@) + temps_of(e@)
            },
            Expr::Callee => 0,
        }
    }

    /// Whether rendering reads the name of the enclosing function.
    pub open spec fn needs_callee(&self) -> bool
        decreases self,
    {
        match self {
            Expr::BinOp(l, _, r) => l.needs_callee() || r.needs_callee(),
            Expr::PostOp(e, op) => e.needs_callee() || op.needs_callee(),
            Expr::PreOp(e, _) => e.needs_callee(),
            Expr::FunTree(_, _) => false,
            Expr::Constant(_) => false,
            Expr::Identifier(_) => false,
            Expr::If(c, t, e) => c.needs_callee() || any_needs_callee(t@) || any_needs_callee(e@),
            Expr::Callee => true,
        }
    }

    /// The text that stands for the expression's value, rendered inside the
    /// function `callee` after `n` temporaries have been handed out. Parts
    /// are rendered from left to right, each after the temporaries of those
    /// before it.
    pub open spec fn text(&self, callee: Seq<char>, n: nat) -> Seq<char>
        decreases self,
    {
        match self {
            Expr::BinOp(l, op, r) => l.text(callee, n) + " "@ + op.text() + " "@ + r.text(
                callee,
                n + l.temps(),
            ),
            Expr::PostOp(e, op) => e.text(callee, n) + op.text(callee, n + e.temps()),
            Expr::PreOp(e, op) => op.text() + e.text(callee, n),
            Expr::FunTree(args, _) => "[]"@ + args.text() + "{\n"@ + "}\n"@,
            Expr::Constant(c) => c.text(),
            Expr::Identifier(name) => name@,
            Expr::If(c, t, e) => {
                if t@.len() == 1 && e@.len() == 1 {
                    ternary(
                        c.text(callee, n),
                        t@[0].text(callee, n + c.temps()),
                        e@[0].text(callee, n + c.temps() + t@[0].temps()),
                    )
                } else {
                    ternary(temp_name(n + 1), "nullptr"@, "nullptr"@)
                }
            },
            Expr::Callee => callee,
        }
    }

    /// The numbers of the temporaries that rendering allocates after `n`
    /// have been handed out, in the order of allocation. A lowered
    /// conditional allocates its own temporary, the one that its statements
    /// declare and its text names, before its parts allocate theirs.
    pub open spec fn allocated(&self, n: nat) -> Seq<nat>
        decreases self,
    {
        match self {
            Expr::BinOp(l, _, r) => l.allocated(n) + r.allocated(n + l.temps()),
            Expr::PostOp(e, op) => e.allocated(n) + op.allocated(n + e.temps()),
            Expr::PreOp(e, _) => e.allocated(n),
            Expr::FunTree(_, _) => Seq::empty(),
            Expr::Constant(_) => Seq::empty(),
            Expr::Identifier(_) => Seq::empty(),
            Expr::If(c, t, e) => {
                if t@.len() == 1 && e@.len() == 1 {
                    c.allocated(n) + t@[0].allocated(n + c.temps()) + e@[0].allocated(
                        n + c.temps() + t@[0].temps(),
                    )
                } else {
                    let m = n + 1;
                    let then_at = m + c.temps();
                    let else_at = then_at + temps_of(t@);
                    seq![m] + c.allocated(m) + allocated_of(t@, then_at) + allocated_of(
                        e@,
                        else_at,
                    )
                }
            },
            Expr::Callee => Seq::empty(),
        }
    }

    /// The temporaries that rendering allocates are the next unused ones,
    /// in order: as many as `temps` counts, numbered from `n + 1` on.
    pub proof fn lemma_allocated(self, n: nat)
        ensures
            self.allocated(n) == numbers_after(n, self.temps()),
        decreases self,
    {
        match self {
            Expr::BinOp(l, _, r) => {
                l.lemma_allocated(n);
                r.lemma_allocated(n + l.temps());
                lemma_numbers_after_split(n, l.temps(), r.temps());
            },
            Expr::PostOp(e, op) => {
                e.lemma_allocated(n);
                op.lemma_allocated(n + e.temps());
                lemma_numbers_after_split(n, e.temps(), op.temps());
            },
            Expr::PreOp(e, _) => {
                e.lemma_allocated(n);
            },
            Expr::If(c, t, e) => {
                if t@.len() == 1 && e@.len() == 1 {
                    lemma_plain_if_is_ternary(self, Seq::empty(), n);
                    c.lemma_allocated(n);
                    t@[0].lemma_allocated(n + c.temps());
                    e@[0].lemma_allocated(n + c.temps() + t@[0].temps());
                    lemma_numbers_after_split(n, c.temps(), t@[0].temps());
                    lemma_numbers_after_split(n, c.temps() + t@[0].temps(), e@[0].temps());
                } else {
                    let m = n + 1;
                    let then_at = m + c.temps();
                    let else_at = then_at + temps_of(t@);
                    c.lemma_allocated(m);
                    lemma_allocated_upto(t@, t@.len() as int, then_at);
                    lemma_allocated_upto(e@, e@.len() as int, else_at);
                    assert(seq![m] =~= numbers_after(n, 1));
                    assert(allocated_of(t@, then_at) == numbers_after(then_at, temps_of(t@)));
                    assert(allocated_of(e@, else_at) == numbers_after(else_at, temps_of(e@)));
                    lemma_numbers_after_split(n, 1, c.temps());
                    lemma_numbers_after_split(n, 1 + c.temps(), temps_of(t@));
                    lemma_numbers_after_split(n, 1 + c.temps() + temps_of(t@), temps_of(e@));
                }
            },
            _ => {
                assert(self.allocated(n) =~= numbers_after(n, 0));
            },
        }
    }

    /// The temporaries that rendering allocates are numbered above the
    /// counter at entry and in strictly increasing order, so their names
    /// differ from one another and from the name of every temporary handed
    /// out before the expression was rendered.
    pub proof fn lemma_temporaries_fresh(self, n: nat)
        ensures
            ({
                let a = self.allocated(n);
                &&& a.len() == self.temps()
                &&& forall|i: int| 0 <= i < a.len() ==> #[trigger] a[i] == n + 1 + i
                &&& forall|i: int| 0 <= i < a.len() ==> #[trigger] a[i] > n
                &&& forall|i: int, j: int|
                    0 <= i < j < a.len() ==> #[trigger] a[i] < #[trigger] a[j]
                &&& forall|i: int, j: int|
                    0 <= i < j < a.len() ==> temp_name(#[trigger] a[i]) != temp_name(
                        #[trigger] a[j],
                    )
                &&& forall|i: int, m: nat|
                    0 <= i < a.len() && m <= n ==> #[trigger] temp_name(a[i]) != #[trigger] temp_name(
                        m,
                    )
            }),
    {
        self.lemma_allocated(n);
        lemma_numbers_after_fresh(n, self.temps());
    }

    /// The statements that rendering puts into the statement stream, to be
    /// placed before the statement that uses the expression's text. A
    /// conditional with statement branches declares its temporary, lets its
    /// parts add their own statements, and then adds its block.
    pub open spec fn stmts(&self, callee: Seq<char>, n: nat) -> Seq<char>
        decreases self,
    {
        match self {
            Expr::BinOp(l, _, r) => l.stmts(callee, n) + r.stmts(callee, n + l.temps()),
            Expr::PostOp(e, op) => e.stmts(callee, n) + op.stmts(callee, n + e.temps()),
            Expr::PreOp(e, _) => e.stmts(callee, n),
            Expr::FunTree(_, _) => Seq::empty(),
            Expr::Constant(_) => Seq::empty(),
            Expr::Identifier(_) => Seq::empty(),
            Expr::If(c, t, e) => {
                if t@.len() == 1 && e@.len() == 1 {
                    c.stmts(callee, n) + t@[0].stmts(callee, n + c.temps()) + e@[0].stmts(
                        callee,
                        n + c.temps() + t@[0].temps(),
                    )
                } else {
                    let m = n + 1;
                    let then_at = m + c.temps();
                    let else_at = then_at + temps_of(t@);
                    "bool "@ + temp_name(m) + ";"@ + c.stmts(callee, m) + concat(
                        stmt_parts_of(t@, callee, then_at),
                    ) + concat(stmt_parts_of(e@, callee, else_at)) + if_block(
                        c.text(callee, m),
                        texts_of(t@, callee, then_at),
                        texts_of(e@, callee, else_at),
                    )
                }
            },
            Expr::Callee => Seq::empty(),
        }
    }
}

} // verus!
