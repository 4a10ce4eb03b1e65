//! The state that one emission run threads through every node it renders.

use vstd::prelude::*;
use vstd::string::*;
use crate::text::{decimal, lemma_decimal_injective, push_decimal};

verus! {

/// The counter behind the synthesized temporaries. The temporary that is
/// current has the number `count`; no temporary has the number zero.
#[derive(Clone, Copy)]
pub struct LocalVar {
    pub count: usize,
}

/// The name of the temporary with number `n`: an underscore and the decimal
/// numeral of `n`.
pub open spec fn temp_name(n: nat) -> Seq<char> {
    seq!['_'] + decimal(n)
}

/// Temporaries with different numbers have different names. The counter
/// only ever goes up, so no name is handed out twice in one run.
pub proof fn lemma_temp_names_distinct(a: nat, b: nat)
    requires
        a != b,
    ensures
        temp_name(a) != temp_name(b),
{
    if temp_name(a) == temp_name(b) {
        assert(temp_name(a).subrange(1, temp_name(a).len() as int) =~= decimal(a));
        assert(temp_name(b).subrange(1, temp_name(b).len() as int) =~= decimal(b));
        lemma_decimal_injective(a, b);
    }
}

/// The numbers of the `count` temporaries handed out after the counter
/// stood at `n`, in the order of allocation: `n + 1`, `n + 2`, and so on.
pub open spec fn numbers_after(n: nat, count: nat) -> Seq<nat> {
    Seq::new(count, |i: int| (n + 1 + i) as nat)
}

/// Handing out `a` temporaries and then `b` more is handing out `a + b`.
pub proof fn lemma_numbers_after_split(n: nat, a: nat, b: nat)
    ensures
        numbers_after(n, a) + numbers_after(n + a, b) == numbers_after(n, a + b),
{
    assert(numbers_after(n, a) + numbers_after(n + a, b) =~= numbers_after(n, a + b));
}

/// Temporaries handed out after the counter stood at `n` are numbered above
/// `n` and in strictly increasing order. Their names therefore differ from
/// one another and from the name of every temporary handed out before, whose
/// number is at most `n`.
pub proof fn lemma_numbers_after_fresh(n: nat, count: nat)
    ensures
        ({
            let a = numbers_after(n, count);
            &&& a.len() == count
            &&& forall|i: int| 0 <= i < count ==> #[trigger] a[i] > n
            &&& forall|i: int, j: int| 0 <= i < j < count ==> #[trigger] a[i] < #[trigger] a[j]
            &&& forall|i: int, j: int|
                0 <= i < j < count ==> temp_name(#[trigger] a[i]) != temp_name(#[trigger] a[j])
            &&& forall|i: int, m: nat|
                0 <= i < count && m <= n ==> #[trigger] temp_name(a[i]) != #[trigger] temp_name(m)
        }),
{
    let a = numbers_after(n, count);
    assert forall|i: int, j: int| 0 <= i < j < count implies temp_name(#[trigger] a[i])
        != temp_name(#[trigger] a[j]) by {
        lemma_temp_names_distinct(a[i], a[j]);
    }
    assert forall|i: int, m: nat| 0 <= i < count && m <= n implies #[trigger] temp_name(a[i])
        != #[trigger] temp_name(m) by {
        lemma_temp_names_distinct(a[i], m);
    }
}

impl LocalVar {
    /// Moves on to the next, so far unused, temporary.
    pub fn next(&mut self) -> (r: &mut Self)
        requires
            old(self).count < usize::MAX,
        ensures
            r.count == old(self).count + 1,
            r.count > old(self).count,
            *final(self) == *final(r),
    {
        self.count += 1;
        self
    }

    /// The name of the current temporary. The context is left as it was.
    pub fn emit(&self, ctx: &mut Context) -> (s: String)
        ensures
            s@ == temp_name(self.count as nat),
            *final(ctx) == *old(ctx),
    {
        let mut s = String::new();
        s.push('_');
        push_decimal(&mut s, self.count as u64);
        s
    }
}

/// Run-scoped state: the statements waiting to be placed before the
/// expression under construction, the temporary counter, and the names of the
/// functions being rendered, innermost last.
pub struct Context {
    pub buf: String,
    pub local_var: LocalVar,
    pub callee: Vec<String>,
}

impl Context {
    /// The name that a self-call resolves to: the innermost enclosing
    /// function (meant for a non-empty stack).
    pub open spec fn self_name(&self) -> Seq<char> {
        if self.callee@.len() > 0 {
            self.callee@.last()@
        } else {
            Seq::empty()
        }
    }

    /// The number of the temporary handed out last.
    pub open spec fn counter(&self) -> nat {
        self.local_var.count as nat
    }

    /// A fresh context: nothing pending, no temporary handed out, no
    /// enclosing function.
    pub fn new() -> (ctx: Self)
        ensures
            ctx.buf@ == Seq::<char>::empty(),
            ctx.local_var.count == 0,
            ctx.callee@ == Seq::<String>::empty(),
    {
        Self { buf: String::new(), local_var: LocalVar { count: 0 }, callee: Vec::new() }
    }
}

} // verus!
