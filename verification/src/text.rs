//! Text building blocks: decimal numerals and the joining of rendered pieces.

use vstd::prelude::*;
use vstd::string::*;

verus! {

/// The character that spells the digit `d` (meant for `d < 10`).
pub open spec fn digit(d: nat) -> char {
    if d == 0 {
        '0'
    } else if d == 1 {
        '1'
    } else if d == 2 {
        '2'
    } else if d == 3 {
        '3'
    } else if d == 4 {
        '4'
    } else if d == 5 {
        '5'
    } else if d == 6 {
        '6'
    } else if d == 7 {
        '7'
    } else if d == 8 {
        '8'
    } else {
        '9'
    }
}

/// The decimal numeral of `n`: most significant digit first, no leading zero
/// (zero itself is spelled `0`).
pub open spec fn decimal(n: nat) -> Seq<char>
    decreases n,
{
    if n < 10 {
        seq![digit(n)]
    } else {
        decimal(n / 10).push(digit(n % 10))
    }
}

/// The decimal numeral of a signed integer: a minus sign before the numeral
/// of the magnitude when `v` is negative.
pub open spec fn signed_decimal(v: int) -> Seq<char> {
    if v < 0 {
        seq!['-'] + decimal((-v) as nat)
    } else {
        decimal(v as nat)
    }
}

/// Different numbers have different numerals.
pub proof fn lemma_decimal_injective(a: nat, b: nat)
    requires
        decimal(a) == decimal(b),
    ensures
        a == b,
    decreases a,
{
    if a >= 10 {
        lemma_decimal_nonempty(a / 10);
    }
    if b >= 10 {
        lemma_decimal_nonempty(b / 10);
    }
    if a < 10 && b < 10 {
        assert(decimal(b)[0] == digit(b));
    } else if a >= 10 && b >= 10 {
        assert(decimal(b).last() == digit(b % 10));
        assert(decimal(a).drop_last() =~= decimal(a / 10));
        assert(decimal(b).drop_last() =~= decimal(b / 10));
        lemma_decimal_injective(a / 10, b / 10);
    } else if a < 10 {
        assert(decimal(b).len() == decimal(b / 10).len() + 1);
    } else {
    }
}

/// A numeral has at least one digit.
pub proof fn lemma_decimal_nonempty(n: nat)
    ensures
        decimal(n).len() >= 1,
    decreases n,
{
    if n >= 10 {
        lemma_decimal_nonempty(n / 10);
    }
}

/// The pieces one after another, with `sep` between neighbours and nothing
/// after the last.
pub open spec fn join(parts: Seq<Seq<char>>, sep: Seq<char>) -> Seq<char>
    decreases parts.len(),
{
    if parts.len() == 0 {
        Seq::empty()
    } else if parts.len() == 1 {
        parts[0]
    } else {
        join(parts.drop_last(), sep) + sep + parts.last()
    }
}

/// The pieces one after another, each followed by `end`.
pub open spec fn terminated(parts: Seq<Seq<char>>, end: Seq<char>) -> Seq<char>
    decreases parts.len(),
{
    if parts.len() == 0 {
        Seq::empty()
    } else {
        terminated(parts.drop_last(), end) + parts.last() + end
    }
}

/// The pieces one after another.
pub open spec fn concat(parts: Seq<Seq<char>>) -> Seq<char>
    decreases parts.len(),
{
    if parts.len() == 0 {
        Seq::empty()
    } else {
        concat(parts.drop_last()) + parts.last()
    }
}

/// Joining one piece more: the separator goes before every piece but the
/// first.
pub proof fn lemma_join_step(parts: Seq<Seq<char>>, sep: Seq<char>, i: int)
    requires
        0 <= i < parts.len(),
    ensures
        join(parts.take(i + 1), sep) == if i == 0 {
            parts[0]
        } else {
            join(parts.take(i), sep) + sep + parts[i]
        },
{
    assert(parts.take(i + 1).drop_last() =~= parts.take(i));
}

/// Terminating one piece more appends the piece and the terminator.
pub proof fn lemma_terminated_step(parts: Seq<Seq<char>>, end: Seq<char>, i: int)
    requires
        0 <= i < parts.len(),
    ensures
        terminated(parts.take(i + 1), end) == terminated(parts.take(i), end) + parts[i] + end,
{
    assert(parts.take(i + 1).drop_last() =~= parts.take(i));
}

/// Concatenating one piece more appends the piece.
pub proof fn lemma_concat_step(parts: Seq<Seq<char>>, i: int)
    requires
        0 <= i < parts.len(),
    ensures
        concat(parts.take(i + 1)) == concat(parts.take(i)) + parts[i],
{
    assert(parts.take(i + 1).drop_last() =~= parts.take(i));
}

/// The contents of the given strings, one for one and in order.
pub open spec fn views(parts: Seq<String>) -> Seq<Seq<char>> {
    Seq::new(parts.len(), |i: int| parts[i]@)
}

/// Assumed of the standard library: `String::push` appends the character to
/// the end of the string and changes nothing before it.
pub assume_specification[ std::string::String::push ](s: &mut std::string::String, c: char)
    ensures
        final(s)@ == old(s)@.push(c),
;

/// The digit character for `d`.
pub fn digit_char(d: u8) -> (c: char)
    ensures
        c == digit(d as nat),
{
    if d == 0 {
        '0'
    } else if d == 1 {
        '1'
    } else if d == 2 {
        '2'
    } else if d == 3 {
        '3'
    } else if d == 4 {
        '4'
    } else if d == 5 {
        '5'
    } else if d == 6 {
        '6'
    } else if d == 7 {
        '7'
    } else if d == 8 {
        '8'
    } else {
        '9'
    }
}

/// Appends the decimal numeral of `n` to `out`.
pub fn push_decimal(out: &mut String, n: u64)
    ensures
        final(out)@ == old(out)@ + decimal(n as nat),
    decreases n,
{
    if n >= 10 {
        push_decimal(out, n / 10);
    }
    let d: u8 = (n % 10) as u8;
    out.push(digit_char(d));
}

/// The strings one after another, with `sep` between neighbours.
pub fn join_strings(parts: &Vec<String>, sep: &str) -> (s: String)
    ensures
        s@ == join(views(parts@), sep@),
{
    let mut s = String::new();
    let ghost texts = views(parts@);
    let mut i: usize = 0;
    while i < parts.len()
        invariant
            i <= parts.len(),
            texts == views(parts@),
            s@ == join(texts.take(i as int), sep@),
        decreases parts.len() - i,
    {
        if i > 0 {
            s.append(sep);
        }
        s.append(parts[i].as_str());
        proof {
            lemma_join_step(texts, sep@, i as int);
        }
        i += 1;
    }
    assert(texts.take(parts.len() as int) =~= texts);
    s
}

/// Appends the strings to `out`, each followed by `end`.
pub fn append_terminated(out: &mut String, parts: &Vec<String>, end: &str)
    ensures
        final(out)@ == old(out)@ + terminated(views(parts@), end@),
{
    let ghost texts = views(parts@);
    let mut i: usize = 0;
    while i < parts.len()
        invariant
            i <= parts.len(),
            texts == views(parts@),
            out@ == old(out)@ + terminated(texts.take(i as int), end@),
        decreases parts.len() - i,
    {
        out.append(parts[i].as_str());
        out.append(end);
        proof {
            lemma_terminated_step(texts, end@, i as int);
        }
        i += 1;
    }
    assert(texts.take(parts.len() as int) =~= texts);
}

} // verus!
