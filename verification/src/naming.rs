//! The names given to lifetimes that the source left anonymous.
//!
//! A generated identifier is two underscores, the prefix of the pass that
//! made it, and the number of the slot in decimal: `__f0`, `__f1`, ...

use vstd::prelude::*;
use vstd::string::*;

verus! {

/// The identifier of the anonymous lifetime `'_`.
pub open spec fn anonymous_ident() -> Seq<char> {
    seq!['_']
}

/// The character of the decimal digit `d`.
pub open spec fn digit(d: nat) -> char {
    if d == 0 {
        '0'
    } else if d == 1 {
        '1'
    } else if d == 2 {
        '2'
    } else if d == 3 {
        '3'
    } else if d == 4 {
        '4'
    } else if d == 5 {
        '5'
    } else if d == 6 {
        '6'
    } else if d == 7 {
        '7'
    } else if d == 8 {
        '8'
    } else {
        '9'
    }
}

/// The decimal numeral of `n`, without leading zeros.
pub open spec fn decimal(n: nat) -> Seq<char>
    decreases n,
{
    if n < 10 {
        seq![digit(n)]
    } else {
        decimal(n / 10).push(digit(n % 10))
    }
}

/// The identifier generated for slot `index` under `prefix`.
pub open spec fn fresh_ident(prefix: Seq<char>, index: nat) -> Seq<char> {
    seq!['_', '_'] + prefix + decimal(index)
}

/// The naming of a pass: slot `i` receives `fresh_ident(prefix, i)`.
pub open spec fn fresh_idents(prefix: Seq<char>) -> spec_fn(nat) -> Seq<char> {
    |i: nat| fresh_ident(prefix, i)
}

/// The naming that gives every slot the same identifier.
pub open spec fn always(ident: Seq<char>) -> spec_fn(nat) -> Seq<char> {
    |i: nat| ident
}

/// A numeral has at least one digit.
pub proof fn lemma_decimal_nonempty(n: nat)
    ensures
        decimal(n).len() >= 1,
    decreases n,
{
    if n >= 10 {
        lemma_decimal_nonempty(n / 10);
    }
}

/// Different digits have different characters.
pub proof fn lemma_digit_injective(a: nat, b: nat)
    requires
        a < 10,
        b < 10,
        digit(a) == digit(b),
    ensures
        a == b,
{
}

/// Different numbers have different numerals.
pub proof fn lemma_decimal_injective(a: nat, b: nat)
    requires
        decimal(a) == decimal(b),
    ensures
        a == b,
    decreases a,
{
    lemma_decimal_nonempty(a / 10);
    lemma_decimal_nonempty(b / 10);
    if a < 10 && b < 10 {
        assert(decimal(a)[0] == digit(a));
        assert(decimal(b)[0] == digit(b));
        lemma_digit_injective(a, b);
    } else if a >= 10 && b >= 10 {
        let da = decimal(a / 10);
        let db = decimal(b / 10);
        assert(da == decimal(a).drop_last());
        assert(db == decimal(b).drop_last());
        assert(digit(a % 10) == decimal(a).last());
        assert(digit(b % 10) == decimal(b).last());
        lemma_decimal_injective(a / 10, b / 10);
        lemma_digit_injective(a % 10, b % 10);
    } else if a < 10 {
        assert(decimal(a).len() == 1);
        assert(decimal(b).len() == decimal(b / 10).len() + 1);
    } else {
        assert(decimal(b).len() == 1);
        assert(decimal(a).len() == decimal(a / 10).len() + 1);
    }
}

/// Two slots of one pass never receive the same identifier.
pub proof fn lemma_fresh_ident_injective(prefix: Seq<char>, i: nat, j: nat)
    requires
        fresh_ident(prefix, i) == fresh_ident(prefix, j),
    ensures
        i == j,
{
    let head = seq!['_', '_'] + prefix;
    let a = fresh_ident(prefix, i);
    let b = fresh_ident(prefix, j);
    assert(decimal(i) =~= a.subrange(head.len() as int, a.len() as int));
    assert(decimal(j) =~= b.subrange(head.len() as int, b.len() as int));
    assert(a.len() == b.len());
    lemma_decimal_injective(i, j);
}

/// A generated identifier is never the anonymous one.
pub proof fn lemma_fresh_ident_named(prefix: Seq<char>, index: nat)
    ensures
        fresh_ident(prefix, index) != anonymous_ident(),
{
    lemma_decimal_nonempty(index);
    assert(fresh_ident(prefix, index).len() >= 3);
    assert(anonymous_ident().len() == 1);
}

/// The text of one decimal digit.
fn digit_str(d: usize) -> (s: &'static str)
    requires
        d < 10,
    ensures
        s@ == seq![digit(d as nat)],
{
    proof {
        reveal_strlit("0");
        reveal_strlit("1");
        reveal_strlit("2");
        reveal_strlit("3");
        reveal_strlit("4");
        reveal_strlit("5");
        reveal_strlit("6");
        reveal_strlit("7");
        reveal_strlit("8");
        reveal_strlit("9");
    }
    let s = if d == 0 {
        "0"
    } else if d == 1 {
        "1"
    } else if d == 2 {
        "2"
    } else if d == 3 {
        "3"
    } else if d == 4 {
        "4"
    } else if d == 5 {
        "5"
    } else if d == 6 {
        "6"
    } else if d == 7 {
        "7"
    } else if d == 8 {
        "8"
    } else {
        "9"
    };
    assert(s@ =~= seq![digit(d as nat)]);
    s
}

/// Appends the decimal numeral of `n` to `text`.
pub fn push_decimal(text: &mut String, n: usize)
    ensures
        final(text)@ == old(text)@ + decimal(n as nat),
    decreases n,
{
    if n >= 10 {
        push_decimal(text, n / 10);
    }
    text.append(digit_str(n % 10));
    assert(text@ =~= old(text)@ + decimal(n as nat));
}

/// The identifier generated for slot `index` under `prefix`, as text.
pub fn make_fresh_ident(prefix: &str, index: usize) -> (ident: String)
    ensures
        ident@ == fresh_ident(prefix@, index as nat),
{
    proof {
        reveal_strlit("__");
    }
    let mut ident = String::from_str("__");
    ident.append(prefix);
    push_decimal(&mut ident, index);
    assert(ident@ =~= fresh_ident(prefix@, index as nat));
    ident
}

/// Whether `ident` is the identifier of the anonymous lifetime.
pub fn is_anonymous_ident(ident: &str) -> (anonymous: bool)
    ensures
        anonymous == (ident@ == anonymous_ident()),
{
    let anonymous = ident.unicode_len() == 1 && ident.get_char(0) == '_';
    assert(anonymous == (ident@ =~= anonymous_ident()));
    anonymous
}

} // verus!
