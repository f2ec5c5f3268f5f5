//! Identifiers of new notes.
//!
//! A note created at a given reading of a millisecond clock is identified by
//! that reading, written in decimal.

use vstd::prelude::*;

verus! {

/// The character of a decimal digit; `'0'` for anything that is no digit.
pub open spec fn digit(d: nat) -> char {
    if d == 1 {
        '1'
    } else if d == 2 {
        '2'
    } else if d == 3 {
        '3'
    } else if d == 4 {
        '4'
    } else if d == 5 {
        '5'
    } else if d == 6 {
        '6'
    } else if d == 7 {
        '7'
    } else if d == 8 {
        '8'
    } else if d == 9 {
        '9'
    } else {
        '0'
    }
}

/// `n` in decimal, most significant digit first, without leading zeros.
pub open spec fn decimal(n: nat) -> Seq<char>
    decreases n,
{
    if n < 10 {
        seq![digit(n)]
    } else {
        decimal(n / 10).push(digit(n % 10))
    }
}

/// The one-character text of a decimal digit.
fn digit_text(d: u64) -> (text: &'static str)
    requires
        d < 10,
    ensures
        text@ == seq![digit(d as nat)],
{
    proof {
        reveal_strlit("0");
        reveal_strlit("1");
        reveal_strlit("2");
        reveal_strlit("3");
        reveal_strlit("4");
        reveal_strlit("5");
        reveal_strlit("6");
        reveal_strlit("7");
        reveal_strlit("8");
        reveal_strlit("9");
    }
    if d == 0 {
        "0"
    } else if d == 1 {
        "1"
    } else if d == 2 {
        "2"
    } else if d == 3 {
        "3"
    } else if d == 4 {
        "4"
    } else if d == 5 {
        "5"
    } else if d == 6 {
        "6"
    } else if d == 7 {
        "7"
    } else if d == 8 {
        "8"
    } else {
        "9"
    }
}

/// The identifier of a note created at the clock reading `clock_millis`.
pub fn id_from_clock(clock_millis: u64) -> (id: String)
    ensures
        id@ == decimal(clock_millis as nat),
    decreases clock_millis,
{
    if clock_millis < 10 {
        String::from_str(digit_text(clock_millis))
    } else {
        let mut id = id_from_clock(clock_millis / 10);
        id.append(digit_text(clock_millis % 10));
        id
    }
}

/// A number in decimal has at least one digit, and at least two from ten on.
pub proof fn lemma_decimal_nonempty(n: nat)
    ensures
        decimal(n).len() >= 1,
        n >= 10 ==> decimal(n).len() >= 2,
    decreases n,
{
    if n >= 10 {
        lemma_decimal_nonempty(n / 10);
    }
}

/// Two clock readings that are written alike are the same reading: notes
/// created at different readings get different identifiers.
pub proof fn lemma_decimal_injective(a: nat, b: nat)
    requires
        decimal(a) == decimal(b),
    ensures
        a == b,
    decreases a,
{
    lemma_decimal_nonempty(a);
    lemma_decimal_nonempty(b);
    if a < 10 {
        assert(decimal(b)[0] == digit(b));
    } else {
        let (qa, qb) = (a / 10, b / 10);
        assert(decimal(b).last() == digit(b % 10));
        assert(decimal(a).drop_last() =~= decimal(qa));
        assert(decimal(b).drop_last() =~= decimal(qb));
        lemma_decimal_injective(qa, qb);
    }
}

} // verus!
