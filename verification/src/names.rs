//! Variable names: a stack slot is named after its depth, a local after its
//! slot index, both in decimal.

use vstd::prelude::*;
use vstd::string::*;

verus! {

/// The character of a decimal digit.
pub open spec fn digit_char(d: int) -> char {
    if d == 0 {
        '0'
    } else if d == 1 {
        '1'
    } else if d == 2 {
        '2'
    } else if d == 3 {
        '3'
    } else if d == 4 {
        '4'
    } else if d == 5 {
        '5'
    } else if d == 6 {
        '6'
    } else if d == 7 {
        '7'
    } else if d == 8 {
        '8'
    } else {
        '9'
    }
}

/// Decimal digits of a natural number, most significant first, without
/// leading zeros.
pub open spec fn decimal(n: nat) -> Seq<char>
    decreases n,
{
    if n < 10 {
        seq![digit_char(n as int)]
    } else {
        decimal(n / 10).push(digit_char((n % 10) as int))
    }
}

/// Decimal form of an integer, with a minus sign when negative.
pub open spec fn signed_decimal(i: int) -> Seq<char> {
    if i < 0 {
        seq!['-'] + decimal((-i) as nat)
    } else {
        decimal(i as nat)
    }
}

/// Name of the stack slot at depth `i`: `stack_` and `i` in decimal.
pub open spec fn stack_name(i: int) -> Seq<char> {
    seq!['s', 't', 'a', 'c', 'k', '_'] + signed_decimal(i)
}

/// Name of the local variable in slot `i`: `local_` and `i` in decimal.
pub open spec fn local_name(i: nat) -> Seq<char> {
    seq!['l', 'o', 'c', 'a', 'l', '_'] + decimal(i)
}

fn digit_str(d: usize) -> (s: &'static str)
    requires
        d < 10,
    ensures
        s@ == seq![digit_char(d as int)],
{
    proof {
        reveal_strlit("0");
        reveal_strlit("1");
        reveal_strlit("2");
        reveal_strlit("3");
        reveal_strlit("4");
        reveal_strlit("5");
        reveal_strlit("6");
        reveal_strlit("7");
        reveal_strlit("8");
        reveal_strlit("9");
    }
    let s = if d == 0 {
        "0"
    } else if d == 1 {
        "1"
    } else if d == 2 {
        "2"
    } else if d == 3 {
        "3"
    } else if d == 4 {
        "4"
    } else if d == 5 {
        "5"
    } else if d == 6 {
        "6"
    } else if d == 7 {
        "7"
    } else if d == 8 {
        "8"
    } else {
        "9"
    };
    assert(s@ =~= seq![digit_char(d as int)]);
    s
}

fn append_decimal(s: &mut String, n: usize)
    ensures
        final(s)@ == old(s)@ + decimal(n as nat),
    decreases n,
{
    if n >= 10 {
        append_decimal(s, n / 10);
    }
    s.append(digit_str(n % 10));
    assert(s@ =~= old(s)@ + decimal(n as nat));
}

/// The name of the stack slot at depth `i`.
pub fn stack(i: isize) -> (name: String)
    ensures
        name@ == stack_name(i as int),
{
    proof {
        reveal_strlit("stack_");
        reveal_strlit("-");
    }
    let mut name = String::from_str("stack_");
    assert(name@ =~= seq!['s', 't', 'a', 'c', 'k', '_']);
    if i < 0 {
        name.append("-");
        let magnitude: usize = (-(i + 1)) as usize + 1;
        append_decimal(&mut name, magnitude);
    } else {
        append_decimal(&mut name, i as usize);
    }
    assert(name@ =~= stack_name(i as int));
    name
}

/// The name of the local variable in slot `i`.
pub fn local(i: usize) -> (name: String)
    ensures
        name@ == local_name(i as nat),
{
    proof {
        reveal_strlit("local_");
    }
    let mut name = String::from_str("local_");
    assert(name@ =~= seq!['l', 'o', 'c', 'a', 'l', '_']);
    append_decimal(&mut name, i);
    name
}

} // verus!
