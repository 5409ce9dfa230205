//! The names of parameters as text.

use crate::reverse::Label;
use vstd::prelude::*;

verus! {

/// The digits of a number, the highest first.
pub open spec fn decimal(n: nat) -> Seq<char>
    decreases n,
{
    if n < 10 {
        seq![(48 + n) as char]
    } else {
        decimal(n / 10).push((48 + n % 10) as char)
    }
}

/// The text of a name.
pub open spec fn label_text(l: Label) -> Seq<char> {
    match l {
        Label::Named(name) => name@,
        Label::Indexed { name, index } => name@ + seq!['['] + decimal(index as nat) + seq![']'],
    }
}

/// The text of a digit.
fn digit(d: u64) -> (s: &'static str)
    requires
        d < 10,
    ensures
        s@ == seq![(48 + d) as char],
{
    proof {
        reveal_strlit("0");
        reveal_strlit("1");
        reveal_strlit("2");
        reveal_strlit("3");
        reveal_strlit("4");
        reveal_strlit("5");
        reveal_strlit("6");
        reveal_strlit("7");
        reveal_strlit("8");
        reveal_strlit("9");
    }
    let s = match d {
        0 => "0",
        1 => "1",
        2 => "2",
        3 => "3",
        4 => "4",
        5 => "5",
        6 => "6",
        7 => "7",
        8 => "8",
        _ => "9",
    };
    assert(s@ =~= seq![(48 + d) as char]);
    s
}

/// Appends the digits of a number.
fn append_decimal(s: &mut String, n: u64)
    ensures
        final(s)@ == old(s)@ + decimal(n as nat),
    decreases n,
{
    let ghost start = s@;
    if n >= 10 {
        append_decimal(s, n / 10);
    }
    s.append(digit(n % 10));
    assert(s@ =~= start + decimal(n as nat));
}

/// A name, then a number in square brackets.
fn bracketed(name: &str, index: u64) -> (s: String)
    ensures
        s@ == name@ + seq!['['] + decimal(index as nat) + seq![']'],
{
    proof {
        reveal_strlit("[");
        reveal_strlit("]");
    }
    let mut s = name.to_owned();
    s.append("[");
    append_decimal(&mut s, index);
    s.append("]");
    assert(s@ =~= name@ + seq!['['] + decimal(index as nat) + seq![']']);
    s
}

impl Label {
    /// The text of the name.
    pub fn text(&self) -> (s: String)
        ensures
            s@ == label_text(*self),
    {
        match *self {
            Label::Named(name) => name.to_owned(),
            Label::Indexed { name, index } => bracketed(name, index),
        }
    }
}

/// Different numbers have different digits.
pub proof fn decimal_determines(a: nat, b: nat)
    requires
        decimal(a) == decimal(b),
    ensures
        a == b,
    decreases a,
{
    let (x, y) = (decimal(a), decimal(b));
    assert(x.last() == (48 + a % 10) as char);
    assert(y.last() == (48 + b % 10) as char);
    decimal_is_not_empty(a / 10);
    decimal_is_not_empty(b / 10);
    if a >= 10 && b >= 10 {
        assert(x.drop_last() =~= decimal(a / 10));
        assert(y.drop_last() =~= decimal(b / 10));
        decimal_determines(a / 10, b / 10);
    }
}

proof fn decimal_is_not_empty(n: nat)
    ensures
        decimal(n).len() > 0,
{
}

} // verus!
