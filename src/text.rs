use vstd::prelude::*;
use vstd::string::StringExecFns;

use crate::token::{Literal, Val};

verus! {

/// The decimal digit for `d`.
pub open spec fn digit_char(d: nat) -> char {
    if d == 0 { '0' }
    else if d == 1 { '1' }
    else if d == 2 { '2' }
    else if d == 3 { '3' }
    else if d == 4 { '4' }
    else if d == 5 { '5' }
    else if d == 6 { '6' }
    else if d == 7 { '7' }
    else if d == 8 { '8' }
    else { '9' }
}

/// The decimal digits of `n`, most significant first, without leading zeros.
pub open spec fn digits(n: nat) -> Seq<char>
    decreases n,
{
    if n < 10 {
        seq![digit_char(n)]
    } else {
        digits(n / 10).push(digit_char(n % 10))
    }
}

/// The decimal form of an integer, with a leading `-` when it is negative.
pub open spec fn int_text(i: int) -> Seq<char> {
    if i < 0 {
        seq!['-'] + digits((-i) as nat)
    } else {
        digits(i as nat)
    }
}

/// How a runtime value is written out.
pub open spec fn val_text(v: Val) -> Seq<char> {
    match v {
        Val::Num(n) => int_text(n),
        Val::Text(s) => s,
        Val::Bool(b) => if b { seq!['t', 'r', 'u', 'e'] } else { seq!['f', 'a', 'l', 's', 'e'] },
        Val::Nil => seq!['n', 'i', 'l'],
    }
}

fn digit_str(d: u64) -> (r: &'static str)
    requires
        d < 10,
    ensures
        r@ == seq![digit_char(d as nat)],
{
    let r = if d == 0 { "0" }
    else if d == 1 { "1" }
    else if d == 2 { "2" }
    else if d == 3 { "3" }
    else if d == 4 { "4" }
    else if d == 5 { "5" }
    else if d == 6 { "6" }
    else if d == 7 { "7" }
    else if d == 8 { "8" }
    else { "9" };
    proof {
        reveal_strlit("0");
        reveal_strlit("1");
        reveal_strlit("2");
        reveal_strlit("3");
        reveal_strlit("4");
        reveal_strlit("5");
        reveal_strlit("6");
        reveal_strlit("7");
        reveal_strlit("8");
        reveal_strlit("9");
    }
    assert(r@ =~= seq![digit_char(d as nat)]);
    r
}

/// Appends the decimal digits of `n` to `out`.
pub fn push_digits(out: &mut String, n: u64)
    ensures
        final(out)@ == old(out)@ + digits(n as nat),
    decreases n,
{
    if n >= 10 {
        push_digits(out, n / 10);
    }
    out.append(digit_str(n % 10));
    assert(out@ =~= old(out)@ + digits(n as nat));
}

/// The decimal form of `n`.
pub fn number_text(n: i64) -> (r: String)
    ensures
        r@ == int_text(n as int),
{
    let mut out = String::new();
    if n < 0 {
        out.append("-");
        let m: u64 = (-(n as i128)) as u64;
        push_digits(&mut out, m);
        proof {
            reveal_strlit("-");
        }
        assert(out@ =~= int_text(n as int));
    } else {
        push_digits(&mut out, n as u64);
        assert(out@ =~= int_text(n as int));
    }
    out
}

impl Literal {
    /// The text that `print` writes for this value.
    pub fn text(&self) -> (r: String)
        ensures
            r@ == val_text(self@),
    {
        match self {
            Literal::Number(n) => number_text(*n),
            Literal::Str(s) => s.clone(),
            Literal::Bool(b) => {
                proof {
                    reveal_strlit("true");
                    reveal_strlit("false");
                }
                if *b { String::from_str("true") } else { String::from_str("false") }
            },
            Literal::Nil => {
                proof {
                    reveal_strlit("nil");
                }
                String::from_str("nil")
            },
        }
    }
}

} // verus!
