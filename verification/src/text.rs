//! Numbers written out in decimal, for the messages that name an id.

use vstd::prelude::*;
use vstd::string::StringExecFns;

verus! {

/// The character of a digit below ten.
pub open spec fn digit_char(d: nat) -> char {
    if d == 0 {
        '0'
    } else if d == 1 {
        '1'
    } else if d == 2 {
        '2'
    } else if d == 3 {
        '3'
    } else if d == 4 {
        '4'
    } else if d == 5 {
        '5'
    } else if d == 6 {
        '6'
    } else if d == 7 {
        '7'
    } else if d == 8 {
        '8'
    } else {
        '9'
    }
}

/// The decimal digits of a natural number, without leading zeros.
pub open spec fn digits(n: nat) -> Seq<char>
    decreases n,
{
    if n < 10 {
        seq![digit_char(n)]
    } else {
        digits(n / 10).push(digit_char(n % 10))
    }
}

/// An integer written in decimal, with a minus sign where it is negative.
pub open spec fn decimal(n: int) -> Seq<char> {
    if n < 0 {
        seq!['-'] + digits((-n) as nat)
    } else {
        digits(n as nat)
    }
}

/// The text of one digit.
fn digit_text(d: u64) -> (text: &'static str)
    requires
        d < 10,
    ensures
        text@ == seq![digit_char(d as nat)],
{
    proof {
        reveal_strlit("0");
        reveal_strlit("1");
        reveal_strlit("2");
        reveal_strlit("3");
        reveal_strlit("4");
        reveal_strlit("5");
        reveal_strlit("6");
        reveal_strlit("7");
        reveal_strlit("8");
        reveal_strlit("9");
    }
    let text = if d == 0 {
        "0"
    } else if d == 1 {
        "1"
    } else if d == 2 {
        "2"
    } else if d == 3 {
        "3"
    } else if d == 4 {
        "4"
    } else if d == 5 {
        "5"
    } else if d == 6 {
        "6"
    } else if d == 7 {
        "7"
    } else if d == 8 {
        "8"
    } else {
        "9"
    };
    assert(text@ =~= seq![digit_char(d as nat)]);
    text
}

/// The decimal digits of `n`.
fn digits_text(n: u64) -> (text: String)
    ensures
        text@ == digits(n as nat),
{
    let mut text = String::from_str(digit_text(n % 10));
    let mut rest: u64 = n / 10;
    proof {
        if n < 10 {
            assert(text@ =~= digits(n as nat));
        } else {
            assert(digits(n as nat) =~= digits(rest as nat) + text@);
        }
    }
    while rest > 0
        invariant
            rest > 0 ==> digits(n as nat) == digits(rest as nat) + text@,
            rest == 0 ==> digits(n as nat) == text@,
        decreases rest,
    {
        let ghost before = text@;
        let ghost whole = rest;
        text = String::from_str(digit_text(rest % 10)).concat(text.as_str());
        rest = rest / 10;
        proof {
            let d = seq![digit_char((whole % 10) as nat)];
            assert(text@ == d + before);
            if rest > 0 {
                assert(digits(whole as nat) == digits(rest as nat).push(
                    digit_char((whole % 10) as nat),
                ));
                assert(digits(whole as nat) + before =~= digits(rest as nat) + text@);
            } else {
                assert(digits(whole as nat) == d);
                assert(digits(whole as nat) + before =~= text@);
            }
        }
    }
    text
}

/// The id written in decimal.
pub fn decimal_text(n: i32) -> (text: String)
    ensures
        text@ == decimal(n as int),
{
    if n < 0 {
        let size: u64 = (-(n as i64)) as u64;
        let text = String::from_str("-").concat(digits_text(size).as_str());
        proof {
            reveal_strlit("-");
            assert(text@ =~= decimal(n as int));
        }
        text
    } else {
        digits_text(n as u64)
    }
}

} // verus!
