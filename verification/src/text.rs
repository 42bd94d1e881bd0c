//! Text that the flows put together: decimal numbers and joined strings.
use vstd::prelude::*;

verus! {

/// The character of a decimal digit.
pub open spec fn decimal_digit(d: nat) -> char {
    if d == 0 {
        '0'
    } else if d == 1 {
        '1'
    } else if d == 2 {
        '2'
    } else if d == 3 {
        '3'
    } else if d == 4 {
        '4'
    } else if d == 5 {
        '5'
    } else if d == 6 {
        '6'
    } else if d == 7 {
        '7'
    } else if d == 8 {
        '8'
    } else {
        '9'
    }
}

/// The decimal text of a number, without leading zeros.
pub open spec fn decimal(n: nat) -> Seq<char>
    decreases n,
{
    if n < 10 {
        seq![decimal_digit(n)]
    } else {
        decimal(n / 10).push(decimal_digit(n % 10))
    }
}

fn digit_text(d: u64) -> (text: String)
    requires
        d < 10,
    ensures
        text@ == seq![decimal_digit(d as nat)],
{
    proof {
        reveal_strlit("0");
        reveal_strlit("1");
        reveal_strlit("2");
        reveal_strlit("3");
        reveal_strlit("4");
        reveal_strlit("5");
        reveal_strlit("6");
        reveal_strlit("7");
        reveal_strlit("8");
        reveal_strlit("9");
    }
    let digit = match d {
        0 => "0",
        1 => "1",
        2 => "2",
        3 => "3",
        4 => "4",
        5 => "5",
        6 => "6",
        7 => "7",
        8 => "8",
        _ => "9",
    };
    let text = digit.to_owned();
    assert(text@ =~= seq![decimal_digit(d as nat)]);
    text
}

/// Writes a number in decimal.
pub fn decimal_text(n: u64) -> (text: String)
    ensures
        text@ == decimal(n as nat),
    decreases n,
{
    if n < 10 {
        digit_text(n)
    } else {
        let last = digit_text(n % 10);
        let text = decimal_text(n / 10).concat(last.as_str());
        assert(text@ =~= decimal(n as nat));
        text
    }
}

/// Joins two pieces of text.
pub fn joined(first: &str, second: &str) -> (text: String)
    ensures
        text@ == first@ + second@,
{
    first.to_owned().concat(second)
}

/// Puts a piece of text between two others.
pub fn enclosed(first: &str, middle: &str, last: &str) -> (text: String)
    ensures
        text@ == first@ + middle@ + last@,
{
    joined(first, middle).concat(last)
}

/// The decimal text tells the number: no two numbers are written alike, a digit stands for itself, and every number has
/// as many digits as it needs.
pub proof fn law_decimal_tells_the_number(a: nat, b: nat)
    ensures
        decimal(a) == decimal(b) ==> a == b,
        decimal(a).len() > 0,
        a < 10 ==> decimal(a).len() == 1 && decimal(a)[0] as int == '0' as int + a,
        decimal(10 * a + b % 10) == if a == 0 {
            decimal(b % 10)
        } else {
            decimal(a) + decimal(b % 10)
        },
    decreases a,
{
    assert((10 * a + b % 10) / 10 == a && (10 * a + b % 10) % 10 == b % 10) by (nonlinear_arith);
    if a > 0 {
        assert(decimal(10 * a + b % 10) =~= decimal(a) + decimal(b % 10));
    }
    if a >= 10 {
        law_decimal_tells_the_number(a / 10, b / 10);
    }
    if decimal(a) == decimal(b) {
        assert(decimal(a).last() == decimal(b).last());
        if a >= 10 && b >= 10 {
            assert(decimal(a).drop_last() =~= decimal(a / 10));
            assert(decimal(b).drop_last() =~= decimal(b / 10));
        } else if a < 10 && b >= 10 {
            lemma_decimal_has_digits(b / 10);
        }
    }
}

proof fn lemma_decimal_has_digits(n: nat)
    ensures
        decimal(n).len() > 0,
{
}

} // verus!
