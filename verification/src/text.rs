//! Decimal numbers and the wall-clock time as text.

use vstd::prelude::*;
use vstd::string::*;

verus! {

/// The character that writes the digit `d`, for `0 <= d <= 9`.
pub open spec fn digit_char(d: int) -> char {
    if d == 0 {
        '0'
    } else if d == 1 {
        '1'
    } else if d == 2 {
        '2'
    } else if d == 3 {
        '3'
    } else if d == 4 {
        '4'
    } else if d == 5 {
        '5'
    } else if d == 6 {
        '6'
    } else if d == 7 {
        '7'
    } else if d == 8 {
        '8'
    } else {
        '9'
    }
}

/// The decimal digits of `n`, most significant first, without padding.
pub open spec fn decimal_digits(n: nat) -> Seq<char>
    decreases n,
{
    if n < 10 {
        seq![digit_char(n as int)]
    } else {
        decimal_digits(n / 10).push(digit_char((n % 10) as int))
    }
}

/// The decimal text of `n`: a minus sign for negative numbers, then the digits.
pub open spec fn decimal_text(n: int) -> Seq<char> {
    if n < 0 {
        seq!['-'] + decimal_digits((-n) as nat)
    } else {
        decimal_digits(n as nat)
    }
}

/// `n` written with at least two digits, padded with a zero on the left.
pub open spec fn two_digit_text(n: nat) -> Seq<char> {
    if n < 10 {
        seq!['0'] + decimal_digits(n)
    } else {
        decimal_digits(n)
    }
}

/// The wall-clock text `HH:MM` for an hour and a minute.
pub open spec fn clock_text(hour: nat, minute: nat) -> Seq<char> {
    two_digit_text(hour) + seq![':'] + two_digit_text(minute)
}

fn digit_str(d: u64) -> (r: &'static str)
    requires
        d < 10,
    ensures
        r@ == seq![digit_char(d as int)],
{
    proof {
        reveal_strlit("0");
        reveal_strlit("1");
        reveal_strlit("2");
        reveal_strlit("3");
        reveal_strlit("4");
        reveal_strlit("5");
        reveal_strlit("6");
        reveal_strlit("7");
        reveal_strlit("8");
        reveal_strlit("9");
    }
    let r = if d == 0 {
        "0"
    } else if d == 1 {
        "1"
    } else if d == 2 {
        "2"
    } else if d == 3 {
        "3"
    } else if d == 4 {
        "4"
    } else if d == 5 {
        "5"
    } else if d == 6 {
        "6"
    } else if d == 7 {
        "7"
    } else if d == 8 {
        "8"
    } else {
        "9"
    };
    assert(r@ =~= seq![digit_char(d as int)]);
    r
}

/// Writes an unsigned number in decimal.
pub fn unsigned_string(n: u64) -> (r: String)
    ensures
        r@ == decimal_digits(n as nat),
    decreases n,
{
    if n < 10 {
        String::from_str(digit_str(n))
    } else {
        let mut s = unsigned_string(n / 10);
        s.append(digit_str(n % 10));
        assert(s@ =~= decimal_digits((n / 10) as nat).push(digit_char((n % 10) as int)));
        s
    }
}

/// Writes a signed number in decimal, with a leading minus sign when negative.
pub fn decimal_string(n: i64) -> (r: String)
    ensures
        r@ == decimal_text(n as int),
{
    if n < 0 {
        let magnitude: u64 = (-(n + 1)) as u64 + 1;
        proof {
            reveal_strlit("-");
        }
        let digits = unsigned_string(magnitude);
        let r = String::from_str("-").concat(digits.as_str());
        assert(r@ =~= seq!['-'] + decimal_digits((-n) as nat));
        r
    } else {
        unsigned_string(n as u64)
    }
}

/// Writes a number with at least two digits, as a clock shows hours and minutes.
pub fn two_digit_string(n: u32) -> (r: String)
    ensures
        r@ == two_digit_text(n as nat),
{
    let digits = unsigned_string(n as u64);
    if n < 10 {
        proof {
            reveal_strlit("0");
        }
        let r = String::from_str("0").concat(digits.as_str());
        assert(r@ =~= seq!['0'] + decimal_digits(n as nat));
        r
    } else {
        digits
    }
}

/// The local wall-clock time as `HH:MM`, zero-padded and without seconds, for
/// the hour and minute that the caller read from the clock.
pub fn current_clock_time(hour: u32, minute: u32) -> (r: String)
    ensures
        r@ == clock_text(hour as nat, minute as nat),
{
    proof {
        reveal_strlit(":");
    }
    let hh = two_digit_string(hour);
    let mm = two_digit_string(minute);
    let r = hh.concat(":").concat(mm.as_str());
    assert(r@ =~= two_digit_text(hour as nat) + seq![':'] + two_digit_text(minute as nat));
    r
}

} // verus!
