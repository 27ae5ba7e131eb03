//! Verified decimal formatting for the render-ready strings.
//!
//! Uptime percentages are printed with two decimals (`"75.00"`), day
//! descriptions with one decimal and a percent sign (`"40.0%"`), and
//! timestamp fields with zero padding.

use vstd::prelude::*;

verus! {

/// The ASCII digit for a value in `0 .. 10`.
pub open spec fn digit_char(d: int) -> char {
    if d == 0 {
        '0'
    } else if d == 1 {
        '1'
    } else if d == 2 {
        '2'
    } else if d == 3 {
        '3'
    } else if d == 4 {
        '4'
    } else if d == 5 {
        '5'
    } else if d == 6 {
        '6'
    } else if d == 7 {
        '7'
    } else if d == 8 {
        '8'
    } else {
        '9'
    }
}

/// The decimal digits of a non-negative integer, no padding.
pub open spec fn dec_digits(n: int) -> Seq<char>
    recommends
        0 <= n,
    decreases n,
{
    if n < 10 {
        seq![digit_char(n)]
    } else {
        dec_digits(n / 10).push(digit_char(n % 10))
    }
}

/// Two zero-padded decimal digits of a value in `0 .. 100`.
pub open spec fn pad2_digits(n: int) -> Seq<char> {
    seq![digit_char(n / 10), digit_char(n % 10)]
}

/// Four zero-padded decimal digits of a value in `0 .. 10000`.
pub open spec fn pad4_digits(n: int) -> Seq<char> {
    seq![
        digit_char(n / 1000),
        digit_char(n / 100 % 10),
        digit_char(n / 10 % 10),
        digit_char(n % 10),
    ]
}

/// A percentage in hundredths rendered with two decimals: `7500` is `"75.00"`.
pub open spec fn hundredths_str(n: int) -> Seq<char> {
    dec_digits(n / 100) + seq!['.'] + pad2_digits(n % 100)
}

/// A percentage in tenths rendered with one decimal and a percent
/// sign: `400` is `"40.0%"`.
pub open spec fn tenths_percent_str(n: int) -> Seq<char> {
    dec_digits(n / 10) + seq!['.', digit_char(n % 10), '%']
}

fn digit_str(d: u32) -> (s: &'static str)
    requires
        d < 10,
    ensures
        s@ =~= seq![digit_char(d as int)],
{
    proof {
        reveal_strlit("0");
        reveal_strlit("1");
        reveal_strlit("2");
        reveal_strlit("3");
        reveal_strlit("4");
        reveal_strlit("5");
        reveal_strlit("6");
        reveal_strlit("7");
        reveal_strlit("8");
        reveal_strlit("9");
    }
    if d == 0 {
        "0"
    } else if d == 1 {
        "1"
    } else if d == 2 {
        "2"
    } else if d == 3 {
        "3"
    } else if d == 4 {
        "4"
    } else if d == 5 {
        "5"
    } else if d == 6 {
        "6"
    } else if d == 7 {
        "7"
    } else if d == 8 {
        "8"
    } else {
        "9"
    }
}

/// The decimal digits of `n`, no padding.
pub fn u32_dec(n: u32) -> (s: String)
    ensures
        s@ == dec_digits(n as int),
    decreases n,
{
    if n < 10 {
        String::from_str(digit_str(n))
    } else {
        let mut s = u32_dec(n / 10);
        s.append(digit_str(n % 10));
        proof {
            assert(s@ =~= dec_digits(n as int));
        }
        s
    }
}

/// Two zero-padded decimal digits.
pub fn u32_pad2(n: u32) -> (s: String)
    requires
        n < 100,
    ensures
        s@ == pad2_digits(n as int),
{
    let mut s = String::from_str(digit_str(n / 10));
    s.append(digit_str(n % 10));
    proof {
        assert(s@ =~= pad2_digits(n as int));
    }
    s
}

/// Four zero-padded decimal digits.
pub fn u32_pad4(n: u32) -> (s: String)
    requires
        n < 10000,
    ensures
        s@ == pad4_digits(n as int),
{
    let mut s = String::from_str(digit_str(n / 1000));
    s.append(digit_str(n / 100 % 10));
    s.append(digit_str(n / 10 % 10));
    s.append(digit_str(n % 10));
    proof {
        assert(s@ =~= pad4_digits(n as int));
    }
    s
}

/// Renders a percentage held in hundredths with two decimals.
pub fn format_hundredths(n: u32) -> (s: String)
    ensures
        s@ == hundredths_str(n as int),
{
    let mut s = u32_dec(n / 100);
    s.append(".");
    let frac = u32_pad2(n % 100);
    s.append(frac.as_str());
    proof {
        reveal_strlit(".");
        assert(s@ =~= hundredths_str(n as int));
    }
    s
}

/// Renders a percentage held in tenths with one decimal and a percent sign.
pub fn format_tenths_percent(n: u32) -> (s: String)
    ensures
        s@ == tenths_percent_str(n as int),
{
    let mut s = u32_dec(n / 10);
    s.append(".");
    s.append(digit_str(n % 10));
    s.append("%");
    proof {
        reveal_strlit(".");
        reveal_strlit("%");
        assert(s@ =~= tenths_percent_str(n as int));
    }
    s
}

} // verus!
