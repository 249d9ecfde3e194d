//! Human-readable byte sizes: one decimal digit and a unit, with integer
//! arithmetic throughout (the tenths digit is rounded to nearest, half
//! away from zero).

use vstd::prelude::*;

verus! {

/// The decimal digit characters.
pub open spec fn spec_digit(d: int) -> char {
    if d == 0 {
        '0'
    } else if d == 1 {
        '1'
    } else if d == 2 {
        '2'
    } else if d == 3 {
        '3'
    } else if d == 4 {
        '4'
    } else if d == 5 {
        '5'
    } else if d == 6 {
        '6'
    } else if d == 7 {
        '7'
    } else if d == 8 {
        '8'
    } else {
        '9'
    }
}

/// The decimal notation of a non-negative number.
pub open spec fn spec_decimal(n: int) -> Seq<char>
    decreases n,
{
    if n < 10 {
        seq![spec_digit(n)]
    } else {
        spec_decimal(n / 10) + seq![spec_digit(n % 10)]
    }
}

/// One decimal digit as text.
fn digit_string(d: u64) -> (r: &'static str)
    requires
        d < 10,
    ensures
        r@ == seq![spec_digit(d as int)],
{
    proof {
        reveal_strlit("0");
        reveal_strlit("1");
        reveal_strlit("2");
        reveal_strlit("3");
        reveal_strlit("4");
        reveal_strlit("5");
        reveal_strlit("6");
        reveal_strlit("7");
        reveal_strlit("8");
        reveal_strlit("9");
    }
    if d == 0 {
        "0"
    } else if d == 1 {
        "1"
    } else if d == 2 {
        "2"
    } else if d == 3 {
        "3"
    } else if d == 4 {
        "4"
    } else if d == 5 {
        "5"
    } else if d == 6 {
        "6"
    } else if d == 7 {
        "7"
    } else if d == 8 {
        "8"
    } else {
        "9"
    }
}

/// The decimal notation of a number, as a string.
pub fn decimal_string(n: u128) -> (r: String)
    ensures
        r@ == spec_decimal(n as int),
    decreases n,
{
    if n < 10 {
        let d = digit_string(n as u64);
        d.to_owned()
    } else {
        let mut s = decimal_string(n / 10);
        let d = digit_string((n % 10) as u64);
        s.append(d);
        s
    }
}

/// The divisor a byte count is scaled by: the largest power of 1024 (up to
/// three) that fits.
pub open spec fn spec_size_divisor(bytes: u64) -> int {
    if bytes >= 1073741824 {
        1073741824
    } else if bytes >= 1048576 {
        1048576
    } else if bytes >= 1024 {
        1024
    } else {
        1
    }
}

/// The unit that goes with the divisor.
pub open spec fn spec_size_unit(bytes: u64) -> Seq<char> {
    if bytes >= 1073741824 {
        "GB"@
    } else if bytes >= 1048576 {
        "MB"@
    } else if bytes >= 1024 {
        "KB"@
    } else {
        "B"@
    }
}

/// A byte count as text: zero is "0 B"; anything else is scaled by the
/// largest fitting power of 1024, written with one rounded decimal digit,
/// a space, and the unit.
pub open spec fn spec_format_size(bytes: u64) -> Seq<char> {
    if bytes == 0 {
        "0 B"@
    } else {
        let div = spec_size_divisor(bytes);
        let tenths = (bytes * 10 + div / 2) / div;
        spec_decimal(tenths / 10) + "."@ + seq![spec_digit(tenths % 10)] + " "@
            + spec_size_unit(bytes)
    }
}

/// Render a byte count for the dashboard.
pub fn format_size(bytes: u64) -> (r: String)
    ensures
        r@ == spec_format_size(bytes),
{
    if bytes == 0 {
        return String::from_str("0 B");
    }
    let div: u64 = if bytes >= 1073741824 {
        1073741824
    } else if bytes >= 1048576 {
        1048576
    } else if bytes >= 1024 {
        1024
    } else {
        1
    };
    let unit: &'static str = if bytes >= 1073741824 {
        "GB"
    } else if bytes >= 1048576 {
        "MB"
    } else if bytes >= 1024 {
        "KB"
    } else {
        "B"
    };
    let tenths: u128 = ((bytes as u128) * 10 + (div as u128) / 2) / (div as u128);
    let whole: u128 = tenths / 10;
    let frac: u64 = (tenths % 10) as u64;
    let mut s = decimal_string(whole);
    s.append(".");
    let d = digit_string(frac);
    s.append(d);
    s.append(" ");
    s.append(unit);
    s
}

} // verus!
