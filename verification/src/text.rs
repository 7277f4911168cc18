//! Decimal text for the overlay annotations.
//!
//! The overlay prints the raw last values of the two logs: the percentage as
//! the shortest decimal that holds the value exactly, and the power rounded
//! to one decimal place. Both are rendered here from the fixed-point model,
//! digit by digit.

use vstd::prelude::*;

use crate::value::Milli;

verus! {

/// The decimal digit character of `d`, for `0 <= d <= 9`.
pub open spec fn spec_digit_char(d: int) -> char {
    if d == 0 {
        '0'
    } else if d == 1 {
        '1'
    } else if d == 2 {
        '2'
    } else if d == 3 {
        '3'
    } else if d == 4 {
        '4'
    } else if d == 5 {
        '5'
    } else if d == 6 {
        '6'
    } else if d == 7 {
        '7'
    } else if d == 8 {
        '8'
    } else {
        '9'
    }
}

/// The decimal digits of a non-negative number, most significant first.
pub open spec fn spec_u64_chars(n: int) -> Seq<char>
    recommends
        0 <= n,
    decreases n,
{
    if n < 10 {
        seq![spec_digit_char(n)]
    } else {
        spec_u64_chars(n / 10).push(spec_digit_char(n % 10))
    }
}

/// The characters of a fractional part of `f` thousandths, `0 <= f <= 999`:
/// empty for a whole value, otherwise a point and the digits of the
/// fraction with trailing zeros trimmed.
pub open spec fn spec_frac_chars(f: int) -> Seq<char> {
    let d1 = spec_digit_char(f / 100);
    let d2 = spec_digit_char((f / 10) % 10);
    let d3 = spec_digit_char(f % 10);
    if f == 0 {
        Seq::empty()
    } else if f % 10 != 0 {
        seq!['.', d1, d2, d3]
    } else if (f / 10) % 10 != 0 {
        seq!['.', d1, d2]
    } else {
        seq!['.', d1]
    }
}

/// The characters a value of `m` thousandths prints as: an optional minus
/// sign, the whole units, and the trimmed fractional part.
pub open spec fn spec_value_chars(m: int) -> Seq<char> {
    let mag = if m >= 0 {
        m
    } else {
        -m
    };
    let sign: Seq<char> = if m < 0 {
        seq!['-']
    } else {
        Seq::empty()
    };
    sign + spec_u64_chars(mag / 1000) + spec_frac_chars(mag % 1000)
}

/// The characters a value of `m` thousandths prints as to one decimal
/// place, halves away from zero: the sign of the value itself, the whole
/// units of the rounded magnitude, a point, and the tenths digit.
pub open spec fn spec_tenths_chars(m: int) -> Seq<char> {
    let t = if m >= 0 {
        (m + 50) / 100
    } else {
        (-m + 50) / 100
    };
    let sign: Seq<char> = if m < 0 {
        seq!['-']
    } else {
        Seq::empty()
    };
    sign + spec_u64_chars(t / 10) + seq!['.', spec_digit_char(t % 10)]
}

/// The one-character string of the decimal digit `d`.
fn digit_str(d: u64) -> (r: &'static str)
    requires
        d < 10,
    ensures
        r@ == seq![spec_digit_char(d as int)],
{
    let r: &'static str = if d == 0 {
        "0"
    } else if d == 1 {
        "1"
    } else if d == 2 {
        "2"
    } else if d == 3 {
        "3"
    } else if d == 4 {
        "4"
    } else if d == 5 {
        "5"
    } else if d == 6 {
        "6"
    } else if d == 7 {
        "7"
    } else if d == 8 {
        "8"
    } else {
        "9"
    };
    proof {
        reveal_strlit("0");
        reveal_strlit("1");
        reveal_strlit("2");
        reveal_strlit("3");
        reveal_strlit("4");
        reveal_strlit("5");
        reveal_strlit("6");
        reveal_strlit("7");
        reveal_strlit("8");
        reveal_strlit("9");
        assert(r@ =~= seq![spec_digit_char(d as int)]);
    }
    r
}

/// The decimal digits of `n`, most significant first.
pub fn u64_string(n: u64) -> (s: String)
    ensures
        s@ == spec_u64_chars(n as int),
    decreases n,
{
    if n < 10 {
        digit_str(n).to_owned()
    } else {
        let mut s = u64_string(n / 10);
        s.append(digit_str(n % 10));
        proof {
            assert(s@ =~= spec_u64_chars(n as int));
        }
        s
    }
}

/// Prints the value as its shortest exact decimal: optional sign, whole
/// units, and the fractional part with trailing zeros trimmed.
pub fn value_string(v: &Milli) -> (s: String)
    requires
        v.wf(),
    ensures
        s@ == spec_value_chars(v.milli as int),
{
    let neg = v.milli < 0;
    let mag: u64 = if neg {
        (-v.milli) as u64
    } else {
        v.milli as u64
    };
    let mut s: String = if neg {
        proof {
            reveal_strlit("-");
        }
        "-".to_owned()
    } else {
        String::new()
    };
    let ip: u64 = mag / 1000;
    let f: u64 = mag % 1000;
    let ip_str = u64_string(ip);
    s.append(ip_str.as_str());
    if f > 0 {
        proof {
            reveal_strlit(".");
        }
        s.append(".");
        let d1 = digit_str(f / 100);
        let d2 = digit_str((f / 10) % 10);
        let d3 = digit_str(f % 10);
        if f % 10 != 0 {
            s.append(d1);
            s.append(d2);
            s.append(d3);
        } else if (f / 10) % 10 != 0 {
            s.append(d1);
            s.append(d2);
        } else {
            s.append(d1);
        }
    }
    proof {
        assert(s@ =~= spec_value_chars(v.milli as int));
    }
    s
}

/// Prints the value to one decimal place, halves away from zero.
pub fn tenths_string(v: &Milli) -> (s: String)
    requires
        v.wf(),
    ensures
        s@ == spec_tenths_chars(v.milli as int),
{
    let neg = v.milli < 0;
    let mag: u64 = if neg {
        (-v.milli) as u64
    } else {
        v.milli as u64
    };
    let t: u64 = (mag + 50) / 100;
    let mut s: String = if neg {
        proof {
            reveal_strlit("-");
        }
        "-".to_owned()
    } else {
        String::new()
    };
    let ip_str = u64_string(t / 10);
    s.append(ip_str.as_str());
    proof {
        reveal_strlit(".");
    }
    s.append(".");
    s.append(digit_str(t % 10));
    proof {
        assert(s@ =~= spec_tenths_chars(v.milli as int));
    }
    s
}

/// The characters of the battery annotation for a percentage value of `m`
/// thousandths.
pub open spec fn spec_bat_chars(m: int) -> Seq<char> {
    seq!['B', 'A', 'T', ':', ' '] + spec_value_chars(m) + seq!['%']
}

/// The characters of the power annotation for a wattage value of `m`
/// thousandths.
pub open spec fn spec_pwr_chars(m: int) -> Seq<char> {
    seq!['P', 'W', 'R', ':', ' '] + spec_tenths_chars(m) + seq!['W']
}

/// The battery annotation: the exact last percentage value, as read.
pub fn bat_text(v: &Milli) -> (s: String)
    requires
        v.wf(),
    ensures
        s@ == spec_bat_chars(v.milli as int),
{
    proof {
        reveal_strlit("BAT: ");
        reveal_strlit("%");
    }
    let mut s = "BAT: ".to_owned();
    let vs = value_string(v);
    s.append(vs.as_str());
    s.append("%");
    proof {
        assert(s@ =~= spec_bat_chars(v.milli as int));
    }
    s
}

/// The power annotation: the last wattage value to one decimal place.
pub fn pwr_text(v: &Milli) -> (s: String)
    requires
        v.wf(),
    ensures
        s@ == spec_pwr_chars(v.milli as int),
{
    proof {
        reveal_strlit("PWR: ");
        reveal_strlit("W");
    }
    let mut s = "PWR: ".to_owned();
    let vs = tenths_string(v);
    s.append(vs.as_str());
    s.append("W");
    proof {
        assert(s@ =~= spec_pwr_chars(v.milli as int));
    }
    s
}

} // verus!
