//! Rendering readings as the exact text published to the registry:
//! plain decimal integers, and temperatures as fixed two-decimal strings.

use vstd::prelude::*;

verus! {

/// The decimal digit character for `d`.
pub open spec fn digit_char(d: int) -> char {
    if d == 0 {
        '0'
    } else if d == 1 {
        '1'
    } else if d == 2 {
        '2'
    } else if d == 3 {
        '3'
    } else if d == 4 {
        '4'
    } else if d == 5 {
        '5'
    } else if d == 6 {
        '6'
    } else if d == 7 {
        '7'
    } else if d == 8 {
        '8'
    } else {
        '9'
    }
}

/// The decimal rendering of `n`, without leading zeroes (`0` itself is "0").
pub open spec fn dec_digits(n: int) -> Seq<char>
    recommends
        0 <= n,
    decreases n,
{
    if n < 10 {
        seq![digit_char(n)]
    } else {
        dec_digits(n / 10).push(digit_char(n % 10))
    }
}

/// The two-decimal fixed-point rendering of a count of hundredths, as in
/// `-5 -> "-0.05"` and `513 -> "5.13"`.
pub open spec fn temp_chars(centi: int) -> Seq<char> {
    let a = if centi < 0 {
        -centi
    } else {
        centi
    };
    let sign: Seq<char> = if centi < 0 {
        seq!['-']
    } else {
        Seq::<char>::empty()
    };
    sign + dec_digits(a / 100) + seq!['.'] + seq![digit_char((a / 10) % 10), digit_char(a % 10)]
}

fn digit_str(d: u32) -> (s: &'static str)
    requires
        d < 10,
    ensures
        s@ == seq![digit_char(d as int)],
{
    let s: &'static str = if d == 0 {
        "0"
    } else if d == 1 {
        "1"
    } else if d == 2 {
        "2"
    } else if d == 3 {
        "3"
    } else if d == 4 {
        "4"
    } else if d == 5 {
        "5"
    } else if d == 6 {
        "6"
    } else if d == 7 {
        "7"
    } else if d == 8 {
        "8"
    } else {
        "9"
    };
    proof {
        reveal_strlit("0");
        reveal_strlit("1");
        reveal_strlit("2");
        reveal_strlit("3");
        reveal_strlit("4");
        reveal_strlit("5");
        reveal_strlit("6");
        reveal_strlit("7");
        reveal_strlit("8");
        reveal_strlit("9");
        assert(s@ =~= seq![digit_char(d as int)]);
    }
    s
}

/// Render `n` in decimal, exactly as the registry publish expects an
/// integer-valued property.
pub fn format_integer(n: u32) -> (s: String)
    ensures
        s@ == dec_digits(n as int),
    decreases n,
{
    if n < 10 {
        String::from_str(digit_str(n))
    } else {
        let rest = format_integer(n / 10);
        let s = rest.concat(digit_str(n % 10));
        proof {
            assert(s@ =~= dec_digits(n as int));
        }
        s
    }
}

/// Render a temperature given in hundredths of a degree as a fixed
/// two-decimal string, as in `2185 -> "21.85"` and `-5 -> "-0.05"`.
pub fn format_temperature(centi: i16) -> (s: String)
    ensures
        s@ == temp_chars(centi as int),
{
    proof {
        reveal_strlit("-");
        reveal_strlit(".");
    }
    let a: u32 = if centi < 0 {
        (-(centi as i32)) as u32
    } else {
        centi as u32
    };
    let whole = format_integer(a / 100);
    let tenths = digit_str((a / 10) % 10);
    let hundredths = digit_str(a % 10);
    let mut s = if centi < 0 {
        String::from_str("-")
    } else {
        String::new()
    };
    s.append(whole.as_str());
    s.append(".");
    s.append(tenths);
    s.append(hundredths);
    proof {
        assert(s@ =~= temp_chars(centi as int));
    }
    s
}

} // verus!
