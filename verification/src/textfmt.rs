//! Decimal text for command arguments.
//!
//! Time offsets and durations are held as whole milliseconds and rendered as
//! seconds with an optional fractional part, exactly as the decode tool
//! expects them (`2500` ms becomes `"2.5"`, `2050` ms becomes `"2.05"`,
//! `2000` ms becomes `"2"`).

use vstd::prelude::*;

verus! {

/// The character for one decimal digit value.
pub open spec fn digit_char(d: int) -> char {
    if d == 0 {
        '0'
    } else if d == 1 {
        '1'
    } else if d == 2 {
        '2'
    } else if d == 3 {
        '3'
    } else if d == 4 {
        '4'
    } else if d == 5 {
        '5'
    } else if d == 6 {
        '6'
    } else if d == 7 {
        '7'
    } else if d == 8 {
        '8'
    } else {
        '9'
    }
}

/// The usual decimal rendering of a natural number, most significant digit
/// first, with no leading zeros (except for zero itself).
pub open spec fn dec_str(n: nat) -> Seq<char>
    decreases n,
{
    if n < 10 {
        seq![digit_char(n as int)]
    } else {
        dec_str(n / 10) + seq![digit_char((n % 10) as int)]
    }
}

/// Milliseconds rendered as seconds: the whole seconds, then, when the
/// millisecond remainder is not zero, a point and the remainder with
/// trailing zeros trimmed.
pub open spec fn ms_text(ms: u64) -> Seq<char> {
    if ms % 1000 == 0 {
        dec_str((ms / 1000) as nat)
    } else {
        dec_str((ms / 1000) as nat) + seq!['.'] + frac_text((ms % 1000) as int)
    }
}

/// The three digits of a millisecond remainder `1 <= f <= 999`, trailing
/// zeros trimmed.
pub open spec fn frac_text(f: int) -> Seq<char> {
    if f % 10 != 0 {
        seq![digit_char(f / 100), digit_char((f / 10) % 10), digit_char(f % 10)]
    } else if (f / 10) % 10 != 0 {
        seq![digit_char(f / 100), digit_char((f / 10) % 10)]
    } else {
        seq![digit_char(f / 100)]
    }
}

/// A one-character string slice for a digit value.
fn digit_literal(d: u64) -> (r: &'static str)
    requires
        d < 10,
    ensures
        r@ =~= seq![digit_char(d as int)],
{
    proof {
        reveal_strlit("0");
        reveal_strlit("1");
        reveal_strlit("2");
        reveal_strlit("3");
        reveal_strlit("4");
        reveal_strlit("5");
        reveal_strlit("6");
        reveal_strlit("7");
        reveal_strlit("8");
        reveal_strlit("9");
    }
    if d == 0 {
        "0"
    } else if d == 1 {
        "1"
    } else if d == 2 {
        "2"
    } else if d == 3 {
        "3"
    } else if d == 4 {
        "4"
    } else if d == 5 {
        "5"
    } else if d == 6 {
        "6"
    } else if d == 7 {
        "7"
    } else if d == 8 {
        "8"
    } else {
        "9"
    }
}

/// Render a number in decimal.
pub fn u64_to_dec(n: u64) -> (r: String)
    ensures
        r@ == dec_str(n as nat),
    decreases n,
{
    if n < 10 {
        digit_literal(n).to_owned()
    } else {
        let mut s = u64_to_dec(n / 10);
        s.append(digit_literal(n % 10));
        s
    }
}

/// Render milliseconds as a seconds argument.
pub fn ms_arg(ms: u64) -> (r: String)
    ensures
        r@ == ms_text(ms),
{
    let secs = ms / 1000;
    let frac = ms % 1000;
    let mut s = u64_to_dec(secs);
    if frac != 0 {
        proof {
            reveal_strlit(".");
        }
        s.append(".");
        let d1 = frac / 100;
        let d2 = (frac / 10) % 10;
        let d3 = frac % 10;
        if d3 != 0 {
            s.append(digit_literal(d1));
            s.append(digit_literal(d2));
            s.append(digit_literal(d3));
        } else if d2 != 0 {
            s.append(digit_literal(d1));
            s.append(digit_literal(d2));
        } else {
            s.append(digit_literal(d1));
        }
        proof {
            assert(s@ =~= ms_text(ms));
        }
    } else {
        proof {
            assert(s@ =~= ms_text(ms));
        }
    }
    s
}

/// The characters of each string in a list.
pub open spec fn strings_view(v: Seq<String>) -> Seq<Seq<char>> {
    v.map_values(|s: String| s@)
}

/// Compare two string slices by their characters.
pub fn str_eq(a: &str, b: &str) -> (r: bool)
    ensures
        r == (a@ == b@),
{
    a.to_owned() == b.to_owned()
}

} // verus!
