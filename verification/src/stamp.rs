//! The creation time of a conference as text: `YYYY-MM-DD HH:MM`, the form in
//! which the list compares and shows it.
use vstd::prelude::*;
use vstd::string::StringExecFns;

verus! {

broadcast use vstd::string::group_string_axioms;

/// The character of the decimal digit `d` (0 to 9).
pub open spec fn digit_char(d: nat) -> char {
    if d == 0 {
        '0'
    } else if d == 1 {
        '1'
    } else if d == 2 {
        '2'
    } else if d == 3 {
        '3'
    } else if d == 4 {
        '4'
    } else if d == 5 {
        '5'
    } else if d == 6 {
        '6'
    } else if d == 7 {
        '7'
    } else if d == 8 {
        '8'
    } else {
        '9'
    }
}

/// `n` written in decimal, without leading zeros (`0` is written `0`).
pub open spec fn decimal(n: nat) -> Seq<char>
    decreases n,
{
    if n < 10 {
        seq![digit_char(n)]
    } else {
        decimal(n / 10).push(digit_char(n % 10))
    }
}

/// `k` zeros.
pub open spec fn zeros(k: nat) -> Seq<char> {
    Seq::new(k, |i: int| '0')
}

/// `n` in decimal, with zeros in front up to `width` digits.
pub open spec fn padded(n: nat, width: nat) -> Seq<char> {
    let d = decimal(n);
    if d.len() < width {
        zeros((width - d.len()) as nat) + d
    } else {
        d
    }
}

/// The year as `%Y` writes it: four digits, zero padded, for years 0 to 9999;
/// other years with a sign (`+` or `-`) in front of their magnitude, itself
/// zero padded to four digits.
pub open spec fn year_text(year: int) -> Seq<char> {
    if 0 <= year <= 9999 {
        padded(year as nat, 4)
    } else if year < 0 {
        seq!['-'] + padded((-year) as nat, 4)
    } else {
        seq!['+'] + padded(year as nat, 4)
    }
}

/// The time as `YYYY-MM-DD HH:MM` (the format `%Y-%m-%d %H:%M`).
pub open spec fn timestamp_text(year: int, month: nat, day: nat, hour: nat, minute: nat) -> Seq<char> {
    year_text(year) + seq!['-'] + padded(month, 2) + seq!['-'] + padded(day, 2) + seq![' ']
        + padded(hour, 2) + seq![':'] + padded(minute, 2)
}

/// Appends the digit `d`.
fn push_digit(out: &mut String, d: u32)
    requires
        d < 10,
    ensures
        final(out)@ == old(out)@.push(digit_char(d as nat)),
{
    let s: &str = if d == 0 {
        "0"
    } else if d == 1 {
        "1"
    } else if d == 2 {
        "2"
    } else if d == 3 {
        "3"
    } else if d == 4 {
        "4"
    } else if d == 5 {
        "5"
    } else if d == 6 {
        "6"
    } else if d == 7 {
        "7"
    } else if d == 8 {
        "8"
    } else {
        "9"
    };
    proof {
        reveal_strlit("0");
        reveal_strlit("1");
        reveal_strlit("2");
        reveal_strlit("3");
        reveal_strlit("4");
        reveal_strlit("5");
        reveal_strlit("6");
        reveal_strlit("7");
        reveal_strlit("8");
        reveal_strlit("9");
    }
    assert(s@ =~= seq![digit_char(d as nat)]);
    out.append(s);
}

/// Appends `n` in decimal.
fn push_decimal(out: &mut String, n: u32)
    ensures
        final(out)@ == old(out)@ + decimal(n as nat),
    decreases n,
{
    if n >= 10 {
        push_decimal(out, n / 10);
    }
    push_digit(out, n % 10);
    proof {
        if n >= 10 {
            assert(old(out)@ + decimal((n / 10) as nat) + seq![digit_char((n % 10) as nat)]
                =~= old(out)@ + decimal(n as nat));
        } else {
            assert(old(out)@.push(digit_char(n as nat)) =~= old(out)@ + decimal(n as nat));
        }
    }
}

/// The number of decimal digits of `n`.
fn decimal_len(n: u32) -> (len: usize)
    ensures
        len == decimal(n as nat).len(),
        len <= 1 + n / 10,
    decreases n,
{
    if n >= 10 {
        decimal_len(n / 10) + 1
    } else {
        1
    }
}

/// Appends `n` in decimal, with zeros in front up to `width` digits.
fn push_padded(out: &mut String, n: u32, width: usize)
    ensures
        final(out)@ == old(out)@ + padded(n as nat, width as nat),
{
    let len = decimal_len(n);
    let ghost start = out@;
    if len < width {
        let mut k: usize = 0;
        while k < width - len
            invariant
                len < width,
                k <= width - len,
                out@ == start + zeros(k as nat),
            decreases width - len - k,
        {
            push_digit(out, 0);
            assert(zeros(k as nat).push('0') =~= zeros((k + 1) as nat));
            k = k + 1;
        }
    }
    push_decimal(out, n);
    proof {
        if len >= width {
            assert(start + zeros(0) =~= start);
        }
        assert(start + zeros((width - len) as nat) + decimal(n as nat) =~= start + (zeros(
            (width - len) as nat,
        ) + decimal(n as nat)));
    }
}

/// The time as `YYYY-MM-DD HH:MM`.
pub fn format_timestamp(year: i32, month: u32, day: u32, hour: u32, minute: u32) -> (s: String)
    ensures
        s@ == timestamp_text(year as int, month as nat, day as nat, hour as nat, minute as nat),
{
    let mut s = String::new();
    proof {
        reveal_strlit("-");
        reveal_strlit("+");
        reveal_strlit(" ");
        reveal_strlit(":");
    }
    if 0 <= year && year <= 9999 {
        push_padded(&mut s, year as u32, 4);
    } else if year < 0 {
        s.append("-");
        let magnitude: u32 = (-(year as i64)) as u32;
        push_padded(&mut s, magnitude, 4);
    } else {
        s.append("+");
        push_padded(&mut s, year as u32, 4);
    }
    assert(s@ =~= year_text(year as int));
    s.append("-");
    push_padded(&mut s, month, 2);
    s.append("-");
    push_padded(&mut s, day, 2);
    s.append(" ");
    push_padded(&mut s, hour, 2);
    s.append(":");
    push_padded(&mut s, minute, 2);
    assert(s@ =~= timestamp_text(year as int, month as nat, day as nat, hour as nat, minute as nat));
    s
}

} // verus!
