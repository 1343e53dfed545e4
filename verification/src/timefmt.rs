//! Rendering a signed duration as `h:mm:ss.nnnnnnnnn` (or `m:ss.nnnnnnnnn`
//! when there are no whole hours), with a leading `-` for negative
//! durations.

use vstd::prelude::*;
use vstd::string::StringExecFns;
use crate::duration::SignedDuration;

verus! {

/// The decimal digit character for `d`.
pub open spec fn digit_char(d: int) -> char {
    if d == 0 {
        '0'
    } else if d == 1 {
        '1'
    } else if d == 2 {
        '2'
    } else if d == 3 {
        '3'
    } else if d == 4 {
        '4'
    } else if d == 5 {
        '5'
    } else if d == 6 {
        '6'
    } else if d == 7 {
        '7'
    } else if d == 8 {
        '8'
    } else {
        '9'
    }
}

/// The decimal digits of `n`, most significant first.
pub open spec fn dec_digits(n: int) -> Seq<char>
    decreases n,
{
    if n < 10 {
        seq![digit_char(n)]
    } else {
        dec_digits(n / 10).push(digit_char(n % 10))
    }
}

/// `s` left-padded with zeros to `width` characters (unchanged if already
/// that long).
pub open spec fn zero_pad(s: Seq<char>, width: int) -> Seq<char> {
    if s.len() >= width {
        s
    } else {
        Seq::new((width - s.len()) as nat, |i: int| '0') + s
    }
}

/// What [`fmt_duration`] renders: sign, hours when non-zero, minutes,
/// seconds and nanoseconds, the latter zero-padded to two and nine digits.
pub open spec fn fmt_duration_spec(d: SignedDuration) -> Seq<char> {
    let neg = d.seconds < 0 || d.nanos < 0;
    let sign: Seq<char> = if neg {
        seq!['-']
    } else {
        Seq::<char>::empty()
    };
    let total: int = if neg {
        -(d.seconds as int)
    } else {
        d.seconds as int
    };
    let ns: int = if neg {
        -(d.nanos as int)
    } else {
        d.nanos as int
    };
    let sec = total % 60;
    let min = (total % 3600) / 60;
    let hr = total / 3600;
    if hr != 0 {
        sign + dec_digits(hr) + seq![':'] + zero_pad(dec_digits(min), 2) + seq![':'] + zero_pad(
            dec_digits(sec),
            2,
        ) + seq!['.'] + zero_pad(dec_digits(ns), 9)
    } else {
        sign + dec_digits(min) + seq![':'] + zero_pad(dec_digits(sec), 2) + seq!['.'] + zero_pad(
            dec_digits(ns),
            9,
        )
    }
}

/// Append the digit character for `d`.
fn push_digit(s: &mut String, d: u64)
    requires
        d < 10,
    ensures
        final(s)@ == old(s)@.push(digit_char(d as int)),
{
    proof {
        reveal_strlit("0");
        reveal_strlit("1");
        reveal_strlit("2");
        reveal_strlit("3");
        reveal_strlit("4");
        reveal_strlit("5");
        reveal_strlit("6");
        reveal_strlit("7");
        reveal_strlit("8");
        reveal_strlit("9");
    }
    if d == 0 {
        s.append("0");
    } else if d == 1 {
        s.append("1");
    } else if d == 2 {
        s.append("2");
    } else if d == 3 {
        s.append("3");
    } else if d == 4 {
        s.append("4");
    } else if d == 5 {
        s.append("5");
    } else if d == 6 {
        s.append("6");
    } else if d == 7 {
        s.append("7");
    } else if d == 8 {
        s.append("8");
    } else {
        s.append("9");
    }
    proof {
        assert(s@ =~= old(s)@.push(digit_char(d as int)));
    }
}

/// Append the decimal digits of `n`, most significant first.
fn push_decimal(s: &mut String, n: u64)
    ensures
        final(s)@ == old(s)@ + dec_digits(n as int),
    decreases n,
{
    if n >= 10 {
        push_decimal(s, n / 10);
    }
    push_digit(s, n % 10);
    proof {
        assert(s@ =~= old(s)@ + dec_digits(n as int));
    }
}

/// Ten to the `k`.
pub open spec fn pow10(k: nat) -> int
    decreases k,
{
    if k == 0 {
        1
    } else {
        10 * pow10((k - 1) as nat)
    }
}

/// A number has at least one digit.
proof fn lemma_dec_len_pos(n: int)
    ensures
        dec_digits(n).len() >= 1,
    decreases n,
{
    if n >= 10 {
        lemma_dec_len_pos(n / 10);
    }
}

/// A number below ten to the `k` has at most `k` digits.
proof fn lemma_dec_len_below(n: int, k: nat)
    requires
        1 <= k,
        0 <= n < pow10(k),
    ensures
        dec_digits(n).len() <= k,
    decreases n,
{
    if n >= 10 {
        assert(pow10(k) == 10 * pow10((k - 1) as nat));
        lemma_dec_len_below(n / 10, (k - 1) as nat);
    }
}

/// How many decimal digits `n` has.
fn count_digits(n: u64) -> (c: u64)
    ensures
        c == dec_digits(n as int).len(),
        1 <= c,
{
    proof {
        reveal_with_fuel(pow10, 21);
        assert(pow10(20) > 0xffffffffffffffffu64);
        lemma_dec_len_below(n as int, 20);
    }
    let mut m = n;
    let mut c: u64 = 1;
    while m >= 10
        invariant
            1 <= c <= 20,
            dec_digits(n as int).len() <= 20,
            c + dec_digits(m as int).len() == 1 + dec_digits(n as int).len(),
        decreases m,
    {
        proof {
            lemma_dec_len_pos(m as int / 10);
        }
        m = m / 10;
        c = c + 1;
    }
    c
}

/// Append the decimal digits of `n`, left-padded with zeros to `width`.
fn push_decimal_padded(s: &mut String, n: u64, width: u64)
    ensures
        final(s)@ == old(s)@ + zero_pad(dec_digits(n as int), width as int),
{
    proof {
        reveal_strlit("0");
    }
    let digits = count_digits(n);
    let mut z: u64 = 0;
    let zeros: u64 = if digits < width {
        width - digits
    } else {
        0
    };
    while z < zeros
        invariant
            0 <= z <= zeros,
            s@ == old(s)@ + Seq::new(z as nat, |i: int| '0'),
        decreases zeros - z,
    {
        s.append("0");
        proof {
            reveal_strlit("0");
            assert("0"@ =~= seq!['0']);
            assert(old(s)@ + Seq::new((z + 1) as nat, |i: int| '0') =~= old(s)@ + Seq::new(
                z as nat,
                |i: int| '0',
            ) + seq!['0']);
        }
        z = z + 1;
    }
    push_decimal(s, n);
    proof {
        assert(s@ =~= old(s)@ + zero_pad(dec_digits(n as int), width as int));
    }
}

/// Append one literal character.
fn push_lit(s: &mut String, lit: &str, Ghost(c): Ghost<char>)
    requires
        lit@ == seq![c],
    ensures
        final(s)@ == old(s)@ + seq![c],
{
    s.append(lit);
}

/// Render a well-formed duration, as [`fmt_duration_spec`] describes.
pub fn fmt_duration(time: SignedDuration) -> (r: String)
    requires
        time.wf(),
    ensures
        r@ == fmt_duration_spec(time),
{
    proof {
        reveal_strlit("-");
        reveal_strlit(":");
        reveal_strlit(".");
        assert(":"@ =~= seq![':']);
        assert("."@ =~= seq!['.']);
    }
    let neg = time.seconds < 0 || time.nanos < 0;
    let total: u64 = if neg {
        (-time.seconds) as u64
    } else {
        time.seconds as u64
    };
    let ns: u64 = if neg {
        (-time.nanos) as u64
    } else {
        time.nanos as u64
    };
    let sec = total % 60;
    let min = (total % 3600) / 60;
    let hr = total / 3600;
    let mut out = String::new();
    if neg {
        proof {
            assert("-"@ =~= seq!['-']);
        }
        out.append("-");
    }
    if hr != 0 {
        push_decimal(&mut out, hr);
        push_lit(&mut out, ":", Ghost(':'));
        push_decimal_padded(&mut out, min, 2);
        push_lit(&mut out, ":", Ghost(':'));
        push_decimal_padded(&mut out, sec, 2);
        push_lit(&mut out, ".", Ghost('.'));
        push_decimal_padded(&mut out, ns, 9);
    } else {
        push_decimal(&mut out, min);
        push_lit(&mut out, ":", Ghost(':'));
        push_decimal_padded(&mut out, sec, 2);
        push_lit(&mut out, ".", Ghost('.'));
        push_decimal_padded(&mut out, ns, 9);
    }
    proof {
        assert(out@ =~= fmt_duration_spec(time));
    }
    out
}

} // verus!
