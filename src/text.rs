//! Decimal and `HH:MM:SS` text.

use vstd::prelude::*;
use vstd::arithmetic::div_mod::lemma_fundamental_div_mod_converse;

verus! {

/// The ASCII digit for `d` (meaningful for `d < 10`).
pub open spec fn digit_char(d: nat) -> char {
    seq!['0', '1', '2', '3', '4', '5', '6', '7', '8', '9'][d as int]
}

/// The decimal numeral of `n`, without leading zeros.
pub open spec fn decimal(n: nat) -> Seq<char>
    decreases n,
{
    if n < 10 {
        seq![digit_char(n)]
    } else {
        decimal(n / 10).push(digit_char(n % 10))
    }
}

/// The decimal numeral of `n`, zero-padded to at least two digits.
pub open spec fn pad2(n: nat) -> Seq<char> {
    if n < 10 {
        seq!['0', digit_char(n)]
    } else {
        decimal(n)
    }
}

/// `HH:MM:SS` for the three fields, each padded to two digits.
pub open spec fn hms_text(h: nat, m: nat, s: nat) -> Seq<char> {
    pad2(h) + seq![':'] + pad2(m) + seq![':'] + pad2(s)
}

/// A number of seconds as hours, minutes and seconds; the hours are unbounded.
pub open spec fn format_hms(t: nat) -> Seq<char> {
    hms_text(t / 3600, (t / 60) % 60, t % 60)
}

/// Seconds written as `h` hours, `m` minutes and `sec` seconds, with minutes
/// and seconds below 60, are shown as those three fields, each padded to two
/// digits.
pub proof fn lemma_format_hms_fields(h: nat, m: nat, sec: nat)
    requires
        m < 60,
        sec < 60,
    ensures
        format_hms(h * 3600 + m * 60 + sec) == hms_text(h, m, sec),
{
    let t = h * 3600 + m * 60 + sec;
    assert(m * 60 + sec < 3600) by (nonlinear_arith)
        requires
            m < 60,
            sec < 60,
    ;
    assert(t == (h * 60 + m) * 60 + sec) by (nonlinear_arith)
        requires
            t == h * 3600 + m * 60 + sec,
    ;
    lemma_fundamental_div_mod_converse(t as int, 3600, h as int, (m * 60 + sec) as int);
    lemma_fundamental_div_mod_converse(t as int, 60, (h * 60 + m) as int, sec as int);
    lemma_fundamental_div_mod_converse((h * 60 + m) as int, 60, h as int, m as int);
}

fn digit_str(d: u64) -> (r: &'static str)
    requires
        d < 10,
    ensures
        r@ == seq![digit_char(d as nat)],
{
    proof {
        reveal_strlit("0");
        reveal_strlit("1");
        reveal_strlit("2");
        reveal_strlit("3");
        reveal_strlit("4");
        reveal_strlit("5");
        reveal_strlit("6");
        reveal_strlit("7");
        reveal_strlit("8");
        reveal_strlit("9");
    }
    match d {
        0 => "0",
        1 => "1",
        2 => "2",
        3 => "3",
        4 => "4",
        5 => "5",
        6 => "6",
        7 => "7",
        8 => "8",
        _ => "9",
    }
}

/// Appends the decimal numeral of `n` to `out`.
fn push_decimal(out: &mut String, n: u64)
    ensures
        final(out)@ == old(out)@ + decimal(n as nat),
    decreases n,
{
    if n >= 10 {
        push_decimal(out, n / 10);
    }
    out.append(digit_str(n % 10));
    proof {
        if n >= 10 {
            assert(old(out)@ + decimal(n as nat) =~= old(out)@ + decimal((n / 10) as nat)
                + seq![digit_char((n % 10) as nat)]);
        } else {
            assert(n % 10 == n);
        }
    }
}

/// Appends `n` zero-padded to two digits.
fn push_pad2(out: &mut String, n: u64)
    ensures
        final(out)@ == old(out)@ + pad2(n as nat),
{
    if n < 10 {
        out.append(digit_str(0));
        out.append(digit_str(n));
        assert(final(out)@ =~= old(out)@ + pad2(n as nat));
    } else {
        push_decimal(out, n);
    }
}

/// `HH:MM:SS` text for the given fields.
fn push_hms(out: &mut String, h: u64, m: u64, s: u64)
    ensures
        final(out)@ == old(out)@ + hms_text(h as nat, m as nat, s as nat),
{
    proof {
        reveal_strlit(":");
    }
    push_pad2(out, h);
    out.append(":");
    push_pad2(out, m);
    out.append(":");
    push_pad2(out, s);
    assert(final(out)@ =~= old(out)@ + hms_text(h as nat, m as nat, s as nat));
}

/// Formats a wall-clock reading as `HH:MM:SS`.
pub fn format_clock(h: u32, m: u32, s: u32) -> (r: String)
    ensures
        r@ == hms_text(h as nat, m as nat, s as nat),
{
    let mut out = String::new();
    push_hms(&mut out, h as u64, m as u64, s as u64);
    assert(out@ =~= hms_text(h as nat, m as nat, s as nat));
    out
}

/// Formats a number of seconds as `HH:MM:SS`.
pub(crate) fn format_seconds(out: &mut String, t: u64)
    ensures
        final(out)@ == old(out)@ + format_hms(t as nat),
{
    push_hms(out, t / 3600, (t / 60) % 60, t % 60);
}

} // verus!
