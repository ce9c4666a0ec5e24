//! Decimal rendering of the numeric fields of a measurement row.

use vstd::prelude::*;

verus! {

/// The character that writes the decimal digit `d`.
pub open spec fn digit_char(d: nat) -> char {
    if d == 0 {
        '0'
    } else if d == 1 {
        '1'
    } else if d == 2 {
        '2'
    } else if d == 3 {
        '3'
    } else if d == 4 {
        '4'
    } else if d == 5 {
        '5'
    } else if d == 6 {
        '6'
    } else if d == 7 {
        '7'
    } else if d == 8 {
        '8'
    } else {
        '9'
    }
}

/// The decimal notation of `n`: most significant digit first, no leading
/// zero except for `n == 0` itself.
pub open spec fn dec_seq(n: nat) -> Seq<char>
    decreases n,
{
    if n < 10 {
        seq![digit_char(n)]
    } else {
        dec_seq(n / 10).push(digit_char(n % 10))
    }
}

/// Appends the single decimal digit `d` to `s`.
fn push_digit(s: &mut String, d: u64)
    requires
        d < 10,
    ensures
        final(s)@ == old(s)@ + seq![digit_char(d as nat)],
{
    let digits: &str = "0123456789";
    proof {
        reveal_strlit("0123456789");
    }
    let d_us: usize = d as usize;
    let c = digits.substring_ascii(d_us, d_us + 1);
    assert(c@ =~= seq![digit_char(d as nat)]);
    s.append(c);
}

/// Appends the decimal notation of `n` to `s`.
fn push_decimal(s: &mut String, n: u64)
    ensures
        final(s)@ == old(s)@ + dec_seq(n as nat),
    decreases n,
{
    if n >= 10 {
        push_decimal(s, n / 10);
    }
    push_digit(s, n % 10);
    proof {
        assert(s@ =~= old(s)@ + dec_seq(n as nat));
    }
}

/// Renders `n` in decimal.
pub fn u64_to_string(n: u64) -> (r: String)
    ensures
        r@ == dec_seq(n as nat),
{
    let mut s = String::new();
    push_decimal(&mut s, n);
    proof {
        assert(s@ =~= dec_seq(n as nat));
    }
    s
}

/// The millimetre notation of a length of `um` micrometres: the whole
/// millimetres in decimal, a point, and exactly three fractional digits.
pub open spec fn mm_seq(um: nat) -> Seq<char> {
    dec_seq(um / 1000) + seq![
        '.',
        digit_char((um / 100) % 10),
        digit_char((um / 10) % 10),
        digit_char(um % 10),
    ]
}

/// Renders a length of `um` micrometres in millimetres.
pub fn mm_to_string(um: u64) -> (r: String)
    ensures
        r@ == mm_seq(um as nat),
{
    let mut s = String::new();
    push_decimal(&mut s, um / 1000);
    let point: &str = ".";
    proof {
        reveal_strlit(".");
    }
    s.append(point);
    push_digit(&mut s, (um / 100) % 10);
    push_digit(&mut s, (um / 10) % 10);
    push_digit(&mut s, um % 10);
    proof {
        assert(s@ =~= mm_seq(um as nat));
    }
    s
}

/// Holds when a field may stand in a semicolon-delimited row as it is:
/// it contains no delimiter, no quote, and no line break.
pub open spec fn csv_plain(s: Seq<char>) -> bool {
    forall|i: int|
        0 <= i < s.len() ==> s[i] != ';' && s[i] != '"' && s[i] != '\n' && s[i] != '\r'
}

/// Decimal notation never contains a delimiter, a quote, or a line break.
pub proof fn lemma_dec_seq_plain(n: nat)
    ensures
        csv_plain(dec_seq(n)),
    decreases n,
{
    if n >= 10 {
        lemma_dec_seq_plain(n / 10);
    }
}

/// Millimetre notation never contains a delimiter, a quote, or a line break.
pub proof fn lemma_mm_seq_plain(um: nat)
    ensures
        csv_plain(mm_seq(um)),
{
    lemma_dec_seq_plain(um / 1000);
}

} // verus!
