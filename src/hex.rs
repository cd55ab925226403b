//! Hex numerals as they appear on the wire, and decimal rendering.

use vstd::prelude::*;

verus! {

pub open spec fn is_hex_digit(c: char) -> bool {
    ('0' <= c && c <= '9') || ('a' <= c && c <= 'f') || ('A' <= c && c <= 'F')
}

pub open spec fn hex_digit_value(c: char) -> nat {
    if '0' <= c && c <= '9' {
        (c as nat - '0' as nat) as nat
    } else if 'a' <= c && c <= 'f' {
        (c as nat - 'a' as nat + 10) as nat
    } else {
        (c as nat - 'A' as nat + 10) as nat
    }
}

/// The value of a string of hex digits, most significant digit first.
pub open spec fn hex_digits_value(s: Seq<char>) -> nat
    decreases s.len(),
{
    if s.len() == 0 {
        0
    } else {
        hex_digits_value(s.drop_last()) * 16 + hex_digit_value(s.last())
    }
}

pub open spec fn all_hex_digits(s: Seq<char>) -> bool {
    forall|i: int| 0 <= i < s.len() ==> is_hex_digit(#[trigger] s[i])
}

/// The number that a `0x`-prefixed hex numeral denotes, when it is one and its
/// value fits in 64 bits.
pub open spec fn prefixed_hex_value(s: Seq<char>) -> Option<u64> {
    let digits = s.skip(2);
    if s.len() > 2 && s[0] == '0' && s[1] == 'x' && all_hex_digits(digits)
        && hex_digits_value(digits) <= u64::MAX {
        Some(hex_digits_value(digits) as u64)
    } else {
        None
    }
}

pub open spec fn decimal_digit(d: nat) -> char {
    if d == 0 { '0' }
    else if d == 1 { '1' }
    else if d == 2 { '2' }
    else if d == 3 { '3' }
    else if d == 4 { '4' }
    else if d == 5 { '5' }
    else if d == 6 { '6' }
    else if d == 7 { '7' }
    else if d == 8 { '8' }
    else { '9' }
}

/// The decimal numeral of `n`, without leading zeros.
pub open spec fn decimal(n: nat) -> Seq<char>
    decreases n,
{
    if n < 10 {
        seq![decimal_digit(n)]
    } else {
        decimal(n / 10).push(decimal_digit(n % 10))
    }
}

/// What the hex-to-decimal display gives: the decimal value of a numeral that
/// parses, else the text unchanged.
pub open spec fn hex_to_decimal_text(s: Seq<char>) -> Seq<char> {
    match prefixed_hex_value(s) {
        Some(v) => decimal(v as nat),
        None => s,
    }
}

proof fn lemma_prefix_value_grows(s: Seq<char>, i: int, j: int)
    requires
        0 <= i <= j <= s.len(),
    ensures
        hex_digits_value(s.subrange(0, i)) <= hex_digits_value(s.subrange(0, j)),
    decreases j - i,
{
    if i < j {
        lemma_prefix_value_grows(s, i, j - 1);
        assert(s.subrange(0, j).drop_last() =~= s.subrange(0, j - 1));
    }
}

fn hex_digit(c: char) -> (r: Option<u64>)
    ensures
        r.is_some() == is_hex_digit(c),
        r matches Some(d) ==> d as nat == hex_digit_value(c) && d < 16,
{
    if '0' <= c && c <= '9' {
        Some(c as u64 - '0' as u64)
    } else if 'a' <= c && c <= 'f' {
        Some(c as u64 - 'a' as u64 + 10)
    } else if 'A' <= c && c <= 'F' {
        Some(c as u64 - 'A' as u64 + 10)
    } else {
        None
    }
}

/// Parses a `0x`-prefixed base-16 numeral. Anything else, and a value that
/// does not fit in 64 bits, gives `None`.
pub fn parse_prefixed_hex(s: &str) -> (r: Option<u64>)
    ensures
        r == prefixed_hex_value(s@),
{
    let n = s.unicode_len();
    if n <= 2 || s.get_char(0) != '0' || s.get_char(1) != 'x' {
        return None;
    }
    let ghost digits = s@.skip(2);
    let mut acc: u64 = 0;
    let mut i: usize = 2;
    while i < n
        invariant
            2 <= i <= n,
            n == s@.len(),
            digits == s@.skip(2),
            forall|j: int| 0 <= j < i - 2 ==> is_hex_digit(#[trigger] digits[j]),
            acc as nat == hex_digits_value(digits.subrange(0, i - 2)),
        decreases n - i,
    {
        let c = s.get_char(i);
        match hex_digit(c) {
            None => {
                assert(!is_hex_digit(digits[i - 2]));
                return None;
            },
            Some(d) => {
                assert(digits.subrange(0, i - 1).drop_last() =~= digits.subrange(0, i - 2));
                if acc > (u64::MAX - d) / 16 {
                    proof {
                        assert(hex_digits_value(digits.subrange(0, i - 1)) > u64::MAX);
                        lemma_prefix_value_grows(digits, i - 1, digits.len() as int);
                        assert(digits.subrange(0, digits.len() as int) =~= digits);
                    }
                    return None;
                }
                acc = acc * 16 + d;
            },
        }
        i = i + 1;
    }
    assert(digits.subrange(0, n - 2) =~= digits);
    Some(acc)
}

fn digit_text(d: u128) -> (r: &'static str)
    requires
        d < 10,
    ensures
        r@ == seq![decimal_digit(d as nat)],
{
    proof {
        reveal_strlit("0");
        reveal_strlit("1");
        reveal_strlit("2");
        reveal_strlit("3");
        reveal_strlit("4");
        reveal_strlit("5");
        reveal_strlit("6");
        reveal_strlit("7");
        reveal_strlit("8");
        reveal_strlit("9");
    }
    if d == 0 { "0" }
    else if d == 1 { "1" }
    else if d == 2 { "2" }
    else if d == 3 { "3" }
    else if d == 4 { "4" }
    else if d == 5 { "5" }
    else if d == 6 { "6" }
    else if d == 7 { "7" }
    else if d == 8 { "8" }
    else { "9" }
}

/// Appends the decimal numeral of `n` to `out`.
pub fn push_decimal(n: u128, out: &mut String)
    ensures
        final(out)@ == old(out)@ + decimal(n as nat),
    decreases n,
{
    if n >= 10 {
        push_decimal(n / 10, out);
    }
    out.append(digit_text(n % 10));
    assert(final(out)@ =~= old(out)@ + decimal(n as nat));
}

/// The decimal numeral of `n`.
pub fn decimal_string(n: u64) -> (r: String)
    ensures
        r@ == decimal(n as nat),
{
    let mut out = String::new();
    push_decimal(n as u128, &mut out);
    assert(out@ =~= decimal(n as nat));
    out
}

/// Renders a `0x`-prefixed hex numeral in decimal; text that is not such a
/// numeral, or does not fit in 64 bits, comes back unchanged.
pub fn hex_to_decimal(hex: &str) -> (r: String)
    ensures
        r@ == hex_to_decimal_text(hex@),
{
    match parse_prefixed_hex(hex) {
        Some(value) => decimal_string(value),
        None => hex.to_string(),
    }
}

} // verus!
