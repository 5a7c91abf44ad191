//! Numbers and bytes as text, and back.
use crate::text::{chars_of, char_is_digit, is_digit, text_of};
use vstd::prelude::*;

verus! {

/// The decimal digit of a number below ten.
pub open spec fn digit(d: int) -> char {
    (0x30 + d) as char
}

/// The decimal digits of a number, without leading zeros.
pub open spec fn decimal(n: nat) -> Seq<char>
    decreases n,
{
    if n < 10 {
        seq![digit(n as int)]
    } else {
        decimal(n / 10).push(digit((n % 10) as int))
    }
}

fn decimal_chars(n: u128) -> (r: Vec<char>)
    ensures
        r@ == decimal(n as nat),
    decreases n,
{
    let d: u8 = (n % 10) as u8;
    let c: char = (0x30u8 + d) as char;
    if n < 10 {
        let mut out: Vec<char> = Vec::new();
        out.push(c);
        assert(out@ =~= decimal(n as nat));
        out
    } else {
        let mut out = decimal_chars(n / 10);
        out.push(c);
        out
    }
}

/// Computes [`decimal`].
pub fn decimal_of(n: u128) -> (r: String)
    ensures
        r@ == decimal(n as nat),
{
    text_of(decimal_chars(n))
}

/// The number that a decimal digit stands for.
pub open spec fn digit_value(c: char) -> nat {
    (c as int - 0x30) as nat
}

/// The number that a run of decimal digits stands for.
pub open spec fn value(s: Seq<char>) -> nat
    decreases s.len(),
{
    if s.len() == 0 {
        0
    } else {
        value(s.drop_last()) * 10 + digit_value(s.last())
    }
}

/// Whether a text is a nonempty run of decimal digits.
pub open spec fn is_number(s: Seq<char>) -> bool {
    s.len() > 0 && forall|i: int| 0 <= i < s.len() ==> is_digit(#[trigger] s[i])
}

/// Rendering a number and reading it back gives the number.
pub proof fn lemma_decimal_value(n: nat)
    ensures
        is_number(decimal(n)),
        value(decimal(n)) == n,
        decimal(n).len() > 1 ==> decimal(n)[0] != '0',
        n > 0 ==> decimal(n)[0] != '0',
    decreases n,
{
    reveal_with_fuel(value, 2);
    if n < 10 {
        assert(decimal(n).drop_last() =~= Seq::<char>::empty());
    } else {
        lemma_decimal_value(n / 10);
        assert(decimal(n).drop_last() =~= decimal(n / 10));
    }
}

/// A run of digits without a superfluous leading zero is the rendering of its value.
pub proof fn lemma_value_decimal(s: Seq<char>)
    requires
        is_number(s),
        s.len() > 1 ==> s[0] != '0',
    ensures
        decimal(value(s)) == s,
        s.len() > 1 ==> value(s) >= 10,
        s.len() == 1 && s[0] != '0' ==> value(s) > 0,
    decreases s.len(),
{
    reveal_with_fuel(value, 2);
    let head = s.drop_last();
    let d = digit_value(s.last());
    assert(is_digit(s[s.len() - 1]));
    if s.len() == 1 {
        assert(value(head) == 0);
        assert(s =~= seq![digit(d as int)]);
    } else {
        assert forall|i: int| 0 <= i < head.len() implies is_digit(#[trigger] head[i]) by {
            assert(head[i] == s[i]);
        }
        assert(head[0] == s[0]);
        lemma_value_decimal(head);
        assert(value(head) > 0);
        assert(value(s) / 10 == value(head) && value(s) % 10 == d) by (nonlinear_arith)
            requires
                value(s) == value(head) * 10 + d,
                d < 10,
        ;
        assert(s =~= head.push(digit(d as int)));
    }
}

/// The lower-case hexadecimal digit of a number below sixteen.
pub open spec fn nibble(d: int) -> char {
    if d < 10 {
        (0x30 + d) as char
    } else {
        (0x57 + d) as char
    }
}

/// The two lower-case hexadecimal digits of a byte.
pub open spec fn hex_byte(b: u8) -> Seq<char> {
    seq![nibble(b as int / 16), nibble(b as int % 16)]
}

/// The lower-case hexadecimal digits of a run of bytes.
pub open spec fn hex(bytes: Seq<u8>) -> Seq<char>
    decreases bytes.len(),
{
    if bytes.len() == 0 {
        Seq::empty()
    } else {
        hex(bytes.drop_last()) + hex_byte(bytes.last())
    }
}

fn nibble_of(d: u8) -> (r: char)
    requires
        d < 16,
    ensures
        r == nibble(d as int),
{
    if d < 10 {
        (0x30u8 + d) as char
    } else {
        (0x57u8 + d) as char
    }
}

/// Computes [`hex_byte`].
pub fn hex_byte_of(b: u8) -> (r: String)
    ensures
        r@ == hex_byte(b),
{
    let mut out: Vec<char> = Vec::new();
    out.push(nibble_of(b / 16));
    out.push(nibble_of(b % 16));
    assert(out@ =~= hex_byte(b));
    text_of(out)
}

/// Computes [`hex`].
pub fn hex_of(bytes: &[u8]) -> (r: String)
    ensures
        r@ == hex(bytes@),
{
    let mut out: Vec<char> = Vec::new();
    assert(bytes@.take(0) =~= Seq::<u8>::empty());
    for i in 0..bytes.len()
        invariant
            out@ == hex(bytes@.take(i as int)),
    {
        let ghost before = out@;
        let b: u8 = bytes[i];
        out.push(nibble_of(b / 16));
        out.push(nibble_of(b % 16));
        proof {
            assert(bytes@.take(i + 1).drop_last() =~= bytes@.take(i as int));
            assert(out@ =~= before + hex_byte(b));
        }
    }
    assert(bytes@.take(bytes@.len() as int) =~= bytes@);
    text_of(out)
}

/// Two hexadecimal digits per byte.
pub proof fn lemma_hex_len(bytes: Seq<u8>)
    ensures
        hex(bytes).len() == 2 * bytes.len(),
    decreases bytes.len(),
{
    if bytes.len() > 0 {
        lemma_hex_len(bytes.drop_last());
    }
}

/// The bytes of a 32-bit number, the most significant first.
pub open spec fn be_bytes(n: u32) -> Seq<u8> {
    seq![
        (n / 0x100_0000) as u8,
        (n / 0x1_0000 % 0x100) as u8,
        (n / 0x100 % 0x100) as u8,
        (n % 0x100) as u8,
    ]
}

/// Computes [`be_bytes`].
pub fn be_bytes_of(n: u32) -> (r: Vec<u8>)
    ensures
        r@ == be_bytes(n),
{
    let mut out: Vec<u8> = Vec::new();
    out.push((n / 0x100_0000) as u8);
    out.push((n / 0x1_0000 % 0x100) as u8);
    out.push((n / 0x100 % 0x100) as u8);
    out.push((n % 0x100) as u8);
    assert(out@ =~= be_bytes(n));
    out
}

/// Reads a number below `limit` written as decimal digits, with or without leading zeros and an
/// optional plus sign.
pub open spec fn number_text(s: Seq<char>, limit: nat) -> Option<nat> {
    let digits = if s.len() > 0 && s[0] == '+' {
        s.drop_first()
    } else {
        s
    };
    if is_number(digits) && value(digits) < limit {
        Some(value(digits))
    } else {
        None
    }
}

pub proof fn lemma_value_monotone(s: Seq<char>, n: int)
    requires
        0 <= n <= s.len(),
    ensures
        value(s.take(n)) <= value(s),
    decreases s.len() - n,
{
    if n < s.len() {
        lemma_value_monotone(s, n + 1);
        assert(s.take(n + 1).drop_last() =~= s.take(n));
    } else {
        assert(s.take(n) =~= s);
    }
}

/// Computes [`number_text`].
pub fn parse_number(s: &str, limit: u64) -> (r: Option<u64>)
    requires
        limit <= 0x1_0000_0000_0000,
    ensures
        r matches Some(n) ==> number_text(s@, limit as nat) == Some(n as nat),
        r is None ==> number_text(s@, limit as nat) is None,
{
    let chars = chars_of(s);
    let skip: usize = if chars.len() > 0 && chars[0] == '+' {
        1
    } else {
        0
    };
    let ghost digits = if s@.len() > 0 && s@[0] == '+' {
        s@.drop_first()
    } else {
        s@
    };
    assert(digits =~= s@.skip(skip as int));
    if chars.len() == skip {
        return None;
    }
    let mut n: u64 = 0;
    let mut i: usize = skip;
    while i < chars.len()
        invariant
            chars@ == s@,
            skip <= i <= chars.len(),
            digits == s@.skip(skip as int),
            digits.len() == s@.len() - skip,
            n == value(digits.take(i - skip)),
            limit <= 0x1_0000_0000_0000,
            n <= limit,
            i > skip ==> n < limit,
            skip < chars.len(),
            number_text(s@, limit as nat) == (if is_number(digits) && value(digits) < limit as nat {
                Some(value(digits))
            } else {
                None::<nat>
            }),
            forall|k: int| 0 <= k < i - skip ==> is_digit(#[trigger] digits[k]),
        decreases chars.len() - i,
    {
        let c: char = chars[i];
        assert(digits[i - skip] == c);
        if !char_is_digit(c) {
            return None;
        }
        proof {
            assert(digits.take(i - skip + 1).drop_last() =~= digits.take(i - skip));
            lemma_value_monotone(digits, i - skip + 1);
        }
        let d: u64 = (c as u32 - 0x30) as u64;
        assert(d == digit_value(c));
        n = n * 10 + d;
        assert(n == value(digits.take(i - skip + 1)));
        if n >= limit {
            return None;
        }
        i = i + 1;
    }
    assert(digits.take(i - skip) =~= digits);
    Some(n)
}

/// Whether a character is a lower-case hexadecimal digit.
pub open spec fn is_lower_hex(c: char) -> bool {
    '0' <= c <= '9' || 'a' <= c <= 'f'
}

/// The digits of bytes are lower-case hexadecimal digits.
pub proof fn lemma_hex_is_lower(bytes: Seq<u8>)
    ensures
        forall|i: int| 0 <= i < hex(bytes).len() ==> is_lower_hex(#[trigger] hex(bytes)[i]),
    decreases bytes.len(),
{
    if bytes.len() > 0 {
        lemma_hex_is_lower(bytes.drop_last());
        let head = hex(bytes.drop_last());
        let last = hex_byte(bytes.last());
        assert forall|i: int| 0 <= i < hex(bytes).len() implies is_lower_hex(
            #[trigger] hex(bytes)[i],
        ) by {
            if i < head.len() {
                assert(hex(bytes)[i] == head[i]);
            } else {
                assert(hex(bytes)[i] == last[i - head.len()]);
            }
        }
    }
}

} // verus!
