//! Text: the UTF-8 reading of a payload, and the decimal digits of a number.
use vstd::prelude::*;
use vstd::utf8::{decode_utf8, encode_utf8_decode_utf8, partial_valid_utf8, valid_utf8};
use crate::trusted::str_from_utf8;

verus! {

/// `n` is the length of the longest prefix of `s` that is valid UTF-8.
pub open spec fn is_valid_up_to(s: Seq<u8>, n: int) -> bool {
    &&& partial_valid_utf8(s, n)
    &&& forall|m: int| n < m <= s.len() ==> !partial_valid_utf8(s, m)
}

/// The length of the longest prefix of `s` that is valid UTF-8: the offset of
/// the first byte sequence that is not.
pub open spec fn valid_up_to(s: Seq<u8>) -> int {
    choose|n: int| is_valid_up_to(s, n)
}

/// Among the prefixes of `s` of length `k` or less, one is the longest that
/// is valid UTF-8.
proof fn lemma_longest_valid_prefix(s: Seq<u8>, k: int) -> (n: int)
    requires
        0 <= k <= s.len(),
    ensures
        0 <= n <= k,
        partial_valid_utf8(s, n),
        forall|m: int| n < m <= k ==> !partial_valid_utf8(s, m),
    decreases k,
{
    if partial_valid_utf8(s, k) {
        k
    } else {
        lemma_longest_valid_prefix(s, k - 1)
    }
}

/// Every byte sequence has a longest valid prefix, so `valid_up_to` is its
/// length. Where the whole sequence is not valid, it is shorter than the
/// sequence.
pub proof fn lemma_valid_up_to_exists(s: Seq<u8>)
    ensures
        is_valid_up_to(s, valid_up_to(s)),
        0 <= valid_up_to(s) <= s.len(),
        valid_utf8(s) <==> valid_up_to(s) == s.len(),
{
    let n = lemma_longest_valid_prefix(s, s.len() as int);
    lemma_valid_up_to_unique(s, n, valid_up_to(s));
    assert(s.subrange(0, s.len() as int) == s);
    assert(partial_valid_utf8(s, s.len() as int) == valid_utf8(s));
}

/// Only one length is that of the longest valid prefix.
pub proof fn lemma_valid_up_to_unique(s: Seq<u8>, n: int, m: int)
    requires
        is_valid_up_to(s, n),
        is_valid_up_to(s, m),
    ensures
        n == m,
{
}

/// What a payload reads as: its characters where it is valid UTF-8, else the
/// offset of the first byte sequence that is not.
pub open spec fn utf8_text(s: Seq<u8>) -> Result<Seq<char>, int> {
    if valid_utf8(s) {
        Ok(decode_utf8(s))
    } else {
        Err(valid_up_to(s))
    }
}

/// Reads a payload as UTF-8 text, without copying it.
pub fn decode_text<'a>(bytes: &'a [u8]) -> (r: Result<&'a str, usize>)
    ensures
        match utf8_text(bytes@) {
            Ok(chars) => r matches Ok(text) && text@ == chars,
            Err(offset) => r matches Err(at) && at == offset,
        },
{
    match str_from_utf8(bytes) {
        Ok(text) => {
            proof {
                encode_utf8_decode_utf8(text@);
            }
            Ok(text)
        },
        Err(offset) => Err(offset),
    }
}

/// The character of a decimal digit.
pub open spec fn digit_char(d: nat) -> char {
    if d == 0 {
        '0'
    } else if d == 1 {
        '1'
    } else if d == 2 {
        '2'
    } else if d == 3 {
        '3'
    } else if d == 4 {
        '4'
    } else if d == 5 {
        '5'
    } else if d == 6 {
        '6'
    } else if d == 7 {
        '7'
    } else if d == 8 {
        '8'
    } else {
        '9'
    }
}

/// The decimal digits of `n`, most significant first, without leading zeros.
pub open spec fn decimal_digits(n: nat) -> Seq<char>
    decreases n,
{
    if n < 10 {
        seq![digit_char(n)]
    } else {
        decimal_digits(n / 10).push(digit_char(n % 10))
    }
}

/// The decimal text of `i`: a minus sign where it is negative, then the
/// digits of its magnitude.
pub open spec fn decimal_text(i: int) -> Seq<char> {
    if i < 0 {
        seq!['-'] + decimal_digits((-i) as nat)
    } else {
        decimal_digits(i as nat)
    }
}

/// The one-character string of a decimal digit.
fn digit_str(d: u8) -> (r: &'static str)
    requires
        d < 10,
    ensures
        r@ == seq![digit_char(d as nat)],
{
    proof {
        reveal_strlit("0");
        reveal_strlit("1");
        reveal_strlit("2");
        reveal_strlit("3");
        reveal_strlit("4");
        reveal_strlit("5");
        reveal_strlit("6");
        reveal_strlit("7");
        reveal_strlit("8");
        reveal_strlit("9");
    }
    match d {
        0 => "0",
        1 => "1",
        2 => "2",
        3 => "3",
        4 => "4",
        5 => "5",
        6 => "6",
        7 => "7",
        8 => "8",
        _ => "9",
    }
}

/// Appends the decimal digits of `n` to `out`.
fn push_digits(n: u64, out: &mut String)
    ensures
        final(out)@ == old(out)@ + decimal_digits(n as nat),
    decreases n,
{
    if n >= 10 {
        push_digits(n / 10, out);
    }
    out.append(digit_str((n % 10) as u8));
}

/// Writes a signed 64-bit number in decimal.
pub fn i64_to_string(value: i64) -> (r: String)
    ensures
        r@ == decimal_text(value as int),
{
    let mut out = String::new();
    let wide: i128 = value as i128;
    if wide < 0 {
        proof {
            reveal_strlit("-");
        }
        out.append("-");
        push_digits((-wide) as u64, &mut out);
    } else {
        push_digits(wide as u64, &mut out);
    }
    out
}

} // verus!
