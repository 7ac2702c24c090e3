//! Decimal text of integers, the texts of the two truth values, and the
//! comparison of texts byte by byte.

use vstd::prelude::*;
use vstd::string::*;
use vstd::utf8::{
    encode_utf8_decode_utf8,
    is_ascii_chars,
    is_ascii_chars_encode_utf8,
    is_ascii_chars_nat_bound,
};

verus! {

/// The character that writes the digit `d`.
pub open spec fn digit_char(d: int) -> char
    recommends
        0 <= d <= 9,
{
    ((d + 48) as u8) as char
}

/// Whether `c` is one of the ten decimal digits.
pub open spec fn is_digit(c: char) -> bool {
    48 <= c as int <= 57
}

/// The decimal numeral of a natural number, without leading zeros.
pub open spec fn natural_text(n: nat) -> Seq<char>
    decreases n,
{
    if n < 10 {
        seq![digit_char(n as int)]
    } else {
        natural_text(n / 10).push(digit_char((n % 10) as int))
    }
}

/// The decimal numeral of an integer: a minus sign for a negative number, then
/// the numeral of its magnitude.
pub open spec fn integer_text(v: int) -> Seq<char> {
    if v < 0 {
        seq!['-'] + natural_text((-v) as nat)
    } else {
        natural_text(v as nat)
    }
}

/// The number that a sequence of digits writes, leading zeros allowed.
pub open spec fn digits_value(s: Seq<char>) -> int
    decreases s.len(),
{
    if s.len() == 0 {
        0
    } else {
        10 * digits_value(s.drop_last()) + (s.last() as int - 48)
    }
}

/// Whether every character of `s` is a decimal digit.
pub open spec fn all_digits(s: Seq<char>) -> bool {
    forall|i: int| 0 <= i < s.len() ==> is_digit(#[trigger] s[i])
}

/// Whether `s` begins with a plus or a minus sign.
pub open spec fn has_sign(s: Seq<char>) -> bool {
    s.len() > 0 && (s[0] == '-' || s[0] == '+')
}

/// What follows the sign of `s`, or all of `s` where it has none.
pub open spec fn unsigned_part(s: Seq<char>) -> Seq<char> {
    if has_sign(s) {
        s.subrange(1, s.len() as int)
    } else {
        s
    }
}

/// The 32-bit integer that `s` writes: an optional sign, then one digit or
/// more, and a value within the range of the type. `None` for any other text.
pub open spec fn parsed_integer(s: Seq<char>) -> Option<i32> {
    let digits = unsigned_part(s);
    let magnitude = digits_value(digits);
    let v = if s.len() > 0 && s[0] == '-' {
        -magnitude
    } else {
        magnitude
    };
    if digits.len() > 0 && all_digits(digits) && i32::MIN <= v <= i32::MAX {
        Some(v as i32)
    } else {
        None
    }
}

/// The truth value that `s` writes: `true` or `false`, spelled exactly so.
pub open spec fn parsed_boolean(s: Seq<char>) -> Option<bool> {
    if s == seq!['t', 'r', 'u', 'e'] {
        Some(true)
    } else if s == seq!['f', 'a', 'l', 's', 'e'] {
        Some(false)
    } else {
        None
    }
}

/// The text of a truth value.
pub open spec fn boolean_text(b: bool) -> Seq<char> {
    if b {
        seq!['t', 'r', 'u', 'e']
    } else {
        seq!['f', 'a', 'l', 's', 'e']
    }
}

fn digit_text(d: u8) -> (text: &'static str)
    requires
        d <= 9,
    ensures
        text@ == seq![digit_char(d as int)],
{
    proof {
        reveal_strlit("0");
        reveal_strlit("1");
        reveal_strlit("2");
        reveal_strlit("3");
        reveal_strlit("4");
        reveal_strlit("5");
        reveal_strlit("6");
        reveal_strlit("7");
        reveal_strlit("8");
        reveal_strlit("9");
    }
    let text: &'static str = match d {
        0 => "0",
        1 => "1",
        2 => "2",
        3 => "3",
        4 => "4",
        5 => "5",
        6 => "6",
        7 => "7",
        8 => "8",
        _ => "9",
    };
    assert(text@ =~= seq![digit_char(d as int)]);
    text
}

fn natural_to_text(n: u64) -> (text: String)
    ensures
        text@ == natural_text(n as nat),
    decreases n,
{
    if n < 10 {
        digit_text(n as u8).to_owned()
    } else {
        let mut text: String = natural_to_text(n / 10);
        text.append(digit_text((n % 10) as u8));
        text
    }
}

/// Writes `v` in decimal.
pub fn integer_to_text(v: i32) -> (text: String)
    ensures
        text@ == integer_text(v as int),
{
    let wide: i64 = v as i64;
    if wide < 0 {
        proof {
            reveal_strlit("-");
        }
        let mut text: String = "-".to_owned();
        text.append(natural_to_text((-wide) as u64).as_str());
        assert(text@ =~= seq!['-'] + natural_text((-v) as nat));
        text
    } else {
        natural_to_text(wide as u64)
    }
}

/// Writes a truth value as `true` or `false`.
pub fn boolean_to_text(b: bool) -> (text: String)
    ensures
        text@ == boolean_text(b),
{
    proof {
        reveal_strlit("true");
        reveal_strlit("false");
    }
    let text: String = if b {
        "true".to_owned()
    } else {
        "false".to_owned()
    };
    assert(text@ =~= boolean_text(b));
    text
}

/// A text with a character beyond ASCII writes no integer.
proof fn lemma_integer_is_ascii(s: Seq<char>)
    requires
        !is_ascii_chars(s),
    ensures
        parsed_integer(s) is None,
{
    let i = choose|i: int| 0 <= i < s.len() && !('\0' <= #[trigger] s[i] <= '\u{7f}');
    let digits = unsigned_part(s);
    if has_sign(s) {
        assert(i >= 1);
        assert(digits[i - 1] == s[i]);
        assert(!is_digit(digits[i - 1]));
    } else {
        assert(!is_digit(digits[i]));
    }
}

/// One more digit at the end of a numeral.
proof fn lemma_digits_value_push(s: Seq<char>, from: int, to: int)
    requires
        0 <= from <= to < s.len(),
    ensures
        digits_value(s.subrange(from, to + 1)) == 10 * digits_value(s.subrange(from, to)) + (
        s[to] as int - 48),
{
    assert(s.subrange(from, to + 1).drop_last() =~= s.subrange(from, to));
}

/// Reads a 32-bit integer in decimal: an optional sign, then digits only.
pub fn parse_integer(text: &str) -> (parsed: Option<i32>)
    ensures
        parsed == parsed_integer(text@),
{
    if !text.is_ascii() {
        proof {
            lemma_integer_is_ascii(text@);
        }
        return None;
    }
    proof {
        is_ascii_chars_encode_utf8(text@);
        is_ascii_chars_nat_bound(text@);
    }
    let bytes: &[u8] = text.as_bytes();
    let n: usize = bytes.len();
    if n == 0 {
        return None;
    }
    let first: u8 = bytes[0];
    let negative: bool = first == 45;
    let start: usize = if first == 45 || first == 43 {
        1
    } else {
        0
    };
    assert(has_sign(text@) <==> start == 1);
    assert(negative <==> text@[0] == '-');
    assert(unsigned_part(text@) =~= text@.subrange(start as int, n as int));
    let mut magnitude: u64 = 0;
    let mut i: usize = start;
    while i < n
        invariant
            start <= i <= n,
            n == text@.len(),
            is_ascii(text),
            bytes@ == text.spec_bytes(),
            unsigned_part(text@) == text@.subrange(start as int, n as int),
            all_digits(text@.subrange(start as int, i as int)),
            magnitude <= 0x8000_0001,
            magnitude == if digits_value(text@.subrange(start as int, i as int)) < 0x8000_0001 {
                digits_value(text@.subrange(start as int, i as int))
            } else {
                0x8000_0001
            },
        decreases n - i,
    {
        let byte: u8 = bytes[i];
        if byte < 48 || byte > 57 {
            assert(!is_digit(text@.subrange(start as int, n as int)[i - start]));
            return None;
        }
        proof {
            lemma_digits_value_push(text@, start as int, i as int);
            assert forall|j: int| 0 <= j < i + 1 - start implies is_digit(
                #[trigger] text@.subrange(start as int, i + 1)[j],
            ) by {
                if j < i - start {
                    assert(text@.subrange(start as int, i as int)[j] == text@[start + j]);
                }
            }
        }
        let next: u64 = magnitude * 10 + (byte - 48) as u64;
        magnitude = if next < 0x8000_0001 {
            next
        } else {
            0x8000_0001
        };
        i = i + 1;
    }
    if start == n {
        return None;
    }
    if negative {
        if magnitude <= 0x8000_0000 {
            Some((-(magnitude as i64)) as i32)
        } else {
            None
        }
    } else {
        if magnitude <= 0x7FFF_FFFF {
            Some(magnitude as i32)
        } else {
            None
        }
    }
}

/// A text with a character beyond ASCII writes no truth value.
proof fn lemma_boolean_is_ascii(s: Seq<char>)
    requires
        !is_ascii_chars(s),
    ensures
        parsed_boolean(s) is None,
{
}

/// Reads a truth value: `true` or `false`, spelled exactly so.
pub fn parse_boolean(text: &str) -> (parsed: Option<bool>)
    ensures
        parsed == parsed_boolean(text@),
{
    if !text.is_ascii() {
        proof {
            lemma_boolean_is_ascii(text@);
        }
        return None;
    }
    proof {
        is_ascii_chars_encode_utf8(text@);
        is_ascii_chars_nat_bound(text@);
    }
    let bytes: &[u8] = text.as_bytes();
    let n: usize = bytes.len();
    if n == 4 && bytes[0] == 116 && bytes[1] == 114 && bytes[2] == 117 && bytes[3] == 101 {
        assert(text@ =~= seq!['t', 'r', 'u', 'e']);
        Some(true)
    } else if n == 5 && bytes[0] == 102 && bytes[1] == 97 && bytes[2] == 108 && bytes[3] == 115
        && bytes[4] == 101 {
        assert(text@ =~= seq!['f', 'a', 'l', 's', 'e']);
        Some(false)
    } else {
        assert(text@ != seq!['t', 'r', 'u', 'e']) by {
            if text@ == seq!['t', 'r', 'u', 'e'] {
                assert(text@.len() == 4);
                assert(text@[0] == 't' && text@[1] == 'r' && text@[2] == 'u' && text@[3] == 'e');
            }
        }
        assert(text@ != seq!['f', 'a', 'l', 's', 'e']) by {
            if text@ == seq!['f', 'a', 'l', 's', 'e'] {
                assert(text@.len() == 5);
                assert(text@[0] == 'f' && text@[1] == 'a' && text@[2] == 'l' && text@[3] == 's'
                    && text@[4] == 'e');
            }
        }
        None
    }
}

/// The length of the longest beginning that two byte strings share.
pub open spec fn common_prefix(a: Seq<u8>, b: Seq<u8>) -> int
    decreases a.len(),
{
    if a.len() == 0 || b.len() == 0 || a[0] != b[0] {
        0
    } else {
        1 + common_prefix(a.drop_first(), b.drop_first())
    }
}

/// The length of the longest beginning that two byte strings share.
pub fn common_prefix_length(a: &[u8], b: &[u8]) -> (shared: usize)
    ensures
        shared == common_prefix(a@, b@),
        shared <= a@.len(),
        shared <= b@.len(),
{
    let mut i: usize = 0;
    assert(a@.skip(0) =~= a@ && b@.skip(0) =~= b@);
    while i < a.len() && i < b.len() && a[i] == b[i]
        invariant
            i <= a.len(),
            i <= b.len(),
            common_prefix(a@, b@) == i + common_prefix(a@.skip(i as int), b@.skip(i as int)),
        decreases a.len() - i,
    {
        proof {
            assert(a@.skip(i as int).drop_first() =~= a@.skip(i + 1));
            assert(b@.skip(i as int).drop_first() =~= b@.skip(i + 1));
        }
        i = i + 1;
    }
    i
}

/// Whether two texts are the same.
pub fn same_text(a: &str, b: &str) -> (same: bool)
    ensures
        same == (a@ == b@),
{
    let left: &[u8] = a.as_bytes();
    let right: &[u8] = b.as_bytes();
    proof {
        encode_utf8_decode_utf8(a@);
        encode_utf8_decode_utf8(b@);
    }
    if left.len() != right.len() {
        return false;
    }
    let mut i: usize = 0;
    while i < left.len()
        invariant
            i <= left.len(),
            left.len() == right.len(),
            left@ == a.spec_bytes(),
            right@ == b.spec_bytes(),
            forall|j: int| 0 <= j < i ==> left@[j] == right@[j],
        decreases left.len() - i,
    {
        if left[i] != right[i] {
            return false;
        }
        i = i + 1;
    }
    assert(left@ =~= right@);
    true
}

} // verus!
