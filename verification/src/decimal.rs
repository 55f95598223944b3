//! Whole numbers written in decimal digits: how one is written, and which
//! number a text stands for.

use vstd::prelude::*;
use vstd::string::*;
use vstd::utf8::is_ascii_chars;

verus! {

/// The character that stands for the digit `d`.
pub open spec fn digit_char(d: int) -> char {
    ('0' as int + d) as char
}

/// Whether `c` is one of the digits `0` to `9`.
pub open spec fn is_digit(c: char) -> bool {
    '0' <= c <= '9'
}

/// The digit that `c` stands for.
pub open spec fn digit_value(c: char) -> int {
    c as int - '0' as int
}

/// Whether `text` holds digits only.
pub open spec fn all_digits(text: Seq<char>) -> bool {
    forall|i: int| 0 <= i < text.len() ==> is_digit(#[trigger] text[i])
}

/// The number that a run of digits stands for; 0 for the empty run.
pub open spec fn digits_value(digits: Seq<char>) -> int
    decreases digits.len(),
{
    if digits.len() == 0 {
        0
    } else {
        digits_value(digits.drop_last()) * 10 + digit_value(digits.last())
    }
}

/// Whether `text` begins with a sign.
pub open spec fn has_sign(text: Seq<char>) -> bool {
    text.len() > 0 && (text[0] == '-' || text[0] == '+')
}

/// The number that `text` stands for: an optional sign, `+` or `-`, and at
/// least one digit behind it, with nothing before, between or after. `None`
/// for any other text.
pub open spec fn number(text: Seq<char>) -> Option<int> {
    let digits = if has_sign(text) {
        text.skip(1)
    } else {
        text
    };
    if digits.len() == 0 || !all_digits(digits) {
        None
    } else if text[0] == '-' {
        Some(-digits_value(digits))
    } else {
        Some(digits_value(digits))
    }
}

/// The 32-bit number that `text` stands for, if it stands for one.
pub open spec fn number_i32(text: Seq<char>) -> Option<i32> {
    match number(text) {
        Some(n) => if i32::MIN <= n <= i32::MAX {
            Some(n as i32)
        } else {
            None
        },
        None => None,
    }
}

/// The digits of `n`, without leading zeros.
pub open spec fn magnitude_text(n: nat) -> Seq<char>
    decreases n,
{
    if n < 10 {
        seq![digit_char(n as int)]
    } else {
        magnitude_text(n / 10).push(digit_char((n % 10) as int))
    }
}

/// How `n` is written: its digits, behind a `-` where it is negative.
pub open spec fn decimal_text(n: int) -> Seq<char> {
    if n < 0 {
        seq!['-'] + magnitude_text((-n) as nat)
    } else {
        magnitude_text(n as nat)
    }
}

proof fn lemma_value_not_negative(digits: Seq<char>)
    requires
        all_digits(digits),
    ensures
        digits_value(digits) >= 0,
    decreases digits.len(),
{
    if digits.len() > 0 {
        lemma_value_not_negative(digits.drop_last());
        assert(is_digit(digits[digits.len() - 1]));
    }
}

/// Digits that follow can only make the number larger.
proof fn lemma_value_grows(digits: Seq<char>, k: int)
    requires
        all_digits(digits),
        0 <= k <= digits.len(),
    ensures
        0 <= digits_value(digits.take(k)) <= digits_value(digits),
    decreases digits.len(),
{
    if k == digits.len() {
        assert(digits.take(k) =~= digits);
        lemma_value_not_negative(digits);
    } else {
        let front = digits.drop_last();
        lemma_value_grows(front, k);
        assert(front.take(k) =~= digits.take(k));
        assert(is_digit(digits[digits.len() - 1]));
    }
}

/// One more digit: the number so far, times ten, and the digit.
proof fn lemma_value_of_next(digits: Seq<char>, k: int)
    requires
        0 <= k < digits.len(),
        all_digits(digits.take(k)),
        is_digit(digits[k]),
    ensures
        all_digits(digits.take(k + 1)),
        digits_value(digits.take(k + 1)) == digits_value(digits.take(k)) * 10 + digit_value(
            digits[k],
        ),
{
    let longer = digits.take(k + 1);
    assert(longer.drop_last() =~= digits.take(k));
    assert forall|j: int| 0 <= j < longer.len() implies is_digit(#[trigger] longer[j]) by {
        if j < k {
            assert(longer[j] == digits.take(k)[j]);
        }
    }
}

/// The byte of a character of one byte tells whether it is a digit, and
/// which.
proof fn lemma_byte_of_digit(c: char, byte: u8)
    requires
        '\0' <= c <= '\u{7f}',
        byte == c as u8,
    ensures
        (48 <= byte <= 57) == is_digit(c),
        is_digit(c) ==> digit_value(c) == byte - 48,
        (byte == 45) == (c == '-'),
        (byte == 43) == (c == '+'),
{
}

/// A text with a character that is no digit, past the sign, names no number.
proof fn lemma_not_a_number(text: Seq<char>, i: int)
    requires
        0 <= i < text.len(),
        !is_digit(text[i]),
        i > 0 || !has_sign(text),
    ensures
        number(text) is None,
{
    if has_sign(text) {
        assert(text.skip(1)[i - 1] == text[i]);
    }
}

/// A text whose digits so far make a number too large for 32 bits names no
/// number of 32 bits.
proof fn lemma_too_large(text: Seq<char>, start: int, k: int)
    requires
        start == (if has_sign(text) { 1int } else { 0int }),
        start < k <= text.len(),
        all_digits(text.skip(start).take(k - start)),
        digits_value(text.skip(start).take(k - start)) > 0x8000_0000,
    ensures
        number_i32(text) is None,
{
    let digits = text.skip(start);
    assert(text.skip(0) =~= text);
    if all_digits(digits) {
        lemma_value_grows(digits, k - start);
    }
}

/// The 32-bit number that `text` stands for, if it stands for one.
pub fn parse_i32(text: &str) -> (r: Option<i32>)
    ensures
        r == number_i32(text@),
{
    if !text.is_ascii() {
        proof {
            let i = choose|i: int| 0 <= i < text@.len() && !('\0' <= #[trigger] text@[i] <= '\u{7f}');
            lemma_not_a_number(text@, i);
        }
        return None;
    }
    let bytes = text.as_bytes();
    let len = bytes.len();
    proof {
        is_ascii_spec_bytes(text);
        assert(forall|k: int| 0 <= k < len ==> #[trigger] bytes@[k] == text@[k] as u8);
    }
    if len == 0 {
        return None;
    }
    let first = bytes[0];
    proof {
        lemma_byte_of_digit(text@[0], first);
    }
    let negative = first == 45;
    let start: usize = if first == 45 || first == 43 {
        1
    } else {
        0
    };
    assert(start == (if has_sign(text@) { 1int } else { 0int }));
    if start == len {
        return None;
    }
    let ghost digits = text@.skip(start as int);
    let mut value: i64 = 0;
    let mut i = start;
    while i < len
        invariant
            len == text@.len(),
            len == bytes@.len(),
            forall|k: int| 0 <= k < len ==> #[trigger] bytes@[k] == text@[k] as u8,
            is_ascii_chars(text@),
            start <= i <= len,
            start == (if has_sign(text@) { 1int } else { 0int }),
            digits == text@.skip(start as int),
            all_digits(digits.take(i - start)),
            value == digits_value(digits.take(i - start)),
            0 <= value <= 0x8000_0000,
        decreases len - i,
    {
        let byte = bytes[i];
        proof {
            lemma_byte_of_digit(text@[i as int], byte);
        }
        if byte < 48 || byte > 57 {
            proof {
                lemma_not_a_number(text@, i as int);
            }
            return None;
        }
        let digit = (byte - 48) as i64;
        proof {
            assert(digits[i - start] == text@[i as int]);
            lemma_value_of_next(digits, i - start);
        }
        value = value * 10 + digit;
        i = i + 1;
        if value > 0x8000_0000 {
            proof {
                lemma_too_large(text@, start as int, i as int);
            }
            return None;
        }
    }
    proof {
        assert(digits.take(i - start) =~= digits);
        assert(text@.skip(0) =~= text@);
    }
    if negative {
        Some((-value) as i32)
    } else if value <= 0x7fff_ffff {
        Some(value as i32)
    } else {
        None
    }
}

/// The text of one digit.
fn digit_text(d: u32) -> (r: &'static str)
    requires
        d < 10,
    ensures
        r@ == seq![digit_char(d as int)],
{
    proof {
        reveal_strlit("0");
        reveal_strlit("1");
        reveal_strlit("2");
        reveal_strlit("3");
        reveal_strlit("4");
        reveal_strlit("5");
        reveal_strlit("6");
        reveal_strlit("7");
        reveal_strlit("8");
        reveal_strlit("9");
    }
    let r = match d {
        0 => "0",
        1 => "1",
        2 => "2",
        3 => "3",
        4 => "4",
        5 => "5",
        6 => "6",
        7 => "7",
        8 => "8",
        _ => "9",
    };
    assert(r@ =~= seq![digit_char(d as int)]);
    r
}

/// Writes the digits of `n` behind what `out` holds.
fn append_magnitude(out: &mut String, n: u32)
    ensures
        final(out)@ == old(out)@ + magnitude_text(n as nat),
    decreases n,
{
    if n >= 10 {
        append_magnitude(out, n / 10);
    }
    out.append(digit_text(n % 10));
    assert(out@ =~= old(out)@ + magnitude_text(n as nat));
}

/// Writes `n` in decimal digits behind what `out` holds.
pub fn append_decimal(out: &mut String, n: i32)
    ensures
        final(out)@ == old(out)@ + decimal_text(n as int),
{
    if n < 0 {
        out.append("-");
        proof {
            reveal_strlit("-");
        }
        let magnitude = (-(n as i64)) as u32;
        append_magnitude(out, magnitude);
        assert(out@ =~= old(out)@ + decimal_text(n as int));
    } else {
        append_magnitude(out, n as u32);
    }
}

} // verus!
