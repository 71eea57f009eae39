//! Decimal numerals: reading signed and unsigned integers from text and
//! writing them back.

use vstd::prelude::*;

verus! {

/// Whether a character is one of `0` to `9`.
pub open spec fn is_digit(c: char) -> bool {
    '0' <= c <= '9'
}

/// The value of a decimal digit.
pub open spec fn digit_value(c: char) -> int {
    c as int - 48
}

/// Whether every character of a text is a decimal digit.
pub open spec fn all_digits(text: Seq<char>) -> bool {
    forall|i: int| 0 <= i < text.len() ==> is_digit(#[trigger] text[i])
}

/// The number that a run of decimal digits denotes; 0 for the empty run.
pub open spec fn digits_value(text: Seq<char>) -> int
    decreases text.len(),
{
    if text.len() == 0 {
        0
    } else {
        10 * digits_value(text.drop_last()) + digit_value(text.last())
    }
}

/// The part of a numeral that follows its sign, if it has one.
pub open spec fn unsigned_part(text: Seq<char>) -> Seq<char> {
    if text.len() > 0 && (text[0] == '-' || text[0] == '+') {
        text.subrange(1, text.len() as int)
    } else {
        text
    }
}

/// The signed 32-bit integer that a text denotes: an optional `+` or `-`,
/// then at least one decimal digit, with a value that fits. `None` for any
/// other text.
pub open spec fn spec_parse_i32(text: Seq<char>) -> Option<i32> {
    let digits = unsigned_part(text);
    let magnitude = digits_value(digits);
    let value = if text.len() > 0 && text[0] == '-' {
        -magnitude
    } else {
        magnitude
    };
    if digits.len() > 0 && all_digits(digits) && i32::MIN <= value <= i32::MAX {
        Some(value as i32)
    } else {
        None
    }
}

/// The unsigned byte that a text denotes: an optional `+`, then at least one
/// decimal digit, with a value of at most 255. `None` for any other text.
pub open spec fn spec_parse_u8(text: Seq<char>) -> Option<u8> {
    let digits = if text.len() > 0 && text[0] == '+' {
        text.subrange(1, text.len() as int)
    } else {
        text
    };
    if digits.len() > 0 && all_digits(digits) && digits_value(digits) <= 255 {
        Some(digits_value(digits) as u8)
    } else {
        None
    }
}

/// The character of a decimal digit.
pub open spec fn digit_char(d: int) -> char
    recommends
        0 <= d <= 9,
{
    (48 + d) as char
}

/// The decimal numeral of a natural number, without leading zeros.
pub open spec fn nat_text(n: nat) -> Seq<char>
    decreases n,
{
    if n < 10 {
        seq![digit_char(n as int)]
    } else {
        nat_text(n / 10).push(digit_char((n % 10) as int))
    }
}

/// The decimal numeral of an integer: a `-` before the magnitude of a
/// negative one.
pub open spec fn int_text(v: int) -> Seq<char> {
    if v < 0 {
        seq!['-'] + nat_text((-v) as nat)
    } else {
        nat_text(v as nat)
    }
}

/// A run of digits denotes at least what any of its prefixes denotes.
proof fn lemma_digits_value_prefix(text: Seq<char>, k: int)
    requires
        all_digits(text),
        0 <= k <= text.len(),
    ensures
        0 <= digits_value(text.take(k)) <= digits_value(text),
    decreases text.len() - k,
{
    if k == text.len() {
        assert(text.take(k) =~= text);
        lemma_digits_value_nonnegative(text);
    } else {
        lemma_digits_value_prefix(text, k + 1);
        assert(text.take(k + 1).drop_last() =~= text.take(k));
        assert(is_digit(text[k]));
        assert(text.take(k + 1).last() == text[k]);
        lemma_digits_value_nonnegative(text.take(k));
    }
}

proof fn lemma_digits_value_nonnegative(text: Seq<char>)
    requires
        all_digits(text),
    ensures
        0 <= digits_value(text),
    decreases text.len(),
{
    if text.len() > 0 {
        assert(is_digit(text.last()));
        assert(all_digits(text.drop_last())) by {
            assert forall|i: int| 0 <= i < text.drop_last().len() implies is_digit(
                #[trigger] text.drop_last()[i],
            ) by {
                assert(text.drop_last()[i] == text[i]);
            }
        }
        lemma_digits_value_nonnegative(text.drop_last());
    }
}

/// The numeral of a natural number is a run of digits that denotes the
/// number.
pub proof fn lemma_nat_text_denotes(n: nat)
    ensures
        nat_text(n).len() > 0,
        all_digits(nat_text(n)),
        digits_value(nat_text(n)) == n,
    decreases n,
{
    if n >= 10 {
        lemma_nat_text_denotes(n / 10);
        let head = nat_text(n / 10);
        let text = head.push(digit_char((n % 10) as int));
        assert(text.drop_last() =~= head);
        assert forall|i: int| 0 <= i < text.len() implies is_digit(#[trigger] text[i]) by {
            if i < head.len() {
                assert(text[i] == head[i]);
            }
        }
    } else {
        let text = seq![digit_char(n as int)];
        assert(text.drop_last() =~= Seq::<char>::empty());
        assert(digits_value(text.drop_last()) == 0);
    }
}

/// A number that is written and read again is the same number.
pub proof fn lemma_int_text_round_trip(value: i32)
    ensures
        spec_parse_i32(int_text(value as int)) == Some(value),
{
    if value < 0 {
        let digits = nat_text((-value) as nat);
        lemma_nat_text_denotes((-value) as nat);
        let text = seq!['-'] + digits;
        assert(text[0] == '-');
        assert(text.subrange(1, text.len() as int) =~= digits);
    } else {
        lemma_nat_text_denotes(value as nat);
        let text = nat_text(value as nat);
        assert(is_digit(text[0]));
    }
}

/// Reads the characters of `text` from `start` up to `end` as a run of
/// decimal digits with a value of at most `limit`.
pub(crate) fn parse_digits(text: &str, start: usize, end: usize, limit: i64) -> (value: Option<i64>)
    requires
        start <= end <= text@.len(),
        0 <= limit <= 0x8000_0000,
    ensures
        value is Some <==> ({
            let digits = text@.subrange(start as int, end as int);
            digits.len() > 0 && all_digits(digits) && digits_value(digits) <= limit
        }),
        value matches Some(v) ==> 0 <= v <= limit && v == digits_value(
            text@.subrange(start as int, end as int),
        ),
{
    if start == end {
        return None;
    }
    let ghost digits = text@.subrange(start as int, end as int);
    let mut acc: i64 = 0;
    let mut i: usize = start;
    while i < end
        invariant
            start <= i <= end <= text@.len(),
            0 <= limit <= 0x8000_0000,
            digits == text@.subrange(start as int, end as int),
            all_digits(digits.take(i - start)),
            acc == digits_value(digits.take(i - start)),
            0 <= acc <= limit,
        decreases end - i,
    {
        let c = text.get_char(i);
        proof {
            assert(digits[i - start] == c);
            assert(digits.take(i - start + 1).drop_last() =~= digits.take(i - start));
            assert(digits.take(i - start + 1).last() == c);
        }
        if !(c >= '0' && c <= '9') {
            return None;
        }
        let d: i64 = (c as u32 - 48) as i64;
        let next: i64 = acc * 10 + d;
        proof {
            assert(all_digits(digits.take(i - start + 1))) by {
                assert forall|j: int| 0 <= j < digits.take(i - start + 1).len() implies is_digit(
                    #[trigger] digits.take(i - start + 1)[j],
                ) by {
                    if j < i - start {
                        assert(digits.take(i - start)[j] == digits.take(i - start + 1)[j]);
                    }
                }
            }
            assert(next == digits_value(digits.take(i - start + 1)));
        }
        if next > limit {
            proof {
                if all_digits(digits) {
                    lemma_digits_value_prefix(digits, i - start + 1);
                }
            }
            return None;
        }
        acc = next;
        i += 1;
    }
    proof {
        assert(digits.take(end - start) =~= digits);
    }
    Some(acc)
}

/// Reads the characters of `text` from `start` up to `end` as a signed
/// 32-bit decimal numeral.
pub(crate) fn parse_i32_in(text: &str, start: usize, end: usize) -> (value: Option<i32>)
    requires
        start <= end <= text@.len(),
    ensures
        value == spec_parse_i32(text@.subrange(start as int, end as int)),
{
    let ghost numeral = text@.subrange(start as int, end as int);
    if start == end {
        return None;
    }
    let first = text.get_char(start);
    assert(numeral[0] == first);
    if first == '-' {
        assert(unsigned_part(numeral) =~= text@.subrange(start + 1, end as int));
        match parse_digits(text, start + 1, end, 2147483648) {
            Some(magnitude) => Some((0 - magnitude) as i32),
            None => None,
        }
    } else if first == '+' {
        assert(unsigned_part(numeral) =~= text@.subrange(start + 1, end as int));
        match parse_digits(text, start + 1, end, 2147483647) {
            Some(magnitude) => Some(magnitude as i32),
            None => None,
        }
    } else {
        match parse_digits(text, start, end, 2147483647) {
            Some(magnitude) => Some(magnitude as i32),
            None => None,
        }
    }
}

/// Reads the characters of `text` from `start` up to `end` as an unsigned
/// decimal byte.
pub(crate) fn parse_u8_in(text: &str, start: usize, end: usize) -> (value: Option<u8>)
    requires
        start <= end <= text@.len(),
    ensures
        value == spec_parse_u8(text@.subrange(start as int, end as int)),
{
    let ghost numeral = text@.subrange(start as int, end as int);
    if start == end {
        return None;
    }
    let first = text.get_char(start);
    assert(numeral[0] == first);
    let from = if first == '+' {
        start + 1
    } else {
        start
    };
    proof {
        if first == '+' {
            assert(numeral.subrange(1, numeral.len() as int) =~= text@.subrange(
                start + 1,
                end as int,
            ));
        }
    }
    match parse_digits(text, from, end, 255) {
        Some(value) => Some(value as u8),
        None => None,
    }
}

/// Reads a text as a signed 32-bit decimal numeral.
pub fn parse_i32(text: &str) -> (value: Option<i32>)
    ensures
        value == spec_parse_i32(text@),
{
    let len = text.unicode_len();
    assert(text@.subrange(0, len as int) =~= text@);
    parse_i32_in(text, 0, len)
}

/// Reads a text as an unsigned decimal byte.
pub fn parse_u8(text: &str) -> (value: Option<u8>)
    ensures
        value == spec_parse_u8(text@),
{
    let len = text.unicode_len();
    assert(text@.subrange(0, len as int) =~= text@);
    parse_u8_in(text, 0, len)
}

/// Writes a signed 32-bit integer as a decimal numeral.
pub fn i32_to_decimal(value: i32) -> (text: Vec<char>)
    ensures
        text@ == int_text(value as int),
{
    let magnitude: i64 = if value < 0 {
        0 - (value as i64)
    } else {
        value as i64
    };
    let mut text: Vec<char> = Vec::new();
    text.push(((48 + magnitude % 10) as u8) as char);
    let mut rest: i64 = magnitude / 10;
    assert(text@ =~= seq![digit_char((magnitude % 10) as int)]);
    while rest > 0
        invariant
            0 <= rest <= magnitude,
            nat_text(magnitude as nat) == (if rest > 0 {
                nat_text(rest as nat)
            } else {
                Seq::<char>::empty()
            }) + text@,
        decreases rest,
    {
        let ghost before = text@;
        let c = ((48 + rest % 10) as u8) as char;
        text.insert(0, c);
        proof {
            assert(c == digit_char((rest % 10) as int));
            let head = if rest / 10 > 0 {
                nat_text((rest / 10) as nat)
            } else {
                Seq::<char>::empty()
            };
            assert(nat_text(rest as nat) =~= head.push(c));
            assert(text@ =~= seq![c] + before);
            assert(head.push(c) + before =~= head + text@);
        }
        rest = rest / 10;
    }
    if value < 0 {
        let ghost before = text@;
        text.insert(0, '-');
        assert(text@ =~= seq!['-'] + before);
    }
    text
}

} // verus!
