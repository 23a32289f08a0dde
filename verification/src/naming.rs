//! The convention that ties a sprite's file name to a number.
//!
//! A frame file is named like `Idle-003-117.png`: the text after the last `-`,
//! with `.png` taken out, is a decimal number that tells duplicates apart.

use vstd::prelude::*;

verus! {

/// The part of `name` after its last `-`, or all of it when it holds none.
pub open spec fn last_token(name: Seq<char>) -> Seq<char>
    decreases name.len(),
{
    if name.len() == 0 {
        name
    } else if name.last() == '-' {
        Seq::empty()
    } else {
        last_token(name.drop_last()).push(name.last())
    }
}

/// Whether `text` begins with `.png`.
pub open spec fn starts_with_png(text: Seq<char>) -> bool {
    text.len() >= 4 && text[0] == '.' && text[1] == 'p' && text[2] == 'n' && text[3] == 'g'
}

/// `text` with every occurrence of `.png` removed, found from left to right.
pub open spec fn without_png(text: Seq<char>) -> Seq<char>
    decreases text.len(),
{
    if text.len() == 0 {
        text
    } else if starts_with_png(text) {
        without_png(text.skip(4))
    } else {
        seq![text[0]] + without_png(text.skip(1))
    }
}

/// Whether `c` is one of `0` to `9`.
pub open spec fn is_digit(c: char) -> bool {
    48 <= c as u32 <= 57
}

/// Whether every character of `text` is a decimal digit.
pub open spec fn all_digits(text: Seq<char>) -> bool {
    forall|i: int| 0 <= i < text.len() ==> is_digit(#[trigger] text[i])
}

/// The number that a string of decimal digits writes.
pub open spec fn digits_value(digits: Seq<char>) -> nat
    decreases digits.len(),
{
    if digits.len() == 0 {
        0
    } else {
        (digits_value(digits.drop_last()) * 10 + (digits.last() as u32 - 48)) as nat
    }
}

/// The number that `text` writes in decimal: one or more digits, after an
/// optional `+`, whose value fits in 32 bits. `None` for any other text.
pub open spec fn decimal_u32(text: Seq<char>) -> Option<u32> {
    let digits = if text.len() > 0 && text[0] == '+' {
        text.skip(1)
    } else {
        text
    };
    if digits.len() > 0 && all_digits(digits) && digits_value(digits) <= u32::MAX {
        Some(digits_value(digits) as u32)
    } else {
        None
    }
}

/// The number in a sprite's file name: what follows the last `-`, without
/// `.png`, read as a decimal number.
pub open spec fn sprite_number(name: Seq<char>) -> Option<u32> {
    decimal_u32(without_png(last_token(name)))
}

/// A longer string of digits never writes a smaller number than its prefix.
proof fn lemma_digits_value_monotonic(digits: Seq<char>, prefix: int)
    requires
        0 <= prefix <= digits.len(),
        all_digits(digits),
    ensures
        digits_value(digits.subrange(0, prefix)) <= digits_value(digits),
    decreases digits.len() - prefix,
{
    if prefix == digits.len() {
        assert(digits.subrange(0, prefix) =~= digits);
    } else {
        let shorter = digits.drop_last();
        assert(shorter.subrange(0, prefix) =~= digits.subrange(0, prefix));
        assert forall|i: int| 0 <= i < shorter.len() implies is_digit(#[trigger] shorter[i]) by {
            assert(shorter[i] == digits[i]);
        }
        lemma_digits_value_monotonic(shorter, prefix);
        assert(is_digit(digits[digits.len() - 1]));
    }
}

/// The last token of `name` starts right after the last `-`.
proof fn lemma_last_token_is_suffix(name: Seq<char>, start: int)
    requires
        0 <= start <= name.len(),
        start > 0 ==> name[start - 1] == '-',
        forall|i: int| start <= i < name.len() ==> name[i] != '-',
    ensures
        last_token(name) == name.skip(start),
    decreases name.len(),
{
    if name.len() == 0 {
        assert(name.skip(start) =~= name);
    } else if start == name.len() {
        assert(name.skip(start) =~= Seq::<char>::empty());
    } else {
        let shorter = name.drop_last();
        lemma_last_token_is_suffix(shorter, start);
        assert(name.skip(start) =~= shorter.skip(start).push(name.last()));
    }
}

/// Reads the text of `name` into a vector of its characters.
pub(crate) fn characters(name: &str) -> (chars: Vec<char>)
    ensures
        chars@ == name@,
{
    let length = name.unicode_len();
    let mut chars: Vec<char> = Vec::new();
    let mut i: usize = 0;
    while i < length
        invariant
            i <= length,
            length == name@.len(),
            chars@ == name@.subrange(0, i as int),
        decreases length - i,
    {
        chars.push(name.get_char(i));
        assert(chars@ =~= name@.subrange(0, i + 1));
        i += 1;
    }
    assert(chars@ =~= name@);
    chars
}

/// Reads a decimal number as [`decimal_u32`] defines it.
fn parse_decimal(text: &Vec<char>) -> (number: Option<u32>)
    ensures
        number == decimal_u32(text@),
{
    let length = text.len();
    let start: usize = if length > 0 && text[0] == '+' {
        1
    } else {
        0
    };
    if start == length {
        return None;
    }
    let ghost digits = text@.skip(start as int);
    assert(text@.skip(0) =~= text@);
    let mut value: u64 = 0;
    let mut i: usize = start;
    while i < length
        invariant
            start <= i <= length,
            length == text@.len(),
            digits == text@.skip(start as int),
            digits == if text@.len() > 0 && text@[0] == '+' {
                text@.skip(1)
            } else {
                text@
            },
            digits.len() > 0,
            all_digits(digits.subrange(0, i - start)),
            value == digits_value(digits.subrange(0, i - start)),
            value <= u32::MAX,
        decreases length - i,
    {
        let code = text[i] as u32;
        let ghost prefix = digits.subrange(0, i - start);
        let ghost longer = digits.subrange(0, i - start + 1);
        assert(longer.drop_last() =~= prefix);
        assert(longer.last() == text@[i as int]);
        if code < 48 || code > 57 {
            assert(!is_digit(digits[i - start]));
            return None;
        }
        assert forall|k: int| 0 <= k < longer.len() implies is_digit(#[trigger] longer[k]) by {
            if k < prefix.len() {
                assert(longer[k] == prefix[k]);
            }
        }
        value = value * 10 + (code - 48) as u64;
        if value > u32::MAX as u64 {
            proof {
                if all_digits(digits) {
                    lemma_digits_value_monotonic(digits, i - start + 1);
                }
            }
            return None;
        }
        i += 1;
    }
    assert(digits.subrange(0, length - start) =~= digits);
    Some(value as u32)
}

/// Parses the number in a sprite's file name. Returns `None` when the text
/// after the last `-`, with every `.png` removed, is not a decimal number that
/// fits in 32 bits.
pub fn parse_sprite_id(name: &str) -> (id: Option<u32>)
    ensures
        id == sprite_number(name@),
{
    let chars = characters(name);
    let length = chars.len();
    let mut start: usize = 0;
    let mut i: usize = 0;
    while i < length
        invariant
            start <= i <= length,
            length == chars@.len(),
            start > 0 ==> chars@[start - 1] == '-',
            forall|k: int| start <= k < i ==> chars@[k] != '-',
        decreases length - i,
    {
        if chars[i] == '-' {
            start = i + 1;
        }
        i += 1;
    }
    proof {
        lemma_last_token_is_suffix(chars@, start as int);
    }
    let ghost token = chars@.skip(start as int);
    let mut kept: Vec<char> = Vec::new();
    let mut at: usize = start;
    proof {
        assert(token.skip(0) =~= token);
    }
    while at < length
        invariant
            start <= at <= length,
            length == chars@.len(),
            token == chars@.skip(start as int),
            without_png(token) == kept@ + without_png(token.skip(at - start)),
        decreases length - at,
    {
        let ghost rest = token.skip(at - start);
        if length - at >= 4 && chars[at] == '.' && chars[at + 1] == 'p' && chars[at + 2] == 'n'
            && chars[at + 3] == 'g' {
            assert(starts_with_png(rest));
            assert(rest.skip(4) =~= token.skip(at - start + 4));
            at += 4;
        } else {
            assert(!starts_with_png(rest));
            assert(rest.skip(1) =~= token.skip(at - start + 1));
            let ghost before = kept@;
            kept.push(chars[at]);
            assert(kept@ + without_png(rest.skip(1)) =~= before + (seq![rest[0]] + without_png(
                rest.skip(1),
            )));
            at += 1;
        }
    }
    assert(kept@ =~= without_png(token));
    parse_decimal(&kept)
}

} // verus!
