//! Small functions on text: comparing, decimal numbers, cutting.

use vstd::prelude::*;
use vstd::string::{StrSliceExecFns, StringExecFns};
use crate::sequences::lemma_filter_push;
use crate::time::{digit_char, digit_str};

verus! {

/// The value of a decimal digit, if `c` is one.
pub open spec fn digit_value(c: char) -> Option<u8> {
    if c == '0' {
        Some(0u8)
    } else if c == '1' {
        Some(1u8)
    } else if c == '2' {
        Some(2u8)
    } else if c == '3' {
        Some(3u8)
    } else if c == '4' {
        Some(4u8)
    } else if c == '5' {
        Some(5u8)
    } else if c == '6' {
        Some(6u8)
    } else if c == '7' {
        Some(7u8)
    } else if c == '8' {
        Some(8u8)
    } else if c == '9' {
        Some(9u8)
    } else {
        None
    }
}

/// Whether every character is a decimal digit.
pub open spec fn all_digits(text: Seq<char>) -> bool {
    forall|i: int| 0 <= i < text.len() ==> digit_value(#[trigger] text[i]).is_some()
}

/// The number that a run of decimal digits writes; 0 for none.
pub open spec fn decimal_value(digits: Seq<char>) -> nat
    decreases digits.len(),
{
    if digits.len() == 0 {
        0
    } else {
        let last: nat = match digit_value(digits.last()) {
            Some(value) => value as nat,
            None => 0,
        };
        decimal_value(digits.drop_last()) * 10 + last
    }
}

/// The digits of a number text: the text without one leading `+`.
pub open spec fn unsigned_part(text: Seq<char>) -> Seq<char> {
    if text.len() > 0 && text[0] == '+' {
        text.skip(1)
    } else {
        text
    }
}

/// The number from 0 to 255 that `text` writes in decimal: one or more
/// digits, with or without a `+` before them. None for any other text and
/// for a greater number.
pub open spec fn decimal_u8(text: Seq<char>) -> Option<u8> {
    let digits = unsigned_part(text);
    if digits.len() > 0 && all_digits(digits) && decimal_value(digits) <= 255 {
        Some(decimal_value(digits) as u8)
    } else {
        None
    }
}

/// A number in decimal, without leading zeros.
pub open spec fn decimal_text(number: u8) -> Seq<char> {
    if number < 10 {
        seq![digit_char(number as int)]
    } else if number < 100 {
        seq![digit_char(number as int / 10), digit_char(number as int % 10)]
    } else {
        seq![
            digit_char(number as int / 100),
            digit_char((number as int / 10) % 10),
            digit_char(number as int % 10),
        ]
    }
}

/// `text` with every space turned into an underscore and every apostrophe
/// left out.
pub open spec fn station_key(text: Seq<char>) -> Seq<char> {
    text.filter(|c: char| c != '\'').map_values(
        |c: char|
            if c == ' ' {
                '_'
            } else {
                c
            },
    )
}

/// Whether `pattern` stands in `text` at `place`.
pub open spec fn occurs_at(text: Seq<char>, pattern: Seq<char>, place: int) -> bool {
    0 <= place && place + pattern.len() <= text.len() && text.subrange(
        place,
        place + pattern.len(),
    ) == pattern
}

/// The last place at or before `from` where `pattern` stands in `text`.
pub open spec fn last_occurrence(text: Seq<char>, pattern: Seq<char>, from: int) -> Option<int>
    decreases from + 1,
{
    if from < 0 {
        None
    } else if occurs_at(text, pattern, from) {
        Some(from)
    } else {
        last_occurrence(text, pattern, from - 1)
    }
}

/// What follows the last `pattern` in `text`; all of `text` where the
/// pattern does not occur.
pub open spec fn after_last(text: Seq<char>, pattern: Seq<char>) -> Seq<char> {
    match last_occurrence(text, pattern, text.len() as int) {
        Some(place) => text.skip(place + pattern.len()),
        None => text,
    }
}

/// Whether two texts are the same.
pub fn same_text(a: &str, b: &str) -> (same: bool)
    ensures
        same == (a@ == b@),
{
    let length: usize = a.unicode_len();
    if b.unicode_len() != length {
        return false;
    }
    let mut i: usize = 0;
    while i < length
        invariant
            i <= length,
            length == a@.len(),
            length == b@.len(),
            forall|k: int| 0 <= k < i ==> a@[k] == b@[k],
        decreases length - i,
    {
        if a.get_char(i) != b.get_char(i) {
            return false;
        }
        i += 1;
    }
    assert(a@ =~= b@);
    true
}

/// The value of a decimal digit.
fn digit_of(c: char) -> (value: Option<u8>)
    ensures
        value == digit_value(c),
{
    if c == '0' {
        Some(0u8)
    } else if c == '1' {
        Some(1u8)
    } else if c == '2' {
        Some(2u8)
    } else if c == '3' {
        Some(3u8)
    } else if c == '4' {
        Some(4u8)
    } else if c == '5' {
        Some(5u8)
    } else if c == '6' {
        Some(6u8)
    } else if c == '7' {
        Some(7u8)
    } else if c == '8' {
        Some(8u8)
    } else if c == '9' {
        Some(9u8)
    } else {
        None
    }
}

/// A longer run of digits does not write a smaller number.
proof fn lemma_decimal_value_grows(digits: Seq<char>, shorter: int)
    requires
        0 <= shorter <= digits.len(),
    ensures
        decimal_value(digits.take(shorter)) <= decimal_value(digits),
    decreases digits.len() - shorter,
{
    if shorter == digits.len() {
        assert(digits.take(shorter) =~= digits);
    } else {
        let longer = digits.take(shorter + 1);
        assert(longer.drop_last() =~= digits.take(shorter));
        lemma_decimal_value_grows(digits, shorter + 1);
    }
}

/// Reads a number from 0 to 255 written in decimal.
pub fn parse_u8(text: &str) -> (number: Option<u8>)
    ensures
        number == decimal_u8(text@),
{
    let length: usize = text.unicode_len();
    let start: usize = if length > 0 && text.get_char(0) == '+' {
        1
    } else {
        0
    };
    let ghost digits = unsigned_part(text@);
    assert(digits =~= text@.skip(start as int));
    if start == length {
        return None;
    }
    let mut value: u32 = 0;
    let mut i: usize = start;
    assert(digits.take(0) =~= Seq::<char>::empty());
    while i < length
        invariant
            start <= i <= length,
            length == text@.len(),
            digits == text@.skip(start as int),
            digits == unsigned_part(text@),
            all_digits(digits.take(i - start)),
            value == decimal_value(digits.take(i - start)),
            value <= 255,
        decreases length - i,
    {
        let c: char = text.get_char(i);
        let ghost longer = digits.take(i - start + 1);
        proof {
            assert(longer.drop_last() =~= digits.take(i - start));
            assert(longer.last() == c);
            lemma_decimal_value_grows(digits, i - start + 1);
        }
        match digit_of(c) {
            None => {
                assert(!all_digits(digits)) by {
                    assert(digit_value(digits[i - start]).is_none());
                }
                return None;
            },
            Some(digit) => {
                let grown: u32 = value * 10 + digit as u32;
                assert(grown == decimal_value(longer));
                if grown > 255 {
                    return None;
                }
                assert(all_digits(longer)) by {
                    assert forall|k: int| 0 <= k < longer.len() implies digit_value(
                        #[trigger] longer[k],
                    ).is_some() by {
                        if k < i - start {
                            assert(digits.take(i - start)[k] == longer[k]);
                        }
                    }
                }
                value = grown;
            },
        }
        i += 1;
    }
    assert(digits.take(i - start) =~= digits);
    Some(value as u8)
}

/// A number in decimal, without leading zeros.
pub fn decimal(number: u8) -> (text: String)
    ensures
        text@ == decimal_text(number),
{
    if number < 10 {
        String::from_str(digit_str(number))
    } else if number < 100 {
        let mut text = String::from_str(digit_str(number / 10));
        text.append(digit_str(number % 10));
        assert(text@ =~= decimal_text(number));
        text
    } else {
        let mut text = String::from_str(digit_str(number / 100));
        text.append(digit_str((number / 10) % 10));
        text.append(digit_str(number % 10));
        assert(text@ =~= decimal_text(number));
        text
    }
}

/// The text that stands for a space in the key of a station.
fn underscore_str() -> (text: &'static str)
    ensures
        text@ == seq!['_'],
{
    proof {
        reveal_strlit("_");
    }
    let text = "_";
    assert(text@ =~= seq!['_']);
    text
}

/// The key of a station name: spaces become underscores, apostrophes are
/// left out.
pub fn station_key_of(name: &str) -> (key: String)
    ensures
        key@ == station_key(name@),
{
    let length: usize = name.unicode_len();
    let mut key = String::new();
    let mut i: usize = 0;
    let ghost kept = |c: char| c != '\'';
    let ghost turned = |c: char|
        if c == ' ' {
            '_'
        } else {
            c
        };
    proof {
        reveal(Seq::filter);
        assert(name@.take(0) =~= Seq::<char>::empty());
        assert(name@.take(0).filter(kept).map_values(turned) =~= Seq::<char>::empty());
    }
    while i < length
        invariant
            i <= length,
            length == name@.len(),
            kept == |c: char| c != '\'',
            turned == |c: char|
                if c == ' ' {
                    '_'
                } else {
                    c
                },
            key@ == name@.take(i as int).filter(kept).map_values(turned),
        decreases length - i,
    {
        let c: char = name.get_char(i);
        proof {
            lemma_filter_push(name@.take(i as int), c, kept);
            assert(name@.take(i as int).push(c) =~= name@.take(i as int + 1));
        }
        if c != '\'' {
            let ghost before = name@.take(i as int).filter(kept);
            if c == ' ' {
                key.append(underscore_str());
            } else {
                let same: &str = name.substring_char(i, i + 1);
                assert(same@ =~= seq![c]);
                key.append(same);
            }
            assert(key@ =~= before.push(c).map_values(turned));
        }
        i += 1;
    }
    assert(name@.take(i as int) =~= name@);
    key
}

/// Whether `pattern` stands in `text` at `place`.
fn stands_at(text: &str, pattern: &str, place: usize) -> (found: bool)
    requires
        place + pattern@.len() <= text@.len(),
    ensures
        found == occurs_at(text@, pattern@, place as int),
{
    let length: usize = pattern.unicode_len();
    let total: usize = text.unicode_len();
    let mut i: usize = 0;
    while i < length
        invariant
            i <= length,
            length == pattern@.len(),
            total == text@.len(),
            place + length <= total,
            forall|k: int| 0 <= k < i ==> text@[place + k] == pattern@[k],
        decreases length - i,
    {
        if text.get_char(place + i) != pattern.get_char(i) {
            assert(text@.subrange(place as int, place + length)[i as int] != pattern@[i as int]);
            return false;
        }
        i += 1;
    }
    assert(text@.subrange(place as int, place + length) =~= pattern@);
    true
}

/// Places where the pattern does not stand can be passed over in the search
/// for the last one where it does.
proof fn lemma_no_occurrence_past_end(text: Seq<char>, pattern: Seq<char>, from: int, fits: int)
    requires
        fits < from,
        forall|place: int| fits < place <= from ==> !occurs_at(text, pattern, place),
    ensures
        last_occurrence(text, pattern, from) == last_occurrence(text, pattern, fits),
    decreases from - fits,
{
    if fits < from - 1 {
        lemma_no_occurrence_past_end(text, pattern, from - 1, fits);
    }
}

/// What follows the last `pattern` in `text`; all of `text` where the
/// pattern does not occur.
pub fn text_after_last(text: &str, pattern: &str) -> (rest: String)
    ensures
        rest@ == after_last(text@, pattern@),
{
    let length: usize = text.unicode_len();
    let width: usize = pattern.unicode_len();
    if width > length {
        proof {
            lemma_no_occurrence_past_end(text@, pattern@, length as int, -1);
        }
        return String::from_str(text);
    }
    let mut place: usize = length - width;
    proof {
        if place < length {
            lemma_no_occurrence_past_end(text@, pattern@, length as int, place as int);
        }
    }
    loop
        invariant
            place + width <= length,
            length == text@.len(),
            width == pattern@.len(),
            last_occurrence(text@, pattern@, length as int) == last_occurrence(
                text@,
                pattern@,
                place as int,
            ),
        decreases place,
    {
        if stands_at(text, pattern, place) {
            let rest: &str = text.substring_char(place + width, length);
            assert(rest@ =~= text@.skip(place + width));
            return String::from_str(rest);
        }
        if place == 0 {
            assert(last_occurrence(text@, pattern@, -1).is_none());
            return String::from_str(text);
        }
        place -= 1;
    }
}

} // verus!
