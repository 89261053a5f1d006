//! Work on texts by their characters: reading a number, searching a text for
//! another, and replacing one text by another.

use vstd::prelude::*;

verus! {

/// `needle` occurs in `text` as a run of consecutive characters. Letters
/// match by case.
pub open spec fn is_substring(needle: Seq<char>, text: Seq<char>) -> bool {
    exists|at: int|
        0 <= at && at + needle.len() <= text.len() && #[trigger] text.subrange(
            at,
            at + needle.len(),
        ) == needle
}

/// The text with each occurrence of `from` replaced by `to`, the
/// occurrences taken from left to right and never overlapping. An empty
/// `from` occurs nowhere.
pub open spec fn replaced(text: Seq<char>, from: Seq<char>, to: Seq<char>) -> Seq<char>
    decreases text.len(),
{
    if from.len() == 0 || text.len() < from.len() {
        text
    } else if text.subrange(0, from.len() as int) == from {
        to + replaced(text.skip(from.len() as int), from, to)
    } else {
        seq![text[0]] + replaced(text.skip(1), from, to)
    }
}

/// One of the ten digits `0` to `9`.
pub open spec fn is_digit(c: char) -> bool {
    '0' <= c <= '9'
}

/// Every character of the text is a digit.
pub open spec fn all_digits(text: Seq<char>) -> bool {
    forall|i: int| 0 <= i < text.len() ==> is_digit(#[trigger] text[i])
}

/// The number that a run of digits stands for in base ten; zero for no
/// digits.
pub open spec fn digits_number(digits: Seq<char>) -> int
    decreases digits.len(),
{
    if digits.len() == 0 {
        0
    } else {
        digits_number(digits.drop_last()) * 10 + (digits.last() as int - '0' as int)
    }
}

/// The text begins with a sign, `+` or `-`.
pub open spec fn has_sign(text: Seq<char>) -> bool {
    text.len() > 0 && (text[0] == '+' || text[0] == '-')
}

/// The text without its sign, if it has one.
pub open spec fn unsigned_part(text: Seq<char>) -> Seq<char> {
    if has_sign(text) {
        text.drop_first()
    } else {
        text
    }
}

/// The number that a text stands for: an optional sign and then one or more
/// digits and nothing else, with a value that an `i32` can hold. `None` for
/// any other text.
pub open spec fn parsed_index(text: Seq<char>) -> Option<i32> {
    let digits = unsigned_part(text);
    let number = if has_sign(text) && text[0] == '-' {
        -digits_number(digits)
    } else {
        digits_number(digits)
    };
    if digits.len() > 0 && all_digits(digits) && i32::MIN <= number <= i32::MAX {
        Some(number as i32)
    } else {
        None
    }
}

/// The characters of a text.
pub fn characters(text: &str) -> (chars: Vec<char>)
    ensures
        chars@ == text@,
{
    let mut chars: Vec<char> = Vec::new();
    for c in iter: text.chars()
        invariant
            iter.seq() == text@,
            chars@ == text@.take(iter.index() as int),
    {
        chars.push(c);
        assert(chars@ =~= text@.take(iter.index() + 1));
    }
    assert(text@.take(text@.len() as int) =~= text@);
    chars
}

/// The two texts are the same.
pub fn same_text(left: &str, right: &str) -> (same: bool)
    ensures
        same == (left@ == right@),
{
    left.to_owned() == right.to_owned()
}

/// A run of digits stands for a number that is not negative, and a longer
/// run that begins with it stands for no smaller number.
proof fn lemma_digits_number_grows(digits: Seq<char>, shorter: int)
    requires
        all_digits(digits),
        0 <= shorter <= digits.len(),
    ensures
        0 <= digits_number(digits.take(shorter)) <= digits_number(digits),
    decreases digits.len() - shorter,
{
    if shorter == digits.len() {
        assert(digits.take(shorter) =~= digits);
        lemma_digits_number_not_negative(digits);
    } else {
        lemma_digits_number_grows(digits, shorter + 1);
        let longer = digits.take(shorter + 1);
        assert(longer.drop_last() =~= digits.take(shorter));
        assert(is_digit(digits[shorter]));
        assert(longer.last() == digits[shorter]);
        lemma_digits_number_not_negative(digits.take(shorter));
    }
}

/// A run of digits stands for a number that is not negative.
proof fn lemma_digits_number_not_negative(digits: Seq<char>)
    requires
        all_digits(digits),
    ensures
        0 <= digits_number(digits),
    decreases digits.len(),
{
    if digits.len() > 0 {
        lemma_digits_number_not_negative(digits.drop_last());
        assert(is_digit(digits.last()));
    }
}

/// Reads a number from a text: an optional sign, then digits only. `None`
/// for a text that is no number or stands for a number that an `i32` cannot
/// hold.
pub fn parse_index(text: &str) -> (index: Option<i32>)
    ensures
        index == parsed_index(text@),
{
    let chars = characters(text);
    let len: usize = chars.len();
    let signed: bool = len > 0 && (chars[0] == '+' || chars[0] == '-');
    let negative: bool = signed && chars[0] == '-';
    let first: usize = if signed {
        1
    } else {
        0
    };
    let ghost digits = unsigned_part(chars@);
    assert(digits =~= chars@.skip(first as int));
    if first == len {
        return None;
    }
    let mut number: i64 = 0;
    let mut at: usize = first;
    assert(digits.take(0) =~= Seq::empty());
    while at < len
        invariant
            first <= at <= len,
            len == chars@.len(),
            chars@ == text@,
            digits == unsigned_part(text@),
            digits == chars@.skip(first as int),
            all_digits(digits.take(at - first)),
            number == digits_number(digits.take(at - first)),
            0 <= number <= 2147483648,
        decreases len - at,
    {
        let c = chars[at];
        assert(c == digits[at - first]);
        if !('0' <= c && c <= '9') {
            assert(!is_digit(digits[at - first]));
            return None;
        }
        let digit: i64 = (c as u32 - '0' as u32) as i64;
        let ghost longer = digits.take(at - first + 1);
        assert(longer.drop_last() =~= digits.take(at - first));
        assert(longer.last() == c);
        number = number * 10 + digit;
        if number > 2147483648 {
            proof {
                if all_digits(digits) {
                    lemma_digits_number_grows(digits, at - first + 1);
                    assert(digits_number(digits) > 2147483648);
                }
            }
            return None;
        }
        at = at + 1;
    }
    assert(digits.take(len - first) =~= digits);
    if negative {
        Some((-number) as i32)
    } else if number > 2147483647 {
        None
    } else {
        Some(number as i32)
    }
}

/// The pattern stands in the text at the position `at`.
fn matches_at(chars: &Vec<char>, at: usize, pattern: &Vec<char>) -> (found: bool)
    requires
        at + pattern.len() <= chars.len(),
    ensures
        found == (chars@.subrange(at as int, at + pattern.len()) == pattern@),
{
    let ghost stretch = chars@.subrange(at as int, at + pattern.len());
    let mut offset: usize = 0;
    while offset < pattern.len()
        invariant
            offset <= pattern.len(),
            at + pattern.len() <= chars.len(),
            stretch == chars@.subrange(at as int, at + pattern.len()),
            forall|k: int| 0 <= k < offset ==> stretch[k] == pattern@[k],
        decreases pattern.len() - offset,
    {
        if chars[at + offset] != pattern[offset] {
            assert(stretch[offset as int] != pattern@[offset as int]);
            return false;
        }
        offset = offset + 1;
    }
    assert(stretch =~= pattern@);
    true
}

/// Says whether `keyword` occurs in `text`. The empty keyword occurs in
/// every text.
pub fn contains(text: &str, keyword: &str) -> (found: bool)
    ensures
        found == is_substring(keyword@, text@),
{
    let chars = characters(text);
    let pattern = characters(keyword);
    if pattern.len() == 0 {
        assert(keyword@.len() == 0);
        assert(text@.subrange(0int, 0int + keyword@.len()) =~= keyword@);
        return true;
    }
    if pattern.len() > chars.len() {
        return false;
    }
    let last: usize = chars.len() - pattern.len();
    let mut at: usize = 0;
    while at <= last
        invariant
            at <= last + 1,
            pattern.len() > 0,
            last + pattern.len() == chars.len(),
            chars@ == text@,
            pattern@ == keyword@,
            forall|a: int|
                0 <= a < at ==> #[trigger] chars@.subrange(a, a + pattern.len()) != pattern@,
        decreases last + 1 - at,
    {
        if matches_at(&chars, at, &pattern) {
            return true;
        }
        at = at + 1;
    }
    false
}

/// The text with each occurrence of `from` replaced by `to`; see
/// [`replaced`].
pub fn replace(text: &str, from: &str, to: &str) -> (result: String)
    ensures
        result@ == replaced(text@, from@, to@),
{
    let chars = characters(text);
    let pattern = characters(from);
    let len: usize = chars.len();
    let width: usize = pattern.len();
    if width == 0 || width > len {
        return text.to_owned();
    }
    let ghost whole = replaced(text@, from@, to@);
    let mut result = String::new();
    let mut copied: usize = 0;
    let mut at: usize = 0;
    assert(text@.skip(0) =~= text@);
    assert(result@ + (text@.subrange(0, 0) + replaced(text@.skip(0), from@, to@)) =~= whole);
    while at <= len - width
        invariant
            copied <= at <= len,
            0 < width <= len,
            len == chars@.len(),
            width == pattern@.len(),
            chars@ == text@,
            pattern@ == from@,
            whole == replaced(text@, from@, to@),
            result@ + (text@.subrange(copied as int, at as int) + replaced(
                text@.skip(at as int),
                from@,
                to@,
            )) == whole,
        decreases len - at,
    {
        let ghost rest = text@.skip(at as int);
        assert(rest.subrange(0, width as int) =~= text@.subrange(at as int, at + width));
        if matches_at(&chars, at, &pattern) {
            let ghost before = result@;
            let ghost run = text@.subrange(copied as int, at as int);
            result.append(text.substring_char(copied, at));
            result.append(to);
            assert(rest.skip(width as int) =~= text@.skip(at + width));
            assert(result@ + (text@.subrange(at + width, at + width) + replaced(
                text@.skip(at + width),
                from@,
                to@,
            )) =~= before + (run + replaced(rest, from@, to@)));
            at = at + width;
            copied = at;
        } else {
            assert(rest.skip(1) =~= text@.skip(at + 1));
            assert(text@.subrange(copied as int, at + 1) + replaced(
                text@.skip(at + 1),
                from@,
                to@,
            ) =~= text@.subrange(copied as int, at as int) + replaced(rest, from@, to@));
            at = at + 1;
        }
    }
    assert(text@.subrange(copied as int, at as int) + text@.skip(at as int) =~= text@.subrange(
        copied as int,
        len as int,
    ));
    result.append(text.substring_char(copied, len));
    result
}

} // verus!
