//! Reading a generated plan out of the reply of the plan service.
//!
//! The reply is free text. The plan is the first block of it that stands
//! between two fences of three backticks, the opening fence with or without
//! the word `json` behind it; the block holds a JSON list of texts, one for
//! each step.

use crate::def::texts_view;
use crate::text::{characters, replace, replaced};
use vstd::prelude::*;

verus! {

/// Why a reply holds no plan.
#[derive(Debug, Clone, Copy, PartialEq, Eq, Structural)]
pub enum ReplyError {
    /// The reply has no block between two fences.
    NoContent,
    /// The block is not a JSON list of texts.
    NotAList,
}

/// White space: the characters that Unicode gives the property
/// `White_Space`.
pub open spec fn is_space(c: char) -> bool {
    let code = c as u32;
    ||| 0x09 <= code <= 0x0D
    ||| code == 0x20
    ||| code == 0x85
    ||| code == 0xA0
    ||| code == 0x1680
    ||| 0x2000 <= code <= 0x200A
    ||| code == 0x2028
    ||| code == 0x2029
    ||| code == 0x202F
    ||| code == 0x205F
    ||| code == 0x3000
}

/// Three backticks stand at the position `at`.
pub open spec fn has_fence_at(text: Seq<char>, at: int) -> bool {
    0 <= at && at + 3 <= text.len() && text[at] == '`' && text[at + 1] == '`' && text[at + 2]
        == '`'
}

/// The first position from `from` on at which three backticks stand.
pub open spec fn first_fence_from(text: Seq<char>, from: int) -> Option<int>
    decreases text.len() - from,
{
    if from < 0 || from + 3 > text.len() {
        None
    } else if has_fence_at(text, from) {
        Some(from)
    } else {
        first_fence_from(text, from + 1)
    }
}

/// The text without the white space at its start.
pub open spec fn trim_start(text: Seq<char>) -> Seq<char>
    decreases text.len(),
{
    if text.len() > 0 && is_space(text[0]) {
        trim_start(text.drop_first())
    } else {
        text
    }
}

/// The text without the white space at its end.
pub open spec fn trim_end(text: Seq<char>) -> Seq<char>
    decreases text.len(),
{
    if text.len() > 0 && is_space(text.last()) {
        trim_end(text.drop_last())
    } else {
        text
    }
}

/// The text without the white space at its start and at its end.
pub open spec fn trimmed(text: Seq<char>) -> Seq<char> {
    trim_end(trim_start(text))
}

/// The first fenced block of a text: what stands between the first fence
/// and the next fence behind it, without the white space around it. `None`
/// where the text has no two fences.
pub open spec fn fenced_block(text: Seq<char>) -> Option<Seq<char>> {
    match first_fence_from(text, 0) {
        Some(open) => match first_fence_from(text, open + 3) {
            Some(close) => Some(trimmed(text.subrange(open + 3, close))),
            None => None,
        },
        None => None,
    }
}

/// The list of texts that a JSON text stands for, as
/// `serde_json::from_str::<Vec<String>>` reads it; `None` where that
/// function reports an error.
pub uninterp spec fn decoded_list(json: Seq<char>) -> Option<Seq<Seq<char>>>;

/// The plan that a reply holds: the list in its first fenced block, a fence
/// with the word `json` behind it counting as a plain fence.
pub open spec fn reply_plans(content: Seq<char>) -> Result<Seq<Seq<char>>, ReplyError> {
    match fenced_block(replaced(content, "```json"@, "```"@)) {
        Some(block) => match decoded_list(block) {
            Some(details) => Ok(details),
            None => Err(ReplyError::NotAList),
        },
        None => Err(ReplyError::NoContent),
    }
}

/// Not verified: `serde_json::from_str` for a `Vec<String>`. What it
/// accepts is named by `decoded_list`.
#[verifier::external_body]
fn decode_list(json: &str) -> (details: Option<Vec<String>>)
    ensures
        match details {
            Some(list) => decoded_list(json@) == Some(texts_view(list@)),
            None => decoded_list(json@) is None,
        },
{
    serde_json::from_str::<Vec<String>>(json).ok()
}

/// The character is white space.
fn is_space_char(c: char) -> (space: bool)
    ensures
        space == is_space(c),
{
    let code: u32 = c as u32;
    (0x09 <= code && code <= 0x0D) || code == 0x20 || code == 0x85 || code == 0xA0 || code
        == 0x1680 || (0x2000 <= code && code <= 0x200A) || code == 0x2028 || code == 0x2029
        || code == 0x202F || code == 0x205F || code == 0x3000
}

/// The first position from `from` on at which three backticks stand.
fn find_fence(chars: &Vec<char>, from: usize) -> (found: Option<usize>)
    ensures
        match found {
            Some(at) => first_fence_from(chars@, from as int) == Some(at as int) && from <= at
                && at + 3 <= chars@.len(),
            None => first_fence_from(chars@, from as int) is None,
        },
{
    let len: usize = chars.len();
    let mut at: usize = from;
    while at < len && len - at >= 3
        invariant
            from <= at,
            len == chars@.len(),
            first_fence_from(chars@, from as int) == first_fence_from(chars@, at as int),
        decreases len - at,
    {
        if chars[at] == '`' && chars[at + 1] == '`' && chars[at + 2] == '`' {
            return Some(at);
        }
        at = at + 1;
    }
    None
}

/// The bounds of a stretch of a text without the white space at its two
/// ends.
fn trim_bounds(chars: &Vec<char>, from: usize, to: usize) -> (bounds: (usize, usize))
    requires
        from <= to <= chars@.len(),
    ensures
        from <= bounds.0 <= bounds.1 <= to,
        chars@.subrange(bounds.0 as int, bounds.1 as int) == trimmed(
            chars@.subrange(from as int, to as int),
        ),
{
    let ghost text = chars@;
    let mut start: usize = from;
    while start < to && is_space_char(chars[start])
        invariant
            from <= start <= to <= chars@.len(),
            text == chars@,
            trim_start(text.subrange(from as int, to as int)) == trim_start(
                text.subrange(start as int, to as int),
            ),
        decreases to - start,
    {
        assert(text.subrange(start as int, to as int).drop_first() =~= text.subrange(
            start + 1,
            to as int,
        ));
        start = start + 1;
    }
    let mut end: usize = to;
    while start < end && is_space_char(chars[end - 1])
        invariant
            start <= end <= to <= chars@.len(),
            text == chars@,
            trim_end(text.subrange(start as int, to as int)) == trim_end(
                text.subrange(start as int, end as int),
            ),
        decreases end - start,
    {
        assert(text.subrange(start as int, end as int).drop_last() =~= text.subrange(
            start as int,
            end - 1,
        ));
        end = end - 1;
    }
    (start, end)
}

/// The first fenced block of a text; see [`fenced_block`].
pub fn first_fenced_block(text: &str) -> (block: Option<String>)
    ensures
        match block {
            Some(inner) => fenced_block(text@) == Some(inner@),
            None => fenced_block(text@) is None,
        },
{
    let chars = characters(text);
    let open = match find_fence(&chars, 0) {
        Some(at) => at,
        None => {
            return None;
        },
    };
    let close = match find_fence(&chars, open + 3) {
        Some(at) => at,
        None => {
            return None;
        },
    };
    let (start, end) = trim_bounds(&chars, open + 3, close);
    Some(text.substring_char(start, end).to_owned())
}

/// Reads the plan out of a reply: the details of its steps, in their order.
///
/// Fails with `NoContent` where the reply has no fenced block and with
/// `NotAList` where the block is not a JSON list of texts.
pub fn plans_from_reply(content: &str) -> (result: Result<Vec<String>, ReplyError>)
    ensures
        match result {
            Ok(details) => reply_plans(content@) == Ok::<Seq<Seq<char>>, ReplyError>(
                texts_view(details@),
            ),
            Err(error) => reply_plans(content@) == Err::<Seq<Seq<char>>, ReplyError>(error),
        },
{
    let plain = replace(content, "```json", "```");
    match first_fenced_block(plain.as_str()) {
        Some(block) => match decode_list(block.as_str()) {
            Some(details) => Ok(details),
            None => Err(ReplyError::NotAList),
        },
        None => Err(ReplyError::NoContent),
    }
}

} // verus!
