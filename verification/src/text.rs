//! White space at the ends of a text.

use vstd::prelude::*;

verus! {

/// The characters that Unicode gives the property White_Space.
pub open spec fn is_white_space(c: char) -> bool {
    ||| 0x09 <= c as u32 <= 0x0d
    ||| c as u32 == 0x20
    ||| c as u32 == 0x85
    ||| c as u32 == 0xa0
    ||| c as u32 == 0x1680
    ||| 0x2000 <= c as u32 <= 0x200a
    ||| c as u32 == 0x2028
    ||| c as u32 == 0x2029
    ||| c as u32 == 0x202f
    ||| c as u32 == 0x205f
    ||| c as u32 == 0x3000
}

/// A text without the white space at its two ends.
pub open spec fn trimmed(text: Seq<char>) -> Seq<char>
    decreases text.len(),
{
    if text.len() == 0 {
        text
    } else if is_white_space(text.first()) {
        trimmed(text.drop_first())
    } else if is_white_space(text.last()) {
        trimmed(text.drop_last())
    } else {
        text
    }
}

/// `str::trim` of the standard library: the text without leading and trailing
/// white space, as Unicode defines white space.
pub assume_specification[ str::trim ](text: &str) -> (result: &str)
    ensures
        result@ == trimmed(text@),
;

/// A trimmed text starts and ends with no white space, so trimming it again
/// changes nothing.
pub proof fn trimming_is_idempotent(text: Seq<char>)
    ensures
        trimmed(text).len() > 0 ==> !is_white_space(trimmed(text).first()),
        trimmed(text).len() > 0 ==> !is_white_space(trimmed(text).last()),
        trimmed(trimmed(text)) == trimmed(text),
    decreases text.len(),
{
    if text.len() > 0 {
        if is_white_space(text.first()) {
            trimming_is_idempotent(text.drop_first());
        } else if is_white_space(text.last()) {
            trimming_is_idempotent(text.drop_last());
        }
    }
}

/// Trimming leaves a stretch of the text, and leaves out nothing but white space.
pub proof fn trimming_leaves_out_white_space_alone(text: Seq<char>)
    ensures
        exists|start: int, end: int|
            #![trigger text.subrange(start, end)]
            0 <= start <= end <= text.len() && trimmed(text) == text.subrange(start, end) && (
            forall|i: int|
                0 <= i < text.len() && !(start <= i < end) ==> is_white_space(#[trigger] text[i])),
    decreases text.len(),
{
    if text.len() > 0 && is_white_space(text.first()) {
        let rest = text.drop_first();
        trimming_leaves_out_white_space_alone(rest);
        let (start, end) = choose|start: int, end: int|
            #![trigger rest.subrange(start, end)]
            0 <= start <= end <= rest.len() && trimmed(rest) == rest.subrange(start, end) && (
            forall|i: int|
                0 <= i < rest.len() && !(start <= i < end) ==> is_white_space(#[trigger] rest[i]));
        assert(text.subrange(start + 1, end + 1) =~= rest.subrange(start, end));
        assert forall|i: int|
            0 <= i < text.len() && !(start + 1 <= i < end + 1) implies is_white_space(
            #[trigger] text[i],
        ) by {
            if i > 0 {
                assert(rest[i - 1] == text[i]);
            }
        }
    } else if text.len() > 0 && is_white_space(text.last()) {
        let rest = text.drop_last();
        trimming_leaves_out_white_space_alone(rest);
        let (start, end) = choose|start: int, end: int|
            #![trigger rest.subrange(start, end)]
            0 <= start <= end <= rest.len() && trimmed(rest) == rest.subrange(start, end) && (
            forall|i: int|
                0 <= i < rest.len() && !(start <= i < end) ==> is_white_space(#[trigger] rest[i]));
        assert(text.subrange(start, end) =~= rest.subrange(start, end));
        assert forall|i: int|
            0 <= i < text.len() && !(start <= i < end) implies is_white_space(
            #[trigger] text[i],
        ) by {
            if i < rest.len() {
                assert(rest[i] == text[i]);
            }
        }
    } else {
        assert(text.subrange(0, text.len() as int) =~= text);
    }
}

/// A text without white space at its ends stays as it is.
pub proof fn trimming_keeps_the_rest(text: Seq<char>)
    requires
        text.len() > 0,
        !is_white_space(text.first()),
        !is_white_space(text.last()),
    ensures
        trimmed(text) == text,
{
}

} // verus!
