//! Reading does not look ahead.
//!
//! What is read from the beginning of a text is read alike from every text
//! that begins so. It follows that a written text that was cut short is not
//! read as a container.

use crate::crypt::SerializableView;
use crate::text::grammar::{
    elements_end, hex4, is_at, long_escape, member_from, members_end, members_from,
    number_end, object_fields, rendered, skip_digits, skip_ws, string_from, string_item,
    value_end, word_end, Seen,
};
use crate::text::laws::lemma_rendered_members;
use vstd::prelude::*;

verus! {

/// `long` begins with `short`.
pub open spec fn begins_with(long: Seq<char>, short: Seq<char>) -> bool {
    &&& short.len() <= long.len()
    &&& forall|i: int| 0 <= i < short.len() ==> #[trigger] short[i] == long[i]
}

/// Passing over white space goes forward, and not beyond the text.
proof fn lemma_skip_ws_bounds(text: Seq<char>, i: int)
    requires
        0 <= i,
    ensures
        i <= skip_ws(text, i),
        skip_ws(text, i) <= text.len() || skip_ws(text, i) == i,
    decreases text.len() - i,
{
    if i < text.len() && crate::text::grammar::is_ws(text[i]) {
        lemma_skip_ws_bounds(text, i + 1);
    }
}

/// Passing over digits goes forward, and not beyond the text.
proof fn lemma_skip_digits_bounds(text: Seq<char>, i: int)
    requires
        0 <= i,
    ensures
        i <= skip_digits(text, i),
        skip_digits(text, i) <= text.len() || skip_digits(text, i) == i,
    decreases text.len() - i,
{
    if i < text.len() && crate::text::grammar::is_digit(text[i]) {
        lemma_skip_digits_bounds(text, i + 1);
    }
}

/// White space that ends inside the beginning ends there in the whole.
proof fn lemma_skip_ws_extends(long: Seq<char>, short: Seq<char>, i: int)
    requires
        begins_with(long, short),
        0 <= i,
        skip_ws(short, i) < short.len(),
    ensures
        skip_ws(long, i) == skip_ws(short, i),
    decreases short.len() - i,
{
    lemma_skip_ws_bounds(short, i);
    assert(short[i] == long[i]);
    if crate::text::grammar::is_ws(short[i]) {
        lemma_skip_ws_extends(long, short, i + 1);
    }
}

/// Digits that end inside the beginning end there in the whole.
proof fn lemma_skip_digits_extends(long: Seq<char>, short: Seq<char>, i: int)
    requires
        begins_with(long, short),
        0 <= i,
        skip_digits(short, i) < short.len(),
    ensures
        skip_digits(long, i) == skip_digits(short, i),
    decreases short.len() - i,
{
    lemma_skip_digits_bounds(short, i);
    assert(short[i] == long[i]);
    if crate::text::grammar::is_digit(short[i]) {
        lemma_skip_digits_extends(long, short, i + 1);
    }
}

/// Four digits read from the beginning are read alike from the whole.
proof fn lemma_hex4_extends(long: Seq<char>, short: Seq<char>, i: int)
    requires
        begins_with(long, short),
        hex4(short, i) is Some,
    ensures
        hex4(long, i) == hex4(short, i),
{
    assert(short[i] == long[i]);
    assert(short[i + 1] == long[i + 1]);
    assert(short[i + 2] == long[i + 2]);
    assert(short[i + 3] == long[i + 3]);
}

/// A long escape read from the beginning is read alike from the whole.
proof fn lemma_long_escape_extends(long: Seq<char>, short: Seq<char>, i: int)
    requires
        begins_with(long, short),
        long_escape(short, i) is Some,
    ensures
        long_escape(long, i) == long_escape(short, i),
{
    lemma_hex4_extends(long, short, i);
    let high = hex4(short, i)->0;
    if !(high < 0xD800 || 0xE000 <= high) {
        assert(short[i + 4] == long[i + 4]);
        assert(short[i + 5] == long[i + 5]);
        lemma_hex4_extends(long, short, i + 6);
    }
}

/// A character read from the beginning is read alike from the whole.
proof fn lemma_item_extends(long: Seq<char>, short: Seq<char>, i: int)
    requires
        begins_with(long, short),
        string_item(short, i) is Some,
    ensures
        string_item(long, i) == string_item(short, i),
        i < string_item(short, i).unwrap().1 <= short.len(),
{
    assert(short[i] == long[i]);
    if short[i] == '\\' {
        assert(short[i + 1] == long[i + 1]);
        if short[i + 1] == 'u' {
            lemma_long_escape_extends(long, short, i + 2);
        }
    }
}

/// A string that is read from the beginning of a text is read alike from
/// the whole.
proof fn lemma_string_extends(long: Seq<char>, short: Seq<char>, i: int)
    requires
        begins_with(long, short),
        string_from(short, i) is Some,
    ensures
        string_from(long, i) == string_from(short, i),
        i < string_from(short, i).unwrap().1 <= short.len(),
    decreases short.len() - i,
{
    if is_at(short, i, '"') {
        assert(short[i] == long[i]);
    } else {
        lemma_item_extends(long, short, i);
        assert(short[i] == long[i]);
        let next = string_item(short, i).unwrap().1;
        lemma_string_extends(long, short, next);
    }
}

/// A number ends behind its start.
proof fn lemma_number_bounds(text: Seq<char>, i: int)
    requires
        0 <= i,
        number_end(text, i) is Some,
    ensures
        i < number_end(text, i).unwrap(),
{
    let digits = if is_at(text, i, '-') {
        i + 1
    } else {
        i
    };
    lemma_skip_digits_bounds(text, digits);
    lemma_skip_digits_bounds(text, digits + 1);
    let whole = if text[digits] == '0' {
        digits + 1
    } else {
        skip_digits(text, digits)
    };
    assert(digits < whole);
    lemma_skip_digits_bounds(text, whole + 1);
    let fraction = if is_at(text, whole, '.') {
        skip_digits(text, whole + 1)
    } else {
        whole
    };
    lemma_skip_digits_bounds(text, fraction + 1);
    lemma_skip_digits_bounds(text, fraction + 2);
}

/// A value starts inside the text and ends behind its start.
proof fn lemma_value_bounds(text: Seq<char>, i: int, depth: nat)
    requires
        value_end(text, i, depth) is Some,
    ensures
        0 <= i < text.len(),
        i < value_end(text, i, depth).unwrap(),
    decreases depth, text.len() - i, 0nat,
{
    let c = text[i];
    if c == '"' {
        lemma_string_extends(text, text, i + 1);
    } else if c == '[' {
        lemma_skip_ws_bounds(text, i + 1);
        lemma_elements_bounds(text, skip_ws(text, i + 1), (depth - 1) as nat, true);
    } else if c == '{' {
        lemma_skip_ws_bounds(text, i + 1);
        lemma_members_end_bounds(text, skip_ws(text, i + 1), (depth - 1) as nat, true);
    } else if c == 't' || c == 'f' || c == 'n' {
    } else {
        lemma_number_bounds(text, i);
    }
}

/// An array starts inside the text and ends behind its start.
proof fn lemma_elements_bounds(text: Seq<char>, i: int, depth: nat, first: bool)
    requires
        0 <= i,
        elements_end(text, i, depth, first) is Some,
    ensures
        i < text.len(),
        i < elements_end(text, i, depth, first).unwrap(),
    decreases depth, text.len() - i, 1nat,
{
    if first && is_at(text, i, ']') {
    } else {
        lemma_value_bounds(text, i, depth);
        let end = value_end(text, i, depth).unwrap();
        lemma_skip_ws_bounds(text, end);
        let next = skip_ws(text, end);
        if !is_at(text, next, ']') {
            lemma_elements_bounds(text, skip_ws(text, next + 1), depth, false);
        }
    }
}

/// An object starts inside the text and ends behind its start.
proof fn lemma_members_end_bounds(text: Seq<char>, i: int, depth: nat, first: bool)
    requires
        0 <= i,
        members_end(text, i, depth, first) is Some,
    ensures
        i < text.len(),
        i < members_end(text, i, depth, first).unwrap(),
    decreases depth, text.len() - i, 1nat,
{
    if first && is_at(text, i, '}') {
    } else {
        let start = skip_ws(text, skip_ws(text, string_from(text, i + 1).unwrap().1) + 1);
        lemma_value_bounds(text, start, depth);
        let end = value_end(text, start, depth).unwrap();
        lemma_skip_ws_bounds(text, end);
        let next = skip_ws(text, end);
        if !is_at(text, next, '}') {
            lemma_members_end_bounds(text, skip_ws(text, next + 1), depth, false);
        }
    }
}

/// A number that ends inside the beginning is read alike from the whole.
proof fn lemma_number_extends(long: Seq<char>, short: Seq<char>, i: int)
    requires
        begins_with(long, short),
        0 <= i,
        number_end(short, i) is Some,
        number_end(short, i).unwrap() < short.len(),
    ensures
        number_end(long, i) == number_end(short, i),
        i < number_end(short, i).unwrap(),
{
    let digits = if is_at(short, i, '-') {
        i + 1
    } else {
        i
    };
    assert(short[i] == long[i]);
    assert(short[digits] == long[digits]);
    lemma_skip_digits_bounds(short, digits);
    lemma_skip_digits_bounds(short, digits + 1);
    let whole = if short[digits] == '0' {
        digits + 1
    } else {
        skip_digits(short, digits)
    };
    assert(digits < whole);
    lemma_skip_digits_bounds(short, whole + 1);
    let fraction = if is_at(short, whole, '.') {
        skip_digits(short, whole + 1)
    } else {
        whole
    };
    lemma_skip_digits_bounds(short, fraction + 1);
    lemma_skip_digits_bounds(short, fraction + 2);
    assert(whole <= fraction);
    assert(fraction <= number_end(short, i).unwrap());
    if short[digits] != '0' {
        lemma_skip_digits_extends(long, short, digits);
    }
    assert(short[whole] == long[whole]);
    if is_at(short, whole, '.') {
        lemma_skip_digits_extends(long, short, whole + 1);
    }
    assert(short[fraction] == long[fraction]);
    if is_at(short, fraction, 'e') || is_at(short, fraction, 'E') {
        assert(short[fraction + 1] == long[fraction + 1]);
        let exponent = if is_at(short, fraction + 1, '+') || is_at(short, fraction + 1, '-') {
            fraction + 2
        } else {
            fraction + 1
        };
        lemma_skip_digits_extends(long, short, exponent);
    }
}

/// A word read from the beginning is read alike from the whole.
proof fn lemma_word_extends(long: Seq<char>, short: Seq<char>, i: int, word: Seq<char>)
    requires
        begins_with(long, short),
        word_end(short, i, word) is Some,
    ensures
        word_end(long, i, word) == word_end(short, i, word),
{
    assert forall|k: int| 0 <= k < word.len() implies long.subrange(i, i + word.len())[k]
        == word[k] by {
        assert(short.subrange(i, i + word.len())[k] == word[k]);
        assert(short[i + k] == long[i + k]);
    }
    assert(long.subrange(i, i + word.len()) =~= word);
}

/// A value that is read from the beginning of a text, and not up to its
/// very end, is read alike from the whole. (A number at the very end could
/// go on.)
proof fn lemma_value_extends(long: Seq<char>, short: Seq<char>, i: int, depth: nat)
    requires
        begins_with(long, short),
        value_end(short, i, depth) is Some,
        value_end(short, i, depth).unwrap() < short.len(),
    ensures
        value_end(long, i, depth) == value_end(short, i, depth),
        i < value_end(short, i, depth).unwrap(),
    decreases depth, short.len() - i, 0nat,
{
    assert(short[i] == long[i]);
    let c = short[i];
    if c == '"' {
        lemma_string_extends(long, short, i + 1);
    } else if c == '[' {
        let start = skip_ws(short, i + 1);
        lemma_skip_ws_bounds(short, i + 1);
        lemma_elements_bounds(short, start, (depth - 1) as nat, true);
        lemma_skip_ws_extends(long, short, i + 1);
        lemma_elements_extends(long, short, start, (depth - 1) as nat, true);
    } else if c == '{' {
        let start = skip_ws(short, i + 1);
        lemma_skip_ws_bounds(short, i + 1);
        lemma_members_end_bounds(short, start, (depth - 1) as nat, true);
        lemma_skip_ws_extends(long, short, i + 1);
        lemma_members_end_extends(long, short, start, (depth - 1) as nat, true);
    } else if c == 't' {
        lemma_word_extends(long, short, i, crate::text::grammar::word_true());
    } else if c == 'f' {
        lemma_word_extends(long, short, i, crate::text::grammar::word_false());
    } else if c == 'n' {
        lemma_word_extends(long, short, i, crate::text::grammar::word_null());
    } else {
        lemma_number_extends(long, short, i);
    }
}

/// An array read from the beginning is read alike from the whole.
proof fn lemma_elements_extends(
    long: Seq<char>,
    short: Seq<char>,
    i: int,
    depth: nat,
    first: bool,
)
    requires
        begins_with(long, short),
        0 <= i,
        elements_end(short, i, depth, first) is Some,
    ensures
        elements_end(long, i, depth, first) == elements_end(short, i, depth, first),
        i < elements_end(short, i, depth, first).unwrap() <= short.len(),
    decreases depth, short.len() - i, 1nat,
{
    if first && is_at(short, i, ']') {
        assert(short[i] == long[i]);
    } else {
        let end = value_end(short, i, depth).unwrap();
        assert(short[i] == long[i]);
        lemma_value_bounds(short, i, depth);
        lemma_skip_ws_bounds(short, end);
        let next = skip_ws(short, end);
        lemma_value_extends(long, short, i, depth);
        lemma_skip_ws_extends(long, short, end);
        assert(short[next] == long[next]);
        if !is_at(short, next, ']') {
            let more = skip_ws(short, next + 1);
            lemma_skip_ws_bounds(short, next + 1);
            lemma_elements_bounds(short, more, depth, false);
            lemma_skip_ws_extends(long, short, next + 1);
            lemma_elements_extends(long, short, more, depth, false);
        }
    }
}

/// An object read from the beginning is read alike from the whole.
proof fn lemma_members_end_extends(
    long: Seq<char>,
    short: Seq<char>,
    i: int,
    depth: nat,
    first: bool,
)
    requires
        begins_with(long, short),
        0 <= i,
        members_end(short, i, depth, first) is Some,
    ensures
        members_end(long, i, depth, first) == members_end(short, i, depth, first),
        i < members_end(short, i, depth, first).unwrap() <= short.len(),
    decreases depth, short.len() - i, 1nat,
{
    assert(short[i] == long[i]);
    if first && is_at(short, i, '}') {
    } else {
        lemma_string_extends(long, short, i + 1);
        let after_name = string_from(short, i + 1).unwrap().1;
        lemma_skip_ws_bounds(short, after_name);
        let colon = skip_ws(short, after_name);
        lemma_skip_ws_extends(long, short, after_name);
        assert(short[colon] == long[colon]);
        lemma_skip_ws_bounds(short, colon + 1);
        let start = skip_ws(short, colon + 1);
        lemma_value_bounds(short, start, depth);
        lemma_skip_ws_extends(long, short, colon + 1);
        let end = value_end(short, start, depth).unwrap();
        lemma_skip_ws_bounds(short, end);
        let next = skip_ws(short, end);
        lemma_value_extends(long, short, start, depth);
        lemma_skip_ws_extends(long, short, end);
        assert(short[next] == long[next]);
        if !is_at(short, next, '}') {
            let more = skip_ws(short, next + 1);
            lemma_skip_ws_bounds(short, next + 1);
            lemma_members_end_bounds(short, more, depth, false);
            lemma_skip_ws_extends(long, short, next + 1);
            lemma_members_end_extends(long, short, more, depth, false);
        }
    }
}

/// A member that is read from the beginning of a text, and not up to its
/// very end, is read alike from the whole.
proof fn lemma_member_extends(long: Seq<char>, short: Seq<char>, i: int, seen: Seen)
    requires
        begins_with(long, short),
        0 <= i,
        member_from(short, i, seen) is Some,
        member_from(short, i, seen).unwrap().1 < short.len(),
    ensures
        member_from(long, i, seen) == member_from(short, i, seen),
        i < member_from(short, i, seen).unwrap().1,
{
    assert(short[i] == long[i]);
    lemma_string_extends(long, short, i + 1);
    let (name, after_name) = string_from(short, i + 1).unwrap();
    lemma_skip_ws_bounds(short, after_name);
    let colon = skip_ws(short, after_name);
    lemma_skip_ws_extends(long, short, after_name);
    assert(short[colon] == long[colon]);
    lemma_skip_ws_bounds(short, colon + 1);
    let start = skip_ws(short, colon + 1);
    if crate::text::grammar::field_named(name) is Some {
        assert(short[start] == long[start]);
        lemma_skip_ws_extends(long, short, colon + 1);
        lemma_string_extends(long, short, start + 1);
    } else {
        lemma_value_bounds(short, start, crate::text::grammar::NESTING_LIMIT as nat);
        lemma_skip_ws_extends(long, short, colon + 1);
        lemma_value_extends(long, short, start, crate::text::grammar::NESTING_LIMIT as nat);
    }
}

/// The members that are read from the beginning of a text are read alike
/// from the whole.
proof fn lemma_members_extend(
    long: Seq<char>,
    short: Seq<char>,
    i: int,
    seen: Seen,
    first: bool,
)
    requires
        begins_with(long, short),
        0 <= i,
        members_from(short, i, seen, first) is Some,
    ensures
        members_from(long, i, seen, first) == members_from(short, i, seen, first),
        i < short.len(),
        members_from(short, i, seen, first).unwrap().1 <= short.len(),
    decreases short.len() - i,
{
    if first && is_at(short, i, '}') {
        assert(short[i] == long[i]);
    } else {
        let (seen_after, end) = member_from(short, i, seen).unwrap();
        assert(is_at(short, i, '"'));
        assert(short[i] == long[i]);
        lemma_string_extends(short, short, i + 1);
        lemma_member_ends_behind(short, i, seen);
        lemma_skip_ws_bounds(short, end);
        let next = skip_ws(short, end);
        lemma_member_extends(long, short, i, seen);
        lemma_skip_ws_extends(long, short, end);
        assert(short[next] == long[next]);
        if !is_at(short, next, '}') {
            let more = skip_ws(short, next + 1);
            lemma_skip_ws_bounds(short, next + 1);
            lemma_members_extend(short, short, more, seen_after, false);
            lemma_skip_ws_extends(long, short, next + 1);
            lemma_members_extend(long, short, more, seen_after, false);
        }
    }
}

/// A member ends behind its start.
proof fn lemma_member_ends_behind(text: Seq<char>, i: int, seen: Seen)
    requires
        member_from(text, i, seen) is Some,
    ensures
        i < member_from(text, i, seen).unwrap().1,
{
    lemma_string_extends(text, text, i + 1);
    let (name, after_name) = string_from(text, i + 1).unwrap();
    lemma_skip_ws_bounds(text, after_name);
    let colon = skip_ws(text, after_name);
    lemma_skip_ws_bounds(text, colon + 1);
    let start = skip_ws(text, colon + 1);
    if crate::text::grammar::field_named(name) is Some {
        lemma_string_extends(text, text, start + 1);
    } else {
        lemma_value_bounds(text, start, crate::text::grammar::NESTING_LIMIT as nat);
    }
}

/// Reading goes forward: behind a value or a member that a comma follows,
/// and behind a name that a colon follows, the index at which reading goes on
/// lies further on in the text and not beyond it. The tests of this in the
/// grammar never fail.
pub proof fn lemma_reading_goes_forward(text: Seq<char>, i: int, depth: nat, seen: Seen)
    ensures
        string_from(text, i + 1) matches Some((_, after_name)) ==> {
            let colon = skip_ws(text, after_name);
            is_at(text, colon, ':') ==> i < skip_ws(text, colon + 1) <= text.len()
        },
        value_end(text, i, depth) matches Some(end) ==> {
            let next = skip_ws(text, end);
            is_at(text, next, ',') ==> i < skip_ws(text, next + 1) <= text.len()
        },
        member_from(text, i, seen) matches Some((_, end)) ==> {
            let next = skip_ws(text, end);
            is_at(text, next, ',') ==> i < skip_ws(text, next + 1) <= text.len()
        },
{
    if let Some((_, after_name)) = string_from(text, i + 1) {
        lemma_string_extends(text, text, i + 1);
        lemma_skip_ws_bounds(text, after_name);
        lemma_skip_ws_bounds(text, skip_ws(text, after_name) + 1);
    }
    if let Some(end) = value_end(text, i, depth) {
        lemma_value_bounds(text, i, depth);
        lemma_skip_ws_bounds(text, end);
        lemma_skip_ws_bounds(text, skip_ws(text, end) + 1);
    }
    if let Some((_, end)) = member_from(text, i, seen) {
        lemma_member_ends_behind(text, i, seen);
        lemma_skip_ws_bounds(text, end);
        lemma_skip_ws_bounds(text, skip_ws(text, end) + 1);
    }
}

/// A written text that was cut short, at whatever place, is not read as a
/// container: were it read, its members would end where those of the whole
/// text end, which is behind the cut.
pub proof fn lemma_truncated_text_is_rejected(fields: SerializableView, kept: int)
    requires
        0 <= kept < rendered(fields).len(),
    ensures
        object_fields(rendered(fields).take(kept)) is None,
{
    let whole = rendered(fields);
    let cut = whole.take(kept);
    assert(begins_with(whole, cut));
    lemma_rendered_members(fields);
    if object_fields(cut) is Some {
        lemma_skip_ws_bounds(cut, 0);
        let open = skip_ws(cut, 0);
        lemma_skip_ws_extends(whole, cut, 0);
        assert(skip_ws(whole, 0) == 0);
        lemma_skip_ws_bounds(cut, 1);
        let start = skip_ws(cut, 1);
        lemma_members_extend(cut, cut, start, Seen::nothing(), true);
        lemma_skip_ws_extends(whole, cut, 1);
        assert(skip_ws(whole, 1) == 1);
        lemma_members_extend(whole, cut, 1, Seen::nothing(), true);
    }
}

} // verus!
