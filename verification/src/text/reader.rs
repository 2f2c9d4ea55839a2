//! Reading a container's text.

use crate::chars::chars_of;
use crate::crypt::EncryptedSerializable;
use crate::error::Error;
use crate::text::grammar::{
    elements_end, field_named, hex4, hex_value, is_at, long_escape, member_from, members_end,
    members_from, number_end, object_fields, prepend, short_escape, skip_digits, skip_ws,
    string_from, string_item, value_end, word_end, Field, Seen, NESTING_LIMIT,
};
use vstd::prelude::*;

verus! {

/// Passes over white space.
fn pass_ws(text: &[char], i: usize) -> (end: usize)
    requires
        i <= text@.len(),
    ensures
        end == skip_ws(text@, i as int),
        i <= end <= text@.len(),
{
    let mut j: usize = i;
    while j < text.len() && (text[j] == ' ' || text[j] == '\t' || text[j] == '\n' || text[j]
        == '\r')
        invariant
            i <= j <= text@.len(),
            skip_ws(text@, i as int) == skip_ws(text@, j as int),
        decreases text@.len() - j,
    {
        j = j + 1;
    }
    j
}

/// Passes over decimal digits.
fn pass_digits(text: &[char], i: usize) -> (end: usize)
    requires
        i <= text@.len(),
    ensures
        end == skip_digits(text@, i as int),
        i <= end <= text@.len(),
{
    let mut j: usize = i;
    while j < text.len() && '0' <= text[j] && text[j] <= '9'
        invariant
            i <= j <= text@.len(),
            skip_digits(text@, i as int) == skip_digits(text@, j as int),
        decreases text@.len() - j,
    {
        j = j + 1;
    }
    j
}

/// Reads one hexadecimal digit.
fn hex_digit(c: char) -> (value: Option<u32>)
    ensures
        value == hex_value(c),
        value matches Some(v) ==> v < 16,
{
    if '0' <= c && c <= '9' {
        Some(c as u32 - '0' as u32)
    } else if 'a' <= c && c <= 'f' {
        Some(c as u32 - 'a' as u32 + 10)
    } else if 'A' <= c && c <= 'F' {
        Some(c as u32 - 'A' as u32 + 10)
    } else {
        None
    }
}

/// Reads four hexadecimal digits.
fn read_hex4(text: &[char], i: usize) -> (value: Option<u32>)
    requires
        i <= text@.len(),
    ensures
        value == hex4(text@, i as int),
        value matches Some(v) ==> v <= 0xFFFF && i + 4 <= text@.len(),
{
    if text.len() - i < 4 {
        return None;
    }
    let a = match hex_digit(text[i]) {
        Some(v) => v,
        None => {
            return None;
        },
    };
    let b = match hex_digit(text[i + 1]) {
        Some(v) => v,
        None => {
            return None;
        },
    };
    let c = match hex_digit(text[i + 2]) {
        Some(v) => v,
        None => {
            return None;
        },
    };
    let d = match hex_digit(text[i + 3]) {
        Some(v) => v,
        None => {
            return None;
        },
    };
    Some(((a * 16 + b) * 16 + c) * 16 + d)
}

/// Reads what follows `\u`: one escape, or two for a surrogate pair.
fn read_long_escape(text: &[char], i: usize) -> (item: Option<(char, usize)>)
    requires
        i <= text@.len(),
    ensures
        match item {
            Some((c, next)) => long_escape(text@, i as int) == Some((c, next as int)) && i < next
                <= text@.len(),
            None => long_escape(text@, i as int) is None,
        },
{
    let high = match read_hex4(text, i) {
        Some(v) => v,
        None => {
            return None;
        },
    };
    let len = text.len();
    if high < 0xD800 || 0xE000 <= high {
        match char::from_u32(high) {
            Some(c) => Some((c, i + 4)),
            None => None,
        }
    } else if high < 0xDC00 && len - i >= 6 && text[i + 4] == '\\' && text[i + 5] == 'u' {
        let low = match read_hex4(text, i + 6) {
            Some(v) => v,
            None => {
                return None;
            },
        };
        if 0xDC00 <= low && low < 0xE000 {
            match char::from_u32(0x1_0000 + (high - 0xD800) * 0x400 + (low - 0xDC00)) {
                Some(c) => Some((c, i + 10)),
                None => None,
            }
        } else {
            None
        }
    } else {
        None
    }
}

/// Reads a one-letter escape.
fn read_short_escape(c: char) -> (plain: Option<char>)
    ensures
        plain == short_escape(c),
{
    if c == '"' || c == '\\' || c == '/' {
        Some(c)
    } else if c == 'b' {
        Some('\u{8}')
    } else if c == 'f' {
        Some('\u{c}')
    } else if c == 'n' {
        Some('\n')
    } else if c == 'r' {
        Some('\r')
    } else if c == 't' {
        Some('\t')
    } else {
        None
    }
}

/// Reads one character of a string, escaped or not.
fn read_item(text: &[char], i: usize) -> (item: Option<(char, usize)>)
    requires
        i <= text@.len(),
    ensures
        match item {
            Some((c, next)) => string_item(text@, i as int) == Some((c, next as int)) && i < next
                <= text@.len(),
            None => string_item(text@, i as int) is None,
        },
{
    if i >= text.len() {
        None
    } else if text[i] == '\\' {
        if text.len() - i < 2 {
            None
        } else if text[i + 1] == 'u' {
            read_long_escape(text, i + 2)
        } else {
            match read_short_escape(text[i + 1]) {
                Some(c) => Some((c, i + 2)),
                None => None,
            }
        }
    } else if (text[i] as u32) < 0x20 {
        None
    } else {
        Some((text[i], i + 1))
    }
}

/// Reads the string whose opening quote stands just before index `i`.
fn read_string(text: &[char], i: usize) -> (string: Option<(String, usize)>)
    requires
        i <= text@.len(),
    ensures
        match string {
            Some((content, end)) => string_from(text@, i as int) == Some((content@, end as int))
                && i < end <= text@.len(),
            None => string_from(text@, i as int) is None,
        },
{
    let mut content = String::new();
    let mut j: usize = i;
    loop
        invariant
            i <= j <= text@.len(),
            string_from(text@, i as int) == prepend(content@, string_from(text@, j as int)),
        decreases text@.len() - j,
    {
        if j < text.len() && text[j] == '"' {
            assert(content@ + Seq::<char>::empty() =~= content@);
            return Some((content, j + 1));
        }
        match read_item(text, j) {
            None => {
                return None;
            },
            Some((c, next)) => {
                proof {
                    let rest = string_from(text@, next as int);
                    if let Some((tail, end)) = rest {
                        assert(content@ + (seq![c] + tail) =~= content@.push(c) + tail);
                    }
                }
                content.push(c);
                j = next;
            },
        }
    }
}

/// Passes over a number.
fn pass_number(text: &[char], i: usize) -> (end: Option<usize>)
    requires
        i <= text@.len(),
    ensures
        match end {
            Some(end) => number_end(text@, i as int) == Some(end as int) && i < end <= text@.len(),
            None => number_end(text@, i as int) is None,
        },
{
    let len = text.len();
    let digits = if i < len && text[i] == '-' {
        i + 1
    } else {
        i
    };
    if !(digits < len && '0' <= text[digits] && text[digits] <= '9') {
        return None;
    }
    let whole = if text[digits] == '0' {
        digits + 1
    } else {
        pass_digits(text, digits + 1)
    };
    let fraction = if whole < len && text[whole] == '.' {
        let fraction = pass_digits(text, whole + 1);
        if fraction == whole + 1 {
            return None;
        }
        fraction
    } else {
        whole
    };
    if fraction < len && (text[fraction] == 'e' || text[fraction] == 'E') {
        let exponent = if fraction + 1 < len && (text[fraction + 1] == '+' || text[fraction + 1]
            == '-') {
            fraction + 2
        } else {
            fraction + 1
        };
        let end = pass_digits(text, exponent);
        if end == exponent {
            None
        } else {
            Some(end)
        }
    } else {
        Some(fraction)
    }
}

/// Passes over a word.
fn pass_word(text: &[char], i: usize, word: &[char]) -> (end: Option<usize>)
    requires
        i <= text@.len(),
        word@.len() > 0,
    ensures
        match end {
            Some(end) => word_end(text@, i as int, word@) == Some(end as int) && i < end
                <= text@.len(),
            None => word_end(text@, i as int, word@) is None,
        },
{
    let len = text.len();
    if len - i < word.len() {
        return None;
    }
    let mut k: usize = 0;
    while k < word.len()
        invariant
            k <= word@.len(),
            i + word@.len() <= text@.len() == len,
            forall|j: int| 0 <= j < k ==> text@[i + j] == word@[j],
        decreases word@.len() - k,
    {
        if text[i + k] != word[k] {
            assert(text@.subrange(i as int, i + word@.len())[k as int] != word@[k as int]);
            return None;
        }
        k = k + 1;
    }
    assert(text@.subrange(i as int, i + word@.len()) =~= word@);
    Some(i + word.len())
}

/// Passes over the JSON value that starts at index `i`.
fn pass_value(text: &[char], i: usize, depth: usize) -> (end: Option<usize>)
    requires
        i <= text@.len(),
    ensures
        match end {
            Some(end) => value_end(text@, i as int, depth as nat) == Some(end as int) && i < end
                <= text@.len(),
            None => value_end(text@, i as int, depth as nat) is None,
        },
    decreases depth, 0nat,
{
    if i >= text.len() {
        return None;
    }
    let c = text[i];
    if c == '"' {
        match read_string(text, i + 1) {
            Some((_, end)) => Some(end),
            None => None,
        }
    } else if c == '[' {
        if depth == 0 {
            None
        } else {
            let start = pass_ws(text, i + 1);
            pass_elements(text, start, depth - 1)
        }
    } else if c == '{' {
        if depth == 0 {
            None
        } else {
            let start = pass_ws(text, i + 1);
            pass_members(text, start, depth - 1)
        }
    } else if c == 't' {
        pass_word(text, i, vec!['t', 'r', 'u', 'e'].as_slice())
    } else if c == 'f' {
        pass_word(text, i, vec!['f', 'a', 'l', 's', 'e'].as_slice())
    } else if c == 'n' {
        pass_word(text, i, vec!['n', 'u', 'l', 'l'].as_slice())
    } else {
        pass_number(text, i)
    }
}

/// Passes over the elements of an array, up to its closing bracket.
fn pass_elements(text: &[char], i: usize, depth: usize) -> (end: Option<usize>)
    requires
        i <= text@.len(),
    ensures
        match end {
            Some(end) => elements_end(text@, i as int, depth as nat, true) == Some(end as int)
                && i < end <= text@.len(),
            None => elements_end(text@, i as int, depth as nat, true) is None,
        },
    decreases depth, 1nat,
{
    let mut j: usize = i;
    let mut first = true;
    loop
        invariant
            i <= j <= text@.len(),
            elements_end(text@, i as int, depth as nat, true) == elements_end(
                text@,
                j as int,
                depth as nat,
                first,
            ),
        decreases text@.len() - j,
    {
        if first && j < text.len() && text[j] == ']' {
            return Some(j + 1);
        }
        let end = match pass_value(text, j, depth) {
            Some(end) => end,
            None => {
                return None;
            },
        };
        let next = pass_ws(text, end);
        if next < text.len() && text[next] == ']' {
            return Some(next + 1);
        }
        if !(next < text.len() && text[next] == ',') {
            return None;
        }
        j = pass_ws(text, next + 1);
        first = false;
    }
}

/// Passes over the members of an object, up to its closing brace.
fn pass_members(text: &[char], i: usize, depth: usize) -> (end: Option<usize>)
    requires
        i <= text@.len(),
    ensures
        match end {
            Some(end) => members_end(text@, i as int, depth as nat, true) == Some(end as int)
                && i < end <= text@.len(),
            None => members_end(text@, i as int, depth as nat, true) is None,
        },
    decreases depth, 1nat,
{
    let mut j: usize = i;
    let mut first = true;
    loop
        invariant
            i <= j <= text@.len(),
            members_end(text@, i as int, depth as nat, true) == members_end(
                text@,
                j as int,
                depth as nat,
                first,
            ),
        decreases text@.len() - j,
    {
        if first && j < text.len() && text[j] == '}' {
            return Some(j + 1);
        }
        if !(j < text.len() && text[j] == '"') {
            return None;
        }
        let after_name = match read_string(text, j + 1) {
            Some((_, end)) => end,
            None => {
                return None;
            },
        };
        let colon = pass_ws(text, after_name);
        if !(colon < text.len() && text[colon] == ':') {
            return None;
        }
        let start = pass_ws(text, colon + 1);
        let end = match pass_value(text, start, depth) {
            Some(end) => end,
            None => {
                return None;
            },
        };
        let next = pass_ws(text, end);
        if next < text.len() && text[next] == '}' {
            return Some(next + 1);
        }
        if !(next < text.len() && text[next] == ',') {
            return None;
        }
        j = pass_ws(text, next + 1);
        first = false;
    }
}

/// The members read so far, as texts.
struct Found {
    salt: Option<String>,
    nonce: Option<String>,
    ciphertext: Option<String>,
    tag: Option<String>,
}

/// The text of a member, if there is one.
spec fn text_of(value: Option<String>) -> Option<Seq<char>> {
    match value {
        Some(text) => Some(text@),
        None => None,
    }
}

impl View for Found {
    type V = Seen;

    closed spec fn view(&self) -> Seen {
        Seen {
            salt: text_of(self.salt),
            nonce: text_of(self.nonce),
            ciphertext: text_of(self.ciphertext),
            tag: text_of(self.tag),
        }
    }
}

impl Found {
    /// Tells whether a member was read.
    fn has(&self, field: Field) -> (seen: bool)
        ensures
            seen == (self@.get(field) is Some),
    {
        match field {
            Field::Salt => self.salt.is_some(),
            Field::Nonce => self.nonce.is_some(),
            Field::Ciphertext => self.ciphertext.is_some(),
            Field::Tag => self.tag.is_some(),
        }
    }

    /// Keeps the text of a member.
    fn put(&mut self, field: Field, value: String)
        ensures
            final(self)@ == old(self)@.with(field, value@),
    {
        match field {
            Field::Salt => {
                self.salt = Some(value);
            },
            Field::Nonce => {
                self.nonce = Some(value);
            },
            Field::Ciphertext => {
                self.ciphertext = Some(value);
            },
            Field::Tag => {
                self.tag = Some(value);
            },
        }
    }

    /// Hands out all four, where none is missing.
    fn finish(self) -> (fields: Option<EncryptedSerializable>)
        ensures
            match fields {
                Some(fields) => self@.complete() == Some(fields@),
                None => self@.complete() is None,
            },
    {
        match (self.salt, self.nonce, self.ciphertext, self.tag) {
            (Some(salt), Some(nonce), Some(ciphertext), Some(tag)) => Some(
                EncryptedSerializable { salt, nonce, ciphertext, tag },
            ),
            _ => None,
        }
    }
}

/// Tells which member a name stands for.
fn field_of(name: &String) -> (field: Option<Field>)
    ensures
        field == field_named(name@),
{
    if *name == "salt".to_owned() {
        Some(Field::Salt)
    } else if *name == "nonce".to_owned() {
        Some(Field::Nonce)
    } else if *name == "ciphertext".to_owned() {
        Some(Field::Ciphertext)
    } else if *name == "tag".to_owned() {
        Some(Field::Tag)
    } else {
        None
    }
}

/// Reads the member whose name opens at index `i` into `found`.
fn read_member(text: &[char], i: usize, found: &mut Found) -> (end: Option<usize>)
    requires
        i <= text@.len(),
    ensures
        match end {
            Some(end) => member_from(text@, i as int, old(found)@) == Some(
                (final(found)@, end as int),
            ) && i < end <= text@.len(),
            None => member_from(text@, i as int, old(found)@) is None,
        },
{
    if !(i < text.len() && text[i] == '"') {
        return None;
    }
    let (name, after_name) = match read_string(text, i + 1) {
        Some(read) => read,
        None => {
            return None;
        },
    };
    let colon = pass_ws(text, after_name);
    if !(colon < text.len() && text[colon] == ':') {
        return None;
    }
    let start = pass_ws(text, colon + 1);
    match field_of(&name) {
        Some(field) => {
            if found.has(field) || !(start < text.len() && text[start] == '"') {
                return None;
            }
            match read_string(text, start + 1) {
                Some((value, end)) => {
                    found.put(field, value);
                    Some(end)
                },
                None => None,
            }
        },
        None => pass_value(text, start, NESTING_LIMIT),
    }
}

/// Reads the four texts of a container from its text form.
fn read_object(text: &[char]) -> (fields: Option<EncryptedSerializable>)
    ensures
        match fields {
            Some(fields) => object_fields(text@) == Some(fields@),
            None => object_fields(text@) is None,
        },
{
    let open = pass_ws(text, 0);
    if !(open < text.len() && text[open] == '{') {
        return None;
    }
    let mut found = Found { salt: None, nonce: None, ciphertext: None, tag: None };
    let start = pass_ws(text, open + 1);
    let mut j: usize = start;
    let mut first = true;
    let mut end: usize = start;
    loop
        invariant_except_break
            start <= j <= text@.len(),
            members_from(text@, start as int, Seen::nothing(), true) == members_from(
                text@,
                j as int,
                found@,
                first,
            ),
        invariant
            open == skip_ws(text@, 0),
            is_at(text@, open as int, '{'),
            start == skip_ws(text@, open + 1),
        ensures
            members_from(text@, start as int, Seen::nothing(), true) == Some(
                (found@, end as int),
            ),
            end <= text@.len(),
        decreases text@.len() - j,
    {
        if first && j < text.len() && text[j] == '}' {
            end = j + 1;
            break ;
        }
        let after = match read_member(text, j, &mut found) {
            Some(after) => after,
            None => {
                return None;
            },
        };
        let next = pass_ws(text, after);
        if next < text.len() && text[next] == '}' {
            end = next + 1;
            break ;
        }
        if !(next < text.len() && text[next] == ',') {
            return None;
        }
        j = pass_ws(text, next + 1);
        first = false;
    }
    if pass_ws(text, end) != text.len() {
        return None;
    }
    found.finish()
}

/// Reads the four texts of a container from its text form.
///
/// Text that is not one JSON object, that lacks one of the four members or
/// holds one twice, or in which one of them is not a string, is a malformed
/// container.
pub fn parse(text: &str) -> (fields: Result<EncryptedSerializable, Error>)
    ensures
        match fields {
            Ok(fields) => object_fields(text@) == Some(fields@),
            Err(e) => object_fields(text@) is None && e == Error::MalformedContainer,
        },
{
    let chars = chars_of(text);
    match read_object(chars.as_slice()) {
        Some(fields) => Ok(fields),
        None => Err(Error::MalformedContainer),
    }
}

} // verus!
