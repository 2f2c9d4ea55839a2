//! The grammar of a container's text, as functions on sequences of
//! characters: what is read from a text, and what is written for four texts.
//!
//! Where reading goes on behind a colon or a comma, the functions first test
//! that the index there lies further on in the text. It always does; the
//! test is there so that the recursion ends by definition.

use crate::crypt::SerializableView;
use vstd::prelude::*;

verus! {

/// How deep arrays and objects may nest inside a member that is passed over.
pub const NESTING_LIMIT: usize = 127;

/// `text` has the character `c` at index `i`.
pub open spec fn is_at(text: Seq<char>, i: int, c: char) -> bool {
    0 <= i < text.len() && text[i] == c
}

/// White space between tokens.
pub open spec fn is_ws(c: char) -> bool {
    c == ' ' || c == '\t' || c == '\n' || c == '\r'
}

/// The first index from `i` on that holds no white space.
pub open spec fn skip_ws(text: Seq<char>, i: int) -> int
    decreases text.len() - i,
{
    if 0 <= i < text.len() && is_ws(text[i]) {
        skip_ws(text, i + 1)
    } else {
        i
    }
}

/// A decimal digit.
pub open spec fn is_digit(c: char) -> bool {
    '0' <= c <= '9'
}

/// The first index from `i` on that holds no decimal digit.
pub open spec fn skip_digits(text: Seq<char>, i: int) -> int
    decreases text.len() - i,
{
    if 0 <= i < text.len() && is_digit(text[i]) {
        skip_digits(text, i + 1)
    } else {
        i
    }
}

/// The value of a hexadecimal digit, in either case.
pub open spec fn hex_value(c: char) -> Option<u32> {
    if '0' <= c <= '9' {
        Some((c as u32 - '0' as u32) as u32)
    } else if 'a' <= c <= 'f' {
        Some((c as u32 - 'a' as u32 + 10) as u32)
    } else if 'A' <= c <= 'F' {
        Some((c as u32 - 'A' as u32 + 10) as u32)
    } else {
        None
    }
}

/// The number that the four hexadecimal digits from index `i` on write.
pub open spec fn hex4(text: Seq<char>, i: int) -> Option<u32> {
    if 0 <= i && i + 4 <= text.len() {
        match (
            hex_value(text[i]),
            hex_value(text[i + 1]),
            hex_value(text[i + 2]),
            hex_value(text[i + 3]),
        ) {
            (Some(a), Some(b), Some(c), Some(d)) => Some((((a * 16 + b) * 16 + c) * 16 + d) as u32),
            _ => None,
        }
    } else {
        None
    }
}

/// The character that a one-letter escape stands for.
pub open spec fn short_escape(c: char) -> Option<char> {
    if c == '"' || c == '\\' || c == '/' {
        Some(c)
    } else if c == 'b' {
        Some('\u{8}')
    } else if c == 'f' {
        Some('\u{c}')
    } else if c == 'n' {
        Some('\n')
    } else if c == 'r' {
        Some('\r')
    } else if c == 't' {
        Some('\t')
    } else {
        None
    }
}

/// The character that a `\u` escape stands for, and the index after it;
/// `i` is the index of the first hexadecimal digit. A character outside the
/// basic plane is written as two escapes, a high surrogate and a low one; a
/// surrogate without its partner stands for nothing.
pub open spec fn long_escape(text: Seq<char>, i: int) -> Option<(char, int)> {
    match hex4(text, i) {
        None => None,
        Some(high) => {
            if high < 0xD800 || 0xE000 <= high {
                Some((high as char, i + 4))
            } else if high < 0xDC00 && is_at(text, i + 4, '\\') && is_at(text, i + 5, 'u') {
                match hex4(text, i + 6) {
                    Some(low) if 0xDC00 <= low < 0xE000 => Some(
                        (
                            (0x1_0000 + (high - 0xD800) * 0x400 + (low - 0xDC00)) as u32 as char,
                            i + 10,
                        ),
                    ),
                    _ => None,
                }
            } else {
                None
            }
        },
    }
}

/// The character that stands at index `i` inside a string, and the index
/// after it. Control characters may not stand there unescaped.
pub open spec fn string_item(text: Seq<char>, i: int) -> Option<(char, int)> {
    if !(0 <= i < text.len()) {
        None
    } else if text[i] == '\\' {
        if is_at(text, i + 1, 'u') {
            long_escape(text, i + 2)
        } else if i + 1 < text.len() {
            match short_escape(text[i + 1]) {
                Some(c) => Some((c, i + 2)),
                None => None,
            }
        } else {
            None
        }
    } else if (text[i] as u32) < 0x20 {
        None
    } else {
        Some((text[i], i + 1))
    }
}

/// The content of the string whose opening quote stands just before index
/// `i`, and the index after its closing quote.
pub open spec fn string_from(text: Seq<char>, i: int) -> Option<(Seq<char>, int)>
    decreases text.len() - i,
{
    if is_at(text, i, '"') {
        Some((Seq::empty(), i + 1))
    } else {
        match string_item(text, i) {
            None => None,
            Some((c, next)) => match string_from(text, next) {
                None => None,
                Some((rest, end)) => Some((seq![c] + rest, end)),
            },
        }
    }
}

/// The index after the number that starts at index `i`.
pub open spec fn number_end(text: Seq<char>, i: int) -> Option<int> {
    let digits = if is_at(text, i, '-') {
        i + 1
    } else {
        i
    };
    if !(0 <= digits < text.len() && is_digit(text[digits])) {
        None
    } else {
        let whole = if text[digits] == '0' {
            digits + 1
        } else {
            skip_digits(text, digits)
        };
        let fraction = if is_at(text, whole, '.') {
            skip_digits(text, whole + 1)
        } else {
            whole
        };
        if fraction == whole + 1 {
            None
        } else if is_at(text, fraction, 'e') || is_at(text, fraction, 'E') {
            let exponent = if is_at(text, fraction + 1, '+') || is_at(text, fraction + 1, '-') {
                fraction + 2
            } else {
                fraction + 1
            };
            let end = skip_digits(text, exponent);
            if end == exponent {
                None
            } else {
                Some(end)
            }
        } else {
            Some(fraction)
        }
    }
}

/// The index after `word`, if it stands at index `i`.
pub open spec fn word_end(text: Seq<char>, i: int, word: Seq<char>) -> Option<int> {
    if 0 <= i && i + word.len() <= text.len() && text.subrange(i, i + word.len()) == word {
        Some(i + word.len())
    } else {
        None
    }
}

/// The word `true`.
pub open spec fn word_true() -> Seq<char> {
    seq!['t', 'r', 'u', 'e']
}

/// The word `false`.
pub open spec fn word_false() -> Seq<char> {
    seq!['f', 'a', 'l', 's', 'e']
}

/// The word `null`.
pub open spec fn word_null() -> Seq<char> {
    seq!['n', 'u', 'l', 'l']
}

/// The index after the JSON value that starts at index `i`, with arrays and
/// objects nested at most `depth` deep.
pub open spec fn value_end(text: Seq<char>, i: int, depth: nat) -> Option<int>
    decreases depth, text.len() - i, 0nat,
{
    if !(0 <= i < text.len()) {
        None
    } else if text[i] == '"' {
        match string_from(text, i + 1) {
            Some((_, end)) => Some(end),
            None => None,
        }
    } else if text[i] == '[' {
        if depth == 0 {
            None
        } else {
            elements_end(text, skip_ws(text, i + 1), (depth - 1) as nat, true)
        }
    } else if text[i] == '{' {
        if depth == 0 {
            None
        } else {
            members_end(text, skip_ws(text, i + 1), (depth - 1) as nat, true)
        }
    } else if text[i] == 't' {
        word_end(text, i, word_true())
    } else if text[i] == 'f' {
        word_end(text, i, word_false())
    } else if text[i] == 'n' {
        word_end(text, i, word_null())
    } else {
        number_end(text, i)
    }
}

/// The index after the closing bracket of an array. Index `i` holds what
/// follows the opening bracket (`first`) or a comma, white space passed over.
pub open spec fn elements_end(text: Seq<char>, i: int, depth: nat, first: bool) -> Option<int>
    decreases depth, text.len() - i, 1nat,
{
    if first && is_at(text, i, ']') {
        Some(i + 1)
    } else {
        match value_end(text, i, depth) {
            None => None,
            Some(end) => {
                let next = skip_ws(text, end);
                if is_at(text, next, ']') {
                    Some(next + 1)
                } else if is_at(text, next, ',') && i < skip_ws(text, next + 1) <= text.len() {
                    elements_end(text, skip_ws(text, next + 1), depth, false)
                } else {
                    None
                }
            },
        }
    }
}

/// The index after the closing brace of an object that is passed over. Index
/// `i` holds what follows the opening brace (`first`) or a comma, white
/// space passed over.
pub open spec fn members_end(text: Seq<char>, i: int, depth: nat, first: bool) -> Option<int>
    decreases depth, text.len() - i, 1nat,
{
    if first && is_at(text, i, '}') {
        Some(i + 1)
    } else if !is_at(text, i, '"') {
        None
    } else {
        match string_from(text, i + 1) {
            None => None,
            Some((_, after_name)) => {
                let colon = skip_ws(text, after_name);
                let start = skip_ws(text, colon + 1);
                if !is_at(text, colon, ':') || !(i < start <= text.len()) {
                    None
                } else {
                    match value_end(text, start, depth) {
                        None => None,
                        Some(end) => {
                            let next = skip_ws(text, end);
                            if is_at(text, next, '}') {
                                Some(next + 1)
                            } else if is_at(text, next, ',') && i < skip_ws(text, next + 1)
                                <= text.len() {
                                members_end(text, skip_ws(text, next + 1), depth, false)
                            } else {
                                None
                            }
                        },
                    }
                }
            },
        }
    }
}

/// One of the four members that make a container.
#[derive(Debug, Clone, Copy, PartialEq, Eq, Structural)]
pub enum Field {
    Salt,
    Nonce,
    Ciphertext,
    Tag,
}

/// The member that a name stands for, if it is one of the four.
pub open spec fn field_named(name: Seq<char>) -> Option<Field> {
    if name == "salt"@ {
        Some(Field::Salt)
    } else if name == "nonce"@ {
        Some(Field::Nonce)
    } else if name == "ciphertext"@ {
        Some(Field::Ciphertext)
    } else if name == "tag"@ {
        Some(Field::Tag)
    } else {
        None
    }
}

/// The members read so far.
pub struct Seen {
    pub salt: Option<Seq<char>>,
    pub nonce: Option<Seq<char>>,
    pub ciphertext: Option<Seq<char>>,
    pub tag: Option<Seq<char>>,
}

impl Seen {
    /// No member seen yet.
    pub open spec fn nothing() -> Seen {
        Seen { salt: None, nonce: None, ciphertext: None, tag: None }
    }

    /// The text of a member, if it was seen.
    pub open spec fn get(self, field: Field) -> Option<Seq<char>> {
        match field {
            Field::Salt => self.salt,
            Field::Nonce => self.nonce,
            Field::Ciphertext => self.ciphertext,
            Field::Tag => self.tag,
        }
    }

    /// The same with one more member seen.
    pub open spec fn with(self, field: Field, value: Seq<char>) -> Seen {
        match field {
            Field::Salt => Seen { salt: Some(value), ..self },
            Field::Nonce => Seen { nonce: Some(value), ..self },
            Field::Ciphertext => Seen { ciphertext: Some(value), ..self },
            Field::Tag => Seen { tag: Some(value), ..self },
        }
    }

    /// All four, where none is missing.
    pub open spec fn complete(self) -> Option<SerializableView> {
        match (self.salt, self.nonce, self.ciphertext, self.tag) {
            (Some(salt), Some(nonce), Some(ciphertext), Some(tag)) => Some(
                SerializableView { salt, nonce, ciphertext, tag },
            ),
            _ => None,
        }
    }
}

/// Reads the member whose name opens at index `i`: what has been seen with
/// it, and the index after its value. One of the four must be a string and
/// must not have been seen before; any other must be a JSON value.
pub open spec fn member_from(text: Seq<char>, i: int, seen: Seen) -> Option<(Seen, int)> {
    if !is_at(text, i, '"') {
        None
    } else {
        match string_from(text, i + 1) {
            None => None,
            Some((name, after_name)) => {
                let colon = skip_ws(text, after_name);
                let start = skip_ws(text, colon + 1);
                if !is_at(text, colon, ':') {
                    None
                } else {
                    match field_named(name) {
                        Some(field) => {
                            if seen.get(field) is Some || !is_at(text, start, '"') {
                                None
                            } else {
                                match string_from(text, start + 1) {
                                    Some((value, end)) => Some((seen.with(field, value), end)),
                                    None => None,
                                }
                            }
                        },
                        None => match value_end(text, start, NESTING_LIMIT as nat) {
                            Some(end) => Some((seen, end)),
                            None => None,
                        },
                    }
                }
            },
        }
    }
}

/// Reads the members of the outermost object up to its closing brace: what
/// has been seen, and the index after the brace. Index `i` holds what follows
/// the opening brace (`first`) or a comma, white space passed over.
pub open spec fn members_from(text: Seq<char>, i: int, seen: Seen, first: bool) -> Option<
    (Seen, int),
>
    decreases text.len() - i,
{
    if first && is_at(text, i, '}') {
        Some((seen, i + 1))
    } else {
        match member_from(text, i, seen) {
            None => None,
            Some((seen, end)) => {
                let next = skip_ws(text, end);
                if is_at(text, next, '}') {
                    Some((seen, next + 1))
                } else if is_at(text, next, ',') && i < skip_ws(text, next + 1) <= text.len() {
                    members_from(text, skip_ws(text, next + 1), seen, false)
                } else {
                    None
                }
            },
        }
    }
}

/// The four texts that `text` holds as a container: `text` is one JSON
/// object, with nothing but white space around it, in which each of the four
/// members stands once, as a string.
pub open spec fn object_fields(text: Seq<char>) -> Option<SerializableView> {
    let open = skip_ws(text, 0);
    if !is_at(text, open, '{') {
        None
    } else {
        match members_from(text, skip_ws(text, open + 1), Seen::nothing(), true) {
            Some((seen, end)) => if skip_ws(text, end) == text.len() {
                seen.complete()
            } else {
                None
            },
            None => None,
        }
    }
}

/// The lower-case hexadecimal digit for a value below 16.
pub open spec fn hex_char(value: u32) -> char {
    if value < 10 {
        ('0' as u32 + value) as u32 as char
    } else {
        ('a' as u32 + value - 10) as u32 as char
    }
}

/// How one character is written inside a string: the quote, the backslash
/// and the control characters are escaped, every other stands for itself.
pub open spec fn escaped_char(c: char) -> Seq<char> {
    if c == '"' {
        seq!['\\', '"']
    } else if c == '\\' {
        seq!['\\', '\\']
    } else if c == '\u{8}' {
        seq!['\\', 'b']
    } else if c == '\u{c}' {
        seq!['\\', 'f']
    } else if c == '\n' {
        seq!['\\', 'n']
    } else if c == '\r' {
        seq!['\\', 'r']
    } else if c == '\t' {
        seq!['\\', 't']
    } else if (c as u32) < 0x20 {
        seq!['\\', 'u', '0', '0', hex_char(c as u32 / 16), hex_char(c as u32 % 16)]
    } else {
        seq![c]
    }
}

/// How a text is written inside a string.
pub open spec fn escaped(content: Seq<char>) -> Seq<char>
    decreases content.len(),
{
    if content.len() == 0 {
        Seq::empty()
    } else {
        escaped_char(content[0]) + escaped(content.skip(1))
    }
}

/// A text as a string: escaped, between quotes.
pub open spec fn quoted(content: Seq<char>) -> Seq<char> {
    seq!['"'] + escaped(content) + seq!['"']
}

/// A member: its name, a colon, its value.
pub open spec fn member_text(name: Seq<char>, value: Seq<char>) -> Seq<char> {
    quoted(name) + seq![':'] + quoted(value)
}

/// The text that is written for four texts: one object with the members
/// `salt`, `nonce`, `ciphertext` and `tag` in this order, and no white space.
pub open spec fn rendered(fields: SerializableView) -> Seq<char> {
    seq!['{'] + member_text("salt"@, fields.salt) + seq![','] + member_text("nonce"@, fields.nonce)
        + seq![','] + member_text("ciphertext"@, fields.ciphertext) + seq![','] + member_text(
        "tag"@,
        fields.tag,
    ) + seq!['}']
}

/// `rest` with `prefix` put before its content.
pub open spec fn prepend(prefix: Seq<char>, rest: Option<(Seq<char>, int)>) -> Option<
    (Seq<char>, int),
> {
    match rest {
        Some((content, end)) => Some((prefix + content, end)),
        None => None,
    }
}

} // verus!
