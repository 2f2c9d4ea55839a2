//! Writing a container's text.

use crate::crypt::EncryptedSerializable;
use crate::text::grammar::{escaped, escaped_char, hex_char, member_text, quoted, rendered};
use crate::chars::chars_of;
use vstd::prelude::*;

verus! {

/// Escaping goes character by character, so it can be done from left to
/// right.
proof fn lemma_escaped_push(content: Seq<char>, c: char)
    ensures
        escaped(content.push(c)) == escaped(content) + escaped_char(c),
    decreases content.len(),
{
    if content.len() == 0 {
        assert(content.push(c).skip(1) =~= Seq::<char>::empty());
        assert(escaped(content.push(c).skip(1)) =~= Seq::<char>::empty());
        assert(escaped(content.push(c)) =~= escaped(content) + escaped_char(c));
    } else {
        lemma_escaped_push(content.skip(1), c);
        assert(content.push(c).skip(1) =~= content.skip(1).push(c));
        assert(escaped(content.push(c)) =~= escaped(content) + escaped_char(c));
    }
}

/// The lower-case hexadecimal digit for a value below 16.
fn hex_digit_char(value: u32) -> (c: char)
    requires
        value < 16,
    ensures
        c == hex_char(value),
{
    let code = if value < 10 {
        '0' as u32 + value
    } else {
        'a' as u32 + value - 10
    };
    match char::from_u32(code) {
        Some(c) => c,
        None => '0',
    }
}

/// Appends one character as it stands inside a string.
fn write_escaped_char(out: &mut String, c: char)
    ensures
        final(out)@ == old(out)@ + escaped_char(c),
{
    if c == '"' || c == '\\' {
        out.push('\\');
        out.push(c);
    } else if c == '\u{8}' {
        out.push('\\');
        out.push('b');
    } else if c == '\u{c}' {
        out.push('\\');
        out.push('f');
    } else if c == '\n' {
        out.push('\\');
        out.push('n');
    } else if c == '\r' {
        out.push('\\');
        out.push('r');
    } else if c == '\t' {
        out.push('\\');
        out.push('t');
    } else if (c as u32) < 0x20 {
        out.push('\\');
        out.push('u');
        out.push('0');
        out.push('0');
        out.push(hex_digit_char(c as u32 / 16));
        out.push(hex_digit_char(c as u32 % 16));
    } else {
        out.push(c);
    }
    assert(out@ =~= old(out)@ + escaped_char(c));
}

/// Appends a text as a string.
fn write_quoted(out: &mut String, content: &str)
    ensures
        final(out)@ == old(out)@ + quoted(content@),
{
    out.push('"');
    let chars = chars_of(content);
    let mut i: usize = 0;
    while i < chars.len()
        invariant
            i <= chars@.len(),
            chars@ == content@,
            out@ == old(out)@ + seq!['"'] + escaped(content@.take(i as int)),
        decreases chars@.len() - i,
    {
        proof {
            lemma_escaped_push(content@.take(i as int), chars@[i as int]);
            assert(content@.take(i as int).push(chars@[i as int]) =~= content@.take(i + 1));
        }
        write_escaped_char(out, chars[i]);
        i = i + 1;
    }
    assert(content@.take(i as int) =~= content@);
    out.push('"');
    assert(out@ =~= old(out)@ + quoted(content@));
}

/// Appends a member: name, colon, value.
fn write_member(out: &mut String, name: &str, value: &str)
    ensures
        final(out)@ == old(out)@ + member_text(name@, value@),
{
    write_quoted(out, name);
    out.push(':');
    write_quoted(out, value);
    assert(out@ =~= old(out)@ + member_text(name@, value@));
}

/// Writes four texts as one object, each as a string.
pub fn render(fields: &EncryptedSerializable) -> (text: String)
    ensures
        text@ == rendered(fields@),
{
    let mut out = String::new();
    out.push('{');
    write_member(&mut out, "salt", fields.salt.as_str());
    out.push(',');
    write_member(&mut out, "nonce", fields.nonce.as_str());
    out.push(',');
    write_member(&mut out, "ciphertext", fields.ciphertext.as_str());
    out.push(',');
    write_member(&mut out, "tag", fields.tag.as_str());
    out.push('}');
    assert(out@ =~= rendered(fields@));
    out
}

} // verus!
