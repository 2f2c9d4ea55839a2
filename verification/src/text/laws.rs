//! What is written is read back.

use crate::crypt::SerializableView;
use crate::text::grammar::{
    escaped, escaped_char, field_named, hex4, hex_char, hex_value, is_at, member_from,
    member_text, members_from, object_fields, rendered, skip_ws, string_from, string_item,
    Field, Seen,
};
use vstd::prelude::*;

verus! {

/// `part` stands in `text` from index `i` on.
pub open spec fn stands_at(text: Seq<char>, i: int, part: Seq<char>) -> bool {
    &&& 0 <= i
    &&& i + part.len() <= text.len()
    &&& forall|k: int| 0 <= k < part.len() ==> text[i + k] == #[trigger] part[k]
}

/// A part stands where it was put.
proof fn lemma_stands_inside(before: Seq<char>, part: Seq<char>, after: Seq<char>)
    ensures
        stands_at(before + part + after, before.len() as int, part),
{
    let text = before + part + after;
    assert forall|k: int| 0 <= k < part.len() implies text[before.len() + k]
        == #[trigger] part[k] by {
        assert(text[before.len() + k] == (before + part)[before.len() + k]);
    }
}

/// Where two parts stand one after the other, each of them stands.
proof fn lemma_stands_split(text: Seq<char>, i: int, head: Seq<char>, tail: Seq<char>)
    requires
        stands_at(text, i, head + tail),
    ensures
        stands_at(text, i, head),
        stands_at(text, i + head.len(), tail),
{
    let whole = head + tail;
    assert forall|k: int| 0 <= k < head.len() implies text[i + k] == #[trigger] head[k] by {
        assert(whole[k] == head[k]);
    }
    assert forall|k: int| 0 <= k < tail.len() implies text[i + head.len() + k]
        == #[trigger] tail[k] by {
        assert(whole[head.len() + k] == tail[k]);
    }
}

/// A written hexadecimal digit is read back as its value.
proof fn lemma_hex_char(value: u32)
    requires
        value < 16,
    ensures
        hex_value(hex_char(value)) == Some(value),
{
}

/// An escaped character is read back as the character.
proof fn lemma_item_of_escaped(text: Seq<char>, i: int, c: char)
    requires
        stands_at(text, i, escaped_char(c)),
    ensures
        string_item(text, i) == Some((c, i + escaped_char(c).len())),
        !is_at(text, i, '"'),
{
    let e = escaped_char(c);
    assert(text[i] == e[0]);
    if e.len() >= 2 {
        assert(text[i + 1] == e[1]);
    }
    if e.len() == 6 {
        let code = c as u32;
        assert(text[i + 2] == e[2]);
        assert(text[i + 3] == e[3]);
        assert(text[i + 4] == e[4]);
        assert(text[i + 5] == e[5]);
        lemma_hex_char(code / 16);
        lemma_hex_char(code % 16);
        assert(hex_value('0') == Some(0u32));
        assert(hex4(text, i + 2) == Some(code));
        vstd::utf8::char_u32_cast(c, code);
    }
}

/// An escaped text, closed by a quote, is read back as the text.
proof fn lemma_string_of_escaped(text: Seq<char>, i: int, content: Seq<char>)
    requires
        stands_at(text, i, escaped(content) + seq!['"']),
    ensures
        string_from(text, i) == Some((content, i + escaped(content).len() + 1)),
    decreases content.len(),
{
    let closed = escaped(content) + seq!['"'];
    if content.len() == 0 {
        assert(text[i] == closed[0]);
        assert(content =~= Seq::<char>::empty());
    } else {
        let head = escaped_char(content[0]);
        let tail = escaped(content.skip(1)) + seq!['"'];
        assert(closed =~= head + tail);
        lemma_stands_split(text, i, head, tail);
        lemma_item_of_escaped(text, i, content[0]);
        lemma_string_of_escaped(text, i + head.len(), content.skip(1));
        assert(seq![content[0]] + content.skip(1) =~= content);
    }
}

/// Where the parts of a written member stand.
proof fn lemma_member_parts(text: Seq<char>, i: int, name: Seq<char>, value: Seq<char>)
    requires
        stands_at(text, i, member_text(name, value)),
    ensures
        member_text(name, value).len() == escaped(name).len() + escaped(value).len() + 5,
        is_at(text, i, '"'),
        stands_at(text, i + 1, escaped(name) + seq!['"']),
        is_at(text, i + 2 + escaped(name).len(), ':'),
        is_at(text, i + 3 + escaped(name).len(), '"'),
        stands_at(text, i + 4 + escaped(name).len(), escaped(value) + seq!['"']),
{
    let quote = seq!['"'];
    let colon = seq![':'];
    let name_part = escaped(name) + quote;
    let value_part = escaped(value) + quote;
    assert(member_text(name, value) =~= quote + (name_part + (colon + (quote + value_part))));
    lemma_stands_split(text, i, quote, name_part + (colon + (quote + value_part)));
    lemma_stands_split(text, i + 1, name_part, colon + (quote + value_part));
    let at_colon = i + 1 + name_part.len();
    lemma_stands_split(text, at_colon, colon, quote + value_part);
    lemma_stands_split(text, at_colon + 1, quote, value_part);
    assert(text[i + 0] == quote[0]);
    assert(text[at_colon + 0] == colon[0]);
    assert(text[at_colon + 1 + 0] == quote[0]);
}

/// A written member is read back as its name and value.
proof fn lemma_member_of_text(
    text: Seq<char>,
    i: int,
    name: Seq<char>,
    value: Seq<char>,
    seen: Seen,
    field: Field,
)
    requires
        stands_at(text, i, member_text(name, value)),
        field_named(name) == Some(field),
        seen.get(field) is None,
    ensures
        member_from(text, i, seen) == Some(
            (seen.with(field, value), i + member_text(name, value).len()),
        ),
{
    lemma_member_parts(text, i, name, value);
    let at_colon = i + 2 + escaped(name).len();
    lemma_string_of_escaped(text, i + 1, name);
    assert(skip_ws(text, at_colon) == at_colon);
    assert(skip_ws(text, at_colon + 1) == at_colon + 1);
    lemma_string_of_escaped(text, at_colon + 2, value);
}

/// A written member that a comma and more text follow: reading goes on
/// behind the comma, with the member seen.
proof fn lemma_member_then_comma(
    text: Seq<char>,
    i: int,
    name: Seq<char>,
    value: Seq<char>,
    rest: Seq<char>,
    seen: Seen,
    field: Field,
    first: bool,
)
    requires
        stands_at(text, i, member_text(name, value) + seq![','] + rest),
        rest.len() > 0,
        rest[0] == '"',
        field_named(name) == Some(field),
        seen.get(field) is None,
    ensures
        stands_at(text, i + member_text(name, value).len() + 1, rest),
        members_from(text, i, seen, first) == members_from(
            text,
            i + member_text(name, value).len() + 1,
            seen.with(field, value),
            false,
        ),
{
    let member = member_text(name, value);
    let comma = seq![','];
    lemma_stands_split(text, i, member + comma, rest);
    lemma_stands_split(text, i, member, comma);
    lemma_member_of_text(text, i, name, value, seen, field);
    let end = i + member.len();
    assert(member[0] == '"');
    assert(text[i + 0] == member[0]);
    assert(text[end + 0] == comma[0]);
    assert(text[end + 1 + 0] == rest[0]);
    assert(skip_ws(text, end) == end);
    assert(skip_ws(text, end + 1) == end + 1);
}

/// A written member that the closing brace follows: reading ends behind the
/// brace, with the member seen.
proof fn lemma_member_then_close(
    text: Seq<char>,
    i: int,
    name: Seq<char>,
    value: Seq<char>,
    seen: Seen,
    field: Field,
    first: bool,
)
    requires
        stands_at(text, i, member_text(name, value) + seq!['}']),
        field_named(name) == Some(field),
        seen.get(field) is None,
    ensures
        members_from(text, i, seen, first) == Some(
            (seen.with(field, value), i + member_text(name, value).len() + 1),
        ),
{
    let member = member_text(name, value);
    let follow = seq!['}'];
    lemma_stands_split(text, i, member, follow);
    lemma_member_of_text(text, i, name, value, seen, field);
    let end = i + member.len();
    assert(member[0] == '"');
    assert(text[i + 0] == member[0]);
    assert(text[end + 0] == follow[0]);
    assert(skip_ws(text, end) == end);
}

/// The four names are told apart.
proof fn lemma_field_names()
    ensures
        field_named("salt"@) == Some(Field::Salt),
        field_named("nonce"@) == Some(Field::Nonce),
        field_named("ciphertext"@) == Some(Field::Ciphertext),
        field_named("tag"@) == Some(Field::Tag),
{
    reveal_strlit("salt");
    reveal_strlit("nonce");
    reveal_strlit("ciphertext");
    reveal_strlit("tag");
    assert("salt"@.len() == 4);
    assert("nonce"@.len() == 5);
    assert("ciphertext"@.len() == 10);
    assert("tag"@.len() == 3);
}

/// The written text, taken apart from the right: what follows the opening
/// brace, the first comma, the second and the third.
spec fn rendered_from(fields: SerializableView, member: nat) -> Seq<char> {
    let last = member_text("tag"@, fields.tag) + seq!['}'];
    let third = member_text("ciphertext"@, fields.ciphertext) + seq![','] + last;
    let second = member_text("nonce"@, fields.nonce) + seq![','] + third;
    if member == 0 {
        member_text("salt"@, fields.salt) + seq![','] + second
    } else if member == 1 {
        second
    } else if member == 2 {
        third
    } else {
        last
    }
}

/// The written text is a brace and what follows it.
proof fn lemma_rendered_shape(fields: SerializableView)
    ensures
        rendered(fields) == seq!['{'] + rendered_from(fields, 0),
        stands_at(rendered(fields), 1, rendered_from(fields, 0)),
{
    let text = rendered(fields);
    assert(text =~= seq!['{'] + rendered_from(fields, 0));
    assert(text =~= seq!['{'] + rendered_from(fields, 0) + Seq::<char>::empty());
    lemma_stands_inside(seq!['{'], rendered_from(fields, 0), Seq::<char>::empty());
}

impl SerializableView {
    /// All four members seen, with these texts.
    pub open spec fn seen(self) -> Seen {
        Seen {
            salt: Some(self.salt),
            nonce: Some(self.nonce),
            ciphertext: Some(self.ciphertext),
            tag: Some(self.tag),
        }
    }
}

/// How the written text is read: it opens with a brace and a quote, and
/// reading its members from behind the brace sees all four and ends with the
/// text.
pub proof fn lemma_rendered_members(fields: SerializableView)
    ensures
        is_at(rendered(fields), 0, '{'),
        is_at(rendered(fields), 1, '"'),
        members_from(rendered(fields), 1, Seen::nothing(), true) == Some(
            (fields.seen(), rendered(fields).len() as int),
        ),
{
    lemma_field_names();
    lemma_rendered_shape(fields);
    let text = rendered(fields);
    let salt_member = member_text("salt"@, fields.salt);
    let nonce_member = member_text("nonce"@, fields.nonce);
    let ciphertext_member = member_text("ciphertext"@, fields.ciphertext);
    let tag_member = member_text("tag"@, fields.tag);
    assert(salt_member[0] == '"' && nonce_member[0] == '"');
    assert(ciphertext_member[0] == '"' && tag_member[0] == '"');
    let at_salt: int = 1;
    let at_nonce = at_salt + salt_member.len() + 1;
    let at_ciphertext = at_nonce + nonce_member.len() + 1;
    let at_tag = at_ciphertext + ciphertext_member.len() + 1;
    let end = at_tag + tag_member.len() + 1;
    let seen_none = Seen::nothing();
    let seen_salt = seen_none.with(Field::Salt, fields.salt);
    let seen_nonce = seen_salt.with(Field::Nonce, fields.nonce);
    let seen_ciphertext = seen_nonce.with(Field::Ciphertext, fields.ciphertext);
    let seen_all = seen_ciphertext.with(Field::Tag, fields.tag);
    assert(rendered_from(fields, 1)[0] == '"');
    assert(rendered_from(fields, 2)[0] == '"');
    assert(rendered_from(fields, 3)[0] == '"');
    lemma_member_then_comma(
        text,
        at_salt,
        "salt"@,
        fields.salt,
        rendered_from(fields, 1),
        seen_none,
        Field::Salt,
        true,
    );
    lemma_member_then_comma(
        text,
        at_nonce,
        "nonce"@,
        fields.nonce,
        rendered_from(fields, 2),
        seen_salt,
        Field::Nonce,
        false,
    );
    lemma_member_then_comma(
        text,
        at_ciphertext,
        "ciphertext"@,
        fields.ciphertext,
        rendered_from(fields, 3),
        seen_nonce,
        Field::Ciphertext,
        false,
    );
    lemma_member_then_close(text, at_tag, "tag"@, fields.tag, seen_ciphertext, Field::Tag, false);
    assert(text[0] == '{');
    assert(text[1] == salt_member[0]);
    assert(end == text.len());
    assert(seen_all == fields.seen());
}

/// What is written is read back: the text written for four texts holds
/// exactly these four, whatever characters they are made of.
pub proof fn lemma_rendered_reads_back(fields: SerializableView)
    ensures
        object_fields(rendered(fields)) == Some(fields),
{
    lemma_rendered_members(fields);
    let text = rendered(fields);
    assert(skip_ws(text, 0) == 0);
    assert(skip_ws(text, 1) == 1);
    assert(skip_ws(text, text.len() as int) == text.len());
    assert(fields.seen().complete() == Some(fields));
}

/// Different texts are never written alike: the written text tells its four
/// texts apart.
pub proof fn lemma_rendered_is_injective(first: SerializableView, second: SerializableView)
    requires
        rendered(first) == rendered(second),
    ensures
        first == second,
{
    lemma_rendered_reads_back(first);
    lemma_rendered_reads_back(second);
}

} // verus!
