//! The canonical encoder: the one sequence of bytes that stands for the
//! signed fields of an event, and that is hashed to its identifier.
use crate::ascii::{CLOSE, COMMA, DIGIT_0, OPEN, QUOTE};
use crate::decimal::{decimal, push_decimal};
use crate::event::{tags_view, Kind, Tag};
use crate::hex::{hex, push_hex};
use crate::json::{
    all_arrays_of_strings, all_quoted, array, array_of_lists, array_of_strings, joined,
    lemma_joined_push, push_quoted, quoted,
};
use vstd::prelude::*;
use vstd::string::StringSliceAdditionalSpecFns;
use vstd::utf8::encode_utf8;

verus! {

/// The UTF-8 bytes of each string of a tag.
pub open spec fn tag_bytes(tag: Seq<Seq<char>>) -> Seq<Seq<u8>> {
    tag.map_values(|text: Seq<char>| encode_utf8(text))
}

/// The UTF-8 bytes of each string of each tag.
pub open spec fn tags_bytes(tags: Seq<Seq<Seq<char>>>) -> Seq<Seq<Seq<u8>>> {
    tags.map_values(|tag: Seq<Seq<char>>| tag_bytes(tag))
}

/// The canonical form of an event's signed fields: the JSON array
/// `[0,pubkey,created_at,kind,tags,content]` with no white space, the public
/// key as a string of lower-case hexadecimal digits, the time and the kind
/// as decimal numbers, the tags as an array of arrays of strings, and the
/// content as a string.
pub open spec fn canonical_form(
    pubkey: Seq<u8>,
    created_at: u32,
    kind: Kind,
    tags: Seq<Seq<Seq<char>>>,
    content: Seq<char>,
) -> Seq<u8> {
    array(
        seq![
            seq![DIGIT_0],
            seq![QUOTE] + hex(pubkey) + seq![QUOTE],
            decimal(created_at as nat),
            decimal(kind.number() as nat),
            array_of_lists(tags_bytes(tags)),
            quoted(encode_utf8(content)),
        ],
    )
}

/// Appends to `out` the JSON array of the strings of `tag`.
pub fn push_tag(out: &mut Vec<u8>, tag: &Tag)
    ensures
        final(out)@ == old(out)@ + array_of_strings(tag_bytes(tag@)),
{
    let ghost items = all_quoted(tag_bytes(tag@));
    out.push(OPEN);
    let mut i: usize = 0;
    assert(items.take(0) =~= Seq::<Seq<u8>>::empty());
    while i < tag.values.len()
        invariant
            i <= tag.values.len(),
            items == all_quoted(tag_bytes(tag@)),
            out@ == old(out)@ + seq![OPEN] + joined(items.take(i as int)),
        decreases tag.values.len() - i,
    {
        if i > 0 {
            out.push(COMMA);
        }
        push_quoted(out, tag.values[i].as_str().as_bytes());
        proof {
            assert(items[i as int] == quoted(encode_utf8(tag.values@[i as int]@)));
            lemma_joined_push(items.take(i as int), items[i as int]);
            assert(items.take(i + 1) =~= items.take(i as int).push(items[i as int]));
            assert(out@ =~= old(out)@ + seq![OPEN] + joined(items.take(i + 1)));
        }
        i += 1;
    }
    out.push(CLOSE);
    proof {
        assert(items.take(tag.values.len() as int) =~= items);
        assert(out@ =~= old(out)@ + array_of_strings(tag_bytes(tag@)));
    }
}

/// Appends to `out` the JSON array of the arrays of the strings of `tags`.
pub fn push_tags(out: &mut Vec<u8>, tags: &Vec<Tag>)
    ensures
        final(out)@ == old(out)@ + array_of_lists(tags_bytes(tags_view(tags@))),
{
    let ghost items = all_arrays_of_strings(tags_bytes(tags_view(tags@)));
    out.push(OPEN);
    let mut i: usize = 0;
    assert(items.take(0) =~= Seq::<Seq<u8>>::empty());
    while i < tags.len()
        invariant
            i <= tags.len(),
            items == all_arrays_of_strings(tags_bytes(tags_view(tags@))),
            out@ == old(out)@ + seq![OPEN] + joined(items.take(i as int)),
        decreases tags.len() - i,
    {
        if i > 0 {
            out.push(COMMA);
        }
        push_tag(out, &tags[i]);
        proof {
            assert(items[i as int] == array_of_strings(tag_bytes(tags@[i as int]@)));
            lemma_joined_push(items.take(i as int), items[i as int]);
            assert(items.take(i + 1) =~= items.take(i as int).push(items[i as int]));
            assert(out@ =~= old(out)@ + seq![OPEN] + joined(items.take(i + 1)));
        }
        i += 1;
    }
    out.push(CLOSE);
    proof {
        assert(items.take(tags.len() as int) =~= items);
        assert(out@ =~= old(out)@ + array_of_lists(tags_bytes(tags_view(tags@))));
    }
}

/// The canonical form written out item by item.
pub proof fn lemma_canonical_form_unfolded(
    pubkey: Seq<u8>,
    created_at: u32,
    kind: Kind,
    tags: Seq<Seq<Seq<char>>>,
    content: Seq<char>,
)
    ensures
        canonical_form(pubkey, created_at, kind, tags, content) == seq![OPEN, DIGIT_0, COMMA, QUOTE]
            + hex(pubkey) + seq![QUOTE, COMMA] + decimal(created_at as nat) + seq![COMMA]
            + decimal(kind.number() as nat) + seq![COMMA] + array_of_lists(tags_bytes(tags))
            + seq![COMMA] + quoted(encode_utf8(content)) + seq![CLOSE],
{
    let version = seq![DIGIT_0];
    let key = seq![QUOTE] + hex(pubkey) + seq![QUOTE];
    let time = decimal(created_at as nat);
    let number = decimal(kind.number() as nat);
    let lists = array_of_lists(tags_bytes(tags));
    let text = quoted(encode_utf8(content));
    let empty = Seq::<Seq<u8>>::empty();
    lemma_joined_push(empty, version);
    lemma_joined_push(empty.push(version), key);
    lemma_joined_push(empty.push(version).push(key), time);
    lemma_joined_push(empty.push(version).push(key).push(time), number);
    lemma_joined_push(empty.push(version).push(key).push(time).push(number), lists);
    lemma_joined_push(empty.push(version).push(key).push(time).push(number).push(lists), text);
    assert(seq![version, key, time, number, lists, text] =~= empty.push(version).push(key).push(
        time,
    ).push(number).push(lists).push(text));
    assert(canonical_form(pubkey, created_at, kind, tags, content) =~= seq![
        OPEN,
        DIGIT_0,
        COMMA,
        QUOTE,
    ] + hex(pubkey) + seq![QUOTE, COMMA] + decimal(created_at as nat) + seq![COMMA] + decimal(
        kind.number() as nat,
    ) + seq![COMMA] + array_of_lists(tags_bytes(tags)) + seq![COMMA] + quoted(
        encode_utf8(content),
    ) + seq![CLOSE]);
}

/// The canonical encoder: writes the canonical form of an event's signed
/// fields.
pub fn encode(pubkey: &[u8; 32], created_at: u32, kind: Kind, tags: &Vec<Tag>, content: &str) -> (bytes:
    Vec<u8>)
    ensures
        bytes@ == canonical_form(pubkey@, created_at, kind, tags_view(tags@), content@),
{
    let mut bytes: Vec<u8> = Vec::new();
    bytes.push(OPEN);
    bytes.push(DIGIT_0);
    bytes.push(COMMA);
    bytes.push(QUOTE);
    push_hex(&mut bytes, pubkey.as_slice());
    bytes.push(QUOTE);
    bytes.push(COMMA);
    push_decimal(&mut bytes, created_at);
    bytes.push(COMMA);
    push_decimal(&mut bytes, kind.to_u8() as u32);
    bytes.push(COMMA);
    push_tags(&mut bytes, tags);
    bytes.push(COMMA);
    push_quoted(&mut bytes, content.as_bytes());
    bytes.push(CLOSE);
    proof {
        lemma_canonical_form_unfolded(pubkey@, created_at, kind, tags_view(tags@), content@);
        assert(bytes@ =~= canonical_form(pubkey@, created_at, kind, tags_view(tags@), content@));
    }
    bytes
}

} // verus!
