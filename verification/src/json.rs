//! The JSON text of strings and of arrays, as bytes.
//!
//! A string is written between quotes, with the bytes that JSON reserves
//! replaced by an escape; every other byte, the bytes of a multi-byte
//! character among them, stands for itself. An array is written between
//! brackets, its items parted by commas, with no white space.
use crate::ascii::{
    BACKSLASH, CLOSE, COMMA, DIGIT_0, LOWER_B, LOWER_F, LOWER_N, LOWER_R, LOWER_T, LOWER_U, OPEN,
    QUOTE,
};
use crate::hex::{hex, push_hex};
use vstd::prelude::*;

verus! {

/// What stands for `byte` inside a string: a two-letter escape for the
/// quote, the backslash and the five control characters that have one,
/// `\u00` and two hexadecimal digits for the other bytes below `0x20`, and
/// the byte itself for the rest.
pub open spec fn escaped_byte(byte: u8) -> Seq<u8> {
    if byte == QUOTE {
        seq![BACKSLASH, QUOTE]
    } else if byte == BACKSLASH {
        seq![BACKSLASH, BACKSLASH]
    } else if byte == 0x08 {
        seq![BACKSLASH, LOWER_B]
    } else if byte == 0x09 {
        seq![BACKSLASH, LOWER_T]
    } else if byte == 0x0a {
        seq![BACKSLASH, LOWER_N]
    } else if byte == 0x0c {
        seq![BACKSLASH, LOWER_F]
    } else if byte == 0x0d {
        seq![BACKSLASH, LOWER_R]
    } else if byte < 0x20 {
        seq![BACKSLASH, LOWER_U, DIGIT_0, DIGIT_0] + hex(seq![byte])
    } else {
        seq![byte]
    }
}

/// The bytes of `text` with each one replaced by what stands for it.
pub open spec fn escaped(text: Seq<u8>) -> Seq<u8>
    decreases text.len(),
{
    if text.len() == 0 {
        Seq::empty()
    } else {
        escaped(text.drop_last()) + escaped_byte(text.last())
    }
}

/// The JSON string that holds `text`.
pub open spec fn quoted(text: Seq<u8>) -> Seq<u8> {
    seq![QUOTE] + escaped(text) + seq![QUOTE]
}

/// The items one after the other, with a comma between each two.
pub open spec fn joined(items: Seq<Seq<u8>>) -> Seq<u8>
    decreases items.len(),
{
    if items.len() == 0 {
        Seq::empty()
    } else if items.len() == 1 {
        items[0]
    } else {
        joined(items.drop_last()) + seq![COMMA] + items.last()
    }
}

/// The JSON array of items that are JSON texts themselves.
pub open spec fn array(items: Seq<Seq<u8>>) -> Seq<u8> {
    seq![OPEN] + joined(items) + seq![CLOSE]
}

/// The JSON strings that hold each of `texts`.
pub open spec fn all_quoted(texts: Seq<Seq<u8>>) -> Seq<Seq<u8>> {
    texts.map_values(|text: Seq<u8>| quoted(text))
}

/// The JSON array of the strings that hold `texts`.
pub open spec fn array_of_strings(texts: Seq<Seq<u8>>) -> Seq<u8> {
    array(all_quoted(texts))
}

/// The JSON arrays of strings that hold each of `lists`.
pub open spec fn all_arrays_of_strings(lists: Seq<Seq<Seq<u8>>>) -> Seq<Seq<u8>> {
    lists.map_values(|list: Seq<Seq<u8>>| array_of_strings(list))
}

/// The JSON array of the arrays of strings that hold `lists`.
pub open spec fn array_of_lists(lists: Seq<Seq<Seq<u8>>>) -> Seq<u8> {
    array(all_arrays_of_strings(lists))
}

/// Escaping a text with one more byte at its end.
pub proof fn lemma_escaped_push(text: Seq<u8>, byte: u8)
    ensures
        escaped(text.push(byte)) == escaped(text) + escaped_byte(byte),
{
    assert(text.push(byte).drop_last() =~= text);
}

/// Joining a list with one more item at its end.
pub proof fn lemma_joined_push(items: Seq<Seq<u8>>, item: Seq<u8>)
    ensures
        joined(items.push(item)) == if items.len() == 0 {
            item
        } else {
            joined(items) + seq![COMMA] + item
        },
{
    assert(items.push(item).drop_last() =~= items);
}

/// Appends to `out` what stands for `byte` inside a string.
pub fn push_escaped_byte(out: &mut Vec<u8>, byte: u8)
    ensures
        final(out)@ == old(out)@ + escaped_byte(byte),
{
    if byte == QUOTE || byte == BACKSLASH {
        out.push(BACKSLASH);
        out.push(byte);
    } else if byte == 0x08 {
        out.push(BACKSLASH);
        out.push(LOWER_B);
    } else if byte == 0x09 {
        out.push(BACKSLASH);
        out.push(LOWER_T);
    } else if byte == 0x0a {
        out.push(BACKSLASH);
        out.push(LOWER_N);
    } else if byte == 0x0c {
        out.push(BACKSLASH);
        out.push(LOWER_F);
    } else if byte == 0x0d {
        out.push(BACKSLASH);
        out.push(LOWER_R);
    } else if byte < 0x20 {
        out.push(BACKSLASH);
        out.push(LOWER_U);
        out.push(DIGIT_0);
        out.push(DIGIT_0);
        push_hex(out, &[byte]);
    } else {
        out.push(byte);
    }
    assert(out@ =~= old(out)@ + escaped_byte(byte));
}

/// Appends to `out` the JSON string that holds `text`.
pub fn push_quoted(out: &mut Vec<u8>, text: &[u8])
    ensures
        final(out)@ == old(out)@ + quoted(text@),
{
    out.push(QUOTE);
    let mut i: usize = 0;
    while i < text.len()
        invariant
            i <= text.len(),
            out@ == old(out)@ + seq![QUOTE] + escaped(text@.take(i as int)),
        decreases text.len() - i,
    {
        push_escaped_byte(out, text[i]);
        proof {
            lemma_escaped_push(text@.take(i as int), text@[i as int]);
            assert(text@.take(i + 1) =~= text@.take(i as int).push(text@[i as int]));
            assert(out@ =~= old(out)@ + seq![QUOTE] + escaped(text@.take(i + 1)));
        }
        i += 1;
    }
    out.push(QUOTE);
    proof {
        assert(text@.take(text.len() as int) =~= text@);
        assert(out@ =~= old(out)@ + quoted(text@));
    }
}

} // verus!
