//! Proofs that the texts of this library can be read in one way only: where
//! two of them start the same bytes, they are the texts of the same value
//! and end at the same place.
use crate::ascii::{CLOSE, COMMA, OPEN, QUOTE};
use crate::decimal::is_digit;
use crate::hex::lemma_hex_digit_value;
use crate::json::{
    all_arrays_of_strings, all_quoted, array, array_of_lists, array_of_strings, escaped,
    escaped_byte, joined, lemma_escaped_push, quoted,
};
use vstd::prelude::*;

verus! {

/// Two equal texts that begin with parts of one length have the same parts.
pub proof fn lemma_same_parts(a: Seq<u8>, x: Seq<u8>, b: Seq<u8>, y: Seq<u8>)
    requires
        a.len() == b.len(),
        a + x == b + y,
    ensures
        a == b,
        x == y,
{
    let n = a.len() as int;
    assert((a + x).subrange(0, n) =~= a);
    assert((b + y).subrange(0, n) =~= b);
    assert((a + x).subrange(n, (a + x).len() as int) =~= x);
    assert((b + y).subrange(n, (b + y).len() as int) =~= y);
}

/// Where two runs of digits are each followed by a byte that is no digit,
/// and the whole texts are equal, the runs are equal and so is what follows.
pub proof fn lemma_digits_delimited(a: Seq<u8>, x: Seq<u8>, b: Seq<u8>, y: Seq<u8>)
    requires
        forall|i: int| 0 <= i < a.len() ==> is_digit(#[trigger] a[i]),
        forall|i: int| 0 <= i < b.len() ==> is_digit(#[trigger] b[i]),
        x.len() > 0 && !is_digit(x[0]),
        y.len() > 0 && !is_digit(y[0]),
        a + x == b + y,
    ensures
        a == b,
        x == y,
{
    if a.len() < b.len() {
        assert((a + x)[a.len() as int] == x[0]);
        assert((b + y)[a.len() as int] == b[a.len() as int]);
    }
    if b.len() < a.len() {
        assert((b + y)[b.len() as int] == y[0]);
        assert((a + x)[b.len() as int] == a[b.len() as int]);
    }
    lemma_same_parts(a, x, b, y);
}

/// Escaping a text with one more byte at its start.
pub proof fn lemma_escaped_front(byte: u8, text: Seq<u8>)
    ensures
        escaped(seq![byte] + text) == escaped_byte(byte) + escaped(text),
    decreases text.len(),
{
    if text.len() == 0 {
        assert(seq![byte] + text =~= seq![byte]);
        assert(seq![byte] =~= Seq::<u8>::empty().push(byte));
        lemma_escaped_push(Seq::<u8>::empty(), byte);
        assert(escaped(seq![byte]) =~= escaped_byte(byte));
        assert(escaped_byte(byte) + escaped(text) =~= escaped_byte(byte));
    } else {
        lemma_escaped_front(byte, text.drop_last());
        assert((seq![byte] + text).drop_last() =~= seq![byte] + text.drop_last());
        assert(escaped(seq![byte] + text) =~= escaped_byte(byte) + escaped(text));
    }
}

/// What stands for a byte is never empty and never starts with a quote.
pub proof fn lemma_escaped_byte_start(byte: u8)
    ensures
        escaped_byte(byte).len() > 0,
        escaped_byte(byte)[0] != QUOTE,
{
}

/// What stands for a byte tells which byte it stands for, and where it ends.
pub proof fn lemma_escaped_byte_delimited(u: u8, x: Seq<u8>, v: u8, y: Seq<u8>)
    requires
        escaped_byte(u) + x == escaped_byte(v) + y,
    ensures
        u == v,
        x == y,
{
    let (eu, ev) = (escaped_byte(u), escaped_byte(v));
    let (left, right) = (eu + x, ev + y);
    assert(left[0] == eu[0] && right[0] == ev[0]);
    if eu.len() >= 2 {
        assert(left[1] == eu[1]);
    }
    if ev.len() >= 2 {
        assert(right[1] == ev[1]);
    }
    if eu.len() == 6 {
        assert(left[4] == eu[4] && left[5] == eu[5]);
    }
    if ev.len() == 6 {
        assert(right[4] == ev[4] && right[5] == ev[5]);
    }
    lemma_hex_digit_value();
    if eu.len() == 6 && ev.len() == 6 {
        assert(u / 16 == v / 16 && u % 16 == v % 16);
    }
    assert(u == v);
    lemma_same_parts(eu, x, ev, y);
}

/// An escaped text that is followed by a quote tells which text it stands
/// for, and where it ends.
pub proof fn lemma_escaped_delimited(s: Seq<u8>, x: Seq<u8>, t: Seq<u8>, y: Seq<u8>)
    requires
        escaped(s) + seq![QUOTE] + x == escaped(t) + seq![QUOTE] + y,
    ensures
        s == t,
        x == y,
    decreases s.len(),
{
    let (left, right) = (escaped(s) + seq![QUOTE] + x, escaped(t) + seq![QUOTE] + y);
    if s.len() > 0 {
        assert(s =~= seq![s[0]] + s.drop_first());
        lemma_escaped_front(s[0], s.drop_first());
        lemma_escaped_byte_start(s[0]);
        assert(left[0] == escaped_byte(s[0])[0]);
    } else {
        assert(left[0] == QUOTE);
    }
    if t.len() > 0 {
        assert(t =~= seq![t[0]] + t.drop_first());
        lemma_escaped_front(t[0], t.drop_first());
        lemma_escaped_byte_start(t[0]);
        assert(right[0] == escaped_byte(t[0])[0]);
    } else {
        assert(right[0] == QUOTE);
    }
    if s.len() > 0 && t.len() > 0 {
        let rest_s = escaped(s.drop_first()) + seq![QUOTE] + x;
        let rest_t = escaped(t.drop_first()) + seq![QUOTE] + y;
        assert(left =~= escaped_byte(s[0]) + rest_s);
        assert(right =~= escaped_byte(t[0]) + rest_t);
        lemma_escaped_byte_delimited(s[0], rest_s, t[0], rest_t);
        lemma_escaped_delimited(s.drop_first(), x, t.drop_first(), y);
    } else {
        assert(s.len() == 0 && t.len() == 0);
        assert(s =~= t);
        assert(left =~= seq![QUOTE] + x);
        assert(right =~= seq![QUOTE] + y);
        lemma_same_parts(seq![QUOTE], x, seq![QUOTE], y);
    }
}

/// A JSON string tells which text it holds, and where it ends.
pub proof fn lemma_quoted_delimited(s: Seq<u8>, x: Seq<u8>, t: Seq<u8>, y: Seq<u8>)
    requires
        quoted(s) + x == quoted(t) + y,
    ensures
        s == t,
        x == y,
{
    let rest_s = escaped(s) + seq![QUOTE] + x;
    let rest_t = escaped(t) + seq![QUOTE] + y;
    assert(quoted(s) + x =~= seq![QUOTE] + rest_s);
    assert(quoted(t) + y =~= seq![QUOTE] + rest_t);
    lemma_same_parts(seq![QUOTE], rest_s, seq![QUOTE], rest_t);
    lemma_escaped_delimited(s, x, t, y);
}

/// Whether the text that `encode` writes for a value tells which value it
/// is, and where the text ends, whatever follows.
pub open spec fn delimited<A>(encode: spec_fn(A) -> Seq<u8>) -> bool {
    forall|p: A, x: Seq<u8>, q: A, y: Seq<u8>|
        #![trigger encode(p) + x, encode(q) + y]
        encode(p) + x == encode(q) + y ==> p == q && x == y
}

/// Whether every text that `encode` writes starts with a byte other than the
/// closing bracket.
pub open spec fn opens_item<A>(encode: spec_fn(A) -> Seq<u8>) -> bool {
    forall|p: A| (#[trigger] encode(p)).len() > 0 && encode(p)[0] != CLOSE
}

/// Joining a list of two items or more, seen from its first item.
pub proof fn lemma_joined_front(items: Seq<Seq<u8>>)
    requires
        items.len() >= 2,
    ensures
        joined(items) == items[0] + seq![COMMA] + joined(items.drop_first()),
    decreases items.len(),
{
    let init = items.drop_last();
    let tail = items.drop_first();
    if items.len() == 2 {
        assert(joined(init) == items[0]);
        assert(joined(tail) == items[1]);
    } else {
        lemma_joined_front(init);
        assert(tail.drop_last() =~= init.drop_first());
        assert(joined(items) =~= items[0] + seq![COMMA] + joined(tail));
    }
}

/// The items of an array, from any point up to the closing bracket, tell
/// which items they are, and where the array ends.
pub proof fn lemma_items_delimited<A>(
    encode: spec_fn(A) -> Seq<u8>,
    ps: Seq<A>,
    x: Seq<u8>,
    qs: Seq<A>,
    y: Seq<u8>,
)
    requires
        delimited(encode),
        opens_item(encode),
        joined(ps.map_values(encode)) + seq![CLOSE] + x == joined(qs.map_values(encode)) + seq![
            CLOSE,
        ] + y,
    ensures
        ps == qs,
        x == y,
    decreases ps.len(),
{
    let (xs, ys) = (ps.map_values(encode), qs.map_values(encode));
    let (left, right) = (joined(xs) + seq![CLOSE] + x, joined(ys) + seq![CLOSE] + y);
    let rest_p = if ps.len() == 1 {
        seq![CLOSE] + x
    } else {
        seq![COMMA] + (joined(xs.drop_first()) + seq![CLOSE] + x)
    };
    let rest_q = if qs.len() == 1 {
        seq![CLOSE] + y
    } else {
        seq![COMMA] + (joined(ys.drop_first()) + seq![CLOSE] + y)
    };
    if ps.len() > 0 {
        assert(xs[0] == encode(ps[0]));
        if ps.len() >= 2 {
            lemma_joined_front(xs);
        }
        assert(left =~= encode(ps[0]) + rest_p);
        assert(left[0] == encode(ps[0])[0]);
    } else {
        assert(left =~= seq![CLOSE] + x);
        assert(left[0] == CLOSE);
    }
    if qs.len() > 0 {
        assert(ys[0] == encode(qs[0]));
        if qs.len() >= 2 {
            lemma_joined_front(ys);
        }
        assert(right =~= encode(qs[0]) + rest_q);
        assert(right[0] == encode(qs[0])[0]);
    } else {
        assert(right =~= seq![CLOSE] + y);
        assert(right[0] == CLOSE);
    }
    if ps.len() > 0 && qs.len() > 0 {
        assert(encode(ps[0]) + rest_p == encode(qs[0]) + rest_q);
        assert(ps[0] == qs[0] && rest_p == rest_q);
        assert(rest_p[0] == rest_q[0]);
        if ps.len() == 1 {
            assert(qs.len() == 1);
            lemma_same_parts(seq![CLOSE], x, seq![CLOSE], y);
        } else {
            assert(qs.len() > 1);
            let more_p = joined(xs.drop_first()) + seq![CLOSE] + x;
            let more_q = joined(ys.drop_first()) + seq![CLOSE] + y;
            lemma_same_parts(seq![COMMA], more_p, seq![COMMA], more_q);
            assert(xs.drop_first() =~= ps.drop_first().map_values(encode));
            assert(ys.drop_first() =~= qs.drop_first().map_values(encode));
            lemma_items_delimited(encode, ps.drop_first(), x, qs.drop_first(), y);
        }
        assert(ps =~= seq![ps[0]] + ps.drop_first());
        assert(qs =~= seq![qs[0]] + qs.drop_first());
    } else {
        assert(ps.len() == 0 && qs.len() == 0);
        assert(ps =~= qs);
        lemma_same_parts(seq![CLOSE], x, seq![CLOSE], y);
    }
}

/// An array of items that are delimited tells which items it holds, and
/// where it ends.
pub proof fn lemma_array_delimited<A>(
    encode: spec_fn(A) -> Seq<u8>,
    ps: Seq<A>,
    x: Seq<u8>,
    qs: Seq<A>,
    y: Seq<u8>,
)
    requires
        delimited(encode),
        opens_item(encode),
        array(ps.map_values(encode)) + x == array(qs.map_values(encode)) + y,
    ensures
        ps == qs,
        x == y,
{
    let rest_p = joined(ps.map_values(encode)) + seq![CLOSE] + x;
    let rest_q = joined(qs.map_values(encode)) + seq![CLOSE] + y;
    assert(array(ps.map_values(encode)) + x =~= seq![OPEN] + rest_p);
    assert(array(qs.map_values(encode)) + y =~= seq![OPEN] + rest_q);
    lemma_same_parts(seq![OPEN], rest_p, seq![OPEN], rest_q);
    lemma_items_delimited(encode, ps, x, qs, y);
}

/// An array of strings tells which texts it holds, and where it ends.
pub proof fn lemma_array_of_strings_delimited(
    s: Seq<Seq<u8>>,
    x: Seq<u8>,
    t: Seq<Seq<u8>>,
    y: Seq<u8>,
)
    requires
        array_of_strings(s) + x == array_of_strings(t) + y,
    ensures
        s == t,
        x == y,
{
    let encode = |text: Seq<u8>| quoted(text);
    assert forall|p: Seq<u8>, a: Seq<u8>, q: Seq<u8>, b: Seq<u8>|
        #![trigger encode(p) + a, encode(q) + b]
        encode(p) + a == encode(q) + b implies p == q && a == b by {
        lemma_quoted_delimited(p, a, q, b);
    }
    assert forall|p: Seq<u8>| (#[trigger] encode(p)).len() > 0 && encode(p)[0] != CLOSE by {
        assert(quoted(p)[0] == QUOTE);
    }
    assert(all_quoted(s) =~= s.map_values(encode));
    assert(all_quoted(t) =~= t.map_values(encode));
    lemma_array_delimited(encode, s, x, t, y);
}

/// An array of arrays of strings tells which lists of texts it holds, and
/// where it ends.
pub proof fn lemma_array_of_lists_delimited(
    s: Seq<Seq<Seq<u8>>>,
    x: Seq<u8>,
    t: Seq<Seq<Seq<u8>>>,
    y: Seq<u8>,
)
    requires
        array_of_lists(s) + x == array_of_lists(t) + y,
    ensures
        s == t,
        x == y,
{
    let encode = |list: Seq<Seq<u8>>| array_of_strings(list);
    assert forall|p: Seq<Seq<u8>>, a: Seq<u8>, q: Seq<Seq<u8>>, b: Seq<u8>|
        #![trigger encode(p) + a, encode(q) + b]
        encode(p) + a == encode(q) + b implies p == q && a == b by {
        lemma_array_of_strings_delimited(p, a, q, b);
    }
    assert forall|p: Seq<Seq<u8>>| (#[trigger] encode(p)).len() > 0 && encode(p)[0] != CLOSE by {
        assert(array_of_strings(p)[0] == OPEN);
    }
    assert(all_arrays_of_strings(s) =~= s.map_values(encode));
    assert(all_arrays_of_strings(t) =~= t.map_values(encode));
    lemma_array_delimited(encode, s, x, t, y);
}

} // verus!
