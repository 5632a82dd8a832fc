//! What holds of the library as a whole, stated over the models that the
//! contracts of its functions use, and proved.
use crate::ascii::{CLOSE, COMMA, DIGIT_0, OPEN, QUOTE};
use crate::canonical::{canonical_form, lemma_canonical_form_unfolded, tag_bytes, tags_bytes};
use crate::decimal::{decimal, lemma_decimal_digits, lemma_decimal_injective};
use crate::error::Error;
use crate::event::{tags_view, Event, Kind};
use crate::hasher::sha256_digest;
use crate::hex::{hex, lemma_hex_injective};
use crate::json::{array_of_lists, quoted};
use crate::unambiguous::{
    lemma_array_of_lists_delimited, lemma_digits_delimited, lemma_quoted_delimited,
    lemma_same_parts,
};
use vstd::prelude::*;
use vstd::utf8::{encode_utf8, encode_utf8_decode_utf8};

verus! {

/// Different strings have different UTF-8 bytes.
proof fn lemma_utf8_injective(a: Seq<char>, b: Seq<char>)
    requires
        encode_utf8(a) == encode_utf8(b),
    ensures
        a == b,
{
    encode_utf8_decode_utf8(a);
    encode_utf8_decode_utf8(b);
}

/// Different tags have different bytes.
proof fn lemma_tag_bytes_injective(a: Seq<Seq<char>>, b: Seq<Seq<char>>)
    requires
        tag_bytes(a) == tag_bytes(b),
    ensures
        a == b,
{
    assert(a.len() == tag_bytes(a).len() && b.len() == tag_bytes(b).len());
    assert forall|i: int| 0 <= i < a.len() implies a[i] == b[i] by {
        assert(tag_bytes(a)[i] == encode_utf8(a[i]));
        assert(tag_bytes(b)[i] == encode_utf8(b[i]));
        lemma_utf8_injective(a[i], b[i]);
    }
    assert(a =~= b);
}

/// Different lists of tags have different bytes.
proof fn lemma_tags_bytes_injective(a: Seq<Seq<Seq<char>>>, b: Seq<Seq<Seq<char>>>)
    requires
        tags_bytes(a) == tags_bytes(b),
    ensures
        a == b,
{
    assert(a.len() == tags_bytes(a).len() && b.len() == tags_bytes(b).len());
    assert forall|i: int| 0 <= i < a.len() implies a[i] == b[i] by {
        assert(tags_bytes(a)[i] == tag_bytes(a[i]));
        assert(tags_bytes(b)[i] == tag_bytes(b[i]));
        lemma_tag_bytes_injective(a[i], b[i]);
    }
    assert(a =~= b);
}

/// What follows the tags in a canonical form: the content and the end.
spec fn after_tags(content: Seq<char>) -> Seq<u8> {
    seq![COMMA] + (quoted(encode_utf8(content)) + seq![CLOSE])
}

/// What follows the kind in a canonical form.
spec fn after_kind(tags: Seq<Seq<Seq<char>>>, content: Seq<char>) -> Seq<u8> {
    seq![COMMA] + (array_of_lists(tags_bytes(tags)) + after_tags(content))
}

/// What follows the time in a canonical form.
spec fn after_time(kind: Kind, tags: Seq<Seq<Seq<char>>>, content: Seq<char>) -> Seq<u8> {
    seq![COMMA] + (decimal(kind.number() as nat) + after_kind(tags, content))
}

/// What follows the public key in a canonical form.
spec fn after_key(
    created_at: u32,
    kind: Kind,
    tags: Seq<Seq<Seq<char>>>,
    content: Seq<char>,
) -> Seq<u8> {
    seq![QUOTE, COMMA] + (decimal(created_at as nat) + after_time(kind, tags, content))
}

/// The canonical form as the public key between what stands before it and
/// what follows it.
proof fn lemma_canonical_form_around_key(
    pubkey: Seq<u8>,
    created_at: u32,
    kind: Kind,
    tags: Seq<Seq<Seq<char>>>,
    content: Seq<char>,
)
    ensures
        canonical_form(pubkey, created_at, kind, tags, content) == seq![
            OPEN,
            DIGIT_0,
            COMMA,
            QUOTE,
        ] + (hex(pubkey) + after_key(created_at, kind, tags, content)),
{
    lemma_canonical_form_unfolded(pubkey, created_at, kind, tags, content);
    assert(canonical_form(pubkey, created_at, kind, tags, content) =~= seq![
        OPEN,
        DIGIT_0,
        COMMA,
        QUOTE,
    ] + (hex(pubkey) + after_key(created_at, kind, tags, content)));
}

/// What follows the tags tells the content.
proof fn lemma_after_tags_injective(content_a: Seq<char>, content_b: Seq<char>)
    requires
        after_tags(content_a) == after_tags(content_b),
    ensures
        content_a == content_b,
{
    let (text_a, text_b) = (encode_utf8(content_a), encode_utf8(content_b));
    lemma_same_parts(
        seq![COMMA],
        quoted(text_a) + seq![CLOSE],
        seq![COMMA],
        quoted(text_b) + seq![CLOSE],
    );
    lemma_quoted_delimited(text_a, seq![CLOSE], text_b, seq![CLOSE]);
    lemma_utf8_injective(content_a, content_b);
}

/// What follows the kind tells the tags and the content.
proof fn lemma_after_kind_injective(
    tags_a: Seq<Seq<Seq<char>>>,
    content_a: Seq<char>,
    tags_b: Seq<Seq<Seq<char>>>,
    content_b: Seq<char>,
)
    requires
        after_kind(tags_a, content_a) == after_kind(tags_b, content_b),
    ensures
        tags_a == tags_b,
        content_a == content_b,
{
    let (lists_a, lists_b) = (tags_bytes(tags_a), tags_bytes(tags_b));
    lemma_same_parts(
        seq![COMMA],
        array_of_lists(lists_a) + after_tags(content_a),
        seq![COMMA],
        array_of_lists(lists_b) + after_tags(content_b),
    );
    lemma_array_of_lists_delimited(
        lists_a,
        after_tags(content_a),
        lists_b,
        after_tags(content_b),
    );
    lemma_tags_bytes_injective(tags_a, tags_b);
    lemma_after_tags_injective(content_a, content_b);
}

/// What follows the time tells the kind, the tags and the content.
proof fn lemma_after_time_injective(
    kind_a: Kind,
    tags_a: Seq<Seq<Seq<char>>>,
    content_a: Seq<char>,
    kind_b: Kind,
    tags_b: Seq<Seq<Seq<char>>>,
    content_b: Seq<char>,
)
    requires
        after_time(kind_a, tags_a, content_a) == after_time(kind_b, tags_b, content_b),
    ensures
        kind_a == kind_b,
        tags_a == tags_b,
        content_a == content_b,
{
    let (number_a, number_b) = (
        decimal(kind_a.number() as nat),
        decimal(kind_b.number() as nat),
    );
    let (rest_a, rest_b) = (after_kind(tags_a, content_a), after_kind(tags_b, content_b));
    lemma_same_parts(seq![COMMA], number_a + rest_a, seq![COMMA], number_b + rest_b);
    lemma_decimal_digits(kind_a.number() as nat);
    lemma_decimal_digits(kind_b.number() as nat);
    assert(rest_a[0] == COMMA && rest_b[0] == COMMA);
    lemma_digits_delimited(number_a, rest_a, number_b, rest_b);
    lemma_decimal_injective(kind_a.number() as nat, kind_b.number() as nat);
    lemma_after_kind_injective(tags_a, content_a, tags_b, content_b);
}

/// What follows the public key tells the time, the kind, the tags and the
/// content.
proof fn lemma_after_key_injective(
    created_at_a: u32,
    kind_a: Kind,
    tags_a: Seq<Seq<Seq<char>>>,
    content_a: Seq<char>,
    created_at_b: u32,
    kind_b: Kind,
    tags_b: Seq<Seq<Seq<char>>>,
    content_b: Seq<char>,
)
    requires
        after_key(created_at_a, kind_a, tags_a, content_a) == after_key(
            created_at_b,
            kind_b,
            tags_b,
            content_b,
        ),
    ensures
        created_at_a == created_at_b,
        kind_a == kind_b,
        tags_a == tags_b,
        content_a == content_b,
{
    let (time_a, time_b) = (decimal(created_at_a as nat), decimal(created_at_b as nat));
    let rest_a = after_time(kind_a, tags_a, content_a);
    let rest_b = after_time(kind_b, tags_b, content_b);
    lemma_same_parts(seq![QUOTE, COMMA], time_a + rest_a, seq![QUOTE, COMMA], time_b + rest_b);
    lemma_decimal_digits(created_at_a as nat);
    lemma_decimal_digits(created_at_b as nat);
    assert(rest_a[0] == COMMA && rest_b[0] == COMMA);
    lemma_digits_delimited(time_a, rest_a, time_b, rest_b);
    lemma_decimal_injective(created_at_a as nat, created_at_b as nat);
    lemma_after_time_injective(kind_a, tags_a, content_a, kind_b, tags_b, content_b);
}

/// The canonical form is read in one way only: two lists of signed fields
/// with the same canonical form, under public keys of one length, are the
/// same fields.
pub proof fn law_canonical_form_is_injective(
    pubkey_a: Seq<u8>,
    created_at_a: u32,
    kind_a: Kind,
    tags_a: Seq<Seq<Seq<char>>>,
    content_a: Seq<char>,
    pubkey_b: Seq<u8>,
    created_at_b: u32,
    kind_b: Kind,
    tags_b: Seq<Seq<Seq<char>>>,
    content_b: Seq<char>,
)
    requires
        pubkey_a.len() == pubkey_b.len(),
        canonical_form(pubkey_a, created_at_a, kind_a, tags_a, content_a) == canonical_form(
            pubkey_b,
            created_at_b,
            kind_b,
            tags_b,
            content_b,
        ),
    ensures
        pubkey_a == pubkey_b,
        created_at_a == created_at_b,
        kind_a == kind_b,
        tags_a == tags_b,
        content_a == content_b,
{
    lemma_canonical_form_around_key(pubkey_a, created_at_a, kind_a, tags_a, content_a);
    lemma_canonical_form_around_key(pubkey_b, created_at_b, kind_b, tags_b, content_b);
    let head = seq![OPEN, DIGIT_0, COMMA, QUOTE];
    let rest_a = after_key(created_at_a, kind_a, tags_a, content_a);
    let rest_b = after_key(created_at_b, kind_b, tags_b, content_b);
    lemma_same_parts(head, hex(pubkey_a) + rest_a, head, hex(pubkey_b) + rest_b);
    lemma_same_parts(hex(pubkey_a), rest_a, hex(pubkey_b), rest_b);
    lemma_hex_injective(pubkey_a, pubkey_b);
    lemma_after_key_injective(
        created_at_a,
        kind_a,
        tags_a,
        content_a,
        created_at_b,
        kind_b,
        tags_b,
        content_b,
    );
}

/// Whether two events have the same signed fields: public key, time, kind,
/// tags and content.
pub open spec fn same_signed_fields(a: Event, b: Event) -> bool {
    &&& a.pubkey@ == b.pubkey@
    &&& a.created_at == b.created_at
    &&& a.kind == b.kind
    &&& tags_view(a.tags@) == tags_view(b.tags@)
    &&& a.content@ == b.content@
}

/// The encoding is deterministic: events with the same signed fields have
/// the same canonical form, byte for byte, and so the same digest.
pub proof fn law_encoding_is_deterministic(a: Event, b: Event)
    requires
        same_signed_fields(a, b),
    ensures
        a.canonical() == b.canonical(),
        a.computed_id() == b.computed_id(),
{
}

/// The identifier is a function of the signed fields alone, and different
/// fields have different canonical forms.
pub proof fn law_canonical_form_tells_fields_apart(a: Event, b: Event)
    ensures
        a.canonical() == b.canonical() <==> same_signed_fields(a, b),
{
    if a.canonical() == b.canonical() {
        law_canonical_form_is_injective(
            a.pubkey@,
            a.created_at,
            a.kind,
            tags_view(a.tags@),
            a.content@,
            b.pubkey@,
            b.created_at,
            b.kind,
            tags_view(b.tags@),
            b.content@,
        );
    }
}

/// Validation succeeds on exactly the events that are valid: those whose
/// identifier is the digest of their canonical form and whose signature
/// verifies over it under their public key. Such is every event that
/// `Event::new` returns.
pub proof fn law_validation_accepts_valid_events(event: Event)
    ensures
        event.validation() == Ok::<(), Error>(()) <==> event.is_valid(),
{
}

/// Whether SHA-256 gives two different canonical forms the same digest.
pub open spec fn digests_collide(a: Event, b: Event) -> bool {
    a.canonical() != b.canonical() && sha256_digest(a.canonical()) == sha256_digest(b.canonical())
}

/// Tampering is detected: an event that passes validation no longer does
/// once any of its signed fields is changed while its identifier is kept,
/// unless SHA-256 gives the two canonical forms the same digest. The
/// failure is `IdMismatch`, whatever the signature.
pub proof fn law_tampering_is_detected(genuine: Event, tampered: Event)
    requires
        genuine.validation() == Ok::<(), Error>(()),
        tampered.id@ == genuine.id@,
        !same_signed_fields(genuine, tampered),
        !digests_collide(genuine, tampered),
    ensures
        tampered.validation() == Err::<(), Error>(Error::IdMismatch),
{
    law_canonical_form_tells_fields_apart(genuine, tampered);
}

/// A signature does not carry over to another key: an event that passes
/// validation fails it with `IdMismatch` once its public key is replaced by
/// another, the identifier and the signature left as they were, unless
/// SHA-256 gives the two canonical forms the same digest.
pub proof fn law_wrong_key_is_detected(genuine: Event, swapped: Event)
    requires
        genuine.validation() == Ok::<(), Error>(()),
        swapped.id@ == genuine.id@,
        swapped.sig@ == genuine.sig@,
        swapped.pubkey@ != genuine.pubkey@,
        !digests_collide(genuine, swapped),
    ensures
        swapped.validation() == Err::<(), Error>(Error::IdMismatch),
{
    law_tampering_is_detected(genuine, swapped);
}

/// Validation is repeatable: its result depends on the fields of the event
/// alone, so it is the same every time the same event is validated.
pub proof fn law_validation_is_repeatable(first: Event, second: Event)
    requires
        same_signed_fields(first, second),
        first.id@ == second.id@,
        first.sig@ == second.sig@,
    ensures
        first.validation() == second.validation(),
{
}

} // verus!
