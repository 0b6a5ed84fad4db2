//! The global identifier: a compact UUID followed by the decimal tag of the
//! object's type.

use vstd::prelude::*;
use vstd::string::{is_ascii, is_ascii_spec_bytes, StringSliceAdditionalSpecFns};
use crate::canonical::{
    compact, compact_spec, expand, expand_spec, is_canonical, is_hex_digit, is_uuid,
    lemma_compact_expand, lemma_compact_of_uuid, lemma_expand_compact, CANONICAL_LEN, COMPACT_LEN,
};
use crate::decimal::{
    decimal_string, is_decimal_digit, lemma_decimal_digits, lemma_decimal_len, tag_string,
};

verus! {

/// The global identifier of the object `id` of the type tagged `tag`.
pub open spec fn encode_spec(id: Seq<char>, tag: nat) -> Seq<char>
    recommends
        id.len() >= 36,
{
    compact_spec(id) + decimal_string(tag)
}

/// What a global identifier splits into: the local identifier in canonical
/// form and the tag as it was written, or nothing where fewer than 32
/// characters were given.
pub open spec fn decode_spec(global: Seq<char>) -> Option<(Seq<char>, Seq<char>)> {
    if global.len() < 32 {
        None
    } else {
        Some((expand_spec(global.subrange(0, 32)), global.subrange(32, global.len() as int)))
    }
}

/// `global` has the shape of an identifier on the wire: 32 hexadecimal
/// digits, then one or more decimal digits.
pub open spec fn is_wire_format(global: Seq<char>) -> bool {
    &&& global.len() >= 33
    &&& forall|i: int| 0 <= i < 32 ==> is_hex_digit(#[trigger] global[i])
    &&& forall|i: int| 32 <= i < global.len() ==> is_decimal_digit(#[trigger] global[i])
}

/// Whether `id` is long enough to be encoded.
pub fn is_encodable(id: &str) -> (ok: bool)
    ensures
        ok == (id@.len() >= CANONICAL_LEN),
{
    id.unicode_len() >= CANONICAL_LEN
}

/// Builds the global identifier of an object from its local identifier and
/// the tag of its type.
///
/// The local identifier must come from the object store, never from a
/// client: one shorter than a canonical UUID is a programming error, which
/// the precondition rules out.
pub fn encode(id: &str, tag: u64) -> (global: String)
    requires
        id@.len() >= CANONICAL_LEN,
    ensures
        global@ == encode_spec(id@, tag as nat),
        global@.len() >= 33,
{
    let mut global = compact(id);
    let digits = tag_string(tag);
    global.append(digits.as_str());
    proof {
        lemma_decimal_len(tag as nat);
    }
    global
}

/// Splits a global identifier into the local identifier, put back into
/// canonical form, and the tag string.
///
/// The split is after the 32nd character whatever follows, and the tag
/// string is everything after it, as written: it is not read as a number
/// here.
pub fn decode(global: &str) -> (parts: Option<(String, String)>)
    ensures
        match parts {
            Some((id, tag)) => decode_spec(global@) == Some((id@, tag@)),
            None => decode_spec(global@) is None,
        },
        parts is None <==> global@.len() < COMPACT_LEN,
        is_ascii(global) ==> (parts is None <==> global.spec_bytes().len() < COMPACT_LEN),
{
    proof {
        is_ascii_spec_bytes(global);
    }
    let n = global.unicode_len();
    if n < COMPACT_LEN {
        None
    } else {
        let id = expand(global.substring_char(0, COMPACT_LEN));
        let tag = String::from_str(global.substring_char(COMPACT_LEN, n));
        Some((id, tag))
    }
}

/// Encoding a canonical UUID under any tag and decoding the result gives the
/// UUID and the tag's decimal notation back.
pub proof fn lemma_round_trip(u: Seq<char>, tag: nat)
    requires
        is_canonical(u),
    ensures
        decode_spec(encode_spec(u, tag)) == Some((u, decimal_string(tag))),
{
    let global = encode_spec(u, tag);
    assert(global.subrange(0, 32) =~= compact_spec(u));
    assert(global.subrange(32, global.len() as int) =~= decimal_string(tag));
    lemma_expand_compact(u);
}

/// Whatever decodes is put together again by encoding, if its tag string is
/// the decimal notation of a number: nothing of the identifier is lost in
/// between.
pub proof fn lemma_decode_then_encode(global: Seq<char>, tag: nat)
    requires
        global.len() >= 32,
        global.subrange(32, global.len() as int) == decimal_string(tag),
    ensures
        decode_spec(global) matches Some((id, written)) && written == decimal_string(tag)
            && encode_spec(id, tag) == global,
{
    let head = global.subrange(0, 32);
    lemma_compact_expand(head);
    assert(head + decimal_string(tag) =~= global);
}

/// Nothing shorter than 32 characters decodes.
pub proof fn lemma_short_input_rejected(global: Seq<char>)
    requires
        global.len() < 32,
    ensures
        decode_spec(global) is None,
{
}

/// Every global identifier that `encode` can give has at least 33
/// characters, and its first 32 are the compact local identifier.
pub proof fn lemma_encoded_shape(id: Seq<char>, tag: nat)
    requires
        id.len() >= 36,
    ensures
        encode_spec(id, tag).len() == id.len() - 4 + decimal_string(tag).len(),
        encode_spec(id, tag).len() >= 33,
        id.len() == 36 ==> encode_spec(id, tag).subrange(0, 32) == compact_spec(id),
{
    lemma_decimal_len(tag);
    if id.len() == 36 {
        assert(encode_spec(id, tag).subrange(0, 32) =~= compact_spec(id));
    }
}

/// The identifier of a correctly formed UUID has the shape that goes on the
/// wire, whatever the tag.
pub proof fn lemma_wire_format(u: Seq<char>, tag: nat)
    requires
        is_uuid(u),
    ensures
        is_wire_format(encode_spec(u, tag)),
{
    let global = encode_spec(u, tag);
    lemma_compact_of_uuid(u);
    lemma_decimal_len(tag);
    assert forall|i: int| 0 <= i < 32 implies is_hex_digit(#[trigger] global[i]) by {
        assert(global[i] == compact_spec(u)[i]);
    }
    assert forall|i: int| 32 <= i < global.len() implies is_decimal_digit(#[trigger] global[i]) by {
        assert(global[i] == decimal_string(tag)[i - 32]);
        lemma_decimal_digits(tag, i - 32);
    }
}

/// An identifier of the shape that goes on the wire decodes to a correctly
/// formed UUID and a tag string of decimal digits.
pub proof fn lemma_decode_wire_format(global: Seq<char>)
    requires
        is_wire_format(global),
    ensures
        decode_spec(global) matches Some((id, tag)) && {
            &&& is_uuid(id)
            &&& tag.len() >= 1
            &&& forall|i: int| 0 <= i < tag.len() ==> is_decimal_digit(#[trigger] tag[i])
        },
{
    let head = global.subrange(0, 32);
    let id = expand_spec(head);
    assert forall|i: int|
        0 <= i < 36 && i != 8 && i != 13 && i != 18 && i != 23 implies is_hex_digit(
        #[trigger] id[i],
    ) by {
        if i < 8 {
            assert(id[i] == global[i]);
        } else if i < 13 {
            assert(id[i] == global[i - 1]);
        } else if i < 18 {
            assert(id[i] == global[i - 2]);
        } else if i < 23 {
            assert(id[i] == global[i - 3]);
        } else {
            assert(id[i] == global[i - 4]);
        }
    }
}

} // verus!
