//! The header types of the transport, and what is taken on trust about them.
//!
//! Nothing in this module is proved. Each item names the transport function it
//! stands for and states what is believed of it.

use crate::entries::{has_name, same_name};
use crate::header::{
    is_text, lowered, text_of, valid_header_name, valid_header_value, ASSURED_HEADERS,
};
use reqwest::header::{HeaderMap, HeaderName, HeaderValue};
use std::str::FromStr;
use vstd::prelude::*;
use vstd::utf8::encode_utf8;

verus! {

/// The transport's header multimap, `reqwest::header::HeaderMap`. Its inside is
/// not visible to the verifier; `header_entries` stands for what it holds.
#[verifier::external_type_specification]
#[verifier::external_body]
#[verifier::reject_recursive_types(T)]
pub struct ExHeaderMap<T>(HeaderMap<T>);

/// The transport's header value, `reqwest::header::HeaderValue`, which a
/// `HeaderMap` holds by default.
#[verifier::external_type_specification]
#[verifier::external_body]
pub struct ExHeaderValue(HeaderValue);

/// What a header map holds: its name and value pairs, in the order in which
/// `HeaderMap::iter` yields them. A name is given as text, a value as bytes.
pub uninterp spec fn header_entries(map: HeaderMap) -> Seq<(Seq<char>, Seq<u8>)>;

/// `str::eq_ignore_ascii_case` tells whether two strings agree once the
/// letters `A` to `Z` are taken as `a` to `z`.
#[verifier::external_body]
pub(crate) fn names_match(a: &str, b: &str) -> (same: bool)
    ensures
        same == same_name(a@, b@),
{
    a.eq_ignore_ascii_case(b)
}

/// `HeaderName::from_str` accepts exactly the non-empty tokens of at most
/// 65535 characters.
#[verifier::external_body]
pub(crate) fn is_header_name(name: &str) -> (ok: bool)
    ensures
        ok == valid_header_name(name@),
{
    HeaderName::from_str(name).is_ok()
}

/// `HeaderValue::from_str` accepts exactly the strings in which every
/// character is the tab or stands at or above the space and is not the delete
/// character, U+007F.
#[verifier::external_body]
pub(crate) fn is_header_value(value: &str) -> (ok: bool)
    ensures
        ok == valid_header_value(value@),
{
    HeaderValue::from_str(value).is_ok()
}

/// `HeaderMap::new` makes a map that holds nothing.
#[verifier::external_body]
pub(crate) fn new_header_map() -> (map: HeaderMap)
    ensures
        header_entries(map) == Seq::<(Seq<char>, Seq<u8>)>::empty(),
{
    HeaderMap::new()
}

/// `HeaderMap::try_insert` of a name that the map does not hold. When it
/// accepts the pair, the map holds it behind all others, the name in lower
/// case and the value as the bytes of its text. When it refuses, the map holds
/// what it held.
///
/// It accepts whenever the map holds fewer than 6554 pairs. The map refuses
/// only when its index table would have to grow beyond 32768 slots. The table
/// has no slots or a power of two of them, and growth is asked for only when
/// the map is full, which at 32768 slots is at 24576 names, or, after many
/// collisions, when five times the names reach the slots, which at 32768 slots
/// is at 6554 names.
#[verifier::external_body]
pub(crate) fn insert_header(map: &mut HeaderMap, name: &str, value: &str) -> (stored: bool)
    requires
        valid_header_name(name@),
        valid_header_value(value@),
        !has_name(header_entries(*old(map)), name@),
    ensures
        header_entries(*old(map)).len() < ASSURED_HEADERS ==> stored,
        stored ==> header_entries(*final(map)) == header_entries(*old(map)).push(
            (lowered(name@), encode_utf8(value@)),
        ),
        !stored ==> header_entries(*final(map)) == header_entries(*old(map)),
{
    let name = HeaderName::from_str(name).unwrap();
    let value = HeaderValue::from_str(value).unwrap();
    map.try_insert(name, value).is_ok()
}

/// `HeaderMap::iter` hands out every pair the map holds, in its own order;
/// each name comes as `HeaderName::as_str` gives it, each value as
/// `HeaderValue::as_bytes` gives it.
#[verifier::external_body]
pub(crate) fn header_pairs(map: &HeaderMap) -> (pairs: Vec<(String, Vec<u8>)>)
    ensures
        pairs.len() == header_entries(*map).len(),
        forall|i: int|
            0 <= i < pairs.len() ==> (#[trigger] pairs[i]).0@ == header_entries(*map)[i].0
                && pairs[i].1@ == header_entries(*map)[i].1,
{
    map.iter().map(|(name, value)| (name.as_str().to_owned(), value.as_bytes().to_vec())).collect()
}

/// `HeaderValue::to_str` on the value made of these bytes: it yields text
/// exactly when every byte is a tab or printable ASCII, and then each byte as
/// one character.
#[verifier::external_body]
pub(crate) fn decode_header_value(bytes: &[u8]) -> (text: Option<String>)
    ensures
        text is Some <==> is_text(bytes@),
        text matches Some(t) ==> t@ == text_of(bytes@),
{
    HeaderValue::from_bytes(bytes).ok()?.to_str().ok().map(str::to_owned)
}

} // verus!
