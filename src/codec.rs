use vstd::prelude::*;
use vstd::utf8::{encode_utf8, valid_utf8};
use base64::Engine;

verus! {

#[verifier::external_type_specification]
#[verifier::external_body]
pub struct ExJsonValue(serde_json::Value);

#[verifier::external_type_specification]
#[verifier::external_body]
#[verifier::reject_recursive_types(K)]
#[verifier::reject_recursive_types(V)]
pub struct ExJsonMap<K, V>(serde_json::Map<K, V>);

/// The bytes that standard-alphabet base64 text decodes to, with or without
/// padding; `None` when the text is not base64.
pub uninterp spec fn base64_decoded(text: Seq<u8>) -> Option<Seq<u8>>;

/// The members of a JSON text whose top level is an object, each key with
/// its string value; members whose value is not a string are absent.
/// `None` when the text is not a JSON object.
pub uninterp spec fn json_object_strings(text: Seq<char>) -> Option<Map<Seq<char>, Seq<char>>>;

/// The string-valued members of a parsed JSON object.
pub uninterp spec fn json_map_strings(m: serde_json::Map<String, serde_json::Value>) -> Map<
    Seq<char>,
    Seq<char>,
>;

/// Relies on base64's `Engine::decode` on the standard alphabet with the
/// padding mode `Indifferent`: padded and unpadded text both decode.
#[verifier::external_body]
pub(crate) fn decode_base64(text: &[u8]) -> (r: Option<Vec<u8>>)
    ensures
        match r {
            Some(v) => base64_decoded(text@) == Some(v@),
            None => base64_decoded(text@) is None,
        },
{
    let config = base64::engine::GeneralPurposeConfig::new().with_decode_padding_mode(
        base64::engine::DecodePaddingMode::Indifferent,
    );
    let engine = base64::engine::GeneralPurpose::new(&base64::alphabet::STANDARD, config);
    engine.decode(text).ok()
}

/// Relies on `String::from_utf8`: it succeeds exactly on valid UTF-8 and
/// keeps the bytes as they are.
#[verifier::external_body]
pub(crate) fn utf8_text(bytes: Vec<u8>) -> (r: Option<String>)
    ensures
        r is Some <==> valid_utf8(bytes@),
        r matches Some(s) ==> encode_utf8(s@) == bytes@,
{
    String::from_utf8(bytes).ok()
}

/// Relies on `serde_json::from_str` into a `serde_json::Map`: it succeeds
/// exactly on JSON text whose top level is an object.
#[verifier::external_body]
pub(crate) fn parse_json_object(text: &str) -> (r: Option<serde_json::Map<String, serde_json::Value>>)
    ensures
        match r {
            Some(m) => json_object_strings(text@) == Some(json_map_strings(m)),
            None => json_object_strings(text@) is None,
        },
{
    serde_json::from_str::<serde_json::Map<String, serde_json::Value>>(text).ok()
}

/// Relies on `serde_json::Map::get`: the value stored under `key`, handed
/// out when it is a JSON string.
#[verifier::external_body]
pub(crate) fn json_string_member(m: &serde_json::Map<String, serde_json::Value>, key: &str) -> (r:
    Option<String>)
    ensures
        match r {
            Some(s) => json_map_strings(*m).contains_key(key@) && json_map_strings(*m)[key@]
                == s@,
            None => !json_map_strings(*m).contains_key(key@),
        },
{
    match m.get(key) {
        Some(serde_json::Value::String(s)) => Some(s.clone()),
        _ => None,
    }
}

/// The characters of `s`, in order.
pub fn chars_of(s: &str) -> (r: Vec<char>)
    ensures
        r@ == s@,
{
    let mut out: Vec<char> = Vec::new();
    for c in it: s.chars()
        invariant
            out@ == it.seq().take(it.index() as int),
    {
        out.push(c);
    }
    out
}

} // verus!
