//! The calls into outside crates that the library makes, each behind a
//! trusted item whose contract restates what the crate's documentation and
//! source show.

use vstd::prelude::*;
use vstd::utf8::encode_utf8;

verus! {

/// Bytes that percent-encoding leaves as they are: ASCII letters, digits
/// and `-`, `.`, `_`, `~`.
pub open spec fn is_unreserved(b: u8) -> bool {
    ||| 48 <= b <= 57
    ||| 65 <= b <= 90
    ||| 97 <= b <= 122
    ||| b == 45
    ||| b == 46
    ||| b == 95
    ||| b == 126
}

/// Upper-case hexadecimal digit for a value below sixteen.
pub open spec fn hex_digit(d: nat) -> char
    recommends
        d < 16,
{
    if d < 10 {
        (d + 48) as char
    } else {
        (d + 55) as char
    }
}

/// One byte, percent-encoded.
pub open spec fn percent_encode_byte(b: u8) -> Seq<char> {
    if is_unreserved(b) {
        seq![b as char]
    } else {
        seq!['%', hex_digit((b / 16) as nat), hex_digit((b % 16) as nat)]
    }
}

/// A byte string, percent-encoded byte by byte.
pub open spec fn percent_encode_bytes(bytes: Seq<u8>) -> Seq<char>
    decreases bytes.len(),
{
    if bytes.len() == 0 {
        seq![]
    } else {
        percent_encode_bytes(bytes.drop_last()) + percent_encode_byte(bytes.last())
    }
}

/// Percent-encoding of the UTF-8 bytes of `s`.
pub open spec fn url_encoded(s: Seq<char>) -> Seq<char> {
    percent_encode_bytes(encode_utf8(s))
}

/// `urlencoding::encode`: its documentation says that it percent-encodes
/// every byte of the UTF-8 form of the input except ASCII alphanumerics and
/// `-`, `_`, `.`, `~`; its source writes the escapes as `%` and two
/// upper-case hexadecimal digits.
#[verifier::external_body]
pub(crate) fn url_encode(s: &str) -> (res: String)
    ensures
        res@ == url_encoded(s@),
{
    urlencoding::encode(s).into_owned()
}

/// The bytes that `serde_json::to_vec` writes for a JSON object whose
/// members are the given (name, string value) pairs, in serde_json's own
/// member order and escaping.
pub uninterp spec fn json_object_bytes(members: Seq<(Seq<char>, Seq<char>)>) -> Seq<u8>;

#[verifier::external_type_specification]
#[verifier::external_body]
pub struct ExJsonError(serde_json::Error);

/// `serde_json::to_vec` on a `serde_json::Map` of string values built from
/// `members`.  The result depends on the members alone (the map is ordered
/// by key, no hashing is involved).  serde_json documents that serialising
/// fails only when a `Serialize` impl fails or a map has non-string keys;
/// neither can happen for string keys and `Value::String` values, so the
/// result is `Ok`.
#[verifier::external_body]
pub(crate) fn json_object_to_vec(members: &Vec<(String, String)>) -> (res: Result<
    Vec<u8>,
    serde_json::Error,
>)
    ensures
        res is Ok,
        res matches Ok(bytes) ==> bytes@ == json_object_bytes(members.deep_view()),
{
    let map: serde_json::Map<String, serde_json::Value> = members.iter().map(
        |(k, v)| (k.clone(), serde_json::Value::String(v.clone())),
    ).collect();
    serde_json::to_vec(&map)
}

/// The reason phrase that `http::StatusCode::canonical_reason` (re-exported
/// by hyper) gives for a status code, if it has one.
pub uninterp spec fn canonical_reason(code: u16) -> Option<Seq<char>>;

/// `hyper::StatusCode::from_u16` followed by `canonical_reason`.
/// `from_u16` refuses codes below 100 or above 999, for which the result is
/// `None`.
#[verifier::external_body]
pub(crate) fn status_reason(code: u16) -> (res: Option<String>)
    ensures
        res.deep_view() == canonical_reason(code),
        code < 100 || code > 999 ==> res is None,
{
    match hyper::StatusCode::from_u16(code) {
        Ok(status) => status.canonical_reason().map(String::from),
        Err(_) => None,
    }
}

} // verus!

verus! {

/// Characters that delimit the parts of a request path and query.
pub open spec fn is_path_delimiter(c: char) -> bool {
    c == '/' || c == '?' || c == '&' || c == '=' || c == '#' || c == ' '
}

proof fn lemma_percent_encode_byte_no_delimiter(b: u8)
    ensures
        forall|i: int|
            0 <= i < percent_encode_byte(b).len() ==> !is_path_delimiter(
                #[trigger] percent_encode_byte(b)[i],
            ),
{
    if is_unreserved(b) {
        assert(percent_encode_byte(b)[0] == b as char);
    } else {
        let hi = (b / 16) as nat;
        let lo = (b % 16) as nat;
        assert(hi < 16 && lo < 16);
        assert(percent_encode_byte(b)[1] == hex_digit(hi));
        assert(percent_encode_byte(b)[2] == hex_digit(lo));
    }
}

/// Percent-encoding never yields a path or query delimiter, so an encoded
/// name stays inside its path segment or query value.
pub proof fn url_encoded_has_no_delimiter(s: Seq<char>)
    ensures
        forall|i: int| 0 <= i < url_encoded(s).len() ==> !is_path_delimiter(#[trigger] url_encoded(s)[i]),
{
    lemma_percent_encode_bytes_no_delimiter(encode_utf8(s));
}

proof fn lemma_percent_encode_bytes_no_delimiter(bytes: Seq<u8>)
    ensures
        forall|i: int|
            0 <= i < percent_encode_bytes(bytes).len() ==> !is_path_delimiter(
                #[trigger] percent_encode_bytes(bytes)[i],
            ),
    decreases bytes.len(),
{
    if bytes.len() > 0 {
        let init = percent_encode_bytes(bytes.drop_last());
        let tail = percent_encode_byte(bytes.last());
        lemma_percent_encode_bytes_no_delimiter(bytes.drop_last());
        lemma_percent_encode_byte_no_delimiter(bytes.last());
        assert forall|i: int| 0 <= i < percent_encode_bytes(bytes).len() implies !is_path_delimiter(
            #[trigger] percent_encode_bytes(bytes)[i],
        ) by {
            if i < init.len() {
                assert(percent_encode_bytes(bytes)[i] == init[i]);
            } else {
                assert(percent_encode_bytes(bytes)[i] == tail[i - init.len()]);
            }
        }
    }
}

} // verus!
