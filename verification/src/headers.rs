//! Reading request headers.

use vstd::prelude::*;

verus! {

/// The header map of a request.
#[verifier::external_type_specification]
#[verifier::external_body]
#[verifier::reject_recursive_types(T)]
pub struct ExHeaderMap<T>(axum::http::HeaderMap<T>);

/// A value in the header map of a request.
#[verifier::external_type_specification]
#[verifier::external_body]
pub struct ExHeaderValue(axum::http::HeaderValue);

/// What a header map holds: under each name, in lower case, the bytes of the
/// first value with that name.
pub uninterp spec fn headers_held(headers: axum::http::HeaderMap) -> Map<Seq<char>, Seq<u8>>;

/// Whether a byte of a header value is a visible ASCII character, a space or a
/// tab.
pub open spec fn is_visible(b: u8) -> bool {
    32 <= b < 127 || b == 9
}

/// A header value as text, if it is visible ASCII throughout.
pub open spec fn visible_text(value: Seq<u8>) -> Option<Seq<char>> {
    if forall|i: int| 0 <= i < value.len() ==> is_visible(#[trigger] value[i]) {
        Some(value.map_values(|b: u8| b as char))
    } else {
        None
    }
}

/// Whether `name` can be the name of a header and is in lower case.
pub open spec fn is_header_name(name: Seq<char>) -> bool {
    0 < name.len() < 65536 && forall|i: int|
        0 <= i < name.len() ==> 'a' <= (#[trigger] name[i]) <= 'z' || name[i] == '-'
}

/// The text of the first header with a name.
pub open spec fn header_text_of(headers: axum::http::HeaderMap, name: Seq<char>) -> Option<
    Seq<char>,
> {
    if headers_held(headers).contains_key(name) {
        visible_text(headers_held(headers)[name])
    } else {
        None
    }
}

/// Calls `HeaderMap::get` of `http`, which `axum` hands on, and
/// `HeaderValue::to_str` on the value: the text of the first value with the
/// name, if there is one and it is visible ASCII.
#[verifier::external_body]
pub(crate) fn header_text(headers: &axum::http::HeaderMap, name: &str) -> (text: Option<String>)
    requires
        is_header_name(name@),
    ensures
        match text {
            Some(t) => headers_held(*headers).contains_key(name@) && visible_text(
                headers_held(*headers)[name@],
            ) == Some(t@),
            None => headers_held(*headers).contains_key(name@) ==> visible_text(
                headers_held(*headers)[name@],
            ) is None,
        },
{
    match headers.get(name) {
        Some(value) => match value.to_str() {
            Ok(text) => Some(text.to_string()),
            Err(_) => None,
        },
        None => None,
    }
}

} // verus!
