//! HTTP statuses, errors and headers.
use crate::json::{field_views, lemma_object_view, text_field, Json, JsonView};
use crate::text::{chars_of, contains, contains_text, law_contains_by_parts, lemma_split_on_one,
    lemma_split_on_some, lemma_trimmed, lower, lower_text, occurs_at, same_text, split_on, split_text,
    starts_with, starts_with_text, texts, trim_text, trimmed};
use axum::http::{HeaderMap, HeaderName, HeaderValue};
use vstd::prelude::*;
use vstd::utf8::{encode_utf8, is_ascii_chars, is_ascii_chars_encode_utf8};

verus! {

/// The statuses that the node answers with.
#[allow(non_camel_case_types)]
#[derive(Debug, Clone, Copy, PartialEq, Eq, Structural)]
pub enum StatusCode {
    BAD_REQUEST,
    UNAUTHORIZED,
    NOT_FOUND,
    NOT_ACCEPTABLE,
    REQUEST_TIMEOUT,
    UNSUPPORTED_MEDIA_TYPE,
    INTERNAL_SERVER_ERROR,
}

impl StatusCode {
    /// The number of a status.
    pub open spec fn number(self) -> u16 {
        match self {
            StatusCode::BAD_REQUEST => 400,
            StatusCode::UNAUTHORIZED => 401,
            StatusCode::NOT_FOUND => 404,
            StatusCode::NOT_ACCEPTABLE => 406,
            StatusCode::REQUEST_TIMEOUT => 408,
            StatusCode::UNSUPPORTED_MEDIA_TYPE => 415,
            StatusCode::INTERNAL_SERVER_ERROR => 500,
        }
    }

    /// The number of a status.
    pub fn as_u16(self) -> (res: u16)
        ensures
            res == self.number(),
    {
        match self {
            StatusCode::BAD_REQUEST => 400,
            StatusCode::UNAUTHORIZED => 401,
            StatusCode::NOT_FOUND => 404,
            StatusCode::NOT_ACCEPTABLE => 406,
            StatusCode::REQUEST_TIMEOUT => 408,
            StatusCode::UNSUPPORTED_MEDIA_TYPE => 415,
            StatusCode::INTERNAL_SERVER_ERROR => 500,
        }
    }
}

/// An error that is answered with a plain text.
pub type HttpError = (StatusCode, String);

/// An error that is answered with a JSON body of message, error code and VM
/// error code.
pub type ApiError = (StatusCode, Json);

/// The body of a JSON error.
pub open spec fn error_body(error_code: Seq<char>, message: Seq<char>) -> JsonView {
    JsonView::Object(
        seq![
            ("message"@, JsonView::Text(message)),
            ("error_code"@, JsonView::Text(error_code)),
            ("vm_error_code"@, JsonView::Null),
        ],
    )
}

/// A JSON error.
pub fn json_error(status: StatusCode, error_code: &str, message: &str) -> (res: ApiError)
    ensures
        res.0 == status,
        res.1@ == error_body(error_code@, message@),
{
    broadcast use lemma_object_view;

    let mut fields: Vec<(String, Json)> = Vec::new();
    fields.push(text_field("message", message));
    fields.push(text_field("error_code", error_code));
    fields.push(("vm_error_code".to_owned(), Json::Null));
    assert(field_views(fields@) =~= error_body(error_code@, message@)->Object_0);
    (status, Json::Object(fields))
}

/// The error code of a status.
pub open spec fn code_of(status: StatusCode) -> Seq<char> {
    match status {
        StatusCode::BAD_REQUEST => "invalid_input"@,
        StatusCode::UNAUTHORIZED => "unauthorized"@,
        StatusCode::NOT_FOUND => "not_found"@,
        _ => "internal_error"@,
    }
}

/// A plain-text error as a JSON error.
pub fn to_json_error(error: HttpError) -> (res: ApiError)
    ensures
        res.0 == error.0,
        res.1@ == error_body(code_of(error.0), error.1@),
{
    let code = match error.0 {
        StatusCode::BAD_REQUEST => "invalid_input",
        StatusCode::UNAUTHORIZED => "unauthorized",
        StatusCode::NOT_FOUND => "not_found",
        _ => "internal_error",
    };
    json_error(error.0, code, error.1.as_str())
}

/// The type `http::HeaderValue`.
#[verifier::external_type_specification]
#[verifier::external_body]
pub struct ExHeaderValue(HeaderValue);

/// The type `http::HeaderMap`.
#[verifier::external_type_specification]
#[verifier::external_body]
#[verifier::reject_recursive_types(T)]
pub struct ExHeaderMap<T>(HeaderMap<T>);

/// The bytes of a header value.
pub uninterp spec fn header_bytes(value: HeaderValue) -> Seq<u8>;

/// The headers: the bytes of all values under each name, in their order, the
/// names in lower case.
pub uninterp spec fn header_values(headers: HeaderMap<HeaderValue>) -> Map<Seq<char>, Seq<Seq<u8>>>;

/// Whether a text has no upper-case ASCII letter.
pub open spec fn is_lower_case(text: Seq<char>) -> bool {
    forall|i: int| 0 <= i < text.len() ==> !('A' <= #[trigger] text[i] <= 'Z')
}

/// `http::HeaderMap::get` gives the first value under a name.
#[verifier::external_body]
fn first_header<'a>(headers: &'a HeaderMap, name: &str) -> (value: Option<&'a HeaderValue>)
    requires
        is_lower_case(name@),
    ensures
        match value {
            Some(v) => {
                &&& header_values(*headers).contains_key(name@)
                &&& header_values(*headers)[name@].len() > 0
                &&& header_values(*headers)[name@][0] == header_bytes(*v)
            },
            None => !header_values(*headers).contains_key(name@),
        },
{
    headers.get(name)
}

/// Whether a byte is visible ASCII, a space or a tab.
pub open spec fn is_visible(b: u8) -> bool {
    32 <= b < 127 || b == 9
}

/// The text of bytes that are all visible ASCII, spaces or tabs.
pub open spec fn visible_text(bytes: Seq<u8>) -> Option<Seq<char>> {
    if forall|i: int| 0 <= i < bytes.len() ==> is_visible(#[trigger] bytes[i]) {
        Some(Seq::new(bytes.len(), |i: int| bytes[i] as char))
    } else {
        None
    }
}

/// `http::HeaderValue::to_str` gives the text of a value that is all visible
/// ASCII, spaces or tabs, and fails on every other.
#[verifier::external_body]
fn header_value_text(value: &HeaderValue) -> (text: Option<&str>)
    ensures
        match text {
            Some(t) => visible_text(header_bytes(*value)) == Some(t@),
            None => visible_text(header_bytes(*value)) is None,
        },
{
    value.to_str().ok()
}

/// The text of a header's first value, where it is there and is a text.
pub open spec fn header_text(headers: HeaderMap<HeaderValue>, name: Seq<char>) -> Option<Seq<char>> {
    if header_values(headers).contains_key(name) {
        visible_text(header_values(headers)[name][0])
    } else {
        None
    }
}

/// The text of a header's first value, where it is there and is a text.
pub fn read_header<'a>(headers: &'a HeaderMap, name: &str) -> (res: Option<&'a str>)
    requires
        is_lower_case(name@),
    ensures
        match res {
            Some(t) => header_text(*headers, name@) == Some(t@),
            None => header_text(*headers, name@) is None,
        },
{
    match first_header(headers, name) {
        Some(value) => header_value_text(value),
        None => None,
    }
}

/// Whether a request may carry a BCS transaction: its content type is missing,
/// or names BCS or a plain byte stream.
pub open spec fn may_carry_bcs(content_type: Option<Seq<char>>) -> bool {
    match content_type {
        None => true,
        Some(text) => contains(lower(text), "bcs"@) || contains(lower(text), "octet-stream"@),
    }
}

/// The message for a content type that cannot be a BCS transaction.
pub open spec fn media_type_message() -> Seq<char> {
    "movelite only accepts BCS-signed transactions; set Content-Type: application/x.aptos.signed_transaction+bcs (JSON transaction submission is not supported)"@
}

/// Refuses a request whose content type cannot be a BCS transaction.
pub fn require_bcs_content_type(headers: &HeaderMap) -> (res: Result<(), ApiError>)
    ensures
        match res {
            Ok(()) => may_carry_bcs(header_text(*headers, "content-type"@)),
            Err(e) => {
                &&& !may_carry_bcs(header_text(*headers, "content-type"@))
                &&& e.0 == StatusCode::UNSUPPORTED_MEDIA_TYPE
                &&& e.1@ == error_body(
                    "unsupported_media_type"@,
                    media_type_message(),
                )
            },
        },
{
    proof {
        reveal_strlit("content-type");
    }
    match read_header(headers, "content-type") {
        None => Ok(()),
        Some(content_type) => {
            let text = lower_text(content_type);
            if contains_text(text.as_str(), "bcs") || contains_text(text.as_str(), "octet-stream") {
                Ok(())
            } else {
                Err(
                    json_error(
                        StatusCode::UNSUPPORTED_MEDIA_TYPE,
                        "unsupported_media_type",
                        "movelite only accepts BCS-signed transactions; set Content-Type: application/x.aptos.signed_transaction+bcs (JSON transaction submission is not supported)",
                    ),
                )
            }
        },
    }
}

/// Whether a parameter of a media range is a weight of zero: `0`, maybe with a
/// point and up to three zeros behind it.
pub open spec fn is_zero_weight(parameter: Seq<char>) -> bool {
    &&& starts_with(parameter, "q=0"@)
    &&& parameter.len() <= 7
    &&& parameter.len() > 3 ==> parameter[3] == '.'
    &&& forall|i: int| 4 <= i < parameter.len() ==> #[trigger] parameter[i] == '0'
}

/// Whether a client names a media range to rule it out: with a weight of zero.
pub open spec fn is_ruled_out(range: Seq<char>) -> bool {
    exists|k: int|
        1 <= k < split_on(range, ';').len() && is_zero_weight(
            trimmed(#[trigger] split_on(range, ';')[k]),
        )
}

/// The media type of a range, without its parameters.
pub open spec fn media_type(range: Seq<char>) -> Seq<char> {
    trimmed(split_on(range, ';')[0])
}

/// Whether a media range admits JSON: it is not ruled out, and it names JSON or
/// every type, or is all of `application` and does not name BCS.
pub open spec fn admits_json(range: Seq<char>) -> bool {
    &&& !is_ruled_out(range)
    &&& {
        ||| contains(range, "application/json"@)
        ||| contains(range, "*/*"@)
        ||| media_type(range) == "application/*"@ && !contains(range, "bcs"@)
    }
}

/// Whether one of some media ranges admits JSON.
pub open spec fn takes_json(ranges: Seq<Seq<char>>) -> bool {
    exists|k: int| 0 <= k < ranges.len() && admits_json(#[trigger] ranges[k])
}

/// The media ranges of a header, in lower case.
pub open spec fn media_ranges(accept: Seq<char>) -> Seq<Seq<char>> {
    split_on(lower(accept), ',')
}

/// Whether a client names BCS and admits no JSON.
pub open spec fn demands_bcs(accept: Option<Seq<char>>) -> bool {
    match accept {
        None => false,
        Some(text) => contains(lower(text), "bcs"@) && !takes_json(media_ranges(text)),
    }
}

/// A client that rules nothing out demands BCS exactly where its header names
/// BCS and neither JSON nor every type, and has no range that is all of
/// `application`.
pub proof fn law_plain_accept(text: Seq<char>)
    requires
        forall|k: int|
            0 <= k < media_ranges(text).len() ==> !is_ruled_out(#[trigger] media_ranges(text)[k]),
    ensures
        demands_bcs(Some(text)) == (contains(lower(text), "bcs"@) && !contains(
            lower(text),
            "application/json"@,
        ) && !contains(lower(text), "*/*"@) && !(exists|k: int|
            0 <= k < media_ranges(text).len() && media_type(#[trigger] media_ranges(text)[k])
                == "application/*"@ && !contains(media_ranges(text)[k], "bcs"@))),
{
    let ranges = media_ranges(text);
    reveal_strlit("application/json");
    reveal_strlit("*/*");
    law_contains_by_parts(lower(text), ',', "application/json"@);
    law_contains_by_parts(lower(text), ',', "*/*"@);
    if takes_json(ranges) {
        let k = choose|k: int| 0 <= k < ranges.len() && admits_json(#[trigger] ranges[k]);
        assert(admits_json(ranges[k]));
    }
    if contains(lower(text), "application/json"@) {
        let k = choose|k: int|
            0 <= k < ranges.len() && contains(#[trigger] ranges[k], "application/json"@);
        assert(admits_json(ranges[k]));
    }
    if contains(lower(text), "*/*"@) {
        let k = choose|k: int| 0 <= k < ranges.len() && contains(#[trigger] ranges[k], "*/*"@);
        assert(admits_json(ranges[k]));
    }
    if exists|k: int|
        0 <= k < ranges.len() && media_type(#[trigger] ranges[k]) == "application/*"@ && !contains(
            ranges[k],
            "bcs"@,
        ) {
        let k = choose|k: int|
            0 <= k < ranges.len() && media_type(#[trigger] ranges[k]) == "application/*"@
                && !contains(ranges[k], "bcs"@);
        assert(admits_json(ranges[k]));
    }
}

/// Whether a range is one of the two that plainly admit JSON.
pub open spec fn is_plain_json(range: Seq<char>) -> bool {
    trimmed(range) == "application/json"@ || trimmed(range) == "*/*"@
}

/// Whether a range is for BCS alone.
pub open spec fn is_plain_bcs(range: Seq<char>) -> bool {
    contains(range, "bcs"@) && !contains(range, "application/json"@) && !contains(range, "*/*"@)
}

/// A range that plainly admits JSON does, and does not name BCS.
proof fn lemma_plain_json(range: Seq<char>)
    requires
        is_plain_json(range),
    ensures
        admits_json(range),
        !contains(range, "bcs"@),
{
    reveal_strlit("application/json");
    reveal_strlit("*/*");
    reveal_strlit("bcs");
    lemma_trimmed(range);
    let core = trimmed(range);
    assert forall|i: int| 0 <= i < range.len() implies #[trigger] range[i] != ';' && range[i] != 'b' by {
        if core.contains(range[i]) {
            let j = choose|j: int| 0 <= j < core.len() && core[j] == range[i];
            assert(core[j] != ';' && core[j] != 'b');
        }
    }
    lemma_split_on_one(range, ';');
    assert(!is_ruled_out(range));
    if contains(range, "bcs"@) {
        let at = choose|at: int| occurs_at(range, "bcs"@, at);
        assert(range.subrange(at, at + 3)[0] == range[at]);
    }
}

/// Where each range is plainly for JSON or for BCS alone, a client demands BCS
/// exactly where every range is for BCS; neither the order of the ranges nor the
/// case of their letters matters.
pub proof fn law_accept_by_ranges(text: Seq<char>)
    requires
        forall|k: int|
            0 <= k < media_ranges(text).len() ==> is_plain_json(#[trigger] media_ranges(text)[k])
                || is_plain_bcs(media_ranges(text)[k]),
    ensures
        demands_bcs(Some(text)) <==> (forall|k: int|
            0 <= k < media_ranges(text).len() ==> contains(
                #[trigger] media_ranges(text)[k],
                "bcs"@,
            )),
{
    let ranges = media_ranges(text);
    reveal_strlit("bcs");
    law_contains_by_parts(lower(text), ',', "bcs"@);
    lemma_split_on_some(lower(text), ',');
    assert(is_plain_json(ranges[0]) || is_plain_bcs(ranges[0]));
    if demands_bcs(Some(text)) {
        assert forall|k: int| 0 <= k < ranges.len() implies contains(
            #[trigger] ranges[k],
            "bcs"@,
        ) by {
            if is_plain_json(ranges[k]) {
                lemma_plain_json(ranges[k]);
            }
        }
    }
    if forall|k: int| 0 <= k < ranges.len() ==> contains(#[trigger] ranges[k], "bcs"@) {
        assert(contains(ranges[0], "bcs"@));
        assert forall|k: int| 0 <= k < ranges.len() implies !admits_json(#[trigger] ranges[k]) by {
            if is_plain_json(ranges[k]) {
                lemma_plain_json(ranges[k]);
            }
        }
    }
}

/// Whether a parameter of a media range is a weight of zero.
fn zero_weight(parameter: &str) -> (res: bool)
    ensures
        res == is_zero_weight(parameter@),
{
    let chars = chars_of(parameter);
    if !starts_with_text(parameter, "q=0") || chars.len() > 7 {
        return false;
    }
    proof {
        reveal_strlit("q=0");
    }
    if chars.len() > 3 && chars[3] != '.' {
        return false;
    }
    let mut at: usize = 4;
    while at < chars.len()
        invariant
            chars@ == parameter@,
            4 <= at,
            forall|j: int| 4 <= j < at && j < chars@.len() ==> #[trigger] parameter@[j] == '0',
        decreases chars@.len() - at,
    {
        if chars[at] != '0' {
            assert(parameter@[at as int] != '0');
            return false;
        }
        at += 1;
    }
    true
}

/// Whether a media range admits JSON.
fn range_admits_json(range: &str) -> (res: bool)
    ensures
        res == admits_json(range@),
{
    let ghost all = split_on(range@, ';');
    let parts = split_text(range, ';');
    proof {
        lemma_split_on_some(range@, ';');
    }
    let mut i: usize = 1;
    while i < parts.len()
        invariant
            1 <= i <= parts@.len(),
            all == split_on(range@, ';'),
            texts(parts@) == all,
            forall|j: int| 1 <= j < i ==> !is_zero_weight(trimmed(#[trigger] all[j])),
        decreases parts@.len() - i,
    {
        assert(all[i as int] == parts@[i as int]@);
        let parameter = trim_text(parts[i].as_str());
        if zero_weight(parameter.as_str()) {
            assert(is_ruled_out(range@));
            return false;
        }
        i += 1;
    }
    assert(!is_ruled_out(range@));
    assert(all[0] == parts@[0]@);
    let kind = trim_text(parts[0].as_str());
    contains_text(range, "application/json") || contains_text(range, "*/*") || (same_text(
        kind.as_str(),
        "application/*",
    ) && !contains_text(range, "bcs"))
}

/// Whether one of some media ranges admits JSON.
fn some_range_admits_json(ranges: &Vec<String>) -> (res: bool)
    ensures
        res == takes_json(texts(ranges@)),
{
    let ghost all = texts(ranges@);
    let mut i: usize = 0;
    while i < ranges.len()
        invariant
            i <= ranges@.len(),
            all == texts(ranges@),
            forall|j: int| 0 <= j < i ==> !admits_json(#[trigger] all[j]),
        decreases ranges@.len() - i,
    {
        assert(all[i as int] == ranges@[i as int]@);
        if range_admits_json(ranges[i].as_str()) {
            return true;
        }
        i += 1;
    }
    false
}

/// The message for a client that takes BCS only.
pub open spec fn accept_message() -> Seq<char> {
    "movelite only produces JSON responses; BCS response encoding is not supported"@
}

/// Refuses a client that names BCS and admits no JSON, which is all that the node
/// answers with.
pub fn reject_bcs_accept(headers: &HeaderMap) -> (res: Result<(), ApiError>)
    ensures
        match res {
            Ok(()) => !demands_bcs(header_text(*headers, "accept"@)),
            Err(e) => {
                &&& demands_bcs(header_text(*headers, "accept"@))
                &&& e.0 == StatusCode::NOT_ACCEPTABLE
                &&& e.1@ == error_body(
                    "not_acceptable"@,
                    accept_message(),
                )
            },
        },
{
    proof {
        reveal_strlit("accept");
    }
    match read_header(headers, "accept") {
        None => Ok(()),
        Some(accept) => {
            let text = lower_text(accept);
            let ranges = split_text(text.as_str(), ',');
            if contains_text(text.as_str(), "bcs") && !some_range_admits_json(&ranges) {
                Err(
                    json_error(
                        StatusCode::NOT_ACCEPTABLE,
                        "not_acceptable",
                        "movelite only produces JSON responses; BCS response encoding is not supported",
                    ),
                )
            } else {
                Ok(())
            }
        },
    }
}

/// How the server guards itself.
#[derive(Debug)]
pub struct ServerOptions {
    /// The token that guarded requests must carry, where there is one.
    pub auth_token: Option<String>,
    /// Whether requests that commit transactions are guarded too.
    pub strict_local_auth: bool,
}

/// Whether a request carries the token that the server asks for.
pub open spec fn authorized(headers: HeaderMap<HeaderValue>, options: ServerOptions) -> bool {
    match options.auth_token {
        None => true,
        Some(token) => header_text(headers, "x-movelite-token"@) == Some(token@),
    }
}

/// Refuses a request that does not carry the token.
pub fn require_auth(headers: &HeaderMap, options: &ServerOptions) -> (res: Result<(), HttpError>)
    ensures
        match res {
            Ok(()) => authorized(*headers, *options),
            Err(e) => {
                &&& !authorized(*headers, *options)
                &&& e.0 == StatusCode::UNAUTHORIZED
                &&& e.1@ == "missing or invalid x-movelite-token"@
            },
        },
{
    match &options.auth_token {
        None => Ok(()),
        Some(expected) => {
            proof {
                reveal_strlit("x-movelite-token");
            }
            let matching = match read_header(headers, "x-movelite-token") {
                Some(provided) => same_text(provided, expected.as_str()),
                None => false,
            };
            if matching {
                Ok(())
            } else {
                Err(
                    (
                        StatusCode::UNAUTHORIZED,
                        "missing or invalid x-movelite-token".to_owned(),
                    ),
                )
            }
        },
    }
}

/// How many names a header map holds.
pub uninterp spec fn header_count(headers: HeaderMap<HeaderValue>) -> nat;

/// Whether a text can be a header's value: it holds no control byte but the tab.
pub open spec fn is_header_value(text: Seq<char>) -> bool {
    forall|i: int|
        0 <= i < encode_utf8(text).len() ==> {
            let b = #[trigger] encode_utf8(text)[i];
            b >= 32 && b != 127 || b == 9
        }
}

/// Whether a text is a plain header name: lower-case letters, digits and
/// hyphens, at least one and not many.
pub open spec fn is_header_name(text: Seq<char>) -> bool {
    &&& 0 < text.len() <= 64
    &&& forall|i: int|
        0 <= i < text.len() ==> {
            let c = #[trigger] text[i];
            'a' <= c <= 'z' || '0' <= c <= '9' || c == '-'
        }
}

/// How many names a header map is sure to have room for.
pub const ROOM_FOR_NAMES: usize = 6_000;

/// `http::HeaderValue::from_str` makes a value of a text without control bytes
/// other than the tab, and fails on every other. The value holds the text's
/// UTF-8 bytes.
#[verifier::external_body]
fn header_value(text: &str) -> (value: Option<HeaderValue>)
    ensures
        match value {
            Some(v) => is_header_value(text@) && header_bytes(v) == encode_utf8(text@),
            None => !is_header_value(text@),
        },
{
    HeaderValue::from_str(text).ok()
}

/// `http::HeaderMap::try_insert` sets a header: it puts the value in place of
/// all values that the map has under the name; all other values stay. It fails, and leaves the headers as they
/// are, only where the map cannot grow; a map of few names always can.
#[verifier::external_body]
fn insert_header(headers: &mut HeaderMap, name: &'static str, value: HeaderValue) -> (done: bool)
    requires
        is_header_name(name@),
    ensures
        header_values(*final(headers)) == if done {
            header_values(*old(headers)).insert(name@, seq![header_bytes(value)])
        } else {
            header_values(*old(headers))
        },
        header_count(*final(headers)) <= header_count(*old(headers)) + 1,
        header_count(*old(headers)) < ROOM_FOR_NAMES ==> done,
{
    headers.try_insert(HeaderName::from_static(name), value).is_ok()
}

/// `http::HeaderMap::keys_len` counts the names.
#[verifier::external_body]
fn count_names(headers: &HeaderMap) -> (count: usize)
    ensures
        count == header_count(*headers),
{
    headers.keys_len()
}

/// Whether a header map is sure to have room for some more names.
pub fn has_room(headers: &HeaderMap, more: usize) -> (res: bool)
    ensures
        res == (header_count(*headers) + more <= ROOM_FOR_NAMES),
{
    let count = count_names(headers);
    count <= ROOM_FOR_NAMES && more <= ROOM_FOR_NAMES - count
}

/// The headers after some were set, one after the other: each then has this one
/// value. What cannot be a value is left out.
pub open spec fn with_headers(
    headers: Map<Seq<char>, Seq<Seq<u8>>>,
    pairs: Seq<(Seq<char>, Seq<char>)>,
) -> Map<Seq<char>, Seq<Seq<u8>>>
    decreases pairs.len(),
{
    if pairs.len() == 0 {
        headers
    } else {
        let before = with_headers(headers, pairs.drop_last());
        let (name, value) = pairs.last();
        if is_header_value(value) {
            before.insert(name, seq![encode_utf8(value)])
        } else {
            before
        }
    }
}

/// The mathematical counterparts of names and values.
pub open spec fn pair_views(pairs: Seq<(&'static str, String)>) -> Seq<(Seq<char>, Seq<char>)> {
    pairs.map_values(|pair: (&'static str, String)| (pair.0@, pair.1@))
}

/// Sets headers, one after the other, as long as the map has room for them.
pub fn set_headers(headers: &mut HeaderMap, pairs: &Vec<(&'static str, String)>) -> (all: bool)
    requires
        forall|i: int| 0 <= i < pairs@.len() ==> is_header_name((#[trigger] pairs@[i]).0@),
    ensures
        all ==> header_values(*final(headers)) == with_headers(
            header_values(*old(headers)),
            pair_views(pairs@),
        ),
        !all ==> exists|done: int|
            0 <= done < pairs@.len() && header_values(*final(headers)) == with_headers(
                header_values(*old(headers)),
                #[trigger] pair_views(pairs@).take(done),
            ),
        header_count(*old(headers)) + pairs@.len() <= ROOM_FOR_NAMES ==> all,
{
    let ghost all_pairs = pair_views(pairs@);
    let ghost before = header_values(*headers);
    let ghost count = header_count(*headers);
    let mut i: usize = 0;
    assert(all_pairs.take(0) =~= Seq::empty());
    while i < pairs.len()
        invariant
            i <= pairs@.len(),
            all_pairs == pair_views(pairs@),
            before == header_values(*old(headers)),
            count == header_count(*old(headers)),
            forall|j: int| 0 <= j < pairs@.len() ==> is_header_name((#[trigger] pairs@[j]).0@),
            header_values(*headers) == with_headers(before, all_pairs.take(i as int)),
            header_count(*headers) <= count + i,
        decreases pairs@.len() - i,
    {
        assert(all_pairs.take(i + 1).drop_last() =~= all_pairs.take(i as int));
        assert(all_pairs.take(i + 1).last() == (pairs@[i as int].0@, pairs@[i as int].1@));
        if let Some(value) = header_value(pairs[i].1.as_str()) {
            if !insert_header(headers, pairs[i].0, value) {
                return false;
            }
        }
        i += 1;
    }
    assert(all_pairs.take(i as int) =~= all_pairs);
    true
}

/// A header that was set last under its name, with a text of visible ASCII, has
/// one value, and that is read back.
pub proof fn law_set_header_is_read(
    headers: Map<Seq<char>, Seq<Seq<u8>>>,
    pairs: Seq<(Seq<char>, Seq<char>)>,
    at: int,
)
    requires
        0 <= at < pairs.len(),
        forall|i: int|
            0 <= i < pairs[at].1.len() ==> '\u{20}' <= #[trigger] pairs[at].1[i] <= '\u{7e}',
        forall|i: int| at < i < pairs.len() ==> (#[trigger] pairs[i]).0 != pairs[at].0,
    ensures
        with_headers(headers, pairs).contains_key(pairs[at].0),
        with_headers(headers, pairs)[pairs[at].0].len() == 1,
        visible_text(with_headers(headers, pairs)[pairs[at].0][0]) == Some(pairs[at].1),
    decreases pairs.len(),
{
    let rest = pairs.drop_last();
    if at == pairs.len() - 1 {
        let text = pairs[at].1;
        assert(is_ascii_chars(text));
        is_ascii_chars_encode_utf8(text);
        let bytes = encode_utf8(text);
        assert forall|i: int| 0 <= i < bytes.len() implies is_visible(#[trigger] bytes[i])
            && bytes[i] as char == text[i] by {
            assert(text[i] as u8 == bytes[i]);
        }
        assert(Seq::new(bytes.len(), |i: int| bytes[i] as char) =~= text);
    } else {
        assert forall|i: int| at < i < rest.len() implies (#[trigger] rest[i]).0 != rest[at].0 by {
            assert(pairs[i].0 != pairs[at].0);
        }
        law_set_header_is_read(headers, rest, at);
        assert(pairs.last() == pairs[pairs.len() - 1]);
    }
}

} // verus!
