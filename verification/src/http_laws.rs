//! What is read from and written to headers, and what is logged of a URL.
use crate::http::{admits_json, has_room, header_count, header_text, header_values, is_header_value,
    is_ruled_out, is_visible, is_zero_weight, law_set_header_is_read, media_ranges, pair_views,
    read_header, reject_bcs_accept, require_bcs_content_type, set_headers, takes_json, visible_text,
    with_headers, ApiError};
use crate::json::{lemma_field_of, JsonView};
use crate::text::{contains, lower, split_on, trimmed};
use crate::urls::{has_secrets, parsed_url, redact_url_for_log, redacted, url_parts, url_text};
use axum::http::HeaderMap;
use vstd::prelude::*;

verus! {

/// A header is read where it is there and its first value has only visible
/// characters, blanks and tabs: as that value, character by character.
pub proof fn law_header_by_bytes<'a>(headers: &'a HeaderMap, name: &str, res: Option<&'a str>, at: int)
    requires
        call_ensures(read_header, (headers, name), res),
    ensures
        !header_values(*headers).contains_key(name@) ==> res is None,
        header_values(*headers).contains_key(name@) ==> ({
            let bytes = header_values(*headers)[name@][0];
            &&& res is Some <==> forall|i: int|
                0 <= i < bytes.len() ==> (32 <= #[trigger] bytes[i] < 127 || bytes[i] == 9)
            &&& res is Some ==> res->0@.len() == bytes.len()
            &&& res is Some && 0 <= at < bytes.len() ==> res->0@[at] as int == bytes[at]
        }),
{
    if header_values(*headers).contains_key(name@) {
        let bytes = header_values(*headers)[name@][0];
        if res is Some {
            assert forall|i: int| 0 <= i < bytes.len() implies (32 <= #[trigger] bytes[i] < 127
                || bytes[i] == 9) by {
                assert(is_visible(bytes[i]));
            }
        }
        if forall|i: int|
            0 <= i < bytes.len() ==> (32 <= #[trigger] bytes[i] < 127 || bytes[i] == 9) {
            assert forall|i: int| 0 <= i < bytes.len() implies is_visible(#[trigger] bytes[i]) by {}
        }
    }
}

/// A body is refused by its content type with a message that says which to set.
pub proof fn law_content_type_message(headers: &HeaderMap, res: Result<(), ApiError>)
    requires
        call_ensures(require_bcs_content_type, (headers,), res),
    ensures
        res is Err ==> res->Err_0.1@.get("message"@) == Some(
            JsonView::Text(
                "movelite only accepts BCS-signed transactions; set Content-Type: application/x.aptos.signed_transaction+bcs (JSON transaction submission is not supported)"@,
            ),
        ),
{
    if res is Err {
        lemma_field_of(res->Err_0.1@->Object_0, "message"@, 0);
    }
}

/// A client that takes BCS only is refused with a message that says what the node
/// answers with.
pub proof fn law_accept_message(headers: &HeaderMap, res: Result<(), ApiError>)
    requires
        call_ensures(reject_bcs_accept, (headers,), res),
    ensures
        res is Err ==> res->Err_0.1@.get("message"@) == Some(
            JsonView::Text(
                "movelite only produces JSON responses; BCS response encoding is not supported"@,
            ),
        ),
{
    if res is Err {
        lemma_field_of(res->Err_0.1@->Object_0, "message"@, 0);
    }
}

/// The five ways to write a weight of zero.
pub open spec fn says_zero(parameter: Seq<char>) -> bool {
    ||| parameter == "q=0"@
    ||| parameter == "q=0."@
    ||| parameter == "q=0.0"@
    ||| parameter == "q=0.00"@
    ||| parameter == "q=0.000"@
}

/// A parameter is a weight of zero exactly where it is one of the ways to write
/// it: no other weight, and no other parameter, is.
pub proof fn law_zero_weights(parameter: Seq<char>)
    ensures
        is_zero_weight(parameter) <==> says_zero(parameter),
{
    reveal_strlit("q=0");
    reveal_strlit("q=0.");
    reveal_strlit("q=0.0");
    reveal_strlit("q=0.00");
    reveal_strlit("q=0.000");
    if is_zero_weight(parameter) {
        let head = parameter.subrange(0, 3);
        assert(head[0] == parameter[0] && head[1] == parameter[1] && head[2] == parameter[2]);
        if parameter.len() == 3 {
            assert(parameter =~= "q=0"@);
        } else if parameter.len() == 4 {
            assert(parameter =~= "q=0."@);
        } else if parameter.len() == 5 {
            assert(parameter[4] == '0');
            assert(parameter =~= "q=0.0"@);
        } else if parameter.len() == 6 {
            assert(parameter[4] == '0' && parameter[5] == '0');
            assert(parameter =~= "q=0.00"@);
        } else {
            assert(parameter[4] == '0' && parameter[5] == '0' && parameter[6] == '0');
            assert(parameter =~= "q=0.000"@);
        }
    }
    if says_zero(parameter) {
        assert(parameter.subrange(0, 3) =~= "q=0"@);
    }
}

/// A client that names BCS is refused where each of its ranges is for something
/// else than JSON, or has a weight of zero.
pub proof fn law_accept_is_refused(headers: &HeaderMap, res: Result<(), ApiError>, text: Seq<char>)
    requires
        call_ensures(reject_bcs_accept, (headers,), res),
        header_text(*headers, "accept"@) == Some(text),
        contains(lower(text), "bcs"@),
        forall|k: int|
            0 <= k < split_on(lower(text), ',').len() ==> ({
                let range = #[trigger] split_on(lower(text), ',')[k];
                ||| names_no_json(range)
                ||| exists|p: int|
                    1 <= p < split_on(range, ';').len() && says_zero(
                        trimmed(#[trigger] split_on(range, ';')[p]),
                    )
            }),
    ensures
        res is Err,
{
    let ranges = media_ranges(text);
    assert forall|k: int| 0 <= k < ranges.len() implies !admits_json(#[trigger] ranges[k]) by {
        let range = split_on(lower(text), ',')[k];
        if !names_no_json(range) {
            let p = choose|p: int|
                1 <= p < split_on(range, ';').len() && says_zero(
                    trimmed(#[trigger] split_on(range, ';')[p]),
                );
            law_zero_weights(trimmed(split_on(range, ';')[p]));
            assert(is_zero_weight(trimmed(split_on(range, ';')[p])));
            assert(is_ruled_out(range));
        }
    }
    assert(!takes_json(ranges));
}

/// A range that has neither JSON nor every type in it, and is not all of
/// `application`, or is with BCS in it.
pub open spec fn names_no_json(range: Seq<char>) -> bool {
    &&& !contains(range, "application/json"@)
    &&& !contains(range, "*/*"@)
    &&& trimmed(split_on(range, ';')[0]) != "application/*"@ || contains(range, "bcs"@)
}

/// A client is served where one of its ranges has JSON or every type in it, or is
/// all of `application` without BCS in it, and no weight of zero.
pub proof fn law_accept_is_served(
    headers: &HeaderMap,
    res: Result<(), ApiError>,
    text: Seq<char>,
    at: int,
)
    requires
        call_ensures(reject_bcs_accept, (headers,), res),
        header_text(*headers, "accept"@) == Some(text),
        0 <= at < split_on(lower(text), ',').len(),
        !names_no_json(split_on(lower(text), ',')[at]),
        ({
            let range = split_on(lower(text), ',')[at];
            forall|p: int|
                1 <= p < split_on(range, ';').len() ==> !says_zero(
                    trimmed(#[trigger] split_on(range, ';')[p]),
                )
        }),
    ensures
        res is Ok,
{
    let range = split_on(lower(text), ',')[at];
    if is_ruled_out(range) {
        let p = choose|p: int|
            1 <= p < split_on(range, ';').len() && is_zero_weight(
                trimmed(#[trigger] split_on(range, ';')[p]),
            );
        law_zero_weights(trimmed(split_on(range, ';')[p]));
    }
    assert(admits_json(media_ranges(text)[at]));
}

/// A map of names has room for more exactly where all together are at most six
/// thousand.
pub proof fn law_room(headers: &HeaderMap, more: usize, res: bool)
    requires
        call_ensures(has_room, (headers, more), res),
    ensures
        res <==> header_count(*headers) + more <= 6_000,
{
}

/// Headers that were all set are there: each has the value that was set last under
/// its name, and only that, where it is a text that a client can read. A name that
/// was not set has what it had.
pub proof fn law_headers_are_set(
    headers: &mut HeaderMap,
    pairs: &Vec<(&'static str, String)>,
    all: bool,
    at: int,
    other: Seq<char>,
)
    requires
        call_ensures(set_headers, (headers, pairs), all),
    ensures
        header_count(*old(headers)) + pairs@.len() <= 6_000 ==> all,
        all && 0 <= at < pairs@.len() && (forall|i: int|
            0 <= i < pairs@[at].1@.len() ==> ' ' <= #[trigger] pairs@[at].1@[i] <= '~') && (forall|
            i: int,
        |
            at < i < pairs@.len() ==> (#[trigger] pairs@[i]).0@ != pairs@[at].0@) ==> ({
            let values = header_values(*final(headers));
            &&& values.contains_key(pairs@[at].0@)
            &&& values[pairs@[at].0@].len() == 1
            &&& visible_text(values[pairs@[at].0@][0]) == Some(pairs@[at].1@)
        }),
        (forall|i: int| 0 <= i < pairs@.len() ==> (#[trigger] pairs@[i]).0@ != other) ==> ({
            &&& header_values(*final(headers)).contains_key(other) <==> header_values(
                *old(headers),
            ).contains_key(other)
            &&& header_values(*old(headers)).contains_key(other) ==> header_values(
                *final(headers),
            )[other] == header_values(*old(headers))[other]
        }),
{
    let shown = pair_views(pairs@);
    let before = header_values(*old(headers));
    assert forall|i: int| 0 <= i < shown.len() implies #[trigger] shown[i] == (
        pairs@[i].0@,
        pairs@[i].1@,
    ) by {}
    if all && 0 <= at < pairs@.len() && (forall|i: int|
        0 <= i < pairs@[at].1@.len() ==> ' ' <= #[trigger] pairs@[at].1@[i] <= '~') && (forall|
        i: int,
    |
        at < i < pairs@.len() ==> (#[trigger] pairs@[i]).0@ != pairs@[at].0@) {
        assert(shown[at] == (pairs@[at].0@, pairs@[at].1@));
        assert forall|i: int| 0 <= i < shown[at].1.len() implies '\u{20}' <= #[trigger] shown[at].1[i]
            <= '\u{7e}' by {
            assert(' ' <= pairs@[at].1@[i] <= '~');
        }
        assert forall|i: int| at < i < shown.len() implies (#[trigger] shown[i]).0 != shown[at].0 by {
            assert(pairs@[i].0@ != pairs@[at].0@);
        }
        law_set_header_is_read(before, shown, at);
    }
    if forall|i: int| 0 <= i < pairs@.len() ==> (#[trigger] pairs@[i]).0@ != other {
        assert forall|i: int| 0 <= i < shown.len() implies (#[trigger] shown[i]).0 != other by {
            assert(pairs@[i].0@ != other);
        }
        if all {
            lemma_others_stay(before, shown, other);
        } else {
            let done = choose|done: int|
                0 <= done < pairs@.len() && header_values(*final(headers)) == with_headers(
                    before,
                    #[trigger] shown.take(done),
                );
            assert forall|i: int| 0 <= i < shown.take(done).len() implies (#[trigger] shown.take(
                done,
            )[i]).0 != other by {
                assert(shown[i].0 != other);
            }
            lemma_others_stay(before, shown.take(done), other);
        }
    }
}

/// Setting headers leaves those of other names.
pub proof fn lemma_others_stay(
    headers: Map<Seq<char>, Seq<Seq<u8>>>,
    pairs: Seq<(Seq<char>, Seq<char>)>,
    other: Seq<char>,
)
    requires
        forall|i: int| 0 <= i < pairs.len() ==> (#[trigger] pairs[i]).0 != other,
    ensures
        with_headers(headers, pairs).contains_key(other) <==> headers.contains_key(other),
        headers.contains_key(other) ==> with_headers(headers, pairs)[other] == headers[other],
    decreases pairs.len(),
{
    if pairs.len() > 0 {
        let rest = pairs.drop_last();
        assert forall|i: int| 0 <= i < rest.len() implies (#[trigger] rest[i]).0 != other by {
            assert(pairs[i].0 != other);
        }
        lemma_others_stay(headers, rest, other);
        assert(pairs[pairs.len() - 1].0 != other);
    }
}

/// A text with a control character cannot be a header's value, and setting one
/// leaves the headers as they were.
pub proof fn law_control_characters_are_left_out(
    headers: &mut HeaderMap,
    pairs: &Vec<(&'static str, String)>,
    all: bool,
    at: int,
)
    requires
        call_ensures(set_headers, (headers, pairs), all),
        pairs@.len() == 1,
        0 <= at < vstd::utf8::encode_utf8(pairs@[0].1@).len(),
        vstd::utf8::encode_utf8(pairs@[0].1@)[at] < 32 && vstd::utf8::encode_utf8(
            pairs@[0].1@,
        )[at] != 9 || vstd::utf8::encode_utf8(pairs@[0].1@)[at] == 127,
    ensures
        header_values(*final(headers)) == header_values(*old(headers)),
{
    let shown = pair_views(pairs@);
    let before = header_values(*old(headers));
    assert(shown.len() == 1);
    assert(shown[0] == (pairs@[0].0@, pairs@[0].1@));
    assert(!is_header_value(shown[0].1));
    assert(with_headers(before, shown.drop_last()) == before);
    if !all {
        let done = choose|done: int|
            0 <= done < pairs@.len() && header_values(*final(headers)) == with_headers(
                before,
                #[trigger] shown.take(done),
            );
        assert(shown.take(done).len() == 0);
    }
}

/// A URL is logged as the text of one that has all the parts of the given one but
/// the username, the password and the query; what is no URL is logged as a mark.
pub proof fn law_logged_url_has_no_secrets(raw: &str, res: String)
    requires
        call_ensures(redact_url_for_log, (raw,), res),
    ensures
        parsed_url(raw@) is None ==> res@ == "<invalid url>"@,
        parsed_url(raw@) is Some ==> exists|shown: url::Url|
            #![trigger url_text(shown)]
            {
                &&& res@ == url_text(shown)
                &&& !url_parts(shown).contains_key("username"@)
                &&& !url_parts(shown).contains_key("password"@)
                &&& !url_parts(shown).contains_key("query"@)
                &&& forall|part: Seq<char>|
                    part != "username"@ && part != "password"@ && part != "query"@ ==> (
                    #[trigger] url_parts(shown).contains_key(part) <==> url_parts(
                        parsed_url(raw@)->0,
                    ).contains_key(part))
            },
{
    if parsed_url(raw@) is Some {
        let shown = redacted(parsed_url(raw@)->0);
        assert(res@ == url_text(shown));
    }
}

/// A URL has secrets exactly where it has a username, a password or a query.
pub proof fn law_secrets(url: &url::Url, res: bool)
    requires
        call_ensures(has_secrets, (url,), res),
    ensures
        res <==> url_parts(*url).contains_key("username"@) || url_parts(*url).contains_key(
            "password"@,
        ) || url_parts(*url).contains_key("query"@),
{
}

} // verus!
