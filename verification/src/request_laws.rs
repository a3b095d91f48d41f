//! What a request is taken for, and when it is refused.
use crate::address::{address_of, module_text, AccountAddress, ModuleId, ModuleIdView};
use crate::answer_laws::{lemma_error_body, shows_error};
use crate::encoding::{percent_decode_error, percent_decoded, uleb128};
use crate::http::{accept_message, admits_json, header_text, is_plain_bcs, is_plain_json,
    is_ruled_out, is_zero_weight, law_accept_by_ranges, media_ranges, media_type,
    media_type_message, read_header, reject_bcs_accept, require_auth, require_bcs_content_type,
    ApiError, HttpError, ServerOptions};
use crate::names::is_identifier;
use crate::request::{bad_bcs_view, bad_json_view, bad_transaction, check_bcs_headers, check_commit,
    check_submit, encodes, function_id, law_function_id_round_trip, lemma_first_bad_arg,
    lemma_first_bad_tag, module_of, parse_address, parse_function_id, parsed_tag, resource_request,
    serialize_view_arg, serialize_view_args, simulate_request, submit_request, trace_request,
    view_arg_bytes, view_call, view_is_bcs, ViewArg, ViewCall};
use crate::text::{contains, decimal, is_blank, law_split_last, lemma_split_on_one, lemma_trimmed,
    lower, occurs_at, split_last, split_on, starts_with, trimmed};
use crate::text_laws::{law_count_bytes, law_eight_bytes, law_no_quotes, law_split_at_separator};
use axum::http::HeaderMap;
use vstd::prelude::*;
use vstd::utf8::{encode_utf8, valid_utf8};

verus! {

/// A body may be a transaction where the request does not say what it is, or
/// where it says, in letters of any case, that it is BCS or a plain byte stream;
/// and nowhere else.
pub proof fn law_content_type(headers: &HeaderMap, res: Result<(), ApiError>)
    requires
        call_ensures(require_bcs_content_type, (headers,), res),
    ensures
        header_text(*headers, "content-type"@) is None ==> res is Ok,
        header_text(*headers, "content-type"@) is Some ==> (res is Ok <==> contains(
            lower(header_text(*headers, "content-type"@)->0),
            "bcs"@,
        ) || contains(lower(header_text(*headers, "content-type"@)->0), "octet-stream"@)),
        res is Err ==> res->Err_0.0.number() == 415 && shows_error(
            res->Err_0.1@,
            "unsupported_media_type"@,
            media_type_message(),
        ),
{
    if res is Err {
        lemma_error_body(res->Err_0.1@, "unsupported_media_type"@, media_type_message());
    }
}

/// A client that says nothing of what it takes, or that does not name BCS, is
/// served; a refusal is a 406.
pub proof fn law_accept_without_bcs(headers: &HeaderMap, res: Result<(), ApiError>)
    requires
        call_ensures(reject_bcs_accept, (headers,), res),
    ensures
        header_text(*headers, "accept"@) is None ==> res is Ok,
        header_text(*headers, "accept"@) is Some && !contains(
            lower(header_text(*headers, "accept"@)->0),
            "bcs"@,
        ) ==> res is Ok,
        res is Err ==> res->Err_0.0.number() == 406 && shows_error(
            res->Err_0.1@,
            "not_acceptable"@,
            accept_message(),
        ),
{
    if res is Err {
        lemma_error_body(res->Err_0.1@, "not_acceptable"@, accept_message());
    }
}

/// Where each range of a client is plainly JSON or BCS alone, the client is
/// refused exactly where every range is for BCS.
pub proof fn law_accept_of_plain_ranges(headers: &HeaderMap, res: Result<(), ApiError>, text: Seq<char>)
    requires
        call_ensures(reject_bcs_accept, (headers,), res),
        header_text(*headers, "accept"@) == Some(text),
        forall|k: int|
            0 <= k < split_on(lower(text), ',').len() ==> ({
                let range = #[trigger] split_on(lower(text), ',')[k];
                ||| trimmed(range) == "application/json"@
                ||| trimmed(range) == "*/*"@
                ||| contains(range, "bcs"@) && !contains(range, "application/json"@) && !contains(
                    range,
                    "*/*"@,
                )
            }),
    ensures
        res is Err <==> (forall|k: int|
            0 <= k < split_on(lower(text), ',').len() ==> contains(
                #[trigger] split_on(lower(text), ',')[k],
                "bcs"@,
            )),
{
    assert(media_ranges(text) == split_on(lower(text), ','));
    assert forall|k: int| 0 <= k < media_ranges(text).len() implies is_plain_json(
        #[trigger] media_ranges(text)[k],
    ) || is_plain_bcs(media_ranges(text)[k]) by {
        let range = split_on(lower(text), ',')[k];
        assert(media_ranges(text)[k] == range);
    }
    law_accept_by_ranges(text);
}

/// A client with a range that is JSON, every type, or all of `application`, and
/// nothing more, is served, whatever its other ranges are.
pub proof fn law_accept_of_json(headers: &HeaderMap, res: Result<(), ApiError>, text: Seq<char>, at: int)
    requires
        call_ensures(reject_bcs_accept, (headers,), res),
        header_text(*headers, "accept"@) == Some(text),
        0 <= at < split_on(lower(text), ',').len(),
        ({
            let range = split_on(lower(text), ',')[at];
            ||| trimmed(range) == "application/json"@
            ||| trimmed(range) == "*/*"@
            ||| trimmed(range) == "application/*"@
        }),
    ensures
        res is Ok,
{
    let range = split_on(lower(text), ',')[at];
    reveal_strlit("application/json");
    reveal_strlit("*/*");
    reveal_strlit("application/*");
    reveal_strlit("bcs");
    lemma_trimmed(range);
    let core = trimmed(range);
    assert forall|i: int| 0 <= i < range.len() implies #[trigger] range[i] != ';' && range[i] != 'b' by {
        if core.contains(range[i]) {
            let j = choose|j: int| 0 <= j < core.len() && core[j] == range[i];
            assert(core[j] != ';' && core[j] != 'b');
        }
    }
    lemma_split_on_one(range, ';');
    assert(!is_ruled_out(range));
    if contains(range, "bcs"@) {
        let p = choose|p: int| occurs_at(range, "bcs"@, p);
        assert(range.subrange(p, p + 3)[0] == range[p]);
    }
    assert(media_type(range) == core);
    assert(admits_json(media_ranges(text)[at]));
}

/// A range that a client names with a weight of zero, in any of the ways to write
/// it, does not admit JSON.
pub proof fn law_zero_weight_rules_out(kind: Seq<char>, zeros: nat)
    requires
        zeros <= 3,
        forall|i: int| 0 <= i < kind.len() ==> #[trigger] kind[i] != ';' && kind[i] != '"',
    ensures
        !admits_json(kind + ";q=0"@),
        !admits_json(kind + ";q=0."@ + Seq::new(zeros, |i: int| '0')),
{
    reveal_strlit(";q=0");
    reveal_strlit(";q=0.");
    reveal_strlit("q=0");
    let plain = seq!['q', '=', '0'];
    assert(kind + ";q=0"@ =~= kind + seq![';'] + plain);
    lemma_one_parameter(kind, plain);
    assert(plain =~= "q=0"@);
    assert(plain.subrange(0, 3) =~= "q=0"@);
    assert(is_zero_weight(plain));
    assert(is_zero_weight(trimmed(split_on(kind + ";q=0"@, ';')[1])));
    let long = seq!['q', '=', '0', '.'] + Seq::new(zeros, |i: int| '0');
    assert(kind + ";q=0."@ + Seq::new(zeros, |i: int| '0') =~= kind + seq![';'] + long);
    lemma_one_parameter(kind, long);
    assert(long.subrange(0, 3) =~= "q=0"@);
    assert(is_zero_weight(long));
    assert(is_zero_weight(
        trimmed(split_on(kind + ";q=0."@ + Seq::new(zeros, |i: int| '0'), ';')[1]),
    ));
}

/// A range of JSON that a client names with another weight does admit JSON.
pub proof fn law_other_weight_admits(weight: Seq<char>)
    requires
        weight.len() > 0,
        weight[0] != '0',
        forall|i: int|
            0 <= i < weight.len() ==> #[trigger] weight[i] != ';' && weight[i] != '"' && !is_blank(
                weight[i],
            ),
    ensures
        admits_json("application/json;q="@ + weight),
{
    reveal_strlit("application/json;q=");
    reveal_strlit("application/json");
    reveal_strlit("q=0");
    let range = "application/json;q="@ + weight;
    let parameter = seq!['q', '='] + weight;
    let kind = "application/json"@;
    assert(range =~= kind + seq![';'] + parameter);
    assert forall|i: int| 0 <= i < parameter.len() implies #[trigger] parameter[i] != ';'
        && parameter[i] != '"' && !is_blank(parameter[i]) by {
        if i >= 2 {
            assert(parameter[i] == weight[i - 2]);
        }
    }
    lemma_one_parameter(kind, parameter);
    assert(parameter.subrange(0, 3)[2] == weight[0]) by {
        assert(parameter[2] == weight[0]);
    }
    assert(!is_zero_weight(parameter));
    assert forall|k: int| 1 <= k < split_on(range, ';').len() implies !is_zero_weight(
        trimmed(#[trigger] split_on(range, ';')[k]),
    ) by {
        assert(k == 1);
    }
    assert(range.subrange(0, 16) =~= kind);
    assert(occurs_at(range, kind, 0));
}

/// A range with one parameter that has no blanks around it has these two parts.
proof fn lemma_one_parameter(kind: Seq<char>, parameter: Seq<char>)
    requires
        parameter.len() > 0,
        !is_blank(parameter[0]),
        !is_blank(parameter.last()),
        forall|i: int| 0 <= i < kind.len() ==> #[trigger] kind[i] != ';' && kind[i] != '"',
        forall|i: int| 0 <= i < parameter.len() ==> #[trigger] parameter[i] != ';' && parameter[i] != '"',
    ensures
        split_on(kind + seq![';'] + parameter, ';') == seq![kind, parameter],
        trimmed(parameter) == parameter,
{
    law_no_quotes(kind);
    law_split_at_separator(kind, ';', parameter);
    lemma_split_on_one(kind, ';');
    lemma_split_on_one(parameter, ';');
    assert(seq![kind] + seq![parameter] =~= seq![kind, parameter]);
}

/// The headers of a request that carries a transaction are refused for the
/// content type first, then for what the client takes, and for nothing else.
pub proof fn law_headers_are_checked_in_order(
    headers: &HeaderMap,
    content: Result<(), ApiError>,
    accept: Result<(), ApiError>,
    res: Result<(), ApiError>,
)
    requires
        call_ensures(require_bcs_content_type, (headers,), content),
        call_ensures(reject_bcs_accept, (headers,), accept),
        call_ensures(check_bcs_headers, (headers,), res),
    ensures
        res is Ok <==> content is Ok && accept is Ok,
        content is Err ==> res is Err && res->Err_0.0.number() == 415 && res->Err_0.1@
            == content->Err_0.1@,
        content is Ok && accept is Err ==> res is Err && res->Err_0.0.number() == 406
            && res->Err_0.1@ == accept->Err_0.1@,
{
}

/// A commit needs the token exactly where the server is strict and something is
/// committed.
pub proof fn law_commit_needs_token(
    headers: &HeaderMap,
    options: &ServerOptions,
    commit: bool,
    entry: Result<(), HttpError>,
    res: Result<(), ApiError>,
)
    requires
        call_ensures(require_auth, (headers, options), entry),
        call_ensures(check_commit, (headers, options, commit), res),
    ensures
        res is Err <==> commit && options.strict_local_auth && entry is Err,
        res is Err ==> res->Err_0.0.number() == 401 && shows_error(
            res->Err_0.1@,
            "unauthorized"@,
            "missing or invalid x-movelite-token"@,
        ),
{
    if res is Err {
        lemma_error_body(
            res->Err_0.1@,
            "unauthorized"@,
            "missing or invalid x-movelite-token"@,
        );
    }
}

/// A request to submit is refused for its headers first, then, on a strict
/// server, for the token, then for its body; else its transaction is handed on.
pub proof fn law_submit_is_checked_in_order<T>(
    headers: &HeaderMap,
    options: &ServerOptions,
    decoded: Result<T, String>,
    checked: Result<(), ApiError>,
    entry: Result<(), HttpError>,
    res: Result<T, ApiError>,
)
    requires
        call_ensures(check_bcs_headers, (headers,), checked),
        call_ensures(require_auth, (headers, options), entry),
        call_ensures(submit_request::<T>, (headers, options, decoded), res),
    ensures
        checked is Err ==> res is Err && res->Err_0.0 == checked->Err_0.0 && res->Err_0.1@
            == checked->Err_0.1@,
        checked is Ok && options.strict_local_auth && entry is Err ==> res is Err
            && res->Err_0.0.number() == 401,
        checked is Ok && (!options.strict_local_auth || entry is Ok) ==> {
            &&& res is Ok <==> decoded is Ok
            &&& res is Ok ==> res->Ok_0 == decoded->Ok_0
            &&& res is Err ==> res->Err_0.0.number() == 400 && shows_error(
                res->Err_0.1@,
                "invalid_input"@,
                "Failed to deserialize BCS transaction: "@ + decoded->Err_0@,
            )
        },
{
    if checked is Ok && (!options.strict_local_auth || entry is Ok) && res is Err {
        lemma_error_body(
            res->Err_0.1@,
            "invalid_input"@,
            "Failed to deserialize BCS transaction: "@ + decoded->Err_0@,
        );
    }
}

/// A request to simulate is refused for its headers first, then for its body, and
/// never for the token.
pub proof fn law_simulate_is_checked_in_order<T>(
    headers: &HeaderMap,
    decoded: Result<T, String>,
    checked: Result<(), ApiError>,
    res: Result<T, ApiError>,
)
    requires
        call_ensures(check_bcs_headers, (headers,), checked),
        call_ensures(simulate_request::<T>, (headers, decoded), res),
    ensures
        checked is Err ==> res is Err && res->Err_0.0 == checked->Err_0.0 && res->Err_0.1@
            == checked->Err_0.1@,
        checked is Ok ==> {
            &&& res is Ok <==> decoded is Ok
            &&& res is Ok ==> res->Ok_0 == decoded->Ok_0
            &&& res is Err ==> res->Err_0.0.number() == 400 && shows_error(
                res->Err_0.1@,
                "invalid_input"@,
                "Failed to deserialize BCS transaction: "@ + decoded->Err_0@,
            )
        },
{
    if checked is Ok && res is Err {
        lemma_error_body(
            res->Err_0.1@,
            "invalid_input"@,
            "Failed to deserialize BCS transaction: "@ + decoded->Err_0@,
        );
    }
}

/// A request to trace is refused for its headers first, then for its body, then,
/// where it commits on a strict server, for the token.
pub proof fn law_trace_is_checked_in_order<T>(
    headers: &HeaderMap,
    options: &ServerOptions,
    commit: bool,
    decoded: Result<T, String>,
    checked: Result<(), ApiError>,
    entry: Result<(), HttpError>,
    res: Result<T, ApiError>,
)
    requires
        call_ensures(check_bcs_headers, (headers,), checked),
        call_ensures(require_auth, (headers, options), entry),
        call_ensures(trace_request::<T>, (headers, options, commit, decoded), res),
    ensures
        checked is Err ==> res is Err && res->Err_0.0 == checked->Err_0.0 && res->Err_0.1@
            == checked->Err_0.1@,
        checked is Ok && decoded is Err ==> res is Err && res->Err_0.0.number() == 400,
        checked is Ok && decoded is Ok ==> {
            &&& res is Err <==> commit && options.strict_local_auth && entry is Err
            &&& res is Err ==> res->Err_0.0.number() == 401
            &&& res is Ok ==> res->Ok_0 == decoded->Ok_0
        },
{
}

/// A check of a submission's headers is the first part of the request's.
pub proof fn law_submit_check(
    headers: &HeaderMap,
    options: &ServerOptions,
    checked: Result<(), ApiError>,
    entry: Result<(), HttpError>,
    res: Result<(), ApiError>,
)
    requires
        call_ensures(check_bcs_headers, (headers,), checked),
        call_ensures(require_auth, (headers, options), entry),
        call_ensures(check_submit, (headers, options), res),
    ensures
        res is Ok <==> checked is Ok && (!options.strict_local_auth || entry is Ok),
        checked is Err ==> res->Err_0.0 == checked->Err_0.0,
        checked is Ok && res is Err ==> res->Err_0.0.number() == 401,
{
}

/// Bodies that cannot be read are bad requests that say why.
pub proof fn law_bad_bodies(error: &str, txn: ApiError, bcs: HttpError, json: HttpError)
    requires
        call_ensures(bad_transaction, (error,), txn),
        call_ensures(bad_bcs_view, (error,), bcs),
        call_ensures(bad_json_view, (error,), json),
    ensures
        txn.0.number() == 400,
        shows_error(
            txn.1@,
            "invalid_input"@,
            "Failed to deserialize BCS transaction: "@ + error@,
        ),
        bcs.0.number() == 400,
        bcs.1@ == "BCS deserialize error: "@ + error@,
        json.0.number() == 400,
        json.1@ == "JSON parse error: "@ + error@,
{
    lemma_error_body(
        txn.1@,
        "invalid_input"@,
        "Failed to deserialize BCS transaction: "@ + error@,
    );
}

/// An address is read exactly where the text is one.
pub proof fn law_address_is_read(s: &str, res: Result<AccountAddress, HttpError>)
    requires
        call_ensures(parse_address, (s,), res),
    ensures
        res is Ok <==> address_of(s@) is Some,
        res is Ok ==> Some(res->Ok_0.bytes@) == address_of(s@),
        res is Err ==> res->Err_0.0.number() == 400 && res->Err_0.1@ == "Invalid address: "@
            + "unable to parse AccoutAddress"@,
{
}

/// A function identifier that is made of a module's text and a name is read back
/// as these.
pub proof fn law_function_id_is_read(
    s: &str,
    module: ModuleId,
    function: Seq<char>,
    res: Result<(ModuleId, String), HttpError>,
)
    requires
        call_ensures(parse_function_id, (s,), res),
        s@ == module_text(module@) + "::"@ + function,
        is_identifier(module.name@),
        is_identifier(function),
    ensures
        res is Ok,
        res->Ok_0.0@ == module@,
        res->Ok_0.1@ == function,
{
    law_function_id_round_trip(module@, function);
}

/// A function identifier is refused for what is wrong with it: that it has no
/// separator, that its last part is no name, that the part before has no
/// separator or no name in it, or that its first part is no address.
pub proof fn law_function_id_is_refused(
    s: &str,
    head: Seq<char>,
    tail: Seq<char>,
    res: Result<(ModuleId, String), HttpError>,
)
    requires
        call_ensures(parse_function_id, (s,), res),
    ensures
        res is Err ==> res->Err_0.0.number() == 400,
        !contains(s@, "::"@) ==> res is Err && res->Err_0.1@ == "Invalid function ID: "@ + s@,
        s@ == head + "::"@ + tail && !tail.contains(':') && !is_identifier(tail) ==> res is Err
            && res->Err_0.1@ == "Invalid identifier '"@ + tail + "'"@,
        s@ == head + "::"@ + tail && !tail.contains(':') && is_identifier(tail) && !contains(
            head,
            "::"@,
        ) ==> res is Err && res->Err_0.1@ == "Invalid module ID in: "@ + s@,
{
    if s@ == head + "::"@ + tail && !tail.contains(':') {
        assert forall|i: int| 0 <= i < tail.len() implies #[trigger] tail[i] != ':' by {
            assert(tail.contains(tail[i]));
        }
        law_split_last(head, tail);
    }
}

/// A function identifier of three parts is read by its parts: the last is the
/// function, the one before it the module, and the first any text of its account.
/// It is refused for the function's name first, then for the module's, then for
/// the account.
pub proof fn law_function_id_by_parts(
    s: &str,
    address: Seq<char>,
    name: Seq<char>,
    function: Seq<char>,
    res: Result<(ModuleId, String), HttpError>,
)
    requires
        call_ensures(parse_function_id, (s,), res),
        s@ == address + "::"@ + name + "::"@ + function,
        forall|i: int| 0 <= i < name.len() ==> #[trigger] name[i] != ':',
        forall|i: int| 0 <= i < function.len() ==> #[trigger] function[i] != ':',
    ensures
        res is Ok <==> is_identifier(function) && is_identifier(name) && address_of(address) is Some,
        res is Ok ==> {
            &&& Some(res->Ok_0.0.address.bytes@) == address_of(address)
            &&& res->Ok_0.0.name@ == name
            &&& res->Ok_0.1@ == function
        },
        !is_identifier(function) ==> res->Err_0.1@ == "Invalid identifier '"@ + function + "'"@,
        is_identifier(function) && !is_identifier(name) ==> res->Err_0.1@
            == "Invalid identifier '"@ + name + "'"@,
        is_identifier(function) && is_identifier(name) && res is Err ==> res->Err_0.1@
            == "Invalid address: "@ + "unable to parse AccoutAddress"@,
        res is Err ==> res->Err_0.0.number() == 400,
{
    let head = address + "::"@ + name;
    law_split_last(head, function);
    law_split_last(address, name);
    lemma_function_id(s@, head, address, name, function);
}

/// What a text of three parts is taken for.
proof fn lemma_function_id(
    text: Seq<char>,
    head: Seq<char>,
    address: Seq<char>,
    name: Seq<char>,
    function: Seq<char>,
)
    requires
        split_last(text, "::"@) == Some((head, function)),
        split_last(head, "::"@) == Some((address, name)),
    ensures
        !is_identifier(function) ==> function_id(text) == Err::<(ModuleIdView, Seq<char>), Seq<char>>(
            "Invalid identifier '"@ + function + "'"@,
        ),
        is_identifier(function) && !is_identifier(name) ==> function_id(text) == Err::<
            (ModuleIdView, Seq<char>),
            Seq<char>,
        >("Invalid identifier '"@ + name + "'"@),
        is_identifier(function) && is_identifier(name) && address_of(address) is None
            ==> function_id(text) == Err::<(ModuleIdView, Seq<char>), Seq<char>>(
            "Invalid address: "@ + "unable to parse AccoutAddress"@,
        ),
        is_identifier(function) && is_identifier(name) && address_of(address) is Some
            ==> function_id(text) == Ok::<(ModuleIdView, Seq<char>), Seq<char>>(
            (ModuleIdView { address: address_of(address)->0, name }, function),
        ),
{
}

/// The module of a name is that of the account, and a text that is no name is
/// refused.
pub proof fn law_module_of_a_name(address: AccountAddress, name: &str, res: Result<ModuleId, String>)
    requires
        call_ensures(module_of, (address, name), res),
    ensures
        res is Ok <==> is_identifier(name@),
        res is Ok ==> res->Ok_0.address.bytes@ == address.bytes@ && res->Ok_0.name@ == name@,
        res is Err ==> res->Err_0@ == "Invalid identifier '"@ + name@ + "'"@,
{
}

/// A number is encoded as its eight bytes, the lowest first, and one beyond that
/// is refused.
pub proof fn law_number_argument(
    value: Option<u64>,
    literal: String,
    res: Result<Vec<u8>, HttpError>,
)
    requires
        call_ensures(serialize_view_arg, (&ViewArg::Number { value, literal },), res),
    ensures
        res is Ok <==> value is Some,
        value is Some ==> {
            let b = res->Ok_0@;
            &&& b.len() == 8
            &&& value->0 == b[0] + 0x100 * b[1] + 0x1_0000 * b[2] + 0x100_0000 * b[3]
                + 0x1_0000_0000 * b[4] + 0x100_0000_0000 * b[5] + 0x1_0000_0000_0000 * b[6]
                + 0x100_0000_0000_0000 * b[7]
        },
        value is None ==> res->Err_0.0.number() == 400 && res->Err_0.1@ == "Unsupported number: "@
            + literal@,
{
    if value is Some {
        law_eight_bytes(value->0 as nat);
    }
}

/// A truth value is one byte, one or zero; what is neither text, number nor truth
/// value is refused.
pub proof fn law_other_arguments(
    flag: bool,
    json: String,
    res: Result<Vec<u8>, HttpError>,
    refused: Result<Vec<u8>, HttpError>,
)
    requires
        call_ensures(serialize_view_arg, (&ViewArg::Bool(flag),), res),
        call_ensures(serialize_view_arg, (&ViewArg::Other { json },), refused),
    ensures
        res is Ok,
        res->Ok_0@.len() == 1,
        res->Ok_0@[0] == 1 <==> flag,
        res->Ok_0@[0] == 0 <==> !flag,
        refused is Err,
        refused->Err_0.0.number() == 400,
        refused->Err_0.1@ == "Unsupported arg type: "@ + json@,
{
}

/// A text that is an address is encoded as its bytes. Any other is encoded as its
/// UTF-8 bytes behind their count, which is one byte below a hundred and
/// twenty-eight.
pub proof fn law_text_argument(text: String, res: Result<Vec<u8>, HttpError>)
    requires
        call_ensures(serialize_view_arg, (&ViewArg::Text(text),), res),
    ensures
        address_of(text@) is Some ==> res is Ok && Some(res->Ok_0@) == address_of(text@),
        address_of(text@) is None && encode_utf8(text@).len() <= 0x7fff_ffff ==> {
            let b = res->Ok_0@;
            &&& res is Ok
            &&& b.len() > encode_utf8(text@).len()
            &&& b.skip(b.len() - encode_utf8(text@).len()) == encode_utf8(text@)
            &&& b.take(b.len() - encode_utf8(text@).len()) == uleb128(encode_utf8(text@).len())
            &&& encode_utf8(text@).len() < 128 ==> b.len() == encode_utf8(text@).len() + 1 && b[0]
                == encode_utf8(text@).len()
        },
        address_of(text@) is None && encode_utf8(text@).len() > 0x7fff_ffff ==> res is Err
            && res->Err_0.0.number() == 400 && res->Err_0.1@ == "BCS error: "@ + (
        "exceeded max sequence length: "@ + decimal(encode_utf8(text@).len())),
{
    let bytes = encode_utf8(text@);
    if address_of(text@) is None && bytes.len() <= 0x7fff_ffff {
        law_count_bytes(bytes.len());
        let head = uleb128(bytes.len());
        assert((head + bytes).skip(head.len() as int) =~= bytes);
        assert((head + bytes).take(head.len() as int) =~= head);
    }
}

/// Arguments are encoded one by one and in order; the first that cannot be is
/// what a request is refused for.
pub proof fn law_arguments_in_order(
    arguments: &Vec<ViewArg>,
    res: Result<Vec<Vec<u8>>, HttpError>,
    at: int,
)
    requires
        call_ensures(serialize_view_args, (arguments,), res),
        0 <= at < arguments@.len(),
    ensures
        res is Ok ==> res->Ok_0@.len() == arguments@.len() && view_arg_bytes(arguments@[at]) == Ok::<
            Seq<u8>,
            Seq<char>,
        >(res->Ok_0@[at]@),
        (forall|i: int| 0 <= i < at ==> view_arg_bytes(#[trigger] arguments@[i]) is Ok)
            && view_arg_bytes(arguments@[at]) is Err ==> res is Err && res->Err_0.0.number() == 400
            && res->Err_0.1@ == view_arg_bytes(arguments@[at])->Err_0,
{
    if res is Ok {
        assert(encodes(arguments@[at], res->Ok_0@[at]@));
    }
    if forall|i: int| 0 <= i < at ==> view_arg_bytes(#[trigger] arguments@[i]) is Ok {
        lemma_first_bad_arg(arguments@, at);
    }
}

/// A view call is refused for its function first, whatever its type arguments and
/// arguments are; then for its first bad type argument; then for its arguments.
/// Else it has the function, the type arguments and the encoded arguments, each
/// in its place.
pub proof fn law_view_call_in_order<T>(
    function: &str,
    tags: Vec<Result<T, String>>,
    arguments: &Vec<ViewArg>,
    named: Result<(ModuleId, String), HttpError>,
    encoded: Result<Vec<Vec<u8>>, HttpError>,
    res: Result<ViewCall<T>, HttpError>,
    at: int,
)
    requires
        call_ensures(parse_function_id, (function,), named),
        call_ensures(serialize_view_args, (arguments,), encoded),
        call_ensures(view_call::<T>, (function, tags, arguments), res),
    ensures
        named is Err ==> res is Err && res->Err_0.1@ == named->Err_0.1@,
        res is Err ==> res->Err_0.0.number() == 400,
        named is Ok && 0 <= at < tags@.len() && (forall|i: int|
            0 <= i < at ==> (#[trigger] tags@[i]) is Ok) && tags@[at] is Err ==> res is Err
            && res->Err_0.1@ == tags@[at]->Err_0@,
        named is Ok && (forall|i: int| 0 <= i < tags@.len() ==> (#[trigger] tags@[i]) is Ok) ==> {
            &&& res is Ok <==> encoded is Ok
            &&& encoded is Err ==> res->Err_0.1@ == encoded->Err_0.1@
        },
        res is Ok ==> {
            &&& res->Ok_0.module@ == named->Ok_0.0@
            &&& res->Ok_0.function@ == named->Ok_0.1@
            &&& res->Ok_0.ty_args@.len() == tags@.len()
            &&& res->Ok_0.args@.len() == arguments@.len()
            &&& 0 <= at < tags@.len() ==> tags@[at] == Ok::<T, String>(res->Ok_0.ty_args@[at])
            &&& 0 <= at < arguments@.len() ==> view_arg_bytes(arguments@[at]) == Ok::<
                Seq<u8>,
                Seq<char>,
            >(res->Ok_0.args@[at]@)
        },
{
    if 0 <= at < tags@.len() && (forall|i: int| 0 <= i < at ==> (#[trigger] tags@[i]) is Ok) {
        lemma_first_bad_tag(tags@, at);
    }
    if forall|i: int| 0 <= i < tags@.len() ==> (#[trigger] tags@[i]) is Ok {
        lemma_first_bad_tag(tags@, tags@.len() as int);
    }
    if res is Ok && 0 <= at < arguments@.len() {
        assert(encodes(arguments@[at], res->Ok_0.args@[at]@));
    }
}

/// A type tag that was read is kept; the reason why one could not be is what the
/// request is refused with.
pub proof fn law_tag_is_kept<T>(tag: Result<T, String>, res: Result<T, HttpError>)
    requires
        call_ensures(parsed_tag::<T>, (tag,), res),
    ensures
        res is Ok <==> tag is Ok,
        res is Ok ==> res->Ok_0 == tag->Ok_0,
        res is Err ==> res->Err_0.0.number() == 400 && res->Err_0.1 == tag->Err_0,
{
}

/// A view request is in BCS exactly where it says so, in small letters.
pub proof fn law_view_format(headers: &HeaderMap, res: bool)
    requires
        call_ensures(view_is_bcs, (headers,), res),
    ensures
        res <==> header_text(*headers, "content-type"@) is Some && contains(
            header_text(*headers, "content-type"@)->0,
            "bcs"@,
        ),
{
}

/// What a header is read as is its first value, where that is a text.
pub proof fn law_header_is_read<'a>(headers: &'a HeaderMap, name: &str, res: Option<&'a str>)
    requires
        call_ensures(read_header, (headers, name), res),
    ensures
        res is Some <==> header_text(*headers, name@) is Some,
        res is Some ==> header_text(*headers, name@) == Some(res->0@),
{
}

/// A resource is asked for with one slash in front of its type or with none: both
/// give the same. Its account is looked at first.
pub proof fn law_resource_with_or_without_slash(
    address: &str,
    bare: &str,
    slashed: &str,
    a: Result<(AccountAddress, String), HttpError>,
    b: Result<(AccountAddress, String), HttpError>,
)
    requires
        call_ensures(resource_request, (address, bare), a),
        call_ensures(resource_request, (address, slashed), b),
        slashed@ == "/"@ + bare@,
        bare@.len() > 0 ==> bare@[0] != '/',
    ensures
        a is Ok <==> b is Ok,
        a is Ok ==> encode_utf8(a->Ok_0.1@) == encode_utf8(b->Ok_0.1@) && a->Ok_0.0@ == b->Ok_0.0@,
        a is Err ==> a->Err_0.0 == b->Err_0.0 && a->Err_0.1@ == b->Err_0.1@,
        address_of(address@) is None ==> a is Err && a->Err_0.0.number() == 400 && a->Err_0.1@
            == "Invalid address: "@ + "unable to parse AccoutAddress"@,
        address_of(address@) is Some ==> (a is Ok <==> valid_utf8(
            percent_decoded(encode_utf8(bare@)),
        )),
        a is Ok ==> Some(a->Ok_0.0.bytes@) == address_of(address@) && encode_utf8(a->Ok_0.1@)
            == percent_decoded(encode_utf8(bare@)),
        a is Err ==> a->Err_0.0.number() == 400,
{
    reveal_strlit("/");
    assert(slashed@.skip(1) =~= bare@);
    assert(slashed@.subrange(0, 1) =~= "/"@);
    assert(starts_with(slashed@, "/"@));
    if starts_with(bare@, "/"@) {
        assert(bare@.subrange(0, 1)[0] == bare@[0]);
    }
}

/// Only the first slash in front of a resource's type is left out: what is behind
/// it is the type, with its escapes resolved. One whose bytes are no text then is
/// a bad request.
pub proof fn law_resource_behind_a_slash(
    address: &str,
    path: &str,
    rest: Seq<char>,
    res: Result<(AccountAddress, String), HttpError>,
)
    requires
        call_ensures(resource_request, (address, path), res),
        path@ == "/"@ + rest,
        address_of(address@) is Some,
    ensures
        res is Ok <==> valid_utf8(percent_decoded(encode_utf8(rest))),
        res is Ok ==> encode_utf8(res->Ok_0.1@) == percent_decoded(encode_utf8(rest)),
        res is Ok ==> Some(res->Ok_0.0.bytes@) == address_of(address@),
        res is Err ==> res->Err_0.0.number() == 400 && res->Err_0.1@ == percent_decode_error(rest),
{
    reveal_strlit("/");
    assert(path@.skip(1) =~= rest);
    assert(path@.subrange(0, 1) =~= "/"@);
    assert(starts_with(path@, "/"@));
}

/// A request to trace that is refused for its body or for the token is answered
/// like a submission that is refused for the same.
pub proof fn law_refusals_are_alike<T>(
    headers: &HeaderMap,
    options: &ServerOptions,
    commit: bool,
    decoded: Result<T, String>,
    submit: Result<T, ApiError>,
    simulate: Result<T, ApiError>,
    trace: Result<T, ApiError>,
    check: Result<(), ApiError>,
)
    requires
        call_ensures(submit_request::<T>, (headers, options, decoded), submit),
        call_ensures(simulate_request::<T>, (headers, decoded), simulate),
        call_ensures(trace_request::<T>, (headers, options, commit, decoded), trace),
        call_ensures(check_submit, (headers, options), check),
    ensures
        simulate is Err ==> trace is Err && trace->Err_0.0 == simulate->Err_0.0 && trace->Err_0.1@
            == simulate->Err_0.1@,
        simulate is Ok && trace is Err ==> submit is Err && trace->Err_0.0 == submit->Err_0.0
            && trace->Err_0.1@ == submit->Err_0.1@,
        check is Err ==> submit is Err && submit->Err_0.0 == check->Err_0.0 && submit->Err_0.1@
            == check->Err_0.1@,
        submit is Err && submit->Err_0.0.number() == 401 ==> shows_error(
            submit->Err_0.1@,
            "unauthorized"@,
            "missing or invalid x-movelite-token"@,
        ),
{
    if submit is Err && submit->Err_0.0.number() == 401 {
        lemma_error_body(
            submit->Err_0.1@,
            "unauthorized"@,
            "missing or invalid x-movelite-token"@,
        );
    }
}

} // verus!
