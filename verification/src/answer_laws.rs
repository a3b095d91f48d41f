//! What the node answers, in terms of what it was asked and what the session
//! said.
use crate::address::{address_of, AccountAddress};
use crate::encoding::hex_text;
use crate::http::{header_count, header_text, header_values, json_error, require_auth, to_json_error,
    with_headers, ApiError, HttpError, ServerOptions, StatusCode};
use crate::http_laws::lemma_others_stay;
use crate::json::{lemma_field_of, Json, JsonView};
use crate::ledger::{build_ledger_info, inject_ledger_headers, law_ledger_headers_are_read,
    ledger_pairs, ledger_view, LedgerInfoResponse};
use crate::server::{account_request, account_step, estimate_gas_price, get_account,
    get_account_resource, get_module, get_transaction_by_hash, handle_layer_error, internal_error,
    ledger_info, mint_request, module_bytes, trace_commits, trace_transaction, view_function,
    vm_panicked, AccountDataResponse, AccountEvent, AccountLookup, AccountStep, ModuleFault,
    ResourceResponse, ResourceScan, MAX_BODY_BYTES, MAX_CONCURRENT_REQUESTS, REQUEST_TIMEOUT_SECS};
use crate::session_wrapper::SessionWrapper;
use crate::text::{decimal, decimal_value, law_decimal_value};
use axum::http::HeaderMap;
use vstd::prelude::*;

verus! {

/// The ledger shows the chain, and the operations of the session as its version
/// and its height; what is oldest is the beginning.
pub proof fn law_ledger_shows_operations(
    chain_id: u64,
    ops: u64,
    micros: Option<u128>,
    res: LedgerInfoResponse,
)
    requires
        call_ensures(build_ledger_info, (chain_id, ops, micros), res),
    ensures
        res.chain_id == chain_id,
        res.ledger_version@ == decimal(ops as nat),
        res.block_height@ == decimal(ops as nat),
        decimal_value(res.ledger_version@) == ops,
        decimal_value(res.block_height@) == ops,
        res.oldest_ledger_version@ == "0"@,
        res.oldest_block_height@ == "0"@,
        res.epoch@ == "1"@,
        res.node_role@ == "full_node"@,
{
    law_decimal_value(ops as nat);
}

/// The ledger shows the clock: every time that 64 bits hold is shown as it is,
/// and a clock before the epoch as zero.
pub proof fn law_ledger_shows_the_clock(
    chain_id: u64,
    ops: u64,
    micros: Option<u128>,
    res: LedgerInfoResponse,
)
    requires
        call_ensures(build_ledger_info, (chain_id, ops, micros), res),
        micros is Some ==> micros->0 <= u64::MAX,
    ensures
        micros is Some ==> res.ledger_timestamp@ == decimal(micros->0 as nat),
        micros is Some ==> decimal_value(res.ledger_timestamp@) == micros->0,
        micros is None ==> res.ledger_timestamp@ == decimal(0),
        micros is None ==> decimal_value(res.ledger_timestamp@) == 0,
{
    match micros {
        Some(m) => law_decimal_value(m as nat),
        None => law_decimal_value(0),
    }
}

/// A clock that 64 bits do not hold is shown as it would be one turn of 64 bits
/// earlier.
pub proof fn law_ledger_clock_turns(
    chain_id: u64,
    ops: u64,
    micros: u128,
    a: LedgerInfoResponse,
    b: LedgerInfoResponse,
)
    requires
        micros >= 0x1_0000_0000_0000_0000,
        call_ensures(build_ledger_info, (chain_id, ops, Some(micros)), a),
        call_ensures(
            build_ledger_info,
            (chain_id, ops, Some((micros - 0x1_0000_0000_0000_0000) as u128)),
            b,
        ),
    ensures
        a.ledger_timestamp@ == b.ledger_timestamp@,
{
}

/// A later clock is shown as a later time, as long as 64 bits hold it.
pub proof fn law_ledger_time_goes_on(
    chain_id: u64,
    ops: u64,
    earlier: u128,
    later: u128,
    a: LedgerInfoResponse,
    b: LedgerInfoResponse,
)
    requires
        call_ensures(build_ledger_info, (chain_id, ops, Some(earlier)), a),
        call_ensures(build_ledger_info, (chain_id, ops, Some(later)), b),
        earlier < later <= u64::MAX,
    ensures
        decimal_value(a.ledger_timestamp@) < decimal_value(b.ledger_timestamp@),
{
    law_decimal_value(earlier as nat);
    law_decimal_value(later as nat);
}

/// The ledger of a session is at the session's operation count, on its chain.
pub proof fn law_ledger_of_a_session<S>(
    session: &SessionWrapper<S>,
    micros: Option<u128>,
    res: LedgerInfoResponse,
)
    requires
        call_ensures(ledger_info::<S>, (session, micros), res),
    ensures
        res.chain_id == session@.chain_id,
        decimal_value(res.ledger_version@) == session@.ops_count,
        decimal_value(res.block_height@) == session@.ops_count,
        micros is Some && micros->0 <= u64::MAX ==> decimal_value(res.ledger_timestamp@)
            == micros->0,
        res.epoch@ == "1"@,
        res.oldest_ledger_version@ == "0"@,
        res.oldest_block_height@ == "0"@,
        res.node_role@ == "full_node"@,
{
    law_decimal_value(session@.ops_count as nat);
    if micros is Some && micros->0 <= u64::MAX {
        law_decimal_value(micros->0 as nat);
    }
}

/// A session's ledger is the one of its chain and its operations at the same
/// time.
pub proof fn law_ledger_by_chain_and_operations<S>(
    session: &SessionWrapper<S>,
    micros: Option<u128>,
    res: LedgerInfoResponse,
    built: LedgerInfoResponse,
)
    requires
        call_ensures(ledger_info::<S>, (session, micros), res),
        call_ensures(
            build_ledger_info,
            (session@.chain_id, session@.ops_count, micros),
            built,
        ),
    ensures
        res.chain_id == built.chain_id,
        res.epoch@ == built.epoch@,
        res.ledger_version@ == built.ledger_version@,
        res.oldest_ledger_version@ == built.oldest_ledger_version@,
        res.ledger_timestamp@ == built.ledger_timestamp@,
        res.node_role@ == built.node_role@,
        res.oldest_block_height@ == built.oldest_block_height@,
        res.block_height@ == built.block_height@,
{
    assert(res@ == built@);
}

/// A header has one value, and that is a text.
pub open spec fn has_one(headers: HeaderMap, name: Seq<char>, text: Seq<char>) -> bool {
    &&& header_values(headers).contains_key(name)
    &&& header_values(headers)[name].len() == 1
    &&& header_text(headers, name) == Some(text)
}

/// An answer whose ledger headers were all set shows the ledger in them: under
/// each name stands the one value that the name says.
pub proof fn law_ledger_headers_show_the_ledger(
    headers: &mut HeaderMap,
    chain_id: u64,
    ops: u64,
    micros: Option<u128>,
    info: LedgerInfoResponse,
)
    requires
        call_ensures(build_ledger_info, (chain_id, ops, micros), info),
        call_ensures(inject_ledger_headers, (headers, info), true),
    ensures
        has_one(*final(headers), "x-aptos-chain-id"@, decimal(chain_id as nat)),
        has_one(*final(headers), "x-aptos-ledger-version"@, decimal(ops as nat)),
        has_one(*final(headers), "x-aptos-ledger-oldest-version"@, "0"@),
        has_one(*final(headers), "x-aptos-ledger-timestampusec"@, info.ledger_timestamp@),
        has_one(*final(headers), "x-aptos-epoch"@, "1"@),
        has_one(*final(headers), "x-aptos-block-height"@, decimal(ops as nat)),
        has_one(*final(headers), "x-aptos-oldest-block-height"@, "0"@),
{
    let before = header_values(*old(headers));
    assert(info@ == ledger_view(chain_id, ops, micros));
    assert(header_values(*final(headers)) == with_headers(before, ledger_pairs(info@)));
    law_ledger_headers_are_read(before, chain_id, ops, micros, 0);
    law_ledger_headers_are_read(before, chain_id, ops, micros, 1);
    law_ledger_headers_are_read(before, chain_id, ops, micros, 2);
    law_ledger_headers_are_read(before, chain_id, ops, micros, 3);
    law_ledger_headers_are_read(before, chain_id, ops, micros, 4);
    law_ledger_headers_are_read(before, chain_id, ops, micros, 5);
    law_ledger_headers_are_read(before, chain_id, ops, micros, 6);
}

/// Setting the ledger headers leaves every header of another name as it was, and
/// never fails on an answer with fewer than six thousand names.
pub proof fn law_ledger_headers_leave_others(
    headers: &mut HeaderMap,
    info: LedgerInfoResponse,
    all: bool,
    name: Seq<char>,
)
    requires
        call_ensures(inject_ledger_headers, (headers, info), all),
        name != "x-aptos-chain-id"@,
        name != "x-aptos-ledger-version"@,
        name != "x-aptos-ledger-oldest-version"@,
        name != "x-aptos-ledger-timestampusec"@,
        name != "x-aptos-epoch"@,
        name != "x-aptos-block-height"@,
        name != "x-aptos-oldest-block-height"@,
    ensures
        header_count(*old(headers)) <= 5_993 ==> all,
        header_values(*final(headers)).contains_key(name) == header_values(
            *old(headers),
        ).contains_key(name),
        header_values(*old(headers)).contains_key(name) ==> header_values(*final(headers))[name]
            == header_values(*old(headers))[name],
{
    let before = header_values(*old(headers));
    let pairs = ledger_pairs(info@);
    if all {
        lemma_others_stay(before, pairs, name);
    } else {
        let done = choose|done: int|
            0 <= done < 7 && header_values(*final(headers)) == with_headers(
                before,
                #[trigger] pairs.take(done),
            );
        lemma_others_stay(before, pairs.take(done), name);
    }
}

/// The body of an error shows its message and its code, and no code of the
/// virtual machine.
pub open spec fn shows_error(body: JsonView, code: Seq<char>, message: Seq<char>) -> bool {
    &&& body.get("message"@) == Some(JsonView::Text(message))
    &&& body.get("error_code"@) == Some(JsonView::Text(code))
    &&& body.get("vm_error_code"@) == Some(JsonView::Null)
    &&& body->Object_0.len() == 3
}

/// The three names of an error's body are found where they stand.
pub proof fn lemma_error_body(body: JsonView, code: Seq<char>, message: Seq<char>)
    requires
        body == JsonView::Object(
            seq![
                ("message"@, JsonView::Text(message)),
                ("error_code"@, JsonView::Text(code)),
                ("vm_error_code"@, JsonView::Null),
            ],
        ),
    ensures
        shows_error(body, code, message),
{
    reveal_strlit("message");
    reveal_strlit("error_code");
    reveal_strlit("vm_error_code");
    assert("message"@.len() == 7 && "error_code"@.len() == 10 && "vm_error_code"@.len() == 13);
    let f = body->Object_0;
    lemma_field_of(f, "message"@, 0);
    lemma_field_of(f, "error_code"@, 1);
    lemma_field_of(f, "vm_error_code"@, 2);
}

/// A JSON error shows its code and its message.
pub proof fn law_json_error_shows_both(
    status: StatusCode,
    error_code: &str,
    message: &str,
    res: ApiError,
)
    requires
        call_ensures(json_error, (status, error_code, message), res),
    ensures
        res.0 == status,
        shows_error(res.1@, error_code@, message@),
{
    lemma_error_body(res.1@, error_code@, message@);
}

/// A plain error keeps its status and its message as a JSON error. The code of
/// the body follows from the number of the status.
pub proof fn law_error_code_by_number(error: HttpError, res: ApiError)
    requires
        call_ensures(to_json_error, (error,), res),
    ensures
        res.0 == error.0,
        error.0.number() == 400 ==> shows_error(res.1@, "invalid_input"@, error.1@),
        error.0.number() == 401 ==> shows_error(res.1@, "unauthorized"@, error.1@),
        error.0.number() == 404 ==> shows_error(res.1@, "not_found"@, error.1@),
        error.0.number() != 400 && error.0.number() != 401 && error.0.number() != 404
            ==> shows_error(res.1@, "internal_error"@, error.1@),
{
    let code = match error.0 {
        StatusCode::BAD_REQUEST => "invalid_input"@,
        StatusCode::UNAUTHORIZED => "unauthorized"@,
        StatusCode::NOT_FOUND => "not_found"@,
        _ => "internal_error"@,
    };
    lemma_error_body(res.1@, code, error.1@);
}

/// Each status has its number, and a number is told as it is.
pub proof fn law_status_numbers(status: StatusCode, number: u16)
    requires
        call_ensures(StatusCode::as_u16, (status,), number),
    ensures
        status == StatusCode::BAD_REQUEST <==> number == 400,
        status == StatusCode::UNAUTHORIZED <==> number == 401,
        status == StatusCode::NOT_FOUND <==> number == 404,
        status == StatusCode::NOT_ACCEPTABLE <==> number == 406,
        status == StatusCode::REQUEST_TIMEOUT <==> number == 408,
        status == StatusCode::UNSUPPORTED_MEDIA_TYPE <==> number == 415,
        status == StatusCode::INTERNAL_SERVER_ERROR <==> number == 500,
        status.number() == number,
{
}

/// A failure of the service is a timeout after thirty seconds, or tells its
/// reason; a panic and a failure inside the node tell theirs.
pub proof fn law_service_failures(
    error: &str,
    reason: String,
    late: HttpError,
    down: HttpError,
    panicked: HttpError,
    internal: ApiError,
)
    requires
        call_ensures(handle_layer_error, (true, error), late),
        call_ensures(handle_layer_error, (false, error), down),
        call_ensures(vm_panicked, (error,), panicked),
        call_ensures(internal_error, (reason,), internal),
    ensures
        late.0.number() == 408,
        late.1@ == "request timed out after "@ + decimal(30) + "s"@,
        down.0.number() == 500,
        down.1@ == "service error: "@ + error@,
        panicked.0.number() == 500,
        panicked.1@ == "VM task panicked: "@ + error@,
        internal.0.number() == 500,
        shows_error(internal.1@, "internal_error"@, reason@),
{
    lemma_error_body(internal.1@, "internal_error"@, reason@);
}

/// The proposed gas prices: the plain and the low one are a hundred, the high one
/// is half more.
pub proof fn law_gas_prices(res: Json)
    requires
        call_ensures(estimate_gas_price, (), res),
    ensures
        res@.get("gas_estimate"@) == Some(JsonView::Number("100"@)),
        res@.get("deprioritized_gas_estimate"@) == Some(JsonView::Number("100"@)),
        res@.get("prioritized_gas_estimate"@) == Some(JsonView::Number("150"@)),
        res@->Object_0.len() == 3,
{
    reveal_strlit("gas_estimate");
    reveal_strlit("deprioritized_gas_estimate");
    reveal_strlit("prioritized_gas_estimate");
    assert("gas_estimate"@.len() == 12 && "deprioritized_gas_estimate"@.len() == 26
        && "prioritized_gas_estimate"@.len() == 24);
    let f = res@->Object_0;
    lemma_field_of(f, "gas_estimate"@, 0);
    lemma_field_of(f, "deprioritized_gas_estimate"@, 1);
    lemma_field_of(f, "prioritized_gas_estimate"@, 2);
}

/// An account that has a resource is found with it, whatever it holds. The
/// network is asked exactly where there is none, and then decides. A failure is
/// the end.
pub proof fn law_account_lookup(event: AccountEvent, step: AccountStep)
    requires
        call_ensures(account_step, (event,), step),
    ensures
        step is Ask <==> event is Viewed && event->Viewed_0 is Ok && event->Viewed_0->Ok_0 is None,
        event is Viewed && event->Viewed_0 is Ok && event->Viewed_0->Ok_0 is Some ==> step
            == AccountStep::Done(Ok(AccountLookup::Found(event->Viewed_0->Ok_0->0))),
        event is Viewed && event->Viewed_0 is Err ==> step == AccountStep::Done(
            Err(event->Viewed_0->Err_0),
        ),
        event is Asked && event->Asked_0 == Ok::<bool, String>(true) ==> step
            == AccountStep::Done(Ok(AccountLookup::Stateless)),
        event is Asked && event->Asked_0 == Ok::<bool, String>(false) ==> step
            == AccountStep::Done(Ok(AccountLookup::NotFound)),
        event is Asked && event->Asked_0 is Err ==> step == AccountStep::Done(
            Err(event->Asked_0->Err_0),
        ),
{
}

/// The text is the one under a key of a resource, and a given one where the
/// resource has no text there.
pub open spec fn is_text_at(
    text: Seq<char>,
    resource: JsonView,
    key: Seq<char>,
    given: Seq<char>,
) -> bool {
    match resource.get(key) {
        Some(JsonView::Text(held)) => text == held,
        _ => text == given,
    }
}

/// An account with a resource is answered with the number and the key that the
/// resource holds, and with zeros where it holds no texts.
pub proof fn law_account_by_resource(
    address: &str,
    account: &AccountAddress,
    resource: Json,
    version: u64,
    res: Result<AccountDataResponse, ApiError>,
)
    requires
        call_ensures(
            get_account,
            (address, account, Ok(AccountLookup::Found(resource)), version),
            res,
        ),
    ensures
        res is Ok,
        is_text_at(res->Ok_0.sequence_number@, resource@, "sequence_number"@, "0"@),
        is_text_at(res->Ok_0.authentication_key@, resource@, "authentication_key"@, "0x0"@),
{
}

/// An account without a resource, on a network that takes every address for one,
/// starts at zero and has its whole address for a key.
pub proof fn law_account_without_resource(
    address: &str,
    account: &AccountAddress,
    version: u64,
    res: Result<AccountDataResponse, ApiError>,
)
    requires
        call_ensures(get_account, (address, account, Ok(AccountLookup::Stateless), version), res),
    ensures
        res is Ok,
        res->Ok_0.sequence_number@ == "0"@,
        res->Ok_0.authentication_key@ == "0x"@ + hex_text(account.bytes@),
        res->Ok_0.authentication_key@.len() == 66,
{
    reveal_strlit("0x");
}

/// An account that is not there is not found, with the address as it was asked
/// for and the version in the message; a lookup that failed is a failure of the
/// node.
pub proof fn law_account_not_answered(
    address: &str,
    account: &AccountAddress,
    lookup: Result<AccountLookup, String>,
    version: u64,
    res: Result<AccountDataResponse, ApiError>,
)
    requires
        call_ensures(get_account, (address, account, lookup, version), res),
    ensures
        res is Err <==> lookup is Err || lookup->Ok_0 is NotFound,
        lookup is Ok && lookup->Ok_0 is NotFound ==> {
            &&& res->Err_0.0.number() == 404
            &&& shows_error(
                res->Err_0.1@,
                "account_not_found"@,
                "Account not found by Address("@ + address@ + ") and Ledger version("@ + decimal(
                    version as nat,
                ) + ")"@,
            )
        },
        lookup is Err ==> {
            &&& res->Err_0.0.number() == 500
            &&& shows_error(
                res->Err_0.1@,
                "internal_error"@,
                "view_resource error for "@ + address@ + ": "@ + lookup->Err_0@,
            )
        },
{
    if lookup is Ok && lookup->Ok_0 is NotFound {
        lemma_error_body(
            res->Err_0.1@,
            "account_not_found"@,
            "Account not found by Address("@ + address@ + ") and Ledger version("@ + decimal(
                version as nat,
            ) + ")"@,
        );
    }
    if lookup is Err {
        lemma_error_body(
            res->Err_0.1@,
            "internal_error"@,
            "view_resource error for "@ + address@ + ": "@ + lookup->Err_0@,
        );
    }
}

/// A path names an account exactly where its text is an address; else the request
/// is bad.
pub proof fn law_account_is_named(address: &str, res: Result<AccountAddress, ApiError>)
    requires
        call_ensures(account_request, (address,), res),
    ensures
        res is Ok <==> address_of(address@) is Some,
        res is Ok ==> Some(res->Ok_0.bytes@) == address_of(address@),
        res is Err ==> res->Err_0.0.number() == 400 && shows_error(
            res->Err_0.1@,
            "invalid_input"@,
            "Invalid address: "@ + "unable to parse AccoutAddress"@,
        ),
{
    if res is Err {
        lemma_error_body(
            res->Err_0.1@,
            "invalid_input"@,
            "Invalid address: "@ + "unable to parse AccoutAddress"@,
        );
    }
}

/// A resource that is there is answered with its type and its data, whatever they
/// hold; one that is not there is not found; a failure is the node's.
pub proof fn law_resource_is_answered(
    ty: String,
    lookup: Result<Option<Json>, String>,
    res: Result<ResourceResponse, HttpError>,
)
    requires
        call_ensures(get_account_resource, (ty, lookup), res),
    ensures
        res is Ok <==> lookup is Ok && lookup->Ok_0 is Some,
        res is Ok ==> res->Ok_0.ty@ == ty@ && res->Ok_0.data@ == lookup->Ok_0->0@,
        lookup is Ok && lookup->Ok_0 is None ==> res->Err_0.0.number() == 404 && res->Err_0.1@
            == "Resource not found: "@ + ty@,
        lookup is Err ==> res->Err_0.0.number() == 500 && res->Err_0.1@ == lookup->Err_0@,
{
}

/// The bytes of a module are handed on as they are, also where there are none in
/// them; a module that is not there is not found; a failure is the node's.
pub proof fn law_module_bytes_are_handed_on(
    address: &str,
    name: &str,
    bytes: Result<Option<Vec<u8>>, String>,
    res: Result<Vec<u8>, HttpError>,
)
    requires
        call_ensures(module_bytes, (address, name, bytes), res),
    ensures
        res is Ok <==> bytes is Ok && bytes->Ok_0 is Some,
        res is Ok ==> res->Ok_0 == bytes->Ok_0->0,
        bytes is Ok && bytes->Ok_0 is None ==> res->Err_0.0.number() == 404 && res->Err_0.1@
            == "Module not found: "@ + address@ + "::"@ + name@,
        bytes is Err ==> res->Err_0.0.number() == 500 && res->Err_0.1@ == bytes->Err_0@,
{
}

/// The description of a module is handed on as it is, or the reason why there is
/// none.
pub proof fn law_module_is_described(
    described: Result<Json, ModuleFault>,
    res: Result<Json, HttpError>,
)
    requires
        call_ensures(get_module, (described,), res),
    ensures
        res is Ok <==> described is Ok,
        res is Ok ==> res->Ok_0 == described->Ok_0,
        res is Err ==> res->Err_0.0.number() == 500,
        described is Err && described->Err_0 is Parse ==> res->Err_0.1@ == "ABI parse error: "@
            + described->Err_0->Parse_0@,
        described is Err && described->Err_0 is Encode ==> res->Err_0.1@
            == described->Err_0->Encode_0@,
{
}

/// The values of a view function are handed on as they are; a call that failed is
/// the caller's fault.
pub proof fn law_view_is_answered(
    outcome: Result<Vec<Json>, String>,
    res: Result<Vec<Json>, HttpError>,
)
    requires
        call_ensures(view_function, (outcome,), res),
    ensures
        res is Ok <==> outcome is Ok,
        res is Ok ==> res->Ok_0 == outcome->Ok_0,
        res is Err ==> res->Err_0.0.number() == 400 && res->Err_0.1 == outcome->Err_0,
{
}

/// A trace commits exactly where the request says so, and its answer is handed
/// on; one that could not be made is a failure of the node.
pub proof fn law_trace_is_answered(
    commit: Option<bool>,
    commits: bool,
    encoded: Result<Json, String>,
    res: Result<Json, ApiError>,
)
    requires
        call_ensures(trace_commits, (commit,), commits),
        call_ensures(trace_transaction, (encoded,), res),
    ensures
        commits <==> commit is Some && commit->0,
        res is Ok <==> encoded is Ok,
        res is Ok ==> res->Ok_0 == encoded->Ok_0,
        res is Err ==> res->Err_0.0.number() == 500 && shows_error(
            res->Err_0.1@,
            "internal_error"@,
            encoded->Err_0@,
        ),
{
    if res is Err {
        lemma_error_body(res->Err_0.1@, "internal_error"@, encoded->Err_0@);
    }
}

/// A transaction is answered with its record exactly where the session has one
/// under the hash that was asked for.
pub proof fn law_record_is_looked_up<S>(
    session: &SessionWrapper<S>,
    hash: &str,
    res: Result<Json, HttpError>,
)
    requires
        call_ensures(get_transaction_by_hash::<S>, (session, hash), res),
    ensures
        res is Ok <==> session@.records.contains_key(hash@),
        res is Ok ==> res->Ok_0@ == session@.records[hash@],
        res is Err ==> res->Err_0.0.number() == 404 && res->Err_0.1@ == "Transaction not found: "@
            + hash@,
{
}

/// A request is let in where no token is asked for, and else exactly where it
/// carries the very token.
pub proof fn law_token_lets_in(
    headers: &HeaderMap,
    options: &ServerOptions,
    res: Result<(), HttpError>,
)
    requires
        call_ensures(require_auth, (headers, options), res),
    ensures
        options.auth_token is None ==> res is Ok,
        options.auth_token is Some ==> (res is Ok <==> header_text(
            *headers,
            "x-movelite-token"@,
        ) == Some(options.auth_token->0@)),
        res is Err ==> res->Err_0.0.number() == 401 && res->Err_0.1@
            == "missing or invalid x-movelite-token"@,
{
}

/// A funding needs the token first, whatever its address is, and then an address.
pub proof fn law_funding_needs_token_then_address(
    headers: &HeaderMap,
    options: &ServerOptions,
    address: &str,
    entry: Result<(), HttpError>,
    res: Result<AccountAddress, HttpError>,
)
    requires
        call_ensures(require_auth, (headers, options), entry),
        call_ensures(mint_request, (headers, options, address), res),
    ensures
        entry is Err ==> res is Err && res->Err_0.0.number() == 401,
        entry is Ok ==> (res is Ok <==> address_of(address@) is Some),
        entry is Ok && res is Err ==> res->Err_0.0.number() == 400,
        res is Ok ==> Some(res->Ok_0.bytes@) == address_of(address@),
{
}

/// A listing takes what is there, under the type that was asked for, and goes on
/// to the next type; it passes over what is not there, and stops at a failure
/// with what it had.
pub proof fn law_listing_takes_what_is_there(
    scan: &mut ResourceScan,
    outcome: Result<Option<Json>, String>,
    ty: Option<&'static str>,
    res: Result<(), HttpError>,
)
    requires
        call_ensures(ResourceScan::next_type, (&*old(scan),), ty),
        ty is Some,
        call_ensures(ResourceScan::take, (scan, outcome), res),
    ensures
        res is Ok <==> outcome is Ok,
        outcome is Ok ==> final(scan)@.next == old(scan)@.next + 1,
        outcome is Ok && outcome->Ok_0 is Some ==> final(scan)@.found == old(scan)@.found.push(
            (ty->0@, outcome->Ok_0->0@),
        ),
        outcome is Ok && outcome->Ok_0 is None ==> final(scan)@.found == old(scan)@.found,
        outcome is Err ==> {
            &&& final(scan)@ == old(scan)@
            &&& res->Err_0.0.number() == 500
            &&& res->Err_0.1@ == "view_resource failed for "@ + ty->0@ + ": "@ + outcome->Err_0@
        },
{
}

/// A listing looks for seven types, each in its turn: the account, its coins, its
/// fungible store, metadata, object, packages and staking contracts.
pub proof fn law_listing_types(scan: &ResourceScan, ty: Option<&'static str>)
    requires
        call_ensures(ResourceScan::next_type, (scan,), ty),
    ensures
        scan@.next == 0 ==> ty is Some && ty->0@ == "0x1::account::Account"@,
        scan@.next == 1 ==> ty is Some && ty->0@
            == "0x1::coin::CoinStore<0x1::aptos_coin::AptosCoin>"@,
        scan@.next == 2 ==> ty is Some && ty->0@ == "0x1::fungible_asset::FungibleStore"@,
        scan@.next == 3 ==> ty is Some && ty->0@ == "0x1::fungible_asset::Metadata"@,
        scan@.next == 4 ==> ty is Some && ty->0@ == "0x1::object::ObjectCore"@,
        scan@.next == 5 ==> ty is Some && ty->0@ == "0x1::code::PackageRegistry"@,
        scan@.next == 6 ==> ty is Some && ty->0@ == "0x1::staking_contract::Store"@,
        scan@.next > 6 ==> ty is None,
{
}

/// The limits of the service: half a minute, two mebibytes, sixty-four requests.
pub proof fn law_limits()
    ensures
        2 * REQUEST_TIMEOUT_SECS == 60,
        MAX_BODY_BYTES == 0x20_0000,
        MAX_CONCURRENT_REQUESTS == 64,
{
}

/// A listing begins with the first type and nothing found, has a next type as
/// long as seven have not been looked at, and gives all that it found in order.
pub proof fn law_listing_begins_and_ends(
    fresh: ResourceScan,
    scan: &ResourceScan,
    ty: Option<&'static str>,
    ended: ResourceScan,
    found: Vec<ResourceResponse>,
)
    requires
        call_ensures(ResourceScan::new, (), fresh),
        call_ensures(ResourceScan::next_type, (scan,), ty),
        call_ensures(ResourceScan::into_resources, (ended,), found),
    ensures
        fresh@.next == 0,
        fresh@.found.len() == 0,
        ty is Some <==> scan@.next < 7,
        found@.len() == ended@.found.len(),
        forall|i: int|
            0 <= i < found@.len() ==> (#[trigger] found@[i]).ty@ == ended@.found[i].0
                && found@[i].data@ == ended@.found[i].1,
{
    assert forall|i: int| 0 <= i < found@.len() implies (#[trigger] found@[i]).ty@
        == ended@.found[i].0 && found@[i].data@ == ended@.found[i].1 by {
        assert(found@.map_values(|r: ResourceResponse| r@)[i] == found@[i]@);
    }
}

} // verus!
