//! The answers of the node: what each request is answered once the session has
//! been asked.
use crate::address::{address_of, unreadable_address, AccountAddress};
use crate::encoding::hex_text;
use crate::http::{authorized, error_body, json_error, require_auth, to_json_error, ApiError,
    HttpError, ServerOptions, StatusCode};
use crate::json::{field_views, lemma_object_view, text_field, Json, JsonView};
use crate::ledger::{build_ledger_info, ledger_view, LedgerInfoResponse};
use crate::request::parse_address;
use crate::session_wrapper::SessionWrapper;
use crate::text::{decimal, decimal_text, join2, join3, join4};
use crate::trace::VMStatus;
use crate::transaction::{pending_record, pending_view, simulated_record, simulated_view,
    SignedTransaction};
use axum::http::HeaderMap;
use vstd::prelude::*;

verus! {

/// How long a request may take, in seconds.
pub const REQUEST_TIMEOUT_SECS: u64 = 30;

/// How long a body may be.
pub const MAX_BODY_BYTES: usize = 2 * 1024 * 1024;

/// How many requests are served at a time.
pub const MAX_CONCURRENT_REQUESTS: usize = 64;

/// The answer to a request that failed before it reached its handler.
pub fn handle_layer_error(timed_out: bool, error: &str) -> (res: HttpError)
    ensures
        timed_out ==> res.0 == StatusCode::REQUEST_TIMEOUT && res.1@
            == "request timed out after "@ + decimal(REQUEST_TIMEOUT_SECS as nat) + "s"@,
        !timed_out ==> res.0 == StatusCode::INTERNAL_SERVER_ERROR && res.1@ == "service error: "@
            + error@,
{
    if timed_out {
        let seconds = decimal_text(REQUEST_TIMEOUT_SECS as u128);
        (
            StatusCode::REQUEST_TIMEOUT,
            join3("request timed out after ", seconds.as_str(), "s"),
        )
    } else {
        (StatusCode::INTERNAL_SERVER_ERROR, join2("service error: ", error))
    }
}

/// The answer to a request whose work in the virtual machine panicked.
pub fn vm_panicked(error: &str) -> (res: HttpError)
    ensures
        res.0 == StatusCode::INTERNAL_SERVER_ERROR,
        res.1@ == "VM task panicked: "@ + error@,
{
    (StatusCode::INTERNAL_SERVER_ERROR, join2("VM task panicked: ", error))
}

/// The answer to a failure inside the node, as JSON.
pub fn internal_error(error: String) -> (res: ApiError)
    ensures
        res.0 == StatusCode::INTERNAL_SERVER_ERROR,
        res.1@ == error_body("internal_error"@, error@),
{
    to_json_error((StatusCode::INTERNAL_SERVER_ERROR, error))
}

/// The state of a session's ledger; `micros` is the time since the epoch, where
/// the clock is not before it.
pub fn ledger_info<S>(session: &SessionWrapper<S>, micros: Option<u128>) -> (res: LedgerInfoResponse)
    ensures
        res@ == ledger_view(session@.chain_id, session@.ops_count, micros),
{
    build_ledger_info(session.get_chain_id(), session.get_ops_count(), micros)
}

/// The gas prices that the node proposes.
pub open spec fn gas_price_view() -> JsonView {
    JsonView::Object(
        seq![
            ("gas_estimate"@, JsonView::Number("100"@)),
            ("deprioritized_gas_estimate"@, JsonView::Number("100"@)),
            ("prioritized_gas_estimate"@, JsonView::Number("150"@)),
        ],
    )
}

/// The gas prices that the node proposes.
pub fn estimate_gas_price() -> (res: Json)
    ensures
        res@ == gas_price_view(),
{
    broadcast use lemma_object_view;

    let mut fields: Vec<(String, Json)> = Vec::new();
    fields.push(("gas_estimate".to_owned(), Json::Number("100".to_owned())));
    fields.push(("deprioritized_gas_estimate".to_owned(), Json::Number("100".to_owned())));
    fields.push(("prioritized_gas_estimate".to_owned(), Json::Number("150".to_owned())));
    assert(field_views(fields@) =~= gas_price_view()->Object_0);
    Json::Object(fields)
}

/// What is known of an account.
#[derive(Debug)]
pub enum AccountLookup {
    /// Its resource.
    Found(Json),
    /// It has none, but the network takes every address for an account.
    Stateless,
    /// It has none.
    NotFound,
}

/// What the session said while an account was looked up.
#[derive(Debug)]
pub enum AccountEvent {
    /// The account's resource, where there is one.
    Viewed(Result<Option<Json>, String>),
    /// Whether the network takes every address for an account.
    Asked(Result<bool, String>),
}

/// What is done next to look up an account.
#[derive(Debug)]
pub enum AccountStep {
    /// Ask whether the network takes every address for an account.
    Ask,
    /// The account is looked up, or that failed.
    Done(Result<AccountLookup, String>),
}

/// The next step in looking up an account: its resource decides where there is
/// one, else the network does.
pub fn account_step(event: AccountEvent) -> (step: AccountStep)
    ensures
        step == match event {
            AccountEvent::Viewed(Ok(Some(value))) => AccountStep::Done(
                Ok(AccountLookup::Found(value)),
            ),
            AccountEvent::Viewed(Ok(None)) => AccountStep::Ask,
            AccountEvent::Viewed(Err(e)) => AccountStep::Done(Err(e)),
            AccountEvent::Asked(Ok(enabled)) => AccountStep::Done(
                Ok(
                    if enabled {
                        AccountLookup::Stateless
                    } else {
                        AccountLookup::NotFound
                    },
                ),
            ),
            AccountEvent::Asked(Err(e)) => AccountStep::Done(Err(e)),
        },
{
    match event {
        AccountEvent::Viewed(viewed) => match viewed {
            Ok(resource) => match resource {
                Some(value) => AccountStep::Done(Ok(AccountLookup::Found(value))),
                None => AccountStep::Ask,
            },
            Err(e) => AccountStep::Done(Err(e)),
        },
        AccountEvent::Asked(asked) => match asked {
            Ok(enabled) => AccountStep::Done(
                Ok(
                    if enabled {
                        AccountLookup::Stateless
                    } else {
                        AccountLookup::NotFound
                    },
                ),
            ),
            Err(e) => AccountStep::Done(Err(e)),
        },
    }
}

/// The answer on an account.
#[derive(Debug, PartialEq, Eq)]
pub struct AccountDataResponse {
    pub sequence_number: String,
    pub authentication_key: String,
}

/// Reads which account a path asks for.
pub fn account_request(address: &str) -> (res: Result<AccountAddress, ApiError>)
    ensures
        match res {
            Ok(a) => address_of(address@) == Some(a@),
            Err(e) => {
                &&& address_of(address@) is None
                &&& e.0 == StatusCode::BAD_REQUEST
                &&& e.1@ == error_body(
                    "invalid_input"@,
                    "Invalid address: "@ + unreadable_address(),
                )
            },
        },
{
    match parse_address(address) {
        Ok(a) => Ok(a),
        Err(e) => Err(to_json_error(e)),
    }
}

/// The text under a key of a resource, or another where there is none.
pub open spec fn text_or(resource: JsonView, key: Seq<char>, other: Seq<char>) -> Seq<char> {
    match resource.get(key) {
        Some(value) => match value.as_text() {
            Some(text) => text,
            None => other,
        },
        None => other,
    }
}

/// The text under a key of a resource, or another where there is none.
fn text_at(resource: &Json, key: &str, other: &str) -> (res: String)
    ensures
        res@ == text_or(resource@, key@, other@),
{
    match resource.get(key) {
        Some(value) => match value.as_text() {
            Some(text) => text.to_owned(),
            None => other.to_owned(),
        },
        None => other.to_owned(),
    }
}

/// The answer on an account: `address` is the text that was asked for, `account`
/// what it stands for. The key of an account without a resource is its address.
pub fn get_account(
    address: &str,
    account: &AccountAddress,
    lookup: Result<AccountLookup, String>,
    version: u64,
) -> (res: Result<AccountDataResponse, ApiError>)
    ensures
        match lookup {
            Ok(AccountLookup::Found(resource)) => {
                &&& res is Ok
                &&& res->Ok_0.sequence_number@ == text_or(resource@, "sequence_number"@, "0"@)
                &&& res->Ok_0.authentication_key@ == text_or(
                    resource@,
                    "authentication_key"@,
                    "0x0"@,
                )
            },
            Ok(AccountLookup::Stateless) => {
                &&& res is Ok
                &&& res->Ok_0.sequence_number@ == "0"@
                &&& res->Ok_0.authentication_key@ == "0x"@ + hex_text(account@)
            },
            Ok(AccountLookup::NotFound) => {
                &&& res is Err
                &&& res->Err_0.0 == StatusCode::NOT_FOUND
                &&& res->Err_0.1@ == error_body(
                    "account_not_found"@,
                    "Account not found by Address("@ + address@ + ") and Ledger version("@
                        + decimal(version as nat) + ")"@,
                )
            },
            Err(e) => {
                &&& res is Err
                &&& res->Err_0.0 == StatusCode::INTERNAL_SERVER_ERROR
                &&& res->Err_0.1@ == error_body(
                    "internal_error"@,
                    "view_resource error for "@ + address@ + ": "@ + e@,
                )
            },
        },
{
    match lookup {
        Ok(AccountLookup::Found(resource)) => Ok(
            AccountDataResponse {
                sequence_number: text_at(&resource, "sequence_number", "0"),
                authentication_key: text_at(&resource, "authentication_key", "0x0"),
            },
        ),
        Ok(AccountLookup::Stateless) => Ok(
            AccountDataResponse {
                sequence_number: "0".to_owned(),
                authentication_key: account.to_long_text(),
            },
        ),
        Ok(AccountLookup::NotFound) => {
            let shown = decimal_text(version as u128);
            let head = join3("Account not found by Address(", address, ") and Ledger version(");
            let message = join3(head.as_str(), shown.as_str(), ")");
            Err(json_error(StatusCode::NOT_FOUND, "account_not_found", message.as_str()))
        },
        Err(e) => Err(
            internal_error(join4("view_resource error for ", address, ": ", e.as_str())),
        ),
    }
}

/// The answer on a resource.
#[derive(Debug, PartialEq, Eq)]
pub struct ResourceResponse {
    pub ty: String,
    pub data: Json,
}

impl View for ResourceResponse {
    type V = (Seq<char>, JsonView);

    open spec fn view(&self) -> (Seq<char>, JsonView) {
        (self.ty@, self.data@)
    }
}

/// The resource types that a listing of an account looks for.
pub open spec fn known_types() -> Seq<Seq<char>> {
    seq![
        "0x1::account::Account"@,
        "0x1::coin::CoinStore<0x1::aptos_coin::AptosCoin>"@,
        "0x1::fungible_asset::FungibleStore"@,
        "0x1::fungible_asset::Metadata"@,
        "0x1::object::ObjectCore"@,
        "0x1::code::PackageRegistry"@,
        "0x1::staking_contract::Store"@,
    ]
}

/// One of the resource types that a listing of an account looks for.
fn known_type(at: usize) -> (res: &'static str)
    requires
        at < known_types().len(),
    ensures
        res@ == known_types()[at as int],
{
    match at {
        0 => "0x1::account::Account",
        1 => "0x1::coin::CoinStore<0x1::aptos_coin::AptosCoin>",
        2 => "0x1::fungible_asset::FungibleStore",
        3 => "0x1::fungible_asset::Metadata",
        4 => "0x1::object::ObjectCore",
        5 => "0x1::code::PackageRegistry",
        _ => "0x1::staking_contract::Store",
    }
}

/// A listing of an account's resources that is under way.
#[derive(Debug)]
pub struct ResourceScan {
    next: usize,
    found: Vec<ResourceResponse>,
}

/// The mathematical counterpart of [`ResourceScan`].
pub struct ScanView {
    /// How many of the known types have been looked at.
    pub next: nat,
    /// What was found.
    pub found: Seq<(Seq<char>, JsonView)>,
}

impl View for ResourceScan {
    type V = ScanView;

    closed spec fn view(&self) -> ScanView {
        ScanView {
            next: self.next as nat,
            found: self.found@.map_values(|r: ResourceResponse| r@),
        }
    }
}

impl ScanView {
    /// A listing that has not begun.
    pub open spec fn begun() -> ScanView {
        ScanView { next: 0, found: Seq::empty() }
    }

    /// The listing after the next type was looked at, where that did not fail.
    pub open spec fn looked(self, resource: Option<JsonView>) -> ScanView {
        ScanView {
            next: self.next + 1,
            found: match resource {
                Some(data) => self.found.push((known_types()[self.next as int], data)),
                None => self.found,
            },
        }
    }
}

impl ResourceScan {
    /// A listing that has not begun.
    pub fn new() -> (res: Self)
        ensures
            res@ == ScanView::begun(),
    {
        let res = ResourceScan { next: 0, found: Vec::new() };
        assert(res@.found =~= Seq::empty());
        res
    }

    /// The type to look at next, where one is left.
    pub fn next_type(&self) -> (res: Option<&'static str>)
        ensures
            match res {
                Some(ty) => self@.next < known_types().len() && ty@ == known_types()[self@.next as int],
                None => self@.next >= known_types().len(),
            },
    {
        if self.next < 7 {
            Some(known_type(self.next))
        } else {
            None
        }
    }

    /// Takes what the session said of the type that was looked at. A resource
    /// that is not there is passed over; a failure ends the listing, so that no
    /// part of it is taken for the whole.
    pub fn take(&mut self, outcome: Result<Option<Json>, String>) -> (res: Result<(), HttpError>)
        requires
            old(self)@.next < known_types().len(),
        ensures
            match outcome {
                Ok(resource) => {
                    &&& res is Ok
                    &&& final(self)@ == old(self)@.looked(
                        match resource {
                            Some(data) => Some(data@),
                            None => None,
                        },
                    )
                },
                Err(e) => {
                    &&& res is Err
                    &&& res->Err_0.0 == StatusCode::INTERNAL_SERVER_ERROR
                    &&& res->Err_0.1@ == "view_resource failed for "@
                        + known_types()[old(self)@.next as int] + ": "@ + e@
                    &&& final(self)@ == old(self)@
                },
            },
    {
        let ghost before = self@;
        let ty = known_type(self.next);
        match outcome {
            Ok(resource) => {
                if let Some(data) = resource {
                    self.found.push(ResourceResponse { ty: ty.to_owned(), data });
                    assert(self@.found =~= before.found.push((ty@, data@)));
                }
                self.next += 1;
                Ok(())
            },
            Err(e) => Err(
                (
                    StatusCode::INTERNAL_SERVER_ERROR,
                    join4("view_resource failed for ", ty, ": ", e.as_str()),
                ),
            ),
        }
    }

    /// What was found.
    pub fn into_resources(self) -> (res: Vec<ResourceResponse>)
        ensures
            res@.map_values(|r: ResourceResponse| r@) == self@.found,
    {
        self.found
    }
}

/// The listing after the first types were looked at.
pub open spec fn scanned(resources: Seq<Option<JsonView>>) -> ScanView
    decreases resources.len(),
{
    if resources.len() == 0 {
        ScanView::begun()
    } else {
        scanned(resources.drop_last()).looked(resources.last())
    }
}

/// Where an item of a listing comes from: the type's place among the known ones.
pub open spec fn listed_at(
    resources: Seq<Option<JsonView>>,
    item: (Seq<char>, JsonView),
    at: int,
) -> bool {
    0 <= at < resources.len() && at < known_types().len() && item.0 == known_types()[at]
        && resources[at] == Some(item.1)
}

/// A listing holds every resource that is there, under its type, and nothing
/// else; and they stand in the order of the known types.
pub proof fn law_listing_is_complete(resources: Seq<Option<JsonView>>)
    requires
        resources.len() <= known_types().len(),
    ensures
        scanned(resources).next == resources.len(),
        forall|at: int|
            0 <= at < resources.len() && (#[trigger] resources[at]) is Some ==> scanned(
                resources,
            ).found.contains((known_types()[at], resources[at]->0)),
        exists|places: Seq<int>|
            #![trigger places.len()]
            places.len() == scanned(resources).found.len() && (forall|k: int|
                0 <= k < places.len() ==> listed_at(
                    resources,
                    #[trigger] scanned(resources).found[k],
                    places[k],
                )) && (forall|j: int, k: int| 0 <= j < k < places.len() ==> places[j] < places[k]),
    decreases resources.len(),
{
    if resources.len() == 0 {
        let places = Seq::<int>::empty();
        assert(places.len() == scanned(resources).found.len());
    } else {
        let rest = resources.drop_last();
        let last = resources.len() - 1;
        law_listing_is_complete(rest);
        let before = scanned(rest).found;
        let after = scanned(resources).found;
        assert forall|at: int|
            0 <= at < resources.len() && (#[trigger] resources[at]) is Some implies after.contains(
            (known_types()[at], resources[at]->0),
        ) by {
            let item = (known_types()[at], resources[at]->0);
            if at < last {
                assert(rest[at] is Some);
                let k = choose|k: int| 0 <= k < before.len() && before[k] == item;
                assert(after[k] == item);
            } else {
                assert(after[before.len() as int] == item);
            }
        }
        let old_places = choose|places: Seq<int>|
            #![trigger places.len()]
            places.len() == before.len() && (forall|k: int|
                0 <= k < places.len() ==> listed_at(rest, #[trigger] before[k], places[k])) && (forall|
                j: int,
                k: int,
            |
                0 <= j < k < places.len() ==> places[j] < places[k]);
        let places = if resources[last] is Some {
            old_places.push(last)
        } else {
            old_places
        };
        assert(places.len() == after.len());
        assert forall|k: int| 0 <= k < places.len() implies listed_at(
            resources,
            #[trigger] after[k],
            places[k],
        ) by {
            if k < before.len() {
                assert(listed_at(rest, before[k], old_places[k]));
            }
        }
        assert forall|j: int, k: int| 0 <= j < k < places.len() implies places[j] < places[k] by {
            assert(listed_at(rest, before[j], old_places[j]));
        }
    }
}

/// The answer on one resource.
pub fn get_account_resource(ty: String, lookup: Result<Option<Json>, String>) -> (res: Result<
    ResourceResponse,
    HttpError,
>)
    ensures
        match lookup {
            Ok(Some(data)) => res is Ok && res->Ok_0@ == (ty@, data@),
            Ok(None) => res is Err && res->Err_0.0 == StatusCode::NOT_FOUND && res->Err_0.1@
                == "Resource not found: "@ + ty@,
            Err(e) => res is Err && res->Err_0.0 == StatusCode::INTERNAL_SERVER_ERROR
                && res->Err_0.1@ == e@,
        },
{
    match lookup {
        Ok(Some(data)) => Ok(ResourceResponse { ty, data }),
        Ok(None) => Err((StatusCode::NOT_FOUND, join2("Resource not found: ", ty.as_str()))),
        Err(e) => Err((StatusCode::INTERNAL_SERVER_ERROR, e)),
    }
}

/// The bytes of the module that a path asks for.
pub fn module_bytes(
    address: &str,
    module_name: &str,
    bytes: Result<Option<Vec<u8>>, String>,
) -> (res: Result<Vec<u8>, HttpError>)
    ensures
        match bytes {
            Ok(Some(code)) => res == Ok::<Vec<u8>, HttpError>(code),
            Ok(None) => res is Err && res->Err_0.0 == StatusCode::NOT_FOUND && res->Err_0.1@
                == "Module not found: "@ + address@ + "::"@ + module_name@,
            Err(e) => res is Err && res->Err_0.0 == StatusCode::INTERNAL_SERVER_ERROR
                && res->Err_0.1@ == e@,
        },
{
    match bytes {
        Ok(Some(code)) => Ok(code),
        Ok(None) => Err(
            (StatusCode::NOT_FOUND, join4("Module not found: ", address, "::", module_name)),
        ),
        Err(e) => Err((StatusCode::INTERNAL_SERVER_ERROR, e)),
    }
}

/// Why the description of a module cannot be given.
#[derive(Debug)]
pub enum ModuleFault {
    /// Its bytes cannot be read.
    Parse(String),
    /// The description cannot be encoded.
    Encode(String),
}

/// The answer on a module.
pub fn get_module(described: Result<Json, ModuleFault>) -> (res: Result<Json, HttpError>)
    ensures
        match described {
            Ok(description) => res == Ok::<Json, HttpError>(description),
            Err(ModuleFault::Parse(e)) => res is Err && res->Err_0.0
                == StatusCode::INTERNAL_SERVER_ERROR && res->Err_0.1@ == "ABI parse error: "@ + e@,
            Err(ModuleFault::Encode(e)) => res is Err && res->Err_0.0
                == StatusCode::INTERNAL_SERVER_ERROR && res->Err_0.1@ == e@,
        },
{
    match described {
        Ok(description) => Ok(description),
        Err(ModuleFault::Parse(e)) => Err(
            (StatusCode::INTERNAL_SERVER_ERROR, join2("ABI parse error: ", e.as_str())),
        ),
        Err(ModuleFault::Encode(e)) => Err((StatusCode::INTERNAL_SERVER_ERROR, e)),
    }
}

/// The answer of a view function: a call that fails is the caller's fault.
pub fn view_function(outcome: Result<Vec<Json>, String>) -> (res: Result<Vec<Json>, HttpError>)
    ensures
        match outcome {
            Ok(values) => res == Ok::<Vec<Json>, HttpError>(values),
            Err(e) => res == Err::<Vec<Json>, HttpError>((StatusCode::BAD_REQUEST, e)),
        },
{
    match outcome {
        Ok(values) => Ok(values),
        Err(e) => Err((StatusCode::BAD_REQUEST, e)),
    }
}

/// The answer to a submission, and its books; `outcome` is the status and the
/// gas of the execution. An execution that aborted is committed and recorded
/// like one that did not; one that could not take place leaves no mark.
pub fn submit_transaction<S>(
    session: &mut SessionWrapper<S>,
    txn: &SignedTransaction,
    outcome: Result<(VMStatus, u64), String>,
) -> (res: Result<Json, ApiError>)
    requires
        old(session)@.valid(),
        outcome is Ok ==> old(session)@.ops_count < u64::MAX,
    ensures
        match outcome {
            Ok((status, gas_used)) => {
                &&& res is Ok
                &&& res->Ok_0@ == pending_view(*txn)
                &&& final(session)@ == old(session)@.committed(
                    *txn,
                    txn.shown_hash(),
                    status.succeeded(),
                    status.report(),
                    gas_used,
                )
            },
            Err(e) => {
                &&& res is Err
                &&& res->Err_0.0 == StatusCode::INTERNAL_SERVER_ERROR
                &&& res->Err_0.1@ == error_body("internal_error"@, e@)
                &&& final(session)@ == old(session)@
            },
        },
        final(session)@.valid(),
        final(session).inner_session() == old(session).inner_session(),
        final(session).path() == old(session).path(),
{
    match outcome {
        Ok((status, gas_used)) => {
            session.commit_submitted(txn, &status, gas_used);
            Ok(pending_record(txn))
        },
        Err(e) => Err(internal_error(e)),
    }
}

/// The answer to a simulation.
pub fn simulate_transaction(txn: &SignedTransaction, outcome: Result<(VMStatus, u64), String>) -> (res:
    Result<Json, ApiError>)
    ensures
        match outcome {
            Ok((status, gas_used)) => res is Ok && res->Ok_0@ == simulated_view(
                *txn,
                status,
                gas_used,
            ),
            Err(e) => res is Err && res->Err_0.0 == StatusCode::INTERNAL_SERVER_ERROR
                && res->Err_0.1@ == error_body("internal_error"@, e@),
        },
{
    match outcome {
        Ok((status, gas_used)) => Ok(simulated_record(txn, &status, gas_used)),
        Err(e) => Err(internal_error(e)),
    }
}

/// Whether a trace commits: only where the request says so.
pub fn trace_commits(commit: Option<bool>) -> (res: bool)
    ensures
        res == (commit == Some(true)),
{
    match commit {
        Some(value) => value,
        None => false,
    }
}

/// The answer to a trace; `encoded` is the encoded trace.
pub fn trace_transaction(encoded: Result<Json, String>) -> (res: Result<Json, ApiError>)
    ensures
        match encoded {
            Ok(trace) => res == Ok::<Json, ApiError>(trace),
            Err(e) => res is Err && res->Err_0.0 == StatusCode::INTERNAL_SERVER_ERROR
                && res->Err_0.1@ == error_body("internal_error"@, e@),
        },
{
    match encoded {
        Ok(trace) => Ok(trace),
        Err(e) => Err(internal_error(e)),
    }
}

/// The answer on a transaction: its record.
pub fn get_transaction_by_hash<S>(session: &SessionWrapper<S>, hash: &str) -> (res: Result<
    Json,
    HttpError,
>)
    ensures
        match res {
            Ok(record) => session@.records.contains_key(hash@) && record@
                == session@.records[hash@],
            Err(e) => !session@.records.contains_key(hash@) && e.0 == StatusCode::NOT_FOUND && e.1@
                == "Transaction not found: "@ + hash@,
        },
{
    match session.get_transaction(hash) {
        Some(record) => Ok(record),
        None => Err((StatusCode::NOT_FOUND, join2("Transaction not found: ", hash))),
    }
}

/// Reads which account is to be funded. The token is looked at first.
pub fn mint_request(headers: &HeaderMap, options: &ServerOptions, address: &str) -> (res: Result<
    AccountAddress,
    HttpError,
>)
    ensures
        match res {
            Ok(a) => authorized(*headers, *options) && address_of(address@) == Some(a@),
            Err(e) => if !authorized(*headers, *options) {
                e.0 == StatusCode::UNAUTHORIZED && e.1@ == "missing or invalid x-movelite-token"@
            } else {
                &&& address_of(address@) is None
                &&& e.0 == StatusCode::BAD_REQUEST
                &&& e.1@ == "Invalid address: "@ + unreadable_address()
            },
        },
{
    match require_auth(headers, options) {
        Ok(()) => parse_address(address),
        Err(e) => Err(e),
    }
}

/// The answer to a funding.
pub open spec fn minted_view(address: Seq<char>, amount: u64) -> JsonView {
    JsonView::Object(
        seq![
            ("status"@, JsonView::Text("ok"@)),
            ("address"@, JsonView::Text(address)),
            ("amount"@, JsonView::Number(decimal(amount as nat))),
        ],
    )
}

/// The answer to a funding, and its books: a funding is an operation without a
/// record, and one that failed leaves no mark.
pub fn mint<S>(
    session: &mut SessionWrapper<S>,
    address: &str,
    amount: u64,
    outcome: Result<(), String>,
) -> (res: Result<Json, HttpError>)
    requires
        outcome is Ok ==> old(session)@.ops_count < u64::MAX,
    ensures
        match outcome {
            Ok(()) => {
                &&& res is Ok
                &&& res->Ok_0@ == minted_view(address@, amount)
                &&& final(session)@ == old(session)@.bumped()
            },
            Err(e) => {
                &&& res == Err::<Json, HttpError>((StatusCode::INTERNAL_SERVER_ERROR, e))
                &&& final(session)@ == old(session)@
            },
        },
        final(session).inner_session() == old(session).inner_session(),
        final(session).path() == old(session).path(),
{
    broadcast use lemma_object_view;

    match outcome {
        Ok(()) => {
            session.increment_ops();
            let mut fields: Vec<(String, Json)> = Vec::new();
            fields.push(text_field("status", "ok"));
            fields.push(text_field("address", address));
            fields.push(("amount".to_owned(), Json::Number(decimal_text(amount as u128))));
            assert(field_views(fields@) =~= minted_view(address@, amount)->Object_0);
            Ok(Json::Object(fields))
        },
        Err(e) => Err((StatusCode::INTERNAL_SERVER_ERROR, e)),
    }
}

} // verus!
