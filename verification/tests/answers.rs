use axum::http::{HeaderMap, HeaderValue};
use movelite::address::AccountAddress;
use movelite::http::{ServerOptions, StatusCode};
use movelite::json::Json;
use movelite::server::{
    account_request, account_step, estimate_gas_price, get_account, get_account_resource,
    get_module, handle_layer_error, mint_request, module_bytes, simulate_transaction,
    trace_commits, trace_transaction, view_function, vm_panicked, AccountEvent, AccountLookup,
    AccountStep, ModuleFault, ResourceScan, MAX_BODY_BYTES, MAX_CONCURRENT_REQUESTS,
    REQUEST_TIMEOUT_SECS,
};
use movelite::trace::{Outcome, VMStatus};
use movelite::transaction::{SignedTransaction, TransactionPayload};

fn text(json: &Json, key: &str) -> String {
    json.get(key).and_then(|v| v.as_text()).unwrap().to_string()
}

fn object(fields: &[(&str, Json)]) -> Json {
    Json::Object(fields.iter().map(|(k, v)| (k.to_string(), v.clone())).collect())
}

fn one() -> AccountAddress {
    let mut bytes = [0u8; 32];
    bytes[31] = 1;
    AccountAddress::new(bytes)
}

#[test]
fn limits_are_those_of_a_local_tool() {
    assert_eq!(REQUEST_TIMEOUT_SECS, 30);
    assert_eq!(MAX_BODY_BYTES, 2_097_152);
    assert_eq!(MAX_CONCURRENT_REQUESTS, 64);
}

#[test]
fn failures_of_the_service_are_answered() {
    assert_eq!(
        handle_layer_error(true, "elapsed"),
        (
            StatusCode::REQUEST_TIMEOUT,
            "request timed out after 30s".to_string()
        )
    );
    assert_eq!(
        handle_layer_error(false, "down"),
        (
            StatusCode::INTERNAL_SERVER_ERROR,
            "service error: down".to_string()
        )
    );
    assert_eq!(
        vm_panicked("boom"),
        (
            StatusCode::INTERNAL_SERVER_ERROR,
            "VM task panicked: boom".to_string()
        )
    );
}

#[test]
fn gas_prices_are_fixed() {
    let price = estimate_gas_price();
    assert_eq!(price.get("gas_estimate"), Some(&Json::Number("100".to_string())));
    assert_eq!(
        price.get("deprioritized_gas_estimate"),
        Some(&Json::Number("100".to_string()))
    );
    assert_eq!(
        price.get("prioritized_gas_estimate"),
        Some(&Json::Number("150".to_string()))
    );
}

#[test]
fn an_account_is_looked_up_step_by_step() {
    assert!(matches!(
        account_step(AccountEvent::Viewed(Ok(None))),
        AccountStep::Ask
    ));
    assert!(matches!(
        account_step(AccountEvent::Viewed(Ok(Some(Json::Null)))),
        AccountStep::Done(Ok(AccountLookup::Found(Json::Null)))
    ));
    assert!(matches!(
        account_step(AccountEvent::Viewed(Err("x".to_string()))),
        AccountStep::Done(Err(_))
    ));
    assert!(matches!(
        account_step(AccountEvent::Asked(Ok(true))),
        AccountStep::Done(Ok(AccountLookup::Stateless))
    ));
    assert!(matches!(
        account_step(AccountEvent::Asked(Ok(false))),
        AccountStep::Done(Ok(AccountLookup::NotFound))
    ));
    assert!(matches!(
        account_step(AccountEvent::Asked(Err("x".to_string()))),
        AccountStep::Done(Err(_))
    ));
}

#[test]
fn an_account_is_answered_from_its_resource() {
    let full = object(&[
        ("sequence_number", Json::Text("8".to_string())),
        ("authentication_key", Json::Text("0xabc".to_string())),
    ]);
    let got = get_account("0x1", &one(), Ok(AccountLookup::Found(full)), 0).unwrap();
    assert_eq!((got.sequence_number.as_str(), got.authentication_key.as_str()), ("8", "0xabc"));

    let odd = object(&[("sequence_number", Json::Number("8".to_string()))]);
    let got = get_account("0x1", &one(), Ok(AccountLookup::Found(odd)), 0).unwrap();
    assert_eq!((got.sequence_number.as_str(), got.authentication_key.as_str()), ("0", "0x0"));

    let got = get_account("0x1", &one(), Ok(AccountLookup::Found(Json::Null)), 0).unwrap();
    assert_eq!(got.sequence_number, "0");
}

#[test]
fn an_account_without_a_resource_has_its_address_for_a_key() {
    let got = get_account("0x1", &one(), Ok(AccountLookup::Stateless), 0).unwrap();
    assert_eq!(got.sequence_number, "0");
    assert_eq!(got.authentication_key, format!("0x{}1", "0".repeat(63)));
}

#[test]
fn an_unknown_account_is_not_found() {
    let (status, body) = get_account("0x01", &one(), Ok(AccountLookup::NotFound), 12).unwrap_err();
    assert_eq!(status, StatusCode::NOT_FOUND);
    assert_eq!(text(&body, "error_code"), "account_not_found");
    assert_eq!(
        text(&body, "message"),
        "Account not found by Address(0x01) and Ledger version(12)"
    );
    let (status, body) = get_account("0x01", &one(), Err("disk".to_string()), 12).unwrap_err();
    assert_eq!(status, StatusCode::INTERNAL_SERVER_ERROR);
    assert_eq!(text(&body, "message"), "view_resource error for 0x01: disk");
    let (status, body) = account_request("q").unwrap_err();
    assert_eq!(status, StatusCode::BAD_REQUEST);
    assert_eq!(text(&body, "error_code"), "invalid_input");
    assert_eq!(account_request("0x1").unwrap(), one());
}

#[test]
fn a_listing_asks_for_every_known_type() {
    let mut scan = ResourceScan::new();
    let mut asked = Vec::new();
    while let Some(ty) = scan.next_type() {
        asked.push(ty);
        scan.take(Ok(None)).unwrap();
    }
    assert_eq!(
        asked,
        vec![
            "0x1::account::Account",
            "0x1::coin::CoinStore<0x1::aptos_coin::AptosCoin>",
            "0x1::fungible_asset::FungibleStore",
            "0x1::fungible_asset::Metadata",
            "0x1::object::ObjectCore",
            "0x1::code::PackageRegistry",
            "0x1::staking_contract::Store",
        ]
    );
    assert!(scan.into_resources().is_empty());
}

#[test]
fn a_listing_keeps_what_is_there_in_order() {
    let mut scan = ResourceScan::new();
    let mut at = 0;
    while scan.next_type().is_some() {
        let outcome = if at % 3 == 0 {
            Some(Json::Number(at.to_string()))
        } else {
            None
        };
        scan.take(Ok(outcome)).unwrap();
        at += 1;
    }
    let found: Vec<_> = scan.into_resources().into_iter().map(|r| (r.ty, r.data)).collect();
    assert_eq!(
        found,
        vec![
            ("0x1::account::Account".to_string(), Json::Number("0".to_string())),
            ("0x1::fungible_asset::Metadata".to_string(), Json::Number("3".to_string())),
            ("0x1::staking_contract::Store".to_string(), Json::Number("6".to_string())),
        ]
    );
}

#[test]
fn a_listing_that_fails_is_no_listing() {
    let mut scan = ResourceScan::new();
    scan.take(Ok(Some(Json::Null))).unwrap();
    assert_eq!(
        scan.take(Err("disk".to_string())).unwrap_err(),
        (
            StatusCode::INTERNAL_SERVER_ERROR,
            "view_resource failed for 0x1::coin::CoinStore<0x1::aptos_coin::AptosCoin>: disk"
                .to_string()
        )
    );
}

#[test]
fn a_resource_is_found_or_not() {
    let found = get_account_resource("T".to_string(), Ok(Some(Json::Bool(true)))).unwrap();
    assert_eq!((found.ty.as_str(), found.data), ("T", Json::Bool(true)));
    assert_eq!(
        get_account_resource("T".to_string(), Ok(None)).unwrap_err(),
        (StatusCode::NOT_FOUND, "Resource not found: T".to_string())
    );
    assert_eq!(
        get_account_resource("T".to_string(), Err("disk".to_string())).unwrap_err(),
        (StatusCode::INTERNAL_SERVER_ERROR, "disk".to_string())
    );
}

#[test]
fn a_module_is_found_or_not() {
    assert_eq!(module_bytes("0x1", "coin", Ok(Some(vec![1, 2]))).unwrap(), vec![1, 2]);
    assert_eq!(
        module_bytes("0x1", "coin", Ok(None)).unwrap_err(),
        (StatusCode::NOT_FOUND, "Module not found: 0x1::coin".to_string())
    );
    assert_eq!(
        module_bytes("0x1", "coin", Err("disk".to_string())).unwrap_err(),
        (StatusCode::INTERNAL_SERVER_ERROR, "disk".to_string())
    );
    assert_eq!(get_module(Ok(Json::Null)).unwrap(), Json::Null);
    assert_eq!(
        get_module(Err(ModuleFault::Parse("short".to_string()))).unwrap_err(),
        (
            StatusCode::INTERNAL_SERVER_ERROR,
            "ABI parse error: short".to_string()
        )
    );
    assert_eq!(
        get_module(Err(ModuleFault::Encode("deep".to_string()))).unwrap_err().1,
        "deep"
    );
}

#[test]
fn a_view_that_fails_is_the_callers_fault() {
    assert_eq!(view_function(Ok(vec![Json::Null])).unwrap(), vec![Json::Null]);
    assert_eq!(
        view_function(Err("abort".to_string())).unwrap_err(),
        (StatusCode::BAD_REQUEST, "abort".to_string())
    );
}

#[test]
fn simulations_show_the_printed_status() {
    let txn = SignedTransaction {
        hash: vec![0x0a],
        sender: one(),
        sequence_number: 0,
        max_gas_amount: 0,
        gas_unit_price: 0,
        expiration_timestamp_secs: 0,
        payload: TransactionPayload::Other,
    };
    let status = VMStatus {
        outcome: Outcome::Executed,
        debug: "EXECUTED".to_string(),
    };
    match simulate_transaction(&txn, Ok((status, 21))).unwrap() {
        Json::Array(list) => {
            assert_eq!(list.len(), 1);
            assert_eq!(text(&list[0], "hash"), "0x0a");
            assert_eq!(text(&list[0], "vm_status"), "EXECUTED");
            assert_eq!(list[0].get("success"), Some(&Json::Bool(true)));
            assert_eq!(text(&list[0], "gas_used"), "21");
        }
        other => panic!("{:?}", other),
    }
    let (status, body) = simulate_transaction(&txn, Err("no".to_string())).unwrap_err();
    assert_eq!(status, StatusCode::INTERNAL_SERVER_ERROR);
    assert_eq!(text(&body, "error_code"), "internal_error");
}

#[test]
fn traces_commit_only_when_asked() {
    assert!(!trace_commits(None));
    assert!(!trace_commits(Some(false)));
    assert!(trace_commits(Some(true)));
    assert_eq!(trace_transaction(Ok(Json::Null)).unwrap(), Json::Null);
    let (status, body) = trace_transaction(Err("no".to_string())).unwrap_err();
    assert_eq!(status, StatusCode::INTERNAL_SERVER_ERROR);
    assert_eq!(text(&body, "message"), "no");
}

#[test]
fn funding_asks_for_the_token_first() {
    let options = ServerOptions {
        auth_token: Some("t".to_string()),
        strict_local_auth: false,
    };
    let mut headers = HeaderMap::new();
    assert_eq!(
        mint_request(&headers, &options, "q").unwrap_err(),
        (
            StatusCode::UNAUTHORIZED,
            "missing or invalid x-movelite-token".to_string()
        )
    );
    headers.insert("x-movelite-token", HeaderValue::from_static("t"));
    assert_eq!(
        mint_request(&headers, &options, "q").unwrap_err().0,
        StatusCode::BAD_REQUEST
    );
    assert_eq!(mint_request(&headers, &options, "0x1").unwrap(), one());
}
