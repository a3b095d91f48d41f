use axum::http::{HeaderMap, HeaderName, HeaderValue};
use movelite::http::{
    has_room, json_error, read_header, reject_bcs_accept, require_auth, require_bcs_content_type, set_headers,
    to_json_error, ServerOptions, StatusCode,
};
use movelite::json::Json;
use movelite::ledger::{build_ledger_info, inject_ledger_headers};
use movelite::request::{
    check_bcs_headers, check_commit, check_submit, simulate_request, submit_request, trace_request,
    view_is_bcs,
};

fn headers(pairs: &[(&str, &str)]) -> HeaderMap {
    let mut map = HeaderMap::new();
    for (k, v) in pairs {
        map.insert(
            HeaderName::from_bytes(k.as_bytes()).unwrap(),
            HeaderValue::from_str(v).unwrap(),
        );
    }
    map
}

fn options(token: Option<&str>, strict: bool) -> ServerOptions {
    ServerOptions {
        auth_token: token.map(|t| t.to_string()),
        strict_local_auth: strict,
    }
}

fn text(json: &Json, key: &str) -> String {
    json.get(key).and_then(|v| v.as_text()).unwrap().to_string()
}

#[test]
fn content_type_sdk_bcs_passes() {
    let h = headers(&[(
        "content-type",
        "application/x.aptos.signed_transaction+bcs",
    )]);
    assert!(require_bcs_content_type(&h).is_ok());
}

#[test]
fn content_type_missing_passes() {
    assert!(require_bcs_content_type(&HeaderMap::new()).is_ok());
}

#[test]
fn content_type_json_is_415() {
    let h = headers(&[("content-type", "application/json")]);
    let (status, _) = require_bcs_content_type(&h).unwrap_err();
    assert_eq!(status, StatusCode::UNSUPPORTED_MEDIA_TYPE);
}

#[test]
fn accept_bcs_only_is_406() {
    let h = headers(&[("accept", "application/x-bcs")]);
    let (status, _) = reject_bcs_accept(&h).unwrap_err();
    assert_eq!(status, StatusCode::NOT_ACCEPTABLE);
}

#[test]
fn accept_json_or_wildcard_passes() {
    assert!(reject_bcs_accept(&headers(&[("accept", "application/json")])).is_ok());
    assert!(reject_bcs_accept(&headers(&[("accept", "*/*")])).is_ok());
    // BCS preferred but JSON admitted -> we can still answer.
    assert!(
        reject_bcs_accept(&headers(&[("accept", "application/x-bcs, application/json")])).is_ok()
    );
    assert!(reject_bcs_accept(&HeaderMap::new()).is_ok());
}

#[test]
fn a_range_that_covers_json_passes() {
    let accepted = |text: &str| reject_bcs_accept(&headers(&[("accept", text)])).is_ok();
    assert!(accepted("application/x-bcs, application/*"));
    assert!(accepted("application/x-bcs;q=0.9,Application/*;q=0.1"));
    assert!(accepted("application/x-bcs, */*;q=0.01"));
    assert!(accepted("application/x-bcs, application/json; charset=utf-8"));
    assert!(!accepted("application/x-bcs, text/*"));
    assert!(!accepted("text/html, application/x.aptos.signed_transaction+bcs"));
}

#[test]
fn a_range_that_is_ruled_out_is_not_taken() {
    let accepted = |text: &str| reject_bcs_accept(&headers(&[("accept", text)])).is_ok();
    assert!(!accepted("application/x-bcs, application/json;q=0"));
    assert!(!accepted("application/x-bcs, application/* ; Q=0.000"));
    assert!(!accepted("application/x-bcs, */*;level=1;q=0."));
    assert!(accepted("application/x-bcs, application/json;q=0.001"));
    // What is no weight rules nothing out.
    assert!(accepted("application/x-bcs, application/json;q=00"));
    assert!(accepted("application/x-bcs, application/json;q=0.0.0"));
    assert!(accepted("application/x-bcs, application/json;q=0.0000"));
    assert!(accepted("application/x-bcs, application/json;v=\"a;q=0;b\""));
    assert!(accepted("application/x-bcs, application/json;v=\"\\\";q=0\""));
    // BCS that is ruled out leaves nothing that is admitted.
    assert!(!accepted("application/x-bcs;q=0"));
    assert!(accepted(""));
}

#[test]
fn all_of_application_is_a_whole_media_type() {
    let accepted = |text: &str| reject_bcs_accept(&headers(&[("accept", text)])).is_ok();
    assert!(!accepted("application/*+bcs"));
    assert!(!accepted("Application/*+BCS, application/x-bcs"));
    assert!(!accepted("application/*;profile=bcs"));
    assert!(!accepted("application/x-bcs;v=\"a, application/*;b\""));
    assert!(!accepted("application/x-bcs;v=\"a;q=0;b\""));
    assert!(accepted("application/*+bcs, application/* ;q=0.5"));
}

#[test]
fn a_client_of_bcs_alone_is_refused_in_any_order_and_case() {
    let accepted = |text: &str| reject_bcs_accept(&headers(&[("accept", text)])).is_ok();
    assert!(!accepted("a/bcs,B/BCS , application/x-bcs"));
    assert!(accepted("a/bcs, APPLICATION/JSON , b/bcs"));
    assert!(accepted("*/* ,a/bcs"));
    assert!(accepted("application/json"));
}

#[test]
fn content_type_is_sniffed_in_any_case() {
    assert!(require_bcs_content_type(&headers(&[("content-type", "APPLICATION/X-BCS")])).is_ok());
    assert!(
        require_bcs_content_type(&headers(&[("content-type", "application/Octet-Stream")])).is_ok()
    );
}

#[test]
fn content_type_that_is_no_text_passes() {
    let mut h = HeaderMap::new();
    h.insert("content-type", HeaderValue::from_bytes(&[0xff, 0xfe]).unwrap());
    assert!(require_bcs_content_type(&h).is_ok());
    assert!(!view_is_bcs(&h));
}

#[test]
fn media_type_error_has_the_canonical_shape() {
    let h = headers(&[("content-type", "text/plain")]);
    let (status, body) = require_bcs_content_type(&h).unwrap_err();
    assert_eq!(status.as_u16(), 415);
    assert_eq!(text(&body, "error_code"), "unsupported_media_type");
    assert_eq!(
        text(&body, "message"),
        "movelite only accepts BCS-signed transactions; set Content-Type: \
         application/x.aptos.signed_transaction+bcs (JSON transaction submission is not supported)"
    );
    assert_eq!(body.get("vm_error_code"), Some(&Json::Null));
}

#[test]
fn accept_error_names_its_code() {
    let (status, body) = reject_bcs_accept(&headers(&[("accept", "Application/X-BCS")])).unwrap_err();
    assert_eq!(status.as_u16(), 406);
    assert_eq!(text(&body, "error_code"), "not_acceptable");
    assert_eq!(
        text(&body, "message"),
        "movelite only produces JSON responses; BCS response encoding is not supported"
    );
}

#[test]
fn the_first_of_several_values_counts() {
    let mut h = headers(&[("accept", "application/json")]);
    h.append("accept", HeaderValue::from_static("application/x-bcs"));
    assert_eq!(read_header(&h, "accept"), Some("application/json"));
    assert_eq!(read_header(&h, "content-type"), None);
}

#[test]
fn view_requests_are_json_unless_they_name_bcs() {
    assert!(!view_is_bcs(&HeaderMap::new()));
    assert!(!view_is_bcs(&headers(&[("content-type", "application/json")])));
    assert!(view_is_bcs(&headers(&[(
        "content-type",
        "application/x.aptos.view_function+bcs"
    )])));
    // The sniff of view requests is exact.
    assert!(!view_is_bcs(&headers(&[("content-type", "application/x-BCS")])));
}

#[test]
fn errors_take_their_code_from_the_status() {
    let cases = [
        (StatusCode::BAD_REQUEST, "invalid_input", 400),
        (StatusCode::UNAUTHORIZED, "unauthorized", 401),
        (StatusCode::NOT_FOUND, "not_found", 404),
        (StatusCode::REQUEST_TIMEOUT, "internal_error", 408),
        (StatusCode::INTERNAL_SERVER_ERROR, "internal_error", 500),
    ];
    for (status, code, number) in cases {
        let (got, body) = to_json_error((status, "why".to_string()));
        assert_eq!(got, status);
        assert_eq!(got.as_u16(), number);
        assert_eq!(text(&body, "error_code"), code);
        assert_eq!(text(&body, "message"), "why");
    }
    let (status, body) = json_error(StatusCode::NOT_FOUND, "account_not_found", "gone");
    assert_eq!(status, StatusCode::NOT_FOUND);
    assert_eq!(text(&body, "error_code"), "account_not_found");
}

#[test]
fn a_token_is_asked_for_only_where_there_is_one() {
    let right = headers(&[("x-movelite-token", "s3")]);
    let wrong = headers(&[("x-movelite-token", "S3")]);
    assert!(require_auth(&HeaderMap::new(), &options(None, true)).is_ok());
    assert!(require_auth(&right, &options(Some("s3"), false)).is_ok());
    let (status, message) = require_auth(&wrong, &options(Some("s3"), false)).unwrap_err();
    assert_eq!(status, StatusCode::UNAUTHORIZED);
    assert_eq!(message, "missing or invalid x-movelite-token");
    assert!(require_auth(&HeaderMap::new(), &options(Some("s3"), false)).is_err());
}

#[test]
fn commits_are_guarded_only_on_a_strict_server() {
    let bare = HeaderMap::new();
    assert!(check_commit(&bare, &options(Some("t"), false), true).is_ok());
    assert!(check_commit(&bare, &options(Some("t"), true), false).is_ok());
    let (status, body) = check_commit(&bare, &options(Some("t"), true), true).unwrap_err();
    assert_eq!(status, StatusCode::UNAUTHORIZED);
    assert_eq!(text(&body, "error_code"), "unauthorized");
    assert!(check_commit(
        &headers(&[("x-movelite-token", "t")]),
        &options(Some("t"), true),
        true
    )
    .is_ok());
}

#[test]
fn submissions_are_checked_header_by_header() {
    let bad = headers(&[("content-type", "application/json"), ("accept", "x-bcs")]);
    assert_eq!(
        check_bcs_headers(&bad).unwrap_err().0,
        StatusCode::UNSUPPORTED_MEDIA_TYPE
    );
    let bcs_only = headers(&[("content-type", "application/x-bcs"), ("accept", "x-bcs")]);
    assert_eq!(
        check_submit(&bcs_only, &options(Some("t"), true)).unwrap_err().0,
        StatusCode::NOT_ACCEPTABLE
    );
    let good = headers(&[("content-type", "application/x-bcs")]);
    assert_eq!(
        check_submit(&good, &options(Some("t"), true)).unwrap_err().0,
        StatusCode::UNAUTHORIZED
    );
    assert!(check_submit(&good, &options(Some("t"), false)).is_ok());
}

#[test]
fn ledger_headers_are_set_and_read() {
    let mut h = headers(&[("x-aptos-epoch", "99"), ("content-type", "application/json")]);
    h.append("x-aptos-epoch", HeaderValue::from_static("100"));
    h.append("set-cookie", HeaderValue::from_static("a=1"));
    h.append("set-cookie", HeaderValue::from_static("b=2"));
    assert!(inject_ledger_headers(&mut h, build_ledger_info(4, 17, Some(1_234_567))));
    let expected = [
        ("x-aptos-chain-id", "4"),
        ("x-aptos-ledger-version", "17"),
        ("x-aptos-ledger-oldest-version", "0"),
        ("x-aptos-ledger-timestampusec", "1234567"),
        ("x-aptos-epoch", "1"),
        ("x-aptos-block-height", "17"),
        ("x-aptos-oldest-block-height", "0"),
        ("content-type", "application/json"),
    ];
    for (name, value) in expected {
        assert_eq!(read_header(&h, name), Some(value));
    }
    // Each stands once, and the other headers keep all their values.
    assert_eq!(h.get_all("x-aptos-epoch").iter().count(), 1);
    let cookies: Vec<_> = h.get_all("set-cookie").iter().collect();
    assert_eq!(cookies, vec!["a=1", "b=2"]);
    assert_eq!(h.len(), 10);
}

#[test]
fn headers_that_cannot_be_values_are_left_out() {
    let mut h = HeaderMap::new();
    let pairs = vec![
        ("x-good", "a\tb".to_string()),
        ("x-bad", "a\nb".to_string()),
        ("x-last", "\u{e9}".to_string()),
    ];
    assert!(set_headers(&mut h, &pairs));
    assert_eq!(read_header(&h, "x-good"), Some("a\tb"));
    assert!(h.get("x-bad").is_none());
    // Bytes beyond ASCII can be sent but are not read as a text.
    assert_eq!(h.get("x-last").unwrap().as_bytes(), "\u{e9}".as_bytes());
    assert_eq!(read_header(&h, "x-last"), None);
}

#[test]
fn refusals_come_in_the_order_of_each_request() {
    let strict = options(Some("t"), true);
    let bad = || Err::<u8, String>("eof".to_string());
    let wrong = headers(&[("content-type", "application/json")]);
    let bare = HeaderMap::new();
    let known = headers(&[("x-movelite-token", "t")]);

    let submit = |h: &HeaderMap, body| submit_request(h, &strict, body).map_err(|e| e.0.as_u16());
    assert_eq!(submit(&wrong, bad()), Err(415));
    assert_eq!(submit(&bare, bad()), Err(401));
    assert_eq!(submit(&known, bad()), Err(400));
    assert_eq!(submit(&known, Ok(7)), Ok(7));

    let trace = |h: &HeaderMap, commit, body| {
        trace_request(h, &strict, commit, body).map_err(|e| e.0.as_u16())
    };
    assert_eq!(trace(&wrong, true, bad()), Err(415));
    assert_eq!(trace(&bare, true, bad()), Err(400));
    assert_eq!(trace(&bare, true, Ok(7)), Err(401));
    assert_eq!(trace(&bare, false, Ok(7)), Ok(7));
    assert_eq!(trace(&known, true, Ok(7)), Ok(7));

    let simulate = |h: &HeaderMap, body| simulate_request(h, body).map_err(|e| e.0.as_u16());
    assert_eq!(simulate(&wrong, bad()), Err(415));
    assert_eq!(simulate(&bare, bad()), Err(400));
    assert_eq!(simulate(&bare, Ok(7)), Ok(7));

    let (_, body) = simulate_request(&bare, bad()).unwrap_err();
    assert_eq!(
        text(&body, "message"),
        "Failed to deserialize BCS transaction: eof"
    );
}

#[test]
fn a_header_map_of_few_names_has_room() {
    let mut h = HeaderMap::new();
    assert!(has_room(&h, 6_000));
    assert!(!has_room(&h, 6_001));
    for i in 0..5_993 {
        h.insert(
            HeaderName::from_bytes(format!("n-{}", i).as_bytes()).unwrap(),
            HeaderValue::from_static("v"),
        );
    }
    assert!(has_room(&h, 7));
    assert!(inject_ledger_headers(&mut h, build_ledger_info(4, 1, None)));
    assert_eq!(h.keys_len(), 6_000);
    assert!(!has_room(&h, 1));
}
