use movelite::address::{format_module_id, AccountAddress, ModuleId};
use movelite::http::StatusCode;
use movelite::request::{
    bad_bcs_view, bad_json_view, bad_transaction, module_of, parse_address, parse_function_id,
    parsed_tag, resource_request, serialize_view_arg, serialize_view_args, view_call, ViewArg,
};
use movelite::urls::{has_secrets, redact, redact_url_for_log};

fn address(last: u8) -> AccountAddress {
    let mut bytes = [0u8; 32];
    bytes[31] = last;
    AccountAddress::new(bytes)
}

fn ff() -> AccountAddress {
    AccountAddress::new([0xff; 32])
}

fn number(n: u64) -> ViewArg {
    ViewArg::Number {
        value: Some(n),
        literal: n.to_string(),
    }
}

#[test]
fn addresses_are_read_in_all_their_forms() {
    assert_eq!(parse_address("0x1").unwrap(), address(1));
    assert_eq!(parse_address("0x01").unwrap(), address(1));
    assert_eq!(parse_address("0x").unwrap(), address(0));
    assert_eq!(parse_address("0xAb").unwrap(), address(0xab));
    assert_eq!(parse_address(&"ff".repeat(32)).unwrap(), ff());
    assert_eq!(parse_address(&format!("0x{}", "ff".repeat(32))).unwrap(), ff());
}

#[test]
fn addresses_are_shown_short_and_long() {
    assert_eq!(address(1).to_hex_literal(), "0x1");
    assert_eq!(address(0).to_hex_literal(), "0x0");
    assert_eq!(address(0xab).to_hex_literal(), "0xab");
    assert_eq!(address(1).to_long_text(), format!("0x{}1", "0".repeat(63)));
    for a in [address(0), address(7), ff()] {
        assert_eq!(parse_address(&a.to_hex_literal()).unwrap(), a);
        assert_eq!(parse_address(&a.to_long_text()).unwrap(), a);
    }
}

#[test]
fn texts_that_are_no_addresses_are_refused() {
    let almost = "0".repeat(63) + "g";
    for text in ["zz", "0x1g", "1", "", almost.as_str()] {
        assert_eq!(
            parse_address(text).unwrap_err(),
            (
                StatusCode::BAD_REQUEST,
                "Invalid address: unable to parse AccoutAddress".to_string()
            )
        );
    }
    assert!(parse_address(&format!("0x{}", "0".repeat(65))).is_err());
}

#[test]
fn function_ids_are_split_at_the_last_separators() {
    let (module, function) = parse_function_id("0x1::coin::balance").unwrap();
    assert_eq!(format_module_id(&module), "0x1::coin");
    assert_eq!(function, "balance");
    let again = format!("{}::{}", format_module_id(&module), function);
    assert_eq!(parse_function_id(&again).unwrap(), (module, function));
}

#[test]
fn function_ids_are_refused_part_by_part() {
    let cases = [
        ("balance", "Invalid function ID: balance"),
        ("0x1::coin::1x", "Invalid identifier '1x'"),
        ("coin::balance", "Invalid module ID in: coin::balance"),
        ("0x1::9::balance", "Invalid identifier '9'"),
        ("0x1::::balance", "Invalid identifier ''"),
        ("0x1::_::_", "Invalid identifier '_'"),
    ];
    for (text, message) in cases {
        let (status, got) = parse_function_id(text).unwrap_err();
        assert_eq!(status, StatusCode::BAD_REQUEST);
        assert_eq!(got, message);
    }
    let (_, got) = parse_function_id("zz::coin::balance").unwrap_err();
    assert!(got.starts_with("Invalid address: "));
}

#[test]
fn modules_are_named_by_identifiers() {
    assert_eq!(
        module_of(address(1), "coin").unwrap(),
        ModuleId::new(address(1), "coin".to_string())
    );
    assert!(module_of(address(1), "_x").is_ok());
    assert!(module_of(address(1), "<SELF>").is_ok());
    assert_eq!(module_of(address(1), "a b").unwrap_err(), "Invalid identifier 'a b'");
}

#[test]
fn arguments_are_encoded() {
    assert_eq!(
        serialize_view_arg(&number(258)).unwrap(),
        vec![2, 1, 0, 0, 0, 0, 0, 0]
    );
    assert_eq!(
        serialize_view_arg(&number(u64::MAX)).unwrap(),
        vec![255; 8]
    );
    assert_eq!(serialize_view_arg(&ViewArg::Bool(true)).unwrap(), vec![1]);
    assert_eq!(serialize_view_arg(&ViewArg::Bool(false)).unwrap(), vec![0]);
    assert_eq!(
        serialize_view_arg(&ViewArg::Text("h\u{e9}".to_string())).unwrap(),
        vec![3, 104, 0xc3, 0xa9]
    );
    let long = "x".repeat(300);
    let bytes = serialize_view_arg(&ViewArg::Text(long.clone())).unwrap();
    assert_eq!(bytes[..2], [0xac, 0x02]);
    assert_eq!(&bytes[2..], long.as_bytes());
}

#[test]
fn a_text_that_names_an_address_is_encoded_as_one() {
    let mut expected = vec![0u8; 31];
    expected.push(1);
    for text in ["0x1".to_string(), address(1).to_long_text(), "0".repeat(63) + "1"] {
        assert_eq!(serialize_view_arg(&ViewArg::Text(text)).unwrap(), expected);
    }
    assert_eq!(
        serialize_view_arg(&ViewArg::Text("1".to_string())).unwrap(),
        vec![1, b'1']
    );
}

#[test]
fn arguments_that_cannot_be_encoded_are_refused() {
    let negative = ViewArg::Number {
        value: None,
        literal: "-1".to_string(),
    };
    assert_eq!(
        serialize_view_arg(&negative).unwrap_err(),
        (StatusCode::BAD_REQUEST, "Unsupported number: -1".to_string())
    );
    let list = ViewArg::Other {
        json: "[1]".to_string(),
    };
    assert_eq!(
        serialize_view_arg(&list).unwrap_err(),
        (StatusCode::BAD_REQUEST, "Unsupported arg type: [1]".to_string())
    );
    let args = vec![number(1), list, negative];
    assert_eq!(
        serialize_view_args(&args).unwrap_err().1,
        "Unsupported arg type: [1]"
    );
}

#[test]
fn view_calls_are_read() {
    let call = view_call(
        "0x1::coin::balance",
        vec![Ok("0x1::aptos_coin::AptosCoin")],
        &vec![number(1), ViewArg::Bool(true)],
    )
    .unwrap();
    assert_eq!(format_module_id(&call.module), "0x1::coin");
    assert_eq!(call.function, "balance");
    assert_eq!(call.ty_args, vec!["0x1::aptos_coin::AptosCoin"]);
    assert_eq!(call.args, vec![vec![1, 0, 0, 0, 0, 0, 0, 0], vec![1]]);
}

#[test]
fn view_calls_are_refused_for_the_first_fault() {
    let bad_arg = || {
        vec![ViewArg::Other {
            json: "null".to_string(),
        }]
    };
    let bad_tag = || vec![Ok(1), Err("tag".to_string()), Err("later".to_string())];
    assert_eq!(
        view_call("nope", bad_tag(), &bad_arg()).unwrap_err().1,
        "Invalid function ID: nope"
    );
    assert_eq!(
        view_call("0x1::a::b", bad_tag(), &bad_arg()).unwrap_err(),
        (StatusCode::BAD_REQUEST, "tag".to_string())
    );
    assert_eq!(
        view_call("0x1::a::b", vec![Ok(1)], &bad_arg()).unwrap_err().1,
        "Unsupported arg type: null"
    );
}

#[test]
fn tags_that_cannot_be_read_are_refused() {
    assert_eq!(parsed_tag(Ok(3)).unwrap(), 3);
    assert_eq!(
        parsed_tag::<u8>(Err("no tag".to_string())).unwrap_err(),
        (StatusCode::BAD_REQUEST, "no tag".to_string())
    );
}

#[test]
fn resource_paths_are_decoded() {
    let (account, ty) = resource_request("0x1", "/0x1%3A%3Acoin::CoinStore%3C0x1::a::B%3e").unwrap();
    assert_eq!(account, address(1));
    assert_eq!(ty, "0x1::coin::CoinStore<0x1::a::B>");
    assert_eq!(resource_request("0x1", "//a%2").unwrap().1, "/a%2");
    assert_eq!(resource_request("0x1", "%C3%A9").unwrap().1, "\u{e9}");
    let (status, _) = resource_request("0x1", "%ff").unwrap_err();
    assert_eq!(status, StatusCode::BAD_REQUEST);
    let (_, message) = resource_request("zz", "%ff").unwrap_err();
    assert!(message.starts_with("Invalid address: "));
}

#[test]
fn bodies_that_cannot_be_read_are_refused() {
    let (status, body) = bad_transaction("eof");
    assert_eq!(status, StatusCode::BAD_REQUEST);
    assert_eq!(
        body.get("message").unwrap().as_text(),
        Some("Failed to deserialize BCS transaction: eof")
    );
    assert_eq!(
        bad_bcs_view("eof"),
        (StatusCode::BAD_REQUEST, "BCS deserialize error: eof".to_string())
    );
    assert_eq!(
        bad_json_view("eof"),
        (StatusCode::BAD_REQUEST, "JSON parse error: eof".to_string())
    );
}

#[test]
fn urls_are_shown_without_secrets() {
    assert_eq!(
        redact_url_for_log("https://me:pw@node.example/v1?key=1#top"),
        "https://node.example/v1#top"
    );
    assert_eq!(redact_url_for_log("https://node.example/"), "https://node.example/");
    assert_eq!(redact_url_for_log("mailto:me@example.com?subject=x"), "mailto:me@example.com");
    assert_eq!(redact_url_for_log("file:///srv/node?key=1"), "file:///srv/node");
    assert_eq!(redact_url_for_log("node://me:pw@host/x?key=1"), "node://host/x");
    // Credentials without a host are no URL.
    assert_eq!(redact_url_for_log("node://me:pw@/x"), "<invalid url>");
    assert_eq!(redact_url_for_log("not a url"), "<invalid url>");
    let parsed = url::Url::parse("wss://me@node.example:81/?key=1").unwrap();
    assert_eq!(redact(parsed), "wss://node.example:81/");
}

#[test]
fn secrets_of_a_url_are_seen() {
    let seen = |text: &str| has_secrets(&url::Url::parse(text).unwrap());
    assert!(seen("https://me@node.example/"));
    assert!(seen("https://:pw@node.example/"));
    assert!(seen("https://node.example/?key=1"));
    assert!(!seen("https://node.example/v1#top"));
    for raw in ["https://me:pw@node.example/v1?key=1#top", "node://me@host?x"] {
        assert!(seen(raw));
        assert!(!seen(&redact_url_for_log(raw)));
    }
}
