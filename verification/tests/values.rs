use movelite::address::AccountAddress;
use movelite::json::Json;
use movelite::value::{decode_value, unit_arg, Container, ContainerKind, JsonBuilder, TracedArg};

fn text(s: &str) -> Json {
    Json::Text(s.to_string())
}

fn object(fields: Vec<(&str, Json)>) -> Json {
    Json::Object(fields.into_iter().map(|(k, v)| (k.to_string(), v)).collect())
}

fn walked(walk: fn(&mut JsonBuilder)) -> TracedArg {
    let mut builder = JsonBuilder::new();
    walk(&mut builder);
    decode_value(builder, true)
}

fn arg(ty: &str, value: Json) -> TracedArg {
    TracedArg {
        ty: ty.to_string(),
        value,
    }
}

#[test]
fn integers_are_decimal_texts() {
    assert_eq!(walked(|b| b.visit_u8(255)), arg("u8", text("255")));
    assert_eq!(walked(|b| b.visit_u16(65_535)), arg("u16", text("65535")));
    assert_eq!(walked(|b| b.visit_u32(0)), arg("u32", text("0")));
    assert_eq!(
        walked(|b| b.visit_u64(u64::MAX)),
        arg("u64", text("18446744073709551615"))
    );
    assert_eq!(
        walked(|b| b.visit_u128(u128::MAX)),
        arg("u128", text("340282366920938463463374607431768211455"))
    );
    assert_eq!(walked(|b| b.visit_i8(-128)), arg("i8", text("-128")));
    assert_eq!(walked(|b| b.visit_i16(-1)), arg("i16", text("-1")));
    assert_eq!(walked(|b| b.visit_i32(7)), arg("i32", text("7")));
    assert_eq!(walked(|b| b.visit_i64(0)), arg("i64", text("0")));
    assert_eq!(
        walked(|b| b.visit_i128(i128::MIN)),
        arg("i128", text("-170141183460469231731687303715884105728"))
    );
    assert_eq!(
        walked(|b| b.visit_u256("12".to_string())),
        arg("u256", text("12"))
    );
    assert_eq!(
        walked(|b| b.visit_i256("-12".to_string())),
        arg("i256", text("-12"))
    );
}

#[test]
fn other_leaves_are_rendered() {
    assert_eq!(walked(|b| b.visit_bool(true)), arg("bool", Json::Bool(true)));
    assert_eq!(walked(|b| b.visit_delayed()), arg("delayed", text("<delayed>")));
    assert_eq!(
        walked(|b| b.visit_address(&AccountAddress::new([0; 32]))),
        arg("address", text("0x0"))
    );
    assert_eq!(
        walked(|b| b.visit_vec_u8(&[0, 0xab, 0x10])),
        arg("vector<u8>", text("0x00ab10"))
    );
    assert_eq!(walked(|b| b.visit_vec_u8(&[])), arg("vector<u8>", text("0x")));
}

#[test]
fn containers_are_closed_with_their_last_member() {
    let got = walked(|b| {
        assert!(b.visit_struct(2));
        b.visit_u8(1);
        assert!(b.visit_vec(2));
        b.visit_bool(false);
        assert!(b.visit_closure(1));
        b.visit_u8(3);
    });
    assert_eq!(
        got,
        arg(
            "struct",
            object(vec![
                ("0", text("1")),
                (
                    "1",
                    Json::Array(vec![Json::Bool(false), object(vec![("0", text("3"))])])
                ),
            ])
        )
    );
}

#[test]
fn empty_containers_are_complete_at_once() {
    assert_eq!(
        walked(|b| {
            b.visit_vec(0);
        }),
        arg("vector", Json::Array(vec![]))
    );
    let got = walked(|b| {
        b.visit_vec(2);
        b.visit_struct(0);
        b.visit_vec(0);
    });
    assert_eq!(
        got,
        arg("vector", Json::Array(vec![object(vec![]), Json::Array(vec![])]))
    );
}

#[test]
fn references_are_transparent() {
    assert_eq!(
        walked(|b| {
            assert!(b.visit_ref());
            b.visit_u8(9);
        }),
        arg("u8", text("9"))
    );
}

#[test]
fn walks_that_fail_or_see_nothing_are_unknown() {
    assert_eq!(walked(|_| {}), arg("unknown", Json::Null));
    let mut builder = JsonBuilder::new();
    builder.visit_u8(1);
    assert_eq!(decode_value(builder, false), arg("unknown", Json::Null));
    // A container whose members did not arrive has a type and no value.
    let mut builder = JsonBuilder::new();
    builder.visit_vec(2);
    builder.visit_u8(1);
    assert_eq!(decode_value(builder, true), arg("vector", Json::Null));
    assert_eq!(unit_arg(), arg("()", Json::Null));
}

#[test]
fn struct_fields_are_found_by_position() {
    let json = Container {
        kind: ContainerKind::Struct,
        items: (0..12).map(|i| text(&format!("m{}", i))).collect(),
        remaining: 0,
    }
    .into_json();
    assert_eq!(json.get("0"), Some(&text("m0")));
    assert_eq!(json.get("11"), Some(&text("m11")));
    assert_eq!(json.get("12"), None);
    assert_eq!(json.get("00"), None);
    assert_eq!(json.clone(), json);
}
