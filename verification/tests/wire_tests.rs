use club_core::auth::UserSession;
use club_core::SESSION_LIFETIME_SECONDS;

fn token(user: i32, length: u64, is_officer: bool, start: u64) -> UserSession {
    UserSession { user, length, is_officer, start }
}

#[test]
fn serialize_exact_bytes() {
    let t = token(7, 2592000, false, 123);
    let bytes = t.serialize();
    assert_eq!(
        String::from_utf8(bytes).unwrap(),
        "{\"user\":7,\"length\":2592000,\"is_officer\":false,\"start\":123}"
    );
}

#[test]
fn serialize_negative_user_and_officer() {
    let t = token(-42, 1, true, 0);
    let bytes = t.serialize();
    assert_eq!(
        String::from_utf8(bytes).unwrap(),
        "{\"user\":-42,\"length\":1,\"is_officer\":true,\"start\":0}"
    );
}

#[test]
fn serialized_form_is_real_json_with_the_fixed_field_names() {
    let t = token(-3, SESSION_LIFETIME_SECONDS, true, 1700000000);
    let text = String::from_utf8(t.serialize()).unwrap();
    let value: serde_json::Value = serde_json::from_str(&text).unwrap();
    assert_eq!(value.get("user").unwrap().as_i64().unwrap(), -3);
    assert_eq!(
        value.get("length").unwrap().as_u64().unwrap(),
        SESSION_LIFETIME_SECONDS
    );
    assert_eq!(value.get("is_officer").unwrap().as_bool().unwrap(), true);
    assert_eq!(value.get("start").unwrap().as_u64().unwrap(), 1700000000);
}

#[test]
fn round_trip_ordinary_token() {
    let t = token(7, SESSION_LIFETIME_SECONDS, false, 1700000000);
    let back = UserSession::deserialize(&t.serialize()).unwrap();
    assert_eq!(back, t);
}

#[test]
fn round_trip_extreme_values() {
    for t in [
        token(i32::MIN, u64::MAX, true, u64::MAX),
        token(i32::MAX, 0, false, 0),
        token(0, 1, true, 1),
        token(-1, 999999999999, false, 42),
    ] {
        let back = UserSession::deserialize(&t.serialize()).unwrap();
        assert_eq!(back, t);
    }
}

#[test]
fn deserialize_rejects_malformed_input() {
    let bad: &[&[u8]] = &[
        b"",
        b"{}",
        b"null",
        b"{\"user\":7}",
        // wrong field order
        b"{\"length\":1,\"user\":7,\"is_officer\":false,\"start\":1}",
        // whitespace is not canonical
        b"{\"user\": 7,\"length\":1,\"is_officer\":false,\"start\":1}",
        // trailing bytes
        b"{\"user\":7,\"length\":1,\"is_officer\":false,\"start\":1} ",
        // leading zeros are not canonical
        b"{\"user\":07,\"length\":1,\"is_officer\":false,\"start\":1}",
        // negative zero is not canonical
        b"{\"user\":-0,\"length\":1,\"is_officer\":false,\"start\":1}",
        // length does not fit in u64
        b"{\"user\":7,\"length\":18446744073709551616,\"is_officer\":false,\"start\":1}",
        // user does not fit in i32
        b"{\"user\":2147483648,\"length\":1,\"is_officer\":false,\"start\":1}",
        b"{\"user\":-2147483649,\"length\":1,\"is_officer\":false,\"start\":1}",
        // missing closing brace
        b"{\"user\":7,\"length\":1,\"is_officer\":false,\"start\":1",
        // bad boolean
        b"{\"user\":7,\"length\":1,\"is_officer\":maybe,\"start\":1}",
        // signed length is not accepted
        b"{\"user\":7,\"length\":-1,\"is_officer\":false,\"start\":1}",
    ];
    for input in bad {
        assert!(UserSession::deserialize(input).is_err(), "accepted {:?}", input);
    }
}

#[test]
fn accepted_inputs_are_exactly_canonical_encodings() {
    let accepted: &[&[u8]] = &[
        b"{\"user\":0,\"length\":0,\"is_officer\":false,\"start\":0}",
        b"{\"user\":-1,\"length\":10,\"is_officer\":true,\"start\":99}",
        b"{\"user\":7,\"length\":18446744073709551615,\"is_officer\":false,\"start\":1}",
    ];
    for input in accepted {
        let t = UserSession::deserialize(input).unwrap();
        assert_eq!(t.serialize(), input.to_vec());
    }
}

#[test]
fn deserialize_accepts_i32_boundaries() {
    let max = UserSession::deserialize(
        b"{\"user\":2147483647,\"length\":1,\"is_officer\":false,\"start\":1}",
    )
    .unwrap();
    assert_eq!(max.user, i32::MAX);
    let min = UserSession::deserialize(
        b"{\"user\":-2147483648,\"length\":1,\"is_officer\":false,\"start\":1}",
    )
    .unwrap();
    assert_eq!(min.user, i32::MIN);
}
