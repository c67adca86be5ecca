use club_core::auth::UserSession;
use club_core::{ApiError, ApiResponse};

fn respond_ok(payload: &str) -> Result<(String, u16), u16> {
    match ApiResponse(Ok(payload.as_bytes().to_vec())).respond() {
        Ok((body, status)) => Ok((String::from_utf8(body).unwrap(), status)),
        Err(status) => Err(status),
    }
}

fn respond_err(e: ApiError) -> (String, u16) {
    match ApiResponse(Err(e)).respond() {
        Ok((body, status)) => (String::from_utf8(body).unwrap(), status),
        Err(_) => panic!("failure envelopes always render"),
    }
}

#[test]
fn success_splices_status_into_an_object() {
    assert_eq!(
        respond_ok("{\"id\":7}"),
        Ok(("{\"id\":7,\"status\":\"success\"}".to_string(), 200))
    );
}

#[test]
fn success_on_null_payload_is_the_bare_status_object() {
    assert_eq!(respond_ok("null"), Ok(("{\"status\":\"success\"}".to_string(), 200)));
}

#[test]
fn success_on_empty_object_adds_no_comma() {
    assert_eq!(respond_ok("{}"), Ok(("{\"status\":\"success\"}".to_string(), 200)));
}

#[test]
fn non_object_payloads_are_server_faults() {
    assert_eq!(respond_ok("[1,2]"), Err(500));
    assert_eq!(respond_ok("\"hello\""), Err(500));
    assert_eq!(respond_ok("17"), Err(500));
    assert_eq!(respond_ok("true"), Err(500));
    assert_eq!(respond_ok(""), Err(500));
}

#[test]
fn failure_envelope_for_incorrect_credentials() {
    let (body, status) = respond_err(ApiError::IncorrectCredentials);
    assert_eq!(body, "{\"status\":\"failure\",\"error\":\"incorrect credentials\"}");
    assert_eq!(status, 401);
}

#[test]
fn failure_envelopes_carry_each_kind_message_and_code() {
    let cases = [
        (ApiError::Unknown("boom".to_string()), "unknown error: boom", 500),
        (ApiError::DatabaseError("boom".to_string()), "database error: boom", 500),
        (ApiError::UserNotFound, "user not found", 404),
        (ApiError::NotLoggedIn, "not logged in", 403),
        (ApiError::IncorrectCredentials, "incorrect credentials", 401),
        (ApiError::InvalidInput("boom".to_string()), "invalid input: boom", 400),
        (ApiError::EmailTaken, "email taken", 400),
        (ApiError::OfficerRequired, "officer permissions required", 401),
    ];
    for (error, message, code) in cases {
        let (body, status) = respond_err(error);
        let expected = format!("{{\"status\":\"failure\",\"error\":\"{}\"}}", message);
        assert_eq!(body, expected);
        assert_eq!(status, code);
    }
}

#[test]
fn failure_messages_are_json_escaped() {
    let (body, status) =
        respond_err(ApiError::InvalidInput("a\"b\\c\nd\re\tf\u{1}g".to_string()));
    assert_eq!(
        body,
        "{\"status\":\"failure\",\"error\":\"invalid input: a\\\"b\\\\c\\nd\\re\\tf\\u0001g\"}"
    );
    assert_eq!(status, 400);
    // and the result is valid JSON carrying the original message
    let value: serde_json::Value = serde_json::from_str(&body).unwrap();
    assert_eq!(value.get("status").unwrap().as_str().unwrap(), "failure");
    assert_eq!(
        value.get("error").unwrap().as_str().unwrap(),
        "invalid input: a\"b\\c\nd\re\tf\u{1}g"
    );
}

#[test]
fn failure_envelope_is_valid_json_for_non_ascii_detail() {
    let (body, _) = respond_err(ApiError::Unknown("café ≠ cafe".to_string()));
    let value: serde_json::Value = serde_json::from_str(&body).unwrap();
    assert_eq!(
        value.get("error").unwrap().as_str().unwrap(),
        "unknown error: café ≠ cafe"
    );
}

#[test]
fn session_payloads_always_envelope() {
    let t = UserSession { user: 12, length: 100, is_officer: false, start: 3 };
    let (body, status) = match ApiResponse(Ok(t.serialize())).respond() {
        Ok(p) => (String::from_utf8(p.0).unwrap(), p.1),
        Err(_) => panic!("session payloads always satisfy the envelope rule"),
    };
    assert_eq!(
        body,
        "{\"user\":12,\"length\":100,\"is_officer\":false,\"start\":3,\"status\":\"success\"}"
    );
    assert_eq!(status, 200);
}

#[test]
fn api_response_from_result_wraps_it() {
    let r: ApiResponse = Err::<Vec<u8>, ApiError>(ApiError::UserNotFound).into();
    match r.0 {
        Err(ApiError::UserNotFound) => {},
        _ => panic!("From must keep the outcome"),
    }
}
