use cli_api_caller::api_service::{authenticate, prepare_api_call, AuthStep, MAX_AUTH_ATTEMPTS};
use cli_api_caller::client::{AuthResponse, Method};
use cli_api_caller::reader::CsvRow;

fn credential() -> AuthResponse {
    AuthResponse::new("abc".to_string(), "Bearer".to_string())
}

fn row(id: &str) -> CsvRow {
    CsvRow::new("m1".to_string(), id.to_string(), "uk".to_string(), 1, None)
}

#[test]
fn a_run_makes_two_auth_calls_at_most() {
    assert_eq!(MAX_AUTH_ATTEMPTS, 2);
}

#[test]
fn a_credential_is_accepted_at_once() {
    match authenticate(0, Ok(credential())) {
        AuthStep::Granted(response) => assert_eq!(response.token(), "Bearer abc"),
        other => panic!("unexpected step {:?}", other),
    }
}

#[test]
fn a_credential_is_accepted_on_the_retry() {
    match authenticate(1, Ok(credential())) {
        AuthStep::Granted(response) => assert_eq!(response.token(), "Bearer abc"),
        other => panic!("unexpected step {:?}", other),
    }
}

#[test]
fn the_first_failure_asks_for_a_retry() {
    assert!(matches!(authenticate(0, Err("timeout".to_string())), AuthStep::Retry));
}

#[test]
fn the_second_failure_is_fatal() {
    match authenticate(1, Err("bad credentials".to_string())) {
        AuthStep::Fatal(message) => assert_eq!(message, "Auth failed with error - bad credentials"),
        other => panic!("unexpected step {:?}", other),
    }
}

#[test]
fn no_failure_after_the_second_asks_for_a_retry() {
    for failed_before in [1u8, 2, 3, 100, u8::MAX] {
        match authenticate(failed_before, Err("e".to_string())) {
            AuthStep::Fatal(message) => assert_eq!(message, "Auth failed with error - e"),
            other => panic!("unexpected step {:?}", other),
        }
    }
}

#[test]
fn prepared_call_goes_to_the_record() {
    let request = prepare_api_call(
        "Bearer abc".to_string(),
        &"https://api/items/{id}/status".to_string(),
        &row("42"),
        "{\"status\":1,\"statusReason\":null}".to_string(),
        Some(Method::Put),
    );
    assert_eq!(request.url(), "https://api/items/42/status");
    assert_eq!(request.body(), "{\"status\":1,\"statusReason\":null}");
    assert_eq!(request.auth_token(), "Bearer abc");
    assert_eq!(request.method(), Method::Put);
}

#[test]
fn prepared_call_defaults_to_patch() {
    let request = prepare_api_call(
        "t".to_string(),
        &"https://api/items/{id}".to_string(),
        &row("7"),
        "{}".to_string(),
        None,
    );
    assert_eq!(request.method(), Method::Patch);
    assert_eq!(request.url(), "https://api/items/7");
}

#[test]
fn prepared_call_fills_every_placeholder() {
    let request = prepare_api_call(
        "t".to_string(),
        &"https://api/{id}/copy/{id}".to_string(),
        &row("a b"),
        "{}".to_string(),
        None,
    );
    assert_eq!(request.url(), "https://api/a b/copy/a b");
}

#[test]
fn prepared_call_without_placeholder_keeps_the_address() {
    let request = prepare_api_call(
        "t".to_string(),
        &"https://api/items".to_string(),
        &row("42"),
        "{}".to_string(),
        None,
    );
    assert_eq!(request.url(), "https://api/items");
}

#[test]
fn prepared_call_does_not_use_the_other_fields() {
    let record = CsvRow::new(
        "{id}".to_string(),
        "9".to_string(),
        "{id}".to_string(),
        5,
        Some("{id}".to_string()),
    );
    let request = prepare_api_call(
        "t".to_string(),
        &"https://api/{id}".to_string(),
        &record,
        "body".to_string(),
        None,
    );
    assert_eq!(request.url(), "https://api/9");
    assert_eq!(request.body(), "body");
}
