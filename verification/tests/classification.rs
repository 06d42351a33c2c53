use cli_api_caller::api_service::{unwrap_response, ApiResult};
use cli_api_caller::client::ApiResponse;
use cli_api_caller::handle_api_result;
use cli_api_caller::reader::CsvRow;
use cli_api_caller::report::{is_success_status, FAULT_STATUS};

fn row() -> CsvRow {
    CsvRow::new("m1".to_string(), "42".to_string(), "uk".to_string(), 1, None)
}

fn response(status: u16, body: &str) -> Result<ApiResponse, String> {
    Ok(ApiResponse { status, body: body.to_string() })
}

#[test]
fn status_range_bounds() {
    assert!(!is_success_status(199));
    assert!(is_success_status(200));
    assert!(is_success_status(299));
    assert!(!is_success_status(300));
}

#[test]
fn status_range_over_the_whole_domain() {
    let mut status: u32 = 0;
    while status <= u16::MAX as u32 {
        let expected = (200..=299).contains(&status);
        assert_eq!(is_success_status(status as u16), expected);
        let outcome = unwrap_response(response(status as u16, ""), row());
        assert_eq!(outcome.succeed, expected);
        assert_eq!(outcome.status, status as u16);
        status += 1;
    }
}

#[test]
fn fault_status_is_500() {
    assert_eq!(FAULT_STATUS, 500);
}

#[test]
fn response_below_the_range_fails() {
    let outcome = unwrap_response(response(199, "early"), row());
    assert_eq!(outcome, ApiResult { status: 199, succeed: false, body: "early".to_string(), row: row() });
}

#[test]
fn response_at_the_lower_bound_succeeds() {
    let outcome = unwrap_response(response(200, "ok"), row());
    assert_eq!(outcome, ApiResult { status: 200, succeed: true, body: "ok".to_string(), row: row() });
}

#[test]
fn response_at_the_upper_bound_succeeds() {
    let outcome = unwrap_response(response(299, "ok"), row());
    assert_eq!(outcome, ApiResult { status: 299, succeed: true, body: "ok".to_string(), row: row() });
}

#[test]
fn response_above_the_range_fails() {
    let outcome = unwrap_response(response(300, "moved"), row());
    assert_eq!(outcome, ApiResult { status: 300, succeed: false, body: "moved".to_string(), row: row() });
}

#[test]
fn fault_becomes_a_failure_with_status_500() {
    let outcome = unwrap_response(Err("connection reset".to_string()), row());
    assert_eq!(
        outcome,
        ApiResult { status: 500, succeed: false, body: "connection reset".to_string(), row: row() }
    );
}

#[test]
fn response_with_status_500_keeps_its_body() {
    let outcome = unwrap_response(response(500, "server error"), row());
    assert!(!outcome.succeed);
    assert_eq!(outcome.status, 500);
    assert_eq!(outcome.body, "server error");
}

#[test]
fn classification_is_the_same_every_time() {
    for status in [199u16, 200, 299, 300] {
        let first = unwrap_response(response(status, "b"), row());
        let second = unwrap_response(response(status, "b"), row());
        assert_eq!(first, second);
    }
    let first = unwrap_response(Err("fault".to_string()), row());
    let second = unwrap_response(Err("fault".to_string()), row());
    assert_eq!(first, second);
}

#[test]
fn outcome_keeps_its_record() {
    let record = CsvRow::new(
        "m9".to_string(),
        "id-9".to_string(),
        "de".to_string(),
        -3,
        Some("closed".to_string()),
    );
    let outcome = unwrap_response(response(204, ""), record.clone());
    assert_eq!(outcome.row, record);
}

#[test]
fn create_keeps_its_parts() {
    let outcome = ApiResult::create(418, false, "teapot".to_string(), row());
    assert_eq!(outcome.status, 418);
    assert!(!outcome.succeed);
    assert_eq!(outcome.body, "teapot");
    assert_eq!(outcome.row, row());
}

#[test]
fn handled_verdict_at_the_bounds() {
    assert!(!handle_api_result(response(199, ""), row()).succeed);
    assert!(handle_api_result(response(200, ""), row()).succeed);
    assert!(handle_api_result(response(299, ""), row()).succeed);
    assert!(!handle_api_result(response(300, ""), row()).succeed);
    assert!(!handle_api_result(Err("fault".to_string()), row()).succeed);
}

#[test]
fn handled_status_is_that_of_the_response() {
    assert_eq!(handle_api_result(response(201, ""), row()).status, 201);
    assert_eq!(handle_api_result(response(404, ""), row()).status, 404);
    assert_eq!(handle_api_result(Err("fault".to_string()), row()).status, 500);
}
