use cli_api_caller::api_service::ApiResult;
use cli_api_caller::reader::CsvRow;
use cli_api_caller::report::{outcome_lines, tally};

fn outcome(mid: &str, status: u16, succeed: bool) -> ApiResult {
    let row = CsvRow::new(mid.to_string(), "1".to_string(), "uk".to_string(), 3, None);
    ApiResult::create(status, succeed, "body".to_string(), row)
}

#[test]
fn tally_of_nothing_is_zero() {
    let report = tally(&Vec::new(), 0);
    assert_eq!(report.total(), 0);
    assert_eq!(report.succeeded(), 0);
    assert_eq!(report.failed(), 0);
    assert_eq!(report.skipped(), 0);
}

#[test]
fn tally_counts_each_verdict() {
    let outcomes = vec![
        outcome("a", 200, true),
        outcome("b", 503, false),
        outcome("c", 204, true),
        outcome("d", 500, false),
        outcome("e", 201, true),
    ];
    let report = tally(&outcomes, 2);
    assert_eq!(report.total(), 5);
    assert_eq!(report.succeeded(), 3);
    assert_eq!(report.failed(), 2);
    assert_eq!(report.skipped(), 2);
}

#[test]
fn tally_total_is_succeeded_plus_failed() {
    let mut outcomes = Vec::new();
    let mut n: u16 = 0;
    while n < 50 {
        outcomes.push(outcome("m", 200 + n, n % 3 == 0));
        let report = tally(&outcomes, 7);
        assert_eq!(report.total(), outcomes.len());
        assert_eq!(report.total(), report.succeeded() + report.failed());
        assert_eq!(report.skipped(), 7);
        n += 1;
    }
}

#[test]
fn tally_grows_by_one_with_each_outcome() {
    let mut outcomes = Vec::new();
    let mut before = tally(&outcomes, 0);
    for succeed in [true, false, false, true, true, false] {
        outcomes.push(outcome("m", 200, succeed));
        let after = tally(&outcomes, 0);
        if succeed {
            assert_eq!(after.succeeded(), before.succeeded() + 1);
            assert_eq!(after.failed(), before.failed());
        } else {
            assert_eq!(after.succeeded(), before.succeeded());
            assert_eq!(after.failed(), before.failed() + 1);
        }
        before = after;
    }
}

#[test]
fn tally_goes_by_the_verdict_not_the_status() {
    let report = tally(&vec![outcome("a", 200, false), outcome("b", 500, true)], 0);
    assert_eq!(report.succeeded(), 1);
    assert_eq!(report.failed(), 1);
}

#[test]
fn skipped_entries_are_not_in_the_total() {
    let report = tally(&vec![outcome("a", 200, true)], 9);
    assert_eq!(report.total(), 1);
    assert_eq!(report.skipped(), 9);
}

#[test]
fn summary_shows_the_counts_and_the_time() {
    let outcomes = vec![outcome("a", 200, true), outcome("b", 503, false), outcome("c", 200, true)];
    let report = tally(&outcomes, 0);
    assert_eq!(
        report.summary("1.5"),
        "\nDone!\nTotal tasks executed: 3\nSuccessful: 2 | Failed: 1\nTime elapsed: 1.5 - seconds"
    );
}

#[test]
fn summary_of_an_empty_run() {
    let report = tally(&Vec::new(), 0);
    assert_eq!(
        report.summary("0.0"),
        "\nDone!\nTotal tasks executed: 0\nSuccessful: 0 | Failed: 0\nTime elapsed: 0.0 - seconds"
    );
}

#[test]
fn summary_with_large_counts() {
    let mut outcomes = Vec::new();
    let mut n: u32 = 0;
    while n < 1234 {
        outcomes.push(outcome("m", 200, n % 10 != 0));
        n += 1;
    }
    let report = tally(&outcomes, 0);
    assert_eq!(
        report.summary("12.3"),
        "\nDone!\nTotal tasks executed: 1234\nSuccessful: 1110 | Failed: 124\nTime elapsed: 12.3 - seconds"
    );
}

#[test]
fn outcome_lines_follow_the_outcomes() {
    let outcomes = vec![outcome("a", 200, true), outcome("b", 503, false)];
    assert_eq!(
        outcome_lines(&outcomes),
        vec![
            "Status successfully changed for item a in market uk, new status is 3".to_string(),
            "Status did not changed for item b in market uk, response is body".to_string(),
        ]
    );
    assert_eq!(outcome_lines(&Vec::new()), Vec::<String>::new());
}
