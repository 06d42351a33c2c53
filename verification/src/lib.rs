//! Bulk update of remote records: one request per record of a delimited
//! input, under a fixed budget of concurrent requests, with a final tally.
//!
//! The library decides and computes; it reads no file and sends no request.
//! [`dispatcher`] holds the state of a run and says what is to be done
//! next, [`api_service`] and [`client`] describe the requests and read
//! their ends, [`report`] counts the outcomes and words the report,
//! [`config`] and [`cli`] hold what a run is configured with, [`reader`] the
//! record, and [`text`] the text helpers that the others share.

use vstd::prelude::*;
use vstd::string::*;

use crate::client::{call_result_view, ApiResponseView, CallResult};
use crate::reader::{CsvRow, CsvRowView};
use crate::report::{is_success_status, success_status, FAULT_STATUS};
use crate::text::{append_signed_decimal, signed_decimal};

pub mod api_service;
pub mod cli;
pub mod client;
pub mod config;
pub mod dispatcher;
pub mod reader;
pub mod report;
pub mod text;

verus! {

/// The result of one request, as a status, a message for the operator and
/// the verdict.
#[derive(Clone, Debug, PartialEq, Eq)]
pub struct ApiResult {
    pub status: u16,
    pub body: String,
    pub succeed: bool,
}

/// What an [`ApiResult`] holds.
pub struct ApiResultView {
    pub status: u16,
    pub body: Seq<char>,
    pub succeed: bool,
}

impl View for ApiResult {
    type V = ApiResultView;

    open spec fn view(&self) -> ApiResultView {
        ApiResultView { status: self.status, body: self.body@, succeed: self.succeed }
    }
}

/// The message for a record whose status was changed.
pub open spec fn changed_message(row: CsvRowView) -> Seq<char> {
    "Status was changed, MID - "@ + row.mid + ", status changed to - "@ + signed_decimal(
        row.status as int,
    ) + ", for market - "@ + row.market + match row.status_reason {
        Some(reason) => ", status reason - "@ + reason,
        None => Seq::<char>::empty(),
    }
}

/// The message for a record whose status was not changed; `detail` is what
/// the service answered, or the description of the fault.
pub open spec fn unchanged_message(row: CsvRowView, detail: Seq<char>) -> Seq<char> {
    "Status wasn't changed, MID - "@ + row.mid + ", API response - "@ + detail
}

/// What [`handle_api_result`] makes of the end of one request.
pub open spec fn handled(
    result: Result<ApiResponseView, Seq<char>>,
    row: CsvRowView,
) -> ApiResultView {
    match result {
        Ok(response) => if success_status(response.status) {
            ApiResultView { status: response.status, body: changed_message(row), succeed: true }
        } else {
            ApiResultView {
                status: response.status,
                body: unchanged_message(row, response.body),
                succeed: false,
            }
        },
        Err(fault) => ApiResultView {
            status: FAULT_STATUS,
            body: unchanged_message(row, fault),
            succeed: false,
        },
    }
}

/// Turns the end of one request into an [`ApiResult`] for the operator.
///
/// `result` is the response of the service, or the description of the fault
/// that kept a response from arriving. A response with a status from 200 to
/// 299 is a success and is reported with the change that was made; any other
/// response is a failure and is reported with its body; a fault is a failure
/// with status 500 and is reported with its description.
pub fn handle_api_result(result: CallResult, row: CsvRow) -> (outcome: ApiResult)
    ensures
        outcome@ == handled(call_result_view(result), row@),
{
    match result {
        Ok(response) => {
            if is_success_status(response.status) {
                let mut success = String::from_str("Status was changed, MID - ");
                success.append(row.mid.as_str());
                success.append(", status changed to - ");
                append_signed_decimal(&mut success, row.status as i64);
                success.append(", for market - ");
                success.append(row.market.as_str());
                match &row.status_reason {
                    Some(reason) => {
                        success.append(", status reason - ");
                        success.append(reason.as_str());
                    },
                    None => {},
                }
                assert(success@ =~= changed_message(row@));
                ApiResult { status: response.status, body: success, succeed: true }
            } else {
                let fail = unchanged(&row, response.body.as_str());
                ApiResult { status: response.status, body: fail, succeed: false }
            }
        },
        Err(fault) => {
            let fail = unchanged(&row, fault.as_str());
            ApiResult { status: FAULT_STATUS, body: fail, succeed: false }
        },
    }
}

/// The verdict of a result follows from the end of the request alone: it is
/// a success exactly when a response arrived whose status lies from 200 to
/// 299. Any other response, and every fault, is a failure; a fault is
/// recorded with status 500.
pub proof fn law_verdict_follows_status(
    result: Result<ApiResponseView, Seq<char>>,
    row: CsvRowView,
)
    ensures
        handled(result, row).succeed <==> (result matches Ok(response) && 200 <= response.status
            <= 299),
        result is Err ==> handled(result, row).status == 500,
        result matches Ok(response) ==> handled(result, row).status == response.status,
{
}

fn unchanged(row: &CsvRow, detail: &str) -> (message: String)
    ensures
        message@ == unchanged_message(row@, detail@),
{
    let mut fail = String::from_str("Status wasn't changed, MID - ");
    fail.append(row.mid.as_str());
    fail.append(", API response - ");
    fail.append(detail);
    fail
}

} // verus!
