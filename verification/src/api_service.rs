//! The decisions around the calls to the service: how often to ask for a
//! credential, what a request for one record holds, and what the end of a
//! request means for its record.

use vstd::prelude::*;
use vstd::string::*;

use crate::client::{
    call_result_view,
    ApiRequest,
    ApiRequestView,
    ApiResponseView,
    AuthResponse,
    CallResult,
    Method,
};
use crate::reader::{CsvRow, CsvRowView};
use crate::report::{is_success_status, success_status, FAULT_STATUS};
use crate::text::{replace_all, substitute};

verus! {

/// The outcome of processing one record: the status, the verdict, what the
/// service answered or why no answer arrived, and the record itself.
#[derive(Clone, Debug, PartialEq, Eq)]
pub struct ApiResult {
    pub status: u16,
    pub succeed: bool,
    pub body: String,
    pub row: CsvRow,
}

/// What an [`ApiResult`] holds.
pub struct ApiResultView {
    pub status: u16,
    pub succeed: bool,
    pub body: Seq<char>,
    pub row: CsvRowView,
}

impl View for ApiResult {
    type V = ApiResultView;

    open spec fn view(&self) -> ApiResultView {
        ApiResultView {
            status: self.status,
            succeed: self.succeed,
            body: self.body@,
            row: self.row@,
        }
    }
}

impl ApiResult {
    /// The outcome with the given parts.
    pub fn create(status: u16, succeed: bool, body: String, row: CsvRow) -> (outcome: Self)
        ensures
            outcome == (ApiResult { status, succeed, body, row }),
    {
        ApiResult { status, succeed, body, row }
    }
}

/// The outcome that the end of a request means for its record `row`: that
/// of a response carries its status and its body, and succeeds exactly when
/// the status counts as success; that of a fault is a failure that carries
/// the description of the fault.
pub open spec fn outcome_of(
    result: Result<ApiResponseView, Seq<char>>,
    row: CsvRowView,
) -> ApiResultView {
    match result {
        Ok(response) => ApiResultView {
            status: response.status,
            succeed: success_status(response.status),
            body: response.body,
            row,
        },
        Err(fault) => ApiResultView { status: FAULT_STATUS, succeed: false, body: fault, row },
    }
}

/// Turns the end of the request for `row` into the outcome of `row`.
///
/// `result` is the response of the service, or the description of the fault
/// that kept a response from arriving. A response succeeds exactly when its
/// status lies from 200 to 299; the outcome carries its status and its body.
/// A fault is a failure with status 500 that carries the description. Every
/// end of a request gives an outcome.
pub fn unwrap_response(result: CallResult, row: CsvRow) -> (outcome: ApiResult)
    ensures
        outcome@ == outcome_of(call_result_view(result), row@),
{
    match result {
        Ok(response) => {
            let succeed = is_success_status(response.status);
            ApiResult::create(response.status, succeed, response.body, row)
        },
        Err(fault) => ApiResult::create(FAULT_STATUS, false, fault, row),
    }
}

/// The verdict of an outcome follows from the end of its request alone: it
/// is a success exactly when a response arrived whose status lies from 200
/// to 299. Any other response, and every fault, is a failure; a fault is
/// recorded with status 500.
pub proof fn law_verdict_follows_status(
    result: Result<ApiResponseView, Seq<char>>,
    row: CsvRowView,
)
    ensures
        outcome_of(result, row).succeed <==> (result matches Ok(response) && 200
            <= response.status <= 299),
        result is Err ==> outcome_of(result, row).status == 500,
        result matches Ok(response) ==> outcome_of(result, row).status == response.status,
        outcome_of(result, row).row == row,
{
}

/// The number of authentication calls a run makes at most: the first one and
/// one retry.
pub const MAX_AUTH_ATTEMPTS: u8 = 2;

/// What follows one authentication call.
#[derive(Clone, Debug)]
pub enum AuthStep {
    /// The credential was granted: the run goes on with it.
    Granted(AuthResponse),
    /// The call failed and another one is due.
    Retry,
    /// The call failed and none is left: the run ends with this message.
    Fatal(String),
}

/// The message with which a run ends when no credential was granted; `error`
/// is the reason the last call gave.
pub open spec fn auth_failure_message(error: Seq<char>) -> Seq<char> {
    "Auth failed with error - "@ + error
}

/// Decides what follows one authentication call.
///
/// `failed_before` is the number of calls of this run that have failed
/// already, `reply` the credential that this call brought or the reason why
/// it brought none. A credential is always accepted. A failure is followed by
/// a retry as long as fewer than two calls were made, and ends the run after
/// that.
pub fn authenticate(failed_before: u8, reply: Result<AuthResponse, String>) -> (step: AuthStep)
    ensures
        match reply {
            Ok(response) => step == AuthStep::Granted(response),
            Err(error) => if failed_before + 1 < MAX_AUTH_ATTEMPTS {
                step is Retry
            } else {
                step matches AuthStep::Fatal(message) && message@ == auth_failure_message(error@)
            },
        },
{
    match reply {
        Ok(response) => AuthStep::Granted(response),
        Err(error) => {
            if failed_before < MAX_AUTH_ATTEMPTS - 1 {
                AuthStep::Retry
            } else {
                let mut message = String::from_str("Auth failed with error - ");
                message.append(error.as_str());
                AuthStep::Fatal(message)
            }
        },
    }
}

/// The part of an address that stands for the key of the record.
pub open spec fn id_placeholder() -> Seq<char> {
    "{id}"@
}

/// The request that updates the record `row`.
pub open spec fn api_call_for(
    token: Seq<char>,
    url: Seq<char>,
    row: CsvRowView,
    body: Seq<char>,
    method: Option<Method>,
) -> ApiRequestView {
    ApiRequestView {
        url: substitute(url, id_placeholder(), row.id),
        body,
        method: match method {
            Some(given) => given,
            None => Method::Patch,
        },
        auth_token: token,
    }
}

/// Builds the request that updates the record `csv_row`.
///
/// The request goes to `url`, in which every `{id}` is replaced by the key
/// of the record. It carries `body`, the payload of the record as the
/// service reads it, is authorised by `token` and is sent with `method`, or
/// with PATCH when none is given.
pub fn prepare_api_call(
    token: String,
    url: &String,
    csv_row: &CsvRow,
    body: String,
    method: Option<Method>,
) -> (request: ApiRequest)
    ensures
        request@ == api_call_for(token@, url@, csv_row@, body@, method),
{
    let replaced_url = replace_all(url.as_str(), "{id}", csv_row.id.as_str());
    ApiRequest::create(replaced_url, body, token, method)
}

} // verus!
