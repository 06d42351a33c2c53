//! Classification of outcomes, their tally, and the text of the final
//! report.

use vstd::prelude::*;
use vstd::string::*;

use crate::api_service::{ApiResult, ApiResultView};
use crate::text::{append_decimal, append_signed_decimal, decimal, signed_decimal};

verus! {

/// The status recorded for a request that failed before any response arrived.
pub const FAULT_STATUS: u16 = 500;

/// Whether a response status counts as success: the range 200 to 299, both
/// ends included.
pub open spec fn success_status(status: u16) -> bool {
    200 <= status <= 299
}

/// Whether `status` counts as success.
pub fn is_success_status(status: u16) -> (succeeded: bool)
    ensures
        succeeded == success_status(status),
{
    200 <= status && status <= 299
}

/// The number of outcomes among `outcomes` whose verdict is `succeed`.
pub open spec fn count_verdicts(outcomes: Seq<ApiResultView>, succeed: bool) -> nat
    decreases outcomes.len(),
{
    if outcomes.len() == 0 {
        0
    } else {
        count_verdicts(outcomes.drop_last(), succeed) + if outcomes.last().succeed == succeed {
            1nat
        } else {
            0nat
        }
    }
}

/// The counts of a run.
pub struct ReportView {
    /// The number of outcomes that succeeded.
    pub succeeded: nat,
    /// The number of outcomes that failed.
    pub failed: nat,
    /// The number of entries of the input that were skipped.
    pub skipped: nat,
}

impl ReportView {
    /// The number of records processed: those that succeeded and those that
    /// failed. Skipped entries do not count.
    pub open spec fn total(self) -> nat {
        self.succeeded + self.failed
    }
}

/// The counts of a run that collected `outcomes` and skipped `skipped`
/// entries.
pub open spec fn tally_of(outcomes: Seq<ApiResultView>, skipped: nat) -> ReportView {
    ReportView {
        succeeded: count_verdicts(outcomes, true),
        failed: count_verdicts(outcomes, false),
        skipped,
    }
}

/// Every outcome is counted once: as succeeded or as failed.
pub proof fn lemma_verdicts_partition(outcomes: Seq<ApiResultView>)
    ensures
        count_verdicts(outcomes, true) + count_verdicts(outcomes, false) == outcomes.len(),
    decreases outcomes.len(),
{
    if outcomes.len() > 0 {
        lemma_verdicts_partition(outcomes.drop_last());
    }
}

/// The counts of a run account for every outcome, and grow with each
/// outcome that arrives: a success adds one to the succeeded, a failure adds
/// one to the failed, and neither count ever falls. Skipped entries are no
/// part of the total.
pub proof fn law_tally_counts_every_outcome(
    outcomes: Seq<ApiResultView>,
    outcome: ApiResultView,
    skipped: nat,
)
    ensures
        tally_of(outcomes, skipped).total() == outcomes.len(),
        tally_of(Seq::<ApiResultView>::empty(), skipped).total() == 0,
        tally_of(outcomes.push(outcome), skipped).succeeded == tally_of(outcomes, skipped).succeeded
            + if outcome.succeed {
            1nat
        } else {
            0nat
        },
        tally_of(outcomes.push(outcome), skipped).failed == tally_of(outcomes, skipped).failed
            + if outcome.succeed {
            0nat
        } else {
            1nat
        },
        tally_of(outcomes.push(outcome), skipped).skipped == skipped,
{
    lemma_verdicts_partition(outcomes);
    assert(outcomes.push(outcome).drop_last() =~= outcomes);
}

/// The tally of a run: how many records succeeded, how many failed, and how
/// many entries of the input were skipped.
#[derive(Clone, Copy, Debug, PartialEq, Eq)]
pub struct AggregateReport {
    total: usize,
    succeeded: usize,
    failed: usize,
    skipped: usize,
}

impl View for AggregateReport {
    type V = ReportView;

    closed spec fn view(&self) -> ReportView {
        ReportView {
            succeeded: self.succeeded as nat,
            failed: self.failed as nat,
            skipped: self.skipped as nat,
        }
    }
}

impl AggregateReport {
    #[verifier::type_invariant]
    spec fn sums_up(self) -> bool {
        self.total == self.succeeded + self.failed
    }

    /// The number of records processed.
    pub fn total(&self) -> (total: usize)
        ensures
            total == self@.total(),
    {
        proof {
            use_type_invariant(self);
        }
        self.total
    }

    /// The number of records whose request succeeded.
    pub fn succeeded(&self) -> (succeeded: usize)
        ensures
            succeeded == self@.succeeded,
    {
        self.succeeded
    }

    /// The number of records whose request failed.
    pub fn failed(&self) -> (failed: usize)
        ensures
            failed == self@.failed,
    {
        self.failed
    }

    /// The number of entries of the input that were skipped.
    pub fn skipped(&self) -> (skipped: usize)
        ensures
            skipped == self@.skipped,
    {
        self.skipped
    }

    /// The closing lines of the report; `elapsed` is the time the run took,
    /// in seconds, as it is to be shown.
    pub fn summary(&self, elapsed: &str) -> (lines: String)
        ensures
            lines@ == summary_text(self@, elapsed@),
    {
        let mut lines = String::from_str("\nDone!\nTotal tasks executed: ");
        append_decimal(&mut lines, self.total() as u64);
        lines.append("\nSuccessful: ");
        append_decimal(&mut lines, self.succeeded as u64);
        lines.append(" | Failed: ");
        append_decimal(&mut lines, self.failed as u64);
        lines.append("\nTime elapsed: ");
        lines.append(elapsed);
        lines.append(" - seconds");
        lines
    }
}

/// The closing lines of the report of a run with the counts `report` that
/// took `elapsed` seconds.
pub open spec fn summary_text(report: ReportView, elapsed: Seq<char>) -> Seq<char> {
    "\nDone!\nTotal tasks executed: "@ + decimal(report.total()) + "\nSuccessful: "@ + decimal(
        report.succeeded,
    ) + " | Failed: "@ + decimal(report.failed) + "\nTime elapsed: "@ + elapsed + " - seconds"@
}

/// Counts the verdicts of `outcomes`; `skipped` is the number of entries of
/// the input that were skipped.
pub fn tally(outcomes: &Vec<ApiResult>, skipped: usize) -> (report: AggregateReport)
    ensures
        report@ == tally_of(outcomes@.map_values(|outcome: ApiResult| outcome@), skipped as nat),
{
    let ghost views = outcomes@.map_values(|outcome: ApiResult| outcome@);
    let mut succeeded: usize = 0;
    let mut failed: usize = 0;
    let mut i: usize = 0;
    while i < outcomes.len()
        invariant
            views == outcomes@.map_values(|outcome: ApiResult| outcome@),
            i <= outcomes.len(),
            succeeded == count_verdicts(views.take(i as int), true),
            failed == count_verdicts(views.take(i as int), false),
            succeeded + failed == i,
        decreases outcomes.len() - i,
    {
        proof {
            assert(views.take(i + 1).drop_last() =~= views.take(i as int));
        }
        if outcomes[i].succeed {
            succeeded = succeeded + 1;
        } else {
            failed = failed + 1;
        }
        i = i + 1;
    }
    proof {
        assert(views.take(i as int) =~= views);
    }
    AggregateReport { total: succeeded + failed, succeeded, failed, skipped }
}

/// The line of the report that tells of `outcome`.
pub open spec fn outcome_text(outcome: ApiResultView) -> Seq<char> {
    if outcome.succeed {
        "Status successfully changed for item "@ + outcome.row.mid + " in market "@
            + outcome.row.market + ", new status is "@ + signed_decimal(outcome.row.status as int)
            + match outcome.row.status_reason {
            Some(reason) => ", reason is "@ + reason,
            None => Seq::<char>::empty(),
        }
    } else {
        "Status did not changed for item "@ + outcome.row.mid + " in market "@ + outcome.row.market
            + ", response is "@ + outcome.body
    }
}

/// The line of the report that tells of `outcome`: the change that was
/// made, or the answer with which the service refused it.
pub fn outcome_line(outcome: &ApiResult) -> (line: String)
    ensures
        line@ == outcome_text(outcome@),
{
    if outcome.succeed {
        let mut line = String::from_str("Status successfully changed for item ");
        line.append(outcome.row.mid.as_str());
        line.append(" in market ");
        line.append(outcome.row.market.as_str());
        line.append(", new status is ");
        append_signed_decimal(&mut line, outcome.row.status as i64);
        match &outcome.row.status_reason {
            Some(reason) => {
                line.append(", reason is ");
                line.append(reason.as_str());
            },
            None => {},
        }
        line
    } else {
        let mut line = String::from_str("Status did not changed for item ");
        line.append(outcome.row.mid.as_str());
        line.append(" in market ");
        line.append(outcome.row.market.as_str());
        line.append(", response is ");
        line.append(outcome.body.as_str());
        line
    }
}

/// The lines of the report that tell of `outcomes`, one for each and in
/// their order.
pub fn outcome_lines(outcomes: &Vec<ApiResult>) -> (lines: Vec<String>)
    ensures
        lines@.len() == outcomes@.len(),
        forall|i: int| 0 <= i < outcomes@.len() ==> lines@[i]@ == outcome_text(outcomes@[i]@),
{
    let mut lines: Vec<String> = Vec::new();
    let mut i: usize = 0;
    while i < outcomes.len()
        invariant
            i <= outcomes@.len(),
            lines@.len() == i,
            forall|j: int| 0 <= j < i ==> lines@[j]@ == outcome_text(outcomes@[j]@),
        decreases outcomes@.len() - i,
    {
        lines.push(outcome_line(&outcomes[i]));
        i = i + 1;
    }
    lines
}

} // verus!
