//! The dispatcher of a run.
//!
//! A run authenticates, then turns the entries of its input into requests of
//! which at most a fixed number are in flight at once, and collects one
//! outcome for every request. Every request in flight holds a permit, and
//! there are as many permits as the limit of the run allows.
//!
//! The dispatcher holds the state of a run and makes its decisions; it
//! performs nothing itself. Whoever drives it asks
//! [`Dispatcher::next_action`] what to do, does it, and reports what came of
//! it to [`Dispatcher::step`].

use vstd::prelude::*;
use vstd::string::*;

use crate::api_service::{
    auth_failure_message,
    authenticate,
    outcome_of,
    unwrap_response,
    ApiResult,
    ApiResultView,
    AuthStep,
    MAX_AUTH_ATTEMPTS,
};
use crate::client::{
    call_result_view,
    token_text,
    ApiResponseView,
    AuthResponse,
    AuthResponseView,
    CallResult,
};
use crate::reader::{CsvRow, CsvRowView};
use crate::report::{tally, tally_of, AggregateReport};

verus! {

/// Why a dispatcher cannot be made.
#[derive(Clone, Copy, Debug, PartialEq, Eq, Structural)]
pub enum ConfigError {
    /// The limit of requests in flight is zero.
    ZeroLimit,
}

/// What a [`ConfigError`] tells the operator.
pub open spec fn config_error_text(error: ConfigError) -> Seq<char> {
    match error {
        ConfigError::ZeroLimit => "the limit of requests in flight must be at least 1"@,
    }
}

impl ConfigError {
    /// What the error tells the operator.
    pub fn message(&self) -> (text: String)
        ensures
            text@ == config_error_text(*self),
    {
        match self {
            ConfigError::ZeroLimit => String::from_str(
                "the limit of requests in flight must be at least 1",
            ),
        }
    }
}

/// What the driver of a run is to do next.
#[derive(Clone, Copy, Debug, PartialEq, Eq, Structural)]
pub enum Action {
    /// Make one authentication call and report its reply.
    Authenticate,
    /// Ask the input for its next entry and report it.
    Pull,
    /// Wait until one request in flight has ended and report how.
    AwaitCompletion,
    /// Nothing is left to do: the outcomes are complete.
    Finish,
    /// No credential was granted: the run is over before any request.
    Abort,
}

/// The leave to have one request in flight. A request is started with the
/// permit that its launch hands out, and reports its end with it. A permit
/// cannot be copied.
#[derive(Debug, PartialEq, Eq)]
pub struct Permit {
    place: usize,
}

impl View for Permit {
    type V = nat;

    closed spec fn view(&self) -> nat {
        self.place as nat
    }
}

impl Permit {
    /// The number of the place that the permit stands for; the places of a
    /// run are numbered from zero.
    pub fn place(&self) -> (place: usize)
        ensures
            place == self@,
    {
        self.place
    }
}

/// What the driver of a run reports.
#[derive(Debug)]
pub enum Event {
    /// An authentication call ended with a credential, or with the reason
    /// why none was granted.
    AuthReply(Result<AuthResponse, String>),
    /// The input gave a record.
    Item(CsvRow),
    /// The input gave an entry that is no record; the text says why.
    DecodeFailure(String),
    /// The input has no further entry.
    EndOfInput,
    /// The request that held `permit` ended with `result`.
    Completed { permit: Permit, result: CallResult },
}

/// An [`Event`] as plain values.
pub enum EventView {
    AuthReply(Result<AuthResponseView, Seq<char>>),
    Item(CsvRowView),
    DecodeFailure(Seq<char>),
    EndOfInput,
    Completed { permit: nat, result: Result<ApiResponseView, Seq<char>> },
}

impl View for Event {
    type V = EventView;

    open spec fn view(&self) -> EventView {
        match *self {
            Event::AuthReply(Ok(response)) => EventView::AuthReply(Ok(response@)),
            Event::AuthReply(Err(error)) => EventView::AuthReply(Err(error@)),
            Event::Item(row) => EventView::Item(row@),
            Event::DecodeFailure(reason) => EventView::DecodeFailure(reason@),
            Event::EndOfInput => EventView::EndOfInput,
            Event::Completed { permit, result } => EventView::Completed {
                permit: permit@,
                result: call_result_view(result),
            },
        }
    }
}

/// What the dispatcher made of an event.
#[derive(Debug)]
pub enum Effect {
    /// A credential was granted: the input may be read now.
    Authenticated,
    /// The authentication call failed and one more is due.
    RetryAuthentication,
    /// The last authentication call failed: the run ends with this message.
    Aborted(String),
    /// The record took a free place: its request is to be started now, with
    /// the credential `token`, and is to report its end with `permit`.
    Launch { permit: Permit, item: CsvRow, token: String },
    /// The entry was skipped: this line tells the operator.
    Skipped(String),
    /// The end of the input was noted.
    InputClosed,
    /// The outcome of the request was collected and its place is free again.
    Recorded,
    /// The event does not fit the state of the run. Nothing has changed, and
    /// the event is handed back.
    Rejected(Event),
}

/// An [`Effect`] as plain values.
pub enum EffectView {
    Authenticated,
    RetryAuthentication,
    Aborted(Seq<char>),
    Launch { permit: nat, item: CsvRowView, token: Seq<char> },
    Skipped(Seq<char>),
    InputClosed,
    Recorded,
    Rejected(EventView),
}

impl View for Effect {
    type V = EffectView;

    open spec fn view(&self) -> EffectView {
        match *self {
            Effect::Authenticated => EffectView::Authenticated,
            Effect::RetryAuthentication => EffectView::RetryAuthentication,
            Effect::Aborted(message) => EffectView::Aborted(message@),
            Effect::Launch { permit, item, token } => EffectView::Launch {
                permit: permit@,
                item: item@,
                token: token@,
            },
            Effect::Skipped(line) => EffectView::Skipped(line@),
            Effect::InputClosed => EffectView::InputClosed,
            Effect::Recorded => EffectView::Recorded,
            Effect::Rejected(event) => EffectView::Rejected(event@),
        }
    }
}

/// The stage of a run.
pub enum PhaseView {
    /// No credential yet; `failures` authentication calls have failed.
    Authenticating { failures: nat },
    /// The credential `token` was granted and requests may be made.
    Dispatching { token: Seq<char> },
    /// No credential was granted; the run ended with `reason`.
    Aborted { reason: Seq<char> },
}

/// The places of a run: place `p` holds the record whose request is in
/// flight with permit `p`, or nothing when that permit is free.
pub type Places = Seq<Option<CsvRowView>>;

/// The state of a run.
pub struct RunView {
    /// The number of requests that may be in flight at once.
    pub limit: nat,
    /// The stage of the run.
    pub phase: PhaseView,
    /// The places that were ever taken, and what they hold now.
    pub places: Places,
    /// The outcomes collected so far, in the order in which they arrived.
    pub outcomes: Seq<ApiResultView>,
    /// The reasons of the entries skipped so far, in the order of the input.
    pub skipped: Seq<Seq<char>>,
    /// Whether the end of the input was reached.
    pub input_done: bool,
}

/// The number of places among `places` that hold a record.
pub open spec fn taken(places: Places) -> nat
    decreases places.len(),
{
    if places.len() == 0 {
        0
    } else {
        taken(places.drop_last()) + if places.last() is Some {
            1nat
        } else {
            0nat
        }
    }
}

/// The lowest place among `places` from `from` on that is free; the number
/// of places when none of them is.
pub open spec fn lowest_free_from(places: Places, from: nat) -> nat
    decreases places.len() - from,
{
    if from >= places.len() {
        places.len()
    } else if places[from as int] is None {
        from
    } else {
        lowest_free_from(places, from + 1)
    }
}

/// The lowest place among `places` that is free; the number of places when
/// none of them is.
pub open spec fn lowest_free(places: Places) -> nat {
    lowest_free_from(places, 0)
}

/// `places` after `row` took the place `place`: one of those that are there,
/// or a further one.
pub open spec fn occupy(places: Places, place: nat, row: CsvRowView) -> Places {
    if place < places.len() {
        places.update(place as int, Some(row))
    } else {
        places.push(Some(row))
    }
}

impl RunView {
    /// The number of requests in flight.
    pub open spec fn in_flight(self) -> nat {
        taken(self.places)
    }

    /// Whether a request is in flight with `permit`.
    pub open spec fn holds(self, permit: nat) -> bool {
        permit < self.places.len() && self.places[permit as int] is Some
    }
}

/// The state in which a run with the given limit begins.
pub open spec fn start(limit: nat) -> RunView {
    RunView {
        limit,
        phase: PhaseView::Authenticating { failures: 0 },
        places: Seq::empty(),
        outcomes: Seq::empty(),
        skipped: Seq::empty(),
        input_done: false,
    }
}

/// What holds of the state of every run: the limit is at least one, there
/// are no more places than the limit allows, fewer authentication calls have
/// failed than a run may make, and nothing is read or requested without a
/// credential.
pub open spec fn well_formed(run: RunView) -> bool {
    &&& run.limit >= 1
    &&& run.places.len() <= run.limit
    &&& run.phase matches PhaseView::Authenticating { failures } ==> failures < MAX_AUTH_ATTEMPTS
    &&& !(run.phase is Dispatching) ==> {
        &&& run.places.len() == 0
        &&& run.outcomes.len() == 0
        &&& run.skipped.len() == 0
        &&& !run.input_done
    }
}

/// The line that tells the operator of a skipped entry.
pub open spec fn skip_line(reason: Seq<char>) -> Seq<char> {
    "Failed to deserialize row, "@ + reason
}

/// What the driver is to do in the state `run`.
pub open spec fn next_action_of(run: RunView) -> Action {
    match run.phase {
        PhaseView::Authenticating { .. } => Action::Authenticate,
        PhaseView::Aborted { .. } => Action::Abort,
        PhaseView::Dispatching { .. } => if !run.input_done && run.in_flight() < run.limit {
            Action::Pull
        } else if run.in_flight() > 0 {
            Action::AwaitCompletion
        } else {
            Action::Finish
        },
    }
}

/// The state that follows `run` when `event` is reported, and what the
/// dispatcher makes of the event.
///
/// - A credential ends the authentication: requests are made with its token
///   from then on. A first failed authentication call is followed by a
///   retry, a second one ends the run.
/// - A record is accepted while input is expected and fewer requests are in
///   flight than the limit allows; it takes the lowest free place, and its
///   request is started with the permit of that place.
/// - An entry that is no record is skipped while input is expected; it takes
///   no place.
/// - The end of a request is accepted when a request is in flight with its
///   permit; the outcome of the record in that place is collected, and the
///   place is free again.
/// - Any other event is rejected and changes nothing.
pub open spec fn transition(run: RunView, event: EventView) -> (RunView, EffectView) {
    match run.phase {
        PhaseView::Authenticating { failures } => match event {
            EventView::AuthReply(Ok(response)) => (
                RunView { phase: PhaseView::Dispatching { token: token_text(response) }, ..run },
                EffectView::Authenticated,
            ),
            EventView::AuthReply(Err(error)) => if failures + 1 < MAX_AUTH_ATTEMPTS {
                (
                    RunView { phase: PhaseView::Authenticating { failures: failures + 1 }, ..run },
                    EffectView::RetryAuthentication,
                )
            } else {
                (
                    RunView {
                        phase: PhaseView::Aborted { reason: auth_failure_message(error) },
                        ..run
                    },
                    EffectView::Aborted(auth_failure_message(error)),
                )
            },
            _ => (run, EffectView::Rejected(event)),
        },
        PhaseView::Dispatching { token } => match event {
            EventView::Item(row) => if !run.input_done && run.in_flight() < run.limit {
                (
                    RunView { places: occupy(run.places, lowest_free(run.places), row), ..run },
                    EffectView::Launch { permit: lowest_free(run.places), item: row, token },
                )
            } else {
                (run, EffectView::Rejected(event))
            },
            EventView::DecodeFailure(reason) => if !run.input_done {
                (
                    RunView { skipped: run.skipped.push(reason), ..run },
                    EffectView::Skipped(skip_line(reason)),
                )
            } else {
                (run, EffectView::Rejected(event))
            },
            EventView::EndOfInput => if !run.input_done {
                (RunView { input_done: true, ..run }, EffectView::InputClosed)
            } else {
                (run, EffectView::Rejected(event))
            },
            EventView::Completed { permit, result } => if run.holds(permit) {
                (
                    RunView {
                        places: run.places.update(permit as int, None),
                        outcomes: run.outcomes.push(
                            outcome_of(result, run.places[permit as int]->0),
                        ),
                        ..run
                    },
                    EffectView::Recorded,
                )
            } else {
                (run, EffectView::Rejected(event))
            },
            EventView::AuthReply(_) => (run, EffectView::Rejected(event)),
        },
        PhaseView::Aborted { .. } => (run, EffectView::Rejected(event)),
    }
}

/// Whether `event` reports what the run asks for in the state `run`: the
/// reply of an authentication call, an entry or the end of the input, or the
/// end of a request that is in flight. A run that is finished or aborted
/// asks for nothing.
pub open spec fn answers(run: RunView, event: EventView) -> bool {
    match next_action_of(run) {
        Action::Authenticate => event is AuthReply,
        Action::Pull => event is Item || event is DecodeFailure || event is EndOfInput,
        Action::AwaitCompletion => event matches EventView::Completed { permit, .. } && run.holds(
            permit,
        ),
        Action::Finish => false,
        Action::Abort => false,
    }
}

/// The state that `run` reaches when `events` are reported to it in turn.
pub open spec fn after(run: RunView, events: Seq<EventView>) -> RunView
    decreases events.len(),
{
    if events.len() == 0 {
        run
    } else {
        transition(after(run, events.drop_last()), events.last()).0
    }
}

/// What the dispatcher makes of the last of `events`, when they are reported
/// in turn from `run`.
pub open spec fn last_effect(run: RunView, events: Seq<EventView>) -> EffectView
    recommends
        events.len() > 0,
{
    transition(after(run, events.drop_last()), events.last()).1
}

/// Whether none of `events` is rejected when they are reported in turn from
/// `run`.
pub open spec fn accepted(run: RunView, events: Seq<EventView>) -> bool
    decreases events.len(),
{
    events.len() == 0 || (accepted(run, events.drop_last()) && !(last_effect(run, events)
        is Rejected))
}

/// The number of requests started when `events` are reported in turn from
/// `run`.
pub open spec fn launches(run: RunView, events: Seq<EventView>) -> nat
    decreases events.len(),
{
    if events.len() == 0 {
        0
    } else {
        launches(run, events.drop_last()) + if last_effect(run, events) is Launch {
            1nat
        } else {
            0nat
        }
    }
}

/// The number of authentication calls whose reply was taken note of when
/// `events` are reported in turn from `run`.
pub open spec fn auth_calls(run: RunView, events: Seq<EventView>) -> nat
    decreases events.len(),
{
    if events.len() == 0 {
        0
    } else {
        auth_calls(run, events.drop_last()) + if events.last() is AuthReply && !(last_effect(
            run,
            events,
        ) is Rejected) {
            1nat
        } else {
            0nat
        }
    }
}

/// The number of records among `events`.
pub open spec fn records_in(events: Seq<EventView>) -> nat
    decreases events.len(),
{
    if events.len() == 0 {
        0
    } else {
        records_in(events.drop_last()) + if events.last() is Item {
            1nat
        } else {
            0nat
        }
    }
}

/// The number of entries among `events` that are no records.
pub open spec fn decode_failures_in(events: Seq<EventView>) -> nat
    decreases events.len(),
{
    if events.len() == 0 {
        0
    } else {
        decode_failures_in(events.drop_last()) + if events.last() is DecodeFailure {
            1nat
        } else {
            0nat
        }
    }
}

/// Whether `event` reports the end of the request with `permit`.
pub open spec fn ends(event: EventView, permit: nat) -> bool {
    event matches EventView::Completed { permit: ended, .. } && ended == permit
}

/// Whether none of `events` reports the end of the request with `permit`.
pub open spec fn leaves_alone(events: Seq<EventView>, permit: nat) -> bool {
    forall|k: int| 0 <= k < events.len() ==> !ends(#[trigger] events[k], permit)
}

/// No more places are taken than there are.
pub proof fn lemma_taken_is_bounded(places: Places)
    ensures
        taken(places) <= places.len(),
    decreases places.len(),
{
    if places.len() > 0 {
        lemma_taken_is_bounded(places.drop_last());
    }
}

/// Filling or freeing one place changes the number of taken places by what
/// that place held and holds.
pub proof fn lemma_taken_after_update(places: Places, place: int, content: Option<CsvRowView>)
    requires
        0 <= place < places.len(),
    ensures
        taken(places.update(place, content)) + if places[place] is Some {
            1nat
        } else {
            0nat
        } == taken(places) + if content is Some {
            1nat
        } else {
            0nat
        },
    decreases places.len(),
{
    let updated = places.update(place, content);
    if place == places.len() - 1 {
        assert(updated.drop_last() =~= places.drop_last());
    } else {
        assert(updated.drop_last() =~= places.drop_last().update(place, content));
        lemma_taken_after_update(places.drop_last(), place, content);
    }
}

/// The lowest free place from `from` on lies at or after `from`, every place
/// between the two is taken, and it is free unless it lies past the last
/// place.
pub proof fn lemma_lowest_free_from(places: Places, from: nat)
    requires
        from <= places.len(),
    ensures
        from <= lowest_free_from(places, from) <= places.len(),
        forall|i: int| from <= i < lowest_free_from(places, from) ==> places[i] is Some,
        lowest_free_from(places, from) < places.len() ==> places[lowest_free_from(
            places,
            from,
        ) as int] is None,
    decreases places.len() - from,
{
    if from < places.len() && places[from as int] is Some {
        lemma_lowest_free_from(places, from + 1);
    }
}

/// Where every place is taken, as many are taken as there are.
pub proof fn lemma_all_taken(places: Places)
    requires
        forall|i: int| 0 <= i < places.len() ==> places[i] is Some,
    ensures
        taken(places) == places.len(),
    decreases places.len(),
{
    if places.len() > 0 {
        lemma_all_taken(places.drop_last());
    }
}

/// A record that takes the lowest free place adds one to the taken places,
/// and a further place only where all that are there are taken.
pub proof fn lemma_occupy_lowest_free(places: Places, row: CsvRowView)
    ensures
        taken(occupy(places, lowest_free(places), row)) == taken(places) + 1,
        occupy(places, lowest_free(places), row).len() <= places.len() + 1,
        occupy(places, lowest_free(places), row).len() > places.len() ==> taken(places)
            == places.len(),
        lowest_free(places) < occupy(places, lowest_free(places), row).len(),
        occupy(places, lowest_free(places), row)[lowest_free(places) as int] == Some(row),
        forall|i: int|
            0 <= i < places.len() && i != lowest_free(places) ==> occupy(
                places,
                lowest_free(places),
                row,
            )[i] == places[i],
{
    lemma_lowest_free_from(places, 0);
    let place = lowest_free(places);
    if place < places.len() {
        lemma_taken_after_update(places, place as int, Some(row));
    } else {
        lemma_all_taken(places);
        assert(places.push(Some(row)).drop_last() =~= places);
    }
}

/// The dispatcher accepts what it asks for: a driver that reports the end of
/// what the run asked for is never rejected.
pub proof fn law_what_is_asked_for_is_accepted(run: RunView, event: EventView)
    requires
        answers(run, event),
    ensures
        !(transition(run, event).1 is Rejected),
{
}

/// No event leads out of the well-formed states, and none changes the limit
/// of a run.
pub proof fn law_transitions_keep_well_formed(run: RunView, event: EventView)
    requires
        well_formed(run),
    ensures
        well_formed(transition(run, event).0),
        transition(run, event).0.limit == run.limit,
{
    if run.phase is Dispatching {
        if let EventView::Item(row) = event {
            lemma_occupy_lowest_free(run.places, row);
        }
    }
}

/// Reporting two events in a row is one transition after the other.
pub proof fn lemma_after_two(run: RunView, first: EventView, second: EventView)
    ensures
        after(run, seq![first, second]) == transition(transition(run, first).0, second).0,
{
    let both = seq![first, second];
    assert(both.drop_last() =~= seq![first]);
    assert(seq![first].drop_last() =~= Seq::<EventView>::empty());
    assert(after(run, Seq::<EventView>::empty()) == run);
    assert(after(run, seq![first]) == transition(run, first).0);
}

/// Reporting `first` and then `second` is reporting the two in a row.
pub proof fn lemma_after_concat(run: RunView, first: Seq<EventView>, second: Seq<EventView>)
    ensures
        after(run, first + second) == after(after(run, first), second),
    decreases second.len(),
{
    if second.len() > 0 {
        assert((first + second).drop_last() =~= first + second.drop_last());
        lemma_after_concat(run, first, second.drop_last());
    }
}

/// A run that begins in a well-formed state stays in the well-formed states
/// and keeps its limit.
pub proof fn lemma_runs_stay_well_formed(run: RunView, events: Seq<EventView>)
    requires
        well_formed(run),
    ensures
        well_formed(after(run, events)),
        after(run, events).limit == run.limit,
    decreases events.len(),
{
    if events.len() > 0 {
        lemma_runs_stay_well_formed(run, events.drop_last());
        law_transitions_keep_well_formed(after(run, events.drop_last()), events.last());
    }
}

/// At no moment of a run are more requests in flight than its limit allows:
/// whatever is reported, and in whatever order, every state that the run
/// passes through is well formed and has at most `limit` requests in flight.
pub proof fn law_capacity_is_never_exceeded(limit: nat, events: Seq<EventView>)
    requires
        limit >= 1,
    ensures
        forall|k: int|
            0 <= k <= events.len() ==> {
                &&& well_formed(#[trigger] after(start(limit), events.take(k)))
                &&& after(start(limit), events.take(k)).in_flight() <= limit
            },
{
    assert forall|k: int| 0 <= k <= events.len() implies {
        &&& well_formed(#[trigger] after(start(limit), events.take(k)))
        &&& after(start(limit), events.take(k)).in_flight() <= limit
    } by {
        lemma_runs_stay_well_formed(start(limit), events.take(k));
        lemma_taken_is_bounded(after(start(limit), events.take(k)).places);
    }
}

/// Every request that was started is either in flight or has given exactly
/// one outcome; entries that are no records start no request and are
/// counted apart. When nothing is left to do, there are as many outcomes as
/// requests were started.
pub proof fn law_one_outcome_per_launch(limit: nat, events: Seq<EventView>)
    requires
        limit >= 1,
    ensures
        after(start(limit), events).in_flight() + after(start(limit), events).outcomes.len()
            == launches(start(limit), events),
        next_action_of(after(start(limit), events)) is Finish ==> after(
            start(limit),
            events,
        ).outcomes.len() == launches(start(limit), events),
        launches(start(limit), events) <= records_in(events),
        after(start(limit), events).skipped.len() <= decode_failures_in(events),
    decreases events.len(),
{
    if events.len() > 0 {
        let before = after(start(limit), events.drop_last());
        law_one_outcome_per_launch(limit, events.drop_last());
        match events.last() {
            EventView::Item(row) => {
                lemma_occupy_lowest_free(before.places, row);
            },
            EventView::Completed { permit, result } => {
                if before.holds(permit) {
                    lemma_taken_after_update(before.places, permit as int, None);
                }
            },
            _ => {},
        }
    }
}

/// Authentication comes before everything else: as long as no credential is
/// granted, no entry of the input is taken note of, no request is started
/// and no outcome collected.
pub proof fn law_nothing_starts_without_a_credential(limit: nat, events: Seq<EventView>)
    requires
        limit >= 1,
    ensures
        !(after(start(limit), events).phase is Dispatching) ==> {
            &&& launches(start(limit), events) == 0
            &&& after(start(limit), events).in_flight() == 0
            &&& after(start(limit), events).outcomes.len() == 0
            &&& after(start(limit), events).skipped.len() == 0
            &&& !after(start(limit), events).input_done
        },
{
    law_one_outcome_per_launch(limit, events);
    lemma_runs_stay_well_formed(start(limit), events);
}

/// In a run whose driver reported only what was accepted, every record that
/// the input gave has started one request, and every entry that is no record
/// was skipped: when nothing is left to do, the run has as many outcomes as
/// its input gave records.
pub proof fn law_one_outcome_per_record(limit: nat, events: Seq<EventView>)
    requires
        limit >= 1,
        accepted(start(limit), events),
    ensures
        launches(start(limit), events) == records_in(events),
        after(start(limit), events).skipped.len() == decode_failures_in(events),
        next_action_of(after(start(limit), events)) is Finish ==> after(
            start(limit),
            events,
        ).outcomes.len() == records_in(events),
    decreases events.len(),
{
    if events.len() > 0 {
        law_one_outcome_per_record(limit, events.drop_last());
    }
    law_one_outcome_per_launch(limit, events);
}

/// A request keeps its place until its own end is reported: whatever else is
/// reported meanwhile, the place of `permit` holds the same record.
pub proof fn lemma_others_leave_the_place(
    run: RunView,
    permit: nat,
    row: CsvRowView,
    events: Seq<EventView>,
)
    requires
        run.phase is Dispatching,
        run.holds(permit),
        run.places[permit as int] == Some(row),
        leaves_alone(events, permit),
    ensures
        after(run, events).holds(permit),
        after(run, events).places[permit as int] == Some(row),
        after(run, events).phase == run.phase,
    decreases events.len(),
{
    if events.len() > 0 {
        let earlier = events.drop_last();
        lemma_others_leave_the_place(run, permit, row, earlier);
        if events.last() is Item {
            lemma_lowest_free_from(after(run, earlier).places, 0);
        }
    }
}

/// Every request that is started gives exactly one outcome, and that outcome
/// is its own. When a record is launched, then whatever is reported before
/// the end of its request, and however the other requests end, the report of
/// its end is accepted and adds the outcome that this end means for this
/// record; after that its permit is spent, and a second report of the same
/// end is rejected.
pub proof fn law_each_launch_gets_its_outcome(
    run: RunView,
    row: CsvRowView,
    meanwhile: Seq<EventView>,
    result: Result<ApiResponseView, Seq<char>>,
)
    requires
        transition(run, EventView::Item(row)).1 is Launch,
        leaves_alone(meanwhile, transition(run, EventView::Item(row)).1->permit),
    ensures
        ({
            let permit = transition(run, EventView::Item(row)).1->permit;
            let launched = transition(run, EventView::Item(row)).0;
            let before = after(launched, meanwhile);
            let ended = transition(before, EventView::Completed { permit, result });
            &&& transition(run, EventView::Item(row)).1->item == row
            &&& !run.holds(permit)
            &&& before.holds(permit)
            &&& ended.1 is Recorded
            &&& ended.0.outcomes == before.outcomes.push(outcome_of(result, row))
            &&& ended.0.in_flight() + 1 == before.in_flight()
            &&& !ended.0.holds(permit)
            &&& transition(ended.0, EventView::Completed { permit, result }).1 is Rejected
        }),
{
    let permit = transition(run, EventView::Item(row)).1->permit;
    let launched = transition(run, EventView::Item(row)).0;
    lemma_occupy_lowest_free(run.places, row);
    lemma_lowest_free_from(run.places, 0);
    lemma_others_leave_the_place(launched, permit, row, meanwhile);
    let before = after(launched, meanwhile);
    lemma_taken_after_update(before.places, permit as int, None);
}

/// A run makes at most two authentication calls.
pub proof fn law_at_most_two_auth_calls(limit: nat, events: Seq<EventView>)
    requires
        limit >= 1,
    ensures
        auth_calls(start(limit), events) <= MAX_AUTH_ATTEMPTS,
{
    lemma_auth_calls_are_failures(limit, events);
    lemma_runs_stay_well_formed(start(limit), events);
}

proof fn lemma_auth_calls_are_failures(limit: nat, events: Seq<EventView>)
    requires
        limit >= 1,
    ensures
        match after(start(limit), events).phase {
            PhaseView::Authenticating { failures } => auth_calls(start(limit), events) == failures,
            _ => auth_calls(start(limit), events) <= MAX_AUTH_ATTEMPTS,
        },
    decreases events.len(),
{
    if events.len() > 0 {
        lemma_auth_calls_are_failures(limit, events.drop_last());
        lemma_runs_stay_well_formed(start(limit), events.drop_last());
    }
}

/// The records among two rows of events are those of the one and those of
/// the other.
pub proof fn lemma_records_in_concat(first: Seq<EventView>, second: Seq<EventView>)
    ensures
        records_in(first + second) == records_in(first) + records_in(second),
    decreases second.len(),
{
    if second.len() > 0 {
        assert((first + second).drop_last() =~= first + second.drop_last());
        lemma_records_in_concat(first, second.drop_last());
    }
}

/// When the first authentication call fails and the second one brings a
/// credential, a retry follows the failure and the run goes on with the
/// token of the second reply: nothing else of its state has changed, every
/// request that is started from then on carries that token, and a driver
/// that reports only what is accepted starts a request for every record of
/// the input.
pub proof fn law_retry_takes_second_token(
    limit: nat,
    error: Seq<char>,
    response: AuthResponseView,
    rest: Seq<EventView>,
)
    requires
        limit >= 1,
    ensures
        transition(start(limit), EventView::AuthReply(Err(error))).1
            is RetryAuthentication,
        after(
            start(limit),
            seq![EventView::AuthReply(Err(error)), EventView::AuthReply(Ok(response))],
        ) == (RunView {
            phase: PhaseView::Dispatching { token: token_text(response) },
            ..start(limit)
        }),
        after(
            start(limit),
            seq![EventView::AuthReply(Err(error)), EventView::AuthReply(Ok(response))] + rest,
        ).phase == (PhaseView::Dispatching { token: token_text(response) }),
        rest.len() > 0 ==> (last_effect(
            start(limit),
            seq![EventView::AuthReply(Err(error)), EventView::AuthReply(Ok(response))] + rest,
        ) matches EffectView::Launch { token, .. } ==> token == token_text(response)),
        accepted(
            start(limit),
            seq![EventView::AuthReply(Err(error)), EventView::AuthReply(Ok(response))] + rest,
        ) ==> launches(
            start(limit),
            seq![EventView::AuthReply(Err(error)), EventView::AuthReply(Ok(response))] + rest,
        ) == records_in(rest),
{
    let first = EventView::AuthReply(Err(error));
    let second = EventView::AuthReply(Ok(response));
    let replies = seq![first, second];
    let granted = RunView {
        phase: PhaseView::Dispatching { token: token_text(response) },
        ..start(limit)
    };
    lemma_after_two(start(limit), first, second);
    lemma_after_concat(start(limit), replies, rest);
    lemma_credential_is_fixed(granted, rest);
    if accepted(start(limit), replies + rest) {
        law_one_outcome_per_record(limit, replies + rest);
        lemma_records_in_concat(replies, rest);
        assert(records_in(replies) == 0) by {
            assert(replies.drop_last() =~= seq![first]);
            assert(seq![first].drop_last() =~= Seq::<EventView>::empty());
            reveal_with_fuel(records_in, 3);
        }
    }
}

/// Once a credential is granted, the run keeps it to its end.
pub proof fn lemma_credential_is_fixed(run: RunView, events: Seq<EventView>)
    requires
        run.phase is Dispatching,
    ensures
        after(run, events).phase == run.phase,
    decreases events.len(),
{
    if events.len() > 0 {
        lemma_credential_is_fixed(run, events.drop_last());
    }
}

/// When both authentication calls fail, the run ends with the reason of the
/// second failure, and whatever is reported after that changes nothing: no
/// entry is read and no request is started.
pub proof fn law_two_failures_abort(
    limit: nat,
    first: Seq<char>,
    second: Seq<char>,
    rest: Seq<EventView>,
)
    requires
        limit >= 1,
    ensures
        after(
            start(limit),
            seq![EventView::AuthReply(Err(first)), EventView::AuthReply(Err(second))] + rest,
        ) == (RunView {
            phase: PhaseView::Aborted { reason: auth_failure_message(second) },
            ..start(limit)
        }),
        launches(
            start(limit),
            seq![EventView::AuthReply(Err(first)), EventView::AuthReply(Err(second))] + rest,
        ) == 0,
        next_action_of(
            after(
                start(limit),
                seq![EventView::AuthReply(Err(first)), EventView::AuthReply(Err(second))] + rest,
            ),
        ) is Abort,
{
    let one = EventView::AuthReply(Err(first));
    let two = EventView::AuthReply(Err(second));
    let replies = seq![one, two];
    let aborted = RunView {
        phase: PhaseView::Aborted { reason: auth_failure_message(second) },
        ..start(limit)
    };
    lemma_after_two(start(limit), one, two);
    lemma_after_concat(start(limit), replies, rest);
    lemma_aborted_run_is_over(aborted, rest);
    law_one_outcome_per_launch(limit, replies + rest);
}

/// Nothing changes the state of a run that ended without a credential.
pub proof fn lemma_aborted_run_is_over(run: RunView, events: Seq<EventView>)
    requires
        run.phase is Aborted,
    ensures
        after(run, events) == run,
    decreases events.len(),
{
    if events.len() > 0 {
        lemma_aborted_run_is_over(run, events.drop_last());
    }
}

proof fn lemma_lowest_free_skips_taken(places: Places, from: nat)
    requires
        from <= places.len(),
        forall|i: int| 0 <= i < from ==> places[i] is Some,
    ensures
        lowest_free_from(places, from) == lowest_free(places),
    decreases from,
{
    if from > 0 {
        lemma_lowest_free_skips_taken(places, (from - 1) as nat);
    }
}

enum Phase {
    Authenticating { failures: u8 },
    Dispatching { token: String },
    Aborted { reason: String },
}

impl View for Phase {
    type V = PhaseView;

    closed spec fn view(&self) -> PhaseView {
        match *self {
            Phase::Authenticating { failures } => PhaseView::Authenticating {
                failures: failures as nat,
            },
            Phase::Dispatching { token } => PhaseView::Dispatching { token: token@ },
            Phase::Aborted { reason } => PhaseView::Aborted { reason: reason@ },
        }
    }
}

spec fn place_view(place: Option<CsvRow>) -> Option<CsvRowView> {
    match place {
        Some(row) => Some(row@),
        None => None,
    }
}

/// The state of one run and the decisions that move it on.
pub struct Dispatcher {
    limit: usize,
    phase: Phase,
    places: Vec<Option<CsvRow>>,
    in_flight: usize,
    search_from: usize,
    outcomes: Vec<ApiResult>,
    skipped: Vec<String>,
    input_done: bool,
}

impl View for Dispatcher {
    type V = RunView;

    closed spec fn view(&self) -> RunView {
        RunView {
            limit: self.limit as nat,
            phase: self.phase@,
            places: self.places@.map_values(|place: Option<CsvRow>| place_view(place)),
            outcomes: self.outcomes@.map_values(|outcome: ApiResult| outcome@),
            skipped: self.skipped@.map_values(|reason: String| reason@),
            input_done: self.input_done,
        }
    }
}

impl Dispatcher {
    #[verifier::type_invariant]
    spec fn sound(self) -> bool {
        &&& well_formed(self@)
        &&& self.in_flight == taken(self@.places)
        &&& self.search_from <= self.places@.len()
        &&& forall|i: int| 0 <= i < self.search_from ==> self@.places[i] is Some
    }

    /// The dispatcher of a run in which at most `limit` requests are in
    /// flight at once. A limit of zero is an error.
    pub fn new(limit: usize) -> (made: Result<Dispatcher, ConfigError>)
        ensures
            match made {
                Ok(dispatcher) => limit >= 1 && dispatcher@ == start(limit as nat),
                Err(error) => limit == 0 && error == ConfigError::ZeroLimit,
            },
    {
        if limit == 0 {
            return Err(ConfigError::ZeroLimit);
        }
        let places: Vec<Option<CsvRow>> = Vec::new();
        let outcomes: Vec<ApiResult> = Vec::new();
        let skipped: Vec<String> = Vec::new();
        proof {
            assert(places@.map_values(|place: Option<CsvRow>| place_view(place)) =~= Seq::empty());
            assert(outcomes@.map_values(|outcome: ApiResult| outcome@) =~= Seq::empty());
            assert(skipped@.map_values(|reason: String| reason@) =~= Seq::empty());
        }
        let dispatcher = Dispatcher {
            limit,
            phase: Phase::Authenticating { failures: 0 },
            places,
            in_flight: 0,
            search_from: 0,
            outcomes,
            skipped,
            input_done: false,
        };
        Ok(dispatcher)
    }

    /// What the driver is to do next. The state of every dispatcher is well
    /// formed.
    pub fn next_action(&self) -> (action: Action)
        ensures
            action == next_action_of(self@),
            well_formed(self@),
    {
        proof {
            use_type_invariant(self);
        }
        match &self.phase {
            Phase::Authenticating { .. } => Action::Authenticate,
            Phase::Aborted { .. } => Action::Abort,
            Phase::Dispatching { .. } => {
                if !self.input_done && self.in_flight < self.limit {
                    Action::Pull
                } else if self.in_flight > 0 {
                    Action::AwaitCompletion
                } else {
                    Action::Finish
                }
            },
        }
    }

    /// The number of requests that may be in flight at once.
    pub fn limit(&self) -> (limit: usize)
        ensures
            limit == self@.limit,
    {
        self.limit
    }

    /// The number of requests in flight. It never exceeds the limit.
    pub fn in_flight(&self) -> (in_flight: usize)
        ensures
            in_flight == self@.in_flight(),
            in_flight <= self@.limit,
    {
        proof {
            use_type_invariant(self);
            lemma_taken_is_bounded(self@.places);
        }
        self.in_flight
    }

    /// The token that requests are made with, once a credential is granted.
    pub fn token(&self) -> (token: Option<&String>)
        ensures
            match token {
                Some(text) => self@.phase == (PhaseView::Dispatching { token: text@ }),
                None => !(self@.phase is Dispatching),
            },
    {
        match &self.phase {
            Phase::Dispatching { token } => Some(token),
            _ => None,
        }
    }

    /// The message with which the run ended, if no credential was granted.
    pub fn abort_reason(&self) -> (reason: Option<&String>)
        ensures
            match reason {
                Some(text) => self@.phase == (PhaseView::Aborted { reason: text@ }),
                None => !(self@.phase is Aborted),
            },
    {
        match &self.phase {
            Phase::Aborted { reason } => Some(reason),
            _ => None,
        }
    }

    /// The outcomes collected so far, in the order in which they arrived.
    pub fn outcomes(&self) -> (outcomes: &Vec<ApiResult>)
        ensures
            outcomes@.map_values(|outcome: ApiResult| outcome@) == self@.outcomes,
    {
        &self.outcomes
    }

    /// The reasons of the entries skipped so far, in the order of the input.
    pub fn skipped(&self) -> (skipped: &Vec<String>)
        ensures
            skipped@.map_values(|reason: String| reason@) == self@.skipped,
    {
        &self.skipped
    }

    /// The tally of the outcomes collected and the entries skipped so far.
    pub fn report(&self) -> (report: AggregateReport)
        ensures
            report@ == tally_of(self@.outcomes, self@.skipped.len()),
    {
        tally(&self.outcomes, self.skipped.len())
    }

    /// Takes note of `event`: gives the dispatcher in the state that follows,
    /// and says what is to be done about the event.
    pub fn step(self, event: Event) -> (next: (Dispatcher, Effect))
        ensures
            (next.0@, next.1@) == transition(self@, event@),
            well_formed(self@),
            well_formed(next.0@),
    {
        proof {
            use_type_invariant(&self);
        }
        let next = match event {
            Event::AuthReply(reply) => self.on_auth_reply(reply),
            Event::Item(row) => self.on_item(row),
            Event::DecodeFailure(reason) => self.on_decode_failure(reason),
            Event::EndOfInput => self.on_end_of_input(),
            Event::Completed { permit, result } => self.on_completed(permit, result),
        };
        proof {
            use_type_invariant(&next.0);
        }
        next
    }

    fn on_auth_reply(self, reply: Result<AuthResponse, String>) -> (next: (Dispatcher, Effect))
        ensures
            (next.0@, next.1@) == transition(self@, Event::AuthReply(reply)@),
    {
        proof {
            use_type_invariant(&self);
        }
        let failures: u8 = match &self.phase {
            Phase::Authenticating { failures } => *failures,
            _ => {
                return (self, Effect::Rejected(Event::AuthReply(reply)));
            },
        };
        let Dispatcher {
            limit,
            places,
            in_flight,
            search_from,
            outcomes,
            skipped,
            input_done,
            ..
        } = self;
        let (phase, effect) = match authenticate(failures, reply) {
            AuthStep::Granted(response) => (
                Phase::Dispatching { token: response.token() },
                Effect::Authenticated,
            ),
            AuthStep::Retry => (
                Phase::Authenticating { failures: failures + 1 },
                Effect::RetryAuthentication,
            ),
            AuthStep::Fatal(message) => (
                Phase::Aborted { reason: message.clone() },
                Effect::Aborted(message),
            ),
        };
        (
            Dispatcher {
                limit,
                phase,
                places,
                in_flight,
                search_from,
                outcomes,
                skipped,
                input_done,
            },
            effect,
        )
    }

    fn on_item(self, row: CsvRow) -> (next: (Dispatcher, Effect))
        ensures
            (next.0@, next.1@) == transition(self@, Event::Item(row)@),
    {
        proof {
            use_type_invariant(&self);
        }
        let token: String = match &self.phase {
            Phase::Dispatching { token } => token.clone(),
            _ => {
                return (self, Effect::Rejected(Event::Item(row)));
            },
        };
        if self.input_done || self.in_flight >= self.limit {
            return (self, Effect::Rejected(Event::Item(row)));
        }
        let Dispatcher {
            limit,
            phase,
            mut places,
            in_flight,
            search_from,
            outcomes,
            skipped,
            input_done,
        } = self;
        let ghost views = places@.map_values(|place: Option<CsvRow>| place_view(place));
        let mut place: usize = search_from;
        proof {
            lemma_lowest_free_skips_taken(views, search_from as nat);
        }
        while place < places.len() && places[place].is_some()
            invariant
                views == places@.map_values(|place: Option<CsvRow>| place_view(place)),
                place <= places@.len(),
                lowest_free_from(views, place as nat) == lowest_free(views),
            decreases places@.len() - place,
        {
            place = place + 1;
        }
        proof {
            lemma_occupy_lowest_free(views, row@);
            lemma_lowest_free_from(views, 0);
        }
        if place < places.len() {
            places.set(place, Some(row.clone()));
        } else {
            places.push(Some(row.clone()));
        }
        proof {
            assert(places@.map_values(|place: Option<CsvRow>| place_view(place)) =~= occupy(
                views,
                place as nat,
                row@,
            ));
        }
        (
            Dispatcher {
                limit,
                phase,
                places,
                in_flight: in_flight + 1,
                search_from: place + 1,
                outcomes,
                skipped,
                input_done,
            },
            Effect::Launch { permit: Permit { place }, item: row, token },
        )
    }

    fn on_decode_failure(self, reason: String) -> (next: (Dispatcher, Effect))
        ensures
            (next.0@, next.1@) == transition(self@, Event::DecodeFailure(reason)@),
    {
        proof {
            use_type_invariant(&self);
        }
        match &self.phase {
            Phase::Dispatching { .. } => {},
            _ => {
                return (self, Effect::Rejected(Event::DecodeFailure(reason)));
            },
        }
        if self.input_done {
            return (self, Effect::Rejected(Event::DecodeFailure(reason)));
        }
        let Dispatcher {
            limit,
            phase,
            places,
            in_flight,
            search_from,
            outcomes,
            mut skipped,
            input_done,
        } = self;
        let mut line = String::from_str("Failed to deserialize row, ");
        line.append(reason.as_str());
        let ghost reasons = skipped@.map_values(|reason: String| reason@);
        skipped.push(reason);
        proof {
            assert(skipped@.map_values(|reason: String| reason@) =~= reasons.push(reason@));
        }
        (
            Dispatcher {
                limit,
                phase,
                places,
                in_flight,
                search_from,
                outcomes,
                skipped,
                input_done,
            },
            Effect::Skipped(line),
        )
    }

    fn on_end_of_input(self) -> (next: (Dispatcher, Effect))
        ensures
            (next.0@, next.1@) == transition(self@, Event::EndOfInput@),
    {
        proof {
            use_type_invariant(&self);
        }
        match &self.phase {
            Phase::Dispatching { .. } => {},
            _ => {
                return (self, Effect::Rejected(Event::EndOfInput));
            },
        }
        if self.input_done {
            return (self, Effect::Rejected(Event::EndOfInput));
        }
        let Dispatcher { limit, phase, places, in_flight, search_from, outcomes, skipped, .. } =
            self;
        (
            Dispatcher {
                limit,
                phase,
                places,
                in_flight,
                search_from,
                outcomes,
                skipped,
                input_done: true,
            },
            Effect::InputClosed,
        )
    }

    fn on_completed(self, permit: Permit, result: CallResult) -> (next: (Dispatcher, Effect))
        ensures
            (next.0@, next.1@) == transition(self@, (Event::Completed { permit, result })@),
    {
        proof {
            use_type_invariant(&self);
        }
        match &self.phase {
            Phase::Dispatching { .. } => {},
            _ => {
                return (self, Effect::Rejected(Event::Completed { permit, result }));
            },
        }
        let place: usize = permit.place;
        if place >= self.places.len() || self.places[place].is_none() {
            return (self, Effect::Rejected(Event::Completed { permit, result }));
        }
        let Dispatcher {
            limit,
            phase,
            mut places,
            in_flight,
            search_from,
            mut outcomes,
            skipped,
            input_done,
        } = self;
        let ghost views = places@.map_values(|place: Option<CsvRow>| place_view(place));
        let ghost collected = outcomes@.map_values(|outcome: ApiResult| outcome@);
        let mut held: Option<CsvRow> = None;
        std::mem::swap(&mut places[place], &mut held);
        let row = held.unwrap();
        outcomes.push(unwrap_response(result, row));
        proof {
            lemma_taken_after_update(views, place as int, None);
            assert(places@.map_values(|place: Option<CsvRow>| place_view(place)) =~= views.update(
                place as int,
                None,
            ));
            assert(outcomes@.map_values(|outcome: ApiResult| outcome@) =~= collected.push(
                outcome_of(call_result_view(result), row@),
            ));
        }
        (
            Dispatcher {
                limit,
                phase,
                places,
                in_flight: in_flight - 1,
                search_from: if place < search_from {
                    place
                } else {
                    search_from
                },
                outcomes,
                skipped,
                input_done,
            },
            Effect::Recorded,
        )
    }
}

} // verus!
