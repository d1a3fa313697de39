//! Publishing the records of a package: the data points that stand for them, the settings of
//! the backend session, and the order in which the session is built, used and released.

use vstd::prelude::*;
use crate::record::{Record, RecordView};

verus! {

/// One data point of the downloads gauge, with the values of its two labels.
#[derive(Debug, Clone)]
pub struct MetricPoint {
    pub value: u64,
    pub package: String,
    pub version: String,
}

/// What a [`MetricPoint`] says, as mathematical values.
pub struct MetricPointView {
    pub value: u64,
    pub package: Seq<char>,
    pub version: Seq<char>,
}

impl View for MetricPoint {
    type V = MetricPointView;

    open spec fn view(&self) -> MetricPointView {
        MetricPointView { value: self.value, package: self.package@, version: self.version@ }
    }
}

impl DeepView for MetricPoint {
    type V = MetricPointView;

    open spec fn deep_view(&self) -> MetricPointView {
        self@
    }
}

impl MetricPointView {
    /// The label set of the point: the package under `package`, the version under `version`.
    pub open spec fn labels(self) -> Seq<(Seq<char>, Seq<char>)> {
        seq![("package"@, self.package), ("version"@, self.version)]
    }
}

/// The data point that stands for `record` of `package`.
pub open spec fn point_of(package: Seq<char>, record: RecordView) -> MetricPointView {
    MetricPointView { value: record.downloads, package, version: record.version }
}

/// The data points of `records`, one for each record and in the same order.
pub open spec fn points_of(package: Seq<char>, records: Seq<RecordView>) -> Seq<MetricPointView> {
    Seq::new(records.len(), |i: int| point_of(package, records[i]))
}

/// Maps every record of `package` to its data point. No record is dropped, merged or
/// reordered: records that share a version give separate points with equal labels.
pub fn metric_points(package: &str, records: &Vec<Record>) -> (points: Vec<MetricPoint>)
    ensures
        points.deep_view() == points_of(package@, records.deep_view()),
        points.len() == records.len(),
{
    let mut points: Vec<MetricPoint> = Vec::new();
    let mut i: usize = 0;
    while i < records.len()
        invariant
            i <= records.len(),
            points.len() == i,
            forall|j: int| 0 <= j < i ==> points[j]@ == point_of(package@, #[trigger] records[j]@),
        decreases records.len() - i,
    {
        let record = &records[i];
        points.push(
            MetricPoint {
                value: record.downloads,
                package: String::from_str(package),
                version: record.version.clone(),
            },
        );
        i = i + 1;
    }
    assert(points.deep_view() =~= points_of(package@, records.deep_view()));
    points
}

impl MetricPoint {
    /// The labels of the point as pairs of key and value, in the order in which they are
    /// attached.
    pub fn labels(&self) -> (labels: Vec<(String, String)>)
        ensures
            labels.len() == self@.labels().len(),
            forall|i: int|
                0 <= i < labels.len() ==> ((#[trigger] labels[i]).0@, labels[i].1@)
                    == self@.labels()[i],
    {
        let mut labels: Vec<(String, String)> = Vec::new();
        labels.push((String::from_str("package"), self.package.clone()));
        labels.push((String::from_str("version"), self.version.clone()));
        labels
    }
}

/// The name of the gauge that carries the data points.
pub fn instrument_name() -> (name: &'static str)
    ensures
        name@ == "npm.package.downloads"@,
{
    "npm.package.downloads"
}

/// The description registered with the gauge.
pub fn instrument_description() -> (description: &'static str)
    ensures
        description@ == "NPM downloads per package version"@,
{
    "NPM downloads per package version"
}

/// The value of the `service.name` resource label, also the name of the meter.
pub fn service_name() -> (name: &'static str)
    ensures
        name@ == "npm-download-stats-otel-exporter"@,
{
    "npm-download-stats-otel-exporter"
}

/// The key of the resource label that carries the service name.
pub fn service_name_key() -> (key: &'static str)
    ensures
        key@ == "service.name"@,
{
    "service.name"
}

/// The interval of the periodic export, in seconds.
pub fn export_interval_secs() -> (secs: u64)
    ensures
        secs == 5,
{
    5
}

/// The name of the configuration variable that holds the endpoint of the metrics backend.
pub fn endpoint_variable() -> (name: &'static str)
    ensures
        name@ == "OTEL_EXPORTER_OTLP_ENDPOINT"@,
{
    "OTEL_EXPORTER_OTLP_ENDPOINT"
}

/// The endpoint that a session targets when none is configured.
pub open spec fn default_endpoint() -> Seq<char> {
    "http://localhost:4317"@
}

/// The endpoint of the metrics backend: the configured one, or the default.
pub fn endpoint_or_default(configured: Option<String>) -> (endpoint: String)
    ensures
        endpoint@ == match configured {
            Some(value) => value@,
            None => default_endpoint(),
        },
{
    match configured {
        Some(value) => value,
        None => String::from_str("http://localhost:4317"),
    }
}

/// The step of a publication at which the backend failed.
#[derive(Debug, Clone, Copy, PartialEq, Eq, Structural)]
pub enum PublishError {
    /// The session could not be built.
    Build,
    /// The forced flush failed: data points may not have been delivered.
    Flush,
    /// The shutdown failed after a flush that succeeded.
    Shutdown,
}

/// Where a session stands in its life.
#[derive(Debug, Clone, Copy, PartialEq, Eq, Structural)]
pub enum SessionState {
    Uninitialized,
    SessionBuilt,
    InstrumentBound,
    /// So many data points have been recorded; at least one.
    Recorded(usize),
    Flushed,
    ShutDown,
    Failed(PublishError),
}

/// What is to be done next with the backend.
#[derive(Debug, Clone, Copy, PartialEq, Eq, Structural)]
pub enum Action {
    BuildSession,
    BindInstrument,
    /// Record the data point with this index.
    Record(usize),
    ForceFlush,
    ShutDown,
    /// The publication has succeeded; nothing is left to do.
    Done,
    /// The publication has failed; nothing more is done.
    Abort(PublishError),
}

/// What the backend answered to an action.
#[derive(Debug, Clone, Copy, PartialEq, Eq, Structural)]
pub enum Event {
    Built,
    BuildFailed,
    Bound,
    Recorded,
    Flushed,
    FlushFailed,
    Closed,
    CloseFailed,
}

/// The action that is due in `state` when `total` data points are to be published.
pub open spec fn action_of(state: SessionState, total: usize) -> Action {
    match state {
        SessionState::Uninitialized => Action::BuildSession,
        SessionState::SessionBuilt => Action::BindInstrument,
        SessionState::InstrumentBound => if total > 0 {
            Action::Record(0)
        } else {
            Action::ForceFlush
        },
        SessionState::Recorded(n) => if n < total {
            Action::Record(n)
        } else {
            Action::ForceFlush
        },
        SessionState::Flushed => Action::ShutDown,
        SessionState::ShutDown => Action::Done,
        SessionState::Failed(error) => Action::Abort(error),
    }
}

/// The state that follows `state` on `event`. An event that does not answer the action due
/// in `state` changes nothing: no point is recorded before the instrument is bound, and a
/// session that has shut down or failed stays as it is.
pub open spec fn next_state(state: SessionState, event: Event, total: usize) -> SessionState {
    match (action_of(state, total), event) {
        (Action::BuildSession, Event::Built) => SessionState::SessionBuilt,
        (Action::BuildSession, Event::BuildFailed) => SessionState::Failed(PublishError::Build),
        (Action::BindInstrument, Event::Bound) => SessionState::InstrumentBound,
        (Action::Record(n), Event::Recorded) => SessionState::Recorded((n + 1) as usize),
        (Action::ForceFlush, Event::Flushed) => SessionState::Flushed,
        (Action::ForceFlush, Event::FlushFailed) => SessionState::Failed(PublishError::Flush),
        (Action::ShutDown, Event::Closed) => SessionState::ShutDown,
        (Action::ShutDown, Event::CloseFailed) => SessionState::Failed(PublishError::Shutdown),
        _ => state,
    }
}

/// The action that is due in `state`.
pub fn pending_action(state: SessionState, total: usize) -> (action: Action)
    ensures
        action == action_of(state, total),
{
    match state {
        SessionState::Uninitialized => Action::BuildSession,
        SessionState::SessionBuilt => Action::BindInstrument,
        SessionState::InstrumentBound => if total > 0 {
            Action::Record(0)
        } else {
            Action::ForceFlush
        },
        SessionState::Recorded(n) => if n < total {
            Action::Record(n)
        } else {
            Action::ForceFlush
        },
        SessionState::Flushed => Action::ShutDown,
        SessionState::ShutDown => Action::Done,
        SessionState::Failed(error) => Action::Abort(error),
    }
}

/// Takes the session from `state` to the state that follows on `event`.
pub fn advance(state: SessionState, event: Event, total: usize) -> (next: SessionState)
    ensures
        next == next_state(state, event, total),
{
    match pending_action(state, total) {
        Action::BuildSession => match event {
            Event::Built => SessionState::SessionBuilt,
            Event::BuildFailed => SessionState::Failed(PublishError::Build),
            _ => state,
        },
        Action::BindInstrument => match event {
            Event::Bound => SessionState::InstrumentBound,
            _ => state,
        },
        Action::Record(n) => match event {
            Event::Recorded => SessionState::Recorded(n + 1),
            _ => state,
        },
        Action::ForceFlush => match event {
            Event::Flushed => SessionState::Flushed,
            Event::FlushFailed => SessionState::Failed(PublishError::Flush),
            _ => state,
        },
        Action::ShutDown => match event {
            Event::Closed => SessionState::ShutDown,
            Event::CloseFailed => SessionState::Failed(PublishError::Shutdown),
            _ => state,
        },
        Action::Done => state,
        Action::Abort(_) => state,
    }
}

/// How a publication ended, once it has ended.
pub open spec fn outcome_of(state: SessionState) -> Option<Result<(), PublishError>> {
    match state {
        SessionState::ShutDown => Some(Ok(())),
        SessionState::Failed(error) => Some(Err(error)),
        _ => None,
    }
}

/// How the publication ended, or `None` while an action is still due.
pub fn outcome(state: SessionState) -> (result: Option<Result<(), PublishError>>)
    ensures
        result == outcome_of(state),
{
    match state {
        SessionState::ShutDown => Some(Ok(())),
        SessionState::Failed(error) => Some(Err(error)),
        _ => None,
    }
}

/// The words that report `error`, followed by what the backend said of it.
pub open spec fn failure_message_of(error: PublishError, detail: Seq<char>) -> Seq<char> {
    match error {
        PublishError::Build => detail,
        PublishError::Flush => "OTLP metrics flush failed: "@ + detail,
        PublishError::Shutdown => "OTLP metrics shutdown failed: "@ + detail,
    }
}

/// Words for a failed publication. The step that failed is named, so that a flush that may
/// have lost data can be told from a cleanup that failed after delivery.
pub fn failure_message(error: PublishError, detail: &str) -> (message: String)
    ensures
        message@ == failure_message_of(error, detail@),
{
    match error {
        PublishError::Build => String::from_str(detail),
        PublishError::Flush => {
            let mut message = String::from_str("OTLP metrics flush failed: ");
            message.append(detail);
            message
        },
        PublishError::Shutdown => {
            let mut message = String::from_str("OTLP metrics shutdown failed: ");
            message.append(detail);
            message
        },
    }
}

/// The state that a session reaches from `state` when the backend answers with `events`,
/// one after the other.
pub open spec fn session_run(state: SessionState, events: Seq<Event>, total: usize) -> SessionState
    decreases events.len(),
{
    if events.len() == 0 {
        state
    } else {
        next_state(session_run(state, events.drop_last(), total), events.last(), total)
    }
}

/// The answers of a backend that never fails, to a publication of `total` data points.
pub open spec fn successful_events(total: usize) -> Seq<Event> {
    seq![Event::Built, Event::Bound] + Seq::new(total as nat, |i: int| Event::Recorded)
        + seq![Event::Flushed, Event::Closed]
}

/// Where a new session stands after the first `steps` answers of a backend that never
/// fails.
pub open spec fn state_after(total: usize, steps: int) -> SessionState {
    session_run(SessionState::Uninitialized, successful_events(total).take(steps), total)
}

/// Whether the count of recorded points in `state` is one that a publication of `total`
/// points can reach.
pub open spec fn within_total(state: SessionState, total: usize) -> bool {
    state matches SessionState::Recorded(n) ==> 1 <= n <= total
}

/// One more answer takes a run one state further.
pub proof fn lemma_run_step(state: SessionState, events: Seq<Event>, total: usize, n: int)
    requires
        0 < n <= events.len(),
    ensures
        session_run(state, events.take(n), total) == next_state(
            session_run(state, events.take(n - 1), total),
            events[n - 1],
            total,
        ),
{
    assert(events.take(n).drop_last() =~= events.take(n - 1));
}

/// With a backend that never fails, the session is built, the instrument is bound, and
/// then the data points are recorded one by one in their order: after `k` of them the
/// session has recorded `k` points, and the point that is due next is the one with index `k`.
pub proof fn lemma_points_are_recorded_in_order(total: usize, k: int)
    requires
        0 <= k <= total,
    ensures
        state_after(total, 0) == SessionState::Uninitialized,
        state_after(total, 1) == SessionState::SessionBuilt,
        state_after(total, 2) == SessionState::InstrumentBound,
        k > 0 ==> state_after(total, 2 + k) == SessionState::Recorded(k as usize),
        k < total ==> action_of(state_after(total, 2 + k), total) == Action::Record(k as usize),
        k == total ==> action_of(state_after(total, 2 + k), total) == Action::ForceFlush,
    decreases k,
{
    let events = successful_events(total);
    let start = SessionState::Uninitialized;
    assert(events.take(0).len() == 0);
    lemma_run_step(start, events, total, 1);
    lemma_run_step(start, events, total, 2);
    if k > 0 {
        lemma_points_are_recorded_in_order(total, k - 1);
        lemma_run_step(start, events, total, 2 + k);
        assert(events[2 + k - 1] == Event::Recorded);
    }
}

/// With a backend that never fails, a publication of any number of data points, none
/// included, ends in success: after the last point the session is flushed and then shut
/// down, and nothing is left to do.
pub proof fn lemma_publication_succeeds(total: usize)
    ensures
        state_after(total, total + 3) == SessionState::Flushed,
        state_after(total, total + 4) == SessionState::ShutDown,
        session_run(SessionState::Uninitialized, successful_events(total), total)
            == SessionState::ShutDown,
        outcome_of(state_after(total, total + 4)) == Some(Ok::<(), PublishError>(())),
        action_of(state_after(total, total + 4), total) == Action::Done,
{
    let events = successful_events(total);
    let start = SessionState::Uninitialized;
    lemma_points_are_recorded_in_order(total, total as int);
    lemma_run_step(start, events, total, total + 3);
    lemma_run_step(start, events, total, total + 4);
    assert(events.take(total + 4) =~= events);
}

/// A publication of no data points succeeds when the backend does: the session is built,
/// the instrument is bound, and the flush and the shutdown follow at once, with no point
/// recorded in between.
pub proof fn lemma_empty_publication_succeeds()
    ensures
        action_of(state_after(0, 0), 0) == Action::BuildSession,
        action_of(state_after(0, 1), 0) == Action::BindInstrument,
        action_of(state_after(0, 2), 0) == Action::ForceFlush,
        action_of(state_after(0, 3), 0) == Action::ShutDown,
        action_of(state_after(0, 4), 0) == Action::Done,
        outcome_of(state_after(0, 4)) == Some(Ok::<(), PublishError>(())),
{
    lemma_points_are_recorded_in_order(0, 0);
    lemma_publication_succeeds(0);
}

/// A session that has shut down or failed stays as it is, whatever is reported to it.
pub proof fn lemma_ended_session_stays(state: SessionState, event: Event, total: usize)
    requires
        outcome_of(state) is Some,
    ensures
        next_state(state, event, total) == state,
{
}

/// A failure of the backend ends the publication with the error of the step that failed,
/// and no further action is due but to give up.
pub proof fn lemma_failure_ends_publication(state: SessionState, event: Event, total: usize)
    requires
        outcome_of(state) is None,
        event == Event::BuildFailed || event == Event::FlushFailed || event == Event::CloseFailed,
        next_state(state, event, total) != state,
    ensures
        next_state(state, event, total) matches SessionState::Failed(error) && action_of(
            next_state(state, event, total),
            total,
        ) == Action::Abort(error) && (error == PublishError::Build <==> event
            == Event::BuildFailed) && (error == PublishError::Flush <==> event
            == Event::FlushFailed) && (error == PublishError::Shutdown <==> event
            == Event::CloseFailed),
{
}

/// Whatever the backend answers, and in whatever order, a session never counts more
/// recorded points than there are points to publish.
pub proof fn lemma_run_keeps_count(events: Seq<Event>, total: usize)
    ensures
        within_total(session_run(SessionState::Uninitialized, events, total), total),
    decreases events.len(),
{
    if events.len() > 0 {
        lemma_run_keeps_count(events.drop_last(), total);
    }
}

} // verus!
