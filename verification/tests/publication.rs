use npm_download_stats::pipeline::page_points;
use npm_download_stats::publish::{
    advance, endpoint_or_default, endpoint_variable, export_interval_secs, failure_message,
    instrument_description, instrument_name, metric_points, outcome, pending_action,
    service_name, service_name_key, Action, Event, PublishError, SessionState,
};
use npm_download_stats::record::Record;
use npm_download_stats::request::{
    page_of_response, user_agent, user_agent_header, versions_url, FetchError,
};
use npm_download_stats::config::configured_packages;
use npm_download_stats::extract::ExtractError;

fn record(version: &str, downloads: u64) -> Record {
    Record { version: version.to_string(), downloads }
}

fn drive(total: usize, answers: &[Event]) -> (SessionState, Vec<Action>) {
    let mut state = SessionState::Uninitialized;
    let mut actions = vec![pending_action(state, total)];
    for answer in answers {
        state = advance(state, *answer, total);
        actions.push(pending_action(state, total));
    }
    (state, actions)
}

fn versions_page(rows: &str) -> String {
    format!(
        "<html><body><div id=\"tabpanel-versions\"><div><h3>a</h3><p>b</p><table></table>\
         <h3>c</h3><table><tbody>{rows}</tbody></table></div></div></body></html>"
    )
}

#[test]
fn url_of_the_versions_view() {
    assert_eq!(
        versions_url("left-pad"),
        "https://www.npmjs.com/package/left-pad?activeTab=versions"
    );
    assert_eq!(
        versions_url("@scope/pkg"),
        "https://www.npmjs.com/package/@scope/pkg?activeTab=versions"
    );
    assert_eq!(versions_url(""), "https://www.npmjs.com/package/?activeTab=versions");
}

#[test]
fn client_marker_is_fixed() {
    assert_eq!(user_agent(), "github.com/toof-jp/npm-download-stats-otel-exporter");
    assert_eq!(user_agent_header(), "User-Agent");
}

#[test]
fn instrument_and_session_settings() {
    assert_eq!(instrument_name(), "npm.package.downloads");
    assert_eq!(instrument_description(), "NPM downloads per package version");
    assert_eq!(service_name(), "npm-download-stats-otel-exporter");
    assert_eq!(service_name_key(), "service.name");
    assert_eq!(endpoint_variable(), "OTEL_EXPORTER_OTLP_ENDPOINT");
    assert_eq!(export_interval_secs(), 5);
    assert_eq!(endpoint_or_default(None), "http://localhost:4317");
    assert_eq!(
        endpoint_or_default(Some("http://collector:4317".to_string())),
        "http://collector:4317"
    );
    assert_eq!(endpoint_or_default(Some(String::new())), "");
}

#[test]
fn one_point_for_each_record() {
    let records = vec![record("1.0.0", 1000), record("1.0.1", 250)];
    let points = metric_points("left-pad", &records);
    assert_eq!(points.len(), 2);
    assert_eq!(points[0].value, 1000);
    assert_eq!(points[0].package, "left-pad");
    assert_eq!(points[0].version, "1.0.0");
    assert_eq!(points[1].value, 250);
    assert_eq!(points[1].package, "left-pad");
    assert_eq!(points[1].version, "1.0.1");
}

#[test]
fn labels_of_a_point() {
    let points = metric_points("left-pad", &vec![record("1.0.0", 1000)]);
    assert_eq!(
        points[0].labels(),
        vec![
            ("package".to_string(), "left-pad".to_string()),
            ("version".to_string(), "1.0.0".to_string()),
        ]
    );
}

#[test]
fn no_records_give_no_points() {
    assert!(metric_points("left-pad", &Vec::new()).is_empty());
}

#[test]
fn repeated_versions_give_separate_points() {
    let records = vec![record("1.0.0", 1), record("1.0.0", 2), record("1.0.0", 1)];
    let points = metric_points("p", &records);
    assert_eq!(points.len(), 3);
    assert_eq!(points[0].value, 1);
    assert_eq!(points[1].value, 2);
    assert_eq!(points[2].value, 1);
    assert_eq!(points[0].labels(), points[1].labels());
}

#[test]
fn publication_of_two_points_runs_in_order() {
    let answers = [
        Event::Built,
        Event::Bound,
        Event::Recorded,
        Event::Recorded,
        Event::Flushed,
        Event::Closed,
    ];
    let (state, actions) = drive(2, &answers);
    assert_eq!(state, SessionState::ShutDown);
    assert_eq!(
        actions,
        vec![
            Action::BuildSession,
            Action::BindInstrument,
            Action::Record(0),
            Action::Record(1),
            Action::ForceFlush,
            Action::ShutDown,
            Action::Done,
        ]
    );
    assert_eq!(outcome(state), Some(Ok(())));
}

#[test]
fn session_passes_through_its_states() {
    let mut state = SessionState::Uninitialized;
    let mut seen = vec![state];
    for answer in [Event::Built, Event::Bound, Event::Recorded, Event::Flushed, Event::Closed] {
        state = advance(state, answer, 1);
        seen.push(state);
    }
    assert_eq!(
        seen,
        vec![
            SessionState::Uninitialized,
            SessionState::SessionBuilt,
            SessionState::InstrumentBound,
            SessionState::Recorded(1),
            SessionState::Flushed,
            SessionState::ShutDown,
        ]
    );
}

#[test]
fn publication_of_no_points_succeeds() {
    let points = metric_points("left-pad", &Vec::new());
    let answers = [Event::Built, Event::Bound, Event::Flushed, Event::Closed];
    let (state, actions) = drive(points.len(), &answers);
    assert_eq!(
        actions,
        vec![
            Action::BuildSession,
            Action::BindInstrument,
            Action::ForceFlush,
            Action::ShutDown,
            Action::Done,
        ]
    );
    assert_eq!(outcome(state), Some(Ok(())));
}

#[test]
fn outcome_is_open_until_the_end() {
    assert_eq!(outcome(SessionState::Uninitialized), None);
    assert_eq!(outcome(SessionState::SessionBuilt), None);
    assert_eq!(outcome(SessionState::InstrumentBound), None);
    assert_eq!(outcome(SessionState::Recorded(3)), None);
    assert_eq!(outcome(SessionState::Flushed), None);
    assert_eq!(outcome(SessionState::ShutDown), Some(Ok(())));
    assert_eq!(
        outcome(SessionState::Failed(PublishError::Shutdown)),
        Some(Err(PublishError::Shutdown))
    );
}

#[test]
fn build_failure_aborts() {
    let (state, actions) = drive(2, &[Event::BuildFailed, Event::Bound, Event::Recorded]);
    assert_eq!(state, SessionState::Failed(PublishError::Build));
    assert_eq!(actions[1], Action::Abort(PublishError::Build));
    assert_eq!(actions[3], Action::Abort(PublishError::Build));
    assert_eq!(outcome(state), Some(Err(PublishError::Build)));
}

#[test]
fn flush_failure_aborts_before_shutdown() {
    let answers = [Event::Built, Event::Bound, Event::Recorded, Event::FlushFailed, Event::Closed];
    let (state, actions) = drive(1, &answers);
    assert_eq!(state, SessionState::Failed(PublishError::Flush));
    assert!(!actions.contains(&Action::ShutDown));
    assert_eq!(actions.last(), Some(&Action::Abort(PublishError::Flush)));
}

#[test]
fn shutdown_failure_is_told_from_flush_failure() {
    let answers = [Event::Built, Event::Bound, Event::Flushed, Event::CloseFailed];
    let (state, _) = drive(0, &answers);
    assert_eq!(state, SessionState::Failed(PublishError::Shutdown));
    assert_eq!(outcome(state), Some(Err(PublishError::Shutdown)));
}

#[test]
fn answers_out_of_turn_change_nothing() {
    assert_eq!(
        advance(SessionState::Uninitialized, Event::Recorded, 3),
        SessionState::Uninitialized
    );
    assert_eq!(advance(SessionState::SessionBuilt, Event::Recorded, 3), SessionState::SessionBuilt);
    assert_eq!(advance(SessionState::SessionBuilt, Event::Flushed, 3), SessionState::SessionBuilt);
    assert_eq!(
        advance(SessionState::InstrumentBound, Event::Flushed, 3),
        SessionState::InstrumentBound
    );
    assert_eq!(advance(SessionState::Recorded(1), Event::Flushed, 3), SessionState::Recorded(1));
    assert_eq!(advance(SessionState::Recorded(3), Event::Recorded, 3), SessionState::Recorded(3));
    assert_eq!(advance(SessionState::Flushed, Event::Recorded, 3), SessionState::Flushed);
    assert_eq!(advance(SessionState::ShutDown, Event::Recorded, 3), SessionState::ShutDown);
    assert_eq!(advance(SessionState::ShutDown, Event::Built, 3), SessionState::ShutDown);
    let failed = SessionState::Failed(PublishError::Flush);
    assert_eq!(advance(failed, Event::Closed, 3), failed);
    assert_eq!(advance(failed, Event::Flushed, 3), failed);
}

#[test]
fn failures_are_worded() {
    assert_eq!(failure_message(PublishError::Build, "no transport"), "no transport");
    assert_eq!(
        failure_message(PublishError::Flush, "deadline exceeded"),
        "OTLP metrics flush failed: deadline exceeded"
    );
    assert_eq!(
        failure_message(PublishError::Shutdown, "already shut down"),
        "OTLP metrics shutdown failed: already shut down"
    );
}

#[test]
fn page_of_left_pad_gives_two_points() {
    let packages = configured_packages(Some("left-pad")).unwrap();
    assert_eq!(packages, vec!["left-pad".to_string()]);
    let html = versions_page(
        "<tr><td><a>1.0.0</a></td><td>1,000</td></tr><tr><td><a>1.0.1</a></td><td>250</td></tr>",
    );
    let points = page_points(&packages[0], &html).unwrap();
    assert_eq!(points.len(), 2);
    assert_eq!(
        points[0].labels(),
        vec![
            ("package".to_string(), "left-pad".to_string()),
            ("version".to_string(), "1.0.0".to_string()),
        ]
    );
    assert_eq!(points[0].value, 1000);
    assert_eq!(
        points[1].labels(),
        vec![
            ("package".to_string(), "left-pad".to_string()),
            ("version".to_string(), "1.0.1".to_string()),
        ]
    );
    assert_eq!(points[1].value, 250);
    let (state, actions) = drive(
        points.len(),
        &[Event::Built, Event::Bound, Event::Recorded, Event::Recorded, Event::Flushed, Event::Closed],
    );
    assert_eq!(actions.iter().filter(|action| matches!(action, Action::Record(_))).count(), 2);
    assert_eq!(outcome(state), Some(Ok(())));
}

#[test]
fn page_with_unknown_downloads_gives_no_point() {
    let html = versions_page(
        "<tr><td><a>1.0.0</a></td><td>1,000</td></tr><tr><td><a>1.0.1</a></td><td>unknown</td></tr>",
    );
    match page_points("left-pad", &html) {
        Err(ExtractError::InvalidDownloads { raw, .. }) => assert_eq!(raw, "unknown"),
        other => panic!("unexpected result: {other:?}"),
    }
}

#[test]
fn body_of_a_successful_answer_is_the_page() {
    assert_eq!(page_of_response(Some((200, "<html></html>".to_string()))), Ok("<html></html>".to_string()));
    assert_eq!(page_of_response(Some((204, String::new()))), Ok(String::new()));
    assert_eq!(page_of_response(Some((299, "x".to_string()))), Ok("x".to_string()));
}

#[test]
fn answer_without_success_is_a_fetch_error() {
    for status in [0, 100, 199, 300, 301, 404, 429, 500, 503, u16::MAX] {
        assert_eq!(
            page_of_response(Some((status, "not found".to_string()))),
            Err(FetchError::Status(status))
        );
    }
    assert_eq!(
        FetchError::Status(404).message(),
        "registry answered with a status other than success"
    );
}

#[test]
fn failed_transport_is_a_fetch_error() {
    assert_eq!(page_of_response(None), Err(FetchError::Transport));
    assert_eq!(FetchError::Transport.message(), "request to the registry failed");
}
