use npm_download_stats::config::{configured_packages, ConfigError};
use npm_download_stats::run::{due, start, step, RunAction, RunError, RunState, Stage};

fn names(list: &[&str]) -> Result<Vec<String>, ConfigError> {
    Ok(list.iter().map(|name| name.to_string()).collect())
}

fn actions(configured: &Result<Vec<String>, ConfigError>, outcomes: &[bool]) -> Vec<RunAction> {
    let total = configured.as_ref().map(|names| names.len()).unwrap_or(0);
    let mut state = start(configured);
    let mut seen = vec![due(state)];
    for outcome in outcomes {
        state = step(state, *outcome, total);
        seen.push(due(state));
    }
    seen
}

#[test]
fn run_over_one_package() {
    let seen = actions(&names(&["left-pad"]), &[true, true, true]);
    assert_eq!(
        seen,
        vec![
            RunAction::Perform { package: 0, stage: Stage::Fetch },
            RunAction::Perform { package: 0, stage: Stage::Extract },
            RunAction::Perform { package: 0, stage: Stage::Publish },
            RunAction::Exit,
        ]
    );
}

#[test]
fn run_over_two_packages_takes_them_in_order() {
    let seen = actions(&names(&["a", "b"]), &[true; 6]);
    assert_eq!(
        seen,
        vec![
            RunAction::Perform { package: 0, stage: Stage::Fetch },
            RunAction::Perform { package: 0, stage: Stage::Extract },
            RunAction::Perform { package: 0, stage: Stage::Publish },
            RunAction::Perform { package: 1, stage: Stage::Fetch },
            RunAction::Perform { package: 1, stage: Stage::Extract },
            RunAction::Perform { package: 1, stage: Stage::Publish },
            RunAction::Exit,
        ]
    );
}

#[test]
fn empty_configuration_fetches_nothing() {
    let configured = configured_packages(Some(""));
    assert_eq!(configured, Err(ConfigError::Empty));
    let seen = actions(&configured, &[true, false, true]);
    assert_eq!(seen, vec![RunAction::Fail(RunError::Config(ConfigError::Empty)); 4]);
    assert!(!seen.iter().any(|action| matches!(action, RunAction::Perform { .. })));
}

#[test]
fn missing_configuration_fetches_nothing() {
    let configured = configured_packages(None);
    assert_eq!(start(&configured), RunState::Stopped(RunError::Config(ConfigError::Missing)));
    assert_eq!(due(start(&configured)), RunAction::Fail(RunError::Config(ConfigError::Missing)));
}

#[test]
fn no_names_is_a_configuration_error() {
    assert_eq!(start(&Ok(Vec::new())), RunState::Stopped(RunError::Config(ConfigError::Empty)));
}

#[test]
fn failed_fetch_stops_the_run() {
    let seen = actions(&names(&["a", "b"]), &[false, true, true]);
    let stopped = RunAction::Fail(RunError::Step { package: 0, stage: Stage::Fetch });
    assert_eq!(
        seen,
        vec![RunAction::Perform { package: 0, stage: Stage::Fetch }, stopped, stopped, stopped]
    );
}

#[test]
fn failed_extraction_publishes_nothing() {
    let seen = actions(&names(&["a", "b"]), &[true, false, true, true]);
    assert_eq!(
        seen.last(),
        Some(&RunAction::Fail(RunError::Step { package: 0, stage: Stage::Extract }))
    );
    assert!(!seen
        .iter()
        .any(|action| matches!(action, RunAction::Perform { stage: Stage::Publish, .. })));
}

#[test]
fn failed_publication_of_the_first_package_skips_the_second() {
    let seen = actions(&names(&["a", "b"]), &[true, true, false, true]);
    assert_eq!(
        seen.last(),
        Some(&RunAction::Fail(RunError::Step { package: 0, stage: Stage::Publish }))
    );
    assert!(!seen.iter().any(|action| matches!(action, RunAction::Perform { package: 1, .. })));
}

#[test]
fn failure_in_the_second_package_names_it() {
    let seen = actions(&names(&["a", "b"]), &[true, true, true, true, false]);
    assert_eq!(
        seen.last(),
        Some(&RunAction::Fail(RunError::Step { package: 1, stage: Stage::Extract }))
    );
}

#[test]
fn finished_run_stays_finished() {
    assert_eq!(step(RunState::Finished, true, 2), RunState::Finished);
    assert_eq!(step(RunState::Finished, false, 2), RunState::Finished);
    let last = RunState::Working { package: 1, stage: Stage::Publish };
    assert_eq!(step(last, true, 2), RunState::Finished);
    assert_eq!(
        step(last, true, 3),
        RunState::Working { package: 2, stage: Stage::Fetch }
    );
    let beyond = RunState::Working { package: usize::MAX, stage: Stage::Publish };
    assert_eq!(step(beyond, true, usize::MAX), RunState::Finished);
}

#[test]
fn each_package_is_fetched_once() {
    let seen = actions(&names(&["a", "b", "c"]), &[true; 9]);
    for package in 0..3 {
        let fetches = seen
            .iter()
            .filter(|action| **action == RunAction::Perform { package, stage: Stage::Fetch })
            .count();
        assert_eq!(fetches, 1);
    }
    let stopped = actions(&names(&["a", "b"]), &[false, true, true, true]);
    let fetches = stopped
        .iter()
        .filter(|action| matches!(action, RunAction::Perform { stage: Stage::Fetch, .. }))
        .count();
    assert_eq!(fetches, 1);
}
