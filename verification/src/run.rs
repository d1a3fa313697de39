//! A run over the configured packages: each package is fetched, extracted and published in
//! turn, one package after the other, and the first failure ends the run.

use vstd::prelude::*;
use crate::config::ConfigError;

verus! {

/// A step in the work on one package.
#[derive(Debug, Clone, Copy, PartialEq, Eq, Structural)]
pub enum Stage {
    /// The version page is fetched from the registry.
    Fetch,
    /// The records are extracted from the page.
    Extract,
    /// The records are published to the metrics backend.
    Publish,
}

/// Why a run ended without success.
#[derive(Debug, Clone, Copy, PartialEq, Eq, Structural)]
pub enum RunError {
    /// No package is configured: nothing was started.
    Config(ConfigError),
    /// This step failed for the package with this index.
    Step { package: usize, stage: Stage },
}

/// Where a run stands.
#[derive(Debug, Clone, Copy, PartialEq, Eq, Structural)]
pub enum RunState {
    /// This step is due for the package with this index.
    Working { package: usize, stage: Stage },
    /// Every package has been published.
    Finished,
    /// The run has failed and goes no further.
    Stopped(RunError),
}

/// What is to be done next in a run.
#[derive(Debug, Clone, Copy, PartialEq, Eq, Structural)]
pub enum RunAction {
    /// Perform this step for the package with this index.
    Perform { package: usize, stage: Stage },
    /// End the run with success.
    Exit,
    /// End the run with this error.
    Fail(RunError),
}

/// The state in which a run starts: at the first package of the configured ones, or
/// stopped by the configuration error if there is none to start with.
pub open spec fn first_state(configured: Result<nat, ConfigError>) -> RunState {
    match configured {
        Err(error) => RunState::Stopped(RunError::Config(error)),
        Ok(total) => if total == 0 {
            RunState::Stopped(RunError::Config(ConfigError::Empty))
        } else {
            RunState::Working { package: 0, stage: Stage::Fetch }
        },
    }
}

/// The action that is due in `state`.
pub open spec fn action_due(state: RunState) -> RunAction {
    match state {
        RunState::Working { package, stage } => RunAction::Perform { package, stage },
        RunState::Finished => RunAction::Exit,
        RunState::Stopped(error) => RunAction::Fail(error),
    }
}

/// The state that follows `state` when the step that was due has succeeded or failed, in a
/// run over `total` packages. A failure stops the run at once; a run that has ended stays
/// as it is.
pub open spec fn following_state(state: RunState, succeeded: bool, total: usize) -> RunState {
    match state {
        RunState::Working { package, stage } => if !succeeded {
            RunState::Stopped(RunError::Step { package, stage })
        } else {
            match stage {
                Stage::Fetch => RunState::Working { package, stage: Stage::Extract },
                Stage::Extract => RunState::Working { package, stage: Stage::Publish },
                Stage::Publish => if package + 1 < total {
                    RunState::Working { package: (package + 1) as usize, stage: Stage::Fetch }
                } else {
                    RunState::Finished
                },
            }
        },
        _ => state,
    }
}

/// Starts a run over the configured packages.
pub fn start(configured: &Result<Vec<String>, ConfigError>) -> (state: RunState)
    ensures
        state == first_state(
            match *configured {
                Ok(names) => Ok(names.len() as nat),
                Err(error) => Err(error),
            },
        ),
{
    match configured {
        Err(error) => RunState::Stopped(RunError::Config(*error)),
        Ok(names) => if names.len() == 0 {
            RunState::Stopped(RunError::Config(ConfigError::Empty))
        } else {
            RunState::Working { package: 0, stage: Stage::Fetch }
        },
    }
}

/// The action that is due in `state`.
pub fn due(state: RunState) -> (action: RunAction)
    ensures
        action == action_due(state),
{
    match state {
        RunState::Working { package, stage } => RunAction::Perform { package, stage },
        RunState::Finished => RunAction::Exit,
        RunState::Stopped(error) => RunAction::Fail(error),
    }
}

/// Takes the run from `state` to the state that follows.
pub fn step(state: RunState, succeeded: bool, total: usize) -> (next: RunState)
    ensures
        next == following_state(state, succeeded, total),
{
    match state {
        RunState::Working { package, stage } => if !succeeded {
            RunState::Stopped(RunError::Step { package, stage })
        } else {
            match stage {
                Stage::Fetch => RunState::Working { package, stage: Stage::Extract },
                Stage::Extract => RunState::Working { package, stage: Stage::Publish },
                Stage::Publish => if total > 0 && package < total - 1 {
                    RunState::Working { package: package + 1, stage: Stage::Fetch }
                } else {
                    RunState::Finished
                },
            }
        },
        _ => state,
    }
}

/// The state that a run reaches from `state` when the steps that fall due end as
/// `outcomes` say, one after the other.
pub open spec fn run_from(state: RunState, outcomes: Seq<bool>, total: usize) -> RunState
    decreases outcomes.len(),
{
    if outcomes.len() == 0 {
        state
    } else {
        following_state(run_from(state, outcomes.drop_last(), total), outcomes.last(), total)
    }
}

/// The step of a package's work that comes at place `place`: fetch, extract, publish.
pub open spec fn stage_at(place: int) -> Stage {
    if place == 0 {
        Stage::Fetch
    } else if place == 1 {
        Stage::Extract
    } else {
        Stage::Publish
    }
}

/// `count` steps that all succeed.
pub open spec fn successes(count: nat) -> Seq<bool> {
    Seq::new(count, |i: int| true)
}

/// While every step succeeds, a run works through the packages in their order and through
/// the three steps of each in theirs: after `done` steps it stands at step `done % 3` of
/// package `done / 3`, and after the last step of the last package it is finished.
pub proof fn lemma_run_visits_every_package(total: usize, done: nat)
    requires
        total > 0,
        done <= 3 * total,
    ensures
        run_from(first_state(Ok(total as nat)), successes(done), total) == if done == 3 * total {
            RunState::Finished
        } else {
            RunState::Working { package: (done / 3) as usize, stage: stage_at(done as int % 3) }
        },
    decreases done,
{
    if done > 0 {
        let before = (done - 1) as nat;
        lemma_run_visits_every_package(total, before);
        assert(successes(done).drop_last() =~= successes(before));
    }
}

/// While every step succeeds, the page of each package is fetched once and no more: the
/// fetch of a package falls due after the three steps of each package before it, and at no
/// other time.
pub proof fn lemma_each_package_is_fetched_once(total: usize, package: usize, done: nat)
    requires
        package < total,
        done <= 3 * total,
    ensures
        action_due(run_from(first_state(Ok(total as nat)), successes(done), total)) == (
        RunAction::Perform { package, stage: Stage::Fetch }) <==> done == 3 * package,
{
    lemma_run_visits_every_package(total, done);
}

/// A step that fails stops the run with the error of that step and that package, and
/// whatever is reported afterwards, the run stays stopped: no later step and no later
/// package is taken up.
pub proof fn lemma_failure_stops_run(
    package: usize,
    stage: Stage,
    later: Seq<bool>,
    total: usize,
)
    ensures
        ({
            let stopped = following_state(RunState::Working { package, stage }, false, total);
            &&& stopped == RunState::Stopped(RunError::Step { package, stage })
            &&& run_from(stopped, later, total) == stopped
            &&& action_due(run_from(stopped, later, total)) == RunAction::Fail(
                RunError::Step { package, stage },
            )
        }),
    decreases later.len(),
{
    if later.len() > 0 {
        lemma_failure_stops_run(package, stage, later.drop_last(), total);
    }
}

/// A run that starts from a configuration error starts nothing: whatever is reported, no
/// step of any package falls due, and the run ends with the configuration error.
pub proof fn lemma_configuration_error_starts_nothing(
    error: ConfigError,
    outcomes: Seq<bool>,
    total: usize,
)
    ensures
        run_from(first_state(Err(error)), outcomes, total) == RunState::Stopped(
            RunError::Config(error),
        ),
        action_due(run_from(first_state(Err(error)), outcomes, total)) == RunAction::Fail(
            RunError::Config(error),
        ),
    decreases outcomes.len(),
{
    if outcomes.len() > 0 {
        lemma_configuration_error_starts_nothing(error, outcomes.drop_last(), total);
    }
}

} // verus!
