//! The trial runner: the life of one page, from opening it to closing it.
//!
//! A runner moves through `Opening`, `Listening`, `Loading`, `Draining`,
//! `Enriching`, `Persisting` and `Closed`, or ends in `Errored`. It decides;
//! its caller performs each action and reports back what happened.

use vstd::prelude::*;
use vstd::string::*;
use crate::config::CampaignConfig;
use crate::model::{CapturedRequest, Resource, Trial};

verus! {

/// Where a trial runner stands.
#[derive(Clone, Copy, Debug, PartialEq, Eq)]
pub enum RunnerState {
    /// A page is being opened.
    Opening,
    /// The interceptor and the recorder are being subscribed.
    Listening,
    /// The site loads while the load-time budget runs down.
    Loading,
    /// Navigation and listeners are cancelled; the buffer is being emptied.
    Draining,
    /// The captured requests are being enriched.
    Enriching,
    /// The trial is being appended to its site.
    Persisting,
    /// The trial is stored; the page is being closed or has been.
    Closed,
    /// The trial was given up. Nothing leads out of this state.
    Errored,
}

/// Why a trial was given up.
#[derive(Clone, Copy, Debug, PartialEq, Eq)]
pub enum Failure {
    /// No page could be opened.
    PageNotOpened,
    /// The page's event streams could not be subscribed to.
    ListenersNotSubscribed,
    /// The trial could not be stored.
    NotPersisted,
    /// An event arrived that the runner's state does not wait for.
    OutOfTurn,
}

/// What the caller reports to a runner.
#[derive(Clone, Debug, PartialEq, Eq)]
pub enum RunnerEvent {
    PageOpened,
    PageFailed,
    ListenersReady,
    ListenersFailed,
    /// The load-time budget has run out, whether or not navigation finished.
    DeadlineElapsed { navigation_finished: bool },
    /// The buffer is empty; these are the requests it held, possibly none.
    Drained { requests: Vec<CapturedRequest> },
    /// Every drained request was enriched; `time` is the wall clock now, in
    /// milliseconds since the Unix epoch.
    Enriched { resources: Vec<Resource>, time: i64 },
    Persisted,
    PersistFailed,
    /// The page was closed, or closing it failed (`clean` is false).
    PageClosed { clean: bool },
}

/// What a runner asks of its caller.
#[derive(Clone, Debug, PartialEq, Eq)]
pub enum RunnerAction {
    /// Open a new, isolated page.
    OpenPage,
    /// Subscribe the interceptor and the recorder to the page.
    Subscribe,
    /// Begin navigation to the site as a task of its own and report
    /// `DeadlineElapsed` after `budget_ms` milliseconds, finished or not.
    Navigate { budget_ms: u64 },
    /// Cancel navigation and both listeners without waiting for them, then
    /// drain the buffer. `cut_off` says that loading was still under way.
    CancelAndDrain { cut_off: bool },
    /// Enrich the requests, at most `parallelism` at a time.
    Enrich { requests: Vec<CapturedRequest>, parallelism: usize },
    /// Append the trial to the site with this hostname and category,
    /// creating the site if it does not exist.
    Persist { hostname: String, category: String, trial: Trial },
    /// Close the page. A failure to do so is logged, nothing more.
    ClosePage,
    /// The trial is through. `closed_cleanly` is false where the page could
    /// not be closed.
    Complete { closed_cleanly: bool },
    /// The trial is given up: report the failure as this site's outcome.
    Abort { failure: Failure },
    /// Nothing to do: the runner had already ended.
    Idle,
}

/// What a runner knows of its site and of the campaign.
#[derive(Clone, Debug, PartialEq, Eq)]
pub struct RunnerContext {
    pub hostname: String,
    pub category: String,
    /// The browser's version string.
    pub ver: String,
    pub trial: i32,
    pub tabs: usize,
    pub load_time_ms: u64,
}

/// The trial that a runner assembles: the campaign's number, the resources
/// as they were enriched, and the success flag not yet set.
pub open spec fn trial_of(context: RunnerContext, resources: Vec<Resource>, time: i64) -> Trial {
    Trial { time: time, ver: context.ver, num: context.trial, resources: resources, trial_success: false }
}

/// The state that follows and the action to take, for each state and event.
pub open spec fn transition(context: RunnerContext, state: RunnerState, event: RunnerEvent) -> (
    RunnerState,
    RunnerAction,
) {
    match (state, event) {
        (RunnerState::Opening, RunnerEvent::PageOpened) => (
            RunnerState::Listening,
            RunnerAction::Subscribe,
        ),
        (RunnerState::Opening, RunnerEvent::PageFailed) => (
            RunnerState::Errored,
            RunnerAction::Abort { failure: Failure::PageNotOpened },
        ),
        (RunnerState::Listening, RunnerEvent::ListenersReady) => (
            RunnerState::Loading,
            RunnerAction::Navigate { budget_ms: context.load_time_ms },
        ),
        (RunnerState::Listening, RunnerEvent::ListenersFailed) => (
            RunnerState::Errored,
            RunnerAction::Abort { failure: Failure::ListenersNotSubscribed },
        ),
        (RunnerState::Loading, RunnerEvent::DeadlineElapsed { navigation_finished }) => (
            RunnerState::Draining,
            RunnerAction::CancelAndDrain { cut_off: !navigation_finished },
        ),
        (RunnerState::Draining, RunnerEvent::Drained { requests }) => (
            RunnerState::Enriching,
            RunnerAction::Enrich { requests: requests, parallelism: context.tabs },
        ),
        (RunnerState::Enriching, RunnerEvent::Enriched { resources, time }) => (
            RunnerState::Persisting,
            RunnerAction::Persist {
                hostname: context.hostname,
                category: context.category,
                trial: trial_of(context, resources, time),
            },
        ),
        (RunnerState::Persisting, RunnerEvent::Persisted) => (
            RunnerState::Closed,
            RunnerAction::ClosePage,
        ),
        (RunnerState::Persisting, RunnerEvent::PersistFailed) => (
            RunnerState::Errored,
            RunnerAction::Abort { failure: Failure::NotPersisted },
        ),
        (RunnerState::Closed, RunnerEvent::PageClosed { clean }) => (
            RunnerState::Closed,
            RunnerAction::Complete { closed_cleanly: clean },
        ),
        (RunnerState::Closed, _) => (RunnerState::Closed, RunnerAction::Idle),
        (RunnerState::Errored, _) => (RunnerState::Errored, RunnerAction::Idle),
        _ => (RunnerState::Errored, RunnerAction::Abort { failure: Failure::OutOfTurn }),
    }
}

/// The address that a runner navigates to.
pub open spec fn navigation_target(hostname: Seq<char>) -> Seq<char> {
    "https://"@ + hostname
}

/// The address to load for a site: its hostname behind `https://`.
pub fn navigation_url(hostname: &String) -> (url: String)
    ensures
        url@ == navigation_target(hostname@),
{
    String::from_str("https://").concat(hostname.as_str())
}

/// Assembles the trial record of a runner.
pub fn assemble_trial(context: &RunnerContext, resources: Vec<Resource>, time: i64) -> (trial: Trial)
    ensures
        trial == trial_of(*context, resources, time),
        !trial.trial_success,
        trial.resources == resources,
        trial.num == context.trial,
{
    Trial { time, ver: context.ver.clone(), num: context.trial, resources, trial_success: false }
}

/// One step of a runner: from a state and an event to the next state and the
/// action that the caller performs.
pub fn advance(context: &RunnerContext, state: RunnerState, event: RunnerEvent) -> (next: (
    RunnerState,
    RunnerAction,
))
    ensures
        next == transition(*context, state, event),
{
    match state {
        RunnerState::Opening => match event {
            RunnerEvent::PageOpened => (RunnerState::Listening, RunnerAction::Subscribe),
            RunnerEvent::PageFailed => (
                RunnerState::Errored,
                RunnerAction::Abort { failure: Failure::PageNotOpened },
            ),
            _ => (RunnerState::Errored, RunnerAction::Abort { failure: Failure::OutOfTurn }),
        },
        RunnerState::Listening => match event {
            RunnerEvent::ListenersReady => (
                RunnerState::Loading,
                RunnerAction::Navigate { budget_ms: context.load_time_ms },
            ),
            RunnerEvent::ListenersFailed => (
                RunnerState::Errored,
                RunnerAction::Abort { failure: Failure::ListenersNotSubscribed },
            ),
            _ => (RunnerState::Errored, RunnerAction::Abort { failure: Failure::OutOfTurn }),
        },
        RunnerState::Loading => match event {
            RunnerEvent::DeadlineElapsed { navigation_finished } => (
                RunnerState::Draining,
                RunnerAction::CancelAndDrain { cut_off: !navigation_finished },
            ),
            _ => (RunnerState::Errored, RunnerAction::Abort { failure: Failure::OutOfTurn }),
        },
        RunnerState::Draining => match event {
            RunnerEvent::Drained { requests } => (
                RunnerState::Enriching,
                RunnerAction::Enrich { requests, parallelism: context.tabs },
            ),
            _ => (RunnerState::Errored, RunnerAction::Abort { failure: Failure::OutOfTurn }),
        },
        RunnerState::Enriching => match event {
            RunnerEvent::Enriched { resources, time } => (
                RunnerState::Persisting,
                RunnerAction::Persist {
                    hostname: context.hostname.clone(),
                    category: context.category.clone(),
                    trial: assemble_trial(context, resources, time),
                },
            ),
            _ => (RunnerState::Errored, RunnerAction::Abort { failure: Failure::OutOfTurn }),
        },
        RunnerState::Persisting => match event {
            RunnerEvent::Persisted => (RunnerState::Closed, RunnerAction::ClosePage),
            RunnerEvent::PersistFailed => (
                RunnerState::Errored,
                RunnerAction::Abort { failure: Failure::NotPersisted },
            ),
            _ => (RunnerState::Errored, RunnerAction::Abort { failure: Failure::OutOfTurn }),
        },
        RunnerState::Closed => match event {
            RunnerEvent::PageClosed { clean } => (
                RunnerState::Closed,
                RunnerAction::Complete { closed_cleanly: clean },
            ),
            _ => (RunnerState::Closed, RunnerAction::Idle),
        },
        RunnerState::Errored => (RunnerState::Errored, RunnerAction::Idle),
    }
}

/// A runner for one site.
pub struct TrialRunner {
    context: RunnerContext,
    state: RunnerState,
}

impl TrialRunner {
    /// The runner's site and campaign parameters.
    pub closed spec fn context(&self) -> RunnerContext {
        self.context
    }

    /// Where the runner stands.
    pub closed spec fn spec_state(&self) -> RunnerState {
        self.state
    }

    /// A runner for the site `hostname` of `category`, together with its
    /// first action: to open a page.
    pub fn start(hostname: String, category: String, ver: String, config: &CampaignConfig) -> (out:
        (TrialRunner, RunnerAction))
        ensures
            out.0.spec_state() == RunnerState::Opening,
            out.0.context() == (RunnerContext {
                hostname: hostname,
                category: category,
                ver: ver,
                trial: config.spec_trial(),
                tabs: config.spec_tabs(),
                load_time_ms: config.spec_load_time_ms(),
            }),
            out.1 == RunnerAction::OpenPage,
    {
        let context = RunnerContext {
            hostname,
            category,
            ver,
            trial: config.trial(),
            tabs: config.tabs(),
            load_time_ms: config.load_time_ms(),
        };
        (TrialRunner { context, state: RunnerState::Opening }, RunnerAction::OpenPage)
    }

    /// Where the runner stands.
    pub fn state(&self) -> (state: RunnerState)
        ensures
            state == self.spec_state(),
    {
        self.state
    }

    /// The address to navigate to.
    pub fn url(&self) -> (url: String)
        ensures
            url@ == navigation_target(self.context().hostname@),
    {
        navigation_url(&self.context.hostname)
    }

    /// Takes in what happened and says what to do next.
    pub fn on_event(&mut self, event: RunnerEvent) -> (action: RunnerAction)
        ensures
            (final(self).spec_state(), action) == transition(
                old(self).context(),
                old(self).spec_state(),
                event,
            ),
            final(self).context() == old(self).context(),
    {
        let (state, action) = advance(&self.context, self.state, event);
        self.state = state;
        action
    }
}

/// The hard deadline: once the load-time budget has run out, a runner goes on
/// to drain, enrich and persist, whether navigation had finished or was cut
/// off, and whatever was captured. What it persists holds the enriched
/// resources as they are, with the success flag unset; a trial that captured
/// nothing is persisted with an empty resource list.
pub proof fn lemma_deadline_leads_to_persisting(
    context: RunnerContext,
    navigation_finished: bool,
    requests: Vec<CapturedRequest>,
    resources: Vec<Resource>,
    time: i64,
)
    ensures
        ({
            let loaded = transition(
                context,
                RunnerState::Loading,
                RunnerEvent::DeadlineElapsed { navigation_finished },
            );
            let drained = transition(context, loaded.0, RunnerEvent::Drained { requests });
            let enriched = transition(
                context,
                drained.0,
                RunnerEvent::Enriched { resources, time },
            );
            let stored = transition(context, enriched.0, RunnerEvent::Persisted);
            &&& loaded == (
                RunnerState::Draining,
                RunnerAction::CancelAndDrain { cut_off: !navigation_finished },
            )
            &&& drained == (
                RunnerState::Enriching,
                RunnerAction::Enrich { requests, parallelism: context.tabs },
            )
            &&& enriched.0 == RunnerState::Persisting
            &&& enriched.1 matches RunnerAction::Persist { hostname, category, trial }
            &&& hostname == context.hostname
            &&& category == context.category
            &&& trial.resources == resources
            &&& trial.num == context.trial
            &&& !trial.trial_success
            &&& (resources@.len() == 0 ==> trial.resources@.len() == 0)
            &&& stored == (RunnerState::Closed, RunnerAction::ClosePage)
        }),
{
}

/// `Errored` is absorbing, and a runner that has stored its trial stays
/// `Closed`: no event leads out of either.
pub proof fn lemma_terminal_states_stay(context: RunnerContext, event: RunnerEvent)
    ensures
        transition(context, RunnerState::Errored, event) == (
            RunnerState::Errored,
            RunnerAction::Idle,
        ),
        transition(context, RunnerState::Closed, event).0 == RunnerState::Closed,
{
}

} // verus!
