use crawl_trials::config::CampaignConfig;
use crawl_trials::model::{CapturedRequest, Resource, Trial};
use crawl_trials::runner::{
    advance, assemble_trial, navigation_url, Failure, RunnerAction, RunnerContext, RunnerEvent,
    RunnerState, TrialRunner,
};

fn context() -> RunnerContext {
    RunnerContext {
        hostname: "example.com".to_string(),
        category: "news".to_string(),
        ver: "HeadlessChrome/120.0".to_string(),
        trial: 3,
        tabs: 4,
        load_time_ms: 2000,
    }
}

fn every_event() -> Vec<RunnerEvent> {
    vec![
        RunnerEvent::PageOpened,
        RunnerEvent::PageFailed,
        RunnerEvent::ListenersReady,
        RunnerEvent::ListenersFailed,
        RunnerEvent::DeadlineElapsed { navigation_finished: true },
        RunnerEvent::DeadlineElapsed { navigation_finished: false },
        RunnerEvent::Drained { requests: Vec::new() },
        RunnerEvent::Enriched { resources: Vec::new(), time: 0 },
        RunnerEvent::Persisted,
        RunnerEvent::PersistFailed,
        RunnerEvent::PageClosed { clean: true },
        RunnerEvent::PageClosed { clean: false },
    ]
}

fn resource(url: &str) -> Resource {
    Resource {
        url: url.to_string(),
        hostname: None,
        resource_type: "Image".to_string(),
        code: None,
        size: None,
        dns_records: None,
    }
}

#[test]
fn navigation_url_puts_https_in_front() {
    assert_eq!(navigation_url(&"example.com".to_string()), "https://example.com");
    assert_eq!(navigation_url(&String::new()), "https://");
}

#[test]
fn trial_is_assembled_unmarked() {
    let trial = assemble_trial(&context(), vec![resource("https://example.com/a.png")], 1_700_000_000_000);
    assert_eq!(
        trial,
        Trial {
            time: 1_700_000_000_000,
            ver: "HeadlessChrome/120.0".to_string(),
            num: 3,
            resources: vec![resource("https://example.com/a.png")],
            trial_success: false,
        }
    );
}

#[test]
fn runner_walks_through_every_state() {
    let config = CampaignConfig::new(3, 4, 2000).unwrap();
    let (mut runner, first) = TrialRunner::start(
        "example.com".to_string(),
        "news".to_string(),
        "HeadlessChrome/120.0".to_string(),
        &config,
    );
    assert_eq!(first, RunnerAction::OpenPage);
    assert_eq!(runner.state(), RunnerState::Opening);
    assert_eq!(runner.url(), "https://example.com");

    assert_eq!(runner.on_event(RunnerEvent::PageOpened), RunnerAction::Subscribe);
    assert_eq!(runner.state(), RunnerState::Listening);

    assert_eq!(runner.on_event(RunnerEvent::ListenersReady), RunnerAction::Navigate { budget_ms: 2000 });
    assert_eq!(runner.state(), RunnerState::Loading);

    assert_eq!(
        runner.on_event(RunnerEvent::DeadlineElapsed { navigation_finished: false }),
        RunnerAction::CancelAndDrain { cut_off: true }
    );
    assert_eq!(runner.state(), RunnerState::Draining);

    let requests = vec![CapturedRequest {
        url: "https://example.com/a.png".to_string(),
        resource_type: "Image".to_string(),
        network_id: None,
    }];
    assert_eq!(
        runner.on_event(RunnerEvent::Drained { requests: requests.clone() }),
        RunnerAction::Enrich { requests, parallelism: 4 }
    );
    assert_eq!(runner.state(), RunnerState::Enriching);

    let resources = vec![resource("https://example.com/a.png")];
    assert_eq!(
        runner.on_event(RunnerEvent::Enriched { resources: resources.clone(), time: 42 }),
        RunnerAction::Persist {
            hostname: "example.com".to_string(),
            category: "news".to_string(),
            trial: Trial {
                time: 42,
                ver: "HeadlessChrome/120.0".to_string(),
                num: 3,
                resources,
                trial_success: false,
            },
        }
    );
    assert_eq!(runner.state(), RunnerState::Persisting);

    assert_eq!(runner.on_event(RunnerEvent::Persisted), RunnerAction::ClosePage);
    assert_eq!(runner.state(), RunnerState::Closed);

    assert_eq!(
        runner.on_event(RunnerEvent::PageClosed { clean: true }),
        RunnerAction::Complete { closed_cleanly: true }
    );
    assert_eq!(runner.state(), RunnerState::Closed);
    assert_eq!(runner.on_event(RunnerEvent::Persisted), RunnerAction::Idle);
    assert_eq!(runner.state(), RunnerState::Closed);
}

#[test]
fn page_that_cannot_be_opened_fails_the_trial() {
    assert_eq!(
        advance(&context(), RunnerState::Opening, RunnerEvent::PageFailed),
        (RunnerState::Errored, RunnerAction::Abort { failure: Failure::PageNotOpened })
    );
}

#[test]
fn listeners_that_cannot_subscribe_fail_the_trial() {
    assert_eq!(
        advance(&context(), RunnerState::Listening, RunnerEvent::ListenersFailed),
        (RunnerState::Errored, RunnerAction::Abort { failure: Failure::ListenersNotSubscribed })
    );
}

#[test]
fn trial_that_cannot_be_stored_fails() {
    assert_eq!(
        advance(&context(), RunnerState::Persisting, RunnerEvent::PersistFailed),
        (RunnerState::Errored, RunnerAction::Abort { failure: Failure::NotPersisted })
    );
}

#[test]
fn page_close_failure_is_not_fatal() {
    assert_eq!(
        advance(&context(), RunnerState::Closed, RunnerEvent::PageClosed { clean: false }),
        (RunnerState::Closed, RunnerAction::Complete { closed_cleanly: false })
    );
}

#[test]
fn deadline_is_hard_whether_navigation_finished_or_not() {
    assert_eq!(
        advance(&context(), RunnerState::Loading, RunnerEvent::DeadlineElapsed { navigation_finished: true }),
        (RunnerState::Draining, RunnerAction::CancelAndDrain { cut_off: false })
    );
    assert_eq!(
        advance(&context(), RunnerState::Loading, RunnerEvent::DeadlineElapsed { navigation_finished: false }),
        (RunnerState::Draining, RunnerAction::CancelAndDrain { cut_off: true })
    );
}

#[test]
fn errored_is_absorbing() {
    for event in every_event() {
        assert_eq!(
            advance(&context(), RunnerState::Errored, event),
            (RunnerState::Errored, RunnerAction::Idle)
        );
    }
}

#[test]
fn events_out_of_turn_end_the_trial() {
    let awaited = [
        (RunnerState::Opening, vec![0, 1]),
        (RunnerState::Listening, vec![2, 3]),
        (RunnerState::Loading, vec![4, 5]),
        (RunnerState::Draining, vec![6]),
        (RunnerState::Enriching, vec![7]),
        (RunnerState::Persisting, vec![8, 9]),
    ];
    for (state, expected) in awaited {
        for (i, event) in every_event().into_iter().enumerate() {
            let (next, action) = advance(&context(), state, event);
            if expected.contains(&i) {
                assert_ne!(action, RunnerAction::Abort { failure: Failure::OutOfTurn });
            } else {
                assert_eq!(next, RunnerState::Errored);
                assert_eq!(action, RunnerAction::Abort { failure: Failure::OutOfTurn });
            }
        }
    }
}

#[test]
fn cancelled_trial_without_requests_is_still_persisted() {
    let ctx = context();
    let (s, a) = advance(&ctx, RunnerState::Loading, RunnerEvent::DeadlineElapsed { navigation_finished: false });
    assert_eq!(a, RunnerAction::CancelAndDrain { cut_off: true });
    let (s, a) = advance(&ctx, s, RunnerEvent::Drained { requests: Vec::new() });
    assert_eq!(a, RunnerAction::Enrich { requests: Vec::new(), parallelism: 4 });
    let (s, a) = advance(&ctx, s, RunnerEvent::Enriched { resources: Vec::new(), time: 9 });
    assert_eq!(s, RunnerState::Persisting);
    match a {
        RunnerAction::Persist { hostname, category, trial } => {
            assert_eq!(hostname, "example.com");
            assert_eq!(category, "news");
            assert!(trial.resources.is_empty());
            assert!(!trial.trial_success);
            assert_eq!(trial.num, 3);
        }
        other => panic!("expected a persist action, got {:?}", other),
    }
}
