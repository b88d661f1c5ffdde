use rate_watch::monitor::{Monitor, Step, TICK_SECONDS};
use rate_watch::rate::Rate;
use rate_watch::source::{rate_from_reply, FetchError, Reply};
use rate_watch::tracker::{AlertKind, TrackerState};

const ONE: i128 = 1_000_000_000_000_000_000;

fn whole(n: i128) -> Rate {
    Rate::from_units(n * ONE)
}

fn quote(numeral: &str) -> Reply {
    Reply::Received {
        status: 200,
        body: format!(r#"{{"data":{{"currency":"BTC","rates":{{"USDC":"{}"}}}}}}"#, numeral),
    }
}

#[test]
fn the_tick_is_ten_seconds() {
    assert_eq!(TICK_SECONDS, 10);
}

#[test]
fn a_new_monitor_is_starting() {
    let monitor = Monitor::new(whole(100));
    assert_eq!(monitor, Monitor::Starting { threshold: whole(100) });
    assert_eq!(monitor.threshold(), whole(100));
}

#[test]
fn the_first_rate_starts_the_tracker_without_an_alert() {
    let step = Monitor::new(whole(100)).advance(Ok(whole(100)));
    assert_eq!(
        step,
        Step::Continue {
            monitor: Monitor::Running { threshold: whole(100), state: TrackerState::new(whole(100)) },
            alert: None,
        }
    );
}

#[test]
fn startup_then_a_rise_then_a_fall() {
    let threshold = Rate::from_text("100.0").unwrap();
    let mut monitor = Monitor::new(threshold);
    let mut alerts = Vec::new();
    let mut states = Vec::new();
    for numeral in ["100.0", "250.0", "140.0"] {
        let outcome = rate_from_reply(&quote(numeral), "USDC");
        match monitor.advance(outcome) {
            Step::Continue { monitor: next, alert } => {
                monitor = next;
                alerts.push(alert);
                states.push(next);
            }
            Step::Fatal { error } => panic!("{:?}", error),
        }
    }
    assert_eq!(alerts, vec![None, Some(AlertKind::UpwardBreak), Some(AlertKind::DownwardBreak)]);
    assert_eq!(
        states,
        vec![
            Monitor::Running { threshold, state: TrackerState::new(whole(100)) },
            Monitor::Running { threshold, state: TrackerState::new(whole(250)) },
            Monitor::Running {
                threshold,
                state: TrackerState { reference_rate: whole(250), lower_low: whole(140) },
            },
        ]
    );
}

#[test]
fn a_replay_gives_the_same_account() {
    let threshold = whole(100);
    let outcomes = vec![Ok(whole(100)), Ok(whole(250)), Ok(whole(140)), Ok(whole(150))];
    let replay = Monitor::new(threshold).replay(&outcomes);
    assert_eq!(replay.fetches, 4);
    assert_eq!(replay.alerts, vec![AlertKind::UpwardBreak, AlertKind::DownwardBreak]);
    assert_eq!(
        replay.end,
        Ok(Monitor::Running {
            threshold,
            state: TrackerState { reference_rate: whole(250), lower_low: whole(140) },
        })
    );
}

#[test]
fn a_replay_of_nothing_leaves_the_monitor_as_it_was() {
    let replay = Monitor::new(whole(1)).replay(&Vec::new());
    assert_eq!(replay.fetches, 0);
    assert_eq!(replay.alerts, Vec::new());
    assert_eq!(replay.end, Ok(Monitor::new(whole(1))));
}

#[test]
fn a_failed_first_fetch_ends_the_run() {
    for error in [
        FetchError::Transport,
        FetchError::BadStatus(503),
        FetchError::MalformedBody,
        FetchError::MissingCurrency,
        FetchError::UnparseableRate,
    ] {
        assert_eq!(Monitor::new(whole(5)).advance(Err(error)), Step::Fatal { error });
        let replay = Monitor::new(whole(5)).replay(&vec![Err(error), Ok(whole(1)), Ok(whole(90))]);
        assert_eq!(replay.fetches, 1);
        assert_eq!(replay.alerts, Vec::new());
        assert_eq!(replay.end, Err(error));
    }
}

#[test]
fn a_failed_fetch_at_a_tick_ends_the_run_and_no_tick_follows() {
    let outcomes = vec![
        Ok(whole(100)),
        Ok(whole(106)),
        Err(FetchError::BadStatus(500)),
        Ok(whole(200)),
        Err(FetchError::Transport),
        Ok(whole(1)),
    ];
    let replay = Monitor::new(whole(5)).replay(&outcomes);
    assert_eq!(replay.fetches, 3);
    assert_eq!(replay.alerts, vec![AlertKind::UpwardBreak]);
    assert_eq!(replay.end, Err(FetchError::BadStatus(500)));
}

#[test]
fn a_refusal_or_a_malformed_body_at_a_tick_is_fatal() {
    let running = Monitor::Running { threshold: whole(5), state: TrackerState::new(whole(100)) };
    let refused = rate_from_reply(&Reply::Received { status: 502, body: String::new() }, "USDC");
    assert_eq!(running.advance(refused), Step::Fatal { error: FetchError::BadStatus(502) });
    let garbled = rate_from_reply(
        &Reply::Received { status: 200, body: "<html>".to_string() },
        "USDC",
    );
    assert_eq!(running.advance(garbled), Step::Fatal { error: FetchError::MalformedBody });
}

#[test]
fn a_missing_currency_is_as_fatal_as_a_transport_failure() {
    let running = Monitor::Running { threshold: whole(5), state: TrackerState::new(whole(100)) };
    let missing = rate_from_reply(&quote("100"), "EUR");
    let unreachable = rate_from_reply(&Reply::Failed, "EUR");
    assert_eq!(missing, Err(FetchError::MissingCurrency));
    assert_eq!(unreachable, Err(FetchError::Transport));
    assert_ne!(missing, unreachable);
    assert_eq!(running.advance(missing), Step::Fatal { error: FetchError::MissingCurrency });
    assert_eq!(running.advance(unreachable), Step::Fatal { error: FetchError::Transport });
    let starting = Monitor::new(whole(5));
    assert_eq!(starting.advance(missing), Step::Fatal { error: FetchError::MissingCurrency });
    assert_eq!(starting.advance(unreachable), Step::Fatal { error: FetchError::Transport });
}

#[test]
fn the_threshold_stays_through_the_run() {
    let replay = Monitor::new(whole(7)).replay(&vec![Ok(whole(1)), Ok(whole(50)), Ok(whole(2))]);
    assert_eq!(replay.end.unwrap().threshold(), whole(7));
}
