use price_monitor::decimal::{ParseError, SCALE};
use price_monitor::monitor::PriceMonitor;
use price_monitor::polling::{Action, AlertError, Event, Phase, PollingLoop};
use price_monitor::price::{Price, Threshold};
use price_monitor::ticker::{
    extract_price, BtcUsdPair, FetchError, KrakenResponse, KrakenResult, TransportError,
};

fn dollars(amount: u64) -> Price {
    Price::from_units(amount * SCALE).unwrap()
}

fn fresh(threshold: &str) -> PollingLoop {
    PollingLoop::new(PriceMonitor::new(Threshold::parse(threshold).unwrap(), 0))
}

fn after_first_price(threshold: &str, price: Price) -> PollingLoop {
    let mut polling = fresh(threshold);
    assert_eq!(polling.step(Event::Tick), Action::FetchPrice);
    assert_eq!(polling.step(Event::Fetched(Ok(price))), Action::AwaitTick);
    polling
}

fn heard(at: u64) -> Event {
    Event::AlertFinished { outcome: Ok(()), at }
}

fn unheard(at: u64) -> Event {
    Event::AlertFinished { outcome: Err(AlertError::Device("no output device".to_string())), at }
}

#[test]
fn a_new_loop_waits_for_its_first_tick() {
    let polling = fresh("0.001");
    assert_eq!(polling.phase(), Phase::WaitingForTick);
    assert_eq!(polling.pending(), Action::AwaitTick);
    assert_eq!(polling.monitor().last_price(), None);
}

#[test]
fn a_tick_starts_the_fetch() {
    let mut polling = fresh("0.001");
    assert_eq!(polling.step(Event::Tick), Action::FetchPrice);
    assert_eq!(polling.phase(), Phase::Fetching);
    assert_eq!(polling.pending(), Action::FetchPrice);
}

#[test]
fn the_first_price_is_stored_without_an_alert() {
    let mut polling = fresh("0.001");
    polling.step(Event::Tick);
    assert_eq!(polling.step(Event::Fetched(Ok(dollars(30_000)))), Action::AwaitTick);
    assert_eq!(polling.phase(), Phase::WaitingForTick);
    assert_eq!(polling.monitor().last_price(), Some(dollars(30_000)));
    assert_eq!(polling.monitor().last_alert(), 0);
}

#[test]
fn a_small_move_is_stored_without_an_alert() {
    let mut polling = after_first_price("0.001", dollars(50_000));
    polling.step(Event::Tick);
    assert_eq!(polling.step(Event::Fetched(Ok(dollars(50_049)))), Action::AwaitTick);
    assert_eq!(polling.phase(), Phase::WaitingForTick);
    assert_eq!(polling.monitor().last_price(), Some(dollars(50_049)));
}

#[test]
fn a_move_of_the_threshold_plays_the_alert_and_then_stores_the_price() {
    let mut polling = after_first_price("0.001", dollars(50_000));
    polling.step(Event::Tick);
    assert_eq!(polling.step(Event::Fetched(Ok(dollars(50_050)))), Action::PlayAlert);
    assert_eq!(polling.phase(), Phase::Alerting(dollars(50_050)));
    assert_eq!(polling.monitor().last_price(), Some(dollars(50_000)));
    assert_eq!(polling.step(heard(77)), Action::AwaitTick);
    assert_eq!(polling.phase(), Phase::WaitingForTick);
    assert_eq!(polling.monitor().last_price(), Some(dollars(50_050)));
    assert_eq!(polling.monitor().last_alert(), 77);
}

#[test]
fn a_failed_fetch_leaves_the_monitor_as_it_was() {
    let failures = [
        FetchError::Transport(TransportError::Request("timed out".to_string())),
        FetchError::Transport(TransportError::Status(503)),
        FetchError::Transport(TransportError::Body("expected value".to_string())),
        FetchError::Api(vec!["EQuery:Unknown asset pair".to_string()]),
        FetchError::Parse(ParseError::Missing),
        FetchError::Parse(ParseError::Malformed),
        FetchError::Parse(ParseError::NotPositive),
        FetchError::Parse(ParseError::OutOfRange),
    ];
    for failure in failures {
        let mut polling = after_first_price("0.001", dollars(50_000));
        let before = polling.monitor();
        polling.step(Event::Tick);
        assert_eq!(polling.step(Event::Fetched(Err(failure))), Action::AwaitTick);
        assert_eq!(polling.phase(), Phase::WaitingForTick);
        assert_eq!(polling.monitor(), before);
    }
}

#[test]
fn a_failed_first_fetch_leaves_no_price() {
    let mut polling = fresh("0.001");
    polling.step(Event::Tick);
    let failure = FetchError::Api(vec!["EQuery:Unknown asset pair".to_string()]);
    assert_eq!(polling.step(Event::Fetched(Err(failure))), Action::AwaitTick);
    assert_eq!(polling.monitor().last_price(), None);
    polling.step(Event::Tick);
    assert_eq!(polling.step(Event::Fetched(Ok(dollars(30_000)))), Action::AwaitTick);
    assert_eq!(polling.monitor().last_price(), Some(dollars(30_000)));
}

#[test]
fn a_failed_alert_ends_the_cycle_like_a_heard_one() {
    let mut well = after_first_price("0.001", dollars(50_000));
    let mut badly = after_first_price("0.001", dollars(50_000));
    for polling in [&mut well, &mut badly] {
        polling.step(Event::Tick);
        assert_eq!(polling.step(Event::Fetched(Ok(dollars(49_000)))), Action::PlayAlert);
    }
    assert_eq!(well.step(heard(5)), Action::AwaitTick);
    assert_eq!(badly.step(unheard(5)), Action::AwaitTick);
    assert_eq!(well, badly);
    assert_eq!(badly.monitor().last_price(), Some(dollars(49_000)));
    assert_eq!(badly.monitor().last_alert(), 5);
}

#[test]
fn the_loop_goes_on_after_a_failed_alert() {
    let mut polling = after_first_price("0.001", dollars(50_000));
    polling.step(Event::Tick);
    polling.step(Event::Fetched(Ok(dollars(60_000))));
    for failure in [
        AlertError::Device("busy".to_string()),
        AlertError::Asset("not found".to_string()),
        AlertError::Decode("not a sound".to_string()),
        AlertError::Playback("stream closed".to_string()),
    ] {
        assert_eq!(polling.pending(), Action::PlayAlert);
        assert_eq!(polling.step(Event::AlertFinished { outcome: Err(failure), at: 1 }), Action::AwaitTick);
        assert_eq!(polling.step(Event::Tick), Action::FetchPrice);
        let last = polling.monitor().last_price().unwrap();
        let next = Price::from_units(last.units() * 2).unwrap();
        assert_eq!(polling.step(Event::Fetched(Ok(next))), Action::PlayAlert);
    }
}

#[test]
fn each_cycle_compares_with_the_price_of_the_one_before() {
    let mut polling = after_first_price("0.001", dollars(50_000));
    polling.step(Event::Tick);
    assert_eq!(polling.step(Event::Fetched(Ok(dollars(50_040)))), Action::AwaitTick);
    polling.step(Event::Tick);
    assert_eq!(polling.step(Event::Fetched(Ok(dollars(50_080)))), Action::AwaitTick);
    polling.step(Event::Tick);
    assert_eq!(polling.step(Event::Fetched(Ok(dollars(50_131)))), Action::PlayAlert);
    polling.step(heard(3));
    assert_eq!(polling.monitor().last_price(), Some(dollars(50_131)));
}

#[test]
fn an_event_that_answers_nothing_changes_nothing() {
    let mut waiting = after_first_price("0.001", dollars(50_000));
    let before = waiting.monitor();
    assert_eq!(waiting.step(Event::Fetched(Ok(dollars(70_000)))), Action::AwaitTick);
    assert_eq!(waiting.step(heard(9)), Action::AwaitTick);
    assert_eq!(waiting.phase(), Phase::WaitingForTick);
    assert_eq!(waiting.monitor(), before);

    let mut fetching = after_first_price("0.001", dollars(50_000));
    fetching.step(Event::Tick);
    assert_eq!(fetching.step(Event::Tick), Action::FetchPrice);
    assert_eq!(fetching.step(unheard(9)), Action::FetchPrice);
    assert_eq!(fetching.phase(), Phase::Fetching);
    assert_eq!(fetching.monitor(), before);

    let mut alerting = after_first_price("0.001", dollars(50_000));
    alerting.step(Event::Tick);
    alerting.step(Event::Fetched(Ok(dollars(70_000))));
    assert_eq!(alerting.step(Event::Tick), Action::PlayAlert);
    assert_eq!(alerting.step(Event::Fetched(Ok(dollars(80_000)))), Action::PlayAlert);
    assert_eq!(alerting.step(Event::Fetched(Err(FetchError::Parse(ParseError::Missing)))), Action::PlayAlert);
    assert_eq!(alerting.phase(), Phase::Alerting(dollars(70_000)));
    assert_eq!(alerting.monitor(), before);
}

#[test]
fn the_threshold_stays_what_it_was_made_with() {
    let threshold = Threshold::parse("0.001").unwrap();
    let mut polling = PollingLoop::new(PriceMonitor::new(threshold, 0));
    let events = [
        Event::Tick,
        Event::Fetched(Ok(dollars(50_000))),
        Event::Tick,
        Event::Fetched(Err(FetchError::Parse(ParseError::Malformed))),
        Event::Tick,
        Event::Fetched(Ok(dollars(55_000))),
        unheard(4),
        Event::Tick,
    ];
    for event in events {
        polling.step(event);
        assert_eq!(polling.monitor().alert_threshold(), threshold);
    }
    assert_eq!(polling.monitor().last_price(), Some(dollars(55_000)));
}

#[test]
fn an_error_reported_by_the_exchange_leaves_the_state_unchanged() {
    let mut polling = after_first_price("0.001", dollars(50_000));
    let before = polling.monitor();
    polling.step(Event::Tick);
    let answer = KrakenResponse {
        error: vec!["EQuery:Unknown asset pair".to_string()],
        result: KrakenResult { btc_usd: None },
    };
    assert_eq!(polling.step(Event::Fetched(extract_price(answer))), Action::AwaitTick);
    assert_eq!(polling.phase(), Phase::WaitingForTick);
    assert_eq!(polling.monitor(), before);
    assert_eq!(polling.monitor().last_price(), Some(dollars(50_000)));
}

#[test]
fn a_quoted_price_runs_through_the_whole_cycle() {
    let mut polling = after_first_price("0.001", dollars(50_000));
    polling.step(Event::Tick);
    let answer = KrakenResponse {
        error: Vec::new(),
        result: KrakenResult {
            btc_usd: Some(BtcUsdPair { c: vec!["50050.00000".to_string(), "0.5".to_string()] }),
        },
    };
    assert_eq!(polling.step(Event::Fetched(extract_price(answer))), Action::PlayAlert);
    assert_eq!(polling.step(heard(12)), Action::AwaitTick);
    assert_eq!(polling.monitor().last_price(), Some(dollars(50_050)));
    assert_eq!(polling.monitor().last_alert(), 12);
}
