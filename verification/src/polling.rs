//! The polling loop's decisions.
//!
//! The loop itself waits, fetches and plays sound, none of which happens
//! here. What is decided here is what to do next: the caller carries out the
//! pending action, reports what came of it as an event, and is told the next
//! action. One cycle runs from a tick through the fetch and, where the alert
//! rule fires, the alert, back to waiting; the fetched price is stored on the
//! way back to waiting.

use vstd::prelude::*;
use crate::monitor::{MonitorState, PriceMonitor};
use crate::price::Price;
use crate::ticker::FetchError;

verus! {

/// Why no alert was played.
#[derive(Debug, PartialEq, Eq)]
pub enum AlertError {
    /// The output device could not be had.
    Device(String),
    /// The sound could not be opened.
    Asset(String),
    /// The sound could not be decoded.
    Decode(String),
    /// The device refused the sound.
    Playback(String),
}

/// Where the loop stands between two events. Storing the fetched price is
/// no phase of its own: it is done on the step that returns to waiting.
#[derive(Clone, Copy, Debug, PartialEq, Eq)]
pub enum Phase {
    /// Nothing is under way; the next tick starts a cycle.
    WaitingForTick,
    /// A price has been asked for.
    Fetching,
    /// The alert is playing for this price, which is yet to be stored.
    Alerting(Price),
}

/// What the caller is to do next.
#[derive(Clone, Copy, Debug, PartialEq, Eq)]
pub enum Action {
    /// Wait for the next tick.
    AwaitTick,
    /// Ask the price source for the current price.
    FetchPrice,
    /// Play the alert.
    PlayAlert,
}

/// What came of the action that the caller carried out.
#[derive(Debug, PartialEq, Eq)]
pub enum Event {
    /// The tick came.
    Tick,
    /// The price source answered.
    Fetched(Result<Price, FetchError>),
    /// The alert ended, well or badly as `outcome` says, at time `at` on the
    /// caller's clock.
    AlertFinished { outcome: Result<(), AlertError>, at: u64 },
}

/// What a polling loop holds.
pub struct LoopState {
    /// The monitor's state.
    pub monitor: MonitorState,
    /// Where the loop stands.
    pub phase: Phase,
}

impl LoopState {
    /// The action that the loop waits for in this state.
    pub open spec fn pending(self) -> Action {
        match self.phase {
            Phase::WaitingForTick => Action::AwaitTick,
            Phase::Fetching => Action::FetchPrice,
            Phase::Alerting(_) => Action::PlayAlert,
        }
    }

    /// The state that follows on `event`.
    ///
    /// - A tick, while waiting, starts the fetch.
    /// - A failed fetch ends the cycle with the monitor as it was.
    /// - A fetched price on which the alert rule fires starts the alert and
    ///   is kept aside; any other is stored at once, which ends the cycle.
    /// - The end of the alert, well or badly, records its time and stores
    ///   the price kept aside, which ends the cycle.
    /// - An event that does not answer the pending action changes nothing.
    pub open spec fn next(self, event: Event) -> LoopState {
        match (self.phase, event) {
            (Phase::WaitingForTick, Event::Tick) => LoopState { phase: Phase::Fetching, ..self },
            (Phase::Fetching, Event::Fetched(Ok(price))) => if self.monitor.alerts_on(price) {
                LoopState { phase: Phase::Alerting(price), ..self }
            } else {
                LoopState { monitor: self.monitor.with_price(price), phase: Phase::WaitingForTick }
            },
            (Phase::Fetching, Event::Fetched(Err(_))) => LoopState {
                phase: Phase::WaitingForTick,
                ..self
            },
            (Phase::Alerting(price), Event::AlertFinished { outcome: _, at }) => LoopState {
                monitor: self.monitor.with_alert_at(at).with_price(price),
                phase: Phase::WaitingForTick,
            },
            _ => self,
        }
    }

    /// The state after one whole cycle from this state: the tick, the fetch
    /// that ends as `fetched`, and, where the alert is played, its end as
    /// `played` at time `at`.
    pub open spec fn after_cycle(
        self,
        fetched: Result<Price, FetchError>,
        played: Result<(), AlertError>,
        at: u64,
    ) -> LoopState {
        let answered = self.next(Event::Tick).next(Event::Fetched(fetched));
        if answered.pending() == Action::PlayAlert {
            answered.next(Event::AlertFinished { outcome: played, at })
        } else {
            answered
        }
    }
}

/// The polling loop: a monitor, and where the loop stands.
#[derive(Debug, PartialEq, Eq)]
pub struct PollingLoop {
    monitor: PriceMonitor,
    phase: Phase,
}

impl View for PollingLoop {
    type V = LoopState;

    closed spec fn view(&self) -> LoopState {
        LoopState { monitor: self.monitor@, phase: self.phase }
    }
}

impl PollingLoop {
    /// A loop around `monitor` that waits for its first tick.
    pub fn new(monitor: PriceMonitor) -> (made: PollingLoop)
        ensures
            made@ == (LoopState { monitor: monitor@, phase: Phase::WaitingForTick }),
    {
        PollingLoop { monitor, phase: Phase::WaitingForTick }
    }

    /// The monitor as it stands.
    pub fn monitor(&self) -> (monitor: PriceMonitor)
        ensures
            monitor@ == self@.monitor,
    {
        self.monitor
    }

    /// Where the loop stands.
    pub fn phase(&self) -> (phase: Phase)
        ensures
            phase == self@.phase,
    {
        self.phase
    }

    /// The action that the loop waits for.
    pub fn pending(&self) -> (action: Action)
        ensures
            action == self@.pending(),
    {
        match self.phase {
            Phase::WaitingForTick => Action::AwaitTick,
            Phase::Fetching => Action::FetchPrice,
            Phase::Alerting(_) => Action::PlayAlert,
        }
    }

    /// Takes in `event` and says what to do next.
    pub fn step(&mut self, event: Event) -> (action: Action)
        ensures
            final(self)@ == old(self)@.next(event),
            action == final(self)@.pending(),
    {
        match self.phase {
            Phase::WaitingForTick => {
                if let Event::Tick = event {
                    self.phase = Phase::Fetching;
                }
            },
            Phase::Fetching => {
                match event {
                    Event::Fetched(Ok(price)) => {
                        if self.monitor.should_alert(price) {
                            self.phase = Phase::Alerting(price);
                        } else {
                            self.monitor.record_price(price);
                            self.phase = Phase::WaitingForTick;
                        }
                    },
                    Event::Fetched(Err(_)) => {
                        self.phase = Phase::WaitingForTick;
                    },
                    _ => {},
                }
            },
            Phase::Alerting(price) => {
                if let Event::AlertFinished { outcome: _, at } = event {
                    self.monitor.record_alert(at);
                    self.monitor.record_price(price);
                    self.phase = Phase::WaitingForTick;
                }
            },
        }
        self.pending()
    }
}

/// The fetched price is always stored. A cycle that starts from waiting and
/// fetches a price ends in waiting with that price as the last one, whether
/// the alert was played or not, and however it ended.
pub proof fn lemma_fetched_price_is_stored(
    state: LoopState,
    price: Price,
    played: Result<(), AlertError>,
    at: u64,
)
    requires
        state.phase == Phase::WaitingForTick,
    ensures
        state.after_cycle(Ok(price), played, at).monitor.last_price == Some(price),
        state.after_cycle(Ok(price), played, at).phase == Phase::WaitingForTick,
{
}

/// A failed fetch changes nothing and plays nothing. The cycle ends where it
/// began, with the monitor as it was, and the action that follows the
/// failure is to wait for the next tick.
pub proof fn lemma_failed_fetch_changes_nothing(
    state: LoopState,
    error: FetchError,
    played: Result<(), AlertError>,
    at: u64,
)
    requires
        state.phase == Phase::WaitingForTick,
    ensures
        state.next(Event::Tick).next(Event::Fetched(Err(error))) == state,
        state.next(Event::Tick).next(Event::Fetched(Err(error))).pending() == Action::AwaitTick,
        state.after_cycle(Err(error), played, at) == state,
{
}

/// A failed alert costs nothing but the sound. The state after the alert is
/// the same whether it was heard or failed: the price that set it off is
/// stored as the last one, and the next tick starts the next fetch.
pub proof fn lemma_alert_outcome_is_irrelevant(
    state: LoopState,
    price: Price,
    error: AlertError,
    at: u64,
)
    requires
        state.phase == Phase::Alerting(price),
    ensures
        state.next(Event::AlertFinished { outcome: Err(error), at }) == state.next(
            Event::AlertFinished { outcome: Ok(()), at },
        ),
        state.next(Event::AlertFinished { outcome: Err(error), at }).monitor.last_price == Some(
            price,
        ),
        state.next(Event::AlertFinished { outcome: Err(error), at }).pending()
            == Action::AwaitTick,
        state.next(Event::AlertFinished { outcome: Err(error), at }).next(Event::Tick).pending()
            == Action::FetchPrice,
{
}

/// No event clears the last price or touches the threshold. Where the last
/// price changes, the new one is the price that was fetched: the one in the
/// event, or the one kept aside while the alert played.
pub proof fn lemma_price_is_only_replaced(state: LoopState, event: Event)
    ensures
        state.next(event).monitor.alert_threshold == state.monitor.alert_threshold,
        state.monitor.last_price is Some ==> state.next(event).monitor.last_price is Some,
        state.next(event).monitor.last_price != state.monitor.last_price ==> {
            ||| event == Event::Fetched(Ok(state.next(event).monitor.last_price->0))
            ||| state.phase == Phase::Alerting(state.next(event).monitor.last_price->0)
        },
{
}

} // verus!
