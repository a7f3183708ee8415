//! The monitor: the last observed price, the alert threshold, and the rule
//! that decides whether a new price calls for an alert.

use vstd::prelude::*;
use vstd::arithmetic::div_mod::lemma_fundamental_div_mod;
use crate::decimal::SCALE;
use crate::price::{Price, Threshold};

verus! {

/// How far `current` lies from `previous`, in either direction.
pub open spec fn distance(previous: nat, current: nat) -> nat {
    if current >= previous {
        (current - previous) as nat
    } else {
        (previous - current) as nat
    }
}

/// The alert rule: the move from `previous` to `current`, taken relative to
/// `previous`, is at least the fraction `threshold / SCALE`.
///
/// For a positive `previous` this is `|current - previous| / previous >=
/// threshold / SCALE`, written without division so that it is exact.
pub open spec fn triggers(previous: nat, current: nat, threshold: nat) -> bool {
    distance(previous, current) * SCALE >= threshold * previous
}

/// What a monitor holds.
pub struct MonitorState {
    /// The price seen last; `None` until a first price has been recorded.
    pub last_price: Option<Price>,
    /// When an alert was last raised, on the clock of whoever drives the
    /// monitor; the time of creation until then.
    pub last_alert: u64,
    /// The relative change from which on an alert is raised.
    pub alert_threshold: Threshold,
}

impl MonitorState {
    /// Whether a monitor in this state raises an alert on `current`: never
    /// before a first price was recorded, and by the alert rule after.
    pub open spec fn alerts_on(self, current: Price) -> bool {
        match self.last_price {
            None => false,
            Some(previous) => triggers(previous@, current@, self.alert_threshold@),
        }
    }

    /// This state with `price` as the price seen last.
    pub open spec fn with_price(self, price: Price) -> MonitorState {
        MonitorState { last_price: Some(price), ..self }
    }

    /// This state with `at` as the time of the last alert.
    pub open spec fn with_alert_at(self, at: u64) -> MonitorState {
        MonitorState { last_alert: at, ..self }
    }
}

/// Tracks the last observed price against a fixed alert threshold.
#[derive(Clone, Copy, Debug, PartialEq, Eq)]
pub struct PriceMonitor {
    last_price: Option<Price>,
    last_alert: u64,
    alert_threshold: Threshold,
}

impl View for PriceMonitor {
    type V = MonitorState;

    closed spec fn view(&self) -> MonitorState {
        MonitorState {
            last_price: self.last_price,
            last_alert: self.last_alert,
            alert_threshold: self.alert_threshold,
        }
    }
}

impl PriceMonitor {
    /// A monitor that has seen no price yet.
    pub fn new(threshold: Threshold, now: u64) -> (monitor: PriceMonitor)
        ensures
            monitor@ == (MonitorState {
                last_price: None,
                last_alert: now,
                alert_threshold: threshold,
            }),
    {
        PriceMonitor { last_price: None, last_alert: now, alert_threshold: threshold }
    }

    /// The price seen last, if any.
    pub fn last_price(&self) -> (price: Option<Price>)
        ensures
            price == self@.last_price,
    {
        self.last_price
    }

    /// When an alert was last raised.
    pub fn last_alert(&self) -> (at: u64)
        ensures
            at == self@.last_alert,
    {
        self.last_alert
    }

    /// The threshold that the monitor was made with.
    pub fn alert_threshold(&self) -> (threshold: Threshold)
        ensures
            threshold == self@.alert_threshold,
    {
        self.alert_threshold
    }

    /// Decides whether `current` calls for an alert. Nothing is recorded:
    /// the caller records `current` afterwards, whatever the answer.
    pub fn should_alert(&self, current: Price) -> (alert: bool)
        ensures
            alert == self@.alerts_on(current),
    {
        match self.last_price {
            None => false,
            Some(previous) => {
                let p: u64 = previous.units();
                let c: u64 = current.units();
                let t: u64 = self.alert_threshold.units();
                let moved: u64 = if c >= p {
                    c - p
                } else {
                    p - c
                };
                assert(moved * SCALE <= u128::MAX && t * p <= u128::MAX) by (nonlinear_arith)
                    requires
                        moved <= u64::MAX,
                        p <= u64::MAX,
                        t <= SCALE,
                        SCALE == 100_000_000,
                ;
                (moved as u128) * (SCALE as u128) >= (t as u128) * (p as u128)
            },
        }
    }

    /// Records `price` as the price seen last.
    pub fn record_price(&mut self, price: Price)
        ensures
            final(self)@ == old(self)@.with_price(price),
    {
        self.last_price = Some(price);
    }

    /// Records `at` as the time of the last alert.
    pub fn record_alert(&mut self, at: u64)
        ensures
            final(self)@ == old(self)@.with_alert_at(at),
    {
        self.last_alert = at;
    }
}

/// The rule is the comparison of the relative change with the threshold.
/// From a positive previous price, it holds exactly where the quotient
/// `|current - previous| / previous`, taken in hundred-millionths, is at
/// least the threshold; the rounding of the quotient to a whole number
/// makes no difference to that.
pub proof fn lemma_rule_is_relative_change(previous: nat, current: nat, threshold: nat)
    requires
        previous > 0,
    ensures
        triggers(previous, current, threshold) <==> distance(previous, current) * SCALE
            / (previous as int) >= threshold,
{
    let moved = distance(previous, current) * SCALE;
    let p = previous as int;
    let q = moved / p;
    let r = moved % p;
    lemma_fundamental_div_mod(moved, p);
    assert(moved == p * q + r);
    if q >= threshold {
        assert(p * q >= threshold * p) by (nonlinear_arith)
            requires
                q >= threshold,
                p > 0,
        ;
    } else {
        assert(p * q + p <= threshold * p) by (nonlinear_arith)
            requires
                q + 1 <= threshold,
                p > 0,
        ;
    }
}

/// The threshold is inclusive. A price whose distance from the previous one
/// is exactly the threshold's fraction of it raises an alert, above or below;
/// a price one unit nearer raises none.
pub proof fn lemma_threshold_is_inclusive(
    state: MonitorState,
    previous: Price,
    at: Price,
    nearer: Price,
)
    requires
        state.last_price == Some(previous),
        distance(previous@, at@) * SCALE == state.alert_threshold@ * previous@,
        distance(previous@, nearer@) + 1 == distance(previous@, at@),
    ensures
        state.alerts_on(at),
        !state.alerts_on(nearer),
{
    let reach = distance(previous@, at@);
    assert((reach - 1) * SCALE == reach * SCALE - SCALE) by (nonlinear_arith);
}

/// Direction does not count. A rise and a fall by the same amount from the
/// same previous price get the same answer.
pub proof fn lemma_rise_and_fall_alike(
    state: MonitorState,
    previous: Price,
    rise: Price,
    fall: Price,
)
    requires
        state.last_price == Some(previous),
        rise@ >= previous@,
        rise@ - previous@ == previous@ - fall@,
    ensures
        state.alerts_on(rise) == state.alerts_on(fall),
{
}

} // verus!
