//! Tracks a value against a maximum and speaks up as the value nears it.

use vstd::prelude::*;

verus! {

/// Whoever delivers the messages of a tracker: the tracker chooses the words,
/// the messenger the way they travel.
pub trait Messenger {
    fn send(&self, msg: &str);
}

/// How near a value is to its maximum, where that is worth a message.
#[derive(Clone, Copy, PartialEq, Eq, Structural, Debug)]
pub enum Alert {
    /// At least three quarters of the maximum are used.
    Warning,
    /// At least nine tenths of the maximum are used.
    Urgent,
    /// The maximum is reached or passed.
    OverQuota,
}

/// The alert that a value calls for. The shares are exact: nine tenths of 10 is 9,
/// and 9 already counts. A value of zero never calls for one, whatever the maximum.
pub open spec fn alert_for(value: nat, max: nat) -> Option<Alert> {
    if value == 0 {
        None
    } else if value >= max {
        Some(Alert::OverQuota)
    } else if 10 * value >= 9 * max {
        Some(Alert::Urgent)
    } else if 4 * value >= 3 * max {
        Some(Alert::Warning)
    } else {
        None
    }
}

/// The words of an alert.
pub open spec fn words_of(alert: Alert) -> Seq<char> {
    match alert {
        Alert::OverQuota => "Error: You are over your quota!"@,
        Alert::Urgent => "Urgent warning: You've used up over 90% of your quota!"@,
        Alert::Warning => "Warning: You've used up over 75% of your quota!"@,
    }
}

impl Alert {
    /// The alert that `value` calls for under the maximum `max`, if any.
    pub fn of(value: usize, max: usize) -> (alert: Option<Alert>)
        ensures
            alert == alert_for(value as nat, max as nat),
    {
        let used: u128 = value as u128;
        let limit: u128 = max as u128;
        if value == 0 {
            None
        } else if value >= max {
            Some(Alert::OverQuota)
        } else if 10 * used >= 9 * limit {
            Some(Alert::Urgent)
        } else if 4 * used >= 3 * limit {
            Some(Alert::Warning)
        } else {
            None
        }
    }

    /// The words that are sent for this alert.
    pub fn message(&self) -> (words: &'static str)
        ensures
            words@ == words_of(*self),
    {
        match self {
            Alert::OverQuota => "Error: You are over your quota!",
            Alert::Urgent => "Urgent warning: You've used up over 90% of your quota!",
            Alert::Warning => "Warning: You've used up over 75% of your quota!",
        }
    }
}

/// A value, its maximum, and the messenger that hears of it when the two come
/// close.
pub struct LimitTracker<'a, T: Messenger> {
    messenger: &'a T,
    value: usize,
    max: usize,
}

impl<'a, T: Messenger> LimitTracker<'a, T> {
    /// The value that was set last; zero at first.
    pub closed spec fn value(&self) -> nat {
        self.value as nat
    }

    /// The maximum that the value is held against.
    pub closed spec fn max(&self) -> nat {
        self.max as nat
    }

    /// The messenger that the tracker speaks through.
    pub closed spec fn messenger(&self) -> &'a T {
        self.messenger
    }

    /// A tracker with the value zero.
    pub fn new(messenger: &'a T, max: usize) -> (tracker: LimitTracker<'a, T>)
        ensures
            tracker.value() == 0,
            tracker.max() == max,
            tracker.messenger() == messenger,
    {
        LimitTracker { messenger, value: 0, max }
    }

    /// Sets the value. Where `alert_for` names an alert for the new value, its words
    /// are handed to the messenger, once; else the messenger is not called.
    pub fn set_value(&mut self, value: usize)
        ensures
            final(self).value() == value,
            final(self).max() == old(self).max(),
            final(self).messenger() == old(self).messenger(),
    {
        self.value = value;
        match Alert::of(self.value, self.max) {
            Some(alert) => {
                self.messenger.send(alert.message());
            },
            None => {},
        }
    }

    /// The value that was set last.
    pub fn current(&self) -> (value: usize)
        ensures
            value == self.value(),
    {
        self.value
    }

    /// The maximum.
    pub fn limit(&self) -> (max: usize)
        ensures
            max == self.max(),
    {
        self.max
    }
}

/// Alerts only grow with the value: a higher value under the same maximum never
/// calls for a milder alert, nor for none where a lower one called for some.
pub proof fn lemma_alert_monotone(low: nat, high: nat, max: nat)
    requires
        low <= high,
    ensures
        severity(alert_for(low, max)) <= severity(alert_for(high, max)),
{
}

/// Alerts in the order of their weight; no alert weighs nothing.
pub open spec fn severity(alert: Option<Alert>) -> nat {
    match alert {
        None => 0,
        Some(Alert::Warning) => 1,
        Some(Alert::Urgent) => 2,
        Some(Alert::OverQuota) => 3,
    }
}

} // verus!
