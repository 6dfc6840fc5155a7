//! Tracking how much of a quota is used, with warnings sent through a
//! messenger that the user supplies.
use vstd::prelude::*;

verus! {

/// Where warnings go.
pub trait Messenger {
    fn send(&self, msg: &str);
}

/// How close a value is to its quota.
#[derive(Debug, Clone, Copy, PartialEq, Eq, Structural)]
pub enum QuotaAlert {
    /// At or over the quota.
    Over,
    /// At 90% of the quota or more.
    Urgent,
    /// At 75% of the quota or more.
    Warning,
}

/// The alert for `value` out of `max`, going by the ratio `value / max`.
///
/// With `max == 0` any positive value is over the quota, and zero
/// raises nothing.
pub open spec fn quota_alert(value: int, max: int) -> Option<QuotaAlert> {
    if max == 0 {
        if value > 0 {
            Some(QuotaAlert::Over)
        } else {
            None
        }
    } else if value >= max {
        Some(QuotaAlert::Over)
    } else if 10 * value >= 9 * max {
        Some(QuotaAlert::Urgent)
    } else if 4 * value >= 3 * max {
        Some(QuotaAlert::Warning)
    } else {
        None
    }
}

/// Computes the alert for `value` out of `max`.
pub fn alert_for(value: usize, max: usize) -> (r: Option<QuotaAlert>)
    ensures
        r == quota_alert(value as int, max as int),
{
    let v = value as u128;
    let m = max as u128;
    if max == 0 {
        if value > 0 {
            Some(QuotaAlert::Over)
        } else {
            None
        }
    } else if v >= m {
        Some(QuotaAlert::Over)
    } else if 10 * v >= 9 * m {
        Some(QuotaAlert::Urgent)
    } else if 4 * v >= 3 * m {
        Some(QuotaAlert::Warning)
    } else {
        None
    }
}

/// The text sent for each alert.
pub fn alert_text(a: QuotaAlert) -> (r: &'static str)
    ensures
        a == QuotaAlert::Over ==> r@ == "Error: You are over your quota!"@,
        a == QuotaAlert::Urgent ==> r@ == "Urgent warning: You've used up over 90% of your quota!"@,
        a == QuotaAlert::Warning ==> r@ == "Warning: You've used up over 75% of your quota!"@,
{
    match a {
        QuotaAlert::Over => "Error: You are over your quota!",
        QuotaAlert::Urgent => "Urgent warning: You've used up over 90% of your quota!",
        QuotaAlert::Warning => "Warning: You've used up over 75% of your quota!",
    }
}

/// Tracks a value against a maximum and warns through a messenger.
pub struct LimitTracker<'a, T: Messenger> {
    messenger: &'a T,
    value: usize,
    max: usize,
}

impl<'a, T: Messenger> LimitTracker<'a, T> {
    /// The tracked value.
    pub closed spec fn spec_value(&self) -> usize {
        self.value
    }

    /// The quota.
    pub closed spec fn spec_max(&self) -> usize {
        self.max
    }

    /// A tracker at zero out of `max`.
    pub fn new(messenger: &'a T, max: usize) -> (r: LimitTracker<'a, T>)
        ensures
            r.spec_value() == 0,
            r.spec_max() == max,
    {
        LimitTracker { messenger, value: 0, max }
    }

    /// Records `value`, sends the text of its alert if there is one, and
    /// returns that alert.
    pub fn set_value(&mut self, value: usize) -> (r: Option<QuotaAlert>)
        ensures
            final(self).spec_value() == value,
            final(self).spec_max() == old(self).spec_max(),
            r == quota_alert(value as int, old(self).spec_max() as int),
    {
        self.value = value;
        let alert = alert_for(self.value, self.max);
        if let Some(a) = alert {
            self.messenger.send(alert_text(a));
        }
        alert
    }

    /// The tracked value.
    pub fn value(&self) -> (r: usize)
        ensures
            r == self.spec_value(),
    {
        self.value
    }

    /// The quota.
    pub fn max(&self) -> (r: usize)
        ensures
            r == self.spec_max(),
    {
        self.max
    }
}

} // verus!
