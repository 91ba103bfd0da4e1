//! The status side of a monitoring circuit: which band a reading falls in,
//! and how the status moves from tick to tick.

use vstd::prelude::*;

verus! {

/// The health of a monitored value.
#[derive(Debug, Clone, Copy, PartialEq, Eq, Structural)]
pub enum CircuitStatus {
    Normal,
    Warning,
    Critical,
    Deadband,
}

/// The status of a reading: `Critical` when it is at or beyond a critical
/// threshold, else `Warning` when it is at or beyond a warning threshold,
/// else `Normal`.
pub fn classify(at_critical: bool, at_warning: bool) -> (s: CircuitStatus)
    ensures
        s == (if at_critical {
            CircuitStatus::Critical
        } else if at_warning {
            CircuitStatus::Warning
        } else {
            CircuitStatus::Normal
        }),
{
    if at_critical {
        CircuitStatus::Critical
    } else if at_warning {
        CircuitStatus::Warning
    } else {
        CircuitStatus::Normal
    }
}

/// The current and previous status of a circuit and the number of ticks
/// it has taken.
pub struct CircuitTracker {
    status: CircuitStatus,
    last_status: CircuitStatus,
    ticks: u64,
}

/// A tracker as plain values.
pub struct CircuitTrackerView {
    pub status: CircuitStatus,
    pub last_status: CircuitStatus,
    pub ticks: nat,
}

impl View for CircuitTracker {
    type V = CircuitTrackerView;

    closed spec fn view(&self) -> CircuitTrackerView {
        CircuitTrackerView {
            status: self.status,
            last_status: self.last_status,
            ticks: self.ticks as nat,
        }
    }
}

impl CircuitTracker {
    /// A circuit that has not ticked yet, with a normal status.
    pub fn new() -> (t: Self)
        ensures
            t@.status == CircuitStatus::Normal,
            t@.last_status == CircuitStatus::Normal,
            t@.ticks == 0,
    {
        CircuitTracker {
            status: CircuitStatus::Normal,
            last_status: CircuitStatus::Normal,
            ticks: 0,
        }
    }

    /// Takes one reading, whose status is `proposed`: the count of ticks
    /// grows by one, the status before becomes the last status, and the
    /// proposed one becomes current and is returned.
    pub fn tick(&mut self, proposed: CircuitStatus) -> (s: CircuitStatus)
        requires
            old(self)@.ticks < u64::MAX,
        ensures
            final(self)@.ticks == old(self)@.ticks + 1,
            final(self)@.last_status == old(self)@.status,
            final(self)@.status == proposed,
            s == proposed,
    {
        self.ticks = self.ticks + 1;
        self.last_status = self.status;
        self.status = proposed;
        self.status
    }

    /// Like `tick`, and also says whether the status changed.
    pub fn tick_with_status(&mut self, proposed: CircuitStatus) -> (r: (CircuitStatus, bool))
        requires
            old(self)@.ticks < u64::MAX,
        ensures
            final(self)@.ticks == old(self)@.ticks + 1,
            final(self)@.last_status == old(self)@.status,
            final(self)@.status == proposed,
            r.0 == proposed,
            r.1 == (proposed != old(self)@.status),
    {
        let status = self.tick(proposed);
        let changed = status != self.last_status;
        (status, changed)
    }

    pub fn status(&self) -> (s: CircuitStatus)
        ensures
            s == self@.status,
    {
        self.status
    }

    pub fn tick_count(&self) -> (n: u64)
        ensures
            n == self@.ticks,
    {
        self.ticks
    }
}

} // verus!
