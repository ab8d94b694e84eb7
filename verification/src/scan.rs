//! The cadence of the scan loop and what it shows on the indicator LED.

use crate::keycode::KeyCode;
use crate::resolve::MAX_KEYCODES;
use vstd::prelude::*;

verus! {

/// Number of loop iterations per scan tick.
pub const SCAN_PERIOD: u8 = 10;

/// Counts loop iterations and says which of them scan the matrix.
#[derive(Debug)]
pub struct ScanTimer {
    count: u8,
}

impl ScanTimer {
    #[verifier::type_invariant]
    spec fn within_period(&self) -> bool {
        self.count < SCAN_PERIOD
    }

    /// Iterations since the last scan tick.
    pub closed spec fn phase(&self) -> nat {
        self.count as nat
    }

    /// A timer whose first scan tick is `SCAN_PERIOD` iterations away.
    pub fn new() -> (timer: ScanTimer)
        ensures
            timer.phase() == 0,
    {
        ScanTimer { count: 0 }
    }

    /// Counts one loop iteration. Returns whether it is a scan tick:
    /// every `SCAN_PERIOD`-th iteration is.
    pub fn tick(&mut self) -> (due: bool)
        ensures
            final(self).phase() == (old(self).phase() + 1) % (SCAN_PERIOD as nat),
            due == (old(self).phase() + 1 == SCAN_PERIOD),
            due == (final(self).phase() == 0),
    {
        proof {
            use_type_invariant(&*self);
        }
        self.count = (self.count + 1) % SCAN_PERIOD;
        self.count == 0
    }
}

/// Whether the indicator LED is lit for what went downstream this tick:
/// it is while the first slot holds a key.
pub fn led_state(keys: &[KeyCode; MAX_KEYCODES]) -> (on: bool)
    ensures
        on == keys[0].is_real(),
{
    keys[0].is_key()
}

} // verus!
