use vstd::prelude::*;

use crate::schedule::{lemma_cadence, next_wait, secs_nanos, secs_to_nanos, wait_after};

verus! {

/// The schedule of the thermal monitor loop: it waits `wait_time`, runs one
/// fan and temperature update, then works out the next wait from how long
/// the update took. All durations are kept in nanoseconds.
pub struct ThermalMonitor {
    initial_interval: u128,
    update_interval: u128,
    update_elapsed_threshold: u128,
    wait_time: u128,
}

impl ThermalMonitor {
    pub closed spec fn initial_interval(&self) -> nat {
        self.initial_interval as nat
    }

    pub closed spec fn update_interval(&self) -> nat {
        self.update_interval as nat
    }

    pub closed spec fn update_elapsed_threshold(&self) -> nat {
        self.update_elapsed_threshold as nat
    }

    pub closed spec fn wait(&self) -> nat {
        self.wait_time as nat
    }

    /// A monitor with the given intervals, in seconds; the first cycle
    /// waits the initial interval.
    pub fn new(
        initial_interval_secs: u64,
        update_interval_secs: u64,
        update_elapsed_threshold_secs: u64,
    ) -> (m: Self)
        ensures
            m.initial_interval() == secs_nanos(initial_interval_secs),
            m.update_interval() == secs_nanos(update_interval_secs),
            m.update_elapsed_threshold() == secs_nanos(update_elapsed_threshold_secs),
            m.wait() == secs_nanos(initial_interval_secs),
    {
        let initial_interval = secs_to_nanos(initial_interval_secs);
        ThermalMonitor {
            initial_interval,
            update_interval: secs_to_nanos(update_interval_secs),
            update_elapsed_threshold: secs_to_nanos(update_elapsed_threshold_secs),
            wait_time: initial_interval,
        }
    }

    /// How long to wait before the next cycle, in nanoseconds.
    pub fn wait_time(&self) -> (w: u128)
        ensures
            w == self.wait(),
    {
        self.wait_time
    }

    /// Records a cycle whose update took `elapsed_nanos`: the next wait is
    /// what is left of the update interval, or the initial interval when
    /// the update used it all up. Returns whether the update took longer
    /// than the threshold, which deserves a warning.
    pub fn record_cycle(&mut self, elapsed_nanos: u128) -> (slow: bool)
        ensures
            final(self).initial_interval() == old(self).initial_interval(),
            final(self).update_interval() == old(self).update_interval(),
            final(self).update_elapsed_threshold() == old(self).update_elapsed_threshold(),
            final(self).wait() == next_wait(
                old(self).update_interval(),
                elapsed_nanos as nat,
                old(self).initial_interval(),
            ),
            elapsed_nanos < old(self).update_interval() ==> elapsed_nanos + final(self).wait()
                == old(self).update_interval(),
            elapsed_nanos + final(self).wait() >= old(self).update_interval(),
            slow == (elapsed_nanos > old(self).update_elapsed_threshold()),
    {
        proof {
            lemma_cadence(
                self.update_interval as nat,
                elapsed_nanos as nat,
                self.initial_interval as nat,
            );
        }
        self.wait_time = wait_after(self.update_interval, elapsed_nanos, self.initial_interval);
        elapsed_nanos > self.update_elapsed_threshold
    }
}

} // verus!
