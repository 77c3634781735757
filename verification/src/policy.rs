use vstd::prelude::*;

use crate::schedule::{lemma_cadence, next_wait, secs_nanos, secs_to_nanos, wait_after};

verus! {

/// Seconds between two runs of the thermal policy.
pub const DEFAULT_INTERVAL_SECS: u64 = 60;

/// A policy run that takes longer than this many seconds deserves a warning.
pub const RUN_POLICY_WARN_THRESHOLD_SECS: u64 = 30;

/// The wait, in seconds, after a policy run that used up its whole interval.
pub const FAST_START_INTERVAL_SECS: u64 = 15;

/// The state of the thermal policy manager: whether a policy file was
/// found, and how often the policy runs.
pub struct ThermalPolicyManager {
    interval_secs: u64,
    policy_loaded: bool,
}

impl ThermalPolicyManager {
    /// The policy runs at a fixed interval.
    #[verifier::type_invariant]
    spec fn well_formed(&self) -> bool {
        self.interval_secs == DEFAULT_INTERVAL_SECS
    }

    pub closed spec fn loaded(&self) -> bool {
        self.policy_loaded
    }

    pub closed spec fn interval(&self) -> nat {
        secs_nanos(self.interval_secs)
    }

    /// A manager whose policy counts as loaded exactly when the policy file
    /// exists; the policy runs every `DEFAULT_INTERVAL_SECS` seconds.
    pub fn new(policy_file_exists: bool) -> (m: Self)
        ensures
            m.loaded() == policy_file_exists,
            m.interval() == secs_nanos(DEFAULT_INTERVAL_SECS),
    {
        ThermalPolicyManager {
            interval_secs: DEFAULT_INTERVAL_SECS,
            policy_loaded: policy_file_exists,
        }
    }

    /// The interval between policy runs, in nanoseconds: always
    /// `DEFAULT_INTERVAL_SECS` seconds.
    pub fn interval_nanos(&self) -> (n: u128)
        ensures
            n == self.interval(),
            self.interval() == secs_nanos(DEFAULT_INTERVAL_SECS),
    {
        proof {
            use_type_invariant(self);
        }
        secs_to_nanos(self.interval_secs)
    }

    /// Whether a policy is loaded.
    pub fn is_policy_loaded(&self) -> (b: bool)
        ensures
            b == self.loaded(),
    {
        self.policy_loaded
    }

    /// Loads the policy when its file exists; a loaded policy stays loaded.
    pub fn load_policy(&mut self, policy_file_exists: bool)
        ensures
            final(self).loaded() == (old(self).loaded() || policy_file_exists),
            final(self).interval() == old(self).interval(),
    {
        proof {
            use_type_invariant(&*self);
        }
        if policy_file_exists {
            self.policy_loaded = true;
        }
    }

    /// Whether the control algorithm gets initialized: only with a policy.
    pub fn init_algorithm(&self) -> (initialized: bool)
        ensures
            initialized == self.loaded(),
    {
        self.policy_loaded
    }

    /// Whether one run of the policy does any work: only with a policy.
    pub fn run_policy(&self) -> (ran: bool)
        ensures
            ran == self.loaded(),
    {
        self.policy_loaded
    }

    /// Whether tearing down has anything to deinitialize: only a policy.
    pub fn deinitialize(&self) -> (deinitialized: bool)
        ensures
            deinitialized == self.loaded(),
    {
        self.policy_loaded
    }

    /// Starts the policy loop. Without a loaded policy the loop does not
    /// run (`None`); otherwise the policy is loaded again and the algorithm
    /// initialized, and the first run waits one interval (in nanoseconds).
    pub fn start_run(&mut self, policy_file_exists: bool) -> (first_wait: Option<u128>)
        ensures
            first_wait is None <==> !old(self).loaded(),
            first_wait matches Some(w) ==> w == old(self).interval(),
            old(self).interval() == secs_nanos(DEFAULT_INTERVAL_SECS),
            final(self).loaded() == old(self).loaded(),
            final(self).interval() == old(self).interval(),
    {
        proof {
            use_type_invariant(&*self);
        }
        if !self.policy_loaded {
            return None;
        }
        self.load_policy(policy_file_exists);
        let _ = self.init_algorithm();
        Some(secs_to_nanos(self.interval_secs))
    }

    /// The wait before the next policy run after one that took
    /// `elapsed_nanos`: what is left of the interval, or
    /// `FAST_START_INTERVAL_SECS` when the run used it all up.
    pub fn next_wait(&self, elapsed_nanos: u128) -> (w: u128)
        ensures
            w == next_wait(
                self.interval(),
                elapsed_nanos as nat,
                secs_nanos(FAST_START_INTERVAL_SECS),
            ),
            elapsed_nanos < self.interval() ==> elapsed_nanos + w == self.interval(),
            elapsed_nanos + w >= self.interval(),
            w <= self.interval(),
            self.interval() == secs_nanos(DEFAULT_INTERVAL_SECS),
    {
        proof {
            use_type_invariant(self);
            lemma_cadence(
                self.interval(),
                elapsed_nanos as nat,
                secs_nanos(FAST_START_INTERVAL_SECS),
            );
        }
        wait_after(
            secs_to_nanos(self.interval_secs),
            elapsed_nanos,
            secs_to_nanos(FAST_START_INTERVAL_SECS),
        )
    }

    /// Whether a policy run that took `elapsed_nanos` deserves a warning.
    pub fn is_slow_run(elapsed_nanos: u128) -> (slow: bool)
        ensures
            slow == (elapsed_nanos > secs_nanos(RUN_POLICY_WARN_THRESHOLD_SECS)),
    {
        elapsed_nanos > secs_to_nanos(RUN_POLICY_WARN_THRESHOLD_SECS)
    }
}

} // verus!
