//! The parameters of one campaign run. They are fixed at startup and handed
//! explicitly to every component that needs them.

use vstd::prelude::*;

verus! {

/// Why a set of run parameters is rejected.
#[derive(Clone, Copy, Debug, PartialEq, Eq)]
pub enum ConfigError {
    /// The tab limit must be positive: with no tab nothing could ever load.
    ZeroTabs,
}

/// A length of time, split as `std::time::Duration` splits it.
#[derive(Clone, Copy, Debug, PartialEq, Eq)]
pub struct Interval {
    pub secs: u64,
    /// Always below one second.
    pub nanos: u32,
}

impl Interval {
    /// The whole interval in nanoseconds.
    pub open spec fn total_nanos(&self) -> int {
        self.secs * 1_000_000_000 + self.nanos
    }
}

/// The pause between two staggered launches, in nanoseconds: the load-time
/// budget divided evenly over the tabs.
pub open spec fn stagger_nanos(load_time_ms: u64, tabs: usize) -> int
    recommends
        tabs > 0,
{
    (load_time_ms * 1_000_000) / (tabs as int)
}

/// Trial number, tab limit and per-site load-time budget of a run.
#[derive(Clone, Copy, Debug, PartialEq, Eq)]
pub struct CampaignConfig {
    trial: i32,
    tabs: usize,
    load_time_ms: u64,
}

impl CampaignConfig {
    #[verifier::type_invariant]
    spec fn positive_tabs(&self) -> bool {
        self.tabs > 0
    }

    /// The campaign's trial number.
    pub closed spec fn spec_trial(&self) -> i32 {
        self.trial
    }

    /// The tab limit.
    pub closed spec fn spec_tabs(&self) -> usize {
        self.tabs
    }

    /// The load-time budget in milliseconds.
    pub closed spec fn spec_load_time_ms(&self) -> u64 {
        self.load_time_ms
    }

    /// Accepts the parameters of a run, unless the tab limit is zero.
    pub fn new(trial: i32, tabs: usize, load_time_ms: u64) -> (made: Result<
        CampaignConfig,
        ConfigError,
    >)
        ensures
            tabs == 0 <==> made == Err::<CampaignConfig, ConfigError>(ConfigError::ZeroTabs),
            tabs > 0 ==> made.is_ok() && made.unwrap().spec_trial() == trial
                && made.unwrap().spec_tabs() == tabs && made.unwrap().spec_load_time_ms()
                == load_time_ms,
    {
        if tabs == 0 {
            Err(ConfigError::ZeroTabs)
        } else {
            Ok(CampaignConfig { trial, tabs, load_time_ms })
        }
    }

    /// The campaign's trial number.
    pub fn trial(&self) -> (trial: i32)
        ensures
            trial == self.spec_trial(),
    {
        self.trial
    }

    /// How many trial runners may be active at once, and how many lookups
    /// within one trial. Never zero.
    pub fn tabs(&self) -> (tabs: usize)
        ensures
            tabs == self.spec_tabs(),
            tabs > 0,
    {
        proof {
            use_type_invariant(self);
        }
        self.tabs
    }

    /// How long each site is given to load, in milliseconds.
    pub fn load_time_ms(&self) -> (ms: u64)
        ensures
            ms == self.spec_load_time_ms(),
    {
        self.load_time_ms
    }

    /// The pause before each of the first launches of a category: the
    /// load-time budget divided by the tab limit, rounded down to a whole
    /// nanosecond.
    pub fn stagger_interval(&self) -> (pause: Interval)
        ensures
            pause.total_nanos() == stagger_nanos(self.spec_load_time_ms(), self.spec_tabs()),
            pause.nanos < 1_000_000_000,
    {
        proof {
            use_type_invariant(self);
        }
        let budget: u128 = (self.load_time_ms as u128) * 1_000_000;
        let share: u128 = budget / (self.tabs as u128);
        assert(share <= budget) by (nonlinear_arith)
            requires
                share == budget / (self.tabs as u128),
                self.tabs > 0,
        ;
        let secs: u128 = share / 1_000_000_000;
        let nanos: u128 = share % 1_000_000_000;
        Interval { secs: secs as u64, nanos: nanos as u32 }
    }
}

} // verus!
