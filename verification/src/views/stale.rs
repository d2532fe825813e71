use vstd::prelude::*;
use crate::tree::node::Timestamp;

verus! {

/// How long build output must have lain untouched to count as stale.
#[derive(Debug, Clone, Copy, PartialEq, Eq, Structural)]
pub enum StaleThreshold {
    OneDay,
    SevenDays,
    ThirtyDays,
    NinetyDays,
    All,
}

pub const SECONDS_PER_DAY: u64 = 86400;

pub const NANOS_PER_SECOND: u128 = 1000000000;

impl StaleThreshold {
    pub open spec fn spec_label(self) -> Seq<char> {
        match self {
            StaleThreshold::OneDay => "1d"@,
            StaleThreshold::SevenDays => "7d"@,
            StaleThreshold::ThirtyDays => "30d"@,
            StaleThreshold::NinetyDays => "90d"@,
            StaleThreshold::All => "All"@,
        }
    }

    pub fn label(&self) -> (s: &'static str)
        ensures
            s@ == self.spec_label(),
    {
        match self {
            StaleThreshold::OneDay => "1d",
            StaleThreshold::SevenDays => "7d",
            StaleThreshold::ThirtyDays => "30d",
            StaleThreshold::NinetyDays => "90d",
            StaleThreshold::All => "All",
        }
    }

    /// The threshold in seconds; `None` for `All`, which has none.
    pub open spec fn spec_duration(self) -> Option<u64> {
        match self {
            StaleThreshold::OneDay => Some(86400u64),
            StaleThreshold::SevenDays => Some(604800u64),
            StaleThreshold::ThirtyDays => Some(2592000u64),
            StaleThreshold::NinetyDays => Some(7776000u64),
            StaleThreshold::All => None,
        }
    }

    /// The threshold in seconds; `None` for `All`, which has none.
    pub fn duration(&self) -> (d: Option<u64>)
        ensures
            d == self.spec_duration(),
    {
        match self {
            StaleThreshold::OneDay => Some(SECONDS_PER_DAY),
            StaleThreshold::SevenDays => Some(7 * SECONDS_PER_DAY),
            StaleThreshold::ThirtyDays => Some(30 * SECONDS_PER_DAY),
            StaleThreshold::NinetyDays => Some(90 * SECONDS_PER_DAY),
            StaleThreshold::All => None,
        }
    }

    pub open spec fn spec_next(self) -> StaleThreshold {
        match self {
            StaleThreshold::OneDay => StaleThreshold::SevenDays,
            StaleThreshold::SevenDays => StaleThreshold::ThirtyDays,
            StaleThreshold::ThirtyDays => StaleThreshold::NinetyDays,
            StaleThreshold::NinetyDays => StaleThreshold::All,
            StaleThreshold::All => StaleThreshold::OneDay,
        }
    }

    /// The threshold that follows this one when cycling; after `All` comes `OneDay`.
    pub fn next(&self) -> (n: StaleThreshold)
        ensures
            n == self.spec_next(),
    {
        match self {
            StaleThreshold::OneDay => StaleThreshold::SevenDays,
            StaleThreshold::SevenDays => StaleThreshold::ThirtyDays,
            StaleThreshold::ThirtyDays => StaleThreshold::NinetyDays,
            StaleThreshold::NinetyDays => StaleThreshold::All,
            StaleThreshold::All => StaleThreshold::OneDay,
        }
    }
}

/// Staleness as a rule: under `All` everything is stale; else a candidate is
/// stale exactly if its newest modification time is known, does not lie after
/// `now`, and is older than the threshold.
pub open spec fn stale(threshold: StaleThreshold, newest: Option<Timestamp>, now: Timestamp) -> bool {
    match threshold.spec_duration() {
        None => true,
        Some(secs) => match newest {
            Some(mtime) => mtime.nanos <= now.nanos && now.nanos - mtime.nanos > secs
                * 1000000000,
            None => false,
        },
    }
}

/// Whether a candidate whose newest modification time is `newest` is stale at `now`.
pub fn is_stale(threshold: StaleThreshold, newest: Option<Timestamp>, now: Timestamp) -> (b: bool)
    ensures
        b == stale(threshold, newest, now),
{
    match threshold.duration() {
        None => true,
        Some(secs) => match newest {
            Some(mtime) => {
                if mtime.nanos <= now.nanos {
                    let limit: u128 = (secs as u128) * NANOS_PER_SECOND;
                    now.nanos - mtime.nanos > limit
                } else {
                    false
                }
            },
            None => false,
        },
    }
}

/// Cycling through the thresholds comes back to the start after five steps.
pub proof fn lemma_threshold_cycle(t: StaleThreshold)
    ensures
        t.spec_next().spec_next().spec_next().spec_next().spec_next() == t,
        t.spec_next() != t,
{
}

} // verus!
