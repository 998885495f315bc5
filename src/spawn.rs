use vstd::prelude::*;

verus! {

/// Shortest delay between two hazards, in milliseconds.
pub const ATTACK_INTERVAL_MIN_MS: u64 = 100;

/// Longest delay between two hazards, in milliseconds.
pub const ATTACK_INTERVAL_MAX_MS: u64 = 300;

/// Delay before the first hazard, in milliseconds.
pub const INITIAL_ATTACK_INTERVAL_MS: u64 = 500;

/// Delay between two collectibles, in milliseconds.
pub const ITEM_INTERVAL_MS: u64 = 3000;

/// Counts time towards the next spawn of one category of entity.
#[derive(Clone, Copy, Debug, PartialEq, Eq, Structural)]
pub struct SpawnTimer {
    pub interval_ms: u64,
    pub elapsed_ms: u64,
}

impl SpawnTimer {
    /// Whether adding `dt_ms` reaches the interval.
    pub open spec fn fires(self, dt_ms: u64) -> bool {
        self.elapsed_ms + dt_ms >= self.interval_ms
    }

    /// The timer after `dt_ms` more: back to zero when it fires.
    pub open spec fn ticked(self, dt_ms: u64) -> SpawnTimer {
        if self.fires(dt_ms) {
            SpawnTimer { elapsed_ms: 0, ..self }
        } else {
            SpawnTimer { elapsed_ms: (self.elapsed_ms + dt_ms) as u64, ..self }
        }
    }

    pub fn new(interval_ms: u64) -> (r: SpawnTimer)
        ensures
            r == (SpawnTimer { interval_ms, elapsed_ms: 0 }),
    {
        SpawnTimer { interval_ms, elapsed_ms: 0 }
    }

    /// Adds `dt_ms` to the elapsed time; reports whether the interval was
    /// reached, in which case the elapsed time starts over.
    pub fn tick(&mut self, dt_ms: u64) -> (fired: bool)
        ensures
            fired == old(self).fires(dt_ms),
            *final(self) == old(self).ticked(dt_ms),
    {
        let total = self.elapsed_ms.saturating_add(dt_ms);
        if total >= self.interval_ms {
            self.elapsed_ms = 0;
            true
        } else {
            self.elapsed_ms = total;
            false
        }
    }

    /// Replaces the interval, keeping the elapsed time.
    pub fn set_interval(&mut self, interval_ms: u64)
        ensures
            *final(self) == (SpawnTimer { interval_ms, ..*old(self) }),
    {
        self.interval_ms = interval_ms;
    }
}

} // verus!
