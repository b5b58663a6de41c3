use vstd::prelude::*;

verus! {

/// A point in game time, in milliseconds since the start of the game.
#[derive(Clone, Copy, Debug, PartialEq, Eq, Structural)]
pub struct Timestamp {
    pub ms: u64,
}

/// A span of game time, in milliseconds.
#[derive(Clone, Copy, Debug, PartialEq, Eq, Structural)]
pub struct Milliseconds {
    pub ms: u64,
}

/// One minute, in milliseconds.
pub const MINUTE_MS: u64 = 60_000;

/// Eight hours, in milliseconds.
pub const EIGHT_HOURS_MS: u64 = 28_800_000;

impl Timestamp {
    /// The timestamp `duration` after `self`.
    pub fn plus(self, duration: Milliseconds) -> (res: Timestamp)
        requires
            self.ms + duration.ms <= u64::MAX,
        ensures
            res.ms == self.ms + duration.ms,
    {
        Timestamp { ms: self.ms + duration.ms }
    }

    /// The time between `earlier` and `self`.
    pub fn minus(self, earlier: Timestamp) -> (res: Milliseconds)
        requires
            earlier.ms <= self.ms,
        ensures
            res.ms == self.ms - earlier.ms,
    {
        Milliseconds { ms: self.ms - earlier.ms }
    }

    /// `self` is at or before `other`.
    pub fn at_or_before(self, other: Timestamp) -> (res: bool)
        ensures
            res == (self.ms <= other.ms),
    {
        self.ms <= other.ms
    }
}

/// Identifies an entity of the game world, by the bits of the entity handle.
#[derive(Clone, Copy, Debug, PartialEq, Eq, Structural)]
pub struct EntityId {
    pub bits: u64,
}

} // verus!
