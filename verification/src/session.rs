use vstd::prelude::*;

verus! {

/// Counts the gameplay sessions; it is kept between them.
#[derive(Clone, Copy, Debug, PartialEq, Eq, Structural)]
pub struct GameplayCounter {
    pub count: u32,
}

impl GameplayCounter {
    /// The first session.
    pub fn new() -> (res: GameplayCounter)
        ensures
            res.count == 0,
    {
        GameplayCounter { count: 0 }
    }

    /// Moves on to the next session, wrapping around.
    pub fn increase(&mut self)
        ensures
            final(self).count == (if old(self).count == u32::MAX { 0 } else { (old(self).count + 1) as u32 }),
    {
        self.count = if self.count == u32::MAX { 0 } else { self.count + 1 };
    }

    /// The current session.
    pub fn get(&self) -> (res: u32)
        ensures
            res == self.count,
    {
        self.count
    }
}

/// A value that starts afresh in every gameplay session.
pub struct GameplayLocal<T> {
    pub last: u32,
    pub wrapped: T,
}

impl<T: Default> GameplayLocal<T> {
    /// The value of the current session: a fresh default value when the
    /// session changed since the last call, else the value as it was left.
    pub fn get(&mut self, current: &GameplayCounter) -> (res: &mut T)
        ensures
            final(self).last == current.count,
            old(self).last == current.count ==> *res == old(self).wrapped,
            old(self).last != current.count ==> call_ensures(T::default, (), *res),
            final(self).wrapped == *final(res),
    {
        let reset = current.count != self.last;
        self.last = current.count;
        if reset {
            self.wrapped = T::default();
        }
        &mut self.wrapped
    }
}

/// Tells whether a new gameplay session started since the last call.
pub struct GameplaySession {
    pub last: u32,
}

impl GameplaySession {
    /// A new session started since the last call.
    pub fn is_changed(&mut self, current: &GameplayCounter) -> (res: bool)
        ensures
            res == (old(self).last != current.count),
            final(self).last == current.count,
    {
        let reset = current.count != self.last;
        self.last = current.count;
        reset
    }
}

/// Whether the display needs an update after the behavior schedule ran.
#[derive(Clone, Copy, Debug, PartialEq, Eq, Structural)]
pub enum DisplayHandling {
    Refresh,
    Keep,
}

impl DisplayHandling {
    /// Keep the display when no character acted; refresh it otherwise.
    pub fn from_count(count: usize) -> (res: DisplayHandling)
        ensures
            res == (if count == 0 { DisplayHandling::Keep } else { DisplayHandling::Refresh }),
    {
        if count == 0 {
            DisplayHandling::Keep
        } else {
            DisplayHandling::Refresh
        }
    }
}

} // verus!
