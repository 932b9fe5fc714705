//! Population bookkeeping: how many bunnies exist and how many are wanted,
//! and the spawn controller that doubles the target on a key press.

use vstd::prelude::*;

verus! {

/// The live population counter: `current` bunnies exist, `desired` are wanted.
pub struct BunnyCount {
    pub current: u64,
    pub desired: u64,
}

impl BunnyCount {
    /// The population never overshoots its target.
    pub open spec fn wf(self) -> bool {
        self.current <= self.desired
    }

    /// A fresh counter: nothing spawned yet, `desired` bunnies requested.
    pub fn new(desired: u64) -> (c: BunnyCount)
        ensures
            c.current == 0,
            c.desired == desired,
            c.wf(),
    {
        BunnyCount { current: 0, desired }
    }

    /// How many bunnies the spawner still has to create.
    pub fn pending(&self) -> (n: u64)
        requires
            self.wf(),
        ensures
            n == self.desired - self.current,
    {
        self.desired - self.current
    }

    /// Spawn-controller step, run once per frame with the state of the
    /// doubling key. The target doubles exactly when the key was just
    /// pressed while the population is saturated (`current == desired`);
    /// in every other case the counter is left untouched. The doubling
    /// must fit in the counter, which the caller checks first.
    pub fn handle_trigger(&mut self, just_pressed: bool)
        requires
            old(self).wf(),
            just_pressed && old(self).current == old(self).desired
                ==> old(self).desired <= u64::MAX / 2,
        ensures
            final(self).current == old(self).current,
            just_pressed && old(self).current == old(self).desired
                ==> final(self).desired == 2 * old(self).desired,
            !(just_pressed && old(self).current == old(self).desired)
                ==> final(self).desired == old(self).desired,
            final(self).wf(),
    {
        if self.current != self.desired {
            return;
        }
        if !just_pressed {
            return;
        }
        self.desired = self.desired * 2;
    }
}

} // verus!
