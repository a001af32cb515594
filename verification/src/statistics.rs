//! Run-level bookkeeping: the battle counter that drives difficulty, the
//! statistics shown on the game-over screen, and the full reset.

use vstd::prelude::*;
use crate::summoning::InventoryItems;

verus! {

/// Number of the battle currently being prepared or fought, starting at 1;
/// advances once per battle win and drives procedural difficulty.
#[derive(Clone, Copy, Debug)]
pub struct BattleCount(pub usize);

impl BattleCount {
    /// The count a fresh run starts with.
    pub fn new() -> (r: BattleCount)
        ensures
            r.0 == 1,
    {
        BattleCount(1)
    }
}

/// What the run has amounted to so far.
#[derive(Clone, Copy, Debug)]
pub struct Statistics {
    /// How many minions were summoned this run.
    pub summoned_minions: usize,
    /// Total simulated time this run, in milliseconds.
    pub elapsed_ms: u64,
}

impl Statistics {
    /// A cleared record.
    pub fn new() -> (r: Statistics)
        ensures
            r.summoned_minions == 0,
            r.elapsed_ms == 0,
    {
        Statistics { summoned_minions: 0, elapsed_ms: 0 }
    }

    /// Count one more summoned minion.
    pub fn record_summon(&mut self)
        requires
            old(self).summoned_minions < usize::MAX,
        ensures
            final(self).summoned_minions == old(self).summoned_minions + 1,
            final(self).elapsed_ms == old(self).elapsed_ms,
    {
        self.summoned_minions = self.summoned_minions + 1;
    }

    /// Bank one tick's duration into the elapsed time.
    pub fn record_time(&mut self, dt: u64)
        requires
            old(self).elapsed_ms + dt <= u64::MAX,
        ensures
            final(self).elapsed_ms == old(self).elapsed_ms + dt,
            final(self).summoned_minions == old(self).summoned_minions,
    {
        self.elapsed_ms = self.elapsed_ms + dt;
    }
}

/// The full reset on game over: the battle counter returns to 1, the
/// statistics clear, and the inventory empties. Nothing is persisted.
pub fn reset_run(
    battle_count: &mut BattleCount,
    statistics: &mut Statistics,
    inventory: &mut InventoryItems,
)
    ensures
        final(battle_count).0 == 1,
        final(statistics).summoned_minions == 0,
        final(statistics).elapsed_ms == 0,
        final(inventory)@.len() == 0,
{
    battle_count.0 = 1;
    statistics.summoned_minions = 0;
    statistics.elapsed_ms = 0;
    inventory.clear();
}

} // verus!
