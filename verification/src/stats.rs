//! Per-combatant numeric attributes and regeneration-over-time.
//!
//! Hit points and mana are stored in micro-units; regeneration rates in
//! micro-units per millisecond; attack speed in micro-turns per millisecond.

use vstd::prelude::*;

verus! {

/// Upper bound on hit-point-like quantities (micro-units).
pub const HP_LIMIT: u64 = 1_000_000_000_000;
/// Upper bound on regeneration rates (micro-units per millisecond).
pub const RATE_LIMIT: u64 = 1_000_000_000;
/// Upper bound on attack speed (micro-turns per millisecond).
pub const SPEED_LIMIT: u64 = 1_000_000_000;
/// Upper bound on a single tick's duration (milliseconds).
pub const DT_LIMIT: u64 = 1_000_000_000;

/// Base hit points of a freshly summoned minion (80 points).
pub const MINION_HP_BASE: u64 = 80_000_000;
/// Base hit-point regeneration of a minion (0 points per second).
pub const MINION_HP_REGEN_BASE: u64 = 0;
/// Base damage of a minion (19 points).
pub const MINION_DMG_BASE: u64 = 19_000_000;
/// Base attack speed of a minion (0.7 attacks per second).
pub const MINION_SPEED_BASE: u64 = 700;

/// Added hit points per tier of a staged MaxHP ingredient (11 points).
pub const MINION_HP_INC: u64 = 11_000_000;
/// Added regeneration per tier of a staged HPRegeneration ingredient (2 points per second).
pub const MINION_HP_REGEN_INC: u64 = 2_000;
/// Added damage per tier of a staged Damage ingredient (4 points).
pub const MINION_DMG_INC: u64 = 4_000_000;
/// Added attack speed per tier of a staged Speed ingredient (0.16 attacks per second).
pub const MINION_SPEED_INC: u64 = 160;

/// Base hit points of a generated opponent (140 points).
pub const ENEMY_HP_BASE: u64 = 140_000_000;
/// Base hit-point regeneration of a generated opponent (0 points per second).
pub const ENEMY_HP_REGEN_BASE: u64 = 0;
/// Base damage of a generated opponent (25 points).
pub const ENEMY_DMG_BASE: u64 = 25_000_000;
/// Base attack speed of a generated opponent (0.8 attacks per second).
pub const ENEMY_SPEED_BASE: u64 = 800;

/// Added opponent hit points per stat tier (13 points).
pub const ENEMY_HP_INC: u64 = 13_000_000;
/// Added opponent regeneration per stat tier (4.5 points per second).
pub const ENEMY_HP_REGEN_INC: u64 = 4_500;
/// Added opponent damage per stat tier (5 points).
pub const ENEMY_DMG_INC: u64 = 5_000_000;
/// Added opponent attack speed per stat tier (0.2 attacks per second).
pub const ENEMY_SPEED_INC: u64 = 200;

/// Numeric attributes of one combatant (minion or enemy).
#[derive(Clone, Copy, Debug)]
pub struct Stats {
    /// Current hit points; always at most `max_hp`.
    pub current_hp: u64,
    /// Largest value `current_hp` can reach.
    pub max_hp: u64,
    /// Hit points regained per millisecond.
    pub hp_regeneration: u64,
    /// Attack speed: micro-turns banked per millisecond.
    pub speed: u64,
    /// Hit points removed from the victim of one attack.
    pub damage: u64,
    /// Current mana; always at most `max_mana`.
    pub current_mana: u64,
    /// Largest value `current_mana` can reach.
    pub max_mana: u64,
    /// Mana regained per millisecond.
    pub mana_regeneration: u64,
}

impl Stats {
    /// Well-formedness: current values clamped by maxima, and every field
    /// small enough that one tick's arithmetic fits in a `u64`.
    pub open spec fn wf(self) -> bool {
        &&& self.current_hp <= self.max_hp
        &&& self.max_hp <= HP_LIMIT
        &&& self.hp_regeneration <= RATE_LIMIT
        &&& 1 <= self.speed <= SPEED_LIMIT
        &&& self.damage <= HP_LIMIT
        &&& self.current_mana <= self.max_mana
        &&& self.max_mana <= HP_LIMIT
        &&& self.mana_regeneration <= RATE_LIMIT
    }

}

impl Default for Stats {
    /// The placeholder stats combatants start from before any tuning:
    /// 10 hit points, one attack per second, 1 damage, no mana.
    fn default() -> (r: Stats)
        ensures
            r == (Stats {
                current_hp: 10_000_000u64,
                max_hp: 10_000_000u64,
                hp_regeneration: 0u64,
                speed: 1000u64,
                damage: 1_000_000u64,
                current_mana: 0u64,
                max_mana: 0u64,
                mana_regeneration: 0u64,
            }),
            r.wf(),
    {
        Stats {
            current_hp: 10_000_000,
            max_hp: 10_000_000,
            hp_regeneration: 0,
            speed: 1000,
            damage: 1_000_000,
            current_mana: 0,
            max_mana: 0,
            mana_regeneration: 0,
        }
    }
}

/// The stat tiers a minion's numbers came from, recovered for display on
/// the hover window.
pub struct MinionTiers {
    /// Damage tier.
    pub damage: u64,
    /// Attack-speed tier.
    pub speed: u64,
    /// Maximum-hit-point tier.
    pub max_hp: u64,
    /// Regeneration tier.
    pub hp_regeneration: u64,
}

/// Recover the ingredient tiers a summoned minion's stats embody: the
/// inverse of `base + increment * tier`, rounded down.
pub fn minion_stat_tiers(stats: &Stats) -> (r: MinionTiers)
    requires
        stats.damage >= MINION_DMG_BASE,
        stats.speed >= MINION_SPEED_BASE,
        stats.max_hp >= MINION_HP_BASE,
    ensures
        r.damage == (stats.damage - MINION_DMG_BASE) as int / MINION_DMG_INC as int,
        r.speed == (stats.speed - MINION_SPEED_BASE) as int / MINION_SPEED_INC as int,
        r.max_hp == (stats.max_hp - MINION_HP_BASE) as int / MINION_HP_INC as int,
        r.hp_regeneration == (stats.hp_regeneration - MINION_HP_REGEN_BASE) as int
            / MINION_HP_REGEN_INC as int,
{
    MinionTiers {
        damage: (stats.damage - MINION_DMG_BASE) / MINION_DMG_INC,
        speed: (stats.speed - MINION_SPEED_BASE) / MINION_SPEED_INC,
        max_hp: (stats.max_hp - MINION_HP_BASE) / MINION_HP_INC,
        hp_regeneration: (stats.hp_regeneration - MINION_HP_REGEN_BASE) / MINION_HP_REGEN_INC,
    }
}

/// A current value after regenerating at `rate` for `dt` milliseconds,
/// clamped so it never passes `max`.
pub open spec fn clamped_gain(cur: int, rate: int, dt: int, max: int) -> int {
    if cur + rate * dt >= max {
        max
    } else {
        cur + rate * dt
    }
}

/// The stats after one regeneration tick of length `dt`: hit points and mana
/// each move toward their maximum by `rate * dt`, and nothing else changes.
pub open spec fn regenerated(s: Stats, dt: int) -> Stats {
    Stats {
        current_hp: clamped_gain(s.current_hp as int, s.hp_regeneration as int, dt, s.max_hp as int) as u64,
        current_mana: clamped_gain(s.current_mana as int, s.mana_regeneration as int, dt, s.max_mana as int) as u64,
        ..s
    }
}

impl Stats {
    /// One regeneration tick: `current_hp = min(max_hp, current_hp + hp_regeneration * dt)`,
    /// and the same rule for mana. Pure and clamping; no other field moves.
    pub fn regenerate(&mut self, dt: u64)
        requires
            old(self).wf(),
            dt <= DT_LIMIT,
        ensures
            *final(self) == regenerated(*old(self), dt as int),
            final(self).wf(),
    {
        proof {
            lemma_rate_times_dt_bounded(self.hp_regeneration as int, dt as int);
            lemma_rate_times_dt_bounded(self.mana_regeneration as int, dt as int);
        }
        let hp_gain = self.hp_regeneration * dt;
        if self.max_hp - self.current_hp <= hp_gain {
            self.current_hp = self.max_hp;
        } else {
            self.current_hp = self.current_hp + hp_gain;
        }

        let mana_gain = self.mana_regeneration * dt;
        if self.max_mana - self.current_mana <= mana_gain {
            self.current_mana = self.max_mana;
        } else {
            self.current_mana = self.current_mana + mana_gain;
        }
    }
}

/// A regeneration rate times a tick length stays well under `u64::MAX`.
proof fn lemma_rate_times_dt_bounded(rate: int, dt: int)
    requires
        0 <= rate <= RATE_LIMIT,
        0 <= dt <= DT_LIMIT,
    ensures
        0 <= rate * dt <= (RATE_LIMIT as int) * (DT_LIMIT as int),
{
    assert(0 <= rate * dt <= (RATE_LIMIT as int) * (DT_LIMIT as int)) by (nonlinear_arith)
        requires
            0 <= rate <= RATE_LIMIT,
            0 <= dt <= DT_LIMIT,
    ;
}

/// The stats after regenerating once for each tick length in `dts`, in order.
pub open spec fn regenerated_over(s: Stats, dts: Seq<int>) -> Stats
    decreases dts.len(),
{
    if dts.len() == 0 {
        s
    } else {
        regenerated_over(regenerated(s, dts[0]), dts.drop_first())
    }
}

/// Regeneration clamp: however many regeneration ticks run, and whatever
/// their (nonnegative) lengths, current hit points never pass the maximum,
/// and the maximum itself never moves.
pub proof fn lemma_regeneration_clamp(s: Stats, dts: Seq<int>)
    requires
        s.current_hp <= s.max_hp,
        s.current_mana <= s.max_mana,
        forall|i: int| 0 <= i < dts.len() ==> 0 <= #[trigger] dts[i],
    ensures
        regenerated_over(s, dts).current_hp <= regenerated_over(s, dts).max_hp,
        regenerated_over(s, dts).max_hp == s.max_hp,
    decreases dts.len(),
{
    if dts.len() > 0 {
        let s1 = regenerated(s, dts[0]);
        assert(0 <= dts[0]);
        assert(s1.current_hp <= s1.max_hp) by {
            lemma_gain_nonnegative(s.current_hp as int, s.hp_regeneration as int, dts[0]);
        }
        assert(s1.current_mana <= s1.max_mana) by {
            lemma_gain_nonnegative(s.current_mana as int, s.mana_regeneration as int, dts[0]);
        }
        lemma_regeneration_clamp(s1, dts.drop_first());
    }
}

/// Regenerating for a nonnegative time never lowers a nonnegative value.
proof fn lemma_gain_nonnegative(cur: int, rate: int, dt: int)
    requires
        0 <= cur,
        0 <= rate,
        0 <= dt,
    ensures
        cur <= cur + rate * dt,
{
    assert(0 <= rate * dt) by (nonlinear_arith)
        requires
            0 <= rate,
            0 <= dt,
    ;
}

} // verus!
