//! Procedural opponent generation: stat tiers and reward tiers scale with
//! the battle counter; the generator is pure given the generator state and
//! the counter.

use vstd::prelude::*;
use crate::battle::DropRewards;
use crate::rng::{draw_inclusive, draw_index};
use crate::statistics::BattleCount;
use crate::stats::{
    Stats, ENEMY_DMG_BASE, ENEMY_DMG_INC, ENEMY_HP_BASE, ENEMY_HP_INC, ENEMY_HP_REGEN_BASE,
    ENEMY_HP_REGEN_INC, ENEMY_SPEED_BASE, ENEMY_SPEED_INC,
};
use crate::summoning::{SummoningItem, SummoningItemType};

verus! {

/// Most opponent cards offered on one planning screen.
pub const MAX_CARD_COUNT: usize = 3;

/// Most reward items one opponent can carry.
pub const MAX_REWARD_COUNT: usize = 3;

/// Highest stat tier an opponent can roll at the given battle count:
/// `min(10, battle_count / 2 + 2)`.
pub open spec fn stat_tier_cap(battle_count: int) -> int {
    if battle_count / 2 + 2 >= 10 {
        10
    } else {
        battle_count / 2 + 2
    }
}

/// Highest regeneration tier at the given battle count, where a zero roll
/// (no regeneration) is allowed: `min(10, battle_count / 2 + 1)`.
pub open spec fn regen_tier_cap(battle_count: int) -> int {
    if battle_count / 2 + 1 >= 10 {
        10
    } else {
        battle_count / 2 + 1
    }
}

/// Tier `t` maps to an absolute stat as `base + increment * t`, for each of
/// the four rolled stats; opponents use no mana.
pub open spec fn enemy_stats_from_tiers(
    damage_tier: int,
    speed_tier: int,
    hp_tier: int,
    regen_tier: int,
) -> Stats {
    Stats {
        current_hp: (ENEMY_HP_BASE + ENEMY_HP_INC * hp_tier) as u64,
        max_hp: (ENEMY_HP_BASE + ENEMY_HP_INC * hp_tier) as u64,
        hp_regeneration: (ENEMY_HP_REGEN_BASE + ENEMY_HP_REGEN_INC * regen_tier) as u64,
        speed: (ENEMY_SPEED_BASE + ENEMY_SPEED_INC * speed_tier) as u64,
        damage: (ENEMY_DMG_BASE + ENEMY_DMG_INC * damage_tier) as u64,
        current_mana: 0u64,
        max_mana: 0u64,
        mana_regeneration: 0u64,
    }
}

/// One opponent choice offered on the planning screen: the rolled tiers
/// (shown on the card), the stats they map to, and the reward bundle.
pub struct OpponentCard {
    /// Rolled damage tier.
    pub damage_tier: u8,
    /// Rolled attack-speed tier.
    pub speed_tier: u8,
    /// Rolled hit-point tier.
    pub hp_tier: u8,
    /// Rolled regeneration tier; zero means no regeneration.
    pub hp_regeneration_tier: u8,
    /// The absolute stats those tiers map to.
    pub stats: Stats,
    /// What this opponent drops when beaten.
    pub rewards: DropRewards,
}

impl OpponentCard {
    /// What generation guarantees of every card at the given battle count:
    /// tiers within the count's caps, stats exactly the tier mapping, and
    /// one to three single-unit rewards with tiers in the same range.
    pub open spec fn wf(self, battle_count: int) -> bool {
        &&& 1 <= self.damage_tier <= stat_tier_cap(battle_count)
        &&& 1 <= self.speed_tier <= stat_tier_cap(battle_count)
        &&& 1 <= self.hp_tier <= stat_tier_cap(battle_count)
        &&& 0 <= self.hp_regeneration_tier <= regen_tier_cap(battle_count)
        &&& self.stats == enemy_stats_from_tiers(
            self.damage_tier as int,
            self.speed_tier as int,
            self.hp_tier as int,
            self.hp_regeneration_tier as int,
        )
        &&& 1 <= self.rewards.0@.len() <= MAX_REWARD_COUNT
        &&& forall|i: int|
            0 <= i < self.rewards.0@.len() ==> {
                &&& (#[trigger] self.rewards.0@[i]).wf()
                &&& self.rewards.0@[i].tier <= stat_tier_cap(battle_count)
                &&& self.rewards.0@[i].quantity == 1
            }
    }
}

/// Map a uniformly drawn index to an item type, each of the four equally
/// likely.
fn item_type_from_roll(roll: usize) -> (t: SummoningItemType)
    requires
        roll < 4,
{
    match roll {
        0 => SummoningItemType::Damage,
        1 => SummoningItemType::Speed,
        2 => SummoningItemType::MaxHP,
        _ => SummoningItemType::HPRegeneration,
    }
}

/// Roll one opponent card at the given battle count.
#[verifier::loop_isolation(false)]
fn generate_card(rng: &mut rand::rngs::StdRng, battle_count: usize) -> (card: OpponentCard)
    ensures
        card.wf(battle_count as int),
        card.stats.wf(),
        card.stats.current_hp > 0,
{
    let cap_raw = battle_count / 2 + 2;
    let cap: u64 = if cap_raw >= 10 {
        10
    } else {
        cap_raw as u64
    };
    let regen_cap_raw = battle_count / 2 + 1;
    let regen_cap: u64 = if regen_cap_raw >= 10 {
        10
    } else {
        regen_cap_raw as u64
    };
    let damage_tier = draw_inclusive(rng, 1, cap) as u8;
    let speed_tier = draw_inclusive(rng, 1, cap) as u8;
    let hp_tier = draw_inclusive(rng, 1, cap) as u8;
    let hp_regeneration_tier = draw_inclusive(rng, 0, regen_cap) as u8;

    let hp = ENEMY_HP_BASE + ENEMY_HP_INC * (hp_tier as u64);
    let stats = Stats {
        current_hp: hp,
        max_hp: hp,
        hp_regeneration: ENEMY_HP_REGEN_BASE + ENEMY_HP_REGEN_INC * (hp_regeneration_tier as u64),
        speed: ENEMY_SPEED_BASE + ENEMY_SPEED_INC * (speed_tier as u64),
        damage: ENEMY_DMG_BASE + ENEMY_DMG_INC * (damage_tier as u64),
        current_mana: 0,
        max_mana: 0,
        mana_regeneration: 0,
    };

    let reward_count = draw_inclusive(rng, 1, MAX_REWARD_COUNT as u64);
    let mut rewards: Vec<SummoningItem> = Vec::new();
    let mut r: u64 = 0;
    while r < reward_count
        invariant
            r <= reward_count,
            rewards@.len() == r,
            forall|i: int|
                0 <= i < rewards@.len() ==> {
                    &&& (#[trigger] rewards@[i]).wf()
                    &&& rewards@[i].tier <= stat_tier_cap(battle_count as int)
                    &&& rewards@[i].quantity == 1
                },
        decreases reward_count - r,
    {
        let type_roll = draw_index(rng, 4);
        let reward_tier = draw_inclusive(rng, 1, cap) as u8;
        rewards.push(
            SummoningItem {
                item_type: item_type_from_roll(type_roll),
                tier: reward_tier,
                quantity: 1,
            },
        );
        r = r + 1;
    }

    OpponentCard {
        damage_tier,
        speed_tier,
        hp_tier,
        hp_regeneration_tier,
        stats,
        rewards: DropRewards(rewards),
    }
}

/// On entering the planning phase, offer one to three opponent cards, every
/// one within the battle counter's tier envelope.
#[verifier::loop_isolation(false)]
pub fn generate_opponents(rng: &mut rand::rngs::StdRng, battle_count: &BattleCount) -> (cards:
    Vec<OpponentCard>)
    ensures
        1 <= cards@.len() <= MAX_CARD_COUNT,
        forall|i: int|
            0 <= i < cards@.len() ==> {
                &&& (#[trigger] cards@[i]).wf(battle_count.0 as int)
                &&& cards@[i].stats.wf()
                &&& cards@[i].stats.current_hp > 0
            },
{
    let card_count = draw_inclusive(rng, 1, MAX_CARD_COUNT as u64);
    let mut cards: Vec<OpponentCard> = Vec::new();
    let mut i: u64 = 0;
    while i < card_count
        invariant
            i <= card_count,
            cards@.len() == i,
            forall|k: int|
                0 <= k < cards@.len() ==> {
                    &&& (#[trigger] cards@[k]).wf(battle_count.0 as int)
                    &&& cards@[k].stats.wf()
                    &&& cards@[k].stats.current_hp > 0
                },
        decreases card_count - i,
    {
        let card = generate_card(rng, battle_count.0);
        cards.push(card);
        i = i + 1;
    }
    cards
}

} // verus!
