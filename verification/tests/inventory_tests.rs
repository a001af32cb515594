use autobattler::battle::{BattleParticipant, BattleState, DropRewards, Enemy, Minion, MinionCount};
use autobattler::statistics::BattleCount;
use autobattler::stats::Stats;
use autobattler::summoning::{
    grant_starter_items, return_ingredients, stage_ingredient, unstage_ingredient, InventoryItems,
    SummoningItem, SummoningItemType, MAX_ITEM_COUNT,
};

fn item(item_type: SummoningItemType, tier: u8, quantity: usize) -> SummoningItem {
    SummoningItem { item_type, tier, quantity }
}

fn plain_stats(hp: u64, speed: u64, damage: u64) -> Stats {
    Stats {
        current_hp: hp,
        max_hp: hp,
        hp_regeneration: 0,
        speed,
        damage,
        current_mana: 0,
        max_mana: 0,
        mana_regeneration: 0,
    }
}

#[test]
fn merge_sums_quantities_of_equal_kind() {
    let mut inv = InventoryItems::new();
    inv.merge_item(item(SummoningItemType::Damage, 2, 3));
    inv.merge_item(item(SummoningItemType::Damage, 2, 1));
    assert_eq!(inv.0.len(), 1);
    assert_eq!(inv.0[0].quantity, 4);
    assert_eq!(inv.0[0].tier, 2);
}

#[test]
fn merge_keeps_distinct_tiers_separate() {
    let mut inv = InventoryItems::new();
    inv.merge_item(item(SummoningItemType::Damage, 1, 1));
    inv.merge_item(item(SummoningItemType::Damage, 2, 1));
    assert_eq!(inv.0.len(), 2);
    assert_eq!(inv.0[0].tier, 1);
    assert_eq!(inv.0[1].tier, 2);
}

#[test]
fn merge_idempotence_two_batches_equal_one_summed() {
    // Merging {Speed, 3, qty 1} twice gives the same inventory as merging
    // {Speed, 3, qty 2} once.
    let mut twice = InventoryItems::new();
    twice.merge_item(item(SummoningItemType::MaxHP, 1, 5));
    twice.merge_item(item(SummoningItemType::Speed, 3, 1));
    twice.merge_item(item(SummoningItemType::Speed, 3, 1));

    let mut once = InventoryItems::new();
    once.merge_item(item(SummoningItemType::MaxHP, 1, 5));
    once.merge_item(item(SummoningItemType::Speed, 3, 2));

    assert_eq!(twice.0.len(), once.0.len());
    for i in 0..twice.0.len() {
        assert!(twice.0[i] == once.0[i]);
    }
}

#[test]
fn merge_at_capacity_is_a_silent_drop() {
    let mut inv = InventoryItems::new();
    for tier in 1..=10u8 {
        inv.merge_item(item(SummoningItemType::Damage, tier, 1));
    }
    assert_eq!(inv.0.len(), MAX_ITEM_COUNT);
    // An eleventh distinct kind is dropped without error.
    inv.merge_item(item(SummoningItemType::Speed, 1, 7));
    assert_eq!(inv.0.len(), MAX_ITEM_COUNT);
    for i in 0..inv.0.len() {
        assert!(inv.0[i].item_type == SummoningItemType::Damage);
    }
    // But a kind already stacked still absorbs quantity at capacity.
    inv.merge_item(item(SummoningItemType::Damage, 4, 2));
    assert_eq!(inv.0.len(), MAX_ITEM_COUNT);
    assert_eq!(inv.0[3].quantity, 3);
}

#[test]
fn capacity_never_exceeded_by_many_inserts() {
    let mut inv = InventoryItems::new();
    for tier in 1..=10u8 {
        for t in [
            SummoningItemType::Damage,
            SummoningItemType::Speed,
            SummoningItemType::MaxHP,
            SummoningItemType::HPRegeneration,
        ] {
            inv.merge_item(item(t, tier, 1));
            assert!(inv.0.len() <= MAX_ITEM_COUNT);
        }
    }
    assert_eq!(inv.0.len(), MAX_ITEM_COUNT);
}

#[test]
fn stage_takes_one_unit_and_drained_stack_disappears() {
    let mut inv = InventoryItems::new();
    inv.merge_item(item(SummoningItemType::Damage, 2, 2));
    inv.merge_item(item(SummoningItemType::Speed, 1, 1));
    let mut ingredients: Vec<SummoningItem> = Vec::new();

    assert!(stage_ingredient(&mut inv, &mut ingredients, 0));
    assert_eq!(ingredients.len(), 1);
    assert_eq!(ingredients[0].quantity, 1);
    assert_eq!(inv.0[0].quantity, 1);

    // Draining the single-unit Speed stack removes it entirely: a
    // zero-quantity stack is never observable.
    assert!(stage_ingredient(&mut inv, &mut ingredients, 1));
    assert_eq!(inv.0.len(), 1);
    assert_eq!(ingredients.len(), 2);
}

#[test]
fn staging_a_second_item_of_the_same_type_is_rejected() {
    let mut inv = InventoryItems::new();
    inv.merge_item(item(SummoningItemType::Damage, 1, 1));
    inv.merge_item(item(SummoningItemType::Damage, 2, 1));
    let mut ingredients: Vec<SummoningItem> = Vec::new();

    assert!(stage_ingredient(&mut inv, &mut ingredients, 0));
    // Same type, different tier: still rejected while one is staged.
    assert!(!stage_ingredient(&mut inv, &mut ingredients, 0));
    assert_eq!(ingredients.len(), 1);
    assert_eq!(inv.0.len(), 1);
}

#[test]
fn unstage_merges_the_unit_back() {
    let mut inv = InventoryItems::new();
    inv.merge_item(item(SummoningItemType::MaxHP, 3, 4));
    let mut ingredients: Vec<SummoningItem> = Vec::new();
    assert!(stage_ingredient(&mut inv, &mut ingredients, 0));
    assert_eq!(inv.0[0].quantity, 3);
    unstage_ingredient(&mut inv, &mut ingredients, 0);
    assert_eq!(ingredients.len(), 0);
    assert_eq!(inv.0.len(), 1);
    assert_eq!(inv.0[0].quantity, 4);
}

#[test]
fn leaving_the_screen_returns_all_ingredients() {
    let mut inv = InventoryItems::new();
    inv.merge_item(item(SummoningItemType::Damage, 1, 2));
    inv.merge_item(item(SummoningItemType::Speed, 2, 1));
    let mut ingredients: Vec<SummoningItem> = Vec::new();
    assert!(stage_ingredient(&mut inv, &mut ingredients, 0));
    assert!(stage_ingredient(&mut inv, &mut ingredients, 1));
    return_ingredients(&mut inv, &mut ingredients);
    assert!(ingredients.is_empty());
    assert_eq!(inv.0.len(), 2);
    assert_eq!(inv.0[0].quantity, 2);
    assert_eq!(inv.0[1].quantity, 1);
}

#[test]
fn starter_items_granted_only_on_first_battle() {
    let mut inv = InventoryItems::new();
    grant_starter_items(&mut inv, &BattleCount(1));
    assert_eq!(inv.0.len(), 3);
    assert!(inv.0[0].item_type == SummoningItemType::Damage);
    assert!(inv.0[1].item_type == SummoningItemType::Speed);
    assert!(inv.0[2].item_type == SummoningItemType::MaxHP);
    for i in 0..3 {
        assert_eq!(inv.0[i].tier, 1);
        assert_eq!(inv.0[i].quantity, 1);
    }

    let mut later = InventoryItems::new();
    grant_starter_items(&mut later, &BattleCount(2));
    assert!(later.0.is_empty());
}

#[test]
fn enemy_drop_merges_into_existing_stack() {
    // An enemy drops {Damage, tier 2, qty 1} into an inventory already
    // holding {Damage, tier 2, qty 3}: afterwards exactly one stack
    // {Damage, tier 2, qty 4}.
    let mut inv = InventoryItems::new();
    inv.merge_item(item(SummoningItemType::Damage, 2, 3));
    let mut battle_count = BattleCount(1);
    let mut state = BattleState {
        minions: vec![Minion {
            stats: plain_stats(1_000_000, 1000, 0),
            participant: BattleParticipant { turn_accumulator: 0 },
        }],
        enemy: Some(Enemy {
            stats: plain_stats(0, 1000, 0),
            participant: BattleParticipant { turn_accumulator: 0 },
            rewards: DropRewards(vec![item(SummoningItemType::Damage, 2, 1)]),
        }),
        minion_count: MinionCount(1),
    };
    let events = autobattler::battle::handle_enemy_dead(&mut state, &mut inv, &mut battle_count);
    assert_eq!(inv.0.len(), 1);
    assert_eq!(inv.0[0].quantity, 4);
    assert_eq!(inv.0[0].tier, 2);
    assert!(inv.0[0].item_type == SummoningItemType::Damage);
    assert_eq!(battle_count.0, 2);
    assert_eq!(events.len(), 2);
    assert!(state.enemy.is_none());
}
