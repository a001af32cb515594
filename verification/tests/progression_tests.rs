use autobattler::battle::{battle_tick, BattleState};
use autobattler::progression::{generate_opponents, OpponentCard, MAX_CARD_COUNT};
use autobattler::statistics::{reset_run, BattleCount, Statistics};
use autobattler::stats::{
    Stats, ENEMY_DMG_BASE, ENEMY_DMG_INC, ENEMY_HP_BASE, ENEMY_HP_INC, ENEMY_HP_REGEN_BASE,
    ENEMY_HP_REGEN_INC, ENEMY_SPEED_BASE, ENEMY_SPEED_INC,
};
use autobattler::summoning::{summon_minion, InventoryItems, SummoningItem, SummoningItemType};
use rand::rngs::StdRng;
use rand::SeedableRng;

fn check_card(card: &OpponentCard, stat_cap: u8, regen_cap: u8) {
    assert!(1 <= card.damage_tier && card.damage_tier <= stat_cap);
    assert!(1 <= card.speed_tier && card.speed_tier <= stat_cap);
    assert!(1 <= card.hp_tier && card.hp_tier <= stat_cap);
    assert!(card.hp_regeneration_tier <= regen_cap);
    // Tier t maps to the absolute stat base + increment * t.
    assert_eq!(card.stats.max_hp, ENEMY_HP_BASE + ENEMY_HP_INC * card.hp_tier as u64);
    assert_eq!(card.stats.current_hp, card.stats.max_hp);
    assert_eq!(card.stats.damage, ENEMY_DMG_BASE + ENEMY_DMG_INC * card.damage_tier as u64);
    assert_eq!(card.stats.speed, ENEMY_SPEED_BASE + ENEMY_SPEED_INC * card.speed_tier as u64);
    assert_eq!(
        card.stats.hp_regeneration,
        ENEMY_HP_REGEN_BASE + ENEMY_HP_REGEN_INC * card.hp_regeneration_tier as u64
    );
    assert!(!card.rewards.0.is_empty() && card.rewards.0.len() <= 3);
    for r in &card.rewards.0 {
        assert!(1 <= r.tier && r.tier <= stat_cap);
        assert_eq!(r.quantity, 1);
    }
}

#[test]
fn early_opponents_stay_in_the_low_tier_envelope() {
    // At battle count 1 the stat tier cap is min(10, 1/2 + 2) = 2 and the
    // regeneration cap is min(10, 1/2 + 1) = 1.
    for seed in 0..20u64 {
        let mut rng = StdRng::seed_from_u64(seed);
        let cards = generate_opponents(&mut rng, &BattleCount(1));
        assert!(!cards.is_empty() && cards.len() <= MAX_CARD_COUNT);
        for card in &cards {
            check_card(card, 2, 1);
        }
    }
}

#[test]
fn late_opponents_cap_at_tier_ten() {
    // At battle count 40 both caps clamp at 10.
    for seed in 0..20u64 {
        let mut rng = StdRng::seed_from_u64(seed);
        let cards = generate_opponents(&mut rng, &BattleCount(40));
        for card in &cards {
            check_card(card, 10, 10);
        }
    }
}

#[test]
fn generation_is_reproducible_for_a_seed() {
    let mut rng_a = StdRng::seed_from_u64(123);
    let mut rng_b = StdRng::seed_from_u64(123);
    let a = generate_opponents(&mut rng_a, &BattleCount(6));
    let b = generate_opponents(&mut rng_b, &BattleCount(6));
    assert_eq!(a.len(), b.len());
    for (x, y) in a.iter().zip(b.iter()) {
        assert_eq!(x.damage_tier, y.damage_tier);
        assert_eq!(x.speed_tier, y.speed_tier);
        assert_eq!(x.hp_tier, y.hp_tier);
        assert_eq!(x.hp_regeneration_tier, y.hp_regeneration_tier);
        assert_eq!(x.rewards.0.len(), y.rewards.0.len());
        for (r, s) in x.rewards.0.iter().zip(y.rewards.0.iter()) {
            assert!(r == s);
        }
    }
}

#[test]
fn a_generated_opponent_fights_a_full_battle() {
    // A generated card becomes the live enemy and a strong lineup beats it;
    // its rewards land in the inventory.
    let mut rng = StdRng::seed_from_u64(77);
    let cards = generate_opponents(&mut rng, &BattleCount(1));
    let card = &cards[0];
    let reward_count = card.rewards.0.len();

    let mut state = BattleState::new();
    let strong = Stats {
        current_hp: 1_000_000_000,
        max_hp: 1_000_000_000,
        hp_regeneration: 0,
        speed: 10_000,
        damage: 50_000_000,
        current_mana: 0,
        max_mana: 0,
        mana_regeneration: 0,
    };
    autobattler::battle::add_minion(&mut state, strong);
    autobattler::battle::prepare_battle(
        &mut state,
        card.stats,
        autobattler::battle::DropRewards(card.rewards.0.clone()),
    );

    let mut inv = InventoryItems::new();
    let mut battle_count = BattleCount(1);
    let mut won = false;
    for _ in 0..200 {
        let events = battle_tick(&mut state, &mut inv, &mut battle_count, &mut rng, 100);
        if events.iter().any(|e| matches!(e, autobattler::battle::BattleEvent::BattleWon)) {
            won = true;
            break;
        }
    }
    assert!(won);
    assert_eq!(battle_count.0, 2);
    let total: usize = inv.0.iter().map(|s| s.quantity).sum();
    assert_eq!(total, reward_count);
}

#[test]
fn summoned_stats_follow_the_ingredient_formula() {
    // Damage tier 2 and Speed tier 3 on top of the base stats:
    // damage 19 + 2*4 = 27 points, speed 0.7 + 3*0.16 = 1.18 attacks/s.
    let mut ingredients = vec![
        SummoningItem { item_type: SummoningItemType::Damage, tier: 2, quantity: 1 },
        SummoningItem { item_type: SummoningItemType::Speed, tier: 3, quantity: 1 },
    ];
    let stats = summon_minion(&mut ingredients, 0).unwrap();
    assert_eq!(stats.damage, 27_000_000);
    assert_eq!(stats.speed, 1180);
    assert_eq!(stats.max_hp, 80_000_000);
    assert_eq!(stats.current_hp, 80_000_000);
    assert_eq!(stats.hp_regeneration, 0);
    assert!(ingredients.is_empty());
}

#[test]
fn hp_and_regen_ingredients_raise_their_stats() {
    let mut ingredients = vec![
        SummoningItem { item_type: SummoningItemType::MaxHP, tier: 4, quantity: 1 },
        SummoningItem { item_type: SummoningItemType::HPRegeneration, tier: 5, quantity: 1 },
    ];
    let stats = summon_minion(&mut ingredients, 3).unwrap();
    assert_eq!(stats.max_hp, 80_000_000 + 4 * 11_000_000);
    assert_eq!(stats.current_hp, stats.max_hp);
    assert_eq!(stats.hp_regeneration, 5 * 2_000);
    assert_eq!(stats.damage, 19_000_000);
    assert_eq!(stats.speed, 700);
}

#[test]
fn summoning_is_rejected_with_a_full_lineup() {
    let mut ingredients =
        vec![SummoningItem { item_type: SummoningItemType::Damage, tier: 1, quantity: 1 }];
    assert!(summon_minion(&mut ingredients, 4).is_none());
    assert_eq!(ingredients.len(), 1);
}

#[test]
fn summoning_is_rejected_without_ingredients() {
    let mut ingredients: Vec<SummoningItem> = Vec::new();
    assert!(summon_minion(&mut ingredients, 0).is_none());
}

#[test]
fn game_over_resets_the_whole_run() {
    let mut battle_count = BattleCount(9);
    let mut statistics = Statistics { summoned_minions: 12, elapsed_ms: 480_000 };
    let mut inv = InventoryItems::new();
    inv.merge_item(SummoningItem { item_type: SummoningItemType::Speed, tier: 2, quantity: 6 });
    reset_run(&mut battle_count, &mut statistics, &mut inv);
    assert_eq!(battle_count.0, 1);
    assert_eq!(statistics.summoned_minions, 0);
    assert_eq!(statistics.elapsed_ms, 0);
    assert!(inv.0.is_empty());
}

#[test]
fn statistics_accumulate() {
    let mut statistics = Statistics::new();
    statistics.record_summon();
    statistics.record_summon();
    statistics.record_time(16);
    statistics.record_time(17);
    assert_eq!(statistics.summoned_minions, 2);
    assert_eq!(statistics.elapsed_ms, 33);
}

#[test]
fn deleting_an_item_discards_the_whole_stack() {
    let mut inv = InventoryItems::new();
    inv.merge_item(SummoningItem { item_type: SummoningItemType::Damage, tier: 1, quantity: 9 });
    inv.merge_item(SummoningItem { item_type: SummoningItemType::Speed, tier: 4, quantity: 2 });
    inv.delete_item(0);
    assert_eq!(inv.0.len(), 1);
    assert!(inv.0[0].item_type == SummoningItemType::Speed);
}

#[test]
fn hover_tiers_invert_the_summoning_formula() {
    let mut ingredients = vec![
        SummoningItem { item_type: SummoningItemType::Damage, tier: 7, quantity: 1 },
        SummoningItem { item_type: SummoningItemType::MaxHP, tier: 2, quantity: 1 },
        SummoningItem { item_type: SummoningItemType::Speed, tier: 5, quantity: 1 },
        SummoningItem { item_type: SummoningItemType::HPRegeneration, tier: 3, quantity: 1 },
    ];
    let stats = summon_minion(&mut ingredients, 0).unwrap();
    let tiers = autobattler::stats::minion_stat_tiers(&stats);
    assert_eq!(tiers.damage, 7);
    assert_eq!(tiers.max_hp, 2);
    assert_eq!(tiers.speed, 5);
    assert_eq!(tiers.hp_regeneration, 3);
}

#[test]
fn default_stats_are_the_documented_placeholders() {
    let s = Stats::default();
    assert_eq!(s.current_hp, 10_000_000);
    assert_eq!(s.max_hp, 10_000_000);
    assert_eq!(s.speed, 1000);
    assert_eq!(s.damage, 1_000_000);
    assert_eq!(s.hp_regeneration, 0);
}

#[test]
fn tier_numbers_render_as_roman_numerals() {
    let expected = ["0", "I", "II", "III", "IV", "V", "VI", "VII", "VIII", "IX", "X"];
    for (n, e) in expected.iter().enumerate() {
        assert_eq!(autobattler::utils::num_to_roman(n as u8), *e);
    }
}
