use autobattler::battle::{
    battle_tick, handle_minion_dead, update_battle, BattleEvent, BattleParticipant, BattleState,
    DropRewards, Enemy, Minion, MinionCount, TURN_THRESHOLD,
};
use autobattler::statistics::BattleCount;
use autobattler::stats::Stats;
use autobattler::summoning::{InventoryItems, SummoningItem, SummoningItemType};
use rand::rngs::StdRng;
use rand::SeedableRng;

fn stats(hp: u64, regen: u64, speed: u64, damage: u64) -> Stats {
    Stats {
        current_hp: hp,
        max_hp: hp,
        hp_regeneration: regen,
        speed,
        damage,
        current_mana: 0,
        max_mana: 0,
        mana_regeneration: 0,
    }
}

fn minion(s: Stats) -> Minion {
    Minion { stats: s, participant: BattleParticipant { turn_accumulator: 0 } }
}

fn enemy(s: Stats, rewards: Vec<SummoningItem>) -> Enemy {
    Enemy {
        stats: s,
        participant: BattleParticipant { turn_accumulator: 0 },
        rewards: DropRewards(rewards),
    }
}

fn battle(minions: Vec<Minion>, e: Enemy) -> BattleState {
    let count = minions.len();
    BattleState { minions, enemy: Some(e), minion_count: MinionCount(count) }
}

fn count_events(events: &[BattleEvent], pred: impl Fn(&BattleEvent) -> bool) -> usize {
    events.iter().filter(|e| pred(e)).count()
}

#[test]
fn no_attack_before_a_full_turn_is_banked() {
    // Speed 1 attack/second; a 500 ms tick banks only half a turn.
    let mut rng = StdRng::seed_from_u64(1);
    let mut state = battle(vec![minion(stats(10_000_000, 0, 1000, 5_000_000))],
        enemy(stats(10_000_000, 0, 1, 0), vec![]));
    let events = update_battle(&mut state, &mut rng, 500);
    assert_eq!(count_events(&events, |e| matches!(e, BattleEvent::MinionAttack { .. })), 0);
    assert_eq!(state.minions[0].participant.turn_accumulator, 500_000);
    let events = update_battle(&mut state, &mut rng, 500);
    assert_eq!(count_events(&events, |e| matches!(e, BattleEvent::MinionAttack { .. })), 1);
    assert_eq!(state.minions[0].participant.turn_accumulator, 0);
}

#[test]
fn attack_count_is_frame_rate_independent() {
    // Over any partition of the same 4000 ms, a speed-0.7 attacker lands
    // floor(4 * 0.7) = 2 attacks.
    let partitions: [&[u64]; 3] = [&[4000], &[1000, 1000, 1000, 1000], &[3, 997, 1500, 700, 800]];
    for chunks in partitions {
        let mut rng = StdRng::seed_from_u64(7);
        let mut state = battle(vec![minion(stats(1_000_000_000, 0, 700, 1))],
            enemy(stats(1_000_000_000, 0, 1, 0), vec![]));
        let mut attacks = 0;
        for &dt in chunks {
            let events = update_battle(&mut state, &mut rng, dt);
            attacks += count_events(&events, |e| matches!(e, BattleEvent::MinionAttack { .. }));
        }
        assert_eq!(attacks, 2);
    }
}

#[test]
fn fractional_overshoot_is_kept_not_reset() {
    // Speed 0.7 attacks/second: first attack completes within 1429 ms and
    // the accumulator keeps the overshoot, 1429 * 700 - 1_000_000 = 300.
    let mut rng = StdRng::seed_from_u64(3);
    let mut state = battle(vec![minion(stats(1_000_000_000, 0, 700, 1))],
        enemy(stats(1_000_000_000, 0, 1, 0), vec![]));
    let events = update_battle(&mut state, &mut rng, 1429);
    assert_eq!(count_events(&events, |e| matches!(e, BattleEvent::MinionAttack { .. })), 1);
    assert_eq!(state.minions[0].participant.turn_accumulator, 300);
}

#[test]
fn burst_speed_lands_many_attacks_in_one_tick() {
    // Speed 100 attacks/second with a 1000 ms tick: all 100 banked turns
    // fire in that single tick, never capped at one per frame.
    let mut rng = StdRng::seed_from_u64(5);
    let mut state = battle(vec![minion(stats(1_000_000_000, 0, 100_000, 1_000))],
        enemy(stats(1_000_000_000, 0, 1, 0), vec![]));
    let events = update_battle(&mut state, &mut rng, 1000);
    assert_eq!(count_events(&events, |e| matches!(e, BattleEvent::MinionAttack { .. })), 100);
    assert_eq!(state.enemy.as_ref().unwrap().stats.current_hp, 1_000_000_000 - 100_000);
}

#[test]
fn minion_attacks_resolve_before_the_enemy_attack() {
    // Both sides cross the turn threshold in the same tick: every minion
    // attack stands before the enemy's in the event order.
    let mut rng = StdRng::seed_from_u64(11);
    let mut state = battle(
        vec![minion(stats(100_000_000, 0, 1000, 1_000_000)),
             minion(stats(100_000_000, 0, 1000, 1_000_000))],
        enemy(stats(100_000_000, 0, 1000, 1_000_000), vec![]),
    );
    let events = update_battle(&mut state, &mut rng, 1000);
    let kinds: Vec<bool> = events.iter().map(|e| matches!(e, BattleEvent::EnemyAttack { .. })).collect();
    assert_eq!(kinds, vec![false, false, true]);
}

#[test]
fn enemy_targets_stay_below_the_minion_count() {
    // A fast enemy draws many random targets in one tick; every draw is
    // bounded by the tracked minion count.
    let mut rng = StdRng::seed_from_u64(13);
    let lineup = vec![
        minion(stats(1_000_000_000, 0, 1, 0)),
        minion(stats(1_000_000_000, 0, 1, 0)),
        minion(stats(1_000_000_000, 0, 1, 0)),
    ];
    let mut state = battle(lineup, enemy(stats(1_000_000_000, 0, 50_000, 1_000), vec![]));
    let events = update_battle(&mut state, &mut rng, 1000);
    let mut enemy_attacks = 0;
    for e in &events {
        if let BattleEvent::EnemyAttack { target } = e {
            assert!(*target < 3);
            enemy_attacks += 1;
        }
    }
    assert_eq!(enemy_attacks, 50);
}

#[test]
fn scenario_two_seconds_to_beat_a_ten_point_enemy() {
    // Minion with speed 1, damage 5 against an enemy with 10 hit points:
    // after exactly 2 seconds of ticks, under any partition, the enemy is
    // dead and battle-won fired exactly once.
    let partitions: [&[u64]; 3] = [&[1000, 1000], &[500, 500, 500, 500], &[700, 300, 999, 1]];
    for chunks in partitions {
        let mut rng = StdRng::seed_from_u64(17);
        let mut inv = InventoryItems::new();
        let mut battle_count = BattleCount(1);
        let mut state = battle(vec![minion(stats(1_000_000_000, 0, 1000, 5_000_000))],
            enemy(stats(10_000_000, 0, 1, 0), vec![]));
        let mut wins = 0;
        let mut elapsed = 0;
        for &dt in chunks {
            let events = battle_tick(&mut state, &mut inv, &mut battle_count, &mut rng, dt);
            wins += count_events(&events, |e| matches!(e, BattleEvent::BattleWon));
            elapsed += dt;
            if elapsed < 2000 {
                assert_eq!(wins, 0);
            }
        }
        assert_eq!(elapsed, 2000);
        assert_eq!(wins, 1);
        assert!(state.enemy.is_none());
        assert_eq!(battle_count.0, 2);
    }
}

#[test]
fn scenario_last_minion_death_ends_the_run_once() {
    // A single minion is slain: the count reaches zero, game-over fires
    // exactly once, and no enemy target draw happens afterwards.
    let mut rng = StdRng::seed_from_u64(19);
    let mut inv = InventoryItems::new();
    let mut battle_count = BattleCount(3);
    let mut state = battle(vec![minion(stats(5_000_000, 0, 1, 0))],
        enemy(stats(1_000_000_000, 0, 1000, 5_000_000), vec![]));
    let events = battle_tick(&mut state, &mut inv, &mut battle_count, &mut rng, 1000);
    assert_eq!(count_events(&events, |e| matches!(e, BattleEvent::GameOver)), 1);
    assert_eq!(count_events(&events, |e| matches!(e, BattleEvent::MinionDied)), 1);
    assert_eq!(state.minion_count.0, 0);
    assert!(state.enemy.is_none());
    assert_eq!(battle_count.0, 3);
    // The battlefield is idle now: another tick draws no target and emits
    // nothing.
    let later = battle_tick(&mut state, &mut inv, &mut battle_count, &mut rng, 1000);
    assert!(later.is_empty());
}

#[test]
fn mutual_kill_grants_the_win_before_the_run_ends() {
    // Lethal damage lands both ways in one tick: the enemy's death is
    // resolved first (rewards and counter), then the empty lineup ends the
    // run.
    let mut rng = StdRng::seed_from_u64(23);
    let mut inv = InventoryItems::new();
    let mut battle_count = BattleCount(2);
    let reward = SummoningItem { item_type: SummoningItemType::Speed, tier: 1, quantity: 1 };
    let mut state = battle(vec![minion(stats(5_000_000, 0, 1000, 7_000_000))],
        enemy(stats(7_000_000, 0, 1000, 5_000_000), vec![reward]));
    let events = battle_tick(&mut state, &mut inv, &mut battle_count, &mut rng, 1000);
    assert_eq!(count_events(&events, |e| matches!(e, BattleEvent::BattleWon)), 1);
    assert_eq!(count_events(&events, |e| matches!(e, BattleEvent::GameOver)), 1);
    assert_eq!(battle_count.0, 3);
    assert_eq!(inv.0.len(), 1);
    assert!(state.enemy.is_none());
    assert_eq!(state.minion_count.0, 0);
}

#[test]
fn regeneration_heals_during_the_tick() {
    // 2 hit points per second of regeneration over 500 ms heals exactly 1.
    let mut rng = StdRng::seed_from_u64(29);
    let mut inv = InventoryItems::new();
    let mut battle_count = BattleCount(1);
    let mut hurt = stats(10_000_000, 2_000, 1, 0);
    hurt.current_hp = 4_000_000;
    let mut state = battle(vec![minion(hurt)], enemy(stats(1_000_000_000, 0, 1, 0), vec![]));
    battle_tick(&mut state, &mut inv, &mut battle_count, &mut rng, 500);
    assert_eq!(state.minions[0].stats.current_hp, 5_000_000);
}

#[test]
fn repeated_regeneration_never_exceeds_the_maximum() {
    // A huge regeneration rate clamps at max_hp, tick after tick.
    let mut rng = StdRng::seed_from_u64(31);
    let mut inv = InventoryItems::new();
    let mut battle_count = BattleCount(1);
    let mut hurt = stats(50_000_000, 1_000_000_000, 1, 0);
    hurt.current_hp = 1;
    let mut state = battle(vec![minion(hurt)], enemy(stats(1_000_000_000, 0, 1, 0), vec![]));
    for _ in 0..5 {
        battle_tick(&mut state, &mut inv, &mut battle_count, &mut rng, 1000);
        assert_eq!(state.minions[0].stats.current_hp, 50_000_000);
    }
}

#[test]
fn dead_minions_leave_and_the_count_drops_once_each() {
    let mut dead = stats(10_000_000, 0, 1000, 0);
    dead.current_hp = 0;
    let mut state = battle(
        vec![minion(stats(10_000_000, 0, 1000, 0)), minion(dead), minion(dead)],
        enemy(stats(1_000_000_000, 0, 1000, 0), vec![]),
    );
    state.minion_count = MinionCount(3);
    let events = handle_minion_dead(&mut state);
    assert_eq!(state.minions.len(), 1);
    assert_eq!(state.minion_count.0, 1);
    assert_eq!(events.len(), 2);
    assert!(events.iter().all(|e| matches!(e, BattleEvent::MinionDied)));
    // A survivor remains, so the enemy stays and no game-over fires.
    assert!(state.enemy.is_some());
}

#[test]
fn same_seed_replays_the_same_battle() {
    let run = |seed: u64| -> (Vec<BattleEvent>, u64, usize) {
        let mut rng = StdRng::seed_from_u64(seed);
        let mut inv = InventoryItems::new();
        let mut battle_count = BattleCount(4);
        let mut state = battle(
            vec![minion(stats(40_000_000, 0, 900, 3_000_000)),
                 minion(stats(35_000_000, 1_000, 1300, 2_000_000))],
            enemy(stats(120_000_000, 2_000, 1100, 9_000_000), vec![]),
        );
        let mut all = Vec::new();
        for _ in 0..10 {
            all.extend(battle_tick(&mut state, &mut inv, &mut battle_count, &mut rng, 333));
        }
        let hp = state.minions.get(0).map(|m| m.stats.current_hp).unwrap_or(0);
        (all, hp, state.minion_count.0)
    };
    let a = run(99);
    let b = run(99);
    assert_eq!(a.0, b.0);
    assert_eq!(a.1, b.1);
    assert_eq!(a.2, b.2);
}

#[test]
fn idle_tick_without_an_enemy_is_a_no_op() {
    let mut rng = StdRng::seed_from_u64(37);
    let mut state = BattleState {
        minions: vec![minion(stats(10_000_000, 1_000_000, 1000, 1))],
        enemy: None,
        minion_count: MinionCount(1),
    };
    let events = update_battle(&mut state, &mut rng, 1000);
    assert!(events.is_empty());
    assert_eq!(state.minions[0].participant.turn_accumulator, 0);
    assert_eq!(state.minions[0].stats.current_hp, 10_000_000);
}

#[test]
fn turn_threshold_is_one_million_microturns() {
    assert_eq!(TURN_THRESHOLD, 1_000_000);
}
