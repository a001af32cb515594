//! The battle scheduler and outcome resolver: per-combatant turn
//! accumulators drive attacks at independent speed-derived rates; deaths,
//! rewards and the win/lose transitions are resolved strictly afterwards.

use vstd::prelude::*;
use vstd::arithmetic::div_mod::{
    lemma_basic_div, lemma_fundamental_div_mod, lemma_fundamental_div_mod_converse_div,
    lemma_fundamental_div_mod_converse_mod, lemma_hoist_over_denominator,
    lemma_mod_division_less_than_divisor,
};
use vstd::arithmetic::mul::lemma_mul_is_distributive_add;
use crate::rng::draw_index;
use crate::statistics::BattleCount;
use crate::stats::{regenerated, Stats, DT_LIMIT, SPEED_LIMIT};
use crate::summoning::{
    merged_all, total_quantity, InventoryItems, SummoningItem, MAX_ITEM_COUNT,
};

verus! {

/// Banked micro-turns that make one full turn (one attack).
pub const TURN_THRESHOLD: u64 = 1_000_000;

/// Per-combatant banked time toward its next action, in micro-turns.
#[derive(Clone, Copy, Debug)]
pub struct BattleParticipant {
    /// Micro-turns banked so far; strictly below `TURN_THRESHOLD` between ticks.
    pub turn_accumulator: u64,
}

impl BattleParticipant {
    /// A fresh participant with nothing banked.
    pub fn new() -> (r: BattleParticipant)
        ensures
            r.turn_accumulator == 0,
    {
        BattleParticipant { turn_accumulator: 0 }
    }

    /// Between ticks the accumulator holds strictly less than one full turn.
    pub open spec fn wf(self) -> bool {
        self.turn_accumulator < TURN_THRESHOLD
    }
}

/// A minion standing in the player's lineup.
#[derive(Clone, Copy, Debug)]
pub struct Minion {
    /// The minion's numeric attributes.
    pub stats: Stats,
    /// The minion's banked turn time.
    pub participant: BattleParticipant,
}

impl Minion {
    /// Stats within limits and accumulator below one turn.
    pub open spec fn wf(self) -> bool {
        self.stats.wf() && self.participant.wf()
    }
}

/// The items an enemy drops when it dies, fixed at generation time.
#[derive(Clone, Debug)]
pub struct DropRewards(pub Vec<SummoningItem>);

/// The single opposing combatant of the current battle.
#[derive(Clone, Debug)]
pub struct Enemy {
    /// The enemy's numeric attributes.
    pub stats: Stats,
    /// The enemy's banked turn time.
    pub participant: BattleParticipant,
    /// What it drops when it dies.
    pub rewards: DropRewards,
}

impl Enemy {
    /// Stats within limits, accumulator below one turn, rewards well formed.
    pub open spec fn wf(self) -> bool {
        &&& self.stats.wf()
        &&& self.participant.wf()
        &&& forall|i: int| 0 <= i < self.rewards.0@.len() ==> (#[trigger] self.rewards.0@[i]).wf()
    }
}

/// Authoritative count of living minions, tracked separately from the
/// lineup so that removals decrement it exactly once each.
#[derive(Clone, Copy, Debug)]
pub struct MinionCount(pub usize);

/// Everything that exists only while a battle runs.
pub struct BattleState {
    /// The player's lineup, in position order.
    pub minions: Vec<Minion>,
    /// The single enemy, absent between battles.
    pub enemy: Option<Enemy>,
    /// Count of living minions; bounds the enemy's random target draw.
    pub minion_count: MinionCount,
}

/// A data signal produced by the battle core for the presentation layer,
/// timed exactly at the tick where the underlying state change occurred.
#[derive(Clone, Copy, Debug, PartialEq, Eq, Structural)]
pub enum BattleEvent {
    /// The minion at this lineup index landed one attack on the enemy.
    MinionAttack {
        /// Lineup index of the attacker.
        attacker: usize,
    },
    /// The enemy landed one attack on the minion at this lineup index.
    EnemyAttack {
        /// Lineup index of the victim.
        target: usize,
    },
    /// One minion died and left the lineup.
    MinionDied,
    /// The enemy died.
    EnemyDied,
    /// The battle was won.
    BattleWon,
    /// The last minion died and the run ended.
    GameOver,
}

impl BattleState {
    /// The invariant that holds at every phase boundary: the tracked count
    /// matches the lineup, every combatant's numbers are within limits, and
    /// an enemy only ever faces a nonempty lineup.
    pub open spec fn consistent(self) -> bool {
        &&& self.minion_count.0 == self.minions@.len()
        &&& forall|j: int| 0 <= j < self.minions@.len() ==> (#[trigger] self.minions@[j]).wf()
        &&& self.enemy matches Some(e) ==> e.wf()
        &&& self.enemy is Some ==> self.minion_count.0 >= 1
    }

    /// Additionally, every combatant is alive; true between full ticks.
    pub open spec fn all_alive(self) -> bool {
        &&& forall|j: int|
            0 <= j < self.minions@.len() ==> (#[trigger] self.minions@[j]).stats.current_hp > 0
        &&& self.enemy matches Some(e) ==> e.stats.current_hp > 0
    }

    /// An empty battlefield: no minions, no enemy.
    pub fn new() -> (r: BattleState)
        ensures
            r.minions@.len() == 0,
            r.enemy is None,
            r.minion_count.0 == 0,
            r.consistent(),
            r.all_alive(),
    {
        BattleState { minions: Vec::new(), enemy: None, minion_count: MinionCount(0) }
    }
}

/// How many full turns a combatant with the given accumulator and speed
/// banks over a tick of length `dt`.
pub open spec fn banked_turns(acc: int, speed: int, dt: int) -> int {
    (acc + speed * dt) / (TURN_THRESHOLD as int)
}

/// What remains in the accumulator after those turns are spent.
pub open spec fn leftover_acc(acc: int, speed: int, dt: int) -> int {
    (acc + speed * dt) % (TURN_THRESHOLD as int)
}

/// Subtraction on hit points: clamped at zero, never negative.
pub open spec fn sat_sub(a: int, b: int) -> int {
    if b >= a {
        0
    } else {
        a - b
    }
}

/// Advance one participant's accumulator by `dt` and withdraw every banked
/// full turn: the turn count is exactly `floor((acc + speed * dt) /
/// TURN_THRESHOLD)` and the fractional overshoot is kept, never reset.
pub fn drain_turns(p: &mut BattleParticipant, speed: u64, dt: u64) -> (turns: u64)
    requires
        old(p).wf(),
        1 <= speed <= SPEED_LIMIT,
        dt <= DT_LIMIT,
    ensures
        turns == banked_turns(old(p).turn_accumulator as int, speed as int, dt as int),
        final(p).turn_accumulator == leftover_acc(
            old(p).turn_accumulator as int,
            speed as int,
            dt as int,
        ),
        final(p).wf(),
{
    proof {
        assert(speed * dt <= SPEED_LIMIT * DT_LIMIT) by (nonlinear_arith)
            requires
                1 <= speed <= SPEED_LIMIT,
                0 <= dt <= DT_LIMIT,
        ;
    }
    let total = p.turn_accumulator + speed * dt;
    let mut acc = total;
    let mut turns: u64 = 0;
    while acc >= TURN_THRESHOLD
        invariant
            acc + turns * TURN_THRESHOLD == total,
            total <= TURN_THRESHOLD + SPEED_LIMIT * DT_LIMIT,
        decreases acc,
    {
        acc = acc - TURN_THRESHOLD;
        turns = turns + 1;
    }
    p.turn_accumulator = acc;
    proof {
        lemma_fundamental_div_mod_converse_div(
            total as int,
            TURN_THRESHOLD as int,
            turns as int,
            acc as int,
        );
        lemma_fundamental_div_mod_converse_mod(
            total as int,
            TURN_THRESHOLD as int,
            turns as int,
            acc as int,
        );
    }
    turns
}

/// Clamped damage application: `hp` drops by `dmg`, never below zero.
pub fn apply_damage(hp: u64, dmg: u64) -> (r: u64)
    ensures
        r == sat_sub(hp as int, dmg as int),
{
    if dmg >= hp {
        0
    } else {
        hp - dmg
    }
}

/// Losing `b` then `c` hit points is losing `b + c`, under the zero clamp.
proof fn lemma_sat_sub_twice(a: int, b: int, c: int)
    requires
        0 <= b,
        0 <= c,
    ensures
        sat_sub(sat_sub(a, b), c) == sat_sub(a, b + c),
{
}

/// How many attacks the minion at lineup index `j` has emitted in `es`.
pub open spec fn minion_attacks_by(es: Seq<BattleEvent>, j: int) -> int
    decreases es.len(),
{
    if es.len() == 0 {
        0
    } else {
        minion_attacks_by(es.drop_last(), j) + if es.last() matches BattleEvent::MinionAttack {
            attacker,
        } && attacker == j {
            1int
        } else {
            0int
        }
    }
}

/// How many enemy attacks in `es` hit the minion at lineup index `j`.
pub open spec fn enemy_attacks_on(es: Seq<BattleEvent>, j: int) -> int
    decreases es.len(),
{
    if es.len() == 0 {
        0
    } else {
        enemy_attacks_on(es.drop_last(), j) + if es.last() matches BattleEvent::EnemyAttack {
            target,
        } && target == j {
            1int
        } else {
            0int
        }
    }
}

/// Appending one event raises exactly the matching attack tallies by one.
proof fn lemma_attack_counts_push(es: Seq<BattleEvent>, e: BattleEvent, j: int)
    ensures
        minion_attacks_by(es.push(e), j) == minion_attacks_by(es, j) + if e
            matches BattleEvent::MinionAttack { attacker } && attacker == j {
            1int
        } else {
            0int
        },
        enemy_attacks_on(es.push(e), j) == enemy_attacks_on(es, j) + if e
            matches BattleEvent::EnemyAttack { target } && target == j {
            1int
        } else {
            0int
        },
{
    assert(es.push(e).drop_last() =~= es);
    assert(es.push(e).last() == e);
}

/// Total damage the first `upto` minions land on the enemy over one tick of
/// length `dt`: each lands its banked turn count times its damage.
pub open spec fn minion_damage_total(ms: Seq<Minion>, dt: int, upto: int) -> int
    decreases upto,
{
    if upto <= 0 {
        0
    } else {
        minion_damage_total(ms, dt, upto - 1) + banked_turns(
            ms[upto - 1].participant.turn_accumulator as int,
            ms[upto - 1].stats.speed as int,
            dt,
        ) * ms[upto - 1].stats.damage as int
    }
}

/// Banked turn counts, and hence damage totals, are never negative.
proof fn lemma_minion_damage_total_nonneg(ms: Seq<Minion>, dt: int, upto: int)
    requires
        0 <= dt,
        upto <= ms.len(),
        forall|j: int| 0 <= j < ms.len() ==> (#[trigger] ms[j]).wf(),
    ensures
        0 <= minion_damage_total(ms, dt, upto),
    decreases upto,
{
    if upto > 0 {
        lemma_minion_damage_total_nonneg(ms, dt, upto - 1);
        let m = ms[upto - 1];
        let acc = m.participant.turn_accumulator as int;
        let speed = m.stats.speed as int;
        assert(0 <= acc + speed * dt) by (nonlinear_arith)
            requires
                0 <= acc,
                0 <= speed,
                0 <= dt,
        ;
        assert(0 <= banked_turns(acc, speed, dt)) by {
            vstd::arithmetic::div_mod::lemma_div_pos_is_pos(
                acc + speed * dt,
                TURN_THRESHOLD as int,
            );
        }
        assert(0 <= banked_turns(acc, speed, dt) * m.stats.damage as int) by (nonlinear_arith)
            requires
                0 <= banked_turns(acc, speed, dt),
                0 <= m.stats.damage as int,
        ;
    }
}

/// The minion half of one scheduler tick: every minion banks `dt` and lands
/// every turn it can afford, each attack striking the enemy at once; the
/// returned events are one `MinionAttack` per landed attack.
#[verifier::loop_isolation(false)]
pub fn minion_phase(minions: &mut Vec<Minion>, enemy_stats: &mut Stats, dt: u64) -> (events: Vec<
    BattleEvent,
>)
    requires
        forall|j: int| 0 <= j < old(minions)@.len() ==> (#[trigger] old(minions)@[j]).wf(),
        old(enemy_stats).wf(),
        dt <= DT_LIMIT,
    ensures
        final(minions)@.len() == old(minions)@.len(),
        forall|j: int|
            0 <= j < old(minions)@.len() ==> {
                &&& (#[trigger] final(minions)@[j]).stats == old(minions)@[j].stats
                &&& final(minions)@[j].participant.turn_accumulator == leftover_acc(
                    old(minions)@[j].participant.turn_accumulator as int,
                    old(minions)@[j].stats.speed as int,
                    dt as int,
                )
                &&& final(minions)@[j].wf()
            },
        *final(enemy_stats) == (Stats {
            current_hp: sat_sub(
                old(enemy_stats).current_hp as int,
                minion_damage_total(old(minions)@, dt as int, old(minions)@.len() as int),
            ) as u64,
            ..*old(enemy_stats)
        }),
        final(enemy_stats).wf(),
        forall|i: int|
            0 <= i < events@.len() ==> ((#[trigger] events@[i]) matches BattleEvent::MinionAttack {
                attacker,
            } && attacker < old(minions)@.len()),
        forall|j: int|
            0 <= j < old(minions)@.len() ==> minion_attacks_by(events@, j) == banked_turns(
                (#[trigger] old(minions)@[j]).participant.turn_accumulator as int,
                old(minions)@[j].stats.speed as int,
                dt as int,
            ),
{
    let ghost orig = minions@;
    let ghost e0 = *enemy_stats;
    let mut events: Vec<BattleEvent> = Vec::new();
    let n = minions.len();
    let mut j: usize = 0;
    while j < n
        invariant
            j <= n,
            n == minions@.len(),
            forall|k: int| j <= k < n ==> #[trigger] minions@[k] == orig[k],
            forall|k: int|
                0 <= k < j ==> {
                    &&& (#[trigger] minions@[k]).stats == orig[k].stats
                    &&& minions@[k].participant.turn_accumulator == leftover_acc(
                        orig[k].participant.turn_accumulator as int,
                        orig[k].stats.speed as int,
                        dt as int,
                    )
                    &&& minions@[k].wf()
                },
            *enemy_stats == (Stats {
                current_hp: sat_sub(
                    e0.current_hp as int,
                    minion_damage_total(orig, dt as int, j as int),
                ) as u64,
                ..e0
            }),
            enemy_stats.wf(),
            forall|i: int|
                0 <= i < events@.len() ==> ((#[trigger] events@[i])
                    matches BattleEvent::MinionAttack { attacker } && attacker < j),
            forall|k: int|
                0 <= k < j ==> minion_attacks_by(events@, k) == banked_turns(
                    (#[trigger] orig[k]).participant.turn_accumulator as int,
                    orig[k].stats.speed as int,
                    dt as int,
                ),
            forall|k: int| #![trigger minion_attacks_by(events@, k)]
                j <= k < n ==> minion_attacks_by(events@, k) == 0,
        decreases n - j,
    {
        let mut m = minions[j];
        let turns = drain_turns(&mut m.participant, m.stats.speed, dt);
        minions.set(j, m);
        let ghost hp_entry = enemy_stats.current_hp;
        let ghost es_entry = events@;
        let dmg = m.stats.damage;
        let mut k: u64 = 0;
        while k < turns
            invariant
                k <= turns,
                *enemy_stats == (Stats {
                    current_hp: sat_sub(hp_entry as int, k as int * dmg as int) as u64,
                    ..e0
                }),
                events@.len() == es_entry.len() + k,
                forall|i: int|
                    0 <= i < events@.len() ==> ((#[trigger] events@[i])
                        matches BattleEvent::MinionAttack { attacker } && attacker < j + 1),
                forall|idx: int| #![trigger minion_attacks_by(events@, idx)]
                    minion_attacks_by(events@, idx) == minion_attacks_by(es_entry, idx) + if idx
                        == j {
                        k as int
                    } else {
                        0int
                    },
            decreases turns - k,
        {
            proof {
                assert(0 <= k as int * dmg as int) by (nonlinear_arith)
                    requires
                        0 <= k,
                        0 <= dmg,
                ;
                lemma_sat_sub_twice(hp_entry as int, k as int * dmg as int, dmg as int);
                assert((k as int + 1) * dmg as int == k as int * dmg as int + dmg as int)
                    by (nonlinear_arith);
            }
            enemy_stats.current_hp = apply_damage(enemy_stats.current_hp, dmg);
            let ghost es_before = events@;
            events.push(BattleEvent::MinionAttack { attacker: j });
            proof {
                assert forall|idx: int| #![trigger minion_attacks_by(events@, idx)]
                    minion_attacks_by(events@, idx) == minion_attacks_by(es_before, idx) + if idx
                        == j {
                        1int
                    } else {
                        0int
                    } by {
                    lemma_attack_counts_push(
                        es_before,
                        BattleEvent::MinionAttack { attacker: j },
                        idx,
                    );
                }
            }
            k = k + 1;
        }
        proof {
            let tj = minion_damage_total(orig, dt as int, j as int);
            lemma_minion_damage_total_nonneg(orig, dt as int, j as int);
            assert(0 <= turns as int * dmg as int) by (nonlinear_arith)
                requires
                    0 <= turns,
                    0 <= dmg,
            ;
            assert(0 <= sat_sub(e0.current_hp as int, tj) <= e0.current_hp as int);
            assert(hp_entry as int == sat_sub(e0.current_hp as int, tj));
            lemma_sat_sub_twice(e0.current_hp as int, tj, turns as int * dmg as int);
            assert(minion_damage_total(orig, dt as int, j as int + 1) == tj + turns as int
                * dmg as int);
            assert(*enemy_stats == (Stats {
                current_hp: sat_sub(
                    e0.current_hp as int,
                    minion_damage_total(orig, dt as int, j as int + 1),
                ) as u64,
                ..e0
            }));
            assert forall|k2: int| 0 <= k2 < j + 1 implies minion_attacks_by(events@, k2)
                == banked_turns(
                orig[k2].participant.turn_accumulator as int,
                orig[k2].stats.speed as int,
                dt as int,
            ) by {
                if k2 == j {
                    assert(minion_attacks_by(events@, k2) == minion_attacks_by(es_entry, k2)
                        + turns as int);
                    assert(minion_attacks_by(es_entry, k2) == 0);
                } else {
                    assert(minion_attacks_by(events@, k2) == minion_attacks_by(es_entry, k2));
                }
            }
        }
        j += 1;
    }
    events
}

/// Attack tallies are counts, hence never negative.
proof fn lemma_attack_counts_nonneg(es: Seq<BattleEvent>, j: int)
    ensures
        0 <= minion_attacks_by(es, j),
        0 <= enemy_attacks_on(es, j),
    decreases es.len(),
{
    if es.len() > 0 {
        lemma_attack_counts_nonneg(es.drop_last(), j);
    }
}

/// Attack tallies distribute over concatenation of event lists.
proof fn lemma_attack_counts_concat(a: Seq<BattleEvent>, b: Seq<BattleEvent>, j: int)
    ensures
        minion_attacks_by(a + b, j) == minion_attacks_by(a, j) + minion_attacks_by(b, j),
        enemy_attacks_on(a + b, j) == enemy_attacks_on(a, j) + enemy_attacks_on(b, j),
    decreases b.len(),
{
    if b.len() == 0 {
        assert(a + b =~= a);
    } else {
        assert((a + b).drop_last() =~= a + b.drop_last());
        assert((a + b).last() == b.last());
        lemma_attack_counts_concat(a, b.drop_last(), j);
    }
}

/// A list of nothing but enemy attacks tallies no minion attacks, and the
/// other way round.
proof fn lemma_attack_counts_disjoint(es: Seq<BattleEvent>, j: int)
    ensures
        (forall|i: int|
            0 <= i < es.len() ==> (#[trigger] es[i]) is EnemyAttack) ==> minion_attacks_by(es, j)
            == 0,
        (forall|i: int|
            0 <= i < es.len() ==> (#[trigger] es[i]) is MinionAttack) ==> enemy_attacks_on(es, j)
            == 0,
    decreases es.len(),
{
    if es.len() > 0 {
        lemma_attack_counts_disjoint(es.drop_last(), j);
        assert(forall|i: int|
            0 <= i < es.drop_last().len() ==> #[trigger] es.drop_last()[i] == es[i]);
        assert(es.last() == es[es.len() - 1]);
    }
}

/// The enemy half of one scheduler tick: the enemy banks `dt` and, for each
/// banked turn, strikes one randomly drawn minion; the draw is bounded by
/// the tracked minion count, never by the raw lineup length.
#[verifier::loop_isolation(false)]
pub fn enemy_phase(
    minions: &mut Vec<Minion>,
    enemy: &mut Enemy,
    minion_count: usize,
    rng: &mut rand::rngs::StdRng,
    dt: u64,
) -> (events: Vec<BattleEvent>)
    requires
        forall|j: int| 0 <= j < old(minions)@.len() ==> (#[trigger] old(minions)@[j]).wf(),
        old(enemy).wf(),
        1 <= minion_count <= old(minions)@.len(),
        dt <= DT_LIMIT,
    ensures
        final(enemy).stats == old(enemy).stats,
        final(enemy).rewards == old(enemy).rewards,
        final(enemy).participant.turn_accumulator == leftover_acc(
            old(enemy).participant.turn_accumulator as int,
            old(enemy).stats.speed as int,
            dt as int,
        ),
        final(enemy).wf(),
        events@.len() == banked_turns(
            old(enemy).participant.turn_accumulator as int,
            old(enemy).stats.speed as int,
            dt as int,
        ),
        forall|i: int|
            0 <= i < events@.len() ==> ((#[trigger] events@[i]) matches BattleEvent::EnemyAttack {
                target,
            } && target < minion_count),
        final(minions)@.len() == old(minions)@.len(),
        forall|j: int|
            0 <= j < old(minions)@.len() ==> {
                &&& (#[trigger] final(minions)@[j]).participant == old(minions)@[j].participant
                &&& final(minions)@[j].stats == (Stats {
                    current_hp: sat_sub(
                        old(minions)@[j].stats.current_hp as int,
                        old(enemy).stats.damage as int * enemy_attacks_on(events@, j),
                    ) as u64,
                    ..old(minions)@[j].stats
                })
                &&& final(minions)@[j].wf()
            },
{
    let ghost orig = minions@;
    let mut events: Vec<BattleEvent> = Vec::new();
    let turns = drain_turns(&mut enemy.participant, enemy.stats.speed, dt);
    let dmg = enemy.stats.damage;
    proof {
        assert(forall|j: int| #![trigger enemy_attacks_on(events@, j)]
            enemy_attacks_on(events@, j) == 0);
    }
    let mut k: u64 = 0;
    while k < turns
        invariant
            k <= turns,
            minions@.len() == orig.len(),
            minion_count <= orig.len(),
            events@.len() == k,
            forall|i: int|
                0 <= i < events@.len() ==> ((#[trigger] events@[i])
                    matches BattleEvent::EnemyAttack { target } && target < minion_count),
            forall|j: int|
                0 <= j < orig.len() ==> {
                    &&& (#[trigger] minions@[j]).participant == orig[j].participant
                    &&& minions@[j].stats == (Stats {
                        current_hp: sat_sub(
                            orig[j].stats.current_hp as int,
                            dmg as int * enemy_attacks_on(events@, j),
                        ) as u64,
                        ..orig[j].stats
                    })
                    &&& minions@[j].wf()
                },
        decreases turns - k,
    {
        let t = draw_index(rng, minion_count);
        let mut victim = minions[t];
        proof {
            lemma_attack_counts_nonneg(events@, t as int);
            assert(0 <= dmg as int * enemy_attacks_on(events@, t as int)) by (nonlinear_arith)
                requires
                    0 <= dmg,
                    0 <= enemy_attacks_on(events@, t as int),
            ;
        }
        victim.stats.current_hp = apply_damage(victim.stats.current_hp, dmg);
        minions.set(t, victim);
        let ghost es_before = events@;
        events.push(BattleEvent::EnemyAttack { target: t });
        proof {
            assert forall|idx: int| #![trigger enemy_attacks_on(events@, idx)]
                enemy_attacks_on(events@, idx) == enemy_attacks_on(es_before, idx) + if idx
                    == t {
                    1int
                } else {
                    0int
                } by {
                lemma_attack_counts_push(es_before, BattleEvent::EnemyAttack { target: t }, idx);
            }
            assert forall|j: int|
                0 <= j < orig.len() implies (#[trigger] minions@[j]).stats == (Stats {
                    current_hp: sat_sub(
                        orig[j].stats.current_hp as int,
                        dmg as int * enemy_attacks_on(events@, j),
                    ) as u64,
                    ..orig[j].stats
                }) by {
                let c = enemy_attacks_on(es_before, j);
                lemma_attack_counts_nonneg(es_before, j);
                if j == t {
                    assert(0 <= dmg as int * c) by (nonlinear_arith)
                        requires
                            0 <= dmg,
                            0 <= c,
                    ;
                    assert(0 <= sat_sub(orig[j].stats.current_hp as int, dmg as int * c)
                        <= orig[j].stats.current_hp as int);
                    lemma_sat_sub_twice(orig[j].stats.current_hp as int, dmg as int * c, dmg as int);
                    assert(dmg as int * (c + 1) == dmg as int * c + dmg as int)
                        by (nonlinear_arith);
                }
            }
        }
        k = k + 1;
    }
    events
}

/// One full scheduler tick. With no enemy the tick is a no-op — the normal
/// inter-battle idle state, not an error. Otherwise every minion's banked
/// turns land on the enemy first, and only then does the enemy take its own
/// banked turns, each against one randomly drawn minion; this ordering is
/// fixed and observable in the returned event list.
pub fn update_battle(state: &mut BattleState, rng: &mut rand::rngs::StdRng, dt: u64) -> (events:
    Vec<BattleEvent>)
    requires
        old(state).consistent(),
        dt <= DT_LIMIT,
    ensures
        final(state).consistent(),
        final(state).minion_count == old(state).minion_count,
        final(state).minions@.len() == old(state).minions@.len(),
        old(state).enemy is None ==> final(state).minions@ == old(state).minions@
            && final(state).enemy is None && events@.len() == 0,
        old(state).enemy matches Some(e0) ==> {
            &&& final(state).enemy matches Some(e1) && {
                &&& e1.stats == (Stats {
                    current_hp: sat_sub(
                        e0.stats.current_hp as int,
                        minion_damage_total(
                            old(state).minions@,
                            dt as int,
                            old(state).minions@.len() as int,
                        ),
                    ) as u64,
                    ..e0.stats
                })
                &&& e1.rewards == e0.rewards
                &&& e1.participant.turn_accumulator == leftover_acc(
                    e0.participant.turn_accumulator as int,
                    e0.stats.speed as int,
                    dt as int,
                )
            }
            &&& forall|j: int|
                0 <= j < old(state).minions@.len() ==> {
                    &&& (#[trigger] final(state).minions@[j]).stats == (Stats {
                        current_hp: sat_sub(
                            old(state).minions@[j].stats.current_hp as int,
                            e0.stats.damage as int * enemy_attacks_on(events@, j),
                        ) as u64,
                        ..old(state).minions@[j].stats
                    })
                    &&& final(state).minions@[j].participant.turn_accumulator == leftover_acc(
                        old(state).minions@[j].participant.turn_accumulator as int,
                        old(state).minions@[j].stats.speed as int,
                        dt as int,
                    )
                }
            &&& forall|j: int|
                0 <= j < old(state).minions@.len() ==> minion_attacks_by(events@, j)
                    == banked_turns(
                    (#[trigger] old(state).minions@[j]).participant.turn_accumulator as int,
                    old(state).minions@[j].stats.speed as int,
                    dt as int,
                )
            &&& forall|i: int|
                0 <= i < events@.len() ==> ((#[trigger] events@[i]) is MinionAttack
                    || events@[i] is EnemyAttack)
            &&& forall|i: int|
                0 <= i < events@.len() ==> ((#[trigger] events@[i])
                    matches BattleEvent::EnemyAttack { target } ==> target
                    < old(state).minion_count.0)
            &&& forall|i1: int, i2: int|
                0 <= i1 < i2 < events@.len() && (#[trigger] events@[i1]) is EnemyAttack ==> (
                #[trigger] events@[i2]) is EnemyAttack
        },
{
    if state.enemy.is_none() {
        return Vec::new();
    }
    let ghost orig_minions = state.minions@;
    let mut e = state.enemy.take().unwrap();
    let mut events = minion_phase(&mut state.minions, &mut e.stats, dt);
    let ghost es1 = events@;
    let mut tail_events = enemy_phase(&mut state.minions, &mut e, state.minion_count.0, rng, dt);
    let ghost es2 = tail_events@;
    events.append(&mut tail_events);
    state.enemy = Some(e);
    proof {
        assert(events@ =~= es1 + es2);
        assert(forall|i: int| 0 <= i < es1.len() ==> (#[trigger] es1[i]) is MinionAttack);
        assert(forall|i: int| 0 <= i < es2.len() ==> (#[trigger] es2[i]) is EnemyAttack);
        assert forall|j: int| #![trigger enemy_attacks_on(events@, j)]
            enemy_attacks_on(events@, j) == enemy_attacks_on(es2, j) by {
            lemma_attack_counts_concat(es1, es2, j);
            lemma_attack_counts_disjoint(es1, j);
        }
        assert forall|j: int| #![trigger minion_attacks_by(events@, j)]
            minion_attacks_by(events@, j) == minion_attacks_by(es1, j) by {
            lemma_attack_counts_concat(es1, es2, j);
            lemma_attack_counts_disjoint(es2, j);
        }
    }
    events
}

/// An element of a concatenation comes from one side or the other.
proof fn lemma_contains_concat(a: Seq<BattleEvent>, b: Seq<BattleEvent>, x: BattleEvent)
    ensures
        (a + b).contains(x) <==> (a.contains(x) || b.contains(x)),
{
    if a.contains(x) {
        let i = choose|i: int| 0 <= i < a.len() && a[i] == x;
        assert((a + b)[i] == x);
    }
    if b.contains(x) {
        let i = choose|i: int| 0 <= i < b.len() && b[i] == x;
        assert((a + b)[a.len() + i] == x);
    }
    if (a + b).contains(x) {
        let i = choose|i: int| 0 <= i < (a + b).len() && (a + b)[i] == x;
        if i < a.len() {
            assert(a[i] == x);
        } else {
            assert(b[i - a.len()] == x);
        }
    }
}

/// Resolve an enemy death: once the enemy's hit points are exhausted, its
/// drop rewards merge into the inventory, the battle counter advances, the
/// enemy is removed, and the enemy-died and battle-won signals fire — all
/// atomically, in this one call. A living or absent enemy changes nothing.
pub fn handle_enemy_dead(
    state: &mut BattleState,
    inventory: &mut InventoryItems,
    battle_count: &mut BattleCount,
) -> (events: Vec<BattleEvent>)
    requires
        old(state).consistent(),
        old(battle_count).0 < usize::MAX,
        old(state).enemy matches Some(e) ==> total_quantity(old(inventory)@) + total_quantity(
            e.rewards.0@,
        ) <= usize::MAX,
    ensures
        final(state).consistent(),
        final(state).minions@ == old(state).minions@,
        final(state).minion_count == old(state).minion_count,
        old(state).enemy is None ==> final(state).enemy is None
            && final(inventory)@ == old(inventory)@
            && final(battle_count).0 == old(battle_count).0 && events@.len() == 0,
        old(state).enemy matches Some(e) ==> {
            &&& e.stats.current_hp > 0 ==> final(state).enemy == old(state).enemy
                && final(inventory)@ == old(inventory)@
                && final(battle_count).0 == old(battle_count).0 && events@.len() == 0
            &&& e.stats.current_hp == 0 ==> {
                &&& final(state).enemy is None
                &&& final(inventory)@ == merged_all(
                    old(inventory)@,
                    e.rewards.0@,
                    MAX_ITEM_COUNT as int,
                )
                &&& final(battle_count).0 == old(battle_count).0 + 1
                &&& events@ =~= seq![BattleEvent::EnemyDied, BattleEvent::BattleWon]
            }
        },
        events@.contains(BattleEvent::BattleWon) <==> (old(state).enemy matches Some(e)
            && e.stats.current_hp == 0),
{
    if state.enemy.is_none() {
        let events: Vec<BattleEvent> = Vec::new();
        proof {
            assert(!events@.contains(BattleEvent::BattleWon));
        }
        return events;
    }
    let alive = match &state.enemy {
        Some(e) => e.stats.current_hp > 0,
        None => true,
    };
    if alive {
        let events: Vec<BattleEvent> = Vec::new();
        proof {
            assert(!events@.contains(BattleEvent::BattleWon));
        }
        return events;
    }
    let e = state.enemy.take().unwrap();
    inventory.merge_all(&e.rewards.0);
    battle_count.0 = battle_count.0 + 1;
    let mut events: Vec<BattleEvent> = Vec::new();
    events.push(BattleEvent::EnemyDied);
    events.push(BattleEvent::BattleWon);
    proof {
        assert(events@[1] == BattleEvent::BattleWon);
        assert(events@.contains(BattleEvent::BattleWon));
    }
    events
}

/// The lineup with every fallen minion removed, order kept.
pub open spec fn survivors(ms: Seq<Minion>) -> Seq<Minion>
    decreases ms.len(),
{
    if ms.len() == 0 {
        Seq::empty()
    } else if ms[0].stats.current_hp > 0 {
        seq![ms[0]] + survivors(ms.drop_first())
    } else {
        survivors(ms.drop_first())
    }
}

/// Appending one minion extends the survivor list exactly when it lives.
proof fn lemma_survivors_push(ms: Seq<Minion>, m: Minion)
    ensures
        m.stats.current_hp > 0 ==> survivors(ms.push(m)) == survivors(ms).push(m),
        m.stats.current_hp == 0 ==> survivors(ms.push(m)) == survivors(ms),
    decreases ms.len(),
{
    let ext = ms.push(m);
    if ms.len() == 0 {
        assert(ext[0] == m);
        assert(ext.drop_first() =~= Seq::<Minion>::empty());
        assert(survivors(ext.drop_first()) =~= Seq::<Minion>::empty());
        assert(survivors(ms) =~= Seq::<Minion>::empty());
        if m.stats.current_hp > 0 {
            assert(survivors(ext) =~= seq![m]);
            assert(survivors(ms).push(m) =~= seq![m]);
        }
    } else {
        assert(ext[0] == ms[0]);
        assert(ext.drop_first() =~= ms.drop_first().push(m));
        lemma_survivors_push(ms.drop_first(), m);
        if ms[0].stats.current_hp > 0 {
            if m.stats.current_hp > 0 {
                assert(seq![ms[0]] + survivors(ms.drop_first()).push(m) =~= (seq![ms[0]]
                    + survivors(ms.drop_first())).push(m));
            }
        }
    }
}

/// Every survivor is a live, well-formed member of the lineup it came from.
proof fn lemma_survivors_wf(ms: Seq<Minion>)
    requires
        forall|j: int| 0 <= j < ms.len() ==> (#[trigger] ms[j]).wf(),
    ensures
        survivors(ms).len() <= ms.len(),
        forall|j: int|
            0 <= j < survivors(ms).len() ==> (#[trigger] survivors(ms)[j]).wf() && survivors(
                ms,
            )[j].stats.current_hp > 0,
    decreases ms.len(),
{
    if ms.len() > 0 {
        assert(forall|j: int| 1 <= j < ms.len() ==> #[trigger] ms[j] == ms.drop_first()[j - 1]);
        lemma_survivors_wf(ms.drop_first());
    }
}

/// Resolve minion deaths: every minion with no hit points left is removed,
/// the tracked count dropping exactly once per removal, with one
/// minion-died signal each. If the count reaches zero the enemy (if any) is
/// removed and the game-over signal fires once.
#[verifier::loop_isolation(false)]
pub fn handle_minion_dead(state: &mut BattleState) -> (events: Vec<BattleEvent>)
    requires
        old(state).consistent(),
    ensures
        final(state).consistent(),
        final(state).minions@ == survivors(old(state).minions@),
        final(state).minion_count.0 == survivors(old(state).minions@).len(),
        forall|j: int|
            0 <= j < final(state).minions@.len()
                ==> (#[trigger] final(state).minions@[j]).stats.current_hp > 0,
        survivors(old(state).minions@).len() == 0 && old(state).minions@.len() > 0
            ==> final(state).enemy is None,
        (survivors(old(state).minions@).len() > 0 || old(state).minions@.len() == 0)
            ==> final(state).enemy == old(state).enemy,
        events@.len() == (old(state).minions@.len() - survivors(old(state).minions@).len()) + (
        if survivors(old(state).minions@).len() == 0 && old(state).minions@.len() > 0 {
            1int
        } else {
            0int
        }),
        forall|i: int|
            0 <= i < old(state).minions@.len() - survivors(old(state).minions@).len()
                ==> (#[trigger] events@[i]) == BattleEvent::MinionDied,
        forall|i: int|
            0 <= i < events@.len() ==> ((#[trigger] events@[i]) == BattleEvent::MinionDied
                || events@[i] == BattleEvent::GameOver),
        events@.contains(BattleEvent::GameOver) <==> (survivors(old(state).minions@).len() == 0
            && old(state).minions@.len() > 0),
{
    let ghost orig = state.minions@;
    let ghost surv = survivors(orig);
    let mut events: Vec<BattleEvent> = Vec::new();
    let mut i: usize = 0;
    let ghost mut processed: int = 0;
    proof {
        assert(orig.take(0) =~= Seq::<Minion>::empty());
        assert(orig.skip(0) =~= orig);
        assert(survivors(orig.take(0)) =~= Seq::<Minion>::empty());
    }
    while i < state.minions.len()
        invariant
            0 <= processed <= orig.len(),
            state.minions@ =~= survivors(orig.take(processed)) + orig.skip(processed),
            i == survivors(orig.take(processed)).len(),
            state.minion_count.0 == state.minions@.len(),
            state.enemy == old(state).enemy,
            events@.len() == processed - i,
            forall|k: int| 0 <= k < events@.len() ==> (#[trigger] events@[k])
                == BattleEvent::MinionDied,
        decreases orig.len() - processed,
    {
        proof {
            assert(processed < orig.len());
            assert(state.minions@[i as int] == orig.skip(processed)[0]);
            assert(orig.skip(processed)[0] == orig[processed]);
        }
        let m = state.minions[i];
        proof {
            assert(orig.take(processed + 1) =~= orig.take(processed).push(orig[processed]));
            lemma_survivors_push(orig.take(processed), orig[processed]);
            assert(orig.skip(processed).drop_first() =~= orig.skip(processed + 1));
        }
        if m.stats.current_hp == 0 {
            state.minions.remove(i);
            state.minion_count.0 = state.minion_count.0 - 1;
            events.push(BattleEvent::MinionDied);
            proof {
                assert(state.minions@ =~= survivors(orig.take(processed + 1)) + orig.skip(
                    processed + 1,
                ));
            }
        } else {
            i = i + 1;
            proof {
                assert(state.minions@ =~= survivors(orig.take(processed + 1)) + orig.skip(
                    processed + 1,
                ));
            }
        }
        proof {
            processed = processed + 1;
        }
    }
    proof {
        assert(orig.skip(processed).len() == 0);
        assert(processed == orig.len());
        assert(orig.take(processed) =~= orig);
        assert(state.minions@ =~= survivors(orig));
        lemma_survivors_wf(orig);
    }
    let ghost deaths = orig.len() - surv.len();
    let game_over = state.minion_count.0 == 0 && events.len() > 0;
    if game_over {
        if state.enemy.is_some() {
            state.enemy = None;
        }
        events.push(BattleEvent::GameOver);
        proof {
            assert(events@[deaths as int] == BattleEvent::GameOver);
            assert(events@.contains(BattleEvent::GameOver));
        }
    } else {
        proof {
            assert(forall|k: int|
                0 <= k < events@.len() ==> (#[trigger] events@[k]) == BattleEvent::MinionDied);
            assert(!events@.contains(BattleEvent::GameOver));
        }
    }
    events
}

/// The tick's total minion damage depends only on accumulators, speeds and
/// damage values — all untouched by regeneration.
proof fn lemma_damage_total_same(a: Seq<Minion>, b: Seq<Minion>, dt: int, upto: int)
    requires
        a.len() == b.len(),
        upto <= a.len(),
        forall|j: int|
            0 <= j < a.len() ==> {
                &&& (#[trigger] b[j]).participant.turn_accumulator
                    == a[j].participant.turn_accumulator
                &&& b[j].stats.speed == a[j].stats.speed
                &&& b[j].stats.damage == a[j].stats.damage
            },
    ensures
        minion_damage_total(b, dt, upto) == minion_damage_total(a, dt, upto),
    decreases upto,
{
    if upto > 0 {
        lemma_damage_total_same(a, b, dt, upto - 1);
    }
}

/// Whether this tick finishes the enemy off: after regenerating, its hit
/// points do not survive the total damage the minions bank this tick.
pub open spec fn tick_wins(s: BattleState, dt: int) -> bool {
    s.enemy is Some && sat_sub(
        regenerated(s.enemy.unwrap().stats, dt).current_hp as int,
        minion_damage_total(s.minions@, dt, s.minions@.len() as int),
    ) == 0
}

/// One complete simulation tick: regeneration, then the scheduler, then
/// death resolution — enemy death strictly before minion deaths, so a
/// mutual kill in one tick grants the win and its rewards before the
/// empty lineup ends the run. With no enemy the whole tick is a no-op.
#[verifier::loop_isolation(false)]
pub fn battle_tick(
    state: &mut BattleState,
    inventory: &mut InventoryItems,
    battle_count: &mut BattleCount,
    rng: &mut rand::rngs::StdRng,
    dt: u64,
) -> (events: Vec<BattleEvent>)
    requires
        old(state).consistent(),
        old(state).all_alive(),
        dt <= DT_LIMIT,
        old(battle_count).0 < usize::MAX,
        old(state).enemy matches Some(e) ==> total_quantity(old(inventory)@) + total_quantity(
            e.rewards.0@,
        ) <= usize::MAX,
    ensures
        final(state).consistent(),
        final(state).all_alive(),
        final(state).minions@.len() <= old(state).minions@.len(),
        old(state).enemy is None ==> final(state).minions@ == old(state).minions@
            && final(state).enemy is None && final(inventory)@ == old(inventory)@
            && final(battle_count).0 == old(battle_count).0 && events@.len() == 0,
        old(state).enemy matches Some(e0) ==> {
            &&& (events@.contains(BattleEvent::BattleWon) <==> tick_wins(*old(state), dt as int))
            &&& (events@.contains(BattleEvent::GameOver) <==> final(state).minions@.len() == 0)
            &&& final(battle_count).0 == old(battle_count).0 + (if tick_wins(*old(state), dt as int) {
                1int
            } else {
                0int
            })
            &&& tick_wins(*old(state), dt as int) ==> final(inventory)@ == merged_all(
                old(inventory)@,
                e0.rewards.0@,
                MAX_ITEM_COUNT as int,
            )
            &&& !tick_wins(*old(state), dt as int) ==> final(inventory)@ == old(inventory)@
            &&& (final(state).enemy is Some <==> (!tick_wins(*old(state), dt as int)
                && final(state).minions@.len() > 0))
            &&& (final(state).enemy matches Some(e1) ==> e1.rewards == e0.rewards
                && e1.stats.current_hp > 0)
        },
{
    if state.enemy.is_none() {
        return Vec::new();
    }
    let ghost orig = state.minions@;
    let ghost e0 = state.enemy.unwrap();

    // Regeneration phase: every combatant moves toward its maxima.
    let n = state.minions.len();
    let mut j: usize = 0;
    while j < n
        invariant
            j <= n,
            n == state.minions@.len(),
            forall|k: int| j <= k < n ==> #[trigger] state.minions@[k] == orig[k],
            forall|k: int|
                0 <= k < j ==> (#[trigger] state.minions@[k]) == (Minion {
                    stats: regenerated(orig[k].stats, dt as int),
                    ..orig[k]
                }),
            forall|k: int| 0 <= k < j ==> (#[trigger] state.minions@[k]).wf(),
            state.enemy == old(state).enemy,
            state.minion_count == old(state).minion_count,
        decreases n - j,
    {
        let mut m = state.minions[j];
        m.stats.regenerate(dt);
        state.minions.set(j, m);
        j += 1;
    }
    let mut e = state.enemy.take().unwrap();
    e.stats.regenerate(dt);
    state.enemy = Some(e);
    let ghost regen_minions = state.minions@;
    proof {
        lemma_damage_total_same(orig, regen_minions, dt as int, orig.len() as int);
    }

    // Scheduler phase: minion turns land first, then the enemy's.
    let mut events = update_battle(state, rng, dt);
    let ghost es1 = events@;
    proof {
        assert(forall|i: int|
            0 <= i < es1.len() ==> ((#[trigger] es1[i]) is MinionAttack
                || es1[i] is EnemyAttack));
    }

    // Resolution phase: enemy death strictly before minion deaths.
    let mut tail_won = handle_enemy_dead(state, inventory, battle_count);
    let ghost es2 = tail_won@;
    events.append(&mut tail_won);
    let mut tail_dead = handle_minion_dead(state);
    let ghost es3 = tail_dead@;
    events.append(&mut tail_dead);
    proof {
        assert(events@ =~= (es1 + es2) + es3);
        lemma_contains_concat(es1 + es2, es3, BattleEvent::BattleWon);
        lemma_contains_concat(es1, es2, BattleEvent::BattleWon);
        lemma_contains_concat(es1 + es2, es3, BattleEvent::GameOver);
        lemma_contains_concat(es1, es2, BattleEvent::GameOver);
        assert(!es1.contains(BattleEvent::BattleWon));
        assert(!es1.contains(BattleEvent::GameOver));
        assert(!es3.contains(BattleEvent::BattleWon));
        assert(!es2.contains(BattleEvent::GameOver));
        lemma_minion_damage_total_nonneg(orig, dt as int, orig.len() as int);
        assert(minion_damage_total(regen_minions, dt as int, regen_minions.len() as int)
            == minion_damage_total(orig, dt as int, orig.len() as int));
    }
    events
}

/// Total length of a stretch of ticks.
pub open spec fn total_time(dts: Seq<int>) -> int
    decreases dts.len(),
{
    if dts.len() == 0 {
        0
    } else {
        dts[0] + total_time(dts.drop_first())
    }
}

/// Ticks of nonnegative lengths add up to a nonnegative stretch.
proof fn lemma_total_time_nonneg(dts: Seq<int>)
    requires
        forall|i: int| 0 <= i < dts.len() ==> 0 <= #[trigger] dts[i],
    ensures
        0 <= total_time(dts),
    decreases dts.len(),
{
    if dts.len() > 0 {
        assert(forall|i: int|
            0 <= i < dts.drop_first().len() ==> #[trigger] dts.drop_first()[i] == dts[i + 1]);
        lemma_total_time_nonneg(dts.drop_first());
    }
}

/// Turns a combatant emits when its accumulator starts at `acc` and the
/// ticks in `dts` arrive in order, each tick spending every banked turn.
pub open spec fn turns_over(acc: int, dts: Seq<int>, speed: int) -> int
    decreases dts.len(),
{
    if dts.len() == 0 {
        0
    } else {
        banked_turns(acc, speed, dts[0]) + turns_over(
            leftover_acc(acc, speed, dts[0]),
            dts.drop_first(),
            speed,
        )
    }
}

/// Accumulator fidelity: however a stretch of time is chunked into ticks,
/// the turns emitted number exactly `floor((acc + speed * total) /
/// TURN_THRESHOLD)` — the average attack rate matches the speed no matter
/// the frame timing, because subtraction keeps the fractional overshoot.
pub proof fn lemma_accumulator_fidelity(acc: int, dts: Seq<int>, speed: int)
    requires
        0 <= acc < TURN_THRESHOLD,
        0 <= speed,
        forall|i: int| 0 <= i < dts.len() ==> 0 <= #[trigger] dts[i],
    ensures
        turns_over(acc, dts, speed) == (acc + speed * total_time(dts)) / (TURN_THRESHOLD as int),
    decreases dts.len(),
{
    let thr = TURN_THRESHOLD as int;
    if dts.len() == 0 {
        assert(speed * 0 == 0);
        lemma_basic_div(acc, thr);
    } else {
        let d0 = dts[0];
        let rest = dts.drop_first();
        assert(forall|i: int| 0 <= i < rest.len() ==> #[trigger] rest[i] == dts[i + 1]);
        let b = banked_turns(acc, speed, d0);
        let l = leftover_acc(acc, speed, d0);
        lemma_fundamental_div_mod(acc + speed * d0, thr);
        lemma_mod_division_less_than_divisor(acc + speed * d0, thr);
        lemma_accumulator_fidelity(l, rest, speed);
        let x = l + speed * total_time(rest);
        lemma_total_time_nonneg(rest);
        assert(0 <= speed * total_time(rest)) by (nonlinear_arith)
            requires
                0 <= speed,
                0 <= total_time(rest),
        ;
        lemma_hoist_over_denominator(x, b, TURN_THRESHOLD as nat);
        lemma_mul_is_distributive_add(speed, d0, total_time(rest));
        assert(acc + speed * total_time(dts) == x + b * thr);
    }
}

/// Put a freshly summoned minion at the end of the lineup; only possible
/// between battles.
pub fn add_minion(state: &mut BattleState, stats: Stats)
    requires
        old(state).consistent(),
        old(state).all_alive(),
        old(state).enemy is None,
        old(state).minions@.len() < usize::MAX,
        stats.wf(),
        stats.current_hp > 0,
    ensures
        final(state).consistent(),
        final(state).all_alive(),
        final(state).enemy is None,
        final(state).minions@ == old(state).minions@.push(
            (Minion { stats, participant: BattleParticipant { turn_accumulator: 0u64 } }),
        ),
        final(state).minion_count.0 == old(state).minion_count.0 + 1,
{
    state.minions.push(Minion { stats, participant: BattleParticipant { turn_accumulator: 0 } });
    state.minion_count.0 = state.minion_count.0 + 1;
}

/// Discard the minion at `index` from the lineup; only possible between
/// battles, and the tracked count drops exactly once.
pub fn remove_minion(state: &mut BattleState, index: usize)
    requires
        old(state).consistent(),
        old(state).enemy is None,
        index < old(state).minions@.len(),
    ensures
        final(state).consistent(),
        final(state).enemy is None,
        final(state).minions@ == old(state).minions@.remove(index as int),
        final(state).minion_count.0 == old(state).minion_count.0 - 1,
{
    state.minions.remove(index);
    state.minion_count.0 = state.minion_count.0 - 1;
}

/// Enter battle: the chosen opponent becomes the live enemy, every minion
/// gets a fresh turn accumulator, and the authoritative minion count is
/// established from the lineup.
#[verifier::loop_isolation(false)]
pub fn prepare_battle(state: &mut BattleState, enemy_stats: Stats, rewards: DropRewards)
    requires
        old(state).consistent(),
        old(state).all_alive(),
        old(state).enemy is None,
        old(state).minions@.len() >= 1,
        enemy_stats.wf(),
        enemy_stats.current_hp > 0,
        forall|i: int| 0 <= i < rewards.0@.len() ==> (#[trigger] rewards.0@[i]).wf(),
    ensures
        final(state).consistent(),
        final(state).all_alive(),
        final(state).minions@.len() == old(state).minions@.len(),
        forall|j: int|
            0 <= j < old(state).minions@.len() ==> (#[trigger] final(state).minions@[j]) == (Minion {
                stats: old(state).minions@[j].stats,
                participant: BattleParticipant { turn_accumulator: 0u64 },
            }),
        final(state).enemy matches Some(e) && e.stats == enemy_stats
            && e.participant.turn_accumulator == 0 && e.rewards == rewards,
        final(state).minion_count.0 == old(state).minions@.len(),
{
    let ghost orig = state.minions@;
    let n = state.minions.len();
    let mut j: usize = 0;
    while j < n
        invariant
            j <= n,
            n == state.minions@.len(),
            forall|k: int| j <= k < n ==> #[trigger] state.minions@[k] == orig[k],
            forall|k: int|
                0 <= k < j ==> (#[trigger] state.minions@[k]) == (Minion {
                    stats: orig[k].stats,
                    participant: BattleParticipant { turn_accumulator: 0u64 },
                }),
            state.enemy == old(state).enemy,
        decreases n - j,
    {
        let mut m = state.minions[j];
        m.participant.turn_accumulator = 0;
        state.minions.set(j, m);
        j += 1;
    }
    state.minion_count.0 = n;
    state.enemy = Some(
        Enemy { stats: enemy_stats, participant: BattleParticipant { turn_accumulator: 0 }, rewards },
    );
}

} // verus!
