use crate::barrage::{spec_exec, BarrageAction, PatternProgram, RepFrame, Runner};
use crate::boss::{BossAction, BossScenarioEngine, SpecAction};
use crate::bullet::{bullet_step, spec_bullet_step, Bullet, SPEED_LIMIT};
use crate::frame::{GameFrame, FRAME_LIMIT};
use crate::life::LifeCount;
use crate::movement::{vel_step, MovePattern};
use crate::patterns::{BarrageConfiguration, PatternLibrary};
use crate::play_area::PlayAreaDescriptor;
use crate::trig::aim_direction_mdeg;
use crate::vec3::{spec_vec_add, Vec3};
use vstd::prelude::*;

verus! {

/// Largest bonus a single enemy may award.
pub const BONUS_LIMIT: i64 = 1_000_000;

/// A full sprite extent of an enemy, in milli-units.
pub const ENEMY_SIZE: i64 = 30_000;

/// A full sprite extent of a player bullet, in milli-units.
pub const PLAYER_BULLET_SCALE: i64 = 15_000;

/// How an enemy decides its motion: a lifetime-keyed velocity table,
/// or — for a boss — a compiled action scenario.
#[derive(Clone, Debug)]
pub enum EnemyStrategy {
    Pattern(MovePattern),
    Scenario(BossScenarioEngine),
}

pub open spec fn strategy_wf(s: EnemyStrategy) -> bool {
    match s {
        EnemyStrategy::Pattern(_) => true,
        EnemyStrategy::Scenario(engine) => engine.wf(),
    }
}

/// An enemy entity of the running stage.
#[derive(Clone, Debug)]
pub struct Enemy {
    pub position: Vec3,
    pub velocity: Vec3,
    pub hp: i64,
    pub bonus_score: i64,
    pub is_boss_enemy: bool,
    pub spawn_frame: i64,
    pub life_count: LifeCount,
    pub strategy: EnemyStrategy,
    pub barrage: BarrageConfiguration,
}

/// A live enemy at frame `frame`: its lifetime is exactly the frames
/// since its spawn, never negative; its strategy and barrage
/// configuration are usable; it has a hit point left and a bounded
/// bonus.
pub open spec fn enemy_wf(e: Enemy, frame: int) -> bool {
    &&& e.spawn_frame >= 0
    &&& e.life_count.count == frame - e.spawn_frame
    &&& e.life_count.count >= 0
    &&& strategy_wf(e.strategy)
    &&& e.barrage.wf()
    &&& e.hp >= 1
    &&& 0 <= e.bonus_score <= BONUS_LIMIT
}

/// Every enemy of the list is live at frame `frame`.
pub open spec fn enemies_wf(enemies: Seq<Enemy>, frame: int) -> bool {
    forall|i: int| 0 <= i < enemies.len() ==> enemy_wf(#[trigger] enemies[i], frame)
}

/// Lifetime update: on the new frame, every tracked enemy's lifetime
/// grows by exactly one, and nothing else about it changes — the
/// counting is gapless.
pub fn count_up_enemy_life_count_system(enemies: &mut Vec<Enemy>, frame: i64)
    requires
        0 <= frame < FRAME_LIMIT,
        enemies_wf(old(enemies)@, frame as int),
    ensures
        final(enemies)@.len() == old(enemies)@.len(),
        forall|j: int|
            0 <= j < old(enemies)@.len() ==> final(enemies)@[j] == (Enemy {
                life_count: LifeCount {
                    count: (old(enemies)@[j].life_count.count + 1) as i64,
                },
                ..old(enemies)@[j]
            }),
        enemies_wf(final(enemies)@, frame + 1),
{
    let n = enemies.len();
    let mut i: usize = 0;
    while i < n
        invariant
            n == enemies@.len(),
            n == old(enemies)@.len(),
            0 <= i <= n,
            0 <= frame < FRAME_LIMIT,
            enemies_wf(old(enemies)@, frame as int),
            forall|j: int| i <= j < n ==> enemies@[j] == old(enemies)@[j],
            forall|j: int|
                0 <= j < i ==> enemies@[j] == (Enemy {
                    life_count: LifeCount {
                        count: (old(enemies)@[j].life_count.count + 1) as i64,
                    },
                    ..old(enemies)@[j]
                }),
        decreases n - i,
    {
        let e = &mut enemies[i];
        proof {
            assert(enemy_wf(old(enemies)@[i as int], frame as int));
        }
        e.life_count.count_up();
        i = i + 1;
    }
}

/// Velocity update: each table-driven enemy's velocity becomes its
/// pattern's pure function of the new lifetime and the old velocity;
/// scenario-driven enemies are untouched here.
pub fn update_enemy_velocity_system(enemies: &mut Vec<Enemy>)
    ensures
        final(enemies)@.len() == old(enemies)@.len(),
        forall|j: int|
            0 <= j < old(enemies)@.len() ==> final(enemies)@[j] == match old(enemies)@[j].strategy {
                EnemyStrategy::Pattern(p) => (Enemy {
                    velocity: vel_step(
                        p,
                        old(enemies)@[j].life_count.count as int,
                        old(enemies)@[j].velocity,
                    ),
                    ..old(enemies)@[j]
                }),
                EnemyStrategy::Scenario(_) => old(enemies)@[j],
            },
{
    let n = enemies.len();
    let mut i: usize = 0;
    while i < n
        invariant
            n == enemies@.len(),
            0 <= i <= n,
            forall|j: int| i <= j < n ==> enemies@[j] == old(enemies)@[j],
            forall|j: int|
                0 <= j < i ==> enemies@[j] == match old(enemies)@[j].strategy {
                    EnemyStrategy::Pattern(p) => (Enemy {
                        velocity: vel_step(
                            p,
                            old(enemies)@[j].life_count.count as int,
                            old(enemies)@[j].velocity,
                        ),
                        ..old(enemies)@[j]
                    }),
                    EnemyStrategy::Scenario(_) => old(enemies)@[j],
                },
        decreases n - i,
    {
        let e = &mut enemies[i];
        let life = e.life_count;
        match &e.strategy {
            EnemyStrategy::Pattern(p) => {
                let pat = *p;
                pat.update_velocity(&life, &mut e.velocity);
            },
            EnemyStrategy::Scenario(_) => {},
        }
        i = i + 1;
    }
}

/// Motion: every enemy's position moves by its velocity.
pub fn move_enemy_system(enemies: &mut Vec<Enemy>)
    ensures
        final(enemies)@.len() == old(enemies)@.len(),
        forall|j: int|
            0 <= j < old(enemies)@.len() ==> final(enemies)@[j] == (Enemy {
                position: spec_vec_add(old(enemies)@[j].position, old(enemies)@[j].velocity),
                ..old(enemies)@[j]
            }),
{
    let n = enemies.len();
    let mut i: usize = 0;
    while i < n
        invariant
            n == enemies@.len(),
            0 <= i <= n,
            forall|j: int| i <= j < n ==> enemies@[j] == old(enemies)@[j],
            forall|j: int|
                0 <= j < i ==> enemies@[j] == (Enemy {
                    position: spec_vec_add(old(enemies)@[j].position, old(enemies)@[j].velocity),
                    ..old(enemies)@[j]
                }),
        decreases n - i,
    {
        let e = &mut enemies[i];
        e.position = e.position.add(&e.velocity);
        i = i + 1;
    }
}

/// What a timeline row spawns: an enemy at the row's position offset
/// from the play-area origin, at rest, with one hit point, the
/// standard bonus, the row's movement pattern, and a barrage
/// configuration that triggers the row's pattern name at exactly the
/// row's lifetime — with a lifetime counter starting at zero on the
/// spawn frame.
pub open spec fn spawned_from_row(e: Enemy, row: crate::emerge::SpecRow, frame: int, origin: Vec3) -> bool {
    &&& e.position == spec_vec_add(
        Vec3 { x: row.initial_x as i64, y: row.initial_y as i64, z: 0i64 },
        origin,
    )
    &&& e.velocity == vel_step(row.move_pattern, 0, Vec3 { x: 0i64, y: 0i64, z: 0i64 })
    &&& e.hp == 1
    &&& e.bonus_score == 100
    &&& !e.is_boss_enemy
    &&& e.spawn_frame == frame
    &&& e.life_count.count == 0
    &&& e.strategy matches EnemyStrategy::Pattern(p) && p == row.move_pattern
    &&& e.barrage.wf()
    &&& e.barrage.spec_lookup(row.barrage_start_life_count) == Some(row.barrage_pattern)
    &&& forall|k: int|
        k != row.barrage_start_life_count ==> e.barrage.spec_lookup(k) is None
}

/// Emerge: every timeline row scheduled for the new frame spawns one
/// enemy on that very tick, appended in file order, each with its own
/// lifetime counter starting at zero; rows of other frames spawn
/// nothing.
pub fn emerge_enemy_system(
    timeline: &crate::emerge::EnemyEmerge,
    frame: i64,
    origin: Vec3,
    enemies: &mut Vec<Enemy>,
)
    requires
        0 <= frame,
    ensures
        ({
            let due = crate::emerge::spec_due_rows(timeline.spec_rows(), frame as int);
            &&& final(enemies)@.len() == old(enemies)@.len() + due.len()
            &&& forall|j: int| 0 <= j < old(enemies)@.len() ==> final(enemies)@[j] == old(enemies)@[j]
            &&& forall|k: int|
                0 <= k < due.len() ==> spawned_from_row(
                    #[trigger] final(enemies)@[old(enemies)@.len() + k],
                    timeline.spec_rows()[due[k]],
                    frame as int,
                    origin,
                )
        }),
{
    let due = timeline.emerges_at(frame);
    let ghost due_spec = crate::emerge::spec_due_rows(timeline.spec_rows(), frame as int);
    let m = due.len();
    let mut k: usize = 0;
    while k < m
        invariant
            m == due@.len(),
            m == due_spec.len(),
            due_spec == crate::emerge::spec_due_rows(timeline.spec_rows(), frame as int),
            due@.map_values(|i: usize| i as int) == due_spec,
            forall|j: int| 0 <= j < due@.len() ==> (#[trigger] due@[j]) < timeline.rows@.len(),
            0 <= k <= m,
            0 <= frame,
            enemies@.len() == old(enemies)@.len() + k,
            forall|j: int| 0 <= j < old(enemies)@.len() ==> enemies@[j] == old(enemies)@[j],
            forall|j: int|
                0 <= j < k ==> spawned_from_row(
                    #[trigger] enemies@[old(enemies)@.len() + j],
                    timeline.spec_rows()[due_spec[j]],
                    frame as int,
                    origin,
                ),
        decreases m - k,
    {
        let idx = due[k];
        let row = &timeline.rows[idx];
        let mut barrage = BarrageConfiguration::new();
        let name = vstd::slice::slice_to_vec(row.barrage_pattern.as_slice());
        barrage.insert_barrage_type(row.barrage_start_life_count, name);
        let position = Vec3::new(row.initial_x, row.initial_y, 0).add(&origin);
        let mut velocity = Vec3::zero();
        let spawn_life = LifeCount::new();
        row.move_pattern.update_velocity(&spawn_life, &mut velocity);
        let enemy = Enemy {
            position,
            velocity,
            hp: 1,
            bonus_score: 100,
            is_boss_enemy: false,
            spawn_frame: frame,
            life_count: LifeCount::new(),
            strategy: EnemyStrategy::Pattern(row.move_pattern),
            barrage,
        };
        proof {
            assert(due@.map_values(|i: usize| i as int)[k as int] == due_spec[k as int]);
            assert(timeline.spec_rows()[due_spec[k as int]] == timeline.rows@[idx as int]@);
        }
        enemies.push(enemy);
        k = k + 1;
    }
}

/// The boss entries scheduled for frame `frame`, in schedule order.
pub open spec fn spec_due_bosses(entries: Seq<crate::emerge::BossEmerge>, frame: int) -> Seq<int> {
    Seq::new(entries.len(), |i: int| i).filter(|i: int| entries[i].appear_frame == frame)
}

/// What a boss entry spawns: a boss-flagged enemy at the entry's
/// position offset from the origin, at rest, with the entry's hit
/// points and bonus, no barrage configuration of its own, the first
/// boss's scenario attached — and a lifetime counter starting at zero
/// on the spawn frame.
pub open spec fn spawned_boss_from(
    e: Enemy,
    entry: crate::emerge::BossEmerge,
    frame: int,
    origin: Vec3,
) -> bool {
    &&& e.position == spec_vec_add(entry.initial_position, origin)
    &&& e.velocity == (Vec3 { x: 0i64, y: 0i64, z: 0i64 })
    &&& e.hp == entry.hp
    &&& e.bonus_score == entry.bonus_score
    &&& e.is_boss_enemy
    &&& e.spawn_frame == frame
    &&& e.life_count.count == 0
    &&& e.barrage.wf()
    &&& forall|k: int| e.barrage.spec_lookup(k) is None
    &&& e.strategy matches EnemyStrategy::Scenario(engine) && crate::boss::is_boss1_engine(engine)
}

/// Boss emerge: every boss entry scheduled for the new frame spawns
/// one boss enemy on that tick, appended in schedule order, each
/// carrying its entry's position, toughness and bonus, the first
/// boss's scenario, and its own lifetime counter starting at zero.
pub fn boss_emerge_system(
    boss_timeline: &Vec<crate::emerge::BossEmerge>,
    frame: i64,
    origin: Vec3,
    enemies: &mut Vec<Enemy>,
)
    requires
        0 <= frame,
    ensures
        ({
            let due = spec_due_bosses(boss_timeline@, frame as int);
            &&& final(enemies)@.len() == old(enemies)@.len() + due.len()
            &&& forall|j: int| 0 <= j < old(enemies)@.len() ==> final(enemies)@[j] == old(enemies)@[j]
            &&& forall|k: int| 0 <= k < due.len() ==> 0 <= #[trigger] due[k] < boss_timeline@.len()
            &&& forall|k: int|
                0 <= k < due.len() ==> spawned_boss_from(
                    #[trigger] final(enemies)@[old(enemies)@.len() + k],
                    boss_timeline@[due[k]],
                    frame as int,
                    origin,
                )
        }),
{
    let ghost idxs = Seq::new(boss_timeline@.len(), |i: int| i);
    let ghost flt = |i: int| boss_timeline@[i].appear_frame == frame as int;
    let n = boss_timeline.len();
    let mut i: usize = 0;
    proof {
        reveal(Seq::filter);
        assert(idxs.take(0int) =~= Seq::<int>::empty());
        assert(idxs.take(0int).filter(flt) =~= Seq::<int>::empty());
    }
    while i < n
        invariant
            n == boss_timeline@.len(),
            0 <= i <= n,
            0 <= frame,
            idxs == Seq::new(boss_timeline@.len(), |i: int| i),
            flt == (|i: int| boss_timeline@[i].appear_frame == frame as int),
            enemies@.len() == old(enemies)@.len() + idxs.take(i as int).filter(flt).len(),
            forall|j: int| 0 <= j < old(enemies)@.len() ==> enemies@[j] == old(enemies)@[j],
            forall|k: int|
                0 <= k < idxs.take(i as int).filter(flt).len() ==> 0 <= #[trigger] idxs.take(
                    i as int,
                ).filter(flt)[k] < n,
            forall|k: int|
                0 <= k < idxs.take(i as int).filter(flt).len() ==> spawned_boss_from(
                    #[trigger] enemies@[old(enemies)@.len() + k],
                    boss_timeline@[idxs.take(i as int).filter(flt)[k]],
                    frame as int,
                    origin,
                ),
        decreases n - i,
    {
        proof {
            reveal(Seq::filter);
            assert(idxs.take(i as int + 1).drop_last() =~= idxs.take(i as int));
            assert(idxs.take(i as int + 1).last() == i as int);
        }
        let entry = boss_timeline[i];
        if entry.appear_frame == frame {
            let calculater = crate::boss::MovePattern::Boss1.action_calculater();
            let enemy = Enemy {
                position: entry.initial_position.add(&origin),
                velocity: Vec3::zero(),
                hp: entry.hp,
                bonus_score: entry.bonus_score,
                is_boss_enemy: true,
                spawn_frame: frame,
                life_count: LifeCount::new(),
                strategy: EnemyStrategy::Scenario(calculater.engine),
                barrage: BarrageConfiguration::new(),
            };
            proof {
                assert(spawned_boss_from(
                    enemy,
                    boss_timeline@[i as int],
                    frame as int,
                    origin,
                ));
            }
            enemies.push(enemy);
        }
        i = i + 1;
    }
    proof {
        assert(idxs.take(n as int) =~= idxs);
    }
}

/// An enemy-pattern bullet of the running stage: its position, its
/// motion state, and — if it runs a pattern — the index of the
/// pattern in the library together with its interpreter.
#[derive(Clone, Debug)]
pub struct EnemyBullet {
    pub position: Vec3,
    pub state: Bullet,
    pub runner: Option<(usize, Runner)>,
}

/// A live bullet at frame `frame`: a usable motion state and, when a
/// pattern runs, an interpreter that points into its program and has
/// run at most one turn per frame.
pub open spec fn enemy_bullet_wf(patterns: PatternLibrary, b: EnemyBullet, frame: int) -> bool {
    &&& b.state.wf()
    &&& match b.runner {
        Some((pi, r)) => (pi as int) < patterns.entries@.len() && r.wf(
            patterns.entries@[pi as int].1,
        ) && r.turn <= frame,
        None => true,
    }
}

pub open spec fn bullets_wf(patterns: PatternLibrary, bullets: Seq<EnemyBullet>, frame: int) -> bool {
    forall|i: int| 0 <= i < bullets.len() ==> enemy_bullet_wf(patterns, #[trigger] bullets[i], frame)
}

/// The seed bullet a barrage start plants: invisible (vanished), at
/// rest at the given position, carrying a fresh interpreter over the
/// named program.
pub open spec fn is_seed_bullet(
    patterns: PatternLibrary,
    b: EnemyBullet,
    position: Vec3,
    name: Seq<u8>,
) -> bool {
    &&& b.position == position
    &&& b.state == (Bullet { direction: 0i64, speed: 0i64, vanished: true })
    &&& b.runner matches Some((pi, r)) && (pi as int) < patterns.entries@.len()
        && patterns.spec_get(name) == Some(patterns.entries@[pi as int].1) && r.turn == 0 && r.wait
        == 0 && !r.done() && r.wf(patterns.entries@[pi as int].1)
}

/// Starts the named barrage at a position: plants the seed bullet
/// exactly when the library knows the name; an unknown name starts
/// nothing and is reported to the caller by the result.
pub fn start_barrage(
    patterns: &PatternLibrary,
    position: Vec3,
    barrage_type: &[u8],
    bullets: &mut Vec<EnemyBullet>,
) -> (started: bool)
    requires
        patterns.wf(),
    ensures
        started == (patterns.spec_get(barrage_type@) is Some),
        started ==> final(bullets)@.len() == old(bullets)@.len() + 1 && (forall|j: int|
            0 <= j < old(bullets)@.len() ==> final(bullets)@[j] == old(bullets)@[j])
            && is_seed_bullet(
            *patterns,
            final(bullets)@[old(bullets)@.len() as int],
            position,
            barrage_type@,
        ),
        !started ==> final(bullets)@ == old(bullets)@,
{
    match patterns.find(barrage_type) {
        Some(i) => {
            let program = &patterns.entries[i].1;
            let runner = Runner::new(program);
            bullets.push(
                EnemyBullet {
                    position,
                    state: Bullet { direction: 0, speed: 0, vanished: true },
                    runner: Some((i, runner)),
                },
            );
            true
        },
        None => false,
    }
}

/// A bullet freshly planted this tick: well formed, with an
/// interpreter that has not run yet, or no interpreter at all.
pub open spec fn fresh_bullet(patterns: PatternLibrary, b: EnemyBullet) -> bool {
    &&& b.state.wf()
    &&& match b.runner {
        Some((pi, r)) => (pi as int) < patterns.entries@.len() && r.wf(
            patterns.entries@[pi as int].1,
        ) && r.turn == 0,
        None => true,
    }
}

/// The barrages the enemies of a list start on this frame: one for
/// each enemy, in order, whose configuration maps its current
/// lifetime to a name the library knows — the barrage starts at that
/// enemy's position.
pub open spec fn spec_triggered(enemies: Seq<Enemy>, patterns: PatternLibrary) -> Seq<
    (Vec3, Seq<u8>),
>
    decreases enemies.len(),
{
    if enemies.len() == 0 {
        Seq::empty()
    } else {
        let e = enemies[0];
        let rest = spec_triggered(enemies.skip(1), patterns);
        match e.barrage.spec_lookup(e.life_count.count as int) {
            Some(name) => if patterns.spec_get(name) is Some {
                seq![(e.position, name)] + rest
            } else {
                rest
            },
            None => rest,
        }
    }
}

/// The barrage triggers of this frame whose names the library does
/// not know, counted in enemy order: exactly these are skipped and
/// reported.
pub open spec fn spec_skipped_triggers(enemies: Seq<Enemy>, patterns: PatternLibrary) -> int
    decreases enemies.len(),
{
    if enemies.len() == 0 {
        0
    } else {
        let e = enemies[0];
        let rest = spec_skipped_triggers(enemies.skip(1), patterns);
        match e.barrage.spec_lookup(e.life_count.count as int) {
            Some(name) => if patterns.spec_get(name) is None {
                1 + rest
            } else {
                rest
            },
            None => rest,
        }
    }
}

/// Barrage triggers: each enemy whose barrage configuration maps the
/// lifetime value just reached starts that barrage at its position —
/// exactly once, since each lifetime value is reached once; exactly
/// those seed bullets are planted, in enemy order. A configured name
/// the library does not know is skipped and counted.
pub fn start_barrage_system(
    enemies: &Vec<Enemy>,
    patterns: &PatternLibrary,
    bullets: &mut Vec<EnemyBullet>,
) -> (skipped: usize)
    requires
        patterns.wf(),
    ensures
        ({
            let started = spec_triggered(enemies@, *patterns);
            &&& final(bullets)@.len() == old(bullets)@.len() + started.len()
            &&& forall|j: int| 0 <= j < old(bullets)@.len() ==> final(bullets)@[j] == old(bullets)@[j]
            &&& forall|k: int|
                0 <= k < started.len() ==> is_seed_bullet(
                    *patterns,
                    #[trigger] final(bullets)@[old(bullets)@.len() + k],
                    started[k].0,
                    started[k].1,
                )
            &&& forall|j: int|
                old(bullets)@.len() <= j < final(bullets)@.len() ==> fresh_bullet(
                    *patterns,
                    #[trigger] final(bullets)@[j],
                )
        }),
        skipped == spec_skipped_triggers(enemies@, *patterns),
{
    let ghost started = spec_triggered(enemies@, *patterns);
    let n = enemies.len();
    let mut skipped: usize = 0;
    let mut i: usize = 0;
    let ghost base = old(bullets)@.len() as int;
    proof {
        assert(enemies@.skip(0) =~= enemies@);
    }
    while i < n
        invariant
            n == enemies@.len(),
            0 <= i <= n,
            patterns.wf(),
            skipped <= i,
            started == spec_triggered(enemies@, *patterns),
            skipped as int + spec_skipped_triggers(enemies@.skip(i as int), *patterns)
                == spec_skipped_triggers(enemies@, *patterns),
            base == old(bullets)@.len(),
            base <= bullets@.len(),
            bullets@.len() <= base + started.len(),
            bullets@.len() == base + started.len() - spec_triggered(
                enemies@.skip(i as int),
                *patterns,
            ).len(),
            spec_triggered(enemies@.skip(i as int), *patterns) =~= started.skip(
                bullets@.len() - base,
            ),
            forall|j: int| 0 <= j < base ==> bullets@[j] == old(bullets)@[j],
            forall|k: int|
                0 <= k < bullets@.len() - base ==> is_seed_bullet(
                    *patterns,
                    #[trigger] bullets@[base + k],
                    started[k].0,
                    started[k].1,
                ),
            forall|j: int|
                base <= j < bullets@.len() ==> fresh_bullet(*patterns, #[trigger] bullets@[j]),
        decreases n - i,
    {
        proof {
            assert(enemies@.skip(i as int)[0] == enemies@[i as int]);
            assert(enemies@.skip(i as int).skip(1) =~= enemies@.skip(i as int + 1));
        }
        let ghost cnt = bullets@.len() - base;
        let ghost rem = spec_triggered(enemies@.skip(i as int), *patterns);
        let ghost tail = spec_triggered(enemies@.skip(i as int + 1), *patterns);
        let e = &enemies[i];
        match e.barrage.get_barrage_type_for_life_count(e.life_count.count) {
            Some(name) => {
                proof {
                    assert(enemies@[i as int].barrage.spec_lookup(
                        enemies@[i as int].life_count.count as int,
                    ) == Some(name@));
                }
                let started_here = start_barrage(patterns, e.position, name.as_slice(), bullets);
                proof {
                    if started_here {
                        assert(rem == seq![(enemies@[i as int].position, name@)] + tail);
                        assert(rem.len() >= 1);
                        assert(rem =~= started.skip(cnt));
                        assert(cnt < started.len());
                        assert(started.skip(cnt)[0] == started[cnt]);
                        assert(started[cnt] == rem[0]);
                        assert(started[cnt] == (enemies@[i as int].position, name@));
                        assert(started.skip(cnt).skip(1) =~= started.skip(cnt + 1));
                        assert(tail =~= started.skip(cnt + 1));
                    } else {
                        assert(rem == tail);
                    }
                }
                if !started_here {
                    skipped = skipped + 1;
                }
            },
            None => {
                proof {
                    assert(rem == tail);
                }
            },
        }
        i = i + 1;
    }
    proof {
        assert(spec_triggered(enemies@.skip(n as int), *patterns) =~= Seq::<(Vec3, Seq<u8>)>::empty());
    }
    skipped
}

/// What the scenario engine does to a boss enemy on one frame: a
/// move action places it at the eased position offset from the
/// origin; a barrage trigger or an idle frame leaves it in place.
pub open spec fn boss_moved(e: Enemy, origin: Vec3) -> Enemy {
    match e.strategy {
        EnemyStrategy::Scenario(engine) => match engine.spec_query(e.life_count.count as int) {
            SpecAction::MoveTo(p) => Enemy { position: spec_vec_add(p, origin), ..e },
            SpecAction::StartBarrage(_) => e,
            SpecAction::Stay => e,
        },
        EnemyStrategy::Pattern(_) => e,
    }
}

/// Boss movement and triggers: each scenario-driven enemy performs
/// its scenario's action for the new lifetime — moving to the eased
/// position, starting the named barrage at its own position, or
/// staying. Unknown barrage names are skipped and counted.
pub fn move_boss_system(
    enemies: &mut Vec<Enemy>,
    patterns: &PatternLibrary,
    origin: Vec3,
    bullets: &mut Vec<EnemyBullet>,
) -> (skipped: usize)
    requires
        patterns.wf(),
        forall|i: int|
            0 <= i < old(enemies)@.len() ==> (#[trigger] old(enemies)@[i]).life_count.count >= 0
                && strategy_wf(old(enemies)@[i].strategy),
    ensures
        final(enemies)@.len() == old(enemies)@.len(),
        forall|j: int|
            0 <= j < old(enemies)@.len() ==> final(enemies)@[j] == boss_moved(
                old(enemies)@[j],
                origin,
            ),
        ({
            let started = spec_boss_triggered(old(enemies)@, *patterns);
            &&& final(bullets)@.len() == old(bullets)@.len() + started.len()
            &&& forall|j: int| 0 <= j < old(bullets)@.len() ==> final(bullets)@[j] == old(bullets)@[j]
            &&& forall|k: int|
                0 <= k < started.len() ==> is_seed_bullet(
                    *patterns,
                    #[trigger] final(bullets)@[old(bullets)@.len() + k],
                    started[k].0,
                    started[k].1,
                )
            &&& forall|j: int|
                old(bullets)@.len() <= j < final(bullets)@.len() ==> fresh_bullet(
                    *patterns,
                    #[trigger] final(bullets)@[j],
                )
        }),
        skipped == spec_skipped_boss_triggers(old(enemies)@, *patterns),
{
    let ghost started = spec_boss_triggered(old(enemies)@, *patterns);
    let ghost base = old(bullets)@.len() as int;
    let n = enemies.len();
    let mut skipped: usize = 0;
    let mut i: usize = 0;
    proof {
        assert(old(enemies)@.skip(0) =~= old(enemies)@);
    }
    while i < n
        invariant
            n == enemies@.len(),
            n == old(enemies)@.len(),
            0 <= i <= n,
            skipped <= i,
            patterns.wf(),
            started == spec_boss_triggered(old(enemies)@, *patterns),
            skipped as int + spec_skipped_boss_triggers(old(enemies)@.skip(i as int), *patterns)
                == spec_skipped_boss_triggers(old(enemies)@, *patterns),
            base == old(bullets)@.len(),
            base <= bullets@.len(),
            bullets@.len() <= base + started.len(),
            bullets@.len() == base + started.len() - spec_boss_triggered(
                old(enemies)@.skip(i as int),
                *patterns,
            ).len(),
            spec_boss_triggered(old(enemies)@.skip(i as int), *patterns) =~= started.skip(
                bullets@.len() - base,
            ),
            forall|k: int|
                0 <= k < bullets@.len() - base ==> is_seed_bullet(
                    *patterns,
                    #[trigger] bullets@[base + k],
                    started[k].0,
                    started[k].1,
                ),
            forall|x: int|
                0 <= x < old(enemies)@.len() ==> (#[trigger] old(enemies)@[x]).life_count.count
                    >= 0 && strategy_wf(old(enemies)@[x].strategy),
            forall|j: int| i <= j < n ==> enemies@[j] == old(enemies)@[j],
            forall|j: int| 0 <= j < i ==> enemies@[j] == boss_moved(old(enemies)@[j], origin),
            forall|j: int| 0 <= j < base ==> bullets@[j] == old(bullets)@[j],
            forall|j: int|
                base <= j < bullets@.len() ==> fresh_bullet(*patterns, #[trigger] bullets@[j]),
        decreases n - i,
    {
        proof {
            assert(old(enemies)@.skip(i as int)[0] == old(enemies)@[i as int]);
            assert(old(enemies)@.skip(i as int).skip(1) =~= old(enemies)@.skip(i as int + 1));
        }
        let ghost cnt = bullets@.len() - base;
        let ghost rem = spec_boss_triggered(old(enemies)@.skip(i as int), *patterns);
        let ghost tail = spec_boss_triggered(old(enemies)@.skip(i as int + 1), *patterns);
        let e = &mut enemies[i];
        proof {
            assert(strategy_wf(old(enemies)@[i as int].strategy));
        }
        let action: Option<BossAction> = match &e.strategy {
            EnemyStrategy::Scenario(engine) => Some(engine.query(&e.life_count)),
            EnemyStrategy::Pattern(_) => None,
        };
        match action {
            Some(BossAction::MoveTo(p)) => {
                e.position = p.add(&origin);
                proof {
                    assert(rem == tail);
                }
            },
            Some(BossAction::StartBarrage(name)) => {
                let pos = e.position;
                let started_here = start_barrage(patterns, pos, name.as_slice(), bullets);
                proof {
                    if started_here {
                        assert(rem == seq![(old(enemies)@[i as int].position, name@)] + tail);
                        assert(rem.len() >= 1);
                        assert(rem =~= started.skip(cnt));
                        assert(cnt < started.len());
                        assert(started.skip(cnt)[0] == started[cnt]);
                        assert(started[cnt] == rem[0]);
                        assert(started.skip(cnt).skip(1) =~= started.skip(cnt + 1));
                        assert(tail =~= started.skip(cnt + 1));
                    } else {
                        assert(rem == tail);
                    }
                }
                if !started_here {
                    skipped = skipped + 1;
                }
            },
            Some(BossAction::Stay) => {
                proof {
                    assert(rem == tail);
                }
            },
            None => {
                proof {
                    assert(rem == tail);
                }
            },
        }
        i = i + 1;
    }
    proof {
        assert(spec_boss_triggered(old(enemies)@.skip(n as int), *patterns) =~= Seq::<
            (Vec3, Seq<u8>),
        >::empty());
    }
    skipped
}

/// The boss-scenario triggers of this frame whose names the library
/// does not know, counted in enemy order: exactly these are skipped
/// and reported.
pub open spec fn spec_skipped_boss_triggers(enemies: Seq<Enemy>, patterns: PatternLibrary) -> int
    decreases enemies.len(),
{
    if enemies.len() == 0 {
        0
    } else {
        let e = enemies[0];
        let rest = spec_skipped_boss_triggers(enemies.skip(1), patterns);
        match e.strategy {
            EnemyStrategy::Scenario(engine) => match engine.spec_query(e.life_count.count as int) {
                SpecAction::StartBarrage(name) => if patterns.spec_get(name) is None {
                    1 + rest
                } else {
                    rest
                },
                SpecAction::MoveTo(_) => rest,
                SpecAction::Stay => rest,
            },
            EnemyStrategy::Pattern(_) => rest,
        }
    }
}

/// The barrages the boss scenarios of a list start on this frame:
/// one for each scenario-driven enemy, in order, whose action at its
/// current lifetime is a start-barrage naming a pattern the library
/// knows — starting at that enemy's position.
pub open spec fn spec_boss_triggered(enemies: Seq<Enemy>, patterns: PatternLibrary) -> Seq<
    (Vec3, Seq<u8>),
>
    decreases enemies.len(),
{
    if enemies.len() == 0 {
        Seq::empty()
    } else {
        let e = enemies[0];
        let rest = spec_boss_triggered(enemies.skip(1), patterns);
        match e.strategy {
            EnemyStrategy::Scenario(engine) => match engine.spec_query(e.life_count.count as int) {
                SpecAction::StartBarrage(name) => if patterns.spec_get(name) is Some {
                    seq![(e.position, name)] + rest
                } else {
                    rest
                },
                SpecAction::MoveTo(_) => rest,
                SpecAction::Stay => rest,
            },
            EnemyStrategy::Pattern(_) => rest,
        }
    }
}

/// A spawn action's direction, held to the normalized range; an
/// out-of-range value falls back to straight up.
pub open spec fn spec_clamp_direction(d: int) -> i64 {
    if 0 <= d < 360_000 {
        d as i64
    } else {
        0
    }
}

/// A spawn action's speed, held to the speed bound; an out-of-range
/// value falls back to rest.
pub open spec fn spec_clamp_speed(s: int) -> i64 {
    if 0 <= s <= SPEED_LIMIT {
        s as i64
    } else {
        0
    }
}

/// A coordinate difference, held to the range the aim computation
/// accepts.
pub open spec fn spec_clamp_aim(d: int) -> i64 {
    if d > 100_000_000 {
        100_000_000i64
    } else if d < -100_000_000 {
        (-100_000_000) as i64
    } else {
        d as i64
    }
}

/// Where one frame of motion takes a bullet.
pub open spec fn spec_moved(o: EnemyBullet) -> Vec3 {
    spec_bullet_step(o.position, o.state.direction as int, o.state.speed as int)
}

/// The aim angle a bullet's turn uses: towards the player, from the
/// bullet's position after this frame's motion.
pub open spec fn spec_bullet_aim(o: EnemyBullet, player: Vec3) -> int {
    crate::trig::spec_aim_direction_mdeg(
        spec_clamp_aim(player.x - spec_moved(o).x) as int,
        spec_clamp_aim(player.y - spec_moved(o).y) as int,
    )
}

/// The actions of a turn that spawn something: a spawn naming a list
/// outside the program is dropped (well-formed programs have none).
pub open spec fn spec_kept_actions(p: PatternProgram, actions: Seq<BarrageAction>) -> Seq<
    BarrageAction,
> {
    actions.filter(
        |a: BarrageAction|
            match a {
                BarrageAction::SpawnPattern { body, .. } => (body as int) < p.lists@.len(),
                _ => true,
            },
    )
}

/// The spawn actions one bullet's turn emits: nothing without an
/// interpreter, nothing while the program is complete or a wait is
/// pending, and otherwise exactly the turn's actions.
pub open spec fn spec_emitted(patterns: PatternLibrary, o: EnemyBullet, player: Vec3) -> Seq<
    BarrageAction,
> {
    match o.runner {
        None => Seq::empty(),
        Some((pi, r)) => {
            let p = patterns.entries@[pi as int].1;
            if r.stack@.len() == 0 || r.wait > 0 {
                Seq::empty()
            } else {
                spec_kept_actions(p, spec_exec(p, r.stack@, o.state, spec_bullet_aim(o, player)).actions)
            }
        },
    }
}

/// One pending spawn of the sweep: the action, the position it fires
/// from, the pattern index of the firing bullet, and the firing
/// interpreter's turn count before this turn.
pub open spec fn spec_bullet_jobs(patterns: PatternLibrary, o: EnemyBullet, player: Vec3) -> Seq<
    (BarrageAction, Vec3, usize, i64),
> {
    match o.runner {
        None => Seq::empty(),
        Some((pi, r)) => spec_emitted(patterns, o, player).map_values(
            |a: BarrageAction| (a, spec_moved(o), pi, r.turn),
        ),
    }
}

/// Every pending spawn of the sweep, in sweep order.
pub open spec fn spec_sweep_spawns(
    patterns: PatternLibrary,
    bullets: Seq<EnemyBullet>,
    player: Vec3,
) -> Seq<(BarrageAction, Vec3, usize, i64)>
    decreases bullets.len(),
{
    if bullets.len() == 0 {
        Seq::empty()
    } else {
        spec_bullet_jobs(patterns, bullets[0], player) + spec_sweep_spawns(
            patterns,
            bullets.skip(1),
            player,
        )
    }
}

/// The bullet a pending spawn plants: a fire action plants a plain
/// bullet at the firing position with the action's direction and
/// speed; a sub-program action plants one that additionally runs the
/// named list as its own pattern, its turn counter carried over from
/// the firing interpreter.
pub open spec fn matches_spawn_job(job: (BarrageAction, Vec3, usize, i64), b: EnemyBullet) -> bool {
    match job.0 {
        BarrageAction::FireSimple { direction, speed } => b == (EnemyBullet {
            position: job.1,
            state: Bullet {
                direction: spec_clamp_direction(direction as int),
                speed: spec_clamp_speed(speed as int),
                vanished: false,
            },
            runner: None,
        }),
        BarrageAction::SpawnPattern { direction, speed, body } => {
            &&& b.position == job.1
            &&& b.state == (Bullet {
                direction: spec_clamp_direction(direction as int),
                speed: spec_clamp_speed(speed as int),
                vanished: false,
            })
            &&& b.runner matches Some((pj, r)) && pj == job.2 && r.wait == 0 && r.turn == job.3
                && r.stack@ == seq![RepFrame { list: body, idx: 0usize, remaining: 0i64 }]
        },
    }
}

/// How the sweep leaves one bullet: moved by one frame of its old
/// motion and, if it carries an interpreter, with that interpreter
/// one turn further — exactly as the turn semantics say, at the aim
/// angle towards the player.
pub open spec fn spec_bullet_evolved(
    patterns: PatternLibrary,
    o: EnemyBullet,
    b: EnemyBullet,
    player: Vec3,
) -> bool {
    &&& b.position == spec_moved(o)
    &&& match o.runner {
        None => b.state == o.state && b.runner is None,
        Some((pi, r)) => {
            &&& b.runner matches Some((pi2, r2)) && pi2 == pi && r2.turn == r.turn + 1 && {
                let p = patterns.entries@[pi as int].1;
                if r.stack@.len() == 0 {
                    r2.stack@ == r.stack@ && r2.wait == r.wait && b.state == o.state
                } else if r.wait > 0 {
                    r2.stack@ == r.stack@ && r2.wait == r.wait - 1 && b.state == o.state
                } else {
                    let res = spec_exec(p, r.stack@, o.state, spec_bullet_aim(o, player));
                    r2.stack@ == res.stack && r2.wait == res.wait && b.state == res.bullet
                }
            }
        },
    }
}

/// Clamps a wide coordinate difference into the range the aim
/// computation accepts.
fn clamp_aim_delta(d: i128) -> (r: i64)
    ensures
        r == spec_clamp_aim(d as int),
{
    if d > 100_000_000 {
        100_000_000
    } else if d < -100_000_000 {
        -100_000_000
    } else {
        d as i64
    }
}

/// One barrage turn for every enemy-pattern bullet: the bullet first
/// moves by its current direction and speed; then, if it carries an
/// interpreter, the interpreter executes one turn — aiming at the
/// player where the program asks to — and exactly the spawn actions
/// those turns emit are planted after the sweep, in sweep order. A
/// vanished bullet keeps moving and spawning like any other.
pub fn update_bullet_system(
    bullets: &mut Vec<EnemyBullet>,
    patterns: &PatternLibrary,
    player_position: Vec3,
    frame: i64,
) -> (n_spawned: usize)
    requires
        patterns.wf(),
        1 <= frame < FRAME_LIMIT,
        bullets_wf(*patterns, old(bullets)@, frame - 1),
    ensures
        bullets_wf(*patterns, final(bullets)@, frame as int),
        ({
            let jobs = spec_sweep_spawns(*patterns, old(bullets)@, player_position);
            &&& n_spawned == jobs.len()
            &&& final(bullets)@.len() == old(bullets)@.len() + jobs.len()
            &&& forall|j: int|
                0 <= j < old(bullets)@.len() ==> spec_bullet_evolved(
                    *patterns,
                    old(bullets)@[j],
                    #[trigger] final(bullets)@[j],
                    player_position,
                )
            &&& forall|k: int|
                0 <= k < jobs.len() ==> matches_spawn_job(
                    #[trigger] jobs[k],
                    final(bullets)@[old(bullets)@.len() + k],
                )
        }),
{
    let ghost jobs = spec_sweep_spawns(*patterns, old(bullets)@, player_position);
    let n = bullets.len();
    let mut spawned: Vec<EnemyBullet> = Vec::new();
    let mut i: usize = 0;
    proof {
        assert(old(bullets)@.skip(0) =~= old(bullets)@);
    }
    while i < n
        invariant
            n == bullets@.len(),
            n == old(bullets)@.len(),
            0 <= i <= n,
            patterns.wf(),
            1 <= frame < FRAME_LIMIT,
            bullets_wf(*patterns, old(bullets)@, frame - 1),
            jobs == spec_sweep_spawns(*patterns, old(bullets)@, player_position),
            forall|j: int| i <= j < n ==> bullets@[j] == old(bullets)@[j],
            forall|j: int|
                0 <= j < i ==> enemy_bullet_wf(*patterns, #[trigger] bullets@[j], frame as int)
                    && spec_bullet_evolved(
                    *patterns,
                    old(bullets)@[j],
                    bullets@[j],
                    player_position,
                ),
            spawned@.len() <= jobs.len(),
            spec_sweep_spawns(*patterns, old(bullets)@.skip(i as int), player_position)
                =~= jobs.skip(spawned@.len() as int),
            forall|k: int|
                0 <= k < spawned@.len() ==> matches_spawn_job(jobs[k], #[trigger] spawned@[k]),
            forall|k: int|
                0 <= k < spawned@.len() ==> enemy_bullet_wf(
                    *patterns,
                    #[trigger] spawned@[k],
                    frame as int,
                ),
        decreases n - i,
    {
        proof {
            assert(old(bullets)@.skip(i as int)[0] == old(bullets)@[i as int]);
            assert(old(bullets)@.skip(i as int).skip(1) =~= old(bullets)@.skip(i as int + 1));
            assert(enemy_bullet_wf(*patterns, old(bullets)@[i as int], frame - 1));
        }
        let ghost o = old(bullets)@[i as int];
        let ghost cnt0 = spawned@.len() as int;
        let ghost head_jobs = spec_bullet_jobs(*patterns, o, player_position);
        let e = &mut bullets[i];
        let pos0 = e.position;
        e.position = bullet_step(&pos0, &e.state);
        let cur_pos = e.position;
        match &mut e.runner {
            Some((pi, runner)) => {
                let pattern_index: usize = *pi;
                let parent_turn: i64 = runner.turn;
                let program = &patterns.entries[pattern_index].1;
                let dx = clamp_aim_delta(player_position.x as i128 - cur_pos.x as i128);
                let dy = clamp_aim_delta(player_position.y as i128 - cur_pos.y as i128);
                let aim = aim_direction_mdeg(dx, dy);
                proof {
                    assert(cur_pos == spec_moved(o));
                    assert(aim as int == spec_bullet_aim(o, player_position));
                }
                let ghost pre_state = e.state;
                let actions = runner.run_turn(program, &mut e.state, aim);
                let ghost kept = spec_kept_actions(*program, actions@);
                proof {
                    if o.runner is Some {
                        let qr = o.runner.unwrap().1;
                        if qr.stack@.len() == 0 || qr.wait > 0 {
                            assert(actions@ =~= Seq::<BarrageAction>::empty());
                            reveal(Seq::filter);
                            assert(kept =~= Seq::<BarrageAction>::empty());
                            assert(head_jobs =~= Seq::<(BarrageAction, Vec3, usize, i64)>::empty());
                        } else {
                            assert(kept == spec_emitted(*patterns, o, player_position));
                        }
                    }
                }
                let m = actions.len();
                let mut k: usize = 0;
                proof {
                    assert(actions@.take(0) =~= Seq::<BarrageAction>::empty());
                    reveal(Seq::filter);
                    assert(spec_kept_actions(*program, actions@.take(0)) =~= Seq::<
                        BarrageAction,
                    >::empty());
                }
                while k < m
                    invariant
                        m == actions@.len(),
                        0 <= k <= m,
                        patterns.wf(),
                        1 <= frame < FRAME_LIMIT,
                        (pattern_index as int) < patterns.entries@.len(),
                        *program == patterns.entries@[pattern_index as int].1,
                        program.wf(),
                        0 <= parent_turn <= frame - 1,
                        spawned@.len() == cnt0 + spec_kept_actions(
                            *program,
                            actions@.take(k as int),
                        ).len(),
                        forall|t: int|
                            cnt0 <= t < spawned@.len() ==> matches_spawn_job(
                                (
                                    spec_kept_actions(*program, actions@.take(k as int))[t - cnt0],
                                    cur_pos,
                                    pattern_index,
                                    parent_turn,
                                ),
                                #[trigger] spawned@[t],
                            ),
                        forall|t: int|
                            0 <= t < cnt0 ==> matches_spawn_job(
                                jobs[t],
                                #[trigger] spawned@[t],
                            ),
                        forall|t: int|
                            0 <= t < spawned@.len() ==> enemy_bullet_wf(
                                *patterns,
                                #[trigger] spawned@[t],
                                frame as int,
                            ),
                        0 <= cnt0 <= spawned@.len(),
                    decreases m - k,
                {
                    proof {
                        reveal(Seq::filter);
                        assert(actions@.take(k as int + 1).drop_last() =~= actions@.take(k as int));
                        assert(actions@.take(k as int + 1).last() == actions@[k as int]);
                    }
                    let a = actions[k];
                    let ghost kept_pre = spec_kept_actions(*program, actions@.take(k as int));
                    match a {
                        BarrageAction::FireSimple { direction, speed } => {
                            let d = if 0 <= direction && direction < 360_000 {
                                direction
                            } else {
                                0
                            };
                            let s = if 0 <= speed && speed <= SPEED_LIMIT {
                                speed
                            } else {
                                0
                            };
                            let nb = EnemyBullet {
                                position: cur_pos,
                                state: Bullet { direction: d, speed: s, vanished: false },
                                runner: None,
                            };
                            proof {
                                assert(matches_spawn_job(
                                    (a, cur_pos, pattern_index, parent_turn),
                                    nb,
                                ));
                                assert(enemy_bullet_wf(*patterns, nb, frame as int));
                                reveal(Seq::filter);
                                assert(spec_kept_actions(*program, actions@.take(k as int + 1))
                                    =~= kept_pre.push(a));
                            }
                            let ghost pre_sp = spawned@;
                            spawned.push(nb);
                            proof {
                                let kept_new = spec_kept_actions(
                                    *program,
                                    actions@.take(k as int + 1),
                                );
                                assert(kept_new == kept_pre.push(a));
                                assert forall|t: int|
                                    cnt0 <= t < spawned@.len() implies matches_spawn_job(
                                    (kept_new[t - cnt0], cur_pos, pattern_index, parent_turn),
                                    #[trigger] spawned@[t],
                                ) by {
                                    if t < pre_sp.len() {
                                        assert(spawned@[t] == pre_sp[t]);
                                        assert(kept_new[t - cnt0] == kept_pre[t - cnt0]);
                                        assert(matches_spawn_job(
                                            (
                                                kept_pre[t - cnt0],
                                                cur_pos,
                                                pattern_index,
                                                parent_turn,
                                            ),
                                            pre_sp[t],
                                        ));
                                    } else {
                                        assert(spawned@[t] == nb);
                                        assert(t - cnt0 == kept_pre.len());
                                        assert(kept_new[t - cnt0] == a);
                                    }
                                }
                            }
                        },
                        BarrageAction::SpawnPattern { direction, speed, body } => {
                            let d = if 0 <= direction && direction < 360_000 {
                                direction
                            } else {
                                0
                            };
                            let s = if 0 <= speed && speed <= SPEED_LIMIT {
                                speed
                            } else {
                                0
                            };
                            if body < program.lists.len() {
                                let mut child = Runner::for_list(program, body);
                                child.turn = parent_turn;
                                let nb = EnemyBullet {
                                    position: cur_pos,
                                    state: Bullet { direction: d, speed: s, vanished: false },
                                    runner: Some((pattern_index, child)),
                                };
                                proof {
                                    assert(matches_spawn_job(
                                        (a, cur_pos, pattern_index, parent_turn),
                                        nb,
                                    ));
                                    assert(enemy_bullet_wf(*patterns, nb, frame as int));
                                    reveal(Seq::filter);
                                    assert(spec_kept_actions(
                                        *program,
                                        actions@.take(k as int + 1),
                                    ) =~= kept_pre.push(a));
                                }
                                let ghost pre_sp = spawned@;
                            spawned.push(nb);
                            proof {
                                let kept_new = spec_kept_actions(
                                    *program,
                                    actions@.take(k as int + 1),
                                );
                                assert(kept_new == kept_pre.push(a));
                                assert forall|t: int|
                                    cnt0 <= t < spawned@.len() implies matches_spawn_job(
                                    (kept_new[t - cnt0], cur_pos, pattern_index, parent_turn),
                                    #[trigger] spawned@[t],
                                ) by {
                                    if t < pre_sp.len() {
                                        assert(spawned@[t] == pre_sp[t]);
                                        assert(kept_new[t - cnt0] == kept_pre[t - cnt0]);
                                        assert(matches_spawn_job(
                                            (
                                                kept_pre[t - cnt0],
                                                cur_pos,
                                                pattern_index,
                                                parent_turn,
                                            ),
                                            pre_sp[t],
                                        ));
                                    } else {
                                        assert(spawned@[t] == nb);
                                        assert(t - cnt0 == kept_pre.len());
                                        assert(kept_new[t - cnt0] == a);
                                    }
                                }
                            }
                            } else {
                                proof {
                                    reveal(Seq::filter);
                                    assert(spec_kept_actions(
                                        *program,
                                        actions@.take(k as int + 1),
                                    ) =~= kept_pre);
                                }
                            }
                        },
                    }
                    k = k + 1;
                }
                proof {
                    assert(actions@.take(m as int) =~= actions@);
                    if o.runner is Some {
                        let qi = o.runner.unwrap().0;
                        let qr = o.runner.unwrap().1;
                        if !(qr.stack@.len() == 0 || qr.wait > 0) {
                            assert(head_jobs == kept.map_values(
                                |a: BarrageAction| (a, spec_moved(o), qi, qr.turn),
                            ));
                            assert forall|t: int|
                                cnt0 <= t < spawned@.len() implies matches_spawn_job(
                                head_jobs[t - cnt0],
                                #[trigger] spawned@[t],
                            ) by {
                                assert(head_jobs[t - cnt0] == (
                                    kept[t - cnt0],
                                    cur_pos,
                                    pattern_index,
                                    parent_turn,
                                ));
                            }
                        }
                    }
                }
            },
            None => {
                proof {
                    assert(head_jobs =~= Seq::<(BarrageAction, Vec3, usize, i64)>::empty());
                }
            },
        }
        proof {
            assert(spec_sweep_spawns(*patterns, old(bullets)@.skip(i as int), player_position)
                == head_jobs + spec_sweep_spawns(
                *patterns,
                old(bullets)@.skip(i as int + 1),
                player_position,
            ));
            assert(head_jobs.len() == spawned@.len() - cnt0);
            assert forall|t: int|
                cnt0 <= t < spawned@.len() implies matches_spawn_job(
                jobs[t],
                #[trigger] spawned@[t],
            ) by {
                assert(jobs.skip(cnt0)[t - cnt0] == jobs[t]);
                assert(jobs[t] == head_jobs[t - cnt0]);
            }
            assert(jobs.skip(cnt0).skip(head_jobs.len() as int) =~= jobs.skip(
                spawned@.len() as int,
            ));
            assert(spec_sweep_spawns(*patterns, old(bullets)@.skip(i as int + 1), player_position)
                =~= jobs.skip(spawned@.len() as int));
        }
        i = i + 1;
    }
    proof {
        assert(old(bullets)@.skip(n as int) =~= Seq::<EnemyBullet>::empty());
        assert(jobs.skip(spawned@.len() as int) =~= Seq::<(BarrageAction, Vec3, usize, i64)>::empty());
        assert(spawned@.len() == jobs.len());
    }
    let n_spawned = spawned.len();
    let ghost spawned0 = spawned@;
    let ghost base = bullets@;
    let mut k: usize = 0;
    while k < n_spawned
        invariant
            n_spawned == spawned@.len(),
            n_spawned == jobs.len(),
            spawned@ == spawned0,
            0 <= k <= n_spawned,
            patterns.wf(),
            1 <= frame < FRAME_LIMIT,
            forall|t: int|
                0 <= t < spawned@.len() ==> matches_spawn_job(#[trigger] jobs[t], spawned@[t]),
            forall|t: int|
                0 <= t < spawned@.len() ==> enemy_bullet_wf(
                    *patterns,
                    #[trigger] spawned@[t],
                    frame as int,
                ),
            bullets@.len() == base.len() + k,
            base.len() == old(bullets)@.len(),
            forall|j: int| 0 <= j < base.len() ==> bullets@[j] == base[j],
            forall|j: int|
                0 <= j < base.len() ==> enemy_bullet_wf(
                    *patterns,
                    #[trigger] base[j],
                    frame as int,
                ) && spec_bullet_evolved(*patterns, old(bullets)@[j], base[j], player_position),
            forall|t: int|
                0 <= t < k ==> matches_spawn_job(#[trigger] jobs[t], bullets@[base.len() + t]),
            forall|t: int|
                base.len() <= t < bullets@.len() ==> enemy_bullet_wf(
                    *patterns,
                    #[trigger] bullets@[t],
                    frame as int,
                ),
        decreases n_spawned - k,
    {
        let b = clone_enemy_bullet(&spawned[k]);
        proof {
            assert(matches_spawn_job(jobs[k as int], spawned@[k as int]));
            assert(enemy_bullet_wf(*patterns, spawned@[k as int], frame as int));
            if jobs[k as int].0 matches BarrageAction::FireSimple { .. } {
                assert(b == spawned@[k as int]);
            }
            assert(matches_spawn_job(jobs[k as int], b));
            assert(enemy_bullet_wf(*patterns, b, frame as int));
        }
        let ghost pre_len = bullets@.len() as int;
        bullets.push(b);
        proof {
            assert(bullets@[pre_len] == b);
            assert(pre_len == base.len() + k);
        }
        k = k + 1;
    }
    proof {
        assert forall|j: int|
            0 <= j < bullets@.len() implies enemy_bullet_wf(
            *patterns,
            #[trigger] bullets@[j],
            frame as int,
        ) by {
            if j < base.len() {
                assert(bullets@[j] == base[j]);
                assert(enemy_bullet_wf(*patterns, base[j], frame as int));
            }
        }
        assert forall|j: int|
            0 <= j < old(bullets)@.len() implies spec_bullet_evolved(
            *patterns,
            old(bullets)@[j],
            #[trigger] bullets@[j],
            player_position,
        ) by {
            assert(bullets@[j] == base[j]);
        }
    }
    n_spawned
}

/// Copies a bullet; the copy is the same bullet wherever the
/// contracts look.
fn clone_enemy_bullet(b: &EnemyBullet) -> (r: EnemyBullet)
    ensures
        r.position == b.position,
        r.state == b.state,
        r.runner is Some <==> b.runner is Some,
        b.runner matches Some((pi, ru)) ==> r.runner matches Some((pi2, ru2)) && pi2 == pi
            && ru2.stack@ == ru.stack@ && ru2.wait == ru.wait && ru2.turn == ru.turn,
{
    match &b.runner {
        Some((pi, ru)) => {
            let stack = vstd::slice::slice_to_vec(ru.stack.as_slice());
            EnemyBullet {
                position: b.position,
                state: b.state,
                runner: Some((*pi, Runner { stack, wait: ru.wait, turn: ru.turn })),
            }
        },
        None => EnemyBullet { position: b.position, state: b.state, runner: None },
    }
}

/// Whether the destruction rules remove a bullet this tick: a plain
/// bullet goes when it leaves the play area; a pattern bullet goes
/// only when it is out of sight — outside or vanished — and its
/// interpreter has reported completion.
pub open spec fn spec_bullet_despawns(b: EnemyBullet, area: PlayAreaDescriptor) -> bool {
    match b.runner {
        None => area.spec_is_outside(b.position),
        Some((pi, r)) => (area.spec_is_outside(b.position) || b.state.vanished) && r.stack@.len()
            == 0,
    }
}

/// The bullets the despawn rules keep, in order.
pub open spec fn spec_surviving_bullets(
    bullets: Seq<EnemyBullet>,
    area: PlayAreaDescriptor,
) -> Seq<EnemyBullet> {
    bullets.filter(|b: EnemyBullet| !spec_bullet_despawns(b, area))
}

/// Bullet cleanup: exactly the bullets the despawn rules condemn are
/// removed; the others stay, in order.
pub fn despawn_bullet_system(bullets: &mut Vec<EnemyBullet>, area: &PlayAreaDescriptor)
    requires
        area.wf(),
    ensures
        final(bullets)@ == spec_surviving_bullets(old(bullets)@, *area),
        forall|j: int|
            0 <= j < final(bullets)@.len() ==> exists|k: int|
                0 <= k < old(bullets)@.len() && #[trigger] final(bullets)@[j] == old(bullets)@[k],
{
    let ghost area0 = *area;
    let ghost src0 = old(bullets)@;
    let mut src: Vec<EnemyBullet> = Vec::new();
    std::mem::swap(&mut src, bullets);
    proof {
        reveal(Seq::filter);
        assert(src0.take(0int) =~= Seq::<EnemyBullet>::empty());
        assert(bullets@ =~= spec_surviving_bullets(src0.take(0int), area0));
    }
    let n = src.len();
    let mut i: usize = 0;
    while i < n
        invariant
            n == src0.len(),
            src@ == src0.skip(i as int),
            0 <= i <= n,
            area.wf(),
            area0 == *area,
            bullets@ == spec_surviving_bullets(src0.take(i as int), area0),
            forall|j: int|
                0 <= j < bullets@.len() ==> exists|k: int|
                    0 <= k < src0.len() && #[trigger] bullets@[j] == src0[k],
        decreases n - i,
    {
        proof {
            assert(src0.skip(i as int)[0] == src0[i as int]);
        }
        let b = src.remove(0);
        proof {
            assert(src@ =~= src0.skip(i as int + 1));
        }
        let gone = match &b.runner {
            None => area.is_outside(&b.position),
            Some((_, r)) => (area.is_outside(&b.position) || b.state.vanished) && r.is_end(),
        };
        proof {
            reveal(Seq::filter);
            assert(src0.take(i as int + 1).drop_last() =~= src0.take(i as int));
            assert(src0.take(i as int + 1).last() == src0[i as int]);
        }
        if !gone {
            bullets.push(b);
        }
        i = i + 1;
    }
    proof {
        assert(src0.take(n as int) =~= src0);
    }
}

/// Player bullet motion: every player bullet climbs by the bullet
/// speed.
pub fn move_player_bullet_system(bullets: &mut Vec<Vec3>)
    ensures
        final(bullets)@.len() == old(bullets)@.len(),
        forall|j: int|
            0 <= j < old(bullets)@.len() ==> final(bullets)@[j] == (Vec3 {
                y: crate::vec3::spec_sat_add(
                    old(bullets)@[j].y as int,
                    crate::shots::PLAYER_BULLET_SPEED as int,
                ) as i64,
                ..old(bullets)@[j]
            }),
{
    let n = bullets.len();
    let mut i: usize = 0;
    while i < n
        invariant
            n == bullets@.len(),
            0 <= i <= n,
            forall|j: int| i <= j < n ==> bullets@[j] == old(bullets)@[j],
            forall|j: int|
                0 <= j < i ==> bullets@[j] == (Vec3 {
                    y: crate::vec3::spec_sat_add(
                        old(bullets)@[j].y as int,
                        crate::shots::PLAYER_BULLET_SPEED as int,
                    ) as i64,
                    ..old(bullets)@[j]
                }),
        decreases n - i,
    {
        let b = &mut bullets[i];
        b.y = crate::shots::advance_player_bullet(b.y);
        i = i + 1;
    }
}

/// The player bullets still under the top of the play area, in
/// order.
pub open spec fn spec_surviving_player_bullets(
    bullets: Seq<Vec3>,
    area: PlayAreaDescriptor,
) -> Seq<Vec3> {
    bullets.filter(|p: Vec3| !crate::shots::spec_player_bullet_gone(p.y as int, area))
}

/// Player bullet cleanup: exactly the bullets whose bottom edge has
/// cleared the top of the play area are removed.
pub fn destroy_player_bullet_go_outside_system(bullets: &mut Vec<Vec3>, area: &PlayAreaDescriptor)
    requires
        area.wf(),
    ensures
        final(bullets)@ == spec_surviving_player_bullets(old(bullets)@, *area),
{
    let ghost area0 = *area;
    let ghost src0 = old(bullets)@;
    let mut src: Vec<Vec3> = Vec::new();
    std::mem::swap(&mut src, bullets);
    proof {
        reveal(Seq::filter);
        assert(src0.take(0int) =~= Seq::<Vec3>::empty());
        assert(bullets@ =~= spec_surviving_player_bullets(src0.take(0int), area0));
    }
    let n = src.len();
    let mut i: usize = 0;
    while i < n
        invariant
            n == src0.len(),
            src@ == src0.skip(i as int),
            0 <= i <= n,
            area.wf(),
            area0 == *area,
            bullets@ == spec_surviving_player_bullets(src0.take(i as int), area0),
        decreases n - i,
    {
        proof {
            assert(src0.skip(i as int)[0] == src0[i as int]);
        }
        let p = src.remove(0);
        proof {
            assert(src@ =~= src0.skip(i as int + 1));
        }
        let gone = crate::shots::player_bullet_gone(p.y, area);
        proof {
            reveal(Seq::filter);
            assert(src0.take(i as int + 1).drop_last() =~= src0.take(i as int));
            assert(src0.take(i as int + 1).last() == src0[i as int]);
        }
        if !gone {
            bullets.push(p);
        }
        i = i + 1;
    }
    proof {
        assert(src0.take(n as int) =~= src0);
    }
}

/// The largest value the score can hold.
pub const SCORE_LIMIT: i64 = crate::score::SCORE_LIMIT;

/// A bonus award, saturated at the score bound.
pub open spec fn spec_award(score: int, bonus: int) -> int {
    if score + bonus > SCORE_LIMIT {
        SCORE_LIMIT as int
    } else {
        score + bonus
    }
}

/// Awards a destroyed enemy's bonus; the score saturates at its
/// bound instead of overflowing.
fn award_score(score: &mut crate::score::Score, bonus: i64)
    requires
        0 <= bonus <= BONUS_LIMIT,
        0 <= old(score).score <= SCORE_LIMIT,
    ensures
        final(score).score == spec_award(old(score).score as int, bonus as int),
        final(score).player_stock == old(score).player_stock,
        0 <= final(score).score <= SCORE_LIMIT,
{
    if score.score <= SCORE_LIMIT - bonus {
        score.add_score(bonus);
    } else {
        score.score = SCORE_LIMIT;
    }
}

/// Whether a player bullet's box overlaps an enemy's box.
pub open spec fn spec_bullet_hits_enemy(bullet: Vec3, enemy: Enemy) -> bool {
    crate::destroy::spec_collide(
        bullet,
        Vec3 { x: PLAYER_BULLET_SCALE, y: PLAYER_BULLET_SCALE, z: PLAYER_BULLET_SCALE },
        enemy.position,
        Vec3 { x: ENEMY_SIZE, y: ENEMY_SIZE, z: ENEMY_SIZE },
    )
}

/// The position of the first enemy the bullet's box overlaps, or the
/// length of the list if it overlaps none.
pub open spec fn spec_first_hit(b: Vec3, enemies: Seq<Enemy>) -> int
    decreases enemies.len(),
{
    if enemies.len() == 0 {
        0
    } else if spec_bullet_hits_enemy(b, enemies[0]) {
        0
    } else {
        1 + spec_first_hit(b, enemies.skip(1))
    }
}

/// The first hit lies between zero and the length, nothing before it
/// is hit, and it is a hit unless it is the length.
proof fn lemma_first_hit(b: Vec3, enemies: Seq<Enemy>)
    ensures
        0 <= spec_first_hit(b, enemies) <= enemies.len(),
        forall|j: int|
            0 <= j < spec_first_hit(b, enemies) ==> !spec_bullet_hits_enemy(
                b,
                #[trigger] enemies[j],
            ),
        spec_first_hit(b, enemies) < enemies.len() ==> spec_bullet_hits_enemy(
            b,
            enemies[spec_first_hit(b, enemies)],
        ),
    decreases enemies.len(),
{
    if enemies.len() > 0 && !spec_bullet_hits_enemy(b, enemies[0]) {
        lemma_first_hit(b, enemies.skip(1));
        assert(forall|j: int| 1 <= j < enemies.len() ==> enemies[j] == enemies.skip(1)[j - 1]);
    }
}

/// The index of the first enemy a player bullet's box overlaps, if
/// any.
fn find_hit_enemy(bullet_pos: &Vec3, enemies: &Vec<Enemy>) -> (r: Option<usize>)
    ensures
        match r {
            Some(i) => (i as int) == spec_first_hit(*bullet_pos, enemies@) && (i as int)
                < enemies@.len(),
            None => spec_first_hit(*bullet_pos, enemies@) == enemies@.len(),
        },
{
    proof {
        lemma_first_hit(*bullet_pos, enemies@);
        assert(enemies@.skip(0) =~= enemies@);
    }
    let bullet_scale = Vec3::new(PLAYER_BULLET_SCALE, PLAYER_BULLET_SCALE, PLAYER_BULLET_SCALE);
    let enemy_scale = Vec3::new(ENEMY_SIZE, ENEMY_SIZE, ENEMY_SIZE);
    let n = enemies.len();
    let mut i: usize = 0;
    while i < n
        invariant
            n == enemies@.len(),
            0 <= i <= n,
            bullet_scale == (Vec3 {
                x: PLAYER_BULLET_SCALE,
                y: PLAYER_BULLET_SCALE,
                z: PLAYER_BULLET_SCALE,
            }),
            enemy_scale == (Vec3 { x: ENEMY_SIZE, y: ENEMY_SIZE, z: ENEMY_SIZE }),
            spec_first_hit(*bullet_pos, enemies@) == i + spec_first_hit(
                *bullet_pos,
                enemies@.skip(i as int),
            ),
        decreases n - i,
    {
        proof {
            assert(enemies@.skip(i as int)[0] == enemies@[i as int]);
            assert(enemies@.skip(i as int).skip(1) =~= enemies@.skip(i as int + 1));
            lemma_first_hit(*bullet_pos, enemies@.skip(i as int));
        }
        if crate::destroy::collide(bullet_pos, &bullet_scale, &enemies[i].position, &enemy_scale) {
            return Some(i);
        }
        i = i + 1;
    }
    proof {
        assert(enemies@.skip(n as int) =~= Seq::<Enemy>::empty());
    }
    None
}

/// What the destruction phase reports to the stage.
#[derive(Clone, Copy, PartialEq, Eq, Structural, Debug)]
pub struct DestroyReport {
    pub destroyed_enemies: usize,
    pub boss_destroyed: bool,
}

/// The state the destruction rules fold over: the enemies still
/// standing, the player bullets that struck nothing so far, the
/// score, and what was destroyed.
#[verifier::ext_equal]
pub struct SpecDestroyState {
    pub enemies: Seq<Enemy>,
    pub kept_bullets: Seq<Vec3>,
    pub score: int,
    pub destroyed: int,
    pub boss_destroyed: bool,
}

/// One player bullet of the destruction rules: it strikes the first
/// enemy whose box it overlaps and is consumed by the strike; the
/// struck enemy loses exactly one hit point, and at zero it is
/// removed, its bonus awarded, and its boss flag noted. A bullet
/// that overlaps no enemy is kept, and nothing else changes.
pub open spec fn spec_destroy_step(s: SpecDestroyState, b: Vec3) -> SpecDestroyState {
    let hit = spec_first_hit(b, s.enemies);
    if hit == s.enemies.len() {
        SpecDestroyState { kept_bullets: s.kept_bullets.push(b), ..s }
    } else {
        let e = s.enemies[hit];
        if e.hp - 1 <= 0 {
            SpecDestroyState {
                enemies: s.enemies.remove(hit),
                score: spec_award(s.score, e.bonus_score as int),
                destroyed: s.destroyed + 1,
                boss_destroyed: s.boss_destroyed || e.is_boss_enemy,
                ..s
            }
        } else {
            SpecDestroyState {
                enemies: s.enemies.update(hit, Enemy { hp: (e.hp - 1) as i64, ..e }),
                ..s
            }
        }
    }
}

/// The destruction rules folded over the player bullets, in order.
pub open spec fn spec_destroy(s: SpecDestroyState, bullets: Seq<Vec3>) -> SpecDestroyState
    decreases bullets.len(),
{
    if bullets.len() == 0 {
        s
    } else {
        spec_destroy(spec_destroy_step(s, bullets[0]), bullets.skip(1))
    }
}

/// Destruction: the destruction rules, folded over the player
/// bullets in order, determine exactly the surviving enemies and
/// bullets, the score, the destroyed count, and whether a
/// boss-flagged enemy fell.
pub fn destroy_enemy_system(
    player_bullets: &mut Vec<Vec3>,
    enemies: &mut Vec<Enemy>,
    score: &mut crate::score::Score,
    frame: i64,
) -> (r: DestroyReport)
    requires
        enemies_wf(old(enemies)@, frame as int),
        0 <= old(score).score <= SCORE_LIMIT,
    ensures
        ({
            let out = spec_destroy(
                SpecDestroyState {
                    enemies: old(enemies)@,
                    kept_bullets: Seq::empty(),
                    score: old(score).score as int,
                    destroyed: 0,
                    boss_destroyed: false,
                },
                old(player_bullets)@,
            );
            &&& final(enemies)@ == out.enemies
            &&& final(player_bullets)@ == out.kept_bullets
            &&& final(score).score == out.score
            &&& r.destroyed_enemies == out.destroyed
            &&& r.boss_destroyed == out.boss_destroyed
        }),
        enemies_wf(final(enemies)@, frame as int),
        final(enemies)@.len() + r.destroyed_enemies == old(enemies)@.len(),
        forall|j: int, k: int|
            0 <= j < final(player_bullets)@.len() && 0 <= k < final(enemies)@.len()
                ==> !spec_bullet_hits_enemy(
                #[trigger] final(player_bullets)@[j],
                #[trigger] final(enemies)@[k],
            ),
        0 <= final(score).score <= SCORE_LIMIT,
        final(score).score >= old(score).score,
        final(score).player_stock == old(score).player_stock,
{
    let ghost enemies0 = enemies@;
    let ghost bullets0 = old(player_bullets)@;
    let ghost start = SpecDestroyState {
        enemies: enemies0,
        kept_bullets: Seq::empty(),
        score: old(score).score as int,
        destroyed: 0,
        boss_destroyed: false,
    };
    let mut src: Vec<Vec3> = Vec::new();
    std::mem::swap(&mut src, player_bullets);
    let mut destroyed: usize = 0;
    let mut boss_destroyed = false;
    let n = src.len();
    let mut i: usize = 0;
    proof {
        assert(bullets0.skip(0) =~= bullets0);
        assert(player_bullets@ =~= Seq::<Vec3>::empty());
        assert(start == (SpecDestroyState {
            enemies: enemies@,
            kept_bullets: player_bullets@,
            score: score.score as int,
            destroyed: destroyed as int,
            boss_destroyed,
        }));
    }
    while i < n
        invariant
            n == bullets0.len(),
            src@ == bullets0.skip(i as int),
            0 <= i <= n,
            destroyed <= i,
            start == (SpecDestroyState {
                enemies: enemies0,
                kept_bullets: Seq::<Vec3>::empty(),
                score: old(score).score as int,
                destroyed: 0int,
                boss_destroyed: false,
            }),
            spec_destroy(start, bullets0) == spec_destroy(
                SpecDestroyState {
                    enemies: enemies@,
                    kept_bullets: player_bullets@,
                    score: score.score as int,
                    destroyed: destroyed as int,
                    boss_destroyed,
                },
                bullets0.skip(i as int),
            ),
            enemies@.len() + destroyed == enemies0.len(),
            forall|j: int, k: int|
                0 <= j < player_bullets@.len() && 0 <= k < enemies@.len()
                    ==> !spec_bullet_hits_enemy(
                    #[trigger] player_bullets@[j],
                    #[trigger] enemies@[k],
                ),
            enemies_wf(enemies0, frame as int),
            enemies_wf(enemies@, frame as int),
            0 <= score.score <= SCORE_LIMIT,
            score.score >= old(score).score,
            score.player_stock == old(score).player_stock,
        decreases n - i,
    {
        proof {
            assert(bullets0.skip(i as int)[0] == bullets0[i as int]);
        }
        let ghost cur = SpecDestroyState {
            enemies: enemies@,
            kept_bullets: player_bullets@,
            score: score.score as int,
            destroyed: destroyed as int,
            boss_destroyed,
        };
        let b = src.remove(0);
        proof {
            assert(src@ =~= bullets0.skip(i as int + 1));
            lemma_first_hit(b, enemies@);
        }
        match find_hit_enemy(&b, enemies) {
            None => {
                player_bullets.push(b);
                proof {
                    assert(spec_destroy_step(cur, b).kept_bullets =~= player_bullets@);
                    assert(spec_destroy_step(cur, b).enemies =~= enemies@);
                    assert(spec_destroy_step(cur, b) == (SpecDestroyState {
                        enemies: enemies@,
                        kept_bullets: player_bullets@,
                        score: score.score as int,
                        destroyed: destroyed as int,
                        boss_destroyed,
                    }));
                }
            },
            Some(hit) => {
                let ghost pre = enemies@;
                proof {
                    assert(cur.enemies == pre);
                    assert(spec_first_hit(b, cur.enemies) == hit as int);
                }
                let e = &mut enemies[hit];
                proof {
                    assert(enemy_wf(pre[hit as int], frame as int));
                }
                e.hp = e.hp - 1;
                let dead = e.hp <= 0;
                let bonus = e.bonus_score;
                let is_boss = e.is_boss_enemy;
                if dead {
                    let ghost pre2 = enemies@;
                    let _removed = enemies.remove(hit);
                    proof {
                        assert(enemies@ =~= pre.remove(hit as int));
                        assert forall|j: int|
                            0 <= j < enemies@.len() implies enemy_wf(
                            #[trigger] enemies@[j],
                            frame as int,
                        ) by {
                            if j < hit {
                                assert(enemies@[j] == pre2[j]);
                                assert(enemy_wf(pre[j], frame as int));
                            } else {
                                assert(enemies@[j] == pre2[j + 1]);
                                assert(enemy_wf(pre[j + 1], frame as int));
                            }
                        }
                        assert(0 <= bonus <= BONUS_LIMIT);
                    }
                    award_score(score, bonus);
                    destroyed = destroyed + 1;
                    if is_boss {
                        boss_destroyed = true;
                    }
                    proof {
                        assert(cur.enemies[hit as int] == pre[hit as int]);
                        assert(spec_destroy_step(cur, b).enemies =~= enemies@);
                        assert(spec_destroy_step(cur, b).kept_bullets =~= player_bullets@);
                        assert(spec_destroy_step(cur, b).score == score.score as int);
                        assert(spec_destroy_step(cur, b).destroyed == destroyed as int);
                        assert(spec_destroy_step(cur, b).boss_destroyed == boss_destroyed);
                        assert(spec_destroy_step(cur, b) == (SpecDestroyState {
                            enemies: enemies@,
                            kept_bullets: player_bullets@,
                            score: score.score as int,
                            destroyed: destroyed as int,
                            boss_destroyed,
                        }));
                    }
                } else {
                    proof {
                        assert(cur.enemies[hit as int] == pre[hit as int]);
                        assert(enemies@ =~= pre.update(
                            hit as int,
                            Enemy { hp: (pre[hit as int].hp - 1) as i64, ..pre[hit as int] },
                        ));
                        assert forall|j: int|
                            0 <= j < enemies@.len() implies enemy_wf(
                            #[trigger] enemies@[j],
                            frame as int,
                        ) by {
                            if j != hit {
                                assert(enemies@[j] == pre[j]);
                            } else {
                                assert(enemy_wf(pre[hit as int], frame as int));
                            }
                        }
                        assert(spec_destroy_step(cur, b).enemies =~= enemies@);
                        assert(spec_destroy_step(cur, b).kept_bullets =~= player_bullets@);
                        assert(spec_destroy_step(cur, b) == (SpecDestroyState {
                            enemies: enemies@,
                            kept_bullets: player_bullets@,
                            score: score.score as int,
                            destroyed: destroyed as int,
                            boss_destroyed,
                        }));
                    }
                }
            },
        }
        i = i + 1;
    }
    proof {
        assert(bullets0.skip(n as int) =~= Seq::<Vec3>::empty());
    }
    DestroyReport { destroyed_enemies: destroyed, boss_destroyed }
}

/// The enemies after the lifetime update: each counter one higher.
pub open spec fn map_lifetimes(s: Seq<Enemy>) -> Seq<Enemy> {
    Seq::new(
        s.len(),
        |j: int|
            Enemy {
                life_count: LifeCount { count: (s[j].life_count.count + 1) as i64 },
                ..s[j]
            },
    )
}

/// The enemies after the velocity update: each table-driven velocity
/// stepped by its pattern.
pub open spec fn map_velocities(s: Seq<Enemy>) -> Seq<Enemy> {
    Seq::new(
        s.len(),
        |j: int|
            match s[j].strategy {
                EnemyStrategy::Pattern(p) => Enemy {
                    velocity: vel_step(p, s[j].life_count.count as int, s[j].velocity),
                    ..s[j]
                },
                EnemyStrategy::Scenario(_) => s[j],
            },
    )
}

/// The enemies after motion: each position moved by its velocity.
pub open spec fn map_motion(s: Seq<Enemy>) -> Seq<Enemy> {
    Seq::new(
        s.len(),
        |j: int| Enemy { position: spec_vec_add(s[j].position, s[j].velocity), ..s[j] },
    )
}

/// The enemies after the boss phase: each scenario-driven enemy at
/// its action's place.
pub open spec fn map_boss_moves(s: Seq<Enemy>, origin: Vec3) -> Seq<Enemy> {
    Seq::new(s.len(), |j: int| boss_moved(s[j], origin))
}

/// The player bullets after their climb.
pub open spec fn spec_climbed_player_bullets(bullets: Seq<Vec3>) -> Seq<Vec3> {
    Seq::new(
        bullets.len(),
        |j: int|
            Vec3 {
                y: crate::vec3::spec_sat_add(
                    bullets[j].y as int,
                    crate::shots::PLAYER_BULLET_SPEED as int,
                ) as i64,
                ..bullets[j]
            },
    )
}

/// How one tick assembles the bullet list the sweep runs on: the
/// old bullets, then the boss-trigger seeds, then the enemy-trigger
/// seeds, in order.
pub open spec fn seeds_rel(
    patterns: PatternLibrary,
    pre_bullets: Seq<EnemyBullet>,
    bt: Seq<(Vec3, Seq<u8>)>,
    et: Seq<(Vec3, Seq<u8>)>,
    seeded: Seq<EnemyBullet>,
) -> bool {
    &&& seeded.len() == pre_bullets.len() + bt.len() + et.len()
    &&& (forall|j: int| 0 <= j < pre_bullets.len() ==> seeded[j] == pre_bullets[j])
    &&& (forall|k: int|
        0 <= k < bt.len() ==> is_seed_bullet(
            patterns,
            #[trigger] seeded[pre_bullets.len() + k],
            bt[k].0,
            bt[k].1,
        ))
    &&& (forall|k: int|
        0 <= k < et.len() ==> is_seed_bullet(
            patterns,
            #[trigger] seeded[pre_bullets.len() + bt.len() + k],
            et[k].0,
            et[k].1,
        ))
}

/// How one tick takes the assembled bullets through the sweep and
/// the despawn rules into the final bullet list, spawning `n` new
/// bullets.
pub open spec fn sweep_rel(
    patterns: PatternLibrary,
    seeded: Seq<EnemyBullet>,
    player: Vec3,
    area: PlayAreaDescriptor,
    post_bullets: Seq<EnemyBullet>,
    n: int,
) -> bool {
    let jobs = spec_sweep_spawns(patterns, seeded, player);
    &&& n == jobs.len()
    &&& exists|swept: Seq<EnemyBullet>|
        #![trigger swept.len()]
        {
            &&& swept.len() == seeded.len() + jobs.len()
            &&& (forall|j: int|
                0 <= j < seeded.len() ==> spec_bullet_evolved(
                    patterns,
                    seeded[j],
                    #[trigger] swept[j],
                    player,
                ))
            &&& (forall|k: int|
                0 <= k < jobs.len() ==> matches_spawn_job(
                    #[trigger] jobs[k],
                    swept[seeded.len() + k],
                ))
            &&& post_bullets == spec_surviving_bullets(swept, area)
        }
}

/// How one tick assembles the enemy list after the emerge phases.
pub open spec fn emerge_rel(
    after_boss: Seq<Enemy>,
    rows: Seq<crate::emerge::SpecRow>,
    bosses: Seq<crate::emerge::BossEmerge>,
    frame: int,
    origin: Vec3,
    emerged: Seq<Enemy>,
) -> bool {
    let due = crate::emerge::spec_due_rows(rows, frame);
    let dueb = spec_due_bosses(bosses, frame);
    &&& emerged.len() == after_boss.len() + due.len() + dueb.len()
    &&& (forall|j: int| 0 <= j < after_boss.len() ==> emerged[j] == after_boss[j])
    &&& (forall|k: int|
        0 <= k < due.len() ==> spawned_from_row(
            #[trigger] emerged[after_boss.len() + k],
            rows[due[k]],
            frame,
            origin,
        ))
    &&& (forall|k: int|
        0 <= k < dueb.len() ==> spawned_boss_from(
            #[trigger] emerged[after_boss.len() + due.len() + k],
            bosses[dueb[k]],
            frame,
            origin,
        ))
}

/// How one tick folds destruction over the climbed and pruned player
/// bullets, producing the final enemies, bullets, score and report
/// fields.
pub open spec fn destroy_rel(
    emerged: Seq<Enemy>,
    pre_score: int,
    pbullets: Seq<Vec3>,
    post: Stage,
    r: TickReport,
) -> bool {
    let out = spec_destroy(
        SpecDestroyState {
            enemies: emerged,
            kept_bullets: Seq::empty(),
            score: pre_score,
            destroyed: 0,
            boss_destroyed: false,
        },
        pbullets,
    );
    &&& post.enemies@ == out.enemies
    &&& post.player_bullets@ == out.kept_bullets
    &&& post.score.score == out.score
    &&& r.destroyed_enemies == out.destroyed
    &&& r.transition == (if out.boss_destroyed {
        Some(crate::app_state::AppState::Ending)
    } else {
        None::<crate::app_state::AppState>
    })
}

/// Everything one tick does, phase by phase in the mandated order:
/// the clock advances; every lifetime counts up by one; the velocity
/// tables, motion and boss scenarios apply; the rows and boss entries
/// due on the new frame emerge; the due barrages plant their seed
/// bullets; every bullet moves and its program runs one turn,
/// planting what it spawns; the despawn rules prune the bullets; the
/// destruction rules fold over the climbed player bullets; and the
/// report carries the exact counts.
pub open spec fn spec_tick_rel(pre: Stage, post: Stage, r: TickReport) -> bool {
    let frame = pre.frame.count + 1;
    let origin = pre.play_area.origin;
    let after_boss = map_boss_moves(
        map_motion(map_velocities(map_lifetimes(pre.enemies@))),
        origin,
    );
    let after_motion = map_motion(map_velocities(map_lifetimes(pre.enemies@)));
    let due = crate::emerge::spec_due_rows(pre.timeline.spec_rows(), frame);
    let dueb = spec_due_bosses(pre.boss_timeline@, frame);
    let bt = spec_boss_triggered(after_motion, pre.patterns);
    let pbullets = spec_surviving_player_bullets(
        spec_climbed_player_bullets(pre.player_bullets@),
        pre.play_area,
    );
    &&& post.frame.count == frame
    &&& post.play_area == pre.play_area
    &&& post.patterns == pre.patterns
    &&& post.timeline == pre.timeline
    &&& post.boss_timeline == pre.boss_timeline
    &&& post.player.position == pre.player.position
    &&& post.player.state == crate::player::spec_tick_invincibility(pre.player.state)
    &&& post.score.player_stock == pre.score.player_stock
    &&& r.skipped_boss_barrages == spec_skipped_boss_triggers(after_motion, pre.patterns)
    &&& exists|emerged: Seq<Enemy>|
        #![trigger emerged.len()]
        {
            &&& emerge_rel(
                after_boss,
                pre.timeline.spec_rows(),
                pre.boss_timeline@,
                frame,
                origin,
                emerged,
            )
            &&& r.skipped_enemy_barrages == spec_skipped_triggers(emerged, pre.patterns)
            &&& exists|seeded: Seq<EnemyBullet>|
                #![trigger seeded.len()]
                {
                    &&& seeds_rel(
                        pre.patterns,
                        pre.enemy_bullets@,
                        bt,
                        spec_triggered(emerged, pre.patterns),
                        seeded,
                    )
                    &&& sweep_rel(
                        pre.patterns,
                        seeded,
                        pre.player.position,
                        pre.play_area,
                        post.enemy_bullets@,
                        r.spawned_bullets as int,
                    )
                }
            &&& destroy_rel(emerged, pre.score.score as int, pbullets, post, r)
        }
}

/// The whole running stage: the clock, the play area, the pattern
/// library and spawn timelines loaded at stage start, and every live
/// entity. All of it is created at stage entry and torn down at
/// stage exit, between ticks.
#[derive(Clone, Debug)]
pub struct Stage {
    pub frame: GameFrame,
    pub play_area: PlayAreaDescriptor,
    pub patterns: PatternLibrary,
    pub timeline: crate::emerge::EnemyEmerge,
    pub boss_timeline: Vec<crate::emerge::BossEmerge>,
    pub enemies: Vec<Enemy>,
    pub enemy_bullets: Vec<EnemyBullet>,
    pub player_bullets: Vec<Vec3>,
    pub player: crate::player::Player,
    pub score: crate::score::Score,
}

/// What one tick reports to the surroundings.
#[derive(Clone, Copy, PartialEq, Eq, Structural, Debug)]
pub struct TickReport {
    pub destroyed_enemies: usize,
    pub skipped_boss_barrages: usize,
    pub skipped_enemy_barrages: usize,
    pub spawned_bullets: usize,
    pub transition: Option<crate::app_state::AppState>,
}

impl Stage {
    /// The stage invariant: the clock never runs backwards past
    /// zero, the play area and pattern library are usable, every
    /// enemy's lifetime is exactly the frames since its spawn, every
    /// bullet's interpreter points into its program and has run at
    /// most one turn per frame, and the score is in range.
    pub open spec fn wf(&self) -> bool {
        &&& 0 <= self.frame.count
        &&& self.play_area.wf()
        &&& self.patterns.wf()
        &&& enemies_wf(self.enemies@, self.frame.count as int)
        &&& bullets_wf(self.patterns, self.enemy_bullets@, self.frame.count as int)
        &&& 0 <= self.score.score <= SCORE_LIMIT
        &&& forall|i: int|
            0 <= i < self.boss_timeline@.len() ==> 1 <= (#[trigger] self.boss_timeline@[i]).hp && 0
                <= self.boss_timeline@[i].bonus_score <= BONUS_LIMIT
    }

    /// Sets a stage up at frame zero with no live entities, the
    /// player at the start position, and a fresh score.
    pub fn new(
        play_area: PlayAreaDescriptor,
        patterns: PatternLibrary,
        timeline: crate::emerge::EnemyEmerge,
        boss_timeline: Vec<crate::emerge::BossEmerge>,
        player_position: Vec3,
    ) -> (r: Stage)
        requires
            play_area.wf(),
            patterns.wf(),
            forall|i: int|
                0 <= i < boss_timeline@.len() ==> 1 <= (#[trigger] boss_timeline@[i]).hp && 0
                    <= boss_timeline@[i].bonus_score <= BONUS_LIMIT,
        ensures
            r.wf(),
            r.frame.count == 0,
            r.enemies@.len() == 0,
            r.enemy_bullets@.len() == 0,
            r.player_bullets@.len() == 0,
            r.score.score == 0,
            r.timeline == timeline,
            r.boss_timeline == boss_timeline,
            r.patterns == patterns,
            r.play_area == play_area,
            r.player.position == player_position,
    {
        Stage {
            frame: GameFrame::new(),
            play_area,
            patterns,
            timeline,
            boss_timeline,
            enemies: Vec::new(),
            enemy_bullets: Vec::new(),
            player_bullets: Vec::new(),
            player: crate::player::Player::new(player_position),
            score: crate::score::Score::new(),
        }
    }

    /// One tick of the simulation, in the mandatory order: the clock
    /// advances; every lifetime counts up by exactly one; movement
    /// strategies and boss scenarios consult the updated lifetimes;
    /// enemies due on the new frame emerge; every bullet program
    /// advances one turn; destruction removes what the rules condemn.
    /// The stage invariant — in particular, that every enemy's
    /// lifetime is exactly the new frame minus its spawn frame — is
    /// preserved, and a transition is signalled only towards the
    /// ending, on the tick a boss is destroyed.
    pub fn tick(&mut self) -> (r: TickReport)
        requires
            old(self).wf(),
            old(self).frame.count + 1 < FRAME_LIMIT,
        ensures
            final(self).wf(),
            final(self).frame.count == old(self).frame.count + 1,
            final(self).play_area == old(self).play_area,
            final(self).patterns == old(self).patterns,
            final(self).timeline == old(self).timeline,
            final(self).boss_timeline == old(self).boss_timeline,
            forall|j: int|
                0 <= j < final(self).enemies@.len() ==> {
                    let e = #[trigger] final(self).enemies@[j];
                    e.life_count.count == final(self).frame.count - e.spawn_frame
                        && e.life_count.count >= 0
                },
            r.transition matches Some(s) ==> s == crate::app_state::AppState::Ending,
            spec_tick_rel(*old(self), *final(self), r),
    {
        self.frame.advance();
        let frame = self.frame.count;
        count_up_enemy_life_count_system(&mut self.enemies, frame - 1);
        let ghost s1 = self.enemies@;
        update_enemy_velocity_system(&mut self.enemies);
        let ghost s2 = self.enemies@;
        proof {
            assert forall|j: int|
                0 <= j < self.enemies@.len() implies enemy_wf(
                #[trigger] self.enemies@[j],
                frame as int,
            ) by {}
        }
        move_enemy_system(&mut self.enemies);
        proof {
            assert forall|j: int|
                0 <= j < self.enemies@.len() implies enemy_wf(
                #[trigger] self.enemies@[j],
                frame as int,
            ) by {}
        }
        let ghost pre_boss = self.enemies@;
        let ghost b0 = self.enemy_bullets@;
        let skipped_boss_barrages = move_boss_system(
            &mut self.enemies,
            &self.patterns,
            self.play_area.origin,
            &mut self.enemy_bullets,
        );
        proof {
            assert forall|j: int|
                0 <= j < self.enemies@.len() implies enemy_wf(
                #[trigger] self.enemies@[j],
                frame as int,
            ) by {
                assert(self.enemies@[j] == boss_moved(pre_boss[j], self.play_area.origin));
                assert(enemy_wf(pre_boss[j], frame as int));
            }
        }
        let ghost b1 = self.enemy_bullets@;
        let ghost pre_emerge = self.enemies@;
        emerge_enemy_system(&self.timeline, frame, self.play_area.origin, &mut self.enemies);
        let ghost mid_emerge = self.enemies@;
        boss_emerge_system(&self.boss_timeline, frame, self.play_area.origin, &mut self.enemies);
        let ghost emerged = self.enemies@;
        proof {
            let due = crate::emerge::spec_due_rows(self.timeline.spec_rows(), frame as int);
            assert forall|j: int|
                0 <= j < self.enemies@.len() implies enemy_wf(
                #[trigger] self.enemies@[j],
                frame as int,
            ) by {
                if j < mid_emerge.len() {
                    assert(self.enemies@[j] == mid_emerge[j]);
                    if j < pre_emerge.len() {
                        assert(mid_emerge[j] == pre_emerge[j]);
                        assert(enemy_wf(pre_emerge[j], frame as int));
                    } else {
                        let k = j - pre_emerge.len();
                        assert(spawned_from_row(
                            mid_emerge[pre_emerge.len() + k],
                            self.timeline.spec_rows()[due[k]],
                            frame as int,
                            self.play_area.origin,
                        ));
                    }
                } else {
                    let dueb = spec_due_bosses(self.boss_timeline@, frame as int);
                    let k = j - mid_emerge.len();
                    assert(spawned_boss_from(
                        self.enemies@[mid_emerge.len() + k],
                        self.boss_timeline@[dueb[k]],
                        frame as int,
                        self.play_area.origin,
                    ));
                    assert(0 <= dueb[k] < self.boss_timeline@.len());
                }
            }
        }
        let skipped_enemy_barrages = start_barrage_system(
            &self.enemies,
            &self.patterns,
            &mut self.enemy_bullets,
        );
        let ghost seeded = self.enemy_bullets@;
        proof {
            assert forall|j: int|
                0 <= j < self.enemy_bullets@.len() implies enemy_bullet_wf(
                self.patterns,
                #[trigger] self.enemy_bullets@[j],
                frame - 1,
            ) by {}
        }
        let spawned_bullets = update_bullet_system(
            &mut self.enemy_bullets,
            &self.patterns,
            self.player.position,
            frame,
        );
        move_player_bullet_system(&mut self.player_bullets);
        let ghost pb1 = self.player_bullets@;
        let ghost pre_despawn = self.enemy_bullets@;
        despawn_bullet_system(&mut self.enemy_bullets, &self.play_area);
        proof {
            assert forall|j: int|
                0 <= j < self.enemy_bullets@.len() implies enemy_bullet_wf(
                self.patterns,
                #[trigger] self.enemy_bullets@[j],
                frame as int,
            ) by {
                let k = choose|k: int|
                    0 <= k < pre_despawn.len() && self.enemy_bullets@[j] == pre_despawn[k];
                assert(enemy_bullet_wf(self.patterns, pre_despawn[k], frame as int));
            }
        }
        destroy_player_bullet_go_outside_system(&mut self.player_bullets, &self.play_area);
        let ghost pb2 = self.player_bullets@;
        let report = destroy_enemy_system(
            &mut self.player_bullets,
            &mut self.enemies,
            &mut self.score,
            frame,
        );
        self.player.decrease_damaged_invincible_frame();
        let transition = if report.boss_destroyed {
            Some(crate::app_state::AppState::Ending)
        } else {
            None
        };
        let r = TickReport {
            destroyed_enemies: report.destroyed_enemies,
            skipped_boss_barrages,
            skipped_enemy_barrages,
            spawned_bullets,
            transition,
        };
        proof {
            let pre = *old(self);
            let frame_i: int = pre.frame.count + 1;
            let origin = pre.play_area.origin;
            let s0 = pre.enemies@;
            assert forall|j: int|
                0 <= j < s1.len() implies #[trigger] s1[j] == map_lifetimes(s0)[j] by {}
            assert(s1 =~= map_lifetimes(s0));
            assert forall|j: int|
                0 <= j < s2.len() implies #[trigger] s2[j] == map_velocities(s1)[j] by {}
            assert(s2 =~= map_velocities(s1));
            assert forall|j: int|
                0 <= j < pre_boss.len() implies #[trigger] pre_boss[j] == map_motion(s2)[j] by {}
            assert(pre_boss =~= map_motion(s2));
            assert forall|j: int|
                0 <= j < pre_emerge.len() implies #[trigger] pre_emerge[j] == map_boss_moves(
                pre_boss,
                origin,
            )[j] by {}
            assert(pre_emerge =~= map_boss_moves(pre_boss, origin));
            let after_motion = map_motion(map_velocities(map_lifetimes(s0)));
            let after_boss_v = map_boss_moves(after_motion, origin);
            assert(after_motion == pre_boss);
            assert(after_boss_v == pre_emerge);
            let due = crate::emerge::spec_due_rows(pre.timeline.spec_rows(), frame_i);
            let dueb = spec_due_bosses(pre.boss_timeline@, frame_i);
            assert(emerged.len() == after_boss_v.len() + due.len() + dueb.len());
            assert forall|j: int|
                0 <= j < after_boss_v.len() implies #[trigger] emerged[j] == after_boss_v[j] by {
                assert(emerged[j] == mid_emerge[j]);
                assert(mid_emerge[j] == pre_emerge[j]);
            }
            assert forall|k: int|
                0 <= k < due.len() implies spawned_from_row(
                #[trigger] emerged[after_boss_v.len() + k],
                pre.timeline.spec_rows()[due[k]],
                frame_i,
                origin,
            ) by {
                assert(emerged[pre_emerge.len() + k] == mid_emerge[pre_emerge.len() + k]);
                assert(spawned_from_row(
                    mid_emerge[pre_emerge.len() + k],
                    pre.timeline.spec_rows()[due[k]],
                    frame_i,
                    origin,
                ));
            }
            assert(emerge_rel(
                after_boss_v,
                pre.timeline.spec_rows(),
                pre.boss_timeline@,
                frame_i,
                origin,
                emerged,
            ));
            let bt = spec_boss_triggered(after_motion, pre.patterns);
            let et = spec_triggered(emerged, pre.patterns);
            assert(b0 == pre.enemy_bullets@);
            assert(bt == spec_boss_triggered(pre_boss, pre.patterns));
            assert forall|j: int|
                0 <= j < b0.len() implies #[trigger] seeded[j] == b0[j] by {
                assert(seeded[j] == b1[j]);
            }
            assert forall|k: int|
                0 <= k < bt.len() implies is_seed_bullet(
                pre.patterns,
                #[trigger] seeded[b0.len() + k],
                bt[k].0,
                bt[k].1,
            ) by {
                assert(seeded[b0.len() + k] == b1[b0.len() + k]);
                assert(is_seed_bullet(pre.patterns, b1[b0.len() + k], bt[k].0, bt[k].1));
            }
            assert(seeds_rel(pre.patterns, b0, bt, et, seeded));
            let jobs = spec_sweep_spawns(pre.patterns, seeded, pre.player.position);
            assert(pre_despawn.len() == seeded.len() + jobs.len());
            assert(self.enemy_bullets@ == spec_surviving_bullets(pre_despawn, pre.play_area));
            assert(sweep_rel(
                pre.patterns,
                seeded,
                pre.player.position,
                pre.play_area,
                self.enemy_bullets@,
                r.spawned_bullets as int,
            ));
            assert forall|j: int|
                0 <= j < pb1.len() implies #[trigger] pb1[j] == spec_climbed_player_bullets(
                pre.player_bullets@,
            )[j] by {}
            assert(pb1 =~= spec_climbed_player_bullets(pre.player_bullets@));
            assert(pb2 == spec_surviving_player_bullets(
                spec_climbed_player_bullets(pre.player_bullets@),
                pre.play_area,
            ));
            assert(destroy_rel(
                emerged,
                pre.score.score as int,
                spec_surviving_player_bullets(
                    spec_climbed_player_bullets(pre.player_bullets@),
                    pre.play_area,
                ),
                *self,
                r,
            ));
            assert(spec_tick_rel(pre, *self, r));
        }
        r
    }
}

/// Lifetimes move only with the clock. A poll on which the fixed
/// interval has not elapsed advances no frame (`GameFrame::poll`),
/// and the stage only ticks on a new frame; within one tick, an
/// enemy alive before the tick reaches the spawn and destruction
/// phases with its lifetime exactly one higher — counted once, never
/// twice, never per render poll.
pub proof fn lemma_lifetime_once_per_tick(pre: Stage, j: int)
    requires
        pre.wf(),
        pre.frame.count < FRAME_LIMIT,
        0 <= j < pre.enemies@.len(),
    ensures
        ({
            let after = map_boss_moves(
                map_motion(map_velocities(map_lifetimes(pre.enemies@))),
                pre.play_area.origin,
            );
            &&& after.len() == pre.enemies@.len()
            &&& after[j].life_count.count == pre.enemies@[j].life_count.count + 1
            &&& after[j].spawn_frame == pre.enemies@[j].spawn_frame
        }),
{
    assert(enemy_wf(pre.enemies@[j], pre.frame.count as int));
    let lifted = map_lifetimes(pre.enemies@);
    assert(lifted[j].life_count.count == pre.enemies@[j].life_count.count + 1);
    let vel = map_velocities(lifted);
    assert(vel[j].life_count == lifted[j].life_count && vel[j].spawn_frame == lifted[j].spawn_frame);
    let mov = map_motion(vel);
    assert(mov[j].life_count == vel[j].life_count && mov[j].spawn_frame == vel[j].spawn_frame);
    let after = map_boss_moves(mov, pre.play_area.origin);
    assert(after[j] == boss_moved(mov[j], pre.play_area.origin));
    assert(after[j].life_count == mov[j].life_count && after[j].spawn_frame == mov[j].spawn_frame);
}

/// The lifetime law: in any well-formed stage, every enemy's
/// lifetime counter equals the current frame minus its spawn frame,
/// and is never negative; since each tick moves the frame by one and
/// every counter by one, no value is ever skipped.
pub proof fn lemma_lifetime_tracks_frames(s: Stage, j: int)
    requires
        s.wf(),
        0 <= j < s.enemies@.len(),
    ensures
        s.enemies@[j].life_count.count == s.frame.count - s.enemies@[j].spawn_frame,
        s.enemies@[j].life_count.count >= 0,
        s.enemies@[j].spawn_frame <= s.frame.count,
{
    assert(enemy_wf(s.enemies@[j], s.frame.count as int));
}

} // verus!

