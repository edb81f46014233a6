use stg_core::runner_bullet_despawns;
use stg_core::simple_bullet_despawns;
use stg_core::BarrageAction;
use stg_core::BarrageConfiguration;
use stg_core::Bullet;
use stg_core::DirectionSpec;
use stg_core::Instruction;
use stg_core::PatternLibrary;
use stg_core::PatternProgram;
use stg_core::Runner;

fn single_list(list: Vec<Instruction>) -> PatternProgram {
    PatternProgram { lists: vec![list], root: 0 }
}

#[test]
fn straight_line_program_runs_one_turn_per_tick() {
    let p = single_list(vec![
        Instruction::SetSpeed(2000),
        Instruction::SetDirection(DirectionSpec::Absolute(90_000)),
        Instruction::Fire { direction: None, speed: None },
        Instruction::Wait(1),
        Instruction::Fire { direction: Some(DirectionSpec::Absolute(180_000)), speed: Some(500) },
    ]);
    let mut r = Runner::new(&p);
    let mut b = Bullet::new();
    let actions = r.run_turn(&p, &mut b, 0);
    assert_eq!(b.speed, 2000);
    assert_eq!(b.direction, 90_000);
    assert_eq!(actions, vec![BarrageAction::FireSimple { direction: 90_000, speed: 2000 }]);
    assert!(!r.is_end());
    assert_eq!(r.turn, 1);
    let actions = r.run_turn(&p, &mut b, 0);
    assert_eq!(actions, vec![BarrageAction::FireSimple { direction: 180_000, speed: 500 }]);
    assert!(r.is_end());
    assert_eq!(r.turn, 2);
    // a completed program counts turns but does nothing more
    let actions = r.run_turn(&p, &mut b, 0);
    assert_eq!(actions, vec![]);
    assert_eq!(r.turn, 3);
}

#[test]
fn wait_consumes_that_many_turns() {
    let p = single_list(vec![
        Instruction::Wait(3),
        Instruction::Fire { direction: None, speed: None },
    ]);
    let mut r = Runner::new(&p);
    let mut b = Bullet::new();
    assert_eq!(r.run_turn(&p, &mut b, 0).len(), 0); // executes the wait
    assert_eq!(r.run_turn(&p, &mut b, 0).len(), 0); // pending
    assert_eq!(r.run_turn(&p, &mut b, 0).len(), 0); // pending
    let actions = r.run_turn(&p, &mut b, 0); // fires and completes
    assert_eq!(actions.len(), 1);
    assert!(r.is_end());
}

#[test]
fn repeat_runs_its_body_the_given_number_of_times() {
    let p = PatternProgram {
        lists: vec![
            vec![Instruction::Repeat { times: 3, body: 1 }, Instruction::Wait(1)],
            vec![Instruction::Fire {
                direction: Some(DirectionSpec::Relative(10_000)),
                speed: None,
            }],
        ],
        root: 0,
    };
    let mut r = Runner::new(&p);
    let mut b = Bullet::new();
    let actions = r.run_turn(&p, &mut b, 0);
    assert_eq!(actions.len(), 3);
    for a in actions {
        assert_eq!(a, BarrageAction::FireSimple { direction: 10_000, speed: 0 });
    }
    assert!(!r.is_end());
    r.run_turn(&p, &mut b, 0);
    assert!(r.is_end());
}

#[test]
fn aim_and_relative_directions_resolve_against_the_turn() {
    let p = single_list(vec![
        Instruction::SetDirection(DirectionSpec::Aim(-30_000)),
        Instruction::Wait(1),
        Instruction::SetDirection(DirectionSpec::Relative(-100_000)),
        Instruction::Wait(1),
    ]);
    let mut r = Runner::new(&p);
    let mut b = Bullet::new();
    r.run_turn(&p, &mut b, 45_000);
    assert_eq!(b.direction, 15_000);
    r.run_turn(&p, &mut b, 45_000);
    assert_eq!(b.direction, 275_000); // 15000 - 100000, wrapped
}

#[test]
fn sub_programs_spawn_bullets_with_their_own_interpreters() {
    let p = PatternProgram {
        lists: vec![
            vec![
                Instruction::SpawnSub {
                    direction: Some(DirectionSpec::Absolute(200_000)),
                    speed: Some(3000),
                    body: 1,
                },
                Instruction::Wait(1),
            ],
            vec![Instruction::Fire { direction: None, speed: None }, Instruction::Wait(2)],
        ],
        root: 0,
    };
    let mut r = Runner::new(&p);
    let mut b = Bullet::new();
    let actions = r.run_turn(&p, &mut b, 0);
    assert_eq!(
        actions,
        vec![BarrageAction::SpawnPattern { direction: 200_000, speed: 3000, body: 1 }]
    );
    // the spawned bullet runs the named list as its own program
    let mut child = Runner::for_list(&p, 1);
    let mut cb = Bullet { direction: 200_000, speed: 3000, vanished: false };
    let child_actions = child.run_turn(&p, &mut cb, 0);
    assert_eq!(
        child_actions,
        vec![BarrageAction::FireSimple { direction: 200_000, speed: 3000 }]
    );
    assert!(!child.is_end());
}

#[test]
fn vanish_at_turn_five_keeps_the_program_running() {
    // The program raises the vanished flag on its fifth turn, then
    // keeps spawning until it completes on the sixth.
    let p = single_list(vec![
        Instruction::Wait(4),
        Instruction::Vanish,
        Instruction::Fire { direction: None, speed: None },
        Instruction::Wait(1),
        Instruction::Fire { direction: None, speed: None },
    ]);
    let mut r = Runner::new(&p);
    let mut b = Bullet::new();
    for turn in 1..=4 {
        let actions = r.run_turn(&p, &mut b, 0);
        assert_eq!(actions.len(), 0);
        assert!(!b.vanished, "not vanished before turn five (turn {turn})");
    }
    let actions = r.run_turn(&p, &mut b, 0);
    assert!(b.vanished, "vanished at turn five");
    assert_eq!(actions.len(), 1, "still spawning on the vanish turn");
    assert!(!r.is_end(), "not complete merely because vanished");
    assert!(
        !runner_bullet_despawns(true, b.vanished, r.is_end()),
        "a vanished bullet with a running program is kept"
    );
    let actions = r.run_turn(&p, &mut b, 0);
    assert_eq!(actions.len(), 1, "keeps spawning after vanishing");
    assert!(r.is_end());
    assert!(runner_bullet_despawns(false, b.vanished, r.is_end()));
}

#[test]
fn despawn_rules_need_completion_for_pattern_bullets() {
    assert!(simple_bullet_despawns(true));
    assert!(!simple_bullet_despawns(false));
    assert!(!runner_bullet_despawns(true, true, false));
    assert!(!runner_bullet_despawns(false, false, true));
    assert!(runner_bullet_despawns(true, false, true));
    assert!(runner_bullet_despawns(false, true, true));
}

#[test]
fn barrage_configuration_maps_trigger_lifetimes() {
    let mut c = BarrageConfiguration::new();
    assert!(c.get_barrage_type_for_life_count(40).is_none());
    c.insert_barrage_type(40, b"triple".to_vec());
    c.insert_barrage_type(80, b"strait".to_vec());
    assert_eq!(c.get_barrage_type_for_life_count(40), Some(&b"triple".to_vec()));
    assert_eq!(c.get_barrage_type_for_life_count(80), Some(&b"strait".to_vec()));
    assert!(c.get_barrage_type_for_life_count(41).is_none());
    c.insert_barrage_type(40, b"double".to_vec());
    assert_eq!(c.get_barrage_type_for_life_count(40), Some(&b"double".to_vec()));
    assert_eq!(c.get_barrage_type_for_life_count(80), Some(&b"strait".to_vec()));
}

#[test]
fn pattern_library_looks_programs_up_by_name() {
    let mut lib = PatternLibrary::new();
    let p = single_list(vec![Instruction::Vanish]);
    lib.load(b"one".to_vec(), p);
    assert!(lib.get(b"one").is_some());
    assert!(lib.get(b"two").is_none());
    assert!(lib.find(b"one").is_some());
    assert!(lib.find(b"two").is_none());
}

#[test]
fn spawned_children_carry_the_parents_turn_counter() {
    let p = PatternProgram {
        lists: vec![
            vec![
                Instruction::SpawnSub { direction: None, speed: Some(1000), body: 1 },
                Instruction::Wait(1),
            ],
            vec![Instruction::Wait(2)],
        ],
        root: 0,
    };
    let mut lib = PatternLibrary::new();
    lib.load(b"carrier".to_vec(), p);
    let mut parent = Runner::new(&lib.entries[0].1);
    parent.turn = 7;
    let mut bullets = vec![stg_core::EnemyBullet {
        position: stg_core::Vec3::new(0, 0, 0),
        state: Bullet::new(),
        runner: Some((0, parent)),
    }];
    let spawned = stg_core::update_bullet_system(
        &mut bullets,
        &lib,
        stg_core::Vec3::new(0, 0, 0),
        10,
    );
    assert_eq!(spawned, 1);
    assert_eq!(bullets.len(), 2);
    match &bullets[1].runner {
        Some((pi, child)) => {
            assert_eq!(*pi, 0);
            assert_eq!(child.turn, 7, "the child inherits the firing interpreter's turn count");
            assert_eq!(child.wait, 0);
        },
        None => panic!("the spawned bullet runs the named list"),
    }
    match &bullets[0].runner {
        Some((_, r)) => assert_eq!(r.turn, 8),
        None => panic!("the parent keeps its interpreter"),
    }
}
