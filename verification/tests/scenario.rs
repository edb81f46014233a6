use stg_core::boss::MovePattern;
use stg_core::ActionScenario;
use stg_core::Boss1ActionCalculater;
use stg_core::BossAction;
use stg_core::LifeCount;
use stg_core::ScenarioStep;
use stg_core::Vec3;

fn life(count: i64) -> LifeCount {
    let mut l = LifeCount::new();
    l.count = count;
    l
}

fn boss1() -> Boss1ActionCalculater {
    MovePattern::Boss1.action_calculater()
}

#[test]
fn boss1_cycle_length_is_the_sum_of_the_step_spans() {
    let c = boss1();
    assert_eq!(c.engine.scenario.total_frames, 1359);
    assert_eq!(c.engine.entrance_frames, 60);
    assert_eq!(c.engine.scenario.commands.len(), 6);
}

#[test]
fn entrance_interpolates_from_above_the_area() {
    let c = boss1();
    match c.action_for_life_count(&life(0)) {
        BossAction::MoveTo(p) => assert_eq!(p, Vec3::new(0, 370_000, 0)),
        _ => panic!("expected a move during the entrance"),
    }
    match c.action_for_life_count(&life(60)) {
        BossAction::MoveTo(p) => assert_eq!(p, Vec3::new(0, 300_000, 0)),
        _ => panic!("expected a move during the entrance"),
    }
}

#[test]
fn first_cycle_frame_starts_the_first_wave() {
    let c = boss1();
    match c.action_for_life_count(&life(61)) {
        BossAction::StartBarrage(name) => assert_eq!(name, b"boss1_first_wave".to_vec()),
        _ => panic!("expected the first wave trigger"),
    }
}

#[test]
fn cycle_ranges_ease_between_the_authored_targets() {
    let c = boss1();
    // The first move of the cycle covers frames 327 to 387.
    match c.engine.scenario.run(327) {
        BossAction::MoveTo(p) => assert_eq!(p, Vec3::new(0, 300_000, 0)),
        _ => panic!("expected the first cycle move"),
    }
    match c.engine.scenario.run(387) {
        BossAction::MoveTo(p) => assert_eq!(p, Vec3::new(100_000, 300_000, 0)),
        _ => panic!("expected the first cycle move"),
    }
    match c.engine.scenario.run(388) {
        BossAction::StartBarrage(name) => assert_eq!(name, b"boss1_second_wave".to_vec()),
        _ => panic!("expected the second wave trigger"),
    }
    match c.engine.scenario.run(100) {
        BossAction::Stay => {},
        _ => panic!("uncovered frames are stay frames"),
    }
    match c.engine.scenario.run(1358) {
        BossAction::MoveTo(p) => assert_eq!(p, Vec3::new(0, 300_000, 0)),
        _ => panic!("expected the closing move"),
    }
}

fn assert_same_action(a: &BossAction, b: &BossAction) {
    match (a, b) {
        (BossAction::MoveTo(p), BossAction::MoveTo(q)) => assert_eq!(p, q),
        (BossAction::StartBarrage(n), BossAction::StartBarrage(m)) => assert_eq!(n, m),
        (BossAction::Stay, BossAction::Stay) => {},
        _ => panic!("the two queries disagree"),
    }
}

#[test]
fn queries_replay_cyclically() {
    let c = boss1();
    let cycle = c.engine.scenario.total_frames;
    for r in [0i64, 1, 100, 266, 327, 388, 700, 1358] {
        let base = c.action_for_life_count(&life(61 + r));
        for k in 1..4i64 {
            let later = c.action_for_life_count(&life(61 + k * cycle + r));
            assert_same_action(&base, &later);
        }
    }
}

#[test]
fn built_scenarios_accumulate_their_offsets() {
    let steps = vec![
        ScenarioStep::StartBarrage { name: b"wave".to_vec(), duration: 10 },
        ScenarioStep::Stay { frames: 5 },
        ScenarioStep::MoveTo { duration: 4, target: Vec3::new(1000, 2000, 0) },
    ];
    let s = ActionScenario::build_from_step_commands(Vec3::new(0, 0, 0), steps);
    assert_eq!(s.total_frames, 11 + 6 + 5);
    assert_eq!(s.commands.len(), 2);
    assert_eq!(s.commands[0].start, 0);
    assert_eq!(s.commands[0].end, 0);
    assert_eq!(s.commands[1].start, 17);
    assert_eq!(s.commands[1].end, 21);
    match s.run(19) {
        BossAction::MoveTo(p) => {
            // halfway through the four-frame move
            assert_eq!(p, Vec3::new(500, 1000, 0));
        },
        _ => panic!("expected the move"),
    }
    match s.run(5) {
        BossAction::Stay => {},
        _ => panic!("stay step frames have no command"),
    }
}
