use stg_core::boss_schedule;
use stg_core::AppState;
use stg_core::BossEmerge;
use stg_core::EnemyEmerge;
use stg_core::Instruction;
use stg_core::MovePattern;
use stg_core::PatternLibrary;
use stg_core::PatternProgram;
use stg_core::PlayAreaDescriptor;
use stg_core::RowErrorKind;
use stg_core::Stage;
use stg_core::Vec3;

fn stage_area() -> PlayAreaDescriptor {
    PlayAreaDescriptor::new(400_000, 700_000, Vec3::new(0, 0, 0))
}

fn triple_library() -> PatternLibrary {
    let mut lib = PatternLibrary::new();
    let program = PatternProgram {
        lists: vec![vec![
            Instruction::Fire { direction: None, speed: None },
            Instruction::Fire { direction: None, speed: None },
            Instruction::Fire { direction: None, speed: None },
            Instruction::Wait(1),
        ]],
        root: 0,
    };
    lib.load(b"triple".to_vec(), program);
    lib
}

#[test]
fn rows_parse_into_milli_units() {
    let text = b"frame,x,y,pattern,barrage,trigger\n120,0,-999.9,3,triple,40\n";
    let e = EnemyEmerge::load_bytes(text).expect("a well-formed timeline");
    assert_eq!(e.rows.len(), 1);
    let row = &e.rows[0];
    assert_eq!(row.appear_frame, 120);
    assert_eq!(row.initial_x, 0);
    assert_eq!(row.initial_y, -999_900);
    assert_eq!(row.move_pattern, MovePattern::FastDownLeft);
    assert_eq!(row.barrage_pattern, b"triple".to_vec());
    assert_eq!(row.barrage_start_life_count, 40);
}

#[test]
fn decimal_fields_accept_the_usual_shapes() {
    let text = b"h,h,h,h,h,h\n1,1.,-.5,0,n,0\n2,.25,1.2345,0,n,0\n";
    let e = EnemyEmerge::load_bytes(text).expect("a well-formed timeline");
    assert_eq!(e.rows[0].initial_x, 1000);
    assert_eq!(e.rows[0].initial_y, -500);
    assert_eq!(e.rows[1].initial_x, 250);
    assert_eq!(e.rows[1].initial_y, 1234);
}

#[test]
fn empty_lines_are_skipped_and_cr_stripped() {
    let text = b"header\r\n\r\n1,0,0,0,n,5\r\n";
    let e = EnemyEmerge::load_bytes(text).expect("a well-formed timeline");
    assert_eq!(e.rows.len(), 1);
    assert_eq!(e.rows[0].barrage_start_life_count, 5);
}

#[test]
fn malformed_rows_fail_fast_with_their_line() {
    let text = b"h\n1,2,3\n";
    let err = EnemyEmerge::load_bytes(text).unwrap_err();
    assert_eq!(err.line, 2);
    assert_eq!(err.kind, RowErrorKind::FieldCount);

    let text = b"h\n1,0,0,0,n,0\nx,0,0,0,n,0\n";
    let err = EnemyEmerge::load_bytes(text).unwrap_err();
    assert_eq!(err.line, 3);
    assert_eq!(err.kind, RowErrorKind::BadInteger);

    let text = b"h\n1,zz,0,0,n,0\n";
    let err = EnemyEmerge::load_bytes(text).unwrap_err();
    assert_eq!(err.line, 2);
    assert_eq!(err.kind, RowErrorKind::BadDecimal);

    let text = b"h\n1,0,0,9,n,0\n";
    let err = EnemyEmerge::load_bytes(text).unwrap_err();
    assert_eq!(err.line, 2);
    assert_eq!(err.kind, RowErrorKind::BadMovePattern);

    // an integer of nineteen digits is out of range
    let text = b"h\n1234567890123456789,0,0,0,n,0\n";
    let err = EnemyEmerge::load_bytes(text).unwrap_err();
    assert_eq!(err.kind, RowErrorKind::BadInteger);
}

#[test]
fn scheduled_rows_are_found_by_frame() {
    let text = b"h\n7,0,0,0,a,0\n9,1,1,1,b,0\n7,2,2,2,c,0\n";
    let e = EnemyEmerge::load_bytes(text).expect("a well-formed timeline");
    assert_eq!(e.emerges_at(7), vec![0, 2]);
    assert_eq!(e.emerges_at(9), vec![1]);
    assert_eq!(e.emerges_at(8), Vec::<usize>::new());
}

#[test]
fn the_boss_schedule_holds_the_first_boss() {
    let b = boss_schedule();
    assert_eq!(b.len(), 1);
    assert_eq!(b[0].appear_frame, 500);
    assert_eq!(b[0].initial_position, Vec3::new(0, -999_900, 0));
    assert_eq!(b[0].hp, 100);
    assert_eq!(b[0].bonus_score, 500);
}

/// The round trip of one timeline row: parsed, scheduled, spawned on
/// its frame with an untouched hit point, and triggering its barrage
/// exactly once, at the configured lifetime.
#[test]
fn timeline_row_round_trip() {
    let text = b"frame,x,y,pattern,barrage,trigger\n120,0,-999.9,3,triple,40\n";
    let timeline = EnemyEmerge::load_bytes(text).expect("a well-formed timeline");
    let mut stage = Stage::new(
        stage_area(),
        triple_library(),
        timeline,
        Vec::new(),
        Vec3::new(0, -300_000, 0),
    );
    for _ in 0..119 {
        stage.tick();
    }
    assert_eq!(stage.frame.count, 119);
    assert_eq!(stage.enemies.len(), 0, "nothing spawns before its frame");
    stage.tick();
    assert_eq!(stage.frame.count, 120);
    assert_eq!(stage.enemies.len(), 1, "the row spawns on its frame");
    let e = &stage.enemies[0];
    assert_eq!(e.spawn_frame, 120);
    assert_eq!(e.life_count.count, 0);
    assert_eq!(e.hp, 1, "hit points are untouched until a hit");
    assert_eq!(e.position, Vec3::new(0, -999_900, 0));
    let mut barrage_ticks: Vec<i64> = Vec::new();
    for _ in 0..100 {
        let before = stage.enemy_bullets.len();
        stage.tick();
        if stage.enemy_bullets.len() > before {
            barrage_ticks.push(stage.frame.count);
        }
    }
    assert_eq!(stage.enemies.len(), 1);
    assert_eq!(stage.enemies[0].hp, 1);
    assert_eq!(
        barrage_ticks,
        vec![160],
        "the barrage starts exactly once, at lifetime forty"
    );
}

/// Two enemies scheduled on the same frame both spawn on that tick,
/// each with its own lifetime counter starting at zero.
#[test]
fn same_frame_rows_spawn_together() {
    let text = b"h\n5,10,20,0,triple,1000\n5,-10,-20,5,triple,1000\n";
    let timeline = EnemyEmerge::load_bytes(text).expect("a well-formed timeline");
    let mut stage = Stage::new(
        stage_area(),
        triple_library(),
        timeline,
        Vec::new(),
        Vec3::new(0, -300_000, 0),
    );
    for _ in 0..4 {
        stage.tick();
    }
    assert_eq!(stage.enemies.len(), 0);
    stage.tick();
    assert_eq!(stage.enemies.len(), 2, "both rows spawn on their shared frame");
    assert_eq!(stage.enemies[0].life_count.count, 0);
    assert_eq!(stage.enemies[1].life_count.count, 0);
    assert_eq!(stage.enemies[0].spawn_frame, 5);
    assert_eq!(stage.enemies[1].spawn_frame, 5);
    assert_eq!(stage.enemies[0].position, Vec3::new(10_000, 20_000, 0));
    assert_eq!(stage.enemies[1].position, Vec3::new(-10_000, -20_000, 0));
    stage.tick();
    assert_eq!(stage.enemies[0].life_count.count, 1);
    assert_eq!(stage.enemies[1].life_count.count, 1);
}

#[test]
fn unknown_barrage_names_are_skipped_and_reported() {
    let text = b"h\n2,0,0,0,unknown_wave,0\n";
    let timeline = EnemyEmerge::load_bytes(text).expect("a well-formed timeline");
    let mut stage = Stage::new(
        stage_area(),
        triple_library(),
        timeline,
        Vec::new(),
        Vec3::new(0, -300_000, 0),
    );
    stage.tick();
    let report = stage.tick();
    assert_eq!(stage.enemies.len(), 1, "the spawn itself is not fatal");
    assert_eq!(report.skipped_enemy_barrages, 1, "the unknown name is reported");
    assert_eq!(stage.enemy_bullets.len(), 0, "and nothing starts");
}

#[test]
fn destroying_the_boss_ends_the_stage() {
    let timeline = EnemyEmerge::load_bytes(b"h\n").expect("an empty timeline");
    let boss = vec![BossEmerge {
        appear_frame: 3,
        initial_position: Vec3::new(0, 0, 0),
        hp: 1,
        bonus_score: 500,
    }];
    let mut stage = Stage::new(
        stage_area(),
        triple_library(),
        timeline,
        boss,
        Vec3::new(0, -300_000, 0),
    );
    for _ in 0..3 {
        stage.tick();
    }
    assert_eq!(stage.enemies.len(), 1);
    assert!(stage.enemies[0].is_boss_enemy);
    // let the boss finish its entrance and idle at the entry position
    for _ in 0..67 {
        stage.tick();
    }
    assert_eq!(stage.enemies[0].position, Vec3::new(0, 300_000, 0));
    // plant a player bullet just below where the boss idles
    stage.player_bullets.push(Vec3::new(0, 290_000, 0));
    let report = stage.tick();
    assert_eq!(stage.enemies.len(), 0, "one hit point, one hit");
    assert_eq!(report.destroyed_enemies, 1);
    assert_eq!(report.transition, Some(AppState::Ending));
    assert_eq!(stage.score.score, 500, "the bonus is awarded");
    assert_eq!(stage.player_bullets.len(), 0, "the striking bullet is consumed");
}
