use stg_core::AppState;
use stg_core::GameFrame;
use stg_core::LifeCount;
use stg_core::PlayAreaDescriptor;
use stg_core::Player;
use stg_core::PlayerState;
use stg_core::Score;
use stg_core::Vec3;
use stg_core::{
    advance_player_bullet, aim_direction_mdeg, bytes_eq, cos_milli, move_player_by_keyboard,
    normalize_mdeg, player_bullet_gone, random_volley, sin_milli, strait_volley, triple_volley,
    volley_bullet_gone,
};
use stg_core::{easing_ease_in_out_interpolation, easing_linear_interpolation};
use stg_core::{easing_vec3_ease_in_out_interpolation, easing_vec3_linear_interpolation};

fn test_area() -> PlayAreaDescriptor {
    PlayAreaDescriptor::new(400_000, 700_000, Vec3::new(0, 0, 0))
}

#[test]
fn frame_starts_at_zero_and_advances() {
    let mut f = GameFrame::new();
    assert_eq!(f.count, 0);
    f.advance();
    assert_eq!(f.count, 1);
    f.poll(false);
    assert_eq!(f.count, 1);
    f.poll(true);
    assert_eq!(f.count, 2);
}

#[test]
fn life_count_is_gapless() {
    let mut l = LifeCount::new();
    assert_eq!(l.count, 0);
    for expected in 1..=5 {
        l.count_up();
        assert_eq!(l.count, expected);
    }
}

#[test]
fn score_add_and_player_stock() {
    let mut s = Score::new();
    assert_eq!(s.score, 0);
    assert_eq!(s.player_stock, 3);
    s.add_score(100);
    s.add_score(500);
    assert_eq!(s.score, 600);
    assert!(s.on_hit_enemy_bullet());
    assert_eq!(s.player_stock, 2);
    assert!(s.on_hit_enemy_bullet());
    assert!(!s.on_hit_enemy_bullet());
    assert_eq!(s.player_stock, 0);
    assert!(!s.on_hit_enemy_bullet());
    assert_eq!(s.player_stock, 0);
    assert_eq!(s.score, 600);
}

#[test]
fn play_area_bounds_and_outside() {
    let a = test_area();
    assert_eq!(a.min_x(), -200_000);
    assert_eq!(a.max_x(), 200_000);
    assert_eq!(a.min_y(), -350_000);
    assert_eq!(a.max_y(), 350_000);
    assert!(!a.is_outside(&Vec3::new(0, 0, 0)));
    assert!(!a.is_outside(&Vec3::new(200_000, -350_000, 0)));
    assert!(a.is_outside(&Vec3::new(200_001, 0, 0)));
    assert!(a.is_outside(&Vec3::new(0, -350_001, 0)));
}

#[test]
fn vec_addition_saturates() {
    let a = Vec3::new(1, -2, 3);
    let b = Vec3::new(10, 20, 30);
    assert_eq!(a.add(&b), Vec3::new(11, 18, 33));
    let big = Vec3::new(i64::MAX, i64::MIN, 0);
    let delta = Vec3::new(1, -1, 0);
    assert_eq!(big.add(&delta), Vec3::new(i64::MAX, i64::MIN, 0));
}

#[test]
fn easing_hits_its_endpoints() {
    assert_eq!(easing_ease_in_out_interpolation(0, 370_000, -70_000, 60), 370_000);
    assert_eq!(easing_ease_in_out_interpolation(60, 370_000, -70_000, 60), 300_000);
    assert_eq!(easing_ease_in_out_interpolation(30, 370_000, -70_000, 60), 335_000);
    assert_eq!(easing_linear_interpolation(0, 5, 100, 10), 5);
    assert_eq!(easing_linear_interpolation(10, 5, 100, 10), 105);
    assert_eq!(easing_linear_interpolation(5, 5, 100, 10), 55);
    assert_eq!(easing_linear_interpolation(5, 5, -100, 10), -45);
}

#[test]
fn easing_vectors_interpolate_componentwise() {
    let from = Vec3::new(0, 370_000, 0);
    let to = Vec3::new(0, 300_000, 0);
    assert_eq!(easing_vec3_ease_in_out_interpolation(0, &from, &to, 60), from);
    assert_eq!(easing_vec3_ease_in_out_interpolation(60, &from, &to, 60), to);
    assert_eq!(
        easing_vec3_ease_in_out_interpolation(30, &from, &to, 60),
        Vec3::new(0, 335_000, 0)
    );
    assert_eq!(easing_vec3_linear_interpolation(5, &from, &to, 10), Vec3::new(0, 335_000, 0));
}

#[test]
fn fixed_point_trig_values() {
    assert_eq!(sin_milli(0), 0);
    assert_eq!(sin_milli(30_000), 500);
    assert_eq!(sin_milli(90_000), 1000);
    assert_eq!(sin_milli(180_000), 0);
    assert_eq!(sin_milli(270_000), -1000);
    assert_eq!(cos_milli(0), 1000);
    assert_eq!(cos_milli(90_000), 0);
    assert_eq!(cos_milli(180_000), -1000);
}

#[test]
fn angles_normalize_to_one_turn() {
    assert_eq!(normalize_mdeg(0), 0);
    assert_eq!(normalize_mdeg(-90_000), 270_000);
    assert_eq!(normalize_mdeg(720_005), 5);
    assert_eq!(normalize_mdeg(360_000), 0);
}

#[test]
fn aim_direction_uses_the_wrapped_convention() {
    assert_eq!(aim_direction_mdeg(0, 1000), 0);
    assert_eq!(aim_direction_mdeg(1000, 0), 90_000);
    assert_eq!(aim_direction_mdeg(0, -1000), 180_000);
    assert_eq!(aim_direction_mdeg(-1000, 0), 270_000);
    assert_eq!(aim_direction_mdeg(5, 5), 45_000);
    let d = aim_direction_mdeg(-3, -3);
    assert!(d >= 0 && d < 360_000);
    assert_eq!(d, 225_000);
}

#[test]
fn volleys_have_the_table_velocities() {
    let s = strait_volley();
    assert_eq!(s, vec![Vec3::new(0, -3000, 0)]);
    let t = triple_volley();
    assert_eq!(
        t,
        vec![Vec3::new(-2130, -2130, 0), Vec3::new(0, -2130, 0), Vec3::new(2130, -2130, 0)]
    );
    let r = random_volley();
    assert!(r == s || r == t);
}

#[test]
fn player_bullets_climb_and_leave() {
    assert_eq!(advance_player_bullet(0), 10_000);
    let a = test_area();
    assert!(!player_bullet_gone(365_000, &a));
    assert!(player_bullet_gone(365_001, &a));
    assert!(!volley_bullet_gone(-357_500, &a));
    assert!(volley_bullet_gone(-357_501, &a));
}

#[test]
fn player_movement_scales_diagonals_and_clamps() {
    let a = test_area();
    let scale = Vec3::new(30_000, 30_000, 30_000);
    let mut p = Player::new(Vec3::new(0, 0, 0));
    move_player_by_keyboard(&mut p, true, false, true, false, &scale, &a);
    assert_eq!(p.position, Vec3::new(-710, 710, 0));
    let mut p = Player::new(Vec3::new(0, 0, 0));
    move_player_by_keyboard(&mut p, false, true, false, false, &scale, &a);
    assert_eq!(p.position, Vec3::new(1000, 0, 0));
    let mut p = Player::new(Vec3::new(500_000, 0, 0));
    move_player_by_keyboard(&mut p, false, false, false, false, &scale, &a);
    assert_eq!(p.position.x, 170_000);
    let mut p = Player::new(Vec3::new(0, -500_000, 0));
    move_player_by_keyboard(&mut p, false, false, false, false, &scale, &a);
    assert_eq!(p.position.y, -335_000);
}

#[test]
fn invincibility_counts_down_to_normal() {
    let mut p = Player::new(Vec3::new(0, 0, 0));
    p.state = PlayerState::DamagedInvincible { rest_frame: 2 };
    p.decrease_damaged_invincible_frame();
    assert_eq!(p.state, PlayerState::DamagedInvincible { rest_frame: 1 });
    p.decrease_damaged_invincible_frame();
    assert_eq!(p.state, PlayerState::Normal);
    p.decrease_damaged_invincible_frame();
    assert_eq!(p.state, PlayerState::Normal);
}

#[test]
fn app_state_confirms_into_the_game() {
    assert_eq!(AppState::Menu.on_confirm(), Some(AppState::InGame));
    assert_eq!(AppState::GameOver.on_confirm(), Some(AppState::InGame));
    assert_eq!(AppState::Ending.on_confirm(), Some(AppState::InGame));
    assert_eq!(AppState::InGame.on_confirm(), None);
}

#[test]
fn byte_strings_compare_by_contents() {
    assert!(bytes_eq(b"triple", b"triple"));
    assert!(!bytes_eq(b"triple", b"tripl"));
    assert!(!bytes_eq(b"triple", b"triplf"));
    assert!(bytes_eq(b"", b""));
}
