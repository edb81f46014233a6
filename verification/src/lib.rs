//! Core simulation logic for a vertically scrolling shooting game:
//! a frame clock, per-entity lifetime counters, table-driven enemy
//! movement, a resumable bullet-pattern interpreter, a frame-indexed
//! spawn schedule, a cyclic boss action scenario, and the destruction
//! rules that remove bullets and enemies.
//!
//! All spatial quantities are fixed-point integers in milli-units
//! (one unit of the play area is 1000), and all angles are in
//! millidegrees, measured clockwise from the positive y axis and
//! normalized to the range `[0, 360000)`.

pub mod app_state;
pub mod barrage;
pub mod boss;
pub mod patterns;
pub mod player;
pub mod bullet;
pub mod destroy;
pub mod easing;
pub mod emerge;
pub mod frame;
pub mod life;
pub mod movement;
pub mod play_area;
mod rng;
pub mod score;
pub mod shots;
pub mod stage;
pub mod text;
pub mod trig;
pub mod vec3;

pub use app_state::AppState;
pub use barrage::BarrageAction;
pub use barrage::DirectionSpec;
pub use barrage::Instruction;
pub use barrage::PatternProgram;
pub use barrage::RepFrame;
pub use barrage::Runner;
pub use boss::ActionScenario;
pub use boss::Boss1ActionCalculater;
pub use boss::BossScenarioEngine;
pub use boss::lemma_query_cyclic;
pub use boss::BossAction;
pub use boss::RangedCommand;
pub use boss::ScenarioCommand;
pub use boss::ScenarioStep;
pub use bullet::bullet_step;
pub use bullet::Bullet;
pub use bullet::SPEED_LIMIT;
pub use destroy::collide;
pub use destroy::lemma_vanished_alone_keeps_bullet;
pub use destroy::lemma_vanished_bullet_still_runs;
pub use destroy::runner_bullet_despawns;
pub use destroy::simple_bullet_despawns;
pub use emerge::boss_schedule;
pub use emerge::BossEmerge;
pub use emerge::EnemyEmerge;
pub use emerge::RowErrorKind;
pub use emerge::TimelineError;
pub use emerge::TimelineRow;
pub use easing::easing_ease_in_out_interpolation;
pub use easing::easing_linear_interpolation;
pub use easing::easing_vec3_ease_in_out_interpolation;
pub use easing::easing_vec3_linear_interpolation;
pub use easing::DURATION_LIMIT;
pub use frame::FRAME_LIMIT;
pub use frame::GameFrame;
pub use life::LifeCount;
pub use movement::simulate_movement;
pub use movement::MovePattern;
pub use patterns::bytes_eq;
pub use patterns::BarrageConfiguration;
pub use patterns::PatternLibrary;
pub use play_area::COORD_LIMIT;
pub use player::move_player_by_keyboard;
pub use player::Player;
pub use player::PlayerState;
pub use player::DAMAGED_INVINCIBLE_FRAME;
pub use play_area::PlayAreaDescriptor;
pub use score::DEFAULT_PLAYER_STOCK;
pub use shots::advance_player_bullet;
pub use shots::player_bullet_gone;
pub use shots::random_volley;
pub use shots::strait_volley;
pub use shots::triple_volley;
pub use shots::volley_bullet_gone;
pub use score::Score;
pub use stage::boss_emerge_system;
pub use stage::count_up_enemy_life_count_system;
pub use stage::despawn_bullet_system;
pub use stage::destroy_enemy_system;
pub use stage::destroy_player_bullet_go_outside_system;
pub use stage::emerge_enemy_system;
pub use stage::lemma_lifetime_once_per_tick;
pub use stage::lemma_lifetime_tracks_frames;
pub use stage::move_boss_system;
pub use stage::move_player_bullet_system;
pub use stage::start_barrage;
pub use stage::start_barrage_system;
pub use stage::update_bullet_system;
pub use stage::DestroyReport;
pub use stage::EnemyBullet;
pub use stage::Stage;
pub use stage::TickReport;
pub use stage::move_enemy_system;
pub use stage::update_enemy_velocity_system;
pub use stage::Enemy;
pub use stage::EnemyStrategy;
pub use trig::aim_direction_mdeg;
pub use trig::cos_milli;
pub use trig::normalize_mdeg;
pub use trig::sin_milli;
pub use vec3::Vec3;
