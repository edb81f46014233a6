use crate::play_area::PlayAreaDescriptor;
use crate::rng::random_below;
use crate::vec3::{spec_sat_add, sat_add, Vec3};
use vstd::prelude::*;

verus! {

/// A player bullet's sprite extent, in milli-units.
pub const PLAYER_BULLET_SIZE: i64 = 15_000;

/// How far a player bullet climbs each update, in milli-units.
pub const PLAYER_BULLET_SPEED: i64 = 10_000;

/// A simple enemy volley bullet's sprite extent, in milli-units.
pub const ENEMY_VOLLEY_BULLET_SIZE: i64 = 15_000;

/// One update of a player bullet: straight up by its speed.
pub fn advance_player_bullet(y: i64) -> (r: i64)
    ensures
        r == spec_sat_add(y as int, PLAYER_BULLET_SPEED as int),
{
    sat_add(y, PLAYER_BULLET_SPEED)
}

/// A player bullet is discarded once its bottom edge clears the top
/// of the play area.
pub open spec fn spec_player_bullet_gone(y: int, area: PlayAreaDescriptor) -> bool {
    y - PLAYER_BULLET_SIZE > area.spec_max_y()
}

pub fn player_bullet_gone(y: i64, area: &PlayAreaDescriptor) -> (r: bool)
    requires
        area.wf(),
    ensures
        r == spec_player_bullet_gone(y as int, *area),
{
    (y as i128 - PLAYER_BULLET_SIZE as i128) > (area.origin.y as i128 + (area.height / 2) as i128)
}

/// A simple enemy volley bullet is discarded once its top edge drops
/// below the bottom of the play area.
pub open spec fn spec_volley_bullet_gone(y: int, area: PlayAreaDescriptor) -> bool {
    y + ENEMY_VOLLEY_BULLET_SIZE / 2 < area.spec_min_y()
}

pub fn volley_bullet_gone(y: i64, area: &PlayAreaDescriptor) -> (r: bool)
    requires
        area.wf(),
    ensures
        r == spec_volley_bullet_gone(y as int, *area),
{
    (y as i128 + (ENEMY_VOLLEY_BULLET_SIZE / 2) as i128) < (area.origin.y as i128 - (area.height
        / 2) as i128)
}

/// The single straight volley: one bullet dropping three units a
/// frame.
pub fn strait_volley() -> (r: Vec<Vec3>)
    ensures
        r@ =~= seq![Vec3 { x: 0i64, y: -3000i64, z: 0i64 }],
{
    let mut r: Vec<Vec3> = Vec::new();
    r.push(Vec3::new(0, -3000, 0));
    r
}

/// The triple volley: three bullets fanning down-left, down, and
/// down-right, the diagonals scaled to seventy-one hundredths.
pub fn triple_volley() -> (r: Vec<Vec3>)
    ensures
        r@ =~= seq![
            Vec3 { x: -2130i64, y: -2130i64, z: 0i64 },
            Vec3 { x: 0i64, y: -2130i64, z: 0i64 },
            Vec3 { x: 2130i64, y: -2130i64, z: 0i64 },
        ],
{
    let mut r: Vec<Vec3> = Vec::new();
    r.push(Vec3::new(-2130, -2130, 0));
    r.push(Vec3::new(0, -2130, 0));
    r.push(Vec3::new(2130, -2130, 0));
    r
}

/// Draws one of the two volley shapes at random; whichever comes, it
/// is exactly one of the two.
pub fn random_volley() -> (r: Vec<Vec3>)
    ensures
        r@ =~= seq![Vec3 { x: 0i64, y: -3000i64, z: 0i64 }] || r@ =~= seq![
            Vec3 { x: -2130i64, y: -2130i64, z: 0i64 },
            Vec3 { x: 0i64, y: -2130i64, z: 0i64 },
            Vec3 { x: 2130i64, y: -2130i64, z: 0i64 },
        ],
{
    let kind = random_below(2);
    if kind == 0 {
        strait_volley()
    } else {
        triple_volley()
    }
}

} // verus!
