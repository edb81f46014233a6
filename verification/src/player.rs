use crate::easing::vec3_in_bounds;
use crate::play_area::{PlayAreaDescriptor, COORD_LIMIT};
use crate::vec3::Vec3;
use vstd::prelude::*;

verus! {

/// How long a hit player stays invincible, in frames.
pub const DAMAGED_INVINCIBLE_FRAME: i64 = 120;

/// The player's condition: unharmed, or recently hit and invincible
/// for the remaining frames.
#[derive(Clone, Copy, PartialEq, Eq, Structural, Debug)]
pub enum PlayerState {
    Normal,
    DamagedInvincible { rest_frame: i64 },
}

/// The player entity: its condition and its position.
#[derive(Clone, Copy, PartialEq, Eq, Structural, Debug)]
pub struct Player {
    pub state: PlayerState,
    pub position: Vec3,
}

/// The invincibility countdown after one frame: the remaining count
/// drops by one, and at zero the player is back to normal.
pub open spec fn spec_tick_invincibility(s: PlayerState) -> PlayerState {
    match s {
        PlayerState::Normal => PlayerState::Normal,
        PlayerState::DamagedInvincible { rest_frame } => {
            let rest = if rest_frame > 0 {
                rest_frame - 1
            } else {
                rest_frame as int
            };
            if rest == 0 {
                PlayerState::Normal
            } else {
                PlayerState::DamagedInvincible { rest_frame: rest as i64 }
            }
        },
    }
}

impl Player {
    /// A fresh player, unharmed, at the given position.
    pub fn new(position: Vec3) -> (r: Player)
        ensures
            r == (Player { state: PlayerState::Normal, position }),
    {
        Player { state: PlayerState::Normal, position }
    }

    /// One frame of the invincibility countdown.
    pub fn decrease_damaged_invincible_frame(&mut self)
        ensures
            final(self).state == spec_tick_invincibility(old(self).state),
            final(self).position == old(self).position,
    {
        match self.state {
            PlayerState::Normal => {},
            PlayerState::DamagedInvincible { rest_frame } => {
                let rest = if rest_frame > 0 {
                    rest_frame - 1
                } else {
                    rest_frame
                };
                if rest == 0 {
                    self.state = PlayerState::Normal;
                } else {
                    self.state = PlayerState::DamagedInvincible { rest_frame: rest };
                }
            },
        }
    }
}

/// The smaller of two coordinates.
pub open spec fn spec_min(a: int, b: int) -> int {
    if a < b {
        a
    } else {
        b
    }
}

/// The larger of two coordinates.
pub open spec fn spec_max(a: int, b: int) -> int {
    if a > b {
        a
    } else {
        b
    }
}

/// Where one poll of the movement keys takes the player: one unit a
/// poll, scaled to seventy-one hundredths on a diagonal, then held
/// inside the play area — the x range leaves a sprite's width to the
/// right and its height to the left, the y range half a height on
/// each side.
pub open spec fn spec_move_player(
    pos: Vec3,
    left: bool,
    right: bool,
    up: bool,
    down: bool,
    scale: Vec3,
    area: PlayAreaDescriptor,
) -> Vec3 {
    let ratio: int = if (left || right) && (up || down) {
        710
    } else {
        1000
    };
    let dx = (if left {
        -ratio
    } else {
        0int
    }) + (if right {
        ratio
    } else {
        0int
    });
    let dy = (if up {
        ratio
    } else {
        0int
    }) + (if down {
        -ratio
    } else {
        0int
    });
    let x = spec_max(spec_min(pos.x + dx, area.spec_max_x() - scale.x), area.spec_min_x() + scale.y);
    let y = spec_max(
        spec_min(pos.y + dy, area.spec_max_y() - scale.y / 2),
        area.spec_min_y() + scale.y / 2,
    );
    Vec3 { x: x as i64, y: y as i64, z: pos.z }
}

/// Moves the player by one poll of the keyboard, clamped to the play
/// area.
pub fn move_player_by_keyboard(
    player: &mut Player,
    left: bool,
    right: bool,
    up: bool,
    down: bool,
    scale: &Vec3,
    area: &PlayAreaDescriptor,
)
    requires
        area.wf(),
        vec3_in_bounds(old(player).position),
        0 <= scale.x <= COORD_LIMIT,
        0 <= scale.y <= COORD_LIMIT,
    ensures
        final(player).position == spec_move_player(
            old(player).position,
            left,
            right,
            up,
            down,
            *scale,
            *area,
        ),
        final(player).state == old(player).state,
{
    let ratio: i64 = if (left || right) && (up || down) {
        710
    } else {
        1000
    };
    let dx = (if left {
        -ratio
    } else {
        0
    }) + (if right {
        ratio
    } else {
        0
    });
    let dy = (if up {
        ratio
    } else {
        0
    }) + (if down {
        -ratio
    } else {
        0
    });
    let mut x = self_min(player.position.x + dx, area.max_x() - scale.x);
    x = self_max(x, area.min_x() + scale.y);
    let mut y = self_min(player.position.y + dy, area.max_y() - scale.y / 2);
    y = self_max(y, area.min_y() + scale.y / 2);
    player.position = Vec3 { x, y, z: player.position.z };
}

fn self_min(a: i64, b: i64) -> (r: i64)
    ensures
        r == spec_min(a as int, b as int),
{
    if a < b {
        a
    } else {
        b
    }
}

fn self_max(a: i64, b: i64) -> (r: i64)
    ensures
        r == spec_max(a as int, b as int),
{
    if a > b {
        a
    } else {
        b
    }
}

} // verus!
