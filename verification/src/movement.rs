use crate::life::LifeCount;
use crate::rng::random_below;
use crate::vec3::{spec_vec_add, Vec3};
use vstd::prelude::*;

verus! {

/// The closed set of movement strategies a normal enemy can be
/// assigned at spawn time. Each one is a table keyed by lifetime:
/// listed lifetimes replace the velocity (or, for the fast patterns,
/// add a per-tick acceleration), unlisted lifetimes leave it alone.
#[derive(Clone, Copy, PartialEq, Eq, Structural, Debug)]
pub enum MovePattern {
    DownStayUp,
    DownStayLeftBottom,
    DownStayRightBottom,
    FastDownLeft,
    FastDownRight,
    LeftBottom,
    RightBottom,
}

/// The velocity an enemy with pattern `p` has after the lifetime
/// value `life` is observed, given the velocity `v` it had before:
/// a pure function of the lifetime and the previous velocity.
pub open spec fn vel_step(p: MovePattern, life: int, v: Vec3) -> Vec3 {
    match p {
        MovePattern::DownStayUp => if life == 0 {
            Vec3 { x: 0i64, y: -3000i64, z: 0i64 }
        } else if life == 70 {
            Vec3 { x: 0i64, y: 0i64, z: 0i64 }
        } else if life == 100 {
            Vec3 { x: 0i64, y: 3000i64, z: 0i64 }
        } else {
            v
        },
        MovePattern::DownStayLeftBottom => if life == 0 {
            Vec3 { x: 0i64, y: -3000i64, z: 0i64 }
        } else if life == 70 {
            Vec3 { x: 0i64, y: 0i64, z: 0i64 }
        } else if life == 100 {
            Vec3 { x: -1000i64, y: -2000i64, z: 0i64 }
        } else {
            v
        },
        MovePattern::DownStayRightBottom => if life == 0 {
            Vec3 { x: 0i64, y: -3000i64, z: 0i64 }
        } else if life == 70 {
            Vec3 { x: 0i64, y: 0i64, z: 0i64 }
        } else if life == 100 {
            Vec3 { x: 1000i64, y: -2000i64, z: 0i64 }
        } else {
            v
        },
        MovePattern::FastDownLeft => {
            let base = if life == 0 {
                Vec3 { x: 0i64, y: -5000i64, z: 0i64 }
            } else {
                v
            };
            if life < 100 {
                spec_vec_add(base, Vec3 { x: -50i64, y: -50i64, z: 0i64 })
            } else {
                base
            }
        },
        MovePattern::FastDownRight => {
            let base = if life == 0 {
                Vec3 { x: 0i64, y: -5000i64, z: 0i64 }
            } else {
                v
            };
            if life < 100 {
                spec_vec_add(base, Vec3 { x: 50i64, y: -50i64, z: 0i64 })
            } else {
                base
            }
        },
        MovePattern::LeftBottom => if life == 0 {
            Vec3 { x: -1000i64, y: -2000i64, z: 0i64 }
        } else {
            v
        },
        MovePattern::RightBottom => if life == 0 {
            Vec3 { x: 1000i64, y: -2000i64, z: 0i64 }
        } else {
            v
        },
    }
}

impl MovePattern {
    /// The movement-pattern selector used by the spawn timeline:
    /// indices zero through six name the seven strategies, anything
    /// else selects nothing.
    pub open spec fn spec_from_index(i: int) -> Option<MovePattern> {
        if i == 0 {
            Some(MovePattern::DownStayUp)
        } else if i == 1 {
            Some(MovePattern::DownStayLeftBottom)
        } else if i == 2 {
            Some(MovePattern::DownStayRightBottom)
        } else if i == 3 {
            Some(MovePattern::FastDownLeft)
        } else if i == 4 {
            Some(MovePattern::FastDownRight)
        } else if i == 5 {
            Some(MovePattern::LeftBottom)
        } else if i == 6 {
            Some(MovePattern::RightBottom)
        } else {
            None
        }
    }

    pub fn from_index(i: i64) -> (r: Option<MovePattern>)
        ensures
            r == MovePattern::spec_from_index(i as int),
    {
        if i == 0 {
            Some(MovePattern::DownStayUp)
        } else if i == 1 {
            Some(MovePattern::DownStayLeftBottom)
        } else if i == 2 {
            Some(MovePattern::DownStayRightBottom)
        } else if i == 3 {
            Some(MovePattern::FastDownLeft)
        } else if i == 4 {
            Some(MovePattern::FastDownRight)
        } else if i == 5 {
            Some(MovePattern::LeftBottom)
        } else if i == 6 {
            Some(MovePattern::RightBottom)
        } else {
            None
        }
    }

    /// Draws one of the seven strategies uniformly at random.
    pub fn random() -> (r: MovePattern)
    {
        let i = random_below(7);
        if i == 0 {
            MovePattern::DownStayUp
        } else if i == 1 {
            MovePattern::DownStayLeftBottom
        } else if i == 2 {
            MovePattern::DownStayRightBottom
        } else if i == 3 {
            MovePattern::FastDownLeft
        } else if i == 4 {
            MovePattern::FastDownRight
        } else if i == 5 {
            MovePattern::LeftBottom
        } else {
            MovePattern::RightBottom
        }
    }

    /// Applies this pattern's table for the given lifetime to the
    /// enemy's velocity.
    pub fn update_velocity(&self, life: &LifeCount, v: &mut Vec3)
        ensures
            *final(v) == vel_step(*self, life.count as int, *old(v)),
    {
        match self {
            MovePattern::DownStayUp => {
                if life.count == 0 {
                    *v = Vec3::new(0, -3000, 0);
                } else if life.count == 70 {
                    *v = Vec3::new(0, 0, 0);
                } else if life.count == 100 {
                    *v = Vec3::new(0, 3000, 0);
                }
            },
            MovePattern::DownStayLeftBottom => {
                if life.count == 0 {
                    *v = Vec3::new(0, -3000, 0);
                } else if life.count == 70 {
                    *v = Vec3::new(0, 0, 0);
                } else if life.count == 100 {
                    *v = Vec3::new(-1000, -2000, 0);
                }
            },
            MovePattern::DownStayRightBottom => {
                if life.count == 0 {
                    *v = Vec3::new(0, -3000, 0);
                } else if life.count == 70 {
                    *v = Vec3::new(0, 0, 0);
                } else if life.count == 100 {
                    *v = Vec3::new(1000, -2000, 0);
                }
            },
            MovePattern::FastDownLeft => {
                if life.count == 0 {
                    *v = Vec3::new(0, -5000, 0);
                }
                if life.count < 100 {
                    *v = v.add(&Vec3::new(-50, -50, 0));
                }
            },
            MovePattern::FastDownRight => {
                if life.count == 0 {
                    *v = Vec3::new(0, -5000, 0);
                }
                if life.count < 100 {
                    *v = v.add(&Vec3::new(50, -50, 0));
                }
            },
            MovePattern::LeftBottom => {
                if life.count == 0 {
                    *v = Vec3::new(-1000, -2000, 0);
                }
            },
            MovePattern::RightBottom => {
                if life.count == 0 {
                    *v = Vec3::new(1000, -2000, 0);
                }
            },
        }
    }
}

/// The velocity an enemy with pattern `p` has after living `n`
/// frames, replayed from spawn: the fold of `vel_step` over the
/// lifetimes `0, 1, ..., n`.
pub open spec fn velocity_after(p: MovePattern, n: nat) -> Vec3
    decreases n,
{
    if n == 0 {
        vel_step(p, 0, Vec3 { x: 0i64, y: 0i64, z: 0i64 })
    } else {
        vel_step(p, n as int, velocity_after(p, (n - 1) as nat))
    }
}

/// The position of an enemy with pattern `p` that spawned at `start`,
/// after living `n` frames: on each frame past spawn the updated
/// velocity is added to the position.
pub open spec fn position_after(p: MovePattern, start: Vec3, n: nat) -> Vec3
    decreases n,
{
    if n == 0 {
        start
    } else {
        spec_vec_add(position_after(p, start, (n - 1) as nat), velocity_after(p, n))
    }
}

/// A possible history of an enemy: `velocities[i]` and
/// `positions[i]` are its velocity and position at lifetime `i`,
/// where each entry is produced from the previous one by the
/// pattern's velocity table and by one motion step.
pub open spec fn follows_strategy(
    p: MovePattern,
    start: Vec3,
    positions: Seq<Vec3>,
    velocities: Seq<Vec3>,
) -> bool {
    &&& positions.len() == velocities.len()
    &&& positions.len() > 0
    &&& velocities[0] == vel_step(p, 0, Vec3 { x: 0i64, y: 0i64, z: 0i64 })
    &&& positions[0] == start
    &&& forall|i: int|
        1 <= i < positions.len() ==> #[trigger] velocities[i] == vel_step(p, i, velocities[i - 1])
    &&& forall|i: int|
        1 <= i < positions.len() ==> #[trigger] positions[i] == spec_vec_add(
            positions[i - 1],
            velocities[i],
        )
}

/// A history that follows a strategy is exactly the replayed
/// trajectory: at every lifetime the velocity and position are the
/// pure functions of the lifetime alone.
pub proof fn lemma_strategy_history_is_trajectory(
    p: MovePattern,
    start: Vec3,
    positions: Seq<Vec3>,
    velocities: Seq<Vec3>,
    i: int,
)
    requires
        follows_strategy(p, start, positions, velocities),
        0 <= i < positions.len(),
    ensures
        velocities[i] == velocity_after(p, i as nat),
        positions[i] == position_after(p, start, i as nat),
    decreases i,
{
    if i > 0 {
        lemma_strategy_history_is_trajectory(p, start, positions, velocities, i - 1);
    }
}

/// The movement law: a strategy's velocity at a given lifetime is a
/// deterministic function of that lifetime, so replaying the same
/// lifetime sequence from spawn reproduces the same position
/// trajectory — any two histories of the same pattern from the same
/// start agree everywhere.
pub proof fn lemma_strategy_deterministic(
    p: MovePattern,
    start: Vec3,
    positions1: Seq<Vec3>,
    velocities1: Seq<Vec3>,
    positions2: Seq<Vec3>,
    velocities2: Seq<Vec3>,
)
    requires
        follows_strategy(p, start, positions1, velocities1),
        follows_strategy(p, start, positions2, velocities2),
        positions1.len() == positions2.len(),
    ensures
        positions1 =~= positions2,
        velocities1 =~= velocities2,
{
    assert forall|i: int| 0 <= i < positions1.len() implies positions1[i] == positions2[i]
        && velocities1[i] == velocities2[i] by {
        lemma_strategy_history_is_trajectory(p, start, positions1, velocities1, i);
        lemma_strategy_history_is_trajectory(p, start, positions2, velocities2, i);
    }
}

/// Replays a pattern for `n` frames past spawn and returns the
/// position at each lifetime, matching the trajectory the spec
/// functions describe.
pub fn simulate_movement(p: MovePattern, start: Vec3, n: usize) -> (r: Vec<Vec3>)
    requires
        n < FRAME_LIMIT_USIZE,
    ensures
        r@.len() == n + 1,
        forall|i: int| 0 <= i <= n ==> r@[i] == position_after(p, start, i as nat),
{
    let mut positions: Vec<Vec3> = Vec::new();
    let mut velocity = Vec3::zero();
    let mut life = LifeCount::new();
    p.update_velocity(&life, &mut velocity);
    positions.push(start);
    let mut pos = start;
    let mut k: usize = 0;
    while k < n
        invariant
            0 <= k <= n,
            n < FRAME_LIMIT_USIZE,
            life.count == k,
            positions@.len() == k + 1,
            velocity == velocity_after(p, k as nat),
            pos == position_after(p, start, k as nat),
            forall|i: int| 0 <= i <= k ==> positions@[i] == position_after(p, start, i as nat),
        decreases n - k,
    {
        life.count_up();
        p.update_velocity(&life, &mut velocity);
        pos = pos.add(&velocity);
        positions.push(pos);
        k = k + 1;
    }
    positions
}

/// Upper bound that lets the replay's lifetime counter fit in the
/// frame type on every machine.
pub const FRAME_LIMIT_USIZE: usize = 0x4000_0000;

} // verus!
