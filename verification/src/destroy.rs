use crate::barrage::{program_stack_wf, spec_exec, stack_measure, Instruction, PatternProgram,
    RepFrame};
use crate::bullet::Bullet;
use crate::vec3::Vec3;
use vstd::prelude::*;

verus! {

/// Whether two axis-aligned boxes, given by their centres and full
/// extents, overlap strictly on both axes.
pub open spec fn spec_collide(a_pos: Vec3, a_size: Vec3, b_pos: Vec3, b_size: Vec3) -> bool {
    &&& a_pos.x - a_size.x / 2 < b_pos.x + b_size.x / 2
    &&& a_pos.x + a_size.x / 2 > b_pos.x - b_size.x / 2
    &&& a_pos.y - a_size.y / 2 < b_pos.y + b_size.y / 2
    &&& a_pos.y + a_size.y / 2 > b_pos.y - b_size.y / 2
}

/// The axis-aligned bounding-box overlap test, centre and full
/// extent on each side.
pub fn collide(a_pos: &Vec3, a_size: &Vec3, b_pos: &Vec3, b_size: &Vec3) -> (r: bool)
    requires
        a_size.x >= 0,
        a_size.y >= 0,
        b_size.x >= 0,
        b_size.y >= 0,
    ensures
        r == spec_collide(*a_pos, *a_size, *b_pos, *b_size),
{
    let ax = a_pos.x as i128;
    let ay = a_pos.y as i128;
    let bx = b_pos.x as i128;
    let by = b_pos.y as i128;
    let ahx = (a_size.x / 2) as i128;
    let ahy = (a_size.y / 2) as i128;
    let bhx = (b_size.x / 2) as i128;
    let bhy = (b_size.y / 2) as i128;
    ax - ahx < bx + bhx && ax + ahx > bx - bhx && ay - ahy < by + bhy && ay + ahy > by - bhy
}

/// A plain bullet is removed exactly when it leaves the play area.
pub open spec fn spec_simple_bullet_despawns(outside: bool) -> bool {
    outside
}

/// A pattern bullet is removed exactly when it is out of sight —
/// outside the play area or vanished — and its interpreter has
/// reported completion. Being vanished alone never removes it.
pub open spec fn spec_runner_bullet_despawns(outside: bool, vanished: bool, finished: bool) -> bool {
    (outside || vanished) && finished
}

pub fn simple_bullet_despawns(outside: bool) -> (r: bool)
    ensures
        r == spec_simple_bullet_despawns(outside),
{
    outside
}

pub fn runner_bullet_despawns(outside: bool, vanished: bool, finished: bool) -> (r: bool)
    ensures
        r == spec_runner_bullet_despawns(outside, vanished, finished),
{
    (outside || vanished) && finished
}

/// The vanish law, first half: while the interpreter has not
/// reported completion, a bullet is kept, vanished or not, outside
/// or not.
pub proof fn lemma_vanished_alone_keeps_bullet(outside: bool, vanished: bool, finished: bool)
    requires
        !finished,
    ensures
        !spec_runner_bullet_despawns(outside, vanished, finished),
{
}

/// The vanish law, second half: the vanished flag changes nothing
/// about how the program goes on. Two bullets that differ only in
/// the flag run a turn to the same continuation, the same pending
/// wait, the same spawn actions, and the same motion state.
pub proof fn lemma_vanished_bullet_still_runs(
    p: PatternProgram,
    stack: Seq<RepFrame>,
    b1: Bullet,
    b2: Bullet,
    aim: int,
)
    requires
        program_stack_wf(p, stack),
        b1.direction == b2.direction,
        b1.speed == b2.speed,
    ensures
        spec_exec(p, stack, b1, aim).stack == spec_exec(p, stack, b2, aim).stack,
        spec_exec(p, stack, b1, aim).wait == spec_exec(p, stack, b2, aim).wait,
        spec_exec(p, stack, b1, aim).actions == spec_exec(p, stack, b2, aim).actions,
        spec_exec(p, stack, b1, aim).bullet.direction == spec_exec(p, stack, b2, aim).bullet.direction,
        spec_exec(p, stack, b1, aim).bullet.speed == spec_exec(p, stack, b2, aim).bullet.speed,
    decreases stack_measure(p, stack),
{
    if stack.len() > 0 {
        crate::barrage::lemma_exec_step(p, stack);
        let f = stack.last();
        let popped = stack.drop_last();
        let items = p.lists@[f.list as int]@;
        if f.idx >= items.len() {
            if f.remaining > 0 {
                let f2 = RepFrame { list: f.list, idx: 0, remaining: (f.remaining - 1) as i64 };
                lemma_vanished_bullet_still_runs(p, popped.push(f2), b1, b2, aim);
            } else {
                lemma_vanished_bullet_still_runs(p, popped, b1, b2, aim);
            }
        } else {
            let ins = items[f.idx as int];
            let fadv = RepFrame { list: f.list, idx: (f.idx + 1) as usize, remaining: f.remaining };
            let advanced = popped.push(fadv);
            match ins {
                Instruction::Wait(_) => {},
                Instruction::Vanish => {
                    lemma_vanished_bullet_still_runs(
                        p,
                        advanced,
                        Bullet { vanished: true, ..b1 },
                        Bullet { vanished: true, ..b2 },
                        aim,
                    );
                },
                Instruction::SetDirection(d) => {
                    lemma_vanished_bullet_still_runs(
                        p,
                        advanced,
                        Bullet {
                            direction: crate::barrage::spec_resolve(
                                d,
                                b1.direction as int,
                                aim,
                            ) as i64,
                            ..b1
                        },
                        Bullet {
                            direction: crate::barrage::spec_resolve(
                                d,
                                b2.direction as int,
                                aim,
                            ) as i64,
                            ..b2
                        },
                        aim,
                    );
                },
                Instruction::SetSpeed(s) => {
                    lemma_vanished_bullet_still_runs(
                        p,
                        advanced,
                        Bullet { speed: s, ..b1 },
                        Bullet { speed: s, ..b2 },
                        aim,
                    );
                },
                Instruction::Fire { .. } => {
                    lemma_vanished_bullet_still_runs(p, advanced, b1, b2, aim);
                },
                Instruction::SpawnSub { .. } => {
                    lemma_vanished_bullet_still_runs(p, advanced, b1, b2, aim);
                },
                Instruction::Repeat { times, body } => {
                    if times >= 1 {
                        let fnew = RepFrame { list: body, idx: 0, remaining: (times - 1) as i64 };
                        lemma_vanished_bullet_still_runs(p, advanced.push(fnew), b1, b2, aim);
                    } else {
                        lemma_vanished_bullet_still_runs(p, advanced, b1, b2, aim);
                    }
                },
            }
        }
    }
}

} // verus!
