use crate::bullet::{Bullet, SPEED_LIMIT};
use crate::frame::FRAME_LIMIT;
use crate::trig::{normalize_mdeg, spec_normalize_mdeg};
use vstd::prelude::*;

verus! {

/// How a direction-set or fire instruction chooses its angle: a fixed
/// absolute angle, an offset from the bullet's current direction, or
/// an offset from the angle that aims at the live target.
#[derive(Clone, Copy, PartialEq, Eq, Structural, Debug)]
pub enum DirectionSpec {
    Absolute(i64),
    Relative(i64),
    Aim(i64),
}

/// One primitive instruction of a bullet-pattern program. Instruction
/// lists live in a `PatternProgram` arena; `body` fields name another
/// list of the same program, always one with a strictly larger index,
/// so programs are trees laid out in order.
#[derive(Clone, Copy, PartialEq, Eq, Structural, Debug)]
pub enum Instruction {
    /// Spawns a plain bullet with the given direction and speed; a
    /// missing one is inherited from the firing bullet.
    Fire { direction: Option<DirectionSpec>, speed: Option<i64> },
    /// Consumes this turn and the given number of following turns.
    Wait(i64),
    /// Executes the named list the given number of times.
    Repeat { times: i64, body: usize },
    SetDirection(DirectionSpec),
    SetSpeed(i64),
    /// Marks the bullet vanished; the program keeps running.
    Vanish,
    /// Spawns a bullet that runs the named list as its own program.
    SpawnSub { direction: Option<DirectionSpec>, speed: Option<i64>, body: usize },
}

/// A parsed bullet-pattern program: an arena of instruction lists.
/// List `root` is where a fresh interpreter starts; `Repeat` and
/// `SpawnSub` instructions of list `l` may only name lists after `l`.
#[derive(Clone, Debug)]
pub struct PatternProgram {
    pub lists: Vec<Vec<Instruction>>,
    pub root: usize,
}

pub open spec fn dir_spec_wf(d: DirectionSpec) -> bool {
    match d {
        DirectionSpec::Absolute(a) => -360_000 <= a <= 360_000,
        DirectionSpec::Relative(a) => -360_000 <= a <= 360_000,
        DirectionSpec::Aim(a) => -360_000 <= a <= 360_000,
    }
}

pub open spec fn opt_dir_wf(d: Option<DirectionSpec>) -> bool {
    match d {
        Some(ds) => dir_spec_wf(ds),
        None => true,
    }
}

pub open spec fn opt_speed_wf(s: Option<i64>) -> bool {
    match s {
        Some(v) => 0 <= v <= SPEED_LIMIT,
        None => true,
    }
}

/// A well-formed instruction inside list `l` of a program with `n`
/// lists: angles and speeds bounded, waits and repeat counts
/// non-negative, named lists strictly after `l`.
pub open spec fn instruction_wf(x: Instruction, l: int, n: int) -> bool {
    match x {
        Instruction::Fire { direction, speed } => opt_dir_wf(direction) && opt_speed_wf(speed),
        Instruction::Wait(w) => w >= 0,
        Instruction::Repeat { times, body } => times >= 0 && l < body && (body as int) < n,
        Instruction::SetDirection(d) => dir_spec_wf(d),
        Instruction::SetSpeed(s) => 0 <= s <= SPEED_LIMIT,
        Instruction::Vanish => true,
        Instruction::SpawnSub { direction, speed, body } => opt_dir_wf(direction) && opt_speed_wf(
            speed,
        ) && l < body && (body as int) < n,
    }
}

impl PatternProgram {
    pub open spec fn wf(&self) -> bool {
        &&& (self.root as int) < self.lists@.len()
        &&& forall|l: int, k: int|
            0 <= l < self.lists@.len() && 0 <= k < self.lists@[l]@.len() ==> instruction_wf(
                #[trigger] self.lists@[l]@[k],
                l,
                self.lists@.len() as int,
            )
    }
}

pub open spec fn nat_of(x: int) -> nat {
    if x >= 0 {
        x as nat
    } else {
        0
    }
}

/// The execution weight of the instructions of list `l` from position
/// `k` on: every instruction weighs one, and a repeat additionally
/// weighs its body's weight, plus one, per iteration. A turn of the
/// interpreter strictly shrinks the weight of its continuation, which
/// bounds the work of one turn.
pub open spec fn items_weight(p: PatternProgram, l: int, k: int) -> nat
    decreases p.lists@.len() - l, p.lists@[l]@.len() - k,
{
    if l < 0 || l >= p.lists@.len() {
        0
    } else if k < 0 || k >= p.lists@[l]@.len() {
        0
    } else {
        let w: nat = match p.lists@[l]@[k] {
            Instruction::Repeat { times, body } => if l < body && (body as int) < p.lists@.len() {
                1 + nat_of(times as int) * (items_weight(p, body as int, 0) + 1)
            } else {
                1
            },
            _ => 1,
        };
        w + items_weight(p, l, k + 1)
    }
}

/// One level of the interpreter's continuation: a position inside an
/// instruction list, and how many more whole passes over that list
/// remain after the current one.
#[derive(Clone, Copy, PartialEq, Eq, Structural, Debug)]
pub struct RepFrame {
    pub list: usize,
    pub idx: usize,
    pub remaining: i64,
}

pub open spec fn frame_wf(p: PatternProgram, f: RepFrame) -> bool {
    &&& (f.list as int) < p.lists@.len()
    &&& (f.idx as int) <= p.lists@[f.list as int]@.len()
    &&& f.remaining >= 0
}

pub open spec fn frame_measure(p: PatternProgram, f: RepFrame) -> nat {
    items_weight(p, f.list as int, f.idx as int) + nat_of(f.remaining as int) * (items_weight(
        p,
        f.list as int,
        0,
    ) + 1)
}

pub open spec fn stack_measure(p: PatternProgram, s: Seq<RepFrame>) -> nat
    decreases s.len(),
{
    if s.len() == 0 {
        0
    } else {
        stack_measure(p, s.drop_last()) + frame_measure(p, s.last()) + 1
    }
}

/// What one turn of a pattern program asks the surrounding stage to
/// do: spawn a plain bullet, or spawn a bullet that runs the named
/// list of the same program as its own pattern.
#[derive(Clone, Copy, PartialEq, Eq, Structural, Debug)]
pub enum BarrageAction {
    FireSimple { direction: i64, speed: i64 },
    SpawnPattern { direction: i64, speed: i64, body: usize },
}

/// The direction an instruction resolves to: the single normalization
/// convention applied to the absolute angle, to the current direction
/// plus the offset, or to the aim angle plus the offset.
pub open spec fn spec_resolve(d: DirectionSpec, current: int, aim: int) -> int {
    match d {
        DirectionSpec::Absolute(a) => spec_normalize_mdeg(a as int),
        DirectionSpec::Relative(o) => spec_normalize_mdeg(current + o),
        DirectionSpec::Aim(o) => spec_normalize_mdeg(aim + o),
    }
}

fn resolve(d: DirectionSpec, current: i64, aim: i64) -> (r: i64)
    requires
        dir_spec_wf(d),
        0 <= current < 360_000,
        0 <= aim < 360_000,
    ensures
        r == spec_resolve(d, current as int, aim as int),
        0 <= r < 360_000,
{
    match d {
        DirectionSpec::Absolute(a) => normalize_mdeg(a),
        DirectionSpec::Relative(o) => normalize_mdeg(current + o),
        DirectionSpec::Aim(o) => normalize_mdeg(aim + o),
    }
}

/// The complete outcome of executing one turn from a continuation:
/// the continuation, bullet state and pending wait afterwards, and
/// the spawn actions emitted along the way, in order.
#[verifier::ext_equal]
pub struct SpecTurnResult {
    pub stack: Seq<RepFrame>,
    pub bullet: Bullet,
    pub wait: int,
    pub actions: Seq<BarrageAction>,
}

/// The small-step semantics of one interpreter turn: instructions
/// execute in order, repeats push a fresh pass over their body,
/// finished passes resume the enclosing list, and the turn ends when
/// a wait instruction consumes it or the continuation empties.
pub open spec fn spec_exec(
    p: PatternProgram,
    stack: Seq<RepFrame>,
    bullet: Bullet,
    aim: int,
) -> SpecTurnResult
    decreases stack_measure(p, stack),
    when program_stack_wf(p, stack)
    via spec_exec_decreases
{
    if stack.len() == 0 {
        SpecTurnResult { stack, bullet, wait: 0, actions: Seq::empty() }
    } else {
        let f = stack.last();
        let popped = stack.drop_last();
        let items = p.lists@[f.list as int]@;
        if f.idx >= items.len() {
            if f.remaining > 0 {
                spec_exec(
                    p,
                    popped.push(
                        RepFrame { list: f.list, idx: 0, remaining: (f.remaining - 1) as i64 },
                    ),
                    bullet,
                    aim,
                )
            } else {
                spec_exec(p, popped, bullet, aim)
            }
        } else {
            let advanced = popped.push(
                RepFrame { list: f.list, idx: (f.idx + 1) as usize, remaining: f.remaining },
            );
            match items[f.idx as int] {
                Instruction::Wait(w) => SpecTurnResult {
                    stack: advanced,
                    bullet,
                    wait: if w >= 1 {
                        w - 1
                    } else {
                        0
                    },
                    actions: Seq::empty(),
                },
                Instruction::Vanish => spec_exec(
                    p,
                    advanced,
                    Bullet { vanished: true, ..bullet },
                    aim,
                ),
                Instruction::SetDirection(d) => spec_exec(
                    p,
                    advanced,
                    Bullet {
                        direction: spec_resolve(d, bullet.direction as int, aim) as i64,
                        ..bullet
                    },
                    aim,
                ),
                Instruction::SetSpeed(s) => spec_exec(
                    p,
                    advanced,
                    Bullet { speed: s, ..bullet },
                    aim,
                ),
                Instruction::Fire { direction, speed } => {
                    let a = BarrageAction::FireSimple {
                        direction: match direction {
                            Some(d) => spec_resolve(d, bullet.direction as int, aim) as i64,
                            None => bullet.direction,
                        },
                        speed: match speed {
                            Some(s) => s,
                            None => bullet.speed,
                        },
                    };
                    let r = spec_exec(p, advanced, bullet, aim);
                    SpecTurnResult { actions: seq![a] + r.actions, ..r }
                },
                Instruction::SpawnSub { direction, speed, body } => {
                    let a = BarrageAction::SpawnPattern {
                        direction: match direction {
                            Some(d) => spec_resolve(d, bullet.direction as int, aim) as i64,
                            None => bullet.direction,
                        },
                        speed: match speed {
                            Some(s) => s,
                            None => bullet.speed,
                        },
                        body,
                    };
                    let r = spec_exec(p, advanced, bullet, aim);
                    SpecTurnResult { actions: seq![a] + r.actions, ..r }
                },
                Instruction::Repeat { times, body } => {
                    if times >= 1 {
                        spec_exec(
                            p,
                            advanced.push(
                                RepFrame { list: body, idx: 0, remaining: (times - 1) as i64 },
                            ),
                            bullet,
                            aim,
                        )
                    } else {
                        spec_exec(p, advanced, bullet, aim)
                    }
                },
            }
        }
    }
}

/// The program is well formed and every continuation frame points
/// into it.
pub open spec fn program_stack_wf(p: PatternProgram, stack: Seq<RepFrame>) -> bool {
    &&& p.wf()
    &&& forall|i: int| 0 <= i < stack.len() ==> frame_wf(p, #[trigger] stack[i])
}

/// Pushing a frame grows the stack measure by the frame's measure
/// plus one.
proof fn lemma_measure_push(p: PatternProgram, s: Seq<RepFrame>, f: RepFrame)
    ensures
        stack_measure(p, s.push(f)) == stack_measure(p, s) + frame_measure(p, f) + 1,
{
    assert(s.push(f).drop_last() =~= s);
    assert(s.push(f).last() == f);
}

/// The weight of a list position in range unfolds to the weight of
/// its instruction plus the weight of the rest.
proof fn lemma_weight_unfold(p: PatternProgram, l: int, k: int)
    requires
        0 <= l < p.lists@.len(),
        0 <= k < p.lists@[l]@.len(),
    ensures
        items_weight(p, l, k) == match p.lists@[l]@[k] {
            Instruction::Repeat { times, body } => if l < body && (body as int) < p.lists@.len() {
                1 + nat_of(times as int) * (items_weight(p, body as int, 0) + 1) + items_weight(
                    p,
                    l,
                    k + 1,
                )
            } else {
                1 + items_weight(p, l, k + 1)
            },
            _ => 1 + items_weight(p, l, k + 1),
        },
{
}

/// Past the end of a list the remaining weight is zero.
proof fn lemma_weight_end(p: PatternProgram, l: int, k: int)
    requires
        0 <= l < p.lists@.len(),
        k >= p.lists@[l]@.len(),
    ensures
        items_weight(p, l, k) == 0,
{
}

/// One micro-step of the interpreter leads to a still well-formed
/// continuation of strictly smaller measure, whichever instruction is
/// at hand: the termination argument of a turn, shared by the
/// semantics and by the lemmas that induct over it.
pub proof fn lemma_exec_step(p: PatternProgram, stack: Seq<RepFrame>)
    requires
        program_stack_wf(p, stack),
        stack.len() > 0,
    ensures
        ({
            let f = stack.last();
            let popped = stack.drop_last();
            let items = p.lists@[f.list as int]@;
            &&& (f.idx >= items.len() && f.remaining > 0 ==> {
                let s2 = popped.push(
                    RepFrame { list: f.list, idx: 0, remaining: (f.remaining - 1) as i64 },
                );
                program_stack_wf(p, s2) && stack_measure(p, s2) < stack_measure(p, stack)
            })
            &&& (f.idx >= items.len() && f.remaining <= 0 ==> program_stack_wf(p, popped)
                && stack_measure(p, popped) < stack_measure(p, stack))
            &&& (f.idx < items.len() ==> {
                let adv = popped.push(
                    RepFrame { list: f.list, idx: (f.idx + 1) as usize, remaining: f.remaining },
                );
                &&& program_stack_wf(p, adv)
                &&& stack_measure(p, adv) < stack_measure(p, stack)
                &&& match items[f.idx as int] {
                    Instruction::Repeat { times, body } => times >= 1 ==> {
                        let s3 = adv.push(
                            RepFrame { list: body, idx: 0, remaining: (times - 1) as i64 },
                        );
                        program_stack_wf(p, s3) && stack_measure(p, s3) < stack_measure(p, stack)
                    },
                    _ => true,
                }
            })
        }),
{
    let f = stack.last();
    let popped = stack.drop_last();
    let items = p.lists@[f.list as int]@;
    let l = f.list as int;
    let n = p.lists@.len() as int;
    assert(frame_wf(p, f));
    assert(forall|i: int| 0 <= i < popped.len() ==> popped[i] == stack[i]);
    assert(stack_measure(p, stack) == stack_measure(p, popped) + frame_measure(p, f) + 1);
    if f.idx >= items.len() {
        lemma_weight_end(p, l, f.idx as int);
        if f.remaining > 0 {
            let f2 = RepFrame { list: f.list, idx: 0, remaining: (f.remaining - 1) as i64 };
            lemma_measure_push(p, popped, f2);
            let w0 = items_weight(p, l, 0);
            assert(nat_of(f.remaining as int) * (w0 + 1) == (w0 + 1) + nat_of(f.remaining - 1) * (
            w0 + 1)) by (nonlinear_arith)
                requires
                    f.remaining >= 1,
            ;
            assert(frame_measure(p, f2) + 1 <= frame_measure(p, f));
            assert(stack_measure(p, popped.push(f2)) < stack_measure(p, stack));
            assert(forall|i: int|
                0 <= i < popped.push(f2).len() ==> frame_wf(p, #[trigger] popped.push(f2)[i]));
        } else {
            assert(stack_measure(p, popped) < stack_measure(p, stack));
        }
    } else {
        let ins = items[f.idx as int];
        assert(instruction_wf(ins, l, n));
        lemma_weight_unfold(p, l, f.idx as int);
        vstd::std_specs::vec::axiom_spec_len(&p.lists@[l]);
        assert(items.len() <= usize::MAX);
        let fadv = RepFrame { list: f.list, idx: (f.idx + 1) as usize, remaining: f.remaining };
        assert(fadv.idx as int == f.idx + 1);
        lemma_measure_push(p, popped, fadv);
        let advanced = popped.push(fadv);
        assert(frame_measure(p, fadv) < frame_measure(p, f));
        assert(stack_measure(p, advanced) < stack_measure(p, stack));
        assert(forall|i: int| 0 <= i < advanced.len() ==> frame_wf(p, #[trigger] advanced[i]));
        match ins {
            Instruction::Repeat { times, body } => {
                if times >= 1 {
                    let fnew = RepFrame { list: body, idx: 0, remaining: (times - 1) as i64 };
                    lemma_measure_push(p, advanced, fnew);
                    let wb = items_weight(p, body as int, 0);
                    assert(nat_of(times as int) * (wb + 1) == (wb + 1) + nat_of(times - 1) * (wb
                        + 1)) by (nonlinear_arith)
                        requires
                            times >= 1,
                    ;
                    assert(frame_measure(p, fnew) + 1 <= nat_of(times as int) * (wb + 1));
                    assert(stack_measure(p, advanced.push(fnew)) < stack_measure(p, stack));
                    assert(frame_wf(p, fnew));
                    assert(forall|i: int|
                        0 <= i < advanced.push(fnew).len() ==> frame_wf(
                            p,
                            #[trigger] advanced.push(fnew)[i],
                        ));
                }
            },
            _ => {},
        }
    }
}

#[via_fn]
proof fn spec_exec_decreases(p: PatternProgram, stack: Seq<RepFrame>, bullet: Bullet, aim: int) {
    if stack.len() > 0 {
        lemma_exec_step(p, stack);
    }
}

/// The resumable interpreter state a bullet carries: the continuation
/// stack, the pending wait counter, and the ever-incrementing turn
/// counter the program's surroundings may read.
#[derive(Clone, Debug)]
pub struct Runner {
    pub stack: Vec<RepFrame>,
    pub wait: i64,
    pub turn: i64,
}

impl Runner {
    /// A runner's frames all point into the program, and its counters
    /// are non-negative.
    pub open spec fn wf(&self, p: PatternProgram) -> bool {
        &&& forall|i: int| 0 <= i < self.stack@.len() ==> frame_wf(p, #[trigger] self.stack@[i])
        &&& self.wait >= 0
        &&& 0 <= self.turn
    }

    /// The interpreter has reported completion: nothing remains to
    /// execute.
    pub open spec fn done(&self) -> bool {
        self.stack@.len() == 0
    }

    /// A fresh interpreter over the root list of a program.
    pub fn new(p: &PatternProgram) -> (r: Runner)
        requires
            p.wf(),
        ensures
            r.wf(*p),
            !r.done(),
            r.turn == 0,
            r.wait == 0,
            r.stack@ =~= seq![RepFrame { list: p.root, idx: 0usize, remaining: 0i64 }],
    {
        let mut stack: Vec<RepFrame> = Vec::new();
        stack.push(RepFrame { list: p.root, idx: 0, remaining: 0 });
        Runner { stack, wait: 0, turn: 0 }
    }

    /// A fresh interpreter over the named list of a program: how a
    /// spawned bullet starts running its sub-program.
    pub fn for_list(p: &PatternProgram, body: usize) -> (r: Runner)
        requires
            p.wf(),
            (body as int) < p.lists@.len(),
        ensures
            r.wf(*p),
            !r.done(),
            r.turn == 0,
            r.wait == 0,
            r.stack@ =~= seq![RepFrame { list: body, idx: 0usize, remaining: 0i64 }],
    {
        let mut stack: Vec<RepFrame> = Vec::new();
        stack.push(RepFrame { list: body, idx: 0, remaining: 0 });
        Runner { stack, wait: 0, turn: 0 }
    }

    /// Whether the program has completed.
    pub fn is_end(&self) -> (r: bool)
        ensures
            r == self.done(),
    {
        self.stack.len() == 0
    }

    /// Executes one turn of the pattern program: counts the turn, and
    /// — unless the program is complete or a pending wait consumes
    /// the turn — advances through the instructions until a wait
    /// consumes it or the program completes, mutating the bullet and
    /// emitting the spawn actions of that advance, in order.
    pub fn run_turn(&mut self, p: &PatternProgram, bullet: &mut Bullet, aim: i64) -> (actions:
        Vec<BarrageAction>)
        requires
            p.wf(),
            old(self).wf(*p),
            old(self).turn < FRAME_LIMIT,
            old(bullet).wf(),
            0 <= aim < 360_000,
        ensures
            final(self).wf(*p),
            final(bullet).wf(),
            final(self).turn == old(self).turn + 1,
            old(bullet).vanished ==> final(bullet).vanished,
            old(self).done() ==> final(self).stack@ == old(self).stack@ && *final(bullet) == *old(
                bullet,
            ) && final(self).wait == old(self).wait && actions@ == Seq::<BarrageAction>::empty(),
            !old(self).done() && old(self).wait > 0 ==> final(self).stack@ == old(self).stack@
                && *final(bullet) == *old(bullet) && final(self).wait == old(self).wait - 1
                && actions@ == Seq::<BarrageAction>::empty(),
            !old(self).done() && old(self).wait == 0 ==> {
                let r = spec_exec(*p, old(self).stack@, *old(bullet), aim as int);
                &&& final(self).stack@ == r.stack
                &&& *final(bullet) == r.bullet
                &&& final(self).wait == r.wait
                &&& actions@ == r.actions
            },
    {
        let ghost orig_stack = self.stack@;
        let ghost orig_bullet = *bullet;
        let mut actions: Vec<BarrageAction> = Vec::new();
        if self.stack.len() == 0 {
            self.turn = self.turn + 1;
            return actions;
        }
        if self.wait > 0 {
            self.wait = self.wait - 1;
            self.turn = self.turn + 1;
            return actions;
        }
        let mut consumed = false;
        proof {
            assert(Seq::<BarrageAction>::empty() + spec_exec(
                *p,
                orig_stack,
                orig_bullet,
                aim as int,
            ).actions =~= spec_exec(*p, orig_stack, orig_bullet, aim as int).actions);
        }
        while !consumed && self.stack.len() > 0
            invariant
                p.wf(),
                forall|i: int|
                    0 <= i < self.stack@.len() ==> frame_wf(*p, #[trigger] self.stack@[i]),
                bullet.wf(),
                0 <= aim < 360_000,
                self.wait >= 0,
                self.turn == old(self).turn,
                old(self).turn < FRAME_LIMIT,
                orig_bullet.vanished ==> bullet.vanished,
                consumed ==> spec_exec(*p, orig_stack, orig_bullet, aim as int)
                    == (SpecTurnResult {
                    stack: self.stack@,
                    bullet: *bullet,
                    wait: self.wait as int,
                    actions: actions@,
                }),
                !consumed ==> self.wait == 0 && spec_exec(*p, orig_stack, orig_bullet, aim as int)
                    == (SpecTurnResult {
                    stack: spec_exec(*p, self.stack@, *bullet, aim as int).stack,
                    bullet: spec_exec(*p, self.stack@, *bullet, aim as int).bullet,
                    wait: spec_exec(*p, self.stack@, *bullet, aim as int).wait,
                    actions: actions@ + spec_exec(*p, self.stack@, *bullet, aim as int).actions,
                }),
            decreases stack_measure(*p, self.stack@), (if consumed {
                0int
            } else {
                1int
            }),
        {
            let ghost pre_stack = self.stack@;
            let ghost pre_bullet = *bullet;
            let ghost pre_actions = actions@;
            let fi = self.stack.len() - 1;
            let f = self.stack[fi];
            proof {
                assert(program_stack_wf(*p, pre_stack));
                assert(frame_wf(*p, f));
                assert(stack_measure(*p, pre_stack) == stack_measure(*p, pre_stack.drop_last())
                    + frame_measure(*p, f) + 1);
            }
            let list_len = p.lists[f.list].len();
            let popped = self.stack.pop();
            proof {
                assert(self.stack@ =~= pre_stack.drop_last());
            }
            if f.idx >= list_len {
                if f.remaining > 0 {
                    let f2 = RepFrame { list: f.list, idx: 0, remaining: f.remaining - 1 };
                    self.stack.push(f2);
                    proof {
                        lemma_weight_end(*p, f.list as int, f.idx as int);
                        lemma_measure_push(*p, pre_stack.drop_last(), f2);
                        let w0 = items_weight(*p, f.list as int, 0);
                        assert(nat_of(f.remaining as int) * (w0 + 1) == (w0 + 1) + nat_of(
                            f.remaining - 1,
                        ) * (w0 + 1)) by (nonlinear_arith)
                            requires
                                f.remaining >= 1,
                        ;
                    }
                }
                // else: the pass is over and no pass remains; the
                // enclosing list resumes on the next iteration.
            } else {
                let ins = p.lists[f.list][f.idx];
                let fadv = RepFrame { list: f.list, idx: f.idx + 1, remaining: f.remaining };
                self.stack.push(fadv);
                proof {
                    assert(instruction_wf(ins, f.list as int, p.lists@.len() as int));
                    lemma_weight_unfold(*p, f.list as int, f.idx as int);
                    lemma_measure_push(*p, pre_stack.drop_last(), fadv);
                }
                match ins {
                    Instruction::Wait(w) => {
                        self.wait = if w >= 1 {
                            w - 1
                        } else {
                            0
                        };
                        consumed = true;
                    },
                    Instruction::Vanish => {
                        bullet.vanished = true;
                    },
                    Instruction::SetDirection(d) => {
                        bullet.direction = resolve(d, bullet.direction, aim);
                    },
                    Instruction::SetSpeed(s) => {
                        bullet.speed = s;
                    },
                    Instruction::Fire { direction, speed } => {
                        let dir = match direction {
                            Some(d) => resolve(d, bullet.direction, aim),
                            None => bullet.direction,
                        };
                        let spd = match speed {
                            Some(s) => s,
                            None => bullet.speed,
                        };
                        let a = BarrageAction::FireSimple { direction: dir, speed: spd };
                        actions.push(a);
                        proof {
                            let rest = spec_exec(*p, self.stack@, *bullet, aim as int).actions;
                            assert(actions@ =~= pre_actions + seq![a]);
                            assert(pre_actions + (seq![a] + rest) =~= (pre_actions + seq![a])
                                + rest);
                        }
                    },
                    Instruction::SpawnSub { direction, speed, body } => {
                        let dir = match direction {
                            Some(d) => resolve(d, bullet.direction, aim),
                            None => bullet.direction,
                        };
                        let spd = match speed {
                            Some(s) => s,
                            None => bullet.speed,
                        };
                        let a = BarrageAction::SpawnPattern { direction: dir, speed: spd, body };
                        actions.push(a);
                        proof {
                            let rest = spec_exec(*p, self.stack@, *bullet, aim as int).actions;
                            assert(actions@ =~= pre_actions + seq![a]);
                            assert(pre_actions + (seq![a] + rest) =~= (pre_actions + seq![a])
                                + rest);
                        }
                    },
                    Instruction::Repeat { times, body } => {
                        if times >= 1 {
                            let fnew = RepFrame { list: body, idx: 0, remaining: times - 1 };
                            self.stack.push(fnew);
                            proof {
                                lemma_measure_push(*p, pre_stack.drop_last().push(fadv), fnew);
                                let wb = items_weight(*p, body as int, 0);
                                assert(nat_of(times as int) * (wb + 1) == (wb + 1) + nat_of(
                                    times - 1,
                                ) * (wb + 1)) by (nonlinear_arith)
                                    requires
                                        times >= 1,
                                ;
                            }
                        }
                    },
                }
            }
            proof {
                if consumed {
                    assert(actions@ =~= pre_actions + Seq::<BarrageAction>::empty());
                }
            }
        }
        self.turn = self.turn + 1;
        proof {
            if !consumed {
                assert(spec_exec(*p, self.stack@, *bullet, aim as int) == (SpecTurnResult {
                    stack: self.stack@,
                    bullet: *bullet,
                    wait: 0int,
                    actions: Seq::<BarrageAction>::empty(),
                }));
                assert(actions@ + Seq::<BarrageAction>::empty() =~= actions@);
            }
        }
        actions
    }
}

} // verus!
