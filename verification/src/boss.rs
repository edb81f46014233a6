use crate::easing::{spec_ease_vec3, vec3_in_bounds, easing_vec3_ease_in_out_interpolation, DURATION_LIMIT};
use crate::life::LifeCount;
use crate::vec3::Vec3;
use vstd::arithmetic::div_mod::{lemma_mod_multiples_vanish, lemma_small_mod};
use vstd::string::StringSliceAdditionalSpecFns;
use vstd::prelude::*;

verus! {

/// Bound on a scenario's cycle length in frames.
pub const TOTAL_LIMIT: i64 = 1_000_000_000;

/// One authored step of a boss scenario: move somewhere over a
/// number of frames, start a named barrage that lasts a number of
/// frames, or stay idle for a number of frames.
#[derive(Clone, Debug)]
pub enum ScenarioStep {
    MoveTo { duration: i64, target: Vec3 },
    StartBarrage { name: Vec<u8>, duration: i64 },
    Stay { frames: i64 },
}

/// What a compiled command does during its frame range.
#[derive(Clone, Debug)]
pub enum ScenarioCommand {
    Move { from: Vec3, to: Vec3 },
    Barrage { name: Vec<u8> },
}

/// A compiled command together with the inclusive frame range it
/// covers inside one cycle.
#[derive(Clone, Debug)]
pub struct RangedCommand {
    pub start: i64,
    pub end: i64,
    pub command: ScenarioCommand,
}

/// The mathematical image of a compiled command.
pub struct SpecCommand {
    pub start: int,
    pub end: int,
    pub kind: SpecCommandKind,
}

pub enum SpecCommandKind {
    Move { from: Vec3, to: Vec3 },
    Barrage { name: Seq<u8> },
}

impl View for RangedCommand {
    type V = SpecCommand;

    open spec fn view(&self) -> SpecCommand {
        SpecCommand {
            start: self.start as int,
            end: self.end as int,
            kind: match self.command {
                ScenarioCommand::Move { from, to } => SpecCommandKind::Move { from, to },
                ScenarioCommand::Barrage { ref name } => SpecCommandKind::Barrage {
                    name: name@,
                },
            },
        }
    }
}

/// What the engine asks a boss entity to do on one frame.
#[derive(Clone, Debug)]
pub enum BossAction {
    MoveTo(Vec3),
    StartBarrage(Vec<u8>),
    Stay,
}

/// The mathematical image of a boss action.
pub enum SpecAction {
    MoveTo(Vec3),
    StartBarrage(Seq<u8>),
    Stay,
}

impl View for BossAction {
    type V = SpecAction;

    open spec fn view(&self) -> SpecAction {
        match self {
            BossAction::MoveTo(p) => SpecAction::MoveTo(*p),
            BossAction::StartBarrage(name) => SpecAction::StartBarrage(name@),
            BossAction::Stay => SpecAction::Stay,
        }
    }
}

/// How many frames of the cycle a step occupies: its duration plus
/// the one frame on which the next step takes over.
pub open spec fn step_span(s: ScenarioStep) -> int {
    match s {
        ScenarioStep::MoveTo { duration, .. } => duration + 1,
        ScenarioStep::StartBarrage { duration, .. } => duration + 1,
        ScenarioStep::Stay { frames } => frames + 1,
    }
}

/// A well-formed authored step: positive move duration, non-negative
/// other durations, everything bounded, target in the play space.
pub open spec fn step_wf(s: ScenarioStep) -> bool {
    match s {
        ScenarioStep::MoveTo { duration, target } => 1 <= duration <= DURATION_LIMIT
            && vec3_in_bounds(target),
        ScenarioStep::StartBarrage { duration, .. } => 0 <= duration <= DURATION_LIMIT,
        ScenarioStep::Stay { frames } => 0 <= frames <= DURATION_LIMIT,
    }
}

/// The cycle length of a step list: the sum of the spans.
pub open spec fn spec_total(steps: Seq<ScenarioStep>) -> int
    decreases steps.len(),
{
    if steps.len() == 0 {
        0
    } else {
        step_span(steps[0]) + spec_total(steps.skip(1))
    }
}

/// A list of well-formed steps spans at least one frame per step.
pub proof fn lemma_total_at_least_len(steps: Seq<ScenarioStep>)
    requires
        forall|i: int| 0 <= i < steps.len() ==> step_wf(#[trigger] steps[i]),
    ensures
        spec_total(steps) >= steps.len(),
    decreases steps.len(),
{
    if steps.len() > 0 {
        assert(step_wf(steps[0]));
        lemma_total_at_least_len(steps.skip(1));
    }
}

/// The compilation of an authored step list, starting at position
/// `pos` and frame offset `frame`: each move step becomes a ranged
/// interpolation command from the position the previous steps ended
/// at, each barrage step a single-frame trigger, each stay step only
/// advances the offset.
pub open spec fn spec_build(pos: Vec3, frame: int, steps: Seq<ScenarioStep>) -> Seq<SpecCommand>
    decreases steps.len(),
{
    if steps.len() == 0 {
        Seq::empty()
    } else {
        match steps[0] {
            ScenarioStep::MoveTo { duration, target } => seq![
                SpecCommand {
                    start: frame,
                    end: frame + duration,
                    kind: SpecCommandKind::Move { from: pos, to: target },
                },
            ] + spec_build(target, frame + duration + 1, steps.skip(1)),
            ScenarioStep::StartBarrage { name, duration } => seq![
                SpecCommand {
                    start: frame,
                    end: frame,
                    kind: SpecCommandKind::Barrage { name: name@ },
                },
            ] + spec_build(pos, frame + duration + 1, steps.skip(1)),
            ScenarioStep::Stay { frames } => spec_build(pos, frame + frames + 1, steps.skip(1)),
        }
    }
}

/// A well-formed compiled command for a cycle of length `total`:
/// the range lies inside the cycle, a move lasts between one frame
/// and the duration bound with both endpoints in the play space, a
/// barrage trigger covers exactly one frame.
pub open spec fn cmd_wf(c: SpecCommand, total: int) -> bool {
    &&& 0 <= c.start <= c.end < total
    &&& match c.kind {
        SpecCommandKind::Move { from, to } => 1 <= c.end - c.start <= DURATION_LIMIT
            && vec3_in_bounds(from) && vec3_in_bounds(to),
        SpecCommandKind::Barrage { .. } => c.end == c.start,
    }
}

/// Compiled commands are well formed, lie between the frame offset
/// and the end of the compiled span, and come in ascending, disjoint
/// ranges.
pub proof fn lemma_build_props(pos: Vec3, frame: int, steps: Seq<ScenarioStep>)
    requires
        forall|i: int| 0 <= i < steps.len() ==> step_wf(#[trigger] steps[i]),
        vec3_in_bounds(pos),
    ensures
        forall|j: int|
            0 <= j < spec_build(pos, frame, steps).len() ==> {
                let c = #[trigger] spec_build(pos, frame, steps)[j];
                &&& frame <= c.start <= c.end <= frame + spec_total(steps) - 1
                &&& match c.kind {
                    SpecCommandKind::Move { from, to } => 1 <= c.end - c.start <= DURATION_LIMIT
                        && vec3_in_bounds(from) && vec3_in_bounds(to),
                    SpecCommandKind::Barrage { .. } => c.end == c.start,
                }
            },
        forall|i: int, j: int|
            #![trigger spec_build(pos, frame, steps)[i], spec_build(pos, frame, steps)[j]]
            0 <= i < j < spec_build(pos, frame, steps).len() ==> spec_build(pos, frame, steps)[i].end
                < spec_build(pos, frame, steps)[j].start,
    decreases steps.len(),
{
    if steps.len() > 0 {
        assert(step_wf(steps[0]));
        match steps[0] {
            ScenarioStep::MoveTo { duration, target } => {
                lemma_build_props(target, frame + duration + 1, steps.skip(1));
                lemma_total_at_least_len(steps.skip(1));
            },
            ScenarioStep::StartBarrage { name, duration } => {
                lemma_build_props(pos, frame + duration + 1, steps.skip(1));
                lemma_total_at_least_len(steps.skip(1));
            },
            ScenarioStep::Stay { frames } => {
                lemma_build_props(pos, frame + frames + 1, steps.skip(1));
                lemma_total_at_least_len(steps.skip(1));
            },
        }
    }
}

/// The first compiled command whose range contains `frame`.
pub open spec fn spec_find(cmds: Seq<SpecCommand>, frame: int) -> Option<SpecCommand>
    decreases cmds.len(),
{
    if cmds.len() == 0 {
        None
    } else if cmds[0].start <= frame <= cmds[0].end {
        Some(cmds[0])
    } else {
        spec_find(cmds.skip(1), frame)
    }
}

/// What a compiled scenario does on frame `frame` of its cycle: the
/// eased interpolation of the move in progress, the barrage trigger
/// of that single frame, or — on frames no range covers — stay.
pub open spec fn spec_run(cmds: Seq<SpecCommand>, frame: int) -> SpecAction {
    match spec_find(cmds, frame) {
        None => SpecAction::Stay,
        Some(c) => match c.kind {
            SpecCommandKind::Move { from, to } => SpecAction::MoveTo(
                spec_ease_vec3(frame - c.start, from, to, c.end - c.start),
            ),
            SpecCommandKind::Barrage { name } => SpecAction::StartBarrage(name),
        },
    }
}

/// An authored step list compiled into a closed, cyclically
/// replayable schedule: ranged commands plus the cycle length.
#[derive(Clone, Debug)]
pub struct ActionScenario {
    pub total_frames: i64,
    pub commands: Vec<RangedCommand>,
}

impl View for ActionScenario {
    type V = Seq<SpecCommand>;

    open spec fn view(&self) -> Seq<SpecCommand> {
        self.commands@.map_values(|c: RangedCommand| c@)
    }
}

impl ActionScenario {
    /// A usable scenario: a positive, bounded cycle length, every
    /// command well formed within it, and ranges ascending and
    /// disjoint.
    pub open spec fn wf(&self) -> bool {
        &&& 1 <= self.total_frames <= TOTAL_LIMIT
        &&& forall|j: int| 0 <= j < self@.len() ==> cmd_wf(#[trigger] self@[j], self.total_frames as int)
        &&& forall|i: int, j: int|
            #![trigger self@[i], self@[j]]
            0 <= i < j < self@.len() ==> self@[i].end < self@[j].start
    }

    /// Compiles an authored step list, accumulating a running frame
    /// offset from `initial_position`; the accumulated offset becomes
    /// the cycle length.
    pub fn build_from_step_commands(initial_position: Vec3, step_commands: Vec<ScenarioStep>) -> (r:
        ActionScenario)
        requires
            step_commands@.len() >= 1,
            forall|i: int| 0 <= i < step_commands@.len() ==> step_wf(#[trigger] step_commands@[i]),
            spec_total(step_commands@) <= TOTAL_LIMIT,
            vec3_in_bounds(initial_position),
        ensures
            r.total_frames == spec_total(step_commands@),
            r@ == spec_build(initial_position, 0, step_commands@),
            r.wf(),
    {
        let ghost steps0 = step_commands@;
        let mut rest = step_commands;
        let mut commands: Vec<RangedCommand> = Vec::new();
        let mut current_position = initial_position;
        let mut current_frame: i64 = 0;
        proof {
            lemma_total_at_least_len(steps0);
        }
        while rest.len() > 0
            invariant
                forall|i: int| 0 <= i < rest@.len() ==> step_wf(#[trigger] rest@[i]),
                spec_total(steps0) <= TOTAL_LIMIT,
                vec3_in_bounds(current_position),
                0 <= current_frame,
                current_frame + spec_total(rest@) == spec_total(steps0),
                commands@.map_values(|c: RangedCommand| c@) + spec_build(
                    current_position,
                    current_frame as int,
                    rest@,
                ) =~= spec_build(initial_position, 0, steps0),
            decreases rest.len(),
        {
            let ghost pre = rest@;
            proof {
                lemma_total_at_least_len(pre.skip(1));
            }
            let step = rest.remove(0);
            proof {
                assert(rest@ =~= pre.skip(1));
            }
            match step {
                ScenarioStep::MoveTo { duration, target } => {
                    let cmd = RangedCommand {
                        start: current_frame,
                        end: current_frame + duration,
                        command: ScenarioCommand::Move { from: current_position, to: target },
                    };
                    commands.push(cmd);
                    current_frame = current_frame + duration + 1;
                    current_position = target;
                },
                ScenarioStep::StartBarrage { name, duration } => {
                    let cmd = RangedCommand {
                        start: current_frame,
                        end: current_frame,
                        command: ScenarioCommand::Barrage { name },
                    };
                    commands.push(cmd);
                    current_frame = current_frame + duration + 1;
                },
                ScenarioStep::Stay { frames } => {
                    current_frame = current_frame + frames + 1;
                },
            }
            proof {
                assert(commands@.map_values(|c: RangedCommand| c@) + spec_build(
                    current_position,
                    current_frame as int,
                    rest@,
                ) =~= spec_build(initial_position, 0, steps0));
            }
        }
        let r = ActionScenario { total_frames: current_frame, commands };
        proof {
            assert(r@ =~= spec_build(initial_position, 0, steps0));
            lemma_build_props(initial_position, 0, steps0);
            lemma_total_at_least_len(steps0);
        }
        r
    }

    /// Looks up frame `frame` of the cycle and returns the action of
    /// the first command whose range contains it, or stay if none
    /// does.
    pub fn run(&self, frame: i64) -> (r: BossAction)
        requires
            self.wf(),
            0 <= frame,
        ensures
            r@ == spec_run(self@, frame as int),
    {
        let n = self.commands.len();
        let mut i: usize = 0;
        proof {
            assert(self@.skip(0) =~= self@);
        }
        while i < n
            invariant
                self.wf(),
                0 <= frame,
                n == self.commands@.len(),
                0 <= i <= n,
                spec_find(self@, frame as int) == spec_find(self@.skip(i as int), frame as int),
            decreases n - i,
        {
            let c = &self.commands[i];
            proof {
                assert(self@.skip(i as int)[0] == self@[i as int]);
                assert(self@.skip(i as int).skip(1) =~= self@.skip(i as int + 1));
            }
            if c.start <= frame && frame <= c.end {
                match &c.command {
                    ScenarioCommand::Move { from, to } => {
                        let eased = easing_vec3_ease_in_out_interpolation(frame - c.start, from, to, c.end - c.start);
                        return BossAction::MoveTo(eased);
                    },
                    ScenarioCommand::Barrage { name } => {
                        let cloned_name = name.clone();
                        proof {
                            assert(cloned_name@ =~= name@);
                        }
                        return BossAction::StartBarrage(cloned_name);
                    },
                }
            }
            i = i + 1;
        }
        proof {
            assert(self@.skip(n as int) =~= Seq::<SpecCommand>::empty());
        }
        BossAction::Stay
    }
}

/// The full boss choreography: an initial, non-cyclic entrance
/// interpolation followed by a cyclically replayed scenario.
#[derive(Clone, Debug)]
pub struct BossScenarioEngine {
    pub entrance_from: Vec3,
    pub entrance_to: Vec3,
    pub entrance_frames: i64,
    pub scenario: ActionScenario,
}

impl BossScenarioEngine {
    pub open spec fn wf(&self) -> bool {
        &&& 1 <= self.entrance_frames <= DURATION_LIMIT
        &&& vec3_in_bounds(self.entrance_from)
        &&& vec3_in_bounds(self.entrance_to)
        &&& self.scenario.wf()
    }

    /// What the boss does at elapsed lifetime `life`: during the
    /// entrance window, the eased entrance interpolation; afterwards,
    /// the scenario at (life − window) reduced modulo the cycle
    /// length.
    pub open spec fn spec_query(&self, life: int) -> SpecAction {
        if life <= self.entrance_frames {
            SpecAction::MoveTo(
                spec_ease_vec3(
                    life,
                    self.entrance_from,
                    self.entrance_to,
                    self.entrance_frames as int,
                ),
            )
        } else {
            spec_run(
                self.scenario@,
                (life - self.entrance_frames - 1) % (self.scenario.total_frames as int),
            )
        }
    }

    pub fn query(&self, life: &LifeCount) -> (r: BossAction)
        requires
            self.wf(),
            0 <= life.count,
        ensures
            r@ == self.spec_query(life.count as int),
    {
        if life.count <= self.entrance_frames {
            BossAction::MoveTo(
                easing_vec3_ease_in_out_interpolation(
                    life.count,
                    &self.entrance_from,
                    &self.entrance_to,
                    self.entrance_frames,
                ),
            )
        } else {
            let reduced = (life.count - self.entrance_frames - 1) % self.scenario.total_frames;
            self.scenario.run(reduced)
        }
    }
}

/// Appending a step adds its span to the cycle length.
proof fn lemma_total_push(steps: Seq<ScenarioStep>, x: ScenarioStep)
    ensures
        spec_total(steps.push(x)) == spec_total(steps) + step_span(x),
    decreases steps.len(),
{
    if steps.len() == 0 {
        assert(steps.push(x)[0] == x);
        assert(steps.push(x).skip(1) =~= Seq::<ScenarioStep>::empty());
        assert(spec_total(Seq::<ScenarioStep>::empty()) == 0);
    } else {
        assert(steps.push(x)[0] == steps[0]);
        assert(steps.push(x).skip(1) =~= steps.skip(1).push(x));
        lemma_total_push(steps.skip(1), x);
    }
}

/// The byte name of the first boss's first barrage wave.
pub open spec fn first_wave_name() -> Seq<u8> {
    "boss1_first_wave".spec_bytes()
}

/// The byte name of the first boss's second barrage wave.
pub open spec fn second_wave_name() -> Seq<u8> {
    "boss1_second_wave".spec_bytes()
}

/// The compiled choreography of the first boss: three single-frame
/// wave triggers — first wave, second wave, first wave again — each
/// followed by a rest and an eased move between the three authored
/// posts, over a cycle of 1359 frames.
pub open spec fn boss1_commands() -> Seq<SpecCommand> {
    seq![
        SpecCommand { start: 0, end: 0, kind: SpecCommandKind::Barrage { name: first_wave_name() } },
        SpecCommand {
            start: 327,
            end: 387,
            kind: SpecCommandKind::Move {
                from: Vec3 { x: 0i64, y: 300_000i64, z: 0i64 },
                to: Vec3 { x: 100_000i64, y: 300_000i64, z: 0i64 },
            },
        },
        SpecCommand {
            start: 388,
            end: 388,
            kind: SpecCommandKind::Barrage { name: second_wave_name() },
        },
        SpecCommand {
            start: 910,
            end: 970,
            kind: SpecCommandKind::Move {
                from: Vec3 { x: 100_000i64, y: 300_000i64, z: 0i64 },
                to: Vec3 { x: -100_000i64, y: 200_000i64, z: 0i64 },
            },
        },
        SpecCommand {
            start: 971,
            end: 971,
            kind: SpecCommandKind::Barrage { name: first_wave_name() },
        },
        SpecCommand {
            start: 1298,
            end: 1358,
            kind: SpecCommandKind::Move {
                from: Vec3 { x: -100_000i64, y: 200_000i64, z: 0i64 },
                to: Vec3 { x: 0i64, y: 300_000i64, z: 0i64 },
            },
        },
    ]
}

/// The engine of the first boss: a sixty-frame entrance from above
/// the area down to the entry post, then the compiled choreography,
/// cyclically.
pub open spec fn is_boss1_engine(e: BossScenarioEngine) -> bool {
    &&& e.wf()
    &&& e.entrance_from == (Vec3 { x: 0i64, y: 370_000i64, z: 0i64 })
    &&& e.entrance_to == (Vec3 { x: 0i64, y: 300_000i64, z: 0i64 })
    &&& e.entrance_frames == 60
    &&& e.scenario.total_frames == 1359
    &&& e.scenario@ == boss1_commands()
}

/// The choreography of the first boss: enter the area over sixty
/// frames, then loop two barrage waves joined by eased moves.
pub fn boss1_engine() -> (r: BossScenarioEngine)
    ensures
        is_boss1_engine(r),
{
    let slack_frames: i64 = 120;
    let fast_move_frames: i64 = 60;
    let slow_move_frames: i64 = 60;
    let wave1_frames: i64 = 205;
    let wave2_frames: i64 = 400;
    let entrance_target = Vec3::new(0, 300_000, 0);
    let mut steps: Vec<ScenarioStep> = Vec::new();
    let ghost g0 = steps@;
    steps.push(
        ScenarioStep::StartBarrage {
            name: vstd::slice::slice_to_vec("boss1_first_wave".as_bytes()),
            duration: wave1_frames,
        },
    );
    proof {
        lemma_total_push(g0, steps@[0]);
    }
    let ghost g1 = steps@;
    steps.push(ScenarioStep::Stay { frames: slack_frames });
    proof {
        lemma_total_push(g1, steps@[1]);
    }
    let ghost g2 = steps@;
    steps.push(
        ScenarioStep::MoveTo { duration: fast_move_frames, target: Vec3::new(100_000, 300_000, 0) },
    );
    proof {
        lemma_total_push(g2, steps@[2]);
    }
    let ghost g3 = steps@;
    steps.push(
        ScenarioStep::StartBarrage {
            name: vstd::slice::slice_to_vec("boss1_second_wave".as_bytes()),
            duration: wave2_frames,
        },
    );
    proof {
        lemma_total_push(g3, steps@[3]);
    }
    let ghost g4 = steps@;
    steps.push(ScenarioStep::Stay { frames: slack_frames });
    proof {
        lemma_total_push(g4, steps@[4]);
    }
    let ghost g5 = steps@;
    steps.push(
        ScenarioStep::MoveTo {
            duration: fast_move_frames,
            target: Vec3::new(-100_000, 200_000, 0),
        },
    );
    proof {
        lemma_total_push(g5, steps@[5]);
    }
    let ghost g6 = steps@;
    steps.push(
        ScenarioStep::StartBarrage {
            name: vstd::slice::slice_to_vec("boss1_first_wave".as_bytes()),
            duration: wave1_frames,
        },
    );
    proof {
        lemma_total_push(g6, steps@[6]);
    }
    let ghost g7 = steps@;
    steps.push(ScenarioStep::Stay { frames: slack_frames });
    proof {
        lemma_total_push(g7, steps@[7]);
    }
    let ghost g8 = steps@;
    steps.push(ScenarioStep::MoveTo { duration: slow_move_frames, target: entrance_target });
    proof {
        lemma_total_push(g8, steps@[8]);
        assert(spec_total(steps@) == 1359);
    }
    let ghost g9 = steps@;
    let scenario = ActionScenario::build_from_step_commands(entrance_target, steps);
    proof {
        reveal_with_fuel(spec_build, 12);
        assert(g9.skip(0) =~= g9);
        assert(g9.skip(0).skip(1) =~= g9.skip(1));
        assert(g9.skip(1).skip(1) =~= g9.skip(2));
        assert(g9.skip(2).skip(1) =~= g9.skip(3));
        assert(g9.skip(3).skip(1) =~= g9.skip(4));
        assert(g9.skip(4).skip(1) =~= g9.skip(5));
        assert(g9.skip(5).skip(1) =~= g9.skip(6));
        assert(g9.skip(6).skip(1) =~= g9.skip(7));
        assert(g9.skip(7).skip(1) =~= g9.skip(8));
        assert(g9.skip(8).skip(1) =~= Seq::<ScenarioStep>::empty());
        assert(g9.skip(0)[0] == g9[0]);
        assert(g9.skip(1)[0] == g9[1]);
        assert(g9.skip(2)[0] == g9[2]);
        assert(g9.skip(3)[0] == g9[3]);
        assert(g9.skip(4)[0] == g9[4]);
        assert(g9.skip(5)[0] == g9[5]);
        assert(g9.skip(6)[0] == g9[6]);
        assert(g9.skip(7)[0] == g9[7]);
        assert(g9.skip(8)[0] == g9[8]);
        assert(scenario@ =~= boss1_commands());
    }
    BossScenarioEngine {
        entrance_from: Vec3::new(0, 370_000, 0),
        entrance_to: entrance_target,
        entrance_frames: 60,
        scenario,
    }
}

/// The closed set of boss movement patterns; each selects the
/// engine that choreographs that boss.
#[derive(Clone, Copy, PartialEq, Eq, Structural, Debug)]
pub enum MovePattern {
    Boss1,
}

/// The choreography engine of the first boss, ready to be queried
/// once per tick.
#[derive(Clone, Debug)]
pub struct Boss1ActionCalculater {
    pub engine: BossScenarioEngine,
}

impl Boss1ActionCalculater {
    pub fn new() -> (r: Boss1ActionCalculater)
        ensures
            is_boss1_engine(r.engine),
    {
        Boss1ActionCalculater { engine: boss1_engine() }
    }

    /// What the boss does at the given elapsed lifetime.
    pub fn action_for_life_count(&self, life_count: &LifeCount) -> (r: BossAction)
        requires
            self.engine.wf(),
            0 <= life_count.count,
        ensures
            r@ == self.engine.spec_query(life_count.count as int),
    {
        self.engine.query(life_count)
    }
}

impl MovePattern {
    /// The engine behind this pattern.
    pub fn action_calculater(&self) -> (r: Boss1ActionCalculater)
        ensures
            is_boss1_engine(r.engine),
    {
        match self {
            MovePattern::Boss1 => Boss1ActionCalculater::new(),
        }
    }
}

/// The replay law: past the entrance window the engine is cyclic —
/// querying any whole number of cycles later gives the same action.
pub proof fn lemma_query_cyclic(e: BossScenarioEngine, k: int, r: int)
    requires
        e.wf(),
        k >= 0,
        0 <= r < e.scenario.total_frames,
    ensures
        e.spec_query(e.entrance_frames + 1 + k * (e.scenario.total_frames as int) + r)
            == e.spec_query(e.entrance_frames + 1 + r),
{
    let t = e.scenario.total_frames as int;
    assert(k * t >= 0) by (nonlinear_arith)
        requires
            k >= 0,
            t > 0,
    ;
    lemma_mod_multiples_vanish(k, r, t);
    lemma_small_mod(r as nat, t as nat);
    assert(k * t == t * k) by (nonlinear_arith);
}

} // verus!
