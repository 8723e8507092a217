use vstd::prelude::*;
use crate::world::World;

verus! {

/// The stages of the first phase of a frame.
#[derive(Clone, Copy, Debug, PartialEq, Eq, Structural)]
pub enum Stage {
    /// Turns waiting hitboxes into bodies.
    HitboxesToPhys,
    /// Applies the forces to the bodies and takes spent forces away.
    ApplyForces,
    /// Removes orphaned bodies, steps the physics world, raises the hooks
    /// of the contacts.
    PhysicsUpdate,
    LerpCamera,
    PlayerInteract,
    KeyboardControls,
    EditorPlace,
    SaveWorld,
    ExplodeEffect,
    /// Builds appearances from their builders.
    BuildersToAppears,
    Animate,
}

/// The name under which a stage is known.
pub open spec fn stage_name(stage: Stage) -> Seq<char> {
    match stage {
        Stage::HitboxesToPhys => "hitboxes to phys"@,
        Stage::ApplyForces => "apply forces"@,
        Stage::PhysicsUpdate => "physics update"@,
        Stage::LerpCamera => "lerp camera"@,
        Stage::PlayerInteract => "player interact"@,
        Stage::KeyboardControls => "keyboard controls"@,
        Stage::EditorPlace => "editor place"@,
        Stage::SaveWorld => "save world to file"@,
        Stage::ExplodeEffect => "explode effect"@,
        Stage::BuildersToAppears => "builders to appears"@,
        Stage::Animate => "animate"@,
    }
}

/// The stage that must have run before `stage` runs, if there is one.
pub open spec fn dependency(stage: Stage) -> Option<Stage> {
    match stage {
        Stage::HitboxesToPhys => None,
        Stage::ApplyForces => Some(Stage::HitboxesToPhys),
        Stage::PhysicsUpdate => Some(Stage::ApplyForces),
        Stage::LerpCamera => Some(Stage::PhysicsUpdate),
        Stage::PlayerInteract => Some(Stage::PhysicsUpdate),
        Stage::KeyboardControls => Some(Stage::PhysicsUpdate),
        Stage::EditorPlace => Some(Stage::PhysicsUpdate),
        Stage::SaveWorld => Some(Stage::PhysicsUpdate),
        Stage::ExplodeEffect => Some(Stage::PhysicsUpdate),
        Stage::BuildersToAppears => None,
        Stage::Animate => Some(Stage::BuildersToAppears),
    }
}

/// Whether `stage` reads the positions that the physics step left.
pub open spec fn reads_positions(stage: Stage) -> bool {
    stage == Stage::LerpCamera || stage == Stage::PlayerInteract || stage == Stage::EditorPlace
        || stage == Stage::ExplodeEffect
}

/// How many stages there are.
pub const STAGE_COUNT: usize = 11;

/// The place of a stage in the order in which the stages run.
pub open spec fn stage_place(stage: Stage) -> int {
    match stage {
        Stage::HitboxesToPhys => 0,
        Stage::ApplyForces => 1,
        Stage::PhysicsUpdate => 2,
        Stage::LerpCamera => 3,
        Stage::PlayerInteract => 4,
        Stage::KeyboardControls => 5,
        Stage::EditorPlace => 6,
        Stage::SaveWorld => 7,
        Stage::ExplodeEffect => 8,
        Stage::BuildersToAppears => 9,
        Stage::Animate => 10,
    }
}

/// Whether `order` is a schedule: every stage runs exactly once, and none
/// before the stage that it depends on.
pub open spec fn is_schedule(order: Seq<Stage>) -> bool {
    &&& order.len() == STAGE_COUNT
    &&& forall|s: Stage| #[trigger] order.contains(s)
    &&& forall|i: int, j: int| 0 <= i < j < order.len() ==> order[i] != order[j]
    &&& forall|i: int, j: int|
        0 <= i < order.len() && 0 <= j < order.len() && dependency(order[j]) == Some(order[i])
            ==> i < j
}

impl Stage {
    /// The name under which this stage is known.
    pub fn name(&self) -> (r: &'static str)
        ensures
            r@ == stage_name(*self),
    {
        match self {
            Stage::HitboxesToPhys => "hitboxes to phys",
            Stage::ApplyForces => "apply forces",
            Stage::PhysicsUpdate => "physics update",
            Stage::LerpCamera => "lerp camera",
            Stage::PlayerInteract => "player interact",
            Stage::KeyboardControls => "keyboard controls",
            Stage::EditorPlace => "editor place",
            Stage::SaveWorld => "save world to file",
            Stage::ExplodeEffect => "explode effect",
            Stage::BuildersToAppears => "builders to appears",
            Stage::Animate => "animate",
        }
    }

    /// The stage that must have run before this one runs.
    pub fn dependency(&self) -> (r: Option<Stage>)
        ensures
            r == dependency(*self),
    {
        match self {
            Stage::HitboxesToPhys => None,
            Stage::ApplyForces => Some(Stage::HitboxesToPhys),
            Stage::PhysicsUpdate => Some(Stage::ApplyForces),
            Stage::LerpCamera => Some(Stage::PhysicsUpdate),
            Stage::PlayerInteract => Some(Stage::PhysicsUpdate),
            Stage::KeyboardControls => Some(Stage::PhysicsUpdate),
            Stage::EditorPlace => Some(Stage::PhysicsUpdate),
            Stage::SaveWorld => Some(Stage::PhysicsUpdate),
            Stage::ExplodeEffect => Some(Stage::PhysicsUpdate),
            Stage::BuildersToAppears => None,
            Stage::Animate => Some(Stage::BuildersToAppears),
        }
    }
}

/// The order in which the stages of a frame run.
pub fn schedule() -> (order: Vec<Stage>)
    ensures
        is_schedule(order@),
        forall|s: Stage| #[trigger] order@[stage_place(s)] == s,
{
    let order = vec![
        Stage::HitboxesToPhys,
        Stage::ApplyForces,
        Stage::PhysicsUpdate,
        Stage::LerpCamera,
        Stage::PlayerInteract,
        Stage::KeyboardControls,
        Stage::EditorPlace,
        Stage::SaveWorld,
        Stage::ExplodeEffect,
        Stage::BuildersToAppears,
        Stage::Animate,
    ];
    proof {
        assert forall|s: Stage| #[trigger] order@[stage_place(s)] == s by {}
        assert forall|s: Stage| #[trigger] order@.contains(s) by {
            assert(order@[stage_place(s)] == s);
        }
        assert forall|i: int| 0 <= i < order@.len() implies stage_place(#[trigger] order@[i])
            == i by {}
        assert forall|i: int, j: int| 0 <= i < j < order@.len() implies order@[i]
            != order@[j] by {
            assert(stage_place(order@[i]) == i);
            assert(stage_place(order@[j]) == j);
        }
        assert forall|i: int, j: int|
            0 <= i < order@.len() && 0 <= j < order@.len() && dependency(order@[j]) == Some(
                order@[i],
            ) implies i < j by {
            assert(stage_place(order@[i]) == i);
            assert(stage_place(order@[j]) == j);
        }
    }
    order
}

/// The place of `stage` among the first `n` of `order`, where it is among
/// them.
fn place_before(order: &Vec<Stage>, n: usize, stage: Stage) -> (r: Option<usize>)
    requires
        n <= order.len(),
    ensures
        match r {
            Some(i) => i < n && order[i as int] == stage,
            None => forall|i: int| 0 <= i < n ==> order[i] != stage,
        },
{
    let mut i: usize = 0;
    while i < n
        invariant
            i <= n,
            n <= order.len(),
            forall|k: int| 0 <= k < i ==> order[k] != stage,
        decreases n - i,
    {
        if order[i] == stage {
            return Some(i);
        }
        i += 1;
    }
    None
}

/// Whether the first `n` stages of `order` are distinct.
#[verifier::opaque]
pub open spec fn distinct_before(order: Seq<Stage>, n: int) -> bool {
    forall|a: int, b: int| 0 <= a < b < n ==> order[a] != order[b]
}

/// Whether `stage` stands at a place of `order` before `n`.
pub open spec fn stands_before(order: Seq<Stage>, stage: Stage, n: int) -> bool {
    exists|i: int| 0 <= i < n && order[i] == stage
}

/// Whether each of the first `n` stages of `order` has the stage that it
/// depends on before it.
#[verifier::opaque]
pub open spec fn served_before(order: Seq<Stage>, n: int) -> bool {
    forall|b: int|
        0 <= b < n && dependency(order[b]) is Some ==> #[trigger] stands_before(
            order,
            dependency(order[b])->0,
            b,
        )
}

/// One more stage is distinct from those before it where it does not occur
/// among them.
proof fn lemma_distinct_step(order: Seq<Stage>, n: int)
    requires
        0 <= n < order.len(),
        distinct_before(order, n),
        forall|i: int| 0 <= i < n ==> order[i] != order[n],
    ensures
        distinct_before(order, n + 1),
{
    reveal(distinct_before);
}

/// One more stage is served where the stage that it depends on stands
/// before it.
proof fn lemma_served_step(order: Seq<Stage>, n: int)
    requires
        0 <= n < order.len(),
        served_before(order, n),
        dependency(order[n]) is Some ==> stands_before(order, dependency(order[n])->0, n),
    ensures
        served_before(order, n + 1),
{
    reveal(served_before);
}

/// An order of every stage whose stages are distinct and served is a
/// schedule.
proof fn lemma_settled_is_schedule(order: Seq<Stage>)
    requires
        order.len() == STAGE_COUNT,
        distinct_before(order, order.len() as int),
        served_before(order, order.len() as int),
        forall|s: Stage| #[trigger] order.contains(s),
    ensures
        is_schedule(order),
{
    assert forall|a: int, b: int| 0 <= a < b < order.len() implies order[a] != order[b] by {
        reveal(distinct_before);
    }
    assert forall|a: int, b: int|
        0 <= a < order.len() && 0 <= b < order.len() && dependency(order[b]) == Some(
            order[a],
        ) implies a < b by {
        assert(stands_before(order, order[a], b)) by {
            reveal(served_before);
            assert(stands_before(order, dependency(order[b])->0, b));
        }
        let i = choose|i: int| 0 <= i < b && order[i] == order[a];
        if i != a {
            reveal(distinct_before);
        }
    }
}

/// In a schedule, a stage does not occur before itself, and the stage that
/// it depends on stands before it.
proof fn lemma_schedule_settles(order: Seq<Stage>, n: int)
    requires
        is_schedule(order),
        0 <= n < order.len(),
    ensures
        forall|i: int| 0 <= i < n ==> order[i] != order[n],
        dependency(order[n]) is Some ==> stands_before(order, dependency(order[n])->0, n),
{
    if dependency(order[n]) is Some {
        let d = dependency(order[n])->0;
        assert(order.contains(d));
        let i = choose|i: int| 0 <= i < order.len() && order[i] == d;
        assert(dependency(order[n]) == Some(order[i]));
    }
}

/// Whether `order` is a schedule: whether it runs every stage exactly once
/// and none before the stage that it depends on.
pub fn is_valid_schedule(order: &Vec<Stage>) -> (r: bool)
    ensures
        r == is_schedule(order@),
{
    if order.len() != STAGE_COUNT {
        return false;
    }
    let all = schedule();
    let mut k: usize = 0;
    while k < all.len()
        invariant
            k <= all.len(),
            all.len() == STAGE_COUNT,
            order.len() == STAGE_COUNT,
            forall|s: Stage| #[trigger] all@[stage_place(s)] == s,
            forall|s: Stage| 0 <= #[trigger] stage_place(s) < STAGE_COUNT,
            forall|s: Stage| stage_place(s) < k ==> #[trigger] order@.contains(s),
        decreases all.len() - k,
    {
        match place_before(order, order.len(), all[k]) {
            Some(i) => {
                assert forall|s: Stage| stage_place(s) < k + 1 implies #[trigger] order@.contains(
                    s,
                ) by {
                    if stage_place(s) == k {
                        assert(all@[stage_place(s)] == s);
                        assert(order@[i as int] == s);
                    }
                }
            },
            None => {
                assert(!order@.contains(all@[k as int]));
                return false;
            },
        }
        k += 1;
    }
    assert(forall|s: Stage| #[trigger] order@.contains(s));
    let mut j: usize = 0;
    proof {
        reveal(distinct_before);
        reveal(served_before);
    }
    while j < order.len()
        invariant
            j <= order.len(),
            order.len() == STAGE_COUNT,
            distinct_before(order@, j as int),
            served_before(order@, j as int),
        decreases order.len() - j,
    {
        if place_before(order, j, order[j]).is_some() {
            proof {
                if is_schedule(order@) {
                    lemma_schedule_settles(order@, j as int);
                }
            }
            return false;
        }
        match order[j].dependency() {
            Some(needed) => {
                match place_before(order, j, needed) {
                    Some(i) => {
                        assert(order@[i as int] == needed);
                        assert(stands_before(order@, needed, j as int));
                    },
                    None => {
                        proof {
                            if is_schedule(order@) {
                                lemma_schedule_settles(order@, j as int);
                            }
                        }
                        return false;
                    },
                }
            },
            None => {},
        }
        proof {
            lemma_distinct_step(order@, j as int);
            lemma_served_step(order@, j as int);
        }
        j += 1;
    }
    proof {
        lemma_settled_is_schedule(order@);
    }
    true
}

/// In every schedule the hitboxes are turned into bodies before the forces
/// are applied, the forces are applied before the physics step, and the
/// physics step is taken before any stage reads the positions that it left.
pub proof fn lemma_schedule_order(order: Seq<Stage>, i: int, j: int)
    requires
        is_schedule(order),
        0 <= i < order.len(),
        0 <= j < order.len(),
    ensures
        order[i] == Stage::HitboxesToPhys && order[j] == Stage::ApplyForces ==> i < j,
        order[i] == Stage::ApplyForces && order[j] == Stage::PhysicsUpdate ==> i < j,
        order[i] == Stage::HitboxesToPhys && order[j] == Stage::PhysicsUpdate ==> i < j,
        order[i] == Stage::PhysicsUpdate && reads_positions(order[j]) ==> i < j,
{
    if order[i] == Stage::HitboxesToPhys && order[j] == Stage::PhysicsUpdate {
        assert(order.contains(Stage::ApplyForces));
        let k = choose|k: int| 0 <= k < order.len() && order[k] == Stage::ApplyForces;
        assert(dependency(order[k]) == Some(order[i]));
        assert(dependency(order[j]) == Some(order[k]));
    }
}

/// The phases of a frame, in their order.
#[derive(Clone, Copy, Debug, PartialEq, Eq, Structural)]
pub enum Phase {
    /// The stages run, in the order of the schedule.
    Systems,
    /// The mutations that the stages deferred take effect.
    FirstFlush,
    /// The scripting engine runs the waiting script events. It alone has
    /// access to the world.
    Scripting,
    /// The mutations that the scripts deferred take effect.
    SecondFlush,
    /// The developer interface and the renderer read the settled world.
    Presentation,
}

/// The phase that follows `phase`.
pub open spec fn phase_after(phase: Phase) -> Phase {
    match phase {
        Phase::Systems => Phase::FirstFlush,
        Phase::FirstFlush => Phase::Scripting,
        Phase::Scripting => Phase::SecondFlush,
        Phase::SecondFlush => Phase::Presentation,
        Phase::Presentation => Phase::Systems,
    }
}

/// Whether deferred mutations take effect in `phase`.
pub open spec fn is_flush(phase: Phase) -> bool {
    phase == Phase::FirstFlush || phase == Phase::SecondFlush
}

/// Where a frame stands.
#[derive(Clone, Copy, Debug, PartialEq, Eq, Structural)]
pub struct Frame {
    pub phase: Phase,
}

impl Frame {
    /// A frame at its start.
    pub fn new() -> (r: Frame)
        ensures
            r.phase == Phase::Systems,
    {
        Frame { phase: Phase::Systems }
    }

    /// Whether the scripting engine may take the world now.
    pub fn scripts_may_run(&self) -> (r: bool)
        ensures
            r == (self.phase == Phase::Scripting),
    {
        match self.phase {
            Phase::Scripting => true,
            _ => false,
        }
    }

    /// Whether the stages may run now.
    pub fn systems_may_run(&self) -> (r: bool)
        ensures
            r == (self.phase == Phase::Systems),
    {
        match self.phase {
            Phase::Systems => true,
            _ => false,
        }
    }

    /// Enters the next phase and hands it out. On entering a flush, every
    /// deferred mutation takes effect, in the order in which they were
    /// deferred; on entering another phase, the world stays as it is.
    pub fn advance(&mut self, world: &mut World) -> (entered: Phase)
        requires
            old(world).wf(),
        ensures
            final(world).wf(),
            entered == phase_after(old(self).phase),
            final(self).phase == entered,
            final(world)@ == if is_flush(entered) {
                old(world)@.flushed()
            } else {
                old(world)@
            },
    {
        let entered = match self.phase {
            Phase::Systems => Phase::FirstFlush,
            Phase::FirstFlush => Phase::Scripting,
            Phase::Scripting => Phase::SecondFlush,
            Phase::SecondFlush => Phase::Presentation,
            Phase::Presentation => Phase::Systems,
        };
        match entered {
            Phase::FirstFlush => {
                world.flush();
            },
            Phase::SecondFlush => {
                world.flush();
            },
            _ => {},
        }
        self.phase = entered;
        entered
    }
}

/// The phase that is reached from `phase` by entering the next phase `n`
/// times.
pub open spec fn phase_after_n(phase: Phase, n: nat) -> Phase
    decreases n,
{
    if n == 0 {
        phase
    } else {
        phase_after(phase_after_n(phase, (n - 1) as nat))
    }
}

/// The order of a frame: from the stages, the phases follow one another as
/// stages, flush, scripting, flush, presentation, and then the next frame
/// begins. So the scripting phase has a flush before it and a flush behind
/// it, and no stage runs between them.
pub proof fn lemma_frame_order()
    ensures
        phase_after_n(Phase::Systems, 1) == Phase::FirstFlush,
        phase_after_n(Phase::Systems, 2) == Phase::Scripting,
        phase_after_n(Phase::Systems, 3) == Phase::SecondFlush,
        phase_after_n(Phase::Systems, 4) == Phase::Presentation,
        phase_after_n(Phase::Systems, 5) == Phase::Systems,
{
    reveal_with_fuel(phase_after_n, 6);
}

} // verus!
