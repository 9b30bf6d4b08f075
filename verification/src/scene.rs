//! A simulation session: its configuration, its agent store, its clock and
//! the roles of its two grids.
//!
//! A session is made from a configuration and the agents that were drawn for
//! it, which it puts in Morton order. From then on it plans frames: for every
//! rendered frame it says which frame parameters hold, over how many thread
//! groups each phase runs, and which pieces of work are carried out in which
//! order. The caller owns the compute stage and carries the plan out.

use vstd::prelude::*;
use crate::agent::Agent;
use crate::constants::{frame_parameters, Constants};
use crate::dispatch::{advance_groups, decay_groups, groups, AGENTS_PER_GROUP, TEXELS_PER_GROUP_SIDE};
use crate::orchestrator::{
    current_after, frame_actions, lemma_frame_runs, lemma_next_progresses, Action, Buffer,
    Machine, Orchestrator, Phase,
};
use crate::order::{is_morton_order_of, lemma_morton_order_is_unique, sort_by_morton};
use crate::settings::{ConfigError, Settings};

verus! {

/// What a session is, to its callers.
pub struct SceneView {
    pub settings: Settings,
    /// The agent store as it was when the session was made: what the compute
    /// stage starts from.
    pub agents: Seq<Agent>,
    /// When the session was made.
    pub initial_time: u64,
    /// When the last frame was rendered; before the first frame, when the
    /// session was made.
    pub last_frame_time: u64,
    /// The grid that holds the trail.
    pub current: Buffer,
}

/// The plan of one rendered frame.
#[derive(Debug)]
pub struct Frame {
    /// The frame parameters of this frame.
    pub constants: Constants,
    /// The number of thread groups of every advance of this frame.
    pub advance_groups: u32,
    /// The number of thread groups, across and down, of every decay and
    /// diffuse of this frame.
    pub decay_groups: (u32, u32),
    /// The work of this frame, in the order in which it is carried out.
    pub actions: Vec<Action>,
}

/// The first reason, if any, for which a session cannot be made of
/// `settings` and an agent store of `count` agents: the reasons for which the
/// configuration is refused come first, then a store that does not hold as
/// many agents as the configuration says.
pub open spec fn rejection(settings: Settings, count: nat) -> Option<ConfigError> {
    if settings.rejection() is Some {
        settings.rejection()
    } else if count != settings.num_agents {
        Some(ConfigError::AgentCount)
    } else {
        None
    }
}

/// A simulation session.
#[derive(Debug)]
pub struct Scene {
    settings: Settings,
    agents: Vec<Agent>,
    initial_time: u64,
    last_frame_time: u64,
    orchestrator: Orchestrator,
}

impl View for Scene {
    type V = SceneView;

    closed spec fn view(&self) -> SceneView {
        SceneView {
            settings: self.settings,
            agents: self.agents@,
            initial_time: self.initial_time,
            last_frame_time: self.last_frame_time,
            current: self.orchestrator@.current,
        }
    }
}

impl SceneView {
    /// What holds of every session: its configuration is valid, and its
    /// agent store holds as many agents as the configuration says, in
    /// Morton order.
    pub open spec fn well_formed(self) -> bool {
        &&& self.settings.valid()
        &&& self.agents.len() == self.settings.num_agents
        &&& crate::order::ascending(self.agents)
    }

    /// Whether this is the session that is made of `settings`, of the agents
    /// `agents` as they were drawn and of the starting time `initial_time`.
    pub open spec fn made_of(self, settings: Settings, agents: Seq<Agent>, initial_time: u64) -> bool {
        &&& self.well_formed()
        &&& self.settings == settings
        &&& is_morton_order_of(self.agents, agents)
        &&& self.initial_time == initial_time
        &&& self.last_frame_time == initial_time
        &&& self.current == Buffer::Trails
    }

    /// The session after the frames that are rendered at the times `times`,
    /// one after the other.
    pub open spec fn replayed(self, times: Seq<u64>) -> SceneView
        decreases times.len(),
    {
        if times.len() == 0 {
            self
        } else {
            self.replayed(times.drop_last()).rendered(times.last())
        }
    }

    /// The session after the frame that is rendered at `current_time`: the
    /// time of the last frame is that time, and the trail is on the grid on
    /// which the swaps of the frame leave it.
    pub open spec fn rendered(self, current_time: u64) -> SceneView {
        SceneView {
            last_frame_time: current_time,
            current: current_after(self.current, self.settings.steps_per_tick as nat),
            ..self
        }
    }

    /// The frame parameters of the frame that is rendered at `current_time`.
    pub open spec fn parameters(self, current_time: u64) -> Constants {
        frame_parameters(self.settings, self.initial_time, self.last_frame_time, current_time)
    }

    /// The work of the next frame.
    pub open spec fn actions(self) -> Seq<Action> {
        frame_actions(self.current, self.settings.steps_per_tick as nat)
    }
}

/// A frame of no steps leaves the agent store and both grids as they were:
/// its plan asks for the frame parameters and for nothing else, so no agent
/// is advanced and no texel is written, and the same grid holds the trail
/// afterwards. Only the time of the last frame moves on.
pub proof fn lemma_frame_of_no_steps_changes_nothing(scene: SceneView, current_time: u64)
    requires
        scene.settings.steps_per_tick == 0,
    ensures
        scene.actions() == seq![Action::BuildParameters],
        scene.rendered(current_time).agents == scene.agents,
        scene.rendered(current_time).current == scene.current,
        scene.rendered(current_time).settings == scene.settings,
        scene.rendered(current_time).initial_time == scene.initial_time,
        scene.rendered(current_time).last_frame_time == current_time,
{
    assert(crate::orchestrator::step_actions(scene.current, 0) == Seq::<Action>::empty());
    assert(scene.actions() =~= seq![Action::BuildParameters]);
}

/// Rendering keeps a session well formed, and never touches its
/// configuration, its agent store or the time of its start.
pub proof fn lemma_rendered_keeps(scene: SceneView, current_time: u64)
    requires
        scene.well_formed(),
    ensures
        scene.rendered(current_time).well_formed(),
        scene.rendered(current_time).settings == scene.settings,
        scene.rendered(current_time).agents == scene.agents,
        scene.rendered(current_time).initial_time == scene.initial_time,
{
}

/// Two sessions that are made of the same configuration, the same drawn
/// agents and the same starting time are the same session, and stay the same
/// through any frames that are rendered at the same times: after them they
/// hold the same agent store in the same order, the same times and the trail
/// on the same grid, and the next frame of both has the same frame
/// parameters and the same work.
pub proof fn lemma_sessions_agree(
    settings: Settings,
    agents: Seq<Agent>,
    initial_time: u64,
    first: SceneView,
    second: SceneView,
    times: Seq<u64>,
    current_time: u64,
)
    requires
        first.made_of(settings, agents, initial_time),
        second.made_of(settings, agents, initial_time),
    ensures
        first == second,
        first.replayed(times) == second.replayed(times),
        first.replayed(times).parameters(current_time) == second.replayed(times).parameters(
            current_time,
        ),
        first.replayed(times).actions() == second.replayed(times).actions(),
{
    lemma_morton_order_is_unique(first.agents, second.agents, agents);
}

impl Scene {
    #[verifier::type_invariant]
    spec fn type_invariant(self) -> bool {
        &&& self@.well_formed()
        &&& self.orchestrator@ == (Machine {
            phase: Phase::Idle,
            steps_left: 0,
            current: self.orchestrator@.current,
        })
    }

    /// Makes a session of a configuration, of the agents that were drawn for
    /// it and of the time at which it starts, in nanoseconds. The agents are
    /// put in Morton order; the trail starts on the grid `Trails`.
    pub fn new(settings: Settings, agents: Vec<Agent>, initial_time: u64) -> (r: Result<
        Scene,
        ConfigError,
    >)
        ensures
            r is Ok <==> rejection(settings, agents@.len()) is None,
            r is Err ==> rejection(settings, agents@.len()) == Some(r->Err_0),
            r is Ok ==> r->Ok_0@.made_of(settings, agents@, initial_time),
    {
        match settings.validate() {
            Err(e) => {
                return Err(e);
            },
            Ok(()) => {},
        }
        if agents.len() > u32::MAX as usize || agents.len() as u32 != settings.num_agents {
            return Err(ConfigError::AgentCount);
        }
        let sorted: Vec<Agent> = sort_by_morton(agents);
        Ok(
            Scene {
                settings,
                agents: sorted,
                initial_time,
                last_frame_time: initial_time,
                orchestrator: Orchestrator::new(),
            },
        )
    }

    /// Plans the frame that is rendered at `current_time`, a reading in
    /// nanoseconds of the clock that gave the time of the start: builds its
    /// frame parameters, runs the orchestrator through the frame, and moves
    /// the time of the last frame on to `current_time`.
    pub fn render(&mut self, current_time: u64) -> (frame: Frame)
        ensures
            old(self)@.well_formed(),
            final(self)@ == old(self)@.rendered(current_time),
            frame.constants == old(self)@.parameters(current_time),
            frame.actions@ == old(self)@.actions(),
            frame.advance_groups == groups(old(self)@.settings.num_agents, AGENTS_PER_GROUP),
            frame.decay_groups.0 == groups(old(self)@.settings.width, TEXELS_PER_GROUP_SIDE),
            frame.decay_groups.1 == groups(old(self)@.settings.height, TEXELS_PER_GROUP_SIDE),
    {
        proof {
            use_type_invariant(&*self);
        }
        let constants: Constants = Constants::new(
            &self.settings,
            self.initial_time,
            self.last_frame_time,
            current_time,
        );
        let mut orchestrator: Orchestrator = self.orchestrator;
        let ghost idle = orchestrator@;
        let ghost start = idle.begun(self.settings.steps_per_tick);
        orchestrator.begin_frame(self.settings.steps_per_tick);
        let mut actions: Vec<Action> = Vec::new();
        let mut working: bool = true;
        proof {
            assert(actions@ + orchestrator@.trace() == start.trace());
        }
        while working
            invariant
                orchestrator@.well_formed(),
                actions@ + orchestrator@.trace() == start.trace(),
                orchestrator@.settled() == start.settled(),
                !working ==> orchestrator@.phase == Phase::Idle,
            decreases orchestrator@.remaining() + if working { 1nat } else { 0nat },
        {
            let ghost before = orchestrator@;
            let ghost done = actions@;
            proof {
                lemma_next_progresses(before);
            }
            match orchestrator.next_action() {
                Some(action) => {
                    actions.push(action);
                    proof {
                        assert(before.trace() == seq![action] + orchestrator@.trace());
                        assert(done.push(action) + orchestrator@.trace() =~= done + before.trace());
                        assert(before.settled() == orchestrator@.settled());
                    }
                },
                None => {
                    working = false;
                },
            }
        }
        proof {
            lemma_frame_runs(idle, self.settings.steps_per_tick);
            assert(orchestrator@.trace() == Seq::<Action>::empty());
            assert(actions@ =~= start.trace());
            assert(orchestrator@.settled() == orchestrator@);
        }
        self.orchestrator = orchestrator;
        self.last_frame_time = current_time;
        Frame {
            constants,
            advance_groups: advance_groups(self.settings.num_agents),
            decay_groups: decay_groups(self.settings.width, self.settings.height),
            actions,
        }
    }

    /// The configuration of the session.
    pub fn settings(&self) -> (s: Settings)
        ensures
            s == self@.settings,
            self@.well_formed(),
    {
        proof {
            use_type_invariant(self);
        }
        self.settings
    }

    /// The agent store as the session was made with it, in Morton order: what
    /// the compute stage starts from.
    pub fn agents(&self) -> (a: &Vec<Agent>)
        ensures
            a@ == self@.agents,
            self@.well_formed(),
    {
        proof {
            use_type_invariant(self);
        }
        &self.agents
    }

    /// When the session was made.
    pub fn initial_time(&self) -> (t: u64)
        ensures
            t == self@.initial_time,
    {
        self.initial_time
    }

    /// When the last frame was rendered.
    pub fn last_frame_time(&self) -> (t: u64)
        ensures
            t == self@.last_frame_time,
    {
        self.last_frame_time
    }

    /// The grid that holds the trail, the one to present.
    pub fn current(&self) -> (b: Buffer)
        ensures
            b == self@.current,
    {
        self.orchestrator.current()
    }
}

} // verus!
