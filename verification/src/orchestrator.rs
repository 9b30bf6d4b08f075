//! The step orchestrator: within one rendered frame, which work comes next.
//!
//! A frame first rebuilds the frame parameters and then runs its steps. One
//! step advances the agents, which deposit on the current grid; then decays
//! and diffuses the current grid into the other one; then swaps the two
//! grids, so that the next step reads what this one wrote:
//!
//! `Idle -> BuildParameters -> { Advance -> DecayDiffuse -> SwapBuffers } x steps -> Idle`
//!
//! The orchestrator does none of that work. It names the next piece of work
//! and moves on; its caller carries the work out, in the order in which it is
//! named.

use vstd::prelude::*;

verus! {

/// One of the two grids of the field.
#[derive(Debug, Clone, Copy, PartialEq, Eq, Structural)]
pub enum Buffer {
    Trails,
    Diffuse,
}

impl Buffer {
    /// The other grid.
    pub open spec fn flipped(self) -> Buffer {
        match self {
            Buffer::Trails => Buffer::Diffuse,
            Buffer::Diffuse => Buffer::Trails,
        }
    }

    /// The other grid.
    pub fn other(self) -> (b: Buffer)
        ensures
            b == self.flipped(),
    {
        match self {
            Buffer::Trails => Buffer::Diffuse,
            Buffer::Diffuse => Buffer::Trails,
        }
    }
}

/// Where in a frame the orchestrator stands.
#[derive(Debug, Clone, Copy, PartialEq, Eq, Structural)]
pub enum Phase {
    Idle,
    BuildParameters,
    Advance,
    DecayDiffuse,
    SwapBuffers,
}

/// A piece of work for the caller.
#[derive(Debug, Clone, Copy, PartialEq, Eq, Structural)]
pub enum Action {
    /// Rebuild the frame parameters and hand them to the compute stage.
    BuildParameters,
    /// Advance every agent: sense on `current`, steer, move, deposit on
    /// `current`.
    Advance { current: Buffer },
    /// Decay and diffuse every texel: read `source`, write `target`.
    DecayDiffuse { source: Buffer, target: Buffer },
    /// The grids change roles: what was written last is current from now on.
    SwapBuffers,
}

/// The state of an orchestrator: its phase, the steps of the frame that are
/// not finished yet, and the grid that holds the trail.
#[derive(Debug, Clone, Copy, PartialEq, Eq, Structural)]
pub struct Machine {
    pub phase: Phase,
    pub steps_left: u32,
    pub current: Buffer,
}

impl Machine {
    /// Between frames no step is left; within a step at least one is.
    pub open spec fn well_formed(self) -> bool {
        match self.phase {
            Phase::Idle => self.steps_left == 0,
            Phase::BuildParameters => true,
            _ => self.steps_left > 0,
        }
    }

    /// The state after a frame of `steps_per_tick` steps has been asked for.
    /// A frame is only begun between frames; within one the request changes
    /// nothing.
    pub open spec fn begun(self, steps_per_tick: u32) -> Machine {
        if self.phase == Phase::Idle {
            Machine { phase: Phase::BuildParameters, steps_left: steps_per_tick, current: self.current }
        } else {
            self
        }
    }

    /// The work that is due in this state, none between frames.
    pub open spec fn action(self) -> Option<Action> {
        match self.phase {
            Phase::Idle => None,
            Phase::BuildParameters => Some(Action::BuildParameters),
            Phase::Advance => Some(Action::Advance { current: self.current }),
            Phase::DecayDiffuse => Some(
                Action::DecayDiffuse { source: self.current, target: self.current.flipped() },
            ),
            Phase::SwapBuffers => Some(Action::SwapBuffers),
        }
    }

    /// The state after the work that is due in this state.
    pub open spec fn next(self) -> Machine {
        match self.phase {
            Phase::Idle => self,
            Phase::BuildParameters => Machine {
                phase: if self.steps_left == 0 {
                    Phase::Idle
                } else {
                    Phase::Advance
                },
                ..self
            },
            Phase::Advance => Machine { phase: Phase::DecayDiffuse, ..self },
            Phase::DecayDiffuse => Machine { phase: Phase::SwapBuffers, ..self },
            Phase::SwapBuffers => Machine {
                phase: if self.steps_left <= 1 {
                    Phase::Idle
                } else {
                    Phase::Advance
                },
                steps_left: if self.steps_left == 0 {
                    0
                } else {
                    (self.steps_left - 1) as u32
                },
                current: self.current.flipped(),
            },
        }
    }

    /// The number of pieces of work between this state and the end of the
    /// frame.
    pub open spec fn remaining(self) -> nat {
        match self.phase {
            Phase::Idle => 0,
            Phase::BuildParameters => 1 + 3 * self.steps_left as nat,
            Phase::Advance => 3 * self.steps_left as nat,
            Phase::DecayDiffuse => (3 * self.steps_left - 1) as nat,
            Phase::SwapBuffers => (3 * self.steps_left - 2) as nat,
        }
    }

    /// The work between this state and the end of the frame, in order.
    pub open spec fn trace(self) -> Seq<Action>
        decreases self.remaining(),
    {
        if self.well_formed() && self.action() is Some {
            seq![self.action()->Some_0] + self.next().trace()
        } else {
            Seq::empty()
        }
    }

    /// The state at the end of the frame.
    pub open spec fn settled(self) -> Machine
        decreases self.remaining(),
    {
        if self.well_formed() && self.action() is Some {
            self.next().settled()
        } else {
            self
        }
    }
}

/// The work of `steps` steps that start with the trail on `current`.
pub open spec fn step_actions(current: Buffer, steps: nat) -> Seq<Action>
    decreases steps,
{
    if steps == 0 {
        Seq::empty()
    } else {
        seq![
            Action::Advance { current },
            Action::DecayDiffuse { source: current, target: current.flipped() },
            Action::SwapBuffers,
        ] + step_actions(current.flipped(), (steps - 1) as nat)
    }
}

/// The work of a frame of `steps` steps that starts with the trail on
/// `current`.
pub open spec fn frame_actions(current: Buffer, steps: nat) -> Seq<Action> {
    seq![Action::BuildParameters] + step_actions(current, steps)
}

/// The grid that holds the trail after `steps` steps that started with it on
/// `current`.
pub open spec fn current_after(current: Buffer, steps: nat) -> Buffer {
    if steps % 2 == 0 {
        current
    } else {
        current.flipped()
    }
}

/// Every piece of work keeps the state well formed and brings the end of the
/// frame one piece nearer.
pub proof fn lemma_next_progresses(m: Machine)
    requires
        m.well_formed(),
    ensures
        m.next().well_formed(),
        m.action() is Some ==> m.next().remaining() + 1 == m.remaining(),
        m.action() is None ==> m.next() == m,
{
}

/// From the first piece of work of a step, the rest of the frame is the
/// work of the steps that are left, after which the orchestrator is idle and
/// the trail is on the grid on which that many swaps leave it.
pub proof fn lemma_steps_run(m: Machine)
    requires
        m.phase == Phase::Advance,
        m.steps_left > 0,
    ensures
        m.trace() == step_actions(m.current, m.steps_left as nat),
        m.settled() == (Machine {
            phase: Phase::Idle,
            steps_left: 0,
            current: current_after(m.current, m.steps_left as nat),
        }),
    decreases m.steps_left,
{
    let decay = m.next();
    let swap = decay.next();
    let after = swap.next();
    assert(m.trace() == seq![m.action()->Some_0] + decay.trace());
    assert(decay.trace() == seq![decay.action()->Some_0] + swap.trace());
    assert(swap.trace() == seq![swap.action()->Some_0] + after.trace());
    assert(m.settled() == decay.settled());
    assert(decay.settled() == swap.settled());
    assert(swap.settled() == after.settled());
    let head = seq![
        Action::Advance { current: m.current },
        Action::DecayDiffuse { source: m.current, target: m.current.flipped() },
        Action::SwapBuffers,
    ];
    assert(m.trace() =~= head + after.trace());
    if m.steps_left == 1 {
        assert(after.trace() == Seq::<Action>::empty());
        assert(step_actions(m.current.flipped(), 0) == Seq::<Action>::empty());
        assert(after.settled() == after);
    } else {
        lemma_steps_run(after);
    }
    assert(step_actions(m.current, m.steps_left as nat) == head + step_actions(
        m.current.flipped(),
        (m.steps_left - 1) as nat,
    ));
}

/// A frame that is begun between frames consists of rebuilding the frame
/// parameters and then of its steps, each of them an advance, a decay and
/// diffuse from the current grid into the other one, and a swap, in this
/// order. At its end the orchestrator is idle again.
pub proof fn lemma_frame_runs(m: Machine, steps_per_tick: u32)
    requires
        m.phase == Phase::Idle,
        m.well_formed(),
    ensures
        m.begun(steps_per_tick).trace() == frame_actions(m.current, steps_per_tick as nat),
        m.begun(steps_per_tick).settled() == (Machine {
            phase: Phase::Idle,
            steps_left: 0,
            current: current_after(m.current, steps_per_tick as nat),
        }),
{
    let start = m.begun(steps_per_tick);
    let first = start.next();
    assert(start.trace() == seq![Action::BuildParameters] + first.trace());
    assert(start.settled() == first.settled());
    if steps_per_tick == 0 {
        assert(first.trace() == Seq::<Action>::empty());
        assert(step_actions(m.current, 0) == Seq::<Action>::empty());
        assert(first.settled() == first);
    } else {
        lemma_steps_run(first);
    }
}

/// A frame of no steps asks for nothing but the frame parameters: no agent
/// is advanced, no texel is written, and the trail stays on its grid.
pub proof fn lemma_frame_of_no_steps(m: Machine)
    requires
        m.phase == Phase::Idle,
        m.well_formed(),
    ensures
        m.begun(0).trace() == seq![Action::BuildParameters],
        m.begun(0).settled() == m,
{
    lemma_frame_runs(m, 0);
    assert(step_actions(m.current, 0) == Seq::<Action>::empty());
    assert(frame_actions(m.current, 0) =~= seq![Action::BuildParameters]);
}

/// Within a frame, every decay and diffuse comes directly after an advance
/// on the grid that it reads, and is directly followed by the swap.
pub proof fn lemma_phases_are_ordered(current: Buffer, steps: nat, i: int)
    requires
        0 <= i < frame_actions(current, steps).len(),
        frame_actions(current, steps)[i] is DecayDiffuse,
    ensures
        1 <= i,
        i + 1 < frame_actions(current, steps).len(),
        frame_actions(current, steps)[i - 1] == (Action::Advance {
            current: frame_actions(current, steps)[i]->source,
        }),
        frame_actions(current, steps)[i + 1] == Action::SwapBuffers,
        frame_actions(current, steps)[i]->target == frame_actions(
            current,
            steps,
        )[i]->source.flipped(),
{
    let steps_only = step_actions(current, steps);
    lemma_step_actions_shape(current, steps, i - 2);
    lemma_step_actions_shape(current, steps, i - 1);
    lemma_step_actions_shape(current, steps, i);
    assert(frame_actions(current, steps)[0] == Action::BuildParameters);
    assert(frame_actions(current, steps)[i] == steps_only[i - 1]);
    assert((i - 1) % 3 == 1);
    assert(frame_actions(current, steps)[i - 1] == steps_only[i - 2]);
    assert(frame_actions(current, steps)[i + 1] == steps_only[i]);
    assert((i - 2) / 3 == (i - 1) / 3);
}

/// The work of `steps` steps is `3 * steps` pieces long, and its pieces come
/// in threes: an advance, a decay and diffuse, a swap.
pub proof fn lemma_step_actions_shape(current: Buffer, steps: nat, i: int)
    ensures
        step_actions(current, steps).len() == 3 * steps,
        0 <= i < 3 * steps ==> {
            let on = current_after(current, (i / 3) as nat);
            step_actions(current, steps)[i] == if i % 3 == 0 {
                Action::Advance { current: on }
            } else if i % 3 == 1 {
                Action::DecayDiffuse { source: on, target: on.flipped() }
            } else {
                Action::SwapBuffers
            }
        },
    decreases steps,
{
    if steps > 0 {
        lemma_step_actions_shape(current.flipped(), (steps - 1) as nat, i - 3);
        let head = seq![
            Action::Advance { current },
            Action::DecayDiffuse { source: current, target: current.flipped() },
            Action::SwapBuffers,
        ];
        let rest = step_actions(current.flipped(), (steps - 1) as nat);
        assert(step_actions(current, steps) == head + rest);
        if 3 <= i < 3 * steps {
            assert((head + rest)[i] == rest[i - 3]);
            assert((i - 3) / 3 == i / 3 - 1);
            assert((i - 3) % 3 == i % 3);
        }
    }
}

/// The step orchestrator.
#[derive(Debug, Clone, Copy)]
pub struct Orchestrator {
    phase: Phase,
    steps_left: u32,
    current: Buffer,
}

impl View for Orchestrator {
    type V = Machine;

    closed spec fn view(&self) -> Machine {
        Machine { phase: self.phase, steps_left: self.steps_left, current: self.current }
    }
}

impl Orchestrator {
    #[verifier::type_invariant]
    spec fn type_invariant(self) -> bool {
        self@.well_formed()
    }

    /// An orchestrator between frames, with the trail on the grid `Trails`.
    pub fn new() -> (o: Orchestrator)
        ensures
            o@ == (Machine { phase: Phase::Idle, steps_left: 0, current: Buffer::Trails }),
    {
        Orchestrator { phase: Phase::Idle, steps_left: 0, current: Buffer::Trails }
    }

    /// Where in a frame the orchestrator stands.
    pub fn phase(&self) -> (p: Phase)
        ensures
            p == self@.phase,
            self@.well_formed(),
    {
        proof {
            use_type_invariant(self);
        }
        self.phase
    }

    /// The steps of the frame that are not finished yet.
    pub fn steps_left(&self) -> (n: u32)
        ensures
            n == self@.steps_left,
    {
        self.steps_left
    }

    /// The grid that holds the trail.
    pub fn current(&self) -> (b: Buffer)
        ensures
            b == self@.current,
    {
        self.current
    }

    /// Begins a frame of `steps_per_tick` steps. Between frames this
    /// succeeds; within a frame it is refused and changes nothing.
    pub fn begin_frame(&mut self, steps_per_tick: u32) -> (begun: bool)
        ensures
            begun == (old(self)@.phase == Phase::Idle),
            final(self)@ == old(self)@.begun(steps_per_tick),
            old(self)@.well_formed(),
    {
        proof {
            use_type_invariant(&*self);
        }
        match self.phase {
            Phase::Idle => {
                self.phase = Phase::BuildParameters;
                self.steps_left = steps_per_tick;
                true
            },
            _ => false,
        }
    }

    /// Names the work that is due and moves on to what follows it. Between
    /// frames nothing is due and nothing changes.
    pub fn next_action(&mut self) -> (due: Option<Action>)
        ensures
            due == old(self)@.action(),
            final(self)@ == old(self)@.next(),
            old(self)@.well_formed(),
            final(self)@.well_formed(),
    {
        proof {
            use_type_invariant(&*self);
            lemma_next_progresses(self@);
        }
        match self.phase {
            Phase::Idle => None,
            Phase::BuildParameters => {
                if self.steps_left == 0 {
                    self.phase = Phase::Idle;
                } else {
                    self.phase = Phase::Advance;
                }
                Some(Action::BuildParameters)
            },
            Phase::Advance => {
                self.phase = Phase::DecayDiffuse;
                Some(Action::Advance { current: self.current })
            },
            Phase::DecayDiffuse => {
                self.phase = Phase::SwapBuffers;
                Some(Action::DecayDiffuse { source: self.current, target: self.current.other() })
            },
            Phase::SwapBuffers => {
                let left: u32 = self.steps_left - 1;
                let phase: Phase = if left == 0 {
                    Phase::Idle
                } else {
                    Phase::Advance
                };
                *self = Orchestrator { phase, steps_left: left, current: self.current.other() };
                Some(Action::SwapBuffers)
            },
        }
    }
}

} // verus!
