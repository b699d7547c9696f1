//! The frame loop as a state machine.
//!
//! The window delivers events; the loop answers each with an action for the
//! embedding program to perform. A redraw yields the whole frame as an
//! ordered list of commands, one clear, the registered draws in registration
//! order, one present, and the program reports back how the present went.
use vstd::prelude::*;

use crate::clock::AnimationClock;
use crate::error::RenderError;
use crate::geometry::GeometryStore;
use crate::pipeline::{BufferHandle, ProgramCache, ProgramHandle};

verus! {

#[derive(Debug, Clone, Copy, PartialEq, Eq, Structural)]
pub enum Phase {
    /// Created, not yet started.
    Idle,
    /// Waiting for the next redraw.
    Running,
    /// A frame was handed out and has not been presented yet.
    InFrame,
    /// Stopped for good.
    Closed,
}

#[derive(Debug, Clone, Copy, PartialEq, Eq, Structural)]
pub enum DepthTest {
    Disabled,
    /// Keep a fragment only if it is nearer than what the depth buffer holds.
    Enabled,
}

#[derive(Debug, Clone, Copy, PartialEq, Eq, Structural)]
pub enum CullMode {
    Off,
    Front,
    Back,
}

/// Fixed-function state for one draw.
#[derive(Debug, Clone, Copy, PartialEq, Eq, Structural)]
pub struct DrawState {
    pub depth_test: DepthTest,
    pub depth_write: bool,
    pub cull: CullMode,
}

/// One triangle-list draw: which geometry, with which program and state.
#[derive(Debug, Clone, Copy, PartialEq, Eq, Structural)]
pub struct DrawItem {
    pub geometry: BufferHandle,
    pub program: ProgramHandle,
    pub state: DrawState,
}

#[derive(Debug, Clone, Copy, PartialEq, Eq, Structural)]
pub enum WindowEvent {
    CloseRequested,
    Resized(u32, u32),
    RedrawRequested,
}

#[derive(Debug, Clone, Copy, PartialEq, Eq, Structural)]
pub enum FrameCommand {
    /// Clear the colour buffer, and the depth buffer too when `depth` holds.
    Clear { depth: bool },
    Draw(DrawItem),
    Present,
}

/// What the embedding program is to do in answer to an event.
#[derive(Debug, Clone)]
pub enum Action {
    Nothing,
    /// Resize the display surface.
    Resize(u32, u32),
    /// Acquire a target and run these commands in order; `tick` is the
    /// animation clock's tick count for this frame.
    Render { tick: u64, commands: Vec<FrameCommand> },
    /// The target has a zero width or height: draw nothing this time.
    SkipFrame,
    /// Leave the event loop.
    Exit,
}

/// How presenting a frame went.
#[derive(Debug, Clone, Copy, PartialEq, Eq, Structural)]
pub enum PresentResult {
    Presented,
    /// The frame was lost; the loop goes on with the next one.
    Failed,
    /// The graphics context is gone; nothing more can be drawn.
    ContextLost,
}

/// Some draw tests depth, so the depth buffer must be cleared too.
pub open spec fn needs_depth(draws: Seq<DrawItem>) -> bool {
    exists|i: int| 0 <= i < draws.len() && draws[i].state.depth_test == DepthTest::Enabled
}

/// The commands of one frame: a clear, every draw in order, a present.
pub open spec fn frame_commands(draws: Seq<DrawItem>) -> Seq<FrameCommand> {
    seq![FrameCommand::Clear { depth: needs_depth(draws) }] + draws.map_values(
        |d: DrawItem| FrameCommand::Draw(d),
    ) + seq![FrameCommand::Present]
}

/// State of the frame loop between events.
pub struct FrameLoop {
    phase: Phase,
    width: u32,
    height: u32,
    clock: AnimationClock,
    draws: Vec<DrawItem>,
    presented: u64,
    failed: u64,
}

impl FrameLoop {
    pub closed spec fn spec_phase(self) -> Phase {
        self.phase
    }

    /// The target's size, as last reported by the window.
    pub closed spec fn spec_size(self) -> (u32, u32) {
        (self.width, self.height)
    }

    pub closed spec fn spec_clock(self) -> AnimationClock {
        self.clock
    }

    /// The registered draws, in submission order.
    pub closed spec fn spec_draws(self) -> Seq<DrawItem> {
        self.draws@
    }

    /// Frames presented, and frames lost at present.
    pub closed spec fn spec_counts(self) -> (u64, u64) {
        (self.presented, self.failed)
    }

    /// A stopped loop with a target of the given size and a clock at zero
    /// that advances by `step` per frame.
    pub fn new(width: u32, height: u32, step: u32) -> (r: Self)
        ensures
            r.spec_phase() == Phase::Idle,
            r.spec_size() == (width, height),
            r.spec_clock().spec_ticks() == 0,
            r.spec_clock().spec_step() == step,
            r.spec_draws() == Seq::<DrawItem>::empty(),
            r.spec_counts() == (0u64, 0u64),
    {
        FrameLoop {
            phase: Phase::Idle,
            width,
            height,
            clock: AnimationClock::new(step),
            draws: Vec::new(),
            presented: 0,
            failed: 0,
        }
    }

    /// Starts an idle loop; any other phase is left as it is.
    pub fn start(&mut self)
        ensures
            final(self).spec_phase() == if old(self).spec_phase() == Phase::Idle {
                Phase::Running
            } else {
                old(self).spec_phase()
            },
            final(self).spec_size() == old(self).spec_size(),
            final(self).spec_clock() == old(self).spec_clock(),
            final(self).spec_draws() == old(self).spec_draws(),
            final(self).spec_counts() == old(self).spec_counts(),
    {
        if self.phase == Phase::Idle {
            self.phase = Phase::Running;
        }
    }

    /// Adds a draw to every later frame, after those already registered.
    pub fn register(&mut self, item: DrawItem)
        ensures
            final(self).spec_draws() == old(self).spec_draws().push(item),
            final(self).spec_phase() == old(self).spec_phase(),
            final(self).spec_size() == old(self).spec_size(),
            final(self).spec_clock() == old(self).spec_clock(),
            final(self).spec_counts() == old(self).spec_counts(),
    {
        self.draws.push(item);
    }

    /// The commands of one frame over the registered draws.
    pub fn plan(&self) -> (r: Vec<FrameCommand>)
        ensures
            r@ == frame_commands(self.spec_draws()),
    {
        let mut depth = false;
        let mut commands: Vec<FrameCommand> = Vec::new();
        commands.push(FrameCommand::Clear { depth: false });
        let mut i: usize = 0;
        while i < self.draws.len()
            invariant
                0 <= i <= self.draws@.len(),
                commands@.len() == i + 1,
                commands@[0] == (FrameCommand::Clear { depth: false }),
                forall|j: int| 0 <= j < i ==> commands@[j + 1] == FrameCommand::Draw(self.draws@[j]),
                depth == exists|j: int| 0 <= j < i && self.draws@[j].state.depth_test == DepthTest::Enabled,
            decreases self.draws@.len() - i,
        {
            let d = self.draws[i];
            if d.state.depth_test == DepthTest::Enabled {
                depth = true;
            }
            commands.push(FrameCommand::Draw(d));
            i = i + 1;
        }
        commands.set(0, FrameCommand::Clear { depth });
        commands.push(FrameCommand::Present);
        assert(commands@ =~= frame_commands(self.spec_draws()));
        commands
    }

    /// Answers one window event.
    ///
    /// A close request stops the loop from any phase; a resize records the
    /// new size; a redraw while running with a target of non-zero size
    /// advances the clock once and hands out one frame. A redraw with a zero
    /// width or height skips the frame and leaves the loop as it was. A
    /// stopped loop ignores everything.
    pub fn on_event(&mut self, event: WindowEvent) -> (r: Action)
        ensures
            old(self).spec_phase() == Phase::Closed ==> r is Nothing && *final(self) == *old(self),
            old(self).spec_phase() != Phase::Closed ==> match event {
                WindowEvent::CloseRequested => r is Exit && final(self).spec_phase() == Phase::Closed
                    && final(self).spec_size() == old(self).spec_size()
                    && final(self).spec_clock() == old(self).spec_clock()
                    && final(self).spec_draws() == old(self).spec_draws()
                    && final(self).spec_counts() == old(self).spec_counts(),
                WindowEvent::Resized(w, h) => r == Action::Resize(w, h)
                    && final(self).spec_size() == (w, h)
                    && final(self).spec_phase() == old(self).spec_phase()
                    && final(self).spec_clock() == old(self).spec_clock()
                    && final(self).spec_draws() == old(self).spec_draws()
                    && final(self).spec_counts() == old(self).spec_counts(),
                WindowEvent::RedrawRequested => if old(self).spec_phase() != Phase::Running {
                    r is Nothing && *final(self) == *old(self)
                } else if old(self).spec_size().0 == 0 || old(self).spec_size().1 == 0 {
                    r is SkipFrame && *final(self) == *old(self)
                } else {
                    (match r {
                        Action::Render { tick, commands } => tick
                            == final(self).spec_clock().spec_ticks() && commands@
                            == frame_commands(old(self).spec_draws()),
                        _ => false,
                    }) && final(self).spec_phase() == Phase::InFrame
                        && old(self).spec_clock().spec_advanced(final(self).spec_clock())
                        && final(self).spec_size() == old(self).spec_size()
                        && final(self).spec_draws() == old(self).spec_draws()
                        && final(self).spec_counts() == old(self).spec_counts()
                },
            },
    {
        if self.phase == Phase::Closed {
            return Action::Nothing;
        }
        match event {
            WindowEvent::CloseRequested => {
                self.phase = Phase::Closed;
                Action::Exit
            },
            WindowEvent::Resized(w, h) => {
                self.width = w;
                self.height = h;
                Action::Resize(w, h)
            },
            WindowEvent::RedrawRequested => {
                if self.phase != Phase::Running {
                    Action::Nothing
                } else if self.width == 0 || self.height == 0 {
                    Action::SkipFrame
                } else {
                    self.clock.advance();
                    self.phase = Phase::InFrame;
                    let commands = self.plan();
                    Action::Render { tick: self.clock.ticks(), commands }
                }
            },
        }
    }

    /// Records how presenting the frame handed out went. A lost frame is
    /// counted and the loop goes on; a lost context stops the loop. Outside
    /// a frame nothing changes.
    pub fn end_frame(&mut self, result: PresentResult)
        ensures
            final(self).spec_size() == old(self).spec_size(),
            final(self).spec_clock() == old(self).spec_clock(),
            final(self).spec_draws() == old(self).spec_draws(),
            old(self).spec_phase() != Phase::InFrame ==> *final(self) == *old(self),
            old(self).spec_phase() == Phase::InFrame ==> match result {
                PresentResult::Presented => final(self).spec_phase() == Phase::Running
                    && final(self).spec_counts() == (
                    saturating_inc(old(self).spec_counts().0),
                    old(self).spec_counts().1,
                ),
                PresentResult::Failed => final(self).spec_phase() == Phase::Running
                    && final(self).spec_counts() == (
                    old(self).spec_counts().0,
                    saturating_inc(old(self).spec_counts().1),
                ),
                PresentResult::ContextLost => final(self).spec_phase() == Phase::Closed
                    && final(self).spec_counts() == old(self).spec_counts(),
            },
    {
        if self.phase != Phase::InFrame {
            return;
        }
        match result {
            PresentResult::Presented => {
                if self.presented < u64::MAX {
                    self.presented = self.presented + 1;
                }
                self.phase = Phase::Running;
            },
            PresentResult::Failed => {
                if self.failed < u64::MAX {
                    self.failed = self.failed + 1;
                }
                self.phase = Phase::Running;
            },
            PresentResult::ContextLost => {
                self.phase = Phase::Closed;
            },
        }
    }

    pub fn phase(&self) -> (r: Phase)
        ensures
            r == self.spec_phase(),
    {
        self.phase
    }

    pub fn size(&self) -> (r: (u32, u32))
        ensures
            r == self.spec_size(),
    {
        (self.width, self.height)
    }

    pub fn clock(&self) -> (r: AnimationClock)
        ensures
            r == self.spec_clock(),
    {
        self.clock
    }

    pub fn draws(&self) -> (r: &Vec<DrawItem>)
        ensures
            r@ == self.spec_draws(),
    {
        &self.draws
    }

    /// Frames presented, and frames lost at present.
    pub fn counts(&self) -> (r: (u64, u64))
        ensures
            r == self.spec_counts(),
    {
        (self.presented, self.failed)
    }
}

pub open spec fn saturating_inc(n: u64) -> u64 {
    if n < u64::MAX {
        (n + 1) as u64
    } else {
        n
    }
}

/// The geometry and program a draw names, ready to bind; `HandleInvalid`
/// when either handle is not live.
pub fn resolve_draw<'a, B, P>(
    item: &DrawItem,
    geometry: &'a GeometryStore<B>,
    programs: &'a ProgramCache<P>,
) -> (r: Result<(&'a B, &'a P), RenderError>)
    requires
        geometry.wf(),
        programs.wf(),
    ensures
        match r {
            Ok((b, p)) => geometry.is_live(item.geometry) && geometry.buffers()[item.geometry.0 as int]
                == Some(*b) && item.program.0 < programs.programs().len() && *p
                == programs.programs()[item.program.0 as int],
            Err(e) => (!geometry.is_live(item.geometry) || item.program.0 >= programs.programs().len())
                && e is HandleInvalid,
        },
{
    let b = match geometry.bind(item.geometry) {
        Ok(b) => b,
        Err(e) => return Err(e),
    };
    let p = match programs.get(item.program) {
        Ok(p) => p,
        Err(e) => return Err(e),
    };
    Ok((b, p))
}

} // verus!
