//! The frame scheduler: a tick, unless paused, then a presentable state.
use vstd::prelude::*;
use crate::camera::{Camera, Steer, ONE, ZOOM};
use crate::config::{Config, SetupError};
use crate::physics::{advanced, DT_MAX};
use crate::world::{spawned, World, INITIAL_SPREAD, RANDOMIZE_SPREAD};

verus! {

/// Discrete requests from the input layer.
#[derive(Clone, Copy, Debug, PartialEq, Eq, Structural)]
pub enum Command {
    /// Freeze or resume the particles; the camera stays live either way.
    TogglePause,
    /// Replace the interaction matrix with fresh draws.
    Randomize,
}

/// The tick length used for an elapsed wall-clock time: at most `DT_MAX`.
pub open spec fn tick_length(elapsed_us: int) -> int {
    if elapsed_us < DT_MAX { elapsed_us } else { DT_MAX as int }
}

/// Clamps an elapsed time, in microseconds, to the largest tick.
pub fn clamp_dt(elapsed_us: u64) -> (dt: u64)
    ensures
        dt == tick_length(elapsed_us as int),
{
    if elapsed_us < DT_MAX {
        elapsed_us
    } else {
        DT_MAX
    }
}

/// The world, the camera and whether the particles are paused.
pub struct Simulation {
    world: World,
    camera: Camera,
    paused: bool,
}

impl Simulation {
    pub closed spec fn world_view(&self) -> World {
        self.world
    }

    pub closed spec fn camera_view(&self) -> Camera {
        self.camera
    }

    pub closed spec fn paused_view(&self) -> bool {
        self.paused
    }

    pub open spec fn wf(&self) -> bool {
        self.world_view().wf() && self.camera_view().wf()
    }

    /// A paused simulation of a freshly spawned world under a centered
    /// camera; fails exactly when the configuration is invalid.
    pub fn new(cfg: Config) -> (r: Result<Simulation, SetupError>)
        ensures
            match cfg.first_error() {
                None => r matches Ok(s) && s.wf() && s.paused_view() && s.world_view().config() == cfg
                    && s.camera_view().pos[0] == 0 && s.camera_view().pos[1] == 0
                    && s.camera_view().scale == ONE / ZOOM
                    && s.world_view().interactions().within(INITIAL_SPREAD as int)
                    && forall|i: int| 0 <= i < s.world_view().particles().len() ==>
                        spawned(#[trigger] s.world_view().particles()[i], cfg),
                Some(e) => r == Err::<Simulation, SetupError>(e),
            },
    {
        match World::new(cfg) {
            Ok(world) => Ok(Simulation { world, camera: Camera::new(), paused: true }),
            Err(e) => Err(e),
        }
    }

    /// A running simulation of a given world under a centered camera.
    pub fn from_world(world: World) -> (s: Simulation)
        requires
            world.wf(),
        ensures
            s.wf(),
            !s.paused_view(),
            s.world_view() == world,
    {
        Simulation { world, camera: Camera::new(), paused: false }
    }

    /// Applies a discrete command. Randomizing hands back the coefficients
    /// drawn, row by row; toggling the pause hands back none.
    pub fn command(&mut self, c: Command) -> (draws: Vec<i64>)
        requires
            old(self).wf(),
        ensures
            final(self).wf(),
            final(self).camera_view() == old(self).camera_view(),
            final(self).world_view().config() == old(self).world_view().config(),
            final(self).world_view().particles() == old(self).world_view().particles(),
            c == Command::TogglePause ==> final(self).paused_view() == !old(self).paused_view()
                && final(self).world_view() == old(self).world_view() && draws@.len() == 0,
            c == Command::Randomize ==> final(self).paused_view() == old(self).paused_view()
                && final(self).world_view().interactions().size() == old(self).world_view().interactions().size()
                && final(self).world_view().interactions().holds_draws(draws@)
                && forall|t: int| 0 <= t < draws@.len() ==>
                    -RANDOMIZE_SPREAD <= #[trigger] draws@[t] <= RANDOMIZE_SPREAD,
    {
        match c {
            Command::TogglePause => {
                self.paused = !self.paused;
                Vec::new()
            },
            Command::Randomize => self.world.randomize(),
        }
    }

    /// `after` is `before` after one frame of `elapsed_us` microseconds with
    /// the controls `steer` held.
    pub open spec fn frame_result(before: Simulation, after: Simulation, elapsed_us: int, steer: Steer) -> bool {
        let dt = tick_length(elapsed_us);
        let w = before.world_view();
        &&& after.paused_view() == before.paused_view()
        &&& after.camera_view().pos[0] == before.camera_view().steered_x(steer, dt)
        &&& after.camera_view().pos[1] == before.camera_view().steered_y(steer, dt)
        &&& after.camera_view().scale == before.camera_view().steered_scale(steer, dt)
        &&& after.world_view().config() == w.config()
        &&& after.world_view().interactions() == w.interactions()
        &&& before.paused_view() ==> after.world_view() == w
        &&& !before.paused_view() ==> {
            &&& after.world_view().particles().len() == w.particles().len()
            &&& forall|i: int| 0 <= i < w.particles().len() ==>
                advanced(w.particles(), i, w.interactions(), w.config(), dt,
                    #[trigger] after.world_view().particles()[i])
        }
    }

    /// One frame: the camera follows the held controls, then the particles
    /// advance by the clamped elapsed time unless paused.
    pub fn frame(&mut self, elapsed_us: u64, steer: Steer)
        requires
            old(self).wf(),
        ensures
            final(self).wf(),
            Self::frame_result(*old(self), *final(self), elapsed_us as int, steer),
    {
        let dt = clamp_dt(elapsed_us);
        self.camera.steer(steer, dt);
        if !self.paused {
            self.world.tick(dt);
        }
    }

    /// The world, for presentation.
    pub fn world(&self) -> (w: &World)
        ensures
            *w == self.world_view(),
    {
        &self.world
    }

    /// The camera, for presentation.
    pub fn camera(&self) -> (c: Camera)
        ensures
            c == self.camera_view(),
    {
        self.camera
    }

    /// Whether the particles are frozen.
    pub fn is_paused(&self) -> (p: bool)
        ensures
            p == self.paused_view(),
    {
        self.paused
    }
}

/// Pausing freezes the particles: over any run of frames that starts
/// paused, with any elapsed times and any controls held, every state has
/// the starting world (particles and matrix) and stays paused, while the
/// camera follows the controls frame by frame.
pub proof fn lemma_paused_frames_freeze(states: Seq<Simulation>, elapsed_us: Seq<int>, steers: Seq<Steer>)
    requires
        states.len() == elapsed_us.len() + 1,
        steers.len() == elapsed_us.len(),
        states[0].paused_view(),
        forall|k: int| 0 <= k < elapsed_us.len() ==>
            Simulation::frame_result(states[k], #[trigger] states[k + 1], elapsed_us[k], steers[k]),
    ensures
        forall|k: int| 0 <= k < states.len() ==>
            (#[trigger] states[k]).world_view() == states[0].world_view() && states[k].paused_view(),
    decreases elapsed_us.len(),
{
    if elapsed_us.len() > 0 {
        let n = elapsed_us.len() - 1;
        let front = states.subrange(0, n + 1);
        lemma_paused_frames_freeze(front, elapsed_us.subrange(0, n), steers.subrange(0, n));
        assert(front[n] == states[n]);
        assert(Simulation::frame_result(states[n], states[n + 1], elapsed_us[n], steers[n]));
        assert forall|k: int| 0 <= k < states.len() implies
            (#[trigger] states[k]).world_view() == states[0].world_view() && states[k].paused_view() by {
            if k <= n {
                assert(front[k] == states[k]);
            }
        }
    }
}

} // verus!
