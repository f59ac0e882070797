//! The particle store: the population, its configuration and the matrix.
use vstd::prelude::*;
use crate::circle::{Circle, in_domain};
use crate::config::{Config, SetupError};
use crate::matrix::{InteractionMatrix, MAX_COLORS};
use crate::physics::{advanced, all_fit, axis_after, step, wrap, DT_MAX};
use crate::random::random_in;

verus! {

/// Spread of the coefficients drawn at start.
pub const INITIAL_SPREAD: i64 = 500;
/// Spread of the coefficients drawn on a re-randomization.
pub const RANDOMIZE_SPREAD: i64 = 1000;
/// Largest spawn speed along x, in micro-units per second.
pub const SPAWN_SPEED_X: i64 = 1_000_000;
/// Largest spawn speed along y, in micro-units per second.
pub const SPAWN_SPEED_Y: i64 = 2_500_000;

/// The smaller of the speed limit and a spawn speed.
pub open spec fn spawn_limit(max_speed: int, speed: int) -> int {
    if max_speed < speed { max_speed } else { speed }
}

/// A particle as spawning makes it: the configured radius and a velocity
/// within the spawn speeds.
pub open spec fn spawned(c: Circle, cfg: Config) -> bool {
    &&& c.rad == cfg.radius
    &&& -spawn_limit(cfg.max_speed as int, SPAWN_SPEED_X as int) <= c.vel[0]
        <= spawn_limit(cfg.max_speed as int, SPAWN_SPEED_X as int)
    &&& -spawn_limit(cfg.max_speed as int, SPAWN_SPEED_Y as int) <= c.vel[1]
        <= spawn_limit(cfg.max_speed as int, SPAWN_SPEED_Y as int)
}

/// A population of particles under a configuration and a matrix.
pub struct World {
    cfg: Config,
    circles: Vec<Circle>,
    matrix: InteractionMatrix,
}

/// A tick of length zero leaves a particle exactly as it was.
pub proof fn lemma_zero_tick_keeps(s: Seq<Circle>, i: int, m: InteractionMatrix, cfg: Config, c: Circle)
    requires
        cfg.valid(),
        0 <= i < s.len(),
        s[i].fits(cfg),
        advanced(s, i, m, cfg, 0, c),
    ensures
        c == s[i],
{
    let p = s[i];
    let a = crate::physics::accel(s, i, m, cfg);
    lemma_zero_axis(p.pos[0] as int, p.vel[0] as int, a.0, cfg);
    lemma_zero_axis(p.pos[1] as int, p.vel[1] as int, a.1, cfg);
    assert(c.pos =~= p.pos);
    assert(c.vel =~= p.vel);
}

proof fn lemma_zero_axis(x: int, v: int, a: int, cfg: Config)
    requires
        cfg.valid(),
        in_domain(x, cfg),
        -cfg.max_speed <= v <= cfg.max_speed,
    ensures
        axis_after(x, v, a, 0, cfg) == (x, v),
{
    assert(v * cfg.damping * 0 == 0);
    assert(a * 0 == 0);
    assert(v * 0 == 0);
    match cfg.boundary {
        crate::config::Boundary::Wrap => {
            let h = cfg.half_extent as int;
            vstd::arithmetic::div_mod::lemma_small_mod((x + h) as nat, (2 * h) as nat);
            assert(wrap(x, h) == x);
        },
        crate::config::Boundary::Reflect => {},
    }
}

impl World {
    pub closed spec fn config(&self) -> Config {
        self.cfg
    }

    pub closed spec fn particles(&self) -> Seq<Circle> {
        self.circles@
    }

    pub closed spec fn interactions(&self) -> InteractionMatrix {
        self.matrix
    }

    /// A valid configuration, a matrix with one row per color and the
    /// configured number of particles, each of which fits.
    pub open spec fn wf(&self) -> bool {
        &&& self.config().valid()
        &&& self.interactions().wf()
        &&& self.interactions().size() == self.config().colors
        &&& self.particles().len() == self.config().particles
        &&& all_fit(self.particles(), self.config())
    }

    /// What `from_parts` rejects, if anything.
    pub open spec fn parts_error(cfg: Config, circles: Seq<Circle>, matrix: InteractionMatrix) -> Option<
        SetupError,
    > {
        if cfg.first_error() is Some {
            cfg.first_error()
        } else if matrix.size() != cfg.colors {
            Some(SetupError::MatrixSize)
        } else if circles.len() != cfg.particles {
            Some(SetupError::ParticleCount)
        } else if !all_fit(circles, cfg) {
            Some(SetupError::ParticleOutOfRange)
        } else {
            None
        }
    }

    /// A world from given particles and matrix, checked against `cfg`.
    pub fn from_parts(cfg: Config, circles: Vec<Circle>, matrix: InteractionMatrix) -> (r: Result<
        World,
        SetupError,
    >)
        requires
            matrix.wf(),
        ensures
            match Self::parts_error(cfg, circles@, matrix) {
                None => r matches Ok(w) && w.wf() && w.config() == cfg && w.particles() == circles@
                    && w.interactions() == matrix,
                Some(e) => r == Err::<World, SetupError>(e),
            },
    {
        match cfg.validate() {
            Err(e) => {
                return Err(e);
            },
            Ok(()) => {},
        }
        if matrix.colors() != cfg.colors {
            return Err(SetupError::MatrixSize);
        }
        if circles.len() != cfg.particles {
            return Err(SetupError::ParticleCount);
        }
        let mut i: usize = 0;
        while i < circles.len()
            invariant
                cfg.valid(),
                matrix.size() == cfg.colors,
                circles@.len() == cfg.particles,
                i <= circles@.len(),
                forall|k: int| 0 <= k < i ==> #[trigger] circles@[k].fits(cfg),
            decreases circles@.len() - i,
        {
            if !circles[i].check(&cfg) {
                assert(!circles@[i as int].fits(cfg));
                return Err(SetupError::ParticleOutOfRange);
            }
            i = i + 1;
        }
        Ok(World { cfg, circles, matrix })
    }

    /// A world of `cfg.particles` particles spawned at random: positions in
    /// the domain, colors among `cfg.colors`, the configured radius, a
    /// velocity within `SPAWN_SPEED_X` and `SPAWN_SPEED_Y` (and the speed
    /// limit), and a matrix drawn from `[-INITIAL_SPREAD, INITIAL_SPREAD]`.
    /// Fails exactly when the configuration is invalid.
    pub fn new(cfg: Config) -> (r: Result<World, SetupError>)
        ensures
            match cfg.first_error() {
                None => r matches Ok(w) && w.wf() && w.config() == cfg
                    && w.interactions().within(INITIAL_SPREAD as int)
                    && forall|i: int| 0 <= i < w.particles().len() ==> spawned(#[trigger] w.particles()[i], cfg),
                Some(e) => r == Err::<World, SetupError>(e),
            },
    {
        match cfg.validate() {
            Err(e) => {
                return Err(e);
            },
            Ok(()) => {},
        }
        let h = cfg.half_extent;
        let sx = if cfg.max_speed < SPAWN_SPEED_X { cfg.max_speed } else { SPAWN_SPEED_X };
        let sy = if cfg.max_speed < SPAWN_SPEED_Y { cfg.max_speed } else { SPAWN_SPEED_Y };
        let mut circles: Vec<Circle> = Vec::new();
        while circles.len() < cfg.particles
            invariant
                cfg.valid(),
                h == cfg.half_extent,
                0 <= sx <= cfg.max_speed,
                0 <= sy <= cfg.max_speed,
                circles@.len() <= cfg.particles,
                all_fit(circles@, cfg),
                sx == spawn_limit(cfg.max_speed as int, SPAWN_SPEED_X as int),
                sy == spawn_limit(cfg.max_speed as int, SPAWN_SPEED_Y as int),
                forall|i: int| 0 <= i < circles@.len() ==> spawned(#[trigger] circles@[i], cfg),
            decreases cfg.particles - circles@.len(),
        {
            let x = random_in(-h, h - 1);
            let y = random_in(-h, h - 1);
            let vx = random_in(-sx, sx);
            let vy = random_in(-sy, sy);
            let color = random_in(0, (cfg.colors - 1) as i64) as usize;
            let c = Circle { color, rad: cfg.radius, pos: [x, y], vel: [vx, vy] };
            circles.push(c);
        }
        proof {
            assert(cfg.colors * cfg.colors <= MAX_COLORS * MAX_COLORS) by (nonlinear_arith)
                requires cfg.colors <= MAX_COLORS;
        }
        let draws = InteractionMatrix::draw(cfg.colors * cfg.colors, INITIAL_SPREAD);
        let matrix = InteractionMatrix::from_draws(cfg.colors, &draws);
        proof {
            crate::matrix::lemma_holds_draws_within(matrix, draws@, INITIAL_SPREAD as int);
        }
        Ok(World { cfg, circles, matrix })
    }

    /// Advances every particle by `dt` microseconds, all from one snapshot.
    pub fn tick(&mut self, dt: u64)
        requires
            old(self).wf(),
            dt <= DT_MAX,
        ensures
            final(self).wf(),
            final(self).config() == old(self).config(),
            final(self).interactions() == old(self).interactions(),
            final(self).particles().len() == old(self).particles().len(),
            forall|i: int| 0 <= i < old(self).particles().len() ==>
                advanced(old(self).particles(), i, old(self).interactions(), old(self).config(), dt as int,
                    #[trigger] final(self).particles()[i]),
            dt == 0 ==> final(self).particles() == old(self).particles(),
    {
        let next = step(&self.circles, &self.matrix, &self.cfg, dt);
        proof {
            if dt == 0 {
                assert forall|i: int| 0 <= i < next@.len() implies #[trigger] next@[i] == self.circles@[i] by {
                    lemma_zero_tick_keeps(self.circles@, i, self.matrix, self.cfg, next@[i]);
                }
                assert(next@ =~= self.circles@);
            }
        }
        self.circles = next;
    }

    /// Replaces the whole matrix with fresh draws from
    /// `[-RANDOMIZE_SPREAD, RANDOMIZE_SPREAD]`, handed back row by row; the
    /// particles are untouched.
    pub fn randomize(&mut self) -> (draws: Vec<i64>)
        requires
            old(self).wf(),
        ensures
            final(self).interactions().holds_draws(draws@),
            forall|t: int| 0 <= t < draws@.len() ==>
                -RANDOMIZE_SPREAD <= #[trigger] draws@[t] <= RANDOMIZE_SPREAD,
            final(self).wf(),
            final(self).config() == old(self).config(),
            final(self).particles() == old(self).particles(),
            final(self).interactions().size() == old(self).interactions().size(),
            final(self).interactions().within(RANDOMIZE_SPREAD as int),
    {
        self.matrix.randomize(RANDOMIZE_SPREAD)
    }

    /// The particles, for presentation.
    pub fn circles(&self) -> (r: &Vec<Circle>)
        ensures
            r@ == self.particles(),
    {
        &self.circles
    }

    /// The interaction matrix.
    pub fn matrix(&self) -> (r: &InteractionMatrix)
        ensures
            *r == self.interactions(),
    {
        &self.matrix
    }

    /// The configuration.
    pub fn settings(&self) -> (r: Config)
        ensures
            r == self.config(),
    {
        self.cfg
    }
}

/// A tick of length zero leaves every particle's position and velocity as
/// they were.
pub proof fn lemma_tick_zero_is_identity(before: World, after: World)
    requires
        before.wf(),
        after.particles().len() == before.particles().len(),
        forall|i: int| 0 <= i < before.particles().len() ==>
            advanced(before.particles(), i, before.interactions(), before.config(), 0,
                #[trigger] after.particles()[i]),
    ensures
        after.particles() == before.particles(),
{
    assert forall|i: int| 0 <= i < before.particles().len() implies
        #[trigger] after.particles()[i] == before.particles()[i] by {
        lemma_zero_tick_keeps(before.particles(), i, before.interactions(), before.config(), after.particles()[i]);
    }
    assert(after.particles() =~= before.particles());
}

} // verus!
