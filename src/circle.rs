//! The state of one particle.
use vstd::prelude::*;
use crate::config::{Boundary, Config};

verus! {

/// One particle: its color class, display radius, position and velocity.
///
/// Positions are in micro-units, velocities in micro-units per second.
#[derive(Clone, Copy, Debug, PartialEq, Eq)]
pub struct Circle {
    pub color: usize,
    pub rad: i64,
    pub pos: [i64; 2],
    pub vel: [i64; 2],
}

/// True when a coordinate lies in the domain that the boundary policy keeps.
pub open spec fn in_domain(x: int, cfg: Config) -> bool {
    match cfg.boundary {
        Boundary::Wrap => -cfg.half_extent <= x < cfg.half_extent,
        Boundary::Reflect => -cfg.half_extent <= x <= cfg.half_extent,
    }
}

impl Circle {
    /// A known color, a position in the domain and a speed within the limit.
    pub open spec fn fits(&self, cfg: Config) -> bool {
        &&& self.color < cfg.colors
        &&& in_domain(self.pos[0] as int, cfg)
        &&& in_domain(self.pos[1] as int, cfg)
        &&& -cfg.max_speed <= self.vel[0] <= cfg.max_speed
        &&& -cfg.max_speed <= self.vel[1] <= cfg.max_speed
    }

    /// Checks `fits`.
    pub fn check(&self, cfg: &Config) -> (r: bool)
        requires
            cfg.valid(),
        ensures
            r == self.fits(*cfg),
    {
        let h = cfg.half_extent;
        let inside = match cfg.boundary {
            Boundary::Wrap => -h <= self.pos[0] && self.pos[0] < h && -h <= self.pos[1] && self.pos[1] < h,
            Boundary::Reflect => -h <= self.pos[0] && self.pos[0] <= h && -h <= self.pos[1] && self.pos[1] <= h,
        };
        let v = cfg.max_speed;
        self.color < cfg.colors && inside && -v <= self.vel[0] && self.vel[0] <= v && -v <= self.vel[1]
            && self.vel[1] <= v
    }
}

} // verus!
