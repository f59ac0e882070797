//! Engine configuration and its validation.
use vstd::prelude::*;
use crate::matrix::MAX_COLORS;

verus! {

/// Largest population.
pub const MAX_PARTICLES: usize = 100_000;
/// Largest half side of the square domain, in micro-units.
pub const MAX_HALF_EXTENT: i64 = 1_000_000_000;
/// Largest interaction radius, in micro-units.
pub const MAX_INTERACTION_RADIUS: i64 = 3_000_000_000;
/// Largest acceleration at full response, in micro-units per second squared.
pub const MAX_FORCE: i64 = 1_000_000_000;
/// Largest speed limit, in micro-units per second.
pub const MAX_SPEED: i64 = 1_000_000_000;
/// Largest damping rate, in per-mille of the velocity per second.
pub const MAX_DAMPING: i64 = 100_000;

/// What happens to a particle that crosses the domain's edge.
#[derive(Clone, Copy, Debug, PartialEq, Eq, Structural)]
pub enum Boundary {
    /// Toroidal: leaving one side re-enters from the opposite side.
    /// The domain is `[-h, h)` on each axis.
    Wrap,
    /// The particle stops at the edge and its outward velocity component is
    /// reversed. The domain is `[-h, h]` on each axis.
    Reflect,
}

/// Why an engine could not be set up.
#[derive(Clone, Copy, Debug, PartialEq, Eq, Structural)]
pub enum SetupError {
    NoParticles,
    TooManyParticles,
    NoColors,
    TooManyColors,
    BadExtent,
    BadRadius,
    BadInteractionRadii,
    BadForce,
    BadDamping,
    BadSpeed,
    /// The matrix does not have one row per color class.
    MatrixSize,
    /// The number of particles given differs from the configured count.
    ParticleCount,
    /// A particle lies outside the domain, has an unknown color or
    /// exceeds the speed limit.
    ParticleOutOfRange,
}

/// Everything the engine is parameterised by.
#[derive(Clone, Copy, Debug, PartialEq, Eq)]
pub struct Config {
    /// Number of particles.
    pub particles: usize,
    /// Number of color classes.
    pub colors: usize,
    /// Half side of the square domain (and spawn region), in micro-units.
    pub half_extent: i64,
    /// Display radius of every particle, in micro-units.
    pub radius: i64,
    /// Distance beyond which particles do not interact.
    pub interaction_radius: i64,
    /// Distance below which particles repel whatever their colors.
    pub repulsion_radius: i64,
    /// Acceleration at full response, in micro-units per second squared.
    pub force: i64,
    /// Velocity lost per second, in per-mille; at least one, so that the
    /// system is dissipative.
    pub damping: i64,
    /// Speed limit on each axis, in micro-units per second.
    pub max_speed: i64,
    /// Edge policy.
    pub boundary: Boundary,
}

impl Config {
    /// The first rule that the configuration breaks, if any.
    pub open spec fn first_error(&self) -> Option<SetupError> {
        if self.particles == 0 {
            Some(SetupError::NoParticles)
        } else if self.particles > MAX_PARTICLES {
            Some(SetupError::TooManyParticles)
        } else if self.colors == 0 {
            Some(SetupError::NoColors)
        } else if self.colors > MAX_COLORS {
            Some(SetupError::TooManyColors)
        } else if !(1 <= self.half_extent <= MAX_HALF_EXTENT) {
            Some(SetupError::BadExtent)
        } else if !(0 <= self.radius <= MAX_HALF_EXTENT) {
            Some(SetupError::BadRadius)
        } else if !(1 <= self.repulsion_radius < self.interaction_radius <= MAX_INTERACTION_RADIUS) {
            Some(SetupError::BadInteractionRadii)
        } else if !(0 <= self.force <= MAX_FORCE) {
            Some(SetupError::BadForce)
        } else if !(1 <= self.damping <= MAX_DAMPING) {
            Some(SetupError::BadDamping)
        } else if !(0 <= self.max_speed <= MAX_SPEED) {
            Some(SetupError::BadSpeed)
        } else {
            None
        }
    }

    /// Every field within its limits.
    pub open spec fn valid(&self) -> bool {
        self.first_error() is None
    }

    /// Checks every field, reporting the first rule broken.
    pub fn validate(&self) -> (r: Result<(), SetupError>)
        ensures
            r == (match self.first_error() {
                None => Ok(()),
                Some(e) => Err(e),
            }),
    {
        if self.particles == 0 {
            Err(SetupError::NoParticles)
        } else if self.particles > MAX_PARTICLES {
            Err(SetupError::TooManyParticles)
        } else if self.colors == 0 {
            Err(SetupError::NoColors)
        } else if self.colors > MAX_COLORS {
            Err(SetupError::TooManyColors)
        } else if !(1 <= self.half_extent && self.half_extent <= MAX_HALF_EXTENT) {
            Err(SetupError::BadExtent)
        } else if !(0 <= self.radius && self.radius <= MAX_HALF_EXTENT) {
            Err(SetupError::BadRadius)
        } else if !(1 <= self.repulsion_radius && self.repulsion_radius < self.interaction_radius
            && self.interaction_radius <= MAX_INTERACTION_RADIUS) {
            Err(SetupError::BadInteractionRadii)
        } else if !(0 <= self.force && self.force <= MAX_FORCE) {
            Err(SetupError::BadForce)
        } else if !(1 <= self.damping && self.damping <= MAX_DAMPING) {
            Err(SetupError::BadDamping)
        } else if !(0 <= self.max_speed && self.max_speed <= MAX_SPEED) {
            Err(SetupError::BadSpeed)
        } else {
            Ok(())
        }
    }

    /// The usual setup: 3000 particles of 6 colors and radius 0.125 in a
    /// 40-unit square.
    pub fn standard() -> (c: Config)
        ensures
            c.valid(),
            c.particles == 3000,
            c.colors == 6,
            c.half_extent == 20_000_000,
            c.radius == 125_000,
            c.interaction_radius == 2_000_000,
            c.repulsion_radius == 300_000,
            c.force == 50_000_000,
            c.damping == 2_000,
            c.max_speed == 20_000_000,
            c.boundary == Boundary::Wrap,
    {
        Config {
            particles: 3000,
            colors: 6,
            half_extent: 20_000_000,
            radius: 125_000,
            interaction_radius: 2_000_000,
            repulsion_radius: 300_000,
            force: 50_000_000,
            damping: 2_000,
            max_speed: 20_000_000,
            boundary: Boundary::Wrap,
        }
    }
}

} // verus!
