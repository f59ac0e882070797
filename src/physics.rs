//! The force and integration stage.
//!
//! Response curve: below the repulsion radius `b` every pair repels, linearly
//! from full strength at distance zero to none at `b`, whatever the colors.
//! Between `b` and the interaction radius `R` the response is a tent that
//! peaks at the midpoint with the matrix coefficient `coefficient[p][q]` of
//! the particle `p` being moved toward the particle `q`; beyond `R` there is
//! none. Only `p`'s own row of the matrix acts on `p`, so the response need
//! not be symmetric. Distances below one micro-unit count as one, which
//! keeps coincident particles from producing an unbounded pull.
use vstd::prelude::*;
use crate::circle::{Circle, in_domain};
use crate::config::{Boundary, Config, MAX_FORCE, MAX_INTERACTION_RADIUS, MAX_HALF_EXTENT, MAX_PARTICLES};
use crate::fixed::{fdiv, isqrt, sqrt_floor, lemma_div_bounds};
use crate::matrix::{InteractionMatrix, COEFF_MAX};

verus! {

/// Response, in per-mille, of a pair at distance `r` with coefficient `a`.
pub open spec fn response(r: int, a: int, cfg: Config) -> int {
    let big = cfg.interaction_radius as int;
    let b = cfg.repulsion_radius as int;
    if r < b {
        r * 1000 / b - 1000
    } else if r < big {
        let off = if 2 * r - big - b >= 0 { 2 * r - big - b } else { big + b - 2 * r };
        a * (1000 - off * 1000 / (big - b)) / 1000
    } else {
        0
    }
}

/// Distance used for the response: the integer distance, at least one.
pub open spec fn separation(dx: int, dy: int) -> int {
    let r = sqrt_floor(dx * dx + dy * dy);
    if r < 1 { 1 } else { r }
}

/// Acceleration of `p` due to `q` along one axis, whose displacement
/// `q - p` is `d`.
pub open spec fn pull_axis(p: Circle, q: Circle, m: InteractionMatrix, cfg: Config, d: int) -> int {
    let dx = q.pos[0] - p.pos[0];
    let dy = q.pos[1] - p.pos[1];
    let r = separation(dx, dy);
    let s = cfg.force * response(r, m.coef(p.color as int, q.color as int), cfg) / 1000;
    s * d / r
}

/// Acceleration of `p` due to `q` along the x axis.
pub open spec fn pull_x(p: Circle, q: Circle, m: InteractionMatrix, cfg: Config) -> int {
    pull_axis(p, q, m, cfg, q.pos[0] - p.pos[0])
}

/// Acceleration of `p` due to `q` along the y axis.
pub open spec fn pull_y(p: Circle, q: Circle, m: InteractionMatrix, cfg: Config) -> int {
    pull_axis(p, q, m, cfg, q.pos[1] - p.pos[1])
}

/// Positions that keep every difference small enough for the arithmetic.
pub open spec fn bounded_pos(c: Circle) -> bool {
    -MAX_HALF_EXTENT <= c.pos[0] <= MAX_HALF_EXTENT && -MAX_HALF_EXTENT <= c.pos[1] <= MAX_HALF_EXTENT
}

fn response_of(r: i64, a: i64, cfg: &Config) -> (out: i64)
    requires
        cfg.valid(),
        1 <= r <= MAX_INTERACTION_RADIUS,
        -COEFF_MAX <= a <= COEFF_MAX,
    ensures
        out == response(r as int, a as int, *cfg),
        -1000 <= out <= 1000,
{
    let big = cfg.interaction_radius;
    let b = cfg.repulsion_radius;
    if r < b {
        let q = fdiv(r * 1000, b);
        proof {
            lemma_div_bounds(r * 1000, b as int, 0, 1000);
        }
        q - 1000
    } else if r < big {
        let off: i64 = if 2 * r - big - b >= 0 { 2 * r - big - b } else { big + b - 2 * r };
        let q = fdiv(off * 1000, big - b);
        proof {
            lemma_div_bounds(off * 1000, (big - b) as int, 0, 1000);
        }
        let tent = 1000 - q;
        proof {
            assert(-1000 * 1000 <= a * tent <= 1000 * 1000) by (nonlinear_arith)
                requires -1000 <= a <= 1000, 0 <= tent <= 1000;
        }
        let out = fdiv(a * tent, 1000);
        proof {
            lemma_div_bounds(a * tent, 1000, -1000, 1000);
        }
        out
    } else {
        0
    }
}

proof fn lemma_coord_le_root(x: int, y: int, r: int)
    requires
        r >= 0,
        x * x + y * y < (r + 1) * (r + 1),
    ensures
        -r <= x <= r,
{
    assert(y * y >= 0) by (nonlinear_arith);
    if x > r {
        assert(x * x >= (r + 1) * (r + 1)) by (nonlinear_arith)
            requires x >= r + 1, r >= 0;
    } else if x < -r {
        assert(x * x >= (r + 1) * (r + 1)) by (nonlinear_arith)
            requires x <= -(r + 1), r >= 0;
    }
}

proof fn lemma_scaled_ratio(s: int, d: int, r: int)
    requires
        r >= 1,
        -r <= d <= r,
    ensures
        -(if s >= 0 { s } else { -s }) <= s * d / r <= (if s >= 0 { s } else { -s }),
{
    let a = if s >= 0 { s } else { -s };
    assert(-a * r <= s * d <= a * r) by (nonlinear_arith)
        requires -r <= d <= r, a >= 0, a == s || a == -s, r >= 1;
    lemma_div_bounds(s * d, r, -a, a);
}

/// Acceleration of `p` due to `q`, on both axes.
pub fn pull(p: &Circle, q: &Circle, m: &InteractionMatrix, cfg: &Config) -> (acc: (i64, i64))
    requires
        cfg.valid(),
        m.wf(),
        p.color < m.size(),
        q.color < m.size(),
        bounded_pos(*p),
        bounded_pos(*q),
    ensures
        acc.0 == pull_x(*p, *q, *m, *cfg),
        acc.1 == pull_y(*p, *q, *m, *cfg),
        -cfg.force <= acc.0 <= cfg.force,
        -cfg.force <= acc.1 <= cfg.force,
{
    let dx: i64 = q.pos[0] - p.pos[0];
    let dy: i64 = q.pos[1] - p.pos[1];
    proof {
        assert(dx * dx <= 4_000_000_000_000_000_000) by (nonlinear_arith)
            requires -2_000_000_000 <= dx <= 2_000_000_000;
        assert(dy * dy <= 4_000_000_000_000_000_000) by (nonlinear_arith)
            requires -2_000_000_000 <= dy <= 2_000_000_000;
        assert(dx * dx >= 0 && dy * dy >= 0) by (nonlinear_arith);
    }
    let d2: i64 = dx * dx + dy * dy;
    let root: u64 = isqrt(d2 as u64);
    let ghost rr = sqrt_floor(dx * dx + dy * dy);
    assert(root == rr);
    proof {
        assert(crate::fixed::is_sqrt_floor(dx * dx + dy * dy, rr));
        lemma_coord_le_root(dx as int, dy as int, rr);
        lemma_coord_le_root(dy as int, dx as int, rr);
    }
    let a = m.get(p.color, q.color);
    if root >= cfg.interaction_radius as u64 {
        proof {
            assert(response(rr, a as int, *cfg) == 0);
            assert(separation(dx as int, dy as int) == rr);
            let s = cfg.force * response(rr, a as int, *cfg) / 1000;
            assert(s == 0);
            assert(s * dx == 0);
            assert(s * dy == 0);
        }
        return (0, 0);
    }
    let r: i64 = if root < 1 { 1 } else { root as i64 };
    let resp = response_of(r, a, cfg);
    proof {
        assert(-MAX_FORCE * 1000 <= cfg.force * resp <= MAX_FORCE * 1000) by (nonlinear_arith)
            requires 0 <= cfg.force <= MAX_FORCE, -1000 <= resp <= 1000;
    }
    let s = fdiv(cfg.force * resp, 1000);
    proof {
        assert(-cfg.force * 1000 <= cfg.force * resp <= cfg.force * 1000) by (nonlinear_arith)
            requires 0 <= cfg.force, -1000 <= resp <= 1000;
        lemma_div_bounds(cfg.force * resp, 1000, -cfg.force, cfg.force as int);
        assert(-MAX_FORCE * MAX_INTERACTION_RADIUS <= s * dx <= MAX_FORCE * MAX_INTERACTION_RADIUS)
            by (nonlinear_arith)
            requires -MAX_FORCE <= s <= MAX_FORCE, -MAX_INTERACTION_RADIUS <= dx <= MAX_INTERACTION_RADIUS;
        assert(-MAX_FORCE * MAX_INTERACTION_RADIUS <= s * dy <= MAX_FORCE * MAX_INTERACTION_RADIUS)
            by (nonlinear_arith)
            requires -MAX_FORCE <= s <= MAX_FORCE, -MAX_INTERACTION_RADIUS <= dy <= MAX_INTERACTION_RADIUS;
        lemma_scaled_ratio(s as int, dx as int, r as int);
        lemma_scaled_ratio(s as int, dy as int, r as int);
    }
    (fdiv(s * dx, r), fdiv(s * dy, r))
}

/// Net acceleration of particle `i` due to particles `0 .. n` of the
/// snapshot `s`, itself left out.
pub open spec fn accel_upto(s: Seq<Circle>, i: int, n: int, m: InteractionMatrix, cfg: Config) -> (int, int)
    decreases n,
{
    if n <= 0 {
        (0, 0)
    } else {
        let prev = accel_upto(s, i, n - 1, m, cfg);
        if n - 1 == i {
            prev
        } else {
            (prev.0 + pull_x(s[i], s[n - 1], m, cfg), prev.1 + pull_y(s[i], s[n - 1], m, cfg))
        }
    }
}

/// Net acceleration of particle `i` due to every other particle of `s`.
pub open spec fn accel(s: Seq<Circle>, i: int, m: InteractionMatrix, cfg: Config) -> (int, int) {
    accel_upto(s, i, s.len() as int, m, cfg)
}

/// Largest tick, in microseconds.
pub const DT_MAX: u64 = 5000;

/// Largest magnitude of a net acceleration.
pub const MAX_ACCEL: i64 = 100_000_000_000_000;

pub open spec fn clamp(x: int, lo: int, hi: int) -> int {
    if x < lo { lo } else if x > hi { hi } else { x }
}

/// Velocity lost to damping over `dt` microseconds, rounded away from zero
/// so that any motion is damped.
pub open spec fn damping_loss(v: int, dt: int, cfg: Config) -> int {
    if v >= 0 {
        (v * cfg.damping * dt + 999_999_999) / 1_000_000_000
    } else {
        -((-v * cfg.damping * dt + 999_999_999) / 1_000_000_000)
    }
}

/// Velocity after damping and acceleration over `dt` microseconds, held to
/// the speed limit.
pub open spec fn next_vel(v: int, a: int, dt: int, cfg: Config) -> int {
    clamp(
        v - damping_loss(v, dt, cfg) + a * dt / 1_000_000,
        -cfg.max_speed as int,
        cfg.max_speed as int,
    )
}

/// Position after moving at velocity `v` for `dt` microseconds.
pub open spec fn moved(x: int, v: int, dt: int) -> int {
    x + v * dt / 1_000_000
}

/// A coordinate brought back into `[-h, h)` across the opposite edge.
pub open spec fn wrap(x: int, h: int) -> int {
    (x + h) % (2 * h) - h
}

/// Position after the boundary policy.
pub open spec fn settle_pos(x: int, cfg: Config) -> int {
    match cfg.boundary {
        Boundary::Wrap => wrap(x, cfg.half_extent as int),
        Boundary::Reflect => clamp(x, -cfg.half_extent as int, cfg.half_extent as int),
    }
}

/// Velocity after the boundary policy: reversed where a reflecting edge
/// was crossed.
pub open spec fn settle_vel(x: int, v: int, cfg: Config) -> int {
    match cfg.boundary {
        Boundary::Wrap => v,
        Boundary::Reflect => if x < -cfg.half_extent || x > cfg.half_extent { -v } else { v },
    }
}

/// Position and velocity on one axis after a tick.
pub open spec fn axis_after(x: int, v: int, a: int, dt: int, cfg: Config) -> (int, int) {
    let v1 = next_vel(v, a, dt, cfg);
    let x1 = moved(x, v1, dt);
    (settle_pos(x1, cfg), settle_vel(x1, v1, cfg))
}

/// `c` is particle `i` of the snapshot `s` after a tick of `dt`.
pub open spec fn advanced(s: Seq<Circle>, i: int, m: InteractionMatrix, cfg: Config, dt: int, c: Circle) -> bool {
    let p = s[i];
    let a = accel(s, i, m, cfg);
    &&& c.color == p.color
    &&& c.rad == p.rad
    &&& (c.pos[0] as int, c.vel[0] as int) == axis_after(p.pos[0] as int, p.vel[0] as int, a.0, dt, cfg)
    &&& (c.pos[1] as int, c.vel[1] as int) == axis_after(p.pos[1] as int, p.vel[1] as int, a.1, dt, cfg)
}

/// Every particle fits the configuration.
pub open spec fn all_fit(s: Seq<Circle>, cfg: Config) -> bool {
    forall|i: int| 0 <= i < s.len() ==> #[trigger] s[i].fits(cfg)
}

/// Net acceleration of particle `i` from the snapshot `s`.
pub fn accel_of(s: &Vec<Circle>, i: usize, m: &InteractionMatrix, cfg: &Config) -> (a: (i64, i64))
    requires
        cfg.valid(),
        m.wf(),
        m.size() == cfg.colors,
        s@.len() <= MAX_PARTICLES,
        i < s@.len(),
        all_fit(s@, *cfg),
    ensures
        (a.0 as int, a.1 as int) == accel(s@, i as int, *m, *cfg),
        -MAX_ACCEL <= a.0 <= MAX_ACCEL,
        -MAX_ACCEL <= a.1 <= MAX_ACCEL,
{
    let mut ax: i64 = 0;
    let mut ay: i64 = 0;
    let mut j: usize = 0;
    let ghost f = cfg.force as int;
    assert(s@[i as int].fits(*cfg));
    while j < s.len()
        invariant
            cfg.valid(),
            m.wf(),
            m.size() == cfg.colors,
            s@.len() <= MAX_PARTICLES,
            i < s@.len(),
            all_fit(s@, *cfg),
            j <= s@.len(),
            f == cfg.force,
            s@[i as int].fits(*cfg),
            (ax as int, ay as int) == accel_upto(s@, i as int, j as int, *m, *cfg),
            -(j as int * f) <= ax <= j as int * f,
            -(j as int * f) <= ay <= j as int * f,
        decreases s@.len() - j,
    {
        proof {
            let ji = j as int;
            assert((ji + 1) * f == ji * f + f) by (nonlinear_arith);
            assert((ji + 1) * f <= MAX_ACCEL) by (nonlinear_arith)
                requires ji + 1 <= MAX_PARTICLES, 0 <= f <= MAX_FORCE;
            assert(ji * f >= 0) by (nonlinear_arith)
                requires ji >= 0, f >= 0;
        }
        if j != i {
            assert(s@[j as int].fits(*cfg));
            let p = pull(&s[i], &s[j], m, cfg);
            ax = ax + p.0;
            ay = ay + p.1;
        }
        j = j + 1;
    }
    proof {
        let ji = j as int;
        assert(ji * f <= MAX_ACCEL) by (nonlinear_arith)
            requires ji <= MAX_PARTICLES, 0 <= f <= MAX_FORCE;
    }
    (ax, ay)
}

proof fn lemma_floor_small(x: int, d: int, bound: int)
    requires
        d > 0,
        -bound * d <= x <= bound * d,
    ensures
        -bound <= x / d <= bound,
{
    lemma_div_bounds(x, d, -bound, bound);
}

/// Position and velocity on one axis after a tick.
pub fn advance_axis(x: i64, v: i64, a: i64, dt: u64, cfg: &Config) -> (r: (i64, i64))
    requires
        cfg.valid(),
        in_domain(x as int, *cfg),
        -cfg.max_speed <= v <= cfg.max_speed,
        -MAX_ACCEL <= a <= MAX_ACCEL,
        dt <= DT_MAX,
    ensures
        (r.0 as int, r.1 as int) == axis_after(x as int, v as int, a as int, dt as int, *cfg),
        in_domain(r.0 as int, *cfg),
        -cfg.max_speed <= r.1 <= cfg.max_speed,
{
    let t: i64 = dt as i64;
    let vmax = cfg.max_speed;
    let h = cfg.half_extent;
    let mag: i64 = if v >= 0 { v } else { -v };
    proof {
        assert(0 <= mag * cfg.damping * t <= 500_000_000_000_000_000) by (nonlinear_arith)
            requires 0 <= mag <= 1_000_000_000, 0 <= cfg.damping <= 100_000, 0 <= t <= 5000;
        assert(0 <= mag * cfg.damping <= 1_000_000_000 * 100_000) by (nonlinear_arith)
            requires 0 <= mag <= 1_000_000_000, 0 <= cfg.damping <= 100_000;
        assert(-500_000_000_000_000_000 <= a * t <= 500_000_000_000_000_000) by (nonlinear_arith)
            requires -MAX_ACCEL <= a <= MAX_ACCEL, 0 <= t <= 5000;
        lemma_floor_small(mag * cfg.damping * t + 999_999_999, 1_000_000_000, 500_000_001);
        lemma_floor_small(a * t, 1_000_000, 500_000_000_000);
    }
    let lost = fdiv(mag * cfg.damping * t + 999_999_999, 1_000_000_000);
    let loss: i64 = if v >= 0 { lost } else { -lost };
    let gain = fdiv(a * t, 1_000_000);
    let raw: i64 = v - loss + gain;
    let v1: i64 = if raw < -vmax { -vmax } else if raw > vmax { vmax } else { raw };
    proof {
        assert(-5_000_000_000_000 <= v1 * t <= 5_000_000_000_000) by (nonlinear_arith)
            requires -1_000_000_000 <= v1 <= 1_000_000_000, 0 <= t <= 5000;
        lemma_floor_small(v1 * t, 1_000_000, 5_000_000);
    }
    let x1: i64 = x + fdiv(v1 * t, 1_000_000);
    match cfg.boundary {
        Boundary::Wrap => {
            proof {
                vstd::arithmetic::div_mod::lemma_mod_bound((x1 + h) as int, 2 * h);
            }
            let w: i64 = match (x1 + h).checked_rem_euclid(2 * h) {
                Some(w) => w,
                None => 0,
            };
            (w - h, v1)
        },
        Boundary::Reflect => {
            if x1 > h {
                (h, -v1)
            } else if x1 < -h {
                (-h, -v1)
            } else {
                (x1, v1)
            }
        },
    }
}

/// Boundary policy: after a tick a coordinate is back in the domain.
/// Under `Wrap` a particle that crossed an edge (by less than a domain's
/// width) reappears that far inside the opposite edge and keeps its
/// velocity; under `Reflect` it stops at the edge it crossed and its
/// velocity component is reversed.
pub proof fn lemma_boundary_policy(x: int, v: int, a: int, dt: int, cfg: Config)
    requires
        cfg.valid(),
        in_domain(x, cfg),
        -cfg.max_speed <= v <= cfg.max_speed,
        0 <= dt <= DT_MAX,
    ensures
        ({
            let h = cfg.half_extent as int;
            let v1 = next_vel(v, a, dt, cfg);
            let x1 = moved(x, v1, dt);
            let r = axis_after(x, v, a, dt, cfg);
            &&& in_domain(r.0, cfg)
            &&& -cfg.max_speed <= r.1 <= cfg.max_speed
            &&& cfg.boundary == Boundary::Wrap ==> {
                &&& r.1 == v1
                &&& (h <= x1 < 3 * h ==> r.0 == x1 - 2 * h)
                &&& (-3 * h <= x1 < -h ==> r.0 == x1 + 2 * h)
                &&& (-h <= x1 < h ==> r.0 == x1)
            }
            &&& cfg.boundary == Boundary::Reflect ==> {
                &&& (x1 > h ==> r == (h, -v1))
                &&& (x1 < -h ==> r == (-h, -v1))
                &&& (-h <= x1 <= h ==> r == (x1, v1))
            }
        }),
{
    let h = cfg.half_extent as int;
    let v1 = next_vel(v, a, dt, cfg);
    let x1 = moved(x, v1, dt);
    match cfg.boundary {
        Boundary::Wrap => {
            vstd::arithmetic::div_mod::lemma_mod_bound(x1 + h, 2 * h);
            if h <= x1 < 3 * h {
                vstd::arithmetic::div_mod::lemma_fundamental_div_mod_converse(x1 + h, 2 * h, 1, x1 - h);
            }
            if -3 * h <= x1 < -h {
                vstd::arithmetic::div_mod::lemma_fundamental_div_mod_converse(x1 + h, 2 * h, -1, x1 + 3 * h);
            }
            if -h <= x1 < h {
                vstd::arithmetic::div_mod::lemma_fundamental_div_mod_converse(x1 + h, 2 * h, 0, x1 + h);
            }
        },
        Boundary::Reflect => {},
    }
}

proof fn lemma_quot_below(x: int, d: int, k: int)
    requires
        d > 0,
        x < k * d,
    ensures
        x / d < k,
{
    let q = x / d;
    let r = x % d;
    vstd::arithmetic::div_mod::lemma_fundamental_div_mod(x, d);
    vstd::arithmetic::div_mod::lemma_mod_bound(x, d);
    assert(q < k) by (nonlinear_arith)
        requires x == d * q + r, 0 <= r, x < k * d, d > 0;
}

proof fn lemma_response_repels(r: int, a: int, cfg: Config)
    requires
        cfg.valid(),
        1 <= r < cfg.interaction_radius,
        r != cfg.repulsion_radius,
        r < cfg.repulsion_radius || a < 0,
    ensures
        response(r, a, cfg) <= -1,
{
    let big = cfg.interaction_radius as int;
    let b = cfg.repulsion_radius as int;
    if r < b {
        assert(r * 1000 < 1000 * b) by (nonlinear_arith)
            requires r < b;
        lemma_quot_below(r * 1000, b, 1000);
    } else {
        let off = if 2 * r - big - b >= 0 { 2 * r - big - b } else { big + b - 2 * r };
        assert(off * 1000 < 1000 * (big - b)) by (nonlinear_arith)
            requires 0 <= off < big - b;
        lemma_quot_below(off * 1000, big - b, 1000);
        vstd::arithmetic::div_mod::lemma_div_pos_is_pos(off * 1000, big - b);
        let tent = 1000 - off * 1000 / (big - b);
        assert(a * tent <= -1) by (nonlinear_arith)
            requires a <= -1, tent >= 1;
        lemma_quot_below(a * tent, 1000, 0);
    }
}

/// A tick's move along one axis, from rest, under an acceleration `a`,
/// well inside the domain: the new position and whether it moved down or up.
proof fn lemma_rest_axis(x: int, a: int, dt: int, cfg: Config)
    requires
        cfg.valid(),
        cfg.max_speed >= 1,
        1 <= dt <= DT_MAX,
        -cfg.half_extent + cfg.max_speed <= x < cfg.half_extent - cfg.max_speed,
    ensures
        ({
            let r = axis_after(x, 0, a, dt, cfg);
            &&& x - cfg.max_speed <= r.0 <= x + cfg.max_speed
            &&& a <= -1 ==> r.0 <= x - 1
            &&& a >= 0 ==> r.0 >= x
            &&& a == 0 ==> r.0 == x
        }),
{
    let vmax = cfg.max_speed as int;
    let h = cfg.half_extent as int;
    assert(0int * cfg.damping * dt == 0);
    let v1 = next_vel(0, a, dt, cfg);
    if a <= -1 {
        assert(a * dt < 0 * 1_000_000) by (nonlinear_arith)
            requires a <= -1, dt >= 1;
        lemma_quot_below(a * dt, 1_000_000, 0);
    }
    if a >= 0 {
        assert(a * dt >= 0) by (nonlinear_arith)
            requires a >= 0, dt >= 1;
        vstd::arithmetic::div_mod::lemma_div_pos_is_pos(a * dt, 1_000_000);
    }
    if a == 0 {
        assert(a * dt == 0);
    }
    assert(-vmax * 1_000_000 <= v1 * dt <= vmax * 1_000_000) by (nonlinear_arith)
        requires -vmax <= v1 <= vmax, 1 <= dt <= 5000, vmax >= 1;
    lemma_div_bounds(v1 * dt, 1_000_000, -vmax, vmax);
    if v1 <= -1 {
        assert(v1 * dt < 0 * 1_000_000) by (nonlinear_arith)
            requires v1 <= -1, dt >= 1;
        lemma_quot_below(v1 * dt, 1_000_000, 0);
    }
    if v1 >= 0 {
        assert(v1 * dt >= 0) by (nonlinear_arith)
            requires v1 >= 0, dt >= 1;
        vstd::arithmetic::div_mod::lemma_div_pos_is_pos(v1 * dt, 1_000_000);
    }
    if v1 == 0 {
        assert(v1 * dt == 0);
    }
    let x1 = moved(x, v1, dt);
    vstd::arithmetic::div_mod::lemma_fundamental_div_mod_converse(x1 + h, 2 * h, 0, x1 + h);
}

/// Two particles at rest on a horizontal line, closer than the interaction
/// radius (and not exactly at the repulsion radius), whose coefficients
/// toward each other are both negative and which are well inside the
/// domain, are farther apart after one tick of positive length: each moves
/// away from the other or stays, at least one of them moves, and neither
/// leaves the line.
pub proof fn lemma_repelling_pair_separates(
    p: Circle,
    q: Circle,
    m: InteractionMatrix,
    cfg: Config,
    dt: int,
    p2: Circle,
    q2: Circle,
)
    requires
        cfg.valid(),
        m.wf(),
        m.size() == cfg.colors,
        p.fits(cfg),
        q.fits(cfg),
        cfg.force >= 1,
        cfg.max_speed >= 1,
        1 <= dt <= DT_MAX,
        p.vel[0] == 0 && p.vel[1] == 0,
        q.vel[0] == 0 && q.vel[1] == 0,
        p.pos[1] == q.pos[1],
        p.pos[0] < q.pos[0],
        q.pos[0] - p.pos[0] < cfg.interaction_radius,
        q.pos[0] - p.pos[0] != cfg.repulsion_radius,
        m.coef(p.color as int, q.color as int) < 0,
        m.coef(q.color as int, p.color as int) < 0,
        -cfg.half_extent + cfg.max_speed <= p.pos[0],
        q.pos[0] < cfg.half_extent - cfg.max_speed,
        -cfg.half_extent + cfg.max_speed <= p.pos[1] < cfg.half_extent - cfg.max_speed,
        advanced(seq![p, q], 0, m, cfg, dt, p2),
        advanced(seq![p, q], 1, m, cfg, dt, q2),
    ensures
        q2.pos[0] - p2.pos[0] > q.pos[0] - p.pos[0],
        p2.pos[1] == p.pos[1],
        q2.pos[1] == q.pos[1],
{
    let s = seq![p, q];
    let d = q.pos[0] - p.pos[0];
    let f = cfg.force as int;
    // Both see each other at distance `d`.
    assert(d * d + 0 * 0 == d * d);
    assert((-d) * (-d) + 0 * 0 == d * d) by (nonlinear_arith);
    assert(d * d < (d + 1) * (d + 1)) by (nonlinear_arith)
        requires d >= 1;
    crate::fixed::lemma_sqrt_floor(d * d, d);
    assert(separation(d, 0) == d);
    assert(separation(-d, 0) == d);
    // Both responses repel.
    let a_pq = m.coef(p.color as int, q.color as int);
    let a_qp = m.coef(q.color as int, p.color as int);
    lemma_response_repels(d, a_pq, cfg);
    lemma_response_repels(d, a_qp, cfg);
    let s_pq = f * response(d, a_pq, cfg) / 1000;
    let s_qp = f * response(d, a_qp, cfg) / 1000;
    assert(f * response(d, a_pq, cfg) < 0 * 1000) by (nonlinear_arith)
        requires f >= 1, response(d, a_pq, cfg) <= -1;
    assert(f * response(d, a_qp, cfg) < 0 * 1000) by (nonlinear_arith)
        requires f >= 1, response(d, a_qp, cfg) <= -1;
    lemma_quot_below(f * response(d, a_pq, cfg), 1000, 0);
    lemma_quot_below(f * response(d, a_qp, cfg), 1000, 0);
    // Pulls along the line and across it.
    assert(s_pq * d == d * s_pq) by (nonlinear_arith);
    vstd::arithmetic::div_mod::lemma_div_multiples_vanish(s_pq, d);
    assert(s_qp * (-d) == d * (-s_qp)) by (nonlinear_arith);
    vstd::arithmetic::div_mod::lemma_div_multiples_vanish(-s_qp, d);
    assert(s_pq * 0 == 0 && s_qp * 0 == 0);
    assert(pull_x(p, q, m, cfg) == s_pq);
    assert(pull_y(p, q, m, cfg) == 0);
    assert(pull_x(q, p, m, cfg) == -s_qp);
    assert(pull_y(q, p, m, cfg) == 0);
    // Net accelerations of the pair.
    assert(s[0] == p && s[1] == q);
    assert(accel_upto(s, 0, 0, m, cfg) == (0int, 0int));
    assert(accel_upto(s, 0, 1, m, cfg) == accel_upto(s, 0, 0, m, cfg));
    assert(accel_upto(s, 1, 0, m, cfg) == (0int, 0int));
    assert(accel(s, 0, m, cfg) == (s_pq, 0int));
    assert(accel_upto(s, 1, 1, m, cfg) == (-s_qp, 0int));
    assert(accel(s, 1, m, cfg) == (-s_qp, 0int));
    // Each axis from rest.
    lemma_rest_axis(p.pos[0] as int, s_pq, dt, cfg);
    lemma_rest_axis(q.pos[0] as int, -s_qp, dt, cfg);
    lemma_rest_axis(p.pos[1] as int, 0, dt, cfg);
}

/// Two particles at rest on a horizontal line whose pulls toward each other
/// are strong enough to survive rounding (`force * response >= 1000`), which
/// are well inside the domain and farther apart than twice the speed limit,
/// are closer after one tick of positive length, without crossing, and
/// neither leaves the line.
pub proof fn lemma_attracting_pair_closes(
    p: Circle,
    q: Circle,
    m: InteractionMatrix,
    cfg: Config,
    dt: int,
    p2: Circle,
    q2: Circle,
)
    requires
        cfg.valid(),
        m.wf(),
        m.size() == cfg.colors,
        p.fits(cfg),
        q.fits(cfg),
        cfg.max_speed >= 1,
        1 <= dt <= DT_MAX,
        p.vel[0] == 0 && p.vel[1] == 0,
        q.vel[0] == 0 && q.vel[1] == 0,
        p.pos[1] == q.pos[1],
        2 * cfg.max_speed < q.pos[0] - p.pos[0],
        cfg.force * response(q.pos[0] - p.pos[0], m.coef(p.color as int, q.color as int), cfg) >= 1000,
        cfg.force * response(q.pos[0] - p.pos[0], m.coef(q.color as int, p.color as int), cfg) >= 1000,
        -cfg.half_extent + cfg.max_speed <= p.pos[0],
        q.pos[0] < cfg.half_extent - cfg.max_speed,
        -cfg.half_extent + cfg.max_speed <= p.pos[1] < cfg.half_extent - cfg.max_speed,
        advanced(seq![p, q], 0, m, cfg, dt, p2),
        advanced(seq![p, q], 1, m, cfg, dt, q2),
    ensures
        0 < q2.pos[0] - p2.pos[0] < q.pos[0] - p.pos[0],
        p2.pos[1] == p.pos[1],
        q2.pos[1] == q.pos[1],
{
    let s = seq![p, q];
    let d = q.pos[0] - p.pos[0];
    let f = cfg.force as int;
    assert(d * d + 0 * 0 == d * d);
    assert((-d) * (-d) + 0 * 0 == d * d) by (nonlinear_arith);
    assert(d * d < (d + 1) * (d + 1)) by (nonlinear_arith)
        requires d >= 1;
    crate::fixed::lemma_sqrt_floor(d * d, d);
    assert(separation(d, 0) == d);
    assert(separation(-d, 0) == d);
    let a_pq = m.coef(p.color as int, q.color as int);
    let a_qp = m.coef(q.color as int, p.color as int);
    let s_pq = f * response(d, a_pq, cfg) / 1000;
    let s_qp = f * response(d, a_qp, cfg) / 1000;
    vstd::arithmetic::div_mod::lemma_div_is_ordered(1000, f * response(d, a_pq, cfg), 1000);
    vstd::arithmetic::div_mod::lemma_div_is_ordered(1000, f * response(d, a_qp, cfg), 1000);
    assert(1000int / 1000 == 1);
    assert(s_pq * d == d * s_pq) by (nonlinear_arith);
    vstd::arithmetic::div_mod::lemma_div_multiples_vanish(s_pq, d);
    assert(s_qp * (-d) == d * (-s_qp)) by (nonlinear_arith);
    vstd::arithmetic::div_mod::lemma_div_multiples_vanish(-s_qp, d);
    assert(s_pq * 0 == 0 && s_qp * 0 == 0);
    assert(pull_x(p, q, m, cfg) == s_pq);
    assert(pull_y(p, q, m, cfg) == 0);
    assert(pull_x(q, p, m, cfg) == -s_qp);
    assert(pull_y(q, p, m, cfg) == 0);
    assert(s[0] == p && s[1] == q);
    assert(accel_upto(s, 0, 0, m, cfg) == (0int, 0int));
    assert(accel_upto(s, 0, 1, m, cfg) == accel_upto(s, 0, 0, m, cfg));
    assert(accel_upto(s, 1, 0, m, cfg) == (0int, 0int));
    assert(accel(s, 0, m, cfg) == (s_pq, 0int));
    assert(accel_upto(s, 1, 1, m, cfg) == (-s_qp, 0int));
    assert(accel(s, 1, m, cfg) == (-s_qp, 0int));
    lemma_rest_axis(p.pos[0] as int, s_pq, dt, cfg);
    lemma_rest_axis(q.pos[0] as int, -s_qp, dt, cfg);
    lemma_rest_axis(p.pos[1] as int, 0, dt, cfg);
}

/// Damping: with no acceleration and a tick of positive length, a moving
/// particle's velocity strictly shrinks toward zero without reversing; and
/// where the move stays inside the domain, the particle moves by exactly its
/// new velocity over the tick.
pub proof fn lemma_damping_dissipates(x: int, v: int, dt: int, cfg: Config)
    requires
        cfg.valid(),
        in_domain(x, cfg),
        -cfg.max_speed <= v <= cfg.max_speed,
        v != 0,
        1 <= dt <= DT_MAX,
    ensures
        ({
            let v1 = next_vel(v, 0, dt, cfg);
            let x1 = moved(x, v1, dt);
            &&& (v > 0 ==> 0 <= v1 < v)
            &&& (v < 0 ==> v < v1 <= 0)
            &&& (in_domain(x1, cfg) ==> axis_after(x, v, 0, dt, cfg) == (x1, v1))
        }),
{
    let d = cfg.damping as int;
    let mag = if v >= 0 { v } else { -v };
    let n = mag * d * dt;
    assert(1 <= n <= mag * 500_000_000) by (nonlinear_arith)
        requires n == mag * d * dt, 1 <= mag, 1 <= d <= 100_000, 1 <= dt <= 5000;
    assert(-v * d * dt == n || v * d * dt == n) by (nonlinear_arith)
        requires mag == v || mag == -v, n == mag * d * dt;
    if v >= 0 {
        assert(v * d * dt == n) by (nonlinear_arith)
            requires mag == v, n == mag * d * dt;
    } else {
        assert(-v * d * dt == n) by (nonlinear_arith)
            requires mag == -v, n == mag * d * dt;
    }
    lemma_div_bounds(n + 999_999_999, 1_000_000_000, 1, n + 999_999_999);
    lemma_quot_below(n + 999_999_999, 1_000_000_000, mag + 1);
    assert(0int * dt == 0);
    let v1 = next_vel(v, 0, dt, cfg);
    let x1 = moved(x, v1, dt);
    let h = cfg.half_extent as int;
    if in_domain(x1, cfg) && cfg.boundary == Boundary::Wrap {
        vstd::arithmetic::div_mod::lemma_fundamental_div_mod_converse(x1 + h, 2 * h, 0, x1 + h);
    }
}

/// One tick of the whole population, read from the snapshot `s` and
/// written to a fresh buffer: no particle sees another's new state.
pub fn step(s: &Vec<Circle>, m: &InteractionMatrix, cfg: &Config, dt: u64) -> (out: Vec<Circle>)
    requires
        cfg.valid(),
        m.wf(),
        m.size() == cfg.colors,
        s@.len() <= MAX_PARTICLES,
        all_fit(s@, *cfg),
        dt <= DT_MAX,
    ensures
        out@.len() == s@.len(),
        forall|i: int| 0 <= i < s@.len() ==> advanced(s@, i, *m, *cfg, dt as int, #[trigger] out@[i]),
        all_fit(out@, *cfg),
{
    let mut out: Vec<Circle> = Vec::new();
    let mut i: usize = 0;
    while i < s.len()
        invariant
            cfg.valid(),
            m.wf(),
            m.size() == cfg.colors,
            s@.len() <= MAX_PARTICLES,
            all_fit(s@, *cfg),
            dt <= DT_MAX,
            i <= s@.len(),
            out@.len() == i,
            forall|k: int| 0 <= k < i ==> advanced(s@, k, *m, *cfg, dt as int, #[trigger] out@[k]),
            all_fit(out@, *cfg),
        decreases s@.len() - i,
    {
        let p = s[i];
        assert(s@[i as int].fits(*cfg));
        let a = accel_of(s, i, m, cfg);
        let (x, vx) = advance_axis(p.pos[0], p.vel[0], a.0, dt, cfg);
        let (y, vy) = advance_axis(p.pos[1], p.vel[1], a.1, dt, cfg);
        let c = Circle { color: p.color, rad: p.rad, pos: [x, y], vel: [vx, vy] };
        out.push(c);
        i = i + 1;
    }
    out
}

} // verus!
