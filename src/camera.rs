//! The camera: maps world coordinates to presentation coordinates.
use vstd::prelude::*;
use crate::fixed::{fdiv, lemma_div_bounds};
use crate::physics::DT_MAX;

verus! {

/// Fixed-point one for scales and transform entries.
pub const ONE: i64 = 1_000_000;
/// Smallest zoom scale.
pub const MIN_SCALE: i64 = 1_000;
/// Largest zoom scale.
pub const MAX_SCALE: i64 = ONE;
/// Largest distance of the focus point from the origin, per axis.
pub const MAX_PAN: i64 = 1_000_000_000_000;
/// Panning speed, in micro-units per second.
pub const MOVE_SPEED: i64 = 20_000_000;
/// Zooming rate, in scale per scale per second.
pub const ZOOM_SPEED: i64 = 2;
/// Initial zoom: the scale starts at `ONE / ZOOM`.
pub const ZOOM: i64 = 20;

/// Which camera controls are held during a frame.
#[derive(Clone, Copy, Debug, PartialEq, Eq, Structural)]
pub struct Steer {
    pub up: bool,
    pub down: bool,
    pub left: bool,
    pub right: bool,
    pub zoom_in: bool,
    pub zoom_out: bool,
}

/// A focus point in micro-units and a scale in millionths of a
/// presentation unit per world unit.
#[derive(Clone, Copy, Debug, PartialEq, Eq)]
pub struct Camera {
    pub pos: [i64; 2],
    pub scale: i64,
}

pub open spec fn clamp_to(x: int, lo: int, hi: int) -> int {
    if x < lo { lo } else if x > hi { hi } else { x }
}

/// Distance panned over `dt` microseconds.
pub open spec fn pan_step(dt: int) -> int {
    MOVE_SPEED * dt / 1_000_000
}

/// Scale after one zoom factor of `sign` over `dt` microseconds, before
/// any clamping: `scale * (1 + sign * ZOOM_SPEED * dt)`, rounded down.
pub open spec fn zoomed(scale: int, sign: int, dt: int) -> int {
    scale + sign * (scale * ZOOM_SPEED * dt / 1_000_000)
}

/// Entry `(row, col)` of the transform of a camera at focus `(tx, ty)` and
/// scale `s`, in fixed point: scale on the diagonal and the focus as the
/// translation in the last row, so that a point `w` maps to `s * w + t`.
pub open spec fn transform_entry(tx: int, ty: int, s: int, row: int, col: int) -> int {
    if row == col {
        if row < 2 { s } else { ONE as int }
    } else if row == 3 && col == 0 {
        tx
    } else if row == 3 && col == 1 {
        ty
    } else {
        0
    }
}

impl Camera {
    /// Scale within its range and focus within reach.
    pub open spec fn wf(&self) -> bool {
        &&& MIN_SCALE <= self.scale <= MAX_SCALE
        &&& -MAX_PAN <= self.pos[0] <= MAX_PAN
        &&& -MAX_PAN <= self.pos[1] <= MAX_PAN
    }

    /// Focus after a frame of `steer` over `dt` microseconds, x axis.
    pub open spec fn steered_x(&self, steer: Steer, dt: int) -> int {
        let d = if steer.left { pan_step(dt) } else { 0 } - if steer.right { pan_step(dt) } else { 0 };
        clamp_to(self.pos[0] + d, -MAX_PAN as int, MAX_PAN as int)
    }

    /// Focus after a frame of `steer` over `dt` microseconds, y axis.
    pub open spec fn steered_y(&self, steer: Steer, dt: int) -> int {
        let d = if steer.down { pan_step(dt) } else { 0 } - if steer.up { pan_step(dt) } else { 0 };
        clamp_to(self.pos[1] + d, -MAX_PAN as int, MAX_PAN as int)
    }

    /// Scale after a frame of `steer` over `dt` microseconds: the zoom-in
    /// factor, then the zoom-out factor, each proportional to the scale it
    /// applies to, and then a single clamp to `[MIN_SCALE, MAX_SCALE]`.
    pub open spec fn steered_scale(&self, steer: Steer, dt: int) -> int {
        let s1 = if steer.zoom_in { zoomed(self.scale as int, 1, dt) } else { self.scale as int };
        let s2 = if steer.zoom_out { zoomed(s1, -1, dt) } else { s1 };
        clamp_to(s2, MIN_SCALE as int, MAX_SCALE as int)
    }

    /// Centered on the origin at the initial zoom.
    pub fn new() -> (c: Camera)
        ensures
            c.wf(),
            c.pos[0] == 0,
            c.pos[1] == 0,
            c.scale == ONE / ZOOM,
    {
        Camera { pos: [0, 0], scale: ONE / ZOOM }
    }

    /// The 4x4 presentation transform, row by row, in fixed point.
    pub fn transform(&self) -> (m: [[i64; 4]; 4])
        requires
            self.wf(),
        ensures
            forall|row: int, col: int| 0 <= row < 4 && 0 <= col < 4 ==>
                #[trigger] m[row][col] == transform_entry(self.pos[0] as int, self.pos[1] as int, self.scale as int, row, col),
    {
        let s = self.scale;
        let tx = self.pos[0];
        let ty = self.pos[1];
        let m = [[s, 0, 0, 0], [0, s, 0, 0], [0, 0, ONE, 0], [tx, ty, 0, ONE]];
        assert(m[0][0] == s && m[1][1] == s && m[3][0] == tx && m[3][1] == ty);
        m
    }

    /// Presentation coordinates of a world point: the scale times the point,
    /// plus the focus.
    pub fn present(&self, w: [i64; 2]) -> (p: [i64; 2])
        requires
            self.wf(),
            -MAX_PAN <= w[0] <= MAX_PAN,
            -MAX_PAN <= w[1] <= MAX_PAN,
        ensures
            p[0] == w[0] * self.scale / ONE as int + self.pos[0],
            p[1] == w[1] * self.scale / ONE as int + self.pos[1],
    {
        let s = self.scale;
        proof {
            assert(-MAX_PAN * MAX_SCALE <= w[0] * s <= MAX_PAN * MAX_SCALE) by (nonlinear_arith)
                requires -MAX_PAN <= w[0] <= MAX_PAN, 0 <= s <= MAX_SCALE;
            assert(-MAX_PAN * MAX_SCALE <= w[1] * s <= MAX_PAN * MAX_SCALE) by (nonlinear_arith)
                requires -MAX_PAN <= w[1] <= MAX_PAN, 0 <= s <= MAX_SCALE;
            lemma_div_bounds(w[0] * s, ONE as int, -MAX_PAN as int, MAX_PAN as int);
            lemma_div_bounds(w[1] * s, ONE as int, -MAX_PAN as int, MAX_PAN as int);
        }
        [fdiv(w[0] * s, ONE) + self.pos[0], fdiv(w[1] * s, ONE) + self.pos[1]]
    }

    fn zoom(scale: i64, sign: i64, dt: u64) -> (r: i64)
        requires
            0 <= scale <= 2 * MAX_SCALE,
            sign == 1 || sign == -1,
            dt <= DT_MAX,
        ensures
            r == zoomed(scale as int, sign as int, dt as int),
            sign == 1 ==> scale <= r <= scale + scale / 100,
            sign == -1 ==> scale - scale / 100 <= r <= scale,
    {
        let t = dt as i64;
        proof {
            assert(0 <= scale * ZOOM_SPEED * t <= scale * 10_000) by (nonlinear_arith)
                requires 0 <= scale, 0 <= t <= 5000;
            assert(scale * 10_000 <= 2 * MAX_SCALE * 10_000) by (nonlinear_arith)
                requires 0 <= scale <= 2 * MAX_SCALE;
            vstd::arithmetic::div_mod::lemma_div_pos_is_pos(scale * ZOOM_SPEED * t, 1_000_000);
            vstd::arithmetic::div_mod::lemma_div_is_ordered(scale * ZOOM_SPEED * t, scale * 10_000, 1_000_000);
            vstd::arithmetic::div_mod::lemma_div_is_ordered(scale * 10_000, scale * 10_000, 1_000_000);
            assert(scale * 10_000 / 1_000_000 == scale / 100) by {
                vstd::arithmetic::div_mod::lemma_div_denominator(scale * 10_000, 10_000, 100);
                vstd::arithmetic::div_mod::lemma_div_multiples_vanish(scale as int, 10_000);
                assert(scale * 10_000 == 10_000 * scale) by (nonlinear_arith);
                assert(10_000int * 100 == 1_000_000);
            }
        }
        let change = fdiv(scale * ZOOM_SPEED * t, 1_000_000);
        scale + sign * change
    }

    /// Pans and zooms by the held controls over `dt` microseconds, so that
    /// movement does not depend on the frame rate.
    pub fn steer(&mut self, steer: Steer, dt: u64)
        requires
            old(self).wf(),
            dt <= DT_MAX,
        ensures
            final(self).wf(),
            final(self).pos[0] == old(self).steered_x(steer, dt as int),
            final(self).pos[1] == old(self).steered_y(steer, dt as int),
            final(self).scale == old(self).steered_scale(steer, dt as int),
    {
        let t = dt as i64;
        proof {
            lemma_div_bounds(MOVE_SPEED * t, 1_000_000, 0, MOVE_SPEED as int);
        }
        let step = fdiv(MOVE_SPEED * t, 1_000_000);
        let dx: i64 = if steer.left { step } else { 0 } - if steer.right { step } else { 0 };
        let dy: i64 = if steer.down { step } else { 0 } - if steer.up { step } else { 0 };
        let x: i64 = self.pos[0] + dx;
        let y: i64 = self.pos[1] + dy;
        let x = if x < -MAX_PAN { -MAX_PAN } else if x > MAX_PAN { MAX_PAN } else { x };
        let y = if y < -MAX_PAN { -MAX_PAN } else if y > MAX_PAN { MAX_PAN } else { y };
        let s1 = if steer.zoom_in { Self::zoom(self.scale, 1, dt) } else { self.scale };
        let s2 = if steer.zoom_out { Self::zoom(s1, -1, dt) } else { s1 };
        let s3 = if s2 < MIN_SCALE { MIN_SCALE } else if s2 > MAX_SCALE { MAX_SCALE } else { s2 };
        self.pos = [x, y];
        self.scale = s3;
    }
}

} // verus!
