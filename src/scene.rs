use vstd::prelude::*;

use crate::color::{bt709, bt709_matrix, rgb_to_yuv, transform, RGB, YCbCr};
use crate::grid::{frame_cells, frame_shape, Frame};

verus! {

/// Fixed-point scale of positions and of the radius: `POSITION_ONE` stands
/// for 1.0, the far edge of the unit square.
pub const POSITION_ONE: i64 = 100_000_000;

/// Fixed-point scale of velocities and of the time step. A velocity times a
/// time step is a displacement in units of `1 / POSITION_ONE`.
pub const RATE_ONE: i64 = 10_000;

/// Largest number of cells of a frame, and largest width or height; it keeps
/// the exact distance test within `i128`.
pub const MAX_CELLS: usize = 1_073_741_824;

/// A pair of fixed-point numbers.
#[derive(Clone, Copy, Debug, PartialEq, Eq, Structural)]
pub struct Vec2 {
    pub x: i64,
    pub y: i64,
}

/// A disc moving inside the unit square and bouncing off its edges, drawn over
/// a background once per step.
///
/// `position` and `radius` are in units of `1 / POSITION_ONE`; `velocity` and
/// `delta_t` in units of `1 / RATE_ONE`; colours as in `RGB`. Nothing here
/// resets a frame sequence: each call of `next` moves the disc on.
pub struct FrameIterator {
    pub width: usize,
    pub height: usize,
    pub position: Vec2,
    pub velocity: Vec2,
    pub circle_color: RGB,
    pub background: RGB,
    pub radius: i64,
    pub delta_t: i64,
}

/// `v` clamped into `[0, POSITION_ONE]`.
pub open spec fn clamp_unit(v: int) -> int {
    if v < 0 {
        0
    } else if v > POSITION_ONE {
        POSITION_ONE as int
    } else {
        v
    }
}

/// One axis of a step: the coordinate moved by `dt * v`; the velocity negated
/// when the moved coordinate is at or beyond either edge; the coordinate then
/// clamped into the unit range. Yields `(coordinate, velocity)`.
pub open spec fn axis_step(p: int, v: int, dt: int) -> (int, int) {
    let moved = p + dt * v;
    let v2 = if moved <= 0 || moved >= POSITION_ONE { -v } else { v };
    (clamp_unit(moved), v2)
}

/// The state after one step: position and velocity move on, each axis on its
/// own; everything else is kept.
pub open spec fn stepped(s: FrameIterator) -> FrameIterator {
    let (px, vx) = axis_step(s.position.x as int, s.velocity.x as int, s.delta_t as int);
    let (py, vy) = axis_step(s.position.y as int, s.velocity.y as int, s.delta_t as int);
    FrameIterator {
        position: Vec2 { x: px as i64, y: py as i64 },
        velocity: Vec2 { x: vx as i64, y: vy as i64 },
        ..s
    }
}

/// The state after `n` steps.
pub open spec fn state_after(s: FrameIterator, n: nat) -> FrameIterator
    decreases n,
{
    if n == 0 {
        s
    } else {
        stepped(state_after(s, (n - 1) as nat))
    }
}

pub open spec fn sq(v: int) -> int {
    v * v
}

/// Whether cell `(row, col)` of a `height` x `width` grid lies on the disc.
/// The cell's point is `(row / height, col / width)`, compared with the disc's
/// centre `pos` (row against `pos.x`, column against `pos.y`); it is on the
/// disc when its distance from the centre is at most the radius, the edge
/// included, and never when the radius is negative. The squared distance and
/// the squared radius are both scaled by `(height * width * POSITION_ONE)^2`,
/// which keeps the comparison exact in integers.
pub open spec fn in_disc(row: int, col: int, height: int, width: int, pos: Vec2, radius: int) -> bool {
    radius >= 0 && sq((row * POSITION_ONE - pos.x * height) * width) + sq((col * POSITION_ONE - pos.y * width) * height)
        <= sq(radius * height * width)
}

/// The sample of cell `(row, col)` in the frame drawn for state `s`.
pub open spec fn sample_at(s: FrameIterator, row: int, col: int) -> (int, int, int) {
    if in_disc(row, col, s.height as int, s.width as int, s.position, s.radius as int) {
        transform(bt709_matrix(), s.circle_color@)
    } else {
        transform(bt709_matrix(), s.background@)
    }
}

impl FrameIterator {
    /// What a step needs: a cell count that keeps the grid's arithmetic exact,
    /// velocities that can be negated, colours within the conversion's range.
    pub open spec fn well_formed(&self) -> bool {
        &&& self.height * self.width <= MAX_CELLS
        &&& self.width <= MAX_CELLS
        &&& self.height <= MAX_CELLS
        &&& self.velocity.x != i64::MIN
        &&& self.velocity.y != i64::MIN
        &&& self.circle_color.in_range()
        &&& self.background.in_range()
    }
}

proof fn lemma_wide_product(a: i64, b: i64)
    ensures
        -0x4000_0000_0000_0000_0000_0000_0000_0000 <= (a as int) * (b as int) <= 0x4000_0000_0000_0000_0000_0000_0000_0000,
{
    assert(-0x4000_0000_0000_0000_0000_0000_0000_0000 <= (a as int) * (b as int) <= 0x4000_0000_0000_0000_0000_0000_0000_0000)
        by (nonlinear_arith)
        requires
            -0x8000_0000_0000_0000 <= a <= 0x7fff_ffff_ffff_ffff,
            -0x8000_0000_0000_0000 <= b <= 0x7fff_ffff_ffff_ffff,
    ;
}

/// One axis of a step, as `axis_step` states it.
fn step_axis(p: i64, v: i64, dt: i64) -> (r: (i64, i64))
    requires
        v != i64::MIN,
    ensures
        (r.0 as int, r.1 as int) == axis_step(p as int, v as int, dt as int),
        0 <= r.0 <= POSITION_ONE,
        r.1 != i64::MIN,
{
    proof {
        lemma_wide_product(dt, v);
    }
    let moved: i128 = p as i128 + (dt as i128) * (v as i128);
    let v2: i64 = if moved <= 0 || moved >= POSITION_ONE as i128 {
        -v
    } else {
        v
    };
    let p2: i64 = if moved < 0 {
        0
    } else if moved > POSITION_ONE as i128 {
        POSITION_ONE
    } else {
        moved as i64
    };
    (p2, v2)
}

proof fn lemma_offset_bound(i: int, n: int, p: int)
    requires
        0 <= i < n,
        0 <= p <= POSITION_ONE,
    ensures
        -(n * POSITION_ONE) <= i * POSITION_ONE - p * n <= n * POSITION_ONE,
{
    assert(0 <= p * n <= n * POSITION_ONE) by (nonlinear_arith)
        requires
            0 <= p <= POSITION_ONE,
            0 <= n,
    ;
}

/// An offset along one side, scaled by the other side, stays within the
/// frame's cell count times `POSITION_ONE`, and so does its square within the
/// square of that.
proof fn lemma_scaled_square(d: int, n: int, m: int)
    requires
        -(n * POSITION_ONE) <= d <= n * POSITION_ONE,
        0 < n,
        0 < m,
        n * m <= MAX_CELLS,
    ensures
        -(1_073_741_824 * 100_000_000) <= d * m <= 1_073_741_824 * 100_000_000,
        0 <= sq(d * m) <= 1_073_741_824 * 100_000_000 * 1_073_741_824 * 100_000_000,
        sq(d * m) <= sq(n * POSITION_ONE * m),
{
    assert(sq(d * m) <= sq(n * POSITION_ONE * m)) by (nonlinear_arith)
        requires
            -(n * POSITION_ONE) <= d <= n * POSITION_ONE,
            0 < m,
    ;
    assert(-(n * m * POSITION_ONE) <= d * m <= n * m * POSITION_ONE) by (nonlinear_arith)
        requires
            -(n * POSITION_ONE) <= d <= n * POSITION_ONE,
            0 < m,
    ;
    assert(n * m * POSITION_ONE <= 1_073_741_824 * 100_000_000) by (nonlinear_arith)
        requires
            0 <= n * m <= 1_073_741_824,
    ;
    let e = d * m;
    assert(0 <= e * e <= 1_073_741_824 * 100_000_000 * 1_073_741_824 * 100_000_000) by (nonlinear_arith)
        requires
            -(1_073_741_824 * 100_000_000) <= e <= 1_073_741_824 * 100_000_000,
    ;
}

proof fn lemma_large_radius(h: int, w: int, rad: int)
    requires
        0 < h,
        0 < w,
        rad >= 2 * POSITION_ONE,
    ensures
        2 * sq(h * POSITION_ONE * w) < sq(rad * h * w),
        sq(h * POSITION_ONE * w) == sq(w * POSITION_ONE * h),
{
    let u = h * w;
    assert(h * POSITION_ONE * w == u * POSITION_ONE) by (nonlinear_arith)
        requires
            u == h * w,
    ;
    assert(w * POSITION_ONE * h == u * POSITION_ONE) by (nonlinear_arith)
        requires
            u == h * w,
    ;
    assert(rad * h * w == rad * u) by (nonlinear_arith)
        requires
            u == h * w,
    ;
    assert(u > 0) by (nonlinear_arith)
        requires
            0 < h,
            0 < w,
            u == h * w,
    ;
    assert(2 * sq(u * POSITION_ONE) < sq(rad * u)) by (nonlinear_arith)
        requires
            u > 0,
            rad >= 2 * POSITION_ONE,
    ;
}

proof fn lemma_radius_square(rad: int, h: int, w: int)
    requires
        0 <= rad < 2 * POSITION_ONE,
        0 < h,
        0 < w,
        h * w <= MAX_CELLS,
    ensures
        0 <= rad * h <= 2 * 100_000_000 * 1_073_741_824,
        0 <= rad * h * w <= 2 * 100_000_000 * 1_073_741_824,
        0 <= sq(rad * h * w) <= 4 * 100_000_000 * 1_073_741_824 * 100_000_000 * 1_073_741_824,
{
    assert(0 <= rad * h <= rad * h * w <= 2 * 100_000_000 * 1_073_741_824) by (nonlinear_arith)
        requires
            0 <= rad < 2 * POSITION_ONE,
            0 < h,
            0 < w,
            h * w <= 1_073_741_824,
    ;
    let f = rad * h * w;
    assert(0 <= f * f <= 4 * 100_000_000 * 1_073_741_824 * 100_000_000 * 1_073_741_824) by (nonlinear_arith)
        requires
            0 <= f <= 2 * 100_000_000 * 1_073_741_824,
    ;
}

/// Whether cell `(row, col)` lies on the disc, as `in_disc` states it.
fn cell_in_disc(row: usize, col: usize, height: usize, width: usize, pos: Vec2, radius: i64) -> (r: bool)
    requires
        row < height,
        col < width,
        height * width <= MAX_CELLS,
        0 <= pos.x <= POSITION_ONE,
        0 <= pos.y <= POSITION_ONE,
    ensures
        r == in_disc(row as int, col as int, height as int, width as int, pos, radius as int),
{
    if radius < 0 {
        return false;
    }
    let h = height as i128;
    let w = width as i128;
    let one = POSITION_ONE as i128;
    proof {
        lemma_offset_bound(row as int, height as int, pos.x as int);
        lemma_offset_bound(col as int, width as int, pos.y as int);
        vstd::arithmetic::mul::lemma_mul_is_commutative(height as int, width as int);
        lemma_scaled_square(row * POSITION_ONE - pos.x * height, height as int, width as int);
        lemma_scaled_square(col * POSITION_ONE - pos.y * width, width as int, height as int);
    }
    let dx: i128 = (row as i128) * one - (pos.x as i128) * h;
    let dy: i128 = (col as i128) * one - (pos.y as i128) * w;
    let ex: i128 = dx * w;
    let ey: i128 = dy * h;
    let dist: i128 = ex * ex + ey * ey;
    if radius >= 2 * POSITION_ONE {
        proof {
            lemma_large_radius(height as int, width as int, radius as int);
        }
        return true;
    }
    proof {
        lemma_radius_square(radius as int, height as int, width as int);
    }
    let rs: i128 = (radius as i128) * h * w;
    dist <= rs * rs
}

proof fn lemma_cell_of_index(i: int, h: int, w: int)
    requires
        0 <= i < h * w,
        0 <= h,
        0 <= w,
    ensures
        w > 0,
        0 <= i / w < h,
        0 <= i % w < w,
{
    assert(w > 0) by (nonlinear_arith)
        requires
            0 <= i < h * w,
            0 <= h,
            0 <= w,
    ;
    vstd::arithmetic::div_mod::lemma_fundamental_div_mod(i, w);
    let q = i / w;
    let r = i % w;
    assert(0 <= q < h) by (nonlinear_arith)
        requires
            i == w * q + r,
            0 <= r < w,
            0 <= i < h * w,
    ;
}

/// A frame's sample for a cell: the disc's colour on the disc, else the
/// background's.
pub open spec fn pick(on_disc: bool, circle: YCbCr, background: YCbCr) -> YCbCr {
    if on_disc {
        circle
    } else {
        background
    }
}

/// After a step the disc's position lies in the unit square, whatever the
/// state before it.
pub proof fn lemma_step_stays_in_square(s: FrameIterator)
    ensures
        0 <= stepped(s).position.x <= POSITION_ONE,
        0 <= stepped(s).position.y <= POSITION_ONE,
{
}

/// The disc's boundary belongs to the disc: a cell whose distance from the
/// disc's centre equals a non-negative radius is on the disc.
pub proof fn lemma_boundary_on_disc(row: int, col: int, height: int, width: int, pos: Vec2, radius: int)
    requires
        radius >= 0,
        sq((row * POSITION_ONE - pos.x * height) * width) + sq((col * POSITION_ONE - pos.y * width) * height)
            == sq(radius * height * width),
    ensures
        in_disc(row, col, height, width, pos, radius),
{
}

/// Frame generation is deterministic: two animators built from the same
/// parameters are in the same state after any number of steps, and so draw
/// the same sample in every cell of every frame.
pub proof fn lemma_deterministic(a: FrameIterator, b: FrameIterator, n: nat)
    requires
        a == b,
    ensures
        state_after(a, n) == state_after(b, n),
        forall|row: int, col: int|
            #[trigger] sample_at(state_after(a, n), row, col) == sample_at(state_after(b, n), row, col),
{
}

impl FrameIterator {
    /// The cells of a frame of this state, row by row, each `circle` where
    /// `in_disc` holds and `background` elsewhere.
    fn rasterize(&self, circle: YCbCr, background: YCbCr) -> (cells: Vec<YCbCr>)
        requires
            self.height * self.width <= MAX_CELLS,
            0 <= self.position.x <= POSITION_ONE,
            0 <= self.position.y <= POSITION_ONE,
        ensures
            cells@.len() == self.height * self.width,
            forall|i: int|
                0 <= i < cells@.len() ==> #[trigger] cells@[i] == pick(
                    in_disc(
                        i / self.width as int,
                        i % self.width as int,
                        self.height as int,
                        self.width as int,
                        self.position,
                        self.radius as int,
                    ),
                    circle,
                    background,
                ),
    {
        let n: usize = self.height * self.width;
        let mut cells: Vec<YCbCr> = Vec::new();
        let mut i: usize = 0;
        while i < n
            invariant
                n == self.height * self.width,
                i <= n,
                cells@.len() == i,
                self.height * self.width <= MAX_CELLS,
                0 <= self.position.x <= POSITION_ONE,
                0 <= self.position.y <= POSITION_ONE,
                forall|j: int|
                    0 <= j < i ==> #[trigger] cells@[j] == pick(
                        in_disc(
                            j / self.width as int,
                            j % self.width as int,
                            self.height as int,
                            self.width as int,
                            self.position,
                            self.radius as int,
                        ),
                        circle,
                        background,
                    ),
            decreases n - i,
        {
            proof {
                lemma_cell_of_index(i as int, self.height as int, self.width as int);
            }
            let row: usize = i / self.width;
            let col: usize = i % self.width;
            let on_disc = cell_in_disc(row, col, self.height, self.width, self.position, self.radius);
            if on_disc {
                cells.push(circle);
            } else {
                cells.push(background);
            }
            i = i + 1;
        }
        cells
    }

    /// Moves the disc on by one step and draws the frame of the new state.
    ///
    /// The position moves by `delta_t * velocity`; on each axis on its own, the
    /// velocity is negated when the moved coordinate is `<= 0` or
    /// `>= POSITION_ONE`; the position is then clamped into the unit square.
    /// The frame is `height` x `width`; cell `(row, col)` holds the BT.709
    /// conversion of the disc's colour when `in_disc` holds for it under the
    /// new position, and that of the background otherwise. There is always a
    /// frame.
    pub fn next(&mut self) -> (frame: Option<Frame>)
        requires
            old(self).well_formed(),
        ensures
            *final(self) == stepped(*old(self)),
            final(self).well_formed(),
            0 <= final(self).position.x <= POSITION_ONE,
            0 <= final(self).position.y <= POSITION_ONE,
            frame matches Some(f) && frame_shape(f) == (final(self).height as nat, final(self).width as nat)
                && frame_cells(f).len() == final(self).height * final(self).width
                && forall|i: int|
                0 <= i < frame_cells(f).len() ==> (#[trigger] frame_cells(f)[i])@ == sample_at(
                    *final(self),
                    i / final(self).width as int,
                    i % final(self).width as int,
                ),
    {
        let (px, vx) = step_axis(self.position.x, self.velocity.x, self.delta_t);
        let (py, vy) = step_axis(self.position.y, self.velocity.y, self.delta_t);
        self.position = Vec2 { x: px, y: py };
        self.velocity = Vec2 { x: vx, y: vy };

        let scheme = bt709();
        let background = rgb_to_yuv(self.background, scheme);
        let circle = rgb_to_yuv(self.circle_color, scheme);
        let cells = self.rasterize(circle, background);
        Some(Frame::from_cells(self.height, self.width, cells))
    }
}

} // verus!
