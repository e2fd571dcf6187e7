//! The camera: centre position, zoom scale and viewport size in fixed-point
//! field-space units, with the dirty flag that decouples "camera state
//! changed" from the expensive derived work (transform upload and instance
//! regeneration) done at most once per frame.

use vstd::prelude::*;

verus! {

use vstd::arithmetic::div_mod::lemma_div_is_ordered;

use crate::units::floor_div;
use crate::units::lemma_floor_div_bounds;
use crate::units::ViewBox;
use crate::units::UNITS_PER_CELL;

/// Furthest the camera centre may sit from the origin, in units.
pub const POSITION_LIMIT: i64 = 1_000_000_000_000;

/// Smallest representable zoom scale, in units.
pub const SCALE_MIN: i64 = 1;

/// Largest representable zoom scale, in units.
pub const SCALE_MAX: i64 = 1_000_000_000;

/// How far one pan step moves the camera, in units: five cells.
pub const PAN_STEP: i64 = 5000;

/// One zoom-in step multiplies the scale by this factor over one unit: 1.1.
pub const ZOOM_IN_FACTOR: i64 = 1100;

/// One zoom-out step multiplies the scale by this factor over one unit: 0.9.
pub const ZOOM_OUT_FACTOR: i64 = 900;

/// The camera. A scale above one unit magnifies: fewer cells fill the
/// viewport. The `update_required` flag is the sole signal that derived data
/// (the uploaded transform and the visible instance list) is stale.
#[derive(Clone, Copy, Debug, PartialEq, Eq, Structural)]
pub struct Camera {
    pub position_x: i64,
    pub position_y: i64,
    pub scale: i64,
    pub viewport_width: u32,
    pub viewport_height: u32,
    pub speed: i64,
    pub update_required: bool,
}

/// A camera position clamped into the representable band.
pub open spec fn clamp_position(v: int) -> int {
    if v < -(POSITION_LIMIT as int) {
        -(POSITION_LIMIT as int)
    } else if v > POSITION_LIMIT as int {
        POSITION_LIMIT as int
    } else {
        v
    }
}

/// A zoom scale clamped into the representable band.
pub open spec fn clamp_scale(v: int) -> int {
    if v < SCALE_MIN as int {
        SCALE_MIN as int
    } else if v > SCALE_MAX as int {
        SCALE_MAX as int
    } else {
        v
    }
}

/// The camera after a pan by `(dx, dy)` units: the position moves, the
/// derived transform becomes stale.
pub open spec fn spec_translated(c: Camera, dx: int, dy: int) -> Camera {
    Camera {
        position_x: clamp_position(c.position_x + dx) as i64,
        position_y: clamp_position(c.position_y + dy) as i64,
        update_required: true,
        ..c
    }
}

/// The camera after its scale is multiplied by `factor` units (rounded down,
/// clamped into the representable band); the derived transform becomes stale.
pub open spec fn spec_scaled(c: Camera, factor: int) -> Camera {
    Camera {
        scale: clamp_scale((c.scale * factor) / (UNITS_PER_CELL as int)) as i64,
        update_required: true,
        ..c
    }
}

/// The camera after the viewport is resized.
pub open spec fn spec_resized(c: Camera, width: u32, height: u32) -> Camera {
    Camera { viewport_width: width, viewport_height: height, update_required: true, ..c }
}

/// The camera after its position is set outright.
pub open spec fn spec_positioned(c: Camera, x: int, y: int) -> Camera {
    Camera {
        position_x: clamp_position(x) as i64,
        position_y: clamp_position(y) as i64,
        update_required: true,
        ..c
    }
}

/// The camera after its derived transform is marked stale.
pub open spec fn spec_rebuilt(c: Camera) -> Camera {
    Camera { update_required: true, ..c }
}

/// The camera after `update` has refreshed the derived transform.
pub open spec fn spec_updated(c: Camera) -> Camera {
    Camera { update_required: false, ..c }
}

/// The field-space abscissa, in units, seen at clip-space abscissa `cx`
/// (clip space runs from `-1` to `1` across the viewport, in units): the
/// inverse of the camera's projection-times-view transform.
pub open spec fn spec_clip_to_local_x(c: Camera, cx: int) -> int {
    c.position_x + (c.viewport_width * cx * 500) / c.scale as int
}

/// The field-space ordinate seen at clip-space ordinate `cy`.
pub open spec fn spec_clip_to_local_y(c: Camera, cy: int) -> int {
    c.position_y + (c.viewport_height * cy * 500) / c.scale as int
}

/// The field-space rectangle visible through the camera: the clip-space
/// corners `(-1, -1)` and `(1, 1)` pulled back to field space.
pub open spec fn spec_view_box(c: Camera) -> ViewBox {
    ViewBox {
        min_x: spec_clip_to_local_x(c, -(UNITS_PER_CELL as int)) as i64,
        min_y: spec_clip_to_local_y(c, -(UNITS_PER_CELL as int)) as i64,
        max_x: spec_clip_to_local_x(c, UNITS_PER_CELL as int) as i64,
        max_y: spec_clip_to_local_y(c, UNITS_PER_CELL as int) as i64,
    }
}

impl Camera {
    /// Position, scale and pan speed sit in their representable bands and
    /// the viewport is not degenerate.
    pub open spec fn wf(&self) -> bool {
        &&& -POSITION_LIMIT <= self.position_x <= POSITION_LIMIT
        &&& -POSITION_LIMIT <= self.position_y <= POSITION_LIMIT
        &&& SCALE_MIN <= self.scale <= SCALE_MAX
        &&& 0 < self.viewport_width
        &&& 0 < self.viewport_height
        &&& 0 <= self.speed <= POSITION_LIMIT
    }

    /// A camera centred on the origin at unit scale, viewing the given
    /// viewport. It starts with its derived transform stale, so the first
    /// `update` reports a change.
    pub fn new(width: u32, height: u32) -> (r: Camera)
        requires
            0 < width,
            0 < height,
        ensures
            r.wf(),
            r == (Camera {
                position_x: 0,
                position_y: 0,
                scale: UNITS_PER_CELL,
                viewport_width: width,
                viewport_height: height,
                speed: PAN_STEP,
                update_required: true,
            }),
    {
        Camera {
            position_x: 0,
            position_y: 0,
            scale: UNITS_PER_CELL,
            viewport_width: width,
            viewport_height: height,
            speed: PAN_STEP,
            update_required: true,
        }
    }

    /// Record a new viewport size; the orthographic bounds it determines are
    /// recomputed by the consumer on the next `update`.
    pub fn resize(&mut self, width: u32, height: u32)
        requires
            old(self).wf(),
            0 < width,
            0 < height,
        ensures
            final(self).wf(),
            *final(self) == spec_resized(*old(self), width, height),
    {
        self.update_required = true;
        self.viewport_width = width;
        self.viewport_height = height;
    }

    /// Refresh the derived transform if and only if camera state changed
    /// since the last call; the result tells consumers whether derived data
    /// (the visible instance list) must be regenerated.
    pub fn update(&mut self) -> (changed: bool)
        requires
            old(self).wf(),
        ensures
            final(self).wf(),
            changed == old(self).update_required,
            *final(self) == spec_updated(*old(self)),
    {
        if self.update_required {
            self.update_required = false;
            true
        } else {
            false
        }
    }

    /// Pan one step up.
    pub fn up(&mut self)
        requires
            old(self).wf(),
        ensures
            final(self).wf(),
            *final(self) == spec_translated(*old(self), 0, -old(self).speed as int),
    {
        let step = self.speed;
        self.translate(0, -step);
    }

    /// Pan one step down.
    pub fn down(&mut self)
        requires
            old(self).wf(),
        ensures
            final(self).wf(),
            *final(self) == spec_translated(*old(self), 0, old(self).speed as int),
    {
        let step = self.speed;
        self.translate(0, step);
    }

    /// Pan one step left.
    pub fn left(&mut self)
        requires
            old(self).wf(),
        ensures
            final(self).wf(),
            *final(self) == spec_translated(*old(self), old(self).speed as int, 0),
    {
        let step = self.speed;
        self.translate(step, 0);
    }

    /// Pan one step right.
    pub fn right(&mut self)
        requires
            old(self).wf(),
        ensures
            final(self).wf(),
            *final(self) == spec_translated(*old(self), -old(self).speed as int, 0),
    {
        let step = self.speed;
        self.translate(-step, 0);
    }

    /// Zoom in one step: magnify by 1.1.
    pub fn zoom_in(&mut self)
        requires
            old(self).wf(),
        ensures
            final(self).wf(),
            *final(self) == spec_scaled(*old(self), ZOOM_IN_FACTOR as int),
    {
        self.scale(ZOOM_IN_FACTOR);
    }

    /// Zoom out one step: magnify by 0.9.
    pub fn zoom_out(&mut self)
        requires
            old(self).wf(),
        ensures
            final(self).wf(),
            *final(self) == spec_scaled(*old(self), ZOOM_OUT_FACTOR as int),
    {
        self.scale(ZOOM_OUT_FACTOR);
    }

    /// Multiply the zoom scale by `factor` units, rounding down and clamping
    /// into the representable band; marks the derived transform stale.
    pub fn scale(&mut self, factor: i64)
        requires
            old(self).wf(),
        ensures
            final(self).wf(),
            *final(self) == spec_scaled(*old(self), factor as int),
    {
        self.update_required = true;
        let ghost s0: int = self.scale as int;
        if factor <= 0 {
            proof {
                assert(s0 * factor <= 0) by (nonlinear_arith)
                    requires
                        s0 >= 1,
                        factor <= 0,
                ;
                lemma_floor_div_bounds(s0 * factor, UNITS_PER_CELL as int);
            }
            self.scale = SCALE_MIN;
        } else {
            proof {
                assert(s0 * (factor as int) <= 1_000_000_000 * 0x7fff_ffff_ffff_ffffint)
                    by (nonlinear_arith)
                    requires
                        1 <= s0 <= 1_000_000_000,
                        1 <= factor as int <= 0x7fff_ffff_ffff_ffff,
                ;
                assert(0 <= s0 * (factor as int)) by (nonlinear_arith)
                    requires
                        1 <= s0,
                        1 <= factor as int,
                ;
            }
            let product: u128 = (self.scale as u128) * (factor as u128);
            proof {
                assert(product == s0 * factor);
            }
            let quotient: u128 = product / (UNITS_PER_CELL as u128);
            if quotient < SCALE_MIN as u128 {
                self.scale = SCALE_MIN;
            } else if quotient > SCALE_MAX as u128 {
                self.scale = SCALE_MAX;
            } else {
                self.scale = quotient as i64;
            }
        }
    }

    /// Pan the camera by `(dx, dy)` units, clamping into the representable
    /// band; marks the derived transform stale.
    pub fn translate(&mut self, dx: i64, dy: i64)
        requires
            old(self).wf(),
        ensures
            final(self).wf(),
            *final(self) == spec_translated(*old(self), dx as int, dy as int),
    {
        self.update_required = true;
        self.position_x = clamp_position_add(self.position_x, dx);
        self.position_y = clamp_position_add(self.position_y, dy);
    }

    /// Move the camera centre outright, clamping into the representable
    /// band; marks the derived transform stale.
    pub fn set_position(&mut self, x: i64, y: i64)
        requires
            old(self).wf(),
        ensures
            final(self).wf(),
            *final(self) == spec_positioned(*old(self), x as int, y as int),
    {
        self.position_x = clamp_position_add(x, 0);
        self.position_y = clamp_position_add(y, 0);
        self.rebuild_view();
    }

    /// Mark the derived view transform stale. The transform itself is a
    /// pure function of position, scale and viewport, so nothing else needs
    /// recording; the consumer rebuilds it on the next `update`.
    pub fn rebuild_view(&mut self)
        requires
            old(self).wf(),
        ensures
            final(self).wf(),
            *final(self) == spec_rebuilt(*old(self)),
    {
        self.update_required = true;
    }

    /// Pull a clip-space point (in units, so the visible extent runs from
    /// `-1000` to `1000`) back through the camera transform to field space.
    pub fn from_clip_space_to_local(&self, clip_x: i64, clip_y: i64) -> (r: (i64, i64))
        requires
            self.wf(),
            -UNITS_PER_CELL <= clip_x <= UNITS_PER_CELL,
            -UNITS_PER_CELL <= clip_y <= UNITS_PER_CELL,
        ensures
            r.0 == spec_clip_to_local_x(*self, clip_x as int),
            r.1 == spec_clip_to_local_y(*self, clip_y as int),
    {
        proof {
            assert(-4_400_000_000_000int <= (self.viewport_width as int) * (clip_x as int)
                <= 4_400_000_000_000int) by (nonlinear_arith)
                requires
                    self.viewport_width <= u32::MAX,
                    -1000 <= clip_x <= 1000,
            ;
            assert(-4_400_000_000_000int <= (self.viewport_height as int) * (clip_y as int)
                <= 4_400_000_000_000int) by (nonlinear_arith)
                requires
                    self.viewport_height <= u32::MAX,
                    -1000 <= clip_y <= 1000,
            ;
        }
        let num_x: i64 = (self.viewport_width as i64) * clip_x * 500;
        let num_y: i64 = (self.viewport_height as i64) * clip_y * 500;
        proof {
            lemma_floor_div_bounds(num_x as int, self.scale as int);
            lemma_floor_div_bounds(num_y as int, self.scale as int);
        }
        let off_x = floor_div(num_x, self.scale);
        let off_y = floor_div(num_y, self.scale);
        (self.position_x + off_x, self.position_y + off_y)
    }

    /// The field-space rectangle currently visible: the clip-space corners
    /// `(-1, -1)` and `(1, 1)` pulled back through the current transform.
    /// Call after `update` within a frame; the box reflects the camera state
    /// as it stands now.
    pub fn view_box(&self) -> (r: ViewBox)
        requires
            self.wf(),
        ensures
            r == spec_view_box(*self),
    {
        let (min_x, min_y) = self.from_clip_space_to_local(-UNITS_PER_CELL, -UNITS_PER_CELL);
        let (max_x, max_y) = self.from_clip_space_to_local(UNITS_PER_CELL, UNITS_PER_CELL);
        ViewBox { min_x, min_y, max_x, max_y }
    }
}

/// `pos + delta`, clamped into the representable position band.
fn clamp_position_add(pos: i64, delta: i64) -> (r: i64)
    ensures
        r as int == clamp_position(pos + delta),
{
    let sum: i128 = pos as i128 + delta as i128;
    if sum < -(POSITION_LIMIT as i128) {
        -POSITION_LIMIT
    } else if sum > POSITION_LIMIT as i128 {
        POSITION_LIMIT
    } else {
        sum as i64
    }
}

/// Dirty-flag behaviour: after a pan, the first `update` reports a change,
/// and a second `update` with no intervening mutation reports none.
pub proof fn lemma_pan_update_dirty(c: Camera, dx: int, dy: int)
    ensures
        spec_translated(c, dx, dy).update_required,
        !spec_updated(spec_translated(c, dx, dy)).update_required,
{
}

/// A well-formed camera never derives an inverted view box: degenerate
/// boxes can only be handed to the culling pass from elsewhere, and it
/// answers them with an empty instance list.
pub proof fn lemma_view_box_ordered(c: Camera)
    requires
        c.wf(),
    ensures
        spec_view_box(c).min_x <= spec_view_box(c).max_x,
        spec_view_box(c).min_y <= spec_view_box(c).max_y,
{
    let unit: int = UNITS_PER_CELL as int;
    let low_x: int = (c.viewport_width as int) * (-unit) * 500;
    let high_x: int = (c.viewport_width as int) * unit * 500;
    let low_y: int = (c.viewport_height as int) * (-unit) * 500;
    let high_y: int = (c.viewport_height as int) * unit * 500;
    assert(-low_x == high_x && -low_y == high_y && high_x <= 2_200_000_000_000_000 && high_y
        <= 2_200_000_000_000_000 && 0 <= high_x && 0 <= high_y) by (nonlinear_arith)
        requires
            0 <= c.viewport_width as int <= 0xffff_ffff,
            0 <= c.viewport_height as int <= 0xffff_ffff,
            unit == 1000,
            low_x == (c.viewport_width as int) * (-unit) * 500,
            high_x == (c.viewport_width as int) * unit * 500,
            low_y == (c.viewport_height as int) * (-unit) * 500,
            high_y == (c.viewport_height as int) * unit * 500,
    ;
    lemma_floor_div_bounds(low_x, c.scale as int);
    lemma_floor_div_bounds(high_x, c.scale as int);
    lemma_floor_div_bounds(low_y, c.scale as int);
    lemma_floor_div_bounds(high_y, c.scale as int);
    lemma_div_is_ordered(low_x, high_x, c.scale as int);
    lemma_div_is_ordered(low_y, high_y, c.scale as int);
}

} // verus!
