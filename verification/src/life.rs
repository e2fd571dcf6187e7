//! The simulation engine: advances the double-buffered field state by one
//! generation per call, using the two-state, eight-neighbour rule over a
//! toroidal field.

use vstd::prelude::*;

verus! {

use vstd::arithmetic::div_mod::lemma_div_by_multiple;
use vstd::arithmetic::div_mod::lemma_div_is_ordered;
use vstd::arithmetic::div_mod::lemma_fundamental_div_mod_converse_div;
use vstd::arithmetic::div_mod::lemma_fundamental_div_mod_converse_mod;
use vstd::arithmetic::div_mod::lemma_small_mod;

use crate::cellpos::CellPos;
use crate::cellpos::CellPosInstances;
use crate::field::boolean_cells;
use crate::field::idx;
use crate::field::lemma_flat_index;
use crate::field::FieldInfo;
use crate::field::FieldState;
use crate::units::floor_div;
use crate::units::ViewBox;
use crate::units::UNITS_PER_CELL;

/// Relies on rand::random: an arbitrary value drawn from the thread-local
/// generator; nothing is promised of the value.
pub assume_specification<T>[ rand::random::<T> ]() -> (r: T)
    where
        rand::distributions::Standard: rand::distributions::Distribution<T>,
;

/// The liveness of cell `(x, y)` in a flat buffer of rows of length `width`,
/// for coordinates already inside the field.
pub open spec fn cell_at(s: Seq<u32>, width: int, x: int, y: int) -> u32 {
    s[x + y * width]
}

/// The coordinate one step down from `v` on a ring of size `m`; equal to
/// `(v - 1) mod m` for in-range `v` (see [`lemma_wrap_is_mod`]).
pub open spec fn wrap_dec(v: int, m: int) -> int {
    if v == 0 {
        m - 1
    } else {
        v - 1
    }
}

/// The coordinate one step up from `v` on a ring of size `m`; equal to
/// `(v + 1) mod m` for in-range `v` (see [`lemma_wrap_is_mod`]).
pub open spec fn wrap_inc(v: int, m: int) -> int {
    if v + 1 == m {
        0
    } else {
        v + 1
    }
}

/// The wrapped neighbour coordinates agree with the modular form
/// `(v + dv - 1) mod m` in which the rule is usually written.
pub proof fn lemma_wrap_is_mod(v: int, m: int)
    requires
        0 <= v < m,
    ensures
        wrap_dec(v, m) == (v - 1) % m,
        wrap_inc(v, m) == (v + 1) % m,
{
    if v == 0 {
        lemma_fundamental_div_mod_converse_mod(v - 1, m, -1, m - 1);
    } else {
        lemma_fundamental_div_mod_converse_mod(v - 1, m, 0, v - 1);
    }
    if v + 1 == m {
        lemma_fundamental_div_mod_converse_mod(v + 1, m, 1, 0);
    } else {
        lemma_fundamental_div_mod_converse_mod(v + 1, m, 0, v + 1);
    }
}

/// Number of live cells among the eight toroidally adjacent neighbours of
/// `(x, y)`. Wrapping is applied uniformly, deliberately also at row and
/// column zero: a cell on an edge counts its neighbours on the opposite
/// edge like any other cell.
pub open spec fn neighbor_count(s: Seq<u32>, width: int, height: int, x: int, y: int) -> int {
    let xl = wrap_dec(x, width);
    let xr = wrap_inc(x, width);
    let yd = wrap_dec(y, height);
    let yu = wrap_inc(y, height);
    cell_at(s, width, xl, yd) + cell_at(s, width, x, yd) + cell_at(s, width, xr, yd) + cell_at(
        s,
        width,
        xl,
        y,
    ) + cell_at(s, width, xr, y) + cell_at(s, width, xl, yu) + cell_at(s, width, x, yu) + cell_at(
        s,
        width,
        xr,
        yu,
    )
}

/// The rule: a live cell with two or three live neighbours survives; a dead
/// cell with exactly three live neighbours becomes alive; every other cell
/// is dead in the next generation.
pub open spec fn next_cell(s: Seq<u32>, width: int, height: int, x: int, y: int) -> u32 {
    let n = neighbor_count(s, width, height, x, y);
    if cell_at(s, width, x, y) == 1 {
        if n == 2 || n == 3 {
            1u32
        } else {
            0u32
        }
    } else {
        if n == 3 {
            1u32
        } else {
            0u32
        }
    }
}

/// The whole next generation: every cell's next state is a function of the
/// current buffer alone.
pub open spec fn step_spec(s: Seq<u32>, width: int, height: int) -> Seq<u32> {
    Seq::new((width * height) as nat, |i: int| next_cell(s, width, height, i % width, i / width))
}

/// The field advanced by `n` generations.
pub open spec fn iterate_step(s: Seq<u32>, width: int, height: int, n: nat) -> Seq<u32>
    decreases n,
{
    if n == 0 {
        s
    } else {
        step_spec(iterate_step(s, width, height, (n - 1) as nat), width, height)
    }
}

/// First visible column of a view box: its lower edge in whole cells,
/// clamped to the field.
pub open spec fn visible_x0(vb: ViewBox) -> int {
    let c = vb.min_x as int / UNITS_PER_CELL as int;
    if c < 0 {
        0
    } else {
        c
    }
}

/// Last visible column of a view box, clamped to the field.
pub open spec fn visible_x1(width: int, vb: ViewBox) -> int {
    let c = vb.max_x as int / UNITS_PER_CELL as int;
    if c > width - 1 {
        width - 1
    } else {
        c
    }
}

/// First visible row of a view box, clamped to the field.
pub open spec fn visible_y0(vb: ViewBox) -> int {
    let c = vb.min_y as int / UNITS_PER_CELL as int;
    if c < 0 {
        0
    } else {
        c
    }
}

/// Last visible row of a view box, clamped to the field.
pub open spec fn visible_y1(height: int, vb: ViewBox) -> int {
    let c = vb.max_y as int / UNITS_PER_CELL as int;
    if c > height - 1 {
        height - 1
    } else {
        c
    }
}

/// The instance record an in-range cell contributes.
pub open spec fn cell_instance(width: int, x: int, y: int) -> CellPos {
    CellPos { x: x as u32, y: y as u32, idx: (x + y * width) as u32 }
}

/// Exactly the cells of the field that intersect the view box, enumerated
/// deterministically: outer loop over columns, inner loop over rows. A view
/// box lying outside the field, or inverted, yields the empty sequence.
pub open spec fn visible_cells(width: int, height: int, vb: ViewBox) -> Seq<CellPos> {
    let x0 = visible_x0(vb);
    let x1 = visible_x1(width, vb);
    let y0 = visible_y0(vb);
    let y1 = visible_y1(height, vb);
    if x0 > x1 || y0 > y1 {
        Seq::empty()
    } else {
        let ny = y1 - y0 + 1;
        Seq::new(
            ((x1 - x0 + 1) * ny) as nat,
            |k: int| cell_instance(width, x0 + k / ny, y0 + k % ny),
        )
    }
}

/// Culling emptiness: a view box lying entirely outside the field on
/// either axis yields no instances at all, never an error and never a
/// wrapped range.
pub proof fn lemma_outside_view_box_empty(width: int, height: int, vb: ViewBox)
    requires
        0 < width,
        0 < height,
        vb.max_x < 0 || vb.min_x >= width * (UNITS_PER_CELL as int) || vb.max_y < 0 || vb.min_y
            >= height * (UNITS_PER_CELL as int),
    ensures
        visible_cells(width, height, vb) == Seq::<CellPos>::empty(),
{
    let unit: int = UNITS_PER_CELL as int;
    assert((-1) / unit == -1);
    if vb.max_x < 0 {
        lemma_div_is_ordered(vb.max_x as int, -1, unit);
    } else if vb.min_x >= width * unit {
        lemma_div_is_ordered(width * unit, vb.min_x as int, unit);
        lemma_div_by_multiple(width, unit);
    } else if vb.max_y < 0 {
        lemma_div_is_ordered(vb.max_y as int, -1, unit);
    } else {
        lemma_div_is_ordered(height * unit, vb.min_y as int, unit);
        lemma_div_by_multiple(height, unit);
    }
}

/// The engine: the field dimensions and the two liveness buffers. `life`
/// holds the authoritative current generation; `new_life` is the write
/// target while a step is in progress.
pub struct Life {
    field_info: FieldInfo,
    life: FieldState,
    new_life: FieldState,
}

impl View for Life {
    type V = Seq<u32>;

    /// The current, fully published generation.
    closed spec fn view(&self) -> Seq<u32> {
        self.life@
    }
}

impl Life {
    /// The field dimensions fixed at construction.
    pub closed spec fn spec_info(&self) -> FieldInfo {
        self.field_info
    }

    pub open spec fn spec_width(&self) -> u32 {
        self.spec_info().spec_width()
    }

    pub open spec fn spec_height(&self) -> u32 {
        self.spec_info().spec_height()
    }

    /// The back buffer written during a step.
    pub closed spec fn spec_back(&self) -> Seq<u32> {
        self.new_life@
    }

    /// Both buffers always have exactly one entry per cell, and the current
    /// buffer holds only liveness values.
    pub open spec fn wf(&self) -> bool {
        &&& self.spec_info().wf()
        &&& self@.len() == self.spec_width() * self.spec_height()
        &&& self.spec_back().len() == self@.len()
        &&& boolean_cells(self@)
    }

    /// A field of the given dimensions whose cells start alive or dead at
    /// random.
    pub fn new(width: u32, height: u32) -> (r: Life)
        requires
            0 < width,
            0 < height,
            width * height <= u32::MAX,
        ensures
            r.wf(),
            r.spec_width() == width,
            r.spec_height() == height,
    {
        let field_info = FieldInfo::new(width, height);
        let n: usize = (width as usize) * (height as usize);
        let mut initial: Vec<u32> = Vec::new();
        while initial.len() < n
            invariant
                initial@.len() <= n,
                boolean_cells(initial@),
            decreases n - initial@.len(),
        {
            let value = rand::random::<u32>();
            initial.push(value % 2);
        }
        let life = FieldState::new(&initial);
        let new_life = FieldState::new(&initial);
        Life { field_info, life, new_life }
    }

    /// An engine over a given initial configuration, for deterministic
    /// set-ups.
    pub fn from_state(width: u32, height: u32, state: &Vec<u32>) -> (r: Life)
        requires
            0 < width,
            0 < height,
            width * height <= u32::MAX,
            state@.len() == width * height,
            boolean_cells(state@),
        ensures
            r.wf(),
            r.spec_width() == width,
            r.spec_height() == height,
            r@ == state@,
    {
        let field_info = FieldInfo::new(width, height);
        let life = FieldState::new(state);
        let new_life = FieldState::new(state);
        Life { field_info, life, new_life }
    }

    /// Total number of cells in the field.
    pub fn cell_count(&self) -> (r: usize)
        requires
            self.wf(),
        ensures
            r == self.spec_width() * self.spec_height(),
    {
        (self.field_info.width() * self.field_info.height()) as usize
    }

    /// Flat buffer index of `(x, y)`, with toroidal wrapping.
    fn index(&self, x: u32, y: u32) -> (r: usize)
        requires
            self.wf(),
        ensures
            r == idx(self.spec_width() as int, self.spec_height() as int, x as int, y as int),
            r < self.spec_width() * self.spec_height(),
    {
        let x_rem = x % self.field_info.width();
        let y_rem = y % self.field_info.height();
        proof {
            lemma_flat_index(
                self.spec_width() as int,
                self.spec_height() as int,
                x_rem as int,
                y_rem as int,
            );
        }
        (x_rem as usize) + (y_rem as usize) * (self.field_info.width() as usize)
    }

    /// The current generation's buffer, for the renderer.
    pub fn life_buffer(&self) -> (r: &FieldState)
        ensures
            r@ == self@,
    {
        &self.life
    }

    /// Enumerate the cells visible through the given view box, clamped to
    /// the field bounds: the minimal correct set of instances to render. A
    /// view box outside the field, or inverted, yields an empty collection,
    /// never an error.
    pub fn generate_cell_info(&self, view_box: ViewBox) -> (r: CellPosInstances)
        requires
            self.wf(),
        ensures
            r@ == visible_cells(self.spec_width() as int, self.spec_height() as int, view_box),
    {
        let width = self.field_info.width();
        let height = self.field_info.height();
        let min_x_cell = floor_div(view_box.min_x, UNITS_PER_CELL);
        let max_x_cell = floor_div(view_box.max_x, UNITS_PER_CELL);
        let min_y_cell = floor_div(view_box.min_y, UNITS_PER_CELL);
        let max_y_cell = floor_div(view_box.max_y, UNITS_PER_CELL);
        let min_x = if min_x_cell < 0 {
            0
        } else {
            min_x_cell
        };
        let max_x = if max_x_cell > (width - 1) as i64 {
            (width - 1) as i64
        } else {
            max_x_cell
        };
        let min_y = if min_y_cell < 0 {
            0
        } else {
            min_y_cell
        };
        let max_y = if max_y_cell > (height - 1) as i64 {
            (height - 1) as i64
        } else {
            max_y_cell
        };
        let mut positions: Vec<CellPos> = Vec::new();
        if min_x > max_x || min_y > max_y {
            return CellPosInstances::new(positions);
        }
        let x0 = min_x as u32;
        let x1 = max_x as u32;
        let y0 = min_y as u32;
        let y1 = max_y as u32;
        let ghost vis: Seq<CellPos> = visible_cells(
            self.spec_width() as int,
            self.spec_height() as int,
            view_box,
        );
        let ghost ny: int = y1 - y0 + 1;
        proof {
            assert(vis.len() == (x1 - x0 + 1) * ny);
        }
        let mut x = x0;
        while x <= x1
            invariant
                self.wf(),
                width == self.spec_width(),
                height == self.spec_height(),
                x0 <= x <= x1 + 1,
                x1 < width,
                y0 <= y1 < height,
                x0 == visible_x0(view_box),
                x1 == visible_x1(width as int, view_box),
                y0 == visible_y0(view_box),
                y1 == visible_y1(height as int, view_box),
                vis == visible_cells(width as int, height as int, view_box),
                ny == y1 - y0 + 1,
                vis.len() == (x1 - x0 + 1) * ny,
                positions@.len() == (x - x0) * ny,
                forall|k: int| 0 <= k < positions@.len() ==> positions@[k] == vis[k],
            decreases x1 + 1 - x,
        {
            let mut y = y0;
            proof {
                assert((x - x0) * ny + ny == (x - x0 + 1) * ny) by (nonlinear_arith);
                assert((x - x0 + 1) * ny <= (x1 - x0 + 1) * ny) by (nonlinear_arith)
                    requires
                        x <= x1,
                        x0 <= x,
                        0 < ny,
                ;
            }
            while y <= y1
                invariant
                    self.wf(),
                    width == self.spec_width(),
                    height == self.spec_height(),
                    x0 <= x <= x1,
                    x1 < width,
                    y0 <= y <= y1 + 1,
                    y1 < height,
                    x0 == visible_x0(view_box),
                    x1 == visible_x1(width as int, view_box),
                    y0 == visible_y0(view_box),
                    y1 == visible_y1(height as int, view_box),
                    vis == visible_cells(width as int, height as int, view_box),
                    ny == y1 - y0 + 1,
                    vis.len() == (x1 - x0 + 1) * ny,
                    (x - x0) * ny + ny <= vis.len(),
                    positions@.len() == (x - x0) * ny + (y - y0),
                    forall|k: int| 0 <= k < positions@.len() ==> positions@[k] == vis[k],
                decreases y1 + 1 - y,
            {
                let index = self.index(x, y);
                let ghost k: int = positions@.len() as int;
                positions.push(CellPos { x, y, idx: index as u32 });
                proof {
                    lemma_small_mod(x as nat, width as nat);
                    lemma_small_mod(y as nat, height as nat);
                    lemma_flat_index(width as int, height as int, x as int, y as int);
                    assert(k == (x - x0) * ny + (y - y0));
                    lemma_fundamental_div_mod_converse_div(k, ny, x - x0, y - y0);
                    lemma_fundamental_div_mod_converse_mod(k, ny, x - x0, y - y0);
                    assert(vis[k] == cell_instance(width as int, x as int, y as int));
                }
                y = y + 1;
            }
            x = x + 1;
        }
        proof {
            assert(positions@.len() == vis.len()) by {
                assert((x1 + 1 - x0) * ny == (x1 - x0 + 1) * ny);
            }
            assert(positions@ =~= vis);
        }
        CellPosInstances::new(positions)
    }

    /// Advance the field by exactly one generation. Every cell's next state
    /// is computed from the current buffer alone and written into the back
    /// buffer; only after all cells are evaluated is the current buffer
    /// replaced, wholly, by the new generation.
    pub fn step(&mut self)
        requires
            old(self).wf(),
        ensures
            final(self).wf(),
            final(self).spec_info() == old(self).spec_info(),
            final(self)@ == step_spec(
                old(self)@,
                old(self).spec_width() as int,
                old(self).spec_height() as int,
            ),
            forall|x: int, y: int|
                0 <= x < old(self).spec_width() && 0 <= y < old(self).spec_height()
                    ==> #[trigger] cell_at(
                    final(self)@,
                    old(self).spec_width() as int,
                    x,
                    y,
                ) == next_cell(
                    old(self)@,
                    old(self).spec_width() as int,
                    old(self).spec_height() as int,
                    x,
                    y,
                ),
    {
        let ghost s0: Seq<u32> = self.life@;
        let ghost info0: FieldInfo = self.field_info;
        let width = self.field_info.width();
        let height = self.field_info.height();
        let mut y: u32 = 0;
        while y < height
            invariant
                y <= height,
                self.field_info == info0,
                info0.wf(),
                width == info0.spec_width(),
                height == info0.spec_height(),
                self.life@ == s0,
                s0.len() == width * height,
                boolean_cells(s0),
                self.new_life@.len() == width * height,
                forall|j: int|
                    0 <= j < y * width ==> self.new_life@[j] == #[trigger] step_spec(
                        s0,
                        width as int,
                        height as int,
                    )[j],
            decreases height - y,
        {
            let mut x: u32 = 0;
            while x < width
                invariant
                    x <= width,
                    y < height,
                    self.field_info == info0,
                    info0.wf(),
                    width == info0.spec_width(),
                    height == info0.spec_height(),
                    self.life@ == s0,
                    s0.len() == width * height,
                    boolean_cells(s0),
                    self.new_life@.len() == width * height,
                    forall|j: int|
                        0 <= j < y * width + x ==> self.new_life@[j] == #[trigger] step_spec(
                            s0,
                            width as int,
                            height as int,
                        )[j],
                decreases width - x,
            {
                let count = live_neighbors(&self.life, width, height, x, y);
                let k = flat(width, height, x, y);
                let current = self.life.get(k);
                let next: u32 = if current == 1 {
                    if count == 2 || count == 3 {
                        1
                    } else {
                        0
                    }
                } else {
                    if count == 3 {
                        1
                    } else {
                        0
                    }
                };
                self.new_life.set(k, next);
                proof {
                    lemma_flat_index(width as int, height as int, x as int, y as int);
                    assert(next == next_cell(s0, width as int, height as int, x as int, y as int));
                    assert(step_spec(s0, width as int, height as int)[k as int] == next_cell(
                        s0,
                        width as int,
                        height as int,
                        x as int,
                        y as int,
                    ));
                }
                x = x + 1;
            }
            proof {
                assert((y + 1) * width == y * width + width) by (nonlinear_arith);
            }
            y = y + 1;
        }
        proof {
            assert(height * width == width * height) by (nonlinear_arith);
        }
        self.life.copy_from(&self.new_life);
        proof {
            assert(self.life@ =~= step_spec(s0, width as int, height as int));
            assert forall|i: int| 0 <= i < self.life@.len() implies self.life@[i] == 0
                || self.life@[i] == 1 by {
                assert(self.life@[i] == next_cell(
                    s0,
                    width as int,
                    height as int,
                    i % width as int,
                    i / width as int,
                ));
            }
            assert forall|x: int, y: int| 0 <= x < width && 0 <= y < height implies #[trigger] cell_at(
                self.life@,
                width as int,
                x,
                y,
            ) == next_cell(s0, width as int, height as int, x, y) by {
                lemma_flat_index(width as int, height as int, x, y);
            }
        }
    }
}

/// Count the live cells among the eight toroidally wrapped neighbours of
/// `(x, y)` in the given buffer.
fn live_neighbors(life: &FieldState, width: u32, height: u32, x: u32, y: u32) -> (count: u32)
    requires
        0 < width,
        0 < height,
        width * height <= u32::MAX,
        life@.len() == width * height,
        boolean_cells(life@),
        x < width,
        y < height,
    ensures
        count == neighbor_count(life@, width as int, height as int, x as int, y as int),
        count <= 8,
{
    let xl = if x == 0 {
        width - 1
    } else {
        x - 1
    };
    let xr = if x + 1 == width {
        0
    } else {
        x + 1
    };
    let yd = if y == 0 {
        height - 1
    } else {
        y - 1
    };
    let yu = if y + 1 == height {
        0
    } else {
        y + 1
    };
    let count = life.get(flat(width, height, xl, yd)) + life.get(flat(width, height, x, yd))
        + life.get(flat(width, height, xr, yd)) + life.get(flat(width, height, xl, y)) + life.get(
        flat(width, height, xr, y),
    ) + life.get(flat(width, height, xl, yu)) + life.get(flat(width, height, x, yu)) + life.get(
        flat(width, height, xr, yu),
    );
    count
}

/// Flat buffer index of an already in-range cell.
fn flat(width: u32, height: u32, x: u32, y: u32) -> (r: usize)
    requires
        x < width,
        y < height,
        width * height <= u32::MAX,
    ensures
        r == x + y * width,
        r < width * height,
{
    proof {
        lemma_flat_index(width as int, height as int, x as int, y as int);
    }
    (x as usize) + (y as usize) * (width as usize)
}

} // verus!
