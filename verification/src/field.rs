//! The field: its dimensions, the flat liveness buffers, and the toroidal
//! cell indexing that both the simulation and the renderer rely on.

use vstd::prelude::*;

verus! {

use vstd::arithmetic::div_mod::lemma_fundamental_div_mod;
use vstd::arithmetic::div_mod::lemma_fundamental_div_mod_converse_div;
use vstd::arithmetic::div_mod::lemma_fundamental_div_mod_converse_mod;
use vstd::arithmetic::div_mod::lemma_mod_add_multiples_vanish;
use vstd::arithmetic::div_mod::lemma_small_mod;

/// Flat index of cell `(x, y)` on a toroidal `width x height` field.
/// Coordinates outside `[0, width) x [0, height)` wrap modulo the dimension,
/// so opposite edges of the field are adjacent.
pub open spec fn idx(width: int, height: int, x: int, y: int) -> int {
    (x % width) + (y % height) * width
}

/// Splitting a flat index back into the coordinates it came from:
/// for in-range `(x, y)` the flat index determines them uniquely.
pub proof fn lemma_flat_index(width: int, height: int, x: int, y: int)
    requires
        0 < width,
        0 < height,
        0 <= x < width,
        0 <= y < height,
    ensures
        0 <= x + y * width < width * height,
        (x + y * width) % width == x,
        (x + y * width) / width == y,
{
    assert(0 <= x + y * width < width * height) by (nonlinear_arith)
        requires
            0 < width,
            0 < height,
            0 <= x < width,
            0 <= y < height,
    ;
    lemma_fundamental_div_mod_converse_mod(x + y * width, width, y, x);
    lemma_fundamental_div_mod_converse_div(x + y * width, width, y, x);
}

/// A flat index below `width * height` names the cell
/// `(i % width, i / width)`, which lies inside the field.
pub proof fn lemma_index_split(width: int, height: int, i: int)
    requires
        0 < width,
        0 < height,
        0 <= i < width * height,
    ensures
        0 <= i % width < width,
        0 <= i / width < height,
        i == (i % width) + (i / width) * width,
{
    lemma_fundamental_div_mod(i, width);
    assert(i == (i % width) + (i / width) * width) by (nonlinear_arith)
        requires
            i == width * (i / width) + i % width,
    ;
    assert(0 <= i % width < width) by (nonlinear_arith)
        requires
            0 < width,
            0 <= i,
    ;
    assert(0 <= i / width < height) by (nonlinear_arith)
        requires
            0 < width,
            0 < height,
            0 <= i < width * height,
            i == width * (i / width) + i % width,
            0 <= i % width < width,
    ;
}

/// Some in-range cell has flat index `i`; the surjective half of the
/// bijection stated by [`lemma_idx_bijective`].
pub open spec fn some_cell_maps_to(width: int, height: int, i: int) -> bool {
    exists|x: int, y: int|
        0 <= x < width && 0 <= y < height && #[trigger] idx(width, height, x, y) == i
}

/// `idx` restricted to `[0, width) x [0, height)` is a bijection onto
/// `[0, width * height)`: every in-range pair lands inside that interval,
/// no two distinct in-range pairs collide, and every index is hit.
pub proof fn lemma_idx_bijective(width: int, height: int)
    requires
        0 < width,
        0 < height,
    ensures
        forall|x: int, y: int|
            0 <= x < width && 0 <= y < height ==> 0 <= #[trigger] idx(width, height, x, y) < width
                * height,
        forall|x1: int, y1: int, x2: int, y2: int|
            0 <= x1 < width && 0 <= y1 < height && 0 <= x2 < width && 0 <= y2 < height && #[trigger] idx(
                width,
                height,
                x1,
                y1,
            ) == #[trigger] idx(width, height, x2, y2) ==> x1 == x2 && y1 == y2,
        forall|i: int| 0 <= i < width * height ==> #[trigger] some_cell_maps_to(width, height, i),
{
    assert forall|x: int, y: int| 0 <= x < width && 0 <= y < height implies 0 <= #[trigger] idx(
        width,
        height,
        x,
        y,
    ) < width * height by {
        lemma_small_mod(x as nat, width as nat);
        lemma_small_mod(y as nat, height as nat);
        lemma_flat_index(width, height, x, y);
    }
    assert forall|x1: int, y1: int, x2: int, y2: int|
        0 <= x1 < width && 0 <= y1 < height && 0 <= x2 < width && 0 <= y2 < height && #[trigger] idx(
            width,
            height,
            x1,
            y1,
        ) == #[trigger] idx(width, height, x2, y2) implies x1 == x2 && y1 == y2 by {
        lemma_small_mod(x1 as nat, width as nat);
        lemma_small_mod(y1 as nat, height as nat);
        lemma_small_mod(x2 as nat, width as nat);
        lemma_small_mod(y2 as nat, height as nat);
        lemma_flat_index(width, height, x1, y1);
        lemma_flat_index(width, height, x2, y2);
    }
    assert forall|i: int| 0 <= i < width * height implies #[trigger] some_cell_maps_to(
        width,
        height,
        i,
    ) by {
        lemma_index_split(width, height, i);
        let x: int = i % width;
        let y: int = i / width;
        lemma_small_mod(x as nat, width as nat);
        lemma_small_mod(y as nat, height as nat);
        assert(idx(width, height, x, y) == i);
    }
}

/// Toroidal invariance: shifting a coordinate by a whole field dimension
/// names the same cell.
pub proof fn lemma_idx_toroidal(width: int, height: int, x: int, y: int)
    requires
        0 < width,
        0 < height,
    ensures
        idx(width, height, x + width, y) == idx(width, height, x, y),
        idx(width, height, x, y + height) == idx(width, height, x, y),
{
    lemma_mod_add_multiples_vanish(x, width);
    lemma_mod_add_multiples_vanish(y, height);
}

/// Dimensions of the field, fixed at construction.
#[derive(Clone, Copy, Debug, PartialEq, Eq, Structural)]
pub struct FieldInfo {
    width: u32,
    height: u32,
}

impl FieldInfo {
    /// Width of the field, in cells.
    pub closed spec fn spec_width(&self) -> u32 {
        self.width
    }

    /// Height of the field, in cells.
    pub closed spec fn spec_height(&self) -> u32 {
        self.height
    }

    /// Dimensions are positive and the cell count fits the `u32` indices
    /// carried by rendering instances.
    pub open spec fn wf(&self) -> bool {
        &&& 0 < self.spec_width()
        &&& 0 < self.spec_height()
        &&& self.spec_width() * self.spec_height() <= u32::MAX
    }

    pub fn new(width: u32, height: u32) -> (r: FieldInfo)
        requires
            0 < width,
            0 < height,
            width * height <= u32::MAX,
        ensures
            r.wf(),
            r.spec_width() == width,
            r.spec_height() == height,
    {
        FieldInfo { width, height }
    }

    pub fn width(&self) -> (r: u32)
        ensures
            r == self.spec_width(),
    {
        self.width
    }

    pub fn height(&self) -> (r: u32)
        ensures
            r == self.spec_height(),
    {
        self.height
    }
}

/// Every entry of a liveness buffer is `0` (dead) or `1` (alive).
pub open spec fn boolean_cells(s: Seq<u32>) -> bool {
    forall|i: int| 0 <= i < s.len() ==> s[i] == 0 || s[i] == 1
}

/// A flat buffer of one liveness value per cell.
pub struct FieldState {
    cells: Vec<u32>,
}

impl View for FieldState {
    type V = Seq<u32>;

    closed spec fn view(&self) -> Seq<u32> {
        self.cells@
    }
}

impl FieldState {
    /// A buffer holding the given liveness values.
    pub fn new(state: &Vec<u32>) -> (r: FieldState)
        requires
            boolean_cells(state@),
        ensures
            r@ == state@,
    {
        let mut cells: Vec<u32> = Vec::new();
        let mut i: usize = 0;
        while i < state.len()
            invariant
                i <= state@.len(),
                cells@ == state@.subrange(0, i as int),
            decreases state@.len() - i,
        {
            cells.push(state[i]);
            proof {
                assert(cells@ =~= state@.subrange(0, i + 1));
            }
            i = i + 1;
        }
        proof {
            assert(cells@ =~= state@);
        }
        FieldState { cells }
    }

    pub fn len(&self) -> (r: usize)
        ensures
            r == self@.len(),
    {
        self.cells.len()
    }

    /// Liveness at flat index `i`.
    pub fn get(&self, i: usize) -> (r: u32)
        requires
            i < self@.len(),
        ensures
            r == self@[i as int],
    {
        self.cells[i]
    }

    /// Overwrite the liveness at flat index `i`.
    pub(crate) fn set(&mut self, i: usize, value: u32)
        requires
            i < old(self)@.len(),
        ensures
            final(self)@ == old(self)@.update(i as int, value),
    {
        self.cells[i] = value;
    }

    /// Replace this buffer's contents with those of `other`.
    /// The two buffers must already have identical lengths; a mismatch is a
    /// broken invariant that callers may never present.
    pub fn copy_from(&mut self, other: &FieldState)
        requires
            old(self)@.len() == other@.len(),
        ensures
            final(self)@ == other@,
    {
        let n = other.len();
        let mut i: usize = 0;
        while i < n
            invariant
                i <= n,
                n == other@.len(),
                self@.len() == n,
                forall|j: int| 0 <= j < i ==> self@[j] == other@[j],
            decreases n - i,
        {
            let value = other.get(i);
            self.set(i, value);
            i = i + 1;
        }
        proof {
            assert(self@ =~= other@);
        }
    }
}

} // verus!
