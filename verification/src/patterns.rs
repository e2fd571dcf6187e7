//! Distinguished patterns of the rule: the still-life "block" and the
//! period-two "blinker", with proofs of how the step treats them.

use vstd::prelude::*;

verus! {

use crate::field::lemma_flat_index;
use crate::field::lemma_index_split;
use crate::life::cell_at;
use crate::life::iterate_step;
use crate::life::next_cell;
use crate::life::step_spec;
use crate::life::wrap_dec;
use crate::life::wrap_inc;

/// Cell `(x, y)` belongs to the 2x2 block anchored at `(bx, by)`.
pub open spec fn in_block(bx: int, by: int, x: int, y: int) -> bool {
    bx <= x <= bx + 1 && by <= y <= by + 1
}

/// The field holds exactly a 2x2 block at `(bx, by)`: those four cells are
/// alive and every other cell is dead.
pub open spec fn is_block_field(s: Seq<u32>, width: int, height: int, bx: int, by: int) -> bool {
    &&& s.len() == width * height
    &&& forall|x: int, y: int|
        0 <= x < width && 0 <= y < height ==> #[trigger] cell_at(s, width, x, y) == (if in_block(
            bx,
            by,
            x,
            y,
        ) {
            1u32
        } else {
            0u32
        })
}

/// A block is a fixed point of the step: each of its cells keeps two or
/// three live neighbours, and no dead cell gathers three.
pub proof fn lemma_block_fixed(s: Seq<u32>, width: int, height: int, bx: int, by: int)
    requires
        3 <= width,
        3 <= height,
        0 <= bx,
        bx + 2 <= width,
        0 <= by,
        by + 2 <= height,
        is_block_field(s, width, height, bx, by),
    ensures
        step_spec(s, width, height) == s,
{
    assert forall|i: int| 0 <= i < width * height implies #[trigger] step_spec(s, width, height)[i]
        == s[i] by {
        lemma_index_split(width, height, i);
        let x: int = i % width;
        let y: int = i / width;
        let xl: int = wrap_dec(x, width);
        let xr: int = wrap_inc(x, width);
        let yd: int = wrap_dec(y, height);
        let yu: int = wrap_inc(y, height);
        assert(cell_at(s, width, xl, yd) == (if in_block(bx, by, xl, yd) {
            1u32
        } else {
            0u32
        }));
        assert(cell_at(s, width, x, yd) == (if in_block(bx, by, x, yd) {
            1u32
        } else {
            0u32
        }));
        assert(cell_at(s, width, xr, yd) == (if in_block(bx, by, xr, yd) {
            1u32
        } else {
            0u32
        }));
        assert(cell_at(s, width, xl, y) == (if in_block(bx, by, xl, y) {
            1u32
        } else {
            0u32
        }));
        assert(cell_at(s, width, xr, y) == (if in_block(bx, by, xr, y) {
            1u32
        } else {
            0u32
        }));
        assert(cell_at(s, width, xl, yu) == (if in_block(bx, by, xl, yu) {
            1u32
        } else {
            0u32
        }));
        assert(cell_at(s, width, x, yu) == (if in_block(bx, by, x, yu) {
            1u32
        } else {
            0u32
        }));
        assert(cell_at(s, width, xr, yu) == (if in_block(bx, by, xr, yu) {
            1u32
        } else {
            0u32
        }));
        assert(cell_at(s, width, x, y) == s[i]);
        assert(next_cell(s, width, height, x, y) == cell_at(s, width, x, y));
    };
    assert(step_spec(s, width, height) =~= s);
}

/// Stability: a 2x2 block pattern is unchanged after any number of steps.
pub proof fn lemma_block_stable(s: Seq<u32>, width: int, height: int, bx: int, by: int, n: nat)
    requires
        3 <= width,
        3 <= height,
        0 <= bx,
        bx + 2 <= width,
        0 <= by,
        by + 2 <= height,
        is_block_field(s, width, height, bx, by),
    ensures
        iterate_step(s, width, height, n) == s,
    decreases n,
{
    if n > 0 {
        lemma_block_stable(s, width, height, bx, by, (n - 1) as nat);
        lemma_block_fixed(s, width, height, bx, by);
    }
}

/// The field holds exactly a horizontal blinker: the three cells
/// `(bx .. bx + 2, by)` are alive and every other cell is dead.
pub open spec fn is_blinker_row(s: Seq<u32>, width: int, height: int, bx: int, by: int) -> bool {
    &&& s.len() == width * height
    &&& forall|x: int, y: int|
        0 <= x < width && 0 <= y < height ==> #[trigger] cell_at(s, width, x, y) == (if y == by
            && bx <= x <= bx + 2 {
            1u32
        } else {
            0u32
        })
}

/// The field holds exactly a vertical blinker: the three cells
/// `(bx + 1, by - 1 .. by + 1)` are alive and every other cell is dead.
pub open spec fn is_blinker_column(s: Seq<u32>, width: int, height: int, bx: int, by: int) -> bool {
    &&& s.len() == width * height
    &&& forall|x: int, y: int|
        0 <= x < width && 0 <= y < height ==> #[trigger] cell_at(s, width, x, y) == (if x == bx + 1
            && by - 1 <= y <= by + 1 {
            1u32
        } else {
            0u32
        })
}

/// One step turns a horizontal blinker into the vertical one through its
/// centre.
proof fn lemma_blinker_flip(s: Seq<u32>, width: int, height: int, bx: int, by: int)
    requires
        1 <= bx,
        bx + 4 <= width,
        2 <= by,
        by + 3 <= height,
        is_blinker_row(s, width, height, bx, by),
    ensures
        is_blinker_column(step_spec(s, width, height), width, height, bx, by),
{
    let t = step_spec(s, width, height);
    assert forall|x: int, y: int| 0 <= x < width && 0 <= y < height implies #[trigger] cell_at(
        t,
        width,
        x,
        y,
    ) == (if x == bx + 1 && by - 1 <= y <= by + 1 {
        1u32
    } else {
        0u32
    }) by {
        lemma_flat_index(width, height, x, y);
        let xl: int = wrap_dec(x, width);
        let xr: int = wrap_inc(x, width);
        let yd: int = wrap_dec(y, height);
        let yu: int = wrap_inc(y, height);
        assert(cell_at(s, width, xl, yd) == (if yd == by && bx <= xl <= bx + 2 {
            1u32
        } else {
            0u32
        }));
        assert(cell_at(s, width, x, yd) == (if yd == by && bx <= x <= bx + 2 {
            1u32
        } else {
            0u32
        }));
        assert(cell_at(s, width, xr, yd) == (if yd == by && bx <= xr <= bx + 2 {
            1u32
        } else {
            0u32
        }));
        assert(cell_at(s, width, xl, y) == (if y == by && bx <= xl <= bx + 2 {
            1u32
        } else {
            0u32
        }));
        assert(cell_at(s, width, xr, y) == (if y == by && bx <= xr <= bx + 2 {
            1u32
        } else {
            0u32
        }));
        assert(cell_at(s, width, xl, yu) == (if yu == by && bx <= xl <= bx + 2 {
            1u32
        } else {
            0u32
        }));
        assert(cell_at(s, width, x, yu) == (if yu == by && bx <= x <= bx + 2 {
            1u32
        } else {
            0u32
        }));
        assert(cell_at(s, width, xr, yu) == (if yu == by && bx <= xr <= bx + 2 {
            1u32
        } else {
            0u32
        }));
        assert(cell_at(t, width, x, y) == next_cell(s, width, height, x, y));
    };
}

/// One step turns a vertical blinker back into the horizontal one.
proof fn lemma_blinker_flop(s: Seq<u32>, width: int, height: int, bx: int, by: int)
    requires
        1 <= bx,
        bx + 4 <= width,
        2 <= by,
        by + 3 <= height,
        is_blinker_column(s, width, height, bx, by),
    ensures
        is_blinker_row(step_spec(s, width, height), width, height, bx, by),
{
    let t = step_spec(s, width, height);
    assert forall|x: int, y: int| 0 <= x < width && 0 <= y < height implies #[trigger] cell_at(
        t,
        width,
        x,
        y,
    ) == (if y == by && bx <= x <= bx + 2 {
        1u32
    } else {
        0u32
    }) by {
        lemma_flat_index(width, height, x, y);
        let xl: int = wrap_dec(x, width);
        let xr: int = wrap_inc(x, width);
        let yd: int = wrap_dec(y, height);
        let yu: int = wrap_inc(y, height);
        assert(cell_at(s, width, xl, yd) == (if xl == bx + 1 && by - 1 <= yd <= by + 1 {
            1u32
        } else {
            0u32
        }));
        assert(cell_at(s, width, x, yd) == (if x == bx + 1 && by - 1 <= yd <= by + 1 {
            1u32
        } else {
            0u32
        }));
        assert(cell_at(s, width, xr, yd) == (if xr == bx + 1 && by - 1 <= yd <= by + 1 {
            1u32
        } else {
            0u32
        }));
        assert(cell_at(s, width, xl, y) == (if xl == bx + 1 && by - 1 <= y <= by + 1 {
            1u32
        } else {
            0u32
        }));
        assert(cell_at(s, width, xr, y) == (if xr == bx + 1 && by - 1 <= y <= by + 1 {
            1u32
        } else {
            0u32
        }));
        assert(cell_at(s, width, xl, yu) == (if xl == bx + 1 && by - 1 <= yu <= by + 1 {
            1u32
        } else {
            0u32
        }));
        assert(cell_at(s, width, x, yu) == (if x == bx + 1 && by - 1 <= yu <= by + 1 {
            1u32
        } else {
            0u32
        }));
        assert(cell_at(s, width, xr, yu) == (if xr == bx + 1 && by - 1 <= yu <= by + 1 {
            1u32
        } else {
            0u32
        }));
        assert(cell_at(t, width, x, y) == next_cell(s, width, height, x, y));
    };
}

/// Oscillation: a horizontal blinker placed away from the field's edges
/// returns to its original configuration after exactly two steps: the first
/// step transposes it (so the field does change), the second restores it.
pub proof fn lemma_blinker_oscillates(s: Seq<u32>, width: int, height: int, bx: int, by: int)
    requires
        1 <= bx,
        bx + 4 <= width,
        2 <= by,
        by + 3 <= height,
        is_blinker_row(s, width, height, bx, by),
    ensures
        iterate_step(s, width, height, 2) == s,
        step_spec(s, width, height) != s,
{
    let t = step_spec(s, width, height);
    let u = step_spec(t, width, height);
    lemma_blinker_flip(s, width, height, bx, by);
    lemma_blinker_flop(t, width, height, bx, by);
    assert forall|i: int| 0 <= i < width * height implies u[i] == s[i] by {
        lemma_index_split(width, height, i);
        let x: int = i % width;
        let y: int = i / width;
        assert(cell_at(u, width, x, y) == (if y == by && bx <= x <= bx + 2 {
            1u32
        } else {
            0u32
        }));
        assert(cell_at(s, width, x, y) == (if y == by && bx <= x <= bx + 2 {
            1u32
        } else {
            0u32
        }));
    };
    assert(u =~= s);
    assert(iterate_step(s, width, height, 0) == s);
    assert(iterate_step(s, width, height, 1) == t);
    assert(iterate_step(s, width, height, 2) == u);
    lemma_flat_index(width, height, bx, by);
    assert(cell_at(s, width, bx, by) == 1);
    assert(cell_at(t, width, bx, by) == 0);
    assert(s[bx + by * width] != t[bx + by * width]);
}

} // verus!
