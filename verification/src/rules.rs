//! The mathematical model of the simulation: a grid is a `Seq<bool>` of
//! length `width * height`, row-major, `true` for Alive, and one
//! generation is the pure function [`next_gen`] of the previous grid.

use vstd::prelude::*;

verus! {

/// The deterministic construction seed: cell `i` starts Alive exactly
/// when `i % 2 == 0 || i % 7 == 0`.
pub open spec fn seed_bit(i: int) -> bool {
    i % 2 == 0 || i % 7 == 0
}

/// The freshly seeded grid of `n` cells.
pub open spec fn seed_grid(n: nat) -> Seq<bool> {
    Seq::new(n, |i: int| seed_bit(i))
}

/// The all-Dead grid of `n` cells.
pub open spec fn all_dead(n: nat) -> Seq<bool> {
    Seq::new(n, |i: int| false)
}

/// What clearing the whole grid leaves behind, whatever was there: the
/// all-Dead grid of the universe's size.
pub open spec fn kill_model(g: Seq<bool>, n: nat) -> Seq<bool> {
    all_dead(n)
}

/// One step towards the previous row or column, wrapping from 0 to
/// `n - 1`: the toroidal topology has no special-cased edge.
pub open spec fn wrap_dec(i: int, n: int) -> int {
    if i == 0 {
        n - 1
    } else {
        i - 1
    }
}

/// One step towards the next row or column, wrapping from `n - 1` to 0.
pub open spec fn wrap_inc(i: int, n: int) -> int {
    if i == n - 1 {
        0
    } else {
        i + 1
    }
}

/// The cell of `g` at `row` and `col` in a grid `w` cells wide.
pub open spec fn cell_at(g: Seq<bool>, w: int, row: int, col: int) -> bool {
    g[row * w + col]
}

/// An Alive cell counts 1, a Dead cell 0.
pub open spec fn b2i(b: bool) -> int {
    if b {
        1
    } else {
        0
    }
}

/// The live-neighbor count of the cell at `row`, `col`: the sum over
/// the 8 toroidally adjacent positions of their Alive values. When a
/// dimension is below 3, positions coincide and a cell is counted once
/// per position, exactly as summing over the offset pairs does.
pub open spec fn live_neighbors(g: Seq<bool>, w: int, h: int, row: int, col: int) -> int {
    let up = wrap_dec(row, h);
    let down = wrap_inc(row, h);
    let left = wrap_dec(col, w);
    let right = wrap_inc(col, w);
    b2i(cell_at(g, w, up, left)) + b2i(cell_at(g, w, up, col)) + b2i(cell_at(g, w, up, right))
        + b2i(cell_at(g, w, row, left)) + b2i(cell_at(g, w, row, right)) + b2i(
        cell_at(g, w, down, left),
    ) + b2i(cell_at(g, w, down, col)) + b2i(cell_at(g, w, down, right))
}

/// The B3/S23 Life rule: an Alive cell survives with 2 or 3 live
/// neighbors, a Dead cell is born with exactly 3, all else is Dead.
pub open spec fn life_rule(alive: bool, neighbors: int) -> bool {
    if alive {
        neighbors == 2 || neighbors == 3
    } else {
        neighbors == 3
    }
}

/// The next generation: every cell is evaluated against the previous
/// grid, so the transition is a pure function of that grid alone.
pub open spec fn next_gen(g: Seq<bool>, w: int, h: int) -> Seq<bool> {
    Seq::new(g.len(), |i: int| life_rule(g[i], live_neighbors(g, w, h, i / w, i % w)))
}

/// The array index named by a `(row, column)` pair in a grid `w` cells
/// wide.
pub open spec fn coord_index(rc: (u32, u32), w: int) -> int {
    rc.0 as int * w + rc.1 as int
}

/// Whether one of the first `j` pairs of `cs` names the array index `i`.
pub open spec fn coord_listed_upto(cs: Seq<(u32, u32)>, w: int, i: int, j: int) -> bool {
    exists|k: int| 0 <= k < j && k < cs.len() && i == coord_index(#[trigger] cs[k], w)
}

/// Whether some pair of `cs` names the array index `i`.
pub open spec fn coord_listed(cs: Seq<(u32, u32)>, w: int, i: int) -> bool {
    coord_listed_upto(cs, w, i, cs.len() as int)
}

/// Whether array index `i` falls on the 2-by-2 block of Alive cells
/// whose top-left corner sits at `(r, c)`, in a grid `w` cells wide.
pub open spec fn on_block(w: int, r: int, c: int, i: int) -> bool {
    (i / w == r || i / w == r + 1) && (i % w == c || i % w == c + 1)
}

/// The grid of `w * h` cells holding exactly a 2-by-2 block of Alive
/// cells with its top-left corner at `(r, c)`, all other cells Dead.
pub open spec fn block_grid(w: int, h: int, r: int, c: int) -> Seq<bool> {
    Seq::new((w * h) as nat, |i: int| on_block(w, r, c, i))
}

/// The grid after `n` generations.
pub open spec fn ticks(g: Seq<bool>, w: int, h: int, n: nat) -> Seq<bool>
    decreases n,
{
    if n == 0 {
        g
    } else {
        next_gen(ticks(g, w, h, (n - 1) as nat), w, h)
    }
}

} // verus!
