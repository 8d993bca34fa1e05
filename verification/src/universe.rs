//! The [`Universe`]: fixed dimensions plus the current cell grid, with
//! the operations that construct, mutate, step and expose it.

use crate::bits;
use crate::bits::bits_of;
use crate::rules::all_dead;
use crate::rules::cell_at;
use crate::rules::kill_model;
use crate::rules::life_rule;
use crate::rules::live_neighbors;
use crate::rules::next_gen;
use crate::rules::seed_bit;
use crate::rules::seed_grid;
use crate::rules::wrap_dec;
use crate::rules::wrap_inc;
use crate::rules::coord_index;
use crate::rules::coord_listed;
use crate::rules::coord_listed_upto;
use vstd::arithmetic::div_mod::lemma_fundamental_div_mod_converse;
use fixedbitset::FixedBitSet;
use vstd::prelude::*;

verus! {

/// The two states of a cell. The grid stores one bit per cell: `Dead`
/// is bit value 0 and `Alive` is bit value 1.
#[derive(Clone, Copy, Debug, PartialEq, Eq, Structural)]
pub enum Cell {
    Dead,
    Alive,
}

/// A fixed-size toroidal Life grid: `width * height` cells, one bit
/// each, row-major, the cell at `(row, col)` at index
/// `row * width + col`.
pub struct Universe {
    width: u32,
    height: u32,
    cells: FixedBitSet,
}

impl View for Universe {
    type V = Seq<bool>;

    /// The grid as a sequence of booleans, `true` for Alive.
    closed spec fn view(&self) -> Seq<bool> {
        bits_of(self.cells)
    }
}

impl Universe {
    /// The width, as a mathematical integer.
    pub closed spec fn spec_width(&self) -> int {
        self.width as int
    }

    /// The height, as a mathematical integer.
    pub closed spec fn spec_height(&self) -> int {
        self.height as int
    }

    /// The number of cells.
    pub open spec fn size(&self) -> int {
        self.spec_width() * self.spec_height()
    }

    /// Well-formedness: positive dimensions, a cell count that fits in
    /// a `u32`, and a grid of exactly `width * height` bits.
    pub open spec fn wf(&self) -> bool {
        &&& 0 < self.spec_width()
        &&& 0 < self.spec_height()
        &&& self.size() <= u32::MAX as int
        &&& self@.len() == self.size()
    }

    /// A fresh 64-by-64 universe holding the deterministic seed
    /// pattern: cell `i` Alive exactly when `i % 2 == 0 || i % 7 == 0`.
    pub fn new() -> (u: Universe)
        ensures
            u.wf(),
            u.spec_width() == 64,
            u.spec_height() == 64,
            u@ == seed_grid((64 * 64) as nat),
    {
        let width: u32 = 64;
        let height: u32 = 64;
        let size: usize = 64 * 64;
        let cells = seeded_cells(size);
        Universe { width, height, cells }
    }

    /// The freshly seeded grid for the current dimensions.
    fn construct_cells(&self) -> (r: FixedBitSet)
        requires
            0 < self.spec_width(),
            0 < self.spec_height(),
            self.spec_width() * self.spec_height() <= u32::MAX as int,
        ensures
            bits_of(r) == seed_grid((self.spec_width() * self.spec_height()) as nat),
    {
        let size: usize = (self.width * self.height) as usize;
        seeded_cells(size)
    }

    /// Reassigns the width and reseeds the grid deterministically at
    /// the new size, discarding the prior state.
    pub fn set_width(&mut self, width: u32)
        requires
            old(self).wf(),
            0 < width,
            width as int * old(self).spec_height() <= u32::MAX as int,
        ensures
            final(self).wf(),
            final(self).spec_width() == width as int,
            final(self).spec_height() == old(self).spec_height(),
            final(self)@ == seed_grid((width as int * old(self).spec_height()) as nat),
    {
        self.width = width;
        self.cells = self.construct_cells();
    }

    /// Reassigns the height and reseeds the grid deterministically at
    /// the new size, discarding the prior state.
    pub fn set_height(&mut self, height: u32)
        requires
            old(self).wf(),
            0 < height,
            old(self).spec_width() * height as int <= u32::MAX as int,
        ensures
            final(self).wf(),
            final(self).spec_width() == old(self).spec_width(),
            final(self).spec_height() == height as int,
            final(self)@ == seed_grid((old(self).spec_width() * height as int) as nat),
    {
        self.height = height;
        self.cells = self.construct_cells();
    }

    /// The current width.
    pub fn width(&self) -> (r: u32)
        ensures
            r as int == self.spec_width(),
    {
        self.width
    }

    /// The current height.
    pub fn height(&self) -> (r: u32)
        ensures
            r as int == self.spec_height(),
    {
        self.height
    }

    /// The grid itself, read-only.
    pub fn get_cells(&self) -> (r: &FixedBitSet)
        ensures
            bits_of(*r) == self@,
    {
        &self.cells
    }

    /// The array index of the cell at `row`, `column`: the grid is
    /// row-major, so it is `row * width + column`.
    fn get_index(&self, row: u32, column: u32) -> (r: usize)
        requires
            self.wf(),
            (row as int) < self.spec_height(),
            (column as int) < self.spec_width(),
        ensures
            r as int == row as int * self.spec_width() + column as int,
            (r as int) < self@.len(),
    {
        proof {
            assert((row as int * self.spec_width() + column as int) < self.spec_width()
                * self.spec_height()) by (nonlinear_arith)
                requires
                    (row as int) < self.spec_height(),
                    (column as int) < self.spec_width(),
                    0 <= row as int,
                    0 <= column as int,
                    0 < self.spec_width(),
            ;
        }
        (row * self.width + column) as usize
    }

    /// Whether the cell at `row`, `column` is Alive.
    fn cell_alive(&self, row: u32, column: u32) -> (b: bool)
        requires
            self.wf(),
            (row as int) < self.spec_height(),
            (column as int) < self.spec_width(),
        ensures
            b == cell_at(self@, self.spec_width(), row as int, column as int),
    {
        let idx = self.get_index(row, column);
        bits::bitset_contains(&self.cells, idx)
    }

    /// The live-neighbor count of the cell at `row`, `column`: the
    /// number of Alive cells among the 8 toroidally adjacent positions,
    /// each axis wrapping at its edge.
    #[verifier::rlimit(60)]
    pub fn live_neighbor_count(&self, row: u32, column: u32) -> (count: u8)
        requires
            self.wf(),
            (row as int) < self.spec_height(),
            (column as int) < self.spec_width(),
        ensures
            count as int == live_neighbors(
                self@,
                self.spec_width(),
                self.spec_height(),
                row as int,
                column as int,
            ),
            count <= 8,
    {
        let up: u32 = if row == 0 {
            self.height - 1
        } else {
            row - 1
        };
        let down: u32 = if row == self.height - 1 {
            0
        } else {
            row + 1
        };
        let left: u32 = if column == 0 {
            self.width - 1
        } else {
            column - 1
        };
        let right: u32 = if column == self.width - 1 {
            0
        } else {
            column + 1
        };
        proof {
            assert(up as int == wrap_dec(row as int, self.spec_height()));
            assert(down as int == wrap_inc(row as int, self.spec_height()));
            assert(left as int == wrap_dec(column as int, self.spec_width()));
            assert(right as int == wrap_inc(column as int, self.spec_width()));
        }
        let mut count: u8 = 0;
        if self.cell_alive(up, left) {
            count = count + 1;
        }
        if self.cell_alive(up, column) {
            count = count + 1;
        }
        if self.cell_alive(up, right) {
            count = count + 1;
        }
        if self.cell_alive(row, left) {
            count = count + 1;
        }
        if self.cell_alive(row, right) {
            count = count + 1;
        }
        if self.cell_alive(down, left) {
            count = count + 1;
        }
        if self.cell_alive(down, column) {
            count = count + 1;
        }
        if self.cell_alive(down, right) {
            count = count + 1;
        }
        count
    }

    /// Advances the universe by one generation: every cell is evaluated
    /// against the pre-tick grid under the B3/S23 rule, and the whole
    /// next generation replaces the grid at once.
    #[verifier::loop_isolation(false)]
    pub fn tick(&mut self)
        requires
            old(self).wf(),
        ensures
            final(self).wf(),
            final(self).spec_width() == old(self).spec_width(),
            final(self).spec_height() == old(self).spec_height(),
            final(self)@ == next_gen(old(self)@, old(self).spec_width(), old(self).spec_height()),
    {
        let ghost g: Seq<bool> = self@;
        let ghost w: int = self.spec_width();
        let ghost h: int = self.spec_height();
        let mut next = bits::bitset_clone(&self.cells);
        let mut row: u32 = 0;
        while row < self.height
            invariant
                row <= self.height,
                bits_of(next).len() == g.len(),
                row as int * w <= g.len(),
                forall|i: int|
                    0 <= i < row as int * w ==> bits_of(next)[i] == next_gen(g, w, h)[i],
                forall|i: int| row as int * w <= i < g.len() ==> bits_of(next)[i] == g[i],
            decreases self.spec_height() - row as int,
        {
            let mut col: u32 = 0;
            while col < self.width
                invariant
                    col <= self.width,
                    row < self.height,
                    bits_of(next).len() == g.len(),
                    row as int * w + col as int <= g.len(),
                    forall|i: int|
                        0 <= i < row as int * w + col as int ==> bits_of(next)[i] == next_gen(
                            g,
                            w,
                            h,
                        )[i],
                    forall|i: int|
                        row as int * w + col as int <= i < g.len() ==> bits_of(next)[i] == g[i],
                decreases self.spec_width() - col as int,
            {
                let idx = self.get_index(row, col);
                let alive = bits::bitset_contains(&self.cells, idx);
                let neighbors = self.live_neighbor_count(row, col);
                let next_bit = if alive {
                    neighbors == 2 || neighbors == 3
                } else {
                    neighbors == 3
                };
                proof {
                    lemma_fundamental_div_mod_converse(idx as int, w, row as int, col as int);
                    assert(next_gen(g, w, h)[idx as int] == life_rule(
                        g[idx as int],
                        live_neighbors(g, w, h, row as int, col as int),
                    ));
                    assert(next_bit == next_gen(g, w, h)[idx as int]);
                }
                bits::bitset_set(&mut next, idx, next_bit);
                col = col + 1;
            }
            proof {
                assert((row as int + 1) * w == row as int * w + w) by (nonlinear_arith);
                assert((row as int + 1) * w <= w * h) by (nonlinear_arith)
                    requires
                        row as int + 1 <= h,
                        0 <= w,
                ;
            }
            row = row + 1;
        }
        proof {
            assert(row as int * w == w * h) by (nonlinear_arith)
                requires
                    row as int == h,
            ;
            assert(bits_of(next) =~= next_gen(g, w, h));
        }
        self.cells = next;
    }

    /// Sets exactly the listed `(row, column)` coordinates to Alive and
    /// leaves every other cell unchanged: seeding is additive, not a
    /// replacement.
    #[verifier::loop_isolation(false)]
    pub fn set_cells(&mut self, cells: &[(u32, u32)])
        requires
            old(self).wf(),
            forall|k: int|
                0 <= k < cells@.len() ==> ((#[trigger] cells@[k]).0 as int)
                    < old(self).spec_height() && ((cells@[k]).1 as int) < old(self).spec_width(),
        ensures
            final(self).wf(),
            final(self).spec_width() == old(self).spec_width(),
            final(self).spec_height() == old(self).spec_height(),
            final(self)@.len() == old(self)@.len(),
            forall|i: int|
                0 <= i < old(self)@.len() ==> (#[trigger] final(self)@[i] <==> (old(self)@[i]
                    || coord_listed(cells@, old(self).spec_width(), i))),
    {
        let ghost g: Seq<bool> = self@;
        let ghost w: int = self.spec_width();
        let mut next = bits::bitset_clone(&self.cells);
        let mut j: usize = 0;
        while j < cells.len()
            invariant
                j <= cells@.len(),
                bits_of(next).len() == g.len(),
                forall|i: int|
                    0 <= i < g.len() ==> (#[trigger] bits_of(next)[i] <==> (g[i]
                        || coord_listed_upto(cells@, w, i, j as int))),
            decreases cells@.len() - j as int,
        {
            let rc: &(u32, u32) = vstd::slice::slice_index_get(cells, j);
            let row: u32 = rc.0;
            let col: u32 = rc.1;
            let idx = self.get_index(row, col);
            bits::bitset_set(&mut next, idx, true);
            proof {
                assert(coord_index(cells@[j as int], w) == idx as int);
                assert forall|i: int| 0 <= i < g.len() implies (#[trigger] bits_of(next)[i] <==> (
                g[i] || coord_listed_upto(cells@, w, i, j as int + 1))) by {
                    if i == idx as int {
                        assert(coord_listed_upto(cells@, w, i, j as int + 1));
                    } else {
                        if coord_listed_upto(cells@, w, i, j as int + 1) {
                            let k = choose|k: int|
                                0 <= k < j as int + 1 && k < cells@.len() && i == coord_index(
                                    cells@[k],
                                    w,
                                );
                            assert(k < j as int);
                            assert(coord_listed_upto(cells@, w, i, j as int));
                        }
                    }
                }
            }
            j = j + 1;
        }
        self.cells = next;
    }

    /// Replaces the grid with the all-Dead grid of the current size.
    pub fn kill_all(&mut self)
        requires
            old(self).wf(),
        ensures
            final(self).wf(),
            final(self).spec_width() == old(self).spec_width(),
            final(self).spec_height() == old(self).spec_height(),
            final(self)@ == kill_model(
                old(self)@,
                (old(self).spec_width() * old(self).spec_height()) as nat,
            ),
    {
        let size: usize = (self.width * self.height) as usize;
        self.cells = bits::bitset_with_capacity(size);
        proof {
            assert(self@ =~= all_dead(size as nat));
        }
    }

    /// The packed grid storage, read-only, for external rendering: one
    /// bit per cell, row-major, 32 cells per `u32` block, cell `i` at
    /// bit position `i % 32` of block `i / 32`.
    pub fn cells(&self) -> (r: &[u32])
        ensures
            32 * r@.len() >= self@.len(),
            forall|i: int|
                0 <= i < self@.len() ==> (self@[i] <==> (r@[i / 32] >> ((i % 32) as u32)) & 1
                    == 1),
    {
        bits::bitset_as_slice(&self.cells)
    }
}

/// The seeded grid of `size` bits: bit `i` set exactly when
/// `i % 2 == 0 || i % 7 == 0`.
fn seeded_cells(size: usize) -> (r: FixedBitSet)
    ensures
        bits_of(r) == seed_grid(size as nat),
{
    let mut cells = bits::bitset_with_capacity(size);
    let mut i: usize = 0;
    while i < size
        invariant
            i <= size,
            bits_of(cells).len() == size,
            forall|j: int| 0 <= j < i ==> bits_of(cells)[j] == seed_bit(j),
            forall|j: int| i <= j < size ==> !bits_of(cells)[j],
        decreases size - i,
    {
        bits::bitset_set(&mut cells, i, i % 2 == 0 || i % 7 == 0);
        i = i + 1;
    }
    proof {
        assert(bits_of(cells) =~= seed_grid(size as nat));
    }
    cells
}

} // verus!
