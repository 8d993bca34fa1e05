//! The laws of the simulation, stated over the model in [`crate::rules`]
//! and proved once and for all.

use crate::rules::block_grid;
use crate::rules::cell_at;
use crate::rules::kill_model;
use crate::rules::life_rule;
use crate::rules::live_neighbors;
use crate::rules::next_gen;
use crate::rules::ticks;
use crate::rules::wrap_dec;
use crate::rules::wrap_inc;
use vstd::arithmetic::div_mod::lemma_fundamental_div_mod;
use vstd::arithmetic::div_mod::lemma_fundamental_div_mod_converse;
use vstd::arithmetic::div_mod::lemma_mod_bound;
use vstd::prelude::*;

verus! {

/// The cell of the block grid at `(row, col)` is Alive exactly when
/// the coordinates fall on the block.
proof fn lemma_block_at(w: int, h: int, r: int, c: int, row: int, col: int)
    requires
        0 < w,
        0 < h,
        0 <= row < h,
        0 <= col < w,
    ensures
        cell_at(block_grid(w, h, r, c), w, row, col) == ((row == r || row == r + 1) && (col == c
            || col == c + 1)),
{
    assert(0 <= row * w + col && row * w + col < w * h) by (nonlinear_arith)
        requires
            0 <= row < h,
            0 <= col < w,
            0 < w,
    ;
    lemma_fundamental_div_mod_converse(row * w + col, w, row, col);
}

/// One generation leaves every cell of the block grid unchanged: the
/// four block cells each have 3 live neighbors and survive, and every
/// other cell has at most 2 live neighbors and stays Dead.
#[verifier::rlimit(100)]
proof fn lemma_block_cell(w: int, h: int, r: int, c: int, row: int, col: int)
    requires
        1 <= r,
        r + 2 < h,
        1 <= c,
        c + 2 < w,
        0 <= row < h,
        0 <= col < w,
    ensures
        life_rule(
            cell_at(block_grid(w, h, r, c), w, row, col),
            live_neighbors(block_grid(w, h, r, c), w, h, row, col),
        ) == cell_at(block_grid(w, h, r, c), w, row, col),
{
    let up = wrap_dec(row, h);
    let down = wrap_inc(row, h);
    let left = wrap_dec(col, w);
    let right = wrap_inc(col, w);
    lemma_block_at(w, h, r, c, row, col);
    lemma_block_at(w, h, r, c, up, left);
    lemma_block_at(w, h, r, c, up, col);
    lemma_block_at(w, h, r, c, up, right);
    lemma_block_at(w, h, r, c, row, left);
    lemma_block_at(w, h, r, c, row, right);
    lemma_block_at(w, h, r, c, down, left);
    lemma_block_at(w, h, r, c, down, col);
    lemma_block_at(w, h, r, c, down, right);
}

/// Still life: a 2-by-2 block of Alive cells with a margin of Dead
/// cells on every side is unchanged by one generation.
pub proof fn lemma_block_still_life(w: int, h: int, r: int, c: int)
    requires
        1 <= r,
        r + 2 < h,
        1 <= c,
        c + 2 < w,
    ensures
        next_gen(block_grid(w, h, r, c), w, h) == block_grid(w, h, r, c),
{
    let g = block_grid(w, h, r, c);
    assert forall|i: int| 0 <= i < g.len() implies next_gen(g, w, h)[i] == g[i] by {
        lemma_fundamental_div_mod(i, w);
        lemma_mod_bound(i, w);
        let row = i / w;
        let col = i % w;
        assert(0 <= row && row < h) by (nonlinear_arith)
            requires
                i == w * row + col,
                0 <= col < w,
                0 <= i,
                i < w * h,
                0 < w,
        ;
        lemma_block_cell(w, h, r, c, row, col);
        assert(cell_at(g, w, row, col) == g[i]) by {
            assert(row * w + col == i) by (nonlinear_arith)
                requires
                    i == w * row + col,
            ;
        }
    }
    assert(next_gen(g, w, h) =~= g);
}

/// Still life, for every number of generations: the 2-by-2 block with
/// a Dead margin never changes, however often the universe is stepped.
pub proof fn lemma_block_still_life_forever(w: int, h: int, r: int, c: int, n: nat)
    requires
        1 <= r,
        r + 2 < h,
        1 <= c,
        c + 2 < w,
    ensures
        ticks(block_grid(w, h, r, c), w, h, n) == block_grid(w, h, r, c),
    decreases n,
{
    if n > 0 {
        lemma_block_still_life_forever(w, h, r, c, (n - 1) as nat);
        lemma_block_still_life(w, h, r, c);
    }
}

/// Determinism: the generation update is a pure function of the prior
/// grid, so two universes holding the same grid agree after any number
/// of generations.
pub proof fn lemma_deterministic(g1: Seq<bool>, g2: Seq<bool>, w: int, h: int, n: nat)
    requires
        g1 == g2,
    ensures
        ticks(g1, w, h, n) == ticks(g2, w, h, n),
{
}

/// Clearing the grid is idempotent: a second `kill_all` leaves exactly
/// the all-Dead grid the first one left.
pub proof fn lemma_kill_all_idempotent(g: Seq<bool>, n: nat)
    ensures
        kill_model(kill_model(g, n), n) == kill_model(g, n),
{
}

} // verus!
