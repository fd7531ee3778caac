//! Two well-known patterns and what becomes of them: the block, which stays,
//! and the glider, which travels.

use crate::grid::{next_state, Grid};
use crate::laws::{lemma_cell_of_entry, lemma_entry_of_cell};
use crate::ring::{lemma_ring_offset_steps, lemma_ring_steps, ring_next, ring_offset, ring_prev};
use vstd::prelude::*;

verus! {

/// The live cells of `g` are exactly the four cells of the two-by-two block
/// whose upper left corner is `(top, left)`; the block may straddle an edge.
/// The grid is at least three cells wide and high, so that dead cells lie
/// around the block on every side.
pub open spec fn is_lone_block(g: Grid, top: int, left: int) -> bool {
    &&& g.wf()
    &&& g.height >= 3
    &&& g.width >= 3
    &&& g.contains(top, left)
    &&& forall|r: int, c: int|
        g.contains(r, c) ==> #[trigger] g.alive(r, c) == {
            &&& r == top || r == (top + 1) % (g.height as int)
            &&& c == left || c == (left + 1) % (g.width as int)
        }
}

/// A lone block is the same one generation later.
pub proof fn lemma_block_survives_tick(g: Grid, top: int, left: int)
    requires
        is_lone_block(g, top, left),
    ensures
        g.tick() == g,
{
    let w = g.width as int;
    let h = g.height as int;
    lemma_ring_steps(top, h);
    lemma_ring_steps(left, w);
    assert forall|i: int| 0 <= i < g.cells.len() implies g.tick().cells[i] == g.cells[i] by {
        let r = i / w;
        let c = i % w;
        lemma_cell_of_entry(g, i);
        lemma_ring_steps(r, h);
        lemma_ring_steps(c, w);
    }
    assert(g.tick().cells =~= g.cells);
}

/// A lone block is the same after any number of generations.
pub proof fn lemma_block_is_still_life(g: Grid, top: int, left: int, generations: nat)
    requires
        is_lone_block(g, top, left),
    ensures
        g.ticks(generations) == g,
    decreases generations,
{
    if generations > 0 {
        lemma_block_is_still_life(g, top, left, (generations - 1) as nat);
        lemma_block_survives_tick(g, top, left);
    }
}

/// The cells of a glider that heads down and to the right, by their offset
/// from the corner of the box it moves in. The glider has four phases; what
/// follows the fourth is the first again, one cell further down and right.
pub open spec fn glider_cell(phase: int, dr: int, dc: int) -> bool {
    if phase == 0 {
        ||| dr == 0 && dc == 1
        ||| dr == 1 && dc == 2
        ||| dr == 2 && (dc == 0 || dc == 1 || dc == 2)
    } else if phase == 1 {
        ||| dr == 1 && (dc == 0 || dc == 2)
        ||| dr == 2 && (dc == 1 || dc == 2)
        ||| dr == 3 && dc == 1
    } else if phase == 2 {
        ||| dr == 1 && dc == 2
        ||| dr == 2 && (dc == 0 || dc == 2)
        ||| dr == 3 && (dc == 1 || dc == 2)
    } else if phase == 3 {
        ||| dr == 1 && dc == 1
        ||| dr == 2 && (dc == 2 || dc == 3)
        ||| dr == 3 && (dc == 1 || dc == 2)
    } else {
        ||| dr == 1 && dc == 2
        ||| dr == 2 && dc == 3
        ||| dr == 3 && (dc == 1 || dc == 2 || dc == 3)
    }
}

/// 1 when the glider of the given phase has a cell at the offset, else 0.
pub open spec fn glider_at(phase: int, dr: int, dc: int) -> nat {
    if glider_cell(phase, dr, dc) {
        1
    } else {
        0
    }
}

/// How many cells of the glider lie around the offset `(dr, dc)`, on a torus
/// of `h` rows and `w` columns.
pub open spec fn glider_around(phase: int, dr: int, dc: int, h: int, w: int) -> nat {
    let north = ring_prev(dr, h);
    let south = ring_next(dr, h);
    let west = ring_prev(dc, w);
    let east = ring_next(dc, w);
    glider_at(phase, north, west) + glider_at(phase, north, dc) + glider_at(phase, north, east)
        + glider_at(phase, dr, west) + glider_at(phase, dr, east) + glider_at(phase, south, west)
        + glider_at(phase, south, dc) + glider_at(phase, south, east)
}

/// The rule of the game takes each phase of the glider to the next, at every
/// offset of a torus that is at least five cells wide and high.
pub proof fn lemma_glider_rule(phase: int, dr: int, dc: int, h: int, w: int)
    requires
        0 <= phase < 4,
        h >= 5,
        w >= 5,
        0 <= dr < h,
        0 <= dc < w,
    ensures
        next_state(glider_cell(phase, dr, dc), glider_around(phase, dr, dc, h, w)) == glider_cell(
            phase + 1,
            dr,
            dc,
        ),
{
}

/// The live cells of `g` are exactly the five cells of a glider in the given
/// phase, its box cornered at `(top, left)`; the box may straddle an edge.
/// The grid is at least five cells wide and high, so that the glider does not
/// meet itself around the torus.
pub open spec fn is_lone_glider(g: Grid, top: int, left: int, phase: int) -> bool {
    &&& g.wf()
    &&& g.height >= 5
    &&& g.width >= 5
    &&& g.contains(top, left)
    &&& 0 <= phase < 4
    &&& forall|r: int, c: int|
        g.contains(r, c) ==> #[trigger] g.alive(r, c) == glider_cell(
            phase,
            ring_offset(r, top, g.height as int),
            ring_offset(c, left, g.width as int),
        )
}

/// Around a cell of a grid that holds a lone glider, as many cells are alive
/// as the glider has around the cell's offset.
proof fn lemma_glider_neighbours(g: Grid, top: int, left: int, phase: int, r: int, c: int)
    requires
        is_lone_glider(g, top, left, phase),
        g.contains(r, c),
    ensures
        g.live_neighbours(r, c) == glider_around(
            phase,
            ring_offset(r, top, g.height as int),
            ring_offset(c, left, g.width as int),
            g.height as int,
            g.width as int,
        ),
{
    let w = g.width as int;
    let h = g.height as int;
    lemma_ring_steps(r, h);
    lemma_ring_steps(c, w);
    lemma_ring_offset_steps(r, top, h);
    lemma_ring_offset_steps(c, left, w);
    let dr = ring_offset(r, top, h);
    let dc = ring_offset(c, left, w);
    let (north, south) = ((r - 1) % h, (r + 1) % h);
    let (west, east) = ((c - 1) % w, (c + 1) % w);
    assert(g.live_at(r - 1, c - 1) == glider_at(phase, ring_prev(dr, h), ring_prev(dc, w))) by {
        assert(g.contains(north, west));
    }
    assert(g.live_at(r - 1, c) == glider_at(phase, ring_prev(dr, h), dc)) by {
        assert(g.contains(north, c));
    }
    assert(g.live_at(r - 1, c + 1) == glider_at(phase, ring_prev(dr, h), ring_next(dc, w))) by {
        assert(g.contains(north, east));
    }
    assert(g.live_at(r, c - 1) == glider_at(phase, dr, ring_prev(dc, w))) by {
        assert(g.contains(r, west));
    }
    assert(g.live_at(r, c + 1) == glider_at(phase, dr, ring_next(dc, w))) by {
        assert(g.contains(r, east));
    }
    assert(g.live_at(r + 1, c - 1) == glider_at(phase, ring_next(dr, h), ring_prev(dc, w))) by {
        assert(g.contains(south, west));
    }
    assert(g.live_at(r + 1, c) == glider_at(phase, ring_next(dr, h), dc)) by {
        assert(g.contains(south, c));
    }
    assert(g.live_at(r + 1, c + 1) == glider_at(phase, ring_next(dr, h), ring_next(dc, w))) by {
        assert(g.contains(south, east));
    }
}

/// One generation on, every cell of a grid that held a lone glider has the
/// state that the next phase gives its offset.
proof fn lemma_glider_next(g: Grid, top: int, left: int, phase: int, r: int, c: int)
    requires
        is_lone_glider(g, top, left, phase),
        g.contains(r, c),
    ensures
        g.tick().alive(r, c) == glider_cell(
            phase + 1,
            ring_offset(r, top, g.height as int),
            ring_offset(c, left, g.width as int),
        ),
{
    let w = g.width as int;
    let h = g.height as int;
    lemma_entry_of_cell(g, r, c);
    assert(g.tick().alive(r, c) == g.next_alive(r, c));
    lemma_glider_neighbours(g, top, left, phase, r, c);
    lemma_ring_offset_steps(r, top, h);
    lemma_ring_offset_steps(c, left, w);
    lemma_glider_rule(phase, ring_offset(r, top, h), ring_offset(c, left, w), h, w);
}

/// One generation takes a glider from one phase to the next, in place.
pub proof fn lemma_glider_turns(g: Grid, top: int, left: int, phase: int)
    requires
        is_lone_glider(g, top, left, phase),
        phase < 3,
    ensures
        is_lone_glider(g.tick(), top, left, phase + 1),
{
    let t = g.tick();
    assert forall|r: int, c: int| t.contains(r, c) implies #[trigger] t.alive(r, c)
        == glider_cell(
        phase + 1,
        ring_offset(r, top, t.height as int),
        ring_offset(c, left, t.width as int),
    ) by {
        lemma_glider_next(g, top, left, phase, r, c);
    }
}

/// One generation takes a glider in its last phase to its first, one cell
/// further down and to the right.
pub proof fn lemma_glider_lands(g: Grid, top: int, left: int)
    requires
        is_lone_glider(g, top, left, 3),
    ensures
        is_lone_glider(
            g.tick(),
            (top + 1) % (g.height as int),
            (left + 1) % (g.width as int),
            0,
        ),
{
    let w = g.width as int;
    let h = g.height as int;
    let t = g.tick();
    lemma_ring_steps(top, h);
    lemma_ring_steps(left, w);
    let down = (top + 1) % h;
    let right = (left + 1) % w;
    assert forall|r: int, c: int| t.contains(r, c) implies #[trigger] t.alive(r, c)
        == glider_cell(0, ring_offset(r, down, h), ring_offset(c, right, w)) by {
        lemma_glider_next(g, top, left, 3, r, c);
        lemma_ring_offset_steps(r, top, h);
        lemma_ring_offset_steps(c, left, w);
    }
}

/// A lone glider is, four generations later, the same glider one cell further
/// down and to the right: every cell then has the state that its upper left
/// neighbour on the torus had before.
pub proof fn lemma_glider_travels(g: Grid, top: int, left: int)
    requires
        is_lone_glider(g, top, left, 0),
    ensures
        is_lone_glider(
            g.ticks(4),
            (top + 1) % (g.height as int),
            (left + 1) % (g.width as int),
            0,
        ),
        forall|r: int, c: int|
            g.contains(r, c) ==> #[trigger] g.ticks(4).alive(r, c) == g.alive_wrapped(
                r - 1,
                c - 1,
            ),
{
    let w = g.width as int;
    let h = g.height as int;
    let g1 = g.tick();
    let g2 = g1.tick();
    let g3 = g2.tick();
    let g4 = g3.tick();
    lemma_glider_turns(g, top, left, 0);
    lemma_glider_turns(g1, top, left, 1);
    lemma_glider_turns(g2, top, left, 2);
    lemma_glider_lands(g3, top, left);
    assert(g.ticks(4) == g4) by {
        reveal_with_fuel(Grid::ticks, 5);
    }
    lemma_ring_steps(top, h);
    lemma_ring_steps(left, w);
    let down = (top + 1) % h;
    let right = (left + 1) % w;
    assert forall|r: int, c: int| g.contains(r, c) implies #[trigger] g4.alive(r, c)
        == g.alive_wrapped(r - 1, c - 1) by {
        lemma_ring_offset_steps(r, top, h);
        lemma_ring_offset_steps(c, left, w);
        assert(g4.contains(r, c));
        assert(g.contains((r - 1) % h, (c - 1) % w));
    }
}

} // verus!
