//! Wraparound addressing: the grid's edges are joined to the opposite edges.

use vstd::prelude::*;
use vstd::arithmetic::div_mod::lemma_fundamental_div_mod_converse;

verus! {

/// A coordinate brought back onto a ring of `size` places by a single step:
/// one below zero gains `size`, one beyond `size - 1` loses `size`.
pub open spec fn wrap_coord(size: int, c: int) -> int {
    if c < 0 {
        c + size
    } else if c > size - 1 {
        c - size
    } else {
        c
    }
}

/// The coordinates a single step can bring back onto the ring.
pub open spec fn within_one_turn(size: int, c: int) -> bool {
    -size <= c < 2 * size
}

/// A single wrapping step lands on the ring, at the place that the
/// coordinate occupies modulo the ring's size.
pub proof fn lemma_wrap_is_modulo(size: int, c: int)
    requires
        size >= 1,
        within_one_turn(size, c),
    ensures
        0 <= wrap_coord(size, c) < size,
        wrap_coord(size, c) == c % size,
{
    let w = wrap_coord(size, c);
    if c < 0 {
        assert(c == -1 * size + w);
        lemma_fundamental_div_mod_converse(c, size, -1, w);
    } else if c > size - 1 {
        assert(c == 1 * size + w);
        lemma_fundamental_div_mod_converse(c, size, 1, w);
    } else {
        assert(c == 0 * size + w);
        lemma_fundamental_div_mod_converse(c, size, 0, w);
    }
}

/// Every neighbour of a cell on the grid is itself on the grid: stepping by
/// -1, 0 or +1 from a coordinate of the ring and wrapping stays on the ring.
/// The step below the first place reaches the last place, and the step beyond
/// the last place reaches the first.
pub proof fn lemma_neighbor_on_grid(size: int, c: int, d: int)
    requires
        size >= 1,
        0 <= c < size,
        -1 <= d <= 1,
    ensures
        0 <= wrap_coord(size, c + d) < size,
        wrap_coord(size, c + d) == (c + d) % size,
        c + d == -1 ==> wrap_coord(size, c + d) == size - 1,
        c + d == size ==> wrap_coord(size, c + d) == 0,
        0 <= c + d < size ==> wrap_coord(size, c + d) == c + d,
{
    lemma_wrap_is_modulo(size, c + d);
}

/// On a ring of at least three places the three steps -1, 0 and +1 from one
/// coordinate reach three different places, so the eight neighbours of a cell
/// are eight different cells, none of them the cell itself.
pub proof fn lemma_neighbors_distinct(size: int, c: int, d1: int, d2: int)
    requires
        size >= 3,
        0 <= c < size,
        -1 <= d1 <= 1,
        -1 <= d2 <= 1,
        d1 != d2,
    ensures
        wrap_coord(size, c + d1) != wrap_coord(size, c + d2),
{
}

} // verus!
