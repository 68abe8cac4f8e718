//! The rule that takes one generation to the next.
//!
//! A field is a sequence of rows, each a sequence of cells, addressed
//! `field[y][x]`. All addressing of neighbours wraps round the edges.

use vstd::prelude::*;
use crate::game::{dead_cell, GameCell, GameCellColor};
use crate::torus::wrap_coord;

verus! {

/// The field has `size` rows of `size` cells each.
pub open spec fn is_square(field: Seq<Seq<GameCell>>, size: int) -> bool {
    &&& field.len() == size
    &&& forall|y: int| 0 <= y < size ==> (#[trigger] field[y]).len() == size
}

/// A dead cell is blank and a live cell carries one of the four hues.
pub open spec fn cell_valid(cell: GameCell) -> bool {
    cell.is_alive <==> cell.color != GameCellColor::Blank
}

/// The field is square and each of its cells is valid.
pub open spec fn valid_field(field: Seq<Seq<GameCell>>, size: int) -> bool {
    &&& is_square(field, size)
    &&& forall|x: int, y: int|
        0 <= x < size && 0 <= y < size ==> cell_valid(#[trigger] field[y][x])
}

/// The cell `dx` columns and `dy` rows away from `(x, y)`, round the edges.
pub open spec fn neighbor(
    field: Seq<Seq<GameCell>>,
    size: int,
    x: int,
    y: int,
    dx: int,
    dy: int,
) -> GameCell {
    field[wrap_coord(size, y + dy)][wrap_coord(size, x + dx)]
}

/// Whether a cell is counted: it must be alive, and of the given hue where
/// one is given.
pub open spec fn counts_toward(cell: GameCell, hue: Option<GameCellColor>) -> bool {
    cell.is_alive && match hue {
        Some(color) => cell.color == color,
        None => true,
    }
}

/// One if the neighbour at the given offset is counted, else zero.
pub open spec fn neighbor_unit(
    field: Seq<Seq<GameCell>>,
    size: int,
    x: int,
    y: int,
    dx: int,
    dy: int,
    hue: Option<GameCellColor>,
) -> int {
    if counts_toward(neighbor(field, size, x, y, dx, dy), hue) {
        1
    } else {
        0
    }
}

/// How many of the eight neighbours of `(x, y)` are counted. On a field of
/// side one or two a cell is met more than once round the edges, and is
/// counted each time.
pub open spec fn neighbor_count(
    field: Seq<Seq<GameCell>>,
    size: int,
    x: int,
    y: int,
    hue: Option<GameCellColor>,
) -> int {
    neighbor_unit(field, size, x, y, -1, -1, hue) + neighbor_unit(field, size, x, y, 0, -1, hue)
        + neighbor_unit(field, size, x, y, 1, -1, hue) + neighbor_unit(
        field,
        size,
        x,
        y,
        -1,
        0,
        hue,
    ) + neighbor_unit(field, size, x, y, 1, 0, hue) + neighbor_unit(field, size, x, y, -1, 1, hue)
        + neighbor_unit(field, size, x, y, 0, 1, hue) + neighbor_unit(field, size, x, y, 1, 1, hue)
}

/// The number of live neighbours of `(x, y)`.
pub open spec fn alive_neighbors(field: Seq<Seq<GameCell>>, size: int, x: int, y: int) -> int {
    neighbor_count(field, size, x, y, None)
}

/// The number of live neighbours of `(x, y)` that carry `color`.
pub open spec fn hue_neighbors(
    field: Seq<Seq<GameCell>>,
    size: int,
    x: int,
    y: int,
    color: GameCellColor,
) -> int {
    neighbor_count(field, size, x, y, Some(color))
}

/// The count over the first `k` offsets of the scan that goes row by row from
/// `(-1, -1)` to `(1, 1)` and passes over the centre.
pub open spec fn scan_count(
    field: Seq<Seq<GameCell>>,
    size: int,
    x: int,
    y: int,
    hue: Option<GameCellColor>,
    k: int,
) -> int {
    (if k > 0 {
        neighbor_unit(field, size, x, y, -1, -1, hue)
    } else {
        0
    }) + (if k > 1 {
        neighbor_unit(field, size, x, y, 0, -1, hue)
    } else {
        0
    }) + (if k > 2 {
        neighbor_unit(field, size, x, y, 1, -1, hue)
    } else {
        0
    }) + (if k > 3 {
        neighbor_unit(field, size, x, y, -1, 0, hue)
    } else {
        0
    }) + (if k > 5 {
        neighbor_unit(field, size, x, y, 1, 0, hue)
    } else {
        0
    }) + (if k > 6 {
        neighbor_unit(field, size, x, y, -1, 1, hue)
    } else {
        0
    }) + (if k > 7 {
        neighbor_unit(field, size, x, y, 0, 1, hue)
    } else {
        0
    }) + (if k > 8 {
        neighbor_unit(field, size, x, y, 1, 1, hue)
    } else {
        0
    })
}

/// The four hues in the order in which colonies are set down and tallies
/// are scanned.
pub open spec fn palette() -> Seq<GameCellColor> {
    seq![GameCellColor::Red, GameCellColor::Green, GameCellColor::Blue, GameCellColor::Orange]
}

/// The greatest of four counts.
pub open spec fn max_of_four(a: int, b: int, c: int, d: int) -> int {
    let ab = if a >= b { a } else { b };
    let cd = if c >= d { c } else { d };
    if ab >= cd {
        ab
    } else {
        cd
    }
}

/// The hue that leads a tally. Where several hues share the greatest count,
/// the one that comes last in the order red, green, blue, orange leads.
pub open spec fn leading_color(red: int, green: int, blue: int, orange: int) -> GameCellColor {
    let top = max_of_four(red, green, blue, orange);
    if orange == top {
        GameCellColor::Orange
    } else if blue == top {
        GameCellColor::Blue
    } else if green == top {
        GameCellColor::Green
    } else {
        GameCellColor::Red
    }
}

/// How many of the four hues reach the greatest count.
pub open spec fn tie_count(red: int, green: int, blue: int, orange: int) -> nat {
    let top = max_of_four(red, green, blue, orange);
    let reached = (if red == top { 1int } else { 0 }) + (if green == top { 1int } else { 0 })
        + (if blue == top { 1int } else { 0 }) + (if orange == top { 1int } else { 0 });
    reached as nat
}

/// The candidates for a newborn cell's colour: the leading hue, once for each
/// hue that reaches the greatest count. A tie therefore lengthens the list
/// and never changes what a draw from it yields.
pub open spec fn birth_candidates(red: int, green: int, blue: int, orange: int) -> Seq<
    GameCellColor,
> {
    Seq::new(tie_count(red, green, blue, orange), |i: int| leading_color(red, green, blue, orange))
}

/// The colour a cell born at `(x, y)` takes from its live neighbours.
pub open spec fn birth_color(field: Seq<Seq<GameCell>>, size: int, x: int, y: int) -> GameCellColor {
    leading_color(
        hue_neighbors(field, size, x, y, GameCellColor::Red),
        hue_neighbors(field, size, x, y, GameCellColor::Green),
        hue_neighbors(field, size, x, y, GameCellColor::Blue),
        hue_neighbors(field, size, x, y, GameCellColor::Orange),
    )
}

/// The cell at `(x, y)` one generation on. A live cell with two or three live
/// neighbours stays as it is, and any other live cell dies. A dead cell with
/// exactly three live neighbours is born in the colour that leads among them,
/// and any other dead cell stays dead.
pub open spec fn next_cell(field: Seq<Seq<GameCell>>, size: int, x: int, y: int) -> GameCell {
    let alive = alive_neighbors(field, size, x, y);
    if field[y][x].is_alive {
        if alive == 2 || alive == 3 {
            GameCell { is_alive: true, color: field[y][x].color }
        } else {
            dead_cell()
        }
    } else if alive == 3 {
        GameCell { is_alive: true, color: birth_color(field, size, x, y) }
    } else {
        dead_cell()
    }
}

/// The field one generation on: each cell is computed from the field as it
/// stood, none from a cell already renewed.
pub open spec fn next_generation(field: Seq<Seq<GameCell>>, size: int) -> Seq<Seq<GameCell>> {
    Seq::new(size as nat, |y: int| Seq::new(size as nat, |x: int| next_cell(field, size, x, y)))
}

/// A generation on, the field is still square and each of its cells valid.
pub proof fn lemma_next_generation_valid(field: Seq<Seq<GameCell>>, size: int)
    requires
        valid_field(field, size),
    ensures
        valid_field(next_generation(field, size), size),
{
    let next = next_generation(field, size);
    assert forall|x: int, y: int| 0 <= x < size && 0 <= y < size implies cell_valid(
        #[trigger] next[y][x],
    ) by {
        assert(cell_valid(field[y][x]));
    }
}

/// Survival: a live cell with exactly two or three live neighbours is alive
/// a generation on, in the colour it had; with any other number of live
/// neighbours it is dead.
pub proof fn lemma_survival(field: Seq<Seq<GameCell>>, size: int, x: int, y: int)
    requires
        valid_field(field, size),
        0 <= x < size,
        0 <= y < size,
        field[y][x].is_alive,
    ensures
        0 <= alive_neighbors(field, size, x, y) <= 8,
        alive_neighbors(field, size, x, y) == 2 || alive_neighbors(field, size, x, y) == 3
            ==> next_generation(field, size)[y][x] == field[y][x],
        alive_neighbors(field, size, x, y) != 2 && alive_neighbors(field, size, x, y) != 3
            ==> next_generation(field, size)[y][x] == dead_cell(),
{
}

/// Birth: a dead cell with exactly three live neighbours is alive a
/// generation on, in the hue that leads among those neighbours; with any
/// other number of live neighbours it is still dead.
pub proof fn lemma_birth(field: Seq<Seq<GameCell>>, size: int, x: int, y: int)
    requires
        valid_field(field, size),
        0 <= x < size,
        0 <= y < size,
        !field[y][x].is_alive,
    ensures
        alive_neighbors(field, size, x, y) == 3 ==> {
            &&& next_generation(field, size)[y][x].is_alive
            &&& next_generation(field, size)[y][x].color == birth_color(field, size, x, y)
            &&& next_generation(field, size)[y][x].color != GameCellColor::Blank
        },
        alive_neighbors(field, size, x, y) != 3 ==> next_generation(field, size)[y][x]
            == dead_cell(),
{
}

/// Whether nothing on the field is due to change: each live cell has two or
/// three live neighbours, and no dead cell has exactly three.
pub open spec fn is_still_life(field: Seq<Seq<GameCell>>, size: int) -> bool {
    forall|x: int, y: int|
        0 <= x < size && 0 <= y < size ==> {
            let alive = #[trigger] alive_neighbors(field, size, x, y);
            if field[y][x].is_alive {
                alive == 2 || alive == 3
            } else {
                alive != 3
            }
        }
}

/// A still life comes through a generation unchanged, each cell alive or
/// dead as before and each live cell in the colour it had.
pub proof fn lemma_still_life_unchanged(field: Seq<Seq<GameCell>>, size: int)
    requires
        valid_field(field, size),
        is_still_life(field, size),
    ensures
        next_generation(field, size) == field,
{
    let next = next_generation(field, size);
    assert forall|y: int| 0 <= y < size implies #[trigger] next[y] =~= field[y] by {
        assert forall|x: int| 0 <= x < size implies next[y][x] == field[y][x] by {
            let alive = alive_neighbors(field, size, x, y);
            assert(cell_valid(field[y][x]));
        }
    }
    assert(next =~= field);
}

/// Whether `(x, y)` is one of the four cells of the two-by-two block whose
/// first corner is `(bx, by)`; the block goes round the edges where its
/// corner lies on the last column or row.
pub open spec fn in_block(size: int, bx: int, by: int, x: int, y: int) -> bool {
    (x == bx || x == wrap_coord(size, bx + 1)) && (y == by || y == wrap_coord(size, by + 1))
}

/// A two-by-two block alone on a field of side three or more is a still
/// life: a generation on, its four cells are alive in the colours they had
/// and every other cell is dead.
pub proof fn lemma_block_is_still_life(field: Seq<Seq<GameCell>>, size: int, bx: int, by: int)
    requires
        size >= 3,
        valid_field(field, size),
        0 <= bx < size,
        0 <= by < size,
        forall|x: int, y: int|
            0 <= x < size && 0 <= y < size ==> (#[trigger] field[y][x]).is_alive == in_block(
                size,
                bx,
                by,
                x,
                y,
            ),
    ensures
        is_still_life(field, size),
        next_generation(field, size) == field,
{
    assert forall|x: int, y: int| 0 <= x < size && 0 <= y < size implies {
        let alive = #[trigger] alive_neighbors(field, size, x, y);
        if field[y][x].is_alive {
            alive == 2 || alive == 3
        } else {
            alive != 3
        }
    } by {
        let left = wrap_coord(size, x - 1);
        let right = wrap_coord(size, x + 1);
        let up = wrap_coord(size, y - 1);
        let down = wrap_coord(size, y + 1);
        assert(field[up][left].is_alive == in_block(size, bx, by, left, up));
        assert(field[up][x].is_alive == in_block(size, bx, by, x, up));
        assert(field[up][right].is_alive == in_block(size, bx, by, right, up));
        assert(field[y][left].is_alive == in_block(size, bx, by, left, y));
        assert(field[y][x].is_alive == in_block(size, bx, by, x, y));
        assert(field[y][right].is_alive == in_block(size, bx, by, right, y));
        assert(field[down][left].is_alive == in_block(size, bx, by, left, down));
        assert(field[down][x].is_alive == in_block(size, bx, by, x, down));
        assert(field[down][right].is_alive == in_block(size, bx, by, right, down));
    }
    lemma_still_life_unchanged(field, size);
}

} // verus!
