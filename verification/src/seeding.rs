//! The first generation: four colonies, one of each hue, set down on a blank
//! field.

use vstd::prelude::*;
use crate::game::{dead_cell, GameCell, GameCellColor};
use crate::rules::{cell_valid, palette, valid_field};
use crate::torus::wrap_coord;

verus! {

/// The field of the given side on which every cell is dead.
pub open spec fn blank_field(size: int) -> Seq<Seq<GameCell>> {
    Seq::new(size as nat, |y: int| Seq::new(size as nat, |x: int| dead_cell()))
}

/// Whether `(x, y)` lies `dx` columns and `dy` rows from the centre
/// `(cx, cy)`, round the edges.
pub open spec fn lies_at(size: int, cx: int, cy: int, dx: int, dy: int, x: int, y: int) -> bool {
    x == wrap_coord(size, cx + dx) && y == wrap_coord(size, cy + dy)
}

/// Whether `(x, y)` is reached by one of the colony's offsets among the first
/// `k` of the scan that goes row by row from `(-1, -1)` to `(1, 1)`. A colony
/// is its centre and the cells at `(-1, 0)`, `(0, -1)`, `(0, 1)` and `(1, 1)`
/// from it.
pub open spec fn colony_covers_within(
    size: int,
    cx: int,
    cy: int,
    x: int,
    y: int,
    k: int,
) -> bool {
    ||| k > 1 && lies_at(size, cx, cy, 0, -1, x, y)
    ||| k > 3 && lies_at(size, cx, cy, -1, 0, x, y)
    ||| k > 4 && lies_at(size, cx, cy, 0, 0, x, y)
    ||| k > 7 && lies_at(size, cx, cy, 0, 1, x, y)
    ||| k > 8 && lies_at(size, cx, cy, 1, 1, x, y)
}

/// Whether the colony centred on `(cx, cy)` covers `(x, y)`.
pub open spec fn colony_covers(size: int, cx: int, cy: int, x: int, y: int) -> bool {
    colony_covers_within(size, cx, cy, x, y, 9)
}

/// The field after the cells reached by the first `k` offsets of the scan
/// have been made alive in the given colour; every other cell is as it was.
pub open spec fn colony_painted(
    field: Seq<Seq<GameCell>>,
    size: int,
    cx: int,
    cy: int,
    color: GameCellColor,
    k: int,
) -> Seq<Seq<GameCell>> {
    Seq::new(
        size as nat,
        |y: int|
            Seq::new(
                size as nat,
                |x: int|
                    if colony_covers_within(size, cx, cy, x, y, k) {
                        GameCell { is_alive: true, color }
                    } else {
                        field[y][x]
                    },
            ),
    )
}

/// The field with a colony of the given colour set down on `(cx, cy)`: the
/// cells it covers are alive in that colour, whatever they were before.
pub open spec fn with_colony(
    field: Seq<Seq<GameCell>>,
    size: int,
    cx: int,
    cy: int,
    color: GameCellColor,
) -> Seq<Seq<GameCell>> {
    colony_painted(field, size, cx, cy, color, 9)
}

/// The field with the first `k` colonies set down in the order red, green,
/// blue, orange, each on its centre. A later colony overwrites an earlier
/// one where they meet.
pub open spec fn colonies_onto(
    field: Seq<Seq<GameCell>>,
    size: int,
    centers: Seq<(int, int)>,
    k: nat,
) -> Seq<Seq<GameCell>>
    decreases k,
{
    if k == 0 {
        field
    } else {
        with_colony(
            colonies_onto(field, size, centers, (k - 1) as nat),
            size,
            centers[k - 1].0,
            centers[k - 1].1,
            palette()[k - 1],
        )
    }
}

/// The centres are four places `(x, y)` on the grid.
pub open spec fn centers_on_grid(size: int, centers: Seq<(int, int)>) -> bool {
    &&& centers.len() == 4
    &&& forall|i: int|
        0 <= i < 4 ==> 0 <= (#[trigger] centers[i]).0 < size && 0 <= centers[i].1 < size
}

/// Whether `after` is `before` with four colonies set down on `centers`.
pub open spec fn is_seeding(
    before: Seq<Seq<GameCell>>,
    size: int,
    centers: Seq<(int, int)>,
    after: Seq<Seq<GameCell>>,
) -> bool {
    centers_on_grid(size, centers) && after == colonies_onto(before, size, centers, 4)
}

/// The field with the first `k` colonies set down depends on the first `k`
/// centres only.
pub proof fn lemma_colonies_onto_prefix(
    field: Seq<Seq<GameCell>>,
    size: int,
    a: Seq<(int, int)>,
    b: Seq<(int, int)>,
    k: nat,
)
    requires
        k <= a.len(),
        k <= b.len(),
        forall|i: int| 0 <= i < k ==> a[i] == b[i],
    ensures
        colonies_onto(field, size, a, k) == colonies_onto(field, size, b, k),
    decreases k,
{
    if k > 0 {
        lemma_colonies_onto_prefix(field, size, a, b, (k - 1) as nat);
    }
}

/// Setting down a colony of one of the four hues keeps a valid field valid.
pub proof fn lemma_with_colony_valid(
    field: Seq<Seq<GameCell>>,
    size: int,
    cx: int,
    cy: int,
    color: GameCellColor,
)
    requires
        valid_field(field, size),
        color != GameCellColor::Blank,
    ensures
        valid_field(with_colony(field, size, cx, cy, color), size),
{
    let after = with_colony(field, size, cx, cy, color);
    assert forall|x: int, y: int| 0 <= x < size && 0 <= y < size implies cell_valid(
        #[trigger] after[y][x],
    ) by {
        assert(cell_valid(field[y][x]));
    }
}

/// Setting down the four colonies keeps a valid field valid.
pub proof fn lemma_colonies_valid(
    field: Seq<Seq<GameCell>>,
    size: int,
    centers: Seq<(int, int)>,
    k: nat,
)
    requires
        valid_field(field, size),
        k <= 4,
    ensures
        valid_field(colonies_onto(field, size, centers, k), size),
    decreases k,
{
    if k > 0 {
        lemma_colonies_valid(field, size, centers, (k - 1) as nat);
        lemma_with_colony_valid(
            colonies_onto(field, size, centers, (k - 1) as nat),
            size,
            centers[k - 1].0,
            centers[k - 1].1,
            palette()[k - 1],
        );
    }
}

} // verus!
