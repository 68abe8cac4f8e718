//! The listing of the live cells, row by row.

use vstd::prelude::*;
use vstd::arithmetic::div_mod::lemma_fundamental_div_mod_converse;
use crate::game::{GameCell, GameCellCombined, GameCellPosition, GameState, MAX_FIELD_SIZE};
use crate::rules::is_square;
use crate::timing::{gate_open, gate_passed, polled, with_speed};

verus! {

/// The place of `(x, y)` in the scan that goes through the rows from the
/// first to the last, and through each row from its first cell to its last.
pub open spec fn rank_of(size: int, x: int, y: int) -> int {
    y * size + x
}

/// The cell that the scan meets at the given rank, with its position.
pub open spec fn entry_at_rank(field: Seq<Seq<GameCell>>, size: int, rank: int) -> GameCellCombined {
    GameCellCombined {
        cell: field[rank / size][rank % size],
        position: GameCellPosition { x: (rank % size) as usize, y: (rank / size) as usize },
    }
}

/// Every cell of the field with its position, in the order of the scan.
pub open spec fn all_entries(field: Seq<Seq<GameCell>>, size: int) -> Seq<GameCellCombined> {
    Seq::new((size * size) as nat, |rank: int| entry_at_rank(field, size, rank))
}

/// The test that keeps the live cells.
pub open spec fn is_live_entry() -> spec_fn(GameCellCombined) -> bool {
    |entry: GameCellCombined| entry.cell.is_alive
}

/// The live cells of the field with their positions, in the order of the
/// scan: rows ascending, and within a row columns ascending.
pub open spec fn alive_cells(field: Seq<Seq<GameCell>>, size: int) -> Seq<GameCellCombined> {
    all_entries(field, size).filter(is_live_entry())
}

/// The rank of a place on the grid is below the number of cells, and the
/// place is recovered from it by division.
pub proof fn lemma_rank_of(size: int, x: int, y: int)
    requires
        0 <= x < size,
        0 <= y < size,
    ensures
        0 <= rank_of(size, x, y) < size * size,
        rank_of(size, x, y) / size == y,
        rank_of(size, x, y) % size == x,
        rank_of(size, x, y) + 1 == if x + 1 < size {
            rank_of(size, x + 1, y)
        } else {
            rank_of(size, 0, y + 1)
        },
{
    lemma_fundamental_div_mod_converse(y * size + x, size, y, x);
    assert(0 <= y * size && y * size + size <= size * size && (y + 1) * size == y * size + size)
        by (nonlinear_arith)
        requires
            0 <= y < size,
    ;
}

/// The live cells of an engine's field, listed.
pub open spec fn listing(state: GameState) -> Seq<GameCellCombined> {
    alive_cells(state.field, state.field_size as int)
}

/// The rank of the place that an entry names.
pub open spec fn entry_rank(size: int, entry: GameCellCombined) -> int {
    rank_of(size, entry.position.x as int, entry.position.y as int)
}

/// A rank below the number of cells names a place on the grid.
proof fn lemma_place_of_rank(size: int, rank: int)
    requires
        size >= 1,
        0 <= rank < size * size,
    ensures
        0 <= rank % size < size,
        0 <= rank / size < size,
        rank_of(size, rank % size, rank / size) == rank,
{
    vstd::arithmetic::div_mod::lemma_fundamental_div_mod(rank, size);
    vstd::arithmetic::div_mod::lemma_mod_pos_bound(rank, size);
    let q = rank / size;
    assert(q * size == size * q) by (nonlinear_arith);
    assert(0 <= q < size) by (nonlinear_arith)
        requires
            size >= 1,
            0 <= rank < size * size,
            rank == size * q + rank % size,
            0 <= rank % size < size,
    ;
}

/// The listing holds exactly the live cells of the grid: an entry is in it
/// if and only if its position is on the grid, its cell is the one at that
/// position, and that cell is alive.
pub proof fn lemma_alive_cells_members(
    field: Seq<Seq<GameCell>>,
    size: int,
    entry: GameCellCombined,
)
    requires
        1 <= size <= MAX_FIELD_SIZE,
        is_square(field, size),
    ensures
        alive_cells(field, size).contains(entry) <==> {
            &&& entry.position.x < size
            &&& entry.position.y < size
            &&& entry.cell == field[entry.position.y as int][entry.position.x as int]
            &&& entry.cell.is_alive
        },
{
    let entries = all_entries(field, size);
    let listed = alive_cells(field, size);
    if listed.contains(entry) {
        let at = choose|at: int| 0 <= at < listed.len() && listed[at] == entry;
        entries.lemma_filter_pred(is_live_entry(), at);
        entries.lemma_filter_contains_rev(is_live_entry(), entry);
        let rank = choose|rank: int| 0 <= rank < entries.len() && entries[rank] == entry;
        lemma_place_of_rank(size, rank);
    }
    if entry.position.x < size && entry.position.y < size && entry.cell
        == field[entry.position.y as int][entry.position.x as int] && entry.cell.is_alive {
        let rank = entry_rank(size, entry);
        lemma_rank_of(size, entry.position.x as int, entry.position.y as int);
        assert(entries[rank] == entry);
        entries.lemma_filter_contains(is_live_entry(), rank);
    }
}

/// Keeping part of a sequence whose ranks ascend leaves a sequence whose
/// ranks ascend, with no rank beyond those of the whole.
proof fn lemma_filter_keeps_ascent(entries: Seq<GameCellCombined>, size: int)
    requires
        forall|i: int, j: int|
            0 <= i < j < entries.len() ==> entry_rank(size, #[trigger] entries[i]) < entry_rank(
                size,
                #[trigger] entries[j],
            ),
    ensures
        forall|i: int, j: int|
            0 <= i < j < entries.filter(is_live_entry()).len() ==> entry_rank(
                size,
                #[trigger] entries.filter(is_live_entry())[i],
            ) < entry_rank(size, #[trigger] entries.filter(is_live_entry())[j]),
        forall|i: int|
            0 <= i < entries.filter(is_live_entry()).len() ==> entries.contains(
                #[trigger] entries.filter(is_live_entry())[i],
            ),
    decreases entries.len(),
{
    reveal(Seq::filter);
    let kept = entries.filter(is_live_entry());
    if entries.len() > 0 {
        let front = entries.drop_last();
        let front_kept = front.filter(is_live_entry());
        lemma_filter_keeps_ascent(front, size);
        assert forall|i: int| 0 <= i < kept.len() implies entries.contains(#[trigger] kept[i]) by {
            if i < front_kept.len() {
                assert(front.contains(front_kept[i]));
                let at = choose|at: int| 0 <= at < front.len() && front[at] == front_kept[i];
                assert(entries[at] == kept[i]);
            } else {
                assert(entries[entries.len() - 1] == kept[i]);
            }
        }
        assert forall|i: int, j: int| 0 <= i < j < kept.len() implies entry_rank(
            size,
            #[trigger] kept[i],
        ) < entry_rank(size, #[trigger] kept[j]) by {
            if j < front_kept.len() {
                assert(kept[i] == front_kept[i] && kept[j] == front_kept[j]);
            } else {
                assert(front.contains(front_kept[i]));
                let at = choose|at: int| 0 <= at < front.len() && front[at] == front_kept[i];
                assert(entries[at] == kept[i]);
                assert(entries[entries.len() - 1] == kept[j]);
            }
        }
    }
}

/// The listing goes through the grid in the order of the scan: of two
/// entries, the earlier names the place of lower rank. No place is therefore
/// listed twice.
pub proof fn lemma_alive_cells_ascend(field: Seq<Seq<GameCell>>, size: int, i: int, j: int)
    requires
        1 <= size <= MAX_FIELD_SIZE,
        0 <= i < j < alive_cells(field, size).len(),
    ensures
        entry_rank(size, alive_cells(field, size)[i]) < entry_rank(
            size,
            alive_cells(field, size)[j],
        ),
{
    let entries = all_entries(field, size);
    assert forall|a: int, b: int| 0 <= a < b < entries.len() implies entry_rank(
        size,
        #[trigger] entries[a],
    ) < entry_rank(size, #[trigger] entries[b]) by {
        lemma_place_of_rank(size, a);
        lemma_place_of_rank(size, b);
    }
    lemma_filter_keeps_ascent(entries, size);
}

/// The listing is determined by the field alone. Setting the pace,
/// consulting the timer and a poll that brings no generation all leave it
/// as it was, so two listings with no generation between them are equal.
pub proof fn lemma_listing_unchanged_without_step(
    state: GameState,
    now: nat,
    generation_per_second: nat,
)
    ensures
        listing(with_speed(state, generation_per_second)) == listing(state),
        listing(gate_passed(state, now)) == listing(state),
        !gate_open(state, now) ==> listing(polled(state, now)) == listing(state),
{
}

} // verus!
