//! The simulation engine and the values it exchanges with its callers.

use vstd::prelude::*;
use crate::census::{all_entries, is_live_entry, lemma_rank_of, listing, rank_of};
use crate::clock::current_time_millis;
use crate::entropy::random_usize;
use crate::rules::{
    birth_candidates, cell_valid, is_square, leading_color, lemma_next_generation_valid,
    next_cell, next_generation, palette, scan_count, valid_field,
};
use crate::seeding::{
    blank_field, colonies_onto, colony_painted, is_seeding, lemma_colonies_onto_prefix,
    lemma_colonies_valid, with_colony,
};
use crate::timing::{advanced, gate_open, gate_passed, polled, with_speed};
use crate::torus::{within_one_turn, wrap_coord};

verus! {

/// The interval between generations that a new engine starts with, in
/// milliseconds.
pub const DEFAULT_UPDATE_INTERVAL: usize = 1000;

/// The greatest side a field can have.
pub const MAX_FIELD_SIZE: usize = 0x7fff_ffff;

/// A grid coordinate: `x` is the column, `y` the row.
#[derive(Clone, Copy, Debug, PartialEq, Eq, Structural)]
pub struct GameCellPosition {
    pub x: usize,
    pub y: usize,
}

/// The colour of a cell. `Blank` is the colour of a dead cell; the other four
/// are the hues a live cell can carry.
#[derive(Clone, Copy, Debug, PartialEq, Eq, Hash, Structural)]
pub enum GameCellColor {
    Blank,
    Red,
    Green,
    Blue,
    Orange,
}

/// One cell of the grid.
#[derive(Clone, Copy, Debug, PartialEq, Eq, Structural)]
pub struct GameCell {
    pub is_alive: bool,
    pub color: GameCellColor,
}

/// A live cell together with the place it occupies.
#[derive(Clone, Copy, Debug, PartialEq, Eq, Structural)]
pub struct GameCellCombined {
    pub cell: GameCell,
    pub position: GameCellPosition,
}

/// The dead cell: not alive, and blank.
pub open spec fn dead_cell() -> GameCell {
    GameCell { is_alive: false, color: GameCellColor::Blank }
}

impl Default for GameCell {
    fn default() -> (cell: Self)
        ensures
            cell == dead_cell(),
    {
        Self { is_alive: false, color: GameCellColor::Blank }
    }
}

/// The engine: a square field of cells and the timer that paces its
/// generations.
pub struct GameLogic {
    field_size: usize,
    field: Vec<Vec<GameCell>>,
    last_update_time_millis: u128,
    update_speed: usize,
}

/// What an engine stands for: the side of its field, the field itself as
/// rows of cells, the time of the last generation and the interval that must
/// pass before the next, both in milliseconds.
pub struct GameState {
    pub field_size: nat,
    pub field: Seq<Seq<GameCell>>,
    pub last_update_time: nat,
    pub update_interval: nat,
}

/// The rows of a stored field, each as the sequence of its cells.
pub open spec fn grid_of(field: &Vec<Vec<GameCell>>) -> Seq<Seq<GameCell>> {
    Seq::new(field@.len(), |y: int| field@[y]@)
}

impl View for GameLogic {
    type V = GameState;

    closed spec fn view(&self) -> GameState {
        GameState {
            field_size: self.field_size as nat,
            field: grid_of(&self.field),
            last_update_time: self.last_update_time_millis as nat,
            update_interval: self.update_speed as nat,
        }
    }
}

/// The place of the leader after the first `k` counts have been scanned: a
/// later count takes the lead when it is at least as great.
spec fn running_leader(counts: Seq<i32>, k: nat) -> int
    decreases k,
{
    if k == 0 {
        0
    } else {
        let before = running_leader(counts, (k - 1) as nat);
        if counts[k - 1] >= counts[before] {
            k - 1
        } else {
            before
        }
    }
}

/// How many of the first `k` counts, the leader's own aside, equal the
/// leader's.
spec fn ties_before(counts: Seq<i32>, leader: int, k: nat) -> nat
    decreases k,
{
    if k == 0 {
        0
    } else {
        let before = ties_before(counts, leader, (k - 1) as nat);
        if k - 1 != leader && counts[k - 1] == counts[leader] {
            before + 1
        } else {
            before
        }
    }
}

impl GameLogic {
    #[verifier::type_invariant]
    spec fn well_formed(&self) -> bool {
        &&& 1 <= self.field_size <= MAX_FIELD_SIZE
        &&& valid_field(grid_of(&self.field), self.field_size as int)
    }

    /// Lists the live cells with their positions, rows ascending and within a
    /// row columns ascending. The list is a snapshot: it does not change when
    /// the engine advances.
    pub fn get_cells(&self) -> (cells: Vec<GameCellCombined>)
        ensures
            cells@ == listing(self@),
    {
        proof {
            use_type_invariant(self);
        }
        let ghost field = grid_of(&self.field);
        let ghost size = self.field_size as int;
        let ghost entries = all_entries(field, size);
        let mut cells: Vec<GameCellCombined> = vec![];
        assert(entries.take(rank_of(size, 0, 0)).filter(is_live_entry()) =~= Seq::empty()) by {
            reveal(Seq::filter);
        }
        for y in 0..self.field_size
            invariant
                1 <= self.field_size <= MAX_FIELD_SIZE,
                field == grid_of(&self.field),
                size == self.field_size as int,
                valid_field(field, size),
                entries == all_entries(field, size),
                cells@ == entries.take(rank_of(size, 0, y as int)).filter(is_live_entry()),
        {
            for x in 0..self.field_size
                invariant
                    y < self.field_size,
                    1 <= self.field_size <= MAX_FIELD_SIZE,
                    field == grid_of(&self.field),
                    size == self.field_size as int,
                    valid_field(field, size),
                    entries == all_entries(field, size),
                    cells@ == entries.take(rank_of(size, x as int, y as int)).filter(
                        is_live_entry(),
                    ),
            {
                assert(self.field@[y as int]@ == field[y as int]);
                let cell = self.field[y][x];
                proof {
                    let rank = rank_of(size, x as int, y as int);
                    lemma_rank_of(size, x as int, y as int);
                    entries.lemma_take_succ_push(rank);
                    entries.take(rank).lemma_filter_push(entries[rank], is_live_entry());
                }
                if cell.is_alive {
                    cells.push(GameCellCombined { cell, position: GameCellPosition { x, y } });
                }
            }
            proof {
                lemma_rank_of(size, size - 1, y as int);
            }
        }
        proof {
            assert(rank_of(size, 0, size) == size * size);
            entries.lemma_take_len();
        }
        cells
    }

    /// Polls the engine against the wall clock: where more than the interval
    /// has passed since the last generation, the field advances by one
    /// generation and the time of the poll is kept; otherwise nothing
    /// changes. Returns whether a generation occurred. A clock that reads
    /// earlier than the Unix epoch brings no generation.
    pub fn update_cells(&mut self) -> (stepped: bool)
        ensures
            exists|now: nat|
                stepped == gate_open(old(self)@, now) && final(self)@ == #[trigger] polled(
                    old(self)@,
                    now,
                ),
    {
        let due = self.check_and_update_time();
        let ghost now = choose|now: nat|
            due == gate_open(old(self)@, now) && self@ == #[trigger] gate_passed(old(self)@, now);
        if !due {
            assert(self@ == polled(old(self)@, now));
            return false;
        }
        self.advance_generation();
        assert(self@ == polled(old(self)@, now));
        true
    }

    /// Polls the engine at the given time, in milliseconds: where more than
    /// the interval has passed since the last generation, the field advances
    /// by one generation and the time is kept; otherwise nothing changes.
    /// Returns whether a generation occurred.
    pub fn update_cells_at(&mut self, current_time: u128) -> (stepped: bool)
        ensures
            stepped == gate_open(old(self)@, current_time as nat),
            final(self)@ == polled(old(self)@, current_time as nat),
    {
        if !self.check_and_update_time_at(current_time) {
            return false;
        }
        self.advance_generation();
        true
    }

    /// Replaces the field by the next generation. Every cell is computed
    /// from the field as it stood before the call; the timer is not touched.
    pub fn advance_generation(&mut self)
        ensures
            final(self)@ == advanced(old(self)@),
    {
        proof {
            use_type_invariant(&*self);
        }
        let ghost field = grid_of(&self.field);
        let ghost size = self.field_size as int;
        let mut field_copy = self.field.clone();
        assert(field_copy@.len() == size);
        assert forall|j: int| 0 <= j < size implies (#[trigger] field_copy@[j])@.len() == size by {
            assert(field[j] == self.field@[j]@);
        }
        for y in 0..self.field_size
            invariant
                1 <= self.field_size <= MAX_FIELD_SIZE,
                field == grid_of(&self.field),
                size == self.field_size as int,
                self@.field == field,
                self@.field_size == size,
                *self == *old(self),
                field_copy@.len() == size,
                forall|j: int| 0 <= j < size ==> (#[trigger] field_copy@[j])@.len() == size,
                forall|i: int, j: int|
                    0 <= i < size && 0 <= j < y ==> (#[trigger] field_copy@[j]@[i]) == next_cell(
                        field,
                        size,
                        i,
                        j,
                    ),
        {
            for x in 0..self.field_size
                invariant
                    y < self.field_size,
                    1 <= self.field_size <= MAX_FIELD_SIZE,
                    field == grid_of(&self.field),
                    size == self.field_size as int,
                    self@.field == field,
                    self@.field_size == size,
                    *self == *old(self),
                    field_copy@.len() == size,
                    forall|j: int| 0 <= j < size ==> (#[trigger] field_copy@[j])@.len() == size,
                    forall|i: int, j: int|
                        0 <= i < size && 0 <= j < y ==> (#[trigger] field_copy@[j]@[i])
                            == next_cell(field, size, i, j),
                    forall|i: int|
                        0 <= i < x ==> (#[trigger] field_copy@[y as int]@[i]) == next_cell(
                            field,
                            size,
                            i,
                            y as int,
                        ),
            {
                let ghost rows = field_copy@;
                field_copy[y][x] = self.analyze_cell(x, y);
                assert(field_copy@[y as int]@ == rows[y as int]@.update(
                    x as int,
                    next_cell(field, size, x as int, y as int),
                ));
                assert(forall|j: int| 0 <= j < size && j != y ==> field_copy@[j] == rows[j]);
            }
        }
        proof {
            assert(grid_of(&field_copy) =~~= next_generation(field, size));
            lemma_next_generation_valid(field, size);
        }
        self.field = field_copy;
    }

    /// Sets the pace to the stated number of generations a second: the
    /// interval becomes a thousand milliseconds divided by that number, the
    /// remainder dropped.
    pub fn set_update_speed(&mut self, generation_per_second: usize)
        requires
            generation_per_second >= 1,
        ensures
            final(self)@ == with_speed(old(self)@, generation_per_second as nat),
    {
        proof {
            use_type_invariant(&*self);
        }
        self.update_speed = 1000 / generation_per_second;
    }

    /// Consults the timer against the wall clock: where more than the
    /// interval has passed since the last generation, keeps the time of the
    /// reading and returns true; otherwise changes nothing and returns
    /// false. A clock that reads earlier than the Unix epoch opens no gate.
    pub fn check_and_update_time(&mut self) -> (due: bool)
        ensures
            exists|now: nat|
                due == gate_open(old(self)@, now) && final(self)@ == #[trigger] gate_passed(
                    old(self)@,
                    now,
                ),
    {
        match current_time_millis() {
            Some(current_time) => self.check_and_update_time_at(current_time),
            None => {
                assert(self@ == gate_passed(old(self)@, 0));
                false
            },
        }
    }

    /// Consults the timer at the given time, in milliseconds: where more
    /// than the interval has passed since the last generation, keeps the
    /// time and returns true; otherwise changes nothing and returns false.
    pub fn check_and_update_time_at(&mut self, current_time: u128) -> (due: bool)
        ensures
            due == gate_open(old(self)@, current_time as nat),
            final(self)@ == gate_passed(old(self)@, current_time as nat),
    {
        proof {
            use_type_invariant(&*self);
        }
        if current_time > self.last_update_time_millis {
            let time_difference = current_time - self.last_update_time_millis;
            if time_difference > self.update_speed as u128 {
                self.last_update_time_millis = current_time;
                return true;
            }
        }
        false
    }

    /// Computes the cell at `(x, y)` one generation on from the field as it
    /// stands. The neighbours are found round the edges; a newborn cell takes
    /// the colour that leads among its live neighbours.
    pub fn analyze_cell(&self, x: usize, y: usize) -> (new_cell: GameCell)
        requires
            x < self@.field_size,
            y < self@.field_size,
        ensures
            new_cell == next_cell(self@.field, self@.field_size as int, x as int, y as int),
    {
        proof {
            use_type_invariant(self);
        }
        let ghost field = grid_of(&self.field);
        let ghost size = self.field_size as int;
        let mut alive_cells_count: i32 = 0;
        let mut red_cells: i32 = 0;
        let mut green_cells: i32 = 0;
        let mut blue_cells: i32 = 0;
        let mut orange_cells: i32 = 0;
        let mut y_rel: i32 = -1;
        while y_rel <= 1
            invariant
                -1 <= y_rel <= 2,
                1 <= self.field_size <= MAX_FIELD_SIZE,
                x < self.field_size,
                y < self.field_size,
                field == grid_of(&self.field),
                size == self.field_size as int,
                valid_field(field, size),
                alive_cells_count == scan_count(field, size, x as int, y as int, None, 3 * (y_rel + 1)),
                red_cells == scan_count(
                    field,
                    size,
                    x as int,
                    y as int,
                    Some(GameCellColor::Red),
                    3 * (y_rel + 1),
                ),
                green_cells == scan_count(
                    field,
                    size,
                    x as int,
                    y as int,
                    Some(GameCellColor::Green),
                    3 * (y_rel + 1),
                ),
                blue_cells == scan_count(
                    field,
                    size,
                    x as int,
                    y as int,
                    Some(GameCellColor::Blue),
                    3 * (y_rel + 1),
                ),
                orange_cells == scan_count(
                    field,
                    size,
                    x as int,
                    y as int,
                    Some(GameCellColor::Orange),
                    3 * (y_rel + 1),
                ),
            decreases 2 - y_rel,
        {
            let mut x_rel: i32 = -1;
            while x_rel <= 1
                invariant
                    -1 <= y_rel <= 1,
                    -1 <= x_rel <= 2,
                    1 <= self.field_size <= MAX_FIELD_SIZE,
                    x < self.field_size,
                    y < self.field_size,
                    field == grid_of(&self.field),
                    size == self.field_size as int,
                    valid_field(field, size),
                    alive_cells_count == scan_count(
                        field,
                        size,
                        x as int,
                        y as int,
                        None,
                        3 * (y_rel + 1) + (x_rel + 1),
                    ),
                    red_cells == scan_count(
                        field,
                        size,
                        x as int,
                        y as int,
                        Some(GameCellColor::Red),
                        3 * (y_rel + 1) + (x_rel + 1),
                    ),
                    green_cells == scan_count(
                        field,
                        size,
                        x as int,
                        y as int,
                        Some(GameCellColor::Green),
                        3 * (y_rel + 1) + (x_rel + 1),
                    ),
                    blue_cells == scan_count(
                        field,
                        size,
                        x as int,
                        y as int,
                        Some(GameCellColor::Blue),
                        3 * (y_rel + 1) + (x_rel + 1),
                    ),
                    orange_cells == scan_count(
                        field,
                        size,
                        x as int,
                        y as int,
                        Some(GameCellColor::Orange),
                        3 * (y_rel + 1) + (x_rel + 1),
                    ),
                decreases 2 - x_rel,
            {
                if !(y_rel == 0 && x_rel == 0) {
                    let y_abs = y as i32 + y_rel;
                    let x_abs = x as i32 + x_rel;
                    let (x_abs, y_abs) = Self::make_coords_absolute(self.field_size, x_abs, y_abs);
                    if self.field[y_abs][x_abs].is_alive {
                        alive_cells_count += 1;
                        match self.field[y_abs][x_abs].color {
                            GameCellColor::Red => red_cells += 1,
                            GameCellColor::Green => green_cells += 1,
                            GameCellColor::Blue => blue_cells += 1,
                            GameCellColor::Orange => orange_cells += 1,
                            _ => {},
                        }
                    }
                }
                x_rel += 1;
            }
            y_rel += 1;
        }
        let mut new_cell = GameCell::default();
        if self.field[y][x].is_alive {
            if 2 <= alive_cells_count && alive_cells_count <= 3 {
                new_cell.is_alive = true;
                new_cell.color = self.field[y][x].color;
            }
        } else if alive_cells_count == 3 {
            new_cell.is_alive = true;
            let roll = random_usize();
            new_cell.color =
                Self::pick_birth_color(red_cells, green_cells, blue_cells, orange_cells, roll);
        }
        new_cell
    }

    /// Lists the candidates for a newborn cell's colour from the tally of its
    /// live neighbours. The tally is scanned in the order red, green, blue,
    /// orange, and a later hue takes the lead when its count is at least as
    /// great. The list holds the final leader, once for each hue that reaches
    /// the greatest count: a tie lengthens the list and puts no second hue
    /// into it.
    pub fn get_most_colors(
        red_cells: i32,
        green_cells: i32,
        blue_cells: i32,
        orange_cells: i32,
    ) -> (popular_colors: Vec<GameCellColor>)
        ensures
            popular_colors@ == birth_candidates(
                red_cells as int,
                green_cells as int,
                blue_cells as int,
                orange_cells as int,
            ),
    {
        let colors = vec![
            GameCellColor::Red,
            GameCellColor::Green,
            GameCellColor::Blue,
            GameCellColor::Orange,
        ];
        let cells = vec![red_cells, green_cells, blue_cells, orange_cells];
        let mut most_popular: usize = 0;
        let mut i: usize = 0;
        while i < 4
            invariant
                i <= 4,
                cells@ == seq![red_cells, green_cells, blue_cells, orange_cells],
                most_popular == running_leader(cells@, i as nat),
                0 <= most_popular < 4,
            decreases 4 - i,
        {
            if cells[i] >= cells[most_popular] {
                most_popular = i;
            }
            i += 1;
        }
        let most_popular_color = colors[most_popular];
        let mut popular_colors = vec![most_popular_color];
        let mut i: usize = 0;
        while i < 4
            invariant
                i <= 4,
                0 <= most_popular < 4,
                cells@ == seq![red_cells, green_cells, blue_cells, orange_cells],
                popular_colors@ == Seq::new(
                    1 + ties_before(cells@, most_popular as int, i as nat),
                    |j: int| most_popular_color,
                ),
            decreases 4 - i,
        {
            if i != most_popular && cells[i] == cells[most_popular] {
                popular_colors.push(most_popular_color);
            }
            i += 1;
        }
        proof {
            reveal_with_fuel(running_leader, 5);
            reveal_with_fuel(ties_before, 5);
            assert(colors@ == palette());
        }
        popular_colors
    }

    /// Picks a newborn cell's colour from the candidates by a drawn number.
    /// Whatever is drawn, the leading hue comes out.
    pub fn pick_birth_color(
        red_cells: i32,
        green_cells: i32,
        blue_cells: i32,
        orange_cells: i32,
        roll: usize,
    ) -> (color: GameCellColor)
        ensures
            color == leading_color(
                red_cells as int,
                green_cells as int,
                blue_cells as int,
                orange_cells as int,
            ),
    {
        let most_colors = Self::get_most_colors(red_cells, green_cells, blue_cells, orange_cells);
        most_colors[roll % most_colors.len()]
    }

    /// Makes an engine with a field of the given side, seeded with four
    /// colonies on centres drawn at random, which has not yet advanced and
    /// advances once a second.
    pub fn new(field_size: usize) -> (game: Self)
        requires
            1 <= field_size <= MAX_FIELD_SIZE,
        ensures
            game@.field_size == field_size,
            game@.last_update_time == 0,
            game@.update_interval == DEFAULT_UPDATE_INTERVAL,
            valid_field(game@.field, field_size as int),
            exists|centers: Seq<(int, int)>|
                is_seeding(blank_field(field_size as int), field_size as int, centers, game@.field),
    {
        let mut field = vec![vec![GameCell::default(); field_size]; field_size];
        assert(grid_of(&field) =~~= blank_field(field_size as int));
        Self::spawn_first_generation(&mut field, field_size);
        proof {
            let centers = choose|centers: Seq<(int, int)>|
                is_seeding(
                    blank_field(field_size as int),
                    field_size as int,
                    centers,
                    grid_of(&field),
                );
            lemma_colonies_valid(blank_field(field_size as int), field_size as int, centers, 4);
        }
        Self { field_size, field, last_update_time_millis: 0, update_speed: DEFAULT_UPDATE_INTERVAL }
    }

    /// Makes an engine on a field given cell by cell, which has not yet
    /// advanced and advances once a second. The field must be square, of a
    /// side from one to `MAX_FIELD_SIZE`, with every dead cell blank and
    /// every live cell in one of the four hues; any other field is refused.
    pub fn from_field(field: Vec<Vec<GameCell>>) -> (game: Option<Self>)
        ensures
            game is Some <==> 1 <= field@.len() <= MAX_FIELD_SIZE && valid_field(
                grid_of(&field),
                field@.len() as int,
            ),
            game matches Some(made) ==> made@ == (GameState {
                field_size: field@.len(),
                field: grid_of(&field),
                last_update_time: 0,
                update_interval: DEFAULT_UPDATE_INTERVAL as nat,
            }),
    {
        let field_size = field.len();
        if field_size < 1 || field_size > MAX_FIELD_SIZE {
            return None;
        }
        let ghost grid = grid_of(&field);
        let ghost size = field_size as int;
        for y in 0..field_size
            invariant
                field_size == field@.len(),
                size == field_size as int,
                grid == grid_of(&field),
                forall|j: int| 0 <= j < y ==> (#[trigger] grid[j]).len() == size,
                forall|i: int, j: int|
                    0 <= i < size && 0 <= j < y ==> cell_valid(#[trigger] grid[j][i]),
        {
            assert(grid[y as int] == field@[y as int]@);
            if field[y].len() != field_size {
                return None;
            }
            for x in 0..field_size
                invariant
                    y < field_size,
                    field_size == field@.len(),
                    size == field_size as int,
                    grid == grid_of(&field),
                    grid[y as int] == field@[y as int]@,
                    grid[y as int].len() == size,
                    forall|i: int| 0 <= i < x ==> cell_valid(#[trigger] grid[y as int][i]),
            {
                let cell = field[y][x];
                let blank = match cell.color {
                    GameCellColor::Blank => true,
                    _ => false,
                };
                if cell.is_alive == blank {
                    assert(!cell_valid(grid[y as int][x as int]));
                    return None;
                }
            }
        }
        Some(
            Self {
                field_size,
                field,
                last_update_time_millis: 0,
                update_speed: DEFAULT_UPDATE_INTERVAL,
            },
        )
    }

    /// The side of the field. Every engine's field is square, of a side
    /// from one to `MAX_FIELD_SIZE`, and each of its cells is valid.
    pub fn field_size(&self) -> (size: usize)
        ensures
            size == self@.field_size,
            1 <= size <= MAX_FIELD_SIZE,
            valid_field(self@.field, size as int),
    {
        proof {
            use_type_invariant(self);
        }
        self.field_size
    }

    /// The interval that must pass between two generations, in milliseconds.
    pub fn update_interval(&self) -> (interval: usize)
        ensures
            interval == self@.update_interval,
    {
        self.update_speed
    }

    /// The time of the last generation, in milliseconds; zero before the
    /// first.
    pub fn last_update_time(&self) -> (time: u128)
        ensures
            time == self@.last_update_time,
    {
        self.last_update_time_millis
    }

    /// Sets down the four colonies of the first generation, red, green, blue
    /// and orange in that order, each on a centre drawn at random. A later
    /// colony overwrites an earlier one where they meet.
    pub fn spawn_first_generation(field: &mut Vec<Vec<GameCell>>, field_size: usize)
        requires
            1 <= field_size <= MAX_FIELD_SIZE,
            is_square(grid_of(old(field)), field_size as int),
        ensures
            exists|centers: Seq<(int, int)>|
                is_seeding(
                    grid_of(old(field)),
                    field_size as int,
                    centers,
                    grid_of(final(field)),
                ),
    {
        let count_of_lifes: usize = 4;
        let colors = vec![
            GameCellColor::Red,
            GameCellColor::Green,
            GameCellColor::Blue,
            GameCellColor::Orange,
        ];
        let ghost before = grid_of(field);
        let ghost size = field_size as int;
        let ghost mut centers: Seq<(int, int)> = Seq::empty();
        let mut i: usize = 0;
        while i < count_of_lifes
            invariant
                i <= count_of_lifes == 4,
                1 <= field_size <= MAX_FIELD_SIZE,
                size == field_size as int,
                colors@ == palette(),
                centers.len() == i,
                forall|j: int|
                    0 <= j < i ==> 0 <= (#[trigger] centers[j]).0 < size && 0 <= centers[j].1
                        < size,
                is_square(grid_of(field), size),
                grid_of(field) == colonies_onto(before, size, centers, i as nat),
            decreases count_of_lifes - i,
        {
            let y_sel = random_usize() % field_size;
            let x_sel = random_usize() % field_size;
            Self::spawn_colony(field, field_size, x_sel, y_sel, colors[i]);
            proof {
                let extended = centers.push((x_sel as int, y_sel as int));
                lemma_colonies_onto_prefix(before, size, centers, extended, i as nat);
                centers = extended;
            }
            i += 1;
        }
        assert(is_seeding(before, size, centers, grid_of(field)));
    }

    /// Sets a colony of the given colour down on `(x_sel, y_sel)`: the centre
    /// and the cells at `(-1, 0)`, `(0, -1)`, `(0, 1)` and `(1, 1)` from it,
    /// round the edges, become alive in that colour.
    pub fn spawn_colony(
        field: &mut Vec<Vec<GameCell>>,
        field_size: usize,
        x_sel: usize,
        y_sel: usize,
        color: GameCellColor,
    )
        requires
            1 <= field_size <= MAX_FIELD_SIZE,
            is_square(grid_of(old(field)), field_size as int),
            x_sel < field_size,
            y_sel < field_size,
        ensures
            grid_of(final(field)) == with_colony(
                grid_of(old(field)),
                field_size as int,
                x_sel as int,
                y_sel as int,
                color,
            ),
    {
        let ghost before = grid_of(field);
        let ghost size = field_size as int;
        assert(before =~~= colony_painted(before, size, x_sel as int, y_sel as int, color, 0));
        let mut y_rel: i32 = -1;
        while y_rel <= 1
            invariant
                -1 <= y_rel <= 2,
                1 <= field_size <= MAX_FIELD_SIZE,
                size == field_size as int,
                x_sel < field_size,
                y_sel < field_size,
                is_square(before, size),
                grid_of(field) == colony_painted(
                    before,
                    size,
                    x_sel as int,
                    y_sel as int,
                    color,
                    3 * (y_rel + 1),
                ),
            decreases 2 - y_rel,
        {
            let mut x_rel: i32 = -1;
            while x_rel <= 1
                invariant
                    -1 <= y_rel <= 1,
                    -1 <= x_rel <= 2,
                    1 <= field_size <= MAX_FIELD_SIZE,
                    size == field_size as int,
                    x_sel < field_size,
                    y_sel < field_size,
                    is_square(before, size),
                    grid_of(field) == colony_painted(
                        before,
                        size,
                        x_sel as int,
                        y_sel as int,
                        color,
                        3 * (y_rel + 1) + (x_rel + 1),
                    ),
                decreases 2 - x_rel,
            {
                let ghost scanned = 3 * (y_rel + 1) + (x_rel + 1);
                let ghost so_far = grid_of(field);
                let ghost rows = field@;
                assert(rows.len() == so_far.len() == size);
                let do_skip = (y_rel == -1 && x_rel == -1) || (y_rel == -1 && x_rel == 1) || (y_rel
                    == 1 && x_rel == -1) || (y_rel == 0 && x_rel == 1);
                if !do_skip {
                    let y_abs = y_sel as i32 + y_rel;
                    let x_abs = x_sel as i32 + x_rel;
                    let (x_abs, y_abs) = Self::make_coords_absolute(field_size, x_abs, y_abs);
                    assert(rows[y_abs as int]@ == so_far[y_abs as int]);
                    assert(so_far[y_abs as int].len() == size);
                    field[y_abs][x_abs].is_alive = true;
                    field[y_abs][x_abs].color = color;
                    assert(field@.len() == size);
                    assert(field@[y_abs as int]@ == rows[y_abs as int]@.update(
                        x_abs as int,
                        GameCell { is_alive: true, color },
                    ));
                    assert(forall|j: int| 0 <= j < size && j != y_abs ==> field@[j] == rows[j]);
                }
                proof {
                    let painted = colony_painted(
                        before,
                        size,
                        x_sel as int,
                        y_sel as int,
                        color,
                        scanned + 1,
                    );
                    let now = grid_of(field);
                    assert forall|j: int| 0 <= j < size implies #[trigger] now[j] =~= painted[j] by {
                        assert(so_far[j] == rows[j]@);
                        assert(so_far[j].len() == size);
                        assert forall|i: int| 0 <= i < size implies now[j][i] == painted[j][i] by {
                            assert(so_far[j][i] == colony_painted(
                                before,
                                size,
                                x_sel as int,
                                y_sel as int,
                                color,
                                scanned,
                            )[j][i]);
                        }
                    }
                    assert(now =~= painted);
                }
                x_rel += 1;
            }
            y_rel += 1;
        }
    }

    /// Brings a coordinate pair that lies at most one turn off the field back
    /// onto it.
    pub fn make_coords_absolute(field_size: usize, x: i32, y: i32) -> (place: (usize, usize))
        requires
            1 <= field_size <= MAX_FIELD_SIZE,
            within_one_turn(field_size as int, x as int),
            within_one_turn(field_size as int, y as int),
        ensures
            place.0 == wrap_coord(field_size as int, x as int),
            place.1 == wrap_coord(field_size as int, y as int),
            place.0 < field_size,
            place.1 < field_size,
    {
        let mut x_abs = x;
        let mut y_abs = y;
        let side = field_size as i32;
        if y_abs < 0 {
            y_abs += side;
        }
        if x_abs < 0 {
            x_abs += side;
        }
        if y_abs > (side - 1) {
            y_abs -= side;
        }
        if x_abs > (side - 1) {
            x_abs -= side;
        }
        (x_abs as usize, y_abs as usize)
    }
}

} // verus!
