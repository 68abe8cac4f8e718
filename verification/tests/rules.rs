use game_of_life::game::{GameCell, GameCellColor, GameCellCombined, GameCellPosition, GameLogic};

fn rules_blank(size: usize) -> Vec<Vec<GameCell>> {
    vec![vec![GameCell::default(); size]; size]
}

fn rules_live(color: GameCellColor) -> GameCell {
    GameCell { is_alive: true, color }
}

fn rules_engine(size: usize, live: &[(usize, usize, GameCellColor)]) -> GameLogic {
    let mut field = rules_blank(size);
    for &(x, y, color) in live {
        field[y][x] = rules_live(color);
    }
    GameLogic::from_field(field).expect("a valid field")
}

fn rules_entry(x: usize, y: usize, color: GameCellColor) -> GameCellCombined {
    GameCellCombined { cell: rules_live(color), position: GameCellPosition { x, y } }
}

#[test]
fn dead_cell_with_one_red_and_two_green_neighbors_is_born_green() {
    let mut game = rules_engine(
        5,
        &[
            (1, 1, GameCellColor::Red),
            (2, 1, GameCellColor::Green),
            (3, 3, GameCellColor::Green),
        ],
    );
    assert_eq!(game.analyze_cell(2, 2), rules_live(GameCellColor::Green));
    game.advance_generation();
    let cells = game.get_cells();
    assert!(cells.contains(&rules_entry(2, 2, GameCellColor::Green)));
}

#[test]
fn end_to_end_step_once_through_the_timer() {
    let mut game = rules_engine(
        5,
        &[
            (1, 2, GameCellColor::Green),
            (3, 2, GameCellColor::Red),
            (2, 3, GameCellColor::Green),
        ],
    );
    assert!(game.update_cells_at(5000));
    let cells = game.get_cells();
    let born: Vec<&GameCellCombined> =
        cells.iter().filter(|c| c.position.x == 2 && c.position.y == 2).collect();
    assert_eq!(born.len(), 1);
    assert!(born[0].cell.is_alive);
    assert_eq!(born[0].cell.color, GameCellColor::Green);
}

#[test]
fn live_cell_with_two_neighbors_survives_in_its_color() {
    let game = rules_engine(
        5,
        &[
            (2, 2, GameCellColor::Blue),
            (1, 2, GameCellColor::Red),
            (3, 2, GameCellColor::Green),
        ],
    );
    assert_eq!(game.analyze_cell(2, 2), rules_live(GameCellColor::Blue));
}

#[test]
fn live_cell_with_three_neighbors_survives_in_its_color() {
    let game = rules_engine(
        5,
        &[
            (2, 2, GameCellColor::Orange),
            (1, 1, GameCellColor::Red),
            (3, 1, GameCellColor::Red),
            (2, 3, GameCellColor::Red),
        ],
    );
    assert_eq!(game.analyze_cell(2, 2), rules_live(GameCellColor::Orange));
}

#[test]
fn live_cell_with_no_or_one_neighbor_dies() {
    let alone = rules_engine(5, &[(2, 2, GameCellColor::Red)]);
    assert_eq!(alone.analyze_cell(2, 2), GameCell::default());
    let pair = rules_engine(5, &[(2, 2, GameCellColor::Red), (3, 3, GameCellColor::Red)]);
    assert_eq!(pair.analyze_cell(2, 2), GameCell::default());
    assert_eq!(pair.analyze_cell(3, 3), GameCell::default());
}

#[test]
fn live_cell_with_four_or_more_neighbors_dies() {
    let four = rules_engine(
        5,
        &[
            (2, 2, GameCellColor::Red),
            (1, 1, GameCellColor::Red),
            (3, 1, GameCellColor::Red),
            (1, 3, GameCellColor::Red),
            (3, 3, GameCellColor::Red),
        ],
    );
    assert_eq!(four.analyze_cell(2, 2), GameCell::default());
    let mut all = Vec::new();
    for y in 1..4 {
        for x in 1..4 {
            all.push((x, y, GameCellColor::Green));
        }
    }
    let eight = rules_engine(5, &all);
    assert_eq!(eight.analyze_cell(2, 2), GameCell::default());
}

#[test]
fn dead_cell_without_exactly_three_neighbors_stays_dead() {
    let none = rules_engine(5, &[]);
    assert_eq!(none.analyze_cell(2, 2), GameCell::default());
    let two = rules_engine(5, &[(1, 2, GameCellColor::Red), (3, 2, GameCellColor::Red)]);
    assert_eq!(two.analyze_cell(2, 2), GameCell::default());
    let four = rules_engine(
        5,
        &[
            (1, 1, GameCellColor::Red),
            (3, 1, GameCellColor::Red),
            (1, 3, GameCellColor::Red),
            (3, 3, GameCellColor::Red),
        ],
    );
    assert_eq!(four.analyze_cell(2, 2), GameCell::default());
}

#[test]
fn three_way_tie_gives_the_last_hue_in_order() {
    let game = rules_engine(
        5,
        &[
            (1, 1, GameCellColor::Red),
            (2, 1, GameCellColor::Green),
            (3, 1, GameCellColor::Blue),
        ],
    );
    for _ in 0..50 {
        assert_eq!(game.analyze_cell(2, 2), rules_live(GameCellColor::Blue));
    }
    let other = rules_engine(
        5,
        &[
            (1, 1, GameCellColor::Orange),
            (2, 1, GameCellColor::Green),
            (3, 1, GameCellColor::Red),
        ],
    );
    for _ in 0..50 {
        assert_eq!(other.analyze_cell(2, 2), rules_live(GameCellColor::Orange));
    }
}

#[test]
fn block_is_a_still_life_and_keeps_its_color() {
    let mut game = rules_engine(
        6,
        &[
            (1, 1, GameCellColor::Green),
            (2, 1, GameCellColor::Green),
            (1, 2, GameCellColor::Green),
            (2, 2, GameCellColor::Green),
        ],
    );
    let before = game.get_cells();
    assert_eq!(before.len(), 4);
    for _ in 0..3 {
        game.advance_generation();
        assert_eq!(game.get_cells(), before);
    }
}

#[test]
fn block_across_the_edges_is_a_still_life() {
    let mut game = rules_engine(
        6,
        &[
            (5, 5, GameCellColor::Blue),
            (0, 5, GameCellColor::Red),
            (5, 0, GameCellColor::Orange),
            (0, 0, GameCellColor::Green),
        ],
    );
    let before = game.get_cells();
    game.advance_generation();
    assert_eq!(game.get_cells(), before);
}

#[test]
fn blinker_turns_and_turns_back() {
    let mut game = rules_engine(
        5,
        &[
            (2, 1, GameCellColor::Red),
            (2, 2, GameCellColor::Blue),
            (2, 3, GameCellColor::Red),
        ],
    );
    game.advance_generation();
    assert_eq!(
        game.get_cells(),
        vec![
            rules_entry(1, 2, GameCellColor::Red),
            rules_entry(2, 2, GameCellColor::Blue),
            rules_entry(3, 2, GameCellColor::Red),
        ]
    );
    game.advance_generation();
    assert_eq!(
        game.get_cells(),
        vec![
            rules_entry(2, 1, GameCellColor::Red),
            rules_entry(2, 2, GameCellColor::Blue),
            rules_entry(2, 3, GameCellColor::Red),
        ]
    );
}

#[test]
fn next_generation_is_computed_from_a_snapshot() {
    let mut game = rules_engine(
        5,
        &[
            (0, 0, GameCellColor::Red),
            (1, 0, GameCellColor::Red),
            (2, 0, GameCellColor::Red),
        ],
    );
    let mut expected = Vec::new();
    for y in 0..5 {
        for x in 0..5 {
            let cell = game.analyze_cell(x, y);
            if cell.is_alive {
                expected.push(GameCellCombined { cell, position: GameCellPosition { x, y } });
            }
        }
    }
    game.advance_generation();
    assert_eq!(game.get_cells(), expected);
    assert_eq!(
        expected,
        vec![
            rules_entry(1, 0, GameCellColor::Red),
            rules_entry(1, 1, GameCellColor::Red),
            rules_entry(1, 4, GameCellColor::Red),
        ]
    );
}

#[test]
fn neighbors_are_counted_round_the_edges() {
    let game = rules_engine(
        5,
        &[
            (4, 4, GameCellColor::Red),
            (0, 4, GameCellColor::Green),
            (4, 0, GameCellColor::Green),
        ],
    );
    assert_eq!(game.analyze_cell(0, 0), rules_live(GameCellColor::Green));
}

#[test]
fn on_a_side_of_one_the_cell_is_its_own_eight_neighbors() {
    let mut alive = rules_engine(1, &[(0, 0, GameCellColor::Red)]);
    assert_eq!(alive.analyze_cell(0, 0), GameCell::default());
    alive.advance_generation();
    assert!(alive.get_cells().is_empty());
    let mut dead = rules_engine(1, &[]);
    dead.advance_generation();
    assert!(dead.get_cells().is_empty());
}

#[test]
fn on_a_side_of_two_cells_are_counted_more_than_once() {
    let game = rules_engine(2, &[(0, 0, GameCellColor::Red)]);
    assert_eq!(game.analyze_cell(0, 0), GameCell::default());
    assert_eq!(game.analyze_cell(0, 1), GameCell::default());
    assert_eq!(game.analyze_cell(1, 0), GameCell::default());
    assert_eq!(game.analyze_cell(1, 1), GameCell::default());
    let pair = rules_engine(2, &[(0, 0, GameCellColor::Red), (1, 1, GameCellColor::Blue)]);
    assert_eq!(pair.analyze_cell(0, 0), GameCell::default());
    assert_eq!(pair.analyze_cell(1, 0), GameCell::default());
}

#[test]
fn advance_leaves_the_timer_alone() {
    let mut game = rules_engine(4, &[(1, 1, GameCellColor::Red)]);
    game.set_update_speed(4);
    game.advance_generation();
    assert_eq!(game.update_interval(), 250);
    assert_eq!(game.last_update_time(), 0);
    assert_eq!(game.field_size(), 4);
}
