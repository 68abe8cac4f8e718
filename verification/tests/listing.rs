use game_of_life::game::{
    GameCell, GameCellColor, GameCellCombined, GameCellPosition, GameLogic,
    DEFAULT_UPDATE_INTERVAL, MAX_FIELD_SIZE,
};

fn listing_blank(size: usize) -> Vec<Vec<GameCell>> {
    vec![vec![GameCell::default(); size]; size]
}

fn listing_live(color: GameCellColor) -> GameCell {
    GameCell { is_alive: true, color }
}

#[test]
fn default_cell_is_dead_and_blank() {
    let cell = GameCell::default();
    assert!(!cell.is_alive);
    assert_eq!(cell.color, GameCellColor::Blank);
}

#[test]
fn constants_have_their_stated_values() {
    assert_eq!(DEFAULT_UPDATE_INTERVAL, 1000);
    assert_eq!(MAX_FIELD_SIZE, i32::MAX as usize);
}

#[test]
fn cells_are_listed_row_by_row() {
    let mut field = listing_blank(4);
    field[3][0] = listing_live(GameCellColor::Red);
    field[0][3] = listing_live(GameCellColor::Green);
    field[1][2] = listing_live(GameCellColor::Blue);
    field[1][0] = listing_live(GameCellColor::Orange);
    let game = GameLogic::from_field(field).expect("a valid field");
    assert_eq!(
        game.get_cells(),
        vec![
            GameCellCombined {
                cell: listing_live(GameCellColor::Green),
                position: GameCellPosition { x: 3, y: 0 },
            },
            GameCellCombined {
                cell: listing_live(GameCellColor::Orange),
                position: GameCellPosition { x: 0, y: 1 },
            },
            GameCellCombined {
                cell: listing_live(GameCellColor::Blue),
                position: GameCellPosition { x: 2, y: 1 },
            },
            GameCellCombined {
                cell: listing_live(GameCellColor::Red),
                position: GameCellPosition { x: 0, y: 3 },
            },
        ]
    );
}

#[test]
fn blank_field_lists_nothing() {
    let game = GameLogic::from_field(listing_blank(3)).expect("a valid field");
    assert!(game.get_cells().is_empty());
}

#[test]
fn full_field_lists_every_cell_once() {
    let field = vec![vec![listing_live(GameCellColor::Blue); 3]; 3];
    let game = GameLogic::from_field(field).expect("a valid field");
    let cells = game.get_cells();
    assert_eq!(cells.len(), 9);
    for (rank, entry) in cells.iter().enumerate() {
        assert_eq!((entry.position.x, entry.position.y), (rank % 3, rank / 3));
        assert_eq!(entry.cell, listing_live(GameCellColor::Blue));
    }
}

#[test]
fn listing_twice_gives_the_same_sequence() {
    let game = GameLogic::new(30);
    let first = game.get_cells();
    let second = game.get_cells();
    assert_eq!(first, second);
}

#[test]
fn listing_is_a_snapshot() {
    let mut field = listing_blank(5);
    field[2][1] = listing_live(GameCellColor::Red);
    let mut game = GameLogic::from_field(field).expect("a valid field");
    let snapshot = game.get_cells();
    game.advance_generation();
    assert_eq!(snapshot.len(), 1);
    assert_eq!((snapshot[0].position.x, snapshot[0].position.y), (1, 2));
    assert!(game.get_cells().is_empty());
}

#[test]
fn from_field_keeps_the_field_and_starts_the_timer_at_rest() {
    let mut field = listing_blank(2);
    field[1][0] = listing_live(GameCellColor::Orange);
    let game = GameLogic::from_field(field).expect("a valid field");
    assert_eq!(game.field_size(), 2);
    assert_eq!(game.update_interval(), 1000);
    assert_eq!(game.last_update_time(), 0);
    assert_eq!(
        game.get_cells(),
        vec![GameCellCombined {
            cell: listing_live(GameCellColor::Orange),
            position: GameCellPosition { x: 0, y: 1 },
        }]
    );
}

#[test]
fn from_field_refuses_an_empty_field() {
    assert!(GameLogic::from_field(Vec::new()).is_none());
}

#[test]
fn from_field_refuses_a_field_that_is_not_square() {
    assert!(GameLogic::from_field(vec![vec![GameCell::default(); 3]; 2]).is_none());
    assert!(GameLogic::from_field(vec![Vec::new()]).is_none());
    let mut ragged = listing_blank(3);
    ragged[2].pop();
    assert!(GameLogic::from_field(ragged).is_none());
    let mut long = listing_blank(3);
    long[0].push(GameCell::default());
    assert!(GameLogic::from_field(long).is_none());
}

#[test]
fn from_field_refuses_a_live_cell_without_a_hue() {
    let mut field = listing_blank(3);
    field[1][1] = GameCell { is_alive: true, color: GameCellColor::Blank };
    assert!(GameLogic::from_field(field).is_none());
}

#[test]
fn from_field_refuses_a_dead_cell_with_a_hue() {
    let mut field = listing_blank(3);
    field[2][2] = GameCell { is_alive: false, color: GameCellColor::Red };
    assert!(GameLogic::from_field(field).is_none());
}
