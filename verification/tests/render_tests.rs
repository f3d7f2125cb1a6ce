use pairs::{render, render_gameover, Card, GameState, Grid};

#[test]
fn frame_of_one_hidden_pair() {
    let deck = vec![Card(0), Card(0)];
    let grid = Grid::from_deck(&deck, 2, 4).unwrap();
    let state = GameState::new(&grid);

    // Clear, column headers 1 and 2, row header 1, both hidden cells drawn
    // as two rows each, then the prompt below the board.
    let expected = "\u{1b}[2J\u{1b}[1;4H1 \u{1b}[2C2 \u{1b}[2C\u{1b}[3;1H1 \
        \u{1b}[3;4H\u{2588}\u{2588}\u{1b}[4;4H\u{2588}\u{2588}\
        \u{1b}[3;8H\u{2588}\u{2588}\u{1b}[4;8H\u{2588}\u{2588}\
        \u{1b}[6;1HInput XY> ";
    assert_eq!(render(&grid, &state), expected);
}

#[test]
fn revealed_cards_show_their_glyph() {
    let deck = vec![Card(0), Card(1)];
    let grid = Grid::from_deck(&deck, 2, 4).unwrap();
    let mut state = GameState::new(&grid);
    assert!(state.try_select(&grid, (1, 0)));

    let frame = render(&grid, &state);
    // The second cell is revealed as 'B'; the first stays hidden.
    assert!(frame.contains("\u{1b}[3;8HBB"));
    assert!(frame.contains("\u{1b}[4;8HBB"));
    assert!(frame.contains("\u{1b}[3;4H\u{2588}\u{2588}"));
    assert!(!frame.contains("AA"));
}

#[test]
fn gameover_summary_block() {
    // Anchor row for the default 3-row board: (3 + 1) * 3 + 2 = 14.
    let expected = "\u{1b}[14;1HYou Win!\nIt took you 7 guesses to find all \
        6 pairs,\ngiving you an accuracy of 85.71429%.\n";
    assert_eq!(render_gameover(7, &(4, 3), "85.71429"), expected);
}

#[test]
fn wide_counts_render_in_decimal() {
    // Anchor row for a 12-row board: (12 + 1) * 3 + 2 = 41.
    let summary = render_gameover(120, &(9, 12), "5");
    assert!(summary.starts_with("\u{1b}[41;1HYou Win!"));
    assert!(summary.contains("It took you 120 guesses"));
}
