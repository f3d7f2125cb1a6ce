use pairs::{Card, FatalError, Grid};

fn identity_counts(grid: &Grid) -> Vec<usize> {
    let mut counts = vec![0usize; 16];
    for card in grid.cards.iter() {
        assert!((card.0 as usize) < counts.len(), "identity out of range");
        counts[card.0 as usize] += 1;
    }
    counts
}

#[test]
fn new_grid_has_every_pair_twice() {
    let grid = Grid::new();
    assert_eq!(grid.cards.len(), 12);
    assert_eq!(grid.size, (4, 3));
    let counts = identity_counts(&grid);
    for id in 0..6 {
        assert_eq!(counts[id], 2, "identity {} should appear twice", id);
    }
    for id in 6..16 {
        assert_eq!(counts[id], 0, "identity {} should not appear", id);
    }
}

#[test]
fn generated_size_follows_pair_count_and_row_width() {
    let grid = Grid::generate(1, 4).unwrap();
    assert_eq!(grid.size, (2, 1));
    assert_eq!(grid.cards.len(), 2);

    let grid = Grid::generate(3, 2).unwrap();
    assert_eq!(grid.size, (2, 3));
    assert_eq!(grid.cards.len(), 6);

    let grid = Grid::generate(0, 4).unwrap();
    assert_eq!(grid.size, (0, 0));
    assert_eq!(grid.cards.len(), 0);

    // 2P = 10 cards in rows of 4: a partial last row still counts in full.
    let grid = Grid::generate(5, 4).unwrap();
    assert_eq!(grid.size, (4, 3));
    assert_eq!(grid.cards.len(), 10);
}

#[test]
fn from_deck_lays_out_row_major() {
    let deck: Vec<Card> = [0u16, 0, 1, 1, 2, 2, 3, 3, 4, 4, 5, 5]
        .iter()
        .map(|&id| Card(id))
        .collect();
    let grid = Grid::from_deck(&deck, 12, 4).unwrap();
    assert_eq!(grid.size, (4, 3));
    let expected = [
        ((0u16, 0u16), 0u16),
        ((1, 0), 0),
        ((2, 0), 1),
        ((3, 0), 1),
        ((0, 1), 2),
        ((1, 1), 2),
        ((2, 1), 3),
        ((3, 1), 3),
        ((0, 2), 4),
        ((1, 2), 4),
        ((2, 2), 5),
        ((3, 2), 5),
    ];
    for (pos, id) in expected.iter() {
        assert_eq!(grid.card_at(*pos).unwrap().0, *id, "card at {:?}", pos);
    }
    assert!(grid.card_at((4, 0)).is_none());
    assert!(grid.card_at((0, 3)).is_none());
}

#[test]
fn from_deck_reports_exhaustion() {
    let deck = vec![Card(0), Card(0)];
    let result = Grid::from_deck(&deck, 3, 4);
    assert_eq!(result.unwrap_err(), FatalError::DeckExhausted);
}

#[test]
fn from_deck_of_nothing_is_empty() {
    let deck: Vec<Card> = Vec::new();
    let grid = Grid::from_deck(&deck, 0, 4).unwrap();
    assert_eq!(grid.size, (0, 0));
    assert_eq!(grid.cards.len(), 0);
}

#[test]
fn glyphs_are_fixed_per_identity() {
    let glyphs = ['A', 'B', 'C', 'X', 'Y', '#', '@', 'O', 'E'];
    for (id, &g) in glyphs.iter().enumerate() {
        assert_eq!(Card(id as u16).chr(), g);
    }
    assert_eq!(Card(9).chr(), '-');
    assert_eq!(Card(1000).chr(), '-');
}
