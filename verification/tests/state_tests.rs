use pairs::{Card, FatalError, GameState, Grid};

fn ordered_grid() -> Grid {
    let deck: Vec<Card> = [0u16, 0, 1, 1, 2, 2, 3, 3, 4, 4, 5, 5]
        .iter()
        .map(|&id| Card(id))
        .collect();
    Grid::from_deck(&deck, 12, 4).unwrap()
}

fn revealed_count(state: &GameState) -> usize {
    state.revealed.iter().filter(|&&r| r).count()
}

#[test]
fn fresh_state_is_idle() {
    let grid = ordered_grid();
    let state = GameState::new(&grid);
    assert_eq!(revealed_count(&state), 0);
    assert_eq!(state.selected.len(), 0);
    assert_eq!(state.guesses, 0);
    assert!(!state.is_won(&grid));
}

#[test]
fn rejected_selections_change_nothing() {
    let grid = ordered_grid();
    let mut state = GameState::new(&grid);

    // Off the board: rejected.
    assert!(!state.try_select(&grid, (9, 9)));
    assert!(!state.try_select(&grid, (4, 0)));
    assert!(!state.try_select(&grid, (0, 3)));
    assert_eq!(revealed_count(&state), 0);
    assert_eq!(state.selected.len(), 0);
    assert_eq!(state.guesses, 0);

    // Already revealed: rejected, everything else untouched.
    assert!(state.try_select(&grid, (0, 0)));
    assert!(!state.try_select(&grid, (0, 0)));
    assert_eq!(revealed_count(&state), 1);
    assert_eq!(state.selected.len(), 1);
    assert_eq!(state.guesses, 0);
}

#[test]
fn matched_turn_stays_revealed() {
    let grid = ordered_grid();
    let mut state = GameState::new(&grid);

    assert!(state.try_select(&grid, (0, 0)));
    assert!(state.try_select(&grid, (1, 0)));
    state.maybe_resolve(&grid).unwrap();

    assert!(state.is_revealed(&grid, (0, 0)));
    assert!(state.is_revealed(&grid, (1, 0)));
    assert_eq!(state.guesses, 1);
    assert_eq!(state.selected.len(), 0);
    assert_eq!(revealed_count(&state), 2);
}

#[test]
fn mismatched_turn_hides_both() {
    let grid = ordered_grid();
    let mut state = GameState::new(&grid);

    // First turn: the matching pair of identity 0 stays revealed.
    assert!(state.try_select(&grid, (0, 0)));
    assert!(state.try_select(&grid, (1, 0)));
    state.maybe_resolve(&grid).unwrap();
    assert_eq!(state.guesses, 1);

    // Second turn: identities 1 and 2 differ, so both flip back down.
    assert!(state.try_select(&grid, (2, 0)));
    assert!(state.try_select(&grid, (0, 1)));
    state.maybe_resolve(&grid).unwrap();

    assert!(!state.is_revealed(&grid, (2, 0)));
    assert!(!state.is_revealed(&grid, (0, 1)));
    assert!(state.is_revealed(&grid, (0, 0)));
    assert!(state.is_revealed(&grid, (1, 0)));
    assert_eq!(state.guesses, 2);
    assert_eq!(state.selected.len(), 0);
    assert_eq!(revealed_count(&state), 2);
    assert!(!state.is_won(&grid));
}

#[test]
fn resolve_before_two_selections_is_a_no_op() {
    let grid = ordered_grid();
    let mut state = GameState::new(&grid);

    state.maybe_resolve(&grid).unwrap();
    assert_eq!(state.guesses, 0);

    assert!(state.try_select(&grid, (0, 0)));
    state.maybe_resolve(&grid).unwrap();
    assert_eq!(state.guesses, 0);
    assert_eq!(state.selected.len(), 1);
    assert!(state.is_revealed(&grid, (0, 0)));
}

#[test]
fn win_exactly_at_full_reveal() {
    let deck = vec![Card(0), Card(0)];
    let grid = Grid::from_deck(&deck, 2, 4).unwrap();
    let mut state = GameState::new(&grid);

    assert!(!state.is_won(&grid));
    assert!(state.try_select(&grid, (0, 0)));
    assert!(!state.is_won(&grid));
    assert!(state.try_select(&grid, (1, 0)));
    state.maybe_resolve(&grid).unwrap();
    assert!(state.is_won(&grid));
    assert_eq!(state.guesses, 1);
}

#[test]
fn selection_outside_grid_is_the_fatal_guard() {
    // A selection buffer holding a position with no card violates the
    // invariant the public operations keep; the resolver still refuses to
    // continue and reports the internal-consistency failure.
    let grid = ordered_grid();
    let state = GameState::new(&grid);
    let mut broken = GameState {
        revealed: state.revealed.clone(),
        selected: vec![(9, 9), (0, 0)],
        guesses: 0,
    };
    assert_eq!(
        broken.maybe_resolve(&grid).unwrap_err(),
        FatalError::SelectionNotInGrid
    );
}

#[test]
fn full_scenario_on_an_ordered_board() {
    // Six pairs in rows of four give a 4 x 3 board; dealing the deck
    // unpermuted puts both cards of each identity side by side.
    let grid = ordered_grid();
    assert_eq!(grid.size, (4, 3));
    let mut state = GameState::new(&grid);

    // (0,0) and (1,0) both hold identity 0: a match.
    assert!(state.try_select(&grid, (0, 0)));
    assert!(state.try_select(&grid, (1, 0)));
    state.maybe_resolve(&grid).unwrap();
    assert!(state.is_revealed(&grid, (0, 0)));
    assert!(state.is_revealed(&grid, (1, 0)));
    assert_eq!(state.guesses, 1);

    // (2,0) holds identity 1 and (0,1) identity 2: a mismatch.
    assert!(state.try_select(&grid, (2, 0)));
    assert!(state.try_select(&grid, (0, 1)));
    state.maybe_resolve(&grid).unwrap();
    assert!(!state.is_revealed(&grid, (2, 0)));
    assert!(!state.is_revealed(&grid, (0, 1)));
    assert_eq!(state.guesses, 2);

    // Two of twelve cards revealed: not won yet.
    assert_eq!(revealed_count(&state), 2);
    assert!(!state.is_won(&grid));
}
