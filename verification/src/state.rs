use vstd::prelude::*;

use crate::grid::{FatalError, Grid};
use crate::Pos;

verus! {

/// How many entries of `s` are true: the size of the revealed set.
pub open spec fn count_trues(s: Seq<bool>) -> nat
    decreases s.len(),
{
    if s.len() == 0 {
        0
    } else {
        count_trues(s.drop_last()) + (if s.last() {
            1nat
        } else {
            0nat
        })
    }
}

proof fn lemma_count_trues_le_len(s: Seq<bool>)
    ensures
        count_trues(s) <= s.len(),
    decreases s.len(),
{
    if s.len() > 0 {
        lemma_count_trues_le_len(s.drop_last());
    }
}

proof fn lemma_count_trues_update(s: Seq<bool>, i: int, b: bool)
    requires
        0 <= i < s.len(),
    ensures
        count_trues(s.update(i, b)) == count_trues(s) - (if s[i] {
            1int
        } else {
            0int
        }) + (if b {
            1int
        } else {
            0int
        }),
    decreases s.len(),
{
    if i == s.len() - 1 {
        assert(s.update(i, b).drop_last() =~= s.drop_last());
    } else {
        assert(s.update(i, b).drop_last() =~= s.drop_last().update(i, b));
        lemma_count_trues_update(s.drop_last(), i, b);
    }
}

/// A full count means every entry is true: the board is won exactly when
/// every position is revealed.
proof fn lemma_count_trues_full(s: Seq<bool>)
    ensures
        count_trues(s) == s.len() <==> (forall|i: int| 0 <= i < s.len() ==> s[i]),
    decreases s.len(),
{
    if s.len() > 0 {
        lemma_count_trues_full(s.drop_last());
        lemma_count_trues_le_len(s.drop_last());
        if count_trues(s) == s.len() {
            assert forall|i: int| 0 <= i < s.len() implies s[i] by {
                if i < s.len() - 1 {
                    assert(s.drop_last()[i] == s[i]);
                }
            }
        }
    }
}

/// The mathematical play state: which positions are revealed (by row-major
/// card index), the in-progress selections, and the guess counter.
#[verifier::ext_equal]
pub struct StateModel {
    pub revealed: Seq<bool>,
    pub selected: Seq<Pos>,
    pub guesses: nat,
}

impl StateModel {
    /// The size of the revealed set.
    pub open spec fn revealed_count(self) -> nat {
        count_trues(self.revealed)
    }

    /// Whether `p` is a revealed board position.
    pub open spec fn revealed_at(self, grid: Grid, p: Pos) -> bool {
        grid.pos_valid(p) && self.revealed[grid.index_of(p)]
    }

    /// The play-state invariant over its grid: one revealed flag per card,
    /// at most two in-progress selections, each selection a distinct board
    /// position that is currently revealed.
    pub open spec fn wf(self, grid: Grid) -> bool {
        &&& self.revealed.len() == grid.total()
        &&& self.selected.len() <= 2
        &&& forall|k: int|
            0 <= k < self.selected.len() ==> grid.pos_valid(#[trigger] self.selected[k])
                && self.revealed[grid.index_of(self.selected[k])]
        &&& self.selected.len() == 2 ==> self.selected[0] != self.selected[1]
    }

    /// Whether a selection of `p` is accepted: `p` holds a card and is not
    /// yet revealed.
    pub open spec fn can_select(self, grid: Grid, p: Pos) -> bool {
        grid.pos_valid(p) && !self.revealed[grid.index_of(p)]
    }

    /// The state after an accepted selection of `p`: `p` is revealed and
    /// appended to the selection buffer.
    pub open spec fn select_tr(self, grid: Grid, p: Pos) -> StateModel {
        StateModel {
            revealed: self.revealed.update(grid.index_of(p), true),
            selected: self.selected.push(p),
            ..self
        }
    }

    /// Whether the two selected cards carry the same identity.
    pub open spec fn turn_matched(self, grid: Grid) -> bool {
        grid.cards@[grid.index_of(self.selected[0])].0 == grid.cards@[grid.index_of(
            self.selected[1],
        )].0
    }

    /// The state after resolving a turn of two selections: on a match the
    /// reveals stand, on a mismatch both are undone; either way the buffer
    /// empties and the guess counter grows by one.
    pub open spec fn resolve_tr(self, grid: Grid) -> StateModel {
        StateModel {
            revealed: if self.turn_matched(grid) {
                self.revealed
            } else {
                self.revealed.update(grid.index_of(self.selected[0]), false).update(
                    grid.index_of(self.selected[1]),
                    false,
                )
            },
            selected: Seq::empty(),
            guesses: self.guesses + 1,
        }
    }
}

/// Distinct board positions have distinct row-major indices.
proof fn lemma_index_of_injective(grid: Grid, p: Pos, q: Pos)
    requires
        grid.pos_valid(p),
        grid.pos_valid(q),
        p != q,
    ensures
        grid.index_of(p) != grid.index_of(q),
{
    if grid.index_of(p) == grid.index_of(q) {
        assert(false) by (nonlinear_arith)
            requires
                p.1 * grid.size.0 + p.0 == q.1 * grid.size.0 + q.0,
                0 <= p.0 < grid.size.0,
                0 <= q.0 < grid.size.0,
                p.1 >= 0,
                q.1 >= 0,
                p != q,
        ;
    }
}

/// The play state: the revealed positions, the current turn's selection
/// buffer, and the guess counter, mutated only through `try_select` and
/// `maybe_resolve`.
#[derive(Debug)]
pub struct GameState {
    /// One flag per card, in the grid's row-major order.
    pub revealed: Vec<bool>,
    /// The 0-2 positions chosen in the not-yet-resolved turn.
    pub selected: Vec<Pos>,
    /// Completed turns, match or not.
    pub guesses: usize,
}

impl View for GameState {
    type V = StateModel;

    open spec fn view(&self) -> StateModel {
        StateModel {
            revealed: self.revealed@,
            selected: self.selected@,
            guesses: self.guesses as nat,
        }
    }
}

impl GameState {
    /// The empty play state for a board: nothing revealed, nothing selected,
    /// no guesses.
    pub fn new(grid: &Grid) -> (s: GameState)
        ensures
            s@.wf(*grid),
            s@.revealed =~= Seq::new(grid.total(), |i: int| false),
            s@.selected.len() == 0,
            s@.guesses == 0,
    {
        let mut revealed: Vec<bool> = Vec::new();
        let mut i: usize = 0;
        let n = grid.cards.len();
        while i < n
            invariant
                i <= n,
                revealed@ =~= Seq::new(i as nat, |k: int| false),
            decreases n - i,
        {
            revealed.push(false);
            i = i + 1;
        }
        GameState { revealed, selected: Vec::new(), guesses: 0 }
    }

    /// Whether `p` is currently revealed.
    pub fn is_revealed(&self, grid: &Grid, p: Pos) -> (r: bool)
        requires
            self@.wf(*grid),
        ensures
            r == self@.revealed_at(*grid, p),
    {
        if grid.contains_pos(p) {
            proof {
                assert((p.1 as int) * (grid.size.0 as int) <= 65535int * 65535int)
                    by (nonlinear_arith)
                    requires
                        p.1 <= 65535,
                        grid.size.0 <= 65535,
                ;
            }
            let i: usize = (p.1 as usize) * (grid.size.0 as usize) + (p.0 as usize);
            self.revealed[i]
        } else {
            false
        }
    }

    /// Accept or reject one selection. Rejected — with every part of the
    /// state unchanged — when `p` is off the board or already revealed;
    /// otherwise `p` is revealed and buffered for the turn.
    pub fn try_select(&mut self, grid: &Grid, p: Pos) -> (accepted: bool)
        requires
            old(self)@.wf(*grid),
            old(self)@.selected.len() < 2,
        ensures
            final(self)@.wf(*grid),
            accepted == old(self)@.can_select(*grid, p),
            accepted ==> final(self)@ =~= old(self)@.select_tr(*grid, p),
            !accepted ==> final(self)@ =~= old(self)@,
    {
        let on_grid = grid.contains_pos(p);
        let already = self.is_revealed(grid, p);
        if on_grid && !already {
            proof {
                assert((p.1 as int) * (grid.size.0 as int) <= 65535int * 65535int)
                    by (nonlinear_arith)
                    requires
                        p.1 <= 65535,
                        grid.size.0 <= 65535,
                ;
            }
            let i: usize = (p.1 as usize) * (grid.size.0 as usize) + (p.0 as usize);
            self.revealed[i] = true;
            self.selected.push(p);
            proof {
                assert forall|k: int|
                    0 <= k < self@.selected.len() implies grid.pos_valid(
                    #[trigger] self@.selected[k],
                ) && self@.revealed[grid.index_of(self@.selected[k])] by {
                    if k < self@.selected.len() - 1 {
                        if self@.selected[k] != p {
                            lemma_index_of_injective(*grid, self@.selected[k], p);
                        }
                    }
                }
            }
            true
        } else {
            false
        }
    }

    /// Resolve the turn once two selections are buffered; with fewer, leave
    /// the state unchanged. Returns the fatal `SelectionNotInGrid` only if a
    /// buffered selection holds no card, which the invariant rules out.
    pub fn maybe_resolve(&mut self, grid: &Grid) -> (r: Result<(), FatalError>)
        requires
            old(self)@.wf(*grid),
            old(self).guesses < usize::MAX,
        ensures
            r is Ok,
            final(self)@.wf(*grid),
            old(self)@.selected.len() < 2 ==> final(self)@ =~= old(self)@,
            old(self)@.selected.len() == 2 ==> final(self)@ =~= old(self)@.resolve_tr(*grid),
    {
        if self.selected.len() == 2 {
            let a = self.selected[0];
            let b = self.selected[1];
            match (grid.card_at(a), grid.card_at(b)) {
                (Some(card_a), Some(card_b)) => {
                    proof {
                        lemma_index_of_injective(*grid, a, b);
                        assert((a.1 as int) * (grid.size.0 as int) <= 65535int * 65535int
                            && (b.1 as int) * (grid.size.0 as int) <= 65535int * 65535int)
                            by (nonlinear_arith)
                            requires
                                a.1 <= 65535,
                                b.1 <= 65535,
                                grid.size.0 <= 65535,
                        ;
                    }
                    if card_a.0 != card_b.0 {
                        let ia: usize = (a.1 as usize) * (grid.size.0 as usize) + (a.0 as usize);
                        let ib: usize = (b.1 as usize) * (grid.size.0 as usize) + (b.0 as usize);
                        self.revealed[ia] = false;
                        self.revealed[ib] = false;
                    }
                    self.selected.clear();
                    self.guesses = self.guesses + 1;
                    Ok(())
                },
                _ => Err(FatalError::SelectionNotInGrid),
            }
        } else {
            Ok(())
        }
    }

    /// Whether the game is won: every card is revealed.
    pub fn is_won(&self, grid: &Grid) -> (r: bool)
        requires
            self@.wf(*grid),
        ensures
            r == (self@.revealed_count() == grid.total()),
    {
        let n = self.revealed.len();
        let mut count: usize = 0;
        let mut i: usize = 0;
        while i < n
            invariant
                i <= n,
                n == self@.revealed.len(),
                count == count_trues(self@.revealed.take(i as int)),
                count <= i,
            decreases n - i,
        {
            proof {
                assert(self@.revealed.take(i + 1).drop_last() =~= self@.revealed.take(i as int));
            }
            if self.revealed[i] {
                count = count + 1;
            }
            i = i + 1;
        }
        proof {
            assert(self@.revealed.take(n as int) =~= self@.revealed);
        }
        count == self.revealed.len()
    }
}

/// A completed turn — two selections accepted from an idle state, then
/// resolved — increments the guess counter by exactly one and empties the
/// selection buffer, match or not.
pub proof fn lemma_turn_guesses(m: StateModel, grid: Grid, p1: Pos, p2: Pos)
    requires
        m.can_select(grid, p1),
        m.select_tr(grid, p1).can_select(grid, p2),
    ensures
        ({
            let after = m.select_tr(grid, p1).select_tr(grid, p2).resolve_tr(grid);
            &&& after.guesses == m.guesses + 1
            &&& after.selected.len() == 0
        }),
{
}

/// Resolving a turn keeps both selected positions revealed when their cards
/// match, and hides both when they do not — even the turn's own reveals.
pub proof fn lemma_resolve_revealed(m: StateModel, grid: Grid)
    requires
        m.wf(grid),
        m.selected.len() == 2,
    ensures
        ({
            let after = m.resolve_tr(grid);
            if m.turn_matched(grid) {
                after.revealed_at(grid, m.selected[0]) && after.revealed_at(grid, m.selected[1])
            } else {
                !after.revealed_at(grid, m.selected[0]) && !after.revealed_at(grid, m.selected[1])
            }
        }),
{
    lemma_index_of_injective(grid, m.selected[0], m.selected[1]);
}

/// An accepted selection grows the revealed set by exactly one position.
pub proof fn lemma_select_count(m: StateModel, grid: Grid, p: Pos)
    requires
        m.wf(grid),
        m.can_select(grid, p),
    ensures
        m.select_tr(grid, p).revealed_count() == m.revealed_count() + 1,
{
    lemma_count_trues_update(m.revealed, grid.index_of(p), true);
}

/// Resolving a matched turn keeps the revealed count; a mismatched turn
/// lowers it by exactly two. The count never changes otherwise, so it is
/// monotone except for the mismatch case.
pub proof fn lemma_resolve_count(m: StateModel, grid: Grid)
    requires
        m.wf(grid),
        m.selected.len() == 2,
    ensures
        m.turn_matched(grid) ==> m.resolve_tr(grid).revealed_count() == m.revealed_count(),
        !m.turn_matched(grid) ==> m.revealed_count() >= 2 && m.resolve_tr(grid).revealed_count()
            == m.revealed_count() - 2,
{
    if !m.turn_matched(grid) {
        let ia = grid.index_of(m.selected[0]);
        let ib = grid.index_of(m.selected[1]);
        lemma_index_of_injective(grid, m.selected[0], m.selected[1]);
        lemma_count_trues_update(m.revealed, ia, false);
        lemma_count_trues_update(m.revealed.update(ia, false), ib, false);
        lemma_count_trues_le_len(m.revealed);
    }
}

/// The revealed count never exceeds the card count, and reaches it exactly
/// when every board position is revealed: the win condition holds at full
/// reveal and never before.
pub proof fn lemma_win_is_full_reveal(m: StateModel, grid: Grid)
    requires
        m.wf(grid),
    ensures
        m.revealed_count() <= grid.total(),
        m.revealed_count() == grid.total() <==> (forall|i: int|
            0 <= i < grid.total() ==> m.revealed[i]),
{
    lemma_count_trues_le_len(m.revealed);
    lemma_count_trues_full(m.revealed);
}

} // verus!
