use vstd::prelude::*;

use crate::card::Card;
use crate::{Pos, CARD_PAIRS, CARDS_PER_ROW};

use rand::seq::SliceRandom;

verus! {

broadcast use vstd::seq_lib::group_to_multiset_ensures, vstd::multiset::group_multiset_axioms;

/// Internal-consistency failures that cannot occur when the library is used
/// through its public operations; they are reported rather than ignored so
/// that a violated invariant aborts instead of corrupting play.
#[derive(Clone, Copy, PartialEq, Eq, Structural, Debug)]
pub enum FatalError {
    /// The deck ran out before every board position was filled.
    DeckExhausted,
    /// A selected position had no card in the grid.
    SelectionNotInGrid,
}

/// How many cards in `s` carry identity `id`.
pub open spec fn id_count(s: Seq<Card>, id: u16) -> nat
    decreases s.len(),
{
    if s.len() == 0 {
        0
    } else {
        id_count(s.drop_last(), id) + (if s.last().0 == id {
            1nat
        } else {
            0nat
        })
    }
}

proof fn lemma_id_count_push(s: Seq<Card>, c: Card, id: u16)
    ensures
        id_count(s.push(c), id) == id_count(s, id) + (if c.0 == id {
            1int
        } else {
            0int
        }),
{
    assert(s.push(c).drop_last() =~= s);
    assert(s.push(c).last() == c);
}

/// Counting one identity agrees with the multiset of cards, so a permutation
/// of a deck keeps every identity count.
proof fn lemma_id_count_is_multiset_count(s: Seq<Card>, id: u16)
    ensures
        id_count(s, id) == s.to_multiset().count(Card(id)),
    decreases s.len(),
{
    if s.len() == 0 {
        assert(!s.contains(Card(id)));
        assert(s.to_multiset().count(Card(id)) == 0);
    } else {
        lemma_id_count_is_multiset_count(s.drop_last(), id);
        assert(s.drop_last().push(s.last()) =~= s);
        assert(s.to_multiset() =~= s.drop_last().to_multiset().insert(s.last()));
        lemma_id_count_push(s.drop_last(), s.last(), id);
    }
}

/// The board: one card per occupied position, laid out row-major, together
/// with the tight bounding size derived during generation.
#[derive(Debug)]
pub struct Grid {
    /// The cards in row-major order: index `y * size.0 + x` holds the card at
    /// position `(x, y)`.
    pub cards: Vec<Card>,
    /// `(width, height)`: the smallest bounding box containing every occupied
    /// position.
    pub size: (u16, u16),
}

impl Grid {
    /// Number of cards on the board.
    pub open spec fn total(self) -> nat {
        self.cards@.len()
    }

    /// Row-major index of a position.
    pub open spec fn index_of(self, p: Pos) -> int {
        p.1 * self.size.0 + p.0
    }

    /// Whether a position holds a card.
    pub open spec fn pos_valid(self, p: Pos) -> bool {
        &&& p.0 < self.size.0
        &&& p.1 < self.size.1
        &&& self.index_of(p) < self.total()
    }

    /// The board as a mapping from occupied position to its card.
    pub open spec fn cards_map(self) -> Map<Pos, Card> {
        Map::new(|p: Pos| self.pos_valid(p), |p: Pos| self.cards@[self.index_of(p)])
    }

    /// The size is the tight bounding box of the row-major layout: all full
    /// rows but the last, and an empty board has size zero.
    pub open spec fn wf(self) -> bool {
        &&& self.total() == 0 ==> self.size == (0u16, 0u16)
        &&& self.total() > 0 ==> {
            &&& 1 <= self.size.0 <= self.total()
            &&& self.size.1 >= 1
            &&& self.size.0 * (self.size.1 - 1) < self.total() <= self.size.0 * self.size.1
        }
    }

    /// The card at a position, or `None` when the position is off the board.
    pub fn card_at(&self, p: Pos) -> (r: Option<Card>)
        ensures
            r == if self.pos_valid(p) {
                Some(self.cards_map()[p])
            } else {
                None::<Card>
            },
    {
        if p.0 < self.size.0 && p.1 < self.size.1 {
            proof {
                assert((p.1 as int) * (self.size.0 as int) <= 65535int * 65535int)
                    by (nonlinear_arith)
                    requires
                        p.1 <= 65535,
                        self.size.0 <= 65535,
                ;
            }
            let i: usize = (p.1 as usize) * (self.size.0 as usize) + (p.0 as usize);
            if i < self.cards.len() {
                Some(self.cards[i])
            } else {
                None
            }
        } else {
            None
        }
    }

    /// Whether a position holds a card.
    pub fn contains_pos(&self, p: Pos) -> (r: bool)
        ensures
            r == self.pos_valid(p),
    {
        self.card_at(p).is_some()
    }

    /// Lay a deck out in row-major order, `row_width` cards per row, wrapping
    /// to the next row, and derive the bounding size. Succeeds exactly when
    /// the deck holds at least `count` cards; a shorter deck is the fatal
    /// `DeckExhausted` condition.
    pub fn from_deck(deck: &Vec<Card>, count: u16, row_width: u16) -> (r: Result<Grid, FatalError>)
        requires
            row_width >= 1,
        ensures
            r is Ok <==> deck@.len() >= count,
            r is Err ==> r == Err::<Grid, FatalError>(FatalError::DeckExhausted),
            r matches Ok(g) ==> {
                &&& g.wf()
                &&& g.cards@ == deck@.take(count as int)
                &&& count == 0 ==> g.size == (0u16, 0u16)
                &&& count > 0 ==> {
                    &&& g.size.0 == (if count <= row_width {
                        count as int
                    } else {
                        row_width as int
                    })
                    &&& g.size.1 == (count + row_width - 1) as int / row_width as int
                }
            },
    {
        let mut cards: Vec<Card> = Vec::new();
        let mut x: u16 = 0;
        let mut y: u16 = 0;
        let mut size: (u16, u16) = (0, 0);
        let mut i: u16 = 0;
        while i < count
            invariant
                i <= count,
                cards@ =~= deck@.take(i as int),
                i as int <= deck@.len(),
                i == 0 ==> x == 0 && y == 0 && size == (0u16, 0u16),
                i > 0 ==> {
                    &&& 1 <= x <= row_width
                    &&& i == y * row_width + x
                    &&& size.0 == (if i <= row_width {
                        i as int
                    } else {
                        row_width as int
                    })
                    &&& size.1 == y + 1
                },
            decreases count - i,
        {
            if x >= row_width {
                proof {
                    assert(y + 1 <= i && (y + 1) * row_width == y * row_width + row_width)
                        by (nonlinear_arith)
                        requires
                            i == y * row_width + row_width,
                            row_width >= 1,
                            y >= 0,
                    ;
                }
                x = 0;
                y = y + 1;
            }
            proof {
                if y >= 1 {
                    assert(y * row_width >= row_width) by (nonlinear_arith)
                        requires
                            y >= 1,
                            row_width >= 1,
                    ;
                } else {
                    assert(y * row_width == 0) by (nonlinear_arith)
                        requires
                            y == 0,
                    ;
                }
            }
            if x >= size.0 {
                size.0 = x + 1;
            }
            if y >= size.1 {
                size.1 = y + 1;
            }
            if (i as usize) < deck.len() {
                cards.push(deck[i as usize]);
            } else {
                return Err(FatalError::DeckExhausted);
            }
            x = x + 1;
            i = i + 1;
        }
        let g = Grid { cards, size };
        proof {
            if count > 0 {
                assert(g.size.0 * (g.size.1 - 1) < g.total() <= g.size.0 * g.size.1)
                    by (nonlinear_arith)
                    requires
                        g.total() == count,
                        count == y * row_width + x,
                        1 <= x <= row_width,
                        g.size.1 == y + 1,
                        g.size.0 == (if count <= row_width {
                            count as int
                        } else {
                            row_width as int
                        }),
                        row_width >= 1,
                        y >= 0,
                ;
                assert(g.size.1 == (count + row_width - 1) as int / row_width as int)
                    by (nonlinear_arith)
                    requires
                        count == y * row_width + x,
                        1 <= x <= row_width,
                        g.size.1 == y + 1,
                        row_width >= 1,
                        y >= 0,
                ;
            }
        }
        Ok(g)
    }

    /// Build the board for `pair_count` identities, `row_width` cards per
    /// row: a deck holding every identity in `[0, pair_count)` exactly twice
    /// is shuffled and laid out row-major. Every identity appears on exactly
    /// two cards, and the size is `row_width` wide (narrower only when the
    /// whole deck fits in one row) by as many rows as the deck fills.
    pub fn generate(pair_count: u16, row_width: u16) -> (r: Result<Grid, FatalError>)
        requires
            row_width >= 1,
            2 * pair_count <= u16::MAX,
        ensures
            r is Ok,
            r matches Ok(g) ==> {
                &&& g.wf()
                &&& g.total() == 2 * pair_count
                &&& forall|id: u16| id < pair_count ==> id_count(g.cards@, id) == 2
                &&& forall|id: u16| id >= pair_count ==> id_count(g.cards@, id) == 0
                &&& pair_count == 0 ==> g.size == (0u16, 0u16)
                &&& pair_count > 0 ==> {
                    &&& g.size.0 == (if 2 * pair_count <= row_width {
                        2 * pair_count as int
                    } else {
                        row_width as int
                    })
                    &&& g.size.1 == (2 * pair_count + row_width - 1) as int / row_width as int
                }
            },
    {
        let mut deck: Vec<Card> = Vec::new();
        let mut i: u16 = 0;
        while i < pair_count
            invariant
                i <= pair_count,
                deck@.len() == 2 * i,
                forall|id: u16| id < i ==> id_count(deck@, id) == 2,
                forall|id: u16| id >= i ==> id_count(deck@, id) == 0,
            decreases pair_count - i,
        {
            let ghost before = deck@;
            deck.push(Card(i));
            deck.push(Card(i));
            proof {
                assert forall|id: u16| id_count(deck@, id) == id_count(before, id) + (if id == i {
                    2int
                } else {
                    0int
                }) by {
                    lemma_id_count_push(before, Card(i), id);
                    lemma_id_count_push(before.push(Card(i)), Card(i), id);
                }
            }
            i = i + 1;
        }
        let ghost unshuffled = deck@;
        shuffle_deck(&mut deck);
        proof {
            assert forall|id: u16| #[trigger] id_count(deck@, id) == id_count(unshuffled, id) by {
                lemma_id_count_is_multiset_count(deck@, id);
                lemma_id_count_is_multiset_count(unshuffled, id);
            }
        }
        let count: u16 = 2 * pair_count;
        let r = Grid::from_deck(&deck, count, row_width);
        proof {
            assert(deck@.take(count as int) =~= deck@);
        }
        r
    }

    /// Build the board for the game's fixed configuration.
    pub fn new() -> (g: Grid)
        ensures
            g.wf(),
            g.total() == 2 * CARD_PAIRS,
            forall|id: u16| id < CARD_PAIRS ==> id_count(g.cards@, id) == 2,
            forall|id: u16| id >= CARD_PAIRS ==> id_count(g.cards@, id) == 0,
            g.size.0 == CARDS_PER_ROW,
            g.size.1 == (2 * CARD_PAIRS + CARDS_PER_ROW - 1) as int / CARDS_PER_ROW as int,
    {
        match Grid::generate(CARD_PAIRS, CARDS_PER_ROW) {
            Ok(g) => g,
            Err(_) => vstd::pervasive::unreached(),
        }
    }
}

/// Relies on rand's `SliceRandom::shuffle`: an in-place random permutation of
/// the slice, so the multiset of cards is unchanged.
#[verifier::external_body]
fn shuffle_deck(deck: &mut Vec<Card>)
    ensures
        final(deck)@.len() == old(deck)@.len(),
        final(deck)@.to_multiset() == old(deck)@.to_multiset(),
{
    deck.shuffle(&mut rand::thread_rng());
}

} // verus!
