use vstd::prelude::*;

verus! {

/// A card, identified by a small integer; two cards on the board share each
/// identity, and matching is by identity equality.
#[derive(Clone, Copy, PartialEq, Eq, Structural, Debug)]
pub struct Card(pub u16);

/// The display glyph for a card identity: identities below nine each have a
/// fixed distinct character, every other identity shows the fallback `'-'`.
pub open spec fn glyph_of(id: u16) -> char {
    if id == 0 {
        'A'
    } else if id == 1 {
        'B'
    } else if id == 2 {
        'C'
    } else if id == 3 {
        'X'
    } else if id == 4 {
        'Y'
    } else if id == 5 {
        '#'
    } else if id == 6 {
        '@'
    } else if id == 7 {
        'O'
    } else if id == 8 {
        'E'
    } else {
        '-'
    }
}

impl Card {
    /// The glyph rendered when this card is face up.
    pub fn chr(&self) -> (c: char)
        ensures
            c == glyph_of(self.0),
    {
        match self.0 {
            0 => 'A',
            1 => 'B',
            2 => 'C',
            3 => 'X',
            4 => 'Y',
            5 => '#',
            6 => '@',
            7 => 'O',
            8 => 'E',
            _ => '-',
        }
    }
}

} // verus!
