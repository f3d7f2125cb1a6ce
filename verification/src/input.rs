use vstd::prelude::*;
use vstd::string::StrSliceExecFns;

use crate::Pos;

verus! {

/// Whether one character of input contributes a coordinate: only the digits
/// `'1'` through `'9'` do; `'0'` has no valid predecessor and every other
/// character is a separator to be skipped.
pub open spec fn is_coord_digit(c: char) -> bool {
    '1' <= c && c <= '9'
}

/// The zero-based coordinate a digit character stands for: its value minus
/// one, since the player types one-based coordinates.
pub open spec fn coord_of_digit(c: char) -> u16 {
    (c as u32 - '1' as u32) as u16
}

/// The coordinates that survive the character-by-character scan of a line,
/// in order: one per coordinate digit, everything else dropped.
pub open spec fn survivors(s: Seq<char>) -> Seq<u16>
    decreases s.len(),
{
    if s.len() == 0 {
        Seq::empty()
    } else {
        survivors(s.drop_last()) + (if is_coord_digit(s.last()) {
            seq![coord_of_digit(s.last())]
        } else {
            Seq::empty()
        })
    }
}

/// What one line of input means: a position exactly when two coordinates
/// survive the scan, the first as x and the second as y; any other count of
/// survivors means no candidate position.
pub open spec fn parse_spec(s: Seq<char>) -> Option<Pos> {
    if survivors(s).len() == 2 {
        Some((survivors(s)[0], survivors(s)[1]))
    } else {
        None
    }
}

/// Convert one raw line into at most one candidate position, scanning it
/// character by character: digits `'1'`-`'9'` each contribute their value
/// minus one, all other characters are dropped, and the line parses exactly
/// when two coordinates remain.
pub fn parse(line: &str) -> (r: Option<Pos>)
    ensures
        r == parse_spec(line@),
{
    let n = line.unicode_len();
    let mut found: Vec<u16> = Vec::new();
    let mut i: usize = 0;
    while i < n
        invariant
            i <= n,
            n == line@.len(),
            found@ =~= survivors(line@.take(i as int)),
        decreases n - i,
    {
        let c = line.get_char(i);
        let v = c as u32;
        if 49 <= v && v <= 57 {
            found.push((v - 49) as u16);
        }
        proof {
            assert(line@.take(i + 1).drop_last() =~= line@.take(i as int));
            assert(line@.take(i + 1).last() == line@[i as int]);
        }
        i = i + 1;
    }
    proof {
        assert(line@.take(n as int) =~= line@);
    }
    if found.len() == 2 {
        Some((found[0], found[1]))
    } else {
        None
    }
}

} // verus!
