use vstd::prelude::*;
use vstd::string::StrSliceExecFns;

use crate::card::glyph_of;
use crate::grid::Grid;
use crate::state::StateModel;
use crate::{CARD_PAIRS, CELL_HEIGHT, CELL_WIDTH, HIDDEN_CHR, PAD_X, PAD_Y, Pos};

verus! {

/// The character for one decimal digit.
pub open spec fn digit_char(d: int) -> char {
    if d == 0 {
        '0'
    } else if d == 1 {
        '1'
    } else if d == 2 {
        '2'
    } else if d == 3 {
        '3'
    } else if d == 4 {
        '4'
    } else if d == 5 {
        '5'
    } else if d == 6 {
        '6'
    } else if d == 7 {
        '7'
    } else if d == 8 {
        '8'
    } else {
        '9'
    }
}

/// The decimal rendering of a non-negative number: most significant digit
/// first, no leading zeroes, a single `'0'` for zero.
pub open spec fn dec_chars(n: int) -> Seq<char>
    decreases n,
{
    if n < 10 {
        seq![digit_char(n)]
    } else {
        dec_chars(n / 10).push(digit_char(n % 10))
    }
}

/// `n` spaces (none when `n` is negative).
pub open spec fn spaces(n: int) -> Seq<char> {
    Seq::new(
        if n >= 0 {
            n as nat
        } else {
            0
        },
        |i: int| ' ',
    )
}

/// `s` left-aligned in a field of `w` characters: padded on the right, never
/// truncated.
pub open spec fn left_aligned(s: Seq<char>, w: int) -> Seq<char> {
    s + spaces(w - s.len())
}

/// `s` centered in a field of `w` characters, the odd space going to the
/// right; never truncated.
pub open spec fn centered(s: Seq<char>, w: int) -> Seq<char> {
    spaces((w - s.len()) / 2) + s + spaces(w - s.len() - (w - s.len()) / 2)
}

/// `c` repeated `n` times.
pub open spec fn repeat_chars(c: char, n: int) -> Seq<char> {
    Seq::new(
        if n >= 0 {
            n as nat
        } else {
            0
        },
        |i: int| c,
    )
}

/// The clear-screen control sequence.
pub open spec fn esc_clear() -> Seq<char> {
    seq!['\u{1b}', '[', '2', 'J']
}

/// The absolute cursor-positioning control sequence for one-based column `x`
/// and row `y`.
pub open spec fn esc_goto(x: int, y: int) -> Seq<char> {
    seq!['\u{1b}', '['] + dec_chars(y) + seq![';'] + dec_chars(x) + seq!['H']
}

/// The move-right-by-`n`-columns control sequence.
pub open spec fn esc_right(n: int) -> Seq<char> {
    seq!['\u{1b}', '['] + dec_chars(n) + seq!['C']
}

/// Relies on termion's `clear::All` `Display` impl: the clear-screen CSI
/// sequence.
#[verifier::external_body]
fn clear_chars() -> (r: Vec<char>)
    ensures
        r@ == esc_clear(),
{
    termion::clear::All.to_string().chars().collect()
}

/// Relies on termion's `cursor::Goto` `Display` impl: the CSI sequence
/// positioning the cursor at one-based column `x`, row `y`, both written in
/// decimal, row first.
#[verifier::external_body]
fn goto_chars(x: u16, y: u16) -> (r: Vec<char>)
    requires
        x >= 1,
        y >= 1,
    ensures
        r@ == esc_goto(x as int, y as int),
{
    termion::cursor::Goto(x, y).to_string().chars().collect()
}

/// Relies on termion's `cursor::Right` `Display` impl: the CSI sequence
/// moving the cursor right by `n` columns, written in decimal.
#[verifier::external_body]
fn right_chars(n: u16) -> (r: Vec<char>)
    ensures
        r@ == esc_right(n as int),
{
    termion::cursor::Right(n).to_string().chars().collect()
}

/// Relies on std's `String: FromIterator<&char>`: collecting characters in
/// order.
#[verifier::external_body]
fn chars_to_string(v: &Vec<char>) -> (r: String)
    ensures
        r@ == v@,
{
    v.iter().collect()
}

/// The character for one decimal digit.
fn digit(d: u16) -> (c: char)
    requires
        d < 10,
    ensures
        c == digit_char(d as int),
{
    match d {
        0 => '0',
        1 => '1',
        2 => '2',
        3 => '3',
        4 => '4',
        5 => '5',
        6 => '6',
        7 => '7',
        8 => '8',
        _ => '9',
    }
}

/// Append the decimal rendering of `n`.
fn push_dec(out: &mut Vec<char>, n: u64)
    ensures
        final(out)@ == old(out)@ + dec_chars(n as int),
    decreases n,
{
    if n < 10 {
        out.push(digit(n as u16));
    } else {
        push_dec(out, n / 10);
        out.push(digit((n % 10) as u16));
    }
}

/// Append the characters of `s`.
fn push_str_chars(out: &mut Vec<char>, s: &str)
    ensures
        final(out)@ == old(out)@ + s@,
{
    let n = s.unicode_len();
    let mut i: usize = 0;
    while i < n
        invariant
            i <= n,
            n == s@.len(),
            out@ =~= old(out)@ + s@.take(i as int),
        decreases n - i,
    {
        out.push(s.get_char(i));
        proof {
            assert(s@.take(i + 1) =~= s@.take(i as int).push(s@[i as int]));
        }
        i = i + 1;
    }
    proof {
        assert(s@.take(n as int) =~= s@);
    }
}

/// Append `c` repeated `n` times.
fn push_repeat(out: &mut Vec<char>, c: char, n: u16)
    ensures
        final(out)@ == old(out)@ + repeat_chars(c, n as int),
{
    let mut i: u16 = 0;
    while i < n
        invariant
            i <= n,
            out@ =~= old(out)@ + repeat_chars(c, i as int),
        decreases n - i,
    {
        out.push(c);
        proof {
            assert(repeat_chars(c, i + 1) =~= repeat_chars(c, i as int).push(c));
        }
        i = i + 1;
    }
}

/// Append the decimal rendering of `n`, left-aligned in a `w`-character
/// field.
fn push_dec_left_aligned(out: &mut Vec<char>, n: u16, w: u16)
    ensures
        final(out)@ == old(out)@ + left_aligned(dec_chars(n as int), w as int),
{
    let mut t: Vec<char> = Vec::new();
    push_dec(&mut t, n as u64);
    let len = t.len();
    out.append(&mut t);
    let mut k: usize = len;
    while k < w as usize
        invariant
            len <= k,
            len >= w as usize ==> k == len,
            len < w as usize ==> k <= w as usize,
            out@ =~= old(out)@ + dec_chars(n as int) + spaces(k - len),
            len == dec_chars(n as int).len(),
        decreases w as usize - k,
    {
        out.push(' ');
        proof {
            assert(spaces(k + 1 - len) =~= spaces(k - len).push(' '));
        }
        k = k + 1;
    }
    proof {
        assert(out@ =~= old(out)@ + left_aligned(dec_chars(n as int), w as int));
    }
}

/// Append the decimal rendering of `n`, centered in a `w`-character field,
/// the odd space on the right.
fn push_dec_centered(out: &mut Vec<char>, n: u16, w: u16)
    ensures
        final(out)@ == old(out)@ + centered(dec_chars(n as int), w as int),
{
    let mut t: Vec<char> = Vec::new();
    push_dec(&mut t, n as u64);
    let len = t.len();
    if len >= w as usize {
        out.append(&mut t);
        proof {
            assert(spaces(0) =~= Seq::<char>::empty());
            assert(out@ =~= old(out)@ + centered(dec_chars(n as int), w as int));
        }
    } else {
        let pad = w as usize - len;
        let left = pad / 2;
        let mut k: usize = 0;
        while k < left
            invariant
                k <= left,
                out@ =~= old(out)@ + spaces(k as int),
            decreases left - k,
        {
            out.push(' ');
            proof {
                assert(spaces(k + 1) =~= spaces(k as int).push(' '));
            }
            k = k + 1;
        }
        out.append(&mut t);
        let mut j: usize = 0;
        while j < pad - left
            invariant
                j <= pad - left,
                out@ =~= old(out)@ + spaces(left as int) + dec_chars(n as int) + spaces(j as int),
            decreases pad - left - j,
        {
            out.push(' ');
            proof {
                assert(spaces(j + 1) =~= spaces(j as int).push(' '));
            }
            j = j + 1;
        }
        proof {
            assert(out@ =~= old(out)@ + centered(dec_chars(n as int), w as int));
        }
    }
}

} // verus!

verus! {

/// One column header: the one-based column number, left-aligned in a cell
/// width, then a move right over the padding.
pub open spec fn col_header(x: int) -> Seq<char> {
    left_aligned(dec_chars(x), CELL_WIDTH as int) + esc_right(PAD_X as int)
}

/// The column headers `1..=w`, in order, along the top margin.
pub open spec fn col_headers(w: int) -> Seq<char>
    decreases w,
{
    if w <= 0 {
        Seq::empty()
    } else {
        col_headers(w - 1) + col_header(w)
    }
}

/// One row header: the one-based row number, centered in a cell width, at
/// the row's anchor line in the left margin.
pub open spec fn row_header(y: int) -> Seq<char> {
    esc_goto(1, y * ((CELL_HEIGHT + PAD_Y) as int)) + centered(dec_chars(y), CELL_WIDTH as int)
}

/// The row headers `1..=h`, in order, along the left margin.
pub open spec fn row_headers(h: int) -> Seq<char>
    decreases h,
{
    if h <= 0 {
        Seq::empty()
    } else {
        row_headers(h - 1) + row_header(h)
    }
}

/// The glyph drawn for the card at row-major index `i`: its identity's glyph
/// when revealed, the hidden placeholder otherwise.
pub open spec fn cell_glyph(grid: Grid, m: StateModel, i: int) -> char {
    if m.revealed[i] {
        glyph_of(grid.cards@[i].0)
    } else {
        HIDDEN_CHR
    }
}

/// The terminal column of the cell at row-major index `i`: one cell-plus-pad
/// stride per board column, the first stride reserved for the row headers.
pub open spec fn cell_anchor_x(grid: Grid, i: int) -> int {
    (i % (grid.size.0 as int) + 1) * ((CELL_WIDTH + PAD_X) as int)
}

/// The terminal row of the cell at row-major index `i`: one cell-plus-pad
/// stride per board row, the first stride reserved for the column headers.
pub open spec fn cell_anchor_y(grid: Grid, i: int) -> int {
    (i / (grid.size.0 as int) + 1) * ((CELL_HEIGHT + PAD_Y) as int)
}

/// The first `r` drawn rows of the cell at index `i`: each row is the cell's
/// glyph repeated a cell width, at the anchor offset by the row number.
pub open spec fn cell_rows(grid: Grid, m: StateModel, i: int, r: int) -> Seq<char>
    decreases r,
{
    if r <= 0 {
        Seq::empty()
    } else {
        cell_rows(grid, m, i, r - 1) + esc_goto(cell_anchor_x(grid, i), cell_anchor_y(grid, i) + (r
            - 1)) + repeat_chars(cell_glyph(grid, m, i), CELL_WIDTH as int)
    }
}

/// The cells at indices `0..i`, each drawn as a full block of rows.
pub open spec fn cells(grid: Grid, m: StateModel, i: int) -> Seq<char>
    decreases i,
{
    if i <= 0 {
        Seq::empty()
    } else {
        cells(grid, m, i - 1) + cell_rows(grid, m, i - 1, CELL_HEIGHT as int)
    }
}

/// The input prompt, one line below the last row of cells.
pub open spec fn prompt_chars(h: int) -> Seq<char> {
    esc_goto(1, (h + 1) * ((CELL_HEIGHT + PAD_Y) as int)) + ("Input XY> ")@
}

/// One full redraw: clear the screen, draw both coordinate margins, every
/// cell, and the prompt.
pub open spec fn frame_chars(grid: Grid, m: StateModel) -> Seq<char> {
    esc_clear() + esc_goto((CELL_WIDTH + PAD_X) as int, 1) + col_headers(grid.size.0 as int)
        + row_headers(grid.size.1 as int) + cells(grid, m, grid.total() as int) + prompt_chars(
        grid.size.1 as int,
    )
}

} // verus!


verus! {

/// Clear the screen and append both coordinate margins: column headers along
/// the top, row headers down the left.
fn render_coords(buf: &mut Vec<char>, w: u16, h: u16)
    requires
        (w as int + 1) * ((CELL_WIDTH + PAD_X) as int) <= u16::MAX,
        (h as int + 1) * ((CELL_HEIGHT + PAD_Y) as int) <= u16::MAX,
    ensures
        final(buf)@ == old(buf)@ + esc_clear() + esc_goto((CELL_WIDTH + PAD_X) as int, 1)
            + col_headers(w as int) + row_headers(h as int),
{
    proof {
        assert(w as int + 1 <= u16::MAX && h as int + 1 <= u16::MAX) by (nonlinear_arith)
            requires
                (w as int + 1) * ((CELL_WIDTH + PAD_X) as int) <= u16::MAX,
                (h as int + 1) * ((CELL_HEIGHT + PAD_Y) as int) <= u16::MAX,
                CELL_WIDTH as int + PAD_X as int == 4,
                CELL_HEIGHT as int + PAD_Y as int == 3,
                w >= 0,
                h >= 0,
        ;
    }
    let mut t = clear_chars();
    buf.append(&mut t);
    let mut t = goto_chars(CELL_WIDTH + PAD_X, 1);
    buf.append(&mut t);

    let ghost pre_cols = buf@;
    let mut x: u16 = 1;
    while x <= w
        invariant
            1 <= x <= w + 1,
            buf@ =~= pre_cols + col_headers(x as int - 1),
        decreases w + 1 - x,
    {
        push_dec_left_aligned(buf, x, CELL_WIDTH);
        let mut t = right_chars(PAD_X);
        buf.append(&mut t);
        x = x + 1;
    }

    let ghost pre_rows = buf@;
    let mut y: u16 = 1;
    while y <= h
        invariant
            1 <= y <= h + 1,
            buf@ =~= pre_rows + row_headers(y as int - 1),
        decreases h + 1 - y,
    {
        proof {
            assert(1 <= (y as int) * ((CELL_HEIGHT + PAD_Y) as int) && (y as int) * ((CELL_HEIGHT
                + PAD_Y) as int) <= u16::MAX) by (nonlinear_arith)
                requires
                    1 <= y as int && (y as int) <= h as int,
                    (h as int + 1) * ((CELL_HEIGHT + PAD_Y) as int) <= u16::MAX,
                    CELL_HEIGHT as int + PAD_Y as int == 3,
            ;
        }
        let mut t = goto_chars(1, y * (CELL_HEIGHT + PAD_Y));
        buf.append(&mut t);
        push_dec_centered(buf, y, CELL_WIDTH);
        y = y + 1;
    }
}

/// Append every cell: a block of identical rows per card, its glyph when
/// revealed and the hidden placeholder otherwise, at the cell's anchor.
fn render_cards(buf: &mut Vec<char>, grid: &Grid, state: &crate::state::GameState)
    requires
        grid.wf(),
        state@.wf(*grid),
        (grid.size.0 as int + 1) * ((CELL_WIDTH + PAD_X) as int) <= u16::MAX,
        (grid.size.1 as int + 1) * ((CELL_HEIGHT + PAD_Y) as int) <= u16::MAX,
    ensures
        final(buf)@ == old(buf)@ + cells(*grid, state@, grid.total() as int),
{
    let w = grid.size.0;
    let h = grid.size.1;
    let ghost pre_cells = buf@;
    let total = grid.cards.len();
    let mut i: usize = 0;
    while i < total
        invariant
            i <= total,
            buf@ =~= pre_cells + cells(*grid, state@, i as int),
        decreases total - i,
    {
        proof {
            vstd::arithmetic::div_mod::lemma_fundamental_div_mod(i as int, w as int);
            vstd::arithmetic::div_mod::lemma_mod_division_less_than_divisor(i as int, w as int);
            assert((i as int) / (w as int) < h as int) by (nonlinear_arith)
                requires
                    i as int == (w as int) * ((i as int) / (w as int)) + (i as int) % (w as int),
                    0 <= (i as int) % (w as int) && (i as int) % (w as int) < w as int,
                    (i as int) < (w as int) * (h as int),
                    w >= 1,
            ;
        }
        let xi: u16 = (i % (w as usize)) as u16;
        let yi: u16 = (i / (w as usize)) as u16;
        proof {
            assert(xi as int == (i as int) % (w as int));
            assert(yi as int == (i as int) / (w as int));
            assert(xi < w && yi < h);
            assert((xi as int + 1) * ((CELL_WIDTH + PAD_X) as int) <= u16::MAX
                && (yi as int + 1) * ((CELL_HEIGHT + PAD_Y) as int) <= u16::MAX)
                by (nonlinear_arith)
                requires
                    0 <= xi as int && (xi as int) < w as int,
                    0 <= yi as int && (yi as int) < h as int,
                    (w as int + 1) * ((CELL_WIDTH + PAD_X) as int) <= u16::MAX,
                    (h as int + 1) * ((CELL_HEIGHT + PAD_Y) as int) <= u16::MAX,
                    CELL_WIDTH as int + PAD_X as int == 4,
                    CELL_HEIGHT as int + PAD_Y as int == 3,
            ;
        }
        let px: u16 = (xi + 1) * (CELL_WIDTH + PAD_X);
        let py: u16 = (yi + 1) * (CELL_HEIGHT + PAD_Y);
        proof {
            assert(px >= 1 && py >= 1 && py as int + CELL_HEIGHT as int <= u16::MAX)
                by (nonlinear_arith)
                requires
                    px as int == (xi as int + 1) * ((CELL_WIDTH + PAD_X) as int),
                    py as int == (yi as int + 1) * ((CELL_HEIGHT + PAD_Y) as int),
                    0 <= yi as int && (yi as int) < h as int,
                    xi >= 0,
                    (h as int + 1) * ((CELL_HEIGHT + PAD_Y) as int) <= u16::MAX,
                    CELL_WIDTH as int + PAD_X as int == 4,
                    CELL_HEIGHT as int + PAD_Y as int == 3,
            ;
        }
        let glyph = if state.revealed[i] {
            grid.cards[i].chr()
        } else {
            HIDDEN_CHR
        };
        let ghost pre_cell = buf@;
        let mut row: u16 = 0;
        while row < CELL_HEIGHT
            invariant
                row <= CELL_HEIGHT,
                buf@ =~= pre_cell + cell_rows(*grid, state@, i as int, row as int),
            decreases CELL_HEIGHT - row,
        {
            let mut t = goto_chars(px, py + row);
            buf.append(&mut t);
            push_repeat(buf, glyph, CELL_WIDTH);
            row = row + 1;
        }
        i = i + 1;
    }
}

/// Append the input prompt one line below the last row of cells.
fn render_prompt(buf: &mut Vec<char>, h: u16)
    requires
        (h as int + 1) * ((CELL_HEIGHT + PAD_Y) as int) <= u16::MAX,
    ensures
        final(buf)@ == old(buf)@ + prompt_chars(h as int),
{
    proof {
        assert(h as int + 1 <= u16::MAX && 1 <= (h as int + 1) * ((CELL_HEIGHT + PAD_Y) as int))
            by (nonlinear_arith)
            requires
                h >= 0,
                (h as int + 1) * ((CELL_HEIGHT + PAD_Y) as int) <= u16::MAX,
                CELL_HEIGHT as int + PAD_Y as int == 3,
        ;
    }
    let mut t = goto_chars(1, (h + 1) * (CELL_HEIGHT + PAD_Y));
    buf.append(&mut t);
    push_str_chars(buf, "Input XY> ");
}

/// Draw one full frame of the board: the screen is cleared and redrawn as
/// the coordinate margins, one fixed-size cell per card — its glyph when
/// revealed, the hidden placeholder otherwise — and the input prompt. The
/// result is exactly the control-and-text stream to write to the terminal.
pub fn render(grid: &Grid, state: &crate::state::GameState) -> (r: String)
    requires
        grid.wf(),
        state@.wf(*grid),
        (grid.size.0 as int + 1) * ((CELL_WIDTH + PAD_X) as int) <= u16::MAX,
        (grid.size.1 as int + 1) * ((CELL_HEIGHT + PAD_Y) as int) <= u16::MAX,
    ensures
        r@ == frame_chars(*grid, state@),
{
    let mut buf: Vec<char> = Vec::new();
    render_coords(&mut buf, grid.size.0, grid.size.1);
    render_cards(&mut buf, grid, state);
    render_prompt(&mut buf, grid.size.1);
    proof {
        assert(buf@ =~= frame_chars(*grid, state@));
    }
    chars_to_string(&buf)
}

/// The end-of-game summary block: anchored two rows below the prompt line,
/// it reports the guesses taken, the pair count, and the accuracy text the
/// caller computed.
pub open spec fn gameover_chars(guesses: int, h: int, pairs: int, acc: Seq<char>) -> Seq<char> {
    esc_goto(1, (h + 1) * ((CELL_HEIGHT + PAD_Y) as int) + 2) + ("You Win!\nIt took you ")@
        + dec_chars(guesses) + (" guesses to find all ")@ + dec_chars(pairs) + (
    " pairs,\ngiving you an accuracy of ")@ + acc + ("%.\n")@
}

/// Draw the win summary: the guesses taken to find every pair and the
/// accuracy, two rows below the prompt. The accuracy text is supplied by the
/// caller and spliced in unchanged.
pub fn render_gameover(guesses: usize, size: &Pos, accuracy: &str) -> (r: String)
    requires
        (size.1 as int + 1) * ((CELL_HEIGHT + PAD_Y) as int) + 2 <= u16::MAX,
    ensures
        r@ == gameover_chars(guesses as int, size.1 as int, CARD_PAIRS as int, accuracy@),
{
    proof {
        assert(size.1 as int + 1 <= u16::MAX && 1 <= (size.1 as int + 1) * ((CELL_HEIGHT + PAD_Y)
            as int) + 2) by (nonlinear_arith)
            requires
                size.1 >= 0,
                (size.1 as int + 1) * ((CELL_HEIGHT + PAD_Y) as int) + 2 <= u16::MAX,
                CELL_HEIGHT as int + PAD_Y as int == 3,
        ;
    }
    let mut buf: Vec<char> = Vec::new();
    let mut t = goto_chars(1, (size.1 + 1) * (CELL_HEIGHT + PAD_Y) + 2);
    buf.append(&mut t);
    push_str_chars(&mut buf, "You Win!\nIt took you ");
    push_dec(&mut buf, guesses as u64);
    push_str_chars(&mut buf, " guesses to find all ");
    push_dec(&mut buf, CARD_PAIRS as u64);
    push_str_chars(&mut buf, " pairs,\ngiving you an accuracy of ");
    push_str_chars(&mut buf, accuracy);
    push_str_chars(&mut buf, "%.\n");
    proof {
        assert(buf@ =~= gameover_chars(guesses as int, size.1 as int, CARD_PAIRS as int, accuracy@));
    }
    chars_to_string(&buf)
}

} // verus!
