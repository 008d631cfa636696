//! What a terminal canvas paints, cell by cell.

use vstd::prelude::*;
use vstd::slice::slice_subrange;
use vstd::string::*;

use crate::grid;
use crate::grid::{Cell, CellStyle, Rgb, SearchMatch, TerminalGrid};
use crate::number;
use crate::text;

verus! {

// ---- colours -----------------------------------------------------------------------------

#[derive(Debug, Clone, Copy, PartialEq, Eq, Structural)]
pub struct Rgba {
    pub r: u8,
    pub g: u8,
    pub b: u8,
    pub a: u8,
}

/// A colour as one number.
pub open spec fn color_word(c: Rgba) -> int {
    ((c.r * 256 + c.g) * 256 + c.b) * 256 + c.a
}

/// Two colours as one number.
pub open spec fn colors_word(bg: Rgba, fg: Rgba) -> int {
    color_word(bg) * 0x1_0000_0000 + color_word(fg)
}

/// The terminal's theme colours as one comparable word.
pub fn theme_colors_key(bg: Rgba, fg: Rgba) -> (key: u64)
    ensures
        key == colors_word(bg, fg),
{
    let b: u64 = ((bg.r as u64 * 256 + bg.g as u64) * 256 + bg.b as u64) * 256 + bg.a as u64;
    let f: u64 = ((fg.r as u64 * 256 + fg.g as u64) * 256 + fg.b as u64) * 256 + fg.a as u64;
    b * 0x1_0000_0000 + f
}

proof fn lemma_color_word(a: Rgba, b: Rgba)
    ensures
        color_word(a) == color_word(b) <==> a == b,
        0 <= color_word(a) < 0x1_0000_0000,
{
    let (x, y) = (a.r * 256 + a.g, b.r * 256 + b.g);
    let (u, v) = (x * 256 + a.b, y * 256 + b.b);
    assert(x == y <==> a.r == b.r && a.g == b.g);
    assert(u == v <==> x == y && a.b == b.b);
    assert(color_word(a) == u * 256 + a.a && color_word(b) == v * 256 + b.a);
}

/// Any edit of either colour changes the word, and colours that show never
/// give the word that a fresh canvas starts with.
pub proof fn law_colors_word_tells_colours_apart(bg: Rgba, fg: Rgba, bg2: Rgba, fg2: Rgba)
    ensures
        colors_word(bg, fg) == colors_word(bg2, fg2) <==> bg == bg2 && fg == fg2,
        fg.a > 0 ==> colors_word(bg, fg) != 0,
{
    lemma_color_word(bg, bg2);
    lemma_color_word(fg, fg2);
    lemma_color_word(bg2, bg);
    lemma_color_word(fg2, fg);
    let (a, b, c, d) = (color_word(bg), color_word(fg), color_word(bg2), color_word(fg2));
    assert(a * 0x1_0000_0000 + b == c * 0x1_0000_0000 + d <==> a == c && b == d);
}

/// `#` at the start left out.
pub open spec fn without_hash(s: Seq<char>) -> Seq<char> {
    if s.len() > 0 && s[0] == '#' {
        s.drop_first()
    } else {
        s
    }
}

/// `s` writes a colour as six hexadecimal digits.
pub open spec fn is_hex_color(s: Seq<char>) -> bool {
    s.len() == 6 && number::all_digits(s, 16)
}

/// `"#rrggbb"` (the `#` optional, surrounding blanks ignored) to a colour.
/// Anything else — empty, short, non-hex — is None rather than a guess.
pub fn parse_hex_color(s: &str) -> (r: Option<Rgb>)
    ensures
        ({
            let h = without_hash(text::trim(s@));
            match r {
                Some(c) => is_hex_color(h) && c.r == number::value(h.subrange(0, 2), 16) && c.g
                    == number::value(h.subrange(2, 4), 16) && c.b == number::value(
                    h.subrange(4, 6),
                    16,
                ),
                None => !is_hex_color(h),
            }
        }),
{
    let cs = text::chars_of(s);
    let t = text::trim_chars(cs.as_slice());
    let n: usize = t.len();
    let h = if n > 0 && t[0] == '#' {
        slice_subrange(t, 1, n)
    } else {
        t
    };
    assert(h@ =~= without_hash(text::trim(s@)));
    if h.len() != 6 || !number::are_digits(h, 16) {
        return None;
    }
    let r: u8 = two_digits(slice_subrange(h, 0, 2));
    let g: u8 = two_digits(slice_subrange(h, 2, 4));
    let b: u8 = two_digits(slice_subrange(h, 4, 6));
    Some(Rgb { r, g, b })
}

/// The number that two hexadecimal digits write.
fn two_digits(s: &[char]) -> (n: u8)
    requires
        s@.len() == 2,
        number::all_digits(s@, 16),
    ensures
        n == number::value(s@, 16),
{
    proof {
        reveal_with_fuel(number::value, 3);
        assert(s@.drop_last().drop_last() =~= Seq::<char>::empty());
        assert(number::is_digit_of(s@[0], 16) && number::is_digit_of(s@[1], 16));
    }
    match number::read_digits(s, 16, 255) {
        Some(n) => n as u8,
        None => 0,
    }
}

// ---- one cell -------------------------------------------------------------------------------

/// A blank cell (space or NUL) on the default background, not inverted.
pub open spec fn blank(cell: Cell) -> bool {
    (cell.c == ' ' || cell.c == '\0') && cell.style.bg is None && !cell.style.inverse
}

/// A blank cell (space or NUL) on the default background, not inverted. It
/// paints nothing that the canvas's own fill has not already painted.
pub fn is_blank_cell(cell: &Cell) -> (r: bool)
    ensures
        r == blank(*cell),
{
    (cell.c == ' ' || cell.c == '\0') && cell.style.bg.is_none() && !cell.style.inverse
}

/// Check whether a row consists entirely of blank cells. Such rows need no
/// rendering at all.
pub fn is_row_empty(row: &[Cell]) -> (r: bool)
    ensures
        r == forall|i: int| 0 <= i < row@.len() ==> blank(#[trigger] row@[i]),
{
    let mut i: usize = 0;
    while i < row.len()
        invariant
            i <= row.len(),
            forall|j: int| 0 <= j < i ==> blank(#[trigger] row@[j]),
        decreases row.len() - i,
    {
        if !is_blank_cell(&row[i]) {
            assert(!blank(row@[i as int]));
            return false;
        }
        i += 1;
    }
    true
}

/// What one cell paints: a background fill (`None` leaves the canvas's own
/// background showing) and the glyph colour.
pub open spec fn painted(style: CellStyle, terminal_fg: Rgb, terminal_bg: Rgb) -> (Option<Rgb>, Rgb) {
    let fg = match style.fg {
        Some(c) => c,
        None => terminal_fg,
    };
    if style.inverse {
        (
            Some(fg),
            match style.bg {
                Some(c) => c,
                None => terminal_bg,
            },
        )
    } else {
        (style.bg, fg)
    }
}

/// What one cell paints: a background fill (`None` leaves the canvas's own
/// background showing) and the glyph colour. A colour that the cell does not
/// set is the theme's; reverse video swaps the two as they came out.
pub fn cell_paint(style: &CellStyle, terminal_fg: Rgb, terminal_bg: Rgb) -> (r: (Option<Rgb>, Rgb))
    ensures
        r == painted(*style, terminal_fg, terminal_bg),
{
    let fg = match style.fg {
        Some(c) => c,
        None => terminal_fg,
    };
    if style.inverse {
        let glyph = match style.bg {
            Some(c) => c,
            None => terminal_bg,
        };
        (Some(fg), glyph)
    } else {
        (style.bg, fg)
    }
}

// ---- marks ---------------------------------------------------------------------------------

/// One thing to paint; positions and lengths are in cells.
#[derive(Debug)]
pub enum Mark {
    Fill { x: usize, y: usize, cols: usize, color: Rgb },
    /// Narrow characters side by side.
    Text { x: usize, y: usize, text: String, color: Rgb },
    /// One character over two columns.
    Wide { x: usize, y: usize, c: char, color: Rgb },
    Selected { x: usize, y: usize, cols: usize },
    /// A hit of the search; the one it stands on is brighter.
    Found { x: usize, y: usize, cols: usize, current: bool },
    Cursor { x: usize, y: usize },
    /// How far back the view is scrolled, over `cols` columns at the right.
    Scrolled { label: String, cols: usize },
}

/// What a mark is, its text as characters.
pub enum Drawn {
    Fill { x: int, y: int, cols: int, color: Rgb },
    Text { x: int, y: int, text: Seq<char>, color: Rgb },
    Wide { x: int, y: int, c: char, color: Rgb },
    Selected { x: int, y: int, cols: int },
    Found { x: int, y: int, cols: int, current: bool },
    Cursor { x: int, y: int },
    Scrolled { label: Seq<char>, cols: int },
}

impl View for Mark {
    type V = Drawn;

    open spec fn view(&self) -> Drawn {
        match *self {
            Mark::Fill { x, y, cols, color } => Drawn::Fill {
                x: x as int,
                y: y as int,
                cols: cols as int,
                color,
            },
            Mark::Text { x, y, text, color } => Drawn::Text {
                x: x as int,
                y: y as int,
                text: text@,
                color,
            },
            Mark::Wide { x, y, c, color } => Drawn::Wide { x: x as int, y: y as int, c, color },
            Mark::Selected { x, y, cols } => Drawn::Selected {
                x: x as int,
                y: y as int,
                cols: cols as int,
            },
            Mark::Found { x, y, cols, current } => Drawn::Found {
                x: x as int,
                y: y as int,
                cols: cols as int,
                current,
            },
            Mark::Cursor { x, y } => Drawn::Cursor { x: x as int, y: y as int },
            Mark::Scrolled { label, cols } => Drawn::Scrolled { label: label@, cols: cols as int },
        }
    }
}

pub open spec fn drawn(marks: Seq<Mark>) -> Seq<Drawn> {
    marks.map_values(|m: Mark| m@)
}

fn push_mark(out: &mut Vec<Mark>, m: Mark)
    ensures
        drawn(final(out)@) == drawn(old(out)@).push(m@),
{
    let ghost before = out@;
    out.push(m);
    assert(drawn(out@) =~= drawn(before).push(m@));
}

// ---- one row --------------------------------------------------------------------------------

/// Narrow characters gathered so far that go out together.
pub struct Run {
    pub x: int,
    pub color: Rgb,
    pub text: Seq<char>,
}

pub open spec fn no_run(color: Rgb) -> Run {
    Run { x: 0, color, text: Seq::empty() }
}

pub open spec fn flushed(run: Run, y: int) -> Seq<Drawn> {
    if run.text.len() == 0 {
        Seq::empty()
    } else {
        seq![Drawn::Text { x: run.x, y, text: run.text, color: run.color }]
    }
}

pub open spec fn background(bg: Option<Rgb>, x: int, y: int, cols: int) -> Seq<Drawn> {
    match bg {
        Some(color) => seq![Drawn::Fill { x, y, cols, color }],
        None => Seq::empty(),
    }
}

pub open spec fn width(cell: Cell) -> int {
    if cell.wide {
        2
    } else {
        1
    }
}

/// The columns to the next cell.
pub open spec fn advance(cell: Cell) -> int {
    if cell.wide_cont {
        1
    } else {
        width(cell)
    }
}

/// What one cell at column `x` paints, and what is gathered behind it.
pub open spec fn cell_step(cell: Cell, x: int, y: int, run: Run, fg: Rgb, bg: Rgb) -> (Seq<Drawn>, Run) {
    let (back, color) = painted(cell.style, fg, bg);
    let fill = background(back, x, y, width(cell));
    if cell.wide_cont {
        (Seq::empty(), run)
    } else if blank(cell) {
        (flushed(run, y), no_run(fg))
    } else if cell.c == ' ' || cell.c == '\0' {
        (fill + flushed(run, y), no_run(fg))
    } else if cell.wide {
        (fill + flushed(run, y) + seq![Drawn::Wide { x, y, c: cell.c, color }], no_run(fg))
    } else if run.text.len() == 0 {
        (fill, Run { x, color, text: seq![cell.c] })
    } else if color == run.color {
        (fill, Run { text: run.text.push(cell.c), ..run })
    } else {
        (fill + flushed(run, y), Run { x, color, text: seq![cell.c] })
    }
}

/// What the cells of a row from column `x` on paint, `run` being what is
/// gathered and not out yet. Side by side, narrow characters of one colour go
/// out as one text.
pub open spec fn row_marks(line: Seq<Cell>, cols: int, y: int, x: int, run: Run, fg: Rgb, bg: Rgb) -> Seq<Drawn>
    decreases cols + 1 - x,
{
    if x >= cols || x >= line.len() || x < 0 {
        flushed(run, y)
    } else {
        let (marks, next) = cell_step(line[x], x, y, run, fg, bg);
        marks + row_marks(line, cols, y, x + advance(line[x]), next, fg, bg)
    }
}

/// What a row paints.
pub open spec fn row_drawn(line: Seq<Cell>, cols: int, y: int, fg: Rgb, bg: Rgb) -> Seq<Drawn> {
    row_marks(line, cols, y, 0, no_run(fg), fg, bg)
}

/// A row of blank cells paints nothing.
pub proof fn law_blank_row_paints_nothing(line: Seq<Cell>, cols: int, y: int, x: int, fg: Rgb, bg: Rgb)
    requires
        forall|i: int| 0 <= i < line.len() ==> blank(#[trigger] line[i]),
    ensures
        row_marks(line, cols, y, x, no_run(fg), fg, bg) == Seq::<Drawn>::empty(),
    decreases cols + 1 - x,
{
    if !(x >= cols || x >= line.len() || x < 0) {
        assert(blank(line[x]));
        law_blank_row_paints_nothing(line, cols, y, x + advance(line[x]), fg, bg);
        assert(row_marks(line, cols, y, x, no_run(fg), fg, bg) =~= Seq::<Drawn>::empty());
    }
}

/// The characters that the marks show, in their order.
pub open spec fn shown_text(marks: Seq<Drawn>) -> Seq<char>
    decreases marks.len(),
{
    if marks.len() == 0 {
        Seq::empty()
    } else {
        shown_text(marks.drop_last()) + (match marks.last() {
            Drawn::Text { text, .. } => text,
            Drawn::Wide { c, .. } => seq![c],
            _ => Seq::empty(),
        })
    }
}

/// The characters of a row from column `x` on that are to be seen.
pub open spec fn glyphs(line: Seq<Cell>, cols: int, x: int) -> Seq<char>
    decreases cols + 1 - x,
{
    if x >= cols || x >= line.len() || x < 0 {
        Seq::empty()
    } else {
        glyph(line[x]) + glyphs(line, cols, x + advance(line[x]))
    }
}

/// The character of a cell, if there is one to be seen.
pub open spec fn glyph(cell: Cell) -> Seq<char> {
    if cell.wide_cont || cell.c == ' ' || cell.c == '\0' {
        Seq::empty()
    } else {
        seq![cell.c]
    }
}

proof fn lemma_shown_add(a: Seq<Drawn>, b: Seq<Drawn>)
    ensures
        shown_text(a + b) == shown_text(a) + shown_text(b),
    decreases b.len(),
{
    if b.len() == 0 {
        assert(a + b =~= a);
        assert(shown_text(a) + shown_text(b) =~= shown_text(a));
    } else {
        assert((a + b).drop_last() =~= a + b.drop_last());
        lemma_shown_add(a, b.drop_last());
        assert(shown_text(a + b) =~= shown_text(a) + shown_text(b));
    }
}

proof fn lemma_shown_flushed(run: Run, y: int)
    ensures
        shown_text(flushed(run, y)) == run.text,
{
    reveal_with_fuel(shown_text, 2);
    if run.text.len() == 0 {
        assert(run.text =~= Seq::<char>::empty());
    } else {
        let one = flushed(run, y);
        assert(one.drop_last() =~= Seq::<Drawn>::empty());
        assert(shown_text(one) =~= run.text);
    }
}

proof fn lemma_shown_one(m: Drawn)
    ensures
        m matches Drawn::Wide { c, .. } ==> shown_text(seq![m]) == seq![c],
        m is Fill ==> shown_text(seq![m]) == Seq::<char>::empty(),
{
    reveal_with_fuel(shown_text, 2);
    assert(seq![m].drop_last() =~= Seq::<Drawn>::empty());
    assert(m matches Drawn::Wide { c, .. } ==> shown_text(seq![m]) =~= seq![c]);
    assert(m is Fill ==> shown_text(seq![m]) =~= Seq::<char>::empty());
}

proof fn lemma_step_shows(cell: Cell, x: int, y: int, run: Run, fg: Rgb, bg: Rgb)
    ensures
        ({
            let (marks, next) = cell_step(cell, x, y, run, fg, bg);
            shown_text(marks) + next.text == run.text + glyph(cell)
        }),
{
    let (marks, next) = cell_step(cell, x, y, run, fg, bg);
    let (back, color) = painted(cell.style, fg, bg);
    let fill = background(back, x, y, width(cell));
    let one = Drawn::Wide { x, y, c: cell.c, color };
    lemma_shown_flushed(run, y);
    lemma_shown_one(one);
    assert(shown_text(fill) == Seq::<char>::empty()) by {
        match back {
            Some(c) => lemma_shown_one(Drawn::Fill { x, y, cols: width(cell), color: c }),
            None => {},
        }
    }
    lemma_shown_add(fill, flushed(run, y));
    lemma_shown_add(fill + flushed(run, y), seq![one]);
    assert(shown_text(marks) + next.text =~= run.text + glyph(cell));
}

/// Every character of a row that is to be seen is painted, each once and in
/// its order, and no other.
pub proof fn law_every_glyph_is_painted_once(
    line: Seq<Cell>,
    cols: int,
    y: int,
    x: int,
    run: Run,
    fg: Rgb,
    bg: Rgb,
)
    ensures
        shown_text(row_marks(line, cols, y, x, run, fg, bg)) == run.text + glyphs(line, cols, x),
    decreases cols + 1 - x,
{
    if x >= cols || x >= line.len() || x < 0 {
        lemma_shown_flushed(run, y);
        assert(run.text + glyphs(line, cols, x) =~= run.text);
    } else {
        let (marks, next) = cell_step(line[x], x, y, run, fg, bg);
        let at = x + advance(line[x]);
        lemma_step_shows(line[x], x, y, run, fg, bg);
        law_every_glyph_is_painted_once(line, cols, y, at, next, fg, bg);
        lemma_shown_add(marks, row_marks(line, cols, y, at, next, fg, bg));
        assert(shown_text(marks) + (next.text + glyphs(line, cols, at)) =~= (shown_text(marks)
            + next.text) + glyphs(line, cols, at));
        assert((run.text + glyph(line[x])) + glyphs(line, cols, at) =~= run.text + (glyph(line[x])
            + glyphs(line, cols, at)));
    }
}

fn flush(out: &mut Vec<Mark>, run: &mut Vec<char>, x: usize, y: usize, color: Rgb)
    ensures
        drawn(final(out)@) == drawn(old(out)@) + flushed(
            (Run { x: x as int, color, text: old(run)@ }),
            y as int,
        ),
        final(run)@ == Seq::<char>::empty(),
{
    let ghost before = drawn(out@);
    if run.len() > 0 {
        push_mark(out, Mark::Text { x, y, text: text::string_of(run.as_slice()), color });
        run.clear();
        assert(drawn(out@) =~= before + flushed((Run { x: x as int, color, text: old(run)@ }), y as int));
    } else {
        assert(run@ =~= Seq::<char>::empty());
        assert(before =~= before + Seq::<Drawn>::empty());
    }
}

/// The text gathered so far, and where it starts.
struct Pending {
    x: usize,
    color: Rgb,
    text: Vec<char>,
}

impl Pending {
    spec fn run(&self) -> Run {
        Run { x: self.x as int, color: self.color, text: self.text@ }
    }
}

fn paint_cell(out: &mut Vec<Mark>, run: &mut Pending, cell: Cell, x: usize, y: usize, fg: Rgb, bg: Rgb)
    ensures
        ({
            let (marks, next) = cell_step(cell, x as int, y as int, old(run).run(), fg, bg);
            drawn(final(out)@) == drawn(old(out)@) + marks && final(run).run() == next
        }),
{
    let ghost before = drawn(out@);
    let ghost was = run.run();
    assert(before + Seq::<Drawn>::empty() =~= before);
    if cell.wide_cont {
        return;
    }
    if is_blank_cell(&cell) {
        flush(out, &mut run.text, run.x, y, run.color);
        run.x = 0;
        run.color = fg;
        return;
    }
    let step: usize = if cell.wide {
        2
    } else {
        1
    };
    let (back, color) = cell_paint(&cell.style, fg, bg);
    let ghost fill = background(back, x as int, y as int, step as int);
    match back {
        Some(c) => push_mark(out, Mark::Fill { x, y, cols: step, color: c }),
        None => {},
    }
    assert(drawn(out@) =~= before + fill);
    if cell.c == ' ' || cell.c == '\0' {
        flush(out, &mut run.text, run.x, y, run.color);
        run.x = 0;
        run.color = fg;
        assert(drawn(out@) =~= before + (fill + flushed(was, y as int)));
    } else if cell.wide {
        flush(out, &mut run.text, run.x, y, run.color);
        push_mark(out, Mark::Wide { x, y, c: cell.c, color });
        run.x = 0;
        run.color = fg;
        assert(drawn(out@) =~= before + (fill + flushed(was, y as int) + seq![
            Drawn::Wide { x: x as int, y: y as int, c: cell.c, color },
        ]));
    } else if run.text.len() == 0 {
        run.x = x;
        run.color = color;
        run.text.push(cell.c);
        assert(run.text@ =~= seq![cell.c]);
    } else if color == run.color {
        run.text.push(cell.c);
    } else {
        flush(out, &mut run.text, run.x, y, run.color);
        run.x = x;
        run.color = color;
        run.text.push(cell.c);
        assert(run.text@ =~= seq![cell.c]);
        assert(drawn(out@) =~= before + (fill + flushed(was, y as int)));
    }
}

/// Paint the row `y`, whose cells are `line`.
pub fn paint_row(out: &mut Vec<Mark>, line: &[Cell], cols: usize, y: usize, fg: Rgb, bg: Rgb)
    requires
        cols < usize::MAX,
    ensures
        drawn(final(out)@) == drawn(old(out)@) + row_drawn(line@, cols as int, y as int, fg, bg),
{
    let ghost base = drawn(out@);
    if is_row_empty(line) {
        proof {
            law_blank_row_paints_nothing(line@, cols as int, y as int, 0, fg, bg);
            assert(base =~= base + Seq::<Drawn>::empty());
        }
        return;
    }
    let mut run = Pending { x: 0, color: fg, text: Vec::new() };
    let mut x: usize = 0;
    let ghost whole = row_drawn(line@, cols as int, y as int, fg, bg);
    assert(run.text@ =~= Seq::<char>::empty());
    while x < cols && x < line.len()
        invariant
            cols < usize::MAX,
            x <= cols + 1,
            base + whole == drawn(out@) + row_marks(
                line@,
                cols as int,
                y as int,
                x as int,
                run.run(),
                fg,
                bg,
            ),
        decreases cols + 1 - x,
    {
        let cell = line[x];
        let ghost before = drawn(out@);
        let ghost was = run.run();
        paint_cell(out, &mut run, cell, x, y, fg, bg);
        let step: usize = if !cell.wide_cont && cell.wide {
            2
        } else {
            1
        };
        proof {
            let (marks, next) = cell_step(cell, x as int, y as int, was, fg, bg);
            let rest = row_marks(line@, cols as int, y as int, x + step, next, fg, bg);
            assert(before + (marks + rest) =~= (before + marks) + rest);
        }
        x += step;
    }
    flush(out, &mut run.text, run.x, y, run.color);
}

// ---- the whole canvas -----------------------------------------------------------------------

/// What a terminal canvas shows over its grid.
#[derive(Debug)]
pub struct TerminalView {
    pub selection_start: Option<(usize, usize)>,
    pub selection_end: Option<(usize, usize)>,
    /// The theme's terminal background and foreground: what a cell that sets
    /// no colours of its own paints in.
    pub terminal_bg: Rgb,
    pub terminal_fg: Rgb,
    /// All hits of the search, by absolute line.
    pub search_matches: Vec<SearchMatch>,
    /// The hit that the search stands on.
    pub search_current: Option<usize>,
}

/// What the first `n` rows paint.
pub open spec fn rows_drawn(grid: TerminalGrid, n: int, fg: Rgb, bg: Rgb) -> Seq<Drawn>
    decreases n,
{
    if n <= 0 {
        Seq::empty()
    } else {
        rows_drawn(grid, n - 1, fg, bg) + row_drawn(
            grid.shown(n - 1),
            grid.cols as int,
            n - 1,
            fg,
            bg,
        )
    }
}

/// The highlight of row `row` of a selection.
pub open spec fn row_selected(a: (usize, usize), b: (usize, usize), cols: int, row: int) -> Seq<Drawn> {
    let lo = if row == a.1 {
        a.0 as int
    } else {
        0
    };
    let hi = if row == b.1 {
        b.0 as int
    } else if cols > 0 {
        cols - 1
    } else {
        0
    };
    if hi >= lo {
        seq![Drawn::Selected { x: lo, y: row, cols: hi - lo + 1 }]
    } else {
        Seq::empty()
    }
}

/// The highlights of the rows of a selection up to `end`.
pub open spec fn rows_selected(a: (usize, usize), b: (usize, usize), cols: int, end: int) -> Seq<Drawn>
    decreases end - a.1,
{
    if end <= a.1 {
        Seq::empty()
    } else {
        rows_selected(a, b, cols, end - 1) + row_selected(a, b, cols, end - 1)
    }
}

/// Row behind the last that a selection down to row `last` highlights.
pub open spec fn selection_end_row(last: int, rows: int) -> int {
    if rows == 0 {
        grid::at_most(last, 0) + 1
    } else {
        grid::at_most(last, rows - 1) + 1
    }
}

pub open spec fn selection_drawn(view: TerminalView, cols: int, rows: int) -> Seq<Drawn> {
    match (view.selection_start, view.selection_end) {
        (Some(s), Some(e)) => {
            let (a, b) = grid::ordered(s, e);
            rows_selected(a, b, cols, selection_end_row(b.1 as int, rows))
        },
        _ => Seq::empty(),
    }
}

/// The highlight of one hit, where it is on screen; `top` is the line at the
/// top of the screen.
pub open spec fn hit_drawn(m: SearchMatch, current: bool, top: int, rows: int) -> Seq<Drawn> {
    if m.abs_line < top || m.abs_line - top >= rows || m.col_end <= m.col_start {
        Seq::empty()
    } else {
        seq![
            Drawn::Found {
                x: m.col_start as int,
                y: m.abs_line - top,
                cols: m.col_end - m.col_start,
                current,
            },
        ]
    }
}

pub open spec fn hits_drawn(view: TerminalView, top: int, rows: int, n: int) -> Seq<Drawn>
    decreases n,
{
    if n <= 0 {
        Seq::empty()
    } else {
        hits_drawn(view, top, rows, n - 1) + hit_drawn(
            view.search_matches@[n - 1],
            view.search_current matches Some(c) && c == n - 1,
            top,
            rows,
        )
    }
}

/// The cursor, while the view is not scrolled back.
pub open spec fn cursor_drawn(grid: TerminalGrid) -> Seq<Drawn> {
    if grid.scroll_offset == 0 && grid.cursor_visible && grid.cursor_y < grid.rows && grid.cursor_x
        < grid.cols {
        seq![Drawn::Cursor { x: grid.cursor_x as int, y: grid.cursor_y as int }]
    } else {
        Seq::empty()
    }
}

pub open spec fn scrolled_label(offset: nat) -> Seq<char> {
    seq!['\u{2191}', ' '] + number::decimal(offset) + " lines"@
}

/// How far back the view is scrolled, where it is. The arrow counts three
/// columns.
pub open spec fn scrolled_drawn(grid: TerminalGrid) -> Seq<Drawn> {
    if grid.scroll_offset > 0 {
        let label = scrolled_label(grid.scroll_offset as nat);
        seq![Drawn::Scrolled { label, cols: (label.len() + 2) as int }]
    } else {
        Seq::empty()
    }
}

/// Everything that the canvas paints, in its order: the cells, the selection,
/// the hits of the search, the cursor, and how far back the view is scrolled.
pub open spec fn frame(view: TerminalView, grid: TerminalGrid) -> Seq<Drawn> {
    rows_drawn(grid, grid.rows as int, view.terminal_fg, view.terminal_bg) + selection_drawn(
        view,
        grid.cols as int,
        grid.rows as int,
    ) + hits_drawn(
        view,
        grid.scrollback@.len() - grid.scroll_offset,
        grid.rows as int,
        view.search_matches@.len() as int,
    ) + cursor_drawn(grid) + scrolled_drawn(grid)
}

impl TerminalView {
    /// The ends of the selection leave room to count columns.
    pub open spec fn wf(&self) -> bool {
        &&& self.selection_start matches Some(p) ==> p.0 < usize::MAX && p.1 < usize::MAX
        &&& self.selection_end matches Some(p) ==> p.0 < usize::MAX && p.1 < usize::MAX
    }

    fn paint_selection(&self, out: &mut Vec<Mark>, cols: usize, rows: usize)
        requires
            self.wf(),
            cols < usize::MAX,
        ensures
            drawn(final(out)@) == drawn(old(out)@) + selection_drawn(*self, cols as int, rows as int),
    {
        let ghost base = drawn(out@);
        assert(base =~= base + Seq::<Drawn>::empty());
        match (self.selection_start, self.selection_end) {
            (Some(s), Some(e)) => {
                let (a, b) = grid::in_order(s, e);
                let max: usize = if rows == 0 {
                    0
                } else {
                    rows - 1
                };
                let end: usize = if b.1 < max {
                    b.1 + 1
                } else {
                    if max < b.1 {
                        max + 1
                    } else {
                        b.1 + 1
                    }
                };
                let mut row: usize = a.1;
                while row < end
                    invariant
                        a.0 < usize::MAX,
                        b.0 < usize::MAX,
                        a.1 <= row,
                        a.1 < end ==> row <= end,
                        end <= a.1 ==> row == a.1,
                        cols < usize::MAX,
                        drawn(out@) == base + rows_selected(a, b, cols as int, row as int),
                    decreases end - row,
                {
                    let lo: usize = if row == a.1 {
                        a.0
                    } else {
                        0
                    };
                    let hi: usize = if row == b.1 {
                        b.0
                    } else if cols > 0 {
                        cols - 1
                    } else {
                        0
                    };
                    let ghost before = drawn(out@);
                    if hi >= lo {
                        push_mark(out, Mark::Selected { x: lo, y: row, cols: hi - lo + 1 });
                    }
                    assert(drawn(out@) =~= before + row_selected(a, b, cols as int, row as int));
                    assert(drawn(out@) =~= base + rows_selected(a, b, cols as int, row + 1));
                    row += 1;
                }
            },
            _ => {},
        }
    }

    fn paint_hits(&self, out: &mut Vec<Mark>, top: usize, rows: usize)
        ensures
            drawn(final(out)@) == drawn(old(out)@) + hits_drawn(
                *self,
                top as int,
                rows as int,
                self.search_matches@.len() as int,
            ),
    {
        let ghost base = drawn(out@);
        assert(base =~= base + Seq::<Drawn>::empty());
        let mut i: usize = 0;
        while i < self.search_matches.len()
            invariant
                i <= self.search_matches.len(),
                drawn(out@) == base + hits_drawn(*self, top as int, rows as int, i as int),
            decreases self.search_matches.len() - i,
        {
            let m = self.search_matches[i];
            let current = match self.search_current {
                Some(c) => c == i,
                None => false,
            };
            let ghost before = drawn(out@);
            if m.abs_line >= top && m.abs_line - top < rows && m.col_end > m.col_start {
                push_mark(
                    out,
                    Mark::Found {
                        x: m.col_start,
                        y: m.abs_line - top,
                        cols: m.col_end - m.col_start,
                        current,
                    },
                );
            }
            assert(drawn(out@) =~= before + hit_drawn(m, current, top as int, rows as int));
            assert(drawn(out@) =~= base + hits_drawn(*self, top as int, rows as int, i + 1));
            i += 1;
        }
    }

    /// Everything that the canvas paints over its own background.
    pub fn draw(&self, grid: &TerminalGrid) -> (out: Vec<Mark>)
        requires
            self.wf(),
            grid.wf(),
            grid.cols < usize::MAX,
        ensures
            drawn(out@) == frame(*self, *grid),
    {
        let mut out: Vec<Mark> = Vec::new();
        let mut y: usize = 0;
        assert(drawn(out@) =~= rows_drawn(*grid, 0, self.terminal_fg, self.terminal_bg));
        while y < grid.rows
            invariant
                grid.wf(),
                grid.cols < usize::MAX,
                y <= grid.rows,
                drawn(out@) == rows_drawn(*grid, y as int, self.terminal_fg, self.terminal_bg),
            decreases grid.rows - y,
        {
            paint_row(
                &mut out,
                grid.visible_line(y),
                grid.cols,
                y,
                self.terminal_fg,
                self.terminal_bg,
            );
            y += 1;
        }
        self.paint_selection(&mut out, grid.cols, grid.rows);
        let top: usize = grid.scrollback.len() - grid.scroll_offset;
        self.paint_hits(&mut out, top, grid.rows);
        let ghost before = drawn(out@);
        if grid.scroll_offset == 0 && grid.cursor_visible && grid.cursor_y < grid.rows
            && grid.cursor_x < grid.cols {
            push_mark(&mut out, Mark::Cursor { x: grid.cursor_x, y: grid.cursor_y });
        }
        assert(drawn(out@) =~= before + cursor_drawn(*grid));
        let ghost before = drawn(out@);
        if grid.scroll_offset > 0 {
            let digits = number::decimal_text(grid.scroll_offset as u64);
            let mut label = text::string_of_char('\u{2191}');
            label.push(' ');
            label.append(digits.as_str());
            label.append(" lines");
            assert(label@ =~= scrolled_label(grid.scroll_offset as nat));
            let n: usize = text::chars_of(label.as_str()).len();
            proof {
                number::lemma_decimal_short(grid.scroll_offset as nat);
                reveal_strlit(" lines");
            }
            push_mark(&mut out, Mark::Scrolled { label, cols: n + 2 });
        }
        assert(drawn(out@) =~= before + scrolled_drawn(*grid));
        out
    }
}

// ---- between frames ------------------------------------------------------------------------

/// What a canvas remembers from one frame to the next.
#[derive(Debug)]
pub struct TerminalViewState {
    pub last_generation: u64,
    /// The word of the colours that the cached frame was painted with. A
    /// theme edit changes them without touching the grid.
    pub last_colors: u64,
}

impl TerminalViewState {
    pub fn new() -> (r: TerminalViewState)
        ensures
            r.last_generation == 0,
            r.last_colors == 0,
    {
        TerminalViewState { last_generation: 0, last_colors: 0 }
    }

    /// Whether the cached frame is stale, now that the grid is at
    /// `generation` and the theme's colours at `colors`.
    pub fn refresh(&mut self, generation: u64, colors: u64) -> (stale: bool)
        ensures
            stale == (old(self).last_generation != generation || old(self).last_colors != colors),
            final(self).last_generation == generation,
            final(self).last_colors == colors,
    {
        let stale = self.last_generation != generation || self.last_colors != colors;
        self.last_generation = generation;
        self.last_colors = colors;
        stale
    }
}

/// The size a canvas gives its grid: never under two by two.
pub fn fitted_size(cols: usize, rows: usize) -> (r: (usize, usize))
    ensures
        r.0 == (if cols < 2 {
            2
        } else {
            cols as int
        }),
        r.1 == (if rows < 2 {
            2
        } else {
            rows as int
        }),
{
    (
        if cols < 2 {
            2
        } else {
            cols
        },
        if rows < 2 {
            2
        } else {
            rows
        },
    )
}

} // verus!
