//! What a painted terminal shows: each cell at its place, the selection, the hits
//! of the search and the cursor where they belong.

use vstd::prelude::*;

use crate::grid;
use crate::grid::Cell;
use crate::grid::Rgb;
use crate::grid::TerminalGrid;
use crate::number;
use crate::paint;
use crate::paint::Drawn;
use crate::paint::Run;
use crate::paint::TerminalView;

verus! {

// ---- one row --------------------------------------------------------------------------------

/// Where the cell is the right half of a wide character, that one stands before it;
/// where it is wide, its right half follows, if the line goes on.
pub open spec fn paired_at(line: Seq<Cell>, i: int) -> bool {
    &&& line[i].wide_cont ==> i > 0 && line[i - 1].wide && !line[i].wide
    &&& line[i].wide && i + 1 < line.len() ==> line[i + 1].wide_cont
}

/// Wide characters and the right halves behind them come in pairs.
pub open spec fn well_paired(line: Seq<Cell>) -> bool {
    forall|i: int| 0 <= i < line.len() ==> #[trigger] paired_at(line, i)
}

/// The colour that the character of a cell has.
pub open spec fn ink(cell: Cell, fg: Rgb, bg: Rgb) -> Rgb {
    if cell.style.inverse {
        if cell.style.bg is Some {
            cell.style.bg->0
        } else {
            bg
        }
    } else if cell.style.fg is Some {
        cell.style.fg->0
    } else {
        fg
    }
}

/// The colour that stands behind the character of a cell, where it is not the
/// canvas's own.
pub open spec fn backdrop(cell: Cell, fg: Rgb) -> Option<Rgb> {
    if !cell.style.inverse {
        cell.style.bg
    } else if cell.style.fg is Some {
        cell.style.fg
    } else {
        Some(fg)
    }
}

/// The cell holds a character to be seen.
pub open spec fn visible(cell: Cell) -> bool {
    !cell.wide_cont && cell.c != ' ' && cell.c != '\0'
}

/// The cell holds the narrow character `c`, in that colour.
pub open spec fn narrow_at(cell: Cell, c: char, color: Rgb, fg: Rgb, bg: Rgb) -> bool {
    cell.c == c && visible(cell) && !cell.wide && ink(cell, fg, bg) == color
}

/// The mark belongs on row `y` of such a line, and shows what is there: a text has
/// over each of its columns the character and the colour of the cell there.
pub open spec fn belongs(m: Drawn, line: Seq<Cell>, cols: int, y: int, fg: Rgb, bg: Rgb) -> bool {
    match m {
        Drawn::Text { x, y: row, text, color } => {
            &&& row == y
            &&& 0 <= x
            &&& 0 < text.len()
            &&& x + text.len() <= line.len()
            &&& x + text.len() <= cols
            &&& forall|k: int| 0 <= k < text.len() ==> narrow_at(line[x + k], #[trigger] text[k], color, fg, bg)
        },
        Drawn::Wide { x, y: row, c, color } => {
            &&& row == y
            &&& 0 <= x < line.len()
            &&& x < cols
            &&& line[x].c == c
            &&& visible(line[x])
            &&& line[x].wide
            &&& ink(line[x], fg, bg) == color
        },
        Drawn::Fill { x, y: row, cols: n, color } => {
            &&& row == y
            &&& 0 <= x < line.len()
            &&& x < cols
            &&& !line[x].wide_cont
            &&& backdrop(line[x], fg) == Some(color)
            &&& n == (if line[x].wide {
                2int
            } else {
                1
            })
        },
        _ => false,
    }
}

/// The mark shows a character over column `x` of row `y`.
pub open spec fn writes_at(m: Drawn, x: int, y: int) -> bool {
    match m {
        Drawn::Text { x: from, y: row, text, .. } => row == y && from <= x < from + text.len(),
        Drawn::Wide { x: from, y: row, .. } => row == y && from == x,
        _ => false,
    }
}

/// The mark fills the cell at column `x` of row `y`.
pub open spec fn fills_at(m: Drawn, x: int, y: int) -> bool {
    match m {
        Drawn::Fill { x: from, y: row, .. } => row == y && from == x,
        _ => false,
    }
}

pub open spec fn some_writes(marks: Seq<Drawn>, x: int, y: int) -> bool {
    exists|i: int| 0 <= i < marks.len() && writes_at(#[trigger] marks[i], x, y)
}

pub open spec fn some_fills(marks: Seq<Drawn>, x: int, y: int) -> bool {
    exists|i: int| 0 <= i < marks.len() && fills_at(#[trigger] marks[i], x, y)
}

/// What is gathered ends right before column `x`, and is what stands there.
spec fn run_fits(run: Run, line: Seq<Cell>, cols: int, x: int, fg: Rgb, bg: Rgb) -> bool {
    run.text.len() > 0 ==> {
        &&& 0 <= run.x
        &&& run.x + run.text.len() == x
        &&& x <= line.len()
        &&& x <= cols
        &&& forall|k: int|
            0 <= k < run.text.len() ==> narrow_at(line[run.x + k], #[trigger] run.text[k], run.color, fg, bg)
    }
}

/// The first column that is not out yet.
spec fn open_from(run: Run, x: int) -> int {
    x - run.text.len()
}

proof fn lemma_some_later(a: Seq<Drawn>, b: Seq<Drawn>, x: int, y: int)
    ensures
        some_writes(a, x, y) || some_writes(b, x, y) ==> some_writes(a + b, x, y),
        some_fills(a, x, y) || some_fills(b, x, y) ==> some_fills(a + b, x, y),
{
    let s = a + b;
    if some_writes(a, x, y) {
        let i = choose|i: int| 0 <= i < a.len() && writes_at(#[trigger] a[i], x, y);
        assert(s[i] == a[i]);
    } else if some_writes(b, x, y) {
        let i = choose|i: int| 0 <= i < b.len() && writes_at(#[trigger] b[i], x, y);
        assert(s[a.len() + i] == b[i]);
    }
    if some_fills(a, x, y) {
        let i = choose|i: int| 0 <= i < a.len() && fills_at(#[trigger] a[i], x, y);
        assert(s[i] == a[i]);
    } else if some_fills(b, x, y) {
        let i = choose|i: int| 0 <= i < b.len() && fills_at(#[trigger] b[i], x, y);
        assert(s[a.len() + i] == b[i]);
    }
}

spec fn all_belong(marks: Seq<Drawn>, line: Seq<Cell>, cols: int, y: int, fg: Rgb, bg: Rgb) -> bool {
    forall|i: int| 0 <= i < marks.len() ==> belongs(#[trigger] marks[i], line, cols, y, fg, bg)
}

proof fn lemma_all_belong(a: Seq<Drawn>, b: Seq<Drawn>, line: Seq<Cell>, cols: int, y: int, fg: Rgb, bg: Rgb)
    requires
        all_belong(a, line, cols, y, fg, bg),
        all_belong(b, line, cols, y, fg, bg),
    ensures
        all_belong(a + b, line, cols, y, fg, bg),
{
    let s = a + b;
    assert forall|i: int| 0 <= i < s.len() implies belongs(#[trigger] s[i], line, cols, y, fg, bg) by {
        if i < a.len() {
            assert(s[i] == a[i]);
        } else {
            assert(s[i] == b[i - a.len()]);
        }
    }
}

/// What goes out belongs on the row.
proof fn lemma_flushed(run: Run, line: Seq<Cell>, cols: int, x: int, y: int, fg: Rgb, bg: Rgb)
    requires
        run_fits(run, line, cols, x, fg, bg),
    ensures
        all_belong(paint::flushed(run, y), line, cols, y, fg, bg),
{
    let marks = paint::flushed(run, y);
    if run.text.len() > 0 {
        assert(belongs(marks[0], line, cols, y, fg, bg));
    }
}

/// The marks show every character from column `from` up to `to`, as far as `x`.
spec fn closed_by(marks: Seq<Drawn>, line: Seq<Cell>, y: int, x: int, from: int, to: int) -> bool {
    &&& from <= to
    &&& forall|c: int| from <= c < to && c <= x && visible(line[c]) ==> #[trigger] some_writes(marks, c, y)
}

/// The marks show every character from column `from` on.
spec fn written_from(marks: Seq<Drawn>, line: Seq<Cell>, cols: int, y: int, from: int) -> bool {
    forall|c: int|
        from <= c < line.len() && c < cols && visible(line[c]) ==> #[trigger] some_writes(marks, c, y)
}

spec fn filled_from(marks: Seq<Drawn>, line: Seq<Cell>, cols: int, y: int, from: int, fg: Rgb) -> bool {
    forall|c: int|
        from <= c < line.len() && c < cols && !line[c].wide_cont && backdrop(line[c], fg)
            is Some ==> #[trigger] some_fills(marks, c, y)
}

/// What one cell adds: marks that belong on the row, the columns up to it that are
/// no longer open, and what is gathered now.
#[verifier::rlimit(40)]
proof fn lemma_cell_placed(line: Seq<Cell>, cols: int, x: int, y: int, run: Run, fg: Rgb, bg: Rgb)
    requires
        well_paired(line),
        0 <= x < line.len(),
        x < cols,
        !line[x].wide_cont,
        run_fits(run, line, cols, x, fg, bg),
    ensures
        paint::advance(line[x]) == (if line[x].wide {
            2int
        } else {
            1
        }),
        all_belong(paint::cell_step(line[x], x, y, run, fg, bg).0, line, cols, y, fg, bg),
        run_fits(
            paint::cell_step(line[x], x, y, run, fg, bg).1,
            line,
            cols,
            x + paint::advance(line[x]),
            fg,
            bg,
        ),
        closed_by(
            paint::cell_step(line[x], x, y, run, fg, bg).0,
            line,
            y,
            x,
            open_from(run, x),
            open_from(paint::cell_step(line[x], x, y, run, fg, bg).1, x + paint::advance(line[x])),
        ),
        backdrop(line[x], fg) is Some ==> some_fills(paint::cell_step(line[x], x, y, run, fg, bg).0, x, y),
{
    let cell = line[x];
    let (marks, next) = paint::cell_step(cell, x, y, run, fg, bg);
    let (back, color) = paint::painted(cell.style, fg, bg);
    let fill = paint::background(back, x, y, paint::width(cell));
    let out = paint::flushed(run, y);
    assert(color == ink(cell, fg, bg));
    assert(back == backdrop(cell, fg));
    assert(all_belong(fill, line, cols, y, fg, bg));
    lemma_flushed(run, line, cols, x, y, fg, bg);
    if back is Some {
        assert(fills_at(fill[0], x, y));
        assert(some_fills(fill, x, y));
    }
    let wide = seq![Drawn::Wide { x, y, c: cell.c, color }];
    lemma_all_belong(fill, out, line, cols, y, fg, bg);
    if cell.wide && visible(cell) {
        assert(all_belong(wide, line, cols, y, fg, bg));
        lemma_all_belong(fill + out, wide, line, cols, y, fg, bg);
        assert(writes_at(wide[0], x, y));
        assert(some_writes(wide, x, y));
    }
    lemma_some_later(fill, out, x, y);
    lemma_some_later(fill + out, wide, x, y);
    assert forall|c: int| open_from(run, x) <= c < x implies #[trigger] some_writes(out, c, y) by {
        assert(writes_at(out[0], c, y));
    }
    let at = x + paint::advance(cell);
    if visible(cell) && !cell.wide {
        assert(narrow_at(cell, cell.c, color, fg, bg));
        assert(next.x + next.text.len() == at);
        assert forall|k: int| 0 <= k < next.text.len() implies narrow_at(
            line[next.x + k],
            #[trigger] next.text[k],
            next.color,
            fg,
            bg,
        ) by {
            if next.x + k < x {
                assert(next.text[k] == run.text[k]);
            }
        }
    }
    assert(run_fits(next, line, cols, at, fg, bg));
    assert forall|c: int|
        open_from(run, x) <= c < open_from(next, at) && c <= x && visible(line[c]) implies #[trigger] some_writes(
        marks,
        c,
        y,
    ) by {
        lemma_some_later(fill, out, c, y);
        lemma_some_later(fill + out, wide, c, y);
        if c < x {
            assert(some_writes(out, c, y));
        }
    }
}

#[verifier::rlimit(40)]
proof fn lemma_row_placed(line: Seq<Cell>, cols: int, y: int, x: int, run: Run, fg: Rgb, bg: Rgb)
    requires
        well_paired(line),
        0 <= x,
        x < line.len() ==> !line[x].wide_cont,
        run_fits(run, line, cols, x, fg, bg),
    ensures
        all_belong(paint::row_marks(line, cols, y, x, run, fg, bg), line, cols, y, fg, bg),
        written_from(paint::row_marks(line, cols, y, x, run, fg, bg), line, cols, y, open_from(run, x)),
        filled_from(paint::row_marks(line, cols, y, x, run, fg, bg), line, cols, y, x, fg),
    decreases cols + 1 - x,
{
    let marks = paint::row_marks(line, cols, y, x, run, fg, bg);
    if x >= cols || x >= line.len() {
        assert(marks == paint::flushed(run, y));
        lemma_flushed(run, line, cols, x, y, fg, bg);
        assert forall|c: int|
            open_from(run, x) <= c < line.len() && c < cols && visible(line[c]) implies #[trigger] some_writes(
            marks,
            c,
            y,
        ) by {
            assert(writes_at(marks[0], c, y));
        }
    } else {
        let (first, next) = paint::cell_step(line[x], x, y, run, fg, bg);
        let at = x + paint::advance(line[x]);
        lemma_cell_placed(line, cols, x, y, run, fg, bg);
        assert(paired_at(line, x));
        if x + 1 < line.len() {
            assert(paired_at(line, x + 1));
        }
        if at < line.len() {
            assert(paired_at(line, at));
        }
        lemma_row_placed(line, cols, y, at, next, fg, bg);
        let rest = paint::row_marks(line, cols, y, at, next, fg, bg);
        assert(marks == first + rest);
        lemma_all_belong(first, rest, line, cols, y, fg, bg);
        assert forall|c: int|
            open_from(run, x) <= c < line.len() && c < cols && visible(line[c]) implies #[trigger] some_writes(
            marks,
            c,
            y,
        ) by {
            lemma_some_later(first, rest, c, y);
            if c >= open_from(next, at) {
                assert(some_writes(rest, c, y));
            } else if c <= x {
                assert(some_writes(first, c, y));
            } else {
                assert(c == x + 1 && line[x].wide);
                assert(line[x + 1].wide_cont);
            }
        }
        assert forall|c: int|
            x <= c < line.len() && c < cols && !line[c].wide_cont && backdrop(line[c], fg)
                is Some implies #[trigger] some_fills(marks, c, y) by {
            lemma_some_later(first, rest, c, y);
            if c == x {
                assert(some_fills(first, c, y));
            } else if c >= at {
                assert(some_fills(rest, c, y));
            } else {
                assert(line[x + 1].wide_cont);
            }
        }
    }
}

/// Every character of a row is painted over its own column, in its own colour: each
/// mark of the row shows what the cells under it hold, each character to be seen
/// is shown, and each cell with a colour behind it is filled with that colour, over
/// two columns where it is wide.
pub proof fn law_characters_stand_at_their_columns(line: Seq<Cell>, cols: int, y: int, fg: Rgb, bg: Rgb)
    requires
        well_paired(line),
    ensures
        forall|i: int|
            0 <= i < paint::row_drawn(line, cols, y, fg, bg).len() ==> belongs(
                #[trigger] paint::row_drawn(line, cols, y, fg, bg)[i],
                line,
                cols,
                y,
                fg,
                bg,
            ),
        forall|x: int|
            0 <= x < line.len() && x < cols && visible(line[x]) ==> #[trigger] some_writes(
                paint::row_drawn(line, cols, y, fg, bg),
                x,
                y,
            ),
        forall|x: int|
            0 <= x < line.len() && x < cols && !line[x].wide_cont && backdrop(line[x], fg)
                is Some ==> #[trigger] some_fills(paint::row_drawn(line, cols, y, fg, bg), x, y),
{
    if line.len() > 0 {
        assert(paired_at(line, 0));
    }
    lemma_row_placed(line, cols, y, 0, paint::no_run(fg), fg, bg);
}

// ---- the whole canvas -------------------------------------------------------------------------

/// Line `n` of all there is, the scrollback above the screen.
pub open spec fn line_of(g: TerminalGrid, n: int) -> Seq<Cell> {
    if n < g.scrollback@.len() {
        g.scrollback@[n]@
    } else {
        g.cells@[n - g.scrollback@.len()]@
    }
}

/// What is on screen is one window over the scrollback and the screen under it, as far
/// up as the view is scrolled back.
pub proof fn law_the_view_is_a_window(g: TerminalGrid, y: int)
    requires
        0 <= y,
    ensures
        g.shown(y) == line_of(g, g.scrollback@.len() - g.scroll_offset + y),
{
}

/// What is painted first lies under what is painted later.
pub open spec fn layer(m: Drawn) -> int {
    match m {
        Drawn::Fill { .. } => 0,
        Drawn::Text { .. } => 0,
        Drawn::Wide { .. } => 0,
        Drawn::Selected { .. } => 1,
        Drawn::Found { .. } => 2,
        Drawn::Cursor { .. } => 3,
        Drawn::Scrolled { .. } => 4,
    }
}

spec fn all_on(marks: Seq<Drawn>, n: int) -> bool {
    forall|i: int| 0 <= i < marks.len() ==> layer(#[trigger] marks[i]) == n
}

spec fn row_belongs(m: Drawn, g: TerminalGrid, n: int, fg: Rgb, bg: Rgb) -> bool {
    exists|y: int| 0 <= y < n && #[trigger] belongs(m, g.shown(y), g.cols as int, y, fg, bg)
}

spec fn all_paired(g: TerminalGrid, n: int) -> bool {
    forall|y: int| 0 <= y < n ==> well_paired(#[trigger] g.shown(y))
}

proof fn lemma_rows(g: TerminalGrid, n: int, fg: Rgb, bg: Rgb)
    requires
        all_paired(g, n),
    ensures
        all_on(paint::rows_drawn(g, n, fg, bg), 0),
        forall|i: int|
            0 <= i < paint::rows_drawn(g, n, fg, bg).len() ==> row_belongs(
                #[trigger] paint::rows_drawn(g, n, fg, bg)[i],
                g,
                n,
                fg,
                bg,
            ),
        forall|x: int, y: int|
            0 <= y < n && 0 <= x < g.shown(y).len() && x < g.cols && visible(g.shown(y)[x]) ==> #[trigger] some_writes(
                paint::rows_drawn(g, n, fg, bg),
                x,
                y,
            ),
        forall|x: int, y: int|
            0 <= y < n && 0 <= x < g.shown(y).len() && x < g.cols && !g.shown(y)[x].wide_cont && backdrop(
                g.shown(y)[x],
                fg,
            ) is Some ==> #[trigger] some_fills(paint::rows_drawn(g, n, fg, bg), x, y),
    decreases n,
{
    if n > 0 {
        lemma_rows(g, n - 1, fg, bg);
        let above = paint::rows_drawn(g, n - 1, fg, bg);
        let line = g.shown(n - 1);
        let row = paint::row_drawn(line, g.cols as int, n - 1, fg, bg);
        let all = paint::rows_drawn(g, n, fg, bg);
        assert(all == above + row);
        law_characters_stand_at_their_columns(line, g.cols as int, n - 1, fg, bg);
        assert forall|i: int| 0 <= i < all.len() implies layer(#[trigger] all[i]) == 0 && row_belongs(
            all[i],
            g,
            n,
            fg,
            bg,
        ) by {
            if i < above.len() {
                assert(all[i] == above[i]);
                let y = choose|y: int|
                    0 <= y < n - 1 && #[trigger] belongs(above[i], g.shown(y), g.cols as int, y, fg, bg);
                assert(belongs(all[i], g.shown(y), g.cols as int, y, fg, bg));
            } else {
                assert(all[i] == row[i - above.len()]);
                assert(belongs(all[i], g.shown(n - 1), g.cols as int, n - 1, fg, bg));
            }
        }
        assert forall|x: int, y: int|
            0 <= y < n && 0 <= x < g.shown(y).len() && x < g.cols && visible(g.shown(y)[x]) implies #[trigger] some_writes(
            all,
            x,
            y,
        ) by {
            lemma_some_later(above, row, x, y);
            if y < n - 1 {
                assert(some_writes(above, x, y));
            } else {
                assert(some_writes(row, x, y));
            }
        }
        assert forall|x: int, y: int|
            0 <= y < n && 0 <= x < g.shown(y).len() && x < g.cols && !g.shown(y)[x].wide_cont && backdrop(
                g.shown(y)[x],
                fg,
            ) is Some implies #[trigger] some_fills(all, x, y) by {
            lemma_some_later(above, row, x, y);
            if y < n - 1 {
                assert(some_fills(above, x, y));
            } else {
                assert(some_fills(row, x, y));
            }
        }
    }
}

/// The highlight of the selection lies over column `x` of row `y`.
pub open spec fn lights(m: Drawn, x: int, y: int) -> bool {
    match m {
        Drawn::Selected { x: from, y: row, cols } => row == y && from <= x < from + cols,
        _ => false,
    }
}

pub open spec fn some_lights(marks: Seq<Drawn>, x: int, y: int) -> bool {
    exists|i: int| 0 <= i < marks.len() && lights(#[trigger] marks[i], x, y)
}

/// The place is no later than the other one, as text is read.
pub open spec fn reads_up_to(a: (int, int), b: (int, int)) -> bool {
    a.1 < b.1 || (a.1 == b.1 && a.0 <= b.0)
}

pub open spec fn place_of(p: (usize, usize)) -> (int, int) {
    (p.0 as int, p.1 as int)
}

proof fn lemma_rows_selected(a: (usize, usize), b: (usize, usize), cols: int, end: int)
    requires
        end <= b.1 + 1,
        reads_up_to(place_of(a), place_of(b)),
    ensures
        all_on(paint::rows_selected(a, b, cols, end), 1),
        forall|x: int, y: int|
            0 <= x < cols && y < end ==> (#[trigger] some_lights(paint::rows_selected(a, b, cols, end), x, y)
                <==> reads_up_to(place_of(a), (x, y)) && reads_up_to((x, y), place_of(b))),
        forall|x: int, y: int| y >= end ==> !(#[trigger] some_lights(paint::rows_selected(a, b, cols, end), x, y)),
    decreases end - a.1,
{
    let all = paint::rows_selected(a, b, cols, end);
    if end > a.1 {
        lemma_rows_selected(a, b, cols, end - 1);
        let above = paint::rows_selected(a, b, cols, end - 1);
        let row = paint::row_selected(a, b, cols, end - 1);
        assert(all == above + row);
        assert forall|i: int| 0 <= i < all.len() implies layer(#[trigger] all[i]) == 1 by {
            if i < above.len() {
                assert(all[i] == above[i]);
            } else {
                assert(all[i] == row[i - above.len()]);
            }
        }
        assert forall|x: int, y: int| #[trigger]
            some_lights(all, x, y) == (some_lights(above, x, y) || some_lights(row, x, y)) by {
            if some_lights(all, x, y) {
                let i = choose|i: int| 0 <= i < all.len() && lights(#[trigger] all[i], x, y);
                if i < above.len() {
                    assert(lights(above[i], x, y));
                } else {
                    assert(lights(row[i - above.len()], x, y));
                }
            }
            if some_lights(above, x, y) {
                let i = choose|i: int| 0 <= i < above.len() && lights(#[trigger] above[i], x, y);
                assert(lights(all[i], x, y));
            }
            if some_lights(row, x, y) {
                let i = choose|i: int| 0 <= i < row.len() && lights(#[trigger] row[i], x, y);
                assert(lights(all[above.len() + i], x, y));
            }
        }
        assert forall|x: int, y: int| 0 <= x < cols implies (#[trigger] some_lights(row, x, y) <==> y == end - 1
            && reads_up_to(place_of(a), (x, y)) && reads_up_to((x, y), place_of(b))) by {
            if row.len() > 0 {
                assert(lights(row[0], x, y) ==> some_lights(row, x, y));
            }
        }
        assert forall|x: int, y: int| y != end - 1 implies !(#[trigger] some_lights(row, x, y)) by {}
        assert forall|x: int, y: int| 0 <= x < cols && y < end implies (#[trigger] some_lights(all, x, y)
            <==> reads_up_to(place_of(a), (x, y)) && reads_up_to((x, y), place_of(b))) by {
            assert(some_lights(all, x, y) == (some_lights(above, x, y) || some_lights(row, x, y)));
            assert(some_lights(row, x, y) || !some_lights(row, x, y));
        }
        assert forall|x: int, y: int| y >= end implies !(#[trigger] some_lights(all, x, y)) by {
            assert(some_lights(all, x, y) == (some_lights(above, x, y) || some_lights(row, x, y)));
            assert(!some_lights(above, x, y));
            assert(!some_lights(row, x, y));
        }
    }
}

proof fn lemma_selection(view: TerminalView, cols: int, rows: int)
    requires
        cols >= 0,
        rows >= 0,
    ensures
        all_on(paint::selection_drawn(view, cols, rows), 1),
        forall|x: int, y: int|
            0 <= x < cols && 0 <= y < rows ==> (#[trigger] some_lights(paint::selection_drawn(view, cols, rows), x, y)
                <==> selected_at(view, x, y)),
{
    match (view.selection_start, view.selection_end) {
        (Some(s), Some(e)) => {
            let (a, b) = grid::ordered(s, e);
            let end = paint::selection_end_row(b.1 as int, rows);
            lemma_rows_selected(a, b, cols, end);
            let marks = paint::selection_drawn(view, cols, rows);
            assert forall|x: int, y: int| 0 <= x < cols && 0 <= y < rows implies (#[trigger] some_lights(marks, x, y)
                <==> selected_at(view, x, y)) by {
                if y >= end {
                    assert(!some_lights(marks, x, y));
                }
            }
        },
        _ => {},
    }
}

/// The selection covers the place: it lies between the two corners as text is read,
/// whichever of them comes first.
pub open spec fn selected_at(view: TerminalView, x: int, y: int) -> bool {
    match (view.selection_start, view.selection_end) {
        (Some(s), Some(e)) => {
            ||| reads_up_to(place_of(s), (x, y)) && reads_up_to((x, y), place_of(e))
            ||| reads_up_to(place_of(e), (x, y)) && reads_up_to((x, y), place_of(s))
        },
        _ => false,
    }
}

/// A hit is shown over column `x` of row `y`, as the current one or not.
pub open spec fn finds(m: Drawn, x: int, y: int, now: bool) -> bool {
    match m {
        Drawn::Found { x: from, y: row, cols, current } => row == y && from <= x < from + cols && current == now,
        _ => false,
    }
}

pub open spec fn some_finds(marks: Seq<Drawn>, x: int, y: int, now: bool) -> bool {
    exists|i: int| 0 <= i < marks.len() && finds(#[trigger] marks[i], x, y, now)
}

/// Hit `k` of the search stands over column `x` of line `line`.
pub open spec fn hit_covers(view: TerminalView, k: int, x: int, line: int) -> bool {
    let m = view.search_matches@[k];
    m.abs_line == line && m.col_start <= x < m.col_end
}

pub open spec fn is_current(view: TerminalView, k: int) -> bool {
    view.search_current matches Some(c) && c == k
}

/// One of the first `n` hits stands over column `x` of line `line`, and is the current
/// one or not.
pub open spec fn hit_at(view: TerminalView, n: int, x: int, line: int, now: bool) -> bool {
    exists|k: int| 0 <= k < n && #[trigger] hit_covers(view, k, x, line) && is_current(view, k) == now
}

proof fn lemma_hits(view: TerminalView, top: int, rows: int, n: int)
    requires
        n <= view.search_matches@.len(),
    ensures
        all_on(paint::hits_drawn(view, top, rows, n), 2),
        forall|x: int, y: int, now: bool|
            0 <= y < rows ==> (#[trigger] some_finds(paint::hits_drawn(view, top, rows, n), x, y, now) <==> hit_at(
                view,
                n,
                x,
                top + y,
                now,
            )),
    decreases n,
{
    let all = paint::hits_drawn(view, top, rows, n);
    if n > 0 {
        lemma_hits(view, top, rows, n - 1);
        let above = paint::hits_drawn(view, top, rows, n - 1);
        let cur = is_current(view, n - 1);
        let one = paint::hit_drawn(view.search_matches@[n - 1], cur, top, rows);
        assert(all == above + one);
        assert forall|i: int| 0 <= i < all.len() implies layer(#[trigger] all[i]) == 2 by {
            if i < above.len() {
                assert(all[i] == above[i]);
            } else {
                assert(all[i] == one[i - above.len()]);
            }
        }
        assert forall|x: int, y: int, now: bool| 0 <= y < rows implies (#[trigger] some_finds(all, x, y, now)
            <==> hit_at(view, n, x, top + y, now)) by {
            if some_finds(all, x, y, now) {
                let i = choose|i: int| 0 <= i < all.len() && finds(#[trigger] all[i], x, y, now);
                if i < above.len() {
                    assert(finds(above[i], x, y, now));
                    assert(some_finds(above, x, y, now));
                    let k = choose|k: int|
                        0 <= k < n - 1 && #[trigger] hit_covers(view, k, x, top + y) && is_current(view, k) == now;
                    assert(hit_covers(view, k, x, top + y));
                } else {
                    assert(finds(one[i - above.len()], x, y, now));
                    assert(hit_covers(view, n - 1, x, top + y));
                }
            }
            if hit_at(view, n, x, top + y, now) {
                let k = choose|k: int|
                    0 <= k < n && #[trigger] hit_covers(view, k, x, top + y) && is_current(view, k) == now;
                if k < n - 1 {
                    assert(hit_at(view, n - 1, x, top + y, now));
                    assert(some_finds(above, x, y, now));
                    let i = choose|i: int| 0 <= i < above.len() && finds(#[trigger] above[i], x, y, now);
                    assert(finds(all[i], x, y, now));
                } else {
                    assert(finds(one[0], x, y, now));
                    assert(finds(all[above.len() as int], x, y, now));
                }
            }
        }
    }
}

/// The marks of a frame, part by part.
proof fn lemma_parts(view: TerminalView, g: TerminalGrid)
    requires
        all_paired(g, g.rows as int),
    ensures
        ({
            let f = paint::frame(view, g);
            let a = paint::rows_drawn(g, g.rows as int, view.terminal_fg, view.terminal_bg);
            let b = paint::selection_drawn(view, g.cols as int, g.rows as int);
            let c = paint::hits_drawn(
                view,
                g.scrollback@.len() - g.scroll_offset,
                g.rows as int,
                view.search_matches@.len() as int,
            );
            let d = paint::cursor_drawn(g);
            let e = paint::scrolled_drawn(g);
            &&& f == a + b + c + d + e
            &&& all_on(a, 0) && all_on(b, 1) && all_on(c, 2) && all_on(d, 3) && all_on(e, 4)
        }),
{
    lemma_rows(g, g.rows as int, view.terminal_fg, view.terminal_bg);
    lemma_selection(view, g.cols as int, g.rows as int);
    lemma_hits(
        view,
        g.scrollback@.len() - g.scroll_offset,
        g.rows as int,
        view.search_matches@.len() as int,
    );
}

/// Where a mark of five parts put together stands in them.
proof fn lemma_five(a: Seq<Drawn>, b: Seq<Drawn>, c: Seq<Drawn>, d: Seq<Drawn>, e: Seq<Drawn>, i: int)
    requires
        all_on(a, 0) && all_on(b, 1) && all_on(c, 2) && all_on(d, 3) && all_on(e, 4),
        0 <= i < (a + b + c + d + e).len(),
    ensures
        ({
            let m = (a + b + c + d + e)[i];
            &&& layer(m) == 0 ==> a.contains(m)
            &&& layer(m) == 1 ==> b.contains(m)
            &&& layer(m) == 2 ==> c.contains(m)
            &&& layer(m) == 3 ==> d.contains(m)
            &&& layer(m) == 4 ==> e.contains(m)
            &&& layer(m) == place_in(a, b, c, d, i)
        }),
{
    let m = (a + b + c + d + e)[i];
    let p = a.len();
    let q = p + b.len();
    let r = q + c.len();
    let s = r + d.len();
    if i < p {
        assert(a[i] == m);
    } else if i < q {
        assert(b[i - p] == m);
    } else if i < r {
        assert(c[i - q] == m);
    } else if i < s {
        assert(d[i - r] == m);
    } else {
        assert(e[i - s] == m);
    }
}

spec fn place_in(a: Seq<Drawn>, b: Seq<Drawn>, c: Seq<Drawn>, d: Seq<Drawn>, i: int) -> int {
    if i < a.len() {
        0
    } else if i < a.len() + b.len() {
        1
    } else if i < a.len() + b.len() + c.len() {
        2
    } else if i < a.len() + b.len() + c.len() + d.len() {
        3
    } else {
        4
    }
}

/// What stands in a part stands in the whole.
proof fn lemma_in_five(a: Seq<Drawn>, b: Seq<Drawn>, c: Seq<Drawn>, d: Seq<Drawn>, e: Seq<Drawn>, m: Drawn)
    ensures
        a.contains(m) || b.contains(m) || c.contains(m) || d.contains(m) || e.contains(m) ==> (a + b + c + d
            + e).contains(m),
{
    let f = a + b + c + d + e;
    let p = a.len();
    let q = p + b.len();
    let r = q + c.len();
    let s = r + d.len();
    if a.contains(m) {
        let i = choose|i: int| 0 <= i < a.len() && a[i] == m;
        assert(f[i] == m);
    } else if b.contains(m) {
        let i = choose|i: int| 0 <= i < b.len() && b[i] == m;
        assert(f[p + i] == m);
    } else if c.contains(m) {
        let i = choose|i: int| 0 <= i < c.len() && c[i] == m;
        assert(f[q + i] == m);
    } else if d.contains(m) {
        let i = choose|i: int| 0 <= i < d.len() && d[i] == m;
        assert(f[r + i] == m);
    } else if e.contains(m) {
        let i = choose|i: int| 0 <= i < e.len() && e[i] == m;
        assert(f[s + i] == m);
    }
}

/// Over the whole canvas, what is painted of the cells belongs to the line that is shown
/// in its row, and every character and every colour of the lines shown is painted.
pub proof fn law_the_canvas_shows_its_lines(view: TerminalView, g: TerminalGrid)
    requires
        forall|y: int| 0 <= y < g.rows ==> well_paired(#[trigger] g.shown(y)),
    ensures
        forall|i: int|
            0 <= i < paint::frame(view, g).len() && layer(#[trigger] paint::frame(view, g)[i]) == 0 ==> exists|y: int|
                0 <= y < g.rows && #[trigger] belongs(
                    paint::frame(view, g)[i],
                    g.shown(y),
                    g.cols as int,
                    y,
                    view.terminal_fg,
                    view.terminal_bg,
                ),
        forall|x: int, y: int|
            0 <= y < g.rows && 0 <= x < g.shown(y).len() && x < g.cols && visible(g.shown(y)[x]) ==> #[trigger] some_writes(
                paint::frame(view, g),
                x,
                y,
            ),
        forall|x: int, y: int|
            0 <= y < g.rows && 0 <= x < g.shown(y).len() && x < g.cols && !g.shown(y)[x].wide_cont && backdrop(
                g.shown(y)[x],
                view.terminal_fg,
            ) is Some ==> #[trigger] some_fills(paint::frame(view, g), x, y),
{
    lemma_parts(view, g);
    lemma_rows(g, g.rows as int, view.terminal_fg, view.terminal_bg);
    let f = paint::frame(view, g);
    let a = paint::rows_drawn(g, g.rows as int, view.terminal_fg, view.terminal_bg);
    let b = paint::selection_drawn(view, g.cols as int, g.rows as int);
    let c = paint::hits_drawn(
        view,
        g.scrollback@.len() - g.scroll_offset,
        g.rows as int,
        view.search_matches@.len() as int,
    );
    let d = paint::cursor_drawn(g);
    let e = paint::scrolled_drawn(g);
    assert forall|i: int| 0 <= i < f.len() && layer(#[trigger] f[i]) == 0 implies exists|y: int|
        0 <= y < g.rows && #[trigger] belongs(f[i], g.shown(y), g.cols as int, y, view.terminal_fg, view.terminal_bg) by {
        lemma_five(a, b, c, d, e, i);
        let k = choose|k: int| 0 <= k < a.len() && a[k] == f[i];
        assert(row_belongs(a[k], g, g.rows as int, view.terminal_fg, view.terminal_bg));
    }
    assert forall|x: int, y: int|
        0 <= y < g.rows && 0 <= x < g.shown(y).len() && x < g.cols && visible(g.shown(y)[x]) implies #[trigger] some_writes(
        f,
        x,
        y,
    ) by {
        assert(some_writes(a, x, y));
        lemma_some_later(a, b, x, y);
        lemma_some_later(a + b, c, x, y);
        lemma_some_later(a + b + c, d, x, y);
        lemma_some_later(a + b + c + d, e, x, y);
    }
    assert forall|x: int, y: int|
        0 <= y < g.rows && 0 <= x < g.shown(y).len() && x < g.cols && !g.shown(y)[x].wide_cont && backdrop(
            g.shown(y)[x],
            view.terminal_fg,
        ) is Some implies #[trigger] some_fills(f, x, y) by {
        assert(some_fills(a, x, y));
        lemma_some_later(a, b, x, y);
        lemma_some_later(a + b, c, x, y);
        lemma_some_later(a + b + c, d, x, y);
        lemma_some_later(a + b + c + d, e, x, y);
    }
}

/// A place on the canvas is highlighted exactly where it lies between the corners of
/// the selection, as text is read.
pub proof fn law_the_selection_is_what_lies_between(view: TerminalView, g: TerminalGrid, x: int, y: int)
    requires
        forall|y: int| 0 <= y < g.rows ==> well_paired(#[trigger] g.shown(y)),
        0 <= x < g.cols,
        0 <= y < g.rows,
    ensures
        some_lights(paint::frame(view, g), x, y) <==> selected_at(view, x, y),
{
    lemma_parts(view, g);
    lemma_selection(view, g.cols as int, g.rows as int);
    let f = paint::frame(view, g);
    let a = paint::rows_drawn(g, g.rows as int, view.terminal_fg, view.terminal_bg);
    let b = paint::selection_drawn(view, g.cols as int, g.rows as int);
    let c = paint::hits_drawn(
        view,
        g.scrollback@.len() - g.scroll_offset,
        g.rows as int,
        view.search_matches@.len() as int,
    );
    let d = paint::cursor_drawn(g);
    let e = paint::scrolled_drawn(g);
    assert(some_lights(b, x, y) <==> selected_at(view, x, y));
    if some_lights(f, x, y) {
        let i = choose|i: int| 0 <= i < f.len() && lights(#[trigger] f[i], x, y);
        lemma_five(a, b, c, d, e, i);
        let k = choose|k: int| 0 <= k < b.len() && b[k] == f[i];
        assert(lights(b[k], x, y));
    }
    if some_lights(b, x, y) {
        let k = choose|k: int| 0 <= k < b.len() && lights(#[trigger] b[k], x, y);
        lemma_in_five(a, b, c, d, e, b[k]);
        let i = choose|i: int| 0 <= i < f.len() && f[i] == b[k];
        assert(lights(f[i], x, y));
    }
}

/// A hit is highlighted exactly over its own columns of its own line, where that line is
/// on screen; the one that the search stands on is told from the rest.
pub proof fn law_hits_are_highlighted_in_place(view: TerminalView, g: TerminalGrid, x: int, y: int, now: bool)
    requires
        forall|y: int| 0 <= y < g.rows ==> well_paired(#[trigger] g.shown(y)),
        0 <= y < g.rows,
    ensures
        some_finds(paint::frame(view, g), x, y, now) <==> hit_at(
            view,
            view.search_matches@.len() as int,
            x,
            g.scrollback@.len() - g.scroll_offset + y,
            now,
        ),
{
    lemma_parts(view, g);
    let top = g.scrollback@.len() - g.scroll_offset;
    let n = view.search_matches@.len() as int;
    lemma_hits(view, top, g.rows as int, n);
    let f = paint::frame(view, g);
    let a = paint::rows_drawn(g, g.rows as int, view.terminal_fg, view.terminal_bg);
    let b = paint::selection_drawn(view, g.cols as int, g.rows as int);
    let c = paint::hits_drawn(view, top, g.rows as int, n);
    let d = paint::cursor_drawn(g);
    let e = paint::scrolled_drawn(g);
    assert(some_finds(c, x, y, now) <==> hit_at(view, n, x, top + y, now));
    if some_finds(f, x, y, now) {
        let i = choose|i: int| 0 <= i < f.len() && finds(#[trigger] f[i], x, y, now);
        lemma_five(a, b, c, d, e, i);
        let k = choose|k: int| 0 <= k < c.len() && c[k] == f[i];
        assert(finds(c[k], x, y, now));
    }
    if some_finds(c, x, y, now) {
        let k = choose|k: int| 0 <= k < c.len() && finds(#[trigger] c[k], x, y, now);
        lemma_in_five(a, b, c, d, e, c[k]);
        let i = choose|i: int| 0 <= i < f.len() && f[i] == c[k];
        assert(finds(f[i], x, y, now));
    }
}

/// The cursor is painted where it stands, and only while it is visible, inside the grid
/// and not scrolled away; how far back the view is scrolled is said exactly while it is.
pub proof fn law_the_cursor_shows_unless_scrolled(view: TerminalView, g: TerminalGrid, x: int, y: int)
    requires
        forall|y: int| 0 <= y < g.rows ==> well_paired(#[trigger] g.shown(y)),
    ensures
        paint::frame(view, g).contains(Drawn::Cursor { x, y }) <==> g.scroll_offset == 0 && g.cursor_visible && x
            == g.cursor_x < g.cols && y == g.cursor_y < g.rows,
        g.scroll_offset > 0 <==> exists|i: int|
            0 <= i < paint::frame(view, g).len() && (#[trigger] paint::frame(view, g)[i]) is Scrolled,
        forall|i: int|
            0 <= i < paint::frame(view, g).len() ==> (#[trigger] paint::frame(view, g)[i] matches Drawn::Scrolled {
                label,
                ..
            } ==> label == seq!['\u{2191}', ' '] + number::decimal(g.scroll_offset as nat) + seq![
                ' ',
                'l',
                'i',
                'n',
                'e',
                's',
            ]),
{
    lemma_parts(view, g);
    let f = paint::frame(view, g);
    let a = paint::rows_drawn(g, g.rows as int, view.terminal_fg, view.terminal_bg);
    let b = paint::selection_drawn(view, g.cols as int, g.rows as int);
    let c = paint::hits_drawn(
        view,
        g.scrollback@.len() - g.scroll_offset,
        g.rows as int,
        view.search_matches@.len() as int,
    );
    let d = paint::cursor_drawn(g);
    let e = paint::scrolled_drawn(g);
    let m = Drawn::Cursor { x, y };
    if f.contains(m) {
        let i = choose|i: int| 0 <= i < f.len() && f[i] == m;
        lemma_five(a, b, c, d, e, i);
    }
    if g.scroll_offset == 0 && g.cursor_visible && x == g.cursor_x < g.cols && y == g.cursor_y < g.rows {
        assert(d[0] == m);
        lemma_in_five(a, b, c, d, e, m);
    }
    if g.scroll_offset > 0 {
        assert(e.contains(e[0]));
        lemma_in_five(a, b, c, d, e, e[0]);
        let i = choose|i: int| 0 <= i < f.len() && f[i] == e[0];
        assert(f[i] is Scrolled);
    }
    reveal_strlit(" lines");
    assert(" lines"@ =~= seq![' ', 'l', 'i', 'n', 'e', 's']);
    assert forall|i: int| 0 <= i < f.len() && (#[trigger] f[i]) is Scrolled implies e.contains(f[i]) by {
        lemma_five(a, b, c, d, e, i);
    }
}

/// The cells lie under the selection, that under the hits, those under the cursor, and
/// the note how far back the view is over all of them.
pub proof fn law_the_layers_lie_in_order(view: TerminalView, g: TerminalGrid, i: int, j: int)
    requires
        forall|y: int| 0 <= y < g.rows ==> well_paired(#[trigger] g.shown(y)),
        0 <= i < j < paint::frame(view, g).len(),
    ensures
        layer(paint::frame(view, g)[i]) <= layer(paint::frame(view, g)[j]),
{
    lemma_parts(view, g);
    let a = paint::rows_drawn(g, g.rows as int, view.terminal_fg, view.terminal_bg);
    let b = paint::selection_drawn(view, g.cols as int, g.rows as int);
    let c = paint::hits_drawn(
        view,
        g.scrollback@.len() - g.scroll_offset,
        g.rows as int,
        view.search_matches@.len() as int,
    );
    let d = paint::cursor_drawn(g);
    let e = paint::scrolled_drawn(g);
    lemma_five(a, b, c, d, e, i);
    lemma_five(a, b, c, d, e, j);
}

} // verus!
