//! The terminal's cells: what stands on a line, what a selection holds.

use vstd::prelude::*;
use vstd::slice::slice_subrange;

use crate::lettercase;
use crate::text;

verus! {

#[derive(Debug, Clone, Copy, PartialEq, Eq, Structural)]
pub struct Rgb {
    pub r: u8,
    pub g: u8,
    pub b: u8,
}

/// How a cell is drawn. A colour that is not set is the theme's.
#[derive(Debug, Clone, Copy, PartialEq, Eq, Structural)]
pub struct CellStyle {
    pub fg: Option<Rgb>,
    pub bg: Option<Rgb>,
    pub inverse: bool,
}

#[derive(Debug, Clone, Copy, PartialEq, Eq, Structural)]
pub struct Cell {
    pub c: char,
    pub style: CellStyle,
    /// The character takes two columns.
    pub wide: bool,
    /// The right half of a wide character.
    pub wide_cont: bool,
}

/// Which mouse events the application asked for.
#[derive(Debug, Clone, Copy, PartialEq, Eq, Structural)]
pub enum MouseMode {
    Off,
    Clicks,
    Drag,
    Motion,
}

#[derive(Debug)]
pub struct TerminalGrid {
    pub cols: usize,
    pub rows: usize,
    pub cells: Vec<Vec<Cell>>,
    /// Lines that scrolled off the top, oldest first.
    pub scrollback: Vec<Vec<Cell>>,
    /// How many lines the view is scrolled back.
    pub scroll_offset: usize,
    pub cursor_x: usize,
    pub cursor_y: usize,
    pub cursor_visible: bool,
    pub mouse_mode: MouseMode,
    pub bracketed_paste: bool,
    /// Counts changes; a canvas that painted an older one is stale.
    pub generation: u64,
}

/// A cell that nothing was written to.
pub open spec fn empty_cell() -> Cell {
    Cell {
        c: ' ',
        style: CellStyle { fg: None, bg: None, inverse: false },
        wide: false,
        wide_cont: false,
    }
}

impl TerminalGrid {
    /// There is a line for every row, and the view is scrolled no further
    /// back than there is anything.
    pub open spec fn wf(&self) -> bool {
        &&& self.cells@.len() == self.rows
        &&& self.scroll_offset <= self.scrollback@.len()
        &&& self.scrollback@.len() + self.rows <= usize::MAX
    }

    /// A grid of that size with nothing on it yet.
    pub open spec fn is_blank(&self, cols: usize, rows: usize) -> bool {
        &&& self.cols == cols
        &&& self.rows == rows
        &&& self.cells@.len() == rows
        &&& forall|y: int|
            0 <= y < rows ==> (#[trigger] self.cells@[y])@ == Seq::new(cols as nat, |x: int| empty_cell())
        &&& self.scrollback@.len() == 0
        &&& self.scroll_offset == 0
        &&& self.cursor_x == 0
        &&& self.cursor_y == 0
        &&& self.cursor_visible
        &&& self.mouse_mode == MouseMode::Off
        &&& !self.bracketed_paste
        &&& self.generation == 0
    }

    /// A grid of that size with nothing on it yet.
    pub fn blank(cols: usize, rows: usize) -> (g: TerminalGrid)
        ensures
            g.is_blank(cols, rows),
            g.wf(),
    {
        let mut cells: Vec<Vec<Cell>> = Vec::new();
        let mut y: usize = 0;
        while y < rows
            invariant
                y <= rows,
                cells@.len() == y,
                forall|k: int|
                    0 <= k < y ==> (#[trigger] cells@[k])@ == Seq::new(cols as nat, |x: int| empty_cell()),
            decreases rows - y,
        {
            let mut line: Vec<Cell> = Vec::new();
            let mut x: usize = 0;
            while x < cols
                invariant
                    x <= cols,
                    line@ =~= Seq::new(x as nat, |x: int| empty_cell()),
                decreases cols - x,
            {
                line.push(Cell {
                    c: ' ',
                    style: CellStyle { fg: None, bg: None, inverse: false },
                    wide: false,
                    wide_cont: false,
                });
                x += 1;
            }
            cells.push(line);
            y += 1;
        }
        TerminalGrid {
            cols,
            rows,
            cells,
            scrollback: Vec::new(),
            scroll_offset: 0,
            cursor_x: 0,
            cursor_y: 0,
            cursor_visible: true,
            mouse_mode: MouseMode::Off,
            bracketed_paste: false,
            generation: 0,
        }
    }

    /// Line `y` of what is on screen.
    pub open spec fn shown(&self, y: int) -> Seq<Cell> {
        if y < self.scroll_offset {
            self.scrollback@[self.scrollback@.len() - self.scroll_offset + y]@
        } else {
            self.cells@[y - self.scroll_offset]@
        }
    }

    /// Line `y` of what is on screen: of the scrollback where the view is
    /// scrolled back that far, else of the grid.
    pub fn visible_line(&self, y: usize) -> (line: &[Cell])
        requires
            self.wf(),
            y < self.rows,
        ensures
            line@ == self.shown(y as int),
    {
        if y < self.scroll_offset {
            let first: usize = self.scrollback.len() - self.scroll_offset;
            self.scrollback[first + y].as_slice()
        } else {
            self.cells[y - self.scroll_offset].as_slice()
        }
    }

    /// The canvas has something new to paint.
    pub fn touch(&mut self)
        ensures
            *final(self) == (TerminalGrid { generation: final(self).generation, ..*old(self) }),
            final(self).generation == (if old(self).generation == u64::MAX {
                0
            } else {
                old(self).generation + 1
            }),
    {
        if self.generation == 18_446_744_073_709_551_615 {
            self.generation = 0;
        } else {
            self.generation = self.generation + 1;
        }
    }
}

// ---- the text of a line -----------------------------------------------------------------

/// The characters of a line; the right halves of wide ones hold none.
pub open spec fn line_text(line: Seq<Cell>) -> Seq<char>
    decreases line.len(),
{
    if line.len() == 0 {
        Seq::empty()
    } else if line.last().wide_cont {
        line_text(line.drop_last())
    } else {
        line_text(line.drop_last()).push(line.last().c)
    }
}

pub fn text_of_line(line: &[Cell]) -> (out: Vec<char>)
    ensures
        out@ == line_text(line@),
{
    let mut out: Vec<char> = Vec::new();
    let mut i: usize = 0;
    while i < line.len()
        invariant
            i <= line.len(),
            out@ == line_text(line@.take(i as int)),
        decreases line.len() - i,
    {
        assert(line@.take(i + 1).drop_last() =~= line@.take(i as int));
        if !line[i].wide_cont {
            out.push(line[i].c);
        }
        i += 1;
    }
    assert(line@.take(i as int) =~= line@);
    out
}

// ---- selection --------------------------------------------------------------------------

/// The two ends of a selection, `(col, row)` each, the first one first.
pub open spec fn ordered(a: (usize, usize), b: (usize, usize)) -> ((usize, usize), (usize, usize)) {
    if a.1 > b.1 || (a.1 == b.1 && a.0 > b.0) {
        (b, a)
    } else {
        (a, b)
    }
}

pub fn in_order(a: (usize, usize), b: (usize, usize)) -> (r: ((usize, usize), (usize, usize)))
    ensures
        r == ordered(a, b),
{
    if a.1 > b.1 || (a.1 == b.1 && a.0 > b.0) {
        (b, a)
    } else {
        (a, b)
    }
}

pub open spec fn at_most(n: int, max: int) -> int {
    if n < max {
        n
    } else {
        max
    }
}

/// The last column of `cols`, or the first where there is none.
pub open spec fn last_col(cols: int) -> int {
    if cols > 0 {
        cols - 1
    } else {
        0
    }
}

/// The columns of row `row` that a selection covers, in a grid of `cols`.
pub open spec fn covered(a: (usize, usize), b: (usize, usize), cols: int, row: int) -> (int, int) {
    (
        if row == a.1 {
            at_most(a.0 as int, last_col(cols))
        } else {
            0
        },
        if row == b.1 {
            at_most(b.0 as int, last_col(cols))
        } else {
            last_col(cols)
        },
    )
}

/// The text in columns `lo..=hi` of a line.
pub open spec fn span_text(line: Seq<Cell>, lo: int, hi: int) -> Seq<char> {
    let end = at_most(hi + 1, line.len() as int);
    if lo < end {
        line_text(line.subrange(lo, end))
    } else {
        Seq::empty()
    }
}

/// What row `row` adds to the text of a selection: each row but the last
/// without the blanks at its end, and a line feed.
pub open spec fn row_piece(grid: TerminalGrid, a: (usize, usize), b: (usize, usize), row: int) -> Seq<char> {
    let (lo, hi) = covered(a, b, grid.cols as int, row);
    let t = span_text(grid.shown(row), lo, hi);
    if row < b.1 {
        text::trim_end_char(t, ' ').push('\n')
    } else {
        t
    }
}

/// The rows of a selection from its first up to `end`.
pub open spec fn rows_text(grid: TerminalGrid, a: (usize, usize), b: (usize, usize), end: int) -> Seq<char>
    decreases end - a.1,
{
    if end <= a.1 {
        Seq::empty()
    } else {
        rows_text(grid, a, b, end - 1) + row_piece(grid, a, b, end - 1)
    }
}

/// The text of a selection.
pub open spec fn selected(grid: TerminalGrid, start: (usize, usize), end: (usize, usize)) -> Seq<char> {
    let (a, b) = ordered(start, end);
    text::trim_end(rows_text(grid, a, b, at_most(b.1 + 1, grid.rows as int)))
}

/// Blanks are only taken off what stands behind the last line feed.
proof fn lemma_trim_behind(acc: Seq<char>, t: Seq<char>)
    requires
        acc.len() == 0 || acc.last() == '\n',
    ensures
        text::trim_end_char(acc + t, ' ') == acc + text::trim_end_char(t, ' '),
    decreases t.len(),
{
    if t.len() == 0 {
        assert(acc + t =~= acc);
    } else if t.last() == ' ' {
        assert((acc + t).drop_last() =~= acc + t.drop_last());
        lemma_trim_behind(acc, t.drop_last());
    }
}

fn span_chars(line: &[Cell], lo: usize, hi: usize) -> (out: Vec<char>)
    requires
        hi < usize::MAX,
    ensures
        out@ == span_text(line@, lo as int, hi as int),
{
    let n: usize = line.len();
    let end: usize = if hi + 1 < n {
        hi + 1
    } else {
        n
    };
    if lo < end {
        text_of_line(slice_subrange(line, lo, end))
    } else {
        Vec::new()
    }
}

/// Extract selected text from the terminal grid given start and end positions
/// in (col, row) format.
pub fn extract_selection(grid: &TerminalGrid, start: (usize, usize), end: (usize, usize)) -> (r: String)
    requires
        grid.wf(),
    ensures
        r@ == selected(*grid, start, end),
{
    let (a, b) = in_order(start, end);
    let last: usize = if b.1 < grid.rows {
        b.1 + 1
    } else {
        grid.rows
    };
    let edge: usize = if grid.cols > 0 {
        grid.cols - 1
    } else {
        0
    };
    let mut acc: Vec<char> = Vec::new();
    let mut row: usize = a.1;
    while row < last
        invariant
            grid.wf(),
            edge == last_col(grid.cols as int),
            edge < usize::MAX,
            last == at_most(b.1 + 1, grid.rows as int),
            a.1 <= row,
            a.1 <= b.1,
            a.1 < last ==> row <= last,
            last <= a.1 ==> row == a.1,
            acc@ == rows_text(*grid, a, b, row as int),
            row < last ==> acc@.len() == 0 || acc@.last() == '\n',
        decreases last - row,
    {
        let lo: usize = if row == a.1 {
            if a.0 < edge {
                a.0
            } else {
                edge
            }
        } else {
            0
        };
        let hi: usize = if row == b.1 {
            if b.0 < edge {
                b.0
            } else {
                edge
            }
        } else {
            edge
        };
        let piece = span_chars(grid.visible_line(row), lo, hi);
        let ghost before = acc@;
        let mut i: usize = 0;
        while i < piece.len()
            invariant
                i <= piece.len(),
                acc@ =~= before + piece@.take(i as int),
            decreases piece.len() - i,
        {
            acc.push(piece[i]);
            i += 1;
        }
        assert(piece@.take(i as int) =~= piece@);
        if row < b.1 {
            proof {
                lemma_trim_behind(before, piece@);
            }
            let n: usize = text::trim_end_char_chars(acc.as_slice(), ' ').len();
            proof {
                lemma_trimmed_is_prefix(acc@);
            }
            acc.truncate(n);
            acc.push('\n');
            assert(acc@ =~= before + row_piece(*grid, a, b, row as int));
        }
        row += 1;
    }
    proof {
        if last <= a.1 {
            assert(rows_text(*grid, a, b, last as int) =~= rows_text(*grid, a, b, row as int));
        }
    }
    text::string_of(text::trim_end_chars(acc.as_slice()))
}

/// The order of the two corners of a selection does not matter.
pub proof fn law_the_corners_may_be_swapped(grid: TerminalGrid, start: (usize, usize), end: (usize, usize))
    ensures
        selected(grid, start, end) == selected(grid, end, start),
{
    assert(ordered(start, end) == ordered(end, start));
}

/// The tail of a wide character adds nothing to the text of a line.
pub proof fn law_wide_tails_add_nothing(line: Seq<Cell>)
    ensures
        line_text(line) == line.filter(|c: Cell| !c.wide_cont).map_values(|c: Cell| c.c),
    decreases line.len(),
{
    reveal(Seq::filter);
    let keep = |c: Cell| !c.wide_cont;
    let mark = |c: Cell| c.c;
    if line.len() > 0 {
        law_wide_tails_add_nothing(line.drop_last());
        let head = line.drop_last().filter(keep);
        if keep(line.last()) {
            assert(head.push(line.last()).map_values(mark) =~= head.map_values(mark).push(line.last().c));
        }
    } else {
        assert(line.filter(keep).map_values(mark) =~= Seq::<char>::empty());
    }
}

/// No line of the text ends in a blank.
pub open spec fn lines_end_clean(s: Seq<char>) -> bool {
    forall|i: int| 0 < i < s.len() && #[trigger] s[i] == '\n' ==> s[i - 1] != ' '
}

/// No cell holds a line feed.
pub open spec fn holds_no_feed(line: Seq<Cell>) -> bool {
    forall|i: int| 0 <= i < line.len() ==> (#[trigger] line[i]).c != '\n'
}

/// The text of a selection has no whitespace at its end; and where no cell holds a
/// line feed of its own, none of its lines ends in a blank.
pub proof fn law_a_selection_leaves_no_blanks(grid: TerminalGrid, start: (usize, usize), end: (usize, usize))
    ensures
        selected(grid, start, end).len() > 0 ==> !text::is_white(selected(grid, start, end).last()),
        (forall|row: int| 0 <= row < grid.rows ==> holds_no_feed(#[trigger] grid.shown(row))) ==> lines_end_clean(
            selected(grid, start, end),
        ),
{
    let (a, b) = ordered(start, end);
    let last = at_most(b.1 + 1, grid.rows as int);
    let all = rows_text(grid, a, b, last);
    lemma_trim_end(all);
    if forall|row: int| 0 <= row < grid.rows ==> holds_no_feed(#[trigger] grid.shown(row)) {
        lemma_rows_end_clean(grid, a, b, last);
        let t = text::trim_end(all);
        assert forall|i: int| 0 < i < t.len() && #[trigger] t[i] == '\n' implies t[i - 1] != ' ' by {
            assert(t[i] == all[i] && t[i - 1] == all[i - 1]);
        }
    }
}

/// Trimming cuts a text short where no whitespace stands before.
proof fn lemma_trim_end(s: Seq<char>)
    ensures
        text::trim_end(s).len() <= s.len(),
        text::trim_end(s) == s.take(text::trim_end(s).len() as int),
        text::trim_end(s).len() > 0 ==> !text::is_white(text::trim_end(s).last()),
    decreases s.len(),
{
    if s.len() > 0 && text::is_white(s.last()) {
        lemma_trim_end(s.drop_last());
        let n = text::trim_end(s).len() as int;
        assert(s.drop_last().take(n) =~= s.take(n));
    } else {
        assert(s.take(s.len() as int) =~= s);
    }
}

proof fn lemma_line_without_feed(line: Seq<Cell>)
    requires
        holds_no_feed(line),
    ensures
        !line_text(line).contains('\n'),
    decreases line.len(),
{
    if line.len() > 0 {
        let head = line.drop_last();
        assert forall|i: int| 0 <= i < head.len() implies (#[trigger] head[i]).c != '\n' by {
            assert(head[i] == line[i]);
        }
        lemma_line_without_feed(head);
        let h = line_text(head);
        let t = line_text(line);
        if t.contains('\n') {
            let i = choose|i: int| 0 <= i < t.len() && t[i] == '\n';
            if i < h.len() {
                assert(h[i] == '\n');
            }
            assert(line[line.len() - 1].c != '\n');
        }
    }
}

proof fn lemma_trimmed_blanks(s: Seq<char>)
    ensures
        text::trim_end_char(s, ' ').len() > 0 ==> text::trim_end_char(s, ' ').last() != ' ',
    decreases s.len(),
{
    if s.len() > 0 && s.last() == ' ' {
        lemma_trimmed_blanks(s.drop_last());
    }
}

/// The rows of a selection, each but the last trimmed and ended.
proof fn lemma_rows_end_clean(grid: TerminalGrid, a: (usize, usize), b: (usize, usize), end: int)
    requires
        end <= grid.rows,
        end <= b.1 + 1,
        forall|row: int| 0 <= row < grid.rows ==> holds_no_feed(#[trigger] grid.shown(row)),
    ensures
        lines_end_clean(rows_text(grid, a, b, end)),
        end <= b.1 && rows_text(grid, a, b, end).len() > 0 ==> rows_text(grid, a, b, end).last() == '\n',
    decreases end - a.1,
{
    if end > a.1 {
        lemma_rows_end_clean(grid, a, b, end - 1);
        let row = end - 1;
        let done = rows_text(grid, a, b, row);
        let piece = row_piece(grid, a, b, row);
        let (lo, hi) = covered(a, b, grid.cols as int, row);
        let line = grid.shown(row);
        assert(holds_no_feed(line));
        let t = span_text(line, lo, hi);
        let cut = at_most(hi + 1, line.len() as int);
        if lo < cut {
            let part = line.subrange(lo, cut);
            assert forall|i: int| 0 <= i < part.len() implies (#[trigger] part[i]).c != '\n' by {
                assert(part[i] == line[lo + i]);
            }
            lemma_line_without_feed(part);
        }
        assert(!t.contains('\n'));
        let trimmed = text::trim_end_char(t, ' ');
        lemma_trimmed_is_prefix(t);
        lemma_trimmed_blanks(t);
        let s = done + piece;
        assert forall|i: int| 0 < i < s.len() && #[trigger] s[i] == '\n' implies s[i - 1] != ' ' by {
            if i < done.len() {
                assert(done[i] == '\n');
            } else {
                let k = i - done.len();
                assert(piece[k] == '\n');
                if k < trimmed.len() || row >= b.1 {
                    assert(t[k] == piece[k]);
                    assert(t.contains('\n'));
                }
                if k > 0 {
                    assert(k == trimmed.len());
                    assert(s[i - 1] == piece[k - 1]);
                    assert(piece[k - 1] == trimmed.last());
                } else {
                    assert(s[i - 1] == done.last());
                }
            }
        }
    }
}

proof fn lemma_trimmed_is_prefix(s: Seq<char>)
    ensures
        text::trim_end_char(s, ' ').len() <= s.len(),
        text::trim_end_char(s, ' ') == s.take(text::trim_end_char(s, ' ').len() as int),
    decreases s.len(),
{
    if s.len() > 0 && s.last() == ' ' {
        lemma_trimmed_is_prefix(s.drop_last());
        let n = text::trim_end_char(s, ' ').len() as int;
        assert(s.drop_last().take(n) =~= s.take(n));
    } else {
        assert(s.take(s.len() as int) =~= s);
    }
}

// ---- what the screen says ------------------------------------------------------------------

/// Row `y` holds something but blanks.
pub open spec fn has_text(cells: Seq<Vec<Cell>>, y: int) -> bool {
    text::trim(line_text(cells[y]@)).len() > 0
}

/// The characters up to the first `$` or `#`.
pub open spec fn up_to_prompt_end(s: Seq<char>) -> Seq<char>
    decreases s.len(),
{
    if s.len() == 0 || s[0] == '$' || s[0] == '#' {
        Seq::empty()
    } else {
        seq![s[0]] + up_to_prompt_end(s.drop_first())
    }
}

/// The directory that a prompt like `user@host:/path$` shows.
pub open spec fn prompt_dir(line: Seq<char>) -> Option<Seq<char>> {
    match text::rfind_char(line, '@') {
        None => None,
        Some(at) => {
            let host = line.skip(at + 1);
            match text::find_char(host, ':') {
                None => None,
                Some(colon) => {
                    let path = text::trim(up_to_prompt_end(host.skip(colon + 1)));
                    if path.len() > 0 {
                        Some(path)
                    } else {
                        None
                    }
                },
            }
        },
    }
}

/// The lowest of the first `n` rows that holds text.
pub open spec fn last_text_row(cells: Seq<Vec<Cell>>, n: int) -> Option<int>
    decreases n,
{
    if n <= 0 {
        None
    } else if has_text(cells, n - 1) {
        Some(n - 1)
    } else {
        last_text_row(cells, n - 1)
    }
}

/// The directory in the last prompt on screen.
pub open spec fn shown_cwd(grid: TerminalGrid) -> Option<Seq<char>> {
    match last_text_row(grid.cells@, grid.rows as int) {
        Some(y) => prompt_dir(text::trim(line_text(grid.cells@[y]@))),
        None => None,
    }
}

fn prefix_to_prompt_end(s: &[char]) -> (r: &[char])
    ensures
        r@ == up_to_prompt_end(s@),
{
    let mut i: usize = 0;
    assert(s@.skip(0) =~= s@);
    assert(s@.take(0) + up_to_prompt_end(s@) =~= up_to_prompt_end(s@));
    while i < s.len() && s[i] != '$' && s[i] != '#'
        invariant
            i <= s.len(),
            up_to_prompt_end(s@) == s@.take(i as int) + up_to_prompt_end(s@.skip(i as int)),
        decreases s.len() - i,
    {
        assert(s@.skip(i as int).drop_first() =~= s@.skip(i + 1));
        assert(s@.take(i + 1) =~= s@.take(i as int) + seq![s@[i as int]]);
        assert(up_to_prompt_end(s@) =~= s@.take(i + 1) + up_to_prompt_end(s@.skip(i + 1)));
        i += 1;
    }
    assert(up_to_prompt_end(s@.skip(i as int)) =~= Seq::<char>::empty());
    let r = slice_subrange(s, 0, i);
    assert(r@ =~= up_to_prompt_end(s@));
    r
}

fn dir_in_prompt(line: &[char]) -> (r: Option<String>)
    ensures
        match r {
            Some(d) => prompt_dir(line@) == Some(d@),
            None => prompt_dir(line@) is None,
        },
{
    let at_sign: Vec<char> = vec!['@'];
    let colon_sign: Vec<char> = vec![':'];
    assert(at_sign@ =~= seq!['@'] && colon_sign@ =~= seq![':']);
    let at: usize = match text::rfind_chars(line, at_sign.as_slice()) {
        Some(i) => i,
        None => return None,
    };
    let n: usize = line.len();
    let host = slice_subrange(line, at + 1, n);
    assert(host@ =~= line@.skip(at + 1));
    let colon: usize = match text::find_chars(host, colon_sign.as_slice()) {
        Some(i) => i,
        None => return None,
    };
    let m: usize = host.len();
    let rest = slice_subrange(host, colon + 1, m);
    assert(rest@ =~= host@.skip(colon + 1));
    let path = text::trim_chars(prefix_to_prompt_end(rest));
    if path.len() > 0 {
        Some(text::string_of(path))
    } else {
        None
    }
}

/// Extract CWD from the shell prompt in the terminal grid.
/// Matches common prompt patterns like:
///   user@host:/path$    user@host:~$    (env) user@host:/path$
pub fn extract_cwd_from_prompt(grid: &TerminalGrid) -> (r: Option<String>)
    requires
        grid.wf(),
    ensures
        match r {
            Some(d) => shown_cwd(*grid) == Some(d@),
            None => shown_cwd(*grid) is None,
        },
{
    let mut y: usize = grid.rows;
    while y > 0
        invariant
            grid.wf(),
            y <= grid.rows,
            last_text_row(grid.cells@, grid.rows as int) == last_text_row(grid.cells@, y as int),
        decreases y,
    {
        let cs = text_of_line(grid.cells[y - 1].as_slice());
        let line = text::trim_chars(cs.as_slice());
        if line.len() > 0 {
            return dir_in_prompt(line);
        }
        y -= 1;
    }
    None
}

/// A character that may stand in a file name behind `sz `.
pub open spec fn in_sz_name(c: char) -> bool {
    ||| c != '*' && '!' <= c <= '~'
    ||| c == ' '
    ||| c > '\u{7f}'
}

pub open spec fn sz_name_part(s: Seq<char>) -> Seq<char>
    decreases s.len(),
{
    if s.len() == 0 || !in_sz_name(s[0]) {
        Seq::empty()
    } else {
        seq![s[0]] + sz_name_part(s.drop_first())
    }
}

/// A name of more than one byte.
pub open spec fn long_enough(name: Seq<char>) -> bool {
    name.len() > 1 || (name.len() == 1 && name[0] > '\u{7f}')
}

/// The name behind the last `sz ` of a line.
pub open spec fn sz_on_line(line: Seq<char>) -> Option<Seq<char>> {
    match text::rfind(line, "sz "@) {
        None => None,
        Some(i) => {
            let name = text::trim(sz_name_part(text::trim(line.skip(i + 3))));
            if long_enough(name) {
                Some(name)
            } else {
                None
            }
        },
    }
}

/// A row that says nothing of what was typed: blank, ZMODEM's or the
/// application's own.
pub open spec fn is_noise(line: Seq<char>) -> bool {
    ||| line.len() == 0
    ||| text::starts_with(line, "**"@)
    ||| text::contains(line, "[NeoShell]"@)
}

pub open spec fn shown_line(cells: Seq<Vec<Cell>>, y: int) -> Seq<char> {
    text::trim(line_text(cells[y]@))
}

/// How many rows that say something are searched for an `sz` command.
pub const SZ_ROWS: usize = 3;

/// The lowest name that an `sz` command has in the first `n` rows, of which at
/// most `left` that say something are looked at.
pub open spec fn sz_among(cells: Seq<Vec<Cell>>, n: int, left: int) -> Option<Seq<char>>
    decreases n,
{
    if n <= 0 || left <= 0 {
        None
    } else if is_noise(shown_line(cells, n - 1)) {
        sz_among(cells, n - 1, left)
    } else if sz_on_line(shown_line(cells, n - 1)) is Some {
        sz_on_line(shown_line(cells, n - 1))
    } else {
        sz_among(cells, n - 1, left - 1)
    }
}

/// The name in the `sz` command on screen.
pub open spec fn shown_sz(grid: TerminalGrid) -> Option<Seq<char>> {
    sz_among(grid.cells@, grid.rows as int, SZ_ROWS as int)
}

fn sz_prefix(s: &[char]) -> (r: &[char])
    ensures
        r@ == sz_name_part(s@),
{
    let mut i: usize = 0;
    assert(s@.skip(0) =~= s@);
    assert(s@.take(0) + sz_name_part(s@) =~= sz_name_part(s@));
    while i < s.len() && ((s[i] != '*' && '!' <= s[i] && s[i] <= '~') || s[i] == ' ' || s[i] > '\u{7f}')
        invariant
            i <= s.len(),
            sz_name_part(s@) == s@.take(i as int) + sz_name_part(s@.skip(i as int)),
        decreases s.len() - i,
    {
        assert(s@.skip(i as int).drop_first() =~= s@.skip(i + 1));
        assert(s@.take(i + 1) =~= s@.take(i as int) + seq![s@[i as int]]);
        assert(sz_name_part(s@) =~= s@.take(i + 1) + sz_name_part(s@.skip(i + 1)));
        i += 1;
    }
    assert(sz_name_part(s@.skip(i as int)) =~= Seq::<char>::empty());
    let r = slice_subrange(s, 0, i);
    assert(r@ =~= sz_name_part(s@));
    r
}

/// What stands behind the last `sz ` of a line, without the blanks around it.
fn behind_sz<'a>(line: &'a [char]) -> (r: Option<&'a [char]>)
    ensures
        match r {
            Some(rest) => text::rfind(line@, "sz "@) matches Some(i) && rest@ == text::trim(
                line@.skip(i + 3),
            ),
            None => text::rfind(line@, "sz "@) is None,
        },
{
    let sz = text::chars_of("sz ");
    proof {
        reveal_strlit("sz ");
    }
    match text::rfind_chars(line, sz.as_slice()) {
        None => None,
        Some(i) => {
            let n: usize = line.len();
            let rest = slice_subrange(line, i + 3, n);
            assert(rest@ =~= line@.skip(i + 3));
            Some(text::trim_chars(rest))
        },
    }
}

fn is_long_enough(name: &[char]) -> (r: bool)
    ensures
        r == long_enough(name@),
{
    name.len() > 1 || (name.len() == 1 && name[0] > '\u{7f}')
}

/// Extract "sz filename" from the terminal grid (shell echo already rendered).
/// Scans recent lines bottom-up for "sz " pattern.
pub fn extract_sz_from_grid(grid: &TerminalGrid) -> (r: Option<String>)
    requires
        grid.wf(),
    ensures
        match r {
            Some(d) => shown_sz(*grid) == Some(d@),
            None => shown_sz(*grid) is None,
        },
{
    let stars = text::chars_of("**");
    let own = text::chars_of("[NeoShell]");
    let mut y: usize = grid.rows;
    let mut left: usize = SZ_ROWS;
    while y > 0 && left > 0
        invariant
            grid.wf(),
            y <= grid.rows,
            stars@ == "**"@,
            own@ == "[NeoShell]"@,
            shown_sz(*grid) == sz_among(grid.cells@, y as int, left as int),
        decreases y,
    {
        let cs = text_of_line(grid.cells[y - 1].as_slice());
        let line = text::trim_chars(cs.as_slice());
        let noise = line.len() == 0 || text::starts_with_chars(line, stars.as_slice())
            || text::contains_chars(line, own.as_slice());
        if !noise {
            match behind_sz(line) {
                None => {},
                Some(after) => {
                    let name = text::trim_chars(sz_prefix(after));
                    if is_long_enough(name) {
                        return Some(text::string_of(name));
                    }
                },
            }
            left -= 1;
        }
        y -= 1;
    }
    None
}

/// What follows the first character in `@` to `~`, which ends a control sequence.
pub open spec fn after_control(s: Seq<char>) -> Seq<char>
    decreases s.len(),
{
    if s.len() == 0 {
        Seq::empty()
    } else if '@' <= s[0] <= '~' {
        s.drop_first()
    } else {
        after_control(s.drop_first())
    }
}

/// What follows the first BEL or ESC `\`, which end a command to the terminal.
pub open spec fn after_command(s: Seq<char>) -> Seq<char>
    decreases s.len(),
{
    if s.len() == 0 {
        Seq::empty()
    } else if s[0] == '\u{7}' {
        s.drop_first()
    } else if s[0] == '\u{1b}' && s.len() > 1 && s[1] == '\\' {
        s.skip(2)
    } else {
        after_command(s.drop_first())
    }
}

/// What follows an escape sequence; `s` is what stands behind its ESC.
pub open spec fn after_escape(s: Seq<char>) -> Seq<char> {
    if s.len() == 0 {
        Seq::empty()
    } else if s[0] == '[' {
        after_control(s.drop_first())
    } else if s[0] == ']' {
        after_command(s.drop_first())
    } else {
        s.drop_first()
    }
}

/// `s` without its escape sequences.
pub open spec fn unescaped(s: Seq<char>) -> Seq<char>
    decreases s.len(),
{
    if s.len() == 0 {
        Seq::empty()
    } else if s[0] == '\u{1b}' {
        proof {
            lemma_escape_ends(s.drop_first());
        }
        unescaped(after_escape(s.drop_first()))
    } else {
        seq![s[0]] + unescaped(s.drop_first())
    }
}

proof fn lemma_control_ends(s: Seq<char>)
    ensures
        after_control(s).len() <= s.len(),
    decreases s.len(),
{
    if s.len() > 0 {
        lemma_control_ends(s.drop_first());
    }
}

proof fn lemma_command_ends(s: Seq<char>)
    ensures
        after_command(s).len() <= s.len(),
    decreases s.len(),
{
    if s.len() > 0 {
        lemma_command_ends(s.drop_first());
    }
}

/// An escape sequence ends within the text.
pub proof fn lemma_escape_ends(s: Seq<char>)
    ensures
        after_escape(s).len() <= s.len(),
{
    if s.len() > 0 {
        lemma_control_ends(s.drop_first());
        lemma_command_ends(s.drop_first());
    }
}

/// The index behind the control sequence whose parameters start at `from`.
fn control_end(s: &[char], from: usize) -> (r: usize)
    requires
        from <= s@.len(),
    ensures
        from <= r <= s@.len(),
        s@.skip(r as int) == after_control(s@.skip(from as int)),
{
    let mut i: usize = from;
    while i < s.len()
        invariant
            from <= i <= s@.len(),
            after_control(s@.skip(from as int)) == after_control(s@.skip(i as int)),
        decreases s@.len() - i,
    {
        assert(s@.skip(i as int).drop_first() =~= s@.skip(i + 1));
        if '@' <= s[i] && s[i] <= '~' {
            return i + 1;
        }
        i += 1;
    }
    assert(s@.skip(i as int) =~= Seq::<char>::empty());
    i
}

/// The index behind the command to the terminal that starts at `from`.
fn command_end(s: &[char], from: usize) -> (r: usize)
    requires
        from <= s@.len(),
    ensures
        from <= r <= s@.len(),
        s@.skip(r as int) == after_command(s@.skip(from as int)),
{
    let mut i: usize = from;
    while i < s.len()
        invariant
            from <= i <= s@.len(),
            after_command(s@.skip(from as int)) == after_command(s@.skip(i as int)),
        decreases s@.len() - i,
    {
        assert(s@.skip(i as int).drop_first() =~= s@.skip(i + 1));
        if s[i] == '\u{7}' {
            return i + 1;
        }
        if s[i] == '\u{1b}' && i + 1 < s.len() && s[i + 1] == '\\' {
            assert(s@.skip(i as int).skip(2) =~= s@.skip(i + 2));
            return i + 2;
        }
        i += 1;
    }
    assert(s@.skip(i as int) =~= Seq::<char>::empty());
    i
}

/// The index behind the escape sequence whose ESC stands before `from`.
fn escape_end(s: &[char], from: usize) -> (r: usize)
    requires
        from <= s@.len(),
    ensures
        from <= r <= s@.len(),
        s@.skip(r as int) == after_escape(s@.skip(from as int)),
{
    if from == s.len() {
        assert(s@.skip(from as int) =~= Seq::<char>::empty());
        return from;
    }
    assert(s@.skip(from as int).drop_first() =~= s@.skip(from + 1));
    if s[from] == '[' {
        control_end(s, from + 1)
    } else if s[from] == ']' {
        command_end(s, from + 1)
    } else {
        from + 1
    }
}

/// A text without its escape sequences.
pub fn strip_escapes(s: &[char]) -> (clean: Vec<char>)
    ensures
        clean@ == unescaped(s@),
{
    let mut clean: Vec<char> = Vec::new();
    let mut i: usize = 0;
    assert(s@.skip(0) =~= s@);
    assert(clean@ + unescaped(s@) =~= unescaped(s@));
    while i < s.len()
        invariant
            i <= s@.len(),
            unescaped(s@) == clean@ + unescaped(s@.skip(i as int)),
        decreases s@.len() - i,
    {
        let ghost done = clean@;
        assert(s@.skip(i as int).drop_first() =~= s@.skip(i + 1));
        if s[i] == '\u{1b}' {
            i = escape_end(s, i + 1);
        } else {
            clean.push(s[i]);
            assert(clean@ + unescaped(s@.skip(i + 1)) =~= done + (seq![s@[i as int]] + unescaped(s@.skip(i + 1))));
            i += 1;
        }
    }
    assert(s@.skip(i as int) =~= Seq::<char>::empty());
    assert(clean@ + Seq::<char>::empty() =~= clean@);
    clean
}

/// The characters up to the first `*`, carriage return or line feed.
pub open spec fn up_to_garbage(s: Seq<char>) -> Seq<char>
    decreases s.len(),
{
    if s.len() == 0 || s[0] == '*' || s[0] == '\r' || s[0] == '\n' {
        Seq::empty()
    } else {
        seq![s[0]] + up_to_garbage(s.drop_first())
    }
}

/// The name that one line of output asks `sz` for.
pub open spec fn sz_in_output(line: Seq<char>) -> Option<Seq<char>> {
    let l = text::trim(line);
    match text::rfind(l, "sz "@) {
        None => None,
        Some(i) => {
            let name = text::trim(up_to_garbage(text::trim(l.skip(i + 3))));
            if long_enough(name) {
                Some(name)
            } else {
                None
            }
        },
    }
}

/// The first name that the lines ask for.
pub open spec fn first_sz(lines: Seq<Seq<char>>) -> Option<Seq<char>>
    decreases lines.len(),
{
    if lines.len() == 0 {
        None
    } else if sz_in_output(lines[0]) is Some {
        sz_in_output(lines[0])
    } else {
        first_sz(lines.drop_first())
    }
}

fn prefix_to_garbage(s: &[char]) -> (r: &[char])
    ensures
        r@ == up_to_garbage(s@),
{
    let mut i: usize = 0;
    assert(s@.skip(0) =~= s@);
    assert(s@.take(0) + up_to_garbage(s@) =~= up_to_garbage(s@));
    while i < s.len() && s[i] != '*' && s[i] != '\r' && s[i] != '\n'
        invariant
            i <= s.len(),
            up_to_garbage(s@) == s@.take(i as int) + up_to_garbage(s@.skip(i as int)),
        decreases s.len() - i,
    {
        assert(s@.skip(i as int).drop_first() =~= s@.skip(i + 1));
        assert(s@.take(i + 1) =~= s@.take(i as int) + seq![s@[i as int]]);
        assert(up_to_garbage(s@) =~= s@.take(i + 1) + up_to_garbage(s@.skip(i + 1)));
        i += 1;
    }
    assert(up_to_garbage(s@.skip(i as int)) =~= Seq::<char>::empty());
    let r = slice_subrange(s, 0, i);
    assert(r@ =~= up_to_garbage(s@));
    r
}

/// Extract filename from "sz filename" echo in SSH data stream.
/// Handles: "sz file.txt\r\n", "$ sz  my file.tar\r\n", ANSI escape codes stripped.
pub fn extract_sz_filename(data: &str) -> (r: Option<String>)
    ensures
        match r {
            Some(name) => first_sz(crate::split::lines(unescaped(data@))) == Some(name@),
            None => first_sz(crate::split::lines(unescaped(data@))) is None,
        },
{
    let cs = text::chars_of(data);
    let clean = strip_escapes(cs.as_slice());
    let lines = crate::split::lines_of(clean.as_slice());
    let ghost all = crate::split::lines(unescaped(data@));
    let mut k: usize = 0;
    assert(all.skip(0) =~= all);
    while k < lines.len()
        invariant
            k <= lines.len(),
            all == crate::split::pieces(lines@),
            all == crate::split::lines(unescaped(data@)),
            first_sz(all) == first_sz(all.skip(k as int)),
        decreases lines.len() - k,
    {
        assert(all[k as int] == lines@[k as int]@);
        assert(all.skip(k as int)[0] == all[k as int]);
        assert(all.skip(k as int).drop_first() =~= all.skip(k + 1));
        let line = text::trim_chars(lines[k]);
        match behind_sz(line) {
            None => {},
            Some(after) => {
                let name = text::trim_chars(prefix_to_garbage(after));
                if is_long_enough(name) {
                    assert(sz_in_output(all[k as int]) == Some(name@));
                    return Some(text::string_of(name));
                }
            },
        }
        k += 1;
    }
    None
}

// ---- was a line echoed? -----------------------------------------------------------------------

/// The row of the cursor, or the last there is.
pub open spec fn cursor_row(grid: TerminalGrid) -> int {
    at_most(grid.cursor_y as int, grid.cells@.len() - 1)
}

/// The texts of rows `lo` up to `hi`, joined.
pub open spec fn joined_rows(cells: Seq<Vec<Cell>>, lo: int, hi: int) -> Seq<char>
    decreases hi - lo,
{
    if hi <= lo {
        Seq::empty()
    } else {
        joined_rows(cells, lo, hi - 1) + line_text(cells[hi - 1]@)
    }
}

/// The line asks for a secret, in lower case.
pub open spec fn asks_for_secret(line: Seq<char>) -> bool {
    ||| text::contains(line, "password"@)
    ||| text::contains(line, "passphrase"@)
    ||| text::contains(line, "\u{5bc6}\u{7801}"@)
    ||| text::contains(line, "\u{53e3}\u{4ee4}"@)
}

/// The start of `cmd` stands on the row of the cursor or the two above it,
/// and that row asks for no secret.
pub open spec fn echoed(grid: TerminalGrid, cmd: Seq<char>) -> bool {
    let y = cursor_row(grid);
    &&& grid.cells@.len() > 0
    &&& !asks_for_secret(lettercase::lower_text(line_text(grid.cells@[y]@)))
    &&& text::contains(
        joined_rows(
            grid.cells@,
            if y < 2 {
                0
            } else {
                y - 2
            },
            y + 1,
        ),
        cmd.take(at_most(6, cmd.len() as int)),
    )
}

/// True when the remote echoed `cmd` back onto the screen.
///
/// A command line is put together from local keystrokes, with no idea whether
/// the remote tty is echoing. `sudo`, `su`, `mysql -p` and gpg all turn echo
/// off at their prompts, and what is typed there must not be kept.
///
/// Fails closed: where there is no grid or the echo has not landed yet, the
/// line is simply not recorded.
pub fn command_was_echoed(grid: Option<&TerminalGrid>, cmd: &str) -> (r: bool)
    ensures
        r == (grid matches Some(g) && echoed(*g, cmd@)),
{
    let g = match grid {
        Some(g) => g,
        None => return false,
    };
    if g.cells.len() == 0 {
        return false;
    }
    let last: usize = g.cells.len() - 1;
    let y: usize = if g.cursor_y < last {
        g.cursor_y
    } else {
        last
    };
    let row = text::string_of(text_of_line(g.cells[y].as_slice()).as_slice());
    let prompt = lettercase::lowercase(row.as_str());
    if text::text_contains(prompt.as_str(), "password") || text::text_contains(
        prompt.as_str(),
        "passphrase",
    ) || text::text_contains(prompt.as_str(), "\u{5bc6}\u{7801}") || text::text_contains(
        prompt.as_str(),
        "\u{53e3}\u{4ee4}",
    ) {
        return false;
    }
    let cs = text::chars_of(cmd);
    let n: usize = cs.len();
    let head = slice_subrange(
        cs.as_slice(),
        0,
        if n < 6 {
            n
        } else {
            6
        },
    );
    assert(head@ =~= cmd@.take(at_most(6, cmd@.len() as int)));
    let start: usize = if y < 2 {
        0
    } else {
        y - 2
    };
    let mut visible: Vec<char> = Vec::new();
    let mut k: usize = start;
    let end: usize = y + 1;
    while k < end
        invariant
            start <= k <= end,
            end == y + 1,
            y < g.cells@.len(),
            visible@ == joined_rows(g.cells@, start as int, k as int),
        decreases end - k,
    {
        let t = text_of_line(g.cells[k].as_slice());
        let ghost before = visible@;
        crate::split::push_all(&mut visible, t.as_slice());
        assert(visible@ =~= joined_rows(g.cells@, start as int, k + 1));
        k += 1;
    }
    text::contains_chars(visible.as_slice(), head)
}

// ---- search ------------------------------------------------------------------------------------

/// A hit of the terminal search. Lines count from the oldest of the
/// scrollback.
#[derive(Debug, Clone, Copy, PartialEq, Eq, Structural)]
pub struct SearchMatch {
    pub abs_line: usize,
    pub col_start: usize,
    pub col_end: usize,
}

/// How far back to scroll so that line `abs_line` sits roughly in the middle
/// of the view.
pub open spec fn offset_for(abs_line: int, scrollback: int, rows: int) -> int {
    if abs_line >= scrollback {
        0
    } else {
        at_most(scrollback - abs_line + rows / 2, scrollback)
    }
}

/// Adjust the scroll offset so that the match sits roughly in the middle of
/// the viewport.
pub fn scroll_to_match(grid: &mut TerminalGrid, m: SearchMatch)
    requires
        old(grid).wf(),
    ensures
        final(grid).wf(),
        *final(grid) == (TerminalGrid {
            scroll_offset: final(grid).scroll_offset,
            generation: final(grid).generation,
            ..*old(grid)
        }),
        final(grid).scroll_offset == offset_for(
            m.abs_line as int,
            old(grid).scrollback@.len() as int,
            old(grid).rows as int,
        ),
        final(grid).generation == (if old(grid).generation == u64::MAX {
            0
        } else {
            old(grid).generation + 1
        }),
{
    let back: usize = grid.scrollback.len();
    let rows: usize = grid.rows;
    if m.abs_line >= back {
        grid.scroll_offset = 0;
    } else {
        let above: usize = back - m.abs_line;
        let half: usize = rows / 2;
        if above + half < back {
            grid.scroll_offset = above + half;
        } else {
            grid.scroll_offset = back;
        }
    }
    grid.touch();
}

} // verus!
