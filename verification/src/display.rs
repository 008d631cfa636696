//! Text made fit to be shown: cut to size, with what would not show written out.

use vstd::prelude::*;
use vstd::slice::slice_subrange;
use vstd::string::*;

use crate::number;
use crate::split;
use crate::text;

verus! {

// ---- cutting by characters ---------------------------------------------------------

/// `s`, or its first `max` characters and "..." when there are more.
pub open spec fn truncated(s: Seq<char>, max: int) -> Seq<char> {
    if s.len() > max {
        s.take(max) + seq!['.', '.', '.']
    } else {
        s
    }
}

/// `s` cut to `max_chars` characters, "..." after them when anything was cut.
pub fn truncate_str(s: &str, max_chars: usize) -> (r: String)
    ensures
        r@ == truncated(s@, max_chars as int),
{
    let cs = text::chars_of(s);
    if cs.len() > max_chars {
        let mut out = text::string_of(slice_subrange(cs.as_slice(), 0, max_chars));
        out.push('.');
        out.push('.');
        out.push('.');
        assert(out@ =~= truncated(s@, max_chars as int));
        out
    } else {
        text::string_of(cs.as_slice())
    }
}

/// Text a remote server supplied, without its control characters other than
/// the line feed.
pub open spec fn printable(s: Seq<char>) -> Seq<char> {
    s.filter(|c: char| c == '\n' || !text::is_ctrl(c))
}

/// Text a remote server supplied, made safe to lay out: control characters
/// other than newline dropped, capped at `max` characters so a hostile banner
/// cannot push the buttons off screen.
pub fn sanitize_remote_text(s: &str, max: usize) -> (r: String)
    ensures
        r@ == truncated(text::trim(printable(s@)), max as int),
{
    let cs = text::chars_of(s);
    let mut clean: Vec<char> = Vec::new();
    let ghost keep = |c: char| c == '\n' || !text::is_ctrl(c);
    let mut i: usize = 0;
    assert(cs@.take(0).filter(keep) =~= Seq::<char>::empty());
    while i < cs.len()
        invariant
            i <= cs.len(),
            keep == (|c: char| c == '\n' || !text::is_ctrl(c)),
            clean@ =~= cs@.take(i as int).filter(keep),
        decreases cs.len() - i,
    {
        let c = cs[i];
        proof {
            cs@.take(i as int).lemma_filter_push(c, keep);
            assert(cs@.take(i + 1) =~= cs@.take(i as int).push(c));
        }
        if c == '\n' || !c.is_control() {
            clean.push(c);
        }
        i += 1;
    }
    assert(cs@.take(i as int) =~= cs@);
    let trimmed = text::string_of(text::trim_chars(clean.as_slice()));
    truncate_str(trimmed.as_str(), max)
}

// ---- cutting by display columns ------------------------------------------------------

/// The columns that the characters from `lo` up to `hi` take.
pub open spec fn columns(widths: Seq<usize>, lo: int, hi: int) -> int
    decreases hi - lo,
{
    if lo >= hi {
        0
    } else {
        columns(widths, lo, hi - 1) + widths[hi - 1]
    }
}

/// How far the characters from `at` up to `end` go into `room` columns.
pub open spec fn fill_right(widths: Seq<usize>, at: int, end: int, room: int) -> int
    decreases end - at,
{
    if at < end && widths[at] <= room {
        fill_right(widths, at + 1, end, room - widths[at])
    } else {
        at
    }
}

/// How far back the characters before `end` go into `room` columns.
pub open spec fn fill_left(widths: Seq<usize>, end: int, room: int) -> int
    decreases end,
{
    if end > 0 && widths[end - 1] <= room {
        fill_left(widths, end - 1, room - widths[end - 1])
    } else {
        end
    }
}

/// The first character from `at` on that takes a column.
pub open spec fn skip_marks(widths: Seq<usize>, at: int) -> int
    decreases widths.len() - at,
{
    if at < widths.len() && widths[at] == 0 {
        skip_marks(widths, at + 1)
    } else {
        at
    }
}

/// `s` fitted to `max` columns: as it is, or its head and "…".
pub open spec fn clipped(s: Seq<char>, widths: Seq<usize>, max: int) -> Seq<char> {
    if columns(widths, 0, widths.len() as int) <= max {
        s
    } else if max <= 0 {
        Seq::empty()
    } else {
        s.take(fill_right(widths, 0, s.len() as int, max - 1)).push('…')
    }
}

/// Where the tail starts that a name cut in its middle keeps.
pub open spec fn tail_start(widths: Seq<usize>, max: int) -> int {
    skip_marks(widths, fill_left(widths, widths.len() as int, (max - 1) / 2))
}

/// Where the head ends that a name cut in its middle keeps.
pub open spec fn head_end(widths: Seq<usize>, max: int) -> int {
    fill_right(widths, 0, tail_start(widths, max), (max - 1) - (max - 1) / 2)
}

/// `s` fitted to `max` columns: as it is, or its head, "…" and its tail.
pub open spec fn middle_cut(s: Seq<char>, widths: Seq<usize>, max: int) -> Seq<char> {
    if columns(widths, 0, widths.len() as int) <= max {
        s
    } else if max <= 0 {
        Seq::empty()
    } else {
        s.take(head_end(widths, max)).push('…') + s.skip(tail_start(widths, max))
    }
}

proof fn lemma_columns_nonneg(widths: Seq<usize>, lo: int, hi: int)
    ensures
        columns(widths, lo, hi) >= 0,
    decreases hi - lo,
{
    if lo < hi {
        lemma_columns_nonneg(widths, lo, hi - 1);
    }
}

proof fn lemma_columns_add(widths: Seq<usize>, lo: int, mid: int, hi: int)
    requires
        0 <= lo <= mid <= hi <= widths.len(),
    ensures
        columns(widths, lo, hi) == columns(widths, lo, mid) + columns(widths, mid, hi),
        columns(widths, lo, hi) >= 0,
    decreases hi - mid,
{
    lemma_columns_nonneg(widths, lo, hi);
    if mid < hi {
        lemma_columns_add(widths, lo, mid, hi - 1);
    }
}

/// What fits is within the room; what was left out would not have fitted.
proof fn lemma_fill_right(widths: Seq<usize>, at: int, end: int, room: int)
    requires
        0 <= at <= end <= widths.len(),
        room >= 0,
    ensures
        at <= fill_right(widths, at, end, room) <= end,
        columns(widths, at, fill_right(widths, at, end, room)) <= room,
        fill_right(widths, at, end, room) < end ==> columns(
            widths,
            at,
            fill_right(widths, at, end, room) + 1,
        ) > room,
    decreases end - at,
{
    if at < end && widths[at] <= room {
        lemma_fill_right(widths, at + 1, end, room - widths[at]);
        let e = fill_right(widths, at + 1, end, room - widths[at]);
        lemma_columns_add(widths, at, at + 1, e);
        assert(columns(widths, at, at + 1) == columns(widths, at, at) + widths[at]);
        if e < end {
            lemma_columns_add(widths, at, at + 1, e + 1);
        }
    } else if at < end {
        assert(columns(widths, at, at + 1) == columns(widths, at, at) + widths[at]);
    }
}

proof fn lemma_fill_left(widths: Seq<usize>, end: int, room: int)
    requires
        0 <= end <= widths.len(),
        room >= 0,
    ensures
        0 <= fill_left(widths, end, room) <= end,
        columns(widths, fill_left(widths, end, room), end) <= room,
    decreases end,
{
    if end > 0 && widths[end - 1] <= room {
        lemma_fill_left(widths, end - 1, room - widths[end - 1]);
        let b = fill_left(widths, end - 1, room - widths[end - 1]);
        lemma_columns_add(widths, b, end - 1, end);
        assert(columns(widths, end - 1, end) == columns(widths, end - 1, end - 1) + widths[end - 1]);
    }
}

proof fn lemma_skip_marks(widths: Seq<usize>, at: int)
    requires
        0 <= at <= widths.len(),
    ensures
        at <= skip_marks(widths, at) <= widths.len(),
        columns(widths, skip_marks(widths, at), widths.len() as int) == columns(
            widths,
            at,
            widths.len() as int,
        ),
    decreases widths.len() - at,
{
    if at < widths.len() && widths[at] == 0 {
        lemma_skip_marks(widths, at + 1);
        lemma_columns_add(widths, at, at + 1, widths.len() as int);
        assert(columns(widths, at, at + 1) == columns(widths, at, at) + widths[at]);
    }
}

/// A name cut in its middle fits: its head and its tail take no more columns
/// than are left beside the "…", and the head ends before the tail starts.
pub proof fn law_middle_cut_fits(widths: Seq<usize>, max: int)
    requires
        max > 0,
    ensures
        0 <= head_end(widths, max) <= tail_start(widths, max) <= widths.len(),
        columns(widths, 0, head_end(widths, max)) + 1 + columns(
            widths,
            tail_start(widths, max),
            widths.len() as int,
        ) <= max,
{
    let n = widths.len() as int;
    let tail_room = (max - 1) / 2;
    lemma_fill_left(widths, n, tail_room);
    lemma_skip_marks(widths, fill_left(widths, n, tail_room));
    lemma_fill_right(widths, 0, tail_start(widths, max), (max - 1) - tail_room);
}

/// A clipped text fits: what is left of it takes no more columns than are
/// left beside the "…".
pub proof fn law_clip_fits(widths: Seq<usize>, max: int)
    requires
        max > 0,
    ensures
        ({
            let e = fill_right(widths, 0, widths.len() as int, max - 1);
            0 <= e <= widths.len() && columns(widths, 0, e) + 1 <= max
        }),
{
    lemma_fill_right(widths, 0, widths.len() as int, max - 1);
}

/// Whether all the characters fit into `max` columns.
fn fits(widths: &[usize], max: usize) -> (r: bool)
    ensures
        r == (columns(widths@, 0, widths@.len() as int) <= max),
{
    let mut i: usize = 0;
    let mut room: usize = max;
    while i < widths.len()
        invariant
            i <= widths.len(),
            room == max - columns(widths@, 0, i as int),
        decreases widths.len() - i,
    {
        if widths[i] > room {
            proof {
                lemma_columns_add(widths@, 0, i + 1, widths@.len() as int);
                lemma_columns_add(widths@, i + 1, i + 1, widths@.len() as int);
            }
            return false;
        }
        room -= widths[i];
        i += 1;
    }
    true
}

fn fit_right(widths: &[usize], end: usize, room: usize) -> (r: usize)
    requires
        end <= widths@.len(),
    ensures
        r == fill_right(widths@, 0, end as int, room as int),
        r <= end,
{
    let mut i: usize = 0;
    let mut left: usize = room;
    while i < end && widths[i] <= left
        invariant
            i <= end <= widths@.len(),
            fill_right(widths@, 0, end as int, room as int) == fill_right(
                widths@,
                i as int,
                end as int,
                left as int,
            ),
        decreases end - i,
    {
        left -= widths[i];
        i += 1;
    }
    i
}

/// `s` fitted to `cols` display columns, `widths` holding the columns each of
/// its characters takes — a CJK character takes two — and whether that cut
/// anything.
pub fn clip_to_width(s: &str, widths: &[usize], cols: usize) -> (r: (String, bool))
    requires
        widths@.len() == s@.len(),
    ensures
        r.0@ == clipped(s@, widths@, cols as int),
        r.1 == (clipped(s@, widths@, cols as int) != s@),
{
    let cs = text::chars_of(s);
    let short: Vec<char> = if fits(widths, cols) {
        vstd::slice::slice_to_vec(cs.as_slice())
    } else if cols == 0 {
        Vec::new()
    } else {
        let e: usize = fit_right(widths, cs.len(), cols - 1);
        let mut out = vstd::slice::slice_to_vec(slice_subrange(cs.as_slice(), 0, e));
        out.push('…');
        out
    };
    assert(short@ =~= clipped(s@, widths@, cols as int));
    let cut = !text::same_chars(short.as_slice(), cs.as_slice());
    (text::string_of(short.as_slice()), cut)
}

/// `s` cut to at most `max_cols` display columns by taking out its middle:
/// the head and the tail stay, joined by "…". For a file name that keeps the
/// extension, and any mark [`visible_name`] put at its end. A combining mark
/// whose base was left out goes with it. `widths` holds the columns each
/// character takes.
pub fn truncate_middle_to_width(s: &str, widths: &[usize], max_cols: usize) -> (r: String)
    requires
        widths@.len() == s@.len(),
    ensures
        r@ == middle_cut(s@, widths@, max_cols as int),
{
    let cs = text::chars_of(s);
    if fits(widths, max_cols) {
        return text::string_of(cs.as_slice());
    }
    if max_cols == 0 {
        let empty = String::new();
        assert(empty@ =~= middle_cut(s@, widths@, max_cols as int));
        return empty;
    }
    proof {
        law_middle_cut_fits(widths@, max_cols as int);
    }
    let tail_room: usize = (max_cols - 1) / 2;
    let head_room: usize = (max_cols - 1) - tail_room;
    let mut tail: usize = cs.len();
    let mut left: usize = tail_room;
    while tail > 0 && widths[tail - 1] <= left
        invariant
            tail <= widths@.len(),
            fill_left(widths@, widths@.len() as int, tail_room as int) == fill_left(
                widths@,
                tail as int,
                left as int,
            ),
        decreases tail,
    {
        left -= widths[tail - 1];
        tail -= 1;
    }
    while tail < widths.len() && widths[tail] == 0
        invariant
            tail <= widths@.len(),
            skip_marks(widths@, fill_left(widths@, widths@.len() as int, tail_room as int))
                == skip_marks(widths@, tail as int),
        decreases widths@.len() - tail,
    {
        tail += 1;
    }
    let head: usize = fit_right(widths, tail, head_room);
    let mut out: Vec<char> = vstd::slice::slice_to_vec(slice_subrange(cs.as_slice(), 0, head));
    out.push('…');
    let back = slice_subrange(cs.as_slice(), tail, cs.len());
    split::push_all(&mut out, back);
    assert(out@ =~= middle_cut(s@, widths@, max_cols as int));
    text::string_of(out.as_slice())
}

// ---- what would not show ---------------------------------------------------------------

/// A variation selector.
pub open spec fn is_selector(c: char) -> bool {
    '\u{FE00}' <= c <= '\u{FE0F}'
}

/// An invisible formatting character: zero-width, a bidi override, a filler,
/// a byte order mark, a soft hyphen.
pub open spec fn is_formatting(c: char) -> bool {
    ||| c == '\u{00AD}'
    ||| c == '\u{034F}'
    ||| c == '\u{061C}'
    ||| c == '\u{115F}'
    ||| c == '\u{1160}'
    ||| c == '\u{17B4}'
    ||| c == '\u{17B5}'
    ||| '\u{180B}' <= c <= '\u{180F}'
    ||| '\u{200B}' <= c <= '\u{200F}'
    ||| '\u{202A}' <= c <= '\u{202E}'
    ||| '\u{2060}' <= c <= '\u{2064}'
    ||| '\u{2066}' <= c <= '\u{206F}'
    ||| c == '\u{3164}'
    ||| c == '\u{FEFF}'
    ||| c == '\u{FFA0}'
}

/// `c` after `prev` would not show: a control character, whitespace other
/// than the space, invisible formatting, or a variation selector after
/// nothing or after ASCII, where it changes nothing on screen.
pub open spec fn is_hidden(c: char, prev: Option<char>) -> bool {
    ||| text::is_ctrl(c)
    ||| text::is_white(c) && c != ' '
    ||| is_selector(c) && (prev is None || prev->0 <= '\u{7F}')
    ||| is_formatting(c)
}

/// The `\u{…}` escape of a character.
pub open spec fn escaped(c: char) -> Seq<char> {
    seq!['\\', 'u', '{'] + number::digits(c as nat, 16) + seq!['}']
}

/// What stands for `c` after `prev`: itself, or its escape.
pub open spec fn shown(c: char, prev: Option<char>) -> Seq<char> {
    if is_hidden(c, prev) {
        escaped(c)
    } else {
        seq![c]
    }
}

/// The character before position `i`.
pub open spec fn before(s: Seq<char>, i: int) -> Option<char> {
    if i > 0 {
        Some(s[i - 1])
    } else {
        None
    }
}

/// The space at `i` would not be seen: it is at an end of the name, or beside
/// another space.
pub open spec fn is_lost_space(s: Seq<char>, i: int) -> bool {
    ||| i == 0
    ||| i + 1 == s.len()
    ||| s[i - 1] == ' '
    ||| s[i + 1] == ' '
}

/// What stands for the character at `i` of a name.
pub open spec fn name_mark(s: Seq<char>, i: int) -> Seq<char> {
    if s[i] == ' ' {
        if is_lost_space(s, i) {
            seq!['·']
        } else {
            seq![' ']
        }
    } else {
        shown(s[i], before(s, i))
    }
}

/// The first `n` characters of a name as they are shown.
pub open spec fn name_marks(s: Seq<char>, n: int) -> Seq<char>
    decreases n,
{
    if n <= 0 {
        Seq::empty()
    } else {
        name_marks(s, n - 1) + name_mark(s, n - 1)
    }
}

/// A name as it is shown.
pub open spec fn name_shown(s: Seq<char>) -> Seq<char> {
    name_marks(s, s.len() as int)
}

/// A path as it is shown: each component as a name.
pub open spec fn path_shown(s: Seq<char>) -> Seq<char> {
    split::join(split::split(s, seq!['/']).map_values(|p: Seq<char>| name_shown(p)), seq!['/'])
}

/// The first `n` characters of a text as they are shown, spaces left alone.
pub open spec fn text_marks(s: Seq<char>, n: int) -> Seq<char>
    decreases n,
{
    if n <= 0 {
        Seq::empty()
    } else {
        text_marks(s, n - 1) + shown(s[n - 1], before(s, n - 1))
    }
}

/// A text as it is shown, spaces left alone.
pub open spec fn text_shown(s: Seq<char>) -> Seq<char> {
    text_marks(s, s.len() as int)
}

fn hidden(c: char, prev: Option<char>) -> (r: bool)
    ensures
        r == is_hidden(c, prev),
{
    let selector = '\u{FE00}' <= c && c <= '\u{FE0F}';
    let after_ascii = match prev {
        Some(p) => p <= '\u{7F}',
        None => true,
    };
    c.is_control() || (c.is_whitespace() && c != ' ') || (selector && after_ascii) || c == '\u{00AD}'
        || c == '\u{034F}' || c == '\u{061C}' || c == '\u{115F}' || c == '\u{1160}' || c == '\u{17B4}'
        || c == '\u{17B5}' || ('\u{180B}' <= c && c <= '\u{180F}') || ('\u{200B}' <= c && c
        <= '\u{200F}') || ('\u{202A}' <= c && c <= '\u{202E}') || ('\u{2060}' <= c && c <= '\u{2064}')
        || ('\u{2066}' <= c && c <= '\u{206F}') || c == '\u{3164}' || c == '\u{FEFF}' || c == '\u{FFA0}'
}

/// Push `c` onto `out`, or its `\u{…}` escape if it would not show. A
/// variation selector is kept after anything but ASCII — emoji use them — and
/// escaped after ASCII, where it changes nothing on screen.
pub fn push_visible(out: &mut String, c: char, prev: Option<char>)
    ensures
        final(out)@ == old(out)@ + shown(c, prev),
{
    let ghost start = out@;
    if hidden(c, prev) {
        out.push('\\');
        out.push('u');
        out.push('{');
        let code: u32 = c as u32;
        let hex = number::digits_text(code as u64, 16);
        out.append(hex.as_str());
        out.push('}');
        assert(out@ =~= start + escaped(c));
    } else {
        out.push(c);
        assert(out@ =~= start + seq![c]);
    }
}

fn name_chars_shown(cs: &[char]) -> (r: String)
    ensures
        r@ == name_shown(cs@),
{
    let mut out = String::new();
    let mut i: usize = 0;
    while i < cs.len()
        invariant
            i <= cs.len(),
            out@ =~= name_marks(cs@, i as int),
        decreases cs.len() - i,
    {
        let c = cs[i];
        if c == ' ' {
            let edge = i == 0 || i + 1 == cs.len();
            let run = (i > 0 && cs[i - 1] == ' ') || (i + 1 < cs.len() && cs[i + 1] == ' ');
            out.push(if edge || run { '·' } else { ' ' });
        } else {
            let prev = if i > 0 { Some(cs[i - 1]) } else { None };
            push_visible(&mut out, c, prev);
        }
        i += 1;
    }
    out
}

/// A remote name as the file browser and its confirmations show it: exactly,
/// with what would not show made visible. A space at either end, or next to
/// another space, reads "·", and any other whitespace, control or invisible
/// formatting character is written as its `\u{…}` escape. A name holding none
/// of these comes back unchanged.
pub fn visible_name(name: &str) -> (r: String)
    ensures
        r@ == name_shown(name@),
{
    let cs = text::chars_of(name);
    name_chars_shown(cs.as_slice())
}

/// A remote path with each component shown as [`visible_name`] shows it.
pub fn visible_path(path: &str) -> (r: String)
    ensures
        r@ == path_shown(path@),
{
    let cs = text::chars_of(path);
    let slash: Vec<char> = vec!['/'];
    assert(slash@ =~= seq!['/']);
    let parts = split::split_chars(cs.as_slice(), slash.as_slice());
    let mut shown_parts: Vec<String> = Vec::new();
    let ghost want = split::pieces(parts@).map_values(|p: Seq<char>| name_shown(p));
    let mut i: usize = 0;
    while i < parts.len()
        invariant
            i <= parts.len(),
            want == split::pieces(parts@).map_values(|p: Seq<char>| name_shown(p)),
            split::texts(shown_parts@) =~= want.take(i as int),
        decreases parts.len() - i,
    {
        let ghost done = shown_parts@;
        let part = name_chars_shown(parts[i]);
        shown_parts.push(part);
        assert(want[i as int] == name_shown(split::pieces(parts@)[i as int]));
        assert(split::texts(shown_parts@) =~= split::texts(done).push(part@));
        i += 1;
    }
    assert(want.take(i as int) =~= want);
    let sep = text::string_of(slash.as_slice());
    split::join_texts(&shown_parts, sep.as_str())
}

/// `s` with every character that would not show written as its escape, as
/// [`visible_name`] does, but spaces left alone: for a command line.
pub fn visible_text(s: &str) -> (r: String)
    ensures
        r@ == text_shown(s@),
{
    let cs = text::chars_of(s);
    let mut out = String::new();
    let mut i: usize = 0;
    while i < cs.len()
        invariant
            i <= cs.len(),
            out@ =~= text_marks(cs@, i as int),
        decreases cs.len() - i,
    {
        let prev = if i > 0 { Some(cs[i - 1]) } else { None };
        push_visible(&mut out, cs[i], prev);
        i += 1;
    }
    out
}

/// A name that holds nothing hidden, and no space at an end or beside another,
/// is shown exactly as it is.
pub proof fn law_plain_name_unchanged(s: Seq<char>)
    requires
        forall|i: int|
            0 <= i < s.len() ==> (if #[trigger] s[i] == ' ' {
                !is_lost_space(s, i)
            } else {
                !is_hidden(s[i], before(s, i))
            }),
    ensures
        name_shown(s) == s,
{
    lemma_plain_marks(s, s.len() as int);
    assert(s.take(s.len() as int) =~= s);
}

proof fn lemma_plain_marks(s: Seq<char>, n: int)
    requires
        0 <= n <= s.len(),
        forall|i: int|
            0 <= i < s.len() ==> (if #[trigger] s[i] == ' ' {
                !is_lost_space(s, i)
            } else {
                !is_hidden(s[i], before(s, i))
            }),
    ensures
        name_marks(s, n) == s.take(n),
    decreases n,
{
    if n > 0 {
        lemma_plain_marks(s, n - 1);
        assert(name_mark(s, n - 1) =~= seq![s[n - 1]]);
        assert(s.take(n) =~= s.take(n - 1) + seq![s[n - 1]]);
    } else {
        assert(s.take(0) =~= Seq::<char>::empty());
    }
}

/// Nothing that is shown is a control character, or whitespace other than a
/// space: whatever the name held, the reader sees all of it.
pub proof fn law_shown_name_shows(s: Seq<char>, k: int)
    requires
        0 <= k < name_shown(s).len(),
    ensures
        !text::is_ctrl(name_shown(s)[k]),
        text::is_white(name_shown(s)[k]) ==> name_shown(s)[k] == ' ',
        !is_formatting(name_shown(s)[k]),
{
    lemma_marks_show(s, s.len() as int, k);
}

proof fn lemma_marks_show(s: Seq<char>, n: int, k: int)
    requires
        0 <= n <= s.len(),
        0 <= k < name_marks(s, n).len(),
    ensures
        !text::is_ctrl(name_marks(s, n)[k]),
        text::is_white(name_marks(s, n)[k]) ==> name_marks(s, n)[k] == ' ',
        !is_formatting(name_marks(s, n)[k]),
    decreases n,
{
    if n > 0 {
        let head = name_marks(s, n - 1);
        if k < head.len() {
            lemma_marks_show(s, n - 1, k);
        } else {
            let c = s[n - 1];
            number::lemma_digits_read_back(c as nat, 16);
            let hex = number::digits(c as nat, 16);
            let mark = name_mark(s, n - 1);
            let j = k - head.len();
            assert(mark[j] == name_marks(s, n)[k]);
            if is_hidden(c, before(s, n - 1)) && c != ' ' {
                if 3 <= j < 3 + hex.len() {
                    assert(mark[j] == hex[j - 3]);
                    assert(number::is_digit_of(hex[j - 3], 16));
                }
            }
        }
    }
}

/// A name never ends or starts with a space once it is shown: a mark stands
/// where one was.
pub proof fn law_edge_spaces_are_marked(s: Seq<char>)
    requires
        s.len() > 0,
    ensures
        name_shown(s).len() > 0,
        name_shown(s)[0] != ' ',
        name_shown(s).last() != ' ',
        s.last() == ' ' ==> name_shown(s).last() == '·',
        s[0] == ' ' ==> name_shown(s)[0] == '·',
{
    let n = s.len() as int;
    lemma_first_mark(s, n);
    assert(name_marks(s, n) == name_marks(s, n - 1) + name_mark(s, n - 1));
    assert(name_mark(s, n - 1).len() > 0);
    assert(name_shown(s).last() == name_mark(s, n - 1).last());
    let c = s[n - 1];
    if c != ' ' && is_hidden(c, before(s, n - 1)) {
        assert(escaped(c).last() == '}');
    }
}

proof fn lemma_first_mark(s: Seq<char>, n: int)
    requires
        0 < n <= s.len(),
    ensures
        name_mark(s, 0).len() > 0,
        name_marks(s, n).len() > 0,
        name_marks(s, n)[0] == name_mark(s, 0)[0],
        name_marks(s, n)[0] != ' ',
        s[0] == ' ' ==> name_marks(s, n)[0] == '·',
    decreases n,
{
    if n == 1 {
        assert(name_marks(s, 0) =~= Seq::<char>::empty());
        assert(name_marks(s, 1) =~= name_mark(s, 0));
        if s[0] != ' ' && is_hidden(s[0], None) {
            assert(escaped(s[0])[0] == '\\');
        }
    } else {
        lemma_first_mark(s, n - 1);
    }
}

// ---- sizes -----------------------------------------------------------------------------

/// `n / d` rounded to the nearest whole number; of two as near, to the even one.
pub open spec fn round_div(n: nat, d: nat) -> nat
    recommends
        d > 0,
{
    let q = n / d;
    let r = n % d;
    if 2 * r > d || (2 * r == d && q % 2 == 1) {
        q + 1
    } else {
        q
    }
}

/// The step between numbers of double precision around `n`, for the steps
/// from `p` on that double each time.
pub open spec fn spacing(n: nat, p: nat) -> nat
    decreases n / p,
    when p > 0
{
    if n / p < 0x20_0000_0000_0000 {
        p
    } else {
        proof {
            assert(n / (2 * p) < n / p) by (nonlinear_arith)
                requires
                    p > 0,
                    n / p >= 0x20_0000_0000_0000,
            ;
        }
        spacing(n, 2 * p)
    }
}

/// `n` in double precision.
pub open spec fn as_double(n: nat) -> nat {
    round_div(n, spacing(n, 1)) * spacing(n, 1)
}

/// `n` over `unit` with one decimal place, worked out in double precision.
pub open spec fn one_decimal(n: nat, unit: nat) -> Seq<char> {
    let tenths = round_div(10 * as_double(n), unit);
    number::decimal(tenths / 10) + seq!['.'] + number::decimal(tenths % 10)
}

pub open spec fn kib() -> nat {
    1024
}

pub open spec fn mib() -> nat {
    1_048_576
}

pub open spec fn gib() -> nat {
    1_073_741_824
}

pub open spec fn tib() -> nat {
    1_099_511_627_776
}

/// A number of bytes in words.
pub open spec fn bytes_in_words(n: nat) -> Seq<char> {
    if n > gib() {
        one_decimal(n, gib()) + " GB"@
    } else if n > mib() {
        one_decimal(n, mib()) + " MB"@
    } else if n > kib() {
        one_decimal(n, kib()) + " KB"@
    } else {
        number::decimal(n) + " B"@
    }
}

/// A file size in words.
pub open spec fn size_in_words(n: nat) -> Seq<char> {
    if n >= tib() {
        one_decimal(n, tib()) + " TB"@
    } else if n >= gib() {
        one_decimal(n, gib()) + " GB"@
    } else if n >= mib() {
        one_decimal(n, mib()) + " MB"@
    } else if n >= kib() {
        one_decimal(n, kib()) + " KB"@
    } else {
        number::decimal(n) + " B"@
    }
}

fn rounded_div(n: u128, d: u128) -> (r: u128)
    requires
        0 < d <= 0x1000_0000_0000_0000_0000,
        n <= 0x1000_0000_0000_0000_0000_0000,
    ensures
        r == round_div(n as nat, d as nat),
        r <= n + 1,
{
    let q: u128 = n / d;
    let m: u128 = n % d;
    assert(q <= n && m < d) by (nonlinear_arith)
        requires
            q == n / d,
            m == n % d,
            d > 0,
    ;
    if 2 * m > d || (2 * m == d && q % 2 == 1) {
        q + 1
    } else {
        q
    }
}

/// `n` in double precision.
fn double_of(n: u64) -> (r: u128)
    ensures
        r == as_double(n as nat),
        r <= 0x2_0000_0000_0000_0000,
{
    let mut p: u64 = 1;
    assert(n as nat / 1 == n as nat);
    while n / p >= 0x20_0000_0000_0000
        invariant
            1 <= p,
            p == 1 || n / p >= 0x10_0000_0000_0000,
            spacing(n as nat, 1) == spacing(n as nat, p as nat),
        decreases n / p,
    {
        assert(p <= 0x800) by (nonlinear_arith)
            requires
                n / p >= 0x20_0000_0000_0000,
                p >= 1,
                n <= u64::MAX,
        ;
        assert(n / ((2 * p) as u64) < n / p && n / ((2 * p) as u64) >= 0x10_0000_0000_0000)
            by (nonlinear_arith)
            requires
                n / p >= 0x20_0000_0000_0000,
                1 <= p <= 0x800,
        ;
        p = 2 * p;
    }
    let k: u128 = rounded_div(n as u128, p as u128);
    proof {
        let q = n as int / p as int;
        assert(k <= q + 1);
        assert(q * p <= n) by (nonlinear_arith)
            requires
                q == n as int / p as int,
                p >= 1,
        ;
        assert(p <= 0x1000) by (nonlinear_arith)
            requires
                p == 1 || n / p >= 0x10_0000_0000_0000,
                p >= 1,
                n <= u64::MAX,
        ;
        assert(k * p <= q * p + p) by (nonlinear_arith)
            requires
                k <= q + 1,
                p >= 1,
        ;
    }
    k * p as u128
}

fn push_one_decimal(n: u64, unit: u64) -> (s: String)
    requires
        1024 <= unit,
    ensures
        s@ == one_decimal(n as nat, unit as nat),
{
    let d: u128 = double_of(n);
    let tenths: u128 = rounded_div(10 * d, unit as u128);
    proof {
        let q = (10 * d) as int / unit as int;
        assert(tenths <= q + 1);
        assert(q <= (10 * d) / 1024) by (nonlinear_arith)
            requires
                q == (10 * d) as int / unit as int,
                unit >= 1024,
        ;
    }
    let whole: u64 = (tenths / 10) as u64;
    let part: u64 = (tenths % 10) as u64;
    let mut s = number::decimal_text(whole);
    s.push('.');
    let frac = number::decimal_text(part);
    s.append(frac.as_str());
    assert(s@ =~= one_decimal(n as nat, unit as nat));
    s
}

/// A number of bytes in GB, MB, KB or B, one decimal place where it is a
/// fraction.
pub fn format_bytes(bytes: u64) -> (s: String)
    ensures
        s@ == bytes_in_words(bytes as nat),
{
    if bytes > 1_073_741_824 {
        push_one_decimal(bytes, 1_073_741_824).concat(" GB")
    } else if bytes > 1_048_576 {
        push_one_decimal(bytes, 1_048_576).concat(" MB")
    } else if bytes > 1024 {
        push_one_decimal(bytes, 1024).concat(" KB")
    } else {
        number::decimal_text(bytes).concat(" B")
    }
}

/// A size as `ls` prints it, in bytes, in TB, GB, MB, KB or B. Anything that
/// is not a number is left as it is.
pub fn humanize_file_size(size_str: &str) -> (s: String)
    ensures
        s@ == (match number::parse_unsigned(text::trim(size_str@), u64::MAX as nat) {
            Some(n) => size_in_words(n),
            None => size_str@,
        }),
{
    let cs = text::chars_of(size_str);
    match number::parse_unsigned_chars(text::trim_chars(cs.as_slice()), 18_446_744_073_709_551_615) {
        Some(bytes) => {
            if bytes >= 1_099_511_627_776 {
                push_one_decimal(bytes, 1_099_511_627_776).concat(" TB")
            } else if bytes >= 1_073_741_824 {
                push_one_decimal(bytes, 1_073_741_824).concat(" GB")
            } else if bytes >= 1_048_576 {
                push_one_decimal(bytes, 1_048_576).concat(" MB")
            } else if bytes >= 1024 {
                push_one_decimal(bytes, 1024).concat(" KB")
            } else {
                number::decimal_text(bytes).concat(" B")
            }
        },
        None => text::string_of(cs.as_slice()),
    }
}

} // verus!
