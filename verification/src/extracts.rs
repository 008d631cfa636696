//! What is taken out of a screen, a log, a table or a name that is too long.

use vstd::prelude::*;
use vstd::string::*;

use crate::common;
use crate::connections::ConnectionInfo;
use crate::display;
use crate::grid;
use crate::grid::Cell;
use crate::grid::CellStyle;
use crate::grid::Rgb;
use crate::grid::SearchMatch;
use crate::grid::TerminalGrid;
use crate::groups;
use crate::lettercase;
use crate::logs;
use crate::number;
use crate::order;
use crate::order::Rank;
use crate::paint;
use crate::paint::Drawn;
use crate::palette;
use crate::ports::ByColumn;
use crate::ports::PortInfo;
use crate::ports::PortSort;
use crate::processes;
use crate::processes::ProcIdentity;
use crate::readings;
use crate::split;
use crate::text;

verus! {

// ---- the screen ------------------------------------------------------------------------------------------------

/// The prompt that counts is the lowest line on screen that holds text, however many blank
/// ones stand below it.
pub proof fn law_the_lowest_line_with_text_counts(cells: Seq<Vec<Cell>>, n: int, y: int)
    requires
        0 <= y < n,
        grid::has_text(cells, y),
        forall|k: int| y < k < n ==> !#[trigger] grid::has_text(cells, k),
    ensures
        grid::last_text_row(cells, n) == Some(y),
    decreases n,
{
    if y < n - 1 {
        assert(!grid::has_text(cells, n - 1));
        law_the_lowest_line_with_text_counts(cells, n - 1, y);
    }
}

/// A name that can be printed, in one word and without the asterisk that ZMODEM starts with.
pub open spec fn is_plain_name(name: Seq<char>) -> bool {
    name.len() > 1 && forall|i: int| 0 <= i < name.len() ==> '!' <= #[trigger] name[i] <= '~' && name[i] != '*'
}

proof fn lemma_plain_name(name: Seq<char>)
    requires
        is_plain_name(name),
    ensures
        text::trim(name) == name,
        forall|i: int| 0 <= i < name.len() ==> !text::is_white(#[trigger] name[i]),
{
    assert(!text::is_white(name[0]));
    assert(!text::is_white(name[name.len() - 1]));
    assert(name.last() == name[name.len() - 1]);
}

proof fn lemma_name_part(name: Seq<char>)
    requires
        forall|i: int| 0 <= i < name.len() ==> '!' <= #[trigger] name[i] <= '~' && name[i] != '*',
    ensures
        grid::sz_name_part(name) == name,
        grid::up_to_garbage(name) == name,
    decreases name.len(),
{
    if name.len() > 0 {
        let less = name.drop_first();
        assert forall|i: int| 0 <= i < less.len() implies '!' <= #[trigger] less[i] <= '~' && less[i] != '*' by {
            assert(less[i] == name[i + 1]);
        }
        lemma_name_part(less);
        assert(seq![name[0]] + less =~= name);
    } else {
        assert(grid::sz_name_part(name) =~= name);
        assert(grid::up_to_garbage(name) =~= name);
    }
}

/// The `sz ` of a line whose name is one word is the last that is found.
proof fn lemma_last_sz(prompt: Seq<char>, name: Seq<char>)
    requires
        is_plain_name(name),
    ensures
        text::rfind(prompt + "sz "@ + name, "sz "@) == Some(prompt.len() as int),
        (prompt + "sz "@ + name).skip(prompt.len() as int + 3) == name,
{
    reveal_strlit("sz ");
    let pat = "sz "@;
    let s = prompt + pat + name;
    let n = prompt.len() as int;
    assert(s.skip(n + 3) =~= name);
    assert forall|j: int| n < j <= s.len() implies !text::occurs_at(s, pat, j) by {
        if text::occurs_at(s, pat, j) {
            assert(s.subrange(j, j + 3)[2] == s[j + 2]);
            assert(s[j + 2] == name[j + 2 - n - 3]);
        }
    }
    assert(s.subrange(n, n + 3) =~= pat);
    assert(text::occurs_at(s, pat, n));
    text::lemma_rfind(s, pat, s.len() as int);
}

/// A line on screen that ends in `sz` and a name asks for that name, whatever prompt stands
/// before it.
pub proof fn law_a_command_on_screen_names_its_file(prompt: Seq<char>, name: Seq<char>)
    requires
        is_plain_name(name),
    ensures
        grid::sz_on_line(prompt + "sz "@ + name) == Some(name),
{
    lemma_last_sz(prompt, name);
    lemma_plain_name(name);
    lemma_name_part(name);
}

/// So does a line of output.
pub proof fn law_a_command_in_the_output_names_its_file(prompt: Seq<char>, name: Seq<char>)
    requires
        is_plain_name(name),
        text::trim(prompt + "sz "@ + name) == prompt + "sz "@ + name,
    ensures
        grid::sz_in_output(prompt + "sz "@ + name) == Some(name),
{
    lemma_last_sz(prompt, name);
    lemma_plain_name(name);
    lemma_name_part(name);
}

/// Of several lines that name a file the first counts.
pub proof fn law_the_first_command_counts(lines: Seq<Seq<char>>, k: int)
    requires
        0 <= k < lines.len(),
        grid::sz_in_output(lines[k]) is Some,
        forall|j: int| 0 <= j < k ==> grid::sz_in_output(#[trigger] lines[j]) is None,
    ensures
        grid::first_sz(lines) == grid::sz_in_output(lines[k]),
    decreases lines.len(),
{
    if k > 0 {
        let rest = lines.drop_first();
        assert(rest[k - 1] == lines[k]);
        assert forall|j: int| 0 <= j < k - 1 implies grid::sz_in_output(#[trigger] rest[j]) is None by {
            assert(rest[j] == lines[j + 1]);
        }
        assert(grid::sz_in_output(lines[0]) is None);
        law_the_first_command_counts(rest, k - 1);
    }
}

/// What is typed where a password is asked for does not count as echoed, whatever the screen
/// shows.
pub proof fn law_nothing_is_echoed_at_a_password_prompt(g: TerminalGrid, cmd: Seq<char>, a: Seq<char>, b: Seq<char>)
    requires
        g.cells@.len() > 0,
        lettercase::lower_text(grid::line_text(g.cells@[grid::cursor_row(g)]@)) == a + "password"@ + b
            || lettercase::lower_text(grid::line_text(g.cells@[grid::cursor_row(g)]@)) == a + "passphrase"@ + b,
    ensures
        !grid::echoed(g, cmd),
{
    let n = a.len() as int;
    let p = a + "password"@ + b;
    let q = a + "passphrase"@ + b;
    assert(p.subrange(n, n + "password"@.len()) =~= "password"@);
    assert(q.subrange(n, n + "passphrase"@.len()) =~= "passphrase"@);
    assert(text::occurs_at(p, "password"@, n));
    assert(text::occurs_at(q, "passphrase"@, n));
}

/// A command that stands in the cursor's own row, where no secret is asked for, was echoed.
pub proof fn law_a_command_in_the_cursor_row_was_echoed(g: TerminalGrid, cmd: Seq<char>, a: Seq<char>, b: Seq<char>)
    requires
        g.cells@.len() > 0,
        grid::line_text(g.cells@[grid::cursor_row(g)]@) == a + cmd + b,
        !grid::asks_for_secret(lettercase::lower_text(grid::line_text(g.cells@[grid::cursor_row(g)]@))),
    ensures
        grid::echoed(g, cmd),
{
    let y = grid::cursor_row(g);
    let lo = if y < 2 {
        0
    } else {
        y - 2
    };
    let all = grid::joined_rows(g.cells@, lo, y + 1);
    let above = grid::joined_rows(g.cells@, lo, y);
    let part = cmd.take(grid::at_most(6, cmd.len() as int));
    assert(all == above + (a + cmd + b));
    let at = above.len() + a.len() as int;
    assert(all.subrange(at, at + part.len()) =~= part);
    assert(text::occurs_at(all, part, at));
}

// ---- what is drawn ---------------------------------------------------------------------------------------------

/// A hit of the search is lit where it stands, in the row of its line, and only while that row
/// is on screen.
pub proof fn law_a_hit_is_lit_while_it_is_on_screen(m: SearchMatch, current: bool, top: int, rows: int)
    requires
        m.col_start < m.col_end,
    ensures
        top <= m.abs_line < top + rows ==> paint::hit_drawn(m, current, top, rows) == seq![
            Drawn::Found {
                x: m.col_start as int,
                y: m.abs_line - top,
                cols: m.col_end - m.col_start,
                current,
            },
        ],
        m.abs_line < top || m.abs_line >= top + rows ==> paint::hit_drawn(m, current, top, rows).len() == 0,
{
}

/// Inverse video swaps the two colours of a cell: it is filled with what its glyph had, and its
/// glyph has what it was filled with, which on a bare cell is the colour of the terminal.
pub proof fn law_inverse_swaps_the_colours(style: CellStyle, fg: Rgb, bg: Rgb)
    requires
        !style.inverse,
    ensures
        ({
            let plain = paint::painted(style, fg, bg);
            let swapped = paint::painted(CellStyle { inverse: true, ..style }, fg, bg);
            &&& swapped.0 == Some(plain.1)
            &&& plain.0 matches Some(c) ==> swapped.1 == c
            &&& plain.0 is None ==> swapped.1 == bg
            &&& style.fg matches Some(c) ==> plain.1 == c
            &&& style.fg is None ==> plain.1 == fg
            &&& plain.0 == style.bg
        }),
{
}

/// The note that the view is scrolled back says by how many lines, and is there only while it
/// is; it takes a column for each of its characters, and two more for its arrow.
pub proof fn law_a_scrolled_view_says_so(g: TerminalGrid)
    ensures
        g.scroll_offset == 0 ==> paint::scrolled_drawn(g).len() == 0,
        g.scroll_offset > 0 ==> paint::scrolled_drawn(g).len() == 1 && (
        paint::scrolled_drawn(g)[0] matches Drawn::Scrolled { label, cols } && cols == label.len() + 2
            && text::contains(label, number::decimal(g.scroll_offset as nat))),
{
    if g.scroll_offset > 0 {
        let label = paint::scrolled_label(g.scroll_offset as nat);
        let d = number::decimal(g.scroll_offset as nat);
        let tail = d + " lines"@;
        assert(label =~= seq!['\u{2191}', ' '] + tail);
        assert(label.subrange(2, 2 + d.len() as int) =~= d);
        assert(text::occurs_at(label, d, 2));
    }
}

/// The error dialog is titled by what it is about: the title that was set for its very message,
/// and the plain one for any other.
pub proof fn law_an_error_is_titled_by_its_message(print: u64, other: u64, key: &'static str)
    requires
        other != print,
    ensures
        common::title_over(Some((print, key)), print) == key@,
        common::title_over(Some((print, key)), other) == "err.title"@,
        common::title_over(None, print) == "err.title"@,
{
}

/// A group is called by its name, and connections without one by the words for that.
pub proof fn law_a_group_is_called_by_its_name(key: Seq<char>, texts: crate::catalog::Catalog)
    ensures
        key.len() > 0 ==> groups::label_of(key, texts) == key,
        groups::label_of(Seq::empty(), texts) == texts.says("sidebar.ungrouped"@),
{
}

/// A connection is found at its place in the list.
pub proof fn law_a_connection_is_found_at_its_place(list: Seq<&ConnectionInfo>, i: int)
    requires
        0 <= i < list.len(),
        forall|j: int| i < j < list.len() ==> (#[trigger] list[j]).id@ != list[i].id@,
    ensures
        palette::place_of(list, list[i].id@) == i,
    decreases list.len(),
{
    if i < list.len() - 1 {
        let less = list.drop_last();
        assert(list.last().id@ != list[i].id@);
        assert forall|j: int| i < j < less.len() implies (#[trigger] less[j]).id@ != less[i].id@ by {
            assert(less[j] == list[j]);
        }
        law_a_connection_is_found_at_its_place(less, i);
    }
}

// ---- names that are too long -----------------------------------------------------------------------------------

/// A text that is clipped keeps its start, character by character, and ends in an ellipsis.
pub proof fn law_a_clipped_text_keeps_its_start(s: Seq<char>, widths: Seq<usize>, max: int, i: int)
    requires
        widths.len() == s.len(),
        max > 0,
        display::columns(widths, 0, widths.len() as int) > max,
        0 <= i < display::clipped(s, widths, max).len() - 1,
    ensures
        display::clipped(s, widths, max)[i] == s[i],
        display::clipped(s, widths, max).last() == '…',
{
    display::law_clip_fits(widths, max);
}

/// A name that is cut in its middle keeps its start and its end: what stands before the
/// ellipsis is how it starts, and what stands behind it is how it ends.
pub proof fn law_a_cut_name_keeps_both_ends(s: Seq<char>, widths: Seq<usize>, max: int) -> (cut: int)
    requires
        widths.len() == s.len(),
        max > 0,
        display::columns(widths, 0, widths.len() as int) > max,
    ensures
        0 <= cut < display::middle_cut(s, widths, max).len() <= s.len() + 1,
        display::middle_cut(s, widths, max)[cut] == '…',
        display::middle_cut(s, widths, max).take(cut) == s.take(cut),
        ({
            let tail = display::middle_cut(s, widths, max).skip(cut + 1);
            tail == s.skip(s.len() - tail.len())
        }),
{
    display::law_middle_cut_fits(widths, max);
    let h = display::head_end(widths, max);
    let t = display::tail_start(widths, max);
    let r = display::middle_cut(s, widths, max);
    assert(r == s.take(h).push('…') + s.skip(t));
    assert(r.take(h) =~= s.take(h));
    assert(r.skip(h + 1) =~= s.skip(t));
    assert(r.skip(h + 1).len() == s.len() - t);
    h
}

// ---- the log ---------------------------------------------------------------------------------------------------

/// A log that fits is shown whole; of one that does not the end is shown, as it stands, below
/// a line of its own.
pub proof fn law_the_end_of_the_log_is_shown(s: Seq<char>, texts: crate::catalog::Catalog) -> (from: int)
    ensures
        logs::bytes_of(s) <= 204_800 ==> logs::log_shown(s, texts) == s,
        logs::bytes_of(s) > 204_800 ==> 0 < from <= s.len() && exists|note: Seq<char>|
            logs::log_shown(s, texts) == #[trigger] (note + s.skip(from)),
{
    if logs::bytes_of(s) > 204_800 {
        logs::law_the_shown_log_fits(s);
        let at = logs::shown_from(s);
        let note = texts.says_with(
            "log.truncated"@,
            "kb"@,
            number::decimal(((logs::bytes_of(s) - logs::bytes_of(s.take(at))) / 1024) as nat),
        ) + "\n"@;
        assert(logs::log_shown(s, texts) == note + s.skip(at));
        at
    } else {
        0
    }
}

/// Plain text takes a byte for each of its characters.
pub proof fn law_plain_text_takes_a_byte_each(s: Seq<char>)
    requires
        lettercase::is_ascii(s),
    ensures
        logs::bytes_of(s) == s.len(),
    decreases s.len(),
{
    if s.len() > 0 {
        let less = s.drop_last();
        assert forall|i: int| 0 <= i < less.len() implies #[trigger] less[i] <= '\u{7F}' by {
            assert(less[i] == s[i]);
        }
        law_plain_text_takes_a_byte_each(less);
        assert(s[s.len() - 1] <= '\u{7F}');
        lemma_one_byte(s.last());
    }
}

proof fn lemma_one_byte(c: char)
    requires
        c <= '\u{7F}',
    ensures
        logs::char_bytes(c) == 1,
{
}

// ---- the table of ports ----------------------------------------------------------------------------------------

/// Rows stand by the column that they are sorted by: ports and pids by number, with rows that
/// have no pid first, and the rest by their texts; downwards it is the other way round.
pub proof fn law_rows_stand_by_their_column(a: PortInfo, b: PortInfo, key: PortSort)
    ensures
        key is Port && a.port < b.port ==> (ByColumn { key, desc: false }).le(a, b) && !(ByColumn {
            key,
            desc: false,
        }).le(b, a) && (ByColumn { key, desc: true }).le(b, a) && !(ByColumn { key, desc: true }).le(a, b),
        key is Pid && a.pid is None && b.pid is Some ==> (ByColumn { key, desc: false }).le(a, b) && !(ByColumn {
            key,
            desc: false,
        }).le(b, a),
        key is Pid && a.pid is Some && b.pid is Some && a.pid->0 < b.pid->0 ==> (ByColumn { key, desc: false }).le(
            a,
            b,
        ) && !(ByColumn { key, desc: false }).le(b, a) && (ByColumn { key, desc: true }).le(b, a),
        key is Proto && a.proto@ != b.proto@ ==> ((ByColumn { key, desc: false }).le(a, b) <==> order::text_le(
            a.proto@,
            b.proto@,
        )),
        key is Addr && a.local_addr@ != b.local_addr@ ==> ((ByColumn { key, desc: false }).le(a, b)
            <==> order::text_le(a.local_addr@, b.local_addr@)),
        key is Process && lettercase::lower_each(a.process@) != lettercase::lower_each(b.process@) ==> ((ByColumn {
            key,
            desc: false,
        }).le(a, b) <==> order::text_le(lettercase::lower_each(a.process@), lettercase::lower_each(b.process@))),
{
}

// ---- a process without /proc -----------------------------------------------------------------------------------

proof fn lemma_joined_words(list: Seq<Seq<char>>, n: nat)
    requires
        readings::are_words(list),
        n < list.len(),
    ensures
        processes::behind_words(split::join(list, seq![' ']), n) == split::join(list.skip(n as int), seq![' ']),
        processes::word_at(split::join(list, seq![' ']), n) == list[n as int],
    decreases n,
{
    let s = split::join(list, seq![' ']);
    let rest = list.skip(n as int);
    lemma_join_start(rest);
    if n == 0 {
        assert(rest =~= list);
        assert(text::trim_start(s) == s);
    } else {
        lemma_joined_words(list, (n - 1) as nat);
        let prev = list.skip(n - 1);
        let line = split::join(prev, seq![' ']);
        assert(prev =~= seq![list[n - 1]] + rest);
        split::lemma_join_cons(list[n - 1], rest, seq![' ']);
        lemma_join_start(prev);
        assert(prev[0] == list[n - 1]);
        let more = line.skip(list[n - 1].len() as int);
        let tail = split::join(rest, seq![' ']);
        assert(more =~= seq![' '] + tail);
        assert(more[0] == ' ');
        assert(more.drop_first() =~= tail);
        assert(text::trim_start(more) == text::trim_start(tail));
        assert(text::trim_start(tail) == tail);
    }
    assert(rest[0] == list[n as int]);
}

/// Joined words start with the first of them, and so with no whitespace.
proof fn lemma_join_start(list: Seq<Seq<char>>)
    requires
        list.len() > 0,
        forall|k: int| 0 <= k < list.len() ==> readings::is_word(#[trigger] list[k]),
    ensures
        split::join(list, seq![' ']).len() > 0,
        !text::is_white(split::join(list, seq![' '])[0]),
        split::word(split::join(list, seq![' '])) == list[0],
{
    let s = split::join(list, seq![' ']);
    let w = list[0];
    assert(readings::is_word(w));
    if list.len() == 1 {
        assert(s == w);
    } else {
        let rest = list.drop_first();
        assert(list =~= seq![w] + rest);
        split::lemma_join_cons(w, rest, seq![' ']);
        assert(s[w.len() as int] == ' ');
    }
    assert(s.take(w.len() as int) =~= w);
    assert(s[0] == w[0]);
    split::lemma_word(s);
    let v = split::word(s);
    if v.len() < w.len() {
        assert(s[v.len() as int] == w[v.len() as int]);
        assert(false);
    }
    assert(v.len() == w.len());
    assert(v =~= w);
}

/// Joined words hold no line feed and end in no whitespace.
proof fn lemma_join_plain(list: Seq<Seq<char>>)
    requires
        readings::are_words(list),
        list.len() > 0,
    ensures
        !text::is_white(split::join(list, seq![' ']).last()),
        split::join(list, seq![' ']).len() > 0,
        forall|i: int| 0 <= i < split::join(list, seq![' ']).len() ==> (#[trigger] split::join(list, seq![' '])[i]) != '\n',
    decreases list.len(),
{
    let s = split::join(list, seq![' ']);
    let w = list.last();
    assert(readings::is_word(list[list.len() - 1]));
    if list.len() == 1 {
        assert(s == w);
    } else {
        let less = list.drop_last();
        assert forall|k: int| 0 <= k < less.len() implies readings::is_word(#[trigger] less[k]) by {
            assert(less[k] == list[k]);
        }
        lemma_join_plain(less);
        let t = split::join(less, seq![' ']);
        assert(s == t + seq![' '] + w);
        assert forall|i: int| 0 <= i < s.len() implies (#[trigger] s[i]) != '\n' by {
            if i < t.len() {
                assert(s[i] == t[i]);
            } else if i > t.len() {
                assert(s[i] == w[i - t.len() - 1]);
            }
        }
        assert(s.last() == w.last());
    }
}

/// Where there is no /proc a process is known by the five words of its start and by its
/// command line, whose first word is its name.
pub proof fn law_a_process_is_known_by_its_start(list: Seq<Seq<char>>, r: Option<ProcIdentity>)
    requires
        readings::are_words(list),
        list.len() >= 6,
        number::all_digits(list[4], 10),
        list[3].contains(':'),
        processes::is_ps_identity(r, split::join(list, seq![' '])),
    ensures
        r is Some,
        r->0.start_time@ == split::join(list.take(5), seq![' ']),
        r->0.comm@ == list[5],
        r->0.cmdline@ == split::join(list.skip(5), seq![' ']),
{
    let s = split::join(list, seq![' ']);
    reveal_strlit(" ");
    assert(" "@ =~= seq![' ']);
    lemma_only_line(list);
    lemma_reads_like_ps(list);
    lemma_joined_words(list, 5);
    lemma_command_line(list.skip(5), list);
    assert(list.skip(5)[0] == list[5]);
}

proof fn lemma_only_line(list: Seq<Seq<char>>)
    requires
        readings::are_words(list),
        list.len() > 0,
    ensures
        processes::first_line(split::lines(split::join(list, seq![' ']))) == Some(split::join(list, seq![' '])),
{
    let s = split::join(list, seq![' ']);
    lemma_join_plain(list);
    text::lemma_find(s, seq!['\n'], 0);
    if let Some(i) = text::find_char(s, '\n') {
        assert(s.subrange(i, i + 1)[0] == s[i]);
    }
    assert(split::lines(s) == seq![s]);
    lemma_join_start(list);
    let (a, b) = crate::wording::law_trimming_takes_only_the_ends(s);
    if text::trim(s).len() == 0 {
        assert(text::is_white(s[0]));
    }
    assert(split::lines(s)[0] == s);
}

proof fn lemma_reads_like_ps(list: Seq<Seq<char>>)
    requires
        readings::are_words(list),
        list.len() >= 6,
        number::all_digits(list[4], 10),
        list[3].contains(':'),
    ensures
        processes::is_ps_line(split::join(list, seq![' '])),
        processes::start_words(split::join(list, seq![' '])) == list.take(5),
{
    let s = split::join(list, seq![' ']);
    lemma_joined_words(list, 0);
    lemma_joined_words(list, 1);
    lemma_joined_words(list, 2);
    lemma_joined_words(list, 3);
    lemma_joined_words(list, 4);
    assert(readings::is_word(list[4]));
    let w = list[3];
    let c = w.index_of(':');
    assert(w.subrange(c, c + 1) =~= seq![':']);
    assert(text::occurs_at(w, seq![':'], c));
    assert(processes::start_words(s) =~= list.take(5));
}

proof fn lemma_command_line(rest: Seq<Seq<char>>, list: Seq<Seq<char>>)
    requires
        readings::are_words(list),
        list.len() >= 6,
        rest == list.skip(5),
    ensures
        text::trim_end(split::join(rest, seq![' '])) == split::join(rest, seq![' ']),
        split::words(split::join(rest, seq![' '])) == rest,
        rest.len() > 0,
{
    assert forall|k: int| 0 <= k < rest.len() implies readings::is_word(#[trigger] rest[k]) by {
        assert(rest[k] == list[k + 5]);
    }
    lemma_join_plain(rest);
    readings::law_words_read_back(rest);
}

} // verus!
