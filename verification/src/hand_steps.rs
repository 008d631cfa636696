//! What the pointer does to the app, and what opens and closes its panels.

use vstd::prelude::*;
use vstd::string::*;

use crate::common;
use crate::grid;
use crate::grid::Cell;
use crate::grid::TerminalGrid;
use crate::pointer;
use crate::state::Effect;
use crate::state::Env;
use crate::state::Message;
use crate::state::MouseButton;
use crate::state::MouseReport;
use crate::state::NeoShell;
use crate::state::Panels;
use crate::steps;
use crate::tab_steps;
use crate::tabs;
use crate::text;
use crate::updating;
use crate::updating::Area;
use crate::windows;

verus! {

// ---- the wheel -----------------------------------------------------------------------------------------

/// The wheel scrolls the focused terminal as far as it was turned and the way it was
/// turned, where no application reads the mouse; under an overlay it scrolls nothing.
pub proof fn law_the_wheel_scrolls_its_own_way(before: NeoShell, m: Message, env: Env, after: NeoShell, fx: Seq<Effect>)
    requires
        updating::updated(before, m, env, after, fx),
        m is TerminalScrollUp || m is TerminalScrollDown,
    ensures
        before.top() is Some ==> steps::asks_for(fx, Seq::empty()),
        before.top() is None && before.mouse_goes() is None && common::active_at(before.sessions) is Some
            ==> steps::asks_for(
            fx,
            seq![
                match m {
                    Message::TerminalScrollUp(n) => Effect::ScrollView(true, n),
                    Message::TerminalScrollDown(n) => Effect::ScrollView(false, n),
                    _ => Effect::Quit,
                },
            ],
        ),
        after.sessions == before.sessions,
{
    let (mid, first) = steps::lemma_handled(before, m, env, after, fx, Area::Mouse);
    reveal(pointer::mouse_step);
    lemma_same_top(before, m, env.now, 0);
    if first.len() == 0 {
        assert(first =~= Seq::empty());
    }
}

/// Taking note of a message opens and closes no overlay.
proof fn lemma_same_top(s: NeoShell, m: Message, now: u128, i: int)
    requires
        0 <= i,
    ensures
        updating::noted(s, m, now).top_from(i) == s.top_from(i),
    decreases 22 - i,
{
    if i < 22 {
        lemma_same_top(s, m, now, i + 1);
    }
}

/// An application that reads the mouse gets the wheel over its pane as its terminal
/// encodes it, while the view is not scrolled back.
pub proof fn law_the_application_gets_its_wheel(
    before: NeoShell,
    m: Message,
    env: Env,
    after: NeoShell,
    fx: Seq<Effect>,
    sid: Seq<char>,
    bytes: Vec<u8>,
)
    requires
        updating::updated(before, m, env, after, fx),
        m is TerminalScrollUp || m is TerminalScrollDown,
        before.top() is None,
        before.mouse_goes() == Some(sid),
        env.pointer.cell is Some,
        env.pointer.encoded == Some(bytes),
        common::focused_cells(before.sessions)->0.scroll_offset == 0,
    ensures
        fx.len() > 0,
        fx[0] matches Effect::SendQuietly(to, b) && to@ == sid && b@ == bytes@,
{
    let (mid, first) = steps::lemma_handled(before, m, env, after, fx, Area::Mouse);
    reveal(pointer::mouse_step);
    lemma_same_top(before, m, env.now, 0);
    if fx != first {
        assert(fx[0] == fx.drop_last()[0]);
    }
}

// ---- selecting ----------------------------------------------------------------------------------------

/// A press on the terminal starts a selection, with nothing selected yet.
pub proof fn law_a_press_starts_a_selection(before: NeoShell, env: Env, after: NeoShell, fx: Seq<Effect>)
    requires
        updating::updated(before, Message::TerminalMouseDown(MouseButton::Left), env, after, fx),
        before.top() is None,
        !before.mouse.dragging_splitter,
        before.mouse_goes() is None,
        !env.pointer.on_splitter,
    ensures
        after.mouse.selecting,
        after.mouse.selection_start is None,
        after.mouse.selection_end is None,
        after.browser.menu is None,
        after.browser.context_menu is None,
        !after.typing.quick_cmd_focused,
        steps::asks_for(fx, Seq::empty()),
{
    let m = Message::TerminalMouseDown(MouseButton::Left);
    let (mid, first) = steps::lemma_handled(before, m, env, after, fx, Area::Mouse);
    reveal(pointer::mouse_step);
    lemma_same_top(before, m, env.now, 0);
    if first.len() == 0 {
        assert(first =~= Seq::empty());
    }
}

/// Moving with the button held, the selection ends where the pointer is, and stays begun
/// where it began.
pub proof fn law_a_selection_grows_with_the_pointer(
    before: NeoShell,
    env: Env,
    after: NeoShell,
    fx: Seq<Effect>,
    at: (usize, usize),
)
    requires
        updating::updated(before, Message::TerminalMouseMove, env, after, fx),
        before.mouse.selecting,
        !before.mouse.dragging_splitter,
        !before.mouse.dragging_divider,
        before.mouse.report is None,
        env.pointer.place == Some(at),
    ensures
        after.mouse.selection_end == Some(at),
        before.mouse.selection_start is Some ==> after.mouse.selection_start == before.mouse.selection_start,
        before.mouse.selection_start is None ==> after.mouse.selection_start == Some(at),
        after.mouse.selecting,
{
    let (mid, first) = steps::lemma_handled(before, Message::TerminalMouseMove, env, after, fx, Area::Mouse);
    reveal(pointer::mouse_step);
}

/// When the button comes up every drag is over, and what was selected is copied; an
/// application that got the press gets the release instead.
pub proof fn law_a_release_ends_the_drag(before: NeoShell, env: Env, after: NeoShell, fx: Seq<Effect>)
    requires
        updating::updated(before, Message::TerminalMouseUp(MouseButton::Left), env, after, fx),
    ensures
        !after.mouse.selecting,
        !after.mouse.dragging_splitter,
        !after.mouse.dragging_divider,
        before.mouse.report is None ==> steps::asks_for(
            fx,
            if before.mouse.selection_start is Some && before.mouse.selection_end is Some {
                seq![Effect::Then(Message::CopySelection)]
            } else {
                Seq::empty()
            },
        ),
        before.mouse.report matches Some(r) ==> (r.button == MouseButton::Left ==> after.mouse.report is None),
        after.mouse.selection_start == before.mouse.selection_start,
        after.mouse.selection_end == before.mouse.selection_end,
{
    let m = Message::TerminalMouseUp(MouseButton::Left);
    let (mid, first) = steps::lemma_handled(before, m, env, after, fx, Area::Mouse);
    reveal(pointer::mouse_step);
}

/// What is copied is the text of the selection in the focused pane; nothing is selected
/// then.
pub proof fn law_the_selection_is_copied(
    before: NeoShell,
    env: Env,
    after: NeoShell,
    fx: Seq<Effect>,
    g: TerminalGrid,
    a: (usize, usize),
    b: (usize, usize),
)
    requires
        updating::updated(before, Message::CopySelection, env, after, fx),
        common::focused_cells(before.sessions) == Some(g),
        before.mouse.selection_start == Some(a),
        before.mouse.selection_end == Some(b),
    ensures
        after.mouse.selection_start is None,
        after.mouse.selection_end is None,
        grid::selected(g, a, b).len() > 0 ==> fx.len() > 0 && (fx[0] matches Effect::Copy(t) && t@ == grid::selected(
            g,
            a,
            b,
        )),
        grid::selected(g, a, b).len() == 0 ==> steps::asks_for(fx, Seq::empty()),
{
    let (mid, first) = steps::lemma_handled(before, Message::CopySelection, env, after, fx, Area::Mouse);
    reveal(pointer::mouse_step);
    if first.len() == 0 {
        assert(first =~= Seq::empty());
    } else if fx != first {
        assert(fx[0] == fx.drop_last()[0]);
    }
}

/// The characters of narrow cells, one for each.
proof fn lemma_narrow_text(line: Seq<Cell>)
    requires
        forall|i: int| 0 <= i < line.len() ==> !(#[trigger] line[i]).wide_cont,
    ensures
        grid::line_text(line) == Seq::new(line.len(), |i: int| line[i].c),
    decreases line.len(),
{
    let all = Seq::new(line.len(), |i: int| line[i].c);
    if line.len() > 0 {
        let less = line.drop_last();
        assert forall|i: int| 0 <= i < less.len() implies !(#[trigger] less[i]).wide_cont by {
            assert(less[i] == line[i]);
        }
        lemma_narrow_text(less);
        assert(!line[line.len() - 1].wide_cont);
        assert(grid::line_text(line) =~= all);
    } else {
        assert(grid::line_text(line) =~= all);
    }
}

/// A selection within one row copies the characters from its first column to its last, the
/// last one too, without the blanks at the end.
pub proof fn law_a_selection_in_one_row(g: TerminalGrid, a: (usize, usize), b: (usize, usize))
    requires
        a.1 == b.1 < g.rows,
        a.0 <= b.0 < g.cols,
        b.0 < g.shown(a.1 as int).len(),
        forall|x: int| a.0 <= x <= b.0 ==> !(#[trigger] g.shown(a.1 as int)[x]).wide_cont,
    ensures
        grid::selected(g, a, b) == text::trim_end(
            Seq::new((b.0 - a.0 + 1) as nat, |i: int| g.shown(a.1 as int)[a.0 + i].c),
        ),
        grid::selected(g, b, a) == grid::selected(g, a, b),
{
    let line = g.shown(a.1 as int);
    let part = line.subrange(a.0 as int, b.0 + 1);
    assert forall|i: int| 0 <= i < part.len() implies !(#[trigger] part[i]).wide_cont by {
        assert(part[i] == line[a.0 + i]);
    }
    lemma_narrow_text(part);
    let want = Seq::new((b.0 - a.0 + 1) as nat, |i: int| line[a.0 + i].c);
    assert(grid::line_text(part) =~= want);
    let y = a.1 as int;
    assert(grid::at_most(b.1 + 1, g.rows as int) == y + 1);
    assert(grid::rows_text(g, a, b, y) == Seq::<char>::empty());
    assert(grid::row_piece(g, a, b, y) == want);
    assert(grid::rows_text(g, a, b, y + 1) =~= want);
    if a.0 < b.0 {
        assert(grid::ordered(b, a) == (a, b));
    } else {
        assert(a == b);
    }
}

/// A selection over two rows copies the first from its first column on, without the blanks
/// at its end, a line feed, and the second up to its last column.
pub proof fn law_a_selection_over_two_rows(g: TerminalGrid, a: (usize, usize), b: (usize, usize))
    requires
        a.1 + 1 == b.1,
        b.1 < g.rows,
        a.0 < g.cols,
        b.0 < g.cols,
        g.shown(a.1 as int).len() == g.cols,
        g.shown(b.1 as int).len() == g.cols,
        forall|x: int| a.0 <= x < g.cols ==> !(#[trigger] g.shown(a.1 as int)[x]).wide_cont,
        forall|x: int| 0 <= x <= b.0 ==> !(#[trigger] g.shown(b.1 as int)[x]).wide_cont,
    ensures
        grid::selected(g, a, b) == text::trim_end(
            text::trim_end_char(
                Seq::new((g.cols - a.0) as nat, |i: int| g.shown(a.1 as int)[a.0 + i].c),
                ' ',
            ) + seq!['\n'] + Seq::new((b.0 + 1) as nat, |i: int| g.shown(b.1 as int)[i].c),
        ),
{
    let cols = g.cols as int;
    let one = g.shown(a.1 as int);
    let two = g.shown(b.1 as int);
    let head = one.subrange(a.0 as int, cols);
    let tail = two.subrange(0, b.0 + 1);
    assert forall|i: int| 0 <= i < head.len() implies !(#[trigger] head[i]).wide_cont by {
        assert(head[i] == one[a.0 + i]);
    }
    assert forall|i: int| 0 <= i < tail.len() implies !(#[trigger] tail[i]).wide_cont by {
        assert(tail[i] == two[i]);
    }
    lemma_narrow_text(head);
    lemma_narrow_text(tail);
    let first = Seq::new((g.cols - a.0) as nat, |i: int| one[a.0 + i].c);
    let last = Seq::new((b.0 + 1) as nat, |i: int| two[i].c);
    assert(grid::line_text(head) =~= first);
    assert(grid::line_text(tail) =~= last);
    let y = a.1 as int;
    assert(grid::at_most(b.1 + 1, g.rows as int) == y + 2);
    assert(grid::rows_text(g, a, b, y) == Seq::<char>::empty());
    assert(grid::row_piece(g, a, b, y) == text::trim_end_char(first, ' ').push('\n'));
    assert(grid::row_piece(g, a, b, y + 1) == last);
    assert(grid::rows_text(g, a, b, y + 1) =~= text::trim_end_char(first, ' ').push('\n'));
    assert(grid::rows_text(g, a, b, y + 2) =~= text::trim_end_char(first, ' ') + seq!['\n'] + last);
}

/// The right button pastes where no application reads the mouse, unless it closes a menu;
/// the middle one does nothing there.
pub proof fn law_the_right_button_pastes(before: NeoShell, b: MouseButton, env: Env, after: NeoShell, fx: Seq<Effect>)
    requires
        updating::updated(before, Message::TerminalMouseDown(b), env, after, fx),
        b != MouseButton::Left,
        before.mouse_goes() is None,
    ensures
        after.browser.menu is None,
        b == MouseButton::Right && before.browser.menu is None && before.top() is None ==> steps::asks_for(
            fx,
            seq![Effect::Then(Message::PasteClipboard)],
        ),
        b != MouseButton::Right || before.browser.menu is Some || before.top() is Some ==> steps::asks_for(
            fx,
            Seq::empty(),
        ),
{
    let m = Message::TerminalMouseDown(b);
    let (mid, first) = steps::lemma_handled(before, m, env, after, fx, Area::Mouse);
    reveal(pointer::mouse_step);
    lemma_same_top(before, m, env.now, 0);
    if first.len() == 0 {
        assert(first =~= Seq::empty());
    }
}

/// The drag that follows a press that went to an application is reported to it when it
/// comes to another cell, with the button of the press.
pub proof fn law_a_drag_is_reported_cell_by_cell(
    before: NeoShell,
    env: Env,
    after: NeoShell,
    fx: Seq<Effect>,
    r: MouseReport,
    cell: (usize, usize),
)
    requires
        updating::updated(before, Message::TerminalMouseMove, env, after, fx),
        !before.mouse.dragging_splitter,
        !before.mouse.dragging_divider,
        before.mouse.report == Some(r),
        env.pointer.nearest == Some(cell),
        common::focused_sid(before.sessions) == Some(r.session_id@),
        tabs::cells_of(before.sessions.tabs@, r.session_id@) is Some,
    ensures
        cell == r.cell ==> steps::asks_for(fx, Seq::empty()) && after.mouse.report == before.mouse.report,
        cell != r.cell ==> fx.len() > 0 && (fx[0] matches Effect::ReportMotion(sid, b, x, y) && sid@ == r.session_id@
            && b == Some(r.button) && x == cell.0 && y == cell.1) && (after.mouse.report matches Some(now) && now
            == (MouseReport { cell, ..r })),
{
    let (mid, first) = steps::lemma_handled(before, Message::TerminalMouseMove, env, after, fx, Area::Mouse);
    reveal(pointer::mouse_step);
    if first.len() == 0 {
        assert(first =~= Seq::empty());
    } else if fx != first {
        assert(fx[0] == fx.drop_last()[0]);
    }
}

/// The press on the edge of the open bottom panel drags it, and the pointer is followed
/// until the button comes up.
pub proof fn law_the_edge_of_the_panel_is_dragged(before: NeoShell, m: Message, env: Env, after: NeoShell, fx: Seq<Effect>)
    requires
        updating::updated(before, m, env, after, fx),
    ensures
        m == Message::TerminalMouseDown(MouseButton::Left) && before.top() is None && !before.mouse.dragging_splitter
            && env.pointer.on_splitter && !before.panels.bottom_collapsed ==> after.mouse.dragging_splitter
            && steps::asks_for(fx, seq![Effect::BeginSplitterDrag]),
        m is TerminalMouseMove && before.mouse.dragging_splitter ==> steps::asks_for(fx, seq![Effect::DragSplitter]),
        m is TerminalMouseMove && !before.mouse.dragging_splitter && before.mouse.dragging_divider ==> steps::asks_for(
            fx,
            seq![Effect::DragDivider],
        ),
{
    if m == Message::TerminalMouseDown(MouseButton::Left) || m is TerminalMouseMove {
        let (mid, first) = steps::lemma_handled(before, m, env, after, fx, Area::Mouse);
        reveal(pointer::mouse_step);
        lemma_same_top(before, m, env.now, 0);
    }
}

// ---- panels ---------------------------------------------------------------------------------------------

/// Each panel is opened and closed by its own message, and by no other panel's: what
/// toggles one flips that one, what hides one leaves it hidden, and the rest stay.
pub proof fn law_each_panel_has_its_own_switch(before: NeoShell, m: Message, env: Env, after: NeoShell, fx: Seq<Effect>)
    requires
        updating::updated(before, m, env, after, fx),
    ensures
        m is ToggleBottomPanel ==> after.panels == (Panels {
            bottom_collapsed: !before.panels.bottom_collapsed,
            ..before.panels
        }),
        m is ToggleSidebar ==> after.panels == (Panels {
            sidebar_collapsed: !before.panels.sidebar_collapsed,
            ..before.panels
        }),
        m is ShowSettings ==> after.panels == (Panels { show_settings: !before.panels.show_settings, ..before.panels }),
        m is HideSettings ==> after.panels == (Panels { show_settings: false, ..before.panels }),
        m is ShowAbout ==> after.panels == (Panels {
            show_settings: false,
            show_about: !before.panels.show_about,
            ..before.panels
        }),
        m is HideAbout ==> after.panels == (Panels { show_about: false, ..before.panels }),
        m is ToggleShortcutsHelp ==> after.panels == (Panels {
            show_shortcuts: !before.panels.show_shortcuts,
            ..before.panels
        }),
        m matches Message::ThemeSelectZone(z) ==> after.panels == (Panels { theme_zone: Some(z), ..before.panels }),
        m is ThemeCloseZone || m is ThemeReplaced ==> after.panels == (Panels { theme_zone: None, ..before.panels }),
        m matches Message::SwitchBottomTab(tab) ==> after.panels == (Panels { bottom_tab: tab, ..before.panels })
            && steps::asks_for(
            fx,
            if tab is Ports {
                seq![Effect::Then(Message::FetchPorts)]
            } else {
                Seq::empty()
            },
        ),
{
    if windows::is_window_message(m) {
        let (mid, first) = steps::lemma_handled(before, m, env, after, fx, Area::Window);
        reveal(windows::window_step);
    }
}

/// Chinese gives way to English and anything else to Chinese; the choice is kept.
pub proof fn law_the_language_is_switched(before: NeoShell, env: Env, after: NeoShell, fx: Seq<Effect>)
    requires
        updating::updated(before, Message::ToggleLanguage, env, after, fx),
    ensures
        before.panels.locale@ == "zh-CN"@ ==> after.panels.locale@ == seq!['e', 'n'],
        before.panels.locale@ == seq!['e', 'n'] ==> after.panels.locale@ == "zh-CN"@,
        steps::asks_for(fx, seq![Effect::SaveLocale(after.panels.locale)]),
{
    let (mid, first) = steps::lemma_handled(before, Message::ToggleLanguage, env, after, fx, Area::Window);
    reveal(windows::window_step);
    reveal_strlit("en");
    reveal_strlit("zh-CN");
    assert("en"@ =~= seq!['e', 'n']);
    assert("zh-CN"@.len() == 5);
}

/// An error is shown with its text until it is dismissed; what is copied of it is that
/// text. The log is read when its viewer opens, and forgotten when it closes.
pub proof fn law_errors_and_the_log_are_shown(before: NeoShell, m: Message, env: Env, after: NeoShell, fx: Seq<Effect>)
    requires
        updating::updated(before, m, env, after, fx),
    ensures
        m matches Message::Error(e) ==> after.error.show && after.error.message@ == e@,
        m is DismissErrorDialog ==> !after.error.show && after.error.message@.len() == 0,
        m is CopyErrorText ==> steps::asks_for(fx, seq![Effect::CopyError(before.error.message)]),
        m is ShowLogViewer && !before.panels.show_log ==> steps::asks_for(fx, seq![Effect::ReadLog]),
        m is ShowLogViewer && before.panels.show_log ==> !after.panels.show_log && after.panels.log_content@.len() == 0,
        m is HideLogViewer ==> !after.panels.show_log && after.panels.log_content@.len() == 0,
        m is LogRead ==> after.panels.show_log,
        m is RefreshLogViewer ==> steps::asks_for(fx, seq![Effect::Then(Message::ShowLogViewer)]),
        m is OpenLogFolder ==> steps::asks_for(fx, seq![Effect::OpenLogFolder]),
{
    if windows::is_window_message(m) {
        let (mid, first) = steps::lemma_handled(before, m, env, after, fx, Area::Window);
        reveal(windows::window_step);
    }
}

/// The close button minimizes; only quitting ends the app, and each step of an update is
/// the one that was asked for.
pub proof fn law_closing_the_window_is_not_quitting(before: NeoShell, m: Message, env: Env, after: NeoShell, fx: Seq<Effect>)
    requires
        updating::updated(before, m, env, after, fx),
    ensures
        m is WindowCloseRequested ==> steps::asks_for(fx, seq![Effect::Minimize]),
        m is QuitApp ==> fx.contains(Effect::Quit) && fx.contains(Effect::SettleHistory),
        windows::is_window_message(m) && !(m is QuitApp) ==> !fx.contains(Effect::Quit),
        m is CheckForUpdate ==> steps::asks_for(fx, seq![Effect::CheckForUpdate]),
        m is DownloadUpdate ==> steps::asks_for(fx, seq![Effect::DownloadUpdate]),
        m is RestartForUpdate ==> steps::asks_for(fx, seq![Effect::RestartForUpdate]),
        m is DismissUpdate ==> steps::asks_for(fx, seq![Effect::DismissUpdate]),
        m is SetFontSize ==> after.sessions.last_term_size == (0usize, 0usize),
        m is Nothing ==> steps::asks_for(fx, Seq::empty()),
{
    if windows::is_window_message(m) {
        let (mid, first) = steps::lemma_handled(before, m, env, after, fx, Area::Window);
        reveal(windows::window_step);
        if first.len() == 0 {
            assert(first =~= Seq::empty());
        }
        if m is QuitApp {
            let s = updating::noted(before, m, env.now);
            let (records, folds) = choose|records: Seq<Effect>, folds: Seq<Effect>| #[trigger]
                windows::quit_via(s, env, records, folds, mid, first);
            assert(first[first.len() - 1] == Effect::Quit);
            tab_steps::lemma_asked(fx, first, Effect::Quit);
            assert(first[0] == Effect::SettleHistory);
            tab_steps::lemma_asked(fx, first, Effect::SettleHistory);
        } else if fx.contains(Effect::Quit) {
            let k = choose|k: int| 0 <= k < fx.len() && fx[k] == Effect::Quit;
            if k < first.len() {
                if fx != first {
                    assert(fx[k] == fx.drop_last()[k]);
                }
                assert(first[k] == Effect::Quit);
            } else {
                assert(fx.last() == Effect::Quit);
            }
        }
    }
}

} // verus!
