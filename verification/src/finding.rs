//! Finding things: the search in the terminal, and the command palette.

use vstd::prelude::*;
use vstd::string::*;

use crate::catalog::Catalog;
use crate::common;
use crate::focus;
use crate::focus::FocusTracker;
use crate::forms;
use crate::grid;
use crate::grid::SearchMatch;
use crate::grid::TerminalGrid;
use crate::overlays;
use crate::palette::PaletteItem;
use crate::state;
use crate::state::Effect;
use crate::state::Env;
use crate::state::Message;
use crate::state::NeoShell;
use crate::state::Palette;
use crate::state::Sessions;
use crate::state::TermSearch;
use crate::tabs::SplitPane;

verus! {

// ---- the search -----------------------------------------------------------------------------------------

/// The grid, scrolled so that the hit sits roughly in the middle.
pub open spec fn scrolled(g: TerminalGrid, m: SearchMatch) -> TerminalGrid {
    TerminalGrid {
        scroll_offset: grid::offset_for(m.abs_line as int, g.scrollback@.len() as int, g.rows as int) as usize,
        ..common::touched(g)
    }
}

/// `after` is `before` with the focused pane scrolled to the hit.
pub open spec fn scrolled_to(before: Sessions, m: SearchMatch, after: Sessions) -> bool {
    match common::active_at(before) {
        Some(i) => {
            &&& after.tabs@ == before.tabs@.update(
                i,
                common::with_focused(before.tabs@[i], scrolled(before.tabs@[i].focused_cells(), m)),
            )
            &&& after == (Sessions { tabs: after.tabs, ..before })
        },
        None => after == before,
    }
}

fn scroll_focused(s: &mut Sessions, m: SearchMatch)
    requires
        state::tabs_wf(old(s).tabs@),
    ensures
        scrolled_to(*old(s), m, *final(s)),
        state::tabs_wf(final(s).tabs@),
{
    match s.active() {
        Some(i) => {
            assert(state::tab_wf(s.tabs@[i as int]));
            let mut split: Option<SplitPane> = None;
            std::mem::swap(&mut s.tabs[i].split, &mut split);
            let in_split = s.tabs[i].focus_split && split.is_some();
            match split {
                Some(sp) => {
                    let mut sp = sp;
                    if in_split {
                        grid::scroll_to_match(&mut sp.terminal, m);
                    }
                    s.tabs[i].split = Some(sp);
                },
                None => {},
            }
            if !in_split {
                let mut tab = s.tabs.remove(i);
                grid::scroll_to_match(&mut tab.terminal, m);
                s.tabs.insert(i, tab);
            }
            let ghost want = common::with_focused(
                old(s).tabs@[i as int],
                scrolled(old(s).tabs@[i as int].focused_cells(), m),
            );
            assert(s.tabs@[i as int] == want);
            assert(s.tabs@ =~= old(s).tabs@.update(i as int, want));
        },
        None => {},
    }
}

/// `after` is `before` with the focused pane scrolled to its current hit.
pub open spec fn current_shown(before: NeoShell, after: NeoShell) -> bool {
    if before.search.current < before.search.matches@.len() {
        &&& scrolled_to(
            before.sessions,
            before.search.matches@[before.search.current as int],
            after.sessions,
        )
        &&& after == (NeoShell { sessions: after.sessions, ..before })
    } else {
        after == before
    }
}

/// Scroll the focused pane so that the current hit sits roughly in the middle.
/// Nothing without one.
pub fn scroll_to_current_match(state: &mut NeoShell)
    requires
        old(state).wf(),
    ensures
        current_shown(*old(state), *final(state)),
        final(state).wf(),
{
    if state.search.current < state.search.matches.len() {
        let m = state.search.matches[state.search.current];
        scroll_focused(&mut state.sessions, m);
    }
}

/// `after` is `before` with the search started anew: its hits are on the way,
/// where there is something to look for and to look in.
pub open spec fn searched_again(before: TermSearch, s: Sessions, after: TermSearch, fx: Seq<Effect>) -> bool {
    &&& after.matches@.len() == 0
    &&& after == (TermSearch { matches: after.matches, current: 0, ..before })
    &&& if before.query@.len() > 0 && common::active_at(s) is Some {
        fx == seq![Effect::Search(before.query, before.case_insensitive)]
    } else {
        fx.len() == 0
    }
}

/// Run the search again on the focused terminal's scrollback and grid.
pub fn rerun_terminal_search(search: &mut TermSearch, s: &Sessions) -> (fx: Vec<Effect>)
    ensures
        searched_again(*old(search), *s, *final(search), fx@),
{
    search.matches = Vec::new();
    search.current = 0;
    if forms::is_empty_text(search.query.as_str()) {
        return common::nothing();
    }
    match s.active() {
        Some(_) => common::one(Effect::Search(search.query.clone(), search.case_insensitive)),
        None => common::nothing(),
    }
}

pub open spec fn search_only(before: NeoShell, after: NeoShell) -> bool {
    after == (NeoShell { search: after.search, ..before })
}

pub open spec fn search_toggled(before: NeoShell, after: NeoShell, fx: Seq<Effect>) -> bool {
    if before.search.active {
        &&& after.search.matches@.len() == 0
        &&& after.search == (TermSearch { active: false, matches: after.search.matches, ..before.search })
        &&& search_only(before, after)
        &&& fx.len() == 0
    } else {
        &&& fx.len() > 0
        &&& searched_again(
            TermSearch { active: true, ..before.search },
            before.sessions,
            after.search,
            fx.drop_last(),
        )
        &&& FocusTracker::moved_to(before.focus, focus::TERM_SEARCH_INPUT_ID@, after.focus)
        &&& after == (NeoShell { search: after.search, focus: after.focus, ..before })
        &&& overlays::focuses(fx.last(), focus::TERM_SEARCH_INPUT_ID@, after.focus.issued)
    }
}

/// Open the search bar, with the keyboard in it, or close it.
pub fn on_toggle_terminal_search(state: &mut NeoShell) -> (fx: Vec<Effect>)
    requires
        old(state).wf(),
        old(state).focus.issued + 2 <= u64::MAX,
    ensures
        search_toggled(*old(state), *final(state), fx@),
        final(state).wf(),
{
    state.search.active = !state.search.active;
    if !state.search.active {
        state.search.matches = Vec::new();
        return common::nothing();
    }
    let mut fx = rerun_terminal_search(&mut state.search, &state.sessions);
    let ghost first = fx@;
    let seq = state.focus.focus(focus::TERM_SEARCH_INPUT_ID);
    fx.push(Effect::Focus(focus::TERM_SEARCH_INPUT_ID.to_owned(), seq));
    assert(fx@.drop_last() =~= first);
    fx
}

/// The hit behind the current one, or before it, round the ends.
pub open spec fn next_hit(current: usize, n: nat) -> usize {
    if current + 1 < n {
        (current + 1) as usize
    } else {
        0
    }
}

pub open spec fn previous_hit(current: usize, n: nat) -> usize {
    if current == 0 {
        (n - 1) as usize
    } else {
        (current - 1) as usize
    }
}

/// Stepping through the hits forth and back leads to the hit that was left.
pub proof fn law_hits_go_round(current: usize, n: nat)
    requires
        current < n <= usize::MAX,
    ensures
        previous_hit(next_hit(current, n), n) == current,
        next_hit(previous_hit(current, n), n) == current,
        next_hit(current, n) < n,
        previous_hit(current, n) < n,
{
}

/// `after` is `before` with another current hit, which is shown.
pub open spec fn went_to(before: NeoShell, hit: usize, after: NeoShell) -> bool {
    current_shown(NeoShell { search: TermSearch { current: hit, ..before.search }, ..before }, after)
}

pub open spec fn stepped(before: NeoShell, forth: bool, after: NeoShell) -> bool {
    let n = before.search.matches@.len();
    if n == 0 {
        after == before
    } else if forth {
        went_to(before, next_hit(before.search.current, n), after)
    } else {
        went_to(before, previous_hit(before.search.current, n), after)
    }
}

/// Go to the next hit, or the one before.
pub fn on_terminal_search_step(state: &mut NeoShell, forth: bool)
    requires
        old(state).wf(),
    ensures
        stepped(*old(state), forth, *final(state)),
        final(state).wf(),
{
    let n: usize = state.search.matches.len();
    if n == 0 {
        return;
    }
    let current: usize = state.search.current;
    state.search.current = if forth {
        if current < n - 1 {
            current + 1
        } else {
            0
        }
    } else if current == 0 {
        n - 1
    } else {
        current - 1
    };
    scroll_to_current_match(state);
}

pub open spec fn hits_found(before: NeoShell, hits: Vec<SearchMatch>, after: NeoShell) -> bool {
    current_shown(
        NeoShell { search: TermSearch { matches: hits, current: 0, ..before.search }, ..before },
        after,
    )
}

/// The hits of the search are in: the first is shown.
pub fn on_search_found(state: &mut NeoShell, hits: Vec<SearchMatch>)
    requires
        old(state).wf(),
    ensures
        hits_found(*old(state), hits, *final(state)),
        final(state).wf(),
{
    state.search.matches = hits;
    state.search.current = 0;
    scroll_to_current_match(state);
}

// ---- the palette ----------------------------------------------------------------------------------------

pub open spec fn palette_toggled(before: NeoShell, after: NeoShell, fx: Seq<Effect>) -> bool {
    if before.palette.show {
        &&& after == (NeoShell { palette: Palette { show: false, ..before.palette }, ..before })
        &&& fx.len() == 0
    } else {
        &&& after.palette.query@.len() == 0
        &&& FocusTracker::moved_to(before.focus, focus::PALETTE_INPUT_ID@, after.focus)
        &&& after == (NeoShell {
            palette: Palette { show: true, query: after.palette.query, selected: 0 },
            focus: after.focus,
            ..before
        })
        &&& fx.len() == 2
        &&& fx[0] == Effect::Then(Message::LoadConnections)
        &&& overlays::focuses(fx[1], focus::PALETTE_INPUT_ID@, after.focus.issued)
    }
}

/// Open the palette, empty and with the keyboard in it, or close it.
pub fn on_toggle_palette(state: &mut NeoShell) -> (fx: Vec<Effect>)
    requires
        old(state).wf(),
        old(state).focus.issued + 2 <= u64::MAX,
    ensures
        palette_toggled(*old(state), *final(state), fx@),
        final(state).wf(),
{
    state.palette.show = !state.palette.show;
    if !state.palette.show {
        return common::nothing();
    }
    state.palette.query = String::new();
    state.palette.selected = 0;
    let mut fx = common::one(Effect::Then(Message::LoadConnections));
    let seq = state.focus.focus(focus::PALETTE_INPUT_ID);
    fx.push(Effect::Focus(focus::PALETTE_INPUT_ID.to_owned(), seq));
    fx
}

/// `after` is `before` with another row of the palette selected.
pub open spec fn row_selected(before: NeoShell, row: int, after: NeoShell) -> bool {
    after == (NeoShell { palette: Palette { selected: row as usize, ..before.palette }, ..before })
}

/// The selection moves by one row through the palette `items`, round its ends.
pub open spec fn row_moved_in(
    items: Seq<PaletteItem>,
    before: NeoShell,
    down: bool,
    texts: Catalog,
    after: NeoShell,
) -> bool {
    let n = items.len() as int;
    &&& before.shows_palette(items, texts)
    &&& if n == 0 {
        after == before
    } else if down {
        row_selected(before, (before.palette.selected + 1) % n, after)
    } else {
        row_selected(before, (before.palette.selected + n - 1) % n, after)
    }
}

pub open spec fn row_moved(before: NeoShell, down: bool, texts: Catalog, after: NeoShell) -> bool {
    exists|items: Seq<PaletteItem>| #[trigger] row_moved_in(items, before, down, texts, after)
}

/// Select the next row of the palette, or the one before.
pub fn on_palette_nav(state: &mut NeoShell, down: bool, texts: &Catalog)
    requires
        old(state).wf(),
    ensures
        row_moved(*old(state), down, *texts, *final(state)),
        final(state).wf(),
{
    let items = state.palette_items(texts);
    let n: usize = items.len();
    if n > 0 {
        if down {
            state.palette.selected = (state.palette.selected + 1) % n;
        } else {
            state.palette.selected = (state.palette.selected + n - 1) % n;
        }
    }
    assert(row_moved_in(items@, *old(state), down, *texts, *state));
}

/// Row `i` of the palette `items` is carried out.
pub open spec fn row_run_in(
    items: Seq<PaletteItem>,
    before: NeoShell,
    i: usize,
    texts: Catalog,
    after: NeoShell,
    fx: Seq<Effect>,
) -> bool {
    &&& before.shows_palette(items, texts)
    &&& if i < items.len() {
        &&& after == (NeoShell { palette: Palette { show: false, ..before.palette }, ..before })
        &&& fx == seq![Effect::Then(items[i as int].msg)]
    } else {
        after == before && fx.len() == 0
    }
}

pub open spec fn row_run(before: NeoShell, i: usize, texts: Catalog, after: NeoShell, fx: Seq<Effect>) -> bool {
    exists|items: Seq<PaletteItem>| #[trigger] row_run_in(items, before, i, texts, after, fx)
}

/// Carry out a row of the palette, and close it.
pub fn on_palette_execute(state: &mut NeoShell, i: usize, texts: &Catalog) -> (fx: Vec<Effect>)
    requires
        old(state).wf(),
    ensures
        row_run(*old(state), i, *texts, *final(state), fx@),
        final(state).wf(),
{
    let mut items = state.palette_items(texts);
    let ghost all = items@;
    let fx = if i < items.len() {
        let item = items.remove(i);
        state.palette.show = false;
        common::one(Effect::Then(item.msg))
    } else {
        common::nothing()
    };
    assert(row_run_in(all, *old(state), i, *texts, *state, fx@));
    fx
}

// ---- the messages ---------------------------------------------------------------------------------------

pub open spec fn is_search_message(m: Message) -> bool {
    match m {
        Message::ToggleTerminalSearch => true,
        Message::TerminalSearchChanged(_) => true,
        Message::TerminalSearchFound(_) => true,
        Message::TerminalSearchNext => true,
        Message::TerminalSearchPrev => true,
        Message::TerminalSearchClose => true,
        Message::ToggleTerminalSearchCase => true,
        Message::TogglePalette => true,
        Message::PaletteQueryChanged(_) => true,
        Message::PaletteNavUp => true,
        Message::PaletteNavDown => true,
        Message::PaletteExecute => true,
        Message::PaletteExecuteIndex(_) => true,
        _ => false,
    }
}

pub open spec fn search_left(before: NeoShell, after: NeoShell) -> bool {
    &&& after.search.matches@.len() == 0
    &&& after.search == (TermSearch { active: false, matches: after.search.matches, ..before.search })
    &&& search_only(before, after)
}

pub open spec fn palette_typed(before: NeoShell, q: String, after: NeoShell) -> bool {
    after == (NeoShell { palette: Palette { query: q, selected: 0, ..before.palette }, ..before })
}

#[verifier::opaque]
pub open spec fn search_step(before: NeoShell, m: Message, env: Env, after: NeoShell, fx: Seq<Effect>) -> bool {
    match m {
        Message::ToggleTerminalSearch => search_toggled(before, after, fx),
        Message::TerminalSearchChanged(q) => search_only(before, after) && searched_again(
            TermSearch { query: q, ..before.search },
            before.sessions,
            after.search,
            fx,
        ),
        Message::TerminalSearchFound(hits) => hits_found(before, hits, after) && fx.len() == 0,
        Message::TerminalSearchNext => stepped(before, true, after) && fx.len() == 0,
        Message::TerminalSearchPrev => stepped(before, false, after) && fx.len() == 0,
        Message::TerminalSearchClose => search_left(before, after) && fx.len() == 0,
        Message::ToggleTerminalSearchCase => search_only(before, after) && searched_again(
            TermSearch { case_insensitive: !before.search.case_insensitive, ..before.search },
            before.sessions,
            after.search,
            fx,
        ),
        Message::TogglePalette => palette_toggled(before, after, fx),
        Message::PaletteQueryChanged(q) => palette_typed(before, q, after) && fx.len() == 0,
        Message::PaletteNavUp => row_moved(before, false, env.texts, after) && fx.len() == 0,
        Message::PaletteNavDown => row_moved(before, true, env.texts, after) && fx.len() == 0,
        Message::PaletteExecute => after == before && fx == seq![
            Effect::Then(Message::PaletteExecuteIndex(before.palette.selected)),
        ],
        Message::PaletteExecuteIndex(i) => row_run(before, i, env.texts, after, fx),
        _ => true,
    }
}

/// The messages of the search bar and of the palette.
pub fn handle_search(state: &mut NeoShell, message: Message, env: &Env) -> (fx: Vec<Effect>)
    requires
        is_search_message(message),
        old(state).wf(),
        old(state).has_room(),
    ensures
        search_step(*old(state), message, *env, *final(state), fx@),
        final(state).wf(),
{
    proof {
        reveal(search_step);
    }
    match message {
        Message::ToggleTerminalSearch => on_toggle_terminal_search(state),
        Message::TerminalSearchChanged(q) => {
            state.search.query = q;
            rerun_terminal_search(&mut state.search, &state.sessions)
        },
        Message::TerminalSearchFound(hits) => {
            on_search_found(state, hits);
            common::nothing()
        },
        Message::TerminalSearchNext => {
            on_terminal_search_step(state, true);
            common::nothing()
        },
        Message::TerminalSearchPrev => {
            on_terminal_search_step(state, false);
            common::nothing()
        },
        Message::TerminalSearchClose => {
            state.search.active = false;
            state.search.matches = Vec::new();
            common::nothing()
        },
        Message::ToggleTerminalSearchCase => {
            state.search.case_insensitive = !state.search.case_insensitive;
            rerun_terminal_search(&mut state.search, &state.sessions)
        },
        Message::TogglePalette => on_toggle_palette(state),
        Message::PaletteQueryChanged(q) => {
            state.palette.query = q;
            state.palette.selected = 0;
            common::nothing()
        },
        Message::PaletteNavUp => {
            on_palette_nav(state, false, &env.texts);
            common::nothing()
        },
        Message::PaletteNavDown => {
            on_palette_nav(state, true, &env.texts);
            common::nothing()
        },
        Message::PaletteExecute => common::one(
            Effect::Then(Message::PaletteExecuteIndex(state.palette.selected)),
        ),
        Message::PaletteExecuteIndex(i) => on_palette_execute(state, i, &env.texts),
        _ => common::nothing(),
    }
}

} // verus!
