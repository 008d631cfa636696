//! Tabs and panes: choosing, connecting, renaming, splitting and closing them.

use vstd::prelude::*;
use vstd::string::*;

use crate::auth;
use crate::auth::Waiting;
use crate::common;
use crate::focus;
use crate::focus::FocusTracker;
use crate::forms;
use crate::grid::TerminalGrid;
use crate::history;
use crate::overlays;
use crate::signing;
use crate::split;
use crate::state;
use crate::state::Auth;
use crate::state::Broadcast;
use crate::state::Browser;
use crate::state::Effect;
use crate::state::Env;
use crate::state::ErrorBox;
use crate::state::Message;
use crate::state::Monitoring;
use crate::state::Mouse;
use crate::state::NeoShell;
use crate::state::Sessions;
use crate::state::TabRename;
use crate::state::Typing;
use crate::tabs;
use crate::tabs::SplitPane;
use crate::tabs::TerminalTab;
use crate::text;
use crate::titles;

verus! {

/// Two clicks on a tab within this time open its rename dialog.
pub const DOUBLE_CLICK: u128 = 400_000_000;

/// Only the tabs and which of them is active may differ.
pub open spec fn tabs_only(before: NeoShell, after: NeoShell) -> bool {
    after == (NeoShell {
        sessions: Sessions {
            tabs: after.sessions.tabs,
            active_tab: after.sessions.active_tab,
            ..before.sessions
        },
        ..before
    })
}

pub open spec fn activated(before: NeoShell, tab: Option<usize>, after: NeoShell) -> bool {
    after == (NeoShell { sessions: Sessions { active_tab: tab, ..before.sessions }, ..before })
}

proof fn lemma_wf_updated(tabs: Seq<TerminalTab>, i: int, t: TerminalTab)
    requires
        state::tabs_wf(tabs),
        0 <= i < tabs.len(),
        state::tab_wf(t),
    ensures
        state::tabs_wf(tabs.update(i, t)),
{
}

proof fn lemma_wf_removed(tabs: Seq<TerminalTab>, i: int)
    requires
        state::tabs_wf(tabs),
        0 <= i < tabs.len(),
    ensures
        state::tabs_wf(tabs.remove(i)),
{
    assert forall|k: int| 0 <= k < tabs.remove(i).len() implies state::tab_wf(#[trigger] tabs.remove(i)[k]) by {
        if k < i {
            assert(tabs.remove(i)[k] == tabs[k]);
        } else {
            assert(tabs.remove(i)[k] == tabs[k + 1]);
        }
    }
}

/// Taking a pane out leaves grids in the panes.
pub proof fn lemma_wf_pane_gone(tabs: Seq<TerminalTab>, session_id: Seq<char>)
    requires
        state::tabs_wf(tabs),
        match tabs::split_tab_of(tabs, session_id) {
            Some(i) => 0 <= i < tabs.len(),
            None => true,
        },
    ensures
        tabs::split_tab_of(tabs, session_id) matches Some(i) ==> (tabs::without_pane(tabs[i], session_id) matches Some(
            t,
        ) ==> state::tabs_wf(tabs.update(i, t))),
{
    if let Some(i) = tabs::split_tab_of(tabs, session_id) {
        assert(state::tab_wf(tabs[i]));
        if let Some(t) = tabs::without_pane(tabs[i], session_id) {
            lemma_wf_updated(tabs, i, t);
        }
    }
}

// ---- choosing -------------------------------------------------------------------------------------------

/// The tab behind the active one; behind the last comes the first.
pub open spec fn next_tab(active: Option<usize>, len: nat) -> Option<usize> {
    if len == 0 {
        active
    } else {
        match active {
            Some(i) => Some(((i + 1) % (len as int)) as usize),
            None => Some(0usize),
        }
    }
}

/// The tab before the active one; before the first comes the last.
pub open spec fn previous_tab(active: Option<usize>, len: nat) -> Option<usize> {
    if len == 0 {
        active
    } else {
        match active {
            Some(i) => if i == 0 {
                Some((len - 1) as usize)
            } else {
                Some((i - 1) as usize)
            },
            None => Some((len - 1) as usize),
        }
    }
}

/// Going to the next tab and back leads to the tab that was left.
pub proof fn law_next_and_back(active: usize, len: nat)
    requires
        active < len <= usize::MAX,
    ensures
        previous_tab(next_tab(Some(active), len), len) == Some(active),
        next_tab(previous_tab(Some(active), len), len) == Some(active),
{
    if active + 1 < len {
        assert((active + 1) % (len as int) == active + 1) by (nonlinear_arith)
            requires
                active + 1 < len,
        ;
    }
    if active == 0 {
        assert((len - 1 + 1) % (len as int) == 0) by (nonlinear_arith)
            requires
                len > 0,
        ;
    } else {
        assert((active - 1 + 1) % (len as int) == active) by (nonlinear_arith)
            requires
                0 < active < len,
        ;
    }
    if active + 1 == len {
        assert((active + 1) % (len as int) == 0) by (nonlinear_arith)
            requires
                active + 1 == len,
        ;
    }
}

pub fn on_switch_to_next_tab(state: &mut NeoShell)
    requires
        old(state).wf(),
    ensures
        activated(
            *old(state),
            next_tab(old(state).sessions.active_tab, old(state).sessions.tabs@.len()),
            *final(state),
        ),
        final(state).wf(),
{
    if state.sessions.tabs.len() > 0 {
        let next: usize = match state.sessions.active_tab {
            Some(i) => (i + 1) % state.sessions.tabs.len(),
            None => 0,
        };
        state.sessions.active_tab = Some(next);
    }
}

pub fn on_switch_to_prev_tab(state: &mut NeoShell)
    requires
        old(state).wf(),
    ensures
        activated(
            *old(state),
            previous_tab(old(state).sessions.active_tab, old(state).sessions.tabs@.len()),
            *final(state),
        ),
        final(state).wf(),
{
    if state.sessions.tabs.len() > 0 {
        let prev: usize = match state.sessions.active_tab {
            Some(i) => if i == 0 {
                state.sessions.tabs.len() - 1
            } else {
                i - 1
            },
            None => state.sessions.tabs.len() - 1,
        };
        state.sessions.active_tab = Some(prev);
    }
}

pub open spec fn switched_to(before: NeoShell, idx: usize, after: NeoShell) -> bool {
    if idx < before.sessions.tabs@.len() {
        activated(before, Some(idx), after)
    } else {
        after == before
    }
}

/// The second of two clicks on the same tab in quick succession.
pub open spec fn clicked_twice(before: NeoShell, idx: usize, now: u128) -> bool {
    before.rename.last_click matches Some(c) && c.0 == idx && !history::elapsed(c.1, now, DOUBLE_CLICK) && idx
        < before.sessions.tabs@.len()
}

pub open spec fn tab_clicked(before: NeoShell, idx: usize, now: u128, after: NeoShell, fx: Seq<Effect>) -> bool {
    if clicked_twice(before, idx, now) {
        &&& after.rename.input@ == before.sessions.tabs@[idx as int].shown_title()
        &&& FocusTracker::moved_to(before.focus, focus::TAB_RENAME_INPUT_ID@, after.focus)
        &&& after == (NeoShell {
            rename: TabRename { tab: Some(idx), input: after.rename.input, last_click: None },
            focus: after.focus,
            ..before
        })
        &&& fx.len() == 1
        &&& overlays::focuses(fx[0], focus::TAB_RENAME_INPUT_ID@, after.focus.issued)
    } else {
        &&& after == (NeoShell {
            rename: TabRename { last_click: Some((idx, now)), ..before.rename },
            sessions: Sessions {
                active_tab: if idx < before.sessions.tabs@.len() {
                    Some(idx)
                } else {
                    before.sessions.active_tab
                },
                ..before.sessions
            },
            ..before
        })
        &&& fx.len() == 0
    }
}

/// A click on a tab selects it; the second of two in quick succession opens
/// the rename dialog instead.
pub fn on_tab_selected(state: &mut NeoShell, idx: usize, now: u128) -> (fx: Vec<Effect>)
    requires
        old(state).wf(),
        old(state).focus.issued + 2 <= u64::MAX,
    ensures
        tab_clicked(*old(state), idx, now, *final(state), fx@),
        final(state).wf(),
{
    let twice = match state.rename.last_click {
        Some((last, at)) => last == idx && !history::has_elapsed(at, now, DOUBLE_CLICK) && idx
            < state.sessions.tabs.len(),
        None => false,
    };
    if twice {
        state.rename.last_click = None;
        state.rename.tab = Some(idx);
        state.rename.input = state.sessions.tabs[idx].display_title().to_owned();
        let seq = state.focus.focus(focus::TAB_RENAME_INPUT_ID);
        return common::one(Effect::Focus(focus::TAB_RENAME_INPUT_ID.to_owned(), seq));
    }
    state.rename.last_click = Some((idx, now));
    if idx < state.sessions.tabs.len() {
        state.sessions.active_tab = Some(idx);
    }
    common::nothing()
}

// ---- renaming -------------------------------------------------------------------------------------------

/// The name that was typed for a tab; an empty one gives its own title back.
pub open spec fn names_tab(input: Seq<char>, t: Option<String>) -> bool {
    if text::trim(input).len() == 0 {
        t is None
    } else {
        t matches Some(s) && s@ == text::trim(input)
    }
}

pub open spec fn rename_committed(before: NeoShell, after: NeoShell) -> bool {
    &&& match before.rename.tab {
        Some(i) => if i < before.sessions.tabs@.len() {
            let t = after.sessions.tabs@[i as int];
            &&& names_tab(before.rename.input@, t.custom_title)
            &&& after.sessions.tabs@ == before.sessions.tabs@.update(
                i as int,
                TerminalTab { custom_title: t.custom_title, ..before.sessions.tabs@[i as int] },
            )
        } else {
            after.sessions.tabs@ == before.sessions.tabs@
        },
        None => after.sessions.tabs@ == before.sessions.tabs@,
    }
    &&& after == (NeoShell {
        rename: TabRename { tab: None, ..before.rename },
        sessions: Sessions { tabs: after.sessions.tabs, ..before.sessions },
        ..before
    })
}

pub fn on_tab_rename_commit(state: &mut NeoShell)
    requires
        old(state).wf(),
    ensures
        rename_committed(*old(state), *final(state)),
        final(state).wf(),
{
    let asked = state.rename.tab;
    state.rename.tab = None;
    match asked {
        Some(i) => if i < state.sessions.tabs.len() {
            let v = text::trim_text(state.rename.input.as_str());
            assert(state::tab_wf(old(state).sessions.tabs@[i as int]));
            state.sessions.tabs[i].custom_title = if forms::is_empty_text(v.as_str()) {
                None
            } else {
                Some(v)
            };
            proof {
                let t = TerminalTab {
                    custom_title: state.sessions.tabs@[i as int].custom_title,
                    ..old(state).sessions.tabs@[i as int]
                };
                assert(state.sessions.tabs@ =~= old(state).sessions.tabs@.update(i as int, t));
                lemma_wf_updated(old(state).sessions.tabs@, i as int, t);
            }
        },
        None => {},
    }
}

// ---- connecting -------------------------------------------------------------------------------------------

/// What wakes the drain where an event was held back for a connect.
pub open spec fn wakes(before: NeoShell) -> Seq<Effect> {
    if before.sessions.held is Some {
        seq![Effect::WakeDrain]
    } else {
        Seq::empty()
    }
}

fn wake_for_held(state: &NeoShell) -> (fx: Vec<Effect>)
    ensures
        fx@ == wakes(*state),
{
    if state.sessions.held.is_some() {
        common::one(Effect::WakeDrain)
    } else {
        common::nothing()
    }
}

/// `t` shows the session that it was waiting for.
pub open spec fn is_connected_tab(
    t: TerminalTab,
    before: TerminalTab,
    session_id: String,
    title: String,
    connection_id: String,
) -> bool {
    &&& t.pending_session_id@.len() == 0
    &&& t == (TerminalTab {
        session_id,
        title,
        connection_id,
        pending_session_id: t.pending_session_id,
        ..before
    })
}

/// The terminal of the tab, wiped: the note that it connects is done with.
pub open spec fn clear_screen() -> Seq<char> {
    "\x1b[2J\x1b[H"@
}

pub open spec fn connected(
    before: NeoShell,
    tab_id: String,
    session_id: String,
    title: String,
    connection_id: String,
    after: NeoShell,
    fx: Seq<Effect>,
) -> bool {
    let w = wakes(before);
    match tabs::tab_with_id(before.sessions.tabs@, tab_id@) {
        Some(i) => {
            let t = after.sessions.tabs@[i];
            &&& is_connected_tab(t, before.sessions.tabs@[i], session_id, title, connection_id)
            &&& after.sessions.tabs@ == before.sessions.tabs@.update(i, t)
            &&& after.sessions.connecting@ == before.sessions.connecting@.remove(connection_id@)
            &&& common::text_set(before.browser.current_dir@, session_id@, "~"@, after.browser.current_dir@)
            &&& after == (NeoShell {
                sessions: Sessions {
                    tabs: after.sessions.tabs,
                    connecting: after.sessions.connecting,
                    show_connect_dialog: false,
                    ..before.sessions
                },
                browser: Browser { current_dir: after.browser.current_dir, ..before.browser },
                ..before
            })
            &&& fx.len() == w.len() + 2
            &&& fx.take(w.len() as int) == w
            &&& common::notices(fx[w.len() as int], tab_id@, clear_screen())
            &&& common::changes_dir(fx[(w.len() + 1) as int], session_id@, "~"@)
        },
        None => after == before && fx == w + seq![Effect::Disconnect(session_id)],
    }
}

/// A connect is through: its tab shows the session. A tab closed while it
/// connected is gone, and nothing would ever show or close this session: it is
/// closed now.
///
/// Output held back until this connect landed is drained in a later update:
/// after the screen was cleared, or dropped if the tab is gone.
pub fn on_ssh_connected(
    state: &mut NeoShell,
    tab_id: String,
    session_id: String,
    title: String,
    connection_id: String,
) -> (fx: Vec<Effect>)
    requires
        old(state).wf(),
    ensures
        connected(*old(state), tab_id, session_id, title, connection_id, *final(state), fx@),
        final(state).wf(),
{
    let mut fx = wake_for_held(state);
    let ghost w = fx@;
    let i = match tabs::position_of_id(&state.sessions.tabs, tab_id.as_str()) {
        Some(i) => i,
        None => {
            fx.push(Effect::Disconnect(session_id));
            assert(fx@ =~= w + seq![Effect::Disconnect(session_id)]);
            return fx;
        },
    };
    assert(state::tab_wf(state.sessions.tabs@[i as int]));
    let _r = state.sessions.connecting.remove(connection_id.as_str());
    state.sessions.tabs[i].session_id = session_id.clone();
    state.sessions.tabs[i].pending_session_id = String::new();
    state.sessions.tabs[i].connection_id = connection_id;
    state.sessions.tabs[i].title = title;
    proof {
        let t = state.sessions.tabs@[i as int];
        assert(state.sessions.tabs@ =~= old(state).sessions.tabs@.update(i as int, t));
        lemma_wf_updated(old(state).sessions.tabs@, i as int, t);
    }
    state.sessions.show_connect_dialog = false;
    state.browser.current_dir.insert(session_id.clone(), "~".to_owned());
    fx.push(Effect::Notice(tab_id, "\x1b[2J\x1b[H".to_owned()));
    fx.push(Effect::Then(Message::ChangeDir(session_id, "~".to_owned())));
    assert(fx@.take(w.len() as int) =~= w);
    fx
}

pub open spec fn connect_failed(
    before: NeoShell,
    tab_id: String,
    connection_id: String,
    e: String,
    after: NeoShell,
) -> bool {
    match tabs::tab_with_id(before.sessions.tabs@, tab_id@) {
        Some(i) => {
            &&& after.sessions.tabs@ == before.sessions.tabs@.remove(i)
            &&& after.sessions.active_tab == still_active(before.sessions, i)
            &&& after.sessions.connecting@ == before.sessions.connecting@.remove(connection_id@)
            &&& after == (NeoShell {
                sessions: Sessions {
                    tabs: after.sessions.tabs,
                    active_tab: after.sessions.active_tab,
                    connecting: after.sessions.connecting,
                    ..before.sessions
                },
                error: ErrorBox { message: e, show: true, ..before.error },
                ..before
            })
        },
        None => after == before,
    }
}

/// The active tab once the tab at `i` is gone: the same one, or its neighbour.
pub open spec fn still_active(s: Sessions, i: int) -> Option<usize> {
    match s.active_tab {
        Some(a) => if s.tabs@.len() <= 1 {
            None
        } else if a > i {
            Some((a - 1) as usize)
        } else if a < s.tabs@.len() - 1 {
            Some(a)
        } else {
            Some((s.tabs@.len() - 2) as usize)
        },
        None => None,
    }
}

/// A connect failed: its tab goes, and only it. If the tab was closed while it
/// connected, nobody is waiting for this.
pub fn on_connect_failed(state: &mut NeoShell, tab_id: String, connection_id: String, e: String)
    requires
        old(state).wf(),
    ensures
        connect_failed(*old(state), tab_id, connection_id, e, *final(state)),
        final(state).wf(),
{
    let i = match tabs::position_of_id(&state.sessions.tabs, tab_id.as_str()) {
        Some(i) => i,
        None => {
            return;
        },
    };
    let _tab = state.sessions.tabs.remove(i);
    proof {
        lemma_wf_removed(old(state).sessions.tabs@, i as int);
    }
    state.sessions.active_tab = titles::active_after_removal(
        state.sessions.active_tab,
        i,
        state.sessions.tabs.len(),
    );
    // Allow a manual retry.
    let _r = state.sessions.connecting.remove(connection_id.as_str());
    state.show_error(e);
}

/// A failed connect leaves the tab that the user is looking at where it was.
pub proof fn law_a_failed_connect_takes_its_own_tab_only(
    before: NeoShell,
    tab_id: String,
    connection_id: String,
    e: String,
    after: NeoShell,
    i: int,
)
    requires
        before.wf(),
        connect_failed(before, tab_id, connection_id, e, after),
        tabs::tab_with_id(before.sessions.tabs@, tab_id@) == Some(i),
        before.sessions.active_tab matches Some(a) && a != i,
    ensures
        after.sessions.active_tab matches Some(a) && after.sessions.tabs@[a as int]
            == before.sessions.tabs@[before.sessions.active_tab->0 as int],
{
    tabs::lemma_first_tab(before.sessions.tabs@, |t: TerminalTab| t.id@ == tab_id@);
}

// ---- splitting ------------------------------------------------------------------------------------------

pub open spec fn can_split(t: TerminalTab) -> bool {
    t.split is None && t.split_pending is None && t.session_id@.len() > 0
}

pub open spec fn split_asked(before: NeoShell, vertical: bool, env: Env, after: NeoShell, fx: Seq<Effect>) -> bool {
    match common::active_at(before.sessions) {
        Some(i) => {
            let t = before.sessions.tabs@[i];
            if can_split(t) {
                &&& after.sessions.tabs@ == before.sessions.tabs@.update(
                    i,
                    TerminalTab { split_pending: Some(env.new_session), ..t },
                )
                &&& after == (NeoShell {
                    sessions: Sessions { tabs: after.sessions.tabs, ..before.sessions },
                    typing: Typing { last_keypress: None, ..before.typing },
                    ..before
                })
                &&& fx == seq![Effect::ConnectSplit(t.id, t.connection_id, env.new_session, vertical)]
            } else {
                after == before && fx.len() == 0
            }
        },
        None => after == before && fx.len() == 0,
    }
}

/// Split the active tab: one split per tab, none while one is still
/// connecting; and there has to be a live main session to duplicate.
///
/// The session's id is known before the connect, so closing the tab withdraws
/// the split's sign-in challenges too. The key that asked for it is not typing
/// somewhere else.
pub fn on_split_tab(state: &mut NeoShell, vertical: bool, env: &Env) -> (fx: Vec<Effect>)
    requires
        old(state).wf(),
    ensures
        split_asked(*old(state), vertical, *env, *final(state), fx@),
        final(state).wf(),
{
    let i = match state.sessions.active() {
        Some(i) => i,
        None => {
            return common::nothing();
        },
    };
    assert(state::tab_wf(state.sessions.tabs@[i as int]));
    if state.sessions.tabs[i].split.is_some() || state.sessions.tabs[i].split_pending.is_some()
        || forms::is_empty_text(state.sessions.tabs[i].session_id.as_str()) {
        return common::nothing();
    }
    let tab_id = state.sessions.tabs[i].id.clone();
    let conn_id = state.sessions.tabs[i].connection_id.clone();
    state.sessions.tabs[i].split_pending = Some(env.new_session.clone());
    state.typing.last_keypress = None;
    proof {
        let t = TerminalTab {
            split_pending: Some(env.new_session),
            ..old(state).sessions.tabs@[i as int]
        };
        assert(state.sessions.tabs@ =~= old(state).sessions.tabs@.update(i as int, t));
        lemma_wf_updated(old(state).sessions.tabs@, i as int, t);
    }
    common::one(Effect::ConnectSplit(tab_id, conn_id, env.new_session.clone(), vertical))
}

/// What becomes of a split's connect: its tab is told.
pub fn split_reply(result: Result<String, String>, tab_id: String, vertical: bool) -> (m: Message)
    ensures
        m == (match result {
            Ok(session_id) => Message::SplitConnected(tab_id, vertical, session_id),
            Err(e) => Message::SplitFailed(tab_id, e),
        }),
{
    match result {
        Ok(session_id) => Message::SplitConnected(tab_id, vertical, session_id),
        Err(e) => Message::SplitFailed(tab_id, e),
    }
}

/// The tab still waits for just this split.
pub open spec fn awaits_split(t: TerminalTab, session_id: Seq<char>) -> bool {
    t.split is None && tabs::opt_is(t.split_pending, session_id)
}

/// `t` is `before` with the split that it waited for.
pub open spec fn is_split_tab(t: TerminalTab, before: TerminalTab, vertical: bool, session_id: String) -> bool {
    &&& t.split matches Some(sp) && sp.session_id == session_id && sp.vertical == vertical && sp.terminal.is_blank(
        80,
        24,
    )
    &&& t == (TerminalTab { split: t.split, split_pending: None, focus_split: true, ..before })
}

pub open spec fn split_connected(
    before: NeoShell,
    tab_id: String,
    vertical: bool,
    session_id: String,
    after: NeoShell,
    fx: Seq<Effect>,
) -> bool {
    let w = wakes(before);
    let at = tabs::tab_with_id(before.sessions.tabs@, tab_id@);
    if at is Some && awaits_split(before.sessions.tabs@[at->0], session_id@) {
        let i = at->0;
        let t = after.sessions.tabs@[i];
        &&& is_split_tab(t, before.sessions.tabs@[i], vertical, session_id)
        &&& after.sessions.tabs@ == before.sessions.tabs@.update(i, t)
        &&& common::text_set(before.browser.current_dir@, session_id@, "~"@, after.browser.current_dir@)
        &&& after == (NeoShell {
            sessions: Sessions { tabs: after.sessions.tabs, ..before.sessions },
            browser: Browser { current_dir: after.browser.current_dir, ..before.browser },
            ..before
        })
        &&& fx.len() == w.len() + 1
        &&& fx.take(w.len() as int) == w
        &&& common::changes_dir(fx[w.len() as int], session_id@, "~"@)
    } else {
        after == before && fx == w + seq![Effect::Disconnect(session_id)]
    }
}

/// A split's connect is through. If the tab vanished, or has a split, while it
/// was connecting, the session is not leaked: it is closed. The bottom panel
/// follows the focused pane, so it shows this session's files now.
pub fn on_split_connected(state: &mut NeoShell, tab_id: String, vertical: bool, session_id: String) -> (fx: Vec<
    Effect,
>)
    requires
        old(state).wf(),
    ensures
        split_connected(*old(state), tab_id, vertical, session_id, *final(state), fx@),
        final(state).wf(),
{
    let mut fx = wake_for_held(state);
    let ghost w = fx@;
    match tabs::position_of_id(&state.sessions.tabs, tab_id.as_str()) {
        Some(i) => {
            assert(state::tab_wf(state.sessions.tabs@[i as int]));
            if state.sessions.tabs[i].split.is_none() && tabs::opt_same(
                &state.sessions.tabs[i].split_pending,
                session_id.as_str(),
            ) {
                state.sessions.tabs[i].split_pending = None;
                state.sessions.tabs[i].split = Some(
                    SplitPane {
                        session_id: session_id.clone(),
                        terminal: TerminalGrid::blank(80, 24),
                        vertical,
                    },
                );
                state.sessions.tabs[i].focus_split = true;
                proof {
                    let t = state.sessions.tabs@[i as int];
                    assert(state.sessions.tabs@ =~= old(state).sessions.tabs@.update(i as int, t));
                    lemma_wf_updated(old(state).sessions.tabs@, i as int, t);
                }
                state.browser.current_dir.insert(session_id.clone(), "~".to_owned());
                fx.push(Effect::Then(Message::ChangeDir(session_id, "~".to_owned())));
                assert(fx@.take(w.len() as int) =~= w);
                return fx;
            }
        },
        None => {},
    }
    fx.push(Effect::Disconnect(session_id));
    assert(fx@ =~= w + seq![Effect::Disconnect(session_id)]);
    fx
}

pub open spec fn split_failed(before: NeoShell, tab_id: String, e: String, after: NeoShell) -> bool {
    match tabs::tab_with_id(before.sessions.tabs@, tab_id@) {
        Some(i) => {
            &&& after.sessions.tabs@ == before.sessions.tabs@.update(
                i,
                TerminalTab { split_pending: None, ..before.sessions.tabs@[i] },
            )
            &&& after == (NeoShell {
                sessions: Sessions { tabs: after.sessions.tabs, ..before.sessions },
                error: ErrorBox { message: e, show: true, ..before.error },
                ..before
            })
        },
        None => after == before,
    }
}

/// A split's connect failed. If the tab was closed meanwhile, nobody is
/// waiting.
pub fn on_split_failed(state: &mut NeoShell, tab_id: String, e: String)
    requires
        old(state).wf(),
    ensures
        split_failed(*old(state), tab_id, e, *final(state)),
        final(state).wf(),
{
    match tabs::position_of_id(&state.sessions.tabs, tab_id.as_str()) {
        Some(i) => {
            assert(state::tab_wf(state.sessions.tabs@[i as int]));
            state.sessions.tabs[i].split_pending = None;
            proof {
                let t = TerminalTab { split_pending: None, ..old(state).sessions.tabs@[i as int] };
                assert(state.sessions.tabs@ =~= old(state).sessions.tabs@.update(i as int, t));
                lemma_wf_updated(old(state).sessions.tabs@, i as int, t);
            }
            state.show_error(e);
        },
        None => {},
    }
}

pub open spec fn pane_toggled(before: NeoShell, after: NeoShell) -> bool {
    match common::active_at(before.sessions) {
        Some(i) => if before.sessions.tabs@[i].split is Some {
            let t = before.sessions.tabs@[i];
            &&& after.sessions.tabs@ == before.sessions.tabs@.update(
                i,
                TerminalTab { focus_split: !t.focus_split, ..t },
            )
            &&& after == (NeoShell {
                sessions: Sessions { tabs: after.sessions.tabs, ..before.sessions },
                ..before
            })
        } else {
            after == before
        },
        None => after == before,
    }
}

pub fn on_split_focus_toggle(state: &mut NeoShell)
    requires
        old(state).wf(),
    ensures
        pane_toggled(*old(state), *final(state)),
        final(state).wf(),
{
    match state.sessions.active() {
        Some(i) => {
            assert(state::tab_wf(state.sessions.tabs@[i as int]));
            if state.sessions.tabs[i].split.is_some() {
                let other = !state.sessions.tabs[i].focus_split;
                state.sessions.tabs[i].focus_split = other;
                proof {
                    let t = TerminalTab { focus_split: other, ..old(state).sessions.tabs@[i as int] };
                    assert(state.sessions.tabs@ =~= old(state).sessions.tabs@.update(i as int, t));
                    lemma_wf_updated(old(state).sessions.tabs@, i as int, t);
                }
            }
        },
        None => {},
    }
}

pub open spec fn has_split(s: Sessions) -> bool {
    common::active_at(s) matches Some(i) && s.tabs@[i].split is Some
}

pub open spec fn divider_pressed(before: NeoShell, after: NeoShell, fx: Seq<Effect>) -> bool {
    &&& after == (NeoShell {
        mouse: Mouse { dragging_divider: has_split(before.sessions), ..before.mouse },
        ..before
    })
    &&& fx == (if has_split(before.sessions) {
        seq![Effect::BeginDividerDrag]
    } else {
        Seq::empty()
    })
}

/// A press on the divider of the active tab's split starts to drag it.
pub fn on_split_divider_pressed(state: &mut NeoShell) -> (fx: Vec<Effect>)
    ensures
        divider_pressed(*old(state), *final(state), fx@),
{
    let dragging = match state.sessions.active() {
        Some(i) => state.sessions.tabs[i].split.is_some(),
        None => false,
    };
    state.mouse.dragging_divider = dragging;
    if dragging {
        common::one(Effect::BeginDividerDrag)
    } else {
        common::nothing()
    }
}

// ---- closing --------------------------------------------------------------------------------------------

/// The active tab once the tab at `i` was closed and `len` are left.
pub open spec fn active_after_close(i: int, len: nat) -> Option<usize> {
    if len == 0 {
        None
    } else if i < len {
        Some(i as usize)
    } else {
        Some((len - 1) as usize)
    }
}

pub fn active_once_closed(i: usize, len: usize) -> (r: Option<usize>)
    ensures
        r == active_after_close(i as int, len as nat),
{
    if len == 0 {
        None
    } else if i < len {
        Some(i)
    } else {
        Some(len - 1)
    }
}

/// `mid` is `before` without the tab and the sign-ins that it waits on. Closed
/// while connecting, its connection can be opened again at once.
pub open spec fn tab_taken(before: NeoShell, i: int, mid: NeoShell) -> bool {
    let t = before.sessions.tabs@[i];
    &&& mid.auth.queue@ == signing::not_asked_by(before.auth.queue@, tabs::auth_sessions(t))
    &&& mid.sessions.connecting@ == (if t.session_id@.len() == 0 {
        before.sessions.connecting@.remove(t.connection_id@)
    } else {
        before.sessions.connecting@
    })
    &&& mid.sessions.tabs@ == before.sessions.tabs@.remove(i)
    &&& mid == (NeoShell {
        auth: Auth { queue: mid.auth.queue, ..before.auth },
        sessions: Sessions {
            connecting: mid.sessions.connecting,
            tabs: mid.sessions.tabs,
            ..before.sessions
        },
        ..before
    })
}

/// `after` is `shown` without what is kept about the tab's sessions.
pub open spec fn tab_cleared(shown: NeoShell, t: TerminalTab, i: int, after: NeoShell) -> bool {
    let sid = t.session_id@;
    &&& after == (NeoShell {
        sessions: Sessions {
            active_tab: active_after_close(i, shown.sessions.tabs@.len()),
            ..shown.sessions
        },
        broadcast: Broadcast { selected: after.broadcast.selected, ..shown.broadcast },
        monitor: Monitoring {
            alerts: after.monitor.alerts,
            parked: after.monitor.parked,
            ..shown.monitor
        },
        browser: Browser {
            listings: after.browser.listings,
            current_dir: after.browser.current_dir,
            prompt_cwd: after.browser.prompt_cwd,
            ..shown.browser
        },
        ..shown
    })
    &&& after.monitor.parked@ == shown.monitor.parked@.remove(sid)
    &&& after.browser.listings@ == shown.browser.listings@.remove(sid)
    &&& after.browser.current_dir@ == shown.browser.current_dir@.remove(sid)
    &&& after.browser.prompt_cwd@ == shown.browser.prompt_cwd@.remove(sid)
    &&& match t.split {
        Some(sp) => {
            &&& after.monitor.alerts@ == shown.monitor.alerts@.remove(sid).remove(sp.session_id@)
            &&& after.broadcast.selected@ == shown.broadcast.selected@.remove(sid).remove(sp.session_id@)
        },
        None => {
            &&& after.monitor.alerts@ == shown.monitor.alerts@.remove(sid)
            &&& after.broadcast.selected@ == shown.broadcast.selected@.remove(sid)
        },
    }
}

/// What ends the sessions of a closed tab.
pub open spec fn sessions_ended(t: TerminalTab) -> Seq<Effect> {
    match t.split {
        Some(sp) => seq![
            Effect::ForgetSession(t.session_id),
            Effect::Disconnect(t.session_id),
            Effect::Disconnect(sp.session_id),
        ],
        None => seq![Effect::ForgetSession(t.session_id), Effect::Disconnect(t.session_id)],
    }
}

pub open spec fn tab_closed_via(
    before: NeoShell,
    i: int,
    now: u128,
    mid: NeoShell,
    shown: NeoShell,
    asked: Seq<Effect>,
    after: NeoShell,
    fx: Seq<Effect>,
) -> bool {
    let t = before.sessions.tabs@[i];
    let sessions = tabs::auth_sessions(t);
    &&& tab_taken(before, i, mid)
    &&& if signing::front_from(before.auth.queue@, sessions) {
        NeoShell::began(mid, now, shown, asked)
    } else {
        shown == mid && asked.len() == 0
    }
    &&& tab_cleared(shown, t, i, after)
    &&& fx == signing::cancels(signing::asked_by(before.auth.queue@, sessions)) + asked + sessions_ended(t)
}

/// What closing a tab makes of a state.
pub open spec fn tab_closed(before: NeoShell, idx: usize, now: u128, after: NeoShell, fx: Seq<Effect>) -> bool {
    if idx < before.sessions.tabs@.len() {
        exists|mid: NeoShell, shown: NeoShell, asked: Seq<Effect>| #[trigger]
            tab_closed_via(before, idx as int, now, mid, shown, asked, after, fx)
    } else {
        after == before && fx.len() == 0
    }
}

/// Take a tab out, and its sign-ins out of the queue. True when the one on the
/// modal was among them.
fn take_tab(state: &mut NeoShell, idx: usize) -> (r: (TerminalTab, Vec<Effect>, bool))
    requires
        old(state).wf(),
        idx < old(state).sessions.tabs@.len(),
    ensures
        r.0 == old(state).sessions.tabs@[idx as int],
        tab_taken(*old(state), idx as int, *final(state)),
        r.1@ == signing::cancels(signing::asked_by(old(state).auth.queue@, tabs::auth_sessions(r.0))),
        r.2 == signing::front_from(old(state).auth.queue@, tabs::auth_sessions(r.0)),
        state::tabs_wf(final(state).sessions.tabs@),
{
    let asking = tabs::tab_auth_sessions(&state.sessions.tabs[idx]);
    let (fx, front) = signing::withdraw(&mut state.auth, &asking);
    let tab = state.sessions.tabs.remove(idx);
    proof {
        lemma_wf_removed(old(state).sessions.tabs@, idx as int);
    }
    if forms::is_empty_text(tab.session_id.as_str()) {
        let _c = state.sessions.connecting.remove(tab.connection_id.as_str());
    }
    (tab, fx, front)
}

/// Drop what is kept about the sessions of a tab that is gone.
fn clear_tab(state: &mut NeoShell, tab: &TerminalTab, idx: usize)
    requires
        state::tabs_wf(old(state).sessions.tabs@),
        state::search_wf(old(state).search),
        old(state).palette.selected <= crate::palette::PALETTE_MAX,
        state::transfers_wf(old(state).transfers),
    ensures
        tab_cleared(*old(state), *tab, idx as int, *final(state)),
        final(state).wf(),
{
    state.monitor.parked.unpark(tab.session_id.as_str());
    let _l = state.browser.listings.remove(tab.session_id.as_str());
    let _d = state.browser.current_dir.remove(tab.session_id.as_str());
    let _p = state.browser.prompt_cwd.remove(tab.session_id.as_str());
    let _a = state.monitor.alerts.remove(tab.session_id.as_str());
    let _b = state.broadcast.selected.remove(tab.session_id.as_str());
    match &tab.split {
        Some(sp) => {
            let _sa = state.monitor.alerts.remove(sp.session_id.as_str());
            let _sb = state.broadcast.selected.remove(sp.session_id.as_str());
        },
        None => {},
    }
    state.sessions.active_tab = active_once_closed(idx, state.sessions.tabs.len());
}

fn end_sessions(tab: TerminalTab) -> (fx: Vec<Effect>)
    ensures
        fx@ == sessions_ended(tab),
{
    let ghost gone = tab;
    let mut fx: Vec<Effect> = Vec::new();
    fx.push(Effect::ForgetSession(tab.session_id.clone()));
    fx.push(Effect::Disconnect(tab.session_id));
    match tab.split {
        Some(sp) => fx.push(Effect::Disconnect(sp.session_id)),
        None => {},
    }
    assert(fx@ =~= sessions_ended(gone));
    fx
}

/// Close a tab, with its split pane's session.
///
/// Every sign-in the tab is waiting on — its connect, its split's, a reconnect
/// of either — is withdrawn as a cancel: the modal goes, or moves on to the
/// next challenge, and each SSH thread stops waiting for an answer nobody will
/// give.
pub fn on_tab_closed(state: &mut NeoShell, idx: usize, now: u128) -> (fx: Vec<Effect>)
    requires
        old(state).wf(),
        old(state).focus.issued + 3 <= u64::MAX,
    ensures
        tab_closed(*old(state), idx, now, *final(state), fx@),
        final(state).wf(),
{
    if idx >= state.sessions.tabs.len() {
        return common::nothing();
    }
    let (tab, mut fx, front) = take_tab(state, idx);
    let ghost mid = *state;
    let ghost withdrawn = fx@;
    let mut asked = if front {
        state.begin_auth_prompt(now)
    } else {
        common::nothing()
    };
    let ghost shown = *state;
    let ghost prompts = asked@;
    fx.append(&mut asked);
    assert(fx@ =~= withdrawn + prompts);
    clear_tab(state, &tab, idx);
    let mut ends = end_sessions(tab);
    let ghost ended = ends@;
    fx.append(&mut ends);
    assert(fx@ =~= withdrawn + prompts + ended);
    assert(tab_closed_via(*old(state), idx as int, now, mid, shown, prompts, *state, fx@));
    fx
}

proof fn lemma_filtered_out(queue: Seq<Waiting>, sessions: Seq<Seq<char>>, k: int)
    requires
        0 <= k < signing::not_asked_by(queue, sessions).len(),
    ensures
        !sessions.contains(signing::not_asked_by(queue, sessions)[k].challenge.session_id@),
{
    queue.lemma_filter_pred(|w: Waiting| !auth::from_sessions(w, sessions), k);
}

/// A closed tab leaves no sign-in behind: no challenge that waits afterwards
/// comes from one of its sessions, and those of the others wait on.
pub proof fn law_closing_a_tab_withdraws_its_sign_ins(
    before: NeoShell,
    idx: usize,
    now: u128,
    after: NeoShell,
    fx: Seq<Effect>,
    k: int,
)
    requires
        tab_closed(before, idx, now, after, fx),
        idx < before.sessions.tabs@.len(),
    ensures
        0 <= k < after.auth.queue@.len() ==> !tabs::auth_sessions(before.sessions.tabs@[idx as int]).contains(
            after.auth.queue@[k].challenge.session_id@,
        ),
        after.auth.queue@ == signing::not_asked_by(
            before.auth.queue@,
            tabs::auth_sessions(before.sessions.tabs@[idx as int]),
        ),
        after.sessions.tabs@ == before.sessions.tabs@.remove(idx as int),
{
    let (mid, shown, asked) = choose|mid: NeoShell, shown: NeoShell, asked: Seq<Effect>| #[trigger]
        tab_closed_via(before, idx as int, now, mid, shown, asked, after, fx);
    let sessions = tabs::auth_sessions(before.sessions.tabs@[idx as int]);
    if 0 <= k < after.auth.queue@.len() {
        lemma_filtered_out(before.auth.queue@, sessions, k);
    }
}

/// `mid` is `before` without the focused pane of the active tab.
pub open spec fn pane_taken(before: NeoShell, sid: Seq<char>, i: int, mid: NeoShell) -> bool {
    &&& tabs::without_pane(before.sessions.tabs@[i], sid) is Some
    &&& mid.sessions.tabs@ == before.sessions.tabs@.update(
        i,
        tabs::without_pane(before.sessions.tabs@[i], sid)->0,
    )
    &&& mid == (NeoShell { sessions: Sessions { tabs: mid.sessions.tabs, ..before.sessions }, ..before })
}

/// `after` is `before` with nothing selected.
pub open spec fn deselected(before: Mouse) -> Mouse {
    Mouse { selection_start: None, selection_end: None, selecting: false, ..before }
}

pub open spec fn pane_closed_via(
    before: NeoShell,
    sid: Seq<char>,
    i: int,
    now: u128,
    mid: NeoShell,
    forgot: NeoShell,
    quiet: NeoShell,
    asked: Seq<Effect>,
    after: NeoShell,
    fx: Seq<Effect>,
) -> bool {
    &&& pane_taken(before, sid, i, mid)
    &&& common::forgot(mid, sid, forgot)
    &&& quiet.auth.queue@ == signing::not_asked_by(before.auth.queue@, seq![sid])
    &&& quiet == (NeoShell {
        mouse: deselected(before.mouse),
        auth: Auth { queue: quiet.auth.queue, ..before.auth },
        ..forgot
    })
    &&& if signing::front_from(before.auth.queue@, seq![sid]) {
        NeoShell::began(quiet, now, after, asked)
    } else {
        after == quiet && asked.len() == 0
    }
    &&& {
        let head = signing::cancels(signing::asked_by(before.auth.queue@, seq![sid])) + asked;
        &&& fx.len() == head.len() + 2
        &&& fx.take(head.len() as int) == head
        &&& fx[head.len() as int] matches Effect::ForgetSession(s) && s@ == sid
        &&& common::disconnects(fx[(head.len() + 1) as int], sid)
    }
}

pub open spec fn pane_closed(before: NeoShell, now: u128, after: NeoShell, fx: Seq<Effect>) -> bool {
    match common::active_at(before.sessions) {
        Some(a) => if before.sessions.tabs@[a].split is None {
            after == before && fx == seq![Effect::Then(Message::TabClosed(a as usize))]
        } else {
            let sid = before.sessions.tabs@[a].focused();
            match tabs::split_tab_of(before.sessions.tabs@, sid) {
                Some(i) => exists|
                    mid: NeoShell,
                    forgot: NeoShell,
                    quiet: NeoShell,
                    asked: Seq<Effect>,
                | #[trigger]
                    pane_closed_via(before, sid, i, now, mid, forgot, quiet, asked, after, fx),
                None => tabs_only(before, after) && after.sessions.tabs@ == before.sessions.tabs@
                    && after.sessions.active_tab == before.sessions.active_tab && fx.len() == 0,
            }
        },
        None => after == before && fx.len() == 0,
    }
}

/// Close the focused pane; without a split, the tab.
///
/// Taken out here and now, the survivor promoted as the end of a session would
/// promote it. No event comes for it: the disconnect's stop flag ends the
/// reader without a word, and a dead pane left holding the focus turned every
/// key into an error. One that does arrive finds nothing left to do.
pub fn on_close_focused_pane(state: &mut NeoShell, now: u128) -> (fx: Vec<Effect>)
    requires
        old(state).wf(),
        old(state).focus.issued + 3 <= u64::MAX,
    ensures
        pane_closed(*old(state), now, *final(state), fx@),
        final(state).wf(),
{
    let a = match state.sessions.active() {
        Some(a) => a,
        None => {
            return common::nothing();
        },
    };
    if state.sessions.tabs[a].split.is_none() {
        return common::one(Effect::Then(Message::TabClosed(a)));
    }
    let sid = state.sessions.tabs[a].focused_session().to_owned();
    let removed = tabs::remove_split_pane(&mut state.sessions.tabs, sid.as_str());
    if !removed {
        return common::nothing();
    }
    proof {
        lemma_wf_pane_gone(old(state).sessions.tabs@, sid@);
    }
    let ghost mid = *state;
    state.forget_session(sid.as_str());
    let ghost forgot = *state;
    // The selection was in the pane that is gone.
    state.mouse.selection_start = None;
    state.mouse.selection_end = None;
    state.mouse.selecting = false;
    // Its sign-in challenges go with it, as a closed tab's do.
    let mut asking: Vec<String> = Vec::new();
    asking.push(sid.clone());
    assert(split::texts(asking@) =~= seq![sid@]);
    let (mut fx, front) = signing::withdraw(&mut state.auth, &asking);
    let ghost withdrawn = fx@;
    let ghost quiet = *state;
    let mut asked = if front {
        state.begin_auth_prompt(now)
    } else {
        common::nothing()
    };
    let ghost prompts = asked@;
    fx.append(&mut asked);
    let ghost head = fx@;
    assert(head =~= withdrawn + prompts);
    fx.push(Effect::ForgetSession(sid.clone()));
    fx.push(Effect::Disconnect(sid));
    assert(fx@.take(head.len() as int) =~= head);
    let ghost i = tabs::split_tab_of(old(state).sessions.tabs@, sid@)->0;
    assert(pane_closed_via(*old(state), sid@, i, now, mid, forgot, quiet, prompts, *state, fx@));
    fx
}

pub open spec fn is_tab_message(m: Message) -> bool {
    match m {
        Message::SwitchToNextTab => true,
        Message::SwitchToPrevTab => true,
        Message::SwitchToTab(_) => true,
        Message::SshConnected(_, _, _, _) => true,
        Message::ConnectFailed(_, _, _) => true,
        Message::TabSelected(_) => true,
        Message::TabClosed(_) => true,
        Message::TabRenameInput(_) => true,
        Message::TabRenameCommit => true,
        Message::TabRenameCancel => true,
        Message::SplitTab(_) => true,
        Message::SplitConnected(_, _, _) => true,
        Message::SplitFailed(_, _) => true,
        Message::SplitFocusToggle => true,
        Message::CloseFocusedPane => true,
        Message::SplitDividerPressed => true,
        _ => false,
    }
}

pub open spec fn rename_only(before: NeoShell, rename: TabRename, after: NeoShell) -> bool {
    after == (NeoShell { rename, ..before })
}

#[verifier::opaque]
pub open spec fn tab_step(before: NeoShell, m: Message, env: Env, after: NeoShell, fx: Seq<Effect>) -> bool {
    match m {
        Message::SwitchToNextTab => activated(
            before,
            next_tab(before.sessions.active_tab, before.sessions.tabs@.len()),
            after,
        ) && fx.len() == 0,
        Message::SwitchToPrevTab => activated(
            before,
            previous_tab(before.sessions.active_tab, before.sessions.tabs@.len()),
            after,
        ) && fx.len() == 0,
        Message::SwitchToTab(i) => switched_to(before, i, after) && fx.len() == 0,
        Message::SshConnected(t, s, title, c) => connected(before, t, s, title, c, after, fx),
        Message::ConnectFailed(t, c, e) => connect_failed(before, t, c, e, after) && fx.len() == 0,
        Message::TabSelected(i) => tab_clicked(before, i, env.now, after, fx),
        Message::TabClosed(i) => tab_closed(before, i, env.now, after, fx),
        Message::TabRenameInput(v) => rename_only(before, TabRename { input: v, ..before.rename }, after) && fx.len()
            == 0,
        Message::TabRenameCommit => rename_committed(before, after) && fx.len() == 0,
        Message::TabRenameCancel => rename_only(before, TabRename { tab: None, ..before.rename }, after) && fx.len()
            == 0,
        Message::SplitTab(v) => split_asked(before, v, env, after, fx),
        Message::SplitConnected(t, v, s) => split_connected(before, t, v, s, after, fx),
        Message::SplitFailed(t, e) => split_failed(before, t, e, after) && fx.len() == 0,
        Message::SplitFocusToggle => pane_toggled(before, after) && fx.len() == 0,
        Message::CloseFocusedPane => pane_closed(before, env.now, after, fx),
        Message::SplitDividerPressed => divider_pressed(before, after, fx),
        _ => true,
    }
}

/// The messages of the tabs and their panes.
pub fn handle_tab(state: &mut NeoShell, message: Message, env: &Env) -> (fx: Vec<Effect>)
    requires
        is_tab_message(message),
        old(state).wf(),
        old(state).has_room(),
    ensures
        tab_step(*old(state), message, *env, *final(state), fx@),
        final(state).wf(),
{
    proof {
        reveal(tab_step);
    }
    match message {
        Message::SwitchToNextTab => {
            on_switch_to_next_tab(state);
            common::nothing()
        },
        Message::SwitchToPrevTab => {
            on_switch_to_prev_tab(state);
            common::nothing()
        },
        Message::SwitchToTab(i) => {
            if i < state.sessions.tabs.len() {
                state.sessions.active_tab = Some(i);
            }
            common::nothing()
        },
        Message::SshConnected(tab_id, session_id, title, connection_id) => on_ssh_connected(
            state,
            tab_id,
            session_id,
            title,
            connection_id,
        ),
        Message::ConnectFailed(tab_id, connection_id, e) => {
            on_connect_failed(state, tab_id, connection_id, e);
            common::nothing()
        },
        Message::TabSelected(i) => on_tab_selected(state, i, env.now),
        Message::TabClosed(i) => on_tab_closed(state, i, env.now),
        Message::TabRenameInput(v) => {
            state.rename.input = v;
            common::nothing()
        },
        Message::TabRenameCommit => {
            on_tab_rename_commit(state);
            common::nothing()
        },
        Message::TabRenameCancel => {
            state.rename.tab = None;
            common::nothing()
        },
        Message::SplitTab(vertical) => on_split_tab(state, vertical, env),
        Message::SplitConnected(tab_id, vertical, session_id) => on_split_connected(
            state,
            tab_id,
            vertical,
            session_id,
        ),
        Message::SplitFailed(tab_id, e) => {
            on_split_failed(state, tab_id, e);
            common::nothing()
        },
        Message::SplitFocusToggle => {
            on_split_focus_toggle(state);
            common::nothing()
        },
        Message::CloseFocusedPane => on_close_focused_pane(state, env.now),
        Message::SplitDividerPressed => on_split_divider_pressed(state),
        _ => common::nothing(),
    }
}

} // verus!
