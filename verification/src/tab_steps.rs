//! What one message does to the tabs and their panes.

use vstd::prelude::*;
use vstd::string::*;

use crate::common;
use crate::panes;
use crate::signing;
use crate::state::Effect;
use crate::state::Env;
use crate::state::Message;
use crate::state::NeoShell;
use crate::state::Sessions;
use crate::steps;
use crate::tabs;
use crate::tabs::SplitPane;
use crate::tabs::TerminalTab;
use crate::text;
use crate::updating;
use crate::updating::Area;

verus! {

/// What the handling asks for is asked for, whether or not the focus is asked for too.
pub proof fn lemma_asked(fx: Seq<Effect>, first: Seq<Effect>, e: Effect)
    requires
        steps::asks_for(fx, first),
        first.contains(e),
    ensures
        fx.contains(e),
{
    let i = choose|i: int| 0 <= i < first.len() && first[i] == e;
    if fx != first {
        assert(fx[i] == fx.drop_last()[i]);
    }
    assert(fx[i] == e);
}

/// The tab with the id stands at `i`, the first such.
pub open spec fn stands_at(tabs: Seq<TerminalTab>, id: Seq<char>, i: int) -> bool {
    &&& 0 <= i < tabs.len()
    &&& tabs[i].id@ == id
    &&& forall|j: int| 0 <= j < i ==> (#[trigger] tabs[j]).id@ != id
}

proof fn lemma_stands_at(list: Seq<TerminalTab>, id: String, i: int)
    requires
        stands_at(list, id@, i),
    ensures
        tabs::tab_with_id(list, id@) == Some(i),
{
    tabs::lemma_first_tab(list, |t: TerminalTab| t.id@ == id@);
    let k = tabs::tab_with_id(list, id@)->0;
    assert(list[i].id@ == id@);
    if k < i {
        assert(list[k].id@ != id@);
    }
}

proof fn lemma_stands_nowhere(list: Seq<TerminalTab>, id: String)
    requires
        forall|j: int| 0 <= j < list.len() ==> (#[trigger] list[j]).id@ != id@,
    ensures
        tabs::tab_with_id(list, id@) is None,
{
    tabs::lemma_first_tab(list, |t: TerminalTab| t.id@ == id@);
    if tabs::tab_with_id(list, id@) is Some {
        assert(list[tabs::tab_with_id(list, id@)->0].id@ != id@);
    }
}

/// Next activates the tab behind the active one, and behind the last the first;
/// Previous goes the other way. A tab that is named by its place, by a key or a click,
/// becomes the active one. The tabs stay.
pub proof fn law_tabs_are_walked_and_picked(before: NeoShell, m: Message, env: Env, after: NeoShell, fx: Seq<Effect>)
    requires
        updating::updated(before, m, env, after, fx),
        m is SwitchToNextTab || m is SwitchToPrevTab || m is SwitchToTab || m is TabSelected,
    ensures
        m is SwitchToNextTab ==> (before.sessions.active_tab matches Some(i) ==> (i < before.sessions.tabs@.len()
            ==> after.sessions.active_tab is Some && after.sessions.active_tab->0 == (i + 1)
            % before.sessions.tabs@.len() as int)),
        m is SwitchToPrevTab ==> (before.sessions.active_tab matches Some(i) ==> (i < before.sessions.tabs@.len()
            ==> after.sessions.active_tab is Some && after.sessions.active_tab->0 == (i + before.sessions.tabs@.len() - 1)
            % before.sessions.tabs@.len() as int)),
        m matches Message::SwitchToTab(i) ==> after.sessions.active_tab == (if i < before.sessions.tabs@.len() {
            Some(i)
        } else {
            before.sessions.active_tab
        }),
        m matches Message::TabSelected(i) ==> (before.rename.last_click is None && i < before.sessions.tabs@.len()
            ==> after.sessions.active_tab == Some(i)),
        after.sessions == (Sessions { active_tab: after.sessions.active_tab, ..before.sessions }),
{
    let (mid, first) = steps::lemma_handled(before, m, env, after, fx, Area::Tab);
    reveal(panes::tab_step);
    let n = before.sessions.tabs@.len() as int;
    assert(before.sessions.tabs.len() <= usize::MAX);
    if before.sessions.active_tab is Some && before.sessions.active_tab->0 < n {
        let c = before.sessions.active_tab->0 as int;
        vstd::arithmetic::div_mod::lemma_mod_bound(c + 1, n);
        if c == 0 {
            vstd::arithmetic::div_mod::lemma_small_mod((n - 1) as nat, n as nat);
        } else {
            vstd::arithmetic::div_mod::lemma_small_mod((c - 1) as nat, n as nat);
            vstd::arithmetic::div_mod::lemma_mod_add_multiples_vanish(c - 1, n);
        }
    }
}

/// A second click on the tab within the time of a double click starts renaming that tab,
/// with the title that it shows filled in; a later one only picks it.
pub proof fn law_a_double_click_renames(before: NeoShell, i: usize, env: Env, after: NeoShell, fx: Seq<Effect>, at: u128)
    requires
        updating::updated(before, Message::TabSelected(i), env, after, fx),
        before.rename.last_click == Some((i, at)),
        i < before.sessions.tabs@.len(),
        at <= env.now,
    ensures
        env.now - at < 400_000_000 ==> after.rename.tab == Some(i) && after.rename.input@ == (match before.sessions.tabs@[i as int].custom_title {
            Some(t) => t@,
            None => before.sessions.tabs@[i as int].title@,
        }) && after.rename.last_click is None,
        env.now - at >= 400_000_000 ==> after.rename.tab == before.rename.tab && after.sessions.active_tab == Some(i)
            && after.rename.last_click == Some((i, env.now)),
{
    let (mid, first) = steps::lemma_handled(before, Message::TabSelected(i), env, after, fx, Area::Tab);
    reveal(panes::tab_step);
}

/// A name that is typed for a tab becomes that tab's, without the blanks round it; nothing
/// typed gives it its own title back. The other tabs keep their names.
pub proof fn law_a_tab_is_called_what_was_typed(before: NeoShell, env: Env, after: NeoShell, fx: Seq<Effect>, i: usize)
    requires
        updating::updated(before, Message::TabRenameCommit, env, after, fx),
        before.rename.tab == Some(i),
        i < before.sessions.tabs@.len(),
    ensures
        text::trim(before.rename.input@).len() > 0 ==> after.sessions.tabs@[i as int].shown_title() == text::trim(
            before.rename.input@,
        ),
        text::trim(before.rename.input@).len() == 0 ==> after.sessions.tabs@[i as int].shown_title()
            == before.sessions.tabs@[i as int].title@,
        after.sessions.tabs@.len() == before.sessions.tabs@.len(),
        forall|k: int|
            0 <= k < before.sessions.tabs@.len() && k != i ==> #[trigger] after.sessions.tabs@[k]
                == before.sessions.tabs@[k],
        after.rename.tab is None,
{
    let (mid, first) = steps::lemma_handled(before, Message::TabRenameCommit, env, after, fx, Area::Tab);
    reveal(panes::tab_step);
}

/// Giving up the renaming of a tab leaves every tab its name.
pub proof fn law_a_renaming_given_up_changes_nothing(before: NeoShell, env: Env, after: NeoShell, fx: Seq<Effect>)
    requires
        updating::updated(before, Message::TabRenameCancel, env, after, fx),
    ensures
        after.rename.tab is None,
        after.sessions == before.sessions,
{
    let (mid, first) = steps::lemma_handled(before, Message::TabRenameCancel, env, after, fx, Area::Tab);
    reveal(panes::tab_step);
}

/// A closed tab goes, and no other: the rest keep their order. Its sessions, both where it
/// was split, are disconnected, and no session of another tab is; what was kept about its
/// session is dropped. The tab in its place is the active one, or else the last.
#[verifier::rlimit(30)]
pub proof fn law_a_closed_tab_goes_alone(before: NeoShell, i: usize, env: Env, after: NeoShell, fx: Seq<Effect>)
    requires
        updating::updated(before, Message::TabClosed(i), env, after, fx),
        i < before.sessions.tabs@.len(),
    ensures
        after.sessions.tabs@.len() == before.sessions.tabs@.len() - 1,
        forall|k: int| 0 <= k < i ==> #[trigger] after.sessions.tabs@[k] == before.sessions.tabs@[k],
        forall|k: int|
            i <= k < before.sessions.tabs@.len() - 1 ==> #[trigger] after.sessions.tabs@[k]
                == before.sessions.tabs@[k + 1],
        before.sessions.tabs@.len() == 1 ==> after.sessions.active_tab is None,
        i < before.sessions.tabs@.len() - 1 ==> after.sessions.active_tab == Some(i),
        i == before.sessions.tabs@.len() - 1 && i > 0 ==> after.sessions.active_tab == Some((i - 1) as usize),
        fx.contains(Effect::Disconnect(before.sessions.tabs@[i as int].session_id)),
        before.sessions.tabs@[i as int].split matches Some(sp) ==> fx.contains(Effect::Disconnect(sp.session_id)),
        forall|e: Effect| #[trigger]
            fx.contains(e) && e is Disconnect ==> e->Disconnect_0 == before.sessions.tabs@[i as int].session_id || (
            before.sessions.tabs@[i as int].split matches Some(sp) && e->Disconnect_0 == sp.session_id),
        !after.browser.listings@.contains_key(before.sessions.tabs@[i as int].session_id@),
        !after.browser.current_dir@.contains_key(before.sessions.tabs@[i as int].session_id@),
        !after.broadcast.selected@.contains(before.sessions.tabs@[i as int].session_id@),
{
    let m = Message::TabClosed(i);
    let (end, first) = steps::lemma_handled(before, m, env, after, fx, Area::Tab);
    reveal(panes::tab_step);
    let s = updating::noted(before, m, env.now);
    let (mid, shown, asked) = choose|mid: NeoShell, shown: NeoShell, asked: Seq<Effect>| #[trigger]
        panes::tab_closed_via(s, i as int, env.now, mid, shown, asked, end, first);
    let t = before.sessions.tabs@[i as int];
    let gone = signing::cancels(signing::asked_by(s.auth.queue@, tabs::auth_sessions(t)));
    let ended = panes::sessions_ended(t);
    let n: int = (gone.len() + asked.len()) as int;
    assert(first == gone + asked + ended);
    assert(shown.sessions == mid.sessions);
    assert(first[n + 1] == Effect::Disconnect(t.session_id));
    lemma_asked(fx, first, Effect::Disconnect(t.session_id));
    if t.split is Some {
        assert(first[n + 2] == Effect::Disconnect(t.split->0.session_id));
        lemma_asked(fx, first, Effect::Disconnect(t.split->0.session_id));
    }
    assert forall|e: Effect| #[trigger] fx.contains(e) && e is Disconnect implies e->Disconnect_0 == t.session_id || (
    t.split matches Some(sp) && e->Disconnect_0 == sp.session_id) by {
        let k = choose|k: int| 0 <= k < fx.len() && fx[k] == e;
        if fx != first && k == fx.len() - 1 {
            assert(false);
        } else {
            if fx != first {
                assert(fx[k] == fx.drop_last()[k]);
            }
            assert(first[k] == e);
            if k < gone.len() {
                assert(gone[k] is Cancel);
            } else if k < n {
                assert(asked[k - gone.len()] == e);
            } else {
                assert(ended[k - n] == e);
            }
        }
    }
}

/// The tab that waited for the session shows it, under the title that came with it, and
/// its files are asked for; the other tabs stay as they were. With the tab closed
/// meanwhile, the session is ended.
pub proof fn law_the_waiting_tab_gets_its_session(
    before: NeoShell,
    tab_id: String,
    session_id: String,
    title: String,
    connection_id: String,
    env: Env,
    after: NeoShell,
    fx: Seq<Effect>,
    i: int,
)
    requires
        updating::updated(before, Message::SshConnected(tab_id, session_id, title, connection_id), env, after, fx),
    ensures
        stands_at(before.sessions.tabs@, tab_id@, i) ==> {
            let t = after.sessions.tabs@[i];
            &&& after.sessions.tabs@.len() == before.sessions.tabs@.len()
            &&& t.session_id == session_id
            &&& t.title == title
            &&& t.connection_id == connection_id
            &&& t.pending_session_id@.len() == 0
            &&& t.terminal == before.sessions.tabs@[i].terminal
            &&& !after.sessions.connecting@.contains(connection_id@)
            &&& !after.sessions.show_connect_dialog
            &&& after.browser.current_dir@.contains_key(session_id@)
            &&& after.browser.current_dir@[session_id@]@ == seq!['~']
        },
        stands_at(before.sessions.tabs@, tab_id@, i) ==> forall|k: int|
            0 <= k < before.sessions.tabs@.len() && k != i ==> #[trigger] after.sessions.tabs@[k]
                == before.sessions.tabs@[k],
        (forall|j: int| 0 <= j < before.sessions.tabs@.len() ==> (#[trigger] before.sessions.tabs@[j]).id@ != tab_id@)
            ==> fx.contains(Effect::Disconnect(session_id)) && after.sessions == before.sessions,
{
    let m = Message::SshConnected(tab_id, session_id, title, connection_id);
    let (mid, first) = steps::lemma_handled(before, m, env, after, fx, Area::Tab);
    reveal(panes::tab_step);
    reveal_strlit("~");
    assert("~"@ =~= seq!['~']);
    if stands_at(before.sessions.tabs@, tab_id@, i) {
        lemma_stands_at(before.sessions.tabs@, tab_id, i);
    }
    if forall|j: int| 0 <= j < before.sessions.tabs@.len() ==> (#[trigger] before.sessions.tabs@[j]).id@ != tab_id@ {
        lemma_stands_nowhere(before.sessions.tabs@, tab_id);
        assert(first[first.len() - 1] == Effect::Disconnect(session_id));
        lemma_asked(fx, first, Effect::Disconnect(session_id));
    }
}

/// A connect that failed takes its tab away and says why; its connection can be opened
/// again. A tab that is gone already leaves nothing to do.
pub proof fn law_a_failed_connect_is_told(
    before: NeoShell,
    tab_id: String,
    connection_id: String,
    e: String,
    env: Env,
    after: NeoShell,
    fx: Seq<Effect>,
    i: int,
)
    requires
        updating::updated(before, Message::ConnectFailed(tab_id, connection_id, e), env, after, fx),
    ensures
        stands_at(before.sessions.tabs@, tab_id@, i) ==> {
            &&& after.sessions.tabs@ == before.sessions.tabs@.remove(i)
            &&& after.error.show
            &&& after.error.message == e
            &&& !after.sessions.connecting@.contains(connection_id@)
        },
        (forall|j: int| 0 <= j < before.sessions.tabs@.len() ==> (#[trigger] before.sessions.tabs@[j]).id@ != tab_id@)
            ==> after.sessions == before.sessions && after.error == before.error,
{
    let m = Message::ConnectFailed(tab_id, connection_id, e);
    let (mid, first) = steps::lemma_handled(before, m, env, after, fx, Area::Tab);
    reveal(panes::tab_step);
    if stands_at(before.sessions.tabs@, tab_id@, i) {
        lemma_stands_at(before.sessions.tabs@, tab_id, i);
    }
    if forall|j: int| 0 <= j < before.sessions.tabs@.len() ==> (#[trigger] before.sessions.tabs@[j]).id@ != tab_id@ {
        lemma_stands_nowhere(before.sessions.tabs@, tab_id);
    }
}

/// Splitting the active tab connects a second session to the same connection, for that tab
/// and in the way that was asked for; a tab that is split, is being split or is not
/// connected yet is not split.
pub proof fn law_a_split_connects_the_same_again(
    before: NeoShell,
    vertical: bool,
    env: Env,
    after: NeoShell,
    fx: Seq<Effect>,
    i: usize,
)
    requires
        updating::updated(before, Message::SplitTab(vertical), env, after, fx),
        before.sessions.active_tab == Some(i),
        i < before.sessions.tabs@.len(),
    ensures
        ({
            let t = before.sessions.tabs@[i as int];
            if t.split is None && t.split_pending is None && t.session_id@.len() > 0 {
                &&& steps::asks_for(fx, seq![Effect::ConnectSplit(t.id, t.connection_id, env.new_session, vertical)])
                &&& after.sessions.tabs@[i as int] == (TerminalTab { split_pending: Some(env.new_session), ..t })
            } else {
                &&& steps::asks_for(fx, Seq::empty())
                &&& after.sessions == before.sessions
            }
        }),
        forall|k: int|
            0 <= k < before.sessions.tabs@.len() && k != i ==> #[trigger] after.sessions.tabs@[k]
                == before.sessions.tabs@[k],
{
    let (mid, first) = steps::lemma_handled(before, Message::SplitTab(vertical), env, after, fx, Area::Tab);
    reveal(panes::tab_step);
    if first.len() == 0 {
        assert(first =~= Seq::empty());
    }
}

/// The session of a split comes into the tab that waits for it, beside the first one and
/// with the keyboard in it; where no tab waits for it any more it is ended.
pub proof fn law_the_split_comes_where_it_is_waited_for(
    before: NeoShell,
    tab_id: String,
    vertical: bool,
    session_id: String,
    env: Env,
    after: NeoShell,
    fx: Seq<Effect>,
    i: int,
)
    requires
        updating::updated(before, Message::SplitConnected(tab_id, vertical, session_id), env, after, fx),
        stands_at(before.sessions.tabs@, tab_id@, i),
    ensures
        ({
            let t = before.sessions.tabs@[i];
            if t.split is None && (t.split_pending matches Some(p) && p@ == session_id@) {
                let now = after.sessions.tabs@[i];
                &&& now.split matches Some(sp) && sp.session_id == session_id && sp.vertical == vertical
                &&& now.split_pending is None
                &&& now.focused() == session_id@
                &&& now.session_id == t.session_id
                &&& now.terminal == t.terminal
            } else {
                &&& fx.contains(Effect::Disconnect(session_id))
                &&& after.sessions == before.sessions
            }
        }),
{
    let m = Message::SplitConnected(tab_id, vertical, session_id);
    let (mid, first) = steps::lemma_handled(before, m, env, after, fx, Area::Tab);
    reveal(panes::tab_step);
    lemma_stands_at(before.sessions.tabs@, tab_id, i);
    let t = before.sessions.tabs@[i];
    if !(t.split is None && (t.split_pending matches Some(p) && p@ == session_id@)) {
        assert(first[first.len() - 1] == Effect::Disconnect(session_id));
        lemma_asked(fx, first, Effect::Disconnect(session_id));
    }
}

/// The keyboard goes to the other pane of the active tab, and back.
pub proof fn law_the_keyboard_goes_to_the_other_pane(
    before: NeoShell,
    env: Env,
    after: NeoShell,
    fx: Seq<Effect>,
    i: usize,
    sp: SplitPane,
)
    requires
        updating::updated(before, Message::SplitFocusToggle, env, after, fx),
        before.sessions.active_tab == Some(i),
        i < before.sessions.tabs@.len(),
        before.sessions.tabs@[i as int].split == Some(sp),
    ensures
        before.sessions.tabs@[i as int].focus_split ==> common::focused_any(after.sessions) == Some(
            before.sessions.tabs@[i as int].session_id@,
        ),
        !before.sessions.tabs@[i as int].focus_split ==> common::focused_any(after.sessions) == Some(sp.session_id@),
        after.sessions.tabs@[i as int].terminal == before.sessions.tabs@[i as int].terminal,
        after.sessions.tabs@[i as int].split == Some(sp),
        forall|k: int|
            0 <= k < before.sessions.tabs@.len() && k != i ==> #[trigger] after.sessions.tabs@[k]
                == before.sessions.tabs@[k],
{
    let (mid, first) = steps::lemma_handled(before, Message::SplitFocusToggle, env, after, fx, Area::Tab);
    reveal(panes::tab_step);
}

/// Closing the focused pane of a split ends its session and leaves the other one in the
/// tab, alone and with the keyboard; a tab that is not split is closed.
#[verifier::rlimit(30)]
pub proof fn law_closing_a_pane_leaves_the_other(
    before: NeoShell,
    env: Env,
    after: NeoShell,
    fx: Seq<Effect>,
    i: usize,
    sp: SplitPane,
)
    requires
        updating::updated(before, Message::CloseFocusedPane, env, after, fx),
        before.sessions.active_tab == Some(i),
        i < before.sessions.tabs@.len(),
        before.sessions.tabs@[i as int].split == Some(sp),
        before.sessions.tabs@[i as int].session_id@ != sp.session_id@,
        before.sessions.tabs@[i as int].focused().len() > 0,
        forall|k: int|
            0 <= k < i ==> !(#[trigger] before.sessions.tabs@[k]).shows(before.sessions.tabs@[i as int].focused()),
    ensures
        ({
            let t = before.sessions.tabs@[i as int];
            let now = after.sessions.tabs@[i as int];
            &&& now.split is None
            &&& t.focus_split ==> now.session_id == t.session_id && now.terminal == t.terminal
            &&& !t.focus_split ==> now.session_id == sp.session_id && now.terminal == sp.terminal
            &&& now.id == t.id
            &&& exists|e: Effect| #[trigger] fx.contains(e) && e is Disconnect && e->Disconnect_0@ == t.focused()
        }),
        after.sessions.tabs@.len() == before.sessions.tabs@.len(),
        forall|k: int|
            0 <= k < before.sessions.tabs@.len() && k != i ==> #[trigger] after.sessions.tabs@[k]
                == before.sessions.tabs@[k],
        after.mouse.selection_start is None,
        after.mouse.selection_end is None,
{
    let m = Message::CloseFocusedPane;
    let (end, first) = steps::lemma_handled(before, m, env, after, fx, Area::Tab);
    reveal(panes::tab_step);
    let s = updating::noted(before, m, env.now);
    let t = before.sessions.tabs@[i as int];
    let sid = t.focused();
    let list = before.sessions.tabs@;
    let pred = |x: TerminalTab| x.shows(sid);
    tabs::lemma_first_tab(list, pred);
    assert(pred(list[i as int]));
    match tabs::first_tab(list, pred) {
        Some(k) => {
            if k < i {
                assert(pred(list[k]));
                assert(!list[k].shows(sid));
            }
        },
        None => {},
    }
    assert(tabs::tab_showing(list, sid) == Some(i as int));
    assert(tabs::split_tab_of(list, sid) == Some(i as int));
    let (mid, forgot, quiet, asked) = choose|mid: NeoShell, forgot: NeoShell, quiet: NeoShell, asked: Seq<Effect>| #[trigger]
        panes::pane_closed_via(s, sid, i as int, env.now, mid, forgot, quiet, asked, end, first);
    assert(end.sessions == mid.sessions);
    assert(end.mouse == quiet.mouse);
    let e = first.last();
    assert(first.contains(e));
    lemma_asked(fx, first, e);
}

/// In a tab that is not split, closing the pane closes the tab.
pub proof fn law_closing_the_only_pane_closes_the_tab(
    before: NeoShell,
    env: Env,
    after: NeoShell,
    fx: Seq<Effect>,
    i: usize,
)
    requires
        updating::updated(before, Message::CloseFocusedPane, env, after, fx),
        before.sessions.active_tab == Some(i),
        i < before.sessions.tabs@.len(),
        before.sessions.tabs@[i as int].split is None,
    ensures
        steps::asks_for(fx, seq![Effect::Then(Message::TabClosed(i))]),
        after.sessions == before.sessions,
{
    let (mid, first) = steps::lemma_handled(before, Message::CloseFocusedPane, env, after, fx, Area::Tab);
    reveal(panes::tab_step);
}

} // verus!
