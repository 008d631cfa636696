//! Terminal tabs, their panes, and the sessions that they show.

use vstd::prelude::*;

use crate::grid::TerminalGrid;
use crate::text;

verus! {

/// Second pane of a split tab. `vertical == true` means panes sit
/// side-by-side; false stacks them.
#[derive(Debug)]
pub struct SplitPane {
    pub session_id: String,
    pub terminal: TerminalGrid,
    pub vertical: bool,
}

#[derive(Debug)]
pub struct TerminalTab {
    pub id: String,
    pub session_id: String,
    pub connection_id: String,
    pub title: String,
    pub terminal: TerminalGrid,
    /// User-set tab name. Overrides `title` in the tab bar; cleared by
    /// renaming to an empty string.
    pub custom_title: Option<String>,
    /// Optional second pane. At most one split per tab.
    pub split: Option<SplitPane>,
    /// When a split exists: true = the split pane has keyboard focus.
    pub focus_split: bool,
    /// While the tab is still connecting (`session_id` stays empty until it
    /// is connected): the id the connect runs under. Its sign-in challenges
    /// carry it, so closing the tab can withdraw them. Empty once connected.
    pub pending_session_id: String,
    /// The same for a split being opened on this tab.
    pub split_pending: Option<String>,
}

/// The text that `s` holds, if any.
pub open spec fn opt_is(s: Option<String>, t: Seq<char>) -> bool {
    s matches Some(x) && x@ == t
}

pub fn opt_same(s: &Option<String>, t: &str) -> (r: bool)
    ensures
        r == opt_is(*s, t@),
{
    match s {
        Some(x) => text::same_text(x.as_str(), t),
        None => false,
    }
}

impl TerminalTab {
    /// The title shown in the tab bar.
    pub open spec fn shown_title(&self) -> Seq<char> {
        match self.custom_title {
            Some(t) => t@,
            None => self.title@,
        }
    }

    /// Title shown in the tab bar (custom name wins).
    pub fn display_title(&self) -> (r: &str)
        ensures
            r@ == self.shown_title(),
    {
        match &self.custom_title {
            Some(t) => t.as_str(),
            None => self.title.as_str(),
        }
    }

    /// The split pane has the keyboard.
    pub open spec fn in_split(&self) -> bool {
        self.split is Some && self.focus_split
    }

    /// The session of the pane with the keyboard.
    pub open spec fn focused(&self) -> Seq<char> {
        if self.in_split() {
            self.split->0.session_id@
        } else {
            self.session_id@
        }
    }

    /// Session id of the pane that currently has keyboard focus. It is also
    /// the session the bottom panel — monitor, ports, files — shows and acts
    /// on.
    pub fn focused_session(&self) -> (r: &str)
        ensures
            r@ == self.focused(),
    {
        match &self.split {
            Some(sp) => if self.focus_split {
                sp.session_id.as_str()
            } else {
                self.session_id.as_str()
            },
            None => self.session_id.as_str(),
        }
    }

    pub open spec fn focused_cells(&self) -> TerminalGrid {
        if self.in_split() {
            self.split->0.terminal
        } else {
            self.terminal
        }
    }

    /// Terminal grid of the pane that currently has keyboard focus.
    pub fn focused_grid(&self) -> (r: &TerminalGrid)
        ensures
            *r == self.focused_cells(),
    {
        match &self.split {
            Some(sp) => if self.focus_split {
                &sp.terminal
            } else {
                &self.terminal
            },
            None => &self.terminal,
        }
    }

    /// The session lives in this tab, as its main pane or its split.
    pub open spec fn shows(&self, session_id: Seq<char>) -> bool {
        self.session_id@ == session_id || (self.split matches Some(sp) && sp.session_id@ == session_id)
    }

    pub fn has_session(&self, session_id: &str) -> (r: bool)
        ensures
            r == self.shows(session_id@),
    {
        text::same_text(self.session_id.as_str(), session_id) || (match &self.split {
            Some(sp) => text::same_text(sp.session_id.as_str(), session_id),
            None => false,
        })
    }

    /// A connect or a split of this tab is still running under that id.
    pub open spec fn awaits(&self, session_id: Seq<char>) -> bool {
        self.pending_session_id@ == session_id || opt_is(self.split_pending, session_id)
    }

    pub fn is_awaiting(&self, session_id: &str) -> (r: bool)
        ensures
            r == self.awaits(session_id@),
    {
        text::same_text(self.pending_session_id.as_str(), session_id) || opt_same(
            &self.split_pending,
            session_id,
        )
    }
}

// ---- looking tabs up -----------------------------------------------------------------------

/// The first tab that `pred` picks.
pub open spec fn first_tab(tabs: Seq<TerminalTab>, pred: spec_fn(TerminalTab) -> bool) -> Option<int>
    decreases tabs.len(),
{
    if tabs.len() == 0 {
        None
    } else if pred(tabs[0]) {
        Some(0)
    } else {
        match first_tab(tabs.drop_first(), pred) {
            Some(i) => Some(i + 1),
            None => None,
        }
    }
}

pub proof fn lemma_first_tab(tabs: Seq<TerminalTab>, pred: spec_fn(TerminalTab) -> bool)
    ensures
        match first_tab(tabs, pred) {
            Some(i) => 0 <= i < tabs.len() && pred(tabs[i]) && forall|j: int|
                0 <= j < i ==> !pred(#[trigger] tabs[j]),
            None => forall|j: int| 0 <= j < tabs.len() ==> !pred(#[trigger] tabs[j]),
        },
    decreases tabs.len(),
{
    if tabs.len() > 0 && !pred(tabs[0]) {
        let rest = tabs.drop_first();
        lemma_first_tab(rest, pred);
        match first_tab(rest, pred) {
            Some(i) => {
                assert forall|j: int| 0 <= j < i + 1 implies !pred(#[trigger] tabs[j]) by {
                    if j > 0 {
                        assert(tabs[j] == rest[j - 1]);
                    }
                }
            },
            None => {
                assert forall|j: int| 0 <= j < tabs.len() implies !pred(#[trigger] tabs[j]) by {
                    if j > 0 {
                        assert(tabs[j] == rest[j - 1]);
                    }
                }
            },
        }
    }
}

/// What is known of a position settles which tab is the first.
pub proof fn lemma_is_first_tab(tabs: Seq<TerminalTab>, pred: spec_fn(TerminalTab) -> bool, i: int)
    requires
        0 <= i < tabs.len(),
        pred(tabs[i]),
        forall|j: int| 0 <= j < i ==> !pred(#[trigger] tabs[j]),
    ensures
        first_tab(tabs, pred) == Some(i),
{
    lemma_first_tab(tabs, pred);
}

/// The tab with that id.
pub open spec fn tab_with_id(tabs: Seq<TerminalTab>, id: Seq<char>) -> Option<int> {
    first_tab(tabs, |t: TerminalTab| t.id@ == id)
}

pub fn position_of_id(tabs: &Vec<TerminalTab>, id: &str) -> (r: Option<usize>)
    ensures
        match r {
            Some(i) => tab_with_id(tabs@, id@) == Some(i as int) && i < tabs@.len() && tabs@[i as int].id@
                == id@,
            None => tab_with_id(tabs@, id@) is None,
        },
{
    let ghost pred = |t: TerminalTab| t.id@ == id@;
    let mut i: usize = 0;
    while i < tabs.len()
        invariant
            i <= tabs@.len(),
            pred == (|t: TerminalTab| t.id@ == id@),
            forall|j: int| 0 <= j < i ==> !pred(#[trigger] tabs@[j]),
        decreases tabs.len() - i,
    {
        if text::same_text(tabs[i].id.as_str(), id) {
            proof {
                lemma_is_first_tab(tabs@, pred, i as int);
            }
            return Some(i);
        }
        i += 1;
    }
    proof {
        lemma_first_tab(tabs@, pred);
    }
    None
}

/// The tab whose main pane shows the session.
pub open spec fn tab_with_main(tabs: Seq<TerminalTab>, session_id: Seq<char>) -> Option<int> {
    first_tab(tabs, |t: TerminalTab| t.session_id@ == session_id)
}

pub fn position_of_main(tabs: &Vec<TerminalTab>, session_id: &str) -> (r: Option<usize>)
    ensures
        match r {
            Some(i) => tab_with_main(tabs@, session_id@) == Some(i as int) && i < tabs@.len()
                && tabs@[i as int].session_id@ == session_id@,
            None => tab_with_main(tabs@, session_id@) is None,
        },
{
    let ghost pred = |t: TerminalTab| t.session_id@ == session_id@;
    let mut i: usize = 0;
    while i < tabs.len()
        invariant
            i <= tabs@.len(),
            pred == (|t: TerminalTab| t.session_id@ == session_id@),
            forall|j: int| 0 <= j < i ==> !pred(#[trigger] tabs@[j]),
        decreases tabs.len() - i,
    {
        if text::same_text(tabs[i].session_id.as_str(), session_id) {
            proof {
                lemma_is_first_tab(tabs@, pred, i as int);
            }
            return Some(i);
        }
        i += 1;
    }
    proof {
        lemma_first_tab(tabs@, pred);
    }
    None
}

/// The tab a session lives in, as its main pane or its split.
pub open spec fn tab_showing(tabs: Seq<TerminalTab>, session_id: Seq<char>) -> Option<int> {
    first_tab(tabs, |t: TerminalTab| t.shows(session_id))
}

pub fn tab_for_session(tabs: &Vec<TerminalTab>, session_id: &str) -> (r: Option<usize>)
    ensures
        match r {
            Some(i) => tab_showing(tabs@, session_id@) == Some(i as int) && i < tabs@.len()
                && tabs@[i as int].shows(session_id@),
            None => tab_showing(tabs@, session_id@) is None,
        },
{
    let ghost pred = |t: TerminalTab| t.shows(session_id@);
    let mut i: usize = 0;
    while i < tabs.len()
        invariant
            i <= tabs@.len(),
            pred == (|t: TerminalTab| t.shows(session_id@)),
            forall|j: int| 0 <= j < i ==> !pred(#[trigger] tabs@[j]),
        decreases tabs.len() - i,
    {
        if tabs[i].has_session(session_id) {
            proof {
                lemma_is_first_tab(tabs@, pred, i as int);
            }
            return Some(i);
        }
        i += 1;
    }
    proof {
        lemma_first_tab(tabs@, pred);
    }
    None
}

/// The grid that belongs to a session, in whichever tab or pane it lives.
pub open spec fn cells_of(tabs: Seq<TerminalTab>, session_id: Seq<char>) -> Option<TerminalGrid> {
    match tab_showing(tabs, session_id) {
        Some(i) => if tabs[i].session_id@ == session_id {
            Some(tabs[i].terminal)
        } else {
            Some(tabs[i].split->0.terminal)
        },
        None => None,
    }
}

/// Terminal grid that belongs to the given SSH `session_id`, regardless of
/// which tab or pane it lives in.
pub fn find_terminal_for_session<'a>(tabs: &'a Vec<TerminalTab>, session_id: &str) -> (r: Option<
    &'a TerminalGrid,
>)
    ensures
        match r {
            Some(g) => cells_of(tabs@, session_id@) == Some(*g),
            None => cells_of(tabs@, session_id@) is None,
        },
{
    match tab_for_session(tabs, session_id) {
        None => None,
        Some(i) => {
            if text::same_text(tabs[i].session_id.as_str(), session_id) {
                Some(&tabs[i].terminal)
            } else {
                match &tabs[i].split {
                    Some(sp) => Some(&sp.terminal),
                    None => None,
                }
            }
        },
    }
}

/// A tab holds a live session for the connection.
pub open spec fn has_live(tabs: Seq<TerminalTab>, conn_id: Seq<char>) -> bool {
    exists|i: int|
        0 <= i < tabs.len() && (#[trigger] tabs[i]).connection_id@ == conn_id && tabs[i].session_id@.len() > 0
}

/// True while any tab holds a live session for this saved connection.
pub fn is_connected(tabs: &Vec<TerminalTab>, conn_id: &str) -> (r: bool)
    ensures
        r == has_live(tabs@, conn_id@),
{
    let mut i: usize = 0;
    while i < tabs.len()
        invariant
            i <= tabs@.len(),
            forall|j: int|
                0 <= j < i ==> !((#[trigger] tabs@[j]).connection_id@ == conn_id@ && tabs@[j].session_id@.len()
                    > 0),
        decreases tabs.len() - i,
    {
        if text::same_text(tabs[i].connection_id.as_str(), conn_id)
            && !tabs[i].session_id.as_str().is_empty() {
            assert(tabs@[i as int].connection_id@ == conn_id@);
            return true;
        }
        i += 1;
    }
    false
}

/// A tab waits for that session.
pub open spec fn connecting(tabs: Seq<TerminalTab>, session_id: Seq<char>) -> bool {
    session_id.len() > 0 && exists|i: int| 0 <= i < tabs.len() && (#[trigger] tabs[i]).awaits(session_id)
}

/// Whether `session_id` is a connect or a split still in flight: a tab holds
/// its id, but no pane shows the session yet.
pub fn session_connecting(tabs: &Vec<TerminalTab>, session_id: &str) -> (r: bool)
    ensures
        r == connecting(tabs@, session_id@),
{
    if session_id.is_empty() {
        return false;
    }
    let mut i: usize = 0;
    while i < tabs.len()
        invariant
            i <= tabs@.len(),
            session_id@.len() > 0,
            forall|j: int| 0 <= j < i ==> !(#[trigger] tabs@[j]).awaits(session_id@),
        decreases tabs.len() - i,
    {
        if tabs[i].is_awaiting(session_id) {
            assert(tabs@[i as int].awaits(session_id@));
            return true;
        }
        i += 1;
    }
    false
}

// ---- sign-in challenges of a tab ------------------------------------------------------------

/// A text, unless it is blank.
pub open spec fn named(s: Seq<char>) -> Seq<Seq<char>> {
    if s.len() == 0 {
        Seq::empty()
    } else {
        seq![s]
    }
}

/// Every session id a tab's sign-in challenges can carry.
pub open spec fn auth_sessions(tab: TerminalTab) -> Seq<Seq<char>> {
    named(tab.session_id@) + named(tab.pending_session_id@) + (match tab.split {
        Some(sp) => named(sp.session_id@),
        None => Seq::empty(),
    }) + (match tab.split_pending {
        Some(s) => named(s@),
        None => Seq::empty(),
    })
}

fn push_named(out: &mut Vec<String>, s: &String)
    ensures
        crate::split::texts(final(out)@) == crate::split::texts(old(out)@) + named(s@),
{
    let ghost before = out@;
    if !s.as_str().is_empty() {
        out.push(s.clone());
    }
    assert(crate::split::texts(out@) =~= crate::split::texts(before) + named(s@));
}

/// Every session id a tab's sign-in challenges can carry: its session or,
/// while it connects, the id that connect runs under — and the same for its
/// split.
pub fn tab_auth_sessions(tab: &TerminalTab) -> (out: Vec<String>)
    ensures
        crate::split::texts(out@) == auth_sessions(*tab),
{
    let mut out: Vec<String> = Vec::new();
    assert(crate::split::texts(out@) =~= Seq::<Seq<char>>::empty());
    push_named(&mut out, &tab.session_id);
    push_named(&mut out, &tab.pending_session_id);
    match &tab.split {
        Some(sp) => push_named(&mut out, &sp.session_id),
        None => {},
    }
    match &tab.split_pending {
        Some(s) => push_named(&mut out, s),
        None => {},
    }
    assert(crate::split::texts(out@) =~= auth_sessions(*tab));
    out
}

/// A challenge from `session_id` has nobody to answer it.
pub open spec fn orphaned(session_id: Seq<char>, tabs: Seq<TerminalTab>) -> bool {
    session_id.len() > 0 && forall|i: int|
        0 <= i < tabs.len() ==> !auth_sessions(#[trigger] tabs[i]).contains(session_id)
}

/// Whether a challenge from `session_id` has nobody to answer it: it names a
/// session, and no tab or pane holds it — as its session, or as the connect
/// or split still dialling under it. A test or a key deployment carries no
/// session and always has its modal.
pub fn challenge_orphaned(session_id: &str, tabs: &Vec<TerminalTab>) -> (r: bool)
    ensures
        r == orphaned(session_id@, tabs@),
{
    if session_id.is_empty() {
        return false;
    }
    let mut i: usize = 0;
    while i < tabs.len()
        invariant
            i <= tabs@.len(),
            forall|j: int| 0 <= j < i ==> !auth_sessions(#[trigger] tabs@[j]).contains(session_id@),
        decreases tabs.len() - i,
    {
        let asking = tab_auth_sessions(&tabs[i]);
        if list_has(&asking, session_id) {
            assert(auth_sessions(tabs@[i as int]).contains(session_id@));
            return false;
        }
        i += 1;
    }
    true
}

/// Whether `name` stands in the list.
pub fn list_has(list: &Vec<String>, name: &str) -> (r: bool)
    ensures
        r == crate::split::texts(list@).contains(name@),
        r == crate::names::in_list(list@, name@),
{
    let mut i: usize = 0;
    while i < list.len()
        invariant
            i <= list@.len(),
            forall|j: int| 0 <= j < i ==> (#[trigger] list@[j])@ != name@,
        decreases list.len() - i,
    {
        if text::same_text(list[i].as_str(), name) {
            assert(crate::split::texts(list@)[i as int] == name@);
            assert(list@[i as int]@ == name@);
            return true;
        }
        i += 1;
    }
    assert(!crate::split::texts(list@).contains(name@)) by {
        if crate::split::texts(list@).contains(name@) {
            let j = choose|j: int| 0 <= j < crate::split::texts(list@).len() && crate::split::texts(list@)[j]
                == name@;
            assert(list@[j]@ == name@);
        }
    }
    false
}

// ---- taking panes out ------------------------------------------------------------------------

/// The tab without the pane that shows the session, if a pane is left.
pub open spec fn without_pane(tab: TerminalTab, session_id: Seq<char>) -> Option<TerminalTab> {
    match tab.split {
        Some(sp) => if sp.session_id@ == session_id {
            Some(TerminalTab { split: None, focus_split: false, ..tab })
        } else if tab.session_id@ == session_id {
            Some(
                TerminalTab {
                    session_id: sp.session_id,
                    terminal: sp.terminal,
                    split: None,
                    focus_split: false,
                    ..tab
                },
            )
        } else {
            None
        },
        None => None,
    }
}

/// The tab that loses a pane when the session goes, if one does.
pub open spec fn split_tab_of(tabs: Seq<TerminalTab>, session_id: Seq<char>) -> Option<int> {
    if session_id.len() == 0 {
        None
    } else {
        match tab_showing(tabs, session_id) {
            Some(i) => if tabs[i].split is Some {
                Some(i)
            } else {
                None
            },
            None => None,
        }
    }
}

/// Take the pane showing `session_id` out of a split tab: a split pane just
/// goes; a main pane hands the tab to its split, which becomes the main pane.
/// `false` when no split tab shows the session — its tab has no split, and
/// closes whole, or the pane was taken out already.
pub fn remove_split_pane(tabs: &mut Vec<TerminalTab>, session_id: &str) -> (removed: bool)
    ensures
        removed == split_tab_of(old(tabs)@, session_id@) is Some,
        match split_tab_of(old(tabs)@, session_id@) {
            Some(i) => 0 <= i < old(tabs)@.len() && without_pane(old(tabs)@[i], session_id@) is Some
                && final(tabs)@ == old(tabs)@.update(
                i,
                without_pane(old(tabs)@[i], session_id@)->0,
            ),
            None => final(tabs)@ == old(tabs)@,
        },
{
    if session_id.is_empty() {
        return false;
    }
    let i: usize = match tab_for_session(tabs, session_id) {
        Some(i) => i,
        None => {
            return false;
        },
    };
    let mut split: Option<SplitPane> = None;
    std::mem::swap(&mut tabs[i].split, &mut split);
    match split {
        None => {
            assert(tabs@ =~= old(tabs)@);
            false
        },
        Some(sp) => {
            if !text::same_text(sp.session_id.as_str(), session_id) {
                tabs[i].session_id = sp.session_id;
                tabs[i].terminal = sp.terminal;
            }
            tabs[i].focus_split = false;
            assert(tabs@ =~= old(tabs)@.update(
                i as int,
                without_pane(old(tabs)@[i as int], session_id@)->0,
            ));
            true
        },
    }
}

/// Taking a pane out leaves every other tab as it was, and the tab it is
/// taken from with one pane.
pub proof fn law_one_pane_goes(tabs: Seq<TerminalTab>, session_id: Seq<char>, i: int, k: int)
    requires
        split_tab_of(tabs, session_id) == Some(i),
        0 <= k < tabs.len(),
        0 <= i < tabs.len(),
        without_pane(tabs[i], session_id) is Some,
    ensures
        ({
            let after = tabs.update(i, without_pane(tabs[i], session_id)->0);
            &&& k != i ==> after[k] == tabs[k]
            &&& after[i].split is None
            &&& !after[i].in_split()
            &&& after[i].id == tabs[i].id
        }),
{
}

} // verus!
