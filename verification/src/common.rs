//! What the handlers of several messages share.

use vstd::prelude::*;
use vstd::string::*;

use crate::catalog::Catalog;
use crate::connections::ConnectionInfo;
use crate::folded;
use crate::forms;
use crate::grid;
use crate::grid::MouseMode;
use crate::grid::TerminalGrid;
use crate::history;
use crate::history::CmdRecord;
use crate::history::HistorySync;
use crate::history::WriteLedger;
use crate::palette;
use crate::palette::PaletteItem;
use crate::remote_files;
use crate::remote_files::OpEnd;
use crate::secrets;
use crate::state;
use crate::state::BottomTab;
use crate::state::Broadcast;
use crate::state::Browser;
use crate::state::Effect;
use crate::state::Env;
use crate::state::ErrorBox;
use crate::state::Groups;
use crate::state::HistoryPanel;
use crate::state::Message;
use crate::state::Monitoring;
use crate::state::NeoShell;
use crate::state::Sessions;
use crate::state::Typing;
use crate::tabs;
use crate::tabs::SplitPane;
use crate::tabs::TerminalTab;
use crate::text;
use crate::titles;

verus! {

// ---- effects, read ---------------------------------------------------------------------------

pub open spec fn changes_dir(e: Effect, sid: Seq<char>, path: Seq<char>) -> bool {
    match e {
        Effect::Then(Message::ChangeDir(s, p)) => s@ == sid && p@ == path,
        _ => false,
    }
}

pub open spec fn sends(e: Effect, sid: Seq<char>, data: Seq<char>) -> bool {
    match e {
        Effect::Send(s, d) => s@ == sid && d@ == data,
        _ => false,
    }
}

pub open spec fn disconnects(e: Effect, sid: Seq<char>) -> bool {
    match e {
        Effect::Disconnect(s) => s@ == sid,
        _ => false,
    }
}

pub open spec fn notices(e: Effect, tab_id: Seq<char>, note: Seq<char>) -> bool {
    match e {
        Effect::Notice(t, n) => t@ == tab_id && n@ == note,
        _ => false,
    }
}

pub fn one(e: Effect) -> (fx: Vec<Effect>)
    ensures
        fx@ == seq![e],
{
    let mut fx: Vec<Effect> = Vec::new();
    fx.push(e);
    assert(fx@ =~= seq![e]);
    fx
}

pub fn nothing() -> (fx: Vec<Effect>)
    ensures
        fx@ == Seq::<Effect>::empty(),
{
    let fx: Vec<Effect> = Vec::new();
    assert(fx@ =~= Seq::<Effect>::empty());
    fx
}

// ---- the error dialog -----------------------------------------------------------------------------

/// `after` is `before` with the message on the error dialog.
pub open spec fn error_shown(before: NeoShell, message: Seq<char>, after: NeoShell) -> bool {
    &&& after.error.message@ == message
    &&& after == (NeoShell {
        error: ErrorBox { message: after.error.message, show: true, ..before.error },
        ..before
    })
}

/// `after` is `before` with the message on the error dialog, under the title.
pub open spec fn notice_shown(before: NeoShell, title: Seq<char>, message: Seq<char>, after: NeoShell) -> bool {
    &&& after.error.message@ == message
    &&& after.error.title matches Some(t) && t.0 == titles::fingerprint_of(message) && t.1@ == title
    &&& after == (NeoShell {
        error: ErrorBox {
            message: after.error.message,
            show: true,
            title: after.error.title,
            ..before.error
        },
        ..before
    })
}

/// Key of the title over the message with the fingerprint.
pub open spec fn title_over(title: Option<(u64, &'static str)>, print: u64) -> Seq<char> {
    match title {
        Some((of, key)) => if of == print {
            key@
        } else {
            "err.title"@
        },
        None => "err.title"@,
    }
}

pub open spec fn dialog_title(title: Option<(u64, &'static str)>, message: Seq<char>) -> Seq<char> {
    title_over(title, titles::fingerprint_of(message))
}

/// Key of the title over the message with the fingerprint `print`: the one that
/// was put up with that message, or the usual one.
pub fn title_for(title: Option<(u64, &'static str)>, print: u64) -> (r: &'static str)
    ensures
        r@ == title_over(title, print),
{
    match title {
        Some((of, key)) => if of == print {
            key
        } else {
            "err.title"
        },
        None => "err.title",
    }
}

/// Key of the title over `message` on the error dialog: the one that was put
/// up with it, or the usual one.
pub fn error_dialog_title(title: Option<(u64, &'static str)>, message: &str) -> (r: &'static str)
    ensures
        r@ == dialog_title(title, message@),
{
    title_for(title, titles::fingerprint(message))
}

/// A notice is read under its own title.
pub proof fn law_a_notice_is_read_under_its_title(
    before: NeoShell,
    title: Seq<char>,
    message: Seq<char>,
    after: NeoShell,
)
    requires
        notice_shown(before, title, message, after),
    ensures
        dialog_title(after.error.title, after.error.message@) == title,
{
}

impl NeoShell {
    /// Put a failure on the error dialog.
    pub fn show_error(&mut self, message: String)
        ensures
            error_shown(*old(self), message@, *final(self)),
            final(self).error.message == message,
    {
        self.error.message = message;
        self.error.show = true;
    }

    /// Put `message` on the error dialog under `title` (the key of a text)
    /// instead of the connection-error one: something the user has to see
    /// that is no failure of a connection.
    pub fn show_notice(&mut self, title: &'static str, message: String)
        ensures
            notice_shown(*old(self), title@, message@, *final(self)),
    {
        self.error.title = Some((titles::fingerprint(message.as_str()), title));
        self.error.message = message;
        self.error.show = true;
    }
}

/// What the end of a transfer or an SFTP operation makes of a state. A report
/// of skipped entries is said as the completion that it is.
pub open spec fn end_reported(
    before: NeoShell,
    result: Result<(), String>,
    texts: Catalog,
    after: NeoShell,
    failed: bool,
) -> bool {
    match result {
        Ok(_) => after == before && !failed,
        Err(e) => if e@ == remote_files::TRANSFER_CANCELLED@ {
            after == before && !failed
        } else if remote_files::reports_skipped(e@, texts) {
            notice_shown(before, "notice.skipped_title"@, e@, after) && !failed
        } else {
            error_shown(before, e@, after) && failed
        },
    }
}

/// A transfer's or an SFTP operation's end, on the error dialog. True for a
/// failure.
pub fn report_transfer_error(state: &mut NeoShell, result: Result<(), String>, texts: &Catalog) -> (failed: bool)
    ensures
        end_reported(*old(state), result, *texts, *final(state), failed),
{
    match remote_files::op_end(result, texts) {
        OpEnd::Quiet => false,
        OpEnd::Skipped(note) => {
            state.show_notice("notice.skipped_title", note);
            false
        },
        OpEnd::Failed(e) => {
            state.show_error(e);
            true
        },
    }
}

// ---- the active tab ----------------------------------------------------------------------------------

/// The place of the active tab, if there is one.
pub open spec fn active_at(s: Sessions) -> Option<int> {
    match s.active_tab {
        Some(i) => if i < s.tabs@.len() {
            Some(i as int)
        } else {
            None
        },
        None => None,
    }
}

/// The session of the active tab's focused pane; it may be blank.
pub open spec fn focused_any(s: Sessions) -> Option<Seq<char>> {
    match active_at(s) {
        Some(i) => Some(s.tabs@[i].focused()),
        None => None,
    }
}

/// The session of the active tab's focused pane, once it is connected.
pub open spec fn focused_sid(s: Sessions) -> Option<Seq<char>> {
    match focused_any(s) {
        Some(f) => if f.len() > 0 {
            Some(f)
        } else {
            None
        },
        None => None,
    }
}

/// The grid of the active tab's focused pane.
pub open spec fn focused_cells(s: Sessions) -> Option<TerminalGrid> {
    match active_at(s) {
        Some(i) => Some(s.tabs@[i].focused_cells()),
        None => None,
    }
}

/// `tab` with another grid in its focused pane.
pub open spec fn with_focused(tab: TerminalTab, g: TerminalGrid) -> TerminalTab {
    if tab.in_split() {
        TerminalTab { split: Some(SplitPane { terminal: g, ..tab.split->0 }), ..tab }
    } else {
        TerminalTab { terminal: g, ..tab }
    }
}

/// The grid, to be painted anew.
pub open spec fn touched(g: TerminalGrid) -> TerminalGrid {
    TerminalGrid {
        generation: if g.generation == u64::MAX {
            0
        } else {
            (g.generation + 1) as u64
        },
        ..g
    }
}

/// `after` is `before` with the focused pane to be painted anew.
pub open spec fn repainted(before: Sessions, after: Sessions) -> bool {
    match active_at(before) {
        Some(i) => {
            &&& after.tabs@ == before.tabs@.update(
                i,
                with_focused(before.tabs@[i], touched(before.tabs@[i].focused_cells())),
            )
            &&& after == (Sessions { tabs: after.tabs, ..before })
        },
        None => after == before,
    }
}

impl Sessions {
    pub fn active(&self) -> (r: Option<usize>)
        ensures
            match r {
                Some(i) => active_at(*self) == Some(i as int) && i < self.tabs@.len(),
                None => active_at(*self) is None,
            },
    {
        match self.active_tab {
            Some(i) => if i < self.tabs.len() {
                Some(i)
            } else {
                None
            },
            None => None,
        }
    }

    /// The session of the focused pane, though it may be blank while its tab
    /// still connects.
    pub fn focused_session(&self) -> (r: Option<String>)
        ensures
            secrets::opt_view(r) == focused_any(*self),
    {
        match self.active() {
            Some(i) => Some(self.tabs[i].focused_session().to_owned()),
            None => None,
        }
    }

    /// SSH session id of the currently focused pane (split-aware).
    pub fn focused_session_id(&self) -> (r: Option<String>)
        ensures
            secrets::opt_view(r) == focused_sid(*self),
    {
        match self.focused_session() {
            Some(s) => if forms::is_empty_text(s.as_str()) {
                None
            } else {
                Some(s)
            },
            None => None,
        }
    }

    /// Terminal grid of the currently focused pane (split-aware).
    pub fn focused_terminal(&self) -> (r: Option<&TerminalGrid>)
        ensures
            match r {
                Some(g) => focused_cells(*self) == Some(*g),
                None => focused_cells(*self) is None,
            },
    {
        match self.active() {
            Some(i) => Some(self.tabs[i].focused_grid()),
            None => None,
        }
    }

    /// Have the focused pane painted anew.
    pub fn repaint_focused(&mut self)
        ensures
            repainted(*old(self), *final(self)),
            state::tabs_wf(old(self).tabs@) ==> state::tabs_wf(final(self).tabs@),
    {
        match self.active() {
            Some(i) => {
                let mut split: Option<SplitPane> = None;
                std::mem::swap(&mut self.tabs[i].split, &mut split);
                let in_split = self.tabs[i].focus_split && split.is_some();
                match split {
                    Some(sp) => {
                        let mut sp = sp;
                        if in_split {
                            sp.terminal.touch();
                        }
                        self.tabs[i].split = Some(sp);
                    },
                    None => {},
                }
                if !in_split {
                    let mut tab = self.tabs.remove(i);
                    tab.terminal.touch();
                    self.tabs.insert(i, tab);
                }
                let ghost want = with_focused(
                    old(self).tabs@[i as int],
                    touched(old(self).tabs@[i as int].focused_cells()),
                );
                assert(self.tabs@[i as int] == want);
                assert(self.tabs@ =~= old(self).tabs@.update(i as int, want));
                assert(state::tabs_wf(old(self).tabs@) ==> state::tabs_wf(self.tabs@)) by {
                    if state::tabs_wf(old(self).tabs@) {
                        assert(state::tab_wf(old(self).tabs@[i as int]));
                    }
                }
            },
            None => {},
        }
    }
}

// ---- connections, by id ----------------------------------------------------------------------------------

/// The place of the first saved connection with the id.
pub open spec fn conn_with_id(conns: Seq<ConnectionInfo>, id: Seq<char>) -> Option<int>
    decreases conns.len(),
{
    if conns.len() == 0 {
        None
    } else {
        match conn_with_id(conns.drop_last(), id) {
            Some(i) => Some(i),
            None => if conns.last().id@ == id {
                Some(conns.len() - 1)
            } else {
                None
            },
        }
    }
}

pub fn find_conn(conns: &Vec<ConnectionInfo>, id: &str) -> (r: Option<usize>)
    ensures
        match r {
            Some(i) => i < conns@.len() && conn_with_id(conns@, id@) == Some(i as int),
            None => conn_with_id(conns@, id@) is None,
        },
{
    let mut i: usize = 0;
    let mut found: Option<usize> = None;
    while i < conns.len()
        invariant
            i <= conns.len(),
            match found {
                Some(k) => k < i && conn_with_id(conns@.take(i as int), id@) == Some(k as int),
                None => conn_with_id(conns@.take(i as int), id@) is None,
            },
        decreases conns.len() - i,
    {
        assert(conns@.take(i + 1).drop_last() =~= conns@.take(i as int));
        if found.is_none() && text::same_text(conns[i].id.as_str(), id) {
            found = Some(i);
        }
        i += 1;
    }
    assert(conns@.take(conns@.len() as int) =~= conns@);
    found
}

/// The host that a session is connected to.
pub open spec fn host_for(s: Sessions, sid: Seq<char>) -> Seq<char> {
    match tabs::tab_showing(s.tabs@, sid) {
        Some(i) => match conn_with_id(s.connections@, s.tabs@[i].connection_id@) {
            Some(k) => s.connections@[k].host@,
            None => titles::host_of(s.tabs@[i].title@),
        },
        None => Seq::empty(),
    }
}

/// Host a session is connected to, for the command history.
pub fn session_host(s: &Sessions, session_id: &str) -> (r: String)
    ensures
        r@ == host_for(*s, session_id@),
{
    match tabs::tab_for_session(&s.tabs, session_id) {
        Some(i) => match find_conn(&s.connections, s.tabs[i].connection_id.as_str()) {
            Some(k) => s.connections[k].host.clone(),
            None => titles::host_from_title(s.tabs[i].title.as_str()),
        },
        None => String::new(),
    }
}

pub open spec fn label_for(s: Sessions, sid: Seq<char>) -> Seq<char> {
    match tabs::tab_showing(s.tabs@, sid) {
        Some(i) => titles::base_of(s.tabs@[i].title@),
        None => Seq::empty(),
    }
}

/// "user@host:port" of a session, without a reconnect marker — what a
/// destructive confirmation names alongside the path or pid.
pub fn session_label(s: &Sessions, session_id: &str) -> (r: String)
    ensures
        r@ == label_for(*s, session_id@),
{
    match tabs::tab_for_session(&s.tabs, session_id) {
        Some(i) => titles::title_base(s.tabs[i].title.as_str()),
        None => String::new(),
    }
}

// ---- texts by name -----------------------------------------------------------------------------------------

/// `after` is `before` with the text at the key.
pub open spec fn text_set(
    before: Map<Seq<char>, String>,
    key: Seq<char>,
    value: Seq<char>,
    after: Map<Seq<char>, String>,
) -> bool {
    &&& after.contains_key(key)
    &&& after[key]@ == value
    &&& after == before.insert(key, after[key])
}

// ---- the file browser ---------------------------------------------------------------------------------------

/// The directory that the file browser shows for a session.
pub open spec fn shown_dir(b: Browser, sid: Seq<char>) -> Option<Seq<char>> {
    if b.listings@.contains_key(sid) {
        Some(b.listings@[sid].dir@)
    } else {
        remote_files::text_at(b.current_dir@, sid)
    }
}

/// The directory the file browser shows for `session_id`: its listing's,
/// or — before the first listing lands — the one asked for. What an upload
/// into "this folder" targets, like every row action.
pub fn browser_dir(b: &Browser, session_id: &str) -> (r: Option<String>)
    ensures
        secrets::opt_view(r) == shown_dir(*b, session_id@),
{
    match b.listings.get(session_id) {
        Some(l) => Some(l.dir.clone()),
        None => match b.current_dir.get(session_id) {
            Some(d) => Some(d.clone()),
            None => None,
        },
    }
}

/// The text at the key, or the other one.
pub open spec fn text_or(m: Option<Seq<char>>, other: Seq<char>) -> Seq<char> {
    match m {
        Some(t) => t,
        None => other,
    }
}

pub fn dir_or_home(dir: Option<String>) -> (r: String)
    ensures
        r@ == text_or(secrets::opt_view(dir), "~"@),
{
    match dir {
        Some(d) => d,
        None => "~".to_owned(),
    }
}

pub fn current_dir_of(b: &Browser, session_id: &str) -> (r: Option<String>)
    ensures
        secrets::opt_view(r) == remote_files::text_at(b.current_dir@, session_id@),
{
    match b.current_dir.get(session_id) {
        Some(d) => Some(d.clone()),
        None => None,
    }
}

pub open spec fn absolute(dir: Option<Seq<char>>) -> Option<Seq<char>> {
    match dir {
        Some(d) => if d.len() > 0 && d[0] == '/' {
            Some(d)
        } else {
            None
        },
        None => None,
    }
}

fn keep_absolute(dir: Option<String>) -> (r: Option<String>)
    ensures
        secrets::opt_view(r) == absolute(secrets::opt_view(dir)),
{
    match dir {
        Some(d) => {
            let cs = text::chars_of(d.as_str());
            if cs.len() > 0 && cs[0] == '/' {
                Some(d)
            } else {
                None
            }
        },
        None => None,
    }
}

/// The pane that a drop lands on: the second one of a split where the pointer
/// is over it.
pub open spec fn drop_pane(tab: TerminalTab, in_second: bool) -> (Seq<char>, TerminalGrid) {
    match tab.split {
        Some(sp) => if in_second {
            (sp.session_id@, sp.terminal)
        } else {
            (tab.session_id@, tab.terminal)
        },
        None => (tab.session_id@, tab.terminal),
    }
}

/// Where a drop goes: the session and the remote directory.
pub open spec fn drop_goes(s: Sessions, b: Browser, in_second: bool) -> Option<(Seq<char>, Seq<char>)> {
    match active_at(s) {
        Some(i) => {
            let tab = s.tabs@[i];
            let pane = drop_pane(tab, in_second);
            if tab.session_id@.len() == 0 {
                None
            } else {
                match absolute(shown_dir(b, pane.0)) {
                    Some(d) => Some((pane.0, d)),
                    None => match absolute(grid::shown_cwd(pane.1)) {
                        Some(d) => Some((pane.0, d)),
                        None => match absolute(shown_dir(b, tab.session_id@)) {
                            Some(d) => Some((pane.0, d)),
                            None => None,
                        },
                    },
                }
            }
        },
        None => None,
    }
}

pub open spec fn pair_view(r: Option<(String, String)>) -> Option<(Seq<char>, Seq<char>)> {
    match r {
        Some((a, b)) => Some((a@, b@)),
        None => None,
    }
}

/// Session and remote directory a file dropped on the window uploads to.
///
/// The directory is the file browser's. A session without one falls back to
/// the cwd in that pane's prompt, then to the main pane's directory (same
/// host). Only absolute paths qualify: SFTP cannot expand `~`.
pub fn drop_target(s: &Sessions, b: &Browser, in_second_pane: bool) -> (r: Option<(String, String)>)
    requires
        state::tabs_wf(s.tabs@),
    ensures
        pair_view(r) == drop_goes(*s, *b, in_second_pane),
{
    let i = match s.active() {
        Some(i) => i,
        None => {
            return None;
        },
    };
    let tab = &s.tabs[i];
    assert(state::tab_wf(s.tabs@[i as int]));
    if forms::is_empty_text(tab.session_id.as_str()) {
        return None;
    }
    let (sid, g) = match &tab.split {
        Some(sp) => if in_second_pane {
            (sp.session_id.clone(), &sp.terminal)
        } else {
            (tab.session_id.clone(), &tab.terminal)
        },
        None => (tab.session_id.clone(), &tab.terminal),
    };
    match keep_absolute(browser_dir(b, sid.as_str())) {
        Some(d) => {
            return Some((sid, d));
        },
        None => {},
    }
    match keep_absolute(grid::extract_cwd_from_prompt(g)) {
        Some(d) => {
            return Some((sid, d));
        },
        None => {},
    }
    match keep_absolute(browser_dir(b, tab.session_id.as_str())) {
        Some(d) => Some((sid, d)),
        None => None,
    }
}

// ---- transfers ---------------------------------------------------------------------------------------------

pub open spec fn is_busy(s: NeoShell) -> bool {
    remote_files::is_taken(s.transfers.bar, s.transfers.running)
}

/// What being refused for a busy bar makes of a state.
pub open spec fn busy_said(before: NeoShell, texts: Catalog, after: NeoShell) -> bool {
    if is_busy(before) {
        error_shown(before, texts.says("transfer.busy"@), after)
    } else {
        after == before
    }
}

impl NeoShell {
    /// A transfer holds the single progress bar.
    pub fn transfer_busy(&self) -> (r: bool)
        ensures
            r == is_busy(*self),
    {
        remote_files::bar_busy(&self.transfers.bar, self.transfers.running)
    }

    /// While a transfer holds the bar, say so and return true. Starting
    /// another would take the bar — and with it the only Cancel — away from
    /// the one in flight.
    pub fn transfer_refused_busy(&mut self, texts: &Catalog) -> (busy: bool)
        ensures
            busy == is_busy(*old(self)),
            busy_said(*old(self), *texts, *final(self)),
    {
        if !self.transfer_busy() {
            return false;
        }
        self.show_error(texts.t("transfer.busy"));
        true
    }

    /// A progress bar is on screen whose counters another thread moves: a
    /// transfer's, or the update download's. No message comes as they move,
    /// so the view only catches up on a drain.
    pub fn progress_moving(&self, update_moving: bool) -> (r: bool)
        ensures
            r == (update_moving || (self.transfers.bar matches Some(p) && !p.finished)),
    {
        update_moving || match &self.transfers.bar {
            Some(p) => !p.finished,
            None => false,
        }
    }
}

// ---- keystrokes -----------------------------------------------------------------------------------------------

/// `out` are the sessions that a keystroke typed into `focused` goes to.
pub open spec fn key_targets(out: Seq<Seq<char>>, b: Broadcast, focused: Seq<char>) -> bool {
    if b.sync_on && b.selected@ != Set::<Seq<char>>::empty() {
        &&& forall|k: Seq<char>| #[trigger] out.contains(k) <==> b.selected@.contains(k) || k == focused
        &&& out.no_duplicates()
    } else {
        out == seq![focused]
    }
}

/// Sessions a keystroke typed into the focused pane goes to: that pane, plus
/// every ticked session while live sync is on.
pub fn keystroke_targets(b: &Broadcast, focused: String) -> (out: Vec<String>)
    ensures
        key_targets(crate::split::texts(out@), *b, focused@),
{
    if b.sync_on && !b.selected.is_empty() {
        let mut out = b.selected.names();
        let ghost all = out@;
        let known = b.selected.contains(focused.as_str());
        if !known {
            out.push(focused);
        }
        proof {
            assert(!known ==> out@.drop_last() =~= all);
            lemma_targets(all, b.selected@, out@, focused@, known);
        }
        out
    } else {
        let mut out: Vec<String> = Vec::new();
        out.push(focused);
        assert(crate::split::texts(out@) =~= seq![focused@]);
        out
    }
}

proof fn lemma_targets(all: Seq<String>, set: Set<Seq<char>>, out: Seq<String>, focused: Seq<char>, known: bool)
    requires
        forall|k: Seq<char>| #[trigger] crate::names::in_list(all, k) <==> set.contains(k),
        forall|i: int, j: int| 0 <= i < j < all.len() ==> (#[trigger] all[i])@ != (#[trigger] all[j])@,
        known == set.contains(focused),
        known ==> out == all,
        !known ==> out.len() == all.len() + 1 && out.last()@ == focused && out.drop_last() == all,
    ensures
        forall|k: Seq<char>| #[trigger]
            crate::split::texts(out).contains(k) <==> set.contains(k) || k == focused,
        crate::split::texts(out).no_duplicates(),
{
    let t = crate::split::texts(out);
    assert forall|i: int| 0 <= i < all.len() implies #[trigger] t[i] == all[i]@ by {
        if !known {
            assert(out.drop_last()[i] == out[i]);
        }
    }
    assert forall|k: Seq<char>| #[trigger] t.contains(k) <==> set.contains(k) || k == focused by {
        assert(crate::names::in_list(all, k) <==> set.contains(k));
        if t.contains(k) {
            let i = choose|i: int| 0 <= i < t.len() && t[i] == k;
            if i < all.len() {
                assert(all[i]@ == k);
            }
        }
        if crate::names::in_list(all, k) {
            let i = choose|i: int| 0 <= i < all.len() && (#[trigger] all[i])@ == k;
            assert(t[i] == k);
        }
        if k == focused && !known {
            assert(t[t.len() - 1] == k);
        }
    }
    assert forall|i: int, j: int| 0 <= i < t.len() && 0 <= j < t.len() && i != j implies t[i] != t[j] by {
        if i < all.len() && j < all.len() {
            if i < j {
                assert(all[i]@ != all[j]@);
            } else {
                assert(all[j]@ != all[i]@);
            }
        } else {
            let k = if i < all.len() {
                i
            } else {
                j
            };
            assert(crate::names::in_list(all, all[k]@));
            assert(set.contains(all[k]@));
        }
    }
}

/// The suggestions under the quick-command input.
pub open spec fn suggestions(s: NeoShell) -> Seq<Seq<char>> {
    if s.typing.quick_cmd_focused && s.sessions.active_tab is Some && !s.panels.bottom_collapsed
        && s.panels.bottom_tab == BottomTab::QuickCmd {
        history::suggested(s.typing.quick_cmd@, s.history.records@, s.snippets.list@)
    } else {
        Seq::empty()
    }
}

impl NeoShell {
    /// Autocomplete candidates for the quick-command input; empty unless its
    /// dropdown can be on screen.
    pub fn quick_cmd_suggestions(&self) -> (out: Vec<String>)
        ensures
            crate::split::texts(out@) == suggestions(*self),
    {
        let visible = self.typing.quick_cmd_focused && self.sessions.active_tab.is_some()
            && !self.panels.bottom_collapsed && self.panels.bottom_tab == BottomTab::QuickCmd;
        if !visible {
            let out: Vec<String> = Vec::new();
            assert(crate::split::texts(out@) =~= Seq::<Seq<char>>::empty());
            return out;
        }
        history::quick_cmd_matches(
            self.typing.quick_cmd.as_str(),
            self.history.records.as_slice(),
            self.snippets.list.as_slice(),
        )
    }

    /// The palette for the current query.
    pub open spec fn shows_palette(&self, items: Seq<PaletteItem>, texts: Catalog) -> bool {
        palette::is_palette(
            items,
            self.palette.query@,
            self.sessions.connections@,
            self.snippets.list@,
            self.groups.collapsed@,
            texts,
        )
    }

    /// The palette for the current query.
    pub fn palette_items(&self, texts: &Catalog) -> (items: Vec<PaletteItem>)
        ensures
            self.shows_palette(items@, *texts),
            items@.len() <= palette::PALETTE_MAX,
    {
        palette::build_palette_items(
            self.palette.query.as_str(),
            self.sessions.connections.as_slice(),
            self.snippets.list.as_slice(),
            &self.groups.collapsed,
            texts,
        )
    }

    /// The ports tab is on screen, and its list is another session's or old.
    pub open spec fn is_ports_due(&self, sid: Seq<char>, now: u128) -> bool {
        &&& self.panels.bottom_tab == BottomTab::Ports
        &&& !self.panels.bottom_collapsed
        &&& !self.monitor.ports_inflight@.contains(sid)
        &&& sid.len() > 0
        &&& (self.monitor.ports_session@ != sid || match self.monitor.ports_fetched_at {
            Some(t) => history::elapsed(t, now, 10_000_000_000),
            None => true,
        })
    }

    /// The monitor tick should refresh the ports tab too: it is on screen and
    /// its list is another session's, or older than 10 s.
    pub fn ports_due(&self, session_id: &str, now: u128) -> (r: bool)
        ensures
            r == self.is_ports_due(session_id@, now),
    {
        self.panels.bottom_tab == BottomTab::Ports && !self.panels.bottom_collapsed
            && !self.monitor.ports_inflight.contains(session_id) && !forms::is_empty_text(session_id) && (
        !text::same_text(self.monitor.ports_session.as_str(), session_id) || match self.monitor.ports_fetched_at {
            Some(t) => history::has_elapsed(t, now, 10_000_000_000),
            None => true,
        })
    }

    /// The session whose application gets the mouse.
    pub open spec fn mouse_goes(&self) -> Option<Seq<char>> {
        if self.typing.modifiers.shift {
            None
        } else {
            match (focused_sid(self.sessions), focused_cells(self.sessions)) {
                (Some(sid), Some(g)) => if g.mouse_mode == MouseMode::Off {
                    None
                } else {
                    Some(sid)
                },
                _ => None,
            }
        }
    }

    /// The focused pane's session, when its application switched mouse
    /// reporting on and Shift is not held. Shift keeps the mouse for local
    /// selection, as in every other terminal.
    pub fn mouse_report_target(&self) -> (r: Option<String>)
        ensures
            secrets::opt_view(r) == self.mouse_goes(),
    {
        if self.typing.modifiers.shift {
            return None;
        }
        match (self.sessions.focused_session_id(), self.sessions.focused_terminal()) {
            (Some(sid), Some(g)) => if g.mouse_mode == MouseMode::Off {
                None
            } else {
                Some(sid)
            },
            _ => None,
        }
    }
}

// ---- forgetting a session ---------------------------------------------------------------------------------

/// `after` is `before` without anything that is kept about the session.
pub open spec fn forgot(before: NeoShell, sid: Seq<char>, after: NeoShell) -> bool {
    &&& after == (NeoShell {
        typing: Typing { zmodem: after.typing.zmodem, ..before.typing },
        broadcast: Broadcast { selected: after.broadcast.selected, ..before.broadcast },
        monitor: Monitoring {
            alerts: after.monitor.alerts,
            parked: after.monitor.parked,
            ..before.monitor
        },
        browser: Browser {
            listings: after.browser.listings,
            current_dir: after.browser.current_dir,
            prompt_cwd: after.browser.prompt_cwd,
            ..before.browser
        },
        ..before
    })
    &&& after.typing.zmodem@ == before.typing.zmodem@.remove(sid)
    &&& after.broadcast.selected@ == before.broadcast.selected@.remove(sid)
    &&& after.monitor.alerts@ == before.monitor.alerts@.remove(sid)
    &&& after.monitor.parked@ == before.monitor.parked@.remove(sid)
    &&& after.browser.listings@ == before.browser.listings@.remove(sid)
    &&& after.browser.current_dir@ == before.browser.current_dir@.remove(sid)
    &&& after.browser.prompt_cwd@ == before.browser.prompt_cwd@.remove(sid)
}

impl NeoShell {
    /// Drop what is kept about a session that is gone: its alerts, listing,
    /// sync membership and file-transfer guard.
    pub fn forget_session(&mut self, session_id: &str)
        ensures
            forgot(*old(self), session_id@, *final(self)),
    {
        let _a = self.typing.zmodem.remove(session_id);
        let _b = self.broadcast.selected.remove(session_id);
        let _c = self.monitor.alerts.remove(session_id);
        self.monitor.parked.unpark(session_id);
        let _d = self.browser.listings.remove(session_id);
        let _e = self.browser.current_dir.remove(session_id);
        let _f = self.browser.prompt_cwd.remove(session_id);
    }
}

// ---- what reaches the disk ------------------------------------------------------------------------------------

pub open spec fn writes_groups(e: Effect, seq: u64, bytes: Seq<u8>, retire: bool) -> bool {
    match e {
        Effect::WriteGroups(n, b, r) => n == seq && b@ == bytes && r == retire,
        _ => false,
    }
}

/// The ledger with one more snapshot.
pub open spec fn sealed_one(l: WriteLedger) -> WriteLedger {
    WriteLedger { next_seq: (l.next_seq + 1) as u64, pending: (l.pending + 1) as u64, ..l }
}

/// What sealing the folded groups makes of them, when `list` is their list.
pub open spec fn groups_sealed_as(
    list: Seq<Seq<char>>,
    before: Groups,
    unlocked: bool,
    retire: bool,
    after: Groups,
    fx: Seq<Effect>,
) -> bool {
    &&& folded::lists(list, before.collapsed@)
    &&& match (unlocked, folded::json_of(list)) {
        (true, Some(bytes)) => {
            &&& after == (Groups { dirty: false, ledger: sealed_one(before.ledger), ..before })
            &&& fx.len() == 1
            &&& writes_groups(fx[0], after.ledger.next_seq, bytes, retire)
        },
        _ => after == before && fx.len() == 0,
    }
}

/// What sealing the folded groups makes of them: nothing while the vault is
/// locked.
pub open spec fn groups_sealed(before: Groups, unlocked: bool, retire: bool, after: Groups, fx: Seq<Effect>) -> bool {
    exists|list: Seq<Seq<char>>| #[trigger] groups_sealed_as(list, before, unlocked, retire, after, fx)
}

/// Seal the folded groups now and write them off the UI thread; nothing while
/// the vault is locked. `retire_legacy` then scrubs and deletes the cleartext
/// file.
pub fn persist_groups(groups: &mut Groups, unlocked: bool, retire_legacy: bool) -> (fx: Vec<Effect>)
    requires
        old(groups).ledger.next_seq < u64::MAX,
        old(groups).ledger.pending < u64::MAX,
    ensures
        groups_sealed(*old(groups), unlocked, retire_legacy, *final(groups), fx@),
{
    let names = folded::sorted_names(&groups.collapsed);
    let ghost list = crate::split::texts(names@);
    let snapshot = folded::groups_snapshot(&groups.collapsed);
    let mut fx: Vec<Effect> = Vec::new();
    match snapshot {
        Some(bytes) => if unlocked {
            groups.dirty = false;
            let seq = groups.ledger.seal();
            fx.push(Effect::WriteGroups(seq, bytes, retire_legacy));
        },
        None => {},
    }
    assert(groups_sealed_as(list, *old(groups), unlocked, retire_legacy, *groups, fx@));
    fx
}

/// What scheduling a save of the folded groups makes of them.
pub open spec fn groups_scheduled(before: Groups, after: Groups, fx: Seq<Effect>) -> bool {
    &&& after == (Groups { dirty: true, generation: (before.generation + 1) as u64, ..before })
    &&& fx == seq![Effect::ScheduleGroupsSave(after.generation)]
}

/// The folded groups changed: save them once no further change has come for a
/// moment.
pub fn schedule_groups_save(groups: &mut Groups) -> (fx: Vec<Effect>)
    requires
        old(groups).generation < u64::MAX,
    ensures
        groups_scheduled(*old(groups), *final(groups), fx@),
{
    groups.dirty = true;
    groups.generation = groups.generation + 1;
    one(Effect::ScheduleGroupsSave(groups.generation))
}

pub open spec fn writes_history(e: Effect, seq: u64, records: Seq<CmdRecord>, scrub: bool, retire: bool) -> bool {
    match e {
        Effect::WriteHistory(n, r, s, l) => n == seq && r@ == records && s == scrub && l == retire,
        _ => false,
    }
}

/// What sealing the command history makes of it.
pub open spec fn history_sealed(
    before: HistoryPanel,
    unlocked: bool,
    scrub: bool,
    retire: bool,
    after: HistoryPanel,
    fx: Seq<Effect>,
) -> bool {
    if (before.sync.loaded || scrub) && unlocked {
        &&& after == (HistoryPanel {
            sync: HistorySync { dirty: false, ..before.sync },
            ledger: sealed_one(before.ledger),
            ..before
        })
        &&& fx.len() == 1
        &&& writes_history(
            fx[0],
            after.ledger.next_seq,
            history::newest(before.records@, history::HISTORY_MAX as int),
            scrub,
            retire,
        )
    } else {
        after == before && fx.len() == 0
    }
}

/// The newest records, the others left out.
pub fn newest_of(records: &Vec<CmdRecord>) -> (out: Vec<CmdRecord>)
    ensures
        out@ == history::newest(records@, history::HISTORY_MAX as int),
{
    let start: usize = if records.len() > history::HISTORY_MAX {
        records.len() - history::HISTORY_MAX
    } else {
        0
    };
    let mut out: Vec<CmdRecord> = Vec::new();
    let mut i: usize = start;
    while i < records.len()
        invariant
            start <= i <= records@.len(),
            out@ =~= records@.subrange(start as int, i as int),
        decreases records.len() - i,
    {
        out.push(records[i].clone());
        i += 1;
    }
    assert(out@ =~= history::newest(records@, history::HISTORY_MAX as int));
    out
}

/// Seal the history now and write it off the UI thread. `scrub` overwrites
/// the bytes being replaced; `retire_legacy` then scrubs and deletes the
/// cleartext file. Nothing is written before the file was loaded, but for a
/// clear, nor while the vault is locked.
pub fn persist_history(h: &mut HistoryPanel, unlocked: bool, scrub: bool, retire_legacy: bool) -> (fx: Vec<Effect>)
    requires
        old(h).ledger.next_seq < u64::MAX,
        old(h).ledger.pending < u64::MAX,
    ensures
        history_sealed(*old(h), unlocked, scrub, retire_legacy, *final(h), fx@),
{
    let mut fx: Vec<Effect> = Vec::new();
    if !history::history_write_allowed(&h.sync, scrub) || !unlocked {
        return fx;
    }
    let records = newest_of(&h.records);
    h.sync.dirty = false;
    let seq = h.ledger.seal();
    fx.push(Effect::WriteHistory(seq, records, scrub, retire_legacy));
    fx
}

} // verus!
