//! Which overlay is drawn, what ESC closes, and the sign-in modal's focus.

use vstd::prelude::*;

use crate::auth;
use crate::focus::FocusTracker;
use crate::forms;
use crate::forms::ConnectionFormData;
use crate::forms::ProxyFormData;
use crate::forms::TunnelFormData;
use crate::screens;
use crate::screens::Overlay;
use crate::secrets;
use crate::state::Auth;
use crate::state::Browser;
use crate::state::ConnForm;
use crate::state::Editor;
use crate::state::Effect;
use crate::state::ErrorBox;
use crate::state::HistoryPanel;
use crate::state::KeyManager;
use crate::state::NeoShell;
use crate::state::Palette;
use crate::state::Panels;
use crate::state::ProxyPanel;
use crate::state::Sessions;
use crate::state::Snippets;
use crate::state::TabRename;
use crate::state::TunnelPanel;
use crate::state::Broadcast;
use crate::tabs;

verus! {

impl NeoShell {
    /// The overlay is open.
    pub open spec fn open(&self, o: Overlay) -> bool {
        match o {
            Overlay::Palette => self.palette.show,
            Overlay::ConfirmDelete => self.sessions.confirm_delete is Some,
            Overlay::AuthPrompt => self.auth.queue@.len() > 0,
            Overlay::ConfirmAction => self.browser.confirm is Some,
            Overlay::LogViewer => self.panels.show_log,
            Overlay::ErrorDialog => self.error.show && self.error.message@.len() > 0,
            Overlay::ProcessDetail => self.panels.process is Some,
            Overlay::Editor => self.editor.path is Some,
            Overlay::NetworkDetail => self.panels.interface is Some,
            Overlay::ConnectDialog => self.sessions.show_connect_dialog,
            Overlay::History => self.history.show,
            Overlay::ProxyManager => self.proxy.show_manager,
            Overlay::TunnelManager => self.tunnel.show_manager,
            Overlay::TabRename => self.rename.tab is Some,
            Overlay::SftpInput => self.browser.input is Some,
            Overlay::KeyManager => self.keys.show,
            Overlay::ShortcutsHelp => self.panels.show_shortcuts,
            Overlay::Broadcast => self.broadcast.show,
            Overlay::Snippets => self.snippets.show,
            Overlay::About => self.panels.show_about,
            Overlay::Settings => self.panels.show_settings,
            Overlay::ConnectionForm => self.form.show,
        }
    }

    /// An empty message would be an empty dialog: it does not count as open.
    pub fn is_overlay_open(&self, overlay: Overlay) -> (r: bool)
        ensures
            r == self.open(overlay),
    {
        match overlay {
            Overlay::Palette => self.palette.show,
            Overlay::ConfirmDelete => self.sessions.confirm_delete.is_some(),
            Overlay::AuthPrompt => self.auth.queue.len() > 0,
            Overlay::ConfirmAction => self.browser.confirm.is_some(),
            Overlay::LogViewer => self.panels.show_log,
            Overlay::ErrorDialog => self.error.show && !forms::is_empty_text(self.error.message.as_str()),
            Overlay::ProcessDetail => self.panels.process.is_some(),
            Overlay::Editor => self.editor.path.is_some(),
            Overlay::NetworkDetail => self.panels.interface.is_some(),
            Overlay::ConnectDialog => self.sessions.show_connect_dialog,
            Overlay::History => self.history.show,
            Overlay::ProxyManager => self.proxy.show_manager,
            Overlay::TunnelManager => self.tunnel.show_manager,
            Overlay::TabRename => self.rename.tab.is_some(),
            Overlay::SftpInput => self.browser.input.is_some(),
            Overlay::KeyManager => self.keys.show,
            Overlay::ShortcutsHelp => self.panels.show_shortcuts,
            Overlay::Broadcast => self.broadcast.show,
            Overlay::Snippets => self.snippets.show,
            Overlay::About => self.panels.show_about,
            Overlay::Settings => self.panels.show_settings,
            Overlay::ConnectionForm => self.form.show,
        }
    }

    /// The first open overlay from place `i` of the z-order on.
    pub open spec fn top_from(&self, i: int) -> Option<Overlay>
        decreases 22 - i,
    {
        if i < 0 || i >= 22 {
            None
        } else if self.open(screens::Z_ORDER@[i]) {
            Some(screens::Z_ORDER@[i])
        } else {
            self.top_from(i + 1)
        }
    }

    /// The overlay that is drawn: the first open one in z-order.
    pub open spec fn top(&self) -> Option<Overlay> {
        self.top_from(0)
    }

    /// The overlay that is drawn: the first open one in z-order.
    pub fn topmost_overlay(&self) -> (r: Option<Overlay>)
        ensures
            r == self.top(),
    {
        let mut i: usize = 0;
        while i < 22
            invariant
                i <= 22,
                self.top() == self.top_from(i as int),
            decreases 22 - i,
        {
            let o = screens::Z_ORDER[i];
            if self.is_overlay_open(o) {
                return Some(o);
            }
            i += 1;
        }
        None
    }

    /// Whether any modal or side panel is drawn. Input is never blocked by
    /// something invisible.
    pub fn any_overlay_open(&self) -> (r: bool)
        ensures
            r == (self.top() is Some),
    {
        self.topmost_overlay().is_some()
    }

    /// An overlay that holds a secret field is open.
    pub open spec fn secret_on_screen(&self) -> bool {
        ||| self.open(Overlay::ConnectionForm)
        ||| self.open(Overlay::ProxyManager)
        ||| self.open(Overlay::TunnelManager)
        ||| self.open(Overlay::AuthPrompt)
    }

    /// Whether an overlay that holds a secret field is open — the only places
    /// a click can focus one on the main screen.
    pub fn secret_overlay_open(&self) -> (r: bool)
        ensures
            r == self.secret_on_screen(),
            r == exists|i: int| 0 <= i < 4 && #[trigger] self.open(screens::HOLDS_SECRETS@[i]),
    {
        let mut i: usize = 0;
        while i < 4
            invariant
                i <= 4,
                forall|k: int| 0 <= k < i ==> !#[trigger] self.open(screens::HOLDS_SECRETS@[k]),
            decreases 4 - i,
        {
            if self.is_overlay_open(screens::HOLDS_SECRETS[i]) {
                return true;
            }
            i += 1;
        }
        assert(!self.open(screens::HOLDS_SECRETS@[0]));
        assert(!self.open(screens::HOLDS_SECRETS@[1]));
        assert(!self.open(screens::HOLDS_SECRETS@[2]));
        assert(!self.open(screens::HOLDS_SECRETS@[3]));
        false
    }
}

proof fn lemma_top_from(s: NeoShell, i: int)
    requires
        0 <= i <= 22,
    ensures
        match s.top_from(i) {
            Some(t) => {
                &&& s.open(t)
                &&& i <= screens::height(t)
                &&& forall|j: int| i <= j < screens::height(t) ==> !s.open(#[trigger] screens::Z_ORDER@[j])
            },
            None => forall|j: int| i <= j < 22 ==> !s.open(#[trigger] screens::Z_ORDER@[j]),
        },
    decreases 22 - i,
{
    if i < 22 {
        screens::law_z_order_is_complete(screens::Z_ORDER@[i]);
        if !s.open(screens::Z_ORDER@[i]) {
            lemma_top_from(s, i + 1);
        }
    }
}

/// What is drawn is the open overlay that no other open one stands above.
pub proof fn law_the_topmost_overlay_is_drawn(s: NeoShell)
    ensures
        screens::is_topmost(|o: Overlay| s.open(o), s.top()),
{
    lemma_top_from(s, 0);
    let open = |o: Overlay| s.open(o);
    match s.top() {
        Some(t) => {
            assert forall|o: Overlay| #[trigger] open(o) implies screens::height(t) <= screens::height(o) by {
                screens::law_z_order_is_complete(o);
                if screens::height(o) < screens::height(t) {
                    assert(!s.open(screens::Z_ORDER@[screens::height(o)]));
                }
            }
        },
        None => {
            assert forall|o: Overlay| !#[trigger] open(o) by {
                screens::law_z_order_is_complete(o);
                assert(!s.open(screens::Z_ORDER@[screens::height(o)]));
            }
        },
    }
}

/// Two states with the same overlays open draw the same one.
pub proof fn lemma_same_top(a: NeoShell, b: NeoShell, i: int)
    requires
        forall|o: Overlay| #[trigger] a.open(o) == b.open(o),
    ensures
        a.top_from(i) == b.top_from(i),
    decreases 22 - i,
{
    if 0 <= i < 22 {
        assert(a.open(screens::Z_ORDER@[i]) == b.open(screens::Z_ORDER@[i]));
        lemma_same_top(a, b, i + 1);
    }
}

// ---- the sign-in modal ---------------------------------------------------------------------------

pub open spec fn focuses(e: Effect, id: Seq<char>, seq: u64) -> bool {
    match e {
        Effect::Focus(x, n) => x@ == id && n == seq,
        _ => false,
    }
}

/// One blank answer for each of `n` prompts.
pub open spec fn blank_answers(answers: Seq<String>, n: nat) -> bool {
    answers.len() == n && forall|i: int| 0 <= i < n ==> (#[trigger] answers[i])@.len() == 0
}

impl NeoShell {
    /// The user's own click is what the session is signing in for right now.
    pub open spec fn user_started(&self, session_id: Seq<char>) -> bool {
        session_id.len() > 0 && (tabs::connecting(self.sessions.tabs@, session_id) || (
        self.monitor.parked@.contains_key(session_id) && self.monitor.parked@[session_id].resuming))
    }

    /// Whether the user's own click is what `session_id` is signing in for
    /// right now: a Connect or a split still connecting under that id, or a
    /// "Reconnect monitoring" still out for it.
    pub fn auth_user_started(&self, session_id: &str) -> (r: bool)
        ensures
            r == self.user_started(session_id@),
    {
        if forms::is_empty_text(session_id) {
            return false;
        }
        tabs::session_connecting(&self.sessions.tabs, session_id) || match self.monitor.parked.get(
            session_id,
        ) {
            Some(p) => p.resuming,
            None => false,
        }
    }

    /// The challenge at the front of the queue may take the keyboard.
    pub open spec fn front_may(&self) -> bool {
        self.auth.queue@.len() > 0 && auth::may_take_focus(
            self.auth.queue@[0].challenge.purpose@,
            self.user_started(self.auth.queue@[0].challenge.session_id@),
        )
    }

    /// Whether the challenge at the front of the queue may take the keyboard.
    pub fn front_may_take_focus(&self) -> (r: bool)
        ensures
            r == self.front_may(),
    {
        if self.auth.queue.len() == 0 {
            return false;
        }
        let started = self.auth_user_started(self.auth.queue[0].challenge.session_id.as_str());
        auth::challenge_may_take_focus(self.auth.queue[0].challenge.purpose.as_str(), started)
    }

    /// Prompts of the challenge at the front of the queue.
    pub open spec fn front_prompts(&self) -> nat {
        if self.auth.queue@.len() > 0 {
            self.auth.queue@[0].challenge.prompts@.len()
        } else {
            0
        }
    }

    /// Fresh answer slots for whichever challenge is now at the front of the
    /// queue; what was typed for the previous one is scrubbed first.
    pub fn reset_auth_answers(&mut self)
        ensures
            blank_answers(final(self).auth.answers@, old(self).front_prompts()),
            *final(self) == (NeoShell {
                auth: Auth { answers: final(self).auth.answers, ..old(self).auth },
                ..*old(self)
            }),
    {
        auth::scrub_answers(&mut self.auth.answers);
        if self.auth.queue.len() > 0 {
            let n: usize = self.auth.queue[0].challenge.prompts.len();
            let mut i: usize = 0;
            while i < n
                invariant
                    i <= n,
                    blank_answers(self.auth.answers@, i as nat),
                    *self == (NeoShell {
                        auth: Auth { answers: self.auth.answers, ..old(self).auth },
                        ..*old(self)
                    }),
                decreases n - i,
            {
                let mut answers: Vec<String> = Vec::new();
                std::mem::swap(&mut answers, &mut self.auth.answers);
                answers.push(String::new());
                std::mem::swap(&mut answers, &mut self.auth.answers);
                i += 1;
            }
        }
    }

    /// The sign-in modal is on screen.
    pub open spec fn modal_on_screen(&self) -> bool {
        screens::modal_visible(self.vault.screen, self.top())
    }

    /// What the delivery of an owed focus makes of a state.
    pub open spec fn delivered(before: NeoShell, now: u128, after: NeoShell, fx: Seq<Effect>) -> bool {
        let visible = before.modal_on_screen();
        let due = before.auth.focus_owed && visible && !auth::typing(before.typing.last_keypress, now);
        &&& after == (NeoShell {
            auth: Auth {
                shown_at: auth::shown_since(before.auth.shown_at, visible, now),
                focus_owed: before.auth.focus_owed && !visible,
                ..before.auth
            },
            focus: after.focus,
            ..before
        })
        &&& if due {
            &&& FocusTracker::moved_to(before.focus, auth::answer_field(0), after.focus)
            &&& fx.len() == 1
            &&& focuses(fx[0], auth::answer_field(0), after.focus.issued)
        } else {
            &&& after.focus == before.focus
            &&& fx.len() == 0
        }
    }

    /// Hand the owed focus to the first answer field, but only while the
    /// modal is what the user is looking at. Focusing a field unfocuses every
    /// other input, so focusing one that is not drawn takes the keys away from
    /// the lock screen's password or the palette's query — and a reconnecting
    /// session can raise a challenge at any time. Until the modal is uncovered
    /// the focus stays owed.
    ///
    /// Nor while keys are still arriving: they are meant for wherever the user
    /// is typing, and would land in this server's answer instead. The focus is
    /// then dropped, not kept owed — the field waits for a click.
    pub fn deliver_auth_focus(&mut self, now: u128) -> (fx: Vec<Effect>)
        requires
            old(self).focus.issued + 2 <= u64::MAX,
        ensures
            NeoShell::delivered(*old(self), now, *final(self), fx@),
    {
        let visible = screens::auth_modal_visible(&self.vault.screen, self.topmost_overlay());
        auth::note_auth_shown(&mut self.auth.shown_at, visible, now);
        let typing = auth::typing_recently(self.typing.last_keypress, now);
        let mut fx: Vec<Effect> = Vec::new();
        if auth::take_owed_focus(&mut self.auth.focus_owed, visible) && !typing {
            let id = auth::auth_input_id(0);
            let seq = self.focus.focus(id.as_str());
            fx.push(Effect::Focus(id, seq));
        }
        fx
    }

    /// What beginning with the front challenge makes of a state.
    pub open spec fn began(before: NeoShell, now: u128, after: NeoShell, fx: Seq<Effect>) -> bool {
        let may = before.front_may();
        let owed = may && before.front_prompts() > 0;
        let visible = before.modal_on_screen();
        &&& blank_answers(after.auth.answers@, before.front_prompts())
        &&& after == (NeoShell {
            auth: Auth {
                answers: after.auth.answers,
                shown_at: auth::shown_since(None, visible, now),
                focus_owed: owed && !visible,
                ..before.auth
            },
            focus: after.focus,
            ..before
        })
        &&& if !may && before.auth.queue@.len() > 0 {
            &&& after.focus == (FocusTracker {
                issued: (before.focus.issued + 1) as u64,
                ..before.focus
            })
            &&& fx == seq![Effect::ReleaseAnswers((before.focus.issued + 1) as u64)]
        } else if owed && visible && !auth::typing(before.typing.last_keypress, now) {
            &&& FocusTracker::moved_to(before.focus, auth::answer_field(0), after.focus)
            &&& fx.len() == 1
            &&& focuses(fx[0], auth::answer_field(0), after.focus.issued)
        } else {
            &&& after.focus == before.focus
            &&& fx.len() == 0
        }
    }

    /// Fresh answer slots, then give the first answer field the focus — once
    /// the modal is on screen to take it, and only for a challenge that may
    /// take it. The modal is rebuilt in place, so the field the last answer
    /// was typed in would keep the focus for this challenge: one that may not
    /// take the keyboard gets it given up.
    pub fn begin_auth_prompt(&mut self, now: u128) -> (fx: Vec<Effect>)
        requires
            old(self).focus.issued + 3 <= u64::MAX,
        ensures
            NeoShell::began(*old(self), now, *final(self), fx@),
    {
        self.reset_auth_answers();
        // A new modal: its fields wait out the arming delay again.
        self.auth.shown_at = None;
        let may_focus = self.front_may_take_focus();
        self.auth.focus_owed = may_focus && self.auth.answers.len() > 0;
        let mut fx: Vec<Effect> = Vec::new();
        if !may_focus && self.auth.queue.len() > 0 {
            let seq = self.focus.query();
            fx.push(Effect::ReleaseAnswers(seq));
        }
        let ghost mid = *self;
        proof {
            assert forall|o: Overlay| #[trigger] mid.open(o) == old(self).open(o) by {}
            lemma_same_top(mid, *old(self), 0);
        }
        let mut more = self.deliver_auth_focus(now);
        let ghost first = fx@;
        let ghost second = more@;
        fx.append(&mut more);
        assert(fx@ =~= first + second);
        fx
    }
}

// ---- ESC --------------------------------------------------------------------------------------------

/// What closing the overlay makes of a state.
#[verifier::opaque]
pub open spec fn closed(o: Overlay, before: NeoShell, now: u128, after: NeoShell, fx: Seq<Effect>) -> bool {
    match o {
        Overlay::Palette => {
            &&& after == (NeoShell { palette: Palette { show: false, ..before.palette }, ..before })
            &&& fx.len() == 0
        },
        Overlay::ConfirmDelete => {
            &&& after == (NeoShell { sessions: Sessions { confirm_delete: None, ..before.sessions }, ..before })
            &&& fx.len() == 0
        },
        Overlay::AuthPrompt => closed_modal(before, now, after, fx),
        Overlay::ConfirmAction => {
            &&& after == (NeoShell { browser: Browser { confirm: None, ..before.browser }, ..before })
            &&& fx.len() == 0
        },
        Overlay::LogViewer => {
            &&& after.panels.log_content@.len() == 0
            &&& after == (NeoShell {
                panels: Panels { show_log: false, log_content: after.panels.log_content, ..before.panels },
                ..before
            })
            &&& fx.len() == 0
        },
        Overlay::ErrorDialog => {
            &&& after.error.message@.len() == 0
            &&& after == (NeoShell {
                error: ErrorBox { show: false, message: after.error.message, ..before.error },
                ..before
            })
            &&& fx.len() == 0
        },
        Overlay::ProcessDetail => {
            &&& after == (NeoShell { panels: Panels { process: None, ..before.panels }, ..before })
            &&& fx.len() == 0
        },
        Overlay::Editor => if before.editor.dirty {
            after == before && fx.len() == 0
        } else {
            &&& after == (NeoShell { editor: Editor { path: None, session_id: None, dirty: false }, ..before })
            &&& fx == seq![Effect::ClearEditor]
        },
        Overlay::NetworkDetail => {
            &&& after == (NeoShell { panels: Panels { interface: None, ..before.panels }, ..before })
            &&& fx.len() == 0
        },
        Overlay::ConnectDialog => {
            &&& after == (NeoShell {
                sessions: Sessions { show_connect_dialog: false, ..before.sessions },
                ..before
            })
            &&& fx.len() == 0
        },
        Overlay::History => {
            &&& after.history.filter@.len() == 0
            &&& after == (NeoShell {
                history: HistoryPanel { show: false, filter: after.history.filter, ..before.history },
                ..before
            })
            &&& fx.len() == 0
        },
        Overlay::ProxyManager => closed_proxies(before, after) && fx.len() == 0,
        Overlay::TunnelManager => closed_tunnels(before, after) && fx.len() == 0,
        Overlay::TabRename => {
            &&& after == (NeoShell { rename: TabRename { tab: None, ..before.rename }, ..before })
            &&& fx.len() == 0
        },
        Overlay::SftpInput => {
            &&& after == (NeoShell { browser: Browser { input: None, ..before.browser }, ..before })
            &&& fx.len() == 0
        },
        Overlay::KeyManager => {
            &&& after == (NeoShell {
                keys: KeyManager { deploying: None, show: before.keys.deploying is Some && before.keys.show, ..before.keys },
                ..before
            })
            &&& fx.len() == 0
        },
        Overlay::ShortcutsHelp => {
            &&& after == (NeoShell { panels: Panels { show_shortcuts: false, ..before.panels }, ..before })
            &&& fx.len() == 0
        },
        Overlay::Broadcast => {
            &&& after == (NeoShell { broadcast: Broadcast { show: false, ..before.broadcast }, ..before })
            &&& fx.len() == 0
        },
        Overlay::Snippets => closed_snippets(before, after) && fx.len() == 0,
        Overlay::About => {
            &&& after == (NeoShell { panels: Panels { show_about: false, ..before.panels }, ..before })
            &&& fx.len() == 0
        },
        Overlay::Settings => {
            &&& after == (NeoShell {
                panels: Panels {
                    theme_zone: None,
                    show_settings: before.panels.theme_zone is Some && before.panels.show_settings,
                    ..before.panels
                },
                ..before
            })
            &&& fx.len() == 0
        },
        Overlay::ConnectionForm => closed_form(before, after) && fx.len() == 0,
    }
}

/// ESC on the sign-in modal is the user declining to answer. Not an Esc typed
/// before the modal appeared — in vim, say: it is swallowed.
pub open spec fn closed_modal(before: NeoShell, now: u128, after: NeoShell, fx: Seq<Effect>) -> bool {
    if !auth::armed(before.auth.shown_at, now) {
        after == before && fx.len() == 0
    } else {
        &&& blank_answers(after.auth.answers@, after.front_prompts())
        &&& after.auth.queue@ == before.auth.queue@.drop_first()
        &&& after == (NeoShell {
            auth: Auth {
                queue: after.auth.queue,
                answers: after.auth.answers,
                shown_at: None,
                focus_owed: after.front_may() && after.front_prompts() > 0,
                ..before.auth
            },
            ..before
        })
        &&& fx == seq![Effect::Cancel(before.auth.queue@[0].challenge.ticket)]
    }
}

/// The panel goes; or, with a form open in it, the form — if nothing was typed
/// into it.
pub open spec fn closed_proxies(before: NeoShell, after: NeoShell) -> bool {
    if !before.proxy.show_form {
        after == (NeoShell { proxy: ProxyPanel { show_manager: false, ..before.proxy }, ..before })
    } else if forms::proxy_pristine(
        before.proxy.form,
        secrets::opt_view(before.proxy.edit_id),
        before.proxy.proxies@,
    ) {
        &&& after.proxy.form.is_blank()
        &&& after == (NeoShell {
            proxy: ProxyPanel { show_form: false, edit_id: None, form: after.proxy.form, ..before.proxy },
            ..before
        })
    } else {
        after == before
    }
}

pub open spec fn closed_tunnels(before: NeoShell, after: NeoShell) -> bool {
    if !before.tunnel.show_form {
        after == (NeoShell { tunnel: TunnelPanel { show_manager: false, ..before.tunnel }, ..before })
    } else if forms::tunnel_pristine(
        before.tunnel.form,
        secrets::opt_view(before.tunnel.edit_id),
        before.tunnel.tunnels@,
    ) {
        &&& after.tunnel.form.is_blank()
        &&& after == (NeoShell {
            tunnel: TunnelPanel { show_form: false, edit_id: None, form: after.tunnel.form, ..before.tunnel },
            ..before
        })
    } else {
        after == before
    }
}

/// The new-snippet fields sit in the panel itself, and the panel clears them
/// when it next opens: holding typing, the panel stays.
pub open spec fn closed_snippets(before: NeoShell, after: NeoShell) -> bool {
    let b = before.snippets;
    if !forms::snippet_pristine(b.name@, b.body@, secrets::opt_view(b.edit_id), b.list@) {
        after == before
    } else if b.edit_id is Some {
        &&& after.snippets.name@.len() == 0
        &&& after.snippets.body@.len() == 0
        &&& after == (NeoShell {
            snippets: Snippets {
                edit_id: None,
                name: after.snippets.name,
                body: after.snippets.body,
                ..b
            },
            ..before
        })
    } else {
        after == (NeoShell { snippets: Snippets { show: false, ..b }, ..before })
    }
}

pub open spec fn closed_form(before: NeoShell, after: NeoShell) -> bool {
    if before.form.form.reads_as(before.form.opened) {
        &&& after.form.form.is_blank()
        &&& after == (NeoShell {
            form: ConnForm {
                show: false,
                edit_id: None,
                form: after.form.form,
                test_result: None,
                testing: false,
                ..before.form
            },
            ..before
        })
    } else {
        after == before
    }
}

/// What ESC makes of a state; `handled` says whether anything was dismissed.
pub open spec fn escaped(before: NeoShell, now: u128, after: NeoShell, handled: bool, fx: Seq<Effect>) -> bool {
    match before.top() {
        Some(o) => handled && closed(o, before, now, after, fx),
        None => {
            &&& handled == (before.browser.context_menu is Some || before.browser.menu is Some)
            &&& after == (NeoShell { browser: Browser { context_menu: None, menu: None, ..before.browser }, ..before })
            &&& fx.len() == 0
        },
    }
}

/// `after` has every overlay but `t` as open as `before`, and the same tabs.
pub open spec fn only_closes(t: Overlay, before: NeoShell, after: NeoShell) -> bool {
    &&& forall|o: Overlay| o != t ==> #[trigger] after.open(o) == before.open(o)
    &&& after.sessions.tabs@ == before.sessions.tabs@
    &&& after.sessions.active_tab == before.sessions.active_tab
}

/// No overlay stands for any of these.
proof fn lemma_closing_leaves_alone(o: Overlay, before: NeoShell, now: u128, after: NeoShell, fx: Seq<Effect>)
    requires
        closed(o, before, now, after, fx),
    ensures
        after.vault == before.vault,
        after.search == before.search,
        after.transfers == before.transfers,
        after.palette.selected == before.palette.selected,
{
    reveal(closed);
}

proof fn lemma_closing_palette(before: NeoShell, now: u128, after: NeoShell, fx: Seq<Effect>)
    requires
        closed(Overlay::Palette, before, now, after, fx),
    ensures
        only_closes(Overlay::Palette, before, after),
{
    reveal(closed);
}

proof fn lemma_closing_confirm_delete(before: NeoShell, now: u128, after: NeoShell, fx: Seq<Effect>)
    requires
        closed(Overlay::ConfirmDelete, before, now, after, fx),
    ensures
        only_closes(Overlay::ConfirmDelete, before, after),
{
    reveal(closed);
}

proof fn lemma_closing_auth_prompt(before: NeoShell, now: u128, after: NeoShell, fx: Seq<Effect>)
    requires
        closed(Overlay::AuthPrompt, before, now, after, fx),
    ensures
        only_closes(Overlay::AuthPrompt, before, after),
{
    reveal(closed);
}

proof fn lemma_closing_confirm_action(before: NeoShell, now: u128, after: NeoShell, fx: Seq<Effect>)
    requires
        closed(Overlay::ConfirmAction, before, now, after, fx),
    ensures
        only_closes(Overlay::ConfirmAction, before, after),
{
    reveal(closed);
}

proof fn lemma_closing_log_viewer(before: NeoShell, now: u128, after: NeoShell, fx: Seq<Effect>)
    requires
        closed(Overlay::LogViewer, before, now, after, fx),
    ensures
        only_closes(Overlay::LogViewer, before, after),
{
    reveal(closed);
}

proof fn lemma_closing_error_dialog(before: NeoShell, now: u128, after: NeoShell, fx: Seq<Effect>)
    requires
        closed(Overlay::ErrorDialog, before, now, after, fx),
    ensures
        only_closes(Overlay::ErrorDialog, before, after),
{
    reveal(closed);
}

proof fn lemma_closing_process_detail(before: NeoShell, now: u128, after: NeoShell, fx: Seq<Effect>)
    requires
        closed(Overlay::ProcessDetail, before, now, after, fx),
    ensures
        only_closes(Overlay::ProcessDetail, before, after),
{
    reveal(closed);
}

proof fn lemma_closing_editor(before: NeoShell, now: u128, after: NeoShell, fx: Seq<Effect>)
    requires
        closed(Overlay::Editor, before, now, after, fx),
    ensures
        only_closes(Overlay::Editor, before, after),
{
    reveal(closed);
}

proof fn lemma_closing_network_detail(before: NeoShell, now: u128, after: NeoShell, fx: Seq<Effect>)
    requires
        closed(Overlay::NetworkDetail, before, now, after, fx),
    ensures
        only_closes(Overlay::NetworkDetail, before, after),
{
    reveal(closed);
}

proof fn lemma_closing_connect_dialog(before: NeoShell, now: u128, after: NeoShell, fx: Seq<Effect>)
    requires
        closed(Overlay::ConnectDialog, before, now, after, fx),
    ensures
        only_closes(Overlay::ConnectDialog, before, after),
{
    reveal(closed);
}

proof fn lemma_closing_history(before: NeoShell, now: u128, after: NeoShell, fx: Seq<Effect>)
    requires
        closed(Overlay::History, before, now, after, fx),
    ensures
        only_closes(Overlay::History, before, after),
{
    reveal(closed);
}

proof fn lemma_closing_proxy_manager(before: NeoShell, now: u128, after: NeoShell, fx: Seq<Effect>)
    requires
        closed(Overlay::ProxyManager, before, now, after, fx),
    ensures
        only_closes(Overlay::ProxyManager, before, after),
{
    reveal(closed);
}

proof fn lemma_closing_tunnel_manager(before: NeoShell, now: u128, after: NeoShell, fx: Seq<Effect>)
    requires
        closed(Overlay::TunnelManager, before, now, after, fx),
    ensures
        only_closes(Overlay::TunnelManager, before, after),
{
    reveal(closed);
}

proof fn lemma_closing_tab_rename(before: NeoShell, now: u128, after: NeoShell, fx: Seq<Effect>)
    requires
        closed(Overlay::TabRename, before, now, after, fx),
    ensures
        only_closes(Overlay::TabRename, before, after),
{
    reveal(closed);
}

proof fn lemma_closing_sftp_input(before: NeoShell, now: u128, after: NeoShell, fx: Seq<Effect>)
    requires
        closed(Overlay::SftpInput, before, now, after, fx),
    ensures
        only_closes(Overlay::SftpInput, before, after),
{
    reveal(closed);
}

proof fn lemma_closing_key_manager(before: NeoShell, now: u128, after: NeoShell, fx: Seq<Effect>)
    requires
        closed(Overlay::KeyManager, before, now, after, fx),
    ensures
        only_closes(Overlay::KeyManager, before, after),
{
    reveal(closed);
}

proof fn lemma_closing_shortcuts_help(before: NeoShell, now: u128, after: NeoShell, fx: Seq<Effect>)
    requires
        closed(Overlay::ShortcutsHelp, before, now, after, fx),
    ensures
        only_closes(Overlay::ShortcutsHelp, before, after),
{
    reveal(closed);
}

proof fn lemma_closing_broadcast(before: NeoShell, now: u128, after: NeoShell, fx: Seq<Effect>)
    requires
        closed(Overlay::Broadcast, before, now, after, fx),
    ensures
        only_closes(Overlay::Broadcast, before, after),
{
    reveal(closed);
}

proof fn lemma_closing_snippets(before: NeoShell, now: u128, after: NeoShell, fx: Seq<Effect>)
    requires
        closed(Overlay::Snippets, before, now, after, fx),
    ensures
        only_closes(Overlay::Snippets, before, after),
{
    reveal(closed);
}

proof fn lemma_closing_about(before: NeoShell, now: u128, after: NeoShell, fx: Seq<Effect>)
    requires
        closed(Overlay::About, before, now, after, fx),
    ensures
        only_closes(Overlay::About, before, after),
{
    reveal(closed);
}

proof fn lemma_closing_settings(before: NeoShell, now: u128, after: NeoShell, fx: Seq<Effect>)
    requires
        closed(Overlay::Settings, before, now, after, fx),
    ensures
        only_closes(Overlay::Settings, before, after),
{
    reveal(closed);
}

proof fn lemma_closing_connection_form(before: NeoShell, now: u128, after: NeoShell, fx: Seq<Effect>)
    requires
        closed(Overlay::ConnectionForm, before, now, after, fx),
    ensures
        only_closes(Overlay::ConnectionForm, before, after),
{
    reveal(closed);
}

/// ESC touches nothing but what is on screen: every other overlay is as open
/// as it was, and the vault, the tabs, their sessions and the transfers stay.
pub proof fn law_esc_closes_only_what_is_drawn(
    before: NeoShell,
    now: u128,
    after: NeoShell,
    handled: bool,
    fx: Seq<Effect>,
    o: Overlay,
)
    requires
        escaped(before, now, after, handled, fx),
        before.top() != Some(o),
    ensures
        after.open(o) == before.open(o),
        after.sessions.tabs@ == before.sessions.tabs@,
        after.sessions.active_tab == before.sessions.active_tab,
        after.vault == before.vault,
        after.search == before.search,
        after.transfers == before.transfers,
        after.palette.selected == before.palette.selected,
{
    if let Some(t) = before.top() {
        lemma_closing_leaves_alone(t, before, now, after, fx);
    }
    match before.top() {
        Some(t) => match t {
            Overlay::Palette => lemma_closing_palette(before, now, after, fx),
            Overlay::ConfirmDelete => lemma_closing_confirm_delete(before, now, after, fx),
            Overlay::AuthPrompt => lemma_closing_auth_prompt(before, now, after, fx),
            Overlay::ConfirmAction => lemma_closing_confirm_action(before, now, after, fx),
            Overlay::LogViewer => lemma_closing_log_viewer(before, now, after, fx),
            Overlay::ErrorDialog => lemma_closing_error_dialog(before, now, after, fx),
            Overlay::ProcessDetail => lemma_closing_process_detail(before, now, after, fx),
            Overlay::Editor => lemma_closing_editor(before, now, after, fx),
            Overlay::NetworkDetail => lemma_closing_network_detail(before, now, after, fx),
            Overlay::ConnectDialog => lemma_closing_connect_dialog(before, now, after, fx),
            Overlay::History => lemma_closing_history(before, now, after, fx),
            Overlay::ProxyManager => lemma_closing_proxy_manager(before, now, after, fx),
            Overlay::TunnelManager => lemma_closing_tunnel_manager(before, now, after, fx),
            Overlay::TabRename => lemma_closing_tab_rename(before, now, after, fx),
            Overlay::SftpInput => lemma_closing_sftp_input(before, now, after, fx),
            Overlay::KeyManager => lemma_closing_key_manager(before, now, after, fx),
            Overlay::ShortcutsHelp => lemma_closing_shortcuts_help(before, now, after, fx),
            Overlay::Broadcast => lemma_closing_broadcast(before, now, after, fx),
            Overlay::Snippets => lemma_closing_snippets(before, now, after, fx),
            Overlay::About => lemma_closing_about(before, now, after, fx),
            Overlay::Settings => lemma_closing_settings(before, now, after, fx),
            Overlay::ConnectionForm => lemma_closing_connection_form(before, now, after, fx),
        },
        None => {},
    }
}

/// Only Save or Cancel throws typing away: a form with something typed into
/// it, and an editor with unsaved changes, stay as they are under ESC.
pub proof fn law_esc_throws_no_typing_away(
    before: NeoShell,
    now: u128,
    after: NeoShell,
    handled: bool,
    fx: Seq<Effect>,
)
    requires
        escaped(before, now, after, handled, fx),
    ensures
        !before.form.form.reads_as(before.form.opened) ==> after.form == before.form,
        before.editor.dirty ==> after.editor == before.editor,
        before.proxy.show_form && !forms::proxy_pristine(
            before.proxy.form,
            secrets::opt_view(before.proxy.edit_id),
            before.proxy.proxies@,
        ) ==> after.proxy == before.proxy,
        before.tunnel.show_form && !forms::tunnel_pristine(
            before.tunnel.form,
            secrets::opt_view(before.tunnel.edit_id),
            before.tunnel.tunnels@,
        ) ==> after.tunnel == before.tunnel,
        !forms::snippet_pristine(
            before.snippets.name@,
            before.snippets.body@,
            secrets::opt_view(before.snippets.edit_id),
            before.snippets.list@,
        ) ==> after.snippets == before.snippets,
{
    reveal(closed);
}

fn opt_str(s: &Option<String>) -> (r: Option<&str>)
    ensures
        forms::opt_seq(r) == secrets::opt_view(*s),
{
    match s {
        Some(s) => Some(s.as_str()),
        None => None,
    }
}

impl NeoShell {
    fn close_modal(&mut self, now: u128) -> (fx: Vec<Effect>)
        requires
            old(self).auth.queue@.len() > 0,
        ensures
            closed_modal(*old(self), now, *final(self), fx@),
    {
        if !auth::auth_armed(self.auth.shown_at, now) {
            return Vec::new();
        }
        let first = self.auth.queue.remove(0);
        assert(self.auth.queue@ =~= old(self).auth.queue@.drop_first());
        self.reset_auth_answers();
        self.auth.shown_at = None;
        // The next challenge, if any — and if it may — takes the focus on the
        // next poll tick; Esc just took it off the field it was in.
        let owed = self.front_may_take_focus() && self.auth.answers.len() > 0;
        self.auth.focus_owed = owed;
        let mut fx: Vec<Effect> = Vec::new();
        fx.push(Effect::Cancel(first.challenge.ticket));
        assert(fx@ =~= seq![Effect::Cancel(old(self).auth.queue@[0].challenge.ticket)]);
        fx
    }

    fn close_proxies(&mut self)
        ensures
            closed_proxies(*old(self), *final(self)),
    {
        if !self.proxy.show_form {
            self.proxy.show_manager = false;
        } else if forms::proxy_form_pristine(
            &self.proxy.form,
            opt_str(&self.proxy.edit_id),
            &self.proxy.proxies,
        ) {
            self.proxy.show_form = false;
            self.proxy.edit_id = None;
            self.proxy.form = ProxyFormData::blank();
        }
    }

    fn close_tunnels(&mut self)
        ensures
            closed_tunnels(*old(self), *final(self)),
    {
        if !self.tunnel.show_form {
            self.tunnel.show_manager = false;
        } else if forms::tunnel_form_pristine(
            &self.tunnel.form,
            opt_str(&self.tunnel.edit_id),
            &self.tunnel.tunnels,
        ) {
            self.tunnel.show_form = false;
            self.tunnel.edit_id = None;
            self.tunnel.form = TunnelFormData::blank();
        }
    }

    fn close_snippets(&mut self)
        ensures
            closed_snippets(*old(self), *final(self)),
    {
        let pristine = forms::snippet_form_pristine(
            self.snippets.name.as_str(),
            self.snippets.body.as_str(),
            opt_str(&self.snippets.edit_id),
            &self.snippets.list,
        );
        if pristine {
            if self.snippets.edit_id.is_some() {
                self.snippets.edit_id = None;
                self.snippets.name.clear();
                self.snippets.body.clear();
            } else {
                self.snippets.show = false;
            }
        }
    }

    fn close_form(&mut self)
        ensures
            closed_form(*old(self), *final(self)),
    {
        if self.form.form.same_as(&self.form.opened) {
            self.form.show = false;
            self.form.edit_id = None;
            self.form.form = ConnectionFormData::blank();
            self.form.test_result = None;
            self.form.testing = false;
        }
    }

    fn close_overlay(&mut self, top: Overlay, now: u128) -> (fx: Vec<Effect>)
        requires
            old(self).open(top),
        ensures
            closed(top, *old(self), now, *final(self), fx@),
    {
        proof {
            reveal(closed);
        }
        let mut fx: Vec<Effect> = Vec::new();
        match top {
            Overlay::Palette => self.palette.show = false,
            Overlay::ConfirmDelete => self.sessions.confirm_delete = None,
            Overlay::AuthPrompt => fx = self.close_modal(now),
            Overlay::ConfirmAction => self.browser.confirm = None,
            Overlay::LogViewer => {
                self.panels.show_log = false;
                self.panels.log_content.clear();
            },
            Overlay::ErrorDialog => {
                self.error.show = false;
                self.error.message.clear();
            },
            Overlay::ProcessDetail => self.panels.process = None,
            Overlay::Editor => {
                if !self.editor.dirty {
                    self.editor.path = None;
                    self.editor.session_id = None;
                    fx.push(Effect::ClearEditor);
                    assert(fx@ =~= seq![Effect::ClearEditor]);
                }
            },
            Overlay::NetworkDetail => self.panels.interface = None,
            Overlay::ConnectDialog => self.sessions.show_connect_dialog = false,
            Overlay::History => {
                self.history.show = false;
                self.history.filter.clear();
            },
            Overlay::ProxyManager => self.close_proxies(),
            Overlay::TunnelManager => self.close_tunnels(),
            Overlay::TabRename => self.rename.tab = None,
            Overlay::SftpInput => self.browser.input = None,
            Overlay::KeyManager => {
                if self.keys.deploying.is_none() {
                    self.keys.show = false;
                }
                self.keys.deploying = None;
            },
            Overlay::ShortcutsHelp => self.panels.show_shortcuts = false,
            Overlay::Broadcast => self.broadcast.show = false,
            Overlay::Snippets => self.close_snippets(),
            Overlay::About => self.panels.show_about = false,
            Overlay::Settings => {
                if self.panels.theme_zone.is_none() {
                    self.panels.show_settings = false;
                }
                self.panels.theme_zone = None;
            },
            Overlay::ConnectionForm => self.close_form(),
        }
        fx
    }

    /// Close whatever is drawn and report whether anything was dismissed. ESC
    /// calls this, so it always closes exactly what the user is looking at.
    /// Panels with an inline sub-view — the proxy / tunnel form, the key
    /// deploy picker, an open colour editor, a snippet being edited — back out
    /// of that first.
    ///
    /// An editor holding unsaved changes stays open, but the key is still
    /// consumed: ESC is muscle memory for vim users and closing would throw
    /// their edits away. Save and Close remain explicit. A form works the
    /// same way: ESC puts one away only while it still reads exactly as it was
    /// opened; once anything was typed into it, only Save or Cancel does.
    pub fn close_topmost_overlay(&mut self, now: u128) -> (r: (bool, Vec<Effect>))
        ensures
            escaped(*old(self), now, *final(self), r.0, r.1@),
    {
        match self.topmost_overlay() {
            Some(top) => {
                proof {
                    lemma_top_from(*self, 0);
                }
                let fx = self.close_overlay(top, now);
                (true, fx)
            },
            None => {
                // Not a modal, but still something ESC should put away.
                let handled = self.browser.context_menu.is_some() || self.browser.menu.is_some();
                self.browser.context_menu = None;
                self.browser.menu = None;
                (handled, Vec::new())
            },
        }
    }
}

} // verus!
