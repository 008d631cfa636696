//! What is put away, sealed and asked for: by ESC, by a lock, by quitting, and by a session
//! that wants an answer.

use vstd::prelude::*;
use vstd::string::*;

use crate::auth;
use crate::common;
use crate::editing;
use crate::folded;
use crate::folded::SealedGroups;
use crate::form_steps;
use crate::history;
use crate::keeping;
use crate::locking;
use crate::number;
use crate::overlays;
use crate::screens::Overlay;
use crate::sharing;
use crate::signing;
use crate::state::Effect;
use crate::state::Env;
use crate::state::Message;
use crate::state::NeoShell;
use crate::steps;
use crate::transfer_steps;
use crate::transferring;
use crate::updating;
use crate::updating::Area;
use crate::watching;
use crate::windows;

verus! {

// ---- ESC -------------------------------------------------------------------------------------------------------

/// An overlay that nothing is typed into.
pub open spec fn is_plain_overlay(o: Overlay) -> bool {
    ||| o is Palette
    ||| o is ConfirmDelete
    ||| o is ConfirmAction
    ||| o is LogViewer
    ||| o is ErrorDialog
    ||| o is ProcessDetail
    ||| o is NetworkDetail
    ||| o is ConnectDialog
    ||| o is History
    ||| o is TabRename
    ||| o is SftpInput
    ||| o is ShortcutsHelp
    ||| o is About
    ||| o is Broadcast
}

/// ESC closes what is drawn, where nothing typed would be lost with it; an editor with unsaved
/// changes and a form with something typed into it stay open. The settings and the keys go in
/// two steps: first what is opened inside them, and they themselves.
pub proof fn law_esc_closes_what_is_drawn(
    before: NeoShell,
    now: u128,
    after: NeoShell,
    handled: bool,
    fx: Seq<Effect>,
    o: Overlay,
)
    requires
        overlays::escaped(before, now, after, handled, fx),
        before.top() == Some(o),
    ensures
        handled,
        is_plain_overlay(o) ==> !after.open(o) && fx.len() == 0,
        o is Settings && before.panels.theme_zone is None ==> !after.open(o),
        o is Settings && before.panels.theme_zone is Some ==> after.open(o) && after.panels.theme_zone is None,
        o is KeyManager && before.keys.deploying is None ==> !after.open(o),
        o is KeyManager && before.keys.deploying is Some ==> after.open(o) && after.keys.deploying is None,
        o is Editor && !before.editor.dirty ==> !after.open(o),
        o is Editor && before.editor.dirty ==> after == before,
        o is ConnectionForm && before.form.form.reads_as(before.form.opened) ==> !after.form.show
            && after.form.form.is_blank(),
        o is ConnectionForm && !before.form.form.reads_as(before.form.opened) ==> after == before,
        o is ProxyManager && !before.proxy.show_form ==> !after.proxy.show_manager,
        o is TunnelManager && !before.tunnel.show_form ==> !after.tunnel.show_manager,
{
    reveal(overlays::closed);
    overlays::law_the_topmost_overlay_is_drawn(before);
}

/// ESC on a server's question declines it, that one and no other, and the next one starts with
/// blank answers; in the first moments that the question is on screen it does nothing.
pub proof fn law_esc_declines_the_question(
    before: NeoShell,
    now: u128,
    after: NeoShell,
    handled: bool,
    fx: Seq<Effect>,
)
    requires
        overlays::escaped(before, now, after, handled, fx),
        before.top() == Some(Overlay::AuthPrompt),
        before.auth.queue@.len() > 0,
    ensures
        !auth::armed(before.auth.shown_at, now) ==> after == before && fx.len() == 0,
        auth::armed(before.auth.shown_at, now) ==> fx == seq![Effect::Cancel(before.auth.queue@[0].challenge.ticket)]
            && before.auth.queue@ == seq![before.auth.queue@[0]] + after.auth.queue@ && overlays::blank_answers(
            after.auth.answers@,
            after.front_prompts(),
        ) && after.auth.shown_at is None,
{
    reveal(overlays::closed);
    if auth::armed(before.auth.shown_at, now) {
        assert(before.auth.queue@ =~= seq![before.auth.queue@[0]] + before.auth.queue@.drop_first());
    }
}

/// A question that the user waits for takes the keyboard once it is seen, unless they are
/// typing; one that nobody waits for gives it back.
pub proof fn law_a_question_takes_the_keyboard_it_may(before: NeoShell, now: u128, after: NeoShell, fx: Seq<Effect>)
    requires
        NeoShell::began(before, now, after, fx),
        before.auth.queue@.len() > 0,
    ensures
        before.front_may() && before.front_prompts() > 0 && before.modal_on_screen() && !auth::typing(
            before.typing.last_keypress,
            now,
        ) ==> fx.len() == 1 && (fx[0] matches Effect::Focus(id, n) && id@ == "auth_answer_"@ + number::decimal(0)),
        before.front_may() && before.modal_on_screen() && auth::typing(before.typing.last_keypress, now)
            ==> fx.len() == 0,
        !before.front_may() ==> fx.len() == 1 && fx[0] is ReleaseAnswers,
        overlays::blank_answers(after.auth.answers@, before.front_prompts()),
        after.auth.queue == before.auth.queue,
{
}

/// A field of the question is gone to by its number, once the question takes keys at all.
pub proof fn law_a_field_is_gone_to_by_its_number(before: NeoShell, i: usize, env: Env, after: NeoShell, fx: Seq<Effect>)
    requires
        updating::updated(before, Message::AuthFocus(i), env, after, fx),
    ensures
        !auth::armed(before.auth.shown_at, env.now) ==> steps::asks_for(fx, Seq::empty()),
        auth::armed(before.auth.shown_at, env.now) ==> fx.len() > 0 && (fx[0] matches Effect::Focus(id, n) && id@
            == "auth_answer_"@ + number::decimal(i as nat)),
{
    let (mid, first) = steps::lemma_handled(before, Message::AuthFocus(i), env, after, fx, Area::Auth);
    reveal(signing::auth_step);
    if first.len() == 0 {
        assert(first =~= Seq::empty());
    } else if fx != first {
        assert(fx[0] == fx.drop_last()[0]);
    }
}

// ---- a lock and the end ----------------------------------------------------------------------------------------

/// A lock seals what is unsaved of the history before it forgets it, and writes nothing of a
/// history that has nothing new or was never read; after it nothing is owed.
pub proof fn law_a_lock_seals_what_is_unsaved(before: NeoShell, env: Env, after: NeoShell, fx: Seq<Effect>)
    requires
        updating::updated(before, Message::LockNow, env, after, fx),
        before.vault.screen is Main,
        before.history.records@.len() <= 500,
    ensures
        before.history.sync.dirty && before.history.sync.loaded && env.unlocked ==> fx.len() > 0 && (
        fx[0] matches Effect::WriteHistory(n, records, scrub, retire) && records@ == before.history.records@ && !scrub),
        !before.history.sync.dirty || !before.history.sync.loaded || !env.unlocked ==> fx.len() > 0 && !(fx[0]
            is WriteHistory),
        !after.history.sync.dirty && !after.history.sync.loaded && after.history.sync.pending_load is None,
        after.history.records@.len() == 0,
        !after.groups.dirty,
{
    let (mid, first) = steps::lemma_handled(before, Message::LockNow, env, after, fx, Area::Vault);
    reveal(locking::vault_step);
    let (a, b, c) = choose|a: Seq<Effect>, b: Seq<Effect>, c: Seq<Effect>|
        #![trigger locking::lock_effects(first, a, b, c)]
        locking::lock_effects(first, a, b, c) && locking::history_locked(before.history, env.unlocked, mid.history, a)
            && locking::groups_locked(before.groups, env.unlocked, mid.groups, b) && locking::retires(
            c,
            before.auth.queue@,
        );
    form_steps::lemma_groups_out(before.groups, env.unlocked, mid.groups, b);
    if fx != first {
        assert(fx[0] == fx.drop_last()[0]);
    }
    if a.len() > 0 {
        assert(first[0] == a[0]);
    } else if b.len() > 0 {
        assert(first[0] == b[0]);
    } else {
        assert(first[0] == Effect::LockVault);
    }
}

/// Quitting writes what is unsaved of the history, at once, and nothing of it otherwise.
pub proof fn law_quitting_writes_what_is_unsaved(before: NeoShell, env: Env, after: NeoShell, fx: Seq<Effect>)
    requires
        updating::updated(before, Message::QuitApp, env, after, fx),
        before.history.records@.len() <= 500,
    ensures
        fx.len() > 1,
        fx[0] is SettleHistory,
        before.history.sync.dirty && before.history.sync.loaded && env.unlocked ==> (
        fx[1] matches Effect::WriteHistoryNow(n, records) && records@ == before.history.records@),
        !before.history.sync.dirty || !before.history.sync.loaded || !env.unlocked ==> !(fx[1] is WriteHistoryNow),
{
    let m = Message::QuitApp;
    let (mid, first) = steps::lemma_handled(before, m, env, after, fx, Area::Window);
    reveal(windows::window_step);
    let s = updating::noted(before, m, env.now);
    let (records, folds) = choose|records: Seq<Effect>, folds: Seq<Effect>| #[trigger]
        windows::quit_via(s, env, records, folds, mid, first);
    if fx != first {
        assert(fx[0] == fx.drop_last()[0]);
        assert(fx[1] == fx.drop_last()[1]);
    }
    assert(first[0] == Effect::SettleHistory);
    if records.len() > 0 {
        assert(first[1] == records[0]);
    } else if folds.len() > 0 {
        assert(first[1] == folds[0]);
    } else {
        assert(first[1] == Effect::Quit);
    }
}

/// The groups that a sealed file names are folded once it is read, and none are while the
/// vault is locked.
pub proof fn law_sealed_groups_are_folded(
    before: NeoShell,
    bytes: Vec<u8>,
    env: Env,
    after: NeoShell,
    fx: Seq<Effect>,
    k: Seq<char>,
)
    requires
        updating::updated(before, Message::GroupsRead(SealedGroups::Opened(bytes), false, None), env, after, fx),
    ensures
        env.unlocked ==> (after.groups.collapsed@.contains(k) <==> folded::names_in(bytes@).contains(k)),
        !env.unlocked ==> !after.groups.collapsed@.contains(k),
        !after.groups.dirty,
        steps::asks_for(fx, Seq::empty()),
{
    let m = Message::GroupsRead(SealedGroups::Opened(bytes), false, None);
    let (end, first) = steps::lemma_handled(before, m, env, after, fx, Area::Kept);
    reveal(keeping::kept_step);
    let s = updating::noted(before, m, env.now);
    let mid = choose|mid: crate::state::Groups| #[trigger]
        keeping::groups_read_via(s, SealedGroups::Opened(bytes), false, None, env, mid, end, first);
    assert(first =~= Seq::empty());
    assert(mid.collapsed@.contains(k) <==> env.unlocked && (folded::sealed_names(
        SealedGroups::Opened(bytes),
    ).contains(k) || (false && folded::legacy_names(None).contains(k))));
}

/// A clear that comes while the history is being read holds for what is read too.
pub proof fn law_a_clear_holds_for_a_load_under_way(sync: history::HistorySync)
    ensures
        sync.pending_load matches Some(p) ==> (history::after_clear(sync).pending_load matches Some(q) && q.seq == p.seq
            && q.cleared),
        sync.pending_load is None ==> history::after_clear(sync).pending_load is None,
        !history::after_clear(sync).dirty,
        history::after_clear(sync).loaded == sync.loaded,
{
}

/// The newest of a list are its end, as many as are asked for.
pub proof fn law_the_newest_are_the_last<T>(s: Seq<T>, max: nat, i: int)
    ensures
        s.len() <= max ==> history::newest(s, max as int) == s,
        s.len() > max ==> history::newest(s, max as int).len() == max,
        0 <= i < max && i < s.len() ==> history::newest(s, max as int)[history::newest(s, max as int).len() - 1 - i]
            == s[s.len() - 1 - i],
{
}

// ---- forms that were saved -------------------------------------------------------------------------------------

/// A proxy or a tunnel that was saved closes its form and shows with the others; one that was
/// not keeps it open and says why.
pub proof fn law_a_saved_form_closes(before: NeoShell, m: Message, env: Env, after: NeoShell, fx: Seq<Effect>)
    requires
        updating::updated(before, m, env, after, fx),
        m is ProxySaved || m is TunnelSaved,
    ensures
        steps::asks_for(fx, Seq::empty()),
        m matches Message::ProxySaved(Ok(list)) ==> !after.proxy.show_form && after.proxy.edit_id is None
            && after.proxy.proxies == list && after.proxy.form.is_blank(),
        m matches Message::ProxySaved(Err(e)) ==> after.proxy == before.proxy && after.error.show
            && after.error.message@ == e@,
        m matches Message::TunnelSaved(Ok(list)) ==> !after.tunnel.show_form && after.tunnel.edit_id is None
            && after.tunnel.tunnels == list && after.tunnel.form.is_blank(),
        m matches Message::TunnelSaved(Err(e)) ==> after.tunnel == before.tunnel && after.error.show
            && after.error.message@ == e@,
{
    if m is ProxySaved {
        let (mid, first) = steps::lemma_handled(before, m, env, after, fx, Area::Proxy);
        reveal(editing::proxy_step);
        assert(first =~= Seq::empty());
    } else {
        let (mid, first) = steps::lemma_handled(before, m, env, after, fx, Area::Tunnel);
        reveal(editing::tunnel_step);
        assert(first =~= Seq::empty());
    }
}

/// The panel of keys is opened on the keys that there are; closed, it is asked for nothing. A
/// key that is not there is not copied.
pub proof fn law_the_keys_are_listed(before: NeoShell, m: Message, env: Env, after: NeoShell, fx: Seq<Effect>)
    requires
        updating::updated(before, m, env, after, fx),
        m is ShowKeyManager || m is HideKeyManager || m is KeyCopyPubkey || m is KeyDeployCancel,
    ensures
        m is ShowKeyManager ==> after.keys.show == !before.keys.show,
        m is ShowKeyManager && !before.keys.show ==> steps::asks_for(
            fx,
            seq![Effect::ListKeys, Effect::Then(Message::LoadConnections)],
        ),
        m is HideKeyManager ==> !after.keys.show && after.keys.deploying is None,
        m is KeyDeployCancel ==> after.keys.deploying is None && after.keys.show == before.keys.show,
        m is KeyCopyPubkey && before.keys.keys@.len() == 0 ==> steps::asks_for(fx, Seq::empty()) && after.keys
            == before.keys,
{
    let (mid, first) = steps::lemma_handled(before, m, env, after, fx, Area::Key);
    reveal(sharing::key_step);
    if first.len() == 0 {
        assert(first =~= Seq::empty());
    }
}

// ---- what a session waits for ----------------------------------------------------------------------------------

/// A folder that is to be downloaded, and a file that the shell waits for, are asked for while
/// no other transfer runs; while one does, that is said and nothing is asked.
pub proof fn law_a_transfer_is_asked_about_when_none_runs(
    before: NeoShell,
    m: Message,
    env: Env,
    after: NeoShell,
    fx: Seq<Effect>,
)
    requires
        updating::updated(before, m, env, after, fx),
        m is DownloadDir || m is RzDetected,
    ensures
        transfer_steps::is_taken(before) ==> steps::asks_for(fx, Seq::empty()) && after.error.show
            && after.error.message@ == env.texts.says("transfer.busy"@),
        m matches Message::DownloadDir(sid, path) ==> (!transfer_steps::is_taken(before) ==> steps::asks_for(
            fx,
            seq![Effect::PickDownloadDir(sid, path)],
        )),
        m matches Message::RzDetected(sid) ==> (!transfer_steps::is_taken(before) ==> fx.len() > 0 && (
        fx[0] matches Effect::PickRz(to, dir) && to == sid && dir@ == (
        if before.browser.current_dir@.contains_key(sid@) {
            before.browser.current_dir@[sid@]@
        } else {
            "~"@
        }))),
        after.transfers == before.transfers,
{
    let (mid, first) = steps::lemma_handled(before, m, env, after, fx, Area::Transfer);
    reveal(transferring::transfer_step);
    if first.len() == 0 {
        assert(first =~= Seq::empty());
    } else if fx != first {
        assert(fx[0] == fx.drop_last()[0]);
    }
}

/// Ports that could not be read leave an empty table and say why.
pub proof fn law_unread_ports_say_why(
    before: NeoShell,
    sid: String,
    e: String,
    env: Env,
    after: NeoShell,
    fx: Seq<Effect>,
)
    requires
        updating::updated(before, Message::PortsReceived(sid, Err(e)), env, after, fx),
        common::focused_any(before.sessions) == Some(sid@),
    ensures
        after.monitor.ports@.len() == 0,
        after.monitor.ports_error == Some(e),
        !after.monitor.ports_inflight@.contains(sid@),
{
    let m = Message::PortsReceived(sid, Err(e));
    let (mid, first) = steps::lemma_handled(before, m, env, after, fx, Area::Monitor);
    reveal(watching::monitor_step);
}

/// Who asks for a parked connection, or folds the panel away, is not typing into it any more.
pub proof fn law_a_press_ends_the_typing(before: NeoShell, m: Message, env: Env, after: NeoShell, fx: Seq<Effect>)
    requires
        updating::updated(before, m, env, after, fx),
        m is ResumeMonitoring || m is ToggleBottomPanel,
    ensures
        m matches Message::ResumeMonitoring(sid) ==> (before.monitor.parked.may_resume(sid@)
            ==> after.typing.last_keypress is None),
        m is ToggleBottomPanel ==> !after.typing.quick_cmd_focused,
{
    if m is ResumeMonitoring {
        let (mid, first) = steps::lemma_handled(before, m, env, after, fx, Area::Monitor);
        reveal(watching::monitor_step);
    } else {
        let (mid, first) = steps::lemma_handled(before, m, env, after, fx, Area::Window);
        reveal(windows::window_step);
    }
}

} // verus!
