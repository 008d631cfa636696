//! The vault: setting it up, opening it, locking it again.

use vstd::prelude::*;

use crate::auth::Waiting;
use crate::common;
use crate::forms;
use crate::forms::TunnelConfig;
use crate::history;
use crate::history::HistorySync;
use crate::history::PendingLoad;
use crate::logs;
use crate::screens::Screen;
use crate::secrets;
use crate::settings;
use crate::split;
use crate::state::Auth;
use crate::state::Browser;
use crate::state::ConnForm;
use crate::state::Effect;
use crate::state::Env;
use crate::state::ErrorBox;
use crate::state::Groups;
use crate::state::HistoryPanel;
use crate::state::KeyManager;
use crate::state::Message;
use crate::state::NeoShell;
use crate::state::Palette;
use crate::state::Panels;
use crate::state::ProxyPanel;
use crate::state::Sessions;
use crate::state::TunnelPanel;
use crate::state::Vault;
use crate::tabs;
use crate::text;

verus! {

// ---- setting up and opening --------------------------------------------------------------------

/// `after` is `before` with another message, wherever it is shown.
pub open spec fn message_set(before: NeoShell, message: Seq<char>, after: NeoShell) -> bool {
    &&& after.error.message@ == message
    &&& after == (NeoShell { error: ErrorBox { message: after.error.message, ..before.error }, ..before })
}

pub open spec fn create_asked(before: NeoShell, env: Env, after: NeoShell, fx: Seq<Effect>) -> bool {
    if logs::bytes_of(before.vault.password_input@) < 4 {
        message_set(before, env.texts.says("setup.err_too_short"@), after) && fx.len() == 0
    } else if before.vault.password_input@ != before.vault.confirm_input@ {
        message_set(before, env.texts.says("setup.err_mismatch"@), after) && fx.len() == 0
    } else {
        after == before && fx == seq![Effect::CreateVault(before.vault.password_input)]
    }
}

/// A new master password needs four bytes, typed the same way twice.
pub fn on_create_vault(state: &mut NeoShell, env: &Env) -> (fx: Vec<Effect>)
    ensures
        create_asked(*old(state), *env, *final(state), fx@),
{
    if logs::text_bytes(state.vault.password_input.as_str()) < 4 {
        state.error.message = env.texts.t("setup.err_too_short");
        return common::nothing();
    }
    if !text::same_text(state.vault.password_input.as_str(), state.vault.confirm_input.as_str()) {
        state.error.message = env.texts.t("setup.err_mismatch");
        return common::nothing();
    }
    common::one(Effect::CreateVault(state.vault.password_input.clone()))
}

/// What opening the vault makes of a state; a vault just created also forgets
/// the second copy of its password.
pub open spec fn opened(before: NeoShell, now: u128, created: bool, after: NeoShell) -> bool {
    let seq = (before.history.sync.load_seq + 1) as u64;
    &&& after == (NeoShell {
        vault: Vault {
            screen: Screen::Main,
            password_input: after.vault.password_input,
            confirm_input: after.vault.confirm_input,
            last_activity: now,
            ..before.vault
        },
        error: ErrorBox { message: after.error.message, ..before.error },
        history: HistoryPanel {
            sync: HistorySync {
                load_seq: seq,
                pending_load: Some(PendingLoad { seq, cleared: false }),
                ..before.history.sync
            },
            ..before.history
        },
        ..before
    })
    &&& after.vault.password_input@.len() == 0
    &&& if created {
        after.vault.confirm_input@.len() == 0
    } else {
        after.vault.confirm_input == before.vault.confirm_input
    }
    &&& after.error.message@.len() == 0
}

/// The vault was created. The stores of proxies and tunnels survive a deleted
/// vault, so a fresh one can still inherit cleartext credentials to move; so
/// does a cleartext history, and a cleartext list of folded groups.
pub fn on_vault_created(state: &mut NeoShell, env: &Env) -> (fx: Vec<Effect>)
    requires
        old(state).history.sync.load_seq < u64::MAX,
    ensures
        opened(*old(state), env.now, true, *final(state)),
        fx@ == seq![
            Effect::MigrateSecrets,
            Effect::LoadHistory((old(state).history.sync.load_seq + 1) as u64),
            Effect::ReadGroups,
            Effect::Then(Message::LoadConnections),
            Effect::Then(Message::AutoStartTunnels),
        ],
{
    state.vault.screen = Screen::Main;
    state.vault.password_input.clear();
    state.vault.confirm_input.clear();
    state.error.message.clear();
    state.vault.last_activity = env.now;
    let seq = history::start_history_load(&mut state.history.sync);
    let mut fx: Vec<Effect> = Vec::new();
    fx.push(Effect::MigrateSecrets);
    fx.push(Effect::LoadHistory(seq));
    fx.push(Effect::ReadGroups);
    fx.push(Effect::Then(Message::LoadConnections));
    fx.push(Effect::Then(Message::AutoStartTunnels));
    fx
}

/// The vault was opened. The credentials are moved before the tunnels start:
/// a tunnel needs them resolved. The folded groups are read before the
/// connections: loading those prunes them.
pub fn on_vault_unlocked(state: &mut NeoShell, env: &Env) -> (fx: Vec<Effect>)
    requires
        old(state).history.sync.load_seq < u64::MAX,
    ensures
        opened(*old(state), env.now, false, *final(state)),
        fx@ == seq![
            Effect::MigrateSecrets,
            Effect::LoadHistory((old(state).history.sync.load_seq + 1) as u64),
            Effect::ReadGroups,
            Effect::Then(Message::LoadConnections),
            Effect::Then(Message::CheckForUpdate),
            Effect::Then(Message::AutoStartTunnels),
        ],
{
    state.vault.screen = Screen::Main;
    state.vault.password_input.clear();
    state.error.message.clear();
    state.vault.last_activity = env.now;
    let seq = history::start_history_load(&mut state.history.sync);
    let mut fx: Vec<Effect> = Vec::new();
    fx.push(Effect::MigrateSecrets);
    fx.push(Effect::LoadHistory(seq));
    fx.push(Effect::ReadGroups);
    fx.push(Effect::Then(Message::LoadConnections));
    fx.push(Effect::Then(Message::CheckForUpdate));
    fx.push(Effect::Then(Message::AutoStartTunnels));
    fx
}

/// The vault opened under the password, or why not.
pub open spec fn unlock_answered(result: Result<bool, String>, env: Env, m: Message) -> bool {
    match result {
        Ok(true) => m == Message::VaultUnlocked,
        Ok(false) => m matches Message::Error(e) && e@ == env.texts.says("unlock.err_invalid"@),
        Err(e) => m == Message::Error(e),
    }
}

/// What comes of an attempt to open the vault.
pub fn unlock_reply(result: Result<bool, String>, env: &Env) -> (m: Message)
    ensures
        unlock_answered(result, *env, m),
{
    match result {
        Ok(true) => Message::VaultUnlocked,
        Ok(false) => Message::Error(env.texts.t("unlock.err_invalid")),
        Err(e) => Message::Error(e),
    }
}

// ---- tunnels that start with the vault -----------------------------------------------------------

/// The tunnel is to be started: it is flagged, and it does not run yet — an
/// idle re-lock followed by an unlock comes here again.
pub open spec fn starts_now(t: TunnelConfig, running: Seq<Seq<char>>) -> bool {
    t.auto_start && !running.contains(t.id@)
}

pub open spec fn quiet_starts(fx: Seq<Effect>, tunnels: Seq<TunnelConfig>) -> bool {
    fx.len() == tunnels.len() && forall|i: int|
        0 <= i < fx.len() ==> #[trigger] fx[i] == Effect::StartTunnelQuietly(tunnels[i].id)
}

/// Start every tunnel that is flagged for it and not running.
pub fn start_tunnels(tunnels: &Vec<TunnelConfig>, running: &Vec<String>) -> (fx: Vec<Effect>)
    ensures
        quiet_starts(
            fx@,
            tunnels@.filter(|t: TunnelConfig| starts_now(t, split::texts(running@))),
        ),
{
    let ghost wanted = |t: TunnelConfig| starts_now(t, split::texts(running@));
    let mut fx: Vec<Effect> = Vec::new();
    let mut i: usize = 0;
    assert(tunnels@.take(0).filter(wanted) =~= Seq::<TunnelConfig>::empty()) by {
        reveal(Seq::filter);
    }
    while i < tunnels.len()
        invariant
            i <= tunnels@.len(),
            wanted == (|t: TunnelConfig| starts_now(t, split::texts(running@))),
            quiet_starts(fx@, tunnels@.take(i as int).filter(wanted)),
        decreases tunnels.len() - i,
    {
        proof {
            tunnels@.take(i as int).lemma_filter_push(tunnels@[i as int], wanted);
            assert(tunnels@.take(i + 1) =~= tunnels@.take(i as int).push(tunnels@[i as int]));
        }
        if tunnels[i].auto_start && !tabs::list_has(running, tunnels[i].id.as_str()) {
            fx.push(Effect::StartTunnelQuietly(tunnels[i].id.clone()));
        }
        i += 1;
    }
    assert(tunnels@.take(tunnels@.len() as int) =~= tunnels@);
    fx
}

// ---- locking ------------------------------------------------------------------------------------------

/// The command history on its way out: sealed if the disk has not seen it all
/// and the key is still there, and gone either way.
pub open spec fn history_locked(before: HistoryPanel, unlocked: bool, after: HistoryPanel, fx: Seq<Effect>) -> bool {
    let seal = before.sync.dirty && before.sync.loaded && unlocked;
    &&& after.records@.len() == 0
    &&& after == (HistoryPanel {
        records: after.records,
        sync: HistorySync { pending_load: None, dirty: false, loaded: false, ..before.sync },
        ledger: if seal {
            common::sealed_one(before.ledger)
        } else {
            before.ledger
        },
        ..before
    })
    &&& if seal {
        &&& fx.len() == 1
        &&& common::writes_history(
            fx[0],
            after.ledger.next_seq,
            history::newest(before.records@, history::HISTORY_MAX as int),
            false,
            false,
        )
    } else {
        fx.len() == 0
    }
}

fn lock_records(h: &mut HistoryPanel, unlocked: bool) -> (fx: Vec<Effect>)
    requires
        old(h).ledger.next_seq < u64::MAX,
        old(h).ledger.pending < u64::MAX,
    ensures
        history_locked(*old(h), unlocked, *final(h), fx@),
{
    let mut fx: Vec<Effect> = Vec::new();
    match history::lock_history(&mut h.records, &mut h.sync) {
        Some(records) => {
            if unlocked {
                let seq = h.ledger.seal();
                fx.push(Effect::WriteHistory(seq, records, false, false));
            }
        },
        None => {},
    }
    fx
}

/// The folded groups on their way out: a change not saved yet is sealed, and
/// the names are forgotten until the next unlock reads them.
pub open spec fn groups_locked(before: Groups, unlocked: bool, after: Groups, fx: Seq<Effect>) -> bool {
    &&& after.collapsed@ == Set::<Seq<char>>::empty()
    &&& !after.dirty
    &&& after.generation == before.generation
    &&& if before.dirty {
        exists|mid: Groups| #[trigger] common::groups_sealed(before, unlocked, false, mid, fx) && after.ledger
            == mid.ledger
    } else {
        after.ledger == before.ledger && fx.len() == 0
    }
}

fn lock_groups(groups: &mut Groups, unlocked: bool) -> (fx: Vec<Effect>)
    requires
        old(groups).ledger.next_seq < u64::MAX,
        old(groups).ledger.pending < u64::MAX,
    ensures
        groups_locked(*old(groups), unlocked, *final(groups), fx@),
{
    let mut fx: Vec<Effect> = Vec::new();
    if groups.dirty {
        fx = common::persist_groups(groups, unlocked, false);
    }
    let ghost mid = *groups;
    assert(old(groups).dirty ==> common::groups_sealed(*old(groups), unlocked, false, mid, fx@));
    groups.collapsed.clear();
    groups.dirty = false;
    fx
}

/// One retired challenge for each in the queue, in order.
pub open spec fn retires(fx: Seq<Effect>, queue: Seq<Waiting>) -> bool {
    fx.len() == queue.len() && forall|i: int|
        0 <= i < fx.len() ==> #[trigger] fx[i] == Effect::Retire(queue[i].challenge.ticket)
}

fn retire_all(auth: &mut Auth) -> (fx: Vec<Effect>)
    ensures
        retires(fx@, old(auth).queue@),
        final(auth).queue@.len() == 0,
        final(auth).answers@.len() == 0,
        *final(auth) == (Auth {
            queue: final(auth).queue,
            answers: final(auth).answers,
            focus_owed: false,
            shown_at: None,
            ..*old(auth)
        }),
{
    secrets::wipe_all(&mut auth.answers);
    let mut fx: Vec<Effect> = Vec::new();
    let mut i: usize = 0;
    while i < auth.queue.len()
        invariant
            i <= auth.queue@.len(),
            retires(fx@, auth.queue@.take(i as int)),
            *auth == (Auth { answers: auth.answers, ..*old(auth) }),
            auth.answers@.len() == 0,
        decreases auth.queue.len() - i,
    {
        fx.push(Effect::Retire(auth.queue[i].challenge.ticket));
        i += 1;
    }
    assert(auth.queue@.take(i as int) =~= auth.queue@);
    auth.queue = Vec::new();
    auth.focus_owed = false;
    auth.shown_at = None;
    fx
}

/// What locking makes of the parts that are only put away.
pub open spec fn put_away(before: NeoShell, after: NeoShell) -> bool {
    &&& after.vault.screen == Screen::Locked
    &&& after.vault.password_input@.len() == 0
    &&& after.vault.confirm_input@.len() == 0
    &&& after.vault == (Vault {
        screen: Screen::Locked,
        password_input: after.vault.password_input,
        confirm_input: after.vault.confirm_input,
        ..before.vault
    })
    &&& after.error.message@.len() == 0
    &&& after.error == (ErrorBox { message: after.error.message, ..before.error })
    &&& after.sessions.connections@.len() == 0
    &&& after.sessions == (Sessions { connections: after.sessions.connections, ..before.sessions })
    &&& forms::conn_scrubbed(before.form.form, after.form.form)
    &&& after.form == (ConnForm { show: false, form: after.form.form, ..before.form })
    &&& forms::proxy_scrubbed(before.proxy.form, after.proxy.form)
    &&& after.proxy.proxies@.len() == 0
    &&& after.proxy == (ProxyPanel {
        proxies: after.proxy.proxies,
        show_manager: false,
        show_form: false,
        form: after.proxy.form,
        ..before.proxy
    })
    &&& forms::tunnel_scrubbed(before.tunnel.form, after.tunnel.form)
    &&& after.tunnel.tunnels@.len() == 0
    &&& after.tunnel == (TunnelPanel {
        tunnels: after.tunnel.tunnels,
        show_manager: false,
        show_form: false,
        form: after.tunnel.form,
        ..before.tunnel
    })
    &&& after.browser == (Browser { confirm: None, input: None, menu: None, ..before.browser })
    &&& after.panels == (Panels { show_settings: false, ..before.panels })
    &&& after.keys == (KeyManager { show: false, ..before.keys })
    &&& after.palette == (Palette { show: false, ..before.palette })
}

/// What locking makes of a state. Live SSH sessions are deliberately
/// untouched: the tabs are left intact, so the terminals are still there,
/// still connected, when the vault is unlocked again.
pub open spec fn locked(before: NeoShell, env: Env, after: NeoShell, fx: Seq<Effect>) -> bool {
    &&& put_away(before, after)
    &&& after.auth.queue@.len() == 0
    &&& after.auth.answers@.len() == 0
    &&& after.auth == (Auth {
        queue: after.auth.queue,
        answers: after.auth.answers,
        focus_owed: false,
        shown_at: None,
        ..before.auth
    })
    &&& after == (NeoShell {
        vault: after.vault,
        error: after.error,
        sessions: after.sessions,
        form: after.form,
        proxy: after.proxy,
        tunnel: after.tunnel,
        browser: after.browser,
        panels: after.panels,
        keys: after.keys,
        palette: after.palette,
        history: after.history,
        groups: after.groups,
        auth: after.auth,
        ..before
    })
    &&& exists|a: Seq<Effect>, b: Seq<Effect>, c: Seq<Effect>|
        #![trigger lock_effects(fx, a, b, c)]
        lock_effects(fx, a, b, c) && history_locked(before.history, env.unlocked, after.history, a)
            && groups_locked(before.groups, env.unlocked, after.groups, b) && retires(c, before.auth.queue@)
}

/// First what is sealed, while the key is still in memory; then the key goes;
/// then nobody waits for an answer any more.
pub open spec fn lock_effects(fx: Seq<Effect>, a: Seq<Effect>, b: Seq<Effect>, c: Seq<Effect>) -> bool {
    fx == a + b + seq![Effect::LockVault] + c
}

/// Re-lock the vault: wipe the key, drop any decrypted secret held in the UI,
/// and return to the lock screen.
pub fn lock_vault(state: &mut NeoShell, env: &Env) -> (fx: Vec<Effect>)
    requires
        old(state).has_room(),
    ensures
        locked(*old(state), *env, *final(state), fx@),
{
    let mut fx = lock_records(&mut state.history, env.unlocked);
    let ghost a = fx@;
    let mut more = lock_groups(&mut state.groups, env.unlocked);
    let ghost b = more@;
    fx.append(&mut more);
    fx.push(Effect::LockVault);
    forms::scrub_form_secrets(&mut state.form.form, &mut state.proxy.form, &mut state.tunnel.form);
    // The lists are re-read on unlock; holding decrypted copies across the
    // lock would defeat it.
    forms::scrub_list_secrets(&mut state.proxy.proxies, &mut state.tunnel.tunnels);
    state.proxy.proxies = Vec::new();
    state.tunnel.tunnels = Vec::new();
    state.sessions.connections = Vec::new();
    // Nothing below the lock screen is rendered, but an overlay left open
    // would spring back with the vault.
    state.form.show = false;
    state.proxy.show_form = false;
    state.proxy.show_manager = false;
    state.tunnel.show_form = false;
    state.tunnel.show_manager = false;
    state.panels.show_settings = false;
    state.keys.show = false;
    state.palette.show = false;
    // A half-typed answer is a secret, and the SSH threads behind the queue
    // must not wait on a screen nobody can see.
    let mut retired = retire_all(&mut state.auth);
    let ghost c = retired@;
    fx.append(&mut retired);
    assert(fx@ =~= a + b + seq![Effect::LockVault] + c);
    assert(lock_effects(fx@, a, b, c));
    // A pending destructive action does not survive the lock either.
    state.browser.confirm = None;
    state.browser.input = None;
    state.browser.menu = None;
    secrets::wipe(&mut state.vault.password_input);
    secrets::wipe(&mut state.vault.confirm_input);
    state.error.message.clear();
    state.vault.screen = Screen::Locked;
    fx
}

/// No secret stays behind a lock: neither in the password fields, nor in a
/// form, a list, an answer or the history. The sessions go on.
pub proof fn law_locking_leaves_no_secret(before: NeoShell, env: Env, after: NeoShell, fx: Seq<Effect>)
    requires
        locked(before, env, after, fx),
    ensures
        after.vault.password_input@.len() == 0,
        after.vault.confirm_input@.len() == 0,
        after.form.form.password@.len() == 0,
        after.form.form.passphrase@.len() == 0,
        after.proxy.form.password@.len() == 0,
        after.proxy.form.passphrase@.len() == 0,
        after.proxy.proxies@.len() == 0,
        after.tunnel.form.password@.len() == 0,
        after.tunnel.form.passphrase@.len() == 0,
        after.tunnel.tunnels@.len() == 0,
        after.sessions.connections@.len() == 0,
        after.auth.answers@.len() == 0,
        after.history.records@.len() == 0,
        after.groups.collapsed@ == Set::<Seq<char>>::empty(),
        after.sessions.tabs@ == before.sessions.tabs@,
        after.sessions.active_tab == before.sessions.active_tab,
        after.vault.screen == Screen::Locked,
{
}

// ---- the messages ---------------------------------------------------------------------------------------

pub open spec fn is_vault_message(m: Message) -> bool {
    match m {
        Message::PasswordChanged(_) => true,
        Message::ConfirmChanged(_) => true,
        Message::CreateVault => true,
        Message::VaultCreated => true,
        Message::UnlockVault => true,
        Message::VaultUnlocked => true,
        Message::StoresLoaded(_, _) => true,
        Message::AutoStartTunnels => true,
        Message::TunnelsListed(_, _) => true,
        Message::LockNow => true,
        Message::IdleCheck => true,
        Message::SetLockTimeout(_) => true,
        _ => false,
    }
}

pub open spec fn stores_loaded(
    before: NeoShell,
    proxies: Vec<crate::forms::ProxyConfig>,
    tunnels: Vec<TunnelConfig>,
    after: NeoShell,
) -> bool {
    after == (NeoShell {
        proxy: ProxyPanel { proxies, ..before.proxy },
        tunnel: TunnelPanel { tunnels, ..before.tunnel },
        ..before
    })
}

pub open spec fn password_typed(before: NeoShell, v: String, after: NeoShell) -> bool {
    after == (NeoShell { vault: Vault { password_input: v, ..before.vault }, ..before })
}

pub open spec fn confirm_typed(before: NeoShell, v: String, after: NeoShell) -> bool {
    after == (NeoShell { vault: Vault { confirm_input: v, ..before.vault }, ..before })
}

pub open spec fn timeout_set(before: NeoShell, mins: u32, now: u128, after: NeoShell, fx: Seq<Effect>) -> bool {
    &&& settings::nearest_step(mins as int, after.vault.lock_timeout_mins as int)
    &&& after == (NeoShell {
        vault: Vault {
            lock_timeout_mins: after.vault.lock_timeout_mins,
            last_activity: now,
            ..before.vault
        },
        ..before
    })
    &&& fx == seq![Effect::SaveLockTimeout(after.vault.lock_timeout_mins)]
}

/// The vault is open and has been idle for as long as it may.
pub open spec fn idle_for_long(s: NeoShell, now: u128) -> bool {
    s.vault.screen == Screen::Main && s.vault.lock_timeout_mins > 0 && (if now >= s.vault.last_activity {
        now - s.vault.last_activity
    } else {
        0
    }) >= s.vault.lock_timeout_mins * 60 * 1_000_000_000
}

#[verifier::opaque]
pub open spec fn vault_step(before: NeoShell, m: Message, env: Env, after: NeoShell, fx: Seq<Effect>) -> bool {
    match m {
        Message::PasswordChanged(v) => password_typed(before, v, after) && fx.len() == 0,
        Message::ConfirmChanged(v) => confirm_typed(before, v, after) && fx.len() == 0,
        Message::CreateVault => create_asked(before, env, after, fx),
        Message::VaultCreated => opened(before, env.now, true, after) && fx == seq![
            Effect::MigrateSecrets,
            Effect::LoadHistory((before.history.sync.load_seq + 1) as u64),
            Effect::ReadGroups,
            Effect::Then(Message::LoadConnections),
            Effect::Then(Message::AutoStartTunnels),
        ],
        Message::UnlockVault => after == before && fx == seq![
            Effect::UnlockVault(before.vault.password_input),
        ],
        Message::VaultUnlocked => opened(before, env.now, false, after) && fx == seq![
            Effect::MigrateSecrets,
            Effect::LoadHistory((before.history.sync.load_seq + 1) as u64),
            Effect::ReadGroups,
            Effect::Then(Message::LoadConnections),
            Effect::Then(Message::CheckForUpdate),
            Effect::Then(Message::AutoStartTunnels),
        ],
        Message::StoresLoaded(p, t) => stores_loaded(before, p, t, after) && fx.len() == 0,
        Message::AutoStartTunnels => after == before && fx == seq![Effect::ListTunnels],
        Message::TunnelsListed(t, running) => after == before && quiet_starts(
            fx,
            t@.filter(|t: TunnelConfig| starts_now(t, split::texts(running@))),
        ),
        Message::LockNow => if before.vault.screen == Screen::Main {
            locked(before, env, after, fx)
        } else {
            after == before && fx.len() == 0
        },
        Message::IdleCheck => if idle_for_long(before, env.now) {
            locked(before, env, after, fx)
        } else {
            after == before && fx.len() == 0
        },
        Message::SetLockTimeout(mins) => timeout_set(before, mins, env.now, after, fx),
        _ => true,
    }
}

/// The vault's messages.
pub fn handle_vault(state: &mut NeoShell, message: Message, env: &Env) -> (fx: Vec<Effect>)
    requires
        is_vault_message(message),
        old(state).wf(),
        old(state).has_room(),
    ensures
        vault_step(*old(state), message, *env, *final(state), fx@),
        final(state).wf(),
{
    proof {
        reveal(vault_step);
    }
    match message {
        Message::PasswordChanged(v) => {
            state.vault.password_input = v;
            common::nothing()
        },
        Message::ConfirmChanged(v) => {
            state.vault.confirm_input = v;
            common::nothing()
        },
        Message::CreateVault => on_create_vault(state, env),
        Message::VaultCreated => on_vault_created(state, env),
        Message::UnlockVault => common::one(Effect::UnlockVault(state.vault.password_input.clone())),
        Message::VaultUnlocked => on_vault_unlocked(state, env),
        Message::StoresLoaded(proxies, tunnels) => {
            state.proxy.proxies = proxies;
            state.tunnel.tunnels = tunnels;
            common::nothing()
        },
        Message::AutoStartTunnels => common::one(Effect::ListTunnels),
        Message::TunnelsListed(tunnels, running) => start_tunnels(&tunnels, &running),
        Message::LockNow => {
            if state.vault.screen != Screen::Main {
                return common::nothing();
            }
            lock_vault(state, env)
        },
        Message::IdleCheck => {
            let idle = if env.now >= state.vault.last_activity {
                env.now - state.vault.last_activity
            } else {
                0
            };
            if state.vault.screen == Screen::Main && settings::idle_lock_due(
                state.vault.lock_timeout_mins,
                idle,
            ) {
                return lock_vault(state, env);
            }
            common::nothing()
        },
        Message::SetLockTimeout(mins) => {
            let mins = settings::clamp_lock_timeout(mins);
            state.vault.lock_timeout_mins = mins;
            state.vault.last_activity = env.now;
            common::one(Effect::SaveLockTimeout(mins))
        },
        _ => common::nothing(),
    }
}

} // verus!
