//! What one message does to the vault, the saved connections and the forms.

use vstd::prelude::*;
use vstd::string::*;

use crate::common;
use crate::connecting;
use crate::connections::ConnectionInfo;
use crate::editing;
use crate::forms;
use crate::forms::ConnectionConfig;
use crate::forms::ConnectionFormData;
use crate::forms::ProxyFormData;
use crate::forms::ProxyType;
use crate::forms::TunnelFormData;
use crate::locking;
use crate::logs;
use crate::number;
use crate::secrets;
use crate::state::Effect;
use crate::state::Env;
use crate::state::Message;
use crate::state::NeoShell;
use crate::steps;
use crate::tab_steps;
use crate::text;
use crate::updating;
use crate::updating::Area;

verus! {

// ---- ports ------------------------------------------------------------------------------------------

/// A port that is written out reads back as it was, whatever a blank one would mean.
pub proof fn law_a_port_reads_back(port: u16, default: u16)
    requires
        port > 0,
    ensures
        forms::port_or(number::decimal(port as nat), default) == Some(port),
{
    let s = number::decimal(port as nat);
    number::lemma_digits_read_back(port as nat, 10);
    assert(number::is_digit_of(s[0], 10));
    assert(number::is_digit_of(s.last(), 10));
    assert(forms::strip_left(s) == s);
    assert(forms::strip_right(s) == s);
    assert(forms::port_digits(s) =~= s) by {
        assert forall|i: int| 0 <= i < s.len() implies forms::narrow(s[i]) == s[i] by {
            assert(number::is_digit_of(s[i], 10));
        }
    }
}

/// A port field with nothing but blanks means the default; one that names no port means
/// none at all.
pub proof fn law_a_blank_port_is_the_default(s: Seq<char>, default: u16)
    ensures
        s.len() == 0 ==> forms::port_or(s, default) == Some(default),
        forms::port_or(s, default) matches Some(p) ==> p == default || p >= 1,
        number::all_digits(s, 10) && s.len() > 0 && (number::value(s, 10) == 0 || number::value(s, 10) > 65535)
            ==> forms::port_or(s, default) is None,
{
    if s.len() == 0 {
        assert(forms::port_digits(s) =~= Seq::empty());
    }
    if number::all_digits(s, 10) && s.len() > 0 {
        assert(number::is_digit_of(s[0], 10));
        assert(number::is_digit_of(s.last(), 10));
        assert(forms::strip_left(s) == s);
        assert(forms::strip_right(s) == s);
        assert(forms::port_digits(s) =~= s) by {
            assert forall|i: int| 0 <= i < s.len() implies forms::narrow(s[i]) == s[i] by {
                assert(number::is_digit_of(s[i], 10));
            }
        }
    }
}

// ---- the vault ----------------------------------------------------------------------------------------

/// A vault is made with the password that was typed twice, four bytes or longer, and with
/// no other; what is wrong with another is said.
pub proof fn law_a_vault_is_made_with_what_was_typed_twice(
    before: NeoShell,
    env: Env,
    after: NeoShell,
    fx: Seq<Effect>,
)
    requires
        updating::updated(before, Message::CreateVault, env, after, fx),
    ensures
        logs::bytes_of(before.vault.password_input@) >= 4 && before.vault.password_input@ == before.vault.confirm_input@
            ==> steps::asks_for(fx, seq![Effect::CreateVault(before.vault.password_input)]) && after.error == before.error,
        logs::bytes_of(before.vault.password_input@) < 4 || before.vault.password_input@ != before.vault.confirm_input@
            ==> steps::asks_for(fx, Seq::empty()),
        logs::bytes_of(before.vault.password_input@) < 4 ==> after.error.message@ == env.texts.says(
            "setup.err_too_short"@,
        ),
        logs::bytes_of(before.vault.password_input@) >= 4 && before.vault.password_input@ != before.vault.confirm_input@
            ==> after.error.message@ == env.texts.says("setup.err_mismatch"@),
        after.vault.screen == before.vault.screen,
{
    let (mid, first) = steps::lemma_handled(before, Message::CreateVault, env, after, fx, Area::Vault);
    reveal(locking::vault_step);
    if first.len() == 0 {
        assert(first =~= Seq::empty());
    }
}

/// What is typed for a password goes into its own field; unlocking hands over the first.
pub proof fn law_the_password_typed_is_the_one_tried(before: NeoShell, m: Message, env: Env, after: NeoShell, fx: Seq<Effect>)
    requires
        updating::updated(before, m, env, after, fx),
    ensures
        m matches Message::PasswordChanged(v) ==> after.vault.password_input == v && after.vault.confirm_input
            == before.vault.confirm_input,
        m matches Message::ConfirmChanged(v) ==> after.vault.confirm_input == v && after.vault.password_input
            == before.vault.password_input,
        m is UnlockVault ==> steps::asks_for(fx, seq![Effect::UnlockVault(before.vault.password_input)])
            && after.vault.screen == before.vault.screen,
{
    if m is PasswordChanged || m is ConfirmChanged || m is UnlockVault {
        let (mid, first) = steps::lemma_handled(before, m, env, after, fx, Area::Vault);
        reveal(locking::vault_step);
    }
}

/// A vault that opens shows the main screen, forgets the password, starts the idle time
/// anew, and has the connections, the history, the folded groups and the tunnels read.
pub proof fn law_an_open_vault_is_filled(before: NeoShell, m: Message, env: Env, after: NeoShell, fx: Seq<Effect>)
    requires
        updating::updated(before, m, env, after, fx),
        m is VaultCreated || m is VaultUnlocked,
    ensures
        after.vault.screen is Main,
        after.vault.password_input@.len() == 0,
        m is VaultCreated ==> after.vault.confirm_input@.len() == 0,
        after.vault.last_activity == env.now,
        after.vault.lock_timeout_mins == before.vault.lock_timeout_mins,
        fx.contains(Effect::MigrateSecrets),
        fx.contains(Effect::Then(Message::LoadConnections)),
        fx.contains(Effect::ReadGroups),
        fx.contains(Effect::Then(Message::AutoStartTunnels)),
        fx.contains(Effect::LoadHistory(after.history.sync.load_seq)),
        after.history.sync.pending_load matches Some(p) && p.seq == after.history.sync.load_seq && !p.cleared,
        after.sessions == before.sessions,
{
    let (mid, first) = steps::lemma_handled(before, m, env, after, fx, Area::Vault);
    reveal(locking::vault_step);
    let n = first.len() as int;
    assert(first[0] == Effect::MigrateSecrets);
    tab_steps::lemma_asked(fx, first, Effect::MigrateSecrets);
    assert(first[3] == Effect::Then(Message::LoadConnections));
    tab_steps::lemma_asked(fx, first, Effect::Then(Message::LoadConnections));
    assert(first[2] == Effect::ReadGroups);
    tab_steps::lemma_asked(fx, first, Effect::ReadGroups);
    assert(first[n - 1] == Effect::Then(Message::AutoStartTunnels));
    tab_steps::lemma_asked(fx, first, Effect::Then(Message::AutoStartTunnels));
    assert(first[1] == Effect::LoadHistory(after.history.sync.load_seq));
    tab_steps::lemma_asked(fx, first, Effect::LoadHistory(after.history.sync.load_seq));
}

/// A lock wipes the key, leaves the sessions running with their tabs as they were, and
/// lets nobody wait for an answer; nothing is sealed once the key is gone.
pub proof fn law_a_lock_keeps_the_sessions(before: NeoShell, env: Env, after: NeoShell, fx: Seq<Effect>)
    requires
        updating::updated(before, Message::LockNow, env, after, fx),
        before.vault.screen is Main,
    ensures
        fx.contains(Effect::LockVault),
        after.vault.screen is Locked,
        after.sessions.tabs == before.sessions.tabs,
        after.sessions.active_tab == before.sessions.active_tab,
        after.sessions.connections@.len() == 0,
        after.auth.queue@.len() == 0,
        forall|e: Effect| #[trigger] fx.contains(e) ==> !(e is Disconnect) && !(e is ForgetSession),
        forall|i: int, j: int|
            0 <= i < fx.len() && 0 <= j < fx.len() && (#[trigger] fx[i]) is LockVault && ((#[trigger] fx[j])
                is WriteHistory || fx[j] is WriteGroups) ==> j < i,
{
    let (mid, first) = steps::lemma_handled(before, Message::LockNow, env, after, fx, Area::Vault);
    reveal(locking::vault_step);
    let s = before;
    let (a, b, c) = choose|a: Seq<Effect>, b: Seq<Effect>, c: Seq<Effect>|
        #![trigger locking::lock_effects(first, a, b, c)]
        locking::lock_effects(first, a, b, c) && locking::history_locked(s.history, env.unlocked, mid.history, a)
            && locking::groups_locked(s.groups, env.unlocked, mid.groups, b) && locking::retires(c, s.auth.queue@);
    let n = (a.len() + b.len()) as int;
    assert(first[n] == Effect::LockVault);
    tab_steps::lemma_asked(fx, first, Effect::LockVault);
    assert(forall|i: int| 0 <= i < a.len() ==> (#[trigger] a[i]) is WriteHistory);
    lemma_groups_out(s.groups, env.unlocked, mid.groups, b);
    assert(forall|i: int| 0 <= i < c.len() ==> (#[trigger] c[i]) is Retire);
    assert forall|k: int| 0 <= k < first.len() implies {
        &&& k < n ==> (#[trigger] first[k]) is WriteHistory || first[k] is WriteGroups
        &&& k == n ==> first[k] is LockVault
        &&& k > n ==> first[k] is Retire
    } by {
        if k < a.len() {
            assert(first[k] == a[k]);
        } else if k < n {
            assert(first[k] == b[k - a.len()]);
        } else if k > n {
            assert(first[k] == c[k - n - 1]);
        }
    }
    assert forall|k: int| 0 <= k < fx.len() implies (#[trigger] fx[k]) == (if k < first.len() {
        first[k]
    } else {
        fx.last()
    }) by {
        if fx != first && k < first.len() {
            assert(fx[k] == fx.drop_last()[k]);
        }
    }
}

pub proof fn lemma_groups_out(
    before: crate::state::Groups,
    unlocked: bool,
    after: crate::state::Groups,
    fx: Seq<Effect>,
)
    requires
        locking::groups_locked(before, unlocked, after, fx),
    ensures
        forall|i: int| 0 <= i < fx.len() ==> (#[trigger] fx[i]) is WriteGroups,
{
}

// ---- saved connections ---------------------------------------------------------------------------------

/// Opening a connection puts a tab for it behind the others and brings it to the front;
/// the connect runs for that tab and that connection, under the session id that the tab
/// waits for. One that is being opened already is not opened again.
pub proof fn law_a_connect_has_its_own_tab(before: NeoShell, id: String, env: Env, after: NeoShell, fx: Seq<Effect>)
    requires
        updating::updated(before, Message::ConnectTo(id), env, after, fx),
    ensures
        !before.sessions.connecting@.contains(id@) ==> {
            let n = before.sessions.tabs@.len();
            let t = after.sessions.tabs@[n as int];
            &&& after.sessions.tabs@.len() == n + 1
            &&& after.sessions.tabs@.take(n as int) == before.sessions.tabs@
            &&& after.sessions.active_tab == Some(n as usize)
            &&& t.connection_id == id
            &&& t.session_id@.len() == 0
            &&& t.split is None
            &&& fx.contains(Effect::Connect(t.id, id, t.pending_session_id))
            &&& after.sessions.connecting@.contains(id@)
        },
        before.sessions.connecting@.contains(id@) ==> after.sessions == before.sessions && steps::asks_for(fx, Seq::empty()),
{
    let (mid, first) = steps::lemma_handled(before, Message::ConnectTo(id), env, after, fx, Area::Connection);
    reveal(connecting::connection_step);
    if before.sessions.connecting@.contains(id@) {
        assert(first =~= Seq::empty());
    } else {
        let n = before.sessions.tabs@.len();
        assert(after.sessions.tabs@.take(n as int) =~= after.sessions.tabs@.drop_last());
        let t = after.sessions.tabs@[n as int];
        assert(first[1] == Effect::Connect(t.id, id, t.pending_session_id));
        tab_steps::lemma_asked(fx, first, Effect::Connect(t.id, id, t.pending_session_id));
    }
}

/// A deletion is held until it is confirmed, and then it is that of the connection named;
/// declined, it is gone. Nothing is deleted without the question.
pub proof fn law_a_deletion_is_confirmed_first(before: NeoShell, m: Message, env: Env, after: NeoShell, fx: Seq<Effect>)
    requires
        updating::updated(before, m, env, after, fx),
        connecting::is_connection_message(m),
    ensures
        m matches Message::DeleteConnection(id) ==> (after.sessions.confirm_delete matches Some(d) && d.0 == id)
            && steps::asks_for(fx, Seq::empty()),
        m is CancelDelete ==> after.sessions.confirm_delete is None && steps::asks_for(fx, Seq::empty()),
        m is ExecuteDelete ==> (before.sessions.confirm_delete matches Some(d) ==> steps::asks_for(
            fx,
            seq![Effect::DeleteConnection(d.0)],
        ) && after.sessions.confirm_delete is None && !after.sessions.test_results@.contains_key(d.0@)),
        m is ExecuteDelete && before.sessions.confirm_delete is None ==> steps::asks_for(fx, Seq::empty()),
        !(m is ExecuteDelete) ==> forall|e: Effect| #[trigger] fx.contains(e) ==> !(e is DeleteConnection),
{
    let (mid, first) = steps::lemma_handled(before, m, env, after, fx, Area::Connection);
    reveal(connecting::connection_step);
    if first.len() == 0 {
        assert(first =~= Seq::empty());
    }
    if !(m is ExecuteDelete) {
        assert forall|e: Effect| #[trigger] fx.contains(e) implies !(e is DeleteConnection) by {
            let k = choose|k: int| 0 <= k < fx.len() && fx[k] == e;
            if k < first.len() {
                if fx != first {
                    assert(fx[k] == fx.drop_last()[k]);
                }
                assert(first[k] == e);
            } else {
                assert(e == fx.last());
            }
        }
    }
}

/// A connection is first in the list under its id.
pub open spec fn first_with_id(conns: Seq<ConnectionInfo>, id: Seq<char>, i: int) -> bool {
    &&& 0 <= i < conns.len()
    &&& conns[i].id@ == id
    &&& forall|j: int| 0 <= j < i ==> (#[trigger] conns[j]).id@ != id
}

proof fn lemma_first_with_id(conns: Seq<ConnectionInfo>, id: Seq<char>, i: int)
    requires
        first_with_id(conns, id, i),
    ensures
        common::conn_with_id(conns, id) == Some(i),
    decreases conns.len(),
{
    let less = conns.drop_last();
    if i < conns.len() - 1 {
        assert(less[i] == conns[i]);
        assert forall|j: int| 0 <= j < i implies (#[trigger] less[j]).id@ != id by {
            assert(less[j] == conns[j]);
        }
        lemma_first_with_id(less, id, i);
    } else {
        lemma_none_with_id(less, id);
    }
}

proof fn lemma_none_with_id(conns: Seq<ConnectionInfo>, id: Seq<char>)
    requires
        forall|j: int| 0 <= j < conns.len() ==> (#[trigger] conns[j]).id@ != id,
    ensures
        common::conn_with_id(conns, id) is None,
    decreases conns.len(),
{
    if conns.len() > 0 {
        let less = conns.drop_last();
        assert forall|j: int| 0 <= j < less.len() implies (#[trigger] less[j]).id@ != id by {
            assert(less[j] == conns[j]);
        }
        lemma_none_with_id(less, id);
        assert(conns[conns.len() - 1].id@ != id);
    }
}

/// The question before a deletion names the connection that goes.
pub proof fn law_the_deletion_is_asked_by_name(
    before: NeoShell,
    id: String,
    env: Env,
    after: NeoShell,
    fx: Seq<Effect>,
    i: int,
)
    requires
        updating::updated(before, Message::DeleteConnection(id), env, after, fx),
        first_with_id(before.sessions.connections@, id@, i),
    ensures
        after.sessions.confirm_delete == Some((id, before.sessions.connections@[i].name)),
{
    let (mid, first) = steps::lemma_handled(before, Message::DeleteConnection(id), env, after, fx, Area::Connection);
    reveal(connecting::connection_step);
    lemma_first_with_id(before.sessions.connections@, id@, i);
}

/// A copy of a saved connection differs from it in its id and its name only; a test tries
/// the saved one as it is.
pub proof fn law_a_copy_is_like_its_original(
    before: NeoShell,
    m: Message,
    env: Env,
    after: NeoShell,
    fx: Seq<Effect>,
    of: ConnectionConfig,
)
    requires
        updating::updated(before, m, env, after, fx),
        env.stored == Some(of),
    ensures
        m is CloneConnection ==> fx.len() > 0 && (fx[0] matches Effect::SaveConnection(c) && c == (ConnectionConfig {
            id: env.new_id,
            name: c.name,
            ..of
        }) && c.name@ == env.texts.says_with("conn.copy_name"@, "name"@, of.name@)),
        m matches Message::TestConnectionInList(id) ==> steps::asks_for(fx, seq![Effect::TestSaved(id, of)]),
{
    if m is CloneConnection || m is TestConnectionInList {
        let (mid, first) = steps::lemma_handled(before, m, env, after, fx, Area::Connection);
        reveal(connecting::connection_step);
        if fx != first {
            assert(fx[0] == fx.drop_last()[0]);
        }
    }
}

/// The result of a test is kept with the connection that was tested, and the pointer shows
/// the actions of the row that it is on.
pub proof fn law_rows_of_the_sidebar(before: NeoShell, m: Message, env: Env, after: NeoShell, fx: Seq<Effect>)
    requires
        updating::updated(before, m, env, after, fx),
    ensures
        m matches Message::TestConnectionInListDone(id, r) ==> after.sessions.test_results@
            == before.sessions.test_results@.insert(id@, r),
        m matches Message::SidebarHover(id, true) ==> after.sessions.hovered == Some(id),
        m matches Message::SidebarHover(id, false) ==> (before.sessions.hovered matches Some(h) ==> (h@ == id@
            ==> after.sessions.hovered is None) && (h@ != id@ ==> after.sessions.hovered == before.sessions.hovered)),
        m matches Message::SearchChanged(q) ==> after.sessions.search_query == q && after.sessions.connections
            == before.sessions.connections,
        m is ShowConnectDialog ==> after.sessions.show_connect_dialog && steps::asks_for(
            fx,
            seq![Effect::Then(Message::LoadConnections)],
        ),
        m is HideConnectDialog ==> !after.sessions.show_connect_dialog,
{
    if m is TestConnectionInListDone || m is SidebarHover || m is SearchChanged || m is ShowConnectDialog || m
        is HideConnectDialog {
        let (mid, first) = steps::lemma_handled(before, m, env, after, fx, Area::Connection);
        reveal(connecting::connection_step);
    }
}

// ---- the connection form ---------------------------------------------------------------------------------

/// What is typed goes into the field that it is typed in, and into no other.
pub proof fn law_a_field_holds_what_is_typed(before: NeoShell, m: Message, env: Env, after: NeoShell, fx: Seq<Effect>)
    requires
        updating::updated(before, m, env, after, fx),
    ensures
        m matches Message::FormNameChanged(v) ==> after.form.form == (ConnectionFormData { name: v, ..before.form.form }),
        m matches Message::FormHostChanged(v) ==> after.form.form == (ConnectionFormData { host: v, ..before.form.form }),
        m matches Message::FormPortChanged(v) ==> after.form.form == (ConnectionFormData { port: v, ..before.form.form }),
        m matches Message::FormUsernameChanged(v) ==> after.form.form == (ConnectionFormData {
            username: v,
            ..before.form.form
        }),
        m matches Message::FormAuthTypeChanged(v) ==> after.form.form == (ConnectionFormData {
            auth_type: v,
            ..before.form.form
        }),
        m matches Message::FormPasswordChanged(v) ==> after.form.form == (ConnectionFormData {
            password: v,
            ..before.form.form
        }),
        m matches Message::FormPrivateKeyChanged(v) ==> after.form.form == (ConnectionFormData {
            private_key: v,
            ..before.form.form
        }),
        m matches Message::KeyFileSelected(v) ==> after.form.form == (ConnectionFormData {
            private_key: v,
            ..before.form.form
        }),
        m matches Message::FormPassphraseChanged(v) ==> after.form.form == (ConnectionFormData {
            passphrase: v,
            ..before.form.form
        }),
        m matches Message::FormGroupChanged(v) ==> after.form.form == (ConnectionFormData { group: v, ..before.form.form }),
        m matches Message::FormProxyChanged(v) ==> after.form.form == (ConnectionFormData {
            proxy_id: v,
            ..before.form.form
        }),
{
    if m is FormNameChanged || m is FormHostChanged || m is FormPortChanged || m is FormUsernameChanged || m
        is FormAuthTypeChanged || m is FormPasswordChanged || m is FormPrivateKeyChanged || m is KeyFileSelected || m
        is FormPassphraseChanged || m is FormGroupChanged || m is FormProxyChanged {
        let (mid, first) = steps::lemma_handled(before, m, env, after, fx, Area::Form);
        reveal(editing::form_step);
    }
}

/// The form of a saved connection, opened and saved without a change, saves the connection
/// as it was: under its own id, with what it showed, and with the secrets that the vault
/// keeps of it.
pub proof fn law_an_unchanged_form_saves_the_same(
    one: (NeoShell, NeoShell, Seq<Effect>, Env),
    two: (NeoShell, NeoShell, Seq<Effect>, Env),
    id: String,
    i: int,
)
    requires
        updating::updated(one.0, Message::ShowForm(Some(id)), one.3, one.1, one.2),
        first_with_id(one.0.sessions.connections@, id@, i),
        one.0.sessions.connections@[i].port > 0,
        two.0.form == one.1.form,
        two.0.sessions.connections == one.0.sessions.connections,
        updating::updated(two.0, Message::SaveForm, two.3, two.1, two.2),
    ensures
        one.1.form.show,
        one.1.form.edit_id == Some(id),
        !two.1.form.show,
        two.2.len() > 0,
        two.2[0] matches Effect::UpdateConnection(c) && {
            let info = one.0.sessions.connections@[i];
            &&& c.id@ == id@
            &&& c.name@ == info.name@
            &&& c.host@ == info.host@
            &&& c.port == info.port
            &&& c.username@ == info.username@
            &&& c.auth_type@ == info.auth_type@
            &&& c.group@ == text::trim(info.group@)
            &&& c.color@ == info.color@
            &&& (match info.proxy_id {
                Some(p) => p@.len() > 0 ==> secrets::opt_view(c.proxy_id) == Some(p@),
                None => c.proxy_id is None,
            })
            &&& (two.3.stored matches Some(kept) ==> secrets::opt_view(c.password) == secrets::opt_view(kept.password)
                && secrets::opt_view(c.private_key) == secrets::opt_view(kept.private_key) && secrets::opt_view(
                c.passphrase,
            ) == secrets::opt_view(kept.passphrase))
        },
{
    let (a, f) = steps::lemma_handled(one.0, Message::ShowForm(Some(id)), one.3, one.1, one.2, Area::Form);
    let (b, g) = steps::lemma_handled(two.0, Message::SaveForm, two.3, two.1, two.2, Area::Form);
    reveal(editing::form_step);
    lemma_first_with_id(one.0.sessions.connections@, id@, i);
    law_a_port_reads_back(one.0.sessions.connections@[i].port, 22);
    if two.2 != g {
        assert(two.2[0] == two.2.drop_last()[0]);
    }
}

/// A new connection is saved as it was typed, under an id that is still to be given; a
/// port that is none keeps the form open and is complained of.
pub proof fn law_a_new_connection_is_saved_as_typed(before: NeoShell, env: Env, after: NeoShell, fx: Seq<Effect>)
    requires
        updating::updated(before, Message::SaveForm, env, after, fx),
        before.form.edit_id is None,
    ensures
        forms::port_or(before.form.form.port@, 22) is Some ==> {
            let form = before.form.form;
            &&& !after.form.show
            &&& fx.len() > 0
            &&& fx[0] matches Effect::SaveConnection(c) && {
                &&& c.id@.len() == 0
                &&& c.name@ == form.name@
                &&& c.host@ == form.host@
                &&& Some(c.port) == forms::port_or(form.port@, 22)
                &&& c.username@ == form.username@
                &&& c.auth_type@ == form.auth_type@
                &&& c.group@ == text::trim(form.group@)
                &&& form.password@.len() > 0 ==> secrets::opt_view(c.password) == Some(form.password@)
                &&& form.password@.len() == 0 ==> c.password is None
                &&& form.private_key@.len() > 0 ==> secrets::opt_view(c.private_key) == Some(form.private_key@)
                &&& form.passphrase@.len() > 0 ==> secrets::opt_view(c.passphrase) == Some(form.passphrase@)
                &&& form.proxy_id@.len() > 0 ==> secrets::opt_view(c.proxy_id) == Some(form.proxy_id@)
                &&& form.proxy_id@.len() == 0 ==> c.proxy_id is None
            }
        },
        forms::port_or(before.form.form.port@, 22) is None ==> after.form == before.form && after.error.show
            && steps::asks_for(fx, Seq::empty()),
{
    let (mid, first) = steps::lemma_handled(before, Message::SaveForm, env, after, fx, Area::Form);
    reveal(editing::form_step);
    if first.len() == 0 {
        assert(first =~= Seq::empty());
    } else if fx != first {
        assert(fx[0] == fx.drop_last()[0]);
    }
}

/// A form that is put away holds nothing any more, its secrets least of all; a new one is
/// empty, for a password sign-in at port 22.
pub proof fn law_a_form_put_away_is_empty(before: NeoShell, m: Message, env: Env, after: NeoShell, fx: Seq<Effect>)
    requires
        updating::updated(before, m, env, after, fx),
    ensures
        m is HideForm ==> !after.form.show && after.form.edit_id is None && after.form.form.is_blank(),
        m == Message::ShowForm(None) ==> {
            let f = after.form.form;
            &&& after.form.show
            &&& after.form.edit_id is None
            &&& f.name@.len() == 0 && f.host@.len() == 0 && f.username@.len() == 0
            &&& f.password@.len() == 0 && f.private_key@.len() == 0 && f.passphrase@.len() == 0
            &&& f.port@ == seq!['2', '2']
            &&& f.auth_type@ == "password"@
        },
        m is TestFormConnection && forms::port_or(before.form.form.port@, 22) is Some ==> after.form.testing
            && after.form.test_result is None && after.form.form == before.form.form && fx.len() > 0 && fx[0] is TestForm,
        m matches Message::TestFormConnectionDone(r) ==> !after.form.testing && after.form.test_result == Some(r),
{
    reveal_strlit("22");
    assert("22"@ =~= seq!['2', '2']);
    if m is HideForm || m is ShowForm || m is TestFormConnection || m is TestFormConnectionDone {
        let (mid, first) = steps::lemma_handled(before, m, env, after, fx, Area::Form);
        reveal(editing::form_step);
        if fx != first && first.len() > 0 {
            assert(fx[0] == fx.drop_last()[0]);
        }
    }
}

// ---- proxies and tunnels ------------------------------------------------------------------------------------

/// What is typed in the proxy form goes into the field that it is typed in.
pub proof fn law_a_proxy_field_holds_what_is_typed(before: NeoShell, m: Message, env: Env, after: NeoShell, fx: Seq<Effect>)
    requires
        updating::updated(before, m, env, after, fx),
    ensures
        m matches Message::ProxyFormNameChanged(v) ==> after.proxy.form == (ProxyFormData { name: v, ..before.proxy.form }),
        m matches Message::ProxyFormTypeChanged(v) ==> after.proxy.form == (ProxyFormData {
            proxy_type: v,
            ..before.proxy.form
        }),
        m matches Message::ProxyFormHostChanged(v) ==> after.proxy.form == (ProxyFormData { host: v, ..before.proxy.form }),
        m matches Message::ProxyFormPortChanged(v) ==> after.proxy.form == (ProxyFormData { port: v, ..before.proxy.form }),
        m matches Message::ProxyFormUsernameChanged(v) ==> after.proxy.form == (ProxyFormData {
            username: v,
            ..before.proxy.form
        }),
        m matches Message::ProxyFormPasswordChanged(v) ==> after.proxy.form == (ProxyFormData {
            password: v,
            ..before.proxy.form
        }),
        m matches Message::ProxyFormAuthTypeChanged(v) ==> after.proxy.form == (ProxyFormData {
            auth_type: v,
            ..before.proxy.form
        }),
        m matches Message::ProxyFormPrivateKeyChanged(v) ==> after.proxy.form == (ProxyFormData {
            private_key: v,
            ..before.proxy.form
        }),
        m matches Message::ProxyFormPassphraseChanged(v) ==> after.proxy.form == (ProxyFormData {
            passphrase: v,
            ..before.proxy.form
        }),
{
    if m is ProxyFormNameChanged || m is ProxyFormTypeChanged || m is ProxyFormHostChanged || m is ProxyFormPortChanged
        || m is ProxyFormUsernameChanged || m is ProxyFormPasswordChanged || m is ProxyFormAuthTypeChanged || m
        is ProxyFormPrivateKeyChanged || m is ProxyFormPassphraseChanged {
        let (mid, first) = steps::lemma_handled(before, m, env, after, fx, Area::Proxy);
        reveal(editing::proxy_step);
    }
}

/// What is typed in the tunnel form goes into the field that it is typed in.
pub proof fn law_a_tunnel_field_holds_what_is_typed(before: NeoShell, m: Message, env: Env, after: NeoShell, fx: Seq<Effect>)
    requires
        updating::updated(before, m, env, after, fx),
    ensures
        m matches Message::TunnelFormNameChanged(v) ==> after.tunnel.form == (TunnelFormData {
            name: v,
            ..before.tunnel.form
        }),
        m matches Message::TunnelFormHostChanged(v) ==> after.tunnel.form == (TunnelFormData {
            ssh_host: v,
            ..before.tunnel.form
        }),
        m matches Message::TunnelFormPortChanged(v) ==> after.tunnel.form == (TunnelFormData {
            ssh_port: v,
            ..before.tunnel.form
        }),
        m matches Message::TunnelFormUserChanged(v) ==> after.tunnel.form == (TunnelFormData {
            username: v,
            ..before.tunnel.form
        }),
        m matches Message::TunnelFormAuthTypeChanged(v) ==> after.tunnel.form == (TunnelFormData {
            auth_type: v,
            ..before.tunnel.form
        }),
        m matches Message::TunnelFormPasswordChanged(v) ==> after.tunnel.form == (TunnelFormData {
            password: v,
            ..before.tunnel.form
        }),
        m matches Message::TunnelFormKeyChanged(v) ==> after.tunnel.form == (TunnelFormData {
            private_key: v,
            ..before.tunnel.form
        }),
        m matches Message::TunnelFormPassphraseChanged(v) ==> after.tunnel.form == (TunnelFormData {
            passphrase: v,
            ..before.tunnel.form
        }),
        m matches Message::TunnelFormForwardsChanged(v) ==> after.tunnel.form == (TunnelFormData {
            forwards_text: v,
            ..before.tunnel.form
        }),
{
    if m is TunnelFormNameChanged || m is TunnelFormHostChanged || m is TunnelFormPortChanged || m
        is TunnelFormUserChanged || m is TunnelFormAuthTypeChanged || m is TunnelFormPasswordChanged || m
        is TunnelFormKeyChanged || m is TunnelFormPassphraseChanged || m is TunnelFormForwardsChanged {
        let (mid, first) = steps::lemma_handled(before, m, env, after, fx, Area::Tunnel);
        reveal(editing::tunnel_step);
    }
}

/// A proxy form saves what was typed, a new one under a new id and an edited one under its
/// own; a blank port is the usual one of its type.
pub proof fn law_a_proxy_is_saved_as_typed(before: NeoShell, env: Env, after: NeoShell, fx: Seq<Effect>, port: u16)
    requires
        updating::updated(before, Message::SaveProxy, env, after, fx),
        before.proxy.form.port@.len() == 0 || before.proxy.form.port@ == number::decimal(port as nat),
        port > 0,
    ensures
        fx.len() > 0,
        before.proxy.edit_id is None ==> fx[0] is AddProxy,
        before.proxy.edit_id is Some ==> fx[0] is UpdateProxy,
        ({
            let form = before.proxy.form;
            let c = if fx[0] is AddProxy {
                fx[0]->AddProxy_0
            } else {
                fx[0]->UpdateProxy_0
            };
            &&& before.proxy.edit_id matches Some(id) ==> c.id@ == id@
            &&& before.proxy.edit_id is None ==> c.id@ == env.new_id@
            &&& c.name@ == form.name@
            &&& c.host@ == form.host@
            &&& form.port@.len() > 0 ==> c.port == port
            &&& form.proxy_type@ == "http"@ ==> c.proxy_type == ProxyType::Http
            &&& form.proxy_type@ == "bastion"@ ==> c.proxy_type == ProxyType::SshBastion
            &&& form.proxy_type@ == "socks5h"@ ==> c.proxy_type == ProxyType::Socks5h
            &&& form.port@.len() == 0 ==> c.port == (match c.proxy_type {
                ProxyType::Http => 8080u16,
                ProxyType::SshBastion => 22u16,
                ProxyType::Socks5h => 1080u16,
            })
            &&& form.username@.len() > 0 ==> secrets::opt_view(c.username) == Some(form.username@)
            &&& form.password@.len() > 0 ==> secrets::opt_view(c.password) == Some(form.password@)
            &&& !(c.proxy_type is SshBastion) ==> c.private_key is None && c.passphrase is None
        }),
{
    let (mid, first) = steps::lemma_handled(before, Message::SaveProxy, env, after, fx, Area::Proxy);
    reveal(editing::proxy_step);
    reveal_strlit("http");
    reveal_strlit("bastion");
    reveal_strlit("socks5h");
    assert("http"@.len() == 4);
    assert("bastion"@.len() == 7 && "bastion"@[0] == 'b');
    assert("socks5h"@.len() == 7 && "socks5h"@[0] == 's');
    let usual = forms::proxy_default_port(forms::proxy_type_of(before.proxy.form.proxy_type@));
    law_a_port_reads_back(port, usual);
    law_a_blank_port_is_the_default(before.proxy.form.port@, usual);
    if before.proxy.form.port@.len() == 0 {
        assert(editing::proxy_port(before.proxy.form) == Some(usual));
    }
    if fx != first {
        assert(fx[0] == fx.drop_last()[0]);
    }
}

/// A proxy or a tunnel is tested, started, stopped and deleted by its own id.
pub proof fn law_proxies_and_tunnels_go_by_their_ids(before: NeoShell, m: Message, env: Env, after: NeoShell, fx: Seq<Effect>)
    requires
        updating::updated(before, m, env, after, fx),
    ensures
        m matches Message::DeleteProxy(id) ==> steps::asks_for(fx, seq![Effect::DeleteProxy(id)]),
        m matches Message::DeleteTunnel(id) ==> steps::asks_for(fx, seq![Effect::DeleteTunnel(id)]),
        m matches Message::StartTunnel(id) ==> steps::asks_for(fx, seq![Effect::StartTunnel(id)]),
        m matches Message::StopTunnel(id) ==> steps::asks_for(fx, seq![Effect::StopTunnel(id)]),
        m matches Message::ProxyTestDone(id, r) ==> after.proxy.results@ == before.proxy.results@.insert(id@, r),
        m matches Message::ProxiesLoaded(list) ==> after.proxy.proxies == list,
        m matches Message::TunnelsLoaded(list) ==> after.tunnel.tunnels == list,
        m matches Message::ProxySaved(Ok(list)) ==> after.proxy.proxies == list && !after.proxy.show_form
            && after.proxy.form.is_blank() && after.proxy.edit_id is None,
        m matches Message::ProxySaved(Err(e)) ==> after.proxy == before.proxy && after.error.show && after.error.message@
            == e@,
        m matches Message::TunnelSaved(Ok(list)) ==> after.tunnel.tunnels == list && !after.tunnel.show_form
            && after.tunnel.form.is_blank() && after.tunnel.edit_id is None,
        m matches Message::TunnelSaved(Err(e)) ==> after.tunnel == before.tunnel && after.error.show
            && after.error.message@ == e@,
        m matches Message::ProxyDeleted(Ok(list)) ==> after.proxy.proxies == list,
        m matches Message::TunnelDeleted(Ok(list)) ==> after.tunnel.tunnels == list,
        m is HideProxyForm ==> !after.proxy.show_form && after.proxy.form.is_blank(),
        m is HideTunnelForm ==> !after.tunnel.show_form && after.tunnel.form.is_blank(),
        m is ShowProxyManager ==> after.proxy.show_manager != before.proxy.show_manager,
        m is ShowTunnelManager ==> after.tunnel.show_manager != before.tunnel.show_manager,
        m is HideProxyManager ==> !after.proxy.show_manager,
        m is HideTunnelManager ==> !after.tunnel.show_manager,
{
    if editing::is_proxy_message(m) {
        let (mid, first) = steps::lemma_handled(before, m, env, after, fx, Area::Proxy);
        reveal(editing::proxy_step);
    }
    if editing::is_tunnel_message(m) {
        let (mid, first) = steps::lemma_handled(before, m, env, after, fx, Area::Tunnel);
        reveal(editing::tunnel_step);
    }
}

} // verus!
