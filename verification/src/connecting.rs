//! The saved connections: listing, opening, testing, importing them.

use vstd::prelude::*;
use vstd::string::*;

use crate::catalog::Catalog;
use crate::common;
use crate::connections::ByOrder;
use crate::connections::ConnectionInfo;
use crate::forms;
use crate::forms::ConnectionConfig;
use crate::forms::ConnectionTestResult;
use crate::grid::TerminalGrid;
use crate::groups;
use crate::order;
use crate::state;
use crate::state::ConnForm;
use crate::state::Effect;
use crate::state::Env;
use crate::state::Groups;
use crate::state::Message;
use crate::state::NeoShell;
use crate::state::Sessions;
use crate::state::Typing;
use crate::tabs;
use crate::tabs::TerminalTab;
use crate::titles::SshHostConfig;

verus! {

// ---- listing ---------------------------------------------------------------------------------------

/// What the connections just read make of a state: they are put in the order
/// every list shows them, and a group whose last connection is gone is not
/// folded any more.
pub open spec fn conns_loaded(
    before: NeoShell,
    conns: Seq<ConnectionInfo>,
    hosts: Vec<SshHostConfig>,
    after: NeoShell,
    fx: Seq<Effect>,
) -> bool {
    &&& order::stably_sorted(ByOrder {  }, conns, after.sessions.connections@)
    &&& after == (NeoShell {
        sessions: Sessions {
            connections: after.sessions.connections,
            ssh_hosts: hosts,
            ..before.sessions
        },
        groups: after.groups,
        ..before
    })
    &&& groups_pruned(before.groups, after.sessions.connections@, after.groups, fx)
}

pub open spec fn groups_pruned(before: Groups, conns: Seq<ConnectionInfo>, after: Groups, fx: Seq<Effect>) -> bool {
    &&& forall|g: Seq<char>| #[trigger]
        after.collapsed@.contains(g) <==> before.collapsed@.contains(g) && groups::in_use(conns, g)
    &&& if after.collapsed@ != before.collapsed@ {
        common::groups_scheduled(Groups { collapsed: after.collapsed, ..before }, after, fx)
    } else {
        after == (Groups { collapsed: after.collapsed, ..before }) && fx.len() == 0
    }
}

/// The saved connections, just read, with the hosts of the SSH config that
/// they are compared with.
pub fn on_connections_loaded(state: &mut NeoShell, conns: Vec<ConnectionInfo>, hosts: Vec<SshHostConfig>) -> (fx:
    Vec<Effect>)
    requires
        old(state).groups.generation < u64::MAX,
    ensures
        conns_loaded(*old(state), conns@, hosts, *final(state), fx@),
{
    state.sessions.connections = order::sort_by(conns, &ByOrder {  });
    state.sessions.ssh_hosts = hosts;
    if groups::prune_collapsed_groups(
        &mut state.groups.collapsed,
        state.sessions.connections.as_slice(),
    ) {
        return common::schedule_groups_save(&mut state.groups);
    }
    common::nothing()
}

// ---- opening -----------------------------------------------------------------------------------------

/// What a tab shows while its session is not there yet.
pub open spec fn connecting_note(texts: Catalog) -> Seq<char> {
    "\x1b[33m"@ + texts.says("monitor.connecting"@) + "\x1b[0m\r\n"@
}

/// The tab that stands for a connect until it is through.
pub open spec fn is_placeholder(tab: TerminalTab, conn_id: String, env: Env) -> bool {
    &&& tab.id == env.new_id
    &&& tab.session_id@.len() == 0
    &&& tab.connection_id == conn_id
    &&& tab.title@ == env.texts.says("monitor.connecting"@)
    &&& tab.terminal.is_blank(120, 40)
    &&& tab.custom_title is None
    &&& tab.split is None
    &&& !tab.focus_split
    &&& tab.pending_session_id == env.new_session
    &&& tab.split_pending is None
}

/// What opening a connection makes of a state; nothing where it is being
/// opened already.
pub open spec fn connect_asked(before: NeoShell, id: String, env: Env, after: NeoShell, fx: Seq<Effect>) -> bool {
    if before.sessions.connecting@.contains(id@) {
        after == before && fx.len() == 0
    } else {
        let n = before.sessions.tabs@.len();
        &&& after.sessions.connecting@ == before.sessions.connecting@.insert(id@)
        &&& after.sessions.tabs@.len() == n + 1
        &&& after.sessions.tabs@.drop_last() == before.sessions.tabs@
        &&& is_placeholder(after.sessions.tabs@.last(), id, env)
        &&& after == (NeoShell {
            sessions: Sessions {
                connecting: after.sessions.connecting,
                tabs: after.sessions.tabs,
                active_tab: Some(n as usize),
                show_connect_dialog: false,
                ..before.sessions
            },
            typing: Typing { last_keypress: None, ..before.typing },
            ..before
        })
        &&& fx.len() == 2
        &&& common::notices(fx[0], env.new_id@, connecting_note(env.texts))
        &&& fx[1] == Effect::Connect(env.new_id, id, env.new_session)
    }
}

/// Open a connection: a placeholder tab comes up at once, so that there is
/// something to see.
///
/// The key that started this — Enter in the palette — is not typing somewhere
/// else: this connect's sign-in may still take the keyboard. The session's id
/// is known before the connect is: its sign-in challenges carry it, so closing
/// the tab can withdraw them.
pub fn on_connect_to(state: &mut NeoShell, id: String, env: &Env) -> (fx: Vec<Effect>)
    requires
        old(state).wf(),
        old(state).sessions.tabs@.len() < usize::MAX,
    ensures
        connect_asked(*old(state), id, *env, *final(state), fx@),
        final(state).wf(),
{
    if state.sessions.connecting.contains(id.as_str()) {
        return common::nothing();
    }
    let _new = state.sessions.connecting.insert(id.clone());
    state.sessions.show_connect_dialog = false;
    state.typing.last_keypress = None;
    let at: usize = state.sessions.tabs.len();
    state.sessions.tabs.push(TerminalTab {
        id: env.new_id.clone(),
        session_id: String::new(),
        connection_id: id.clone(),
        title: env.texts.t("monitor.connecting"),
        terminal: TerminalGrid::blank(120, 40),
        custom_title: None,
        split: None,
        focus_split: false,
        pending_session_id: env.new_session.clone(),
        split_pending: None,
    });
    state.sessions.active_tab = Some(at);
    assert(state.sessions.tabs@.drop_last() =~= old(state).sessions.tabs@);
    assert(state::tabs_wf(state.sessions.tabs@)) by {
        assert forall|i: int| 0 <= i < state.sessions.tabs@.len() implies state::tab_wf(
            #[trigger] state.sessions.tabs@[i],
        ) by {
            if i < at {
                assert(state.sessions.tabs@[i] == old(state).sessions.tabs@[i]);
            }
        }
    }
    let mut note = "\x1b[33m".to_owned();
    note.append(env.texts.t("monitor.connecting").as_str());
    note.append("\x1b[0m\r\n");
    let mut fx: Vec<Effect> = Vec::new();
    fx.push(Effect::Notice(env.new_id.clone(), note));
    fx.push(Effect::Connect(env.new_id.clone(), id, env.new_session.clone()));
    fx
}

/// A second request for a connection that is being opened does nothing.
pub proof fn law_one_connect_at_a_time(
    before: NeoShell,
    id: String,
    env: Env,
    mid: NeoShell,
    fx: Seq<Effect>,
    again: Env,
    after: NeoShell,
    fx2: Seq<Effect>,
)
    requires
        connect_asked(before, id, env, mid, fx),
        connect_asked(mid, id, again, after, fx2),
    ensures
        after == mid,
        fx2.len() == 0,
{
}

/// What becomes of a connect: its tab is told.
pub open spec fn connect_answered(
    result: Result<(String, String), String>,
    tab_id: String,
    conn_id: String,
    m: Message,
) -> bool {
    match result {
        Ok((session, title)) => m == Message::SshConnected(tab_id, session, title, conn_id),
        Err(e) => m == Message::ConnectFailed(tab_id, conn_id, e),
    }
}

/// What comes of a connect: the session and its title, or an error. A failure
/// belongs to this tab alone: it goes, the others connecting beside it stay.
pub fn connect_reply(result: Result<(String, String), String>, tab_id: String, conn_id: String) -> (m: Message)
    ensures
        connect_answered(result, tab_id, conn_id, m),
{
    match result {
        Ok((session, title)) => Message::SshConnected(tab_id, session, title, conn_id),
        Err(e) => Message::ConnectFailed(tab_id, conn_id, e),
    }
}

// ---- deleting, copying, testing, importing ----------------------------------------------------------------

pub open spec fn delete_asked(before: NeoShell, id: String, after: NeoShell) -> bool {
    &&& after.sessions.confirm_delete matches Some(d) && d.0 == id && d.1 == (match common::conn_with_id(
        before.sessions.connections@,
        id@,
    ) {
        Some(i) => before.sessions.connections@[i].name,
        None => id,
    })
    &&& after == (NeoShell {
        sessions: Sessions { confirm_delete: after.sessions.confirm_delete, ..before.sessions },
        ..before
    })
}

/// Ask before a connection is deleted, by its name.
pub fn on_delete_connection(state: &mut NeoShell, id: String)
    ensures
        delete_asked(*old(state), id, *final(state)),
{
    let name = match common::find_conn(&state.sessions.connections, id.as_str()) {
        Some(i) => state.sessions.connections[i].name.clone(),
        None => id.clone(),
    };
    state.sessions.confirm_delete = Some((id, name));
}

pub open spec fn delete_confirmed(before: NeoShell, after: NeoShell, fx: Seq<Effect>) -> bool {
    match before.sessions.confirm_delete {
        Some(d) => {
            &&& after.sessions.test_results@ == before.sessions.test_results@.remove(d.0@)
            &&& after == (NeoShell {
                sessions: Sessions {
                    confirm_delete: None,
                    test_results: after.sessions.test_results,
                    ..before.sessions
                },
                ..before
            })
            &&& fx == seq![Effect::DeleteConnection(d.0)]
        },
        None => after == before && fx.len() == 0,
    }
}

/// Delete the connection that was asked about.
pub fn on_execute_delete(state: &mut NeoShell) -> (fx: Vec<Effect>)
    ensures
        delete_confirmed(*old(state), *final(state), fx@),
{
    let mut asked: Option<(String, String)> = None;
    std::mem::swap(&mut asked, &mut state.sessions.confirm_delete);
    match asked {
        Some((id, _name)) => {
            let _r = state.sessions.test_results.remove(id.as_str());
            common::one(Effect::DeleteConnection(id))
        },
        None => common::nothing(),
    }
}

/// The copy of a saved connection, secrets and all, under a new id and name.
pub open spec fn is_copy(c: ConnectionConfig, of: ConnectionConfig, id: String, texts: Catalog) -> bool {
    &&& c.name@ == texts.says_with("conn.copy_name"@, "name"@, of.name@)
    &&& c == (ConnectionConfig { id, name: c.name, ..of })
}

pub open spec fn copy_saved(env: Env, fx: Seq<Effect>) -> bool {
    match env.stored {
        Some(of) => fx.len() == 1 && match fx[0] {
            Effect::SaveConnection(c) => is_copy(c, of, env.new_id, env.texts),
            _ => false,
        },
        None => fx.len() == 0,
    }
}

/// Save a copy of a connection beside it.
pub fn on_clone_connection(env: &Env) -> (fx: Vec<Effect>)
    ensures
        copy_saved(*env, fx@),
{
    match &env.stored {
        Some(of) => {
            let mut c = of.clone();
            c.id = env.new_id.clone();
            c.name = env.texts.tf("conn.copy_name", "name", of.name.as_str());
            common::one(Effect::SaveConnection(c))
        },
        None => common::nothing(),
    }
}

pub open spec fn hovered(before: NeoShell, id: String, entered: bool, after: NeoShell) -> bool {
    let hovered = if entered {
        Some(id)
    } else if tabs::opt_is(before.sessions.hovered, id@) {
        None
    } else {
        before.sessions.hovered
    };
    after == (NeoShell { sessions: Sessions { hovered, ..before.sessions }, ..before })
}

/// Pointer entered or left a row. Only our own row is cleared: the next row's
/// enter can arrive before this row's exit.
pub fn on_sidebar_hover(state: &mut NeoShell, id: String, entered: bool)
    ensures
        hovered(*old(state), id, entered, *final(state)),
{
    if entered {
        state.sessions.hovered = Some(id);
    } else if tabs::opt_same(&state.sessions.hovered, id.as_str()) {
        state.sessions.hovered = None;
    }
}

pub open spec fn import_opened(before: NeoShell, cfg: SshHostConfig, after: NeoShell) -> bool {
    &&& forms::is_import_form(after.form.form, cfg)
    &&& forms::without_secrets(after.form.form, after.form.opened)
    &&& after == (NeoShell {
        form: ConnForm {
            show: true,
            form: after.form.form,
            opened: after.form.opened,
            edit_id: None,
            ..before.form
        },
        sessions: Sessions { show_connect_dialog: false, ..before.sessions },
        ..before
    })
}

/// Open the connection form on a host of the SSH config.
pub fn on_import_ssh_config(state: &mut NeoShell, cfg: SshHostConfig)
    ensures
        import_opened(*old(state), cfg, *final(state)),
{
    state.form.show = true;
    state.sessions.show_connect_dialog = false;
    state.form.edit_id = None;
    state.form.form = forms::import_form(&cfg);
    state.form.opened = forms::opened_connection_form(&state.form.form);
}

pub open spec fn all_imported(before: NeoShell, hosts: Seq<SshHostConfig>, after: NeoShell, fx: Seq<Effect>) -> bool {
    &&& after == (NeoShell {
        sessions: Sessions { show_connect_dialog: false, ..before.sessions },
        ..before
    })
    &&& fx.len() == 1
    &&& match fx[0] {
        Effect::SaveAll(list) => forms::are_imports(list@, hosts, before.sessions.connections@),
        _ => false,
    }
}

/// Import every host of the SSH config that is not saved yet under the same
/// user@host:port.
pub fn on_import_all(state: &mut NeoShell, hosts: Vec<SshHostConfig>) -> (fx: Vec<Effect>)
    ensures
        all_imported(*old(state), hosts@, *final(state), fx@),
{
    let list = forms::import_all(&hosts, &state.sessions.connections);
    state.sessions.show_connect_dialog = false;
    common::one(Effect::SaveAll(list))
}

// ---- the messages ------------------------------------------------------------------------------------------

pub open spec fn is_connection_message(m: Message) -> bool {
    match m {
        Message::LoadConnections => true,
        Message::ConnectionsLoaded(_, _) => true,
        Message::ConnectTo(_) => true,
        Message::DeleteConnection(_) => true,
        Message::CancelDelete => true,
        Message::ExecuteDelete => true,
        Message::ShowConnectDialog => true,
        Message::HideConnectDialog => true,
        Message::SearchChanged(_) => true,
        Message::SidebarHover(_, _) => true,
        Message::CloneConnection(_) => true,
        Message::TestConnectionInList(_) => true,
        Message::TestConnectionInListDone(_, _) => true,
        Message::ImportSshConfig(_) => true,
        Message::ImportAllSshConfigs => true,
        Message::SshConfigRead(_) => true,
        _ => false,
    }
}

pub open spec fn tested(before: NeoShell, id: String, result: ConnectionTestResult, after: NeoShell) -> bool {
    &&& after.sessions.test_results@ == before.sessions.test_results@.insert(id@, result)
    &&& after == (NeoShell {
        sessions: Sessions { test_results: after.sessions.test_results, ..before.sessions },
        ..before
    })
}

pub open spec fn dialog_set(before: NeoShell, show: bool, after: NeoShell) -> bool {
    after == (NeoShell { sessions: Sessions { show_connect_dialog: show, ..before.sessions }, ..before })
}

pub open spec fn delete_cancelled(before: NeoShell, after: NeoShell) -> bool {
    after == (NeoShell { sessions: Sessions { confirm_delete: None, ..before.sessions }, ..before })
}

pub open spec fn searched(before: NeoShell, q: String, after: NeoShell) -> bool {
    after == (NeoShell { sessions: Sessions { search_query: q, ..before.sessions }, ..before })
}

pub open spec fn test_asked(env: Env, id: String, fx: Seq<Effect>) -> bool {
    match env.stored {
        Some(c) => fx == seq![Effect::TestSaved(id, c)],
        None => fx.len() == 0,
    }
}

#[verifier::opaque]
pub open spec fn connection_step(before: NeoShell, m: Message, env: Env, after: NeoShell, fx: Seq<Effect>) -> bool {
    match m {
        Message::LoadConnections => after == before && fx == seq![Effect::LoadConnections],
        Message::ConnectionsLoaded(conns, hosts) => conns_loaded(before, conns@, hosts, after, fx),
        Message::ConnectTo(id) => connect_asked(before, id, env, after, fx),
        Message::DeleteConnection(id) => delete_asked(before, id, after) && fx.len() == 0,
        Message::CancelDelete => delete_cancelled(before, after) && fx.len() == 0,
        Message::ExecuteDelete => delete_confirmed(before, after, fx),
        Message::ShowConnectDialog => dialog_set(before, true, after) && fx == seq![
            Effect::Then(Message::LoadConnections),
        ],
        Message::HideConnectDialog => dialog_set(before, false, after) && fx.len() == 0,
        Message::SearchChanged(q) => searched(before, q, after) && fx.len() == 0,
        Message::SidebarHover(id, entered) => hovered(before, id, entered, after) && fx.len() == 0,
        Message::CloneConnection(_) => after == before && copy_saved(env, fx),
        Message::TestConnectionInList(id) => after == before && test_asked(env, id, fx),
        Message::TestConnectionInListDone(id, r) => tested(before, id, r, after) && fx.len() == 0,
        Message::ImportSshConfig(cfg) => import_opened(before, cfg, after) && fx.len() == 0,
        Message::ImportAllSshConfigs => after == before && fx == seq![Effect::ReadSshConfig],
        Message::SshConfigRead(hosts) => all_imported(before, hosts@, after, fx),
        _ => true,
    }
}

/// The messages about saved connections.
pub fn handle_connection(state: &mut NeoShell, message: Message, env: &Env) -> (fx: Vec<Effect>)
    requires
        is_connection_message(message),
        old(state).wf(),
        old(state).has_room(),
    ensures
        connection_step(*old(state), message, *env, *final(state), fx@),
        final(state).wf(),
{
    proof {
        reveal(connection_step);
    }
    match message {
        Message::LoadConnections => common::one(Effect::LoadConnections),
        Message::ConnectionsLoaded(conns, hosts) => on_connections_loaded(state, conns, hosts),
        Message::ConnectTo(id) => on_connect_to(state, id, env),
        Message::DeleteConnection(id) => {
            on_delete_connection(state, id);
            common::nothing()
        },
        Message::CancelDelete => {
            state.sessions.confirm_delete = None;
            common::nothing()
        },
        Message::ExecuteDelete => on_execute_delete(state),
        Message::ShowConnectDialog => {
            state.sessions.show_connect_dialog = true;
            common::one(Effect::Then(Message::LoadConnections))
        },
        Message::HideConnectDialog => {
            state.sessions.show_connect_dialog = false;
            common::nothing()
        },
        Message::SearchChanged(q) => {
            state.sessions.search_query = q;
            common::nothing()
        },
        Message::SidebarHover(id, entered) => {
            on_sidebar_hover(state, id, entered);
            common::nothing()
        },
        Message::CloneConnection(_) => on_clone_connection(env),
        Message::TestConnectionInList(id) => match &env.stored {
            Some(c) => common::one(Effect::TestSaved(id, c.clone())),
            None => common::nothing(),
        },
        Message::TestConnectionInListDone(id, result) => {
            state.sessions.test_results.insert(id, result);
            common::nothing()
        },
        Message::ImportSshConfig(cfg) => {
            on_import_ssh_config(state, cfg);
            common::nothing()
        },
        Message::ImportAllSshConfigs => common::one(Effect::ReadSshConfig),
        Message::SshConfigRead(hosts) => on_import_all(state, hosts),
        _ => common::nothing(),
    }
}

} // verus!
