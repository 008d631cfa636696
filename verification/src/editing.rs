//! The connection, proxy and tunnel forms at work.

use vstd::prelude::*;
use vstd::string::*;

use crate::common;
use crate::forms;
use crate::forms::ConnectionConfig;
use crate::forms::ConnectionFormData;
use crate::forms::ConnectionTestResult;
use crate::forms::ProxyConfig;
use crate::forms::ProxyFormData;
use crate::forms::ProxyTestResult;
use crate::forms::TunnelConfig;
use crate::forms::TunnelFormData;
use crate::split;
use crate::state::ConnForm;
use crate::state::Effect;
use crate::state::Env;
use crate::state::Message;
use crate::state::NeoShell;
use crate::state::ProxyPanel;
use crate::state::Sessions;
use crate::state::TunnelPanel;

verus! {

// ---- the connection form ----------------------------------------------------------------------------

/// What opening the connection form makes of a state. An id that no saved
/// connection has leaves the fields as they were.
pub open spec fn form_shown(before: NeoShell, id: Option<String>, after: NeoShell) -> bool {
    &&& match id {
        Some(id) => match common::conn_with_id(before.sessions.connections@, id@) {
            Some(i) => forms::is_edit_form(after.form.form, before.sessions.connections@[i]),
            None => after.form.form == before.form.form,
        },
        None => forms::is_new_form(after.form.form),
    }
    &&& forms::without_secrets(after.form.form, after.form.opened)
    &&& after == (NeoShell {
        form: ConnForm {
            show: true,
            form: after.form.form,
            opened: after.form.opened,
            edit_id: id,
            test_result: None,
            testing: false,
        },
        sessions: Sessions { show_connect_dialog: false, ..before.sessions },
        ..before
    })
}

/// Open the connection form, on a saved connection or on a new one.
pub fn on_show_form(state: &mut NeoShell, id: Option<String>)
    ensures
        form_shown(*old(state), id, *final(state)),
{
    state.form.show = true;
    state.sessions.show_connect_dialog = false;
    state.form.test_result = None;
    state.form.testing = false;
    match &id {
        Some(id) => match common::find_conn(&state.sessions.connections, id.as_str()) {
            Some(i) => {
                state.form.form = forms::edit_form(&state.sessions.connections[i]);
            },
            None => {},
        },
        None => {
            state.form.form = forms::new_form();
        },
    }
    state.form.edit_id = id;
    state.form.opened = forms::opened_connection_form(&state.form.form);
}

/// The colour tag that an edit keeps.
pub open spec fn kept_color(s: Sessions, edit_id: Option<String>) -> Seq<char> {
    match edit_id {
        Some(id) => match common::conn_with_id(s.connections@, id@) {
            Some(i) => s.connections@[i].color@,
            None => Seq::empty(),
        },
        None => Seq::empty(),
    }
}

fn color_to_keep(s: &Sessions, edit_id: &Option<String>) -> (r: String)
    ensures
        r@ == kept_color(*s, *edit_id),
{
    match edit_id {
        Some(id) => match common::find_conn(&s.connections, id.as_str()) {
            Some(i) => s.connections[i].color.clone(),
            None => String::new(),
        },
        None => String::new(),
    }
}

pub open spec fn complaint_shown(before: NeoShell, typed: Seq<char>, env: Env, after: NeoShell) -> bool {
    common::notice_shown(before, "form.err.title"@, forms::port_complaint(typed, env.texts), after)
}

/// What the connection form saves, as an effect.
pub open spec fn saves_connection(fx: Seq<Effect>, form: ConnForm, color: Seq<char>, env: Env, port: u16) -> bool {
    fx.len() == 1 && match fx[0] {
        Effect::UpdateConnection(c) => form.edit_id is Some && forms::is_form_config(
            c,
            form.form,
            form.edit_id,
            env.stored,
            color,
            port,
        ),
        Effect::SaveConnection(c) => form.edit_id is None && forms::is_form_config(
            c,
            form.form,
            form.edit_id,
            env.stored,
            color,
            port,
        ),
        _ => false,
    }
}

pub open spec fn form_saved(before: NeoShell, env: Env, after: NeoShell, fx: Seq<Effect>) -> bool {
    match forms::port_or(before.form.form.port@, 22) {
        None => complaint_shown(before, before.form.form.port@, env, after) && fx.len() == 0,
        Some(port) => {
            &&& after.form.form.is_blank()
            &&& after == (NeoShell {
                form: ConnForm { show: false, edit_id: None, form: after.form.form, ..before.form },
                ..before
            })
            &&& saves_connection(
                fx,
                before.form,
                kept_color(before.sessions, before.form.edit_id),
                env,
                port,
            )
        },
    }
}

/// Save the connection form. Nothing is saved on a port that does not read as
/// one: the form stays open under the message.
pub fn on_save_form(state: &mut NeoShell, env: &Env) -> (fx: Vec<Effect>)
    ensures
        form_saved(*old(state), *env, *final(state), fx@),
{
    let port = match forms::form_port(state.form.form.port.as_str(), 22, &env.texts) {
        Ok(port) => port,
        Err(message) => {
            state.show_notice("form.err.title", message);
            return common::nothing();
        },
    };
    let color = color_to_keep(&state.sessions, &state.form.edit_id);
    let stored = match &env.stored {
        Some(c) => Some(c.clone()),
        None => None,
    };
    let config = forms::form_config(&state.form.form, &state.form.edit_id, stored, color, port);
    let editing = state.form.edit_id.is_some();
    state.form.show = false;
    state.form.edit_id = None;
    state.form.form = ConnectionFormData::blank();
    if editing {
        common::one(Effect::UpdateConnection(config))
    } else {
        common::one(Effect::SaveConnection(config))
    }
}

pub open spec fn form_tested(before: NeoShell, env: Env, after: NeoShell, fx: Seq<Effect>) -> bool {
    match forms::port_or(before.form.form.port@, 22) {
        None => complaint_shown(before, before.form.form.port@, env, after) && fx.len() == 0,
        Some(port) => {
            &&& after == (NeoShell {
                form: ConnForm { testing: true, test_result: None, ..before.form },
                ..before
            })
            &&& fx.len() == 1
            &&& match fx[0] {
                Effect::TestForm(c) => forms::is_form_config(
                    c,
                    before.form.form,
                    before.form.edit_id,
                    env.stored,
                    kept_color(before.sessions, before.form.edit_id),
                    port,
                ),
                _ => false,
            }
        },
    }
}

/// Test what the form describes, with the secrets that saving it would keep.
pub fn on_test_form_connection(state: &mut NeoShell, env: &Env) -> (fx: Vec<Effect>)
    ensures
        form_tested(*old(state), *env, *final(state), fx@),
{
    let port = match forms::form_port(state.form.form.port.as_str(), 22, &env.texts) {
        Ok(port) => port,
        Err(message) => {
            state.show_notice("form.err.title", message);
            return common::nothing();
        },
    };
    let color = color_to_keep(&state.sessions, &state.form.edit_id);
    let stored = match &env.stored {
        Some(c) => Some(c.clone()),
        None => None,
    };
    let config = forms::form_config(&state.form.form, &state.form.edit_id, stored, color, port);
    state.form.testing = true;
    state.form.test_result = None;
    common::one(Effect::TestForm(config))
}

pub open spec fn form_hidden(before: NeoShell, after: NeoShell) -> bool {
    &&& after.form.form.is_blank()
    &&& after == (NeoShell {
        form: ConnForm {
            show: false,
            edit_id: None,
            form: after.form.form,
            test_result: None,
            testing: false,
            ..before.form
        },
        ..before
    })
}

/// What typing into a field of the connection form makes of it.
pub open spec fn form_typed(before: ConnectionFormData, m: Message, after: ConnectionFormData) -> bool {
    match m {
        Message::FormNameChanged(v) => after == (ConnectionFormData { name: v, ..before }),
        Message::FormHostChanged(v) => after == (ConnectionFormData { host: v, ..before }),
        Message::FormPortChanged(v) => after == (ConnectionFormData { port: v, ..before }),
        Message::FormUsernameChanged(v) => after == (ConnectionFormData { username: v, ..before }),
        Message::FormAuthTypeChanged(v) => after == (ConnectionFormData { auth_type: v, ..before }),
        Message::FormPasswordChanged(v) => after == (ConnectionFormData { password: v, ..before }),
        Message::FormPrivateKeyChanged(v) => after == (ConnectionFormData { private_key: v, ..before }),
        Message::FormPassphraseChanged(v) => after == (ConnectionFormData { passphrase: v, ..before }),
        Message::FormGroupChanged(v) => after == (ConnectionFormData { group: v, ..before }),
        Message::FormProxyChanged(v) => after == (ConnectionFormData { proxy_id: v, ..before }),
        Message::KeyFileSelected(v) => after == (ConnectionFormData { private_key: v, ..before }),
        _ => after == before,
    }
}

fn type_into_form(form: &mut ConnectionFormData, message: Message)
    ensures
        form_typed(*old(form), message, *final(form)),
{
    match message {
        Message::FormNameChanged(v) => form.name = v,
        Message::FormHostChanged(v) => form.host = v,
        Message::FormPortChanged(v) => form.port = v,
        Message::FormUsernameChanged(v) => form.username = v,
        Message::FormAuthTypeChanged(v) => form.auth_type = v,
        Message::FormPasswordChanged(v) => form.password = v,
        Message::FormPrivateKeyChanged(v) => form.private_key = v,
        Message::FormPassphraseChanged(v) => form.passphrase = v,
        Message::FormGroupChanged(v) => form.group = v,
        Message::FormProxyChanged(v) => form.proxy_id = v,
        Message::KeyFileSelected(v) => form.private_key = v,
        _ => {},
    }
}

pub open spec fn is_form_message(m: Message) -> bool {
    match m {
        Message::ShowForm(_) => true,
        Message::HideForm => true,
        Message::FormNameChanged(_) => true,
        Message::FormHostChanged(_) => true,
        Message::FormPortChanged(_) => true,
        Message::FormUsernameChanged(_) => true,
        Message::FormAuthTypeChanged(_) => true,
        Message::FormPasswordChanged(_) => true,
        Message::FormPrivateKeyChanged(_) => true,
        Message::FormPassphraseChanged(_) => true,
        Message::FormGroupChanged(_) => true,
        Message::FormProxyChanged(_) => true,
        Message::KeyFileSelected(_) => true,
        Message::SaveForm => true,
        Message::TestFormConnection => true,
        Message::TestFormConnectionDone(_) => true,
        Message::BrowseKeyFile => true,
        _ => false,
    }
}

pub open spec fn field_typed(before: NeoShell, m: Message, after: NeoShell) -> bool {
    &&& form_typed(before.form.form, m, after.form.form)
    &&& after == (NeoShell { form: ConnForm { form: after.form.form, ..before.form }, ..before })
}

pub open spec fn test_landed(before: NeoShell, r: ConnectionTestResult, after: NeoShell) -> bool {
    after == (NeoShell {
        form: ConnForm { testing: false, test_result: Some(r), ..before.form },
        ..before
    })
}

#[verifier::opaque]
pub open spec fn form_step(before: NeoShell, m: Message, env: Env, after: NeoShell, fx: Seq<Effect>) -> bool {
    match m {
        Message::ShowForm(id) => form_shown(before, id, after) && fx.len() == 0,
        Message::HideForm => form_hidden(before, after) && fx.len() == 0,
        Message::SaveForm => form_saved(before, env, after, fx),
        Message::TestFormConnection => form_tested(before, env, after, fx),
        Message::TestFormConnectionDone(r) => test_landed(before, r, after) && fx.len() == 0,
        Message::BrowseKeyFile => after == before && fx == seq![Effect::PickKeyFile],
        _ => field_typed(before, m, after) && fx.len() == 0,
    }
}

/// The messages of the connection form.
pub fn handle_form(state: &mut NeoShell, message: Message, env: &Env) -> (fx: Vec<Effect>)
    requires
        is_form_message(message),
        old(state).wf(),
    ensures
        form_step(*old(state), message, *env, *final(state), fx@),
        final(state).wf(),
{
    proof {
        reveal(form_step);
    }
    match message {
        Message::ShowForm(id) => {
            on_show_form(state, id);
            common::nothing()
        },
        Message::HideForm => {
            state.form.show = false;
            state.form.edit_id = None;
            state.form.form = ConnectionFormData::blank();
            state.form.test_result = None;
            state.form.testing = false;
            common::nothing()
        },
        Message::SaveForm => on_save_form(state, env),
        Message::TestFormConnection => on_test_form_connection(state, env),
        Message::TestFormConnectionDone(result) => {
            state.form.testing = false;
            state.form.test_result = Some(result);
            common::nothing()
        },
        Message::BrowseKeyFile => common::one(Effect::PickKeyFile),
        other => {
            type_into_form(&mut state.form.form, other);
            common::nothing()
        },
    }
}

// ---- proxies --------------------------------------------------------------------------------------------

pub open spec fn proxy_form_shown(before: ProxyPanel, id: Option<String>, after: ProxyPanel) -> bool {
    match id {
        Some(id) => match forms::proxy_with_id(before.proxies@, id@) {
            Some(i) => {
                &&& forms::is_proxy_form(after.form, Some(before.proxies@[i]))
                &&& after == (ProxyPanel { show_form: true, form: after.form, edit_id: Some(id), ..before })
            },
            None => after == (ProxyPanel { show_form: true, ..before }),
        },
        None => {
            &&& forms::is_proxy_form(after.form, None)
            &&& after == (ProxyPanel { show_form: true, form: after.form, edit_id: None, ..before })
        },
    }
}

/// Open the proxy form, on a saved proxy or on a new one.
pub fn on_show_proxy_form(panel: &mut ProxyPanel, id: Option<String>)
    ensures
        proxy_form_shown(*old(panel), id, *final(panel)),
{
    panel.show_form = true;
    match id {
        Some(id) => match forms::find_proxy(&panel.proxies, id.as_str()) {
            Some(i) => {
                panel.form = forms::proxy_form_for(Some(&panel.proxies[i]));
                panel.edit_id = Some(id);
            },
            None => {},
        },
        None => {
            panel.edit_id = None;
            panel.form = forms::proxy_form_for(None);
        },
    }
}

pub open spec fn id_or_new(edit_id: Option<String>, env: Env) -> Seq<char> {
    match edit_id {
        Some(id) => id@,
        None => env.new_id@,
    }
}

fn edit_id_or_new(edit_id: &Option<String>, env: &Env) -> (r: String)
    ensures
        r@ == id_or_new(*edit_id, *env),
{
    match edit_id {
        Some(id) => id.clone(),
        None => env.new_id.clone(),
    }
}

pub open spec fn proxy_port(form: ProxyFormData) -> Option<u16> {
    forms::port_or(
        form.port@,
        forms::proxy_default_port(forms::proxy_type_of(form.proxy_type@)),
    )
}

pub open spec fn proxy_saved(before: NeoShell, env: Env, after: NeoShell, fx: Seq<Effect>) -> bool {
    match proxy_port(before.proxy.form) {
        None => complaint_shown(before, before.proxy.form.port@, env, after) && fx.len() == 0,
        Some(port) => {
            &&& after == before
            &&& fx.len() == 1
            &&& match fx[0] {
                Effect::UpdateProxy(c) => before.proxy.edit_id is Some && forms::is_proxy_config(
                    c,
                    before.proxy.form,
                    id_or_new(before.proxy.edit_id, env),
                    port,
                ),
                Effect::AddProxy(c) => before.proxy.edit_id is None && forms::is_proxy_config(
                    c,
                    before.proxy.form,
                    id_or_new(before.proxy.edit_id, env),
                    port,
                ),
                _ => false,
            }
        },
    }
}

/// Save the proxy form. The form stays until the save is through: with the
/// secret in the vault, a locked vault means that it did not happen.
pub fn on_save_proxy(state: &mut NeoShell, env: &Env) -> (fx: Vec<Effect>)
    ensures
        proxy_saved(*old(state), *env, *final(state), fx@),
{
    let t = forms::proxy_type_named(state.proxy.form.proxy_type.as_str());
    let port = match forms::form_port(
        state.proxy.form.port.as_str(),
        forms::default_proxy_port(t),
        &env.texts,
    ) {
        Ok(port) => port,
        Err(message) => {
            state.show_notice("form.err.title", message);
            return common::nothing();
        },
    };
    let config = forms::proxy_config(
        &state.proxy.form,
        edit_id_or_new(&state.proxy.edit_id, env),
        port,
    );
    if state.proxy.edit_id.is_some() {
        common::one(Effect::UpdateProxy(config))
    } else {
        common::one(Effect::AddProxy(config))
    }
}

/// What a save of the proxy form that came back makes of a state.
pub open spec fn proxy_save_landed(
    before: NeoShell,
    result: Result<Vec<ProxyConfig>, String>,
    after: NeoShell,
) -> bool {
    match result {
        Ok(list) => {
            &&& after.proxy.form.is_blank()
            &&& after == (NeoShell {
                proxy: ProxyPanel {
                    proxies: list,
                    show_form: false,
                    edit_id: None,
                    form: after.proxy.form,
                    ..before.proxy
                },
                ..before
            })
        },
        Err(e) => common::error_shown(before, e@, after),
    }
}

pub open spec fn proxies_landed(
    before: NeoShell,
    result: Result<Vec<ProxyConfig>, String>,
    after: NeoShell,
) -> bool {
    match result {
        Ok(list) => after == (NeoShell { proxy: ProxyPanel { proxies: list, ..before.proxy }, ..before }),
        Err(e) => common::error_shown(before, e@, after),
    }
}

pub open spec fn proxy_manager_toggled(before: ProxyPanel, after: ProxyPanel, fx: Seq<Effect>) -> bool {
    if before.show_manager {
        after == (ProxyPanel { show_manager: false, ..before }) && fx.len() == 0
    } else {
        after == (ProxyPanel { show_manager: true, edit_id: None, ..before }) && fx == seq![
            Effect::LoadProxies,
        ]
    }
}

pub open spec fn proxy_typed(before: ProxyFormData, m: Message, after: ProxyFormData) -> bool {
    match m {
        Message::ProxyFormNameChanged(v) => after == (ProxyFormData { name: v, ..before }),
        Message::ProxyFormTypeChanged(v) => after == (ProxyFormData { proxy_type: v, ..before }),
        Message::ProxyFormHostChanged(v) => after == (ProxyFormData { host: v, ..before }),
        Message::ProxyFormPortChanged(v) => after == (ProxyFormData { port: v, ..before }),
        Message::ProxyFormUsernameChanged(v) => after == (ProxyFormData { username: v, ..before }),
        Message::ProxyFormPasswordChanged(v) => after == (ProxyFormData { password: v, ..before }),
        Message::ProxyFormAuthTypeChanged(v) => after == (ProxyFormData { auth_type: v, ..before }),
        Message::ProxyFormPrivateKeyChanged(v) => after == (ProxyFormData { private_key: v, ..before }),
        Message::ProxyFormPassphraseChanged(v) => after == (ProxyFormData { passphrase: v, ..before }),
        _ => after == before,
    }
}

fn type_into_proxy(form: &mut ProxyFormData, message: Message)
    ensures
        proxy_typed(*old(form), message, *final(form)),
{
    match message {
        Message::ProxyFormNameChanged(v) => form.name = v,
        Message::ProxyFormTypeChanged(v) => form.proxy_type = v,
        Message::ProxyFormHostChanged(v) => form.host = v,
        Message::ProxyFormPortChanged(v) => form.port = v,
        Message::ProxyFormUsernameChanged(v) => form.username = v,
        Message::ProxyFormPasswordChanged(v) => form.password = v,
        Message::ProxyFormAuthTypeChanged(v) => form.auth_type = v,
        Message::ProxyFormPrivateKeyChanged(v) => form.private_key = v,
        Message::ProxyFormPassphraseChanged(v) => form.passphrase = v,
        _ => {},
    }
}

pub open spec fn is_proxy_message(m: Message) -> bool {
    match m {
        Message::ShowProxyManager => true,
        Message::HideProxyManager => true,
        Message::ProxiesLoaded(_) => true,
        Message::ShowProxyForm(_) => true,
        Message::HideProxyForm => true,
        Message::ProxyFormNameChanged(_) => true,
        Message::ProxyFormTypeChanged(_) => true,
        Message::ProxyFormHostChanged(_) => true,
        Message::ProxyFormPortChanged(_) => true,
        Message::ProxyFormUsernameChanged(_) => true,
        Message::ProxyFormPasswordChanged(_) => true,
        Message::ProxyFormAuthTypeChanged(_) => true,
        Message::ProxyFormPrivateKeyChanged(_) => true,
        Message::ProxyFormPassphraseChanged(_) => true,
        Message::ProxyFormBrowsePrivateKey => true,
        Message::SaveProxy => true,
        Message::ProxySaved(_) => true,
        Message::DeleteProxy(_) => true,
        Message::ProxyDeleted(_) => true,
        Message::TestProxy(_) => true,
        Message::ProxyTestDone(_, _) => true,
        _ => false,
    }
}

pub open spec fn proxy_panel_only(before: NeoShell, after: NeoShell) -> bool {
    after == (NeoShell { proxy: after.proxy, ..before })
}

pub open spec fn proxy_form_hidden(before: ProxyPanel, after: ProxyPanel) -> bool {
    &&& after.form.is_blank()
    &&& after == (ProxyPanel { show_form: false, edit_id: None, form: after.form, ..before })
}

pub open spec fn proxy_tested(before: ProxyPanel, id: String, r: ProxyTestResult, after: ProxyPanel) -> bool {
    &&& after.results@ == before.results@.insert(id@, r)
    &&& after == (ProxyPanel { results: after.results, ..before })
}

pub open spec fn proxy_test_asked(before: ProxyPanel, id: String, fx: Seq<Effect>) -> bool {
    if forms::proxy_with_id(before.proxies@, id@) is Some {
        fx == seq![Effect::TestProxy(id)]
    } else {
        fx.len() == 0
    }
}

#[verifier::opaque]
pub open spec fn proxy_step(before: NeoShell, m: Message, env: Env, after: NeoShell, fx: Seq<Effect>) -> bool {
    match m {
        Message::ShowProxyManager => proxy_panel_only(before, after) && proxy_manager_toggled(
            before.proxy,
            after.proxy,
            fx,
        ),
        Message::HideProxyManager => proxy_panel_only(before, after) && after.proxy == (ProxyPanel {
            show_manager: false,
            ..before.proxy
        }) && fx.len() == 0,
        Message::ProxiesLoaded(list) => proxies_landed(before, Ok(list), after) && fx.len() == 0,
        Message::ShowProxyForm(id) => proxy_panel_only(before, after) && proxy_form_shown(
            before.proxy,
            id,
            after.proxy,
        ) && fx.len() == 0,
        Message::HideProxyForm => proxy_panel_only(before, after) && proxy_form_hidden(
            before.proxy,
            after.proxy,
        ) && fx.len() == 0,
        Message::ProxyFormBrowsePrivateKey => after == before && fx == seq![Effect::PickProxyKey],
        Message::SaveProxy => proxy_saved(before, env, after, fx),
        Message::ProxySaved(r) => proxy_save_landed(before, r, after) && fx.len() == 0,
        Message::DeleteProxy(id) => after == before && fx == seq![Effect::DeleteProxy(id)],
        Message::ProxyDeleted(r) => proxies_landed(before, r, after) && fx.len() == 0,
        Message::TestProxy(id) => after == before && proxy_test_asked(before.proxy, id, fx),
        Message::ProxyTestDone(id, r) => proxy_panel_only(before, after) && proxy_tested(
            before.proxy,
            id,
            r,
            after.proxy,
        ) && fx.len() == 0,
        _ => proxy_panel_only(before, after) && after.proxy == (ProxyPanel {
            form: after.proxy.form,
            ..before.proxy
        }) && proxy_typed(before.proxy.form, m, after.proxy.form) && fx.len() == 0,
    }
}

/// The messages of the proxy panel.
pub fn handle_proxy(state: &mut NeoShell, message: Message, env: &Env) -> (fx: Vec<Effect>)
    requires
        is_proxy_message(message),
        old(state).wf(),
    ensures
        proxy_step(*old(state), message, *env, *final(state), fx@),
        final(state).wf(),
{
    proof {
        reveal(proxy_step);
    }
    match message {
        Message::ShowProxyManager => {
            // Toggle: second click closes the side panel.
            state.proxy.show_manager = !state.proxy.show_manager;
            if state.proxy.show_manager {
                state.proxy.edit_id = None;
                return common::one(Effect::LoadProxies);
            }
            common::nothing()
        },
        Message::HideProxyManager => {
            state.proxy.show_manager = false;
            common::nothing()
        },
        Message::ProxiesLoaded(list) => {
            state.proxy.proxies = list;
            common::nothing()
        },
        Message::ShowProxyForm(id) => {
            on_show_proxy_form(&mut state.proxy, id);
            common::nothing()
        },
        Message::HideProxyForm => {
            state.proxy.show_form = false;
            state.proxy.edit_id = None;
            state.proxy.form = ProxyFormData::blank();
            common::nothing()
        },
        Message::ProxyFormBrowsePrivateKey => common::one(Effect::PickProxyKey),
        Message::SaveProxy => on_save_proxy(state, env),
        Message::ProxySaved(result) => {
            match result {
                Ok(list) => {
                    state.proxy.proxies = list;
                    state.proxy.show_form = false;
                    state.proxy.edit_id = None;
                    state.proxy.form = ProxyFormData::blank();
                },
                Err(e) => state.show_error(e),
            }
            common::nothing()
        },
        Message::DeleteProxy(id) => common::one(Effect::DeleteProxy(id)),
        Message::ProxyDeleted(result) => {
            match result {
                Ok(list) => {
                    state.proxy.proxies = list;
                },
                Err(e) => state.show_error(e),
            }
            common::nothing()
        },
        Message::TestProxy(id) => match forms::find_proxy(&state.proxy.proxies, id.as_str()) {
            Some(_) => common::one(Effect::TestProxy(id)),
            None => common::nothing(),
        },
        Message::ProxyTestDone(id, result) => {
            state.proxy.results.insert(id, result);
            common::nothing()
        },
        other => {
            type_into_proxy(&mut state.proxy.form, other);
            common::nothing()
        },
    }
}

// ---- tunnels -----------------------------------------------------------------------------------------------

pub open spec fn tunnel_form_shown(before: TunnelPanel, id: Option<String>, after: TunnelPanel) -> bool {
    &&& after == (TunnelPanel { show_form: true, edit_id: id, form: after.form, ..before })
    &&& match id {
        Some(id) => match forms::tunnel_with_id(before.tunnels@, id@) {
            Some(i) => forms::is_tunnel_form(after.form, Some(before.tunnels@[i])),
            None => after.form == before.form,
        },
        None => forms::is_tunnel_form(after.form, None),
    }
}

/// Open the tunnel form, on a saved tunnel or on a new one.
pub fn on_show_tunnel_form(panel: &mut TunnelPanel, id: Option<String>)
    ensures
        tunnel_form_shown(*old(panel), id, *final(panel)),
{
    panel.show_form = true;
    match &id {
        Some(id) => match forms::find_tunnel(&panel.tunnels, id.as_str()) {
            Some(i) => {
                panel.form = forms::tunnel_form_for(Some(&panel.tunnels[i]));
            },
            None => {},
        },
        None => {
            panel.form = forms::tunnel_form_for(None);
        },
    }
    panel.edit_id = id;
}

pub open spec fn tunnel_checked(
    before: NeoShell,
    parsed: Result<Vec<String>, String>,
    env: Env,
    after: NeoShell,
    fx: Seq<Effect>,
) -> bool {
    match parsed {
        Err(e) => common::notice_shown(
            before,
            "form.err.title"@,
            env.texts.says_with("tunnel.err.forward_parse"@, "err"@, e@),
            after,
        ) && fx.len() == 0,
        Ok(forwards) => if forwards@.len() == 0 {
            common::notice_shown(
                before,
                "form.err.title"@,
                env.texts.says("tunnel.err.no_forwards"@),
                after,
            ) && fx.len() == 0
        } else {
            match forms::port_or(before.tunnel.form.ssh_port@, 22) {
                None => complaint_shown(before, before.tunnel.form.ssh_port@, env, after) && fx.len() == 0,
                Some(port) => {
                    &&& after == before
                    &&& fx.len() == 1
                    &&& match fx[0] {
                        Effect::StoreTunnel(c) => forms::is_tunnel_config(
                            c,
                            before.tunnel.form,
                            id_or_new(before.tunnel.edit_id, env),
                            port,
                            forwards@,
                        ),
                        _ => false,
                    }
                },
            }
        },
    }
}

/// Save the tunnel form, once its forwards were read. A tunnel without one is
/// refused, and so is a port that does not read as one.
pub fn on_save_tunnel(state: &mut NeoShell, parsed: Result<Vec<String>, String>, env: &Env) -> (fx: Vec<Effect>)
    ensures
        tunnel_checked(*old(state), parsed, *env, *final(state), fx@),
{
    let forwards = match parsed {
        Ok(f) => f,
        Err(e) => {
            let message = env.texts.tf("tunnel.err.forward_parse", "err", e.as_str());
            state.show_notice("form.err.title", message);
            return common::nothing();
        },
    };
    if forwards.len() == 0 {
        state.show_notice("form.err.title", env.texts.t("tunnel.err.no_forwards"));
        return common::nothing();
    }
    let port = match forms::form_port(state.tunnel.form.ssh_port.as_str(), 22, &env.texts) {
        Ok(port) => port,
        Err(message) => {
            state.show_notice("form.err.title", message);
            return common::nothing();
        },
    };
    let config = forms::tunnel_config(
        &state.tunnel.form,
        edit_id_or_new(&state.tunnel.edit_id, env),
        port,
        forwards,
    );
    common::one(Effect::StoreTunnel(config))
}

pub open spec fn tunnel_save_landed(
    before: NeoShell,
    result: Result<Vec<TunnelConfig>, String>,
    after: NeoShell,
) -> bool {
    match result {
        Ok(list) => {
            &&& after.tunnel.form.is_blank()
            &&& after == (NeoShell {
                tunnel: TunnelPanel {
                    tunnels: list,
                    show_form: false,
                    edit_id: None,
                    form: after.tunnel.form,
                    ..before.tunnel
                },
                ..before
            })
        },
        Err(e) => common::error_shown(before, e@, after),
    }
}

pub open spec fn tunnels_landed(
    before: NeoShell,
    result: Result<Vec<TunnelConfig>, String>,
    after: NeoShell,
) -> bool {
    match result {
        Ok(list) => after == (NeoShell { tunnel: TunnelPanel { tunnels: list, ..before.tunnel }, ..before }),
        Err(e) => common::error_shown(before, e@, after),
    }
}

pub open spec fn tunnel_started(before: NeoShell, result: Result<(), String>, env: Env, after: NeoShell) -> bool {
    match result {
        Ok(_) => after == before,
        Err(e) => common::error_shown(
            before,
            env.texts.says_with("tunnel.err.start"@, "err"@, e@),
            after,
        ),
    }
}

pub open spec fn tunnel_typed(before: TunnelFormData, m: Message, after: TunnelFormData) -> bool {
    match m {
        Message::TunnelFormNameChanged(v) => after == (TunnelFormData { name: v, ..before }),
        Message::TunnelFormHostChanged(v) => after == (TunnelFormData { ssh_host: v, ..before }),
        Message::TunnelFormPortChanged(v) => after == (TunnelFormData { ssh_port: v, ..before }),
        Message::TunnelFormUserChanged(v) => after == (TunnelFormData { username: v, ..before }),
        Message::TunnelFormAuthTypeChanged(v) => after == (TunnelFormData { auth_type: v, ..before }),
        Message::TunnelFormPasswordChanged(v) => after == (TunnelFormData { password: v, ..before }),
        Message::TunnelFormKeyChanged(v) => after == (TunnelFormData { private_key: v, ..before }),
        Message::TunnelFormPassphraseChanged(v) => after == (TunnelFormData { passphrase: v, ..before }),
        Message::TunnelFormForwardsChanged(v) => after == (TunnelFormData { forwards_text: v, ..before }),
        _ => after == before,
    }
}

fn type_into_tunnel(form: &mut TunnelFormData, message: Message)
    ensures
        tunnel_typed(*old(form), message, *final(form)),
{
    match message {
        Message::TunnelFormNameChanged(v) => form.name = v,
        Message::TunnelFormHostChanged(v) => form.ssh_host = v,
        Message::TunnelFormPortChanged(v) => form.ssh_port = v,
        Message::TunnelFormUserChanged(v) => form.username = v,
        Message::TunnelFormAuthTypeChanged(v) => form.auth_type = v,
        Message::TunnelFormPasswordChanged(v) => form.password = v,
        Message::TunnelFormKeyChanged(v) => form.private_key = v,
        Message::TunnelFormPassphraseChanged(v) => form.passphrase = v,
        Message::TunnelFormForwardsChanged(v) => form.forwards_text = v,
        _ => {},
    }
}

pub open spec fn is_tunnel_message(m: Message) -> bool {
    match m {
        Message::ShowTunnelManager => true,
        Message::HideTunnelManager => true,
        Message::TunnelsLoaded(_) => true,
        Message::ShowTunnelForm(_) => true,
        Message::HideTunnelForm => true,
        Message::TunnelFormNameChanged(_) => true,
        Message::TunnelFormHostChanged(_) => true,
        Message::TunnelFormPortChanged(_) => true,
        Message::TunnelFormUserChanged(_) => true,
        Message::TunnelFormAuthTypeChanged(_) => true,
        Message::TunnelFormPasswordChanged(_) => true,
        Message::TunnelFormKeyChanged(_) => true,
        Message::TunnelFormPassphraseChanged(_) => true,
        Message::TunnelFormForwardsChanged(_) => true,
        Message::TunnelFormBrowseKey => true,
        Message::SaveTunnel => true,
        Message::ForwardsParsed(_) => true,
        Message::TunnelSaved(_) => true,
        Message::DeleteTunnel(_) => true,
        Message::TunnelDeleted(_) => true,
        Message::StartTunnel(_) => true,
        Message::TunnelStarted(_) => true,
        Message::StopTunnel(_) => true,
        Message::TunnelStateTick => true,
        _ => false,
    }
}

pub open spec fn tunnel_panel_only(before: NeoShell, after: NeoShell) -> bool {
    after == (NeoShell { tunnel: after.tunnel, ..before })
}

pub open spec fn tunnel_form_hidden(before: TunnelPanel, after: TunnelPanel) -> bool {
    &&& after.form.is_blank()
    &&& after == (TunnelPanel { show_form: false, edit_id: None, form: after.form, ..before })
}

pub open spec fn forwards_read(before: TunnelPanel, fx: Seq<Effect>) -> bool {
    fx.len() == 1 && match fx[0] {
        Effect::ParseForwards(list) => split::texts(list@) == forms::rule_lines(
            split::lines(before.form.forwards_text@),
        ),
        _ => false,
    }
}

pub open spec fn tunnel_manager_toggled(before: TunnelPanel, after: TunnelPanel, fx: Seq<Effect>) -> bool {
    &&& after == (TunnelPanel { show_manager: !before.show_manager, ..before })
    &&& if before.show_manager {
        fx.len() == 0
    } else {
        fx == seq![Effect::LoadTunnels]
    }
}

#[verifier::opaque]
pub open spec fn tunnel_step(before: NeoShell, m: Message, env: Env, after: NeoShell, fx: Seq<Effect>) -> bool {
    match m {
        Message::ShowTunnelManager => tunnel_panel_only(before, after) && tunnel_manager_toggled(
            before.tunnel,
            after.tunnel,
            fx,
        ),
        Message::HideTunnelManager => tunnel_panel_only(before, after) && after.tunnel == (TunnelPanel {
            show_manager: false,
            ..before.tunnel
        }) && fx.len() == 0,
        Message::TunnelsLoaded(list) => tunnels_landed(before, Ok(list), after) && fx.len() == 0,
        Message::ShowTunnelForm(id) => tunnel_panel_only(before, after) && tunnel_form_shown(
            before.tunnel,
            id,
            after.tunnel,
        ) && fx.len() == 0,
        Message::HideTunnelForm => tunnel_panel_only(before, after) && tunnel_form_hidden(
            before.tunnel,
            after.tunnel,
        ) && fx.len() == 0,
        Message::TunnelFormBrowseKey => after == before && fx == seq![Effect::PickTunnelKey],
        Message::SaveTunnel => after == before && forwards_read(before.tunnel, fx),
        Message::ForwardsParsed(r) => tunnel_checked(before, r, env, after, fx),
        Message::TunnelSaved(r) => tunnel_save_landed(before, r, after) && fx.len() == 0,
        Message::DeleteTunnel(id) => after == before && fx == seq![Effect::DeleteTunnel(id)],
        Message::TunnelDeleted(r) => tunnels_landed(before, r, after) && fx.len() == 0,
        Message::StartTunnel(id) => after == before && fx == seq![Effect::StartTunnel(id)],
        Message::TunnelStarted(r) => tunnel_started(before, r, env, after) && fx.len() == 0,
        Message::StopTunnel(id) => after == before && fx == seq![Effect::StopTunnel(id)],
        Message::TunnelStateTick => after == before && fx.len() == 0,
        _ => tunnel_panel_only(before, after) && after.tunnel == (TunnelPanel {
            form: after.tunnel.form,
            ..before.tunnel
        }) && tunnel_typed(before.tunnel.form, m, after.tunnel.form) && fx.len() == 0,
    }
}

/// The messages of the tunnel panel.
pub fn handle_tunnel(state: &mut NeoShell, message: Message, env: &Env) -> (fx: Vec<Effect>)
    requires
        is_tunnel_message(message),
        old(state).wf(),
    ensures
        tunnel_step(*old(state), message, *env, *final(state), fx@),
        final(state).wf(),
{
    proof {
        reveal(tunnel_step);
    }
    match message {
        Message::ShowTunnelManager => {
            // Toggle: second click closes.
            state.tunnel.show_manager = !state.tunnel.show_manager;
            if state.tunnel.show_manager {
                return common::one(Effect::LoadTunnels);
            }
            common::nothing()
        },
        Message::HideTunnelManager => {
            state.tunnel.show_manager = false;
            common::nothing()
        },
        Message::TunnelsLoaded(list) => {
            state.tunnel.tunnels = list;
            common::nothing()
        },
        Message::ShowTunnelForm(id) => {
            on_show_tunnel_form(&mut state.tunnel, id);
            common::nothing()
        },
        Message::HideTunnelForm => {
            state.tunnel.show_form = false;
            state.tunnel.edit_id = None;
            state.tunnel.form = TunnelFormData::blank();
            common::nothing()
        },
        Message::TunnelFormBrowseKey => common::one(Effect::PickTunnelKey),
        Message::SaveTunnel => common::one(
            Effect::ParseForwards(forms::forward_lines(state.tunnel.form.forwards_text.as_str())),
        ),
        Message::ForwardsParsed(parsed) => on_save_tunnel(state, parsed, env),
        Message::TunnelSaved(result) => {
            match result {
                Ok(list) => {
                    state.tunnel.tunnels = list;
                    state.tunnel.show_form = false;
                    state.tunnel.edit_id = None;
                    state.tunnel.form = TunnelFormData::blank();
                },
                Err(e) => state.show_error(e),
            }
            common::nothing()
        },
        Message::DeleteTunnel(id) => common::one(Effect::DeleteTunnel(id)),
        Message::TunnelDeleted(result) => {
            match result {
                Ok(list) => {
                    state.tunnel.tunnels = list;
                },
                Err(e) => state.show_error(e),
            }
            common::nothing()
        },
        Message::StartTunnel(id) => common::one(Effect::StartTunnel(id)),
        Message::TunnelStarted(result) => {
            match result {
                Ok(_) => {},
                Err(e) => {
                    let message = env.texts.tf("tunnel.err.start", "err", e.as_str());
                    state.show_error(message);
                },
            }
            common::nothing()
        },
        Message::StopTunnel(id) => common::one(Effect::StopTunnel(id)),
        Message::TunnelStateTick => common::nothing(),
        other => {
            type_into_tunnel(&mut state.tunnel.form, other);
            common::nothing()
        },
    }
}

} // verus!
