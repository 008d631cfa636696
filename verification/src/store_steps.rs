//! What one message does with what comes from a disk: the local files, the saved connections,
//! the proxies, the tunnels and the history.

use vstd::prelude::*;
use vstd::string::*;

use crate::browsing;
use crate::common;
use crate::connecting;
use crate::connections::ByOrder;
use crate::connections::ConnectionInfo;
use crate::connections;
use crate::editing;
use crate::forms::ProxyConfig;
use crate::forms::TunnelConfig;
use crate::forms;
use crate::history::HistoryLoad;
use crate::history;
use crate::keeping;
use crate::lettercase;
use crate::local_files::FoldersFirst;
use crate::local_files::LocalFileEntry;
use crate::locking;
use crate::number;
use crate::order::Rank;
use crate::order;
use crate::panes;
use crate::readings;
use crate::remote_files;
use crate::settings;
use crate::split;
use crate::state::Browser;
use crate::state::Effect;
use crate::state::Env;
use crate::state::LocalFile;
use crate::state::Message;
use crate::state::NeoShell;
use crate::steps;
use crate::tabs::TerminalTab;
use crate::tabs;
use crate::titles::SshHostConfig;
use crate::titles;
use crate::transfer_steps;
use crate::transferring;
use crate::updating::Area;
use crate::updating;
use crate::watching;

verus! {

// ---- the local files -------------------------------------------------------------------------------------------

/// A click on a local folder goes into it; one on a file selects it and goes nowhere.
pub proof fn law_a_local_row_is_opened_or_selected(
    before: NeoShell,
    path: String,
    is_dir: bool,
    env: Env,
    after: NeoShell,
    fx: Seq<Effect>,
)
    requires
        updating::updated(before, Message::LocalFileClicked(path, is_dir), env, after, fx),
    ensures
        is_dir ==> after.browser.local_path == path && after.browser.selected_local is None && steps::asks_for(
            fx,
            seq![Effect::ReadLocalDir(path)],
        ),
        !is_dir ==> after.browser.local_path == before.browser.local_path && after.browser.selected_local == Some(path)
            && steps::asks_for(fx, Seq::empty()),
{
    let (mid, first) = steps::lemma_handled(
        before,
        Message::LocalFileClicked(path, is_dir),
        env,
        after,
        fx,
        Area::File,
    );
    reveal(browsing::file_step);
    if !is_dir {
        assert(first =~= Seq::empty());
    }
}

/// The path that was typed is the directory that is read, and so it is when the list is
/// refreshed; typing alone reads nothing.
pub proof fn law_the_local_path_is_what_is_read(before: NeoShell, m: Message, env: Env, after: NeoShell, fx: Seq<Effect>)
    requires
        updating::updated(before, m, env, after, fx),
        m is LocalPathSubmit || m is RefreshLocalFiles || m is LocalPathChanged || m is PathInputChanged,
    ensures
        m is LocalPathSubmit || m is RefreshLocalFiles ==> steps::asks_for(
            fx,
            seq![Effect::ReadLocalDir(before.browser.local_path)],
        ),
        m matches Message::LocalPathChanged(v) ==> after.browser == (Browser { local_path: v, ..before.browser })
            && steps::asks_for(fx, Seq::empty()),
        m matches Message::PathInputChanged(v) ==> after.browser == (Browser { path_input: v, ..before.browser })
            && steps::asks_for(fx, Seq::empty()),
{
    let (mid, first) = steps::lemma_handled(before, m, env, after, fx, Area::File);
    reveal(browsing::file_step);
    if first.len() == 0 {
        assert(first =~= Seq::empty());
    }
}

/// A local listing shows every entry that was read and no other, folders before files, and
/// either kind by name whatever the case of its letters.
pub proof fn law_a_local_listing_stands_in_order(
    before: NeoShell,
    read: Vec<LocalFileEntry>,
    env: Env,
    after: NeoShell,
    fx: Seq<Effect>,
    i: int,
    j: int,
)
    requires
        updating::updated(before, Message::LocalDirRead(read), env, after, fx),
        0 <= i < j < after.browser.local_entries@.len(),
    ensures
        after.browser.local_entries@.to_multiset() == read@.to_multiset(),
        after.browser.local_entries@[j].is_dir ==> after.browser.local_entries@[i].is_dir,
        after.browser.local_entries@[i].is_dir == after.browser.local_entries@[j].is_dir ==> order::text_le(
            lettercase::lower_text(after.browser.local_entries@[i].name@),
            lettercase::lower_text(after.browser.local_entries@[j].name@),
        ),
        after.browser.local_path == before.browser.local_path,
{
    let (mid, first) = steps::lemma_handled(before, Message::LocalDirRead(read), env, after, fx, Area::File);
    reveal(browsing::file_step);
    let out = after.browser.local_entries@;
    assert(FoldersFirst {  }.le(out[i], out[j]));
}

// ---- listings of the remote side -------------------------------------------------------------------------------

/// A directory that cannot be listed is not gone into: the browser is back at the one on
/// screen, whose rows stay, and the error is said.
pub proof fn law_a_failed_listing_goes_back(
    before: NeoShell,
    sid: String,
    dir: String,
    e: String,
    env: Env,
    after: NeoShell,
    fx: Seq<Effect>,
)
    requires
        updating::updated(before, Message::ListingFailed(sid, dir, e), env, after, fx),
        before.browser.listings@.contains_key(sid@),
        before.browser.current_dir@.contains_key(sid@),
    ensures
        before.browser.current_dir@[sid@]@ == dir@ ==> after.browser.current_dir@[sid@]
            == before.browser.listings@[sid@].dir && after.browser.listings@[sid@].entries
            == before.browser.listings@[sid@].entries,
        before.browser.current_dir@[sid@]@ != dir@ ==> after.browser.current_dir@ == before.browser.current_dir@
            && after.browser.listings@ == before.browser.listings@,
        e@ != env.texts.says("exec.err.needs_reconnect"@) ==> steps::asks_for(fx, seq![Effect::Then(Message::Error(e))]),
{
    let (mid, first) = steps::lemma_handled(before, Message::ListingFailed(sid, dir, e), env, after, fx, Area::File);
    reveal(browsing::file_step);
    if e@ != env.texts.says("exec.err.needs_reconnect"@) {
        assert(first =~= seq![Effect::Then(Message::Error(e))]);
    }
}

/// Once an operation on a remote file has ended its session's directory is listed again: the
/// one that the browser shows now, or the one it was done in.
pub proof fn law_an_operation_shows_its_outcome(
    before: NeoShell,
    sid: String,
    dir: String,
    result: Result<(), String>,
    env: Env,
    after: NeoShell,
    fx: Seq<Effect>,
)
    requires
        updating::updated(before, Message::SftpOpDone(sid, dir, result), env, after, fx),
    ensures
        fx.len() > 0,
        fx[0] matches Effect::Then(Message::ChangeDir(to, path)) && to@ == sid@ && path@ == (
        if before.browser.current_dir@.contains_key(sid@) {
            before.browser.current_dir@[sid@]@
        } else {
            dir@
        }),
{
    let (mid, first) = steps::lemma_handled(before, Message::SftpOpDone(sid, dir, result), env, after, fx, Area::Sftp);
    reveal(browsing::sftp_step);
    if fx != first {
        assert(fx[0] == fx.drop_last()[0]);
    }
}

/// The dialog holds what is typed, about the same row; left, it is gone and does nothing.
pub proof fn law_the_dialog_holds_what_is_typed(before: NeoShell, m: Message, env: Env, after: NeoShell, fx: Seq<Effect>)
    requires
        updating::updated(before, m, env, after, fx),
        m is SftpInputChanged || m is SftpInputCancel,
        before.browser.input is Some,
    ensures
        steps::asks_for(fx, Seq::empty()),
        m is SftpInputCancel ==> after.browser.input is None,
        m matches Message::SftpInputChanged(v) ==> (after.browser.input matches Some(d) && d.value == v && d.kind
            == before.browser.input->0.kind && d.dir == before.browser.input->0.dir && d.session_id
            == before.browser.input->0.session_id),
{
    let (mid, first) = steps::lemma_handled(before, m, env, after, fx, Area::Sftp);
    reveal(browsing::sftp_step);
    assert(first =~= Seq::empty());
}

// ---- the saved connections -------------------------------------------------------------------------------------

/// The connections that were loaded are all listed and no other is, those of one group by
/// name; the hosts of the SSH config stand beside them.
pub proof fn law_loaded_connections_stand_in_order(
    before: NeoShell,
    conns: Vec<ConnectionInfo>,
    hosts: Vec<SshHostConfig>,
    env: Env,
    after: NeoShell,
    fx: Seq<Effect>,
    i: int,
    j: int,
)
    requires
        updating::updated(before, Message::ConnectionsLoaded(conns, hosts), env, after, fx),
        0 <= i < j < after.sessions.connections@.len(),
    ensures
        after.sessions.connections@.to_multiset() == conns@.to_multiset(),
        after.sessions.ssh_hosts == hosts,
        after.sessions.tabs == before.sessions.tabs,
        ({
            let a = after.sessions.connections@[i];
            let b = after.sessions.connections@[j];
            a.group@ == b.group@ && lettercase::lower_each(a.name@) != lettercase::lower_each(b.name@)
                ==> order::text_le(lettercase::lower_each(a.name@), lettercase::lower_each(b.name@))
        }),
{
    let (mid, first) = steps::lemma_handled(
        before,
        Message::ConnectionsLoaded(conns, hosts),
        env,
        after,
        fx,
        Area::Connection,
    );
    reveal(connecting::connection_step);
    let a = after.sessions.connections@[i];
    let b = after.sessions.connections@[j];
    assert(ByOrder {  }.le(a, b));
    if a.group@ == b.group@ {
        readings::law_connections_of_a_group_stand_by_name(a, b);
    }
}

/// A host of the SSH config opens in the form as the config has it: its alias for a name, the
/// host that is dialled, its user, its port and its key, and no secret.
pub proof fn law_a_config_host_fills_the_form(
    before: NeoShell,
    cfg: SshHostConfig,
    env: Env,
    after: NeoShell,
    fx: Seq<Effect>,
)
    requires
        updating::updated(before, Message::ImportSshConfig(cfg), env, after, fx),
    ensures
        after.form.show,
        after.form.edit_id is None,
        !after.sessions.show_connect_dialog,
        after.form.form.name@ == cfg.alias@,
        cfg.hostname@.len() > 0 ==> after.form.form.host@ == cfg.hostname@,
        cfg.hostname@.len() == 0 ==> after.form.form.host@ == cfg.alias@,
        number::parse_unsigned(after.form.form.port@, 65535) == Some(cfg.port as nat),
        after.form.form.username@ == cfg.user@,
        after.form.form.private_key@ == cfg.identity_file@,
        cfg.identity_file@.len() > 0 ==> after.form.form.auth_type@ == "key"@,
        cfg.identity_file@.len() == 0 ==> after.form.form.auth_type@ == "password"@,
        after.form.form.password@.len() == 0,
        after.form.form.passphrase@.len() == 0,
        steps::asks_for(fx, Seq::empty()),
{
    let (mid, first) = steps::lemma_handled(before, Message::ImportSshConfig(cfg), env, after, fx, Area::Connection);
    reveal(connecting::connection_step);
    crate::wording::law_a_number_reads_back(cfg.port as nat, 65535);
    assert(first =~= Seq::empty());
}

/// Importing all saves each host of the SSH config that is not saved yet, as the config has
/// it, and none that is.
pub proof fn law_all_new_hosts_are_imported(
    before: NeoShell,
    hosts: Vec<SshHostConfig>,
    env: Env,
    after: NeoShell,
    fx: Seq<Effect>,
    k: int,
) -> (at: int)
    requires
        updating::updated(before, Message::SshConfigRead(hosts), env, after, fx),
        0 <= k < hosts@.len(),
        forms::is_pending(hosts@[k], before.sessions.connections@),
    ensures
        fx.len() > 0,
        fx[0] matches Effect::SaveAll(list) && 0 <= at < list@.len() && list@[at].name@ == hosts@[k].alias@
            && list@[at].host@ == titles::dialled_host(hosts@[k]) && list@[at].port == hosts@[k].port
            && list@[at].username@ == hosts@[k].user@ && list@[at].password is None,
        fx[0] matches Effect::SaveAll(list) && list@.len() <= hosts@.len(),
{
    let (mid, first) = steps::lemma_handled(before, Message::SshConfigRead(hosts), env, after, fx, Area::Connection);
    reveal(connecting::connection_step);
    if fx != first {
        assert(fx[0] == fx.drop_last()[0]);
    }
    let pred = |h: SshHostConfig| forms::is_pending(h, before.sessions.connections@);
    let wanted = hosts@.filter(pred);
    hosts@.lemma_filter_contains(pred, k);
    hosts@.lemma_filter_len(pred);
    let at = wanted.index_of(hosts@[k]);
    at
}

/// The tunnels that are to start by themselves are started, unless they run already, and no
/// others are.
pub proof fn law_tunnels_start_by_themselves(
    before: NeoShell,
    list: Vec<TunnelConfig>,
    running: Vec<String>,
    env: Env,
    after: NeoShell,
    fx: Seq<Effect>,
    k: int,
)
    requires
        updating::updated(before, Message::TunnelsListed(list, running), env, after, fx),
        0 <= k < list@.len(),
    ensures
        list@[k].auto_start && !split::texts(running@).contains(list@[k].id@) ==> fx.contains(
            Effect::StartTunnelQuietly(list@[k].id),
        ),
        (forall|j: int| 0 <= j < list@.len() ==> !(#[trigger] list@[j]).auto_start) ==> steps::asks_for(
            fx,
            Seq::empty(),
        ),
{
    let (mid, first) = steps::lemma_handled(
        before,
        Message::TunnelsListed(list, running),
        env,
        after,
        fx,
        Area::Vault,
    );
    reveal(locking::vault_step);
    let pred = |t: TunnelConfig| locking::starts_now(t, split::texts(running@));
    let wanted = list@.filter(pred);
    if list@[k].auto_start && !split::texts(running@).contains(list@[k].id@) {
        list@.lemma_filter_contains(pred, k);
        let at = wanted.index_of(list@[k]);
        assert(first[at] == Effect::StartTunnelQuietly(list@[k].id));
        crate::tab_steps::lemma_asked(fx, first, first[at]);
    }
    if forall|j: int| 0 <= j < list@.len() ==> !(#[trigger] list@[j]).auto_start {
        if wanted.len() > 0 {
            list@.lemma_filter_pred(pred, 0);
            list@.lemma_filter_contains_rev(pred, wanted[0]);
            let j = list@.index_of(wanted[0]);
            assert(!list@[j].auto_start);
        }
        assert(first =~= Seq::empty());
    }
}

/// The timeout that is picked is the one that is kept and saved, where it is one of the
/// choices; and what is kept always is one.
pub proof fn law_the_timeout_picked_is_kept(before: NeoShell, mins: u32, env: Env, after: NeoShell, fx: Seq<Effect>)
    requires
        updating::updated(before, Message::SetLockTimeout(mins), env, after, fx),
    ensures
        settings::is_step(after.vault.lock_timeout_mins as int),
        settings::is_step(mins as int) ==> after.vault.lock_timeout_mins == mins,
        steps::asks_for(fx, seq![Effect::SaveLockTimeout(after.vault.lock_timeout_mins)]),
{
    let (mid, first) = steps::lemma_handled(before, Message::SetLockTimeout(mins), env, after, fx, Area::Vault);
    reveal(locking::vault_step);
    let step = after.vault.lock_timeout_mins as int;
    if settings::is_step(mins as int) {
        assert(settings::distance(mins as int, mins as int) == 0);
        assert(settings::distance(step, mins as int) >= 0);
    }
}

/// What was loaded is what is there: each list as it came.
pub proof fn law_loaded_stores_are_there(
    before: NeoShell,
    proxies: Vec<ProxyConfig>,
    tunnels: Vec<TunnelConfig>,
    env: Env,
    after: NeoShell,
    fx: Seq<Effect>,
)
    requires
        updating::updated(before, Message::StoresLoaded(proxies, tunnels), env, after, fx),
    ensures
        after.proxy.proxies == proxies,
        after.tunnel.tunnels == tunnels,
        steps::asks_for(fx, Seq::empty()),
{
    let (mid, first) = steps::lemma_handled(
        before,
        Message::StoresLoaded(proxies, tunnels),
        env,
        after,
        fx,
        Area::Vault,
    );
    reveal(locking::vault_step);
    assert(first =~= Seq::empty());
}

// ---- the proxies and the tunnels -------------------------------------------------------------------------------

proof fn lemma_proxy_found(saved: Seq<ProxyConfig>, id: Seq<char>, i: int)
    requires
        0 <= i < saved.len(),
        saved[i].id@ == id,
        forall|j: int| 0 <= j < i ==> (#[trigger] saved[j]).id@ != id,
    ensures
        forms::proxy_with_id(saved, id) == Some(i),
    decreases saved.len(),
{
    let less = saved.drop_last();
    if i < less.len() {
        lemma_proxy_found(less, id, i);
    } else {
        lemma_no_proxy(less, id);
    }
}

proof fn lemma_no_proxy(saved: Seq<ProxyConfig>, id: Seq<char>)
    requires
        forall|j: int| 0 <= j < saved.len() ==> (#[trigger] saved[j]).id@ != id,
    ensures
        forms::proxy_with_id(saved, id) is None,
    decreases saved.len(),
{
    if saved.len() > 0 {
        lemma_no_proxy(saved.drop_last(), id);
    }
}

/// The form of a saved proxy opens on that proxy: its name, its host, its port and who signs
/// in there.
pub proof fn law_the_form_opens_on_its_proxy(
    before: NeoShell,
    id: String,
    env: Env,
    after: NeoShell,
    fx: Seq<Effect>,
    i: int,
)
    requires
        updating::updated(before, Message::ShowProxyForm(Some(id)), env, after, fx),
        0 <= i < before.proxy.proxies@.len(),
        before.proxy.proxies@[i].id@ == id@,
        forall|j: int| 0 <= j < i ==> (#[trigger] before.proxy.proxies@[j]).id@ != id@,
    ensures
        after.proxy.show_form,
        after.proxy.edit_id == Some(id),
        after.proxy.form.name@ == before.proxy.proxies@[i].name@,
        after.proxy.form.host@ == before.proxy.proxies@[i].host@,
        number::parse_unsigned(after.proxy.form.port@, 65535) == Some(before.proxy.proxies@[i].port as nat),
        before.proxy.proxies@[i].username matches Some(u) ==> after.proxy.form.username@ == u@,
        before.proxy.proxies@[i].username is None ==> after.proxy.form.username@.len() == 0,
        steps::asks_for(fx, Seq::empty()),
{
    let (mid, first) = steps::lemma_handled(before, Message::ShowProxyForm(Some(id)), env, after, fx, Area::Proxy);
    reveal(editing::proxy_step);
    lemma_proxy_found(before.proxy.proxies@, id@, i);
    crate::wording::law_a_number_reads_back(before.proxy.proxies@[i].port as nat, 65535);
    assert(first =~= Seq::empty());
}

/// A new proxy is filled in for SOCKS at its usual port and is nobody's edit; a proxy that is
/// not there is not tested.
pub proof fn law_a_new_proxy_form_is_blank(before: NeoShell, m: Message, env: Env, after: NeoShell, fx: Seq<Effect>)
    requires
        updating::updated(before, m, env, after, fx),
        m == Message::ShowProxyForm(None) || m is TestProxy,
    ensures
        m == Message::ShowProxyForm(None) ==> after.proxy.show_form && after.proxy.edit_id is None
            && after.proxy.form.name@.len() == 0 && after.proxy.form.host@.len() == 0 && after.proxy.form.password@.len()
            == 0 && after.proxy.form.port@ == "1080"@,
        m matches Message::TestProxy(id) ==> ((forall|j: int|
            0 <= j < before.proxy.proxies@.len() ==> (#[trigger] before.proxy.proxies@[j]).id@ != id@)
            ==> steps::asks_for(fx, Seq::empty())),
        m matches Message::TestProxy(id) ==> (before.proxy.proxies@.len() > 0 && before.proxy.proxies@[0].id@ == id@
            ==> steps::asks_for(fx, seq![Effect::TestProxy(id)])),
{
    let (mid, first) = steps::lemma_handled(before, m, env, after, fx, Area::Proxy);
    reveal(editing::proxy_step);
    if let Message::TestProxy(id) = m {
        if forall|j: int| 0 <= j < before.proxy.proxies@.len() ==> (#[trigger] before.proxy.proxies@[j]).id@ != id@ {
            lemma_no_proxy(before.proxy.proxies@, id@);
            assert(first =~= Seq::empty());
        }
        if before.proxy.proxies@.len() > 0 && before.proxy.proxies@[0].id@ == id@ {
            lemma_proxy_found(before.proxy.proxies@, id@, 0);
        }
    }
}

/// A tunnel is stored as it was typed, under its own id where it was opened to be changed and
/// under a new one where it was not, with the rules that were read.
pub proof fn law_a_tunnel_is_stored_as_typed(
    before: NeoShell,
    forwards: Vec<String>,
    env: Env,
    after: NeoShell,
    fx: Seq<Effect>,
    port: u16,
)
    requires
        updating::updated(before, Message::ForwardsParsed(Ok(forwards)), env, after, fx),
        forwards@.len() > 0,
        before.tunnel.form.ssh_port@ == number::decimal(port as nat),
        port > 0,
    ensures
        fx.len() > 0,
        fx[0] matches Effect::StoreTunnel(c) && c.name@ == before.tunnel.form.name@ && c.ssh_host@
            == before.tunnel.form.ssh_host@ && c.ssh_port == port && c.username@ == before.tunnel.form.username@
            && c.auth_type@ == before.tunnel.form.auth_type@ && c.forwards@ == forwards@ && c.auto_start
            == before.tunnel.form.auto_start && c.id@ == (match before.tunnel.edit_id {
            Some(id) => id@,
            None => env.new_id@,
        }),
{
    let (mid, first) = steps::lemma_handled(
        before,
        Message::ForwardsParsed(Ok(forwards)),
        env,
        after,
        fx,
        Area::Tunnel,
    );
    reveal(editing::tunnel_step);
    crate::form_steps::law_a_port_reads_back(port, 22);
    if fx != first {
        assert(fx[0] == fx.drop_last()[0]);
    }
}

/// A tunnel with no rule, or with one that cannot be read, is not stored; the form says so and
/// stays.
pub proof fn law_a_tunnel_needs_a_rule(
    before: NeoShell,
    parsed: Result<Vec<String>, String>,
    env: Env,
    after: NeoShell,
    fx: Seq<Effect>,
)
    requires
        updating::updated(before, Message::ForwardsParsed(parsed), env, after, fx),
        parsed matches Ok(list) ==> list@.len() == 0,
    ensures
        steps::asks_for(fx, Seq::empty()),
        after.error.show,
        after.tunnel == before.tunnel,
        parsed is Ok ==> after.error.message@ == env.texts.says("tunnel.err.no_forwards"@),
{
    let (mid, first) = steps::lemma_handled(before, Message::ForwardsParsed(parsed), env, after, fx, Area::Tunnel);
    reveal(editing::tunnel_step);
    assert(first =~= Seq::empty());
}

// ---- the history -----------------------------------------------------------------------------------------------

/// A history that nobody waits for any more changes nothing. One that is waited for, with
/// nothing run meanwhile, is what is there: the newest five hundred of it.
pub proof fn law_a_loaded_history_is_there(
    before: NeoShell,
    seq: u64,
    load: HistoryLoad,
    env: Env,
    after: NeoShell,
    fx: Seq<Effect>,
)
    requires
        updating::updated(before, Message::HistoryLoaded(seq, load), env, after, fx),
    ensures
        before.history.sync.pending_load is None || before.history.sync.pending_load->0.seq != seq
            ==> after.history.records@ == before.history.records@ && steps::asks_for(fx, Seq::empty()),
        before.history.sync.pending_load matches Some(p) ==> (p.seq == seq && !p.cleared
            && before.history.records@.len() == 0 && load.writable && !load.legacy_found && load.records@.len() <= 500
            ==> after.history.records@ == load.records@ && after.history.sync.loaded && !after.history.sync.dirty
            && steps::asks_for(fx, Seq::empty())),
{
    let m = Message::HistoryLoaded(seq, load);
    let (end, first) = steps::lemma_handled(before, m, env, after, fx, Area::Kept);
    reveal(keeping::kept_step);
    if history::awaited(before.history.sync, seq) {
        let s = updating::noted(before, m, env.now);
        let (mid, warned) = choose|mid: NeoShell, warned: NeoShell| #[trigger]
            keeping::history_loaded_via(s, load, env, mid, warned, end, first);
        if first.len() == 0 {
            assert(first =~= Seq::empty());
        }
    } else {
        assert(first =~= Seq::empty());
    }
}

// ---- tabs and figures ------------------------------------------------------------------------------------------

/// A second pane that could not be connected is not waited for any more, and the error is
/// said; no other tab changes.
pub proof fn law_a_failed_split_is_told(
    before: NeoShell,
    tab_id: String,
    e: String,
    env: Env,
    after: NeoShell,
    fx: Seq<Effect>,
    i: int,
    k: int,
)
    requires
        updating::updated(before, Message::SplitFailed(tab_id, e), env, after, fx),
        0 <= i < before.sessions.tabs@.len(),
        before.sessions.tabs@[i].id@ == tab_id@,
        forall|j: int| 0 <= j < i ==> (#[trigger] before.sessions.tabs@[j]).id@ != tab_id@,
        0 <= k < before.sessions.tabs@.len(),
    ensures
        after.sessions.tabs@.len() == before.sessions.tabs@.len(),
        after.sessions.tabs@[i].split_pending is None,
        after.sessions.tabs@[i].session_id == before.sessions.tabs@[i].session_id,
        k != i ==> after.sessions.tabs@[k] == before.sessions.tabs@[k],
        after.error.show,
        after.error.message == e,
{
    let (mid, first) = steps::lemma_handled(before, Message::SplitFailed(tab_id, e), env, after, fx, Area::Tab);
    reveal(panes::tab_step);
    tabs::lemma_is_first_tab(before.sessions.tabs@, |t: TerminalTab| t.id@ == tab_id@, i);
    assert(tabs::tab_with_id(before.sessions.tabs@, tab_id@) == Some(i));
}

/// Figures that could not be fetched may be asked for again, for that session; nothing is
/// parked unless the answer says that the connection waits for its user.
pub proof fn law_failed_figures_may_be_asked_for_again(
    before: NeoShell,
    sid: String,
    e: String,
    env: Env,
    after: NeoShell,
    fx: Seq<Effect>,
    other: Seq<char>,
)
    requires
        updating::updated(before, Message::MonitorError(sid, e), env, after, fx),
        other != sid@,
    ensures
        !after.monitor.inflight@.contains(sid@),
        after.monitor.inflight@.contains(other) == before.monitor.inflight@.contains(other),
        e@ != env.texts.says("exec.err.needs_reconnect"@) ==> after.monitor.parked@ == before.monitor.parked@,
        e@ == env.texts.says("exec.err.needs_reconnect"@) ==> after.monitor.parked@.contains_key(sid@),
{
    let (mid, first) = steps::lemma_handled(before, Message::MonitorError(sid, e), env, after, fx, Area::Monitor);
    reveal(watching::monitor_step);
}

// ---- what is dropped, and what the shell sends -----------------------------------------------------------------

/// A file that is dropped on a tab is uploaded to its own name in the directory that the
/// browser shows for that tab's session, at once where the bar is free.
pub proof fn law_a_dropped_file_goes_into_the_folder_shown(
    before: NeoShell,
    local: LocalFile,
    name: String,
    env: Env,
    after: NeoShell,
    fx: Seq<Effect>,
    i: int,
)
    requires
        updating::updated(before, Message::FileDropped(local), env, after, fx),
        before.vault.screen is Main,
        before.top() is None,
        !transfer_steps::is_taken(before),
        before.transfers.drops@.len() == 0,
        before.sessions.active_tab == Some(i as usize),
        0 <= i < before.sessions.tabs@.len() <= usize::MAX,
        before.sessions.tabs@[i].split is None,
        before.sessions.tabs@[i].session_id@.len() > 0,
        before.browser.listings@.contains_key(before.sessions.tabs@[i].session_id@),
        remote_files::is_plain_dir(before.browser.listings@[before.sessions.tabs@[i].session_id@].dir@),
        local.name == Some(name),
        remote_files::is_component(name@),
    ensures
        fx.len() > 0,
        fx[0] matches Effect::Upload(to, id, from, path, folder) && to@ == before.sessions.tabs@[i].session_id@ && id
            == before.transfers.next_id && from == local.path && folder == local.is_dir && path@
            == before.browser.listings@[before.sessions.tabs@[i].session_id@].dir@ + seq!['/'] + name@,
        after.transfers.drops@.len() == 0,
        after.transfers.running,
{
    let m = Message::FileDropped(local);
    let (end, first) = steps::lemma_handled(before, m, env, after, fx, Area::Transfer);
    reveal(transferring::transfer_step);
    let s = updating::noted(before, m, env.now);
    crate::overlays::lemma_same_top(before, s, 0);
    let sid = before.sessions.tabs@[i].session_id@;
    let dir = before.browser.listings@[sid].dir@;
    remote_files::law_joining_and_going_up(dir, name@);
    assert(common::drop_goes(s.sessions, s.browser, env.pointer.in_second_pane) == Some((sid, dir)));
    let mid = choose|mid: NeoShell| #[trigger]
        transferring::dropped_via(s, local, (sid, dir), env.texts, mid, end, first);
    let next = choose|next: NeoShell| #[trigger]
        transferring::next_drop_via(mid, next, env.texts, end, first);
    if fx != first {
        assert(fx[0] == fx.drop_last()[0]);
    }
}

/// What the shell sends is fetched by the name it was sent under into the download folder,
/// under the last part of that name.
pub proof fn law_what_the_shell_sends_is_saved(
    before: NeoShell,
    sid: String,
    dir: Seq<char>,
    name: Seq<char>,
    env: Env,
    after: NeoShell,
    fx: Seq<Effect>,
)
    requires
        updating::updated(before, Message::SzDetected(sid), env, after, fx),
        before.transfers.bar is None,
        !before.transfers.running,
        before.typing.sz_filename@.contains_key(sid@),
        remote_files::is_plain_dir(dir),
        remote_files::is_component(name),
        remote_files::is_safe_name(name),
        before.typing.sz_filename@[sid@]@ == dir + seq!['/'] + name,
    ensures
        exists|k: int|
            0 <= k < fx.len() && (#[trigger] fx[k] matches Effect::DownloadSz(to, id, from, local) && to == sid && id
                == before.transfers.next_id && from@ == dir + seq!['/'] + name && local@ == env.download_dir@ + name),
        !after.typing.sz_filename@.contains_key(sid@),
        after.transfers.bar is Some,
{
    let m = Message::SzDetected(sid);
    let (end, first) = steps::lemma_handled(before, m, env, after, fx, Area::Transfer);
    reveal(transferring::transfer_step);
    let s = updating::noted(before, m, env.now);
    remote_files::law_joining_and_going_up(dir, name);
    let mid = choose|mid: NeoShell| #[trigger]
        transferring::sz_detected_via(s, sid, env, mid, end, first);
    let k = first.len() - 1;
    assert(first[k] == first.last());
    assert(fx[k] == first[k]) by {
        if fx != first {
            assert(fx[k] == fx.drop_last()[k]);
        }
    }
}

} // verus!
