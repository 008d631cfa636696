//! Watching a host: its figures, processes and listening ports.

use vstd::prelude::*;
use vstd::string::*;

use crate::catalog::Catalog;
use crate::common;
use crate::forms;
use crate::grid;
use crate::monitors;
use crate::number;
use crate::order;
use crate::ports;
use crate::ports::ByColumn;
use crate::ports::PortInfo;
use crate::ports::PortSort;
use crate::processes;
use crate::processes::ProcIdentity;
use crate::processes::ProcessDetailInfo;
use crate::remote_files;
use crate::split;
use crate::state;
use crate::state::BottomTab;
use crate::state::Browser;
use crate::state::ConfirmAction;
use crate::state::Effect;
use crate::state::Env;
use crate::state::Message;
use crate::state::Monitoring;
use crate::state::NeoShell;
use crate::state::Panels;
use crate::state::Typing;
use crate::tabs;
use crate::text;

verus! {

pub open spec fn monitor_only(before: NeoShell, after: NeoShell) -> bool {
    after == (NeoShell { monitor: after.monitor, ..before })
}

// ---- figures --------------------------------------------------------------------------------------------

pub open spec fn fetches(e: Effect, sid: Seq<char>) -> bool {
    match e {
        Effect::FetchMonitor(s) => s@ == sid,
        _ => false,
    }
}

/// The sessions with a fetch out, once one more was asked for.
pub open spec fn claimed(out: Set<Seq<char>>, sid: Seq<char>) -> Set<Seq<char>> {
    if sid.len() > 0 {
        out.insert(sid)
    } else {
        out
    }
}

pub open spec fn may_fetch(out: Set<Seq<char>>, sid: Seq<char>) -> bool {
    sid.len() > 0 && !out.contains(sid)
}

pub open spec fn figures_asked(before: NeoShell, now: u128, after: NeoShell, fx: Seq<Effect>) -> bool {
    match common::focused_any(before.sessions) {
        Some(sid) => {
            let ports: Seq<Effect> = if before.is_ports_due(sid, now) {
                seq![Effect::Then(Message::FetchPorts)]
            } else {
                Seq::empty()
            };
            &&& after.monitor.inflight@ == claimed(before.monitor.inflight@, sid)
            &&& after.monitor == (Monitoring { inflight: after.monitor.inflight, ..before.monitor })
            &&& monitor_only(before, after)
            &&& if may_fetch(before.monitor.inflight@, sid) {
                fx.len() == ports.len() + 1 && fetches(fx[0], sid) && fx.skip(1) == ports
            } else {
                fx == ports
            }
        },
        None => after == before && fx.len() == 0,
    }
}

/// Fetch the figures of the focused session: one fetch per session at a time.
/// The ports tab rides the same tick, at a slower rate.
pub fn on_fetch_monitor_data(state: &mut NeoShell, now: u128) -> (fx: Vec<Effect>)
    ensures
        figures_asked(*old(state), now, *final(state), fx@),
        final(state).sessions == old(state).sessions,
{
    let sid = match state.sessions.focused_session() {
        Some(sid) => sid,
        None => {
            return common::nothing();
        },
    };
    let due = state.ports_due(sid.as_str(), now);
    let mut fx: Vec<Effect> = Vec::new();
    let started = state.monitor.inflight.start(sid.as_str());
    if started {
        fx.push(Effect::FetchMonitor(sid));
    }
    if due {
        fx.push(Effect::Then(Message::FetchPorts));
    }
    proof {
        let ports: Seq<Effect> = if due {
            seq![Effect::Then(Message::FetchPorts)]
        } else {
            Seq::empty()
        };
        if started {
            assert(fx@.skip(1) =~= ports);
        } else {
            assert(fx@ =~= ports);
        }
    }
    fx
}

/// `after` is `before` with the fetch back, and what is over its threshold.
pub open spec fn figures_noted(before: Monitoring, sid: Seq<char>, breaches: Vec<String>, after: Monitoring) -> bool {
    &&& after.inflight@ == before.inflight@.remove(sid)
    &&& after.parked@ == before.parked@.remove(sid)
    &&& after.alerts@ == (if !before.alerts_enabled {
        before.alerts@
    } else if breaches@.len() == 0 {
        before.alerts@.remove(sid)
    } else {
        before.alerts@.insert(sid, breaches)
    })
    &&& after == (Monitoring {
        inflight: after.inflight,
        parked: after.parked,
        alerts: after.alerts,
        ..before
    })
}

/// The directory that the prompt of the session's terminal shows.
pub open spec fn prompt_shows(s: NeoShell, sid: Seq<char>) -> Option<Seq<char>> {
    match tabs::cells_of(s.sessions.tabs@, sid) {
        Some(g) => grid::shown_cwd(g),
        None => None,
    }
}

/// The file browser follows the shell to the directory that its prompt shows.
pub open spec fn follows_to(before: Browser, sid: Seq<char>, cwd: Option<Seq<char>>) -> bool {
    cwd matches Some(d) && remote_files::sync_due(
        remote_files::text_at(before.prompt_cwd@, sid),
        remote_files::failed_at(before.listings@, sid),
        d,
    )
}

pub open spec fn browser_followed(before: Browser, sid: Seq<char>, cwd: Option<Seq<char>>, after: Browser) -> bool {
    &&& if follows_to(before, sid, cwd) {
        &&& common::text_set(before.prompt_cwd@, sid, cwd->0, after.prompt_cwd@)
        &&& common::text_set(before.current_dir@, sid, cwd->0, after.current_dir@)
    } else {
        &&& after.prompt_cwd@ == before.prompt_cwd@
        &&& after.current_dir@ == before.current_dir@
    }
    &&& after == (Browser { prompt_cwd: after.prompt_cwd, current_dir: after.current_dir, ..before })
}

pub open spec fn figures_in(
    before: NeoShell,
    sid: String,
    breaches: Vec<String>,
    after: NeoShell,
    fx: Seq<Effect>,
) -> bool {
    let cwd = prompt_shows(before, sid@);
    &&& figures_noted(before.monitor, sid@, breaches, after.monitor)
    &&& browser_followed(before.browser, sid@, cwd, after.browser)
    &&& after == (NeoShell { monitor: after.monitor, browser: after.browser, ..before })
    &&& if follows_to(before.browser, sid@, cwd) {
        fx.len() == 1 && common::changes_dir(fx[0], sid@, cwd->0)
    } else {
        fx.len() == 0
    }
}

/// The figures of a session are in. With them the file browser follows the
/// shell to the directory that its prompt shows — a split pane's too.
pub fn on_monitor_data_received(state: &mut NeoShell, sid: String, breaches: Vec<String>) -> (fx: Vec<Effect>)
    requires
        old(state).wf(),
    ensures
        figures_in(*old(state), sid, breaches, *final(state), fx@),
        final(state).sessions == old(state).sessions,
{
    state.monitor.inflight.finish(sid.as_str());
    state.monitor.parked.unpark(sid.as_str());
    if state.monitor.alerts_enabled {
        if breaches.len() == 0 {
            let _r = state.monitor.alerts.remove(sid.as_str());
        } else {
            state.monitor.alerts.insert(sid.clone(), breaches);
        }
    }
    let shown = match tabs::find_terminal_for_session(&state.sessions.tabs, sid.as_str()) {
        Some(g) => {
            assert(g.wf()) by {
                let i = tabs::tab_showing(state.sessions.tabs@, sid@)->0;
                tabs::lemma_first_tab(state.sessions.tabs@, |t: tabs::TerminalTab| t.shows(sid@));
                assert(state::tab_wf(state.sessions.tabs@[i]));
            }
            grid::extract_cwd_from_prompt(g)
        },
        None => None,
    };
    match shown {
        Some(cwd) => {
            if remote_files::follow_prompt_cwd(
                &mut state.browser.prompt_cwd,
                &mut state.browser.current_dir,
                &state.browser.listings,
                sid.as_str(),
                cwd.as_str(),
            ) {
                return common::one(Effect::Then(Message::ChangeDir(sid, cwd)));
            }
            common::nothing()
        },
        None => common::nothing(),
    }
}

pub open spec fn parked_at(
    before: Map<Seq<char>, monitors::ParkedMonitor>,
    sid: Seq<char>,
    after: Map<Seq<char>, monitors::ParkedMonitor>,
) -> bool {
    after == (if before.contains_key(sid) {
        before
    } else {
        before.insert(sid, monitors::freshly_parked())
    })
}

pub open spec fn fetch_failed(before: NeoShell, sid: Seq<char>, e: Seq<char>, texts: Catalog, after: NeoShell) -> bool {
    &&& after.monitor.inflight@ == before.monitor.inflight@.remove(sid)
    &&& if monitors::says_parked(e, texts) {
        parked_at(before.monitor.parked@, sid, after.monitor.parked@)
    } else {
        after.monitor.parked@ == before.monitor.parked@
    }
    &&& after.monitor == (Monitoring {
        inflight: after.monitor.inflight,
        parked: after.monitor.parked,
        ..before.monitor
    })
    &&& monitor_only(before, after)
}

/// A fetch failed. Where the exec connection is parked every tick fails this
/// way until the user reconnects, and the panel says so.
pub fn on_monitor_error(state: &mut NeoShell, sid: String, e: String, texts: &Catalog)
    ensures
        fetch_failed(*old(state), sid@, e@, *texts, *final(state)),
{
    state.monitor.inflight.finish(sid.as_str());
    if monitors::exec_parked(e.as_str(), texts) {
        let _first = state.monitor.parked.park(sid.as_str());
    }
}

pub open spec fn resume_asked(before: NeoShell, sid: String, after: NeoShell, fx: Seq<Effect>) -> bool {
    if before.monitor.parked.may_resume(sid@) {
        &&& after.monitor.parked@ == before.monitor.parked@.insert(sid@, monitors::being_resumed())
        &&& after == (NeoShell {
            monitor: Monitoring { parked: after.monitor.parked, ..before.monitor },
            typing: Typing { last_keypress: None, ..before.typing },
            ..before
        })
        &&& fx == seq![Effect::ResumeExec(sid)]
    } else {
        &&& after.monitor.parked@ == before.monitor.parked@
        &&& after == (NeoShell {
            monitor: Monitoring { parked: after.monitor.parked, ..before.monitor },
            ..before
        })
        &&& fx.len() == 0
    }
}

/// Re-open a parked exec connection. One press, one challenge: nothing more
/// goes out while one is. The user's own action: its challenge may take the
/// keyboard.
pub fn on_resume_monitoring(state: &mut NeoShell, sid: String) -> (fx: Vec<Effect>)
    ensures
        resume_asked(*old(state), sid, *final(state), fx@),
{
    if !state.monitor.parked.begin_resume(sid.as_str()) {
        return common::nothing();
    }
    state.typing.last_keypress = None;
    common::one(Effect::ResumeExec(sid))
}

pub open spec fn resume_landed(
    before: NeoShell,
    sid: Seq<char>,
    result: Result<(), String>,
    after: NeoShell,
    fx: Seq<Effect>,
) -> bool {
    let parked = before.monitor.parked@;
    &&& after.monitor.parked@ == (match result {
        Ok(_) => parked.remove(sid),
        Err(e) => if parked.contains_key(sid) {
            parked.insert(sid, monitors::ParkedMonitor { resuming: false, error: Some(e) })
        } else {
            parked
        },
    })
    &&& after.monitor == (Monitoring { parked: after.monitor.parked, ..before.monitor })
    &&& monitor_only(before, after)
    &&& fx == (if result is Ok && parked.contains_key(sid) {
        seq![Effect::Then(Message::FetchMonitorData)]
    } else {
        Seq::empty()
    })
}

/// The reconnect came back. If it worked, the panel is filled now rather than
/// on the next tick.
pub fn on_resume_monitoring_done(state: &mut NeoShell, sid: String, result: Result<(), String>) -> (fx: Vec<Effect>)
    ensures
        resume_landed(*old(state), sid@, result, *final(state), fx@),
{
    if state.monitor.parked.finish_resume(sid.as_str(), result) {
        common::one(Effect::Then(Message::FetchMonitorData))
    } else {
        common::nothing()
    }
}

pub open spec fn exec_parked(before: NeoShell, sid: Seq<char>, after: NeoShell) -> bool {
    &&& parked_at(before.monitor.parked@, sid, after.monitor.parked@)
    &&& after.monitor == (Monitoring { parked: after.monitor.parked, ..before.monitor })
    &&& monitor_only(before, after)
}

pub open spec fn alerts_switched(before: NeoShell, on: bool, after: NeoShell, fx: Seq<Effect>) -> bool {
    &&& after.monitor.alerts@ == (if on {
        before.monitor.alerts@
    } else {
        Map::empty()
    })
    &&& after.monitor == (Monitoring {
        alerts_enabled: on,
        alerts: after.monitor.alerts,
        ..before.monitor
    })
    &&& monitor_only(before, after)
    &&& fx == seq![Effect::SaveAlerts]
}

/// A file listing found the exec connection parked.
pub fn on_exec_parked(state: &mut NeoShell, sid: String)
    ensures
        exec_parked(*old(state), sid@, *final(state)),
{
    let _first = state.monitor.parked.park(sid.as_str());
}

/// Switch the alerts on or off; off, none stays.
pub fn on_alerts_switched(state: &mut NeoShell, on: bool) -> (fx: Vec<Effect>)
    ensures
        alerts_switched(*old(state), on, *final(state), fx@),
{
    state.monitor.alerts_enabled = on;
    if !on {
        state.monitor.alerts.clear();
    }
    common::one(Effect::SaveAlerts)
}

// ---- processes ------------------------------------------------------------------------------------------

pub open spec fn inspects(e: Effect, sid: Seq<char>, pid: u32) -> bool {
    match e {
        Effect::Inspect(s, p, cmd) => s@ == sid && p == pid && cmd@ == split::join(
            processes::inspection(),
            number::decimal(pid as nat),
        ),
        _ => false,
    }
}

pub open spec fn inspection_asked(s: NeoShell, pid: u32, fx: Seq<Effect>) -> bool {
    match common::focused_any(s.sessions) {
        Some(sid) => fx.len() == 1 && inspects(fx[0], sid, pid),
        None => fx.len() == 0,
    }
}

/// Look at a process of the focused session's host.
pub fn on_inspect_process(s: &NeoShell, pid: u32) -> (fx: Vec<Effect>)
    ensures
        inspection_asked(*s, pid, fx@),
{
    match s.sessions.focused_session() {
        Some(sid) => common::one(Effect::Inspect(sid, pid, processes::inspect_command(pid))),
        None => common::nothing(),
    }
}

/// What an inspection of a process comes to: what was printed is read, and goes
/// with the session it was read over.
pub fn inspect_reply(result: Result<String, String>, session_id: String, pid: u32) -> (m: Message)
    ensures
        match result {
            Ok(out) => m matches Message::ProcessDetailReceived(d) && {
                &&& d.session_id == session_id
                &&& d.pid == pid
                &&& processes::pairs(d.fields@) == processes::one("PID"@, number::decimal(pid as nat))
                    + processes::gathered(
                    processes::sections(out@),
                    |s: (Seq<char>, Seq<char>)| processes::section_fields(s.0, s.1),
                )
                &&& split::texts(d.children@) == processes::listed(out@, "CHILDREN"@)
                &&& split::texts(d.threads@) == processes::listed(out@, "THREADS"@)
                &&& split::texts(d.net_conns@) == processes::listed(out@, "NET"@)
                &&& split::texts(d.listen_ports@) == processes::listed(out@, "LISTEN"@)
                &&& split::texts(d.open_fds@) == processes::gathered(
                    processes::sections(out@),
                    |s: (Seq<char>, Seq<char>)| processes::section_fds(s.0, s.1),
                )
            },
            Err(e) => m == Message::Error(e),
        },
{
    match result {
        Ok(out) => {
            let mut d = processes::parse_process_detail(pid, out.as_str());
            d.session_id = session_id;
            Message::ProcessDetailReceived(d)
        },
        Err(e) => Message::Error(e),
    }
}

/// The process on the popup can be signalled.
pub open spec fn can_signal(d: ProcessDetailInfo) -> bool {
    d.pid > 1 && d.session_id@.len() > 0
}

pub open spec fn kill_asked(s: NeoShell, signal: i32, fx: Seq<Effect>) -> bool {
    match s.panels.process {
        Some(d) => if can_signal(d) {
            fx == seq![Effect::ReadIdentity(d.session_id, d.pid, signal)]
        } else {
            fx.len() == 0
        },
        None => fx.len() == 0,
    }
}

/// Ask before the process on the popup is signalled. The confirmation names the
/// process as it is now — not as the popup read it, maybe minutes ago: the pid
/// may have changed hands since.
pub fn on_kill_process_request(s: &NeoShell, signal: i32) -> (fx: Vec<Effect>)
    ensures
        kill_asked(*s, signal, fx@),
{
    match &s.panels.process {
        Some(d) => {
            if d.pid <= 1 || forms::is_empty_text(d.session_id.as_str()) {
                return common::nothing();
            }
            common::one(Effect::ReadIdentity(d.session_id.clone(), d.pid, signal))
        },
        None => common::nothing(),
    }
}

/// The popup that asked is still up.
pub open spec fn still_up(s: NeoShell, sid: Seq<char>, pid: u32) -> bool {
    s.panels.process matches Some(d) && d.pid == pid && d.session_id@ == sid
}

pub open spec fn gone_text(pid: u32, texts: Catalog) -> Seq<char> {
    texts.says_with("process.err.gone"@, "pid"@, number::decimal(pid as nat))
}

pub open spec fn changed_text(pid: u32, texts: Catalog) -> Seq<char> {
    texts.says_with("process.err.changed"@, "pid"@, number::decimal(pid as nat))
}

pub open spec fn confirms_kill(
    c: Option<ConfirmAction>,
    sid: String,
    pid: u32,
    signal: i32,
    identity: ProcIdentity,
) -> bool {
    match c {
        Some(ConfirmAction::Kill { session_id, pid: p, command, signal: s, identity: i }) => {
            &&& session_id == sid
            &&& p == pid
            &&& s == signal
            &&& i == identity
            &&& command@ == processes::kill_label(identity)
        },
        _ => false,
    }
}

pub open spec fn identity_in(
    before: NeoShell,
    sid: String,
    pid: u32,
    signal: i32,
    read: Result<Option<ProcIdentity>, String>,
    texts: Catalog,
    after: NeoShell,
) -> bool {
    if !still_up(before, sid@, pid) {
        after == before
    } else {
        match read {
            Ok(Some(identity)) => {
                &&& confirms_kill(after.browser.confirm, sid, pid, signal, identity)
                &&& after == (NeoShell {
                    browser: Browser { confirm: after.browser.confirm, ..before.browser },
                    ..before
                })
            },
            Ok(None) => common::error_shown(before, gone_text(pid, texts), after),
            Err(e) => common::error_shown(before, e@, after),
        }
    }
}

/// The process that is to be signalled was read: the confirmation quotes it.
/// Only for the popup that asked, if it is still up.
pub fn on_kill_identity_read(
    state: &mut NeoShell,
    session_id: String,
    pid: u32,
    signal: i32,
    read: Result<Option<ProcIdentity>, String>,
    texts: &Catalog,
)
    ensures
        identity_in(*old(state), session_id, pid, signal, read, *texts, *final(state)),
{
    let asked = match &state.panels.process {
        Some(d) => d.pid == pid && text::same_text(d.session_id.as_str(), session_id.as_str()),
        None => false,
    };
    if !asked {
        return;
    }
    match read {
        Ok(Some(identity)) => {
            let command = processes::kill_command_label(&identity);
            state.browser.confirm = Some(
                ConfirmAction::Kill { session_id, pid, command, signal, identity },
            );
        },
        Ok(None) => {
            let n = number::decimal_text(pid as u64);
            state.show_error(texts.tf("process.err.gone", "pid", n.as_str()));
        },
        Err(e) => state.show_error(e),
    }
}

/// What the second look at the process says.
pub open spec fn kill_allowed(
    confirmed: ProcIdentity,
    read: Result<Option<ProcIdentity>, String>,
    pid: u32,
    texts: Catalog,
    r: Result<(), String>,
) -> bool {
    match read {
        Ok(Some(now)) => if confirmed.start_time@ == now.start_time@ {
            r is Ok
        } else {
            r matches Err(e) && e@ == changed_text(pid, texts)
        },
        Ok(None) => r matches Err(e) && e@ == gone_text(pid, texts),
        Err(why) => r matches Err(e) && e == why,
    }
}

/// Still the process that the user confirmed? A pid that changed hands while
/// the dialog was up would take the signal meant for another. The signal goes
/// only where this is `Ok`.
pub fn may_kill(
    confirmed: &ProcIdentity,
    read: Result<Option<ProcIdentity>, String>,
    pid: u32,
    texts: &Catalog,
) -> (r: Result<(), String>)
    ensures
        kill_allowed(*confirmed, read, pid, *texts, r),
{
    match read {
        Ok(Some(now)) => {
            if processes::same_process(confirmed, &now) {
                Ok(())
            } else {
                let n = number::decimal_text(pid as u64);
                Err(texts.tf("process.err.changed", "pid", n.as_str()))
            }
        },
        Ok(None) => {
            let n = number::decimal_text(pid as u64);
            Err(texts.tf("process.err.gone", "pid", n.as_str()))
        },
        Err(e) => Err(e),
    }
}

/// A signal goes only to the process that was confirmed.
pub proof fn law_a_kill_goes_to_the_process_confirmed(
    confirmed: ProcIdentity,
    read: Result<Option<ProcIdentity>, String>,
    pid: u32,
    texts: Catalog,
    r: Result<(), String>,
)
    requires
        kill_allowed(confirmed, read, pid, texts, r),
    ensures
        r is Ok <==> (read matches Ok(Some(now)) && now.start_time@ == confirmed.start_time@),
{
}

pub open spec fn killed(before: NeoShell, result: Result<(), String>, after: NeoShell, fx: Seq<Effect>) -> bool {
    match result {
        Ok(_) => {
            &&& after == (NeoShell { panels: Panels { process: None, ..before.panels }, ..before })
            &&& fx == (if before.panels.bottom_tab == BottomTab::Ports {
                seq![Effect::Then(Message::FetchMonitorData), Effect::Then(Message::FetchPorts)]
            } else {
                seq![Effect::Then(Message::FetchMonitorData)]
            })
        },
        Err(e) => common::error_shown(before, e@, after) && fx.len() == 0,
    }
}

/// The signal went: the process is gone or going, and the list is shown without
/// it. A failure is shown as the remote said it.
pub fn on_kill_process_done(state: &mut NeoShell, result: Result<(), String>) -> (fx: Vec<Effect>)
    ensures
        killed(*old(state), result, *final(state), fx@),
        final(state).sessions == old(state).sessions,
{
    match result {
        Ok(_) => {
            state.panels.process = None;
            let mut fx = common::one(Effect::Then(Message::FetchMonitorData));
            if state.panels.bottom_tab == BottomTab::Ports {
                fx.push(Effect::Then(Message::FetchPorts));
                assert(fx@ =~= seq![
                    Effect::Then(Message::FetchMonitorData),
                    Effect::Then(Message::FetchPorts),
                ]);
            }
            fx
        },
        Err(e) => {
            state.show_error(e);
            common::nothing()
        },
    }
}

// ---- ports ----------------------------------------------------------------------------------------------

pub open spec fn ports_asked(before: NeoShell, after: NeoShell, fx: Seq<Effect>) -> bool {
    match common::focused_sid(before.sessions) {
        Some(sid) => {
            &&& after.monitor.ports_inflight@ == before.monitor.ports_inflight@.insert(sid)
            &&& after.monitor == (Monitoring { ports_inflight: after.monitor.ports_inflight, ..before.monitor })
            &&& monitor_only(before, after)
            &&& if before.monitor.ports_inflight@.contains(sid) {
                fx.len() == 0
            } else {
                fx.len() == 1 && (fx[0] matches Effect::FetchPorts(s) && s@ == sid)
            }
        },
        None => after == before && fx.len() == 0,
    }
}

/// Fetch the listening ports of the focused session's host: one fetch per
/// session at a time.
pub fn on_fetch_ports(state: &mut NeoShell) -> (fx: Vec<Effect>)
    ensures
        ports_asked(*old(state), *final(state), fx@),
{
    match state.sessions.focused_session_id() {
        Some(sid) => {
            if !state.monitor.ports_inflight.start(sid.as_str()) {
                assert(state.monitor.ports_inflight@ =~= old(state).monitor.ports_inflight@.insert(sid@));
                return common::nothing();
            }
            common::one(Effect::FetchPorts(sid))
        },
        None => common::nothing(),
    }
}

pub open spec fn ports_shown(
    before: Monitoring,
    sid: String,
    result: Result<Vec<PortInfo>, String>,
    now: u128,
    after: Monitoring,
) -> bool {
    &&& match result {
        Ok(list) => {
            &&& order::stably_sorted(
                (ByColumn { key: before.ports_sort, desc: before.ports_sort_desc }),
                list@,
                after.ports@,
            )
            &&& after.ports_error is None
        },
        Err(e) => after.ports@.len() == 0 && after.ports_error == Some(e),
    }
    &&& after == (Monitoring {
        ports_inflight: after.ports_inflight,
        ports: after.ports,
        ports_error: after.ports_error,
        ports_session: sid,
        ports_fetched_at: Some(now),
        ..before
    })
}

pub open spec fn ports_in(
    before: NeoShell,
    sid: String,
    result: Result<Vec<PortInfo>, String>,
    now: u128,
    after: NeoShell,
) -> bool {
    &&& after.monitor.ports_inflight@ == before.monitor.ports_inflight@.remove(sid@)
    &&& monitor_only(before, after)
    &&& if common::focused_any(before.sessions) == Some(sid@) {
        ports_shown(before.monitor, sid, result, now, after.monitor)
    } else {
        after.monitor == (Monitoring { ports_inflight: after.monitor.ports_inflight, ..before.monitor })
    }
}

/// The ports of a session are in, and are put in the table's order once, here.
/// Fetches for different sessions overlap: a late answer for a tab the user has
/// left must not replace the one on screen.
pub fn on_ports_received(state: &mut NeoShell, session_id: String, result: Result<Vec<PortInfo>, String>, now: u128)
    ensures
        ports_in(*old(state), session_id, result, now, *final(state)),
{
    state.monitor.ports_inflight.finish(session_id.as_str());
    let focused = state.sessions.focused_session();
    if !tabs::opt_same(&focused, session_id.as_str()) {
        return;
    }
    state.monitor.ports_fetched_at = Some(now);
    state.monitor.ports_session = session_id;
    match result {
        Ok(list) => {
            let mut list = list;
            ports::sort_ports(&mut list, state.monitor.ports_sort, state.monitor.ports_sort_desc);
            state.monitor.ports = list;
            state.monitor.ports_error = None;
        },
        Err(e) => {
            state.monitor.ports = Vec::new();
            state.monitor.ports_error = Some(e);
        },
    }
}

pub open spec fn ports_sorted_by(before: NeoShell, key: PortSort, after: NeoShell) -> bool {
    let a = after.monitor;
    &&& (a.ports_sort, a.ports_sort_desc) == ports::clicked(
        before.monitor.ports_sort,
        before.monitor.ports_sort_desc,
        key,
    )
    &&& order::stably_sorted(
        (ByColumn { key: a.ports_sort, desc: a.ports_sort_desc }),
        before.monitor.ports@,
        a.ports@,
    )
    &&& a == (Monitoring {
        ports: a.ports,
        ports_sort: a.ports_sort,
        ports_sort_desc: a.ports_sort_desc,
        ..before.monitor
    })
    &&& monitor_only(before, after)
}

/// A click on a column header: it sorts by the column, or flips its direction.
pub fn on_ports_sort_by(state: &mut NeoShell, key: PortSort)
    ensures
        ports_sorted_by(*old(state), key, *final(state)),
{
    ports::resort_ports(
        &mut state.monitor.ports,
        &mut state.monitor.ports_sort,
        &mut state.monitor.ports_sort_desc,
        key,
    );
}

// ---- the messages ---------------------------------------------------------------------------------------

pub open spec fn is_monitor_message(m: Message) -> bool {
    match m {
        Message::FetchMonitorData => true,
        Message::MonitorDataReceived(_, _) => true,
        Message::MonitorError(_, _) => true,
        Message::ResumeMonitoring(_) => true,
        Message::ResumeMonitoringDone(_, _) => true,
        Message::ExecParked(_) => true,
        Message::ShowNetworkDetail(_) => true,
        Message::HideNetworkDetail => true,
        Message::AlertEnabledToggled(_) => true,
        Message::InspectProcess(_) => true,
        Message::ProcessDetailReceived(_) => true,
        Message::HideProcessDetail => true,
        Message::KillProcessRequest(_) => true,
        Message::KillIdentityRead(_, _, _, _) => true,
        Message::KillProcessDone(_) => true,
        Message::FetchPorts => true,
        Message::PortsReceived(_, _) => true,
        Message::PortsSortBy(_) => true,
        _ => false,
    }
}

pub open spec fn panels_only(before: NeoShell, panels: Panels, after: NeoShell) -> bool {
    after == (NeoShell { panels, ..before })
}

#[verifier::opaque]
pub open spec fn monitor_step(before: NeoShell, m: Message, env: Env, after: NeoShell, fx: Seq<Effect>) -> bool {
    match m {
        Message::FetchMonitorData => figures_asked(before, env.now, after, fx),
        Message::MonitorDataReceived(sid, b) => figures_in(before, sid, b, after, fx),
        Message::MonitorError(sid, e) => fetch_failed(before, sid@, e@, env.texts, after) && fx.len() == 0,
        Message::ResumeMonitoring(sid) => resume_asked(before, sid, after, fx),
        Message::ResumeMonitoringDone(sid, r) => resume_landed(before, sid@, r, after, fx),
        Message::ExecParked(sid) => exec_parked(before, sid@, after) && fx.len() == 0,
        Message::ShowNetworkDetail(i) => panels_only(before, Panels { interface: Some(i), ..before.panels }, after)
            && fx.len() == 0,
        Message::HideNetworkDetail => panels_only(before, Panels { interface: None, ..before.panels }, after)
            && fx.len() == 0,
        Message::AlertEnabledToggled(on) => alerts_switched(before, on, after, fx),
        Message::InspectProcess(pid) => after == before && inspection_asked(before, pid, fx),
        Message::ProcessDetailReceived(d) => panels_only(before, Panels { process: Some(d), ..before.panels }, after)
            && fx.len() == 0,
        Message::HideProcessDetail => panels_only(before, Panels { process: None, ..before.panels }, after)
            && fx.len() == 0,
        Message::KillProcessRequest(signal) => after == before && kill_asked(before, signal, fx),
        Message::KillIdentityRead(sid, pid, signal, r) => identity_in(
            before,
            sid,
            pid,
            signal,
            r,
            env.texts,
            after,
        ) && fx.len() == 0,
        Message::KillProcessDone(r) => killed(before, r, after, fx),
        Message::FetchPorts => ports_asked(before, after, fx),
        Message::PortsReceived(sid, r) => ports_in(before, sid, r, env.now, after) && fx.len() == 0,
        Message::PortsSortBy(key) => ports_sorted_by(before, key, after) && fx.len() == 0,
        _ => true,
    }
}

/// The messages of the monitor, the processes and the ports.
pub fn handle_monitor(state: &mut NeoShell, message: Message, env: &Env) -> (fx: Vec<Effect>)
    requires
        is_monitor_message(message),
        old(state).wf(),
    ensures
        monitor_step(*old(state), message, *env, *final(state), fx@),
        final(state).wf(),
{
    proof {
        reveal(monitor_step);
    }
    match message {
        Message::FetchMonitorData => on_fetch_monitor_data(state, env.now),
        Message::MonitorDataReceived(sid, breaches) => on_monitor_data_received(state, sid, breaches),
        Message::MonitorError(sid, e) => {
            on_monitor_error(state, sid, e, &env.texts);
            common::nothing()
        },
        Message::ResumeMonitoring(sid) => on_resume_monitoring(state, sid),
        Message::ResumeMonitoringDone(sid, result) => on_resume_monitoring_done(state, sid, result),
        Message::ExecParked(sid) => {
            on_exec_parked(state, sid);
            common::nothing()
        },
        Message::ShowNetworkDetail(interface) => {
            state.panels.interface = Some(interface);
            common::nothing()
        },
        Message::HideNetworkDetail => {
            state.panels.interface = None;
            common::nothing()
        },
        Message::AlertEnabledToggled(on) => on_alerts_switched(state, on),
        Message::InspectProcess(pid) => on_inspect_process(state, pid),
        Message::ProcessDetailReceived(detail) => {
            state.panels.process = Some(detail);
            common::nothing()
        },
        Message::HideProcessDetail => {
            state.panels.process = None;
            common::nothing()
        },
        Message::KillProcessRequest(signal) => on_kill_process_request(state, signal),
        Message::KillIdentityRead(sid, pid, signal, read) => {
            on_kill_identity_read(state, sid, pid, signal, read, &env.texts);
            common::nothing()
        },
        Message::KillProcessDone(result) => on_kill_process_done(state, result),
        Message::FetchPorts => on_fetch_ports(state),
        Message::PortsReceived(sid, result) => {
            on_ports_received(state, sid, result, env.now);
            common::nothing()
        },
        Message::PortsSortBy(key) => {
            on_ports_sort_by(state, key);
            common::nothing()
        },
        _ => common::nothing(),
    }
}

} // verus!
