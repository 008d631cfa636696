//! What one message does to the monitoring, the ports, the processes and the sign-ins.

use vstd::prelude::*;
use vstd::string::*;

use crate::auth;
use crate::common;
use crate::order::Rank;
use crate::ports::ByColumn;
use crate::ports::PortInfo;
use crate::ports::PortSort;
use crate::signing;
use crate::state::ConfirmAction;
use crate::state::Effect;
use crate::state::Env;
use crate::state::Message;
use crate::state::NeoShell;
use crate::state::Panels;
use crate::steps;
use crate::tab_steps;
use crate::updating;
use crate::updating::Area;
use crate::watching;

verus! {

// ---- figures --------------------------------------------------------------------------------------------

/// The figures of the focused session are asked for, once at a time.
pub proof fn law_figures_are_asked_for_once(before: NeoShell, env: Env, after: NeoShell, fx: Seq<Effect>, sid: Seq<char>)
    requires
        updating::updated(before, Message::FetchMonitorData, env, after, fx),
        common::focused_sid(before.sessions) == Some(sid),
    ensures
        after.monitor.inflight@.contains(sid),
        !before.monitor.inflight@.contains(sid) ==> fx.len() > 0 && (fx[0] matches Effect::FetchMonitor(to) && to@ == sid),
        before.monitor.inflight@.contains(sid) ==> forall|i: int|
            0 <= i < fx.len() ==> !((#[trigger] fx[i]) is FetchMonitor),
{
    let (mid, first) = steps::lemma_handled(before, Message::FetchMonitorData, env, after, fx, Area::Monitor);
    reveal(watching::monitor_step);
    assert(common::focused_any(before.sessions) == Some(sid));
    assert forall|i: int| 0 <= i < fx.len() implies (#[trigger] fx[i]) == (if i < first.len() {
        first[i]
    } else {
        fx.last()
    }) by {
        if fx != first && i < first.len() {
            assert(fx[i] == fx.drop_last()[i]);
        }
    }
}

/// Figures that come in are those of their session: what is over its threshold there is
/// what came with them, while alerts are on; the other sessions keep theirs.
pub proof fn law_alerts_are_those_of_the_last_figures(
    before: NeoShell,
    sid: String,
    breaches: Vec<String>,
    env: Env,
    after: NeoShell,
    fx: Seq<Effect>,
)
    requires
        updating::updated(before, Message::MonitorDataReceived(sid, breaches), env, after, fx),
    ensures
        !after.monitor.inflight@.contains(sid@),
        !after.monitor.parked@.contains_key(sid@),
        before.monitor.alerts_enabled && breaches@.len() > 0 ==> after.monitor.alerts@.contains_key(sid@)
            && after.monitor.alerts@[sid@] == breaches,
        before.monitor.alerts_enabled && breaches@.len() == 0 ==> !after.monitor.alerts@.contains_key(sid@),
        !before.monitor.alerts_enabled ==> after.monitor.alerts@ == before.monitor.alerts@,
        forall|k: Seq<char>|
            k != sid@ ==> after.monitor.alerts@.contains_key(k) == #[trigger] before.monitor.alerts@.contains_key(k)
                && after.monitor.alerts@[k] == before.monitor.alerts@[k],
{
    let m = Message::MonitorDataReceived(sid, breaches);
    let (mid, first) = steps::lemma_handled(before, m, env, after, fx, Area::Monitor);
    reveal(watching::monitor_step);
}

/// Alerts that are switched off are gone; switched on they stay as they are.
pub proof fn law_alerts_switched_off_are_gone(before: NeoShell, on: bool, env: Env, after: NeoShell, fx: Seq<Effect>)
    requires
        updating::updated(before, Message::AlertEnabledToggled(on), env, after, fx),
    ensures
        after.monitor.alerts_enabled == on,
        !on ==> after.monitor.alerts@ == Map::<Seq<char>, Vec<String>>::empty(),
        on ==> after.monitor.alerts@ == before.monitor.alerts@,
        steps::asks_for(fx, seq![Effect::SaveAlerts]),
{
    let (mid, first) = steps::lemma_handled(before, Message::AlertEnabledToggled(on), env, after, fx, Area::Monitor);
    reveal(watching::monitor_step);
}

/// A parked monitoring is re-opened when that is asked for, once at a time; that it worked
/// takes the session off the parked ones and fetches its figures, that it failed leaves it
/// there with the reason.
pub proof fn law_a_parked_monitoring_is_resumed(before: NeoShell, m: Message, env: Env, after: NeoShell, fx: Seq<Effect>)
    requires
        updating::updated(before, m, env, after, fx),
    ensures
        m matches Message::ResumeMonitoring(sid) ==> (before.monitor.parked@.contains_key(sid@)
            && !before.monitor.parked@[sid@].resuming ==> steps::asks_for(fx, seq![Effect::ResumeExec(sid)])
            && after.monitor.parked@[sid@].resuming),
        m matches Message::ResumeMonitoring(sid) ==> (!before.monitor.parked@.contains_key(sid@)
            || before.monitor.parked@[sid@].resuming ==> steps::asks_for(fx, Seq::empty())),
        m matches Message::ResumeMonitoringDone(sid, Ok(_)) ==> !after.monitor.parked@.contains_key(sid@),
        m matches Message::ResumeMonitoringDone(sid, Ok(_)) ==> (before.monitor.parked@.contains_key(sid@)
            ==> steps::asks_for(fx, seq![Effect::Then(Message::FetchMonitorData)])),
        m matches Message::ResumeMonitoringDone(sid, Err(e)) ==> (before.monitor.parked@.contains_key(sid@)
            ==> after.monitor.parked@.contains_key(sid@) && !after.monitor.parked@[sid@].resuming
            && after.monitor.parked@[sid@].error == Some(e)),
        m matches Message::ExecParked(sid) ==> after.monitor.parked@.contains_key(sid@),
{
    if m is ResumeMonitoring || m is ResumeMonitoringDone || m is ExecParked {
        let (mid, first) = steps::lemma_handled(before, m, env, after, fx, Area::Monitor);
        reveal(watching::monitor_step);
        if first.len() == 0 {
            assert(first =~= Seq::empty());
        }
    }
}

// ---- processes ---------------------------------------------------------------------------------------------

/// The process on the popup is the one that was read; the interface on the other popup the
/// one that was clicked.
pub proof fn law_popups_show_what_was_asked_for(before: NeoShell, m: Message, env: Env, after: NeoShell, fx: Seq<Effect>)
    requires
        updating::updated(before, m, env, after, fx),
    ensures
        m matches Message::ProcessDetailReceived(d) ==> after.panels == (Panels { process: Some(d), ..before.panels }),
        m is HideProcessDetail ==> after.panels == (Panels { process: None, ..before.panels }),
        m matches Message::ShowNetworkDetail(i) ==> after.panels == (Panels { interface: Some(i), ..before.panels }),
        m is HideNetworkDetail ==> after.panels == (Panels { interface: None, ..before.panels }),
        m matches Message::InspectProcess(pid) ==> (common::focused_any(before.sessions) matches Some(sid) ==> fx.len()
            > 0 && (fx[0] matches Effect::Inspect(to, p, cmd) && to@ == sid && p == pid)),
{
    if m is ProcessDetailReceived || m is HideProcessDetail || m is ShowNetworkDetail || m is HideNetworkDetail || m
        is InspectProcess {
        let (mid, first) = steps::lemma_handled(before, m, env, after, fx, Area::Monitor);
        reveal(watching::monitor_step);
        if first.len() > 0 && fx != first {
            assert(fx[0] == fx.drop_last()[0]);
        }
    }
}

/// A signal is asked for of the process on the popup and of no other, never of the first
/// process of a host: its identity is read, and what was read is what the confirmation
/// holds, with the same process, session and signal.
pub proof fn law_a_signal_is_for_the_process_shown(before: NeoShell, m: Message, env: Env, after: NeoShell, fx: Seq<Effect>)
    requires
        updating::updated(before, m, env, after, fx),
    ensures
        m matches Message::KillProcessRequest(signal) ==> (before.panels.process matches Some(d) ==> (d.pid > 1
            && d.session_id@.len() > 0 ==> steps::asks_for(
            fx,
            seq![Effect::ReadIdentity(d.session_id, d.pid, signal)],
        )) && (d.pid <= 1 || d.session_id@.len() == 0 ==> steps::asks_for(fx, Seq::empty()))),
        m matches Message::KillProcessRequest(_) ==> (before.panels.process is None ==> steps::asks_for(fx, Seq::empty())),
        m matches Message::KillIdentityRead(sid, pid, signal, Ok(Some(who))) ==> (before.panels.process matches Some(d)
            ==> (d.pid == pid && d.session_id@ == sid@ ==> (after.browser.confirm matches Some(ConfirmAction::Kill {
            session_id,
            pid: p,
            command,
            signal: s,
            identity,
        }) && session_id == sid && p == pid && s == signal && identity == who)) && (d.pid != pid || d.session_id@ != sid@
            ==> after.browser.confirm == before.browser.confirm)),
        m matches Message::KillIdentityRead(sid, pid, signal, Ok(None)) ==> after.browser.confirm
            == before.browser.confirm,
        m is KillIdentityRead ==> steps::asks_for(fx, Seq::empty()),
        m matches Message::KillProcessDone(Ok(_)) ==> after.panels.process is None && fx.contains(
            Effect::Then(Message::FetchMonitorData),
        ),
        m matches Message::KillProcessDone(Err(e)) ==> after.panels == before.panels && after.error.show
            && after.error.message@ == e@,
{
    if m is KillProcessRequest || m is KillIdentityRead || m is KillProcessDone {
        let (mid, first) = steps::lemma_handled(before, m, env, after, fx, Area::Monitor);
        reveal(watching::monitor_step);
        if first.len() == 0 {
            assert(first =~= Seq::empty());
        }
        if m is KillProcessDone && m->KillProcessDone_0 is Ok {
            assert(first[0] == Effect::Then(Message::FetchMonitorData));
            tab_steps::lemma_asked(fx, first, Effect::Then(Message::FetchMonitorData));
        }
    }
}

// ---- ports ------------------------------------------------------------------------------------------------

/// The rows stand by the port, up or down.
pub open spec fn by_port(rows: Seq<PortInfo>, desc: bool) -> bool {
    forall|i: int, j: int|
        0 <= i < j < rows.len() ==> (if desc {
            #[trigger] rows[i].port >= #[trigger] rows[j].port
        } else {
            rows[i].port <= rows[j].port
        })
}

/// A click on the column that the table is sorted by turns it round; a click on another
/// sorts by that one, upwards. The rows are the same.
pub proof fn law_a_click_sorts_by_its_column(before: NeoShell, key: PortSort, env: Env, after: NeoShell, fx: Seq<Effect>)
    requires
        updating::updated(before, Message::PortsSortBy(key), env, after, fx),
    ensures
        after.monitor.ports_sort == key,
        before.monitor.ports_sort == key ==> after.monitor.ports_sort_desc != before.monitor.ports_sort_desc,
        before.monitor.ports_sort != key ==> !after.monitor.ports_sort_desc,
        key is Port ==> by_port(after.monitor.ports@, after.monitor.ports_sort_desc),
        after.monitor.ports@.to_multiset() == before.monitor.ports@.to_multiset(),
{
    let (mid, first) = steps::lemma_handled(before, Message::PortsSortBy(key), env, after, fx, Area::Monitor);
    reveal(watching::monitor_step);
    let rank = ByColumn { key: after.monitor.ports_sort, desc: after.monitor.ports_sort_desc };
    let rows = after.monitor.ports@;
    assert forall|i: int, j: int| 0 <= i < j < rows.len() && key is Port implies (if after.monitor.ports_sort_desc {
        #[trigger] rows[i].port >= #[trigger] rows[j].port
    } else {
        rows[i].port <= rows[j].port
    }) by {
        assert(rank.le(rows[i], rows[j]));
    }
}

/// The ports that come in for the focused session are shown, as many as came and in the
/// order of the table; those of another session are not.
pub proof fn law_ports_are_those_of_the_focused_session(
    before: NeoShell,
    sid: String,
    list: Vec<PortInfo>,
    env: Env,
    after: NeoShell,
    fx: Seq<Effect>,
)
    requires
        updating::updated(before, Message::PortsReceived(sid, Ok(list)), env, after, fx),
    ensures
        common::focused_any(before.sessions) == Some(sid@) ==> after.monitor.ports@.to_multiset() == list@.to_multiset()
            && after.monitor.ports_session == sid && after.monitor.ports_error is None && (before.monitor.ports_sort is Port
            ==> by_port(after.monitor.ports@, before.monitor.ports_sort_desc)),
        common::focused_any(before.sessions) != Some(sid@) ==> after.monitor.ports == before.monitor.ports
            && after.monitor.ports_session == before.monitor.ports_session,
        !after.monitor.ports_inflight@.contains(sid@),
{
    let m = Message::PortsReceived(sid, Ok(list));
    let (mid, first) = steps::lemma_handled(before, m, env, after, fx, Area::Monitor);
    reveal(watching::monitor_step);
    let rank = ByColumn { key: before.monitor.ports_sort, desc: before.monitor.ports_sort_desc };
    let rows = after.monitor.ports@;
    if common::focused_any(before.sessions) == Some(sid@) {
        assert forall|i: int, j: int| 0 <= i < j < rows.len() && before.monitor.ports_sort is Port implies (if before.monitor.ports_sort_desc {
            #[trigger] rows[i].port >= #[trigger] rows[j].port
        } else {
            rows[i].port <= rows[j].port
        }) by {
            assert(rank.le(rows[i], rows[j]));
        }
    }
}

/// The ports of the focused session are asked for, once at a time.
pub proof fn law_ports_are_asked_for_once(before: NeoShell, env: Env, after: NeoShell, fx: Seq<Effect>, sid: Seq<char>)
    requires
        updating::updated(before, Message::FetchPorts, env, after, fx),
        common::focused_sid(before.sessions) == Some(sid),
    ensures
        after.monitor.ports_inflight@.contains(sid),
        !before.monitor.ports_inflight@.contains(sid) ==> fx.len() > 0 && (fx[0] matches Effect::FetchPorts(to) && to@
            == sid),
        before.monitor.ports_inflight@.contains(sid) ==> steps::asks_for(fx, Seq::empty()),
{
    let (mid, first) = steps::lemma_handled(before, Message::FetchPorts, env, after, fx, Area::Monitor);
    reveal(watching::monitor_step);
    if first.len() == 0 {
        assert(first =~= Seq::empty());
    } else if fx != first {
        assert(fx[0] == fx.drop_last()[0]);
    }
}

// ---- sign-ins -----------------------------------------------------------------------------------------------

/// The modal has been on screen for long enough to take keys.
pub open spec fn takes_keys(s: NeoShell, now: u128) -> bool {
    s.auth.shown_at matches Some(at) && at <= now && auth::armed(Some(at), now)
}

/// The answers go to the challenge in front, under its ticket and one for each of its
/// prompts, as they were typed; then the next challenge is in front.
pub proof fn law_answers_go_to_the_challenge_in_front(before: NeoShell, env: Env, after: NeoShell, fx: Seq<Effect>)
    requires
        updating::updated(before, Message::AuthSubmit, env, after, fx),
        before.auth.queue@.len() > 0,
    ensures
        after.auth.queue@ == before.auth.queue@.drop_first(),
        fx.len() > 0,
        fx[0] matches Effect::Answer(ticket, list) && ticket == before.auth.queue@[0].challenge.ticket && list@.len()
            == before.auth.queue@[0].challenge.prompts@.len() && forall|i: int|
            0 <= i < list@.len() && i < before.auth.answers@.len() ==> (#[trigger] list@[i])@
                == before.auth.answers@[i]@,
{
    let m = Message::AuthSubmit;
    let (end, first) = steps::lemma_handled(before, m, env, after, fx, Area::Auth);
    reveal(signing::auth_step);
    let s = updating::noted(before, m, env.now);
    let (mid, last) = choose|mid: NeoShell, last: Seq<Effect>| #[trigger]
        signing::answered_via(s, env.now, mid, last, end, first);
    if fx != first {
        assert(fx[0] == fx.drop_last()[0]);
    }
}

/// Declining ends the challenge in front, and no other.
pub proof fn law_declining_ends_the_challenge_in_front(before: NeoShell, env: Env, after: NeoShell, fx: Seq<Effect>)
    requires
        updating::updated(before, Message::AuthCancel, env, after, fx),
        before.auth.queue@.len() > 0,
    ensures
        after.auth.queue@ == before.auth.queue@.drop_first(),
        fx.len() > 0,
        fx[0] == Effect::Cancel(before.auth.queue@[0].challenge.ticket),
        forall|i: int| 1 <= i < fx.len() ==> !((#[trigger] fx[i]) is Cancel) && !(fx[i] is Answer),
{
    let m = Message::AuthCancel;
    let (end, first) = steps::lemma_handled(before, m, env, after, fx, Area::Auth);
    reveal(signing::auth_step);
    let s = updating::noted(before, m, env.now);
    let (mid, last) = choose|mid: NeoShell, last: Seq<Effect>| #[trigger]
        signing::declined_via(s, env.now, mid, last, end, first);
    assert forall|i: int| 1 <= i < fx.len() implies !((#[trigger] fx[i]) is Cancel) && !(fx[i] is Answer) by {
        if i < first.len() {
            if fx != first {
                assert(fx[i] == fx.drop_last()[i]);
            }
            assert(first[i] == last[i - 1]);
        } else {
            assert(fx[i] == fx.last());
        }
    }
    if fx != first {
        assert(fx[0] == fx.drop_last()[0]);
    }
}

/// An answer that is typed stands in the field that it is typed in, once the modal takes
/// keys; before that neither a key nor Enter does anything.
pub proof fn law_an_answer_stands_in_its_field(
    before: NeoShell,
    m: Message,
    env: Env,
    after: NeoShell,
    fx: Seq<Effect>,
)
    requires
        updating::updated(before, m, env, after, fx),
    ensures
        m matches Message::AuthAnswerChanged(i, v) ==> (takes_keys(before, env.now) && i < before.auth.answers@.len()
            ==> after.auth.answers@[i as int] == v && after.auth.answers@.len() == before.auth.answers@.len()
            && forall|k: int|
            0 <= k < before.auth.answers@.len() && k != i ==> #[trigger] after.auth.answers@[k]
                == before.auth.answers@[k]),
        m is AuthAnswerChanged && before.auth.shown_at is None ==> after.auth.answers == before.auth.answers,
        m is AuthEnter && before.auth.shown_at is None ==> after.auth == before.auth && steps::asks_for(fx, Seq::empty()),
{
    if m is AuthAnswerChanged || m is AuthEnter {
        let (mid, first) = steps::lemma_handled(before, m, env, after, fx, Area::Auth);
        reveal(signing::auth_step);
        if first.len() == 0 {
            assert(first =~= Seq::empty());
        }
    }
}

} // verus!
