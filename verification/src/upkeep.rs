//! What follows by itself: the panels that keep up with a session, the writes that are due and
//! the times that they wait for.

use vstd::prelude::*;
use vstd::string::*;

use crate::auth;
use crate::auth::Waiting;
use crate::common;
use crate::draining;
use crate::grid;
use crate::history;
use crate::history::HistoryLoad;
use crate::history::HistorySync;
use crate::input;
use crate::keeping;
use crate::logs;
use crate::panes;
use crate::pointer;
use crate::remote_files;
use crate::settings;
use crate::state::BottomTab;
use crate::state::Broadcast;
use crate::state::Effect;
use crate::state::Env;
use crate::state::HistoryPanel;
use crate::state::Message;
use crate::state::NeoShell;
use crate::state::Sessions;
use crate::steps;
use crate::tabs;
use crate::tabs::TerminalTab;
use crate::text;
use crate::transferring;
use crate::updating;
use crate::updating::Area;
use crate::watching;
use crate::windows;

verus! {

// ---- what counts as use ----------------------------------------------------------------------------------------

/// Keys, clicks, the wheel, a paste and a drop put the lock off; what comes in by itself does
/// not, and neither does what is fetched.
pub proof fn law_only_the_user_puts_the_lock_off(s: NeoShell, m: Message, now: u128)
    ensures
        m is KeyboardEvent || m is TerminalMouseDown || m is TerminalMouseUp || m is TerminalMouseMove || m
            is TerminalScrollUp || m is TerminalScrollDown || m is PasteClipboard || m is FileDropped
            ==> updating::noted(s, m, now).vault.last_activity == now,
        m is MonitorDataReceived || m is FetchMonitorData || m is PollSshEvents || m is IdleCheck || m is PortsReceived
            || m is FilesReceived || m is FlushHistory || m is UploadFinished ==> updating::noted(
            s,
            m,
            now,
        ).vault.last_activity == s.vault.last_activity,
        m is KeyboardEvent ==> updating::noted(s, m, now).typing.last_keypress == Some(now),
        !(m is KeyboardEvent) ==> updating::noted(s, m, now).typing.last_keypress == s.typing.last_keypress,
        updating::noted(s, m, now).sessions == s.sessions,
{
}

/// Where the keyboard is is asked for anew after a click, and after the keys that move it.
pub proof fn law_the_focus_is_asked_for_after_a_click(before: NeoShell, m: Message, env: Env, after: NeoShell, fx: Seq<Effect>)
    requires
        updating::updated(before, m, env, after, fx),
        m is TerminalMouseDown || m is FocusMayHaveMoved || m is ToggleSidebar || m is ToggleBottomPanel,
        fx.len() == 0,
    ensures
        after.focus.issued != before.focus.issued,
{
    let (mid, first) = choose|mid: NeoShell, first: Seq<Effect>| #[trigger]
        updating::updated_via(before, m, env, mid, first, after, fx);
}

/// No process of the system itself is signalled, nor one whose session is not known.
pub proof fn law_the_first_process_is_not_signalled(before: NeoShell, signal: i32, env: Env, after: NeoShell, fx: Seq<Effect>)
    requires
        updating::updated(before, Message::KillProcessRequest(signal), env, after, fx),
        before.panels.process matches Some(d) && (d.pid <= 1 || d.session_id@.len() == 0),
    ensures
        steps::asks_for(fx, Seq::empty()),
{
    let m = Message::KillProcessRequest(signal);
    let (mid, first) = steps::lemma_handled(before, m, env, after, fx, Area::Monitor);
    reveal(watching::monitor_step);
    assert(first =~= Seq::empty());
}

/// A command that is kept stands last in the history, as it was run, under the title of its tab
/// and the host of its connection, at the time that it was run; what was there stays before it.
pub proof fn law_a_command_is_kept_as_it_was_run(
    before: NeoShell,
    sid: String,
    cmd: Seq<char>,
    env: Env,
    after: HistoryPanel,
    i: int,
    time: u64,
)
    requires
        input::line_kept(before, sid@, cmd, env, after),
        input::may_keep(before, sid@, cmd),
        before.history.records@.len() < 500,
        env.unix == Some(time),
        0 <= i < before.sessions.tabs@.len(),
        before.sessions.tabs@[i].session_id@ == sid@,
        forall|j: int| 0 <= j < i ==> !(#[trigger] before.sessions.tabs@[j]).shows(sid@),
    ensures
        after.records@.len() == before.history.records@.len() + 1,
        after.records@.drop_last() == before.history.records@,
        after.records@.last().cmd@ == cmd,
        after.records@.last().session_title@ == before.sessions.tabs@[i].title@,
        after.records@.last().timestamp == time,
        common::conn_with_id(before.sessions.connections@, before.sessions.tabs@[i].connection_id@) matches Some(k)
            ==> after.records@.last().host@ == before.sessions.connections@[k].host@,
        after.sync.dirty,
{
    let list = before.sessions.tabs@;
    tabs::lemma_is_first_tab(list, |t: TerminalTab| t.shows(sid@), i);
    assert forall|j: int| 0 <= j < i implies (#[trigger] list[j]).session_id@ != sid@ by {
        assert(!list[j].shows(sid@));
    }
    tabs::lemma_is_first_tab(list, |t: TerminalTab| t.session_id@ == sid@, i);
    assert(tabs::tab_showing(list, sid@) == Some(i));
    assert(tabs::tab_with_main(list, sid@) == Some(i));
    let all = before.history.records@.push(after.records@.last());
    assert(after.records@ == all);
    assert(all.drop_last() =~= before.history.records@);
}

/// Nothing is kept of what was not echoed, nor of an empty line, nor while the vault is locked.
pub proof fn law_what_was_not_echoed_is_not_kept(
    before: NeoShell,
    sid: String,
    cmd: Seq<char>,
    env: Env,
    after: HistoryPanel,
    i: int,
)
    requires
        input::line_kept(before, sid@, cmd, env, after),
        0 <= i < before.sessions.tabs@.len(),
        before.sessions.tabs@[i].session_id@ == sid@,
        forall|j: int| 0 <= j < i ==> !(#[trigger] before.sessions.tabs@[j]).shows(sid@),
        !grid::echoed(before.sessions.tabs@[i].terminal, cmd) || cmd.len() == 0 || !(before.vault.screen is Main),
    ensures
        after == before.history,
{
    tabs::lemma_is_first_tab(before.sessions.tabs@, |t: TerminalTab| t.shows(sid@), i);
    assert(tabs::tab_showing(before.sessions.tabs@, sid@) == Some(i));
}

/// The file that the shell sends is the one that its screen names; only where that names none
/// does what came with the transfer count, and last what was typed.
pub proof fn law_the_name_on_screen_counts_first(before: NeoShell, sid: String, output: Seq<char>, i: int)
    requires
        0 <= i < before.sessions.tabs@.len(),
        before.sessions.tabs@[i].session_id@ == sid@,
        forall|j: int| 0 <= j < i ==> (#[trigger] before.sessions.tabs@[j]).session_id@ != sid@,
    ensures
        grid::shown_sz(before.sessions.tabs@[i].terminal) matches Some(name) ==> draining::sent_name(
            before,
            sid@,
            output,
        ) == Some(name),
        grid::shown_sz(before.sessions.tabs@[i].terminal) is None && output.len() == 0
            && before.typing.sz_filename@.contains_key(sid@) ==> draining::sent_name(before, sid@, output) == Some(
            before.typing.sz_filename@[sid@]@,
        ),
{
    tabs::lemma_is_first_tab(before.sessions.tabs@, |t: TerminalTab| t.session_id@ == sid@, i);
    assert(tabs::tab_with_main(before.sessions.tabs@, sid@) == Some(i));
    if output.len() == 0 {
        assert(grid::unescaped(output) =~= Seq::empty());
        assert(crate::split::lines(grid::unescaped(output)) =~= Seq::empty());
        assert(grid::first_sz(crate::split::lines(grid::unescaped(output))) is None);
    }
}

/// A transfer that starts in a terminal is taken up: as a download where the name of what is
/// sent is known, which is noted for it, and as an upload where it is not.
pub proof fn law_a_spotted_transfer_is_taken_up(
    before: NeoShell,
    sid: String,
    output: String,
    list: Vec<(String, String)>,
    env: Env,
    after: NeoShell,
    fx: Seq<Effect>,
)
    requires
        updating::updated(before, Message::TransfersSpotted(list), env, after, fx),
        list@ == seq![(sid, output)],
    ensures
        draining::sent_name(before, sid@, output@) matches Some(name) ==> fx.contains(
            Effect::Then(Message::SzDetected(sid)),
        ) && after.typing.sz_filename@.contains_key(sid@) && after.typing.sz_filename@[sid@]@ == name,
        draining::sent_name(before, sid@, output@) is None ==> fx.contains(Effect::Then(Message::RzDetected(sid))),
        after.sessions == before.sessions,
{
    let m = Message::TransfersSpotted(list);
    let (end, first) = steps::lemma_handled(before, m, env, after, fx, Area::Transfer);
    reveal(transferring::transfer_step);
    let s = updating::noted(before, m, env.now);
    let run = choose|run: Seq<draining::Naming>| #[trigger]
        draining::spotted_via(s, list@, run, end, first);
    assert(draining::named_one(run[0], list@[0], run[1]));
    assert(run.last() == run[1]);
    let tail = draining::first_transfer(run[1].upload, run[1].download);
    assert(tail.len() == 1);
    let k = run[1].fx.len() as int;
    assert(first[k] == tail[0]);
    crate::tab_steps::lemma_asked(fx, first, first[k]);
}

// ---- permissions -----------------------------------------------------------------------------------------------

/// The bit, where the letter stands for one that is set.
pub open spec fn bit(c: char, n: int) -> int {
    if c == '-' {
        0
    } else {
        n
    }
}

/// Permissions as `ls` prints them: a letter or a dash for each of the nine bits.
pub open spec fn are_permissions(p: Seq<char>) -> bool {
    &&& p.len() >= 10
    &&& forall|k: int|
        1 <= k < 10 ==> (#[trigger] p[k]) == '-' || p[k] == (if k % 3 == 1 {
            'r'
        } else if k % 3 == 2 {
            'w'
        } else {
            'x'
        })
}

/// Permissions are read bit by bit, from the owner's down to the others'.
pub proof fn law_permissions_are_read_bit_by_bit(p: Seq<char>)
    requires
        are_permissions(p),
    ensures
        remote_files::listed_mode(p) == Some(
            bit(p[1], 256) + bit(p[2], 128) + bit(p[3], 64) + bit(p[4], 32) + bit(p[5], 16) + bit(p[6], 8) + bit(
                p[7],
                4,
            ) + bit(p[8], 2) + bit(p[9], 1),
        ),
{
    assert(p[1] == '-' || p[1] == 'r');
    assert(p[2] == '-' || p[2] == 'w');
    assert(p[3] == '-' || p[3] == 'x');
    assert(p[4] == '-' || p[4] == 'r');
    assert(p[5] == '-' || p[5] == 'w');
    assert(p[6] == '-' || p[6] == 'x');
    assert(p[7] == '-' || p[7] == 'r');
    assert(p[8] == '-' || p[8] == 'w');
    assert(p[9] == '-' || p[9] == 'x');
}

/// The letters of the special bits add those bits to what the plain letter says: a small one
/// to a bit that is set, a capital to one that is not.
pub proof fn law_special_permissions_add_their_bit(p: Seq<char>)
    requires
        are_permissions(p),
    ensures
        remote_files::listed_mode(p.update(3, 's')) == Some(remote_files::listed_mode(p.update(3, 'x'))->0 + 2048),
        remote_files::listed_mode(p.update(6, 's')) == Some(remote_files::listed_mode(p.update(6, 'x'))->0 + 1024),
        remote_files::listed_mode(p.update(9, 't')) == Some(remote_files::listed_mode(p.update(9, 'x'))->0 + 512),
        remote_files::listed_mode(p.update(3, 'S')) == Some(remote_files::listed_mode(p.update(3, '-'))->0 + 2048),
        remote_files::listed_mode(p.update(6, 'S')) == Some(remote_files::listed_mode(p.update(6, '-'))->0 + 1024),
        remote_files::listed_mode(p.update(9, 'T')) == Some(remote_files::listed_mode(p.update(9, '-'))->0 + 512),
{
    lemma_owner_bit(p);
    lemma_group_bit(p);
    lemma_others_bit(p);
}

/// Three letters of which the last may be any that stands for a bit.
proof fn lemma_triad(r: char, w: char, x: char)
    requires
        r == 'r' || r == '-',
        w == 'w' || w == '-',
        x == 'x' || x == '-',
    ensures
        remote_files::triad(r, w, x) is Some,
        (remote_files::triad(r, w, x)->0).1 == false,
        remote_files::triad(r, w, 's') == Some(((remote_files::triad(r, w, 'x')->0).0, true)),
        remote_files::triad(r, w, 't') == Some(((remote_files::triad(r, w, 'x')->0).0, true)),
        remote_files::triad(r, w, 'S') == Some(((remote_files::triad(r, w, '-')->0).0, true)),
        remote_files::triad(r, w, 'T') == Some(((remote_files::triad(r, w, '-')->0).0, true)),
        remote_files::triad(r, w, 'x') is Some && (remote_files::triad(r, w, 'x')->0).1 == false,
        remote_files::triad(r, w, '-') is Some && (remote_files::triad(r, w, '-')->0).1 == false,
{
}

proof fn lemma_owner_bit(p: Seq<char>)
    requires
        are_permissions(p),
    ensures
        remote_files::listed_mode(p.update(3, 's')) == Some(remote_files::listed_mode(p.update(3, 'x'))->0 + 2048),
        remote_files::listed_mode(p.update(3, 'S')) == Some(remote_files::listed_mode(p.update(3, '-'))->0 + 2048),
{
    assert(p[1] == '-' || p[1] == 'r');
    assert(p[2] == '-' || p[2] == 'w');
    assert(p[3] == '-' || p[3] == 'x');
    lemma_triad(p[1], p[2], p[3]);
    lemma_plain_triad(p, 4);
    lemma_plain_triad(p, 7);
}

proof fn lemma_group_bit(p: Seq<char>)
    requires
        are_permissions(p),
    ensures
        remote_files::listed_mode(p.update(6, 's')) == Some(remote_files::listed_mode(p.update(6, 'x'))->0 + 1024),
        remote_files::listed_mode(p.update(6, 'S')) == Some(remote_files::listed_mode(p.update(6, '-'))->0 + 1024),
{
    assert(p[4] == '-' || p[4] == 'r');
    assert(p[5] == '-' || p[5] == 'w');
    assert(p[6] == '-' || p[6] == 'x');
    lemma_triad(p[4], p[5], p[6]);
    lemma_plain_triad(p, 1);
    lemma_plain_triad(p, 7);
}

proof fn lemma_others_bit(p: Seq<char>)
    requires
        are_permissions(p),
    ensures
        remote_files::listed_mode(p.update(9, 't')) == Some(remote_files::listed_mode(p.update(9, 'x'))->0 + 512),
        remote_files::listed_mode(p.update(9, 'T')) == Some(remote_files::listed_mode(p.update(9, '-'))->0 + 512),
{
    assert(p[7] == '-' || p[7] == 'r');
    assert(p[8] == '-' || p[8] == 'w');
    assert(p[9] == '-' || p[9] == 'x');
    lemma_triad(p[7], p[8], p[9]);
    lemma_plain_triad(p, 1);
    lemma_plain_triad(p, 4);
}

proof fn lemma_plain_triad(p: Seq<char>, k: int)
    requires
        are_permissions(p),
        k == 1 || k == 4 || k == 7,
    ensures
        remote_files::triad(p[k], p[k + 1], p[k + 2]) is Some,
        (remote_files::triad(p[k], p[k + 1], p[k + 2])->0).1 == false,
{
    assert(p[k] == '-' || p[k] == 'r');
    assert(p[k + 1] == '-' || p[k + 1] == 'w');
    assert(p[k + 2] == '-' || p[k + 2] == 'x');
}

// ---- tabs and panes --------------------------------------------------------------------------------------------

/// The tab that is on screen stays on screen when another one goes, wherever that stood.
pub proof fn law_another_tab_going_changes_no_view(s: Sessions, i: int, a: usize)
    requires
        s.active_tab == Some(a),
        a < s.tabs@.len() <= usize::MAX,
        0 <= i < s.tabs@.len(),
        i != a,
    ensures
        panes::still_active(s, i) is Some,
        (panes::still_active(s, i)->0) < s.tabs@.len() - 1,
        s.tabs@.remove(i)[panes::still_active(s, i)->0 as int] == s.tabs@[a as int],
{
}

/// The line between two panes is dragged where there are two, and nothing is where there are
/// not.
pub proof fn law_the_divider_is_dragged_between_two_panes(
    before: NeoShell,
    env: Env,
    after: NeoShell,
    fx: Seq<Effect>,
    i: int,
)
    requires
        updating::updated(before, Message::SplitDividerPressed, env, after, fx),
        before.sessions.active_tab == Some(i as usize),
        0 <= i < before.sessions.tabs@.len() <= usize::MAX,
    ensures
        after.mouse.dragging_divider == before.sessions.tabs@[i].split is Some,
        before.sessions.tabs@[i].split is Some ==> steps::asks_for(fx, seq![Effect::BeginDividerDrag]),
        before.sessions.tabs@[i].split is None ==> steps::asks_for(fx, Seq::empty()),
{
    let (mid, first) = steps::lemma_handled(before, Message::SplitDividerPressed, env, after, fx, Area::Tab);
    reveal(panes::tab_step);
    if first.len() == 0 {
        assert(first =~= Seq::empty());
    }
}

/// A tab that is left with one pane has the keyboard in it.
pub proof fn law_the_pane_that_is_left_has_the_keyboard(tab: TerminalTab, sid: Seq<char>)
    requires
        tab.split is Some,
        tab.shows(sid),
    ensures
        tabs::without_pane(tab, sid) matches Some(t) && t.split is None && !t.focus_split && t.id == tab.id && t.title
            == tab.title && t.focused() == t.session_id@,
{
}

// ---- what keeps up with a session ------------------------------------------------------------------------------

/// The file list follows the shell: when its prompt shows another directory than it did, that
/// directory is listed; while it shows the same, nothing is.
pub proof fn law_the_file_list_follows_the_prompt(
    before: NeoShell,
    sid: String,
    breaches: Vec<String>,
    env: Env,
    after: NeoShell,
    fx: Seq<Effect>,
    i: int,
    dir: Seq<char>,
)
    requires
        updating::updated(before, Message::MonitorDataReceived(sid, breaches), env, after, fx),
        0 <= i < before.sessions.tabs@.len(),
        before.sessions.tabs@[i].session_id@ == sid@,
        forall|j: int| 0 <= j < i ==> !(#[trigger] before.sessions.tabs@[j]).shows(sid@),
        grid::shown_cwd(before.sessions.tabs@[i].terminal) == Some(dir),
        !before.browser.listings@.contains_key(sid@) || before.browser.listings@[sid@].failed is None,
    ensures
        !before.browser.prompt_cwd@.contains_key(sid@) || before.browser.prompt_cwd@[sid@]@ != dir ==> fx.len() > 0
            && (fx[0] matches Effect::Then(Message::ChangeDir(to, path)) && to@ == sid@ && path@ == dir)
            && after.browser.prompt_cwd@.contains_key(sid@) && after.browser.prompt_cwd@[sid@]@ == dir,
        before.browser.prompt_cwd@.contains_key(sid@) && before.browser.prompt_cwd@[sid@]@ == dir ==> steps::asks_for(
            fx,
            Seq::empty(),
        ) && after.browser.current_dir@ == before.browser.current_dir@,
{
    let m = Message::MonitorDataReceived(sid, breaches);
    let (mid, first) = steps::lemma_handled(before, m, env, after, fx, Area::Monitor);
    reveal(watching::monitor_step);
    tabs::lemma_is_first_tab(before.sessions.tabs@, |t: TerminalTab| t.shows(sid@), i);
    assert(tabs::tab_showing(before.sessions.tabs@, sid@) == Some(i));
    if first.len() == 0 {
        assert(first =~= Seq::empty());
    } else if fx != first {
        assert(fx[0] == fx.drop_last()[0]);
    }
}

/// Once a process was signalled its popup goes and the figures are fetched anew, the ports too
/// where they are on screen; where it was not, the popup stays and the error is said.
pub proof fn law_a_signal_is_followed_by_new_figures(
    before: NeoShell,
    result: Result<(), String>,
    env: Env,
    after: NeoShell,
    fx: Seq<Effect>,
)
    requires
        updating::updated(before, Message::KillProcessDone(result), env, after, fx),
    ensures
        result is Ok ==> after.panels.process is None && fx.contains(Effect::Then(Message::FetchMonitorData)) && (
        fx.contains(Effect::Then(Message::FetchPorts)) <==> before.panels.bottom_tab == BottomTab::Ports),
        result matches Err(e) ==> after.panels.process == before.panels.process && after.error.show
            && after.error.message@ == e@ && steps::asks_for(fx, Seq::empty()),
{
    let (mid, first) = steps::lemma_handled(before, Message::KillProcessDone(result), env, after, fx, Area::Monitor);
    reveal(watching::monitor_step);
    if result is Ok {
        assert(first[0] == Effect::Then(Message::FetchMonitorData));
        crate::tab_steps::lemma_asked(fx, first, first[0]);
        if before.panels.bottom_tab == BottomTab::Ports {
            assert(first[1] == Effect::Then(Message::FetchPorts));
            crate::tab_steps::lemma_asked(fx, first, first[1]);
        } else if fx.contains(Effect::Then(Message::FetchPorts)) {
            let k = fx.index_of(Effect::Then(Message::FetchPorts));
            if fx != first {
                if k < first.len() {
                    assert(fx[k] == fx.drop_last()[k]);
                } else {
                    assert(fx[k] == fx.last());
                }
            }
        }
    } else {
        assert(first =~= Seq::empty());
    }
}

/// The ports on screen are fetched again every ten seconds, not before, and at once for
/// another session; never twice at a time, and not while they are off screen.
pub proof fn law_ports_are_fetched_every_ten_seconds(s: NeoShell, sid: Seq<char>, now: u128, at: u128)
    requires
        s.panels.bottom_tab == BottomTab::Ports,
        !s.panels.bottom_collapsed,
        sid.len() > 0,
        s.monitor.ports_fetched_at == Some(at),
        at <= now,
    ensures
        s.monitor.ports_inflight@.contains(sid) ==> !s.is_ports_due(sid, now),
        !s.monitor.ports_inflight@.contains(sid) && s.monitor.ports_session@ == sid ==> (s.is_ports_due(sid, now)
            <==> now - at >= 10_000_000_000),
        !s.monitor.ports_inflight@.contains(sid) && s.monitor.ports_session@ != sid ==> s.is_ports_due(sid, now),
{
}

/// What is typed into one session of several that are typed into together reaches the focused
/// one and every one that is ticked; otherwise the focused one alone.
pub proof fn law_keys_reach_the_ticked_sessions(out: Seq<Seq<char>>, b: Broadcast, focused: Seq<char>, k: Seq<char>)
    requires
        common::key_targets(out, b, focused),
    ensures
        out.contains(focused),
        b.sync_on && b.selected@.contains(k) ==> out.contains(k),
        !b.sync_on ==> out == seq![focused],
        out.contains(k) ==> k == focused || b.sync_on && b.selected@.contains(k),
{
    if b.sync_on && b.selected@ != Set::<Seq<char>>::empty() {
        assert(out.contains(focused) <==> b.selected@.contains(focused) || focused == focused);
        assert(out.contains(k) <==> b.selected@.contains(k) || k == focused);
    } else {
        assert(out[0] == focused);
        if b.sync_on {
            assert(!Set::<Seq<char>>::empty().contains(k));
        }
    }
}

/// Completions show while the command line below has the keyboard and its panel is open, and
/// nowhere else.
pub proof fn law_completions_show_below_an_open_panel(s: NeoShell)
    ensures
        s.panels.bottom_collapsed || s.sessions.active_tab is None || !s.typing.quick_cmd_focused
            || s.panels.bottom_tab != BottomTab::QuickCmd ==> common::suggestions(s).len() == 0,
        !s.panels.bottom_collapsed && s.sessions.active_tab is Some && s.typing.quick_cmd_focused
            && s.panels.bottom_tab == BottomTab::QuickCmd ==> common::suggestions(s) == history::suggested(
            s.typing.quick_cmd@,
            s.history.records@,
            s.snippets.list@,
        ),
{
}

/// A panel that is switched to takes the keyboard from the command line, and a log that was
/// read is shown as it is where it is not too long.
pub proof fn law_what_is_opened_is_shown(before: NeoShell, m: Message, env: Env, after: NeoShell, fx: Seq<Effect>)
    requires
        updating::updated(before, m, env, after, fx),
        m is SwitchBottomTab || m is LogRead,
    ensures
        m is SwitchBottomTab ==> !after.typing.quick_cmd_focused,
        m matches Message::LogRead(path, Ok(content)) ==> (logs::bytes_of(content@) <= 204_800
            ==> after.panels.log_content@ == content@),
{
    let (mid, first) = steps::lemma_handled(before, m, env, after, fx, Area::Window);
    reveal(windows::window_step);
}

/// While an application in the terminal watches the mouse a move to another cell is reported to
/// it, by column and row; within a cell nothing is.
pub proof fn law_moves_are_reported_by_column_and_row(
    before: NeoShell,
    env: Env,
    after: NeoShell,
    fx: Seq<Effect>,
    sid: Seq<char>,
)
    requires
        pointer::motion_reported(before, env, after, fx),
        before.mouse_goes() == Some(sid),
        before.top() is None,
    ensures
        env.pointer.cell matches Some(c) ==> (before.mouse.motion_cell != Some(c) ==> fx.len() == 1 && (
        fx[0] matches Effect::ReportMotion(to, b, x, y) && to@ == sid && b is None && x == c.0 && y == c.1)),
        env.pointer.cell == before.mouse.motion_cell ==> fx.len() == 0,
        after.mouse.motion_cell == env.pointer.cell,
{
}

/// A file dropped on the second pane of a tab goes to the session of that pane, into the
/// directory that the browser shows for it.
pub proof fn law_a_drop_goes_to_the_pane_under_it(s: NeoShell, i: int, second: bool)
    requires
        s.sessions.active_tab == Some(i as usize),
        0 <= i < s.sessions.tabs@.len() <= usize::MAX,
        s.sessions.tabs@[i].session_id@.len() > 0,
        s.sessions.tabs@[i].split is Some,
    ensures
        ({
            let tab = s.sessions.tabs@[i];
            let sid = if second {
                tab.split->0.session_id@
            } else {
                tab.session_id@
            };
            s.browser.listings@.contains_key(sid) && remote_files::is_plain_dir(s.browser.listings@[sid].dir@)
                ==> common::drop_goes(s.sessions, s.browser, second) == Some((sid, s.browser.listings@[sid].dir@))
        }),
{
}

// ---- the writes that are due -----------------------------------------------------------------------------------

/// Nothing of the history is written before it has been read, nor without anything new in it;
/// the first write after that is due at once, and the next ones five seconds apart or more.
pub proof fn law_only_a_loaded_history_is_written(sync: HistorySync, now: u128)
    ensures
        !sync.loaded || !sync.dirty ==> !history::flush_due(sync, now),
        sync.loaded && sync.dirty && sync.flushed_at is None ==> history::flush_due(sync, now),
        sync.flushed_at matches Some(at) ==> (at <= now && now - at < history::HISTORY_FLUSH_INTERVAL
            ==> !history::flush_due(sync, now)),
        sync.flushed_at matches Some(at) ==> (sync.loaded && sync.dirty && at <= now && now - at
            >= history::HISTORY_FLUSH_INTERVAL ==> history::flush_due(sync, now)),
{
}

/// What an older file holds is taken in once it is found, but not over a history that was
/// cleared meanwhile; a load that can be written warns of nothing.
pub proof fn law_an_older_history_is_taken_in(load: HistoryLoad, cleared: bool)
    ensures
        cleared ==> !history::landed(load, cleared).import_legacy,
        load.legacy_found && !cleared ==> history::landed(load, cleared).import_legacy,
        load.writable <==> history::landed(load, cleared).warning is None,
{
}

/// A write of the history that failed is owed again, and one that went through is not: it
/// leaves what is owed as it is. Either way it is not out any more.
pub proof fn law_a_failed_write_is_owed_again(
    before: NeoShell,
    m: Message,
    env: Env,
    after: NeoShell,
    fx: Seq<Effect>,
)
    requires
        updating::updated(before, m, env, after, fx),
        m is HistoryWritten || m is GroupsWritten,
    ensures
        steps::asks_for(fx, Seq::empty()),
        m == Message::HistoryWritten(Ok(())) ==> after.history.sync == before.history.sync,
        m matches Message::HistoryWritten(Err(e)) ==> (before.history.sync.loaded ==> after.history.sync.dirty),
        m is HistoryWritten && before.history.ledger.pending > 0 ==> after.history.ledger.pending
            == before.history.ledger.pending - 1,
        m is HistoryWritten ==> after.history.records == before.history.records,
        m == Message::GroupsWritten(Ok(())) ==> after.groups.dirty == before.groups.dirty,
        m matches Message::GroupsWritten(Err(e)) ==> (before.vault.screen is Main ==> after.groups.dirty),
        m is GroupsWritten ==> after.groups.collapsed == before.groups.collapsed,
{
    let (mid, first) = steps::lemma_handled(before, m, env, after, fx, Area::Kept);
    reveal(keeping::kept_step);
    assert(first =~= Seq::empty());
}

/// Of the saves that changes of the folded groups scheduled only the last one writes: an
/// earlier one, or one with nothing left to save, does nothing.
pub proof fn law_only_the_last_save_writes(before: NeoShell, gen: u64, env: Env, after: NeoShell, fx: Seq<Effect>)
    requires
        updating::updated(before, Message::SaveCollapsedGroups(gen), env, after, fx),
    ensures
        gen != before.groups.generation || !before.groups.dirty ==> after.groups == before.groups && steps::asks_for(
            fx,
            Seq::empty(),
        ),
        after.groups.collapsed == before.groups.collapsed,
{
    let m = Message::SaveCollapsedGroups(gen);
    let (mid, first) = steps::lemma_handled(before, m, env, after, fx, Area::Kept);
    reveal(keeping::kept_step);
    if first.len() == 0 {
        assert(first =~= Seq::empty());
    }
}

// ---- times -----------------------------------------------------------------------------------------------------

/// A question of a server is answered within a hundred and seventy seconds or not at all.
pub proof fn law_a_question_waits_for_its_time(w: Waiting, now: u128)
    requires
        w.at <= now,
    ensures
        auth::expired(w, now) <==> now - w.at >= 170_000_000_000,
{
}

/// For a second and a half behind the last key the user counts as typing, and a modal takes no
/// answer in the first three tenths of a second that it is on screen.
pub proof fn law_typing_is_not_cut_into(at: u128, now: u128)
    requires
        at <= now,
    ensures
        auth::typing(Some(at), now) <==> now - at < 1_500_000_000,
        !auth::typing(None, now),
        auth::armed(Some(at), now) <==> now - at >= 300_000_000,
        !auth::armed(None, now),
{
}

/// A modal that stays on screen keeps the time that it came there; one that goes loses it.
pub proof fn law_a_modal_keeps_the_time_it_came(at: u128, now: u128)
    ensures
        auth::shown_since(Some(at), true, now) == Some(at),
        auth::shown_since(None, true, now) == Some(now),
        auth::shown_since(Some(at), false, now) is None,
{
}

/// Of two choices that are as near the lower one is taken.
pub proof fn law_the_lower_of_two_is_taken(mins: int, a: int, b: int)
    requires
        settings::nearest_step(mins, a),
        settings::is_step(b),
    ensures
        b - mins == mins - a ==> a <= b,
        mins - b == a - mins ==> a <= b,
        a <= mins && b <= mins ==> b <= a,
        a >= mins && b >= mins ==> a <= b,
{
}

/// A line asks for a secret where it says so in either language, and only there.
pub proof fn law_secrets_are_asked_for_in_words(a: Seq<char>, b: Seq<char>, line: Seq<char>)
    ensures
        grid::asks_for_secret(a + "password"@ + b),
        grid::asks_for_secret(a + "passphrase"@ + b),
        grid::asks_for_secret(a + "\u{5bc6}\u{7801}"@ + b),
        grid::asks_for_secret(a + "\u{53e3}\u{4ee4}"@ + b),
        (forall|i: int| 0 <= i < line.len() ==> (#[trigger] line[i]) != 'p') && (forall|i: int|
            0 <= i < line.len() ==> (#[trigger] line[i]) != '\u{7801}' && line[i] != '\u{4ee4}')
            ==> !grid::asks_for_secret(line),
{
    reveal_strlit("password");
    reveal_strlit("passphrase");
    reveal_strlit("\u{5bc6}\u{7801}");
    reveal_strlit("\u{53e3}\u{4ee4}");
    lemma_holds(a, "password"@, b);
    lemma_holds(a, "passphrase"@, b);
    lemma_holds(a, "\u{5bc6}\u{7801}"@, b);
    lemma_holds(a, "\u{53e3}\u{4ee4}"@, b);
    if forall|i: int| 0 <= i < line.len() ==> (#[trigger] line[i]) != 'p' {
        lemma_lacks(line, "password"@, 0);
        lemma_lacks(line, "passphrase"@, 0);
    }
    if forall|i: int| 0 <= i < line.len() ==> (#[trigger] line[i]) != '\u{7801}' && line[i] != '\u{4ee4}' {
        lemma_lacks(line, "\u{5bc6}\u{7801}"@, 1);
        lemma_lacks(line, "\u{53e3}\u{4ee4}"@, 1);
    }
}

proof fn lemma_holds(a: Seq<char>, pat: Seq<char>, b: Seq<char>)
    ensures
        text::contains(a + pat + b, pat),
{
    let s = a + pat + b;
    let n = a.len() as int;
    assert(s.subrange(n, n + pat.len()) =~= pat);
    assert(text::occurs_at(s, pat, n));
}

proof fn lemma_lacks(line: Seq<char>, pat: Seq<char>, k: int)
    requires
        0 <= k < pat.len(),
        forall|i: int| 0 <= i < line.len() ==> (#[trigger] line[i]) != pat[k],
    ensures
        !text::contains(line, pat),
{
    if text::contains(line, pat) {
        let i = choose|i: int| text::occurs_at(line, pat, i);
        assert(line.subrange(i, i + pat.len())[k] == line[i + k]);
    }
}

} // verus!
