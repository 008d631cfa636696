//! Events, tabs and panes, sign-ins, transfers, ports, processes.

use neoshell::auth::auth_armed;
use neoshell::auth::challenge_may_take_focus;
use neoshell::auth::note_auth_shown;
use neoshell::auth::scrub_answers;
use neoshell::auth::take_challenges;
use neoshell::auth::typing_recently;
use neoshell::auth::AuthChallenge;
use neoshell::auth::Waiting;
use neoshell::auth::AUTH_ARM_DELAY;
use neoshell::auth::AUTH_TYPING_WINDOW;
use neoshell::browsing::listing_failed;
use neoshell::catalog::Catalog;
use neoshell::events::next_ssh_event;
use neoshell::events::poll_interval;
use neoshell::events::ssh_event_bytes;
use neoshell::events::take_within;
use neoshell::events::wake_drain_at;
use neoshell::events::DrainBudget;
use neoshell::events::SshEvent;
use neoshell::events::LIVE_POLL;
use neoshell::events::SAFETY_POLL;
use neoshell::events::SSH_DRAIN_BYTES;
use neoshell::events::SSH_DRAIN_EVENTS;
use neoshell::events::WAKE_MIN_GAP;
use neoshell::grid::extract_selection;
use neoshell::grid::extract_sz_filename;
use neoshell::grid::extract_sz_from_grid;
use neoshell::grid::strip_escapes;
use neoshell::grid::TerminalGrid;
use neoshell::monitors::exec_parked;
use neoshell::monitors::net_growth;
use neoshell::monitors::InFlight;
use neoshell::monitors::NetCounters;
use neoshell::monitors::NetGrowth;
use neoshell::monitors::ParkedMonitors;
use neoshell::names::NameMap;
use neoshell::pointer::grid_cell;
use neoshell::processes::parse_process_detail;
use neoshell::pointer::secondary_click;
use neoshell::pointer::SecondaryClick;
use neoshell::ports::resort_ports;
use neoshell::ports::sort_ports;
use neoshell::ports::PortInfo;
use neoshell::ports::PortSort;
use neoshell::processes::kill_command_label;
use neoshell::processes::parse_proc_identity;
use neoshell::processes::parse_ps_identity;
use neoshell::processes::same_process;
use neoshell::remote_files::bar_busy;
use neoshell::remote_files::claim_bar;
use neoshell::remote_files::cwd_sync_due;
use neoshell::remote_files::follow_prompt_cwd;
use neoshell::remote_files::is_skipped_report;
use neoshell::remote_files::note_listing_failed;
use neoshell::remote_files::op_end;
use neoshell::remote_files::release_bar;
use neoshell::remote_files::remote_parent;
use neoshell::remote_files::EntryKind;
use neoshell::remote_files::FileEntry;
use neoshell::remote_files::Listing;
use neoshell::remote_files::OpEnd;
use neoshell::remote_files::TransferProgress;
use neoshell::remote_files::TRANSFER_CANCELLED;
use neoshell::settings::MILLISECOND;
use neoshell::settings::SECOND;
use neoshell::state::Message;
use neoshell::state::MouseButton;
use neoshell::tabs::challenge_orphaned;
use neoshell::tabs::remove_split_pane;
use neoshell::tabs::session_connecting;
use neoshell::tabs::tab_auth_sessions;
use neoshell::tabs::SplitPane;
use neoshell::tabs::TerminalTab;

fn texts(pairs: &[(&str, &str)]) -> Catalog {
    Catalog { entries: pairs.iter().map(|(k, v)| (k.to_string(), v.to_string())).collect() }
}

fn test_tab(session_id: &str, pending: &str) -> TerminalTab {
    TerminalTab {
        id: "t".into(),
        session_id: session_id.into(),
        connection_id: "c".into(),
        title: String::new(),
        terminal: TerminalGrid::blank(80, 24),
        custom_title: None,
        split: None,
        focus_split: false,
        pending_session_id: pending.into(),
        split_pending: None,
    }
}

fn test_split(session_id: &str) -> SplitPane {
    SplitPane { session_id: session_id.into(), terminal: TerminalGrid::blank(80, 24), vertical: true }
}

fn row(name: &str) -> FileEntry {
    FileEntry {
        name: name.into(),
        is_dir: false,
        kind: EntryKind::File,
        size: String::new(),
        permissions: String::new(),
        modified: String::new(),
    }
}

fn text_of<'a>(m: &'a NameMap<String>, key: &str) -> Option<&'a str> {
    m.get(key).map(|s| s.as_str())
}

#[test]
fn a_parked_session_gets_one_reconnect_per_press() {
    let texts = texts(&[("exec.err.needs_reconnect", "Monitoring is parked")]);
    let parked = texts.t("exec.err.needs_reconnect");
    assert!(exec_parked(&parked, &texts));
    assert!(!exec_parked("Failed to open exec channel: timed out", &texts));
    let mut m = ParkedMonitors::new();
    assert!(m.park("s1"), "the first failure parks it");
    assert!(!m.park("s1"), "the next ticks add nothing");
    assert!(m.begin_resume("s1"), "the press sends the reconnect");
    assert!(!m.begin_resume("s1"), "a second press while it is out sends nothing");
    assert!(!m.park("s1"));
    assert_eq!(
        m.get("s1").map(|p| p.resuming),
        Some(true),
        "a tick failing meanwhile does not re-arm the button"
    );
    // Dismissed, or a wrong code: still parked, the button back, the reason on
    // the panel.
    assert!(!m.finish_resume("s1", Err("no answer".into())));
    let left = m.get("s1").expect("still parked");
    assert!(!left.resuming);
    assert_eq!(left.error.as_deref(), Some("no answer"));
    assert!(m.begin_resume("s1"));
    assert_eq!(m.get("s1").and_then(|p| p.error.clone()), None);
    assert!(m.finish_resume("s1", Ok(())), "re-opened");
    assert!(m.get("s1").is_none());
    assert!(!m.begin_resume("s1"), "nothing parked, nothing sent");
    // Data from a fetch, or the session going, clears it as well.
    m.park("s2");
    m.unpark("s2");
    assert!(m.get("s2").is_none());
}

#[test]
fn a_skipped_items_report_is_a_completion_to_mention_not_a_failure() {
    let texts = texts(&[
        ("sftp.err.skipped_names", "{count} entries were left out"),
        ("sftp.err.delete", "Failed to delete '{path}': {err}"),
    ]);
    let skipped = |n: &str| texts.tf("sftp.err.skipped_names", "count", n);
    let note = skipped("3");
    assert!(matches!(op_end(Err(note.clone()), &texts), OpEnd::Skipped(s) if s == note));
    assert!(matches!(op_end(Ok(()), &texts), OpEnd::Quiet));
    assert!(matches!(op_end(Err(TRANSFER_CANCELLED.to_string()), &texts), OpEnd::Quiet));
    let failed = "Failed to delete '/srv/a': permission denied".to_string();
    assert!(matches!(op_end(Err(failed.clone()), &texts), OpEnd::Failed(s) if s == failed));
    assert!(is_skipped_report(&skipped("12"), &texts));
    for other in [
        texts.t("sftp.err.skipped_names"),
        skipped("x"),
        format!("Failed to list '/srv': {}", skipped("2")),
    ] {
        assert!(!is_skipped_report(&other, &texts), "{other}");
    }
}

#[test]
fn ports_sort_by_column_and_flip_direction() {
    let port = |proto: &str, addr: &str, port: u16, pid: Option<u32>, process: &str| PortInfo {
        proto: proto.into(),
        local_addr: addr.into(),
        port,
        pid,
        process: process.into(),
    };
    let mut ports = vec![
        port("tcp", "0.0.0.0", 443, Some(900), "nginx"),
        port("udp", "127.0.0.1", 53, None, ""),
        port("tcp", "127.0.0.1", 22, Some(12), "sshd"),
    ];
    sort_ports(&mut ports, PortSort::Port, false);
    assert_eq!(ports.iter().map(|p| p.port).collect::<Vec<_>>(), vec![22, 53, 443]);
    sort_ports(&mut ports, PortSort::Port, true);
    assert_eq!(ports.iter().map(|p| p.port).collect::<Vec<_>>(), vec![443, 53, 22]);
    // No pid (an unprivileged view) sorts before any known one.
    sort_ports(&mut ports, PortSort::Pid, false);
    assert_eq!(ports.iter().map(|p| p.pid).collect::<Vec<_>>(), vec![None, Some(12), Some(900)]);
    sort_ports(&mut ports, PortSort::Process, false);
    assert_eq!(ports.iter().map(|p| p.process.as_str()).collect::<Vec<_>>(), vec!["", "nginx", "sshd"]);
}

#[test]
fn a_header_click_resorts_the_ports_table_in_place() {
    let port = |port: u16, process: &str| PortInfo {
        proto: "tcp".into(),
        local_addr: "0.0.0.0".into(),
        port,
        pid: None,
        process: process.into(),
    };
    let mut ports = vec![port(443, "nginx"), port(22, "SSHD"), port(53, "dnsmasq")];
    let processes = |ports: &[PortInfo]| ports.iter().map(|p| p.process.clone()).collect::<Vec<_>>();
    let (mut sort, mut desc) = (PortSort::Port, false);

    resort_ports(&mut ports, &mut sort, &mut desc, PortSort::Process);
    assert_eq!((sort, desc), (PortSort::Process, false));
    assert_eq!(processes(&ports), ["dnsmasq", "nginx", "SSHD"], "case-insensitive");
    resort_ports(&mut ports, &mut sort, &mut desc, PortSort::Process);
    assert!(desc, "the same column flips direction");
    assert_eq!(processes(&ports), ["SSHD", "nginx", "dnsmasq"]);
    resort_ports(&mut ports, &mut sort, &mut desc, PortSort::Port);
    assert_eq!((sort, desc), (PortSort::Port, false), "a new column starts ascending");
    assert_eq!(ports.iter().map(|p| p.port).collect::<Vec<_>>(), [22, 53, 443]);
}

#[test]
fn scrubbed_answers_are_gone() {
    let mut answers = vec!["hunter2".to_string(), "123456".to_string()];
    scrub_answers(&mut answers);
    assert!(answers.is_empty());
}

/// The number on the bar, if there is one.
fn bar_id(bar: &Option<TransferProgress>) -> Option<u64> {
    bar.as_ref().map(|p| p.id)
}

#[test]
fn a_transfer_neither_takes_over_nor_takes_down_another_ones_bar() {
    let mut bar: Option<TransferProgress> = None;
    let folder = 1;
    assert!(claim_bar(&mut bar, false, folder), "the bar is free");
    // An upload started meanwhile is refused; the folder transfer keeps the
    // bar, and with it its Cancel.
    assert!(!claim_bar(&mut bar, false, 2));
    assert_eq!(bar_id(&bar), Some(folder));
    // A drop upload still winding down after its Cancel holds the bar with
    // nothing on it.
    let mut winding_down: Option<TransferProgress> = None;
    assert!(bar_busy(&winding_down, true));
    assert!(!claim_bar(&mut winding_down, true, 3));
    assert!(winding_down.is_none());

    // The folder transfer is cancelled and another one starts before the
    // folder's thread has let go...
    bar = None;
    let next = 4;
    assert!(claim_bar(&mut bar, false, next), "free after a Cancel");
    // ...so the folder's late end must leave the new bar alone.
    release_bar(&mut bar, folder);
    assert_eq!(bar_id(&bar), Some(next));
    release_bar(&mut bar, next);
    assert!(bar.is_none());

    // A transfer that finished, its end not yet processed, is no longer in the
    // way.
    assert!(claim_bar(&mut bar, false, 5), "free");
    if let Some(done) = &mut bar {
        done.finished = true;
    }
    assert!(claim_bar(&mut bar, false, 6));
}

#[test]
fn a_session_has_one_fetch_out_at_a_time() {
    let mut inflight = InFlight::new();
    assert!(inflight.start("s1"));
    // A 30-minute transfer's worth of 3 s ticks adds nothing.
    for _ in 0..600 {
        assert!(!inflight.start("s1"));
    }
    assert!(inflight.contains("s1"));
    assert!(inflight.start("s2"), "another session is not held up");
    inflight.finish("s1");
    assert!(!inflight.contains("s1"));
    assert!(inflight.start("s1"), "the next tick fetches again");
    assert!(!inflight.start(""), "a tab with no session has nothing to fetch");
}

/// A right-click pastes only where no application asked for the mouse.
#[test]
fn secondary_clicks_reach_an_application_that_asked_for_the_mouse() {
    assert_eq!(secondary_click(MouseButton::Right, true), SecondaryClick::Report);
    assert_eq!(secondary_click(MouseButton::Middle, true), SecondaryClick::Report);
    // Reporting off (or Shift held): right-click still pastes.
    assert_eq!(secondary_click(MouseButton::Right, false), SecondaryClick::Paste);
    assert_eq!(secondary_click(MouseButton::Middle, false), SecondaryClick::Ignore);
}

#[test]
fn a_kill_goes_only_to_the_process_confirmed() {
    let stat = |start: &str| {
        format!(
            "4242 (nginx: worker) S 1 4242 4242 0 -1 4194624 312 0 0 0 1 2 0 0 20 0 1 0 {} \
             1000000 200 18446744073709551615 1 1 0 0 0 0 0 4096 0 0 0 0 17 3 0 0\n",
            start
        )
    };
    let first = parse_proc_identity(&stat("98765"), "nginx: worker process ").expect("a process");
    assert_eq!(first.comm, "nginx: worker");
    assert_eq!(kill_command_label(&first), "nginx: worker process");
    // It retitled itself: the same process.
    let retitled =
        parse_proc_identity(&stat("98765"), "nginx: worker process is shutting down").unwrap();
    assert!(same_process(&first, &retitled));
    // The pid changed hands: another start time, no signal.
    let reused = parse_proc_identity(&stat("123456"), "nginx: worker process").unwrap();
    assert!(!same_process(&first, &reused));
    // Gone: nothing printed.
    assert!(parse_proc_identity("", "").is_none());
    // A name with parentheses and spaces of its own cannot shift the fields.
    let tricky = parse_proc_identity(
        "77 (a) 1 2 (b) R 1 1 1 0 -1 0 0 0 0 0 0 0 0 0 20 0 1 0 5555 0 0\n",
        "",
    )
    .unwrap();
    assert_eq!(tricky.comm, "a) 1 2 (b");
    assert_eq!(tricky.start_time, "5555");
    // No command line — a kernel thread — shows as `ps` shows it.
    let kthread =
        parse_proc_identity("2 (kthreadd) S 0 0 0 0 -1 0 0 0 0 0 0 0 0 0 20 0 1 0 7 0 0\n", "").unwrap();
    assert_eq!(kill_command_label(&kthread), "[kthreadd]");
    // What would not show, shows.
    let hidden = parse_proc_identity(&stat("1"), "sleep 100\u{202E}fdsa").unwrap();
    assert_eq!(kill_command_label(&hidden), "sleep 100\\u{202e}fdsa");

    // A host without /proc answers through `ps`: the same check, by the start
    // time it prints.
    let ps = parse_ps_identity("Mon Sep 22 01:02:03 2026 /usr/sbin/nginx -g daemon off;\n")
        .expect("a process");
    assert_eq!(ps.start_time, "Mon Sep 22 01:02:03 2026");
    assert_eq!(kill_command_label(&ps), "/usr/sbin/nginx -g daemon off;");
    let padded = parse_ps_identity("Tue Sep  2 01:02:03 2026 sleep 100").unwrap();
    assert_eq!(padded.start_time, "Tue Sep 2 01:02:03 2026");
    let later = parse_ps_identity("Tue Sep  2 01:07:44 2026 sleep 100").unwrap();
    assert!(!same_process(&padded, &later), "the pid changed hands");
    assert!(parse_ps_identity("").is_none(), "gone");
    assert!(parse_ps_identity("ps: illegal option -- w\n").is_none());
}

fn waiting(session_id: &str) -> Waiting {
    Waiting {
        challenge: AuthChallenge {
            session_id: session_id.into(),
            target: String::new(),
            purpose: "shell".into(),
            prompts: Vec::new(),
            ticket: 0,
        },
        at: 0,
    }
}

#[test]
fn closing_a_tab_withdraws_its_own_sign_in_challenges() {
    let mut tab = test_tab("", "sid-new");
    assert_eq!(tab_auth_sessions(&tab), ["sid-new"], "still connecting");
    tab.session_id = "sid-new".into();
    tab.pending_session_id.clear();
    tab.split_pending = Some("sid-split".into());
    assert_eq!(tab_auth_sessions(&tab), ["sid-new", "sid-split"]);
    tab.split_pending = None;
    tab.split = Some(test_split("sid-2"));
    assert_eq!(tab_auth_sessions(&tab), ["sid-new", "sid-2"]);

    let mut queue: Vec<Waiting> =
        ["sid-2", "other", "sid-new", "other-2"].into_iter().map(waiting).collect();
    let asking = tab_auth_sessions(&tab);
    let (taken, front) = take_challenges(&mut queue, &asking);
    let taken: Vec<&str> = taken.iter().map(|c| c.session_id.as_str()).collect();
    assert_eq!(taken, ["sid-2", "sid-new"]);
    assert!(front, "the one on screen was the tab's: the modal moves on");
    let left: Vec<&str> = queue.iter().map(|w| w.challenge.session_id.as_str()).collect();
    assert_eq!(left, ["other", "other-2"], "the rest stay, in order");
    let (taken, front) = take_challenges(&mut queue, &asking);
    assert!(taken.is_empty() && !front);
    assert_eq!(queue.len(), 2);
}

#[test]
fn a_parked_listing_offers_the_reconnect_for_the_focused_pane() {
    let texts = texts(&[("exec.err.needs_reconnect", "Monitoring is parked")]);
    let parked = texts.t("exec.err.needs_reconnect");
    assert!(matches!(listing_failed("sid-2", parked, &texts), Message::ExecParked(s) if s == "sid-2"));
    assert!(matches!(
        listing_failed("sid-2", "Permission denied".into(), &texts),
        Message::Error(e) if e == "Permission denied"
    ));
    let mut tab = test_tab("sid-1", "");
    tab.split = Some(test_split("sid-2"));
    assert_eq!(tab.focused_session(), "sid-1");
    tab.focus_split = true;
    assert_eq!(tab.focused_session(), "sid-2", "the panels follow the focused pane");
}

#[test]
fn only_a_challenge_the_user_asked_for_takes_the_keyboard() {
    assert!(!challenge_may_take_focus("reconnect", false));
    assert!(!challenge_may_take_focus("reconnect", true), "never the user's click");
    assert!(challenge_may_take_focus("shell", true), "Connect");
    assert!(challenge_may_take_focus("exec", true), "Reconnect monitoring");
    assert!(!challenge_may_take_focus("shell", false));
    assert!(!challenge_may_take_focus("exec", false));
    assert!(challenge_may_take_focus("test", false));
    assert!(challenge_may_take_focus("deploy", false));
    // Not even then while keys are still arriving from somewhere else.
    let t0 = 100 * SECOND;
    assert!(typing_recently(Some(t0), t0 + 200 * MILLISECOND));
    assert!(!typing_recently(Some(t0), t0 + AUTH_TYPING_WINDOW));
    assert!(!typing_recently(None, t0));
}

#[test]
fn keys_typed_before_the_modal_appeared_are_no_answer() {
    let t0 = 100 * SECOND;
    let mut shown = None;
    assert!(!auth_armed(shown, t0), "not on screen");
    note_auth_shown(&mut shown, true, t0);
    assert_eq!(shown, Some(t0));
    note_auth_shown(&mut shown, true, t0 + 40 * MILLISECOND);
    assert_eq!(shown, Some(t0), "staying up does not restart it");
    assert!(!auth_armed(shown, t0 + 50 * MILLISECOND), "one poll tick in");
    assert!(!auth_armed(shown, t0 + AUTH_ARM_DELAY - MILLISECOND));
    assert!(auth_armed(shown, t0 + AUTH_ARM_DELAY));
    // Covered — by the palette, say — and uncovered: the wait starts over.
    note_auth_shown(&mut shown, false, t0 + SECOND);
    assert_eq!(shown, None);
    assert!(!auth_armed(shown, t0 + 2 * SECOND));
    let t1 = t0 + 3 * SECOND;
    note_auth_shown(&mut shown, true, t1);
    assert!(!auth_armed(shown, t1 + 100 * MILLISECOND));
    assert!(auth_armed(shown, t1 + AUTH_ARM_DELAY));
}

#[test]
fn a_home_prompt_is_followed_once_not_on_every_tick() {
    let mut prompt: NameMap<String> = NameMap::new();
    let mut current: NameMap<String> = NameMap::new();
    let mut listings: NameMap<Listing> = NameMap::new();
    // Tick 1: the prompt shows ~ and the browser follows it.
    assert!(follow_prompt_cwd(&mut prompt, &mut current, &listings, "s", "~"));
    assert_eq!(text_of(&current, "s"), Some("~"));
    // The listing arrives, resolved, and records the real directory.
    current.insert("s".to_string(), "/home/alice".to_string());
    listings.insert("s".to_string(), Listing::new("/home/alice".into(), Vec::new()));
    // Comparing the prompt with that directory would always be due.
    assert!(cwd_sync_due(text_of(&current, "s"), listings.get("s"), "~"));
    // Tick 2 and later: the prompt still shows ~ — nothing to do.
    for _ in 0..3 {
        assert!(!follow_prompt_cwd(&mut prompt, &mut current, &listings, "s", "~"));
    }
    // The user opens /var/log by hand; the idle shell does not pull the
    // browser back.
    current.insert("s".to_string(), "/var/log".to_string());
    assert!(!follow_prompt_cwd(&mut prompt, &mut current, &listings, "s", "~"));
    assert_eq!(text_of(&current, "s"), Some("/var/log"));
    // The shell moves: the browser follows.
    assert!(follow_prompt_cwd(&mut prompt, &mut current, &listings, "s", "/etc"));
    assert_eq!(text_of(&current, "s"), Some("/etc"));
}

#[test]
fn row_actions_resolve_against_the_listing_on_screen() {
    let mut listings: NameMap<Listing> = NameMap::new();
    listings.insert("s".to_string(), Listing::new("/home/u/app".into(), vec![row("config.yml")]));
    let mut current: NameMap<String> = NameMap::new();
    current.insert("s".to_string(), "/etc".to_string());
    {
        let shown = listings.get("s").expect("on screen");
        assert_eq!(shown.path_of("config.yml"), "/home/u/app/config.yml");
        assert_eq!(remote_parent(&shown.dir), "/home/u");
    }
    assert_eq!(remote_parent("/"), "/");
    assert_eq!(Listing::new("/".into(), Vec::new()).path_of("etc"), "/etc");

    // The listing of /etc fails: back to what is shown.
    note_listing_failed(&mut current, &mut listings, "s", "/etc");
    assert_eq!(text_of(&current, "s"), Some("/home/u/app"));
    assert_eq!(listings.get("s").and_then(|l| l.failed.as_deref()), Some("/etc"));
    assert!(!cwd_sync_due(Some("/home/u/app"), listings.get("s"), "/etc"), "not asked again");
    assert!(cwd_sync_due(Some("/home/u/app"), listings.get("s"), "/var"), "a new cwd is");
    assert!(!cwd_sync_due(Some("/var"), None, "/var"));
    assert!(cwd_sync_due(None, None, "~"));

    // A failure for a directory no longer asked for changes nothing.
    current.insert("s".to_string(), "/srv".to_string());
    note_listing_failed(&mut current, &mut listings, "s", "/etc");
    assert_eq!(text_of(&current, "s"), Some("/srv"));
    // Nor for a session with nothing on screen.
    note_listing_failed(&mut current, &mut listings, "other", "/etc");
    assert!(!current.contains_key("other"));
}

#[test]
fn closing_a_pane_promotes_the_survivor_once() {
    let mut tabs = vec![test_tab("main", "")];
    let mut split = test_split("split");
    split.terminal = TerminalGrid::blank(40, 10);
    tabs[0].split = Some(split);
    tabs[0].focus_split = true;
    assert!(remove_split_pane(&mut tabs, "main"));
    assert_eq!(tabs[0].session_id, "split", "promoted");
    assert_eq!((tabs[0].terminal.cols, tabs[0].terminal.rows), (40, 10), "with its own screen");
    assert!(tabs[0].split.is_none() && !tabs[0].focus_split);
    assert!(!remove_split_pane(&mut tabs, "main"), "a late Closed: nothing to do");
    assert_eq!(tabs.len(), 1);

    tabs[0].split = Some(test_split("second"));
    assert!(remove_split_pane(&mut tabs, "second"));
    assert_eq!(tabs[0].session_id, "split");
    assert!(tabs[0].split.is_none());
    assert!(!remove_split_pane(&mut tabs, "split"), "no split: the tab closes whole");
    assert!(!remove_split_pane(&mut tabs, ""));
}

#[test]
fn a_challenge_whose_tab_is_gone_is_withdrawn() {
    let mut tabs = vec![test_tab("", "dialling")];
    tabs.push(test_tab("live", ""));
    tabs[1].split = Some(test_split("pane"));
    tabs[1].split_pending = Some("pane-dialling".into());
    for held in ["dialling", "live", "pane", "pane-dialling"] {
        assert!(!challenge_orphaned(held, &tabs), "{held}");
    }
    assert!(!challenge_orphaned("", &tabs), "a test or a deploy has its modal");
    tabs.remove(0);
    assert!(challenge_orphaned("dialling", &tabs), "its tab closed while it dialled");
    assert!(challenge_orphaned("gone", &Vec::new()));
}

#[test]
fn a_drain_budget_counts_bytes_and_events_and_never_underflows() {
    let mut b = DrainBudget::new(10, 3);
    assert!(b.has_room());
    b.charge(4);
    assert_eq!(b, DrainBudget { bytes: 6, events: 2 });
    // A Closed or an Error: an event, no bytes.
    b.charge(0);
    assert_eq!(b, DrainBudget { bytes: 6, events: 1 });
    assert!(b.has_room());
    b.charge(0);
    assert!(!b.has_room(), "out of events with bytes to spare");

    let mut b = DrainBudget::new(10, 3);
    b.charge(25);
    assert_eq!(b, DrainBudget { bytes: 0, events: 2 }, "the crossing event is taken whole");
    assert!(!b.has_room());

    let data = SshEvent::Data { session_id: "s".into(), data: vec![0; 7] };
    assert_eq!(ssh_event_bytes(&data), 7);
    assert_eq!(ssh_event_bytes(&SshEvent::Closed { session_id: "s".into() }), 0);
}

fn chunk(sid: &str, byte: u8, len: usize) -> SshEvent {
    SshEvent::Data { session_id: sid.into(), data: vec![byte; len] }
}

fn first_byte(e: SshEvent) -> Option<u8> {
    match e {
        SshEvent::Data { data, .. } => Some(data[0]),
        _ => None,
    }
}

#[test]
fn a_drain_stops_at_its_budget_and_the_rest_waits_in_order() {
    let mut queue: Vec<SshEvent> = (0..6u8).map(|i| chunk("s", i, 100_000)).collect();
    let drain = |queue: &mut Vec<SshEvent>| {
        let mut budget = DrainBudget::new(SSH_DRAIN_BYTES, SSH_DRAIN_EVENTS);
        let mut taken = Vec::new();
        while let Some(e) = take_within(queue, &mut budget) {
            taken.push(first_byte(e).unwrap());
        }
        (taken, budget.has_room())
    };
    // 256 KiB: the third 100 kB read crosses the line and is taken whole.
    assert_eq!(drain(&mut queue), (vec![0, 1, 2], false));
    assert_eq!(drain(&mut queue), (vec![3, 4, 5], false));
    assert_eq!(drain(&mut queue), (vec![], true));

    // Many small reads end a drain on the event count instead.
    for _ in 0..SSH_DRAIN_EVENTS + 10 {
        queue.push(chunk("s", 1, 1));
    }
    let (taken, room) = drain(&mut queue);
    assert_eq!((taken.len(), room), (SSH_DRAIN_EVENTS, false));
    assert_eq!(queue.len(), 10, "the rest still queued");
}

#[test]
fn output_that_beats_its_connect_is_held_in_place_until_the_tab_shows_it() {
    let drain = |held: &mut Option<SshEvent>, queue: &mut Vec<SshEvent>, tabs: &Vec<TerminalTab>| {
        let mut budget = DrainBudget::new(SSH_DRAIN_BYTES, SSH_DRAIN_EVENTS);
        let mut taken: Vec<u8> = Vec::new();
        while let Some(event) = next_ssh_event(held, queue, &mut budget, tabs) {
            if let Some(b) = first_byte(event) {
                taken.push(b);
            }
        }
        taken
    };
    let mut queue = vec![chunk("dialled", 1, 1), chunk("live", 2, 1), chunk("dialled", 3, 1)];
    let mut tabs = vec![test_tab("", "dialled"), test_tab("live", "")];
    let mut held = None;
    assert_eq!(drain(&mut held, &mut queue, &tabs), [0u8; 0], "nothing overtakes it");
    assert_eq!(drain(&mut held, &mut queue, &tabs), [0u8; 0], "still connecting");
    assert!(held.is_some());
    // The tab shows the session now.
    tabs[0].session_id = "dialled".into();
    tabs[0].pending_session_id.clear();
    assert_eq!(drain(&mut held, &mut queue, &tabs), [1, 2, 3]);
    assert!(held.is_none());

    // Closed while connecting: handed on for the handler to drop, as ever.
    queue.push(chunk("gone", 4, 1));
    queue.push(chunk("live", 5, 1));
    let mut tabs = vec![test_tab("", "gone"), test_tab("live", "")];
    assert_eq!(drain(&mut held, &mut queue, &tabs), [0u8; 0]);
    tabs.remove(0);
    assert_eq!(drain(&mut held, &mut queue, &tabs), [4, 5]);

    // A split still dialling is connecting too; a live pane is not.
    let mut tab = test_tab("live", "");
    tab.split_pending = Some("pane-dialling".into());
    let tabs = vec![tab];
    assert!(session_connecting(&tabs, "pane-dialling"));
    assert!(!session_connecting(&tabs, "live"));
    assert!(!session_connecting(&tabs, ""), "a tab's empty pending id matches nothing");
}

#[test]
fn a_wake_drains_at_once_unless_the_last_drain_was_under_a_frame_ago() {
    let t0 = 100 * SECOND;
    assert_eq!(wake_drain_at(None, t0), t0, "the first wake");
    let later = t0 + 100 * MILLISECOND;
    assert_eq!(wake_drain_at(Some(t0), later), later, "a quiet session's next output");
    let soon = t0 + 5 * MILLISECOND;
    assert_eq!(wake_drain_at(Some(t0), soon), t0 + WAKE_MIN_GAP, "output still trickling in");
    assert_eq!(wake_drain_at(Some(t0), t0 + WAKE_MIN_GAP), t0 + WAKE_MIN_GAP);
}

#[test]
fn the_timer_drain_runs_only_where_something_can_be_waiting() {
    // (on the main screen, sessions, a challenge waiting, a bar moving)
    assert_eq!(poll_interval(false, false, false, false), None, "setup; locked, no session");
    assert_eq!(
        poll_interval(false, true, false, false),
        Some(SAFETY_POLL),
        "sessions run on under the lock"
    );
    assert_eq!(poll_interval(false, false, true, false), Some(SAFETY_POLL), "it still expires");
    assert_eq!(
        poll_interval(false, true, true, true),
        Some(SAFETY_POLL),
        "nothing on screen moves under the lock"
    );
    assert_eq!(poll_interval(true, false, false, false), Some(SAFETY_POLL), "idle");
    assert_eq!(poll_interval(true, true, false, false), Some(SAFETY_POLL), "idle sessions");
    assert_eq!(poll_interval(true, true, true, false), Some(LIVE_POLL), "the sign-in modal");
    assert_eq!(poll_interval(true, false, false, true), Some(LIVE_POLL), "a progress bar");
    assert_eq!(LIVE_POLL, 50 * MILLISECOND);
    assert!(SAFETY_POLL <= SECOND);
}

#[test]
fn two_reads_tell_a_speed_once_they_are_apart() {
    let read = |rx: u64, tx: u64, at: u128| NetCounters { rx, tx, at };
    let t0 = 100 * SECOND;
    assert_eq!(net_growth(None, read(10, 5, t0)), None);
    let first = Some(read(1000, 500, t0));
    assert_eq!(net_growth(first, read(2000, 700, t0 + 500 * MILLISECOND)), None, "too close");
    assert_eq!(
        net_growth(first, read(4000, 700, t0 + 3 * SECOND)),
        Some(NetGrowth { rx: 3000, tx: 200, nanos: 3 * SECOND })
    );
    // Nothing counted yet, or the counter started over.
    assert_eq!(net_growth(Some(read(0, 0, t0)), read(4000, 700, t0 + 3 * SECOND)), None);
    assert_eq!(net_growth(first, read(10, 5, t0 + 3 * SECOND)), None);
}

#[test]
fn reported_cells_are_counted_from_one() {
    assert_eq!(grid_cell((2, 0), (80, 24), false), Some((3, 1)));
    assert_eq!(grid_cell((79, 23), (80, 24), false), Some((80, 24)));
    // Past the last row: not reported, unless pinned.
    assert_eq!(grid_cell((2, 30), (80, 24), false), None);
    assert_eq!(grid_cell((2, 30), (80, 24), true), Some((3, 24)));
    assert_eq!(grid_cell((0, 0), (0, 0), true), None);
}

// ---- what the screen says ------------------------------------------------------------------------

/// A screen with these rows on top.
fn screen(rows: &[&str]) -> TerminalGrid {
    let mut grid = TerminalGrid::blank(40, 8);
    for (y, row) in rows.iter().enumerate() {
        for (x, c) in row.chars().enumerate() {
            grid.cells[y][x].c = c;
        }
    }
    grid
}

#[test]
fn escape_sequences_are_stripped_whole() {
    let strip = |s: &str| -> String {
        let chars: Vec<char> = s.chars().collect();
        strip_escapes(&chars).into_iter().collect()
    };
    assert_eq!(strip("plain"), "plain");
    assert_eq!(strip("a\x1b[0mb\x1b[1;32mc"), "abc");
    assert_eq!(strip("\x1b]0;title\x07a"), "a");
    assert_eq!(strip("\x1b]0;title\x1b\\b"), "b");
    assert_eq!(strip("a\x1b=b"), "ab");
    assert_eq!(strip("a\x1b"), "a");
    assert_eq!(strip("a\x1b[12;"), "a");
    assert_eq!(strip("a\x1b]0;never ended"), "a");
}

#[test]
fn the_name_behind_sz_is_read_from_the_output() {
    let name = |s: &str| extract_sz_filename(s);
    assert_eq!(name("sz file.txt\r\n").as_deref(), Some("file.txt"));
    assert_eq!(name("$ sz  my file.tar\r\n").as_deref(), Some("my file.tar"));
    assert_eq!(name("sz \x1b[0mfile.txt\r\n").as_deref(), Some("file.txt"));
    assert_eq!(name("\x1b]0;root@web\x07$ \x1b[1msz\x1b[0m a.gz**\x18B0").as_deref(), Some("a.gz"));
    assert_eq!(name("nothing here\r\n"), None);
    assert_eq!(name("sz a\r\n"), None, "one byte is no name");
}

#[test]
fn the_name_behind_sz_is_read_off_the_last_rows() {
    let name = |rows: &[&str]| extract_sz_from_grid(&screen(rows));
    assert_eq!(name(&["$ sz a.txt"]).as_deref(), Some("a.txt"));
    // The lowest one, past what says nothing.
    assert_eq!(name(&["$ sz a.txt", "$ sz b.txt", "**B0100", "[NeoShell] hi"]).as_deref(), Some("b.txt"));
    // Past rows that name nothing, but not far.
    assert_eq!(name(&["$ sz a.txt", "Sending", "Starting"]).as_deref(), Some("a.txt"));
    assert_eq!(name(&["$ sz a.txt", "one", "two", "three"]), None);
    assert_eq!(name(&[]), None);
}

#[test]
fn a_selection_reads_the_same_from_either_end() {
    let grid = screen(&["first   ", "  second", "third  x"]);
    let text = extract_selection(&grid, (0, 0), (6, 2));
    assert_eq!(text, "first\n  second\nthird");
    assert_eq!(extract_selection(&grid, (6, 2), (0, 0)), text);
    assert_eq!(extract_selection(&grid, (2, 1), (39, 1)), "second");
    assert_eq!(extract_selection(&grid, (10, 0), (39, 0)), "");
    // A grid said to have no columns still has its first.
    let mut narrow = screen(&["xy"]);
    narrow.cols = 0;
    assert_eq!(extract_selection(&narrow, (0, 0), (9, 0)), "x");
    let mut wide = screen(&["a\u{4f60}  b"]);
    wide.cells[0][1].wide = true;
    wide.cells[0][2].wide_cont = true;
    assert_eq!(extract_selection(&wide, (0, 0), (9, 0)), "a\u{4f60} b");
}

#[test]
fn printed_sections_are_read_back() {
    let out = "___CHILDREN___\n12 sh\n13 vi\n___CWD___\n/srv/a_b\n___NO_SUCH___\nx\n___THREADS___\n\n 7 \n";
    let d = parse_process_detail(42, out);
    assert_eq!(d.children, ["12 sh", "13 vi"]);
    assert_eq!(d.threads, ["7"]);
    assert!(d.fields.contains(&("CWD".to_string(), "/srv/a_b".to_string())));
    assert!(d.net_conns.is_empty() && d.listen_ports.is_empty() && d.open_fds.is_empty());
}
