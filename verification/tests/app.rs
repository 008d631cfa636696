//! The app as a whole: messages in, state and effects out.

use neoshell::auth::AuthChallenge;
use neoshell::auth::AUTH_ARM_DELAY;
use neoshell::catalog::Catalog;
use neoshell::common::error_dialog_title;
use neoshell::common::title_for;
use neoshell::connections::ConnectionInfo;
use neoshell::draining::name_transfer;
use neoshell::events::SshEvent;
use neoshell::folded::SealedGroups;
use neoshell::grid::SearchMatch;
use neoshell::history::CmdRecord;
use neoshell::history::HistoryLoad;
use neoshell::history::HISTORY_FLUSH_TICK;
use neoshell::keys::Key;
use neoshell::keys::Modifiers;
use neoshell::keys::Named;
use neoshell::names::NameSet;
use neoshell::processes::ProcIdentity;
use neoshell::processes::ProcessDetailInfo;
use neoshell::remote_files::EntryKind;
use neoshell::remote_files::FileEntry;
use neoshell::screens::Overlay;
use neoshell::screens::Screen;
use neoshell::settings::Snippet;
use neoshell::settings::MILLISECOND;
use neoshell::settings::SECOND;
use neoshell::starting::Startup;
use neoshell::state::BottomTab;
use neoshell::state::ConfirmAction;
use neoshell::state::Effect;
use neoshell::state::Env;
use neoshell::state::LocalFile;
use neoshell::state::LocalKey;
use neoshell::state::Message;
use neoshell::state::MouseButton;
use neoshell::state::NeoShell;
use neoshell::state::Pointer;
use neoshell::titles::fingerprint;
use neoshell::transferring::refusal;
use neoshell::updating::press_message;
use neoshell::updating::subscription;
use neoshell::updating::sync_input_method;
use neoshell::updating::update;
use neoshell::updating::wheel_message;
use neoshell::updating::IDLE_TICK;
use neoshell::updating::MONITOR_TICK;
use neoshell::updating::TUNNEL_TICK;
use neoshell::updating::UPDATE_TICK;

const PLAIN: Modifiers = Modifiers { shift: false, control: false, alt: false, logo: false };

fn texts() -> Catalog {
    let pairs = [
        ("setup.err_too_short", "Too short"),
        ("setup.err_mismatch", "They differ"),
        ("monitor.connecting", "Connecting..."),
        ("transfer.busy", "Another transfer is running"),
        ("term.sz_refused", "refused: {name}"),
        ("process.err.gone", "No process {pid}"),
        ("history.warn.unreadable", "Nothing will be saved"),
        ("log.err.read", "{path}: {err}"),
        ("keys.generated", "Generated"),
        ("keys.copied", "Copied"),
        ("keys.deploying", "Deploying"),
        ("keys.deploy_ok", "Deployed to"),
        ("drop.no_target", "Nowhere to drop it"),
    ];
    Catalog { entries: pairs.iter().map(|(k, v)| (k.to_string(), v.to_string())).collect() }
}

/// The world `secs` seconds after the start. Ids are fresh each time.
fn at(secs: u128) -> Env {
    Env::new(
        secs * SECOND,
        Some(1_700_000_000),
        texts(),
        false,
        "new-session".to_string(),
        true,
        None,
        "/home/me/Downloads/".to_string(),
        Pointer { cell: None, nearest: None, place: None, on_splitter: false, in_second_pane: false, encoded: None },
    )
}

fn start(vault_exists: bool) -> NeoShell {
    NeoShell::new(Startup {
        vault_exists,
        locale: "en".into(),
        local_path: "/home/me".into(),
        proxies: Vec::new(),
        tunnels: Vec::new(),
        snippets: Vec::new(),
        alerts_enabled: false,
        lock_timeout_mins: 15,
        now: 0,
    })
}

/// The app with the vault open.
fn opened() -> NeoShell {
    let mut s = start(true);
    update(&mut s, Message::VaultUnlocked, &at(0));
    s
}

/// The app with one connected tab, whose session is `sid`.
fn connected(sid: &str) -> NeoShell {
    let mut s = opened();
    connect(&mut s, "c1", sid);
    s
}

fn connect(s: &mut NeoShell, conn: &str, sid: &str) -> String {
    let fx = update(s, Message::ConnectTo(conn.into()), &at(1));
    let tab = match &fx[1] {
        Effect::Connect(tab, _, _) => tab.clone(),
        _ => panic!("no connect"),
    };
    update(
        s,
        Message::SshConnected(tab.clone(), sid.into(), format!("root@{conn}:22"), conn.into()),
        &at(2),
    );
    tab
}

fn key(k: Named) -> Message {
    Message::KeyboardEvent(Key::Named(k), PLAIN, None, false)
}

fn conn(id: &str, group: &str) -> ConnectionInfo {
    ConnectionInfo {
        id: id.into(),
        name: id.into(),
        host: "10.0.0.1".into(),
        port: 22,
        username: "root".into(),
        auth_type: "password".into(),
        group: group.into(),
        color: String::new(),
        proxy_id: None,
    }
}

fn record(cmd: &str) -> CmdRecord {
    CmdRecord { cmd: cmd.into(), session_title: String::new(), host: String::new(), timestamp: 1 }
}

fn row(name: &str) -> FileEntry {
    FileEntry {
        name: name.into(),
        is_dir: false,
        kind: EntryKind::File,
        size: String::new(),
        permissions: "-rw-r--r--".into(),
        modified: String::new(),
    }
}

fn local(path: &str, name: &str) -> LocalFile {
    LocalFile { path: path.into(), name: Some(name.into()), is_dir: false }
}

/// Whether a session's text shows on its tab's terminal: put it there.
fn echo(s: &mut NeoShell, line: &str) {
    let grid = &mut s.sessions.tabs[0].terminal;
    for (x, c) in line.chars().enumerate() {
        grid.cells[0][x].c = c;
    }
    grid.cursor_x = line.chars().count();
    grid.cursor_y = 0;
}

// ---- the vault ----------------------------------------------------------------------------------

#[test]
fn the_first_screen_depends_on_the_vault() {
    assert_eq!(start(true).vault.screen, Screen::Locked);
    assert_eq!(start(false).vault.screen, Screen::Setup);
    assert!(start(true).room_left());
}

#[test]
fn a_password_is_taken_when_it_is_long_enough_and_repeated() {
    let mut s = start(false);
    update(&mut s, Message::PasswordChanged("abc".into()), &at(1));
    assert!(update(&mut s, Message::CreateVault, &at(1)).is_empty());
    assert_eq!(s.error.message, "Too short");
    update(&mut s, Message::PasswordChanged("hunter2".into()), &at(1));
    assert!(update(&mut s, Message::CreateVault, &at(1)).is_empty());
    assert_eq!(s.error.message, "They differ");
    update(&mut s, Message::ConfirmChanged("hunter2".into()), &at(1));
    let fx = update(&mut s, Message::CreateVault, &at(1));
    assert!(matches!(&fx[0], Effect::CreateVault(p) if p == "hunter2"));
    assert_eq!(s.vault.screen, Screen::Setup, "not before it is made");
    update(&mut s, Message::VaultCreated, &at(2));
    assert_eq!(s.vault.screen, Screen::Main);
    assert!(s.vault.password_input.is_empty() && s.vault.confirm_input.is_empty());
}

#[test]
fn nothing_but_the_password_opens_the_main_screen() {
    let mut s = start(true);
    for m in [
        Message::LoadConnections,
        Message::ConnectTo("c1".into()),
        Message::TogglePalette,
        Message::PollSshEvents,
        Message::Error("no".into()),
        Message::LockNow,
        key(Named::Enter),
        key(Named::Escape),
    ] {
        update(&mut s, m, &at(3));
        assert_eq!(s.vault.screen, Screen::Locked);
    }
    update(&mut s, Message::VaultUnlocked, &at(3));
    assert_eq!(s.vault.screen, Screen::Main);
}

#[test]
fn a_lock_puts_away_secrets_and_keeps_the_sessions() {
    let mut s = connected("sid");
    s.sessions.connections = vec![conn("c1", "")];
    s.form.form.password = "hunter2".into();
    s.history.records = vec![record("mysql -phunter2")];
    let fx = update(&mut s, Message::LockNow, &at(5));
    assert_eq!(s.vault.screen, Screen::Locked);
    assert!(s.form.form.password.is_empty());
    assert!(s.history.records.is_empty() && s.sessions.connections.is_empty());
    assert_eq!(s.sessions.tabs.len(), 1, "sessions run on");
    assert!(fx.iter().any(|e| matches!(e, Effect::LockVault)));
    assert!(!fx.iter().any(|e| matches!(e, Effect::Disconnect(_))));
}

#[test]
fn the_vault_locks_itself_after_no_input_for_the_timeout() {
    let mut s = opened();
    update(&mut s, Message::IdleCheck, &at(899));
    assert_eq!(s.vault.screen, Screen::Main);
    // Input re-arms it; a tick does not.
    update(&mut s, key(Named::Enter), &at(800));
    update(&mut s, Message::FetchMonitorData, &at(1000));
    update(&mut s, Message::IdleCheck, &at(1699));
    assert_eq!(s.vault.screen, Screen::Main);
    update(&mut s, Message::IdleCheck, &at(1700));
    assert_eq!(s.vault.screen, Screen::Locked);
}

// ---- tabs ----------------------------------------------------------------------------------------

#[test]
fn a_connection_is_dialled_once_at_a_time() {
    let mut s = opened();
    let fx = update(&mut s, Message::ConnectTo("c1".into()), &at(1));
    assert!(matches!(&fx[1], Effect::Connect(_, c, sid) if c == "c1" && sid == "new-session"));
    assert!(update(&mut s, Message::ConnectTo("c1".into()), &at(1)).is_empty());
    assert_eq!(s.sessions.tabs.len(), 1);
    assert_eq!(s.sessions.active_tab, Some(0));
}

#[test]
fn a_failed_connect_takes_only_its_own_tab() {
    let mut s = connected("live");
    let fx = update(&mut s, Message::ConnectTo("c2".into()), &at(1));
    let tab = match &fx[1] {
        Effect::Connect(tab, _, _) => tab.clone(),
        _ => panic!("no connect"),
    };
    update(&mut s, Message::ConnectFailed(tab, "c2".into(), "refused".into()), &at(2));
    assert_eq!(s.sessions.tabs.len(), 1);
    assert_eq!(s.sessions.tabs[0].session_id, "live");
    assert_eq!(s.sessions.active_tab, Some(0));
    assert!(s.error.show);
    assert_eq!(s.error.message, "refused");
    // A retry is dialled again.
    assert!(!update(&mut s, Message::ConnectTo("c2".into()), &at(3)).is_empty());
}

#[test]
fn tabs_go_round() {
    let mut s = connected("a");
    connect(&mut s, "c2", "b");
    assert_eq!(s.sessions.active_tab, Some(1));
    update(&mut s, Message::SwitchToNextTab, &at(3));
    assert_eq!(s.sessions.active_tab, Some(0));
    update(&mut s, Message::SwitchToPrevTab, &at(3));
    assert_eq!(s.sessions.active_tab, Some(1));
    update(&mut s, Message::SwitchToTab(0), &at(3));
    assert_eq!(s.sessions.active_tab, Some(0));
    update(&mut s, Message::SwitchToTab(7), &at(3));
    assert_eq!(s.sessions.active_tab, Some(0));
}

#[test]
fn a_closed_tab_hangs_up() {
    let mut s = connected("sid");
    let fx = update(&mut s, Message::TabClosed(0), &at(3));
    assert!(fx.iter().any(|e| matches!(e, Effect::Disconnect(x) if x == "sid")));
    assert!(s.sessions.tabs.is_empty());
    assert_eq!(s.sessions.active_tab, None);
}

// ---- output and input --------------------------------------------------------------------------------

#[test]
fn output_goes_to_the_terminal_that_shows_the_session() {
    let mut s = connected("sid");
    s.sessions.inbox.push(SshEvent::Data { session_id: "sid".into(), data: b"hello".to_vec() });
    s.sessions.inbox.push(SshEvent::Data { session_id: "other".into(), data: b"lost".to_vec() });
    let fx = update(&mut s, Message::PollSshEvents, &at(3));
    let fed: Vec<&Vec<u8>> = fx
        .iter()
        .filter_map(|e| match e {
            Effect::Feed(_, data) => Some(data),
            _ => None,
        })
        .collect();
    assert_eq!(fed, [&b"hello".to_vec()]);
    assert!(s.sessions.inbox.is_empty());
}

/// What is no UTF-8 in the output reads as a replacement character.
#[test]
fn a_file_sent_by_the_shell_is_downloaded_under_its_name() {
    let mut s = connected("sid");
    let mut data = b"sz a\xffb.txt\r\n".to_vec();
    data.extend_from_slice(b"**\x18B0100000023be50\r\n");
    s.sessions.inbox.push(SshEvent::Data { session_id: "sid".into(), data });
    let fx = update(&mut s, Message::PollSshEvents, &at(3));
    assert!(fx.iter().any(|e| matches!(e, Effect::SendQuietly(x, bytes) if x == "sid" && bytes[0] == 0x18)));
    let spotted = fx.into_iter().find_map(|e| match e {
        Effect::Then(m @ Message::TransfersSpotted(_)) => Some(m),
        _ => None,
    });
    let fx = update(&mut s, spotted.expect("a transfer"), &at(3));
    assert!(fx.iter().any(|e| matches!(e, Effect::Then(Message::SzDetected(x)) if x == "sid")));
    let fx = update(&mut s, Message::SzDetected("sid".into()), &at(4));
    assert!(fx.iter().any(|e| matches!(
        e,
        Effect::DownloadSz(x, 0, name, path)
            if x == "sid" && name == "a\u{fffd}b.txt" && path == "/home/me/Downloads/a\u{fffd}b.txt"
    )));
    assert_eq!(s.transfers.bar.as_ref().map(|p| p.id), Some(0));
}

/// A name that would leave the download directory is refused, and quoted.
#[test]
fn a_sent_name_that_is_no_name_is_refused_in_quotes() {
    let mut s = connected("sid");
    s.typing.sz_filename.insert("sid".into(), "a\tb/..".into());
    let fx = update(&mut s, Message::SzDetected("sid".into()), &at(4));
    assert!(fx.iter().any(|e| matches!(e, Effect::Notice(_, n) if n.contains("refused: \"a\\tb/..\""))));
    assert!(!fx.iter().any(|e| matches!(e, Effect::DownloadSz(_, _, _, _))));
    assert!(s.transfers.bar.is_none());
}

#[test]
fn a_transfer_goes_over_sftp_whichever_way_it_goes() {
    let mut s = connected("sid");
    let (fx, download) = name_transfer(&mut s, "sid", "sz notes.txt\r\n");
    assert!(download);
    assert!(matches!(&fx[..], [Effect::Notice(_, n)] if n.contains("sz: downloading notes.txt via SFTP")));
    assert_eq!(s.typing.sz_filename.get("sid").map(|n| n.as_str()), Some("notes.txt"));
    let mut s = connected("sid");
    let (fx, download) = name_transfer(&mut s, "sid", "rz waiting to receive.");
    assert!(!download);
    assert!(matches!(&fx[..], [Effect::Notice(_, n)] if n.contains("opening file picker")));
    assert!(s.typing.sz_filename.get("sid").is_none());
}

/// The command line may come in the same drain as the transfer: by the time the
/// file is named, the terminal shows it.
#[test]
fn a_sent_file_is_named_by_what_the_terminal_shows() {
    let mut s = connected("sid");
    for data in [&b"root@web:~# sz shown.txt\r\n"[..], b"**\x18B0100000023be50\r\n"] {
        s.sessions.inbox.push(SshEvent::Data { session_id: "sid".into(), data: data.to_vec() });
    }
    let mut fx = update(&mut s, Message::PollSshEvents, &at(3));
    assert!(matches!(&fx[0], Effect::Feed(x, _) if x == "sid"));
    assert!(matches!(&fx[1], Effect::SendQuietly(x, b)
        if x == "sid" && b == b"\x18\x18\x18\x18\x18\x08\x08\x08\x08\x08"));
    let spotted = match fx.pop() {
        Some(Effect::Then(m)) => m,
        _ => panic!("no transfer was spotted"),
    };
    echo(&mut s, "root@web:~# sz shown.txt");
    let fx = update(&mut s, spotted, &at(3));
    assert!(matches!(&fx[0], Effect::Notice(_, n) if n.contains("downloading shown.txt")));
    assert!(matches!(&fx[1], Effect::Then(Message::SzDetected(x)) if x == "sid"));
    // What follows of ZMODEM is not shown for a while.
    s.sessions.inbox.push(SshEvent::Data { session_id: "sid".into(), data: b"rest".to_vec() });
    let fx = update(&mut s, Message::PollSshEvents, &at(4));
    assert!(!fx.iter().any(|e| matches!(e, Effect::Feed(_, _))));
}

/// A session may end right behind the transfer that starts in it: its tab stays
/// until the file is named.
#[test]
fn the_end_of_a_session_waits_for_its_transfer() {
    let mut s = connected("sid");
    connect(&mut s, "c2", "other");
    echo(&mut s, "root@web:~# sz shown.txt");
    let data = b"**\x18B0100000023be50\r\n".to_vec();
    s.sessions.inbox.push(SshEvent::Data { session_id: "sid".into(), data });
    s.sessions.inbox.push(SshEvent::Closed { session_id: "other".into() });
    s.sessions.inbox.push(SshEvent::Closed { session_id: "sid".into() });
    let mut fx = update(&mut s, Message::PollSshEvents, &at(3));
    assert_eq!(s.sessions.tabs.len(), 1, "the other one ended");
    assert_eq!(s.sessions.inbox.len(), 1);
    assert!(matches!(fx.pop(), Some(Effect::Then(Message::PollSshEvents))));
    let spotted = match fx.pop() {
        Some(Effect::Then(m)) => m,
        _ => panic!("no transfer was spotted"),
    };
    let fx = update(&mut s, spotted, &at(3));
    assert!(fx.iter().any(|e| matches!(e, Effect::Then(Message::SzDetected(x)) if x == "sid")));
    update(&mut s, Message::PollSshEvents, &at(3));
    assert!(s.sessions.tabs.is_empty() && s.sessions.inbox.is_empty());
}

/// A transfer in a split is named before the main session of its tab ends: the
/// split is promoted only then, and no screen of a main pane is read for it.
#[test]
fn the_end_of_the_other_pane_waits_too() {
    let mut s = connected("main");
    let fx = update(&mut s, Message::SplitTab(true), &at(3));
    let tab = match &fx[0] {
        Effect::ConnectSplit(tab, _, sid, _) if sid == "new-session" => tab.clone(),
        _ => panic!("no split"),
    };
    update(&mut s, Message::SplitConnected(tab, true, "new-session".into()), &at(3));
    assert!(s.sessions.tabs[0].split.is_some());
    let data = b"**\x18B0100000023be50\r\n".to_vec();
    s.sessions.inbox.push(SshEvent::Data { session_id: "new-session".into(), data });
    s.sessions.inbox.push(SshEvent::Closed { session_id: "main".into() });
    let mut fx = update(&mut s, Message::PollSshEvents, &at(4));
    assert_eq!(s.sessions.inbox.len(), 1);
    assert_eq!(s.sessions.tabs[0].session_id, "main");
    assert!(matches!(fx.pop(), Some(Effect::Then(Message::PollSshEvents))));
    let spotted = match fx.pop() {
        Some(Effect::Then(m)) => m,
        _ => panic!("no transfer was spotted"),
    };
    let fx = update(&mut s, spotted, &at(4));
    assert!(matches!(&fx[..], [Effect::Then(Message::RzDetected(x))] if x == "new-session"), "and no note");
    update(&mut s, Message::PollSshEvents, &at(4));
    assert_eq!(s.sessions.tabs[0].session_id, "new-session");
}

/// A modal that comes asks where the focus went.
#[test]
fn a_modal_that_comes_asks_for_the_focus() {
    let mut s = opened();
    let issued = s.focus.issued;
    let fx = update(&mut s, Message::ShowAbout, &at(3));
    assert!(matches!(&fx[..], [Effect::QueryFocus(n)] if *n == issued + 1));
    assert_eq!(s.focus.issued, issued + 1);
}

/// Only one transfer is taken up at a time, an upload before a download.
#[test]
fn the_first_transfer_that_starts_is_taken_up() {
    let mut s = connected("one");
    connect(&mut s, "c2", "two");
    connect(&mut s, "c3", "three");
    let list = vec![
        ("one".to_string(), "sz a.txt\r\n".to_string()),
        ("two".to_string(), "rz waiting to receive.".to_string()),
        ("three".to_string(), "rz waiting to receive.".to_string()),
    ];
    let fx = update(&mut s, Message::TransfersSpotted(list), &at(3));
    assert_eq!(fx.iter().filter(|e| matches!(e, Effect::Notice(_, _))).count(), 3);
    assert!(matches!(&fx[3..], [Effect::Then(Message::RzDetected(x))] if x == "two"));
}

#[test]
fn a_refusal_is_said_in_red() {
    assert_eq!(refusal("\"..\"", &texts()), "\r\n\x1b[31mrefused: \"..\"\x1b[0m\r\n");
}

#[test]
fn a_title_goes_with_one_message() {
    assert_eq!(title_for(Some((7, "notice.skipped_title")), 7), "notice.skipped_title");
    assert_eq!(title_for(Some((7, "notice.skipped_title")), 8), "err.title");
    assert_eq!(title_for(None, 7), "err.title");
    let mut s = opened();
    s.show_notice("notice.skipped_title", "2 skipped".into());
    assert_eq!(error_dialog_title(s.error.title, "2 skipped"), "notice.skipped_title");
    assert_eq!(error_dialog_title(s.error.title, "refused"), "err.title");
}

#[test]
fn ids_are_random_uuids() {
    let id: Vec<char> = at(0).new_id.chars().collect();
    assert_eq!(id.len(), 36);
    assert!([8, 13, 18, 23].iter().all(|i| id[*i] == '-'));
    assert_eq!(id[14], '4');
    assert!("89ab".contains(id[19]));
    assert!(id.iter().all(|c| *c == '-' || ('0'..='9').contains(c) || ('a'..='f').contains(c)));
    assert_ne!(at(0).new_id, at(0).new_id);
}

#[test]
fn a_line_is_kept_only_where_it_was_echoed() {
    let mut s = connected("sid");
    let line = |s: &mut NeoShell, cmd: &str| {
        for c in cmd.chars() {
            update(s, Message::TerminalInput("sid".into(), c.to_string()), &at(3));
        }
        update(s, Message::TerminalInput("sid".into(), "\r".into()), &at(3))
    };
    echo(&mut s, "root@web:~# uptime");
    let fx = line(&mut s, "uptime");
    assert!(matches!(&fx[0], Effect::Send(x, d) if x == "sid" && d == "\r"));
    assert_eq!(s.history.records.len(), 1);
    assert_eq!(s.history.records[0].cmd, "uptime");
    assert_eq!(s.history.records[0].host, "c1");
    assert_eq!(s.history.records[0].timestamp, 1_700_000_000);
    assert!(s.history.sync.dirty);
    // A password at a no-echo prompt does not show.
    echo(&mut s, "Password:         ");
    line(&mut s, "hunter2");
    assert_eq!(s.history.records.len(), 1);
}

#[test]
fn keys_under_an_overlay_do_not_reach_the_shell() {
    let mut s = connected("sid");
    let typed = |s: &mut NeoShell, captured: bool| {
        update(s, Message::KeyboardEvent(Key::Character("x".into()), PLAIN, Some("x".into()), captured), &at(3))
    };
    assert!(typed(&mut s, false)
        .iter()
        .any(|e| matches!(e, Effect::Then(Message::TerminalInput(x, d)) if x == "sid" && d == "x")));
    assert!(typed(&mut s, true).is_empty(), "a text input took it");
    s.panels.show_about = true;
    assert!(typed(&mut s, false).is_empty());
}

#[test]
fn esc_closes_what_is_drawn() {
    let mut s = opened();
    s.panels.show_about = true;
    s.error.show = true;
    s.error.message = "refused".into();
    assert_eq!(s.topmost_overlay(), Some(Overlay::ErrorDialog));
    update(&mut s, key(Named::Escape), &at(3));
    assert!(!s.error.show && s.error.message.is_empty());
    assert!(s.panels.show_about, "one at a time");
    update(&mut s, key(Named::Escape), &at(3));
    assert!(!s.any_overlay_open());
}

// ---- sign-ins ------------------------------------------------------------------------------------------

fn challenge(session_id: &str, ticket: u64) -> AuthChallenge {
    AuthChallenge {
        session_id: session_id.into(),
        target: "web".into(),
        purpose: "shell".into(),
        prompts: vec![("Code:".into(), false)],
        ticket,
    }
}

#[test]
fn an_answer_goes_to_the_challenge_on_screen() {
    let mut s = connected("sid");
    s.auth.inbox.push(challenge("sid", 7));
    s.auth.inbox.push(challenge("gone", 8));
    let fx = update(&mut s, Message::PollSshEvents, &at(10));
    assert!(fx.iter().any(|e| matches!(e, Effect::Cancel(8))), "its session is gone");
    assert_eq!(s.auth.queue.len(), 1);
    assert_eq!(s.topmost_overlay(), Some(Overlay::AuthPrompt));
    // Too soon to have been meant for it.
    let mut soon = at(10);
    soon.now += MILLISECOND;
    update(&mut s, Message::AuthAnswerChanged(0, "sudo".into()), &soon);
    assert_eq!(s.auth.answers, vec![String::new()]);
    assert!(update(&mut s, Message::AuthEnter, &soon).is_empty());
    assert_eq!(s.auth.queue.len(), 1);
    let mut later = at(10);
    later.now += AUTH_ARM_DELAY;
    update(&mut s, Message::AuthAnswerChanged(0, "123456".into()), &later);
    let fx = update(&mut s, Message::AuthEnter, &later);
    assert!(matches!(&fx[0], Effect::Answer(7, answers) if answers == &["123456".to_string()]));
    assert!(s.auth.queue.is_empty() && s.auth.answers.is_empty());
}

#[test]
fn closing_the_tab_withdraws_its_sign_in() {
    let mut s = connected("sid");
    s.auth.inbox.push(challenge("sid", 7));
    update(&mut s, Message::PollSshEvents, &at(10));
    let fx = update(&mut s, Message::TabClosed(0), &at(11));
    assert!(fx.iter().any(|e| matches!(e, Effect::Cancel(7))));
    assert!(s.auth.queue.is_empty());
}

// ---- files and transfers -----------------------------------------------------------------------------------

#[test]
fn a_delete_touches_what_was_confirmed() {
    let mut s = connected("sid");
    update(&mut s, Message::FilesReceived("sid".into(), "/srv".into(), vec![row("a.txt")]), &at(3));
    update(&mut s, Message::RemoteMenuOpen("sid".into(), "/srv".into(), Some(row("a.txt"))), &at(3));
    update(&mut s, Message::SftpDelete, &at(3));
    assert!(matches!(&s.browser.confirm, Some(ConfirmAction::SftpDelete { path, .. }) if path == "/srv/a.txt"));
    assert_eq!(s.topmost_overlay(), Some(Overlay::ConfirmAction));
    let fx = update(&mut s, Message::ConfirmActionExecute, &at(4));
    assert!(matches!(
        &fx[0],
        Effect::Remove(sid, dir, path, entry)
            if sid == "sid" && dir == "/srv" && path == "/srv/a.txt" && entry.name == "a.txt"
    ));
    assert!(update(&mut s, Message::ConfirmActionExecute, &at(4)).is_empty(), "once");
}

#[test]
fn a_rename_names_both_paths() {
    let mut s = connected("sid");
    update(&mut s, Message::RemoteMenuOpen("sid".into(), "/srv".into(), Some(row("a.txt"))), &at(3));
    update(&mut s, Message::SftpRename, &at(3));
    update(&mut s, Message::SftpInputChanged("a/b".into()), &at(3));
    assert!(update(&mut s, Message::SftpInputSubmit, &at(3)).is_empty());
    assert!(s.browser.input.as_ref().is_some_and(|d| d.error.is_some()), "the dialog says why");
    update(&mut s, Message::SftpInputChanged("b.txt".into()), &at(3));
    let fx = update(&mut s, Message::SftpInputSubmit, &at(3));
    assert!(fx.iter().any(|e| matches!(
        e,
        Effect::Rename(_, _, from, to, _) if from == "/srv/a.txt" && to == "/srv/b.txt"
    )));
}

#[test]
fn one_transfer_shows_its_bar_at_a_time() {
    let mut s = connected("sid");
    let picked = |s: &mut NeoShell, n: &str| {
        update(
            s,
            Message::UploadPicked("sid".into(), "/srv".into(), Some(local(&format!("/tmp/{n}"), n))),
            &at(3),
        )
    };
    let fx = picked(&mut s, "a");
    assert!(fx.iter().any(|e| matches!(
        e,
        Effect::Upload(sid, 0, from, to, false) if sid == "sid" && from == "/tmp/a" && to == "/srv/a"
    )));
    assert!(!picked(&mut s, "b").iter().any(|e| matches!(e, Effect::Upload(_, _, _, _, _))));
    assert!(s.error.show);
    assert_eq!(s.error.message, "Another transfer is running");
    // Another transfer's end leaves the bar alone.
    update(&mut s, Message::DownloadDone(5, Ok(())), &at(4));
    assert!(s.transfers.bar.is_some());
    update(&mut s, Message::UploadFinished("sid".into(), 0, Ok(())), &at(4));
    assert!(s.transfers.bar.is_none());
}

#[test]
fn a_drop_waits_for_the_bar() {
    let mut s = opened();
    update(&mut s, Message::FileDropped(local("/tmp/a", "a")), &at(3));
    assert_eq!(s.error.message, "Nowhere to drop it");
    let mut s = connected("sid");
    update(&mut s, Message::FilesReceived("sid".into(), "/srv".into(), Vec::new()), &at(3));
    let fx = update(&mut s, Message::FileDropped(local("/tmp/a", "a")), &at(3));
    assert!(fx.iter().any(|e| matches!(e, Effect::Upload(_, 0, from, _, _) if from == "/tmp/a")));
    update(&mut s, Message::FileDropped(local("/tmp/b", "b")), &at(3));
    assert_eq!(s.transfers.drops.len(), 1);
    let fx = update(&mut s, Message::UploadFinished("sid".into(), 0, Ok(())), &at(4));
    assert!(fx.iter().any(|e| matches!(e, Effect::Upload(_, 1, from, _, _) if from == "/tmp/b")));
    assert!(s.transfers.drops.is_empty());
}

// ---- processes -----------------------------------------------------------------------------------------------

#[test]
fn a_kill_is_confirmed_against_a_fresh_read() {
    let mut s = connected("sid");
    s.panels.process = Some(ProcessDetailInfo {
        pid: 42,
        fields: Vec::new(),
        children: Vec::new(),
        threads: Vec::new(),
        net_conns: Vec::new(),
        listen_ports: Vec::new(),
        open_fds: Vec::new(),
        session_id: "sid".into(),
    });
    let fx = update(&mut s, Message::KillProcessRequest(15), &at(3));
    assert!(matches!(&fx[0], Effect::ReadIdentity(x, 42, 15) if x == "sid"));
    update(&mut s, Message::KillIdentityRead("sid".into(), 42, 15, Ok(None)), &at(3));
    assert_eq!(s.error.message, "No process 42");
    let who = ProcIdentity { start_time: "777".into(), comm: "nginx".into(), cmdline: "nginx -g".into() };
    update(&mut s, Message::KillIdentityRead("sid".into(), 42, 15, Ok(Some(who))), &at(3));
    assert!(matches!(&s.browser.confirm, Some(ConfirmAction::Kill { command, .. }) if command == "nginx -g"));
    let fx = update(&mut s, Message::ConfirmActionExecute, &at(4));
    assert!(matches!(&fx[0], Effect::Kill(x, 42, 15, id) if x == "sid" && id.start_time == "777"));
}

// ---- search --------------------------------------------------------------------------------------------------

#[test]
fn hits_go_round_in_both_directions() {
    let mut s = connected("sid");
    update(&mut s, Message::ToggleTerminalSearch, &at(3));
    assert!(s.search.active);
    let hit = |n: usize| SearchMatch { abs_line: n, col_start: 0, col_end: 1 };
    update(&mut s, Message::TerminalSearchFound(vec![hit(0), hit(1), hit(2)]), &at(3));
    let first = s.search.current;
    for _ in 0..3 {
        update(&mut s, Message::TerminalSearchNext, &at(3));
    }
    assert_eq!(s.search.current, first);
    update(&mut s, Message::TerminalSearchPrev, &at(3));
    update(&mut s, Message::TerminalSearchNext, &at(3));
    assert_eq!(s.search.current, first);
}

// ---- broadcasts, snippets, keys -----------------------------------------------------------------------------------

#[test]
fn a_broadcast_goes_once_to_every_ticked_session() {
    let mut s = connected("a");
    connect(&mut s, "c2", "b");
    update(&mut s, Message::ShowBroadcastDialog, &at(3));
    assert_eq!(s.broadcast.selected.names().len(), 2);
    assert!(update(&mut s, Message::BroadcastSendNow, &at(3)).is_empty(), "nothing typed");
    update(&mut s, Message::BroadcastToggleSession("b".into()), &at(3));
    update(&mut s, Message::BroadcastTextChanged("uptime".into()), &at(3));
    let fx = update(&mut s, Message::BroadcastSendNow, &at(3));
    let sent: Vec<(&str, &str)> = fx
        .iter()
        .filter_map(|e| match e {
            Effect::TypeQuietly(x, d) => Some((x.as_str(), d.as_str())),
            _ => None,
        })
        .collect();
    assert_eq!(sent, [("a", "uptime\n")]);
    assert!(!s.broadcast.show && s.broadcast.text.is_empty());
}

#[test]
fn a_snippet_is_saved_and_sent() {
    let mut s = connected("sid");
    let fx = update(&mut s, Message::ShowSnippetsPanel, &at(3));
    assert!(fx.iter().any(|e| matches!(e, Effect::LoadSnippets)));
    update(&mut s, Message::SnippetFormNameChanged(" up ".into()), &at(3));
    assert!(update(&mut s, Message::SnippetSave, &at(3)).is_empty(), "no body yet");
    update(&mut s, Message::SnippetFormBodyChanged("uptime ".into()), &at(3));
    let fx = update(&mut s, Message::SnippetSave, &at(3));
    assert!(matches!(fx[0], Effect::SaveSnippets));
    assert_eq!(s.snippets.list.len(), 1);
    assert_eq!((s.snippets.list[0].name.as_str(), s.snippets.list[0].body.as_str()), ("up", "uptime"));
    let id = s.snippets.list[0].id.clone();
    update(&mut s, Message::SnippetEdit(Some(id.clone())), &at(3));
    update(&mut s, Message::SnippetFormBodyChanged("uptime -p".into()), &at(3));
    update(&mut s, Message::SnippetSave, &at(3));
    assert_eq!(s.snippets.list.len(), 1, "changed in its place");
    let fx = update(&mut s, Message::SnippetSend(id.clone()), &at(3));
    assert!(fx.iter().any(|e| matches!(e, Effect::TypeQuietly(x, d) if x == "sid" && d == "uptime -p\n")));
    assert!(!s.snippets.show);
    update(&mut s, Message::SnippetDelete(id), &at(3));
    assert!(s.snippets.list.is_empty());
}

#[test]
fn keys_are_made_copied_and_deployed() {
    let mut s = opened();
    let fx = update(&mut s, Message::ShowKeyManager, &at(3));
    assert!(matches!(fx[0], Effect::ListKeys));
    let fx = update(&mut s, Message::KeyGenerate, &at(3));
    assert!(matches!(&fx[0], Effect::GenerateKey(n, c) if n == "id_ed25519_neoshell" && c.is_empty()));
    update(&mut s, Message::KeyGenerated(Err("exists".into())), &at(3));
    assert_eq!(s.keys.status.as_deref(), Some("✗ exists"));
    let made = vec![LocalKey { path: "/k".into(), pubkey: "ssh-ed25519 AAAA".into() }];
    update(&mut s, Message::KeyGenerated(Ok(made)), &at(3));
    assert_eq!(s.keys.status.as_deref(), Some("Generated"));
    let fx = update(&mut s, Message::KeyCopyPubkey("/k".into()), &at(3));
    assert!(matches!(&fx[0], Effect::Copy(t) if t == "ssh-ed25519 AAAA"));
    assert!(update(&mut s, Message::KeyCopyPubkey("/other".into()), &at(3)).is_empty());
    let fx = update(&mut s, Message::KeyDeployTo("/k".into(), "c1".into()), &at(3));
    assert!(matches!(&fx[0], Effect::DeployKey(k, c) if k == "ssh-ed25519 AAAA" && c == "c1"));
    update(&mut s, Message::KeyDeployDone(Ok("web".into())), &at(3));
    assert_eq!(s.keys.status.as_deref(), Some("Deployed to web"));
}

// ---- what is kept ---------------------------------------------------------------------------------------------------

#[test]
fn a_clear_is_written_at_once_and_outlives_the_load() {
    let mut s = opened();
    let seq = s.history.sync.load_seq;
    s.history.records = vec![record("mysql -phunter2")];
    let fx = update(&mut s, Message::ClearHistory, &at(3));
    assert!(matches!(&fx[0], Effect::WriteHistory(1, records, true, true) if records.is_empty()));
    let load = HistoryLoad {
        records: vec![record("mysql -phunter2")],
        writable: true,
        unsettled: false,
        legacy_found: true,
    };
    let fx = update(&mut s, Message::HistoryLoaded(seq, load), &at(4));
    assert!(s.history.records.is_empty(), "not brought back");
    assert!(fx.is_empty(), "the clear retires the cleartext file");
}

#[test]
fn a_history_that_cannot_be_saved_is_said() {
    let mut s = opened();
    let seq = s.history.sync.load_seq;
    let load = HistoryLoad { records: Vec::new(), writable: false, unsettled: false, legacy_found: false };
    update(&mut s, Message::HistoryLoaded(seq, load), &at(4));
    assert!(s.error.show);
    assert_eq!(s.error.message, "Nothing will be saved");
    assert_eq!(s.error.title, Some((fingerprint("Nothing will be saved"), "history.warn.title")));
    s.history.sync.dirty = true;
    assert!(update(&mut s, Message::FlushHistory, &at(500)).is_empty());
}

#[test]
fn flushes_are_paced_and_retried() {
    let mut s = opened();
    s.history.sync.loaded = true;
    s.history.sync.dirty = true;
    s.history.records = vec![record("ls")];
    assert_eq!(update(&mut s, Message::FlushHistory, &at(100)).len(), 1);
    assert!(!s.history.sync.dirty);
    update(&mut s, Message::HistoryWritten(Err("full".into())), &at(101));
    assert!(s.history.sync.dirty);
    assert!(update(&mut s, Message::FlushHistory, &at(159)).is_empty());
    assert_eq!(update(&mut s, Message::FlushHistory, &at(160)).len(), 1);
}

#[test]
fn a_burst_of_folds_is_saved_once() {
    let mut s = opened();
    s.sessions.connections = vec![conn("1", "prod"), conn("2", "")];
    let gen = |fx: Vec<Effect>| match fx[0] {
        Effect::ScheduleGroupsSave(g) => g,
        _ => panic!("no save"),
    };
    let first = gen(update(&mut s, Message::ToggleGroupCollapsed("prod".into()), &at(3)));
    let second = gen(update(&mut s, Message::SetAllGroupsCollapsed(true), &at(3)));
    assert!(s.groups.collapsed.contains("prod") && s.groups.collapsed.contains(""));
    assert!(update(&mut s, Message::SaveCollapsedGroups(first), &at(4)).is_empty());
    let fx = update(&mut s, Message::SaveCollapsedGroups(second), &at(4));
    assert!(matches!(&fx[0], Effect::WriteGroups(1, bytes, false) if bytes == b"[\"\",\"prod\"]"));
    update(&mut s, Message::SetAllGroupsCollapsed(false), &at(5));
    assert!(s.groups.collapsed.is_empty());
}

#[test]
fn a_cleartext_group_list_is_sealed_and_retired() {
    let mut s = opened();
    let fx = update(
        &mut s,
        Message::GroupsRead(SealedGroups::Missing, true, Some(b"[\"prod\"]".to_vec())),
        &at(3),
    );
    assert!(s.groups.collapsed.contains("prod"));
    assert!(matches!(&fx[0], Effect::WriteGroups(_, bytes, true) if bytes == b"[\"prod\"]"));
}

#[test]
fn quitting_writes_what_disk_has_not_seen() {
    let mut s = opened();
    assert!(matches!(
        update(&mut s, Message::QuitApp, &at(3)).as_slice(),
        [Effect::SettleHistory, Effect::Quit]
    ));
    s.history.sync.loaded = true;
    s.history.sync.dirty = true;
    s.history.records = vec![record("ls")];
    s.groups.dirty = true;
    s.groups.collapsed = NameSet::of(vec!["prod".into()]);
    let fx = update(&mut s, Message::QuitApp, &at(3));
    assert!(matches!(
        fx.as_slice(),
        [Effect::SettleHistory, Effect::WriteHistoryNow(_, _), Effect::WriteGroupsNow(_, _), Effect::Quit]
    ));
}

// ---- panels ---------------------------------------------------------------------------------------------------------

#[test]
fn the_log_viewer_toggles_and_says_why_it_cannot_read() {
    let mut s = opened();
    assert!(matches!(update(&mut s, Message::ShowLogViewer, &at(3))[0], Effect::ReadLog));
    update(&mut s, Message::LogRead("/l".into(), Err("gone".into())), &at(3));
    assert!(s.panels.show_log);
    assert_eq!(s.panels.log_content, "/l: gone");
    update(&mut s, Message::ShowLogViewer, &at(3));
    assert!(!s.panels.show_log && s.panels.log_content.is_empty());
    update(&mut s, Message::LogRead("/l".into(), Ok("line".into())), &at(3));
    assert_eq!(s.panels.log_content, "line");
}

#[test]
fn the_copied_mark_is_of_the_message_copied() {
    let mut s = opened();
    update(&mut s, Message::Error("refused".into()), &at(3));
    let fx = update(&mut s, Message::CopyErrorText, &at(3));
    assert!(fx.iter().any(|e| matches!(e, Effect::CopyError(t) if t == "refused")));
    assert_eq!(s.error.copied, None);
    update(&mut s, Message::ErrorTextCopied, &at(3));
    assert_eq!(s.error.copied, Some(fingerprint("refused")));
}

#[test]
fn the_ports_are_fetched_as_they_come_up() {
    let mut s = connected("sid");
    let fx = update(&mut s, Message::SwitchBottomTab(BottomTab::Ports), &at(3));
    assert!(fx.iter().any(|e| matches!(e, Effect::Then(Message::FetchPorts))));
    assert!(update(&mut s, Message::SwitchBottomTab(BottomTab::Files), &at(3)).is_empty());
    let fx = update(&mut s, Message::ToggleLanguage, &at(3));
    assert!(matches!(&fx[0], Effect::SaveLocale(l) if l == "zh-CN"));
}

// ---- the focus, the input method, the timers -----------------------------------------------------------------------

#[test]
fn a_press_asks_once_where_the_focus_is() {
    let mut s = opened();
    let before = s.focus.issued;
    let fx = update(&mut s, Message::FocusMayHaveMoved, &at(3));
    assert!(matches!(fx.as_slice(), [Effect::QueryFocus(n)] if *n == before + 1));
    assert!(!s.focus.answered());
    update(&mut s, Message::FocusFound(before + 1, None), &at(3));
    assert!(s.focus.answered());
    // A modal that comes up may take the focus with it.
    let fx = update(&mut s, Message::ShowSettings, &at(3));
    assert!(fx.iter().any(|e| matches!(e, Effect::QueryFocus(_))));
    // A message that moves the focus itself asks only once.
    let fx = update(&mut s, Message::TogglePalette, &at(3));
    let asked = fx.iter().filter(|e| matches!(e, Effect::QueryFocus(_) | Effect::Focus(_, _))).count();
    assert_eq!(asked, 1);
}

#[test]
fn the_input_method_follows_the_focus() {
    let mut s = start(true);
    assert!(!sync_input_method(&s).allowed, "the vault's screens");
    s = connected("sid");
    let issued = s.focus.issued;
    update(&mut s, Message::FocusFound(issued, None), &at(3));
    s.sessions.tabs[0].terminal.cursor_x = 500;
    s.sessions.tabs[0].terminal.cursor_y = 3;
    let m = sync_input_method(&s);
    assert!(m.allowed);
    assert_eq!(m.anchor, Some((s.sessions.tabs[0].terminal.cols - 1, 3)));
    s.form.show = true;
    assert_eq!(sync_input_method(&s).anchor, None, "something else has the keys");
    update(&mut s, Message::FocusMayHaveMoved, &at(3));
    assert!(!sync_input_method(&s).allowed, "a secret may be focused");
    let issued = s.focus.issued;
    update(&mut s, Message::FocusFound(issued, Some("conn_password".into())), &at(3));
    assert!(!sync_input_method(&s).allowed);
}

#[test]
fn timers_run_where_there_is_something_to_do() {
    let s = start(true);
    let sub = subscription(&s, false);
    assert_eq!(sub.check_for_update, UPDATE_TICK);
    assert_eq!(
        (sub.poll_ssh_events, sub.fetch_monitor_data, sub.idle_check, sub.tunnel_state, sub.flush_history),
        (None, None, None, None, None)
    );
    assert!(!sub.user_input);
    let mut s = connected("sid");
    s.tunnel.show_manager = true;
    s.history.sync.dirty = true;
    let sub = subscription(&s, false);
    assert_eq!(sub.fetch_monitor_data, Some(MONITOR_TICK));
    assert_eq!(sub.idle_check, Some(IDLE_TICK));
    assert_eq!(sub.tunnel_state, Some(TUNNEL_TICK));
    assert_eq!(sub.flush_history, Some(HISTORY_FLUSH_TICK));
    assert!(sub.user_input && sub.poll_ssh_events.is_some());
    update(&mut s, Message::SetLockTimeout(0), &at(3));
    assert_eq!(subscription(&s, false).idle_check, None);
}

#[test]
fn a_claimed_press_stays_out_of_the_terminal() {
    assert!(matches!(press_message(false, Some(MouseButton::Right)), Message::TerminalMouseDown(MouseButton::Right)));
    assert!(matches!(press_message(true, Some(MouseButton::Left)), Message::FocusMayHaveMoved));
    assert!(matches!(press_message(false, None), Message::FocusMayHaveMoved));
    assert!(matches!(wheel_message(false, true, false), Some(Message::TerminalScrollUp(3))));
    assert!(matches!(wheel_message(false, false, true), Some(Message::TerminalScrollDown(3))));
    assert!(wheel_message(false, false, false).is_none());
    assert!(wheel_message(true, true, false).is_none());
}

#[test]
fn fresh_ids_differ() {
    let (a, b) = (at(0).new_id, at(0).new_id);
    assert_eq!(a.len(), 36);
    assert_eq!(a.matches('-').count(), 4);
    assert_ne!(a, b);
}

#[test]
fn a_snippet_sent_to_no_session_goes_nowhere() {
    let mut s = opened();
    s.snippets.list = vec![Snippet { id: "1".into(), name: "n".into(), body: "ls\n".into() }];
    s.snippets.show = true;
    let fx = update(&mut s, Message::SnippetSend("1".into()), &at(3));
    assert!(!fx.iter().any(|e| matches!(e, Effect::TypeQuietly(_, _))));
    assert!(!s.snippets.show);
}
