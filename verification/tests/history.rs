//! The command history: what is kept, and when it reaches the disk.

use neoshell::catalog::Catalog;
use neoshell::common::error_dialog_title;
use neoshell::folded::groups_load;
use neoshell::folded::groups_snapshot;
use neoshell::folded::merge_groups;
use neoshell::folded::sorted_names;
use neoshell::folded::SealedGroups;
use neoshell::history::aside_extension;
use neoshell::history::clear_history;
use neoshell::history::history_flush_due;
use neoshell::history::history_load;
use neoshell::history::history_write_allowed;
use neoshell::history::keep_newest;
use neoshell::history::land_history_load;
use neoshell::history::lock_history;
use neoshell::history::merge_history;
use neoshell::history::quick_cmd_matches;
use neoshell::history::set_aside_wanted;
use neoshell::history::start_history_load;
use neoshell::history::CmdRecord;
use neoshell::history::HistoryLoad;
use neoshell::history::HistorySync;
use neoshell::history::HistoryWarning;
use neoshell::history::LoadLanded;
use neoshell::history::PendingLoad;
use neoshell::history::SealedRead;
use neoshell::history::WriteLedger;
use neoshell::history::HISTORY_FLUSH_INTERVAL;
use neoshell::history::HISTORY_MAX;
use neoshell::history::QUICK_CMD_SUGGESTIONS;
use neoshell::names::NameSet;
use neoshell::settings::Snippet;
use neoshell::settings::SECOND;
use neoshell::titles::fingerprint;

fn texts(pairs: &[(&str, &str)]) -> Catalog {
    Catalog { entries: pairs.iter().map(|(k, v)| (k.to_string(), v.to_string())).collect() }
}

fn record(cmd: &str, timestamp: u64) -> CmdRecord {
    CmdRecord {
        cmd: cmd.to_string(),
        session_title: "root@web:22".to_string(),
        host: "web".to_string(),
        timestamp,
    }
}

fn snippet(body: &str) -> Snippet {
    Snippet { id: body.to_string(), name: body.to_string(), body: body.to_string() }
}

/// What tells records apart.
fn lines(records: &[CmdRecord]) -> Vec<(String, String, String, u64)> {
    records
        .iter()
        .map(|r| (r.cmd.clone(), r.session_title.clone(), r.host.clone(), r.timestamp))
        .collect()
}

fn fresh() -> HistorySync {
    HistorySync::new()
}

fn load_of(records: Vec<CmdRecord>, writable: bool, legacy_found: bool) -> HistoryLoad {
    HistoryLoad { records, writable, unsettled: false, legacy_found }
}

#[test]
fn quick_cmd_matches_newest_history_first_then_snippets() {
    let history = vec![
        record("git status", 1),
        record("git log --oneline", 2),
        record("ls -la", 3),
        record("git status", 4), // run again: counts as the newest
    ];
    let snippets = vec![snippet("git pull --rebase"), snippet("docker ps")];
    assert_eq!(
        quick_cmd_matches("git", &history, &snippets),
        vec!["git status", "git log --oneline", "git pull --rebase"],
        "newest first, de-duplicated, snippets after history"
    );
    // Case matters to a shell.
    assert!(quick_cmd_matches("GIT", &history, &snippets).is_empty());
}

#[test]
fn quick_cmd_matches_caps_and_skips_what_it_cannot_offer() {
    let history: Vec<CmdRecord> = (0..20).map(|i| record(&format!("echo {}", i), i)).collect();
    let offered = quick_cmd_matches("echo", &history, &[]);
    assert_eq!(offered.len(), QUICK_CMD_SUGGESTIONS);
    assert_eq!(offered[0], "echo 19", "most recent first");
    // Nothing for an empty input, and never the text exactly as typed.
    assert!(quick_cmd_matches("", &history, &[]).is_empty());
    assert!(quick_cmd_matches("   ", &history, &[]).is_empty());
    assert!(quick_cmd_matches("echo 19", &history, &[]).is_empty());
    // A multi-line snippet cannot go into a one-line input.
    let multi = vec![snippet("cd /srv\nmake deploy"), snippet("cd /srv && make\n")];
    assert_eq!(quick_cmd_matches("cd", &[], &multi), vec!["cd /srv && make"]);
}

/// The records that an interrupted import left in both files come up once.
#[test]
fn an_interrupted_import_does_not_duplicate_records() {
    let both = || vec![record("ls", 100), record("uptime", 200)];
    let load = history_load(true, true, SealedRead::Records(both()), false, Some(both()));
    assert!(load.legacy_found);
    assert_eq!(lines(&load.records), lines(&both()));
}

/// A snapshot that is written late is dropped: the clear that was sealed after
/// it stays.
#[test]
fn a_flush_that_runs_late_cannot_undo_a_clear() {
    let mut ledger = WriteLedger::new();
    let flush = ledger.seal();
    let clear = ledger.seal();
    assert!(ledger.is_newer(clear));
    ledger.note_written(clear);
    assert!(!ledger.is_newer(flush), "a stale snapshot is dropped");
    assert_eq!(ledger.pending, 2);
    ledger.settle();
    ledger.settle();
    assert_eq!(ledger.pending, 0);
    ledger.settle();
    assert_eq!(ledger.pending, 0);
}

/// Whatever order the writes come in, what is on disk never goes back.
#[test]
fn what_is_written_never_goes_back() {
    let mut ledger = WriteLedger::new();
    let mut seen = 0;
    for seq in [3, 1, 4, 1, 5, 2] {
        if ledger.is_newer(seq) {
            ledger.note_written(seq);
        }
        assert!(ledger.written >= seen && ledger.written >= seq);
        seen = ledger.written;
    }
    assert_eq!(seen, 5);
}

#[test]
fn locking_wipes_the_history_and_seals_what_disk_has_not_seen() {
    let typed = || vec![record("ls", 1), record("mysql -phunter2", 2)];
    let mut records = typed();
    let mut sync = HistorySync { dirty: true, loaded: true, flushed_at: None, ..fresh() };
    let job = lock_history(&mut records, &mut sync);
    assert!(records.is_empty(), "no record survives the lock in memory");
    assert!(!sync.dirty && !sync.loaded);
    let much_later = 3600 * SECOND;
    assert!(!history_flush_due(&sync, much_later), "nothing is written while locked");
    // The unsaved records were sealed before the key went, not lost.
    assert_eq!(lines(&job.expect("unsaved records are sealed")), lines(&typed()));

    // Nothing unsaved: nothing to write, and still wiped.
    let mut records = typed();
    let mut sync = HistorySync { dirty: false, loaded: true, flushed_at: None, ..fresh() };
    assert!(lock_history(&mut records, &mut sync).is_none());
    assert!(records.is_empty());

    // Never loaded: wiped, and never written over a file it did not see.
    let mut records = typed();
    let mut sync = HistorySync { dirty: true, loaded: false, flushed_at: None, ..fresh() };
    assert!(lock_history(&mut records, &mut sync).is_none());
    assert!(records.is_empty());
}

#[test]
fn only_a_clear_writes_before_the_file_was_loaded() {
    let unloaded = fresh();
    assert!(!history_write_allowed(&unloaded, false), "would write over unseen records");
    assert!(history_write_allowed(&unloaded, true), "a clear replaces them on purpose");
    let loaded = HistorySync { loaded: true, ..fresh() };
    assert!(history_write_allowed(&loaded, false));
    assert!(history_write_allowed(&loaded, true));
}

#[test]
fn commands_typed_while_the_history_loads_are_kept_after_the_saved_ones() {
    let mut sync = fresh();
    let seq = start_history_load(&mut sync);
    assert_eq!(sync.pending_load, Some(PendingLoad { seq, cleared: false }));
    // Typed after the unlock, before the load came back.
    let mut records = vec![record("uptime", 200)];
    sync.dirty = true;
    let saved = load_of(vec![record("ls", 100)], true, false);
    let landed = land_history_load(&mut records, &mut sync, seq, saved).expect("wanted");
    assert_eq!(landed, LoadLanded { import_legacy: false, warning: None });
    assert_eq!(lines(&records), lines(&[record("ls", 100), record("uptime", 200)]));
    assert!(sync.loaded, "writes may go out now");
    assert!(sync.dirty, "the typed line is not on disk yet");
    assert_eq!(sync.pending_load, None);

    // Nothing typed meanwhile: nothing new to write, but an imported cleartext
    // file is sealed at once.
    let seq = start_history_load(&mut sync);
    let mut records = Vec::new();
    let saved = load_of(vec![record("ls", 100)], true, true);
    let landed = land_history_load(&mut records, &mut sync, seq, saved).expect("wanted");
    assert!(landed.import_legacy);
    assert!(!sync.dirty);
}

#[test]
fn a_load_overtaken_by_a_lock_or_a_later_unlock_never_lands() {
    let saved = || load_of(vec![record("mysql -phunter2", 1)], true, false);

    // Locked before the load came back.
    let mut sync = fresh();
    let seq = start_history_load(&mut sync);
    let mut records = vec![record("whoami", 5)];
    sync.dirty = true;
    assert!(lock_history(&mut records, &mut sync).is_none(), "never loaded: nothing is written");
    assert_eq!(land_history_load(&mut records, &mut sync, seq, saved()), None);
    assert!(records.is_empty(), "nothing comes back under the lock");
    assert!(!sync.loaded && !sync.dirty);

    // Two unlocks in a row: only the second load lands.
    let first = start_history_load(&mut sync);
    let second = start_history_load(&mut sync);
    assert_eq!(land_history_load(&mut records, &mut sync, first, saved()), None);
    assert!(land_history_load(&mut records, &mut sync, second, saved()).is_some());
    assert_eq!(lines(&records), lines(&[record("mysql -phunter2", 1)]));
    // Loading again what memory already holds does not double it.
    let third = start_history_load(&mut sync);
    assert!(land_history_load(&mut records, &mut sync, third, saved()).is_some());
    assert_eq!(lines(&records), lines(&[record("mysql -phunter2", 1)]));
}

#[test]
fn a_clear_while_the_history_loads_is_not_undone_when_it_lands() {
    let mut sync = fresh();
    let seq = start_history_load(&mut sync);
    let mut records = vec![record("ls", 10)];
    clear_history(&mut records, &mut sync);
    assert!(records.is_empty() && !sync.dirty);
    records.push(record("pwd", 20));
    sync.dirty = true;
    // Read before the clear reached the disk, a cleartext import with it.
    let stale = load_of(vec![record("mysql -phunter2", 1)], true, true);
    let landed = land_history_load(&mut records, &mut sync, seq, stale).expect("wanted");
    assert_eq!(lines(&records), lines(&[record("pwd", 20)]));
    assert!(!landed.import_legacy, "the clear's own write retires it");
    assert!(sync.loaded && sync.dirty);
}

#[test]
fn history_that_cannot_be_saved_is_said_not_only_logged() {
    // A write that does not land in time.
    let load = history_load(true, false, SealedRead::Records(vec![record("ls", 1)]), false, None);
    assert!(!load.writable && load.unsettled);
    assert_eq!(lines(&load.records), lines(&[record("ls", 1)]), "what is there still shows");

    let mut sync = fresh();
    let seq = start_history_load(&mut sync);
    let landed = land_history_load(&mut Vec::new(), &mut sync, seq, load).expect("wanted");
    assert_eq!(landed.warning.map(|w| w.key()), Some("history.warn.unsettled"));
    assert!(!sync.loaded, "nothing is written over the file");

    // Unreadable, and not moved aside either.
    let seq = start_history_load(&mut sync);
    let landed = land_history_load(&mut Vec::new(), &mut sync, seq, load_of(Vec::new(), false, false));
    assert_eq!(landed.and_then(|l| l.warning), Some(HistoryWarning::Unreadable));
    assert_eq!(HistoryWarning::Unreadable.key(), "history.warn.unreadable");
}

#[test]
fn a_notice_title_goes_with_its_own_message_only() {
    let texts = texts(&[("sftp.err.skipped_names", "{count} entries were left out")]);
    let note = texts.tf("sftp.err.skipped_names", "count", "3");
    let bound = Some((fingerprint(&note), "notice.skipped_title"));
    assert_eq!(error_dialog_title(bound, &note), "notice.skipped_title");
    // An error put up afterwards, by any path, is titled as ever.
    assert_eq!(error_dialog_title(bound, "Connection refused"), "err.title");
    assert_eq!(error_dialog_title(None, &note), "err.title");
}

#[test]
fn paced_history_writes_go_out_at_most_once_a_minute() {
    assert_eq!(HISTORY_FLUSH_INTERVAL, 60 * SECOND);
    let t0 = 1_000 * SECOND;
    let never = HistorySync { dirty: true, loaded: true, flushed_at: None, ..fresh() };
    assert!(history_flush_due(&never, t0), "the first write of a session goes at once");

    let sync = HistorySync { flushed_at: Some(t0), ..never };
    for secs in [0, 3, 6, 30, 59] {
        assert!(!history_flush_due(&sync, t0 + secs * SECOND), "{secs}s after a write");
    }
    assert!(history_flush_due(&sync, t0 + 60 * SECOND));
    assert!(history_flush_due(&sync, t0 + 61 * SECOND));
    assert!(history_flush_due(&sync, t0 + 86_400 * SECOND));
    assert!(!history_flush_due(&sync, t0 - SECOND), "a clock read before the write");

    // Nothing new, or not loaded since the unlock: never.
    let later = t0 + 600 * SECOND;
    assert!(!history_flush_due(&HistorySync { dirty: false, ..sync }, later));
    assert!(!history_flush_due(&HistorySync { loaded: false, ..sync }, later));
}

#[test]
fn a_locked_vault_loads_no_history() {
    let load = history_load(
        false,
        true,
        SealedRead::Records(vec![record("uptime", 1)]),
        false,
        Some(vec![record("export TOKEN=abc", 2)]),
    );
    assert!(load.records.is_empty(), "nothing is read before the unlock");
    assert!(!load.writable && !load.legacy_found);
    // A lock while the load was under way is no reason to set the file aside.
    assert!(!set_aside_wanted(true, &SealedRead::LockedMeanwhile));
    assert!(set_aside_wanted(true, &SealedRead::Unreadable));
    assert!(!set_aside_wanted(true, &SealedRead::Records(Vec::new())));
    let load = history_load(true, true, SealedRead::LockedMeanwhile, false, None);
    assert!(!load.writable && load.records.is_empty());
}

#[test]
fn an_unreadable_history_is_written_over_only_once_it_is_set_aside() {
    assert!(!history_load(true, true, SealedRead::Unreadable, false, None).writable);
    assert!(history_load(true, true, SealedRead::Unreadable, true, None).writable);
    assert_eq!(aside_extension(0), "enc.unreadable");
    assert_eq!(aside_extension(1), "enc.unreadable.1");
}

#[test]
fn a_cleartext_history_is_merged_oldest_first() {
    let merged = merge_history(
        vec![record("ls", 200)],
        vec![record("export TOKEN=abc", 100), record("uptime", 300)],
    );
    assert_eq!(
        lines(&merged),
        lines(&[record("export TOKEN=abc", 100), record("ls", 200), record("uptime", 300)])
    );
}

#[test]
fn the_newest_records_are_kept() {
    let list: Vec<CmdRecord> =
        (0..HISTORY_MAX as u64 + 20).map(|i| record(&format!("mysql -phunter{}", i), i)).collect();
    let kept = keep_newest(list);
    assert_eq!(kept.len(), HISTORY_MAX);
    assert_eq!(kept[0].cmd, "mysql -phunter20", "oldest dropped");
    assert_eq!(kept[HISTORY_MAX - 1].cmd, format!("mysql -phunter{}", HISTORY_MAX + 19));
}

#[test]
fn two_lists_of_folded_groups_are_one_set() {
    let list = |names: &[&str]| Some(names.iter().map(|s| s.to_string()).collect::<Vec<String>>());
    let both = merge_groups(list(&["a", "b", "a"]), list(&["b", "c"]));
    assert_eq!(sorted_names(&both), ["a", "b", "c"]);
    assert_eq!(sorted_names(&merge_groups(None, list(&["c"]))), ["c"]);
    assert!(merge_groups(None, None).is_empty());
}

fn set_of(names: &[&str]) -> NameSet {
    NameSet::of(names.iter().map(|s| s.to_string()).collect())
}

/// What is sealed is read back, Chinese names included; damage folds nothing.
#[test]
fn folded_groups_are_read_back_as_they_were_sealed() {
    let saved = set_of(&["生产环境", "开发 / 测试", "", "Web"]);
    let bytes = groups_snapshot(&saved).expect("a list of names");
    assert_eq!(String::from_utf8_lossy(&bytes), "[\"\",\"Web\",\"开发 / 测试\",\"生产环境\"]");
    let (read, legacy) = groups_load(true, &SealedGroups::Opened(bytes), false, &None);
    assert!(!legacy);
    for name in ["生产环境", "开发 / 测试", "", "Web"] {
        assert!(read.contains(name), "{name}");
    }
    assert_eq!(read.names().len(), 4);

    // Locked: nothing is read.
    let bytes = groups_snapshot(&saved).expect("a list of names");
    let (read, legacy) = groups_load(false, &SealedGroups::Opened(bytes), true, &Some(b"[\"x\"]".to_vec()));
    assert!(read.is_empty() && !legacy);
    // A damaged file folds nothing rather than failing.
    let (read, _) = groups_load(true, &SealedGroups::Opened(b"{ not json".to_vec()), false, &None);
    assert!(read.is_empty());
    let (read, _) = groups_load(true, &SealedGroups::Unreadable, false, &None);
    assert!(read.is_empty());
    let (read, _) = groups_load(true, &SealedGroups::Missing, false, &None);
    assert!(read.is_empty());
}

/// The first unlock imports what was written in the clear.
#[test]
fn cleartext_groups_are_imported_after_the_unlock() {
    let legacy = Some("[\"生产环境\",\"\"]".as_bytes().to_vec());
    let (read, found) = groups_load(true, &SealedGroups::Missing, true, &legacy);
    assert!(found);
    assert!(read.contains("生产环境") && read.contains(""));
    assert_eq!(read.names().len(), 2);
}
