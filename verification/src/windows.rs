//! The panels of the window, the error dialog, the log, and the way out.

use vstd::prelude::*;

use crate::catalog;
use crate::common;
use crate::folded;
use crate::history;
use crate::history::WriteLedger;
use crate::logs;
use crate::settings;
use crate::state::BottomTab;
use crate::state::Effect;
use crate::state::Env;
use crate::state::ErrorBox;
use crate::state::Groups;
use crate::state::HistoryPanel;
use crate::state::Message;
use crate::state::NeoShell;
use crate::state::Panels;
use crate::state::Sessions;
use crate::state::Typing;
use crate::titles;

verus! {

// ---- the bottom panel ------------------------------------------------------------------------------------

pub open spec fn bottom_switched(before: NeoShell, tab: BottomTab, after: NeoShell, fx: Seq<Effect>) -> bool {
    &&& after == (NeoShell {
        panels: Panels { bottom_tab: tab, ..before.panels },
        typing: Typing { quick_cmd_focused: false, ..before.typing },
        ..before
    })
    &&& fx == (if tab is Ports {
        seq![Effect::Then(Message::FetchPorts)]
    } else {
        Seq::empty()
    })
}

/// Show another part of the bottom panel. The ports are fetched as they come
/// up.
pub fn on_switch_bottom_tab(state: &mut NeoShell, tab: BottomTab) -> (fx: Vec<Effect>)
    ensures
        bottom_switched(*old(state), tab, *final(state), fx@),
{
    state.panels.bottom_tab = tab;
    state.typing.quick_cmd_focused = false;
    match tab {
        BottomTab::Ports => common::one(Effect::Then(Message::FetchPorts)),
        _ => common::nothing(),
    }
}

// ---- the log -----------------------------------------------------------------------------------------------

/// The log viewer is closed, and holds nothing.
pub open spec fn log_hidden(before: NeoShell, after: NeoShell) -> bool {
    &&& after.panels.log_content@.len() == 0
    &&& after == (NeoShell {
        panels: Panels { show_log: false, log_content: after.panels.log_content, ..before.panels },
        ..before
    })
}

pub open spec fn log_toggled(before: NeoShell, after: NeoShell, fx: Seq<Effect>) -> bool {
    if before.panels.show_log {
        log_hidden(before, after) && fx.len() == 0
    } else {
        after == before && fx == seq![Effect::ReadLog]
    }
}

/// Show the log, or close it.
pub fn on_show_log_viewer(state: &mut NeoShell) -> (fx: Vec<Effect>)
    ensures
        log_toggled(*old(state), *final(state), fx@),
{
    if state.panels.show_log {
        state.panels.show_log = false;
        state.panels.log_content = String::new();
        return common::nothing();
    }
    common::one(Effect::ReadLog)
}

/// What the log viewer shows of the file.
pub open spec fn log_text(path: Seq<char>, content: Result<String, String>, env: Env) -> Seq<char> {
    match content {
        Ok(c) => logs::log_shown(c@, env.texts),
        Err(e) => catalog::filled(env.texts.says_with("log.err.read"@, "path"@, path), "err"@, e@),
    }
}

pub open spec fn log_opened(
    before: NeoShell,
    path: Seq<char>,
    content: Result<String, String>,
    env: Env,
    after: NeoShell,
) -> bool {
    &&& after.panels.log_content@ == log_text(path, content, env)
    &&& after == (NeoShell {
        panels: Panels { show_log: true, log_content: after.panels.log_content, ..before.panels },
        ..before
    })
}

/// The log file was read.
pub fn on_log_read(state: &mut NeoShell, path: String, content: Result<String, String>, env: &Env)
    ensures
        log_opened(*old(state), path@, content, *env, *final(state)),
{
    let text = match content {
        Ok(c) => logs::shown_log(c, &env.texts),
        Err(e) => {
            let text = env.texts.tf("log.err.read", "path", path.as_str());
            catalog::fill(text.as_str(), "err", e.as_str())
        },
    };
    state.panels.log_content = text;
    state.panels.show_log = true;
}

// ---- the language -------------------------------------------------------------------------------------------

pub open spec fn language_toggled(before: NeoShell, after: NeoShell, fx: Seq<Effect>) -> bool {
    &&& after.panels.locale@ == (if before.panels.locale@ == "zh-CN"@ {
        "en"@
    } else {
        "zh-CN"@
    })
    &&& after == (NeoShell { panels: Panels { locale: after.panels.locale, ..before.panels }, ..before })
    &&& fx == seq![Effect::SaveLocale(after.panels.locale)]
}

/// Switch between the two languages.
pub fn on_toggle_language(state: &mut NeoShell) -> (fx: Vec<Effect>)
    ensures
        language_toggled(*old(state), *final(state), fx@),
{
    state.panels.locale = settings::toggled_locale(state.panels.locale.as_str());
    common::one(Effect::SaveLocale(state.panels.locale.clone()))
}

// ---- the way out ---------------------------------------------------------------------------------------------

/// A snapshot was numbered, and is written before anything else happens.
pub open spec fn numbered(l: WriteLedger) -> WriteLedger {
    WriteLedger { next_seq: (l.next_seq + 1) as u64, ..l }
}

pub open spec fn last_history(before: HistoryPanel, unlocked: bool, after: HistoryPanel, fx: Seq<Effect>) -> bool {
    if before.sync.dirty && before.sync.loaded && unlocked {
        &&& after == (HistoryPanel { ledger: numbered(before.ledger), ..before })
        &&& fx.len() == 1
        &&& match fx[0] {
            Effect::WriteHistoryNow(n, records) => n == after.ledger.next_seq && records@ == history::newest(
                before.records@,
                history::HISTORY_MAX as int,
            ),
            _ => false,
        }
    } else {
        after == before && fx.len() == 0
    }
}

fn write_history_now(h: &mut HistoryPanel, unlocked: bool) -> (fx: Vec<Effect>)
    requires
        old(h).ledger.next_seq < u64::MAX,
        old(h).ledger.pending < u64::MAX,
    ensures
        last_history(*old(h), unlocked, *final(h), fx@),
{
    if h.sync.dirty && h.sync.loaded && unlocked {
        let records = common::newest_of(&h.records);
        let seq = h.ledger.seal();
        h.ledger.settle();
        return common::one(Effect::WriteHistoryNow(seq, records));
    }
    common::nothing()
}

pub open spec fn last_groups_as(
    list: Seq<Seq<char>>,
    before: Groups,
    unlocked: bool,
    after: Groups,
    fx: Seq<Effect>,
) -> bool {
    &&& folded::lists(list, before.collapsed@)
    &&& match (before.dirty && unlocked, folded::json_of(list)) {
        (true, Some(bytes)) => {
            &&& after == (Groups { ledger: numbered(before.ledger), ..before })
            &&& fx.len() == 1
            &&& match fx[0] {
                Effect::WriteGroupsNow(n, b) => n == after.ledger.next_seq && b@ == bytes,
                _ => false,
            }
        },
        _ => after == before && fx.len() == 0,
    }
}

pub open spec fn last_groups(before: Groups, unlocked: bool, after: Groups, fx: Seq<Effect>) -> bool {
    exists|list: Seq<Seq<char>>| #[trigger] last_groups_as(list, before, unlocked, after, fx)
}

fn write_groups_now(groups: &mut Groups, unlocked: bool) -> (fx: Vec<Effect>)
    requires
        old(groups).ledger.next_seq < u64::MAX,
        old(groups).ledger.pending < u64::MAX,
    ensures
        last_groups(*old(groups), unlocked, *final(groups), fx@),
{
    let names = folded::sorted_names(&groups.collapsed);
    let ghost list = crate::split::texts(names@);
    let mut fx = common::nothing();
    if groups.dirty && unlocked {
        match folded::groups_snapshot(&groups.collapsed) {
            Some(bytes) => {
                let seq = groups.ledger.seal();
                groups.ledger.settle();
                fx.push(Effect::WriteGroupsNow(seq, bytes));
            },
            None => {},
        }
    }
    assert(last_groups_as(list, *old(groups), unlocked, *groups, fx@));
    fx
}

pub open spec fn quit_via(
    before: NeoShell,
    env: Env,
    records: Seq<Effect>,
    folds: Seq<Effect>,
    after: NeoShell,
    fx: Seq<Effect>,
) -> bool {
    &&& last_history(before.history, env.unlocked, after.history, records)
    &&& last_groups(before.groups, env.unlocked, after.groups, folds)
    &&& after == (NeoShell { history: after.history, groups: after.groups, ..before })
    &&& fx == seq![Effect::SettleHistory] + records + folds + seq![Effect::Quit]
}

/// What is not on disk yet is written, after the writes already sent off, and
/// then the window goes.
pub open spec fn quit(before: NeoShell, env: Env, after: NeoShell, fx: Seq<Effect>) -> bool {
    exists|records: Seq<Effect>, folds: Seq<Effect>| #[trigger]
        quit_via(before, env, records, folds, after, fx)
}

/// Leave. Nothing waits for a background task once the window is gone, so what
/// is to be kept is written here and now.
pub fn on_quit_app(state: &mut NeoShell, env: &Env) -> (fx: Vec<Effect>)
    requires
        old(state).has_room(),
    ensures
        quit(*old(state), *env, *final(state), fx@),
{
    let mut fx = common::one(Effect::SettleHistory);
    let mut records = write_history_now(&mut state.history, env.unlocked);
    let mut folds = write_groups_now(&mut state.groups, env.unlocked);
    let ghost (r, f) = (records@, folds@);
    fx.append(&mut records);
    fx.append(&mut folds);
    fx.push(Effect::Quit);
    assert(fx@ =~= seq![Effect::SettleHistory] + r + f + seq![Effect::Quit]);
    assert(quit_via(*old(state), *env, r, f, *state, fx@));
    fx
}

/// Leaving comes last, after every write.
pub proof fn law_quitting_comes_last(before: NeoShell, env: Env, after: NeoShell, fx: Seq<Effect>, i: int)
    requires
        quit(before, env, after, fx),
        0 <= i < fx.len(),
    ensures
        fx[i] is Quit <==> i == fx.len() - 1,
        fx[0] is SettleHistory,
{
    let (records, folds) = choose|records: Seq<Effect>, folds: Seq<Effect>| #[trigger]
        quit_via(before, env, records, folds, after, fx);
    let list = choose|list: Seq<Seq<char>>| #[trigger]
        last_groups_as(list, before.groups, env.unlocked, after.groups, folds);
    assert(records.len() <= 1 && folds.len() <= 1);
    assert(fx[fx.len() - 1] is Quit);
    if i == 0 {
    } else if i < 1 + records.len() {
        assert(fx[i] == records[0]);
    } else if i < 1 + records.len() + folds.len() {
        assert(fx[i] == folds[0]);
    }
}

// ---- the messages ------------------------------------------------------------------------------------------------

pub open spec fn is_window_message(m: Message) -> bool {
    match m {
        Message::ToggleBottomPanel => true,
        Message::SwitchBottomTab(_) => true,
        Message::ToggleSidebar => true,
        Message::ShowSettings => true,
        Message::HideSettings => true,
        Message::ShowAbout => true,
        Message::HideAbout => true,
        Message::ToggleShortcutsHelp => true,
        Message::ShowLogViewer => true,
        Message::HideLogViewer => true,
        Message::RefreshLogViewer => true,
        Message::LogRead(_, _) => true,
        Message::OpenLogFolder => true,
        Message::DismissErrorDialog => true,
        Message::CopyErrorText => true,
        Message::ErrorTextCopied => true,
        Message::ToggleLanguage => true,
        Message::ThemeSelectZone(_) => true,
        Message::ThemeCloseZone => true,
        Message::ThemeReplaced => true,
        Message::SetFontSize => true,
        Message::CheckForUpdate => true,
        Message::DownloadUpdate => true,
        Message::RestartForUpdate => true,
        Message::DismissUpdate => true,
        Message::WindowCloseRequested => true,
        Message::QuitApp => true,
        Message::Nothing => true,
        Message::Error(_) => true,
        _ => false,
    }
}

pub open spec fn panels_are(before: NeoShell, panels: Panels, after: NeoShell) -> bool {
    after == (NeoShell { panels, ..before })
}

pub open spec fn bottom_toggled(before: NeoShell, after: NeoShell) -> bool {
    after == (NeoShell {
        panels: Panels { bottom_collapsed: !before.panels.bottom_collapsed, ..before.panels },
        typing: Typing { quick_cmd_focused: false, ..before.typing },
        ..before
    })
}

pub open spec fn error_dismissed(before: NeoShell, after: NeoShell) -> bool {
    &&& after.error.message@.len() == 0
    &&& after == (NeoShell { error: ErrorBox { show: false, message: after.error.message, ..before.error }, ..before })
}

/// The copy button reads "Copied" for exactly the message on the dialog.
pub open spec fn error_copied(before: NeoShell, after: NeoShell) -> bool {
    after == (NeoShell {
        error: ErrorBox { copied: Some(titles::fingerprint_of(before.error.message@)), ..before.error },
        ..before
    })
}

#[verifier::opaque]
pub open spec fn window_step(before: NeoShell, m: Message, env: Env, after: NeoShell, fx: Seq<Effect>) -> bool {
    match m {
        Message::ToggleBottomPanel => bottom_toggled(before, after) && fx.len() == 0,
        Message::SwitchBottomTab(tab) => bottom_switched(before, tab, after, fx),
        Message::ToggleSidebar => panels_are(
            before,
            Panels { sidebar_collapsed: !before.panels.sidebar_collapsed, ..before.panels },
            after,
        ) && fx.len() == 0,
        Message::ShowSettings => panels_are(
            before,
            Panels { show_settings: !before.panels.show_settings, ..before.panels },
            after,
        ) && fx.len() == 0,
        Message::HideSettings => panels_are(before, Panels { show_settings: false, ..before.panels }, after)
            && fx.len() == 0,
        Message::ShowAbout => panels_are(
            before,
            Panels { show_settings: false, show_about: !before.panels.show_about, ..before.panels },
            after,
        ) && fx.len() == 0,
        Message::HideAbout => panels_are(before, Panels { show_about: false, ..before.panels }, after) && fx.len()
            == 0,
        Message::ToggleShortcutsHelp => panels_are(
            before,
            Panels { show_shortcuts: !before.panels.show_shortcuts, ..before.panels },
            after,
        ) && fx.len() == 0,
        Message::ShowLogViewer => log_toggled(before, after, fx),
        Message::HideLogViewer => log_hidden(before, after) && fx.len() == 0,
        Message::RefreshLogViewer => after == before && fx == seq![Effect::Then(Message::ShowLogViewer)],
        Message::LogRead(path, content) => log_opened(before, path@, content, env, after) && fx.len() == 0,
        Message::OpenLogFolder => after == before && fx == seq![Effect::OpenLogFolder],
        Message::DismissErrorDialog => error_dismissed(before, after) && fx.len() == 0,
        Message::CopyErrorText => after == before && fx == seq![Effect::CopyError(before.error.message)],
        Message::ErrorTextCopied => error_copied(before, after) && fx.len() == 0,
        Message::ToggleLanguage => language_toggled(before, after, fx),
        Message::ThemeSelectZone(z) => panels_are(before, Panels { theme_zone: Some(z), ..before.panels }, after)
            && fx.len() == 0,
        Message::ThemeCloseZone => panels_are(before, Panels { theme_zone: None, ..before.panels }, after) && fx.len()
            == 0,
        Message::ThemeReplaced => panels_are(before, Panels { theme_zone: None, ..before.panels }, after) && fx.len()
            == 0,
        Message::SetFontSize => after == (NeoShell {
            sessions: Sessions { last_term_size: (0, 0), ..before.sessions },
            ..before
        }) && fx.len() == 0,
        Message::CheckForUpdate => after == before && fx == seq![Effect::CheckForUpdate],
        Message::DownloadUpdate => after == before && fx == seq![Effect::DownloadUpdate],
        Message::RestartForUpdate => after == before && fx == seq![Effect::RestartForUpdate],
        Message::DismissUpdate => after == before && fx == seq![Effect::DismissUpdate],
        Message::WindowCloseRequested => after == before && fx == seq![Effect::Minimize],
        Message::QuitApp => quit(before, env, after, fx),
        Message::Nothing => after == before && fx.len() == 0,
        Message::Error(e) => common::error_shown(before, e@, after) && fx.len() == 0,
        _ => true,
    }
}

/// The messages of the panels, of the error dialog and of the window.
pub fn handle_window(state: &mut NeoShell, message: Message, env: &Env) -> (fx: Vec<Effect>)
    requires
        is_window_message(message),
        old(state).wf(),
        old(state).has_room(),
    ensures
        window_step(*old(state), message, *env, *final(state), fx@),
        final(state).wf(),
{
    proof {
        reveal(window_step);
    }
    match message {
        Message::ToggleBottomPanel => {
            state.panels.bottom_collapsed = !state.panels.bottom_collapsed;
            state.typing.quick_cmd_focused = false;
            common::nothing()
        },
        Message::SwitchBottomTab(tab) => on_switch_bottom_tab(state, tab),
        Message::ToggleSidebar => {
            state.panels.sidebar_collapsed = !state.panels.sidebar_collapsed;
            common::nothing()
        },
        Message::ShowSettings => {
            state.panels.show_settings = !state.panels.show_settings;
            common::nothing()
        },
        Message::HideSettings => {
            state.panels.show_settings = false;
            common::nothing()
        },
        Message::ShowAbout => {
            state.panels.show_settings = false;
            state.panels.show_about = !state.panels.show_about;
            common::nothing()
        },
        Message::HideAbout => {
            state.panels.show_about = false;
            common::nothing()
        },
        Message::ToggleShortcutsHelp => {
            state.panels.show_shortcuts = !state.panels.show_shortcuts;
            common::nothing()
        },
        Message::ShowLogViewer => on_show_log_viewer(state),
        Message::HideLogViewer => {
            state.panels.show_log = false;
            state.panels.log_content = String::new();
            common::nothing()
        },
        Message::RefreshLogViewer => common::one(Effect::Then(Message::ShowLogViewer)),
        Message::LogRead(path, content) => {
            on_log_read(state, path, content, env);
            common::nothing()
        },
        Message::OpenLogFolder => common::one(Effect::OpenLogFolder),
        Message::DismissErrorDialog => {
            state.error.show = false;
            state.error.message = String::new();
            common::nothing()
        },
        Message::CopyErrorText => common::one(Effect::CopyError(state.error.message.clone())),
        Message::ErrorTextCopied => {
            state.error.copied = Some(titles::fingerprint(state.error.message.as_str()));
            common::nothing()
        },
        Message::ToggleLanguage => on_toggle_language(state),
        Message::ThemeSelectZone(z) => {
            state.panels.theme_zone = Some(z);
            common::nothing()
        },
        Message::ThemeCloseZone => {
            state.panels.theme_zone = None;
            common::nothing()
        },
        Message::ThemeReplaced => {
            state.panels.theme_zone = None;
            common::nothing()
        },
        Message::SetFontSize => {
            state.sessions.last_term_size = (0, 0);
            common::nothing()
        },
        Message::CheckForUpdate => common::one(Effect::CheckForUpdate),
        Message::DownloadUpdate => common::one(Effect::DownloadUpdate),
        Message::RestartForUpdate => common::one(Effect::RestartForUpdate),
        Message::DismissUpdate => common::one(Effect::DismissUpdate),
        Message::WindowCloseRequested => common::one(Effect::Minimize),
        Message::QuitApp => on_quit_app(state, env),
        Message::Error(e) => {
            state.show_error(e);
            common::nothing()
        },
        _ => common::nothing(),
    }
}

} // verus!
