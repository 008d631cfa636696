//! What is typed: into the terminal, by shortcut, and into the quick-command
//! input.

use vstd::prelude::*;
use vstd::string::*;

use crate::common;
use crate::focus;
use crate::focus::FocusTracker;
use crate::forms;
use crate::grid;
use crate::history;
use crate::history::CmdRecord;
use crate::history::HistorySync;
use crate::keys;
use crate::keys::Key;
use crate::keys::Modifiers;
use crate::keys::Named;
use crate::overlays;
use crate::screens::Screen;
use crate::split;
use crate::state::Browser;
use crate::state::Effect;
use crate::state::Env;
use crate::state::HistoryPanel;
use crate::state::Message;
use crate::state::NeoShell;
use crate::state::Palette;
use crate::state::Panels;
use crate::state::Sessions;
use crate::state::Typing;
use crate::tabs;
use crate::text;

verus! {

// ---- a line, as it is typed -----------------------------------------------------------------------------

pub open spec fn is_enter(data: Seq<char>) -> bool {
    data == "\r"@ || data == "\n"@
}

pub open spec fn is_erase(data: Seq<char>) -> bool {
    data == "\x7f"@ || data == "\x08"@
}

pub open spec fn is_plain(data: Seq<char>) -> bool {
    forall|i: int| 0 <= i < data.len() ==> !text::is_ctrl(#[trigger] data[i])
}

/// The line typed so far, after one more piece of input.
pub open spec fn line_after(line: Seq<char>, data: Seq<char>) -> Seq<char> {
    if is_enter(data) {
        Seq::empty()
    } else if is_erase(data) {
        if line.len() > 0 {
            line.drop_last()
        } else {
            line
        }
    } else if is_plain(data) {
        line + data
    } else {
        line
    }
}

fn plain_text(data: &str) -> (r: bool)
    ensures
        r == is_plain(data@),
{
    let cs = text::chars_of(data);
    let mut i: usize = 0;
    while i < cs.len()
        invariant
            i <= cs.len(),
            cs@ == data@,
            forall|k: int| 0 <= k < i ==> !text::is_ctrl(#[trigger] data@[k]),
        decreases cs.len() - i,
    {
        if cs[i].is_control() {
            assert(text::is_ctrl(data@[i as int]));
            return false;
        }
        i += 1;
    }
    true
}

fn next_line(line: &str, data: &str) -> (r: String)
    ensures
        r@ == line_after(line@, data@),
{
    if text::same_text(data, "\r") || text::same_text(data, "\n") {
        String::new()
    } else if text::same_text(data, "\x7f") || text::same_text(data, "\x08") {
        let mut cs = text::chars_of(line);
        let _c = cs.pop();
        proof {
            if line@.len() > 0 {
                assert(cs@ =~= line@.drop_last());
            } else {
                assert(cs@ =~= line@);
            }
        }
        text::string_of(cs.as_slice())
    } else if plain_text(data) {
        text::concat(line, data)
    } else {
        line.to_owned()
    }
}

// ---- a line, submitted ----------------------------------------------------------------------------------

/// The line may be kept: the remote echoed it, and the vault is open.
pub open spec fn may_keep(s: NeoShell, sid: Seq<char>, cmd: Seq<char>) -> bool {
    &&& cmd.len() > 0
    &&& s.vault.screen == Screen::Main
    &&& tabs::cells_of(s.sessions.tabs@, sid) matches Some(g) && grid::echoed(g, cmd)
}

pub open spec fn title_for(s: Sessions, sid: Seq<char>) -> Seq<char> {
    match tabs::tab_with_main(s.tabs@, sid) {
        Some(i) => s.tabs@[i].title@,
        None => Seq::empty(),
    }
}

pub open spec fn is_record(r: CmdRecord, s: Sessions, sid: Seq<char>, cmd: Seq<char>, env: Env) -> bool {
    &&& r.cmd@ == cmd
    &&& r.session_title@ == title_for(s, sid)
    &&& r.host@ == common::host_for(s, sid)
    &&& r.timestamp == (match env.unix {
        Some(t) => t,
        None => 0,
    })
}

/// What a line makes of the history.
pub open spec fn line_kept(before: NeoShell, sid: Seq<char>, cmd: Seq<char>, env: Env, after: HistoryPanel) -> bool {
    if may_keep(before, sid, cmd) {
        let all = before.history.records@.push(after.records@.last());
        &&& is_record(after.records@.last(), before.sessions, sid, cmd, env)
        &&& after.records@ == history::newest(all, history::HISTORY_MAX as int)
        &&& after == (HistoryPanel {
            records: after.records,
            sync: HistorySync { dirty: true, ..before.history.sync },
            ..before.history
        })
    } else {
        after == before.history
    }
}

/// The file that an `sz` on the line sends.
pub open spec fn sz_of(cmd: Seq<char>) -> Option<Seq<char>> {
    if text::starts_with(cmd, "sz "@) && text::trim(cmd.skip(3)).len() > 0 {
        Some(text::trim(cmd.skip(3)))
    } else {
        None
    }
}

fn sz_argument(cmd: &str) -> (r: Option<String>)
    ensures
        match r {
            Some(name) => sz_of(cmd@) == Some(name@),
            None => sz_of(cmd@) is None,
        },
{
    if !text::text_starts_with(cmd, "sz ") {
        return None;
    }
    proof {
        reveal_strlit("sz ");
    }
    let cs = text::chars_of(cmd);
    let rest = vstd::slice::slice_subrange(cs.as_slice(), 3, cs.len());
    assert(rest@ =~= cmd@.skip(3));
    let name = text::trim_chars(rest);
    if name.len() == 0 {
        return None;
    }
    Some(text::string_of(name))
}

pub open spec fn sz_noted(
    before: Map<Seq<char>, String>,
    sid: Seq<char>,
    cmd: Seq<char>,
    after: Map<Seq<char>, String>,
) -> bool {
    match sz_of(cmd) {
        Some(name) => common::text_set(before, sid, name, after),
        None => after == before,
    }
}

fn keep_line(state: &mut NeoShell, session_id: &str, cmd: &str, env: &Env)
    ensures
        line_kept(*old(state), session_id@, cmd@, *env, final(state).history),
        *final(state) == (NeoShell { history: final(state).history, ..*old(state) }),
{
    let echoed = grid::command_was_echoed(
        tabs::find_terminal_for_session(&state.sessions.tabs, session_id),
        cmd,
    );
    if forms::is_empty_text(cmd) || state.vault.screen != Screen::Main || !echoed {
        return;
    }
    let title = match tabs::position_of_main(&state.sessions.tabs, session_id) {
        Some(i) => state.sessions.tabs[i].title.clone(),
        None => String::new(),
    };
    let host = common::session_host(&state.sessions, session_id);
    let mut records: Vec<CmdRecord> = Vec::new();
    std::mem::swap(&mut records, &mut state.history.records);
    records.push(
        CmdRecord {
            cmd: cmd.to_owned(),
            session_title: title,
            host,
            timestamp: history::unix_now(env.unix),
        },
    );
    let ghost all = records@;
    state.history.records = history::keep_newest(records);
    // Written by a paced flush, not per Enter.
    state.history.sync.dirty = true;
    assert(all.last() == state.history.records@.last());
}

pub open spec fn old_line(s: NeoShell, sid: Seq<char>) -> Seq<char> {
    common::text_or(crate::remote_files::text_at(s.typing.cmd_buffer@, sid), Seq::empty())
}

/// What a piece of input for a session makes of a state: the line typed so far
/// follows it, a line that is submitted is kept if it may be, and the input is
/// sent.
pub open spec fn input_typed(
    before: NeoShell,
    sid: String,
    data: String,
    env: Env,
    after: NeoShell,
    fx: Seq<Effect>,
) -> bool {
    let line = old_line(before, sid@);
    let cmd = text::trim(line);
    &&& common::text_set(
        before.typing.cmd_buffer@,
        sid@,
        line_after(line, data@),
        after.typing.cmd_buffer@,
    )
    &&& if is_enter(data@) {
        &&& line_kept(before, sid@, cmd, env, after.history)
        &&& sz_noted(before.typing.sz_filename@, sid@, cmd, after.typing.sz_filename@)
        &&& after == (NeoShell {
            typing: Typing {
                cmd_buffer: after.typing.cmd_buffer,
                sz_filename: after.typing.sz_filename,
                ..before.typing
            },
            history: after.history,
            ..before
        })
    } else {
        after == (NeoShell {
            typing: Typing { cmd_buffer: after.typing.cmd_buffer, ..before.typing },
            ..before
        })
    }
    &&& fx == seq![Effect::Send(sid, data)]
}

/// Type a piece of input into a session.
///
/// Enter records the line to the history, but only when the remote echoed it:
/// at a no-echo prompt the characters are a password, not a command. And never
/// while locked: the lock wiped the history, and it only comes back with the
/// key. Nothing else makes history records.
pub fn on_terminal_input(state: &mut NeoShell, session_id: String, data: String, env: &Env) -> (fx: Vec<Effect>)
    ensures
        input_typed(*old(state), session_id, data, *env, *final(state), fx@),
        final(state).sessions == old(state).sessions,
{
    let line = match state.typing.cmd_buffer.get(session_id.as_str()) {
        Some(l) => l.clone(),
        None => String::new(),
    };
    assert(line@ =~= old_line(*state, session_id@));
    let next = next_line(line.as_str(), data.as_str());
    state.typing.cmd_buffer.insert(session_id.clone(), next);
    if text::same_text(data.as_str(), "\r") || text::same_text(data.as_str(), "\n") {
        let cmd = text::trim_text(line.as_str());
        keep_line(state, session_id.as_str(), cmd.as_str(), env);
        match sz_argument(cmd.as_str()) {
            Some(name) => state.typing.sz_filename.insert(session_id.clone(), name),
            None => {},
        }
    }
    common::one(Effect::Send(session_id, data))
}

/// A line that the remote did not echo — a password, at a prompt that asks for
/// one — is not kept, and while the vault is locked none is.
pub proof fn law_unechoed_lines_are_not_kept(
    before: NeoShell,
    sid: String,
    data: String,
    env: Env,
    after: NeoShell,
    fx: Seq<Effect>,
)
    requires
        input_typed(before, sid, data, env, after, fx),
        before.vault.screen != Screen::Main || (tabs::cells_of(before.sessions.tabs@, sid@) matches Some(g)
            ==> !grid::echoed(g, text::trim(old_line(before, sid@)))),
    ensures
        after.history == before.history,
{
}

// ---- shortcuts ------------------------------------------------------------------------------------------

/// What a key does together with the modifier of shortcuts.
pub enum Shortcut {
    /// It is no shortcut.
    Through,
    /// It is taken, and does nothing.
    Swallowed,
    Then(Message),
    ToggleHistory,
    ToggleHelp,
}

pub open spec fn letter(c: Seq<char>, lower: Seq<char>, upper: Seq<char>) -> bool {
    c == lower || c == upper
}

/// Copy and paste take no shift on a Mac, and shift elsewhere: there a plain
/// Control+C still interrupts, and Control+V still quotes.
pub open spec fn clipboard_keys(m: Modifiers, mac: bool) -> bool {
    if mac {
        !m.shift
    } else {
        m.shift
    }
}

pub open spec fn tab_number(c: Seq<char>) -> Option<usize> {
    if c == "1"@ {
        Some(0usize)
    } else if c == "2"@ {
        Some(1usize)
    } else if c == "3"@ {
        Some(2usize)
    } else if c == "4"@ {
        Some(3usize)
    } else if c == "5"@ {
        Some(4usize)
    } else if c == "6"@ {
        Some(5usize)
    } else if c == "7"@ {
        Some(6usize)
    } else if c == "8"@ {
        Some(7usize)
    } else {
        None
    }
}

fn numbered_tab(c: &str) -> (r: Option<usize>)
    ensures
        r == tab_number(c@),
{
    if text::same_text(c, "1") {
        Some(0)
    } else if text::same_text(c, "2") {
        Some(1)
    } else if text::same_text(c, "3") {
        Some(2)
    } else if text::same_text(c, "4") {
        Some(3)
    } else if text::same_text(c, "5") {
        Some(4)
    } else if text::same_text(c, "6") {
        Some(5)
    } else if text::same_text(c, "7") {
        Some(6)
    } else if text::same_text(c, "8") {
        Some(7)
    } else {
        None
    }
}

pub open spec fn clipboard_shortcut(s: NeoShell, c: Seq<char>, captured: bool) -> Shortcut {
    if letter(c, "v"@, "V"@) {
        // A focused text input pastes on its own; the terminal must not
        // receive the clipboard as well.
        if captured {
            Shortcut::Swallowed
        } else {
            Shortcut::Then(Message::PasteClipboard)
        }
    } else if s.mouse.selection_start is Some && s.mouse.selection_end is Some {
        Shortcut::Then(Message::CopySelection)
    } else {
        Shortcut::Swallowed
    }
}

pub open spec fn closing_shortcut(s: NeoShell, m: Modifiers) -> Shortcut {
    if m.shift {
        Shortcut::Then(Message::CloseFocusedPane)
    } else {
        match s.sessions.active_tab {
            Some(i) => Shortcut::Then(Message::TabClosed(i)),
            None => Shortcut::Through,
        }
    }
}

pub open spec fn last_tab_shortcut(s: NeoShell) -> Shortcut {
    if s.sessions.tabs@.len() > 0 {
        Shortcut::Then(Message::SwitchToTab((s.sessions.tabs@.len() - 1) as usize))
    } else {
        Shortcut::Through
    }
}

/// The shortcut that a character is together with the command key.
pub open spec fn shortcut(s: NeoShell, c: Seq<char>, m: Modifiers, mac: bool, captured: bool) -> Shortcut {
    let copies = letter(c, "c"@, "C"@) || letter(c, "v"@, "V"@);
    if copies && clipboard_keys(m, mac) {
        clipboard_shortcut(s, c, captured)
    } else if copies {
        Shortcut::Through
    } else if letter(c, "f"@, "F"@) {
        Shortcut::Then(Message::ToggleTerminalSearch)
    } else if letter(c, "j"@, "J"@) {
        Shortcut::Then(Message::ToggleBottomPanel)
    } else if letter(c, "k"@, "K"@) {
        Shortcut::Then(Message::TogglePalette)
    } else if letter(c, "d"@, "D"@) {
        Shortcut::Then(Message::SplitTab(!m.shift))
    } else if c == "]"@ {
        Shortcut::Then(Message::SplitFocusToggle)
    } else if letter(c, "t"@, "T"@) {
        Shortcut::Then(Message::ShowConnectDialog)
    } else if letter(c, "w"@, "W"@) {
        closing_shortcut(s, m)
    } else if tab_number(c) is Some {
        Shortcut::Then(Message::SwitchToTab(tab_number(c)->0))
    } else if c == "9"@ {
        last_tab_shortcut(s)
    } else if letter(c, "h"@, "H"@) {
        Shortcut::ToggleHistory
    } else if letter(c, "/"@, "?"@) {
        Shortcut::ToggleHelp
    } else if letter(c, "l"@, "L"@) && m.shift {
        Shortcut::Then(Message::LockNow)
    } else if letter(c, "q"@, "Q"@) && m.shift {
        Shortcut::Then(Message::QuitApp)
    } else if letter(c, "+"@, "="@) || letter(c, "-"@, "0"@) {
        Shortcut::Swallowed
    } else {
        Shortcut::Through
    }
}

fn is_letter(c: &str, lower: &str, upper: &str) -> (r: bool)
    ensures
        r == letter(c@, lower@, upper@),
{
    text::same_text(c, lower) || text::same_text(c, upper)
}

/// The shortcut that a character is together with the command key.
pub fn shortcut_for(s: &NeoShell, c: &str, m: &Modifiers, mac: bool, captured: bool) -> (r: Shortcut)
    ensures
        r == shortcut(*s, c@, *m, mac, captured),
{
    let pastes = is_letter(c, "v", "V");
    let copies = is_letter(c, "c", "C");
    let clipboard = if mac {
        !m.shift
    } else {
        m.shift
    };
    if copies || pastes {
        if !clipboard {
            return Shortcut::Through;
        }
        if pastes {
            return if captured {
                Shortcut::Swallowed
            } else {
                Shortcut::Then(Message::PasteClipboard)
            };
        }
        return if s.mouse.selection_start.is_some() && s.mouse.selection_end.is_some() {
            Shortcut::Then(Message::CopySelection)
        } else {
            Shortcut::Swallowed
        };
    }
    if is_letter(c, "f", "F") {
        return Shortcut::Then(Message::ToggleTerminalSearch);
    }
    if is_letter(c, "j", "J") {
        return Shortcut::Then(Message::ToggleBottomPanel);
    }
    if is_letter(c, "k", "K") {
        return Shortcut::Then(Message::TogglePalette);
    }
    if is_letter(c, "d", "D") {
        return Shortcut::Then(Message::SplitTab(!m.shift));
    }
    if text::same_text(c, "]") {
        return Shortcut::Then(Message::SplitFocusToggle);
    }
    if is_letter(c, "t", "T") {
        return Shortcut::Then(Message::ShowConnectDialog);
    }
    if is_letter(c, "w", "W") {
        if m.shift {
            return Shortcut::Then(Message::CloseFocusedPane);
        }
        return match s.sessions.active_tab {
            Some(i) => Shortcut::Then(Message::TabClosed(i)),
            None => Shortcut::Through,
        };
    }
    match numbered_tab(c) {
        Some(n) => {
            return Shortcut::Then(Message::SwitchToTab(n));
        },
        None => {},
    }
    if text::same_text(c, "9") {
        return if s.sessions.tabs.len() > 0 {
            Shortcut::Then(Message::SwitchToTab(s.sessions.tabs.len() - 1))
        } else {
            Shortcut::Through
        };
    }
    if is_letter(c, "h", "H") {
        return Shortcut::ToggleHistory;
    }
    if is_letter(c, "/", "?") {
        return Shortcut::ToggleHelp;
    }
    if is_letter(c, "l", "L") && m.shift {
        return Shortcut::Then(Message::LockNow);
    }
    if is_letter(c, "q", "Q") && m.shift {
        return Shortcut::Then(Message::QuitApp);
    }
    if is_letter(c, "+", "=") || is_letter(c, "-", "0") {
        return Shortcut::Swallowed;
    }
    Shortcut::Through
}

// ---- a key press ----------------------------------------------------------------------------------------

pub open spec fn is_key(key: Key, n: Named) -> bool {
    key matches Key::Named(k) && k == n
}

fn key_is(key: &Key, n: Named) -> (r: bool)
    ensures
        r == is_key(*key, n),
{
    match key {
        Key::Named(k) => *k == n,
        _ => false,
    }
}

pub open spec fn writes(key: Key, lower: Seq<char>, upper: Seq<char>) -> bool {
    key matches Key::Character(c) && letter(c@, lower, upper)
}

fn key_writes(key: &Key, lower: &str, upper: &str) -> (r: bool)
    ensures
        r == writes(*key, lower@, upper@),
{
    match key {
        Key::Character(c) => is_letter(c.as_str(), lower, upper),
        _ => false,
    }
}

/// Nothing changes, and nothing is asked for.
pub open spec fn ignored(before: NeoShell, after: NeoShell, fx: Seq<Effect>) -> bool {
    after == before && fx.len() == 0
}

pub open spec fn leads_to(before: NeoShell, m: Message, after: NeoShell, fx: Seq<Effect>) -> bool {
    after == before && fx == seq![Effect::Then(m)]
}

/// The palette gets first dibs on navigation keys; typed characters reach its
/// input through the widgets, so everything else is swallowed.
pub open spec fn palette_key(
    before: NeoShell,
    key: Key,
    m: Modifiers,
    mac: bool,
    after: NeoShell,
    fx: Seq<Effect>,
) -> bool {
    if is_key(key, Named::ArrowUp) {
        leads_to(before, Message::PaletteNavUp, after, fx)
    } else if is_key(key, Named::ArrowDown) {
        leads_to(before, Message::PaletteNavDown, after, fx)
    } else if is_key(key, Named::Enter) {
        leads_to(before, Message::PaletteExecute, after, fx)
    } else if writes(key, "k"@, "K"@) && m.command_on(mac) {
        &&& after == (NeoShell { palette: Palette { show: false, ..before.palette }, ..before })
        &&& fx.len() == 0
    } else {
        ignored(before, after, fx)
    }
}

fn on_palette_key(state: &mut NeoShell, key: &Key, m: &Modifiers, mac: bool) -> (fx: Vec<Effect>)
    ensures
        palette_key(*old(state), *key, *m, mac, *final(state), fx@),
{
    if key_is(key, Named::ArrowUp) {
        common::one(Effect::Then(Message::PaletteNavUp))
    } else if key_is(key, Named::ArrowDown) {
        common::one(Effect::Then(Message::PaletteNavDown))
    } else if key_is(key, Named::Enter) {
        common::one(Effect::Then(Message::PaletteExecute))
    } else if key_writes(key, "k", "K") && m.command(mac) {
        state.palette.show = false;
        common::nothing()
    } else {
        common::nothing()
    }
}

/// A dialog has the keys: the rename dialog, the editor, a form or the details
/// of an interface.
pub open spec fn dialog_has_keys(s: NeoShell) -> bool {
    s.rename.tab is Some || s.editor.path is Some || s.form.show || s.panels.interface is Some
}

/// What a dialog makes of a key: Enter commits the rename, and the command key
/// with S saves the open editor.
pub open spec fn dialog_key(s: NeoShell, key: Key, m: Modifiers, mac: bool) -> Option<Message> {
    if s.rename.tab is Some {
        if is_key(key, Named::Enter) {
            Some(Message::TabRenameCommit)
        } else {
            None
        }
    } else if s.editor.path is Some && m.command_on(mac) && writes(key, "s"@, "s"@) {
        Some(Message::SaveEditor)
    } else {
        None
    }
}

fn on_dialog_key(s: &NeoShell, key: &Key, m: &Modifiers, mac: bool) -> (fx: Vec<Effect>)
    ensures
        match dialog_key(*s, *key, *m, mac) {
            Some(msg) => fx@ == seq![Effect::Then(msg)],
            None => fx@.len() == 0,
        },
{
    if s.rename.tab.is_some() {
        return if key_is(key, Named::Enter) {
            common::one(Effect::Then(Message::TabRenameCommit))
        } else {
            common::nothing()
        };
    }
    if s.editor.path.is_some() && m.command(mac) && key_writes(key, "s", "s") {
        return common::one(Effect::Then(Message::SaveEditor));
    }
    common::nothing()
}

pub open spec fn help_toggled(before: NeoShell, after: NeoShell) -> bool {
    after == (NeoShell {
        panels: Panels { show_shortcuts: !before.panels.show_shortcuts, ..before.panels },
        ..before
    })
}

pub open spec fn history_toggled(before: NeoShell, after: NeoShell) -> bool {
    &&& after.history.filter@.len() == 0
    &&& after == (NeoShell {
        history: HistoryPanel {
            show: !before.history.show,
            filter: after.history.filter,
            ..before.history
        },
        ..before
    })
}

pub open spec fn shortcut_taken(before: NeoShell, cut: Shortcut, after: NeoShell, fx: Seq<Effect>) -> bool {
    match cut {
        Shortcut::Then(m) => leads_to(before, m, after, fx),
        Shortcut::ToggleHistory => history_toggled(before, after) && fx.len() == 0,
        Shortcut::ToggleHelp => help_toggled(before, after) && fx.len() == 0,
        _ => ignored(before, after, fx),
    }
}

fn take_shortcut(state: &mut NeoShell, cut: Shortcut) -> (fx: Vec<Effect>)
    ensures
        shortcut_taken(*old(state), cut, *final(state), fx@),
{
    match cut {
        Shortcut::Then(m) => common::one(Effect::Then(m)),
        Shortcut::ToggleHistory => {
            state.history.show = !state.history.show;
            state.history.filter = String::new();
            common::nothing()
        },
        Shortcut::ToggleHelp => {
            state.panels.show_shortcuts = !state.panels.show_shortcuts;
            common::nothing()
        },
        _ => common::nothing(),
    }
}

// ---- a key for the terminal -----------------------------------------------------------------------------

pub open spec fn opt_text(t: Option<String>) -> Option<Seq<char>> {
    match t {
        Some(s) => Some(s@),
        None => None,
    }
}

/// What a key sends to the focused pane's session, if it sends anything there.
pub open spec fn key_data(s: NeoShell, key: Key, m: Modifiers, t: Option<String>) -> Option<Seq<char>> {
    if common::focused_sid(s.sessions) is Some {
        keys::sent(key, m, opt_text(t))
    } else {
        None
    }
}

/// The session that the effect types into.
pub open spec fn typed_into(e: Effect) -> Seq<char> {
    match e {
        Effect::Then(Message::TerminalInput(s, _)) => s@,
        _ => Seq::empty(),
    }
}

pub open spec fn types(e: Effect, data: Seq<char>) -> bool {
    match e {
        Effect::Then(Message::TerminalInput(_, d)) => d@ == data,
        _ => false,
    }
}

/// The key goes to the focused pane's session and, in sync mode, to every
/// ticked one.
pub open spec fn key_typed(s: NeoShell, data: Option<Seq<char>>, fx: Seq<Effect>) -> bool {
    match data {
        Some(d) => {
            &&& common::key_targets(
                fx.map_values(|e: Effect| typed_into(e)),
                s.broadcast,
                common::focused_sid(s.sessions)->0,
            )
            &&& forall|i: int| 0 <= i < fx.len() ==> types(#[trigger] fx[i], d)
        },
        None => fx.len() == 0,
    }
}

/// The same, as pairs of session and text.
pub open spec fn key_typing(s: NeoShell, data: Option<Seq<char>>, list: Seq<(String, String)>) -> bool {
    match data {
        Some(d) => {
            &&& common::key_targets(
                list.map_values(|p: (String, String)| p.0@),
                s.broadcast,
                common::focused_sid(s.sessions)->0,
            )
            &&& forall|i: int| 0 <= i < list.len() ==> (#[trigger] list[i]).1@ == d
        },
        None => list.len() == 0,
    }
}

fn key_typing_list(s: &NeoShell, key: &Key, m: &Modifiers, t: &Option<String>) -> (list: Vec<(String, String)>)
    ensures
        key_typing(*s, key_data(*s, *key, *m, *t), list@),
{
    let mut list: Vec<(String, String)> = Vec::new();
    let typed = match t {
        Some(x) => Some(x.as_str()),
        None => None,
    };
    assert(keys::typed(typed) == opt_text(*t));
    match (s.sessions.focused_session_id(), keys::key_to_terminal_bytes(key, m, typed)) {
        (Some(sid), Some(data)) => {
            let targets = common::keystroke_targets(&s.broadcast, sid);
            let ghost names = split::texts(targets@);
            let mut i: usize = 0;
            while i < targets.len()
                invariant
                    i <= targets.len(),
                    list@.len() == i,
                    names == split::texts(targets@),
                    forall|k: int|
                        0 <= k < i ==> (#[trigger] list@[k]).0@ == names[k] && list@[k].1@ == data@,
                decreases targets.len() - i,
            {
                list.push((targets[i].clone(), data.clone()));
                i += 1;
            }
            assert(list@.map_values(|p: (String, String)| p.0@) =~= names);
        },
        _ => {},
    }
    list
}

fn type_list(list: Vec<(String, String)>) -> (fx: Vec<Effect>)
    ensures
        fx@.len() == list@.len(),
        forall|i: int|
            0 <= i < fx@.len() ==> (#[trigger] fx@[i]) == Effect::Then(
                Message::TerminalInput(list@[i].0, list@[i].1),
            ),
{
    let ghost all = list@;
    let mut fx: Vec<Effect> = Vec::new();
    for p in it: list
        invariant
            it.seq() == all,
            fx@.len() == it.index(),
            forall|i: int|
                0 <= i < fx@.len() ==> (#[trigger] fx@[i]) == Effect::Then(
                    Message::TerminalInput(all[i].0, all[i].1),
                ),
    {
        fx.push(Effect::Then(Message::TerminalInput(p.0, p.1)));
    }
    fx
}

/// A printable key that no widget took proves that no text input has focus.
pub open spec fn prints(t: Option<String>) -> bool {
    t matches Some(s) && !is_plain_free(s@)
}

/// No character of the text is printable.
pub open spec fn is_plain_free(s: Seq<char>) -> bool {
    forall|i: int| 0 <= i < s.len() ==> text::is_ctrl(#[trigger] s[i])
}

fn has_printable(s: &str) -> (r: bool)
    ensures
        r == !is_plain_free(s@),
{
    let cs = text::chars_of(s);
    let mut i: usize = 0;
    while i < cs.len()
        invariant
            i <= cs.len(),
            cs@ == s@,
            forall|k: int| 0 <= k < i ==> text::is_ctrl(#[trigger] s@[k]),
        decreases cs.len() - i,
    {
        if !cs[i].is_control() {
            assert(!text::is_ctrl(s@[i as int]));
            return true;
        }
        i += 1;
    }
    false
}

pub open spec fn unfocused(before: NeoShell, lost: bool) -> NeoShell {
    NeoShell {
        typing: Typing {
            quick_cmd_focused: before.typing.quick_cmd_focused && !lost,
            ..before.typing
        },
        ..before
    }
}

/// The suggestion that is taken, or the key that is typed, once it is known
/// whether the quick-command input has the focus.
pub open spec fn accepts_or_types(
    s: NeoShell,
    data: Option<Seq<char>>,
    fx: Seq<Effect>,
) -> bool {
    fx.len() == 1 && match fx[0] {
        Effect::AcceptOrType(top, list) => {
            &&& opt_text(top) == (if common::suggestions(s).len() > 0 {
                Some(common::suggestions(s)[0])
            } else {
                None
            })
            &&& key_typing(s, data, list@)
        },
        _ => false,
    }
}

/// What a key that is no shortcut does.
pub open spec fn terminal_key(
    before: NeoShell,
    key: Key,
    m: Modifiers,
    t: Option<String>,
    captured: bool,
    after: NeoShell,
    fx: Seq<Effect>,
) -> bool {
    let data = key_data(before, key, m, t);
    if before.top() is Some {
        ignored(before, after, fx)
    } else if !captured && before.typing.quick_cmd_focused && keys::accepts_suggestion(key, m) {
        after == before && accepts_or_types(before, data, fx)
    } else if captured {
        ignored(before, after, fx)
    } else {
        after == unfocused(before, prints(t)) && key_typed(before, data, fx)
    }
}

/// A key for the terminal — unless an overlay is open, whose inputs it is meant
/// for, or a focused text input took it: that one was typed there already.
///
/// A text input lets Tab and Down through even while it has focus, so the guess
/// that the quick-command input has it is confirmed against the widgets first.
fn on_terminal_key(state: &mut NeoShell, key: &Key, m: &Modifiers, t: &Option<String>, captured: bool) -> (fx: Vec<
    Effect,
>)
    ensures
        terminal_key(*old(state), *key, *m, *t, captured, *final(state), fx@),
{
    if state.any_overlay_open() {
        return common::nothing();
    }
    if !captured && state.typing.quick_cmd_focused && keys::is_autocomplete_key(key, m) {
        let mut found = state.quick_cmd_suggestions();
        let ghost names = split::texts(found@);
        assert(names == common::suggestions(*state));
        let top = if found.len() > 0 {
            assert(names[0] == found@[0]@);
            Some(found.remove(0))
        } else {
            None
        };
        let list = key_typing_list(state, key, m, t);
        return common::one(Effect::AcceptOrType(top, list));
    }
    if captured {
        return common::nothing();
    }
    let list = key_typing_list(state, key, m, t);
    let ghost pairs = list@;
    let lost = match t {
        Some(s) => has_printable(s.as_str()),
        None => false,
    };
    if lost {
        state.typing.quick_cmd_focused = false;
    }
    let fx = type_list(list);
    proof {
        let data = key_data(*old(state), *key, *m, *t);
        if data is Some {
            assert(fx@.map_values(|e: Effect| typed_into(e)) =~= pairs.map_values(
                |p: (String, String)| p.0@,
            ));
            assert forall|i: int| 0 <= i < fx@.len() implies types(#[trigger] fx@[i], data->0) by {
                assert(pairs[i].1@ == data->0);
            }
        }
    }
    fx
}

// ---- every key press --------------------------------------------------------------------------------------

pub open spec fn cut_for(s: NeoShell, key: Key, m: Modifiers, mac: bool, captured: bool) -> Shortcut {
    if m.command_on(mac) {
        match key {
            Key::Character(c) => shortcut(s, c@, m, mac, captured),
            _ => Shortcut::Through,
        }
    } else {
        Shortcut::Through
    }
}

/// What a key press does once nothing was dismissed by it.
pub open spec fn key_handled(
    before: NeoShell,
    key: Key,
    m: Modifiers,
    t: Option<String>,
    captured: bool,
    mac: bool,
    after: NeoShell,
    fx: Seq<Effect>,
) -> bool {
    let cut = cut_for(before, key, m, mac, captured);
    if before.palette.show {
        palette_key(before, key, m, mac, after, fx)
    } else if dialog_has_keys(before) {
        after == before && match dialog_key(before, key, m, mac) {
            Some(msg) => fx == seq![Effect::Then(msg)],
            None => fx.len() == 0,
        }
    } else if cut != Shortcut::Through {
        shortcut_taken(before, cut, after, fx)
    } else if mac && m.command_on(mac) {
        ignored(before, after, fx)
    } else if is_key(key, Named::F1) {
        help_toggled(before, after) && fx.len() == 0
    } else if m.control && is_key(key, Named::Tab) {
        leads_to(
            before,
            if m.shift {
                Message::SwitchToPrevTab
            } else {
                Message::SwitchToNextTab
            },
            after,
            fx,
        )
    } else {
        terminal_key(before, key, m, t, captured, after, fx)
    }
}

/// ESC has something to dismiss.
pub open spec fn dismisses(s: NeoShell) -> bool {
    s.top() is Some || s.browser.context_menu is Some || s.browser.menu is Some
}

/// What a key press makes of a state.
pub open spec fn key_pressed(
    before: NeoShell,
    key: Key,
    m: Modifiers,
    t: Option<String>,
    captured: bool,
    env: Env,
    after: NeoShell,
    fx: Seq<Effect>,
) -> bool {
    let mid = unfocused(before, true);
    if before.vault.screen != Screen::Main {
        ignored(before, after, fx)
    } else if !is_key(key, Named::Escape) {
        key_handled(before, key, m, t, captured, env.mac, after, fx)
    } else if dismisses(mid) {
        overlays::escaped(mid, env.now, after, true, fx)
    } else if before.search.active {
        leads_to(mid, Message::TerminalSearchClose, after, fx)
    } else {
        key_handled(mid, key, m, t, captured, env.mac, after, fx)
    }
}

fn handle_key(state: &mut NeoShell, key: &Key, m: &Modifiers, t: &Option<String>, captured: bool, mac: bool) -> (fx:
    Vec<Effect>)
    ensures
        key_handled(*old(state), *key, *m, *t, captured, mac, *final(state), fx@),
        final(state).sessions == old(state).sessions,
{
    if state.palette.show {
        return on_palette_key(state, key, m, mac);
    }
    if state.rename.tab.is_some() || state.editor.path.is_some() || state.form.show
        || state.panels.interface.is_some() {
        return on_dialog_key(state, key, m, mac);
    }
    let cut = if m.command(mac) {
        match key {
            Key::Character(c) => shortcut_for(state, c.as_str(), m, mac, captured),
            _ => Shortcut::Through,
        }
    } else {
        Shortcut::Through
    };
    match cut {
        Shortcut::Through => {},
        other => {
            return take_shortcut(state, other);
        },
    }
    // On a Mac any other key with the command key is swallowed; elsewhere it
    // goes on to the remote shell.
    if mac && m.command(mac) {
        return common::nothing();
    }
    if key_is(key, Named::F1) {
        state.panels.show_shortcuts = !state.panels.show_shortcuts;
        return common::nothing();
    }
    if m.control && key_is(key, Named::Tab) {
        return if m.shift {
            common::one(Effect::Then(Message::SwitchToPrevTab))
        } else {
            common::one(Effect::Then(Message::SwitchToNextTab))
        };
    }
    on_terminal_key(state, key, m, t, captured)
}

/// A key was pressed.
///
/// ESC dismisses what is on top: the overlay that is drawn, then the terminal
/// search bar. With nothing to dismiss it reaches the shell as a plain ESC
/// byte, which vim and friends depend on.
pub fn on_keyboard_event(
    state: &mut NeoShell,
    key: Key,
    modifiers: Modifiers,
    typed: Option<String>,
    captured: bool,
    env: &Env,
) -> (fx: Vec<Effect>)
    requires
        old(state).wf(),
    ensures
        key_pressed(*old(state), key, modifiers, typed, captured, *env, *final(state), fx@),
        final(state).wf(),
{
    if state.vault.screen != Screen::Main {
        return common::nothing();
    }
    if key_is(&key, Named::Escape) {
        // A text input drops its focus on Esc.
        state.typing.quick_cmd_focused = false;
        let ghost mid = *state;
        assert(mid == unfocused(*old(state), true));
        let (handled, fx) = state.close_topmost_overlay(env.now);
        if handled {
            proof {
                lemma_escape_keeps_tabs(mid, env.now, *state, fx@);
            }
            return fx;
        }
        assert(*state == mid);
        if state.search.active {
            return common::one(Effect::Then(Message::TerminalSearchClose));
        }
    }
    handle_key(state, &key, &modifiers, &typed, captured, env.mac)
}

proof fn lemma_escape_keeps_tabs(before: NeoShell, now: u128, after: NeoShell, fx: Seq<Effect>)
    requires
        overlays::escaped(before, now, after, true, fx),
        before.wf(),
    ensures
        after.wf(),
{
    let o = if before.top() == Some(crate::screens::Overlay::Palette) {
        crate::screens::Overlay::About
    } else {
        crate::screens::Overlay::Palette
    };
    overlays::law_esc_closes_only_what_is_drawn(before, now, after, true, fx, o);
}

/// The effect sends a key to a session.
pub open spec fn reaches_shell(e: Effect) -> bool {
    match e {
        Effect::Then(Message::TerminalInput(_, _)) => true,
        Effect::AcceptOrType(_, _) => true,
        Effect::Send(_, _) => true,
        Effect::SendQuietly(_, _) => true,
        Effect::TypeQuietly(_, _) => true,
        _ => false,
    }
}

/// A key that a focused text input took, or that is pressed under an open
/// overlay, is not typed into the shell.
pub proof fn law_keys_for_an_input_stay_out_of_the_shell(
    before: NeoShell,
    key: Key,
    m: Modifiers,
    t: Option<String>,
    captured: bool,
    mac: bool,
    after: NeoShell,
    fx: Seq<Effect>,
    i: int,
)
    requires
        key_handled(before, key, m, t, captured, mac, after, fx),
        captured || before.top() is Some,
        0 <= i < fx.len(),
    ensures
        !reaches_shell(fx[i]),
{
}

// ---- pasting --------------------------------------------------------------------------------------------

pub open spec fn wants_brackets(s: Sessions, sid: Seq<char>) -> bool {
    tabs::cells_of(s.tabs@, sid) matches Some(g) && g.bracketed_paste
}

/// The clipboard goes to the focused pane's session and, in sync mode, to every
/// ticked one, bracketed where the session's terminal asks for it.
pub open spec fn pastes(s: NeoShell, fx: Seq<Effect>) -> bool {
    fx.len() == 1 && match fx[0] {
        Effect::Paste(list) => {
            &&& common::key_targets(
                list@.map_values(|p: (String, bool)| p.0@),
                s.broadcast,
                common::focused_sid(s.sessions)->0,
            )
            &&& forall|i: int|
                0 <= i < list@.len() ==> (#[trigger] list@[i]).1 == wants_brackets(s.sessions, list@[i].0@)
        },
        _ => false,
    }
}

pub open spec fn pasted(before: NeoShell, after: NeoShell, fx: Seq<Effect>) -> bool {
    &&& after == (NeoShell { browser: Browser { menu: None, ..before.browser }, ..before })
    &&& if before.browser.menu is Some || before.top() is Some || common::focused_sid(before.sessions) is None {
        fx.len() == 0
    } else {
        pastes(before, fx)
    }
}

/// Paste the clipboard into the terminal. A right-click away from the open file
/// menu just closes it, and one on an overlay's backdrop pastes nothing into
/// the hidden terminal.
pub fn on_paste_clipboard(state: &mut NeoShell) -> (fx: Vec<Effect>)
    ensures
        pasted(*old(state), *final(state), fx@),
{
    let was_open = state.browser.menu.is_some();
    let covered = state.any_overlay_open();
    state.browser.menu = None;
    if was_open || covered {
        return common::nothing();
    }
    match state.sessions.focused_session_id() {
        Some(sid) => {
            let targets = common::keystroke_targets(&state.broadcast, sid);
            let ghost names = split::texts(targets@);
            let mut list: Vec<(String, bool)> = Vec::new();
            let mut i: usize = 0;
            while i < targets.len()
                invariant
                    i <= targets.len(),
                    list@.len() == i,
                    names == split::texts(targets@),
                    forall|k: int|
                        0 <= k < i ==> (#[trigger] list@[k]).0@ == names[k] && list@[k].1 == wants_brackets(
                            state.sessions,
                            list@[k].0@,
                        ),
                decreases targets.len() - i,
            {
                let bracketed = match tabs::find_terminal_for_session(&state.sessions.tabs, targets[i].as_str()) {
                    Some(g) => g.bracketed_paste,
                    None => false,
                };
                list.push((targets[i].clone(), bracketed));
                i += 1;
            }
            assert(list@.map_values(|p: (String, bool)| p.0@) =~= names);
            common::one(Effect::Paste(list))
        },
        None => common::nothing(),
    }
}

// ---- the quick-command input ------------------------------------------------------------------------------

pub open spec fn suggestion_taken(before: NeoShell, cmd: String, after: NeoShell, fx: Seq<Effect>) -> bool {
    &&& FocusTracker::moved_to(before.focus, focus::QUICK_CMD_INPUT_ID@, after.focus)
    &&& after == (NeoShell {
        typing: Typing { quick_cmd: cmd, quick_cmd_focused: true, ..before.typing },
        focus: after.focus,
        ..before
    })
    &&& fx.len() == 2
    &&& overlays::focuses(fx[0], focus::QUICK_CMD_INPUT_ID@, after.focus.issued)
    &&& fx[1] matches Effect::MoveCursorToEnd(id) && id@ == focus::QUICK_CMD_INPUT_ID@
}

/// Fill the quick-command input with a suggestion, and leave the cursor behind
/// it.
pub fn on_quick_cmd_accept(state: &mut NeoShell, cmd: String) -> (fx: Vec<Effect>)
    requires
        old(state).focus.issued + 2 <= u64::MAX,
    ensures
        suggestion_taken(*old(state), cmd, *final(state), fx@),
{
    state.typing.quick_cmd = cmd;
    state.typing.quick_cmd_focused = true;
    let seq = state.focus.focus(focus::QUICK_CMD_INPUT_ID);
    let mut fx = common::one(Effect::Focus(focus::QUICK_CMD_INPUT_ID.to_owned(), seq));
    fx.push(Effect::MoveCursorToEnd(focus::QUICK_CMD_INPUT_ID.to_owned()));
    fx
}

pub open spec fn quick_cmd_sent(before: NeoShell, after: NeoShell, fx: Seq<Effect>) -> bool {
    let cmd = text::trim(before.typing.quick_cmd@);
    if cmd.len() > 0 {
        &&& after.typing.quick_cmd@.len() == 0
        &&& after == (NeoShell {
            typing: Typing { quick_cmd: after.typing.quick_cmd, ..before.typing },
            ..before
        })
        &&& fx.len() == 1
        &&& fx[0] matches Effect::Then(Message::ReplayCommand(c)) && c@ == cmd
    } else {
        ignored(before, after, fx)
    }
}

pub fn on_send_quick_cmd(state: &mut NeoShell) -> (fx: Vec<Effect>)
    ensures
        quick_cmd_sent(*old(state), *final(state), fx@),
{
    let cmd = text::trim_text(state.typing.quick_cmd.as_str());
    if forms::is_empty_text(cmd.as_str()) {
        return common::nothing();
    }
    state.typing.quick_cmd = String::new();
    common::one(Effect::Then(Message::ReplayCommand(cmd)))
}

pub open spec fn command_replayed(before: NeoShell, cmd: String, after: NeoShell, fx: Seq<Effect>) -> bool {
    &&& after.history.filter@.len() == 0
    &&& after == (NeoShell {
        history: HistoryPanel { show: false, filter: after.history.filter, ..before.history },
        ..before
    })
    &&& match common::active_at(before.sessions) {
        Some(i) => fx.len() == 1 && common::sends(
            fx[0],
            before.sessions.tabs@[i].session_id@,
            cmd@ + "\n"@,
        ),
        None => fx.len() == 0,
    }
}

/// Run a command of the history, or of the quick-command input, in the active
/// tab.
pub fn on_replay_command(state: &mut NeoShell, cmd: String) -> (fx: Vec<Effect>)
    ensures
        command_replayed(*old(state), cmd, *final(state), fx@),
{
    state.history.show = false;
    state.history.filter = String::new();
    match state.sessions.active() {
        Some(i) => common::one(
            Effect::Send(
                state.sessions.tabs[i].session_id.clone(),
                text::concat(cmd.as_str(), "\n"),
            ),
        ),
        None => common::nothing(),
    }
}

// ---- the messages ---------------------------------------------------------------------------------------

pub open spec fn is_input_message(m: Message) -> bool {
    match m {
        Message::TerminalInput(_, _) => true,
        Message::KeyboardEvent(_, _, _, _) => true,
        Message::ModifiersChanged(_) => true,
        Message::PasteClipboard => true,
        Message::FocusMayHaveMoved => true,
        Message::FocusFound(_, _) => true,
        Message::QuickCmdInputChanged(_) => true,
        Message::QuickCmdAccept(_) => true,
        Message::SendQuickCmd => true,
        Message::ReplayCommand(_) => true,
        _ => false,
    }
}

pub open spec fn typing_only(before: NeoShell, typing: Typing, after: NeoShell) -> bool {
    after == (NeoShell { typing, ..before })
}

pub open spec fn focus_heard(before: NeoShell, seq: u64, id: Option<String>, after: NeoShell) -> bool {
    &&& FocusTracker::heard(before.focus, seq, id, after.focus)
    &&& after == (NeoShell { focus: after.focus, ..before })
}

#[verifier::opaque]
pub open spec fn input_step(before: NeoShell, m: Message, env: Env, after: NeoShell, fx: Seq<Effect>) -> bool {
    match m {
        Message::TerminalInput(s, d) => input_typed(before, s, d, env, after, fx),
        Message::KeyboardEvent(key, mods, t, captured) => key_pressed(
            before,
            key,
            mods,
            t,
            captured,
            env,
            after,
            fx,
        ),
        Message::ModifiersChanged(mods) => typing_only(before, Typing { modifiers: mods, ..before.typing }, after)
            && fx.len() == 0,
        Message::PasteClipboard => pasted(before, after, fx),
        Message::FocusMayHaveMoved => ignored(before, after, fx),
        Message::FocusFound(seq, id) => focus_heard(before, seq, id, after) && fx.len() == 0,
        Message::QuickCmdInputChanged(v) => typing_only(
            before,
            Typing { quick_cmd: v, quick_cmd_focused: true, ..before.typing },
            after,
        ) && fx.len() == 0,
        Message::QuickCmdAccept(cmd) => suggestion_taken(before, cmd, after, fx),
        Message::SendQuickCmd => quick_cmd_sent(before, after, fx),
        Message::ReplayCommand(cmd) => command_replayed(before, cmd, after, fx),
        _ => true,
    }
}

/// The messages of the keyboard and of what is typed.
pub fn handle_input(state: &mut NeoShell, message: Message, env: &Env) -> (fx: Vec<Effect>)
    requires
        is_input_message(message),
        old(state).wf(),
        old(state).has_room(),
    ensures
        input_step(*old(state), message, *env, *final(state), fx@),
        final(state).wf(),
{
    proof {
        reveal(input_step);
    }
    match message {
        Message::TerminalInput(session_id, data) => on_terminal_input(state, session_id, data, env),
        Message::KeyboardEvent(key, modifiers, typed, captured) => on_keyboard_event(
            state,
            key,
            modifiers,
            typed,
            captured,
            env,
        ),
        Message::ModifiersChanged(modifiers) => {
            state.typing.modifiers = modifiers;
            common::nothing()
        },
        Message::PasteClipboard => on_paste_clipboard(state),
        // The widget tree is asked after it.
        Message::FocusMayHaveMoved => common::nothing(),
        Message::FocusFound(seq, id) => {
            state.focus.found(seq, id);
            common::nothing()
        },
        Message::QuickCmdInputChanged(v) => {
            state.typing.quick_cmd = v;
            // Only a focused input produces this.
            state.typing.quick_cmd_focused = true;
            common::nothing()
        },
        Message::QuickCmdAccept(cmd) => on_quick_cmd_accept(state, cmd),
        Message::SendQuickCmd => on_send_quick_cmd(state),
        Message::ReplayCommand(cmd) => on_replay_command(state, cmd),
        _ => common::nothing(),
    }
}

} // verus!
