//! One message after the other: who handles it, and what follows from it.

use vstd::prelude::*;

use crate::browsing;
use crate::connecting;
use crate::draining;
use crate::editing;
use crate::events;
use crate::finding;
use crate::focus;
use crate::history;
use crate::input;
use crate::keeping;
use crate::locking;
use crate::panes;
use crate::pointer;
use crate::sharing;
use crate::signing;
use crate::transferring;
use crate::watching;
use crate::windows;
use crate::common;
use crate::focus::FocusTracker;
use crate::focus::FocusedField;
use crate::keys::Key;
use crate::keys::Named;
use crate::screens::Screen;
use crate::state::Effect;
use crate::state::Env;
use crate::state::Message;
use crate::state::MouseButton;
use crate::state::NeoShell;
use crate::state::Typing;
use crate::state::Vault;

verus! {

// ---- who handles what --------------------------------------------------------------------------------------

/// The part of the app that handles a message.
#[derive(Debug, Clone, Copy, PartialEq, Eq, Structural)]
pub enum Area {
    Vault,
    Connection,
    Form,
    Proxy,
    Tunnel,
    Tab,
    Input,
    Mouse,
    Search,
    Monitor,
    File,
    Sftp,
    Transfer,
    Auth,
    Sharing,
    Key,
    Kept,
    Window,
    Drain,
}

/// The message is one of the area's.
pub open spec fn belongs(m: Message, area: Area) -> bool {
    match area {
        Area::Vault => locking::is_vault_message(m),
        Area::Connection => connecting::is_connection_message(m),
        Area::Form => editing::is_form_message(m),
        Area::Proxy => editing::is_proxy_message(m),
        Area::Tunnel => editing::is_tunnel_message(m),
        Area::Tab => panes::is_tab_message(m),
        Area::Input => input::is_input_message(m),
        Area::Mouse => pointer::is_mouse_message(m),
        Area::Search => finding::is_search_message(m),
        Area::Monitor => watching::is_monitor_message(m),
        Area::File => browsing::is_file_message(m),
        Area::Sftp => browsing::is_sftp_message(m),
        Area::Transfer => transferring::is_transfer_message(m),
        Area::Auth => signing::is_auth_message(m),
        Area::Sharing => sharing::is_sharing_message(m),
        Area::Key => sharing::is_key_message(m),
        Area::Kept => keeping::is_kept_message(m),
        Area::Window => windows::is_window_message(m),
        Area::Drain => m is PollSshEvents,
    }
}

/// Where the message is handled.
pub fn area_of(message: &Message) -> (area: Area)
    ensures
        belongs(*message, area),
{
    match message {
        Message::PasswordChanged(_)
        | Message::ConfirmChanged(_)
        | Message::CreateVault
        | Message::VaultCreated
        | Message::UnlockVault
        | Message::VaultUnlocked
        | Message::StoresLoaded(_, _)
        | Message::AutoStartTunnels
        | Message::TunnelsListed(_, _)
        | Message::LockNow
        | Message::IdleCheck
        | Message::SetLockTimeout(_) => Area::Vault,
        Message::LoadConnections
        | Message::ConnectionsLoaded(_, _)
        | Message::ConnectTo(_)
        | Message::DeleteConnection(_)
        | Message::CancelDelete
        | Message::ExecuteDelete
        | Message::ShowConnectDialog
        | Message::HideConnectDialog
        | Message::SearchChanged(_)
        | Message::SidebarHover(_, _)
        | Message::CloneConnection(_)
        | Message::TestConnectionInList(_)
        | Message::TestConnectionInListDone(_, _)
        | Message::ImportSshConfig(_)
        | Message::ImportAllSshConfigs
        | Message::SshConfigRead(_) => Area::Connection,
        Message::ShowForm(_)
        | Message::HideForm
        | Message::FormNameChanged(_)
        | Message::FormHostChanged(_)
        | Message::FormPortChanged(_)
        | Message::FormUsernameChanged(_)
        | Message::FormAuthTypeChanged(_)
        | Message::FormPasswordChanged(_)
        | Message::FormPrivateKeyChanged(_)
        | Message::FormPassphraseChanged(_)
        | Message::FormGroupChanged(_)
        | Message::FormProxyChanged(_)
        | Message::KeyFileSelected(_)
        | Message::SaveForm
        | Message::TestFormConnection
        | Message::TestFormConnectionDone(_)
        | Message::BrowseKeyFile => Area::Form,
        Message::ShowProxyManager
        | Message::HideProxyManager
        | Message::ProxiesLoaded(_)
        | Message::ShowProxyForm(_)
        | Message::HideProxyForm
        | Message::ProxyFormNameChanged(_)
        | Message::ProxyFormTypeChanged(_)
        | Message::ProxyFormHostChanged(_)
        | Message::ProxyFormPortChanged(_)
        | Message::ProxyFormUsernameChanged(_)
        | Message::ProxyFormPasswordChanged(_)
        | Message::ProxyFormAuthTypeChanged(_)
        | Message::ProxyFormPrivateKeyChanged(_)
        | Message::ProxyFormPassphraseChanged(_)
        | Message::ProxyFormBrowsePrivateKey
        | Message::SaveProxy
        | Message::ProxySaved(_)
        | Message::DeleteProxy(_)
        | Message::ProxyDeleted(_)
        | Message::TestProxy(_)
        | Message::ProxyTestDone(_, _) => Area::Proxy,
        Message::ShowTunnelManager
        | Message::HideTunnelManager
        | Message::TunnelsLoaded(_)
        | Message::ShowTunnelForm(_)
        | Message::HideTunnelForm
        | Message::TunnelFormNameChanged(_)
        | Message::TunnelFormHostChanged(_)
        | Message::TunnelFormPortChanged(_)
        | Message::TunnelFormUserChanged(_)
        | Message::TunnelFormAuthTypeChanged(_)
        | Message::TunnelFormPasswordChanged(_)
        | Message::TunnelFormKeyChanged(_)
        | Message::TunnelFormPassphraseChanged(_)
        | Message::TunnelFormForwardsChanged(_)
        | Message::TunnelFormBrowseKey
        | Message::SaveTunnel
        | Message::ForwardsParsed(_)
        | Message::TunnelSaved(_)
        | Message::DeleteTunnel(_)
        | Message::TunnelDeleted(_)
        | Message::StartTunnel(_)
        | Message::TunnelStarted(_)
        | Message::StopTunnel(_)
        | Message::TunnelStateTick => Area::Tunnel,
        Message::SwitchToNextTab
        | Message::SwitchToPrevTab
        | Message::SwitchToTab(_)
        | Message::SshConnected(_, _, _, _)
        | Message::ConnectFailed(_, _, _)
        | Message::TabSelected(_)
        | Message::TabClosed(_)
        | Message::TabRenameInput(_)
        | Message::TabRenameCommit
        | Message::TabRenameCancel
        | Message::SplitTab(_)
        | Message::SplitConnected(_, _, _)
        | Message::SplitFailed(_, _)
        | Message::SplitFocusToggle
        | Message::CloseFocusedPane
        | Message::SplitDividerPressed => Area::Tab,
        Message::TerminalInput(_, _)
        | Message::KeyboardEvent(_, _, _, _)
        | Message::ModifiersChanged(_)
        | Message::PasteClipboard
        | Message::FocusMayHaveMoved
        | Message::FocusFound(_, _)
        | Message::QuickCmdInputChanged(_)
        | Message::QuickCmdAccept(_)
        | Message::SendQuickCmd
        | Message::ReplayCommand(_) => Area::Input,
        Message::TerminalScrollUp(_)
        | Message::TerminalScrollDown(_)
        | Message::TerminalMouseDown(_)
        | Message::TerminalMouseUp(_)
        | Message::TerminalMouseMove
        | Message::CopySelection => Area::Mouse,
        Message::ToggleTerminalSearch
        | Message::TerminalSearchChanged(_)
        | Message::TerminalSearchFound(_)
        | Message::TerminalSearchNext
        | Message::TerminalSearchPrev
        | Message::TerminalSearchClose
        | Message::ToggleTerminalSearchCase
        | Message::TogglePalette
        | Message::PaletteQueryChanged(_)
        | Message::PaletteNavUp
        | Message::PaletteNavDown
        | Message::PaletteExecute
        | Message::PaletteExecuteIndex(_) => Area::Search,
        Message::FetchMonitorData
        | Message::MonitorDataReceived(_, _)
        | Message::MonitorError(_, _)
        | Message::ResumeMonitoring(_)
        | Message::ResumeMonitoringDone(_, _)
        | Message::ExecParked(_)
        | Message::ShowNetworkDetail(_)
        | Message::HideNetworkDetail
        | Message::AlertEnabledToggled(_)
        | Message::InspectProcess(_)
        | Message::ProcessDetailReceived(_)
        | Message::HideProcessDetail
        | Message::KillProcessRequest(_)
        | Message::KillIdentityRead(_, _, _, _)
        | Message::KillProcessDone(_)
        | Message::FetchPorts
        | Message::PortsReceived(_, _)
        | Message::PortsSortBy(_) => Area::Monitor,
        Message::FilesReceived(_, _, _)
        | Message::ChangeDir(_, _)
        | Message::ListingFailed(_, _, _)
        | Message::FileClicked(_, _, _)
        | Message::PathInputChanged(_)
        | Message::PathInputSubmit
        | Message::HideContextMenu
        | Message::LocalPathChanged(_)
        | Message::LocalPathSubmit
        | Message::LocalFileClicked(_, _)
        | Message::LocalDirRead(_)
        | Message::RefreshLocalFiles
        | Message::RefreshRemoteFiles
        | Message::OpenEditor(_, _)
        | Message::EditorContentLoaded(_, _, _)
        | Message::EditorAction(_)
        | Message::SaveEditor
        | Message::EditorSaved
        | Message::CloseEditor => Area::File,
        Message::RemoteMenuOpen(_, _, _)
        | Message::RemoteMenuClose
        | Message::SftpNewFolder
        | Message::SftpRename
        | Message::SftpChmod
        | Message::SftpDelete
        | Message::SftpInputChanged(_)
        | Message::SftpInputSubmit
        | Message::SftpInputCancel
        | Message::SftpOpDone(_, _, _)
        | Message::ConfirmActionExecute
        | Message::ConfirmActionCancel => Area::Sftp,
        Message::UploadFile
        | Message::UploadDir
        | Message::UploadLocalFile
        | Message::LocalFileReady(_, _, _)
        | Message::UploadPicked(_, _, _)
        | Message::UploadFinished(_, _, _)
        | Message::FileDropped(_)
        | Message::DownloadFile(_, _)
        | Message::DownloadPicked(_, _, _)
        | Message::DownloadDone(_, _)
        | Message::DownloadDir(_, _)
        | Message::DownloadDirPicked(_, _, _)
        | Message::DownloadDirDone(_, _)
        | Message::TransfersSpotted(_)
        | Message::RzDetected(_)
        | Message::SzDetected(_)
        | Message::RzPicked(_, _, _)
        | Message::RzUploadDone(_, _, _)
        | Message::CancelTransfer => Area::Transfer,
        Message::AuthAnswerChanged(_, _)
        | Message::AuthFocus(_)
        | Message::AuthSubmit
        | Message::AuthEnter
        | Message::AuthCancel => Area::Auth,
        Message::ShowBroadcastDialog
        | Message::HideBroadcastDialog
        | Message::BroadcastTextChanged(_)
        | Message::BroadcastToggleSession(_)
        | Message::BroadcastSendNow
        | Message::ToggleSyncInput
        | Message::ShowSnippetsPanel
        | Message::HideSnippetsPanel
        | Message::SnippetsLoaded(_)
        | Message::SnippetSend(_)
        | Message::SnippetEdit(_)
        | Message::SnippetFormNameChanged(_)
        | Message::SnippetFormBodyChanged(_)
        | Message::SnippetSave
        | Message::SnippetDelete(_) => Area::Sharing,
        Message::ShowKeyManager
        | Message::HideKeyManager
        | Message::KeysListed(_)
        | Message::KeyFormNameChanged(_)
        | Message::KeyFormCommentChanged(_)
        | Message::KeyGenerate
        | Message::KeyGenerated(_)
        | Message::KeyCopyPubkey(_)
        | Message::KeyDeployStart(_)
        | Message::KeyDeployTo(_, _)
        | Message::KeyDeployDone(_)
        | Message::KeyDeployCancel => Area::Key,
        Message::ShowHistory
        | Message::HideHistory
        | Message::HistoryFilterChanged(_)
        | Message::ClearHistory
        | Message::FlushHistory
        | Message::HistoryWritten(_)
        | Message::HistoryLoaded(_, _)
        | Message::ToggleGroupCollapsed(_)
        | Message::SetAllGroupsCollapsed(_)
        | Message::GroupsRead(_, _, _)
        | Message::SaveCollapsedGroups(_)
        | Message::GroupsWritten(_) => Area::Kept,
        Message::ToggleBottomPanel
        | Message::SwitchBottomTab(_)
        | Message::ToggleSidebar
        | Message::ShowSettings
        | Message::HideSettings
        | Message::ShowAbout
        | Message::HideAbout
        | Message::ToggleShortcutsHelp
        | Message::ShowLogViewer
        | Message::HideLogViewer
        | Message::RefreshLogViewer
        | Message::LogRead(_, _)
        | Message::OpenLogFolder
        | Message::DismissErrorDialog
        | Message::CopyErrorText
        | Message::ErrorTextCopied
        | Message::ToggleLanguage
        | Message::ThemeSelectZone(_)
        | Message::ThemeCloseZone
        | Message::ThemeReplaced
        | Message::SetFontSize
        | Message::CheckForUpdate
        | Message::DownloadUpdate
        | Message::RestartForUpdate
        | Message::DismissUpdate
        | Message::WindowCloseRequested
        | Message::QuitApp
        | Message::Nothing
        | Message::Error(_) => Area::Window,
        Message::PollSshEvents => Area::Drain,
    }
}

/// Every message is handled in one place, and in no other.
pub proof fn law_every_message_has_one_handler(m: Message, a: Area, b: Area)
    requires
        belongs(m, a),
        belongs(m, b),
    ensures
        a == b,
{
}

// ---- one message --------------------------------------------------------------------------------------------

/// Real user input: it re-arms the idle re-lock timer.
pub open spec fn is_user_input(m: Message) -> bool {
    match m {
        Message::KeyboardEvent(_, _, _, _) => true,
        Message::TerminalMouseDown(_) => true,
        Message::TerminalMouseMove => true,
        Message::TerminalMouseUp(_) => true,
        Message::TerminalScrollUp(_) => true,
        Message::TerminalScrollDown(_) => true,
        Message::PasteClipboard => true,
        Message::SidebarHover(_, _) => true,
        Message::SplitDividerPressed => true,
        Message::FileDropped(_) => true,
        _ => false,
    }
}

/// The state with the input noted.
pub open spec fn noted(s: NeoShell, m: Message, now: u128) -> NeoShell {
    NeoShell {
        vault: Vault {
            last_activity: if is_user_input(m) {
                now
            } else {
                s.vault.last_activity
            },
            ..s.vault
        },
        typing: Typing {
            last_keypress: if m is KeyboardEvent {
                Some(now)
            } else {
                s.typing.last_keypress
            },
            ..s.typing
        },
        ..s
    }
}

/// Kept in one place rather than with each message, so that a new input
/// message cannot forget to do it.
fn note_input(state: &mut NeoShell, message: &Message, now: u128)
    ensures
        *final(state) == noted(*old(state), *message, now),
{
    match message {
        Message::KeyboardEvent(_, _, _, _) => {
            state.vault.last_activity = now;
            // Keys only: a sign-in modal that comes up mid-typing must not
            // take the keyboard.
            state.typing.last_keypress = Some(now);
        },
        Message::TerminalMouseDown(_)
        | Message::TerminalMouseMove
        | Message::TerminalMouseUp(_)
        | Message::TerminalScrollUp(_)
        | Message::TerminalScrollDown(_)
        | Message::PasteClipboard
        | Message::SidebarHover(_, _)
        | Message::SplitDividerPressed
        | Message::FileDropped(_) => {
            state.vault.last_activity = now;
        },
        _ => {},
    }
}

/// What the area makes of the message.
pub open spec fn area_step(
    area: Area,
    before: NeoShell,
    m: Message,
    env: Env,
    after: NeoShell,
    fx: Seq<Effect>,
) -> bool {
    match area {
        Area::Vault => locking::vault_step(before, m, env, after, fx),
        Area::Connection => connecting::connection_step(before, m, env, after, fx),
        Area::Form => editing::form_step(before, m, env, after, fx),
        Area::Proxy => editing::proxy_step(before, m, env, after, fx),
        Area::Tunnel => editing::tunnel_step(before, m, env, after, fx),
        Area::Tab => panes::tab_step(before, m, env, after, fx),
        Area::Input => input::input_step(before, m, env, after, fx),
        Area::Mouse => pointer::mouse_step(before, m, env, after, fx),
        Area::Search => finding::search_step(before, m, env, after, fx),
        Area::Monitor => watching::monitor_step(before, m, env, after, fx),
        Area::File => browsing::file_step(before, m, env, after, fx),
        Area::Sftp => browsing::sftp_step(before, m, env, after, fx),
        Area::Transfer => transferring::transfer_step(before, m, env, after, fx),
        Area::Auth => signing::auth_step(before, m, env, after, fx),
        Area::Sharing => sharing::sharing_step(before, m, env, after, fx),
        Area::Key => sharing::key_step(before, m, env, after, fx),
        Area::Kept => keeping::kept_step(before, m, env, after, fx),
        Area::Window => windows::window_step(before, m, env, after, fx),
        Area::Drain => draining::polled(before, env, after, fx),
    }
}

/// What a message does: what the area it belongs to makes of it, once it is
/// noted as input where it is some.
pub open spec fn handled(before: NeoShell, m: Message, env: Env, after: NeoShell, fx: Seq<Effect>) -> bool {
    forall|area: Area| #[trigger] belongs(m, area) ==> area_step(area, noted(before, m, env.now), m, env, after, fx)
}

/// Handle one message.
pub fn handle_message(state: &mut NeoShell, message: Message, env: &Env) -> (fx: Vec<Effect>)
    requires
        old(state).wf(),
        old(state).has_room(),
    ensures
        handled(*old(state), message, *env, *final(state), fx@),
        final(state).wf(),
{
    note_input(state, &message, env.now);
    let area = area_of(&message);
    let ghost m = message;
    let fx = match area {
        Area::Vault => locking::handle_vault(state, message, env),
        Area::Connection => connecting::handle_connection(state, message, env),
        Area::Form => editing::handle_form(state, message, env),
        Area::Proxy => editing::handle_proxy(state, message, env),
        Area::Tunnel => editing::handle_tunnel(state, message, env),
        Area::Tab => panes::handle_tab(state, message, env),
        Area::Input => input::handle_input(state, message, env),
        Area::Mouse => pointer::handle_mouse(state, message, env),
        Area::Search => finding::handle_search(state, message, env),
        Area::Monitor => watching::handle_monitor(state, message, env),
        Area::File => browsing::handle_file(state, message, env),
        Area::Sftp => browsing::handle_sftp(state, message, env),
        Area::Transfer => transferring::handle_transfer(state, message, env),
        Area::Auth => signing::handle_auth(state, message, env),
        Area::Sharing => sharing::handle_sharing(state, message, env),
        Area::Key => sharing::handle_key_manager(state, message, env),
        Area::Kept => keeping::handle_kept(state, message, env),
        Area::Window => windows::handle_window(state, message, env),
        Area::Drain => draining::on_poll_ssh_events(state, env),
    };
    assert forall|other: Area| #[trigger] belongs(m, other) implies area_step(
        other,
        noted(*old(state), m, env.now),
        m,
        *env,
        *state,
        fx@,
    ) by {
        law_every_message_has_one_handler(m, area, other);
    }
    fx
}

// ---- the keyboard focus after a message -----------------------------------------------------------------------

/// Tab, Shift+Tab and Esc move the focus, or take it off a text input.
pub open spec fn key_moves_focus(key: Key) -> bool {
    match key {
        Key::Named(Named::Tab) => true,
        Key::Named(Named::Escape) => true,
        _ => false,
    }
}

pub open spec fn may_move_focus(m: Message) -> bool {
    match m {
        Message::TerminalMouseDown(_) => true,
        Message::FocusMayHaveMoved => true,
        Message::ToggleBottomPanel => true,
        Message::ToggleSidebar => true,
        Message::KeyboardEvent(key, _, _, _) => key_moves_focus(key),
        _ => false,
    }
}

/// Whether `message` may leave another text input — or none — holding the
/// keyboard focus: a mouse press (a click focuses the input under it and takes
/// the focus from every other one), Tab or Shift+Tab, Esc (a focused text input
/// lets go on Esc), and hiding the bottom panel or the sidebar, which removes
/// the path inputs or the search box, and the focus with them.
pub fn moves_focus(message: &Message) -> (r: bool)
    ensures
        r == may_move_focus(*message),
{
    match message {
        Message::TerminalMouseDown(_)
        | Message::FocusMayHaveMoved
        | Message::ToggleBottomPanel
        | Message::ToggleSidebar => true,
        Message::KeyboardEvent(key, _, _, _) => match key {
            Key::Named(Named::Tab) | Key::Named(Named::Escape) => true,
            _ => false,
        },
        _ => false,
    }
}

/// A modal or a screen came or went.
pub open spec fn scene_changed(before: NeoShell, after: NeoShell) -> bool {
    before.vault.screen != after.vault.screen || before.top() != after.top()
}

/// Between the two the app did not ask the widget tree for the focus, nor move
/// it.
pub open spec fn not_asked(before: NeoShell, after: NeoShell) -> bool {
    before.focus.issued == after.focus.issued
}

/// What may have moved the focus is followed by one question, unless it asked
/// already.
pub open spec fn focus_asked(
    before: NeoShell,
    m: Message,
    mid: NeoShell,
    fx: Seq<Effect>,
    after: NeoShell,
    all: Seq<Effect>,
) -> bool {
    if (may_move_focus(m) || scene_changed(before, mid)) && not_asked(before, mid) {
        let seq = (mid.focus.issued + 1) as u64;
        &&& after == (NeoShell { focus: FocusTracker { issued: seq, ..mid.focus }, ..mid })
        &&& all == fx.push(Effect::QueryFocus(seq))
    } else {
        after == mid && all == fx
    }
}

pub open spec fn updated_via(
    before: NeoShell,
    m: Message,
    env: Env,
    mid: NeoShell,
    first: Seq<Effect>,
    after: NeoShell,
    fx: Seq<Effect>,
) -> bool {
    &&& handled(before, m, env, mid, first)
    &&& focus_asked(before, m, mid, first, after, fx)
}

pub open spec fn updated(before: NeoShell, m: Message, env: Env, after: NeoShell, fx: Seq<Effect>) -> bool {
    exists|mid: NeoShell, first: Seq<Effect>| #[trigger] updated_via(before, m, env, mid, first, after, fx)
}

/// Handle a message, then ask where the keyboard focus is if that may have
/// changed. A modal or a screen that came or went took its fields — and perhaps
/// the focus — with it. One question per message, and none when the message
/// moved the focus itself: that move asks after it has landed.
pub fn update(state: &mut NeoShell, message: Message, env: &Env) -> (fx: Vec<Effect>)
    requires
        old(state).wf(),
        old(state).has_room(),
    ensures
        updated(*old(state), message, *env, *final(state), fx@),
        final(state).wf(),
{
    let ghost m = message;
    let moved = moves_focus(&message);
    let screen = state.vault.screen;
    let top = state.topmost_overlay();
    let issued: u64 = state.focus.issued;
    let mut fx = handle_message(state, message, env);
    let ghost mid = *state;
    let ghost first = fx@;
    let changed = screen != state.vault.screen || top != state.topmost_overlay();
    if (moved || changed) && state.focus.issued == issued {
        let seq = state.focus.query();
        fx.push(Effect::QueryFocus(seq));
    }
    assert(updated_via(*old(state), m, *env, mid, first, *state, fx@));
    fx
}

/// After a message that may have moved the focus, or with which a modal or a
/// screen came or went, what the app believes of the focus is open until the
/// widget tree answers: a question is out that was not there before.
pub proof fn law_a_moved_focus_is_asked_for(before: NeoShell, m: Message, env: Env, after: NeoShell, fx: Seq<Effect>)
    requires
        before.has_room(),
        updated(before, m, env, after, fx),
        may_move_focus(m) || scene_changed(before, after),
    ensures
        after.focus.issued != before.focus.issued,
{
    let (mid, first) = choose|mid: NeoShell, first: Seq<Effect>| #[trigger]
        updated_via(before, m, env, mid, first, after, fx);
    assert forall|o: crate::screens::Overlay| #[trigger] mid.open(o) == after.open(o) by {}
    crate::overlays::lemma_same_top(mid, after, 0);
}

// ---- the input method -------------------------------------------------------------------------------------------

/// What the front challenge of the sign-in modal asks.
pub open spec fn prompts_of(s: NeoShell) -> Seq<(String, bool)> {
    if s.auth.queue@.len() > 0 {
        s.auth.queue@[0].challenge.prompts@
    } else {
        Seq::empty()
    }
}

/// The input method may compose.
pub open spec fn composes(s: NeoShell) -> bool {
    focus::may_compose(s.vault.screen, s.focus.shown_field(prompts_of(s).len()), prompts_of(s)) && (
    s.focus.is_answered() || !s.secret_on_screen())
}

/// The terminal is known to have the keys.
pub open spec fn terminal_has_keys(s: NeoShell) -> bool {
    &&& composes(s)
    &&& s.focus.shown_field(prompts_of(s).len()) == FocusedField::Nothing
    &&& s.focus.is_answered()
    &&& s.top() is None
}

pub open spec fn within(x: usize, len: usize) -> usize {
    if x < len {
        x
    } else if len > 0 {
        (len - 1) as usize
    } else {
        0
    }
}

/// The cell that the candidate window opens at: the terminal's text cursor.
pub open spec fn anchor(s: NeoShell) -> Option<(usize, usize)> {
    match (terminal_has_keys(s), common::focused_cells(s.sessions)) {
        (true, Some(g)) => Some((within(g.cursor_x, g.cols), within(g.cursor_y, g.rows))),
        _ => None,
    }
}

fn inside(x: usize, len: usize) -> (r: usize)
    ensures
        r == within(x, len),
{
    if x < len {
        x
    } else if len > 0 {
        len - 1
    } else {
        0
    }
}

/// What the input method may do now.
#[derive(Debug, Clone, Copy, PartialEq, Eq)]
pub struct InputMethod {
    pub allowed: bool,
    /// Column and row of the focused terminal that its candidate window opens
    /// at; none where something else takes the keys, which places the window
    /// itself.
    pub anchor: Option<(usize, usize)>,
}

/// What the input method may do now: nothing on the vault screens or in a
/// secret field; and while the terminal has the keyboard, its candidate window
/// opens at the text cursor. Not while a click's answer is out: the runtime
/// anchored the window at the click — on the field it focused, perhaps — and
/// the terminal takes it back only once it is known to hold the keys.
pub fn sync_input_method(s: &NeoShell) -> (r: InputMethod)
    ensures
        r.allowed == composes(*s),
        r.anchor == anchor(*s),
{
    let none: Vec<(String, bool)> = Vec::new();
    let prompts = if s.auth.queue.len() > 0 {
        &s.auth.queue[0].challenge.prompts
    } else {
        &none
    };
    assert(prompts@ =~= prompts_of(*s));
    let field = s.focus.field_for(prompts.len());
    let allowed = focus::ime_allowed(&s.vault.screen, field, prompts.as_slice())
        && focus::focus_settled_or_no_secret_on_screen(s.focus.answered(), s.secret_overlay_open());
    let keys = allowed && field == FocusedField::Nothing && s.focus.answered() && !s.any_overlay_open();
    let anchor = if keys {
        match s.sessions.focused_terminal() {
            Some(g) => Some((inside(g.cursor_x, g.cols), inside(g.cursor_y, g.rows))),
            None => None,
        }
    } else {
        None
    };
    InputMethod { allowed, anchor }
}

/// The input method is off on the screens of the vault, and wherever a secret
/// can be typed.
pub proof fn law_no_composing_where_a_secret_is_typed(s: NeoShell)
    ensures
        !(s.vault.screen is Main) ==> !composes(s),
        s.focus.shown_field(prompts_of(s).len()) == FocusedField::Secret ==> !composes(s),
        s.secret_on_screen() && !s.focus.is_answered() ==> !composes(s),
{
}

/// The candidate window opens inside the terminal's grid.
pub proof fn law_the_anchor_is_a_cell(s: NeoShell)
    requires
        anchor(s) is Some,
    ensures
        match (anchor(s), common::focused_cells(s.sessions)) {
            (Some((col, row)), Some(g)) => (g.cols > 0 ==> col < g.cols) && (g.rows > 0 ==> row < g.rows),
            _ => false,
        },
{
}

// ---- what keeps coming -------------------------------------------------------------------------------------------

/// How often the figures of the active session are fetched.
pub const MONITOR_TICK: u128 = 3_000_000_000;

/// Plenty for a timeout measured in minutes.
pub const IDLE_TICK: u128 = 20_000_000_000;

pub const TUNNEL_TICK: u128 = 2_000_000_000;

pub const UPDATE_TICK: u128 = 3_600_000_000_000;

/// What reaches the state by itself: how often each message comes, where it
/// comes at all.
#[derive(Debug, Clone, Copy, PartialEq, Eq, Structural)]
pub struct Subscription {
    pub check_for_update: u128,
    pub poll_ssh_events: Option<u128>,
    pub fetch_monitor_data: Option<u128>,
    pub idle_check: Option<u128>,
    pub tunnel_state: Option<u128>,
    pub flush_history: Option<u128>,
    /// Keys, the mouse, and files dropped on the window.
    pub user_input: bool,
}

pub open spec fn when(b: bool, every: u128) -> Option<u128> {
    if b {
        Some(every)
    } else {
        None
    }
}

fn every(b: bool, period: u128) -> (r: Option<u128>)
    ensures
        r == when(b, period),
{
    if b {
        Some(period)
    } else {
        None
    }
}

/// A transfer or an update that shows its progress is under way.
pub open spec fn is_moving(s: NeoShell, update_moving: bool) -> bool {
    update_moving || (s.transfers.bar matches Some(p) && !p.finished)
}

pub open spec fn subscribed(s: NeoShell, update_moving: bool) -> Subscription {
    let main = s.vault.screen is Main;
    Subscription {
        check_for_update: UPDATE_TICK,
        poll_ssh_events: events::polled(
            main,
            s.sessions.tabs@.len() > 0 || s.sessions.held is Some,
            s.auth.queue@.len() > 0,
            is_moving(s, update_moving),
        ),
        fetch_monitor_data: when(main && s.sessions.active_tab is Some, MONITOR_TICK),
        idle_check: when(main && s.vault.lock_timeout_mins > 0, IDLE_TICK),
        tunnel_state: when(s.tunnel.show_manager, TUNNEL_TICK),
        flush_history: when(main && s.history.sync.dirty, history::HISTORY_FLUSH_TICK),
        user_input: main,
    }
}

/// What is to reach the state by itself, as it is now. The idle check costs
/// nothing when the feature is switched off, and the flush only asks whether a
/// paced write is due: lock and quit write at once.
pub fn subscription(s: &NeoShell, update_moving: bool) -> (r: Subscription)
    ensures
        r == subscribed(*s, update_moving),
{
    let main = match s.vault.screen {
        Screen::Main => true,
        _ => false,
    };
    Subscription {
        check_for_update: UPDATE_TICK,
        poll_ssh_events: events::poll_interval(
            main,
            s.sessions.tabs.len() > 0 || s.sessions.held.is_some(),
            s.auth.queue.len() > 0,
            s.progress_moving(update_moving),
        ),
        fetch_monitor_data: every(main && s.sessions.active_tab.is_some(), MONITOR_TICK),
        idle_check: every(main && s.vault.lock_timeout_mins > 0, IDLE_TICK),
        tunnel_state: every(s.tunnel.show_manager, TUNNEL_TICK),
        flush_history: every(main && s.history.sync.dirty, history::HISTORY_FLUSH_TICK),
        user_input: main,
    }
}

/// The message of a mouse press. Only a press that no widget claimed goes to
/// the terminal: the remote file browser's rows open their own menu with a
/// right-click. Every other press may still have moved the keyboard focus —
/// onto the text input it landed on, or off one.
pub fn press_message(claimed: bool, button: Option<MouseButton>) -> (m: Message)
    ensures
        m == (match (claimed, button) {
            (false, Some(b)) => Message::TerminalMouseDown(b),
            _ => Message::FocusMayHaveMoved,
        }),
{
    match button {
        Some(b) => if claimed {
            Message::FocusMayHaveMoved
        } else {
            Message::TerminalMouseDown(b)
        },
        None => Message::FocusMayHaveMoved,
    }
}

/// How many lines a notch of the wheel scrolls.
pub const WHEEL_LINES: usize = 3;

/// The message of a notch of the wheel: up, down or neither. None for one that
/// a widget claimed.
pub fn wheel_message(claimed: bool, up: bool, down: bool) -> (m: Option<Message>)
    ensures
        m == (if claimed {
            None
        } else if up {
            Some(Message::TerminalScrollUp(WHEEL_LINES))
        } else if down {
            Some(Message::TerminalScrollDown(WHEEL_LINES))
        } else {
            None
        }),
{
    if claimed {
        None
    } else if up {
        Some(Message::TerminalScrollUp(WHEEL_LINES))
    } else if down {
        Some(Message::TerminalScrollDown(WHEEL_LINES))
    } else {
        None
    }
}

} // verus!
