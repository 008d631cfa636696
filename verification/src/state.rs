//! The state of the app, what happens to it, and what it asks for.

use vstd::prelude::*;

use crate::auth::AuthChallenge;
use crate::auth::Waiting;
use crate::catalog::Catalog;
use crate::connections::ConnectionInfo;
use crate::events::SshEvent;
use crate::focus::FocusTracker;
use crate::folded::SealedGroups;
use crate::forms::ConnectionConfig;
use crate::forms::ConnectionFormData;
use crate::forms::ConnectionTestResult;
use crate::forms::ProxyConfig;
use crate::forms::ProxyFormData;
use crate::forms::ProxyTestResult;
use crate::forms::TunnelConfig;
use crate::forms::TunnelFormData;
use crate::grid::SearchMatch;
use crate::grid::TerminalGrid;
use crate::history::CmdRecord;
use crate::history::HistoryLoad;
use crate::history::HistorySync;
use crate::history::WriteLedger;
use crate::keys::Key;
use crate::keys::Modifiers;
use crate::local_files::LocalFileEntry;
use crate::monitors::InFlight;
use crate::monitors::ParkedMonitors;
use crate::names::NameMap;
use crate::names::NameSet;
use crate::palette;
use crate::ports::PortInfo;
use crate::ports::PortSort;
use crate::processes::ProcIdentity;
use crate::processes::ProcessDetailInfo;
use crate::remote_files::FileEntry;
use crate::remote_files::Listing;
use crate::remote_files::TransferProgress;
use crate::screens::Screen;
use crate::secrets;
use crate::settings::Snippet;
use crate::tabs::TerminalTab;
use crate::titles::SshHostConfig;

verus! {

// ---- the parts of the state -------------------------------------------------------------------

#[derive(Debug)]
pub struct Vault {
    pub screen: Screen,
    pub password_input: String,
    pub confirm_input: String,
    /// Idle minutes before the vault re-locks itself. 0 = never.
    pub lock_timeout_mins: u32,
    /// Last keyboard or mouse activity. Only meaningful on the main screen;
    /// re-armed on every unlock.
    pub last_activity: u128,
}

/// The error dialog.
#[derive(Debug)]
pub struct ErrorBox {
    pub message: String,
    pub show: bool,
    /// Fingerprint of the error text that the Copy button last put on the
    /// clipboard, so that the button reads "Copied" for exactly that message.
    pub copied: Option<u64>,
    /// Title of the dialog for the message on it, when that message is not a
    /// connection error: the key of a text, bound to the message's fingerprint
    /// so that an error put up anywhere else afterwards keeps the usual title.
    pub title: Option<(u64, &'static str)>,
}

/// Saved connections, and the tabs of the live ones.
#[derive(Debug)]
pub struct Sessions {
    pub connections: Vec<ConnectionInfo>,
    pub search_query: String,
    /// Sidebar connection row under the mouse; its actions show on hover.
    pub hovered: Option<String>,
    /// The SSH config as last read.
    pub ssh_hosts: Vec<SshHostConfig>,
    pub show_connect_dialog: bool,
    /// The connection whose delete is to be confirmed, and its name.
    pub confirm_delete: Option<(String, String)>,
    pub test_results: NameMap<ConnectionTestResult>,
    pub tabs: Vec<TerminalTab>,
    pub active_tab: Option<usize>,
    /// Connections whose connect is still out: none is started twice.
    pub connecting: NameSet,
    /// Events of the SSH side not handled yet, oldest first.
    pub inbox: Vec<SshEvent>,
    /// An event for a session whose tab was still connecting, held back ahead
    /// of everything still queued until the tab shows the session.
    pub held: Option<SshEvent>,
    /// The terminal size last told to the remote side.
    pub last_term_size: (usize, usize),
}

#[derive(Debug)]
pub struct ConnForm {
    pub show: bool,
    pub form: ConnectionFormData,
    /// `form` as it was opened; ESC only closes a form still equal to it. It
    /// never holds a secret.
    pub opened: ConnectionFormData,
    pub edit_id: Option<String>,
    pub test_result: Option<ConnectionTestResult>,
    pub testing: bool,
}

#[derive(Debug)]
pub struct ProxyPanel {
    pub proxies: Vec<ProxyConfig>,
    pub show_manager: bool,
    pub show_form: bool,
    pub form: ProxyFormData,
    pub edit_id: Option<String>,
    pub results: NameMap<ProxyTestResult>,
}

#[derive(Debug)]
pub struct TunnelPanel {
    pub tunnels: Vec<TunnelConfig>,
    pub show_manager: bool,
    pub show_form: bool,
    pub form: TunnelFormData,
    pub edit_id: Option<String>,
}

/// Right-click menu of the remote file browser.
#[derive(Debug)]
pub struct RemoteFileMenu {
    pub session_id: String,
    /// Directory the browser is showing: where "New folder" lands, and what
    /// `entry` is relative to.
    pub dir: String,
    /// The row that was clicked. `None` for the list background and for
    /// "..", which only offer "New folder".
    pub entry: Option<FileEntry>,
}

/// What the SFTP name / mode dialog is asking for. The row goes along: what it
/// showed is stated, and the operation is refused if the entry is no longer
/// that.
#[derive(Debug)]
pub enum SftpInputKind {
    NewFolder,
    Rename(FileEntry),
    Chmod(FileEntry),
}

/// Small modal taking a folder name, a new name, or an octal mode.
#[derive(Debug)]
pub struct SftpInputDialog {
    pub session_id: String,
    pub dir: String,
    pub kind: SftpInputKind,
    pub value: String,
    /// Key of an inline validation message; the dialog stays open.
    pub error: Option<&'static str>,
}

/// A destructive action held until the user confirms it. Each variant carries
/// exactly what it will touch, because that is what the confirmation shows.
#[derive(Debug)]
pub enum ConfirmAction {
    /// `entry` is the row: the confirmation quotes its exact name and states
    /// its kind, and the delete is refused if the entry is no longer that.
    SftpDelete { session_id: String, dir: String, path: String, entry: FileEntry },
    SftpChmod { session_id: String, dir: String, path: String, entry: FileEntry, mode: u32 },
    /// `command` is what the confirmation shows, read as it opened;
    /// `identity` the process it was read from, looked up again right before
    /// the signal goes.
    Kill { session_id: String, pid: u32, command: String, signal: i32, identity: ProcIdentity },
}

#[derive(Debug)]
pub struct Browser {
    /// The listing on screen for each session, with the directory it was
    /// produced for: every row action resolves against that directory.
    pub listings: NameMap<Listing>,
    /// The directory last asked for — ahead of the listing while its listing
    /// is on the way.
    pub current_dir: NameMap<String>,
    /// The directory each session's prompt showed when the browser last
    /// followed the shell, as the prompt spells it.
    pub prompt_cwd: NameMap<String>,
    pub path_input: String,
    pub menu: Option<RemoteFileMenu>,
    /// The connection whose right-click menu is open.
    pub context_menu: Option<String>,
    pub input: Option<SftpInputDialog>,
    pub confirm: Option<ConfirmAction>,
    pub local_path: String,
    pub local_entries: Vec<LocalFileEntry>,
    pub selected_local: Option<String>,
}

/// The file editor. Its text lives in the widget.
#[derive(Debug)]
pub struct Editor {
    pub path: Option<String>,
    pub session_id: Option<String>,
    pub dirty: bool,
}

/// A file or folder on the local disk.
#[derive(Debug)]
pub struct LocalFile {
    pub path: String,
    /// Its last component; a filesystem root has none.
    pub name: Option<String>,
    pub is_dir: bool,
}

/// A file or folder dropped on the window, waiting for the progress bar.
#[derive(Debug)]
pub struct DropJob {
    pub session_id: String,
    pub local: LocalFile,
    pub remote_dir: String,
}

#[derive(Debug)]
pub struct Transfers {
    pub bar: Option<TransferProgress>,
    /// An upload job is in flight; its end starts the next queued drop.
    pub running: bool,
    /// Drops waiting for the single progress bar, oldest first.
    pub drops: Vec<DropJob>,
    /// Numbers transfers in the order they start.
    pub next_id: u64,
}

/// What is being typed.
#[derive(Debug)]
pub struct Typing {
    /// The line typed so far, per session.
    pub cmd_buffer: NameMap<String>,
    /// The file that an `sz` typed in a session sends.
    pub sz_filename: NameMap<String>,
    /// When a file transfer was last detected in a session's output.
    pub zmodem: NameMap<u128>,
    pub modifiers: Modifiers,
    /// Last key press seen anywhere in the window.
    pub last_keypress: Option<u128>,
    pub quick_cmd: String,
    /// Best guess at whether the quick-command input has the keyboard focus.
    pub quick_cmd_focused: bool,
}

#[derive(Debug, Clone, Copy, PartialEq, Eq, Structural)]
pub enum MouseButton {
    Left,
    Middle,
    Right,
    WheelUp,
    WheelDown,
}

/// A mouse press that went to the remote application. Its drag and its
/// release go to the same session, even if the pointer leaves the pane.
#[derive(Debug)]
pub struct MouseReport {
    pub session_id: String,
    pub button: MouseButton,
    /// Last cell reported, 1-based; motion is only sent when it changes.
    pub cell: (usize, usize),
}

#[derive(Debug)]
pub struct Mouse {
    pub selection_start: Option<(usize, usize)>,
    pub selection_end: Option<(usize, usize)>,
    pub selecting: bool,
    /// Press reported to an application, awaiting its release.
    pub report: Option<MouseReport>,
    /// Last cell that a report of bare motion went out for.
    pub motion_cell: Option<(usize, usize)>,
    pub dragging_splitter: bool,
    pub dragging_divider: bool,
}

#[derive(Debug, Clone, Copy, PartialEq, Eq, Structural)]
pub enum BottomTab {
    Monitor,
    Files,
    QuickCmd,
    Ports,
}

#[derive(Debug)]
pub struct Panels {
    pub sidebar_collapsed: bool,
    pub show_settings: bool,
    pub show_about: bool,
    pub show_shortcuts: bool,
    pub bottom_tab: BottomTab,
    pub bottom_collapsed: bool,
    pub show_log: bool,
    pub log_content: String,
    /// The network interface shown in detail.
    pub interface: Option<String>,
    pub process: Option<ProcessDetailInfo>,
    /// The colour zone expanded for editing, by its number.
    pub theme_zone: Option<u32>,
    pub locale: String,
}

#[derive(Debug)]
pub struct HistoryPanel {
    pub records: Vec<CmdRecord>,
    pub show: bool,
    pub filter: String,
    /// Whether, and when, the records reach the disk.
    pub sync: HistorySync,
    pub ledger: WriteLedger,
}

#[derive(Debug)]
pub struct Broadcast {
    pub show: bool,
    pub text: String,
    pub selected: NameSet,
    /// Keystrokes go to every ticked session.
    pub sync_on: bool,
}

#[derive(Debug)]
pub struct Snippets {
    pub show: bool,
    pub list: Vec<Snippet>,
    pub edit_id: Option<String>,
    pub name: String,
    pub body: String,
}

#[derive(Debug)]
pub struct TermSearch {
    pub active: bool,
    pub query: String,
    pub case_insensitive: bool,
    pub matches: Vec<SearchMatch>,
    pub current: usize,
}

#[derive(Debug)]
pub struct Palette {
    pub show: bool,
    pub query: String,
    pub selected: usize,
}

#[derive(Debug)]
pub struct TabRename {
    pub tab: Option<usize>,
    pub input: String,
    pub last_click: Option<(usize, u128)>,
}

#[derive(Debug)]
pub struct Groups {
    /// Groups folded in the sidebar, by the connections' stored group ("" is
    /// the ungrouped bucket).
    pub collapsed: NameSet,
    /// `collapsed` holds changes the file does not have yet.
    pub dirty: bool,
    /// Counts changes to `collapsed`: only the save scheduled by the latest
    /// one runs.
    pub generation: u64,
    pub ledger: WriteLedger,
}

/// A key pair in the user's key directory.
#[derive(Debug)]
pub struct LocalKey {
    pub path: String,
    pub pubkey: String,
}

#[derive(Debug)]
pub struct KeyManager {
    pub show: bool,
    pub keys: Vec<LocalKey>,
    pub name: String,
    pub comment: String,
    /// Key path currently in "pick a connection to deploy to" mode.
    pub deploying: Option<String>,
    pub status: Option<String>,
}

#[derive(Debug)]
pub struct Auth {
    /// Challenges that came from the SSH threads and are not queued yet.
    pub inbox: Vec<AuthChallenge>,
    /// Challenges waiting for the modal, oldest first.
    pub queue: Vec<Waiting>,
    /// Answers being typed for the front challenge, one per prompt.
    pub answers: Vec<String>,
    /// The first answer field is owed the keyboard focus: a challenge reached
    /// the front while the modal was not on screen to take it.
    pub focus_owed: bool,
    /// When the front challenge's modal came on screen, for as long as it
    /// stays there.
    pub shown_at: Option<u128>,
}

#[derive(Debug)]
pub struct Monitoring {
    /// Sessions with a monitor fetch still out.
    pub inflight: InFlight,
    /// Sessions whose monitoring is parked until the user reconnects it.
    pub parked: ParkedMonitors,
    pub alerts_enabled: bool,
    /// What is over its threshold, per session.
    pub alerts: NameMap<Vec<String>>,
    /// The list of ports belongs to this session, and is kept in the table's
    /// sort order.
    pub ports_session: String,
    pub ports: Vec<PortInfo>,
    /// Sessions with a ports fetch still out.
    pub ports_inflight: InFlight,
    pub ports_error: Option<String>,
    pub ports_fetched_at: Option<u128>,
    pub ports_sort: PortSort,
    pub ports_sort_desc: bool,
}

/// The state of the app.
#[derive(Debug)]
pub struct NeoShell {
    pub vault: Vault,
    pub error: ErrorBox,
    pub sessions: Sessions,
    pub form: ConnForm,
    pub proxy: ProxyPanel,
    pub tunnel: TunnelPanel,
    pub browser: Browser,
    pub editor: Editor,
    pub transfers: Transfers,
    pub typing: Typing,
    pub mouse: Mouse,
    pub panels: Panels,
    pub history: HistoryPanel,
    pub broadcast: Broadcast,
    pub snippets: Snippets,
    pub search: TermSearch,
    pub palette: Palette,
    pub rename: TabRename,
    pub groups: Groups,
    pub keys: KeyManager,
    pub auth: Auth,
    pub monitor: Monitoring,
    /// Which text input has the keyboard focus: what the input method may do
    /// hangs on it.
    pub focus: FocusTracker,
}

// ---- what happens ---------------------------------------------------------------------------------

// No `Debug`: a message may carry a password or the lines of a history.
pub enum Message {
    // Vault
    PasswordChanged(String),
    ConfirmChanged(String),
    CreateVault,
    VaultCreated,
    UnlockVault,
    VaultUnlocked,
    /// The proxies and tunnels, read again with the vault open.
    StoresLoaded(Vec<ProxyConfig>, Vec<TunnelConfig>),
    /// Start every tunnel flagged for it. Dispatched only after the vault is
    /// open.
    AutoStartTunnels,
    /// The saved tunnels, and the ids of those that run.
    TunnelsListed(Vec<TunnelConfig>, Vec<String>),
    /// Re-lock the vault now. Live SSH sessions are deliberately left running.
    LockNow,
    /// Idle tick. Locks when the timeout has elapsed with no input.
    IdleCheck,
    /// Change the idle re-lock timeout (minutes; 0 = never).
    SetLockTimeout(u32),

    // Keyboard focus, which the input method follows
    /// A mouse press a widget claimed, or one the terminal never gets: another
    /// input may hold the focus now.
    FocusMayHaveMoved,
    /// What the widget tree said holds the focus: (query number, its id).
    FocusFound(u64, Option<String>),

    // Connections
    LoadConnections,
    /// The saved connections, and the hosts of the SSH config.
    ConnectionsLoaded(Vec<ConnectionInfo>, Vec<SshHostConfig>),
    ConnectTo(String),
    DeleteConnection(String),
    CancelDelete,
    ExecuteDelete,
    ShowConnectDialog,
    HideConnectDialog,
    SearchChanged(String),
    /// Pointer entered (true) or left (false) a sidebar connection row.
    SidebarHover(String, bool),
    CloneConnection(String),
    TestConnectionInList(String),
    TestConnectionInListDone(String, ConnectionTestResult),
    ImportSshConfig(SshHostConfig),
    ImportAllSshConfigs,
    /// The hosts of the SSH config, read for an import of all of them.
    SshConfigRead(Vec<SshHostConfig>),

    // Tab switching
    SwitchToNextTab,
    SwitchToPrevTab,
    SwitchToTab(usize),

    // Form
    ShowForm(Option<String>),
    HideForm,
    FormNameChanged(String),
    FormHostChanged(String),
    FormPortChanged(String),
    FormUsernameChanged(String),
    FormAuthTypeChanged(String),
    FormPasswordChanged(String),
    FormPrivateKeyChanged(String),
    FormPassphraseChanged(String),
    FormGroupChanged(String),
    FormProxyChanged(String),
    SaveForm,
    TestFormConnection,
    TestFormConnectionDone(ConnectionTestResult),
    BrowseKeyFile,
    KeyFileSelected(String),

    // Tabs and panes
    /// (tab id, session id, title, connection id)
    SshConnected(String, String, String, String),
    /// The connect behind a placeholder tab failed: (tab id, connection id,
    /// error). Only that tab goes, and only if it is still open.
    ConnectFailed(String, String, String),
    TabSelected(usize),
    TabClosed(usize),
    TabRenameInput(String),
    TabRenameCommit,
    TabRenameCancel,
    /// Split the active tab; vertical?
    SplitTab(bool),
    /// (tab id, vertical, session id)
    SplitConnected(String, bool, String),
    /// A split's connect failed: (tab id, error).
    SplitFailed(String, String),
    SplitFocusToggle,
    CloseFocusedPane,
    /// Left button went down on the split divider: start a ratio drag.
    SplitDividerPressed,

    // Polling / keyboard
    PollSshEvents,
    TerminalInput(String, String),
    /// The bool is true when a widget — a focused text input — already
    /// consumed the key. Such a key must not also be typed into the shell.
    KeyboardEvent(Key, Modifiers, Option<String>, bool),
    /// Modifier keys changed; tracked so that Shift can override mouse
    /// reporting.
    ModifiersChanged(Modifiers),
    PasteClipboard,

    // Monitor
    FetchMonitorData,
    /// New figures for a session, with what is over its threshold.
    MonitorDataReceived(String, Vec<String>),
    /// (session, error)
    MonitorError(String, String),
    /// "Reconnect monitoring", on a session whose monitoring is parked.
    ResumeMonitoring(String),
    /// (session, result) of that reconnect.
    ResumeMonitoringDone(String, Result<(), String>),
    /// A file listing found the session's exec connection parked: the panels
    /// show the reconnect instead of an error dialog.
    ExecParked(String),
    ShowNetworkDetail(String),
    HideNetworkDetail,
    AlertEnabledToggled(bool),
    InspectProcess(u32),
    ProcessDetailReceived(ProcessDetailInfo),
    HideProcessDetail,
    /// Signal the process in the open detail popup — after a confirmation.
    KillProcessRequest(i32),
    /// The fresh read that the kill confirmation shows came back: (session,
    /// pid, signal, the process now, or None when there is none).
    KillIdentityRead(String, u32, i32, Result<Option<ProcIdentity>, String>),
    KillProcessDone(Result<(), String>),
    FetchPorts,
    PortsReceived(String, Result<Vec<PortInfo>, String>),
    PortsSortBy(PortSort),

    // File browser
    /// (session, directory, entries)
    FilesReceived(String, String, Vec<FileEntry>),
    ChangeDir(String, String),
    /// Listing a directory failed: (session, the directory asked for, error).
    ListingFailed(String, String, String),
    /// A row of the listing on screen: (session, the listing's directory,
    /// the row).
    FileClicked(String, String, FileEntry),
    PathInputChanged(String),
    PathInputSubmit,
    HideContextMenu,
    LocalPathChanged(String),
    LocalPathSubmit,
    /// A row of the local list: (full path, is it a folder).
    LocalFileClicked(String, bool),
    /// The entries of the local directory on screen.
    LocalDirRead(Vec<LocalFileEntry>),
    RefreshLocalFiles,
    RefreshRemoteFiles,

    // Editor
    OpenEditor(String, String),
    /// (session, path, content)
    EditorContentLoaded(String, String, String),
    /// Something was done in the editor; true for an edit.
    EditorAction(bool),
    SaveEditor,
    EditorSaved,
    CloseEditor,

    // Remote file operations
    /// Right-click in the remote file browser: (session, directory, row).
    RemoteMenuOpen(String, String, Option<FileEntry>),
    RemoteMenuClose,
    SftpNewFolder,
    SftpRename,
    SftpChmod,
    SftpDelete,
    SftpInputChanged(String),
    SftpInputSubmit,
    SftpInputCancel,
    /// A mutating SFTP call finished: (session, directory, result).
    SftpOpDone(String, String, Result<(), String>),
    ConfirmActionExecute,
    ConfirmActionCancel,

    // Transfers
    UploadFile,
    /// Pick a local folder and upload it into the browser's directory.
    UploadDir,
    UploadLocalFile,
    /// The selected local file, as it is on the disk now: (session, remote
    /// directory, file).
    LocalFileReady(String, String, LocalFile),
    /// (session, remote directory, picked file or folder or None if
    /// cancelled)
    UploadPicked(String, String, Option<LocalFile>),
    /// An upload job ended: (session, its number, result).
    UploadFinished(String, u64, Result<(), String>),
    /// A file or folder was dropped on the window.
    FileDropped(LocalFile),
    DownloadFile(String, String),
    /// (session, remote path, where to save it or None if cancelled)
    DownloadPicked(String, String, Option<String>),
    /// A single-file download ended. The number it was started with rides
    /// along: only that bar may be taken down.
    DownloadDone(u64, Result<(), String>),
    /// Download a remote folder: (session, remote path).
    DownloadDir(String, String),
    /// (session, remote path, local parent with the separator behind it or
    /// None if cancelled)
    DownloadDirPicked(String, String, Option<String>),
    DownloadDirDone(u64, Result<(), String>),
    /// Transfers started in the output of these sessions, each with the output
    /// it started in.
    TransfersSpotted(Vec<(String, String)>),
    /// The remote side wants to receive a file.
    RzDetected(String),
    /// The remote side wants to send a file.
    SzDetected(String),
    /// (session, remote directory, picked file or None if cancelled)
    RzPicked(String, String, Option<LocalFile>),
    /// (session, the upload's number, result)
    RzUploadDone(String, u64, Result<(), String>),
    CancelTransfer,

    // Proxies
    ShowProxyManager,
    HideProxyManager,
    ProxiesLoaded(Vec<ProxyConfig>),
    ShowProxyForm(Option<String>),
    HideProxyForm,
    ProxyFormNameChanged(String),
    ProxyFormTypeChanged(String),
    ProxyFormHostChanged(String),
    ProxyFormPortChanged(String),
    ProxyFormUsernameChanged(String),
    ProxyFormPasswordChanged(String),
    ProxyFormAuthTypeChanged(String),
    ProxyFormPrivateKeyChanged(String),
    ProxyFormPassphraseChanged(String),
    ProxyFormBrowsePrivateKey,
    SaveProxy,
    /// The save came back, with the proxies as they are stored now.
    ProxySaved(Result<Vec<ProxyConfig>, String>),
    DeleteProxy(String),
    ProxyDeleted(Result<Vec<ProxyConfig>, String>),
    TestProxy(String),
    ProxyTestDone(String, ProxyTestResult),

    // Tunnels
    ShowTunnelManager,
    HideTunnelManager,
    TunnelsLoaded(Vec<TunnelConfig>),
    ShowTunnelForm(Option<String>),
    HideTunnelForm,
    TunnelFormNameChanged(String),
    TunnelFormHostChanged(String),
    TunnelFormPortChanged(String),
    TunnelFormUserChanged(String),
    TunnelFormAuthTypeChanged(String),
    TunnelFormPasswordChanged(String),
    TunnelFormKeyChanged(String),
    TunnelFormPassphraseChanged(String),
    TunnelFormForwardsChanged(String),
    TunnelFormBrowseKey,
    SaveTunnel,
    /// The rules in the form's forwards field, as the tunnel side reads them.
    ForwardsParsed(Result<Vec<String>, String>),
    TunnelSaved(Result<Vec<TunnelConfig>, String>),
    DeleteTunnel(String),
    TunnelDeleted(Result<Vec<TunnelConfig>, String>),
    StartTunnel(String),
    TunnelStarted(Result<(), String>),
    StopTunnel(String),
    TunnelStateTick,

    // Broadcast
    ShowBroadcastDialog,
    HideBroadcastDialog,
    BroadcastTextChanged(String),
    BroadcastToggleSession(String),
    BroadcastSendNow,
    ToggleSyncInput,

    // Snippets
    ShowSnippetsPanel,
    HideSnippetsPanel,
    SnippetsLoaded(Vec<Snippet>),
    SnippetSend(String),
    SnippetEdit(Option<String>),
    SnippetFormNameChanged(String),
    SnippetFormBodyChanged(String),
    SnippetSave,
    SnippetDelete(String),

    // SSH key manager
    ShowKeyManager,
    HideKeyManager,
    KeysListed(Vec<LocalKey>),
    KeyFormNameChanged(String),
    KeyFormCommentChanged(String),
    KeyGenerate,
    KeyGenerated(Result<Vec<LocalKey>, String>),
    /// Put the public half of the key on the clipboard, by its path.
    KeyCopyPubkey(String),
    /// Show the connection picker for the key, by its path.
    KeyDeployStart(String),
    /// (key path, connection id)
    KeyDeployTo(String, String),
    KeyDeployDone(Result<String, String>),
    KeyDeployCancel,

    // Command palette
    TogglePalette,
    PaletteQueryChanged(String),
    PaletteNavUp,
    PaletteNavDown,
    PaletteExecute,
    PaletteExecuteIndex(usize),

    // Sidebar groups, by the connections' stored group ("" is the ungrouped
    // bucket)
    ToggleGroupCollapsed(String),
    /// Collapse (true) or expand (false) every group at once.
    SetAllGroupsCollapsed(bool),
    /// What is on disk of the folded groups: the sealed file, whether there is
    /// a cleartext one, and what it holds.
    GroupsRead(SealedGroups, bool, Option<Vec<u8>>),
    /// Save the folded sidebar groups, if no change came after the one that
    /// scheduled this.
    SaveCollapsedGroups(u64),
    /// A sealed write of the folded groups finished.
    GroupsWritten(Result<(), String>),

    // Terminal search
    ToggleTerminalSearch,
    TerminalSearchChanged(String),
    /// Where the query stands in the focused terminal.
    TerminalSearchFound(Vec<SearchMatch>),
    TerminalSearchNext,
    TerminalSearchPrev,
    TerminalSearchClose,
    ToggleTerminalSearchCase,

    // Scrollback, mouse & selection
    TerminalScrollUp(usize),
    TerminalScrollDown(usize),
    /// A press no widget claimed.
    TerminalMouseDown(MouseButton),
    TerminalMouseUp(MouseButton),
    TerminalMouseMove,
    CopySelection,

    // Command history
    ShowHistory,
    HideHistory,
    HistoryFilterChanged(String),
    ReplayCommand(String),
    ClearHistory,
    /// Write pending command history to disk, if a paced write is due.
    FlushHistory,
    /// A sealed history write finished.
    HistoryWritten(Result<(), String>),
    /// The unlock-time load came back: (its number, what it found).
    HistoryLoaded(u64, HistoryLoad),
    QuickCmdInputChanged(String),
    SendQuickCmd,
    /// Fill the quick-command input with a suggestion.
    QuickCmdAccept(String),

    // Sign-in
    AuthAnswerChanged(usize, String),
    AuthFocus(usize),
    AuthSubmit,
    /// Enter in the last answer field: a submit, unless the key arrived too
    /// soon after the modal did to have been meant for it.
    AuthEnter,
    AuthCancel,

    // Panels
    ToggleBottomPanel,
    SwitchBottomTab(BottomTab),
    ToggleSidebar,
    ShowSettings,
    HideSettings,
    ShowAbout,
    HideAbout,
    ToggleShortcutsHelp,
    ShowLogViewer,
    HideLogViewer,
    RefreshLogViewer,
    /// What the log file holds, or why it cannot be read: (path, content).
    LogRead(String, Result<String, String>),
    OpenLogFolder,
    DismissErrorDialog,
    /// Put the full text of the error dialog on the clipboard.
    CopyErrorText,
    /// The text of the error dialog is on the clipboard.
    ErrorTextCopied,
    ToggleLanguage,
    ThemeSelectZone(u32),
    ThemeCloseZone,
    /// A change to the theme that closes the zone being edited.
    ThemeReplaced,
    /// The font of the terminal has another size: its grid is laid out anew.
    SetFontSize,

    // Updates and the window
    CheckForUpdate,
    DownloadUpdate,
    RestartForUpdate,
    DismissUpdate,
    /// The close button minimizes instead of exiting.
    WindowCloseRequested,
    QuitApp,

    // Misc
    Nothing,
    Error(String),
}

// ---- what is asked for --------------------------------------------------------------------------------

/// What the state asks of the world around it. The effects of one message are
/// carried out in the order they are listed.
pub enum Effect {
    /// Handle this message next.
    Then(Message),

    // Focus
    /// Focus the input with the id, then ask the widget tree under the number.
    Focus(String, u64),
    /// Ask the widget tree which input has the focus.
    QueryFocus(u64),
    /// Take the focus off the sign-in modal's answer fields, then ask.
    ReleaseAnswers(u64),
    MoveCursorToEnd(String),
    SelectAll(String),
    /// Ask whether the quick-command input has the focus: if so accept the
    /// suggestion, else send the text to each session.
    AcceptOrType(Option<String>, Vec<(String, String)>),

    // Vault
    /// Set the master password; ends in `VaultCreated` or `Error`.
    CreateVault(String),
    /// Open the vault; ends in `VaultUnlocked` or `Error`.
    UnlockVault(String),
    /// Move cleartext credentials into the vault; ends in `StoresLoaded`.
    MigrateSecrets,
    /// Wipe the key.
    LockVault,
    SaveLockTimeout(u32),

    // Connections
    /// Ends in `ConnectionsLoaded` or `Error`.
    LoadConnections,
    SaveConnection(ConnectionConfig),
    UpdateConnection(ConnectionConfig),
    /// Delete, then load what is left.
    DeleteConnection(String),
    /// Read the SSH config; ends in `SshConfigRead`.
    ReadSshConfig,
    /// Save each of them, then load; ends in `ConnectionsLoaded` or `Error`.
    SaveAll(Vec<ConnectionConfig>),
    /// Test what the form describes; ends in `TestFormConnectionDone`.
    TestForm(ConnectionConfig),
    /// Test a saved connection; ends in `TestConnectionInListDone`.
    TestSaved(String, ConnectionConfig),
    PickKeyFile,
    PickProxyKey,
    PickTunnelKey,

    // Sessions
    /// Connect the tab: (tab id, connection id, session id). Ends in
    /// `SshConnected` or `ConnectFailed`.
    Connect(String, String, String),
    /// Connect a split: (tab id, connection id, session id, vertical). Ends in
    /// `SplitConnected` or `SplitFailed`.
    ConnectSplit(String, String, String, bool),
    Disconnect(String),
    /// Wake the drain of the SSH events.
    WakeDrain,
    /// Tell the remote side a session's new size.
    Resize(String, usize, usize),
    /// Type the text into a session; a failure ends in `Error`.
    Send(String, String),
    /// Type the text into a session, whatever comes of it.
    TypeQuietly(String, String),
    /// Send bytes to a session, whatever comes of it.
    SendQuietly(String, Vec<u8>),
    /// Send the clipboard to the sessions, bracketed where flagged; a failure
    /// ends in `Error`.
    Paste(Vec<(String, bool)>),
    /// Write output to the terminal that shows the session, and scroll it to
    /// the bottom.
    Feed(String, Vec<u8>),
    /// Write a notice of the app to the terminal of the tab.
    Notice(String, String),
    /// Scroll the focused terminal back or forth by lines.
    ScrollView(bool, usize),
    /// Drop what is kept outside about a session.
    ForgetSession(String),

    // Mouse
    /// Report motion to a session: (session, button held, column, row).
    ReportMotion(String, Option<MouseButton>, usize, usize),
    /// Report a release to a session.
    ReportRelease(String, MouseButton, usize, usize),
    /// Start dragging the bottom panel's edge, or the split's divider.
    BeginSplitterDrag,
    BeginDividerDrag,
    /// Follow the pointer with what is being dragged.
    DragSplitter,
    DragDivider,
    Copy(String),
    /// Put the text of the error dialog on the clipboard; ends in
    /// `ErrorTextCopied` if that works.
    CopyError(String),

    // Search
    /// Search the focused terminal: (query, ignoring case). Ends in
    /// `TerminalSearchFound`.
    Search(String, bool),

    // Sign-in
    /// Hand the answers to the thread that waits for them.
    Answer(u64, Vec<String>),
    /// The user declined to answer.
    Cancel(u64),
    /// Nobody will answer any more.
    Retire(u64),

    // Monitor
    /// Fetch a session's figures; ends in `MonitorDataReceived` or
    /// `MonitorError`.
    FetchMonitor(String),
    FetchPorts(String),
    /// Re-open a session's exec connection; ends in `ResumeMonitoringDone`.
    ResumeExec(String),
    /// Run the command in the session and read the process out of it: (session,
    /// pid, command). Ends in `ProcessDetailReceived` or `Error`.
    Inspect(String, u32, String),
    /// Read which process has the pid: (session, pid, signal). Ends in
    /// `KillIdentityRead`.
    ReadIdentity(String, u32, i32),
    /// Signal the process if it is still the one confirmed: (session, pid,
    /// signal, identity). Ends in `KillProcessDone`.
    Kill(String, u32, i32, ProcIdentity),

    // Files
    /// List a directory: (session, path). Ends in `FilesReceived` or
    /// `ListingFailed`.
    List(String, String),
    /// Read the local directory; ends in `LocalDirRead`.
    ReadLocalDir(String),
    ReadFile(String, String),
    LoadEditor(String),
    ClearEditor,
    /// Write the editor's text to the file: (session, path). Ends in
    /// `EditorSaved` or `Error`.
    WriteFile(String, String),
    /// The SFTP calls: (session, directory to list again, ..). Each ends in
    /// `SftpOpDone`.
    MakeDir(String, String, String),
    Rename(String, String, String, String, FileEntry),
    Remove(String, String, String, FileEntry),
    Chmod(String, String, String, u32, FileEntry),

    // Transfers
    /// Open a picker: (session, remote directory). Ends in `UploadPicked`.
    PickUpload(String, String),
    PickUploadDir(String, String),
    /// Look at the file on the disk: (session, remote directory, path). Ends
    /// in `LocalFileReady`.
    StatLocal(String, String, String),
    /// Ends in `RzPicked`.
    PickRz(String, String),
    /// Open a save dialog: (session, remote path, suggested name). Ends in
    /// `DownloadPicked`.
    PickDownload(String, String, String),
    PickDownloadDir(String, String),
    /// Upload a file or folder: (session, number, local path, remote path, is
    /// it a folder). Ends in `UploadFinished`.
    Upload(String, u64, String, String, bool),
    /// Ends in `RzUploadDone`.
    UploadRz(String, u64, String, String),
    /// Download a file: (session, number, remote path, local path). Ends in
    /// `DownloadDone`.
    Download(String, u64, String, String),
    DownloadTree(String, u64, String, String),
    /// Download the file named in the shell: (session, number, name, local
    /// path). A relative name is resolved against the shell's directory. Ends
    /// in `DownloadDone`.
    DownloadSz(String, u64, String, String),
    StopTransfer(u64),

    // Proxies and tunnels
    LoadProxies,
    /// Store a new proxy, or a changed one; ends in `ProxySaved`.
    AddProxy(ProxyConfig),
    UpdateProxy(ProxyConfig),
    DeleteProxy(String),
    TestProxy(String),
    /// Read the tunnels; ends in `TunnelsLoaded`.
    LoadTunnels,
    /// Read the tunnels and which of them run; ends in `TunnelsListed`.
    ListTunnels,
    /// Read the rules; ends in `ForwardsParsed`.
    ParseForwards(Vec<String>),
    StoreTunnel(TunnelConfig),
    /// Stop it, then delete it; ends in `TunnelDeleted`.
    DeleteTunnel(String),
    /// Start it; ends in `TunnelStarted`.
    StartTunnel(String),
    /// Start it; a failure is only logged.
    StartTunnelQuietly(String),
    StopTunnel(String),

    // Snippets and keys
    LoadSnippets,
    /// Store the snippets as they are now.
    SaveSnippets,
    ListKeys,
    /// Make a key pair: (name, comment). Ends in `KeyGenerated`.
    GenerateKey(String, String),
    /// Put a public key on the host of a connection: (public key, connection
    /// id). Ends in `KeyDeployDone`.
    DeployKey(String, String),

    // History and groups
    /// Seal the records and write them: (number, records, overwrite the old
    /// bytes, retire the cleartext file). Ends in `HistoryWritten`.
    WriteHistory(u64, Vec<CmdRecord>, bool, bool),
    /// Seal and write before the window goes.
    WriteHistoryNow(u64, Vec<CmdRecord>),
    /// Wait for the history writes already sent off.
    SettleHistory,
    /// Load the history; ends in `HistoryLoaded` under the number.
    LoadHistory(u64),
    /// Read the folded groups; ends in `GroupsRead`.
    ReadGroups,
    /// Come back with `SaveCollapsedGroups` after the delay.
    ScheduleGroupsSave(u64),
    /// Seal the list and write it: (number, list, retire the cleartext file).
    /// Ends in `GroupsWritten`.
    WriteGroups(u64, Vec<u8>, bool),
    WriteGroupsNow(u64, Vec<u8>),

    // Panels and the rest
    /// Read the log file; ends in `LogRead`.
    ReadLog,
    OpenLogFolder,
    SaveAlerts,
    SaveLocale(String),
    CheckForUpdate,
    DownloadUpdate,
    RestartForUpdate,
    DismissUpdate,
    Minimize,
    /// Close every session and tunnel, then the window.
    Quit,
}

// ---- the world at the time of a message ------------------------------------------------------------------

/// Where the pointer is, as far as the panes are concerned.
#[derive(Debug)]
pub struct Pointer {
    /// The cell of the focused pane under the pointer, 1-based.
    pub cell: Option<(usize, usize)>,
    /// The nearest cell of the focused pane, 1-based.
    pub nearest: Option<(usize, usize)>,
    /// The place under the pointer, 0-based, counted from the pane's origin.
    pub place: Option<(usize, usize)>,
    /// On the edge of the bottom panel.
    pub on_splitter: bool,
    /// In the second pane of the active tab's split.
    pub in_second_pane: bool,
    /// What the focused pane's terminal makes of the press or the wheel notch
    /// at `cell`, if it reports it at all.
    pub encoded: Option<Vec<u8>>,
}

/// What the world says at the time of a message.
#[derive(Debug)]
pub struct Env {
    /// A clock that never goes back, in nanoseconds.
    pub now: u128,
    /// Seconds since the epoch, if the system's clock knows.
    pub unix: Option<u64>,
    pub texts: Catalog,
    /// The platform's command key is the logo key.
    pub mac: bool,
    /// An id that was never used.
    pub new_id: String,
    /// An id for a new session.
    pub new_session: String,
    /// The vault has its key: what is to be sealed can be.
    pub unlocked: bool,
    /// The saved connection that the message is about, or that the open form
    /// edits, with its secrets; none where the vault has none to give.
    pub stored: Option<ConnectionConfig>,
    /// Where downloads go, with the separator behind it.
    pub download_dir: String,
    pub pointer: Pointer,
}

impl Env {
    /// What the world says, with a fresh random id.
    pub fn new(
        now: u128,
        unix: Option<u64>,
        texts: Catalog,
        mac: bool,
        new_session: String,
        unlocked: bool,
        stored: Option<ConnectionConfig>,
        download_dir: String,
        pointer: Pointer,
    ) -> (env: Env)
        ensures
            env == (Env {
                now,
                unix,
                texts,
                mac,
                new_id: env.new_id,
                new_session,
                unlocked,
                stored,
                download_dir,
                pointer,
            }),
            secrets::random_uuid(env.new_id@),
    {
        Env {
            now,
            unix,
            texts,
            mac,
            new_id: secrets::random_id(),
            new_session,
            unlocked,
            stored,
            download_dir,
            pointer,
        }
    }
}

// ---- what always holds ------------------------------------------------------------------------------------

/// A grid that a pane can show.
pub open spec fn pane_wf(g: TerminalGrid) -> bool {
    g.wf()
}

pub open spec fn tab_wf(t: TerminalTab) -> bool {
    &&& pane_wf(t.terminal)
    &&& match t.split {
        Some(sp) => pane_wf(sp.terminal),
        None => true,
    }
}

/// Every pane shows a grid.
pub open spec fn tabs_wf(tabs: Seq<TerminalTab>) -> bool {
    forall|i: int| 0 <= i < tabs.len() ==> tab_wf(#[trigger] tabs[i])
}

/// The active tab is one of the tabs.
pub open spec fn active_wf(s: Sessions) -> bool {
    match s.active_tab {
        Some(i) => i < s.tabs@.len(),
        None => true,
    }
}

/// The current hit is one of the hits.
pub open spec fn search_wf(s: TermSearch) -> bool {
    s.matches@.len() > 0 ==> s.current < s.matches@.len()
}

/// The number of the next transfer is not on the bar.
pub open spec fn transfers_wf(t: Transfers) -> bool {
    t.bar matches Some(p) ==> p.id < t.next_id
}

impl NeoShell {
    pub open spec fn wf(&self) -> bool {
        &&& tabs_wf(self.sessions.tabs@)
        &&& active_wf(self.sessions)
        &&& search_wf(self.search)
        &&& self.palette.selected <= palette::PALETTE_MAX
        &&& transfers_wf(self.transfers)
    }

    /// None of the counters is about to run over.
    pub open spec fn has_room(&self) -> bool {
        &&& self.focus.issued + 8 <= u64::MAX
        &&& self.transfers.next_id < u64::MAX
        &&& self.groups.generation < u64::MAX
        &&& self.groups.ledger.next_seq < u64::MAX
        &&& self.groups.ledger.pending < u64::MAX
        &&& self.history.sync.load_seq < u64::MAX
        &&& self.history.ledger.next_seq < u64::MAX
        &&& self.history.ledger.pending < u64::MAX
        &&& self.sessions.tabs@.len() < usize::MAX
    }
}

} // verus!
