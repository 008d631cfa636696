//! The state that the app starts with.

use vstd::prelude::*;

use crate::focus::FocusTracker;
use crate::forms::ConnectionFormData;
use crate::forms::ProxyConfig;
use crate::forms::ProxyFormData;
use crate::forms::TunnelConfig;
use crate::forms::TunnelFormData;
use crate::history::HistorySync;
use crate::history::WriteLedger;
use crate::keys::Modifiers;
use crate::monitors::InFlight;
use crate::monitors::ParkedMonitor;
use crate::monitors::ParkedMonitors;
use crate::names::NameMap;
use crate::names::NameSet;
use crate::ports::PortSort;
use crate::screens::Screen;
use crate::settings::Snippet;
use crate::state::Auth;
use crate::state::BottomTab;
use crate::state::Broadcast;
use crate::state::Browser;
use crate::state::ConnForm;
use crate::state::Editor;
use crate::state::ErrorBox;
use crate::state::Groups;
use crate::state::HistoryPanel;
use crate::state::KeyManager;
use crate::state::Monitoring;
use crate::state::Mouse;
use crate::state::NeoShell;
use crate::state::Palette;
use crate::state::Panels;
use crate::state::ProxyPanel;
use crate::state::Sessions;
use crate::state::Snippets;
use crate::state::TabRename;
use crate::state::TermSearch;
use crate::state::Transfers;
use crate::state::TunnelPanel;
use crate::state::Typing;
use crate::state::Vault;

verus! {

/// What is read at the start, before the vault is open.
#[derive(Debug)]
pub struct Startup {
    /// There is a vault to unlock.
    pub vault_exists: bool,
    pub locale: String,
    /// Where the local file list starts.
    pub local_path: String,
    pub proxies: Vec<ProxyConfig>,
    pub tunnels: Vec<TunnelConfig>,
    pub snippets: Vec<Snippet>,
    pub alerts_enabled: bool,
    pub lock_timeout_mins: u32,
    pub now: u128,
}

impl NeoShell {
    /// The vault's password is asked for, or made up, and nothing is open.
    pub open spec fn starts_locked(&self, start: Startup) -> bool {
        &&& self.vault.screen == (if start.vault_exists {
            Screen::Locked
        } else {
            Screen::Setup
        })
        &&& self.vault.password_input@.len() == 0
        &&& self.vault.confirm_input@.len() == 0
        &&& self.vault.lock_timeout_mins == start.lock_timeout_mins
        &&& self.vault.last_activity == start.now
        &&& self.error.message@.len() == 0
        &&& !self.error.show
        &&& self.error.copied is None
        &&& self.error.title is None
    }

    /// No connection is known, and no session is up.
    pub open spec fn starts_unconnected(&self) -> bool {
        let s = self.sessions;
        &&& s.connections@.len() == 0
        &&& s.search_query@.len() == 0
        &&& s.hovered is None
        &&& s.ssh_hosts@.len() == 0
        &&& !s.show_connect_dialog
        &&& s.confirm_delete is None
        &&& s.test_results@ =~= Map::empty()
        &&& s.tabs@.len() == 0
        &&& s.active_tab is None
        &&& s.connecting@ =~= Set::empty()
        &&& s.inbox@.len() == 0
        &&& s.held is None
        &&& s.last_term_size == (0usize, 0usize)
    }

    /// No form is open.
    pub open spec fn starts_without_forms(&self, start: Startup) -> bool {
        &&& !self.form.show
        &&& self.form.form.is_blank()
        &&& self.form.opened.is_blank()
        &&& self.form.edit_id is None
        &&& self.form.test_result is None
        &&& !self.form.testing
        &&& self.proxy.proxies == start.proxies
        &&& !self.proxy.show_manager
        &&& !self.proxy.show_form
        &&& self.proxy.form.is_blank()
        &&& self.proxy.edit_id is None
        &&& self.proxy.results@ =~= Map::empty()
        &&& self.tunnel.tunnels == start.tunnels
        &&& !self.tunnel.show_manager
        &&& !self.tunnel.show_form
        &&& self.tunnel.form.is_blank()
        &&& self.tunnel.edit_id is None
    }

    /// Nothing is listed, edited or on its way.
    pub open spec fn starts_without_files(&self, start: Startup) -> bool {
        let b = self.browser;
        &&& b.listings@ =~= Map::empty()
        &&& b.current_dir@ =~= Map::empty()
        &&& b.prompt_cwd@ =~= Map::empty()
        &&& b.path_input@.len() == 0
        &&& b.menu is None
        &&& b.context_menu is None
        &&& b.input is None
        &&& b.confirm is None
        &&& b.local_path == start.local_path
        &&& b.local_entries@.len() == 0
        &&& b.selected_local is None
        &&& self.editor.path is None
        &&& self.editor.session_id is None
        &&& !self.editor.dirty
        &&& self.transfers.bar is None
        &&& !self.transfers.running
        &&& self.transfers.drops@.len() == 0
        &&& self.transfers.next_id == 0
    }

    /// Nothing was typed, and no button is down.
    pub open spec fn starts_untouched(&self) -> bool {
        let t = self.typing;
        &&& t.cmd_buffer@ =~= Map::empty()
        &&& t.sz_filename@ =~= Map::empty()
        &&& t.zmodem@ =~= Map::empty()
        &&& !t.modifiers.shift && !t.modifiers.control && !t.modifiers.alt && !t.modifiers.logo
        &&& t.last_keypress is None
        &&& t.quick_cmd@.len() == 0
        &&& !t.quick_cmd_focused
        &&& self.mouse == (Mouse {
            selection_start: None,
            selection_end: None,
            selecting: false,
            report: None,
            motion_cell: None,
            dragging_splitter: false,
            dragging_divider: false,
        })
    }

    /// The panels are as a new user finds them.
    pub open spec fn starts_plain(&self, start: Startup) -> bool {
        let p = self.panels;
        &&& !p.sidebar_collapsed
        &&& !p.show_settings
        &&& !p.show_about
        &&& !p.show_shortcuts
        &&& p.bottom_tab is Monitor
        &&& !p.bottom_collapsed
        &&& !p.show_log
        &&& p.log_content@.len() == 0
        &&& p.interface is None
        &&& p.process is None
        &&& p.theme_zone is None
        &&& p.locale == start.locale
        &&& !self.broadcast.show
        &&& self.broadcast.text@.len() == 0
        &&& self.broadcast.selected@ =~= Set::empty()
        &&& !self.broadcast.sync_on
        &&& !self.snippets.show
        &&& self.snippets.list == start.snippets
        &&& self.snippets.edit_id is None
        &&& self.snippets.name@.len() == 0
        &&& self.snippets.body@.len() == 0
        &&& !self.search.active
        &&& self.search.query@.len() == 0
        &&& self.search.case_insensitive
        &&& self.search.matches@.len() == 0
        &&& self.search.current == 0
        &&& !self.palette.show
        &&& self.palette.query@.len() == 0
        &&& self.palette.selected == 0
        &&& self.rename.tab is None
        &&& self.rename.input@.len() == 0
        &&& self.rename.last_click is None
    }

    /// What is sealed under the vault's key is not read yet.
    pub open spec fn starts_sealed(&self) -> bool {
        &&& self.history.records@.len() == 0
        &&& !self.history.show
        &&& self.history.filter@.len() == 0
        &&& self.history.sync == HistorySync::fresh()
        &&& self.history.ledger == (WriteLedger { next_seq: 0, written: 0, pending: 0 })
        &&& self.groups.collapsed@ =~= Set::empty()
        &&& !self.groups.dirty
        &&& self.groups.generation == 0
        &&& self.groups.ledger == (WriteLedger { next_seq: 0, written: 0, pending: 0 })
    }

    /// Nobody signs in, and nothing is watched.
    pub open spec fn starts_quiet(&self, start: Startup) -> bool {
        let m = self.monitor;
        &&& !self.keys.show
        &&& self.keys.keys@.len() == 0
        &&& self.keys.name@.len() == 0
        &&& self.keys.comment@.len() == 0
        &&& self.keys.deploying is None
        &&& self.keys.status is None
        &&& self.auth.inbox@.len() == 0
        &&& self.auth.queue@.len() == 0
        &&& self.auth.answers@.len() == 0
        &&& !self.auth.focus_owed
        &&& self.auth.shown_at is None
        &&& m.inflight@ =~= Set::empty()
        &&& m.parked@ =~= Map::<Seq<char>, ParkedMonitor>::empty()
        &&& m.alerts_enabled == start.alerts_enabled
        &&& m.alerts@ =~= Map::empty()
        &&& m.ports_session@.len() == 0
        &&& m.ports@.len() == 0
        &&& m.ports_inflight@ =~= Set::empty()
        &&& m.ports_error is None
        &&& m.ports_fetched_at is None
        &&& m.ports_sort is Port
        &&& !m.ports_sort_desc
        &&& self.focus.field is Nothing
        &&& self.focus.id is None
        &&& self.focus.issued == 0
        &&& self.focus.settled == 0
    }

    /// The state that the app starts with. What is sealed under the vault's key
    /// is read after the unlock, and no tunnel is started before it: that would
    /// open forwarded ports without a master password.
    pub fn new(start: Startup) -> (s: NeoShell)
        ensures
            s.starts_locked(start),
            s.starts_unconnected(),
            s.starts_without_forms(start),
            s.starts_without_files(start),
            s.starts_untouched(),
            s.starts_plain(start),
            s.starts_sealed(),
            s.starts_quiet(start),
            s.wf(),
            s.has_room(),
    {
        NeoShell {
            vault: Vault {
                screen: if start.vault_exists {
                    Screen::Locked
                } else {
                    Screen::Setup
                },
                password_input: String::new(),
                confirm_input: String::new(),
                lock_timeout_mins: start.lock_timeout_mins,
                last_activity: start.now,
            },
            error: ErrorBox { message: String::new(), show: false, copied: None, title: None },
            sessions: no_sessions(),
            form: ConnForm {
                show: false,
                form: ConnectionFormData::blank(),
                opened: ConnectionFormData::blank(),
                edit_id: None,
                test_result: None,
                testing: false,
            },
            proxy: ProxyPanel {
                proxies: start.proxies,
                show_manager: false,
                show_form: false,
                form: ProxyFormData::blank(),
                edit_id: None,
                results: NameMap::new(),
            },
            tunnel: TunnelPanel {
                tunnels: start.tunnels,
                show_manager: false,
                show_form: false,
                form: TunnelFormData::blank(),
                edit_id: None,
            },
            browser: Browser {
                listings: NameMap::new(),
                current_dir: NameMap::new(),
                prompt_cwd: NameMap::new(),
                path_input: String::new(),
                menu: None,
                context_menu: None,
                input: None,
                confirm: None,
                local_path: start.local_path,
                local_entries: Vec::new(),
                selected_local: None,
            },
            editor: Editor { path: None, session_id: None, dirty: false },
            transfers: Transfers { bar: None, running: false, drops: Vec::new(), next_id: 0 },
            typing: Typing {
                cmd_buffer: NameMap::new(),
                sz_filename: NameMap::new(),
                zmodem: NameMap::new(),
                modifiers: Modifiers { shift: false, control: false, alt: false, logo: false },
                last_keypress: None,
                quick_cmd: String::new(),
                quick_cmd_focused: false,
            },
            mouse: Mouse {
                selection_start: None,
                selection_end: None,
                selecting: false,
                report: None,
                motion_cell: None,
                dragging_splitter: false,
                dragging_divider: false,
            },
            panels: Panels {
                sidebar_collapsed: false,
                show_settings: false,
                show_about: false,
                show_shortcuts: false,
                bottom_tab: BottomTab::Monitor,
                bottom_collapsed: false,
                show_log: false,
                log_content: String::new(),
                interface: None,
                process: None,
                theme_zone: None,
                locale: start.locale,
            },
            history: HistoryPanel {
                records: Vec::new(),
                show: false,
                filter: String::new(),
                sync: HistorySync::new(),
                ledger: WriteLedger::new(),
            },
            broadcast: Broadcast {
                show: false,
                text: String::new(),
                selected: NameSet::new(),
                sync_on: false,
            },
            snippets: Snippets {
                show: false,
                list: start.snippets,
                edit_id: None,
                name: String::new(),
                body: String::new(),
            },
            search: TermSearch {
                active: false,
                query: String::new(),
                case_insensitive: true,
                matches: Vec::new(),
                current: 0,
            },
            palette: Palette { show: false, query: String::new(), selected: 0 },
            rename: TabRename { tab: None, input: String::new(), last_click: None },
            groups: Groups {
                collapsed: NameSet::new(),
                dirty: false,
                generation: 0,
                ledger: WriteLedger::new(),
            },
            keys: KeyManager {
                show: false,
                keys: Vec::new(),
                name: String::new(),
                comment: String::new(),
                deploying: None,
                status: None,
            },
            auth: Auth {
                inbox: Vec::new(),
                queue: Vec::new(),
                answers: Vec::new(),
                focus_owed: false,
                shown_at: None,
            },
            monitor: Monitoring {
                inflight: InFlight::new(),
                parked: ParkedMonitors::new(),
                alerts_enabled: start.alerts_enabled,
                alerts: NameMap::new(),
                ports_session: String::new(),
                ports: Vec::new(),
                ports_inflight: InFlight::new(),
                ports_error: None,
                ports_fetched_at: None,
                ports_sort: PortSort::Port,
                ports_sort_desc: false,
            },
            focus: FocusTracker::new(),
        }
    }

    /// Whether none of the counters is about to run over.
    pub fn room_left(&self) -> (r: bool)
        ensures
            r == self.has_room(),
    {
        self.focus.issued <= u64::MAX - 8 && self.transfers.next_id < u64::MAX && self.groups.generation < u64::MAX
            && self.groups.ledger.next_seq < u64::MAX && self.groups.ledger.pending < u64::MAX
            && self.history.sync.load_seq < u64::MAX && self.history.ledger.next_seq < u64::MAX
            && self.history.ledger.pending < u64::MAX && self.sessions.tabs.len() < usize::MAX
    }
}

fn no_sessions() -> (s: Sessions)
    ensures
        s.connections@.len() == 0,
        s.search_query@.len() == 0,
        s.hovered is None,
        s.ssh_hosts@.len() == 0,
        !s.show_connect_dialog,
        s.confirm_delete is None,
        s.test_results@ =~= Map::empty(),
        s.tabs@.len() == 0,
        s.active_tab is None,
        s.connecting@ =~= Set::empty(),
        s.inbox@.len() == 0,
        s.held is None,
        s.last_term_size == (0usize, 0usize),
{
    Sessions {
        connections: Vec::new(),
        search_query: String::new(),
        hovered: None,
        ssh_hosts: Vec::new(),
        show_connect_dialog: false,
        confirm_delete: None,
        test_results: NameMap::new(),
        tabs: Vec::new(),
        active_tab: None,
        connecting: NameSet::new(),
        inbox: Vec::new(),
        held: None,
        last_term_size: (0, 0),
    }
}

} // verus!
