//! The file browser, the editor, and what is done to remote files.

use vstd::prelude::*;
use vstd::string::*;

use crate::catalog;
use crate::catalog::Catalog;
use crate::common;
use crate::display;
use crate::focus;
use crate::focus::FocusTracker;
use crate::forms;
use crate::local_files;
use crate::local_files::FoldersFirst;
use crate::local_files::LocalFileEntry;
use crate::monitors;
use crate::number;
use crate::order;
use crate::overlays;
use crate::remote_files;
use crate::remote_files::EntryKind;
use crate::remote_files::FileEntry;
use crate::remote_files::Listing;
use crate::state::Browser;
use crate::state::ConfirmAction;
use crate::state::Editor;
use crate::state::Effect;
use crate::state::Env;
use crate::state::Message;
use crate::state::NeoShell;
use crate::state::RemoteFileMenu;
use crate::state::SftpInputDialog;
use crate::state::SftpInputKind;
use crate::text;

verus! {

pub open spec fn browser_only(before: NeoShell, after: NeoShell) -> bool {
    after == (NeoShell { browser: after.browser, ..before })
}

// ---- listings -------------------------------------------------------------------------------------------

pub open spec fn listing_in(before: NeoShell, sid: String, path: String, entries: Vec<FileEntry>, after: NeoShell) -> bool {
    &&& after.browser.current_dir@ == before.browser.current_dir@.insert(sid@, path)
    &&& after.browser.listings@ == before.browser.listings@.insert(
        sid@,
        Listing { dir: path, entries, failed: None },
    )
    &&& after.browser == (Browser {
        path_input: path,
        current_dir: after.browser.current_dir,
        listings: after.browser.listings,
        ..before.browser
    })
    &&& browser_only(before, after)
}

/// A listing is in: the browser shows it.
pub fn on_files_received(state: &mut NeoShell, sid: String, path: String, entries: Vec<FileEntry>)
    ensures
        listing_in(*old(state), sid, path, entries, *final(state)),
{
    state.browser.path_input = path.clone();
    state.browser.current_dir.insert(sid.clone(), path.clone());
    state.browser.listings.insert(sid, Listing::new(path, entries));
}

pub open spec fn dir_asked(before: NeoShell, sid: String, path: String, after: NeoShell, fx: Seq<Effect>) -> bool {
    &&& after.browser.current_dir@ == before.browser.current_dir@.insert(sid@, path)
    &&& after.browser == (Browser { current_dir: after.browser.current_dir, ..before.browser })
    &&& browser_only(before, after)
    &&& fx == seq![Effect::List(sid, path)]
}

/// Ask for the listing of a directory.
pub fn on_change_dir(state: &mut NeoShell, sid: String, path: String) -> (fx: Vec<Effect>)
    ensures
        dir_asked(*old(state), sid, path, *final(state), fx@),
{
    state.browser.current_dir.insert(sid.clone(), path.clone());
    common::one(Effect::List(sid, path))
}

/// What comes of asking for a listing: the directory as it was resolved with
/// its entries, or the failure with the directory that was asked for.
pub fn listing_reply(result: Result<(String, Vec<FileEntry>), String>, sid: String, path: String) -> (m: Message)
    ensures
        m == (match result {
            Ok((dir, entries)) => Message::FilesReceived(sid, dir, entries),
            Err(e) => Message::ListingFailed(sid, path, e),
        }),
{
    match result {
        Ok((dir, entries)) => Message::FilesReceived(sid, dir, entries),
        Err(e) => Message::ListingFailed(sid, path, e),
    }
}

/// What a failed listing leads to.
pub open spec fn is_listing_failure(m: Message, sid: Seq<char>, error: String, texts: Catalog) -> bool {
    if monitors::says_parked(error@, texts) {
        m matches Message::ExecParked(s) && s@ == sid
    } else {
        m == Message::Error(error)
    }
}

/// A file listing failed. A parked exec connection is not an error to put up
/// each time a folder is asked for: the monitor and file panels show why, with
/// the one button that re-opens it — for a split pane's session too.
pub fn listing_failed(session_id: &str, error: String, texts: &Catalog) -> (m: Message)
    ensures
        is_listing_failure(m, session_id@, error, *texts),
{
    if monitors::exec_parked(error.as_str(), texts) {
        Message::ExecParked(session_id.to_owned())
    } else {
        Message::Error(error)
    }
}

/// The listing on screen stays, and the browser goes back to its directory
/// unless another one was asked for since.
pub open spec fn went_back(
    before: Browser,
    sid: Seq<char>,
    requested: Seq<char>,
    after: Browser,
) -> bool {
    &&& if remote_files::still_asked(before.current_dir@, before.listings@, sid, requested) {
        let was = before.listings@[sid];
        let now = after.listings@[sid];
        &&& after.current_dir@ == before.current_dir@.insert(sid, was.dir)
        &&& after.listings@ == before.listings@.insert(sid, now)
        &&& now == (Listing { failed: now.failed, ..was })
        &&& now.failed matches Some(f) && f@ == requested
    } else {
        &&& after.current_dir@ == before.current_dir@
        &&& after.listings@ == before.listings@
    }
    &&& after == (Browser { current_dir: after.current_dir, listings: after.listings, ..before })
}

pub open spec fn listing_lost(
    before: NeoShell,
    sid: String,
    requested: String,
    error: String,
    texts: Catalog,
    after: NeoShell,
    fx: Seq<Effect>,
) -> bool {
    &&& went_back(before.browser, sid@, requested@, after.browser)
    &&& browser_only(before, after)
    &&& fx.len() == 1
    &&& fx[0] matches Effect::Then(m) && is_listing_failure(m, sid@, error, texts)
}

pub fn on_listing_failed(state: &mut NeoShell, sid: String, requested: String, error: String, texts: &Catalog) -> (fx:
    Vec<Effect>)
    ensures
        listing_lost(*old(state), sid, requested, error, *texts, *final(state), fx@),
{
    remote_files::note_listing_failed(
        &mut state.browser.current_dir,
        &mut state.browser.listings,
        sid.as_str(),
        requested.as_str(),
    );
    common::one(Effect::Then(listing_failed(sid.as_str(), error, texts)))
}

/// Where a click on a row leads: into a folder, or up.
pub open spec fn row_leads(dir: Seq<char>, entry: FileEntry) -> Option<Seq<char>> {
    if entry.name@ == ".."@ {
        Some(remote_files::leads_up(dir))
    } else if entry.is_dir {
        Some(remote_files::joined(dir, entry.name@))
    } else {
        None
    }
}

pub open spec fn row_clicked(sid: String, dir: String, entry: FileEntry, fx: Seq<Effect>) -> bool {
    match row_leads(dir@, entry) {
        Some(path) => fx.len() == 1 && common::changes_dir(fx[0], sid@, path),
        None => fx.len() == 0,
    }
}

/// A row was clicked. `dir` is the listing the row was on, which the view
/// handed over with it — not the directory asked for next.
pub fn on_file_clicked(sid: String, dir: String, entry: &FileEntry) -> (fx: Vec<Effect>)
    ensures
        row_clicked(sid, dir, *entry, fx@),
{
    if text::same_text(entry.name.as_str(), "..") {
        return common::one(
            Effect::Then(Message::ChangeDir(sid, remote_files::remote_parent(dir.as_str()))),
        );
    }
    if entry.is_dir {
        return common::one(
            Effect::Then(
                Message::ChangeDir(
                    sid,
                    remote_files::join_remote_path(dir.as_str(), entry.name.as_str()),
                ),
            ),
        );
    }
    common::nothing()
}

pub open spec fn path_submitted(s: NeoShell, fx: Seq<Effect>) -> bool {
    match common::focused_any(s.sessions) {
        Some(sid) => if s.browser.path_input@.len() > 0 {
            fx.len() == 1 && common::changes_dir(fx[0], sid, s.browser.path_input@)
        } else {
            fx.len() == 0
        },
        None => fx.len() == 0,
    }
}

pub fn on_path_input_submit(s: &NeoShell) -> (fx: Vec<Effect>)
    ensures
        path_submitted(*s, fx@),
{
    match s.sessions.focused_session() {
        Some(sid) => {
            if forms::is_empty_text(s.browser.path_input.as_str()) {
                return common::nothing();
            }
            common::one(Effect::Then(Message::ChangeDir(sid, s.browser.path_input.clone())))
        },
        None => common::nothing(),
    }
}

pub open spec fn refresh_asked(s: NeoShell, fx: Seq<Effect>) -> bool {
    match common::focused_any(s.sessions) {
        Some(sid) => fx.len() == 1 && common::changes_dir(
            fx[0],
            sid,
            common::text_or(remote_files::text_at(s.browser.current_dir@, sid), "~"@),
        ),
        None => fx.len() == 0,
    }
}

pub fn on_refresh_remote_files(s: &NeoShell) -> (fx: Vec<Effect>)
    ensures
        refresh_asked(*s, fx@),
{
    match s.sessions.focused_session() {
        Some(sid) => {
            let path = common::dir_or_home(common::current_dir_of(&s.browser, sid.as_str()));
            common::one(Effect::Then(Message::ChangeDir(sid, path)))
        },
        None => common::nothing(),
    }
}

// ---- the local list -------------------------------------------------------------------------------------

pub open spec fn local_clicked(before: NeoShell, path: String, is_dir: bool, after: NeoShell, fx: Seq<Effect>) -> bool {
    if is_dir {
        &&& after.browser == (Browser { local_path: path, selected_local: None, ..before.browser })
        &&& browser_only(before, after)
        &&& fx == seq![Effect::ReadLocalDir(path)]
    } else {
        &&& after.browser == (Browser { selected_local: Some(path), ..before.browser })
        &&& browser_only(before, after)
        &&& fx.len() == 0
    }
}

/// A row of the local list was clicked: a folder is opened, a file selected.
pub fn on_local_file_clicked(state: &mut NeoShell, path: String, is_dir: bool) -> (fx: Vec<Effect>)
    ensures
        local_clicked(*old(state), path, is_dir, *final(state), fx@),
{
    if is_dir {
        state.browser.local_path = path.clone();
        state.browser.selected_local = None;
        common::one(Effect::ReadLocalDir(path))
    } else {
        state.browser.selected_local = Some(path);
        common::nothing()
    }
}

pub open spec fn local_listed(before: NeoShell, read: Vec<LocalFileEntry>, after: NeoShell) -> bool {
    &&& order::stably_sorted(FoldersFirst {  }, read@, after.browser.local_entries@)
    &&& after.browser == (Browser { local_entries: after.browser.local_entries, ..before.browser })
    &&& browser_only(before, after)
}

pub fn on_local_dir_read(state: &mut NeoShell, read: Vec<LocalFileEntry>)
    ensures
        local_listed(*old(state), read, *final(state)),
{
    state.browser.local_entries = local_files::list_local_dir(read);
}

// ---- the editor -----------------------------------------------------------------------------------------

pub open spec fn editor_opened(
    before: NeoShell,
    sid: String,
    path: String,
    content: String,
    after: NeoShell,
    fx: Seq<Effect>,
) -> bool {
    &&& after == (NeoShell {
        editor: Editor { path: Some(path), session_id: Some(sid), dirty: false },
        ..before
    })
    &&& fx == seq![Effect::LoadEditor(content)]
}

pub open spec fn editor_saved(s: NeoShell, fx: Seq<Effect>) -> bool {
    match (s.editor.session_id, s.editor.path) {
        (Some(sid), Some(path)) => fx == seq![Effect::WriteFile(sid, path)],
        _ => fx.len() == 0,
    }
}

/// Write the open file back to where it came from.
pub fn on_save_editor(s: &NeoShell) -> (fx: Vec<Effect>)
    ensures
        editor_saved(*s, fx@),
{
    match (&s.editor.session_id, &s.editor.path) {
        (Some(sid), Some(path)) => common::one(Effect::WriteFile(sid.clone(), path.clone())),
        _ => common::nothing(),
    }
}

pub open spec fn editor_closed(before: NeoShell, after: NeoShell, fx: Seq<Effect>) -> bool {
    &&& after == (NeoShell { editor: Editor { path: None, session_id: None, dirty: false }, ..before })
    &&& fx == seq![Effect::ClearEditor]
}

// ---- the right-click menu ---------------------------------------------------------------------------------

/// ".." and "." are navigation, not entries that can be renamed or deleted.
pub open spec fn menu_row(entry: Option<FileEntry>) -> Option<FileEntry> {
    match entry {
        Some(e) => if e.name@ == ".."@ || e.name@ == "."@ {
            None
        } else {
            Some(e)
        },
        None => None,
    }
}

pub open spec fn menu_opened(
    before: NeoShell,
    sid: String,
    dir: String,
    entry: Option<FileEntry>,
    after: NeoShell,
) -> bool {
    &&& after.browser == (Browser {
        context_menu: None,
        menu: Some(RemoteFileMenu { session_id: sid, dir, entry: menu_row(entry) }),
        ..before.browser
    })
    &&& browser_only(before, after)
}

pub fn on_remote_menu_open(state: &mut NeoShell, session_id: String, dir: String, entry: Option<FileEntry>)
    ensures
        menu_opened(*old(state), session_id, dir, entry, *final(state)),
{
    let row = match entry {
        Some(e) => if text::same_text(e.name.as_str(), "..") || text::same_text(e.name.as_str(), ".") {
            None
        } else {
            Some(e)
        },
        None => None,
    };
    state.browser.context_menu = None;
    state.browser.menu = Some(RemoteFileMenu { session_id, dir, entry: row });
}

/// The focus goes to the dialog's input.
pub open spec fn dialog_focused(before: NeoShell, after: NeoShell, e: Effect) -> bool {
    &&& FocusTracker::moved_to(before.focus, focus::SFTP_INPUT_ID@, after.focus)
    &&& overlays::focuses(e, focus::SFTP_INPUT_ID@, after.focus.issued)
}

pub open spec fn selects_all(e: Effect) -> bool {
    e matches Effect::SelectAll(id) && id@ == focus::SFTP_INPUT_ID@
}

pub open spec fn is_dialog(
    d: Option<SftpInputDialog>,
    sid: String,
    dir: String,
    kind: SftpInputKind,
    value: Seq<char>,
) -> bool {
    d matches Some(x) && x.session_id == sid && x.dir == dir && x.kind == kind && x.value@ == value && x.error
        is None
}

pub open spec fn dialog_opened(
    before: NeoShell,
    after: NeoShell,
) -> bool {
    after == (NeoShell {
        browser: Browser { menu: None, input: after.browser.input, ..before.browser },
        focus: after.focus,
        ..before
    })
}

pub open spec fn folder_asked(before: NeoShell, after: NeoShell, fx: Seq<Effect>) -> bool {
    match before.browser.menu {
        Some(menu) => {
            &&& is_dialog(
                after.browser.input,
                menu.session_id,
                menu.dir,
                SftpInputKind::NewFolder,
                Seq::empty(),
            )
            &&& dialog_opened(before, after)
            &&& fx.len() == 1
            &&& dialog_focused(before, after, fx[0])
        },
        None => after == before && fx.len() == 0,
    }
}

/// Ask for the name of a new folder.
pub fn on_sftp_new_folder(state: &mut NeoShell) -> (fx: Vec<Effect>)
    requires
        old(state).focus.issued + 2 <= u64::MAX,
    ensures
        folder_asked(*old(state), *final(state), fx@),
{
    let mut menu: Option<RemoteFileMenu> = None;
    std::mem::swap(&mut menu, &mut state.browser.menu);
    match menu {
        Some(m) => {
            state.browser.input = Some(
                SftpInputDialog {
                    session_id: m.session_id,
                    dir: m.dir,
                    kind: SftpInputKind::NewFolder,
                    value: String::new(),
                    error: None,
                },
            );
            let seq = state.focus.focus(focus::SFTP_INPUT_ID);
            common::one(Effect::Focus(focus::SFTP_INPUT_ID.to_owned(), seq))
        },
        None => common::nothing(),
    }
}

/// The row that the menu was opened on.
pub open spec fn menu_entry(b: Browser) -> Option<FileEntry> {
    match b.menu {
        Some(m) => m.entry,
        None => None,
    }
}

pub open spec fn menu_left(before: NeoShell, after: NeoShell) -> bool {
    after.browser == (Browser { menu: None, ..before.browser }) && browser_only(before, after)
}

pub open spec fn rename_asked(before: NeoShell, after: NeoShell, fx: Seq<Effect>) -> bool {
    match menu_entry(before.browser) {
        Some(entry) => {
            &&& is_dialog(
                after.browser.input,
                before.browser.menu->0.session_id,
                before.browser.menu->0.dir,
                SftpInputKind::Rename(entry),
                entry.name@,
            )
            &&& dialog_opened(before, after)
            &&& fx.len() == 2
            &&& dialog_focused(before, after, fx[0])
            &&& selects_all(fx[1])
        },
        None => menu_left(before, after) && fx.len() == 0,
    }
}

fn focus_dialog(state: &mut NeoShell) -> (fx: Vec<Effect>)
    requires
        old(state).focus.issued + 2 <= u64::MAX,
    ensures
        *final(state) == (NeoShell { focus: final(state).focus, ..*old(state) }),
        fx@.len() == 2,
        dialog_focused(*old(state), *final(state), fx@[0]),
        selects_all(fx@[1]),
{
    let seq = state.focus.focus(focus::SFTP_INPUT_ID);
    let mut fx = common::one(Effect::Focus(focus::SFTP_INPUT_ID.to_owned(), seq));
    fx.push(Effect::SelectAll(focus::SFTP_INPUT_ID.to_owned()));
    fx
}

/// Ask for another name of the row, its own filled in.
pub fn on_sftp_rename(state: &mut NeoShell) -> (fx: Vec<Effect>)
    requires
        old(state).focus.issued + 2 <= u64::MAX,
    ensures
        rename_asked(*old(state), *final(state), fx@),
{
    let mut menu: Option<RemoteFileMenu> = None;
    std::mem::swap(&mut menu, &mut state.browser.menu);
    match menu {
        Some(RemoteFileMenu { session_id, dir, entry: Some(entry) }) => {
            state.browser.input = Some(
                SftpInputDialog {
                    session_id,
                    dir,
                    value: entry.name.clone(),
                    kind: SftpInputKind::Rename(entry),
                    error: None,
                },
            );
            focus_dialog(state)
        },
        _ => common::nothing(),
    }
}

/// The row's mode in octal, as far as its listing shows one.
pub open spec fn mode_filled(permissions: Seq<char>) -> Seq<char> {
    match remote_files::listed_mode(permissions) {
        Some(m) => number::digits(m as nat, 8),
        None => Seq::empty(),
    }
}

pub open spec fn chmod_asked(before: NeoShell, after: NeoShell, fx: Seq<Effect>) -> bool {
    match menu_entry(before.browser) {
        Some(entry) => {
            &&& is_dialog(
                after.browser.input,
                before.browser.menu->0.session_id,
                before.browser.menu->0.dir,
                SftpInputKind::Chmod(entry),
                mode_filled(entry.permissions@),
            )
            &&& dialog_opened(before, after)
            &&& fx.len() == 2
            &&& dialog_focused(before, after, fx[0])
            &&& selects_all(fx[1])
        },
        None => menu_left(before, after) && fx.len() == 0,
    }
}

/// Ask for another mode of the row, its own filled in.
pub fn on_sftp_chmod(state: &mut NeoShell) -> (fx: Vec<Effect>)
    requires
        old(state).focus.issued + 2 <= u64::MAX,
    ensures
        chmod_asked(*old(state), *final(state), fx@),
{
    let mut menu: Option<RemoteFileMenu> = None;
    std::mem::swap(&mut menu, &mut state.browser.menu);
    match menu {
        Some(RemoteFileMenu { session_id, dir, entry: Some(entry) }) => {
            let value = match remote_files::mode_from_permissions(entry.permissions.as_str()) {
                Some(m) => number::digits_text(m as u64, 8),
                None => String::new(),
            };
            state.browser.input = Some(
                SftpInputDialog { session_id, dir, kind: SftpInputKind::Chmod(entry), value, error: None },
            );
            focus_dialog(state)
        },
        _ => common::nothing(),
    }
}

pub open spec fn confirms_delete(c: Option<ConfirmAction>, menu: RemoteFileMenu, row: FileEntry) -> bool {
    match c {
        Some(ConfirmAction::SftpDelete { session_id, dir, path, entry }) => {
            &&& session_id == menu.session_id
            &&& dir == menu.dir
            &&& path@ == remote_files::joined(menu.dir@, row.name@)
            &&& entry == row
        },
        _ => false,
    }
}

pub open spec fn delete_asked(before: NeoShell, after: NeoShell) -> bool {
    match menu_entry(before.browser) {
        Some(entry) => {
            &&& confirms_delete(after.browser.confirm, before.browser.menu->0, entry)
            &&& after.browser == (Browser { menu: None, confirm: after.browser.confirm, ..before.browser })
            &&& browser_only(before, after)
        },
        None => menu_left(before, after),
    }
}

/// Ask before a row is deleted. The confirmation quotes the exact name and says
/// what it is — the kind that the row showed, which is also what the entry is
/// checked against.
pub fn on_sftp_delete(state: &mut NeoShell)
    ensures
        delete_asked(*old(state), *final(state)),
{
    let mut menu: Option<RemoteFileMenu> = None;
    std::mem::swap(&mut menu, &mut state.browser.menu);
    match menu {
        Some(RemoteFileMenu { session_id, dir, entry: Some(entry) }) => {
            let path = remote_files::join_remote_path(dir.as_str(), entry.name.as_str());
            state.browser.confirm = Some(ConfirmAction::SftpDelete { session_id, dir, path, entry });
        },
        _ => {},
    }
}

// ---- the dialog -----------------------------------------------------------------------------------------

pub open spec fn dialog_typed(before: NeoShell, value: String, after: NeoShell) -> bool {
    match before.browser.input {
        Some(d) => {
            &&& after.browser == (Browser {
                input: Some(SftpInputDialog { value, error: None, ..d }),
                ..before.browser
            })
            &&& browser_only(before, after)
        },
        None => after == before,
    }
}

pub fn on_sftp_input_changed(state: &mut NeoShell, value: String)
    ensures
        dialog_typed(*old(state), value, *final(state)),
{
    let mut input: Option<SftpInputDialog> = None;
    std::mem::swap(&mut input, &mut state.browser.input);
    match input {
        Some(d) => {
            let mut d = d;
            d.value = value;
            d.error = None;
            state.browser.input = Some(d);
        },
        None => {},
    }
}

/// The dialog stays, and says why.
pub open spec fn dialog_refused(before: NeoShell, d: SftpInputDialog, why: Seq<char>, after: NeoShell) -> bool {
    &&& after.browser.input matches Some(x) && x == (SftpInputDialog { error: x.error, ..d }) && (x.error matches Some(
        e,
    ) && e@ == why)
    &&& after.browser == (Browser { input: after.browser.input, ..before.browser })
    &&& browser_only(before, after)
}

pub open spec fn dialog_left(before: NeoShell, after: NeoShell) -> bool {
    after.browser == (Browser { input: None, ..before.browser }) && browser_only(before, after)
}

pub open spec fn makes_dir(e: Effect, d: SftpInputDialog) -> bool {
    match e {
        Effect::MakeDir(sid, dir, path) => sid == d.session_id && dir == d.dir && path@ == remote_files::joined(
            d.dir@,
            d.value@,
        ),
        _ => false,
    }
}

pub open spec fn renames(e: Effect, d: SftpInputDialog, row: FileEntry) -> bool {
    match e {
        Effect::Rename(sid, dir, src, dst, entry) => {
            &&& sid == d.session_id
            &&& dir == d.dir
            &&& src@ == remote_files::joined(d.dir@, row.name@)
            &&& dst@ == remote_files::joined(d.dir@, d.value@)
            &&& entry == row
        },
        _ => false,
    }
}

pub open spec fn confirms_chmod(c: Option<ConfirmAction>, d: SftpInputDialog, row: FileEntry, m: nat) -> bool {
    match c {
        Some(ConfirmAction::SftpChmod { session_id, dir, path, entry, mode }) => {
            &&& session_id == d.session_id
            &&& dir == d.dir
            &&& path@ == remote_files::joined(d.dir@, row.name@)
            &&& entry == row
            &&& mode == m
        },
        _ => false,
    }
}

pub open spec fn folder_submitted(before: NeoShell, d: SftpInputDialog, after: NeoShell, fx: Seq<Effect>) -> bool {
    if remote_files::is_remote_name(d.value@) {
        dialog_left(before, after) && fx.len() == 1 && makes_dir(fx[0], d)
    } else {
        dialog_refused(before, d, "sftp.err_name"@, after) && fx.len() == 0
    }
}

/// Submitted as it opened, there is nothing to rename.
pub open spec fn rename_submitted(
    before: NeoShell,
    d: SftpInputDialog,
    row: FileEntry,
    after: NeoShell,
    fx: Seq<Effect>,
) -> bool {
    if d.value@ == row.name@ {
        dialog_left(before, after) && fx.len() == 0
    } else if remote_files::is_remote_name(d.value@) {
        dialog_left(before, after) && fx.len() == 1 && renames(fx[0], d, row)
    } else {
        dialog_refused(before, d, "sftp.err_name"@, after) && fx.len() == 0
    }
}

/// Another mode is held for a confirmation with the exact name, its kind, the
/// path and the mode.
pub open spec fn chmod_submitted(
    before: NeoShell,
    d: SftpInputDialog,
    row: FileEntry,
    after: NeoShell,
    fx: Seq<Effect>,
) -> bool {
    &&& match remote_files::octal_mode(d.value@) {
        Some(m) => {
            &&& confirms_chmod(after.browser.confirm, d, row, m)
            &&& after.browser == (Browser { input: None, confirm: after.browser.confirm, ..before.browser })
            &&& browser_only(before, after)
        },
        None => dialog_refused(before, d, "sftp.err_mode"@, after),
    }
    &&& fx.len() == 0
}

pub open spec fn dialog_submitted(before: NeoShell, after: NeoShell, fx: Seq<Effect>) -> bool {
    match before.browser.input {
        Some(d) => match d.kind {
            SftpInputKind::NewFolder => folder_submitted(before, d, after, fx),
            SftpInputKind::Rename(row) => rename_submitted(before, d, row, after, fx),
            SftpInputKind::Chmod(row) => chmod_submitted(before, d, row, after, fx),
        },
        None => after == before && fx.len() == 0,
    }
}

/// The name / mode dialog was submitted. What does not do as a name or a mode
/// leaves it open, with the reason on it.
pub fn on_sftp_input_submit(state: &mut NeoShell) -> (fx: Vec<Effect>)
    ensures
        dialog_submitted(*old(state), *final(state), fx@),
{
    let mut input: Option<SftpInputDialog> = None;
    std::mem::swap(&mut input, &mut state.browser.input);
    match input {
        Some(d) => {
            let SftpInputDialog { session_id, dir, kind, value, error: _ } = d;
            match kind {
                SftpInputKind::NewFolder => match remote_files::valid_remote_name(value.as_str()) {
                    Some(name) => {
                        let path = remote_files::join_remote_path(dir.as_str(), name.as_str());
                        common::one(Effect::MakeDir(session_id, dir, path))
                    },
                    None => {
                        let error = Some("sftp.err_name");
                        state.browser.input = Some(
                            SftpInputDialog { session_id, dir, kind: SftpInputKind::NewFolder, value, error },
                        );
                        common::nothing()
                    },
                },
                SftpInputKind::Rename(row) => match remote_files::rename_target(row.name.as_str(), value.as_str()) {
                    Ok(Some(name)) => {
                        let src = remote_files::join_remote_path(dir.as_str(), row.name.as_str());
                        let dst = remote_files::join_remote_path(dir.as_str(), name.as_str());
                        common::one(Effect::Rename(session_id, dir, src, dst, row))
                    },
                    Ok(None) => common::nothing(),
                    Err(_) => {
                        let error = Some("sftp.err_name");
                        state.browser.input = Some(
                            SftpInputDialog { session_id, dir, kind: SftpInputKind::Rename(row), value, error },
                        );
                        common::nothing()
                    },
                },
                SftpInputKind::Chmod(row) => match remote_files::parse_octal_mode(value.as_str()) {
                    Some(mode) => {
                        let path = remote_files::join_remote_path(dir.as_str(), row.name.as_str());
                        state.browser.confirm = Some(
                            ConfirmAction::SftpChmod { session_id, dir, path, entry: row, mode },
                        );
                        common::nothing()
                    },
                    None => {
                        let error = Some("sftp.err_mode");
                        state.browser.input = Some(
                            SftpInputDialog { session_id, dir, kind: SftpInputKind::Chmod(row), value, error },
                        );
                        common::nothing()
                    },
                },
            }
        },
        None => common::nothing(),
    }
}

// ---- what is confirmed ------------------------------------------------------------------------------------

/// What carries the action out.
pub open spec fn carried_out(action: ConfirmAction) -> Effect {
    match action {
        ConfirmAction::SftpDelete { session_id, dir, path, entry } => Effect::Remove(
            session_id,
            dir,
            path,
            entry,
        ),
        ConfirmAction::SftpChmod { session_id, dir, path, entry, mode } => Effect::Chmod(
            session_id,
            dir,
            path,
            mode,
            entry,
        ),
        ConfirmAction::Kill { session_id, pid, command, signal, identity } => Effect::Kill(
            session_id,
            pid,
            signal,
            identity,
        ),
    }
}

pub open spec fn confirmed(before: NeoShell, after: NeoShell, fx: Seq<Effect>) -> bool {
    match before.browser.confirm {
        Some(action) => {
            &&& after.browser == (Browser { confirm: None, ..before.browser })
            &&& browser_only(before, after)
            &&& fx == seq![carried_out(action)]
        },
        None => after == before && fx.len() == 0,
    }
}

/// The user confirmed. The row that they confirmed goes along: an entry that is
/// no longer the kind shown is refused, and only a confirmed folder is deleted
/// with what is inside it.
pub fn on_confirm_action_execute(state: &mut NeoShell) -> (fx: Vec<Effect>)
    ensures
        confirmed(*old(state), *final(state), fx@),
{
    let mut action: Option<ConfirmAction> = None;
    std::mem::swap(&mut action, &mut state.browser.confirm);
    match action {
        Some(ConfirmAction::SftpDelete { session_id, dir, path, entry }) => common::one(
            Effect::Remove(session_id, dir, path, entry),
        ),
        Some(ConfirmAction::SftpChmod { session_id, dir, path, entry, mode }) => common::one(
            Effect::Chmod(session_id, dir, path, mode, entry),
        ),
        Some(ConfirmAction::Kill { session_id, pid, command: _, signal, identity }) => common::one(
            Effect::Kill(session_id, pid, signal, identity),
        ),
        None => common::nothing(),
    }
}

// ---- what a confirmation says -----------------------------------------------------------------------------

pub open spec fn zeros(n: nat) -> Seq<char> {
    Seq::new(n, |i: int| '0')
}

/// The mode in at least four octal digits.
pub open spec fn mode_shown(mode: nat) -> Seq<char> {
    let d = number::digits(mode, 8);
    if d.len() < 4 {
        zeros((4 - d.len()) as nat) + d
    } else {
        d
    }
}

fn mode_text(mode: u32) -> (r: String)
    ensures
        r@ == mode_shown(mode as nat),
{
    let digits = number::digits_text(mode as u64, 8);
    let n: usize = digits.as_str().unicode_len();
    let mut out = String::new();
    let mut i: usize = n;
    assert(out@ =~= zeros(0));
    while i < 4
        invariant
            n == digits@.len(),
            n <= i,
            i <= 4 || i == n,
            out@ == zeros((i - n) as nat),
        decreases 4 - i,
    {
        out.push('0');
        i += 1;
        assert(out@ =~= zeros((i - n) as nat));
    }
    out.append(digits.as_str());
    assert(out@ =~= mode_shown(mode as nat));
    out
}

/// The text that asks whether to delete an entry of the kind.
pub open spec fn delete_key(kind: EntryKind) -> Seq<char> {
    match kind {
        EntryKind::Dir => "sftp.confirm_delete_dir_named"@,
        EntryKind::Symlink => "sftp.confirm_delete_link_named"@,
        _ => "sftp.confirm_delete_named"@,
    }
}

/// The exact name, marked where it would not show, and the kind.
pub open spec fn names_entry(template: Seq<char>, entry: FileEntry, texts: Catalog) -> Seq<char> {
    catalog::filled(
        catalog::filled(template, "name"@, display::name_shown(entry.name@)),
        "kind"@,
        texts.says(remote_files::kind_key(entry.kind)),
    )
}

fn name_entry(template: String, entry: &FileEntry, texts: &Catalog) -> (r: String)
    ensures
        r@ == names_entry(template@, *entry, *texts),
{
    let name = display::visible_name(entry.name.as_str());
    let named = catalog::fill(template.as_str(), "name", name.as_str());
    let kind = remote_files::entry_kind_label(entry.kind, texts);
    catalog::fill(named.as_str(), "kind", kind.as_str())
}

/// What the confirmation asks, and about which path; a kill has its own.
pub open spec fn asks(action: ConfirmAction, texts: Catalog) -> Option<(Seq<char>, Seq<char>)> {
    match action {
        ConfirmAction::SftpDelete { path, entry, .. } => Some(
            (names_entry(texts.says(delete_key(entry.kind)), entry, texts), path@),
        ),
        ConfirmAction::SftpChmod { path, entry, mode, .. } => Some(
            (
                catalog::filled(
                    names_entry(texts.says("sftp.confirm_chmod_named"@), entry, texts),
                    "mode"@,
                    mode_shown(mode as nat),
                ),
                path@,
            ),
        ),
        ConfirmAction::Kill { .. } => None,
    }
}

/// What the confirmation of a file operation says: the question, which quotes
/// the exact name and states what the row showed; the path; and whether marks
/// in it have to be explained. None for a kill, which shows the process's own
/// command line and the name of the signal.
pub fn confirm_action_text(action: &ConfirmAction, texts: &Catalog) -> (r: Option<(String, String, bool)>)
    ensures
        match (r, asks(*action, *texts)) {
            (Some((question, subject, marked)), Some((q, path))) => question@ == q && subject@ == display::path_shown(
                path,
            ) && marked == (display::path_shown(path) != path),
            (None, None) => true,
            _ => false,
        },
{
    let (question, path) = match action {
        ConfirmAction::SftpDelete { path, entry, .. } => {
            let template = match entry.kind {
                EntryKind::Dir => texts.t("sftp.confirm_delete_dir_named"),
                EntryKind::Symlink => texts.t("sftp.confirm_delete_link_named"),
                _ => texts.t("sftp.confirm_delete_named"),
            };
            (name_entry(template, entry, texts), path)
        },
        ConfirmAction::SftpChmod { path, entry, mode, .. } => {
            let named = name_entry(texts.t("sftp.confirm_chmod_named"), entry, texts);
            let octal = mode_text(*mode);
            (catalog::fill(named.as_str(), "mode", octal.as_str()), path)
        },
        ConfirmAction::Kill { .. } => return None,
    };
    let subject = display::visible_path(path.as_str());
    let marked = !text::same_text(subject.as_str(), path.as_str());
    Some((question, subject, marked))
}


/// What is deleted is what the menu was opened on: the row goes from the menu
/// through the confirmation into the call, under its own path.
pub proof fn law_what_is_confirmed_is_deleted(
    before: NeoShell,
    asked: NeoShell,
    after: NeoShell,
    fx: Seq<Effect>,
    row: FileEntry,
)
    requires
        menu_entry(before.browser) == Some(row),
        delete_asked(before, asked),
        confirmed(asked, after, fx),
    ensures
        fx.len() == 1,
        fx[0] matches Effect::Remove(sid, dir, path, entry) && sid == before.browser.menu->0.session_id && dir
            == before.browser.menu->0.dir && path@ == remote_files::joined(dir@, row.name@) && entry == row,
        after.browser.confirm is None,
{
}

pub open spec fn op_done(
    before: NeoShell,
    sid: String,
    dir: String,
    result: Result<(), String>,
    texts: Catalog,
    after: NeoShell,
    fx: Seq<Effect>,
) -> bool {
    &&& exists|failed: bool| #[trigger] common::end_reported(before, result, texts, after, failed)
    &&& fx.len() == 1
    &&& common::changes_dir(
        fx[0],
        sid@,
        common::text_or(remote_files::text_at(before.browser.current_dir@, sid@), dir@),
    )
}

/// An SFTP call finished: its end is shown where it is to be, and whatever the
/// browser shows for that session now is listed again.
pub fn on_sftp_op_done(state: &mut NeoShell, session_id: String, dir: String, result: Result<(), String>, texts: &Catalog) -> (fx:
    Vec<Effect>)
    ensures
        op_done(*old(state), session_id, dir, result, *texts, *final(state), fx@),
        final(state).sessions == old(state).sessions,
        final(state).search == old(state).search,
        final(state).palette == old(state).palette,
        final(state).transfers == old(state).transfers,
{
    let failed = common::report_transfer_error(state, result, texts);
    assert(common::end_reported(*old(state), result, *texts, *state, failed));
    let path = match common::current_dir_of(&state.browser, session_id.as_str()) {
        Some(d) => d,
        None => dir,
    };
    common::one(Effect::Then(Message::ChangeDir(session_id, path)))
}

// ---- the messages ---------------------------------------------------------------------------------------

pub open spec fn is_file_message(m: Message) -> bool {
    match m {
        Message::FilesReceived(_, _, _) => true,
        Message::ChangeDir(_, _) => true,
        Message::ListingFailed(_, _, _) => true,
        Message::FileClicked(_, _, _) => true,
        Message::PathInputChanged(_) => true,
        Message::PathInputSubmit => true,
        Message::HideContextMenu => true,
        Message::LocalPathChanged(_) => true,
        Message::LocalPathSubmit => true,
        Message::LocalFileClicked(_, _) => true,
        Message::LocalDirRead(_) => true,
        Message::RefreshLocalFiles => true,
        Message::RefreshRemoteFiles => true,
        Message::OpenEditor(_, _) => true,
        Message::EditorContentLoaded(_, _, _) => true,
        Message::EditorAction(_) => true,
        Message::SaveEditor => true,
        Message::EditorSaved => true,
        Message::CloseEditor => true,
        _ => false,
    }
}

pub open spec fn browser_is(before: NeoShell, browser: Browser, after: NeoShell) -> bool {
    after == (NeoShell { browser, ..before })
}

pub open spec fn editor_is(before: NeoShell, editor: Editor, after: NeoShell) -> bool {
    after == (NeoShell { editor, ..before })
}

#[verifier::opaque]
pub open spec fn file_step(before: NeoShell, m: Message, env: Env, after: NeoShell, fx: Seq<Effect>) -> bool {
    match m {
        Message::FilesReceived(sid, path, entries) => listing_in(before, sid, path, entries, after) && fx.len() == 0,
        Message::ChangeDir(sid, path) => dir_asked(before, sid, path, after, fx),
        Message::ListingFailed(sid, dir, e) => listing_lost(before, sid, dir, e, env.texts, after, fx),
        Message::FileClicked(sid, dir, entry) => after == before && row_clicked(sid, dir, entry, fx),
        Message::PathInputChanged(v) => browser_is(before, Browser { path_input: v, ..before.browser }, after)
            && fx.len() == 0,
        Message::PathInputSubmit => after == before && path_submitted(before, fx),
        Message::HideContextMenu => browser_is(before, Browser { context_menu: None, ..before.browser }, after)
            && fx.len() == 0,
        Message::LocalPathChanged(v) => browser_is(before, Browser { local_path: v, ..before.browser }, after)
            && fx.len() == 0,
        Message::LocalPathSubmit => after == before && fx == seq![Effect::ReadLocalDir(before.browser.local_path)],
        Message::LocalFileClicked(path, is_dir) => local_clicked(before, path, is_dir, after, fx),
        Message::LocalDirRead(read) => local_listed(before, read, after) && fx.len() == 0,
        Message::RefreshLocalFiles => after == before && fx == seq![
            Effect::ReadLocalDir(before.browser.local_path),
        ],
        Message::RefreshRemoteFiles => after == before && refresh_asked(before, fx),
        Message::OpenEditor(sid, path) => after == before && fx == seq![Effect::ReadFile(sid, path)],
        Message::EditorContentLoaded(sid, path, content) => editor_opened(before, sid, path, content, after, fx),
        Message::EditorAction(edits) => editor_is(
            before,
            Editor { dirty: before.editor.dirty || edits, ..before.editor },
            after,
        ) && fx.len() == 0,
        Message::SaveEditor => after == before && editor_saved(before, fx),
        Message::EditorSaved => editor_is(before, Editor { dirty: false, ..before.editor }, after) && fx.len() == 0,
        Message::CloseEditor => editor_closed(before, after, fx),
        _ => true,
    }
}

/// The messages of the file lists and of the editor.
pub fn handle_file(state: &mut NeoShell, message: Message, env: &Env) -> (fx: Vec<Effect>)
    requires
        is_file_message(message),
        old(state).wf(),
    ensures
        file_step(*old(state), message, *env, *final(state), fx@),
        final(state).wf(),
{
    proof {
        reveal(file_step);
    }
    match message {
        Message::FilesReceived(sid, path, entries) => {
            on_files_received(state, sid, path, entries);
            common::nothing()
        },
        Message::ChangeDir(sid, path) => on_change_dir(state, sid, path),
        Message::ListingFailed(sid, dir, e) => on_listing_failed(state, sid, dir, e, &env.texts),
        Message::FileClicked(sid, dir, entry) => on_file_clicked(sid, dir, &entry),
        Message::PathInputChanged(v) => {
            state.browser.path_input = v;
            common::nothing()
        },
        Message::PathInputSubmit => on_path_input_submit(state),
        Message::HideContextMenu => {
            state.browser.context_menu = None;
            common::nothing()
        },
        Message::LocalPathChanged(v) => {
            state.browser.local_path = v;
            common::nothing()
        },
        Message::LocalPathSubmit => common::one(Effect::ReadLocalDir(state.browser.local_path.clone())),
        Message::LocalFileClicked(path, is_dir) => on_local_file_clicked(state, path, is_dir),
        Message::LocalDirRead(read) => {
            on_local_dir_read(state, read);
            common::nothing()
        },
        Message::RefreshLocalFiles => common::one(Effect::ReadLocalDir(state.browser.local_path.clone())),
        Message::RefreshRemoteFiles => on_refresh_remote_files(state),
        Message::OpenEditor(sid, path) => common::one(Effect::ReadFile(sid, path)),
        Message::EditorContentLoaded(sid, path, content) => {
            state.editor.path = Some(path);
            state.editor.session_id = Some(sid);
            state.editor.dirty = false;
            common::one(Effect::LoadEditor(content))
        },
        Message::EditorAction(edits) => {
            if edits {
                state.editor.dirty = true;
            }
            common::nothing()
        },
        Message::SaveEditor => on_save_editor(state),
        Message::EditorSaved => {
            state.editor.dirty = false;
            common::nothing()
        },
        Message::CloseEditor => {
            state.editor.path = None;
            state.editor.session_id = None;
            state.editor.dirty = false;
            common::one(Effect::ClearEditor)
        },
        _ => common::nothing(),
    }
}

pub open spec fn is_sftp_message(m: Message) -> bool {
    match m {
        Message::RemoteMenuOpen(_, _, _) => true,
        Message::RemoteMenuClose => true,
        Message::SftpNewFolder => true,
        Message::SftpRename => true,
        Message::SftpChmod => true,
        Message::SftpDelete => true,
        Message::SftpInputChanged(_) => true,
        Message::SftpInputSubmit => true,
        Message::SftpInputCancel => true,
        Message::SftpOpDone(_, _, _) => true,
        Message::ConfirmActionExecute => true,
        Message::ConfirmActionCancel => true,
        _ => false,
    }
}

#[verifier::opaque]
pub open spec fn sftp_step(before: NeoShell, m: Message, env: Env, after: NeoShell, fx: Seq<Effect>) -> bool {
    match m {
        Message::RemoteMenuOpen(sid, dir, entry) => menu_opened(before, sid, dir, entry, after) && fx.len() == 0,
        Message::RemoteMenuClose => menu_left(before, after) && fx.len() == 0,
        Message::SftpNewFolder => folder_asked(before, after, fx),
        Message::SftpRename => rename_asked(before, after, fx),
        Message::SftpChmod => chmod_asked(before, after, fx),
        Message::SftpDelete => delete_asked(before, after) && fx.len() == 0,
        Message::SftpInputChanged(v) => dialog_typed(before, v, after) && fx.len() == 0,
        Message::SftpInputSubmit => dialog_submitted(before, after, fx),
        Message::SftpInputCancel => dialog_left(before, after) && fx.len() == 0,
        Message::SftpOpDone(sid, dir, r) => op_done(before, sid, dir, r, env.texts, after, fx),
        Message::ConfirmActionExecute => confirmed(before, after, fx),
        Message::ConfirmActionCancel => browser_is(before, Browser { confirm: None, ..before.browser }, after)
            && fx.len() == 0,
        _ => true,
    }
}

/// The messages of the right-click menu, its dialogs and its confirmations.
pub fn handle_sftp(state: &mut NeoShell, message: Message, env: &Env) -> (fx: Vec<Effect>)
    requires
        is_sftp_message(message),
        old(state).wf(),
        old(state).has_room(),
    ensures
        sftp_step(*old(state), message, *env, *final(state), fx@),
        final(state).wf(),
{
    proof {
        reveal(sftp_step);
    }
    match message {
        Message::RemoteMenuOpen(sid, dir, entry) => {
            on_remote_menu_open(state, sid, dir, entry);
            common::nothing()
        },
        Message::RemoteMenuClose => {
            state.browser.menu = None;
            common::nothing()
        },
        Message::SftpNewFolder => on_sftp_new_folder(state),
        Message::SftpRename => on_sftp_rename(state),
        Message::SftpChmod => on_sftp_chmod(state),
        Message::SftpDelete => {
            on_sftp_delete(state);
            common::nothing()
        },
        Message::SftpInputChanged(v) => {
            on_sftp_input_changed(state, v);
            common::nothing()
        },
        Message::SftpInputSubmit => on_sftp_input_submit(state),
        Message::SftpInputCancel => {
            state.browser.input = None;
            common::nothing()
        },
        Message::SftpOpDone(sid, dir, result) => on_sftp_op_done(state, sid, dir, result, &env.texts),
        Message::ConfirmActionExecute => on_confirm_action_execute(state),
        Message::ConfirmActionCancel => {
            state.browser.confirm = None;
            common::nothing()
        },
        _ => common::nothing(),
    }
}

} // verus!
