//! Uploads and downloads, on the single progress bar.

use vstd::prelude::*;
use vstd::string::*;

use crate::catalog::Catalog;
use crate::common;
use crate::draining;
use crate::forms;
use crate::remote_files;
use crate::remote_files::TransferProgress;
use crate::screens::Screen;
use crate::state::Browser;
use crate::state::DropJob;
use crate::state::Effect;
use crate::state::Env;
use crate::state::LocalFile;
use crate::state::Message;
use crate::state::NeoShell;
use crate::state::Transfers;
use crate::state::Typing;
use crate::text;

verus! {

/// What Rust's `{:?}` makes of a text.
pub uninterp spec fn quoted_text(s: Seq<char>) -> Seq<char>;

/// Wraps `str`'s `Debug`, through `format!`: the text in quotes, with what a
/// terminal would act on escaped. The same text always gives the same result;
/// which characters are escaped how, is not said here.
#[verifier::external_body]
fn quote(s: &str) -> (r: String)
    ensures
        r@ == quoted_text(s@),
{
    format!("{:?}", s)
}

// ---- the bar --------------------------------------------------------------------------------------------

/// What claiming the bar makes of a state: a busy one is said.
pub open spec fn bar_claimed(before: NeoShell, texts: Catalog, after: NeoShell, id: Option<u64>) -> bool {
    if common::is_busy(before) {
        id is None && common::busy_said(before, texts, after)
    } else {
        &&& id == Some(before.transfers.next_id)
        &&& remote_files::is_fresh(after.transfers.bar, before.transfers.next_id)
        &&& after == (NeoShell {
            transfers: Transfers {
                bar: after.transfers.bar,
                next_id: (before.transfers.next_id + 1) as u64,
                ..before.transfers
            },
            ..before
        })
    }
}

impl NeoShell {
    /// Put a fresh progress on the bar for a transfer about to start, and give
    /// it a number of its own; while another one holds the bar, say so.
    pub fn claim_transfer_bar(&mut self, texts: &Catalog) -> (id: Option<u64>)
        requires
            old(self).wf(),
            old(self).transfers.next_id < u64::MAX,
        ensures
            bar_claimed(*old(self), *texts, *final(self), id),
            final(self).wf(),
    {
        if self.transfer_refused_busy(texts) {
            return None;
        }
        let id: u64 = self.transfers.next_id;
        let _claimed = remote_files::claim_bar(&mut self.transfers.bar, self.transfers.running, id);
        self.transfers.next_id = id + 1;
        Some(id)
    }
}

// ---- uploads --------------------------------------------------------------------------------------------

pub open spec fn uploads(e: Effect, sid: String, id: u64, local: LocalFile, remote: Seq<char>) -> bool {
    match e {
        Effect::Upload(s, n, l, r, d) => s == sid && n == id && l == local.path && r@ == remote && d == local.is_dir,
        _ => false,
    }
}

pub open spec fn upload_refused(e: Effect, sid: String, id: u64, path: Seq<char>, texts: Catalog) -> bool {
    match e {
        Effect::Then(Message::UploadFinished(s, n, Err(why))) => s == sid && n == id && why@ == texts.says_with(
            "transfer.bad_local"@,
            "path"@,
            path,
        ),
        _ => false,
    }
}

/// What starting an upload makes of a state. A filesystem root has no name to
/// give the remote copy: its progress never reaches the bar, so its end takes
/// nothing down.
pub open spec fn upload_started(
    before: NeoShell,
    sid: String,
    local: LocalFile,
    dir: Seq<char>,
    texts: Catalog,
    after: NeoShell,
    fx: Seq<Effect>,
) -> bool {
    let id = before.transfers.next_id;
    &&& fx.len() == 1
    &&& match local.name {
        Some(name) => {
            &&& after == (NeoShell {
                transfers: Transfers {
                    bar: Some(TransferProgress { id, finished: false, filename: name }),
                    running: true,
                    next_id: (id + 1) as u64,
                    ..before.transfers
                },
                ..before
            })
            &&& uploads(fx[0], sid, id, local, remote_files::joined(dir, name@))
        },
        None => {
            &&& after == (NeoShell {
                transfers: Transfers { next_id: (id + 1) as u64, ..before.transfers },
                ..before
            })
            &&& upload_refused(fx[0], sid, id, local.path@, texts)
        },
    }
}

/// Start one upload — a file, or a whole folder — into `remote_dir`, on the
/// single progress bar. Its end starts the next queued drop. Callers have made
/// sure the bar is free.
pub fn start_upload(state: &mut NeoShell, session_id: String, local: LocalFile, remote_dir: String, texts: &Catalog) -> (fx:
    Vec<Effect>)
    requires
        old(state).wf(),
        old(state).transfers.next_id < u64::MAX,
    ensures
        upload_started(*old(state), session_id, local, remote_dir@, *texts, *final(state), fx@),
        final(state).wf(),
{
    let id: u64 = state.transfers.next_id;
    state.transfers.next_id = id + 1;
    match local.name {
        Some(name) => {
            let remote = remote_files::join_remote_path(remote_dir.as_str(), name.as_str());
            state.transfers.bar = Some(TransferProgress { id, finished: false, filename: name });
            state.transfers.running = true;
            common::one(Effect::Upload(session_id, id, local.path, remote, local.is_dir))
        },
        None => {
            let why = texts.tf("transfer.bad_local", "path", local.path.as_str());
            common::one(Effect::Then(Message::UploadFinished(session_id, id, Err(why))))
        },
    }
}

pub open spec fn next_drop_via(
    before: NeoShell,
    mid: NeoShell,
    texts: Catalog,
    after: NeoShell,
    fx: Seq<Effect>,
) -> bool {
    let job = before.transfers.drops@[0];
    &&& mid.transfers.drops@ == before.transfers.drops@.drop_first()
    &&& mid == (NeoShell {
        transfers: Transfers { drops: mid.transfers.drops, ..before.transfers },
        ..before
    })
    &&& upload_started(mid, job.session_id, job.local, job.remote_dir@, texts, after, fx)
}

/// What starting the next drop makes of a state.
pub open spec fn next_drop_started(before: NeoShell, texts: Catalog, after: NeoShell, fx: Seq<Effect>) -> bool {
    if common::is_busy(before) || before.transfers.drops@.len() == 0 {
        after == before && fx.len() == 0
    } else {
        exists|mid: NeoShell| #[trigger] next_drop_via(before, mid, texts, after, fx)
    }
}

/// Start the next queued drop, oldest first, unless a transfer already holds
/// the bar: the end of an upload will call back here.
pub fn start_next_drop(state: &mut NeoShell, texts: &Catalog) -> (fx: Vec<Effect>)
    requires
        old(state).wf(),
        old(state).transfers.next_id < u64::MAX,
    ensures
        next_drop_started(*old(state), *texts, *final(state), fx@),
        final(state).wf(),
{
    if state.transfer_busy() || state.transfers.drops.len() == 0 {
        return common::nothing();
    }
    let job = state.transfers.drops.remove(0);
    let ghost mid = *state;
    assert(mid.transfers.drops@ =~= old(state).transfers.drops@.drop_first());
    let fx = start_upload(state, job.session_id, job.local, job.remote_dir, texts);
    assert(next_drop_via(*old(state), mid, *texts, *state, fx@));
    fx
}

/// The directory that an upload into "this folder" goes to.
pub open spec fn upload_dir(s: NeoShell, sid: Seq<char>) -> Seq<char> {
    common::text_or(common::shown_dir(s.browser, sid), "~"@)
}

pub open spec fn picks(e: Effect, sid: Seq<char>, dir: Seq<char>, folder: bool) -> bool {
    match e {
        Effect::PickUpload(s, d) => !folder && s@ == sid && d@ == dir,
        Effect::PickUploadDir(s, d) => folder && s@ == sid && d@ == dir,
        _ => false,
    }
}

pub open spec fn upload_asked(before: NeoShell, folder: bool, texts: Catalog, after: NeoShell, fx: Seq<Effect>) -> bool {
    match common::focused_sid(before.sessions) {
        Some(sid) => {
            &&& common::busy_said(before, texts, after)
            &&& if common::is_busy(before) {
                fx.len() == 0
            } else {
                fx.len() == 1 && picks(fx[0], sid, upload_dir(before, sid), folder)
            }
        },
        None => after == before && fx.len() == 0,
    }
}

/// Pick a file, or a folder, to upload. A busy bar is said before the picker,
/// not after the user has chosen; the bar is claimed once there is something to
/// send, so a cancelled picker leaves nothing behind.
pub fn on_upload_asked(state: &mut NeoShell, folder: bool, texts: &Catalog) -> (fx: Vec<Effect>)
    ensures
        upload_asked(*old(state), folder, *texts, *final(state), fx@),
{
    let sid = match state.sessions.focused_session_id() {
        Some(sid) => sid,
        None => {
            return common::nothing();
        },
    };
    if state.transfer_refused_busy(texts) {
        return common::nothing();
    }
    let dir = common::dir_or_home(common::browser_dir(&state.browser, sid.as_str()));
    if folder {
        common::one(Effect::PickUploadDir(sid, dir))
    } else {
        common::one(Effect::PickUpload(sid, dir))
    }
}

pub open spec fn looks_at(e: Effect, sid: Seq<char>, dir: Seq<char>, path: String) -> bool {
    match e {
        Effect::StatLocal(s, d, p) => s@ == sid && d@ == dir && p == path,
        _ => false,
    }
}

pub open spec fn selected_upload_asked(before: NeoShell, texts: Catalog, after: NeoShell, fx: Seq<Effect>) -> bool {
    match (before.browser.selected_local, common::focused_any(before.sessions)) {
        (Some(path), Some(sid)) => if common::is_busy(before) {
            common::busy_said(before, texts, after) && fx.len() == 0
        } else {
            &&& after == (NeoShell {
                browser: Browser { selected_local: None, ..before.browser },
                ..before
            })
            &&& fx.len() == 1
            &&& looks_at(fx[0], sid, upload_dir(before, sid), path)
        },
        _ => after == before && fx.len() == 0,
    }
}

/// Upload the selected local file into the browser's directory.
pub fn on_upload_local_file(state: &mut NeoShell, texts: &Catalog) -> (fx: Vec<Effect>)
    ensures
        selected_upload_asked(*old(state), *texts, *final(state), fx@),
{
    if state.browser.selected_local.is_none() {
        return common::nothing();
    }
    let sid = match state.sessions.focused_session() {
        Some(sid) => sid,
        None => {
            return common::nothing();
        },
    };
    if state.transfer_refused_busy(texts) {
        return common::nothing();
    }
    let dir = common::dir_or_home(common::browser_dir(&state.browser, sid.as_str()));
    let mut picked: Option<String> = None;
    std::mem::swap(&mut picked, &mut state.browser.selected_local);
    match picked {
        Some(path) => common::one(Effect::StatLocal(sid, dir, path)),
        None => common::nothing(),
    }
}

/// What a picked file or folder makes of a state.
pub open spec fn upload_picked(
    before: NeoShell,
    sid: String,
    dir: String,
    picked: Option<LocalFile>,
    texts: Catalog,
    after: NeoShell,
    fx: Seq<Effect>,
) -> bool {
    match picked {
        Some(local) => if common::is_busy(before) {
            common::busy_said(before, texts, after) && fx.len() == 0
        } else {
            upload_started(before, sid, local, dir@, texts, after, fx)
        },
        None => after == before && fx.len() == 0,
    }
}

/// A file or folder was picked. Another transfer may have started while the
/// picker was open.
pub fn on_upload_picked(state: &mut NeoShell, session_id: String, dir: String, picked: Option<LocalFile>, texts: &Catalog) -> (fx:
    Vec<Effect>)
    requires
        old(state).wf(),
        old(state).transfers.next_id < u64::MAX,
    ensures
        upload_picked(*old(state), session_id, dir, picked, *texts, *final(state), fx@),
        final(state).wf(),
{
    match picked {
        Some(local) => {
            if state.transfer_refused_busy(texts) {
                return common::nothing();
            }
            start_upload(state, session_id, local, dir, texts)
        },
        None => common::nothing(),
    }
}

/// The bar is released, and no upload runs any more.
pub open spec fn upload_over(before: NeoShell, id: u64) -> NeoShell {
    NeoShell {
        transfers: Transfers {
            running: false,
            bar: remote_files::released(before.transfers.bar, id),
            ..before.transfers
        },
        ..before
    }
}

/// A failure stops the rest of a drop rather than pile errors up; a report of
/// skipped entries is no failure.
pub open spec fn drops_kept(reported: NeoShell, failed: bool, kept: NeoShell) -> bool {
    &&& kept.transfers.drops@ == (if failed {
        Seq::empty()
    } else {
        reported.transfers.drops@
    })
    &&& kept == (NeoShell {
        transfers: Transfers { drops: kept.transfers.drops, ..reported.transfers },
        ..reported
    })
}

/// What arrived is shown, for a session that the browser tracks.
pub open spec fn relists(s: NeoShell, sid: Seq<char>, head: Seq<Effect>) -> bool {
    match remote_files::text_at(s.browser.current_dir@, sid) {
        Some(path) => head.len() == 1 && common::changes_dir(head[0], sid, path),
        None => head.len() == 0,
    }
}

pub open spec fn upload_finished_via(
    before: NeoShell,
    sid: Seq<char>,
    id: u64,
    result: Result<(), String>,
    texts: Catalog,
    reported: NeoShell,
    failed: bool,
    kept: NeoShell,
    head: Seq<Effect>,
    next: Seq<Effect>,
    after: NeoShell,
    fx: Seq<Effect>,
) -> bool {
    &&& common::end_reported(upload_over(before, id), result, texts, reported, failed)
    &&& drops_kept(reported, failed, kept)
    &&& next_drop_started(kept, texts, after, next)
    &&& relists(before, sid, head)
    &&& fx == head + next
}

pub open spec fn upload_finished(
    before: NeoShell,
    sid: Seq<char>,
    id: u64,
    result: Result<(), String>,
    texts: Catalog,
    after: NeoShell,
    fx: Seq<Effect>,
) -> bool {
    exists|reported: NeoShell, failed: bool, kept: NeoShell, head: Seq<Effect>, next: Seq<Effect>| #[trigger]
        upload_finished_via(before, sid, id, result, texts, reported, failed, kept, head, next, after, fx)
}

/// An upload ended: the next drop starts, and what arrived is shown — a cancel
/// can leave a partial tree.
pub fn on_upload_finished(state: &mut NeoShell, session_id: String, id: u64, result: Result<(), String>, texts: &Catalog) -> (fx:
    Vec<Effect>)
    requires
        old(state).wf(),
        old(state).transfers.next_id < u64::MAX,
    ensures
        upload_finished(*old(state), session_id@, id, result, *texts, *final(state), fx@),
        final(state).wf(),
{
    state.transfers.running = false;
    remote_files::release_bar(&mut state.transfers.bar, id);
    assert(*state == upload_over(*old(state), id));
    let failed = common::report_transfer_error(state, result, texts);
    let ghost reported = *state;
    if failed {
        state.transfers.drops = Vec::new();
    }
    let ghost kept = *state;
    assert(drops_kept(reported, failed, kept));
    let mut next = start_next_drop(state, texts);
    let ghost started = next@;
    assert(state.browser == old(state).browser) by {
        lemma_next_drop_keeps_browser(kept, *texts, *state, started);
    }
    let mut fx = match common::current_dir_of(&state.browser, session_id.as_str()) {
        Some(path) => common::one(Effect::Then(Message::ChangeDir(session_id, path))),
        None => common::nothing(),
    };
    let ghost head = fx@;
    fx.append(&mut next);
    assert(fx@ =~= head + started);
    assert(upload_finished_via(
        *old(state),
        session_id@,
        id,
        result,
        *texts,
        reported,
        failed,
        kept,
        head,
        started,
        *state,
        fx@,
    ));
    fx
}

proof fn lemma_next_drop_keeps_browser(before: NeoShell, texts: Catalog, after: NeoShell, fx: Seq<Effect>)
    requires
        next_drop_started(before, texts, after, fx),
    ensures
        after.browser == before.browser,
{
    if !(common::is_busy(before) || before.transfers.drops@.len() == 0) {
        let mid = choose|mid: NeoShell| #[trigger] next_drop_via(before, mid, texts, after, fx);
        assert(next_drop_via(before, mid, texts, after, fx));
    }
}

pub open spec fn dropped_via(
    before: NeoShell,
    local: LocalFile,
    to: (Seq<char>, Seq<char>),
    texts: Catalog,
    mid: NeoShell,
    after: NeoShell,
    fx: Seq<Effect>,
) -> bool {
    let n = before.transfers.drops@.len() as int;
    &&& mid.transfers.drops@.len() == n + 1
    &&& mid.transfers.drops@.drop_last() == before.transfers.drops@
    &&& mid.transfers.drops@[n].session_id@ == to.0
    &&& mid.transfers.drops@[n].remote_dir@ == to.1
    &&& mid.transfers.drops@[n].local == local
    &&& mid == (NeoShell {
        transfers: Transfers { drops: mid.transfers.drops, ..before.transfers },
        ..before
    })
    &&& next_drop_started(mid, texts, after, fx)
}

/// The drop joins the queue, and the next one starts.
pub open spec fn drop_queued(
    before: NeoShell,
    local: LocalFile,
    to: (Seq<char>, Seq<char>),
    texts: Catalog,
    after: NeoShell,
    fx: Seq<Effect>,
) -> bool {
    exists|mid: NeoShell| #[trigger] dropped_via(before, local, to, texts, mid, after, fx)
}

pub open spec fn file_dropped(before: NeoShell, local: LocalFile, env: Env, after: NeoShell, fx: Seq<Effect>) -> bool {
    if before.vault.screen != Screen::Main || before.top() is Some {
        after == before && fx.len() == 0
    } else {
        match common::drop_goes(before.sessions, before.browser, env.pointer.in_second_pane) {
            None => common::error_shown(before, env.texts.says("drop.no_target"@), after) && fx.len() == 0,
            Some(to) => if common::is_busy(before) && !before.transfers.running {
                common::error_shown(before, env.texts.says("transfer.busy"@), after) && fx.len() == 0
            } else {
                drop_queued(before, local, to, env.texts, after, fx)
            },
        }
    }
}

/// A file or folder was dropped on the window: it is queued behind the others,
/// and the next one starts if the bar is free.
///
/// On the main screen only, with nothing modal in the way: a drop under the
/// connection form must not start an upload behind it. Where someone else's
/// transfer holds the bar, its end would not start the queue.
pub fn on_file_dropped(state: &mut NeoShell, local: LocalFile, env: &Env) -> (fx: Vec<Effect>)
    requires
        old(state).wf(),
        old(state).transfers.next_id < u64::MAX,
    ensures
        file_dropped(*old(state), local, *env, *final(state), fx@),
        final(state).wf(),
{
    if state.vault.screen != Screen::Main || state.any_overlay_open() {
        return common::nothing();
    }
    let target = common::drop_target(&state.sessions, &state.browser, env.pointer.in_second_pane);
    let ghost goes = common::drop_goes(state.sessions, state.browser, env.pointer.in_second_pane);
    assert(common::pair_view(target) == goes);
    match target {
        None => {
            assert(goes is None);
            state.show_error(env.texts.t("drop.no_target"));
            common::nothing()
        },
        Some((session_id, remote_dir)) => {
            if state.transfer_busy() && !state.transfers.running {
                state.show_error(env.texts.t("transfer.busy"));
                return common::nothing();
            }
            let ghost to = (session_id@, remote_dir@);
            state.transfers.drops.push(DropJob { session_id, local, remote_dir });
            let ghost mid = *state;
            assert(mid.transfers.drops@.drop_last() =~= old(state).transfers.drops@);
            let fx = start_next_drop(state, &env.texts);
            assert(dropped_via(*old(state), local, to, env.texts, mid, *state, fx@));
            fx
        },
    }
}

// ---- downloads ------------------------------------------------------------------------------------------

/// The name that a remote path gives a local file, or the other one.
pub open spec fn local_name(remote: Seq<char>, other: Seq<char>, name: Seq<char>) -> bool {
    let base = remote_files::file_name(remote);
    if base is Some && remote_files::is_safe_name(base->0) {
        name == base->0
    } else {
        name == other
    }
}

fn name_or(remote: &str, other: &str) -> (r: String)
    ensures
        local_name(remote@, other@, r@),
{
    match remote_files::safe_local_basename(remote) {
        Some(name) => name,
        None => other.to_owned(),
    }
}

pub open spec fn download_asked(
    before: NeoShell,
    sid: String,
    remote: String,
    texts: Catalog,
    after: NeoShell,
    fx: Seq<Effect>,
) -> bool {
    &&& common::busy_said(before, texts, after)
    &&& if common::is_busy(before) {
        fx.len() == 0
    } else {
        fx.len() == 1 && match fx[0] {
            Effect::PickDownload(s, r, name) => s == sid && r == remote && local_name(remote@, "file"@, name@),
            _ => false,
        }
    }
}

/// Pick where to save a remote file. The name comes from the remote listing and
/// only prefills the dialog; it is made safe anyway.
pub fn on_download_file(state: &mut NeoShell, sid: String, remote: String, texts: &Catalog) -> (fx: Vec<Effect>)
    ensures
        download_asked(*old(state), sid, remote, *texts, *final(state), fx@),
{
    if state.transfer_refused_busy(texts) {
        return common::nothing();
    }
    let name = name_or(remote.as_str(), "file");
    common::one(Effect::PickDownload(sid, remote, name))
}

pub open spec fn download_picked(
    before: NeoShell,
    sid: String,
    remote: String,
    local: Option<String>,
    texts: Catalog,
    after: NeoShell,
    fx: Seq<Effect>,
) -> bool {
    match local {
        Some(path) => if path@.len() > 0 {
            if common::is_busy(before) {
                common::busy_said(before, texts, after) && fx.len() == 0
            } else {
                &&& bar_claimed(before, texts, after, Some(before.transfers.next_id))
                &&& fx == seq![Effect::Download(sid, before.transfers.next_id, remote, path)]
            }
        } else {
            after == before && fx.len() == 0
        },
        None => after == before && fx.len() == 0,
    }
}

/// Where to save a remote file was picked. Another transfer may have started
/// while the dialog was open.
pub fn on_download_picked(state: &mut NeoShell, sid: String, remote: String, local: Option<String>, texts: &Catalog) -> (fx:
    Vec<Effect>)
    requires
        old(state).wf(),
        old(state).transfers.next_id < u64::MAX,
    ensures
        download_picked(*old(state), sid, remote, local, *texts, *final(state), fx@),
        final(state).wf(),
{
    match local {
        Some(path) => {
            if forms::is_empty_text(path.as_str()) {
                return common::nothing();
            }
            match state.claim_transfer_bar(texts) {
                Some(id) => common::one(Effect::Download(sid, id, remote, path)),
                None => common::nothing(),
            }
        },
        None => common::nothing(),
    }
}

pub open spec fn tree_asked(
    before: NeoShell,
    sid: String,
    remote: String,
    texts: Catalog,
    after: NeoShell,
    fx: Seq<Effect>,
) -> bool {
    &&& common::busy_said(before, texts, after)
    &&& fx == (if common::is_busy(before) {
        Seq::empty()
    } else {
        seq![Effect::PickDownloadDir(sid, remote)]
    })
}

pub fn on_download_dir(state: &mut NeoShell, sid: String, remote: String, texts: &Catalog) -> (fx: Vec<Effect>)
    ensures
        tree_asked(*old(state), sid, remote, *texts, *final(state), fx@),
{
    if state.transfer_refused_busy(texts) {
        return common::nothing();
    }
    common::one(Effect::PickDownloadDir(sid, remote))
}

pub open spec fn gets_tree(e: Effect, sid: String, id: u64, remote: String, parent: Seq<char>) -> bool {
    match e {
        Effect::DownloadTree(s, n, r, local) => {
            &&& s == sid
            &&& n == id
            &&& r == remote
            &&& local@.len() >= parent.len()
            &&& local@.take(parent.len() as int) == parent
            &&& local_name(remote@, "download"@, local@.skip(parent.len() as int))
        },
        _ => false,
    }
}

pub open spec fn tree_picked(
    before: NeoShell,
    sid: String,
    remote: String,
    parent: Option<String>,
    texts: Catalog,
    after: NeoShell,
    fx: Seq<Effect>,
) -> bool {
    match parent {
        Some(dir) => if common::is_busy(before) {
            common::busy_said(before, texts, after) && fx.len() == 0
        } else {
            &&& bar_claimed(before, texts, after, Some(before.transfers.next_id))
            &&& fx.len() == 1
            &&& gets_tree(fx[0], sid, before.transfers.next_id, remote, dir@)
        },
        None => after == before && fx.len() == 0,
    }
}

/// Where to put a remote folder was picked. Its name comes from the remote
/// listing: it must not get to choose where on the local disk the tree lands.
pub fn on_download_dir_picked(state: &mut NeoShell, sid: String, remote: String, parent: Option<String>, texts: &Catalog) -> (fx:
    Vec<Effect>)
    requires
        old(state).wf(),
        old(state).transfers.next_id < u64::MAX,
    ensures
        tree_picked(*old(state), sid, remote, parent, *texts, *final(state), fx@),
        final(state).wf(),
{
    match parent {
        Some(dir) => match state.claim_transfer_bar(texts) {
            Some(id) => {
                let name = name_or(remote.as_str(), "download");
                let local = text::concat(dir.as_str(), name.as_str());
                assert(local@.take(dir@.len() as int) =~= dir@);
                assert(local@.skip(dir@.len() as int) =~= name@);
                common::one(Effect::DownloadTree(sid, id, remote, local))
            },
            None => common::nothing(),
        },
        None => common::nothing(),
    }
}

/// The bar is released.
pub open spec fn bar_released(before: NeoShell, id: u64) -> NeoShell {
    NeoShell {
        transfers: Transfers {
            bar: remote_files::released(before.transfers.bar, id),
            ..before.transfers
        },
        ..before
    }
}

pub open spec fn download_done(
    before: NeoShell,
    id: u64,
    result: Result<(), String>,
    texts: Catalog,
    after: NeoShell,
) -> bool {
    exists|failed: bool| #[trigger] common::end_reported(bar_released(before, id), result, texts, after, failed)
}

/// A download ended.
pub fn on_download_done(state: &mut NeoShell, id: u64, result: Result<(), String>, texts: &Catalog)
    requires
        old(state).wf(),
    ensures
        download_done(*old(state), id, result, *texts, *final(state)),
        final(state).wf(),
{
    remote_files::release_bar(&mut state.transfers.bar, id);
    assert(*state == bar_released(*old(state), id));
    let failed = common::report_transfer_error(state, result, texts);
    assert(common::end_reported(bar_released(*old(state), id), result, *texts, *state, failed));
}

// ---- transfers from inside a terminal ---------------------------------------------------------------------

pub open spec fn home_or_dir(s: NeoShell, sid: Seq<char>) -> Seq<char> {
    common::text_or(remote_files::text_at(s.browser.current_dir@, sid), "~"@)
}

pub open spec fn rz_asked(before: NeoShell, sid: String, texts: Catalog, after: NeoShell, fx: Seq<Effect>) -> bool {
    &&& common::busy_said(before, texts, after)
    &&& if common::is_busy(before) {
        fx.len() == 0
    } else {
        fx.len() == 1 && (fx[0] matches Effect::PickRz(s, d) && s == sid && d@ == home_or_dir(before, sid@))
    }
}

/// The remote side waits for a file: one is to be picked.
pub fn on_rz_detected(state: &mut NeoShell, sid: String, texts: &Catalog) -> (fx: Vec<Effect>)
    ensures
        rz_asked(*old(state), sid, *texts, *final(state), fx@),
{
    if state.transfer_refused_busy(texts) {
        return common::nothing();
    }
    let dir = common::dir_or_home(common::current_dir_of(&state.browser, sid.as_str()));
    common::one(Effect::PickRz(sid, dir))
}

pub open spec fn rz_picked(
    before: NeoShell,
    sid: String,
    dir: String,
    file: Option<LocalFile>,
    texts: Catalog,
    after: NeoShell,
    fx: Seq<Effect>,
) -> bool {
    match file {
        Some(LocalFile { path, name: Some(name), is_dir }) => if common::is_busy(before) {
            common::busy_said(before, texts, after) && fx.len() == 0
        } else {
            &&& bar_claimed(before, texts, after, Some(before.transfers.next_id))
            &&& fx.len() == 1
            &&& fx[0] matches Effect::UploadRz(s, n, l, r) && s == sid && n == before.transfers.next_id && l == path
                && r@ == remote_files::joined(dir@, name@)
        },
        _ => after == before && fx.len() == 0,
    }
}

/// The file that the remote side waits for was picked.
pub fn on_rz_picked(state: &mut NeoShell, sid: String, dir: String, file: Option<LocalFile>, texts: &Catalog) -> (fx:
    Vec<Effect>)
    requires
        old(state).wf(),
        old(state).transfers.next_id < u64::MAX,
    ensures
        rz_picked(*old(state), sid, dir, file, *texts, *final(state), fx@),
        final(state).wf(),
{
    match file {
        Some(LocalFile { path, name: Some(name), is_dir: _ }) => match state.claim_transfer_bar(texts) {
            Some(id) => {
                let remote = remote_files::join_remote_path(dir.as_str(), name.as_str());
                common::one(Effect::UploadRz(sid, id, path, remote))
            },
            None => common::nothing(),
        },
        _ => common::nothing(),
    }
}

pub open spec fn rz_note() -> Seq<char> {
    "\r\n\x1b[32m[NeoShell] Upload complete.\x1b[0m\r\n"@
}

pub open spec fn rz_done(
    before: NeoShell,
    sid: String,
    id: u64,
    result: Result<(), String>,
    texts: Catalog,
    after: NeoShell,
    fx: Seq<Effect>,
) -> bool {
    match result {
        Err(_) => download_done(before, id, result, texts, after) && fx.len() == 0,
        Ok(_) => {
            &&& after == bar_released(before, id)
            &&& fx.len() > 0
            &&& draining::notes(fx.drop_last(), before.sessions.tabs@, sid@, rz_note())
            &&& common::changes_dir(fx.last(), sid@, home_or_dir(before, sid@))
        },
    }
}

/// The upload that the remote side waited for ended.
pub fn on_rz_upload_done(state: &mut NeoShell, sid: String, id: u64, result: Result<(), String>, texts: &Catalog) -> (fx:
    Vec<Effect>)
    requires
        old(state).wf(),
    ensures
        rz_done(*old(state), sid, id, result, *texts, *final(state), fx@),
        final(state).wf(),
{
    match result {
        Err(e) => {
            on_download_done(state, id, Err(e), texts);
            common::nothing()
        },
        Ok(_) => {
            remote_files::release_bar(&mut state.transfers.bar, id);
            let note = "\r\n\x1b[32m[NeoShell] Upload complete.\x1b[0m\r\n".to_owned();
            let mut fx = draining::note_on_main(&state.sessions.tabs, sid.as_str(), note);
            let ghost said = fx@;
            let path = common::dir_or_home(common::current_dir_of(&state.browser, sid.as_str()));
            fx.push(Effect::Then(Message::ChangeDir(sid, path)));
            assert(fx@.drop_last() =~= said);
            fx
        },
    }
}

pub open spec fn no_name_note() -> Seq<char> {
    "\r\n\x1b[33m[NeoShell] sz: no filename captured. Use file browser to download.\x1b[0m\r\n"@
}

/// What is written of a refused name, given in quotes.
pub open spec fn refused_note(quoted: Seq<char>, texts: Catalog) -> Seq<char> {
    "\r\n\x1b[31m"@ + texts.says_with("term.sz_refused"@, "name"@, quoted) + "\x1b[0m\r\n"@
}

/// The note on a refused name, given in quotes.
pub fn refusal(quoted: &str, texts: &Catalog) -> (note: String)
    ensures
        note@ == refused_note(quoted@, *texts),
{
    let said = texts.tf("term.sz_refused", "name", quoted);
    let mut note = "\r\n\x1b[31m".to_owned();
    note.append(said.as_str());
    note.append("\x1b[0m\r\n");
    note
}

pub open spec fn saved_note(name: Seq<char>, local: Seq<char>) -> Seq<char> {
    "\r\n\x1b[32m[NeoShell] sz: "@ + name + " → "@ + local + "\x1b[0m\r\n"@
}

pub open spec fn gets_named(e: Effect, sid: String, id: u64, name: Seq<char>, local: Seq<char>) -> bool {
    match e {
        Effect::DownloadSz(s, n, f, l) => s == sid && n == id && f@ == name && l@ == local,
        _ => false,
    }
}

/// A file that the terminal named, once the name was taken from the list.
pub open spec fn named_download(
    mid: NeoShell,
    sid: String,
    name: Seq<char>,
    env: Env,
    after: NeoShell,
    fx: Seq<Effect>,
) -> bool {
    let base = remote_files::file_name(name);
    if base is Some && remote_files::is_safe_name(base->0) {
        if common::is_busy(mid) {
            common::busy_said(mid, env.texts, after) && fx.len() == 0
        } else {
            let local = env.download_dir@ + base->0;
            &&& bar_claimed(mid, env.texts, after, Some(mid.transfers.next_id))
            &&& fx.len() > 0
            &&& draining::notes(fx.drop_last(), mid.sessions.tabs@, sid@, saved_note(name, local))
            &&& gets_named(fx.last(), sid, mid.transfers.next_id, name, local)
        }
    } else {
        &&& after == mid
        &&& draining::notes(fx, mid.sessions.tabs@, sid@, refused_note(quoted_text(name), env.texts))
    }
}

pub open spec fn sz_detected_via(
    before: NeoShell,
    sid: String,
    env: Env,
    mid: NeoShell,
    after: NeoShell,
    fx: Seq<Effect>,
) -> bool {
    &&& mid.typing.sz_filename@ == before.typing.sz_filename@.remove(sid@)
    &&& mid == (NeoShell {
        typing: Typing { sz_filename: mid.typing.sz_filename, ..before.typing },
        ..before
    })
    &&& match remote_files::text_at(before.typing.sz_filename@, sid@) {
        Some(name) => named_download(mid, sid, name, env, after, fx),
        None => {
            &&& after == mid
            &&& fx.len() > 0
            &&& draining::notes(fx.drop_last(), before.sessions.tabs@, sid@, no_name_note())
            &&& common::changes_dir(fx.last(), sid@, home_or_dir(before, sid@))
        },
    }
}

pub open spec fn sz_detected(before: NeoShell, sid: String, env: Env, after: NeoShell, fx: Seq<Effect>) -> bool {
    if before.transfers.bar is Some {
        after == before && fx.len() == 0
    } else {
        exists|mid: NeoShell| #[trigger] sz_detected_via(before, sid, env, mid, after, fx)
    }
}

fn download_named(state: &mut NeoShell, sid: String, name: String, env: &Env) -> (fx: Vec<Effect>)
    requires
        old(state).wf(),
        old(state).transfers.next_id < u64::MAX,
    ensures
        named_download(*old(state), sid, name@, *env, *final(state), fx@),
        final(state).wf(),
{
    let base = match remote_files::safe_local_basename(name.as_str()) {
        Some(base) => base,
        None => {
            let quoted = quote(name.as_str());
            let note = refusal(quoted.as_str(), &env.texts);
            return draining::note_on_main(&state.sessions.tabs, sid.as_str(), note);
        },
    };
    match state.claim_transfer_bar(&env.texts) {
        Some(id) => {
            let local = text::concat(env.download_dir.as_str(), base.as_str());
            let mut note = "\r\n\x1b[32m[NeoShell] sz: ".to_owned();
            note.append(name.as_str());
            note.append(" → ");
            note.append(local.as_str());
            note.append("\x1b[0m\r\n");
            let mut fx = draining::note_on_main(&state.sessions.tabs, sid.as_str(), note);
            let ghost said = fx@;
            fx.push(Effect::DownloadSz(sid, id, name, local));
            assert(fx@.drop_last() =~= said);
            fx
        },
        None => common::nothing(),
    }
}

/// The remote side wants to send a file. The name was scraped from terminal
/// output — the remote host controls it: it is reduced to a bare file name
/// before it touches the local filesystem, or refused. A refused name is
/// written to the terminal in quotes, with what is in it escaped.
pub fn on_sz_detected(state: &mut NeoShell, sid: String, env: &Env) -> (fx: Vec<Effect>)
    requires
        old(state).wf(),
        old(state).transfers.next_id < u64::MAX,
    ensures
        sz_detected(*old(state), sid, *env, *final(state), fx@),
        final(state).wf(),
{
    // Already downloading: one at a time.
    if state.transfers.bar.is_some() {
        return common::nothing();
    }
    let name = state.typing.sz_filename.remove(sid.as_str());
    let ghost mid = *state;
    let ghost session = sid;
    let fx = match name {
        Some(name) => download_named(state, sid, name, env),
        None => {
            let note =
                "\r\n\x1b[33m[NeoShell] sz: no filename captured. Use file browser to download.\x1b[0m\r\n".to_owned();
            let mut fx = draining::note_on_main(&state.sessions.tabs, sid.as_str(), note);
            let ghost said = fx@;
            let path = common::dir_or_home(common::current_dir_of(&state.browser, sid.as_str()));
            fx.push(Effect::Then(Message::ChangeDir(sid, path)));
            assert(fx@.drop_last() =~= said);
            fx
        },
    };
    assert(sz_detected_via(*old(state), session, *env, mid, *state, fx@));
    fx
}

/// A download that a terminal asked for lands in the download directory, under
/// a bare name, or nowhere.
pub proof fn law_a_named_download_stays_in_its_directory(
    mid: NeoShell,
    sid: String,
    name: Seq<char>,
    env: Env,
    after: NeoShell,
    fx: Seq<Effect>,
    i: int,
)
    requires
        named_download(mid, sid, name, env, after, fx),
        0 <= i < fx.len(),
        fx[i] is DownloadSz,
    ensures
        fx[i] matches Effect::DownloadSz(s, n, f, l) && exists|base: Seq<char>|
            #![trigger remote_files::is_safe_name(base)]
            remote_files::is_safe_name(base) && l@ == env.download_dir@ + base,
{
    let base = remote_files::file_name(name);
    if base is Some && remote_files::is_safe_name(base->0) {
        if !common::is_busy(mid) {
            if i < fx.len() - 1 {
                assert(fx.drop_last()[i] == fx[i]);
            }
            assert(i == fx.len() - 1);
            assert(remote_files::is_safe_name(base->0));
        }
    }
}

/// The remote path of a file that an `sz` named: a relative one is resolved
/// against the shell's directory, which may differ from the file browser's.
pub open spec fn resolved(name: Seq<char>, pwd: Seq<char>) -> Seq<char> {
    if name.len() > 0 && name[0] == '/' {
        name
    } else {
        text::trim_end_char(text::trim(pwd), '/') + seq!['/'] + name
    }
}

/// The remote path of a file that an `sz` named, with what `pwd` printed; "~"
/// where it could not be asked.
pub fn sz_remote_path(name: &str, pwd: Option<&str>) -> (r: String)
    ensures
        r@ == resolved(
            name@,
            match pwd {
                Some(p) => p@,
                None => "~"@,
            },
        ),
{
    let cs = text::chars_of(name);
    if cs.len() > 0 && cs[0] == '/' {
        return name.to_owned();
    }
    let printed = match pwd {
        Some(p) => text::chars_of(p),
        None => text::chars_of("~"),
    };
    let dir = text::trim_end_char_chars(text::trim_chars(printed.as_slice()), '/');
    let mut r = text::string_of(dir);
    r.push('/');
    r.append(name);
    assert(r@ =~= dir@ + seq!['/'] + name@);
    r
}

// ---- stopping -------------------------------------------------------------------------------------------

pub open spec fn transfer_cancelled(before: NeoShell, after: NeoShell, fx: Seq<Effect>) -> bool {
    &&& after.transfers.drops@.len() == 0
    &&& after == (NeoShell {
        transfers: Transfers { bar: None, drops: after.transfers.drops, ..before.transfers },
        ..before
    })
    &&& fx == (match before.transfers.bar {
        Some(p) => seq![Effect::StopTransfer(p.id)],
        None => Seq::empty(),
    })
}

/// Cancel what is on the bar. That means the whole drop, not just the file in
/// flight.
pub fn on_cancel_transfer(state: &mut NeoShell) -> (fx: Vec<Effect>)
    ensures
        transfer_cancelled(*old(state), *final(state), fx@),
{
    let fx = match &state.transfers.bar {
        Some(p) => common::one(Effect::StopTransfer(p.id)),
        None => common::nothing(),
    };
    state.transfers.bar = None;
    state.transfers.drops = Vec::new();
    fx
}

// ---- the messages ---------------------------------------------------------------------------------------

pub open spec fn is_transfer_message(m: Message) -> bool {
    match m {
        Message::UploadFile => true,
        Message::UploadDir => true,
        Message::UploadLocalFile => true,
        Message::LocalFileReady(_, _, _) => true,
        Message::UploadPicked(_, _, _) => true,
        Message::UploadFinished(_, _, _) => true,
        Message::FileDropped(_) => true,
        Message::DownloadFile(_, _) => true,
        Message::DownloadPicked(_, _, _) => true,
        Message::DownloadDone(_, _) => true,
        Message::DownloadDir(_, _) => true,
        Message::DownloadDirPicked(_, _, _) => true,
        Message::DownloadDirDone(_, _) => true,
        Message::TransfersSpotted(_) => true,
        Message::RzDetected(_) => true,
        Message::SzDetected(_) => true,
        Message::RzPicked(_, _, _) => true,
        Message::RzUploadDone(_, _, _) => true,
        Message::CancelTransfer => true,
        _ => false,
    }
}

#[verifier::opaque]
pub open spec fn transfer_step(before: NeoShell, m: Message, env: Env, after: NeoShell, fx: Seq<Effect>) -> bool {
    match m {
        Message::UploadFile => upload_asked(before, false, env.texts, after, fx),
        Message::UploadDir => upload_asked(before, true, env.texts, after, fx),
        Message::UploadLocalFile => selected_upload_asked(before, env.texts, after, fx),
        Message::LocalFileReady(sid, dir, f) => upload_picked(before, sid, dir, Some(f), env.texts, after, fx),
        Message::UploadPicked(sid, dir, f) => upload_picked(before, sid, dir, f, env.texts, after, fx),
        Message::UploadFinished(sid, id, r) => upload_finished(before, sid@, id, r, env.texts, after, fx),
        Message::FileDropped(f) => file_dropped(before, f, env, after, fx),
        Message::DownloadFile(sid, remote) => download_asked(before, sid, remote, env.texts, after, fx),
        Message::DownloadPicked(sid, remote, l) => download_picked(before, sid, remote, l, env.texts, after, fx),
        Message::DownloadDone(id, r) => download_done(before, id, r, env.texts, after) && fx.len() == 0,
        Message::DownloadDir(sid, remote) => tree_asked(before, sid, remote, env.texts, after, fx),
        Message::DownloadDirPicked(sid, remote, p) => tree_picked(before, sid, remote, p, env.texts, after, fx),
        Message::DownloadDirDone(id, r) => download_done(before, id, r, env.texts, after) && fx.len() == 0,
        Message::TransfersSpotted(list) => draining::spotted(before, list@, after, fx),
        Message::RzDetected(sid) => rz_asked(before, sid, env.texts, after, fx),
        Message::SzDetected(sid) => sz_detected(before, sid, env, after, fx),
        Message::RzPicked(sid, dir, f) => rz_picked(before, sid, dir, f, env.texts, after, fx),
        Message::RzUploadDone(sid, id, r) => rz_done(before, sid, id, r, env.texts, after, fx),
        Message::CancelTransfer => transfer_cancelled(before, after, fx),
        _ => true,
    }
}

/// The messages of the transfers.
pub fn handle_transfer(state: &mut NeoShell, message: Message, env: &Env) -> (fx: Vec<Effect>)
    requires
        is_transfer_message(message),
        old(state).wf(),
        old(state).has_room(),
    ensures
        transfer_step(*old(state), message, *env, *final(state), fx@),
        final(state).wf(),
{
    proof {
        reveal(transfer_step);
    }
    match message {
        Message::UploadFile => on_upload_asked(state, false, &env.texts),
        Message::UploadDir => on_upload_asked(state, true, &env.texts),
        Message::UploadLocalFile => on_upload_local_file(state, &env.texts),
        Message::LocalFileReady(sid, dir, f) => on_upload_picked(state, sid, dir, Some(f), &env.texts),
        Message::UploadPicked(sid, dir, f) => on_upload_picked(state, sid, dir, f, &env.texts),
        Message::UploadFinished(sid, id, r) => on_upload_finished(state, sid, id, r, &env.texts),
        Message::FileDropped(f) => on_file_dropped(state, f, env),
        Message::DownloadFile(sid, remote) => on_download_file(state, sid, remote, &env.texts),
        Message::DownloadPicked(sid, remote, l) => on_download_picked(state, sid, remote, l, &env.texts),
        Message::DownloadDone(id, r) => {
            on_download_done(state, id, r, &env.texts);
            common::nothing()
        },
        Message::DownloadDir(sid, remote) => on_download_dir(state, sid, remote, &env.texts),
        Message::DownloadDirPicked(sid, remote, p) => on_download_dir_picked(state, sid, remote, p, &env.texts),
        Message::DownloadDirDone(id, r) => {
            on_download_done(state, id, r, &env.texts);
            common::nothing()
        },
        Message::TransfersSpotted(list) => draining::on_transfers_spotted(state, list),
        Message::RzDetected(sid) => on_rz_detected(state, sid, &env.texts),
        Message::SzDetected(sid) => on_sz_detected(state, sid, env),
        Message::RzPicked(sid, dir, f) => on_rz_picked(state, sid, dir, f, &env.texts),
        Message::RzUploadDone(sid, id, r) => on_rz_upload_done(state, sid, id, r, &env.texts),
        Message::CancelTransfer => on_cancel_transfer(state),
        _ => common::nothing(),
    }
}

} // verus!
