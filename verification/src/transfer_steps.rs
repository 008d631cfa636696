//! What one message does to the uploads and downloads.

use vstd::prelude::*;
use vstd::string::*;

use crate::common;
use crate::remote_files;
use crate::state::Effect;
use crate::state::Env;
use crate::state::LocalFile;
use crate::state::Message;
use crate::state::NeoShell;
use crate::state::Transfers;
use crate::steps;
use crate::transferring;
use crate::updating;
use crate::updating::Area;

verus! {

/// The one progress bar is taken: a transfer shows on it, or an upload job runs.
pub open spec fn is_taken(s: NeoShell) -> bool {
    s.transfers.running || (s.transfers.bar matches Some(p) && !p.finished)
}

/// A picked file or folder is uploaded to its own name in the directory that it was picked
/// for, by the session that it was picked for, under the number that the bar shows.
pub proof fn law_an_upload_keeps_its_name(
    before: NeoShell,
    sid: String,
    dir: String,
    local: LocalFile,
    name: String,
    env: Env,
    after: NeoShell,
    fx: Seq<Effect>,
)
    requires
        updating::updated(before, Message::UploadPicked(sid, dir, Some(local)), env, after, fx),
        !is_taken(before),
        local.name == Some(name),
        remote_files::is_plain_dir(dir@),
        remote_files::is_component(name@),
    ensures
        fx.len() > 0,
        fx[0] matches Effect::Upload(to, id, from, path, folder) && to == sid && from == local.path && path@ == dir@
            + seq!['/'] + name@ && folder == local.is_dir && remote_files::shows(after.transfers.bar, id) && id
            == before.transfers.next_id,
        after.transfers.running,
        after.transfers.next_id == (before.transfers.next_id + 1) as u64,
{
    let m = Message::UploadPicked(sid, dir, Some(local));
    let (mid, first) = steps::lemma_handled(before, m, env, after, fx, Area::Transfer);
    reveal(transferring::transfer_step);
    remote_files::law_joining_and_going_up(dir@, name@);
    if fx != first {
        assert(fx[0] == fx.drop_last()[0]);
    }
}

/// While the bar is taken no other transfer starts, and that is said; a picker that was
/// left without a choice starts nothing either.
pub proof fn law_one_transfer_at_a_time(before: NeoShell, m: Message, env: Env, after: NeoShell, fx: Seq<Effect>)
    requires
        updating::updated(before, m, env, after, fx),
    ensures
        is_taken(before) && (m is UploadFile && common::focused_sid(before.sessions) is Some || m is DownloadFile || m
            is DownloadDir || m is RzDetected || (m is UploadPicked && m->UploadPicked_2 is Some) || m is LocalFileReady)
            ==> steps::asks_for(fx, Seq::empty()) && after.transfers == before.transfers && after.error.show
            && after.error.message@ == env.texts.says("transfer.busy"@),
        is_taken(before) && (m matches Message::DownloadPicked(_, _, Some(path)) && path@.len() > 0) ==> steps::asks_for(
            fx,
            Seq::empty(),
        ) && after.transfers == before.transfers,
        m matches Message::UploadPicked(_, _, None) ==> steps::asks_for(fx, Seq::empty()) && after.transfers
            == before.transfers,
        m matches Message::DownloadPicked(_, _, None) ==> steps::asks_for(fx, Seq::empty()) && after.transfers
            == before.transfers,
        m matches Message::DownloadDirPicked(_, _, None) ==> steps::asks_for(fx, Seq::empty()) && after.transfers
            == before.transfers,
{
    if m is UploadFile || m is DownloadFile || m is DownloadDir || m is RzDetected || m is UploadPicked || m
        is LocalFileReady || m is DownloadPicked || m is DownloadDirPicked {
        let (mid, first) = steps::lemma_handled(before, m, env, after, fx, Area::Transfer);
        reveal(transferring::transfer_step);
        if first.len() == 0 {
            assert(first =~= Seq::empty());
        }
    }
}

/// A download fetches the remote path that was asked for to the local one that was picked,
/// under the number that the bar shows.
pub proof fn law_a_download_goes_where_it_was_picked(
    before: NeoShell,
    sid: String,
    remote: String,
    path: String,
    env: Env,
    after: NeoShell,
    fx: Seq<Effect>,
)
    requires
        updating::updated(before, Message::DownloadPicked(sid, remote, Some(path)), env, after, fx),
        !is_taken(before),
        path@.len() > 0,
    ensures
        steps::asks_for(fx, seq![Effect::Download(sid, before.transfers.next_id, remote, path)]),
        remote_files::shows(after.transfers.bar, before.transfers.next_id),
        after.transfers.next_id == (before.transfers.next_id + 1) as u64,
{
    let m = Message::DownloadPicked(sid, remote, Some(path));
    let (mid, first) = steps::lemma_handled(before, m, env, after, fx, Area::Transfer);
    reveal(transferring::transfer_step);
}

/// A download is offered under the remote file's own name, where that is a safe one; a
/// folder's comes under its own name in the folder that was picked.
pub proof fn law_a_download_is_offered_its_own_name(
    before: NeoShell,
    sid: String,
    dir: Seq<char>,
    name: Seq<char>,
    remote: String,
    env: Env,
    after: NeoShell,
    fx: Seq<Effect>,
)
    requires
        updating::updated(before, Message::DownloadFile(sid, remote), env, after, fx),
        !is_taken(before),
        remote_files::is_plain_dir(dir),
        remote_files::is_safe_name(name),
        remote@ == dir + seq!['/'] + name,
    ensures
        fx.len() > 0,
        fx[0] matches Effect::PickDownload(to, r, offered) && to == sid && r == remote && offered@ == name,
{
    let (mid, first) = steps::lemma_handled(before, Message::DownloadFile(sid, remote), env, after, fx, Area::Transfer);
    reveal(transferring::transfer_step);
    lemma_safe_is_component(name);
    remote_files::law_joining_and_going_up(dir, name);
    if fx != first {
        assert(fx[0] == fx.drop_last()[0]);
    }
}

proof fn lemma_safe_is_component(name: Seq<char>)
    requires
        remote_files::is_safe_name(name),
    ensures
        remote_files::is_component(name),
{
    assert forall|i: int| 0 <= i < name.len() implies name[i] != '/' by {
        assert(!crate::text::is_ctrl(name[i]));
    }
}

/// A folder is downloaded into the folder that was picked, under its own name.
pub proof fn law_a_folder_is_downloaded_under_its_name(
    before: NeoShell,
    sid: String,
    dir: Seq<char>,
    name: Seq<char>,
    remote: String,
    parent: String,
    env: Env,
    after: NeoShell,
    fx: Seq<Effect>,
)
    requires
        updating::updated(before, Message::DownloadDirPicked(sid, remote, Some(parent)), env, after, fx),
        !is_taken(before),
        remote_files::is_plain_dir(dir),
        remote_files::is_safe_name(name),
        remote@ == dir + seq!['/'] + name,
    ensures
        fx.len() > 0,
        fx[0] matches Effect::DownloadTree(to, id, r, local) && to == sid && id == before.transfers.next_id && r == remote
            && local@ == parent@ + name,
{
    let m = Message::DownloadDirPicked(sid, remote, Some(parent));
    let (mid, first) = steps::lemma_handled(before, m, env, after, fx, Area::Transfer);
    reveal(transferring::transfer_step);
    lemma_safe_is_component(name);
    remote_files::law_joining_and_going_up(dir, name);
    if fx != first {
        assert(fx[0] == fx.drop_last()[0]);
    }
    match first[0] {
        Effect::DownloadTree(to, id, r, local) => {
            assert(local@ =~= parent@ + name);
        },
        _ => {},
    }
}

/// The picker for an upload is opened for the focused session and the directory that the
/// browser shows of it, or its home where it shows none; for a file or for a folder as
/// was asked.
pub proof fn law_an_upload_goes_into_the_folder_shown(before: NeoShell, m: Message, env: Env, after: NeoShell, fx: Seq<Effect>, sid: Seq<char>)
    requires
        updating::updated(before, m, env, after, fx),
        m is UploadFile || m is UploadDir,
        !is_taken(before),
        common::focused_sid(before.sessions) == Some(sid),
    ensures
        fx.len() > 0,
        ({
            let dir = if before.browser.listings@.contains_key(sid) {
                before.browser.listings@[sid].dir@
            } else if before.browser.current_dir@.contains_key(sid) {
                before.browser.current_dir@[sid]@
            } else {
                seq!['~']
            };
            &&& m is UploadFile ==> (fx[0] matches Effect::PickUpload(to, d) && to@ == sid && d@ == dir)
            &&& m is UploadDir ==> (fx[0] matches Effect::PickUploadDir(to, d) && to@ == sid && d@ == dir)
        }),
{
    let (mid, first) = steps::lemma_handled(before, m, env, after, fx, Area::Transfer);
    reveal(transferring::transfer_step);
    reveal_strlit("~");
    assert("~"@ =~= seq!['~']);
    if fx != first {
        assert(fx[0] == fx.drop_last()[0]);
    }
}

/// The end of a download takes its own bar down and no other; cancelling stops the transfer
/// on the bar, takes the bar down and forgets the drops that wait.
pub proof fn law_an_ended_transfer_frees_its_bar(before: NeoShell, m: Message, env: Env, after: NeoShell, fx: Seq<Effect>)
    requires
        updating::updated(before, m, env, after, fx),
    ensures
        m matches Message::DownloadDone(id, r) ==> after.transfers == (Transfers {
            bar: if before.transfers.bar is Some && before.transfers.bar->0.id == id {
                None
            } else {
                before.transfers.bar
            },
            ..before.transfers
        }),
        m matches Message::DownloadDirDone(id, r) ==> after.transfers == (Transfers {
            bar: if before.transfers.bar is Some && before.transfers.bar->0.id == id {
                None
            } else {
                before.transfers.bar
            },
            ..before.transfers
        }),
        m is CancelTransfer ==> after.transfers.bar is None && after.transfers.drops@.len() == 0 && (
        before.transfers.bar matches Some(p) ==> steps::asks_for(fx, seq![Effect::StopTransfer(p.id)])),
        m is CancelTransfer && before.transfers.bar is None ==> steps::asks_for(fx, Seq::empty()),
{
    if m is DownloadDone || m is DownloadDirDone || m is CancelTransfer {
        let (mid, first) = steps::lemma_handled(before, m, env, after, fx, Area::Transfer);
        reveal(transferring::transfer_step);
        match m {
            Message::DownloadDone(id, r) => {
                let failed = choose|failed: bool| #[trigger]
                    common::end_reported(transferring::bar_released(before, id), r, env.texts, mid, failed);
            },
            Message::DownloadDirDone(id, r) => {
                let failed = choose|failed: bool| #[trigger]
                    common::end_reported(transferring::bar_released(before, id), r, env.texts, mid, failed);
            },
            _ => {},
        }
    }
}

/// An upload that ended in a success starts the drop that has waited longest, if one waits,
/// for the session and the directory that it was dropped on; what arrived is listed again.
pub proof fn law_the_next_drop_follows(
    before: NeoShell,
    sid: String,
    id: u64,
    env: Env,
    after: NeoShell,
    fx: Seq<Effect>,
)
    requires
        updating::updated(before, Message::UploadFinished(sid, id, Ok(())), env, after, fx),
        remote_files::shows(before.transfers.bar, id) || before.transfers.bar is None,
    ensures
        before.transfers.drops@.len() == 0 ==> after.transfers.bar is None && !after.transfers.running,
        before.transfers.drops@.len() > 0 ==> {
            let job = before.transfers.drops@[0];
            &&& after.transfers.drops@ == before.transfers.drops@.drop_first()
            &&& job.local.name matches Some(name) ==> exists|k: int|
                0 <= k < fx.len() && (#[trigger] fx[k] matches Effect::Upload(to, n, from, path, folder) && to
                    == job.session_id && from == job.local.path && path@ == remote_files::joined(
                    job.remote_dir@,
                    name@,
                ) && folder == job.local.is_dir)
        },
        before.browser.current_dir@.contains_key(sid@) ==> fx.len() > 0 && (fx[0] matches Effect::Then(
            Message::ChangeDir(to, path),
        ) && to@ == sid@ && path@ == before.browser.current_dir@[sid@]@),
{
    let m = Message::UploadFinished(sid, id, Ok(()));
    let (end, first) = steps::lemma_handled(before, m, env, after, fx, Area::Transfer);
    reveal(transferring::transfer_step);
    let s = updating::noted(before, m, env.now);
    let (reported, failed, kept, head, next) = choose|
        reported: NeoShell,
        failed: bool,
        kept: NeoShell,
        head: Seq<Effect>,
        next: Seq<Effect>,
    | #[trigger]
        transferring::upload_finished_via(
            s,
            sid@,
            id,
            Ok(()),
            env.texts,
            reported,
            failed,
            kept,
            head,
            next,
            end,
            first,
        );
    assert(kept.transfers.bar is None && !kept.transfers.running);
    assert forall|i: int| 0 <= i < first.len() implies fx[i] == first[i] by {
        if fx != first {
            assert(fx[i] == fx.drop_last()[i]);
        }
    }
    if before.transfers.drops@.len() > 0 {
        let mid = choose|mid: NeoShell| #[trigger] transferring::next_drop_via(kept, mid, env.texts, end, next);
        let k = head.len() as int;
        assert(first[k] == next[0]);
        assert(fx[k] == first[k]);
        let job = before.transfers.drops@[0];
        if job.local.name is Some {
            assert(fx[k] is Upload);
        }
    }
    if before.browser.current_dir@.contains_key(sid@) {
        assert(first[0] == head[0]);
        assert(fx[0] == first[0]);
    }
}

/// What a shell asks to receive goes up from the file that was picked, to its own name in the
/// directory that was shown.
pub proof fn law_what_the_shell_receives(
    before: NeoShell,
    sid: String,
    dir: String,
    local: LocalFile,
    name: String,
    env: Env,
    after: NeoShell,
    fx: Seq<Effect>,
)
    requires
        updating::updated(before, Message::RzPicked(sid, dir, Some(local)), env, after, fx),
        !is_taken(before),
        local.name == Some(name),
        remote_files::is_plain_dir(dir@),
        remote_files::is_component(name@),
    ensures
        fx.len() > 0,
        fx[0] matches Effect::UploadRz(to, id, from, path) && to == sid && id == before.transfers.next_id && from
            == local.path && path@ == dir@ + seq!['/'] + name@ && remote_files::shows(after.transfers.bar, id),
{
    let m = Message::RzPicked(sid, dir, Some(local));
    let (mid, first) = steps::lemma_handled(before, m, env, after, fx, Area::Transfer);
    reveal(transferring::transfer_step);
    remote_files::law_joining_and_going_up(dir@, name@);
    if fx != first {
        assert(fx[0] == fx.drop_last()[0]);
    }
}

/// The remote path of a file named in the shell: a path from the root is itself, and any
/// other name lies in the shell's directory.
pub proof fn law_a_named_file_is_found_from_the_shell(name: Seq<char>, pwd: Seq<char>)
    ensures
        name.len() > 0 && name[0] == '/' ==> transferring::resolved(name, pwd) == name,
        remote_files::is_component(name) && crate::text::trim(pwd) == pwd && remote_files::is_plain_dir(pwd) ==> {
            &&& transferring::resolved(name, pwd) == pwd + seq!['/'] + name
            &&& remote_files::leads_up(transferring::resolved(name, pwd)) == pwd
        },
{
    if remote_files::is_component(name) && crate::text::trim(pwd) == pwd && remote_files::is_plain_dir(pwd) {
        assert(name.contains(name[0]));
        remote_files::law_joining_and_going_up(pwd, name);
    }
}

} // verus!
