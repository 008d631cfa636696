//! What one message does to the broadcast, the snippets, the keys, the history and the
//! folded groups.

use vstd::prelude::*;
use vstd::string::*;

use crate::common;
use crate::history;
use crate::keeping;
use crate::secrets;
use crate::settings::Snippet;
use crate::sharing;
use crate::state::Broadcast;
use crate::state::Effect;
use crate::state::Env;
use crate::state::Groups;
use crate::state::HistoryPanel;
use crate::state::KeyManager;
use crate::state::LocalKey;
use crate::state::Message;
use crate::state::NeoShell;
use crate::state::Snippets;
use crate::steps;
use crate::text;
use crate::updating;
use crate::updating::Area;

verus! {

// ---- broadcast -------------------------------------------------------------------------------------------

/// The text that is broadcast is typed into every ticked session and into no other, as a
/// line; then the dialog is closed and empty. An empty text is sent nowhere.
pub proof fn law_a_broadcast_reaches_the_ticked(before: NeoShell, env: Env, after: NeoShell, fx: Seq<Effect>)
    requires
        updating::updated(before, Message::BroadcastSendNow, env, after, fx),
    ensures
        before.broadcast.text@.len() == 0 ==> steps::asks_for(fx, Seq::empty()) && after.broadcast == before.broadcast,
        before.broadcast.text@.len() > 0 ==> !after.broadcast.show && after.broadcast.text@.len() == 0,
        before.broadcast.text@.len() > 0 ==> forall|i: int|
            0 <= i < fx.len() && !((#[trigger] fx[i]) is QueryFocus) ==> (fx[i] matches Effect::TypeQuietly(sid, data)
                && before.broadcast.selected@.contains(sid@) && data@ == (if before.broadcast.text@.last() == '\n' {
                before.broadcast.text@
            } else {
                before.broadcast.text@.push('\n')
            })),
        before.broadcast.text@.len() > 0 ==> forall|k: Seq<char>| #[trigger]
            before.broadcast.selected@.contains(k) ==> exists|i: int|
                0 <= i < fx.len() && (#[trigger] fx[i] matches Effect::TypeQuietly(sid, _) && sid@ == k),
        after.broadcast.selected == before.broadcast.selected,
{
    let (mid, first) = steps::lemma_handled(before, Message::BroadcastSendNow, env, after, fx, Area::Sharing);
    reveal(sharing::sharing_step);
    let t = before.broadcast.text@;
    if t.len() == 0 {
        assert(first =~= Seq::empty());
    } else {
        lemma_as_line(t);
        let to = first.map_values(|e: Effect| sharing::typed_quietly(e));
        assert forall|i: int| 0 <= i < first.len() implies fx[i] == first[i] by {
            if fx != first {
                assert(fx[i] == fx.drop_last()[i]);
            }
        }
        assert forall|i: int| 0 <= i < fx.len() && !((#[trigger] fx[i]) is QueryFocus) implies (
        fx[i] matches Effect::TypeQuietly(sid, data) && before.broadcast.selected@.contains(sid@) && data@ == (if t.last()
            == '\n' {
            t
        } else {
            t.push('\n')
        })) by {
            if i >= first.len() {
                assert(fx[i] == fx.last());
            } else {
                assert(fx[i] == first[i]);
                assert(sharing::types_quietly(first[i], sharing::as_line(t)));
                assert(to[i] == sharing::typed_quietly(first[i]));
                assert(to.contains(to[i]));
            }
        }
        assert forall|k: Seq<char>| #[trigger] before.broadcast.selected@.contains(k) implies exists|i: int|
            0 <= i < fx.len() && (#[trigger] fx[i] matches Effect::TypeQuietly(sid, _) && sid@ == k) by {
            assert(to.contains(k));
            let i = choose|i: int| 0 <= i < to.len() && to[i] == k;
            assert(sharing::types_quietly(first[i], sharing::as_line(t)));
            assert(fx[i] == first[i]);
        }
    }
}

proof fn lemma_as_line(t: Seq<char>)
    requires
        t.len() > 0,
    ensures
        sharing::as_line(t) == (if t.last() == '\n' {
            t
        } else {
            t.push('\n')
        }),
{
    reveal_strlit("\n");
    assert("\n"@ =~= seq!['\n']);
    let i = t.len() - 1;
    assert(t.subrange(i, i + 1) =~= seq![t[i]]);
    if t.last() == '\n' {
        assert(t.subrange(i, i + 1) =~= "\n"@);
    } else {
        if t.subrange(i, i + 1) == "\n"@ {
            assert(t.subrange(i, i + 1)[0] == '\n');
        }
        assert(t + "\n"@ =~= t.push('\n'));
    }
}

/// Ticking a session flips that one only; opening the dialog ticks the connected tabs, no
/// more and no fewer. What is typed is what will be sent, and synced typing is switched on
/// and off alone.
pub proof fn law_sessions_are_ticked_one_by_one(before: NeoShell, m: Message, env: Env, after: NeoShell, fx: Seq<Effect>)
    requires
        updating::updated(before, m, env, after, fx),
    ensures
        m matches Message::BroadcastToggleSession(sid) ==> {
            &&& after.broadcast.selected@.contains(sid@) != before.broadcast.selected@.contains(sid@)
            &&& forall|k: Seq<char>| #[trigger]
                after.broadcast.selected@.contains(k) != before.broadcast.selected@.contains(k) ==> k == sid@
        },
        m is ShowBroadcastDialog && !before.broadcast.show ==> after.broadcast.show && forall|k: Seq<char>| #[trigger]
            after.broadcast.selected@.contains(k) <==> k.len() > 0 && exists|i: int|
                0 <= i < before.sessions.tabs@.len() && (#[trigger] before.sessions.tabs@[i]).session_id@ == k,
        m is ShowBroadcastDialog && before.broadcast.show ==> !after.broadcast.show && after.broadcast.selected
            == before.broadcast.selected,
        m is HideBroadcastDialog ==> after.broadcast == (Broadcast { show: false, ..before.broadcast }),
        m matches Message::BroadcastTextChanged(v) ==> after.broadcast == (Broadcast { text: v, ..before.broadcast }),
        m is ToggleSyncInput ==> after.broadcast == (Broadcast {
            sync_on: !before.broadcast.sync_on,
            ..before.broadcast
        }),
{
    if m is BroadcastToggleSession || m is ShowBroadcastDialog || m is HideBroadcastDialog || m is BroadcastTextChanged
        || m is ToggleSyncInput {
        let (mid, first) = steps::lemma_handled(before, m, env, after, fx, Area::Sharing);
        reveal(sharing::sharing_step);
    }
}

// ---- snippets ---------------------------------------------------------------------------------------------

/// The snippet stands first in the list under its id.
pub open spec fn first_snippet(list: Seq<Snippet>, id: Seq<char>, i: int) -> bool {
    &&& 0 <= i < list.len()
    &&& list[i].id@ == id
    &&& forall|j: int| 0 <= j < i ==> (#[trigger] list[j]).id@ != id
}

proof fn lemma_first_snippet(list: Seq<Snippet>, id: Seq<char>, i: int)
    requires
        first_snippet(list, id, i),
    ensures
        sharing::snippet_with_id(list, id) == Some(i),
    decreases list.len(),
{
    let less = list.drop_last();
    if i < list.len() - 1 {
        assert(less[i] == list[i]);
        assert forall|j: int| 0 <= j < i implies (#[trigger] less[j]).id@ != id by {
            assert(less[j] == list[j]);
        }
        lemma_first_snippet(less, id, i);
    } else {
        assert forall|j: int| 0 <= j < less.len() implies (#[trigger] less[j]).id@ != id by {
            assert(less[j] == list[j]);
        }
        lemma_no_snippet(less, id);
    }
}

proof fn lemma_no_snippet(list: Seq<Snippet>, id: Seq<char>)
    requires
        forall|j: int| 0 <= j < list.len() ==> (#[trigger] list[j]).id@ != id,
    ensures
        sharing::snippet_with_id(list, id) is None,
    decreases list.len(),
{
    if list.len() > 0 {
        let less = list.drop_last();
        assert forall|j: int| 0 <= j < less.len() implies (#[trigger] less[j]).id@ != id by {
            assert(less[j] == list[j]);
        }
        lemma_no_snippet(less, id);
        assert(list[list.len() - 1].id@ != id);
    }
}

/// A snippet is typed as a line into the session of the focused pane: its own body, and not
/// its name.
pub proof fn law_a_snippet_types_its_body(
    before: NeoShell,
    id: String,
    env: Env,
    after: NeoShell,
    fx: Seq<Effect>,
    i: int,
)
    requires
        updating::updated(before, Message::SnippetSend(id), env, after, fx),
        first_snippet(before.snippets.list@, id@, i),
        before.snippets.list@[i].body@.len() > 0,
    ensures
        !after.snippets.show,
        common::focused_sid(before.sessions) matches Some(sid) ==> fx.len() > 0 && (fx[0] matches Effect::TypeQuietly(
            to,
            data,
        ) && to@ == sid && data@ == (if before.snippets.list@[i].body@.last() == '\n' {
            before.snippets.list@[i].body@
        } else {
            before.snippets.list@[i].body@.push('\n')
        })),
        common::focused_sid(before.sessions) is None ==> steps::asks_for(fx, Seq::empty()),
        after.snippets.list == before.snippets.list,
{
    let (mid, first) = steps::lemma_handled(before, Message::SnippetSend(id), env, after, fx, Area::Sharing);
    reveal(sharing::sharing_step);
    lemma_first_snippet(before.snippets.list@, id@, i);
    lemma_as_line(before.snippets.list@[i].body@);
    if first.len() == 0 {
        assert(first =~= Seq::empty());
    } else if fx != first {
        assert(fx[0] == fx.drop_last()[0]);
    }
}

/// A snippet opened for editing shows its name and its body; saved, it has those that were
/// typed, without the blanks round them, and the others stay as they are. One without a
/// name or a body is not saved.
pub proof fn law_an_edited_snippet_stays_in_place(
    before: NeoShell,
    m: Message,
    env: Env,
    after: NeoShell,
    fx: Seq<Effect>,
    id: String,
    i: int,
)
    requires
        updating::updated(before, m, env, after, fx),
        first_snippet(before.snippets.list@, id@, i),
    ensures
        m == Message::SnippetEdit(Some(id)) ==> after.snippets.name == before.snippets.list@[i].name && after.snippets.body
            == before.snippets.list@[i].body && after.snippets.edit_id == Some(id) && after.snippets.list
            == before.snippets.list,
        m is SnippetSave && before.snippets.edit_id == Some(id) && text::trim(before.snippets.name@).len() > 0 && text::trim(
            before.snippets.body@,
        ).len() > 0 ==> {
            &&& after.snippets.list@.len() == before.snippets.list@.len()
            &&& after.snippets.list@[i].id@ == id@
            &&& after.snippets.list@[i].name@ == text::trim(before.snippets.name@)
            &&& after.snippets.list@[i].body@ == text::trim(before.snippets.body@)
            &&& forall|k: int|
                0 <= k < before.snippets.list@.len() && k != i ==> #[trigger] after.snippets.list@[k]
                    == before.snippets.list@[k]
            &&& after.snippets.edit_id is None
            &&& after.snippets.name@.len() == 0
            &&& after.snippets.body@.len() == 0
            &&& steps::asks_for(fx, seq![Effect::SaveSnippets])
        },
        m is SnippetSave && (text::trim(before.snippets.name@).len() == 0 || text::trim(before.snippets.body@).len() == 0)
            ==> after.snippets == before.snippets && steps::asks_for(fx, Seq::empty()),
{
    if m is SnippetEdit || m is SnippetSave {
        let (mid, first) = steps::lemma_handled(before, m, env, after, fx, Area::Sharing);
        reveal(sharing::sharing_step);
        lemma_first_snippet(before.snippets.list@, id@, i);
        if first.len() == 0 {
            assert(first =~= Seq::empty());
        }
    }
}

/// A new snippet comes behind the others, under an id of its own; a deleted one is gone,
/// and no other.
pub proof fn law_snippets_come_and_go(before: NeoShell, m: Message, env: Env, after: NeoShell, fx: Seq<Effect>)
    requires
        updating::updated(before, m, env, after, fx),
        forall|j: int|
            0 <= j < before.snippets.list@.len() ==> (#[trigger] before.snippets.list@[j]).id@ != env.new_id@,
    ensures
        m is SnippetSave && before.snippets.edit_id is None && text::trim(before.snippets.name@).len() > 0 && text::trim(
            before.snippets.body@,
        ).len() > 0 ==> {
            let n = before.snippets.list@.len();
            &&& after.snippets.list@.len() == n + 1
            &&& after.snippets.list@.take(n as int) == before.snippets.list@
            &&& after.snippets.list@[n as int].id@ == env.new_id@
            &&& after.snippets.list@[n as int].name@ == text::trim(before.snippets.name@)
            &&& after.snippets.list@[n as int].body@ == text::trim(before.snippets.body@)
        },
        m matches Message::SnippetDelete(id) ==> forall|s: Snippet| #[trigger]
            after.snippets.list@.contains(s) <==> before.snippets.list@.contains(s) && s.id@ != id@,
        m == Message::SnippetEdit(None) ==> after.snippets.name@.len() == 0 && after.snippets.body@.len() == 0
            && after.snippets.edit_id is None,
        m matches Message::SnippetFormNameChanged(v) ==> after.snippets == (Snippets { name: v, ..before.snippets }),
        m matches Message::SnippetFormBodyChanged(v) ==> after.snippets == (Snippets { body: v, ..before.snippets }),
        m matches Message::SnippetsLoaded(list) ==> after.snippets == (Snippets { list, ..before.snippets }),
        m is HideSnippetsPanel ==> after.snippets == (Snippets { show: false, ..before.snippets }),
        m is ShowSnippetsPanel ==> after.snippets.show != before.snippets.show,
{
    if sharing::is_sharing_message(m) {
        let (mid, first) = steps::lemma_handled(before, m, env, after, fx, Area::Sharing);
        reveal(sharing::sharing_step);
        lemma_no_snippet(before.snippets.list@, env.new_id@);
        if m is SnippetSave && after.snippets.list@.len() == before.snippets.list@.len() + 1 {
            assert(after.snippets.list@.take(before.snippets.list@.len() as int) =~= after.snippets.list@.drop_last());
        }
        match m {
            Message::SnippetDelete(id) => {
                let p = |s: Snippet| s.id@ != id@;
                let l = before.snippets.list@;
                assert(after.snippets.list@ == l.filter(|s: Snippet| s.id@ != id@));
                assert forall|s: Snippet| #[trigger] after.snippets.list@.contains(s) <==> l.contains(s) && s.id@ != id@ by {
                    if after.snippets.list@.contains(s) {
                        let k = choose|k: int|
                            0 <= k < after.snippets.list@.len() && after.snippets.list@[k] == s;
                        l.lemma_filter_pred(|s: Snippet| s.id@ != id@, k);
                        l.lemma_filter_contains_rev(|s: Snippet| s.id@ != id@, s);
                    }
                    if l.contains(s) && s.id@ != id@ {
                        let k = choose|k: int| 0 <= k < l.len() && l[k] == s;
                        l.lemma_filter_contains(|s: Snippet| s.id@ != id@, k);
                    }
                }
            },
            _ => {},
        }
    }
}

// ---- keys -------------------------------------------------------------------------------------------------

/// The key pair stands first in the list under its path.
pub open spec fn first_key(list: Seq<LocalKey>, path: Seq<char>, i: int) -> bool {
    &&& 0 <= i < list.len()
    &&& list[i].path@ == path
    &&& forall|j: int| 0 <= j < i ==> (#[trigger] list[j]).path@ != path
}

proof fn lemma_first_key(list: Seq<LocalKey>, path: Seq<char>, i: int)
    requires
        first_key(list, path, i),
    ensures
        sharing::key_at(list, path) == Some(i),
    decreases list.len(),
{
    let less = list.drop_last();
    if i < list.len() - 1 {
        assert(less[i] == list[i]);
        assert forall|j: int| 0 <= j < i implies (#[trigger] less[j]).path@ != path by {
            assert(less[j] == list[j]);
        }
        lemma_first_key(less, path, i);
    } else {
        assert forall|j: int| 0 <= j < less.len() implies (#[trigger] less[j]).path@ != path by {
            assert(less[j] == list[j]);
        }
        lemma_no_key(less, path);
    }
}

proof fn lemma_no_key(list: Seq<LocalKey>, path: Seq<char>)
    requires
        forall|j: int| 0 <= j < list.len() ==> (#[trigger] list[j]).path@ != path,
    ensures
        sharing::key_at(list, path) is None,
    decreases list.len(),
{
    if list.len() > 0 {
        let less = list.drop_last();
        assert forall|j: int| 0 <= j < less.len() implies (#[trigger] less[j]).path@ != path by {
            assert(less[j] == list[j]);
        }
        lemma_no_key(less, path);
        assert(list[list.len() - 1].path@ != path);
    }
}

/// Only the public half of a key leaves: it is what is copied, and what is put on the host
/// of the connection that was picked.
pub proof fn law_only_the_public_half_leaves(
    before: NeoShell,
    m: Message,
    env: Env,
    after: NeoShell,
    fx: Seq<Effect>,
    path: String,
    conn: String,
    i: int,
)
    requires
        updating::updated(before, m, env, after, fx),
        first_key(before.keys.keys@, path@, i),
    ensures
        m == Message::KeyCopyPubkey(path) ==> steps::asks_for(fx, seq![Effect::Copy(before.keys.keys@[i].pubkey)]),
        m == Message::KeyDeployTo(path, conn) ==> steps::asks_for(
            fx,
            seq![Effect::DeployKey(before.keys.keys@[i].pubkey, conn)],
        ) && after.keys.deploying is None,
{
    if m == Message::KeyCopyPubkey(path) || m == Message::KeyDeployTo(path, conn) {
        let (mid, first) = steps::lemma_handled(before, m, env, after, fx, Area::Key);
        reveal(sharing::key_step);
        lemma_first_key(before.keys.keys@, path@, i);
    }
}

/// A key is made under the name and with the comment that were typed, and under the usual
/// name where none was; the keys that are listed are those that are there.
pub proof fn law_a_key_is_made_as_named(before: NeoShell, m: Message, env: Env, after: NeoShell, fx: Seq<Effect>)
    requires
        updating::updated(before, m, env, after, fx),
    ensures
        m is KeyGenerate ==> fx.len() > 0 && (fx[0] matches Effect::GenerateKey(name, comment) && name@ == (if text::trim(
            before.keys.name@,
        ).len() == 0 {
            "id_ed25519_neoshell"@
        } else {
            text::trim(before.keys.name@)
        }) && comment@ == text::trim(before.keys.comment@)),
        m matches Message::KeyGenerated(Ok(list)) ==> after.keys.keys == list && after.keys.name@.len() == 0
            && after.keys.comment@.len() == 0,
        m matches Message::KeyGenerated(Err(e)) ==> after.keys.keys == before.keys.keys && after.keys.name
            == before.keys.name,
        m matches Message::KeysListed(list) ==> after.keys == (KeyManager { keys: list, ..before.keys }),
        m matches Message::KeyFormNameChanged(v) ==> after.keys == (KeyManager { name: v, ..before.keys }),
        m matches Message::KeyFormCommentChanged(v) ==> after.keys == (KeyManager { comment: v, ..before.keys }),
        m matches Message::KeyDeployStart(path) ==> after.keys.deploying == Some(path),
        m is KeyDeployCancel ==> after.keys == (KeyManager { deploying: None, ..before.keys }),
        m is HideKeyManager ==> after.keys == (KeyManager { show: false, deploying: None, ..before.keys }),
        m is ShowKeyManager ==> after.keys.show != before.keys.show,
        m matches Message::KeyDeployDone(Ok(host)) ==> secrets::opt_view(after.keys.status) == Some(
            env.texts.says("keys.deploy_ok"@) + seq![' '] + host@,
        ),
{
    if sharing::is_key_message(m) {
        let (mid, first) = steps::lemma_handled(before, m, env, after, fx, Area::Key);
        reveal(sharing::key_step);
        reveal_strlit(" ");
        assert(" "@ =~= seq![' ']);
        if first.len() > 0 && fx != first {
            assert(fx[0] == fx.drop_last()[0]);
        }
    }
}

// ---- history and folded groups --------------------------------------------------------------------------------

/// Clearing the history leaves no record, here or on its way from the disk, and has the
/// disk's overwritten while the vault is open; the filter shows and hides, and deletes
/// nothing.
pub proof fn law_a_cleared_history_is_empty(before: NeoShell, m: Message, env: Env, after: NeoShell, fx: Seq<Effect>)
    requires
        updating::updated(before, m, env, after, fx),
    ensures
        m is ClearHistory ==> after.history.records@.len() == 0 && (after.history.sync.pending_load matches Some(p)
            ==> p.cleared),
        m is ClearHistory && env.unlocked ==> fx.len() > 0 && (fx[0] matches Effect::WriteHistory(n, records, over, legacy)
            && records@.len() == 0 && over && legacy),
        m is ClearHistory && !env.unlocked ==> steps::asks_for(fx, Seq::empty()),
        m matches Message::HistoryFilterChanged(v) ==> after.history == (HistoryPanel { filter: v, ..before.history }),
        m is ShowHistory ==> after.history.show != before.history.show && after.history.records
            == before.history.records,
        m is HideHistory ==> !after.history.show && after.history.records == before.history.records,
{
    if m is ClearHistory || m is HistoryFilterChanged || m is ShowHistory || m is HideHistory {
        let (mid, first) = steps::lemma_handled(before, m, env, after, fx, Area::Kept);
        reveal(keeping::kept_step);
        if m is ClearHistory {
            let s = updating::noted(before, m, env.now);
            let panel = choose|panel: HistoryPanel| #[trigger]
                keeping::history_cleared_via(s, env, panel, mid, first);
            if first.len() == 0 {
                assert(first =~= Seq::empty());
            } else if fx != first {
                assert(fx[0] == fx.drop_last()[0]);
            }
        }
    }
}

/// Folding a group flips that group only and leaves the change to be saved; folding all
/// folds every group that has a connection, and unfolding all leaves none folded.
pub proof fn law_groups_fold_by_name(before: NeoShell, m: Message, env: Env, after: NeoShell, fx: Seq<Effect>)
    requires
        updating::updated(before, m, env, after, fx),
    ensures
        m matches Message::ToggleGroupCollapsed(g) ==> {
            &&& after.groups.collapsed@.contains(g@) != before.groups.collapsed@.contains(g@)
            &&& forall|k: Seq<char>| #[trigger]
                after.groups.collapsed@.contains(k) != before.groups.collapsed@.contains(k) ==> k == g@
        },
        m == Message::SetAllGroupsCollapsed(true) ==> forall|i: int|
            0 <= i < before.sessions.connections@.len() ==> after.groups.collapsed@.contains(
                (#[trigger] before.sessions.connections@[i]).group@,
            ),
        m == Message::SetAllGroupsCollapsed(false) ==> forall|k: Seq<char>| !(#[trigger] after.groups.collapsed@.contains(k)),
        m is ToggleGroupCollapsed || m is SetAllGroupsCollapsed ==> after.groups.dirty && steps::asks_for(
            fx,
            seq![Effect::ScheduleGroupsSave(after.groups.generation)],
        ) && after.sessions == before.sessions,
{
    if m is ToggleGroupCollapsed || m is SetAllGroupsCollapsed {
        let (mid, first) = steps::lemma_handled(before, m, env, after, fx, Area::Kept);
        reveal(keeping::kept_step);
        let s = updating::noted(before, m, env.now);
        match m {
            Message::ToggleGroupCollapsed(g) => {
                let set = choose|set: Groups| #[trigger] keeping::group_folded_via(s, g@, set, mid, first);
                assert(after.groups.collapsed == set.collapsed);
            },
            Message::SetAllGroupsCollapsed(fold) => {
                let set = choose|set: Groups| #[trigger] keeping::all_folded_via(s, fold, set, mid, first);
                assert(after.groups.collapsed == set.collapsed);
                assert forall|i: int| fold && 0 <= i < before.sessions.connections@.len() implies
                    after.groups.collapsed@.contains((#[trigger] before.sessions.connections@[i]).group@) by {
                    let g = before.sessions.connections@[i].group@;
                    assert(keeping::has_members(s.sessions.connections@, g));
                    assert(set.collapsed@.contains(g) <==> fold && (s.groups.collapsed@.contains(g)
                        || keeping::has_members(s.sessions.connections@, g)));
                }
            },
            _ => {},
        }
    }
}

/// A paced write holds the newest records and no more than are kept, and is made only
/// where there is something new, the old ones are known and the vault is open.
pub proof fn law_a_flush_writes_what_is_there(before: NeoShell, env: Env, after: NeoShell, fx: Seq<Effect>)
    requires
        updating::updated(before, Message::FlushHistory, env, after, fx),
        before.history.records@.len() <= 500,
    ensures
        before.history.sync.dirty && before.history.sync.loaded && before.history.sync.flushed_at is None && env.unlocked
            ==> fx.len() > 0 && (fx[0] matches Effect::WriteHistory(n, records, over, legacy) && records@
            == before.history.records@ && !over && !legacy) && !after.history.sync.dirty,
        !before.history.sync.dirty || !before.history.sync.loaded || !env.unlocked ==> steps::asks_for(fx, Seq::empty()),
        after.history.records == before.history.records,
{
    let (mid, first) = steps::lemma_handled(before, Message::FlushHistory, env, after, fx, Area::Kept);
    reveal(keeping::kept_step);
    assert(history::newest(before.history.records@, history::HISTORY_MAX as int) =~= before.history.records@);
    if first.len() == 0 {
        assert(first =~= Seq::empty());
    } else if fx != first {
        assert(fx[0] == fx.drop_last()[0]);
    }
}

} // verus!
