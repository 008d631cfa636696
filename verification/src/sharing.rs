//! Text for several sessions: broadcasts and snippets. And the key pairs that
//! are put on hosts.

use vstd::prelude::*;
use vstd::string::*;

use crate::common;
use crate::forms;
use crate::names;
use crate::names::NameSet;
use crate::secrets;
use crate::settings::Snippet;
use crate::state::Broadcast;
use crate::state::Effect;
use crate::state::Env;
use crate::state::KeyManager;
use crate::state::LocalKey;
use crate::state::Message;
use crate::state::NeoShell;
use crate::state::Snippets;
use crate::tabs::TerminalTab;
use crate::text;

verus! {

// ---- broadcasts -----------------------------------------------------------------------------------------

/// The session is the main one of a connected tab.
pub open spec fn is_live(tabs: Seq<TerminalTab>, sid: Seq<char>) -> bool {
    sid.len() > 0 && exists|i: int| 0 <= i < tabs.len() && (#[trigger] tabs[i]).session_id@ == sid
}

fn live_sessions(tabs: &Vec<TerminalTab>) -> (out: Vec<String>)
    ensures
        forall|k: Seq<char>| #[trigger] names::in_list(out@, k) <==> is_live(tabs@, k),
{
    let mut out: Vec<String> = Vec::new();
    let mut i: usize = 0;
    while i < tabs.len()
        invariant
            i <= tabs.len(),
            forall|j: int|
                0 <= j < out@.len() ==> (#[trigger] out@[j])@.len() > 0 && exists|k: int|
                    0 <= k < i && (#[trigger] tabs@[k]).session_id@ == out@[j]@,
            forall|k: int|
                0 <= k < i && (#[trigger] tabs@[k]).session_id@.len() > 0 ==> names::in_list(
                    out@,
                    tabs@[k].session_id@,
                ),
        decreases tabs.len() - i,
    {
        let ghost before = out@;
        if !forms::is_empty_text(tabs[i].session_id.as_str()) {
            out.push(tabs[i].session_id.clone());
            proof {
                assert(out@[out@.len() - 1]@ == tabs@[i as int].session_id@);
                assert forall|k: int|
                    0 <= k < i + 1 && (#[trigger] tabs@[k]).session_id@.len() > 0 implies names::in_list(
                    out@,
                    tabs@[k].session_id@,
                ) by {
                    if k < i {
                        let j = choose|j: int|
                            0 <= j < before.len() && (#[trigger] before[j])@ == tabs@[k].session_id@;
                        assert(out@[j] == before[j]);
                    }
                }
                assert forall|j: int| 0 <= j < out@.len() implies (#[trigger] out@[j])@.len() > 0 && exists|k: int|
                    0 <= k < i + 1 && (#[trigger] tabs@[k]).session_id@ == out@[j]@ by {
                    if j < before.len() {
                        assert(out@[j] == before[j]);
                    }
                }
            }
        }
        i += 1;
    }
    assert forall|k: Seq<char>| #[trigger] names::in_list(out@, k) <==> is_live(tabs@, k) by {
        if names::in_list(out@, k) {
            let j = choose|j: int| 0 <= j < out@.len() && (#[trigger] out@[j])@ == k;
            let w = choose|w: int| 0 <= w < tabs@.len() && (#[trigger] tabs@[w]).session_id@ == out@[j]@;
            assert(tabs@[w].session_id@ == k);
        }
        if is_live(tabs@, k) {
            let w = choose|w: int| 0 <= w < tabs@.len() && (#[trigger] tabs@[w]).session_id@ == k;
            assert(names::in_list(out@, tabs@[w].session_id@));
        }
    }
    out
}

pub open spec fn broadcast_toggled(before: NeoShell, after: NeoShell) -> bool {
    &&& if before.broadcast.show {
        after.broadcast == (Broadcast { show: false, ..before.broadcast })
    } else {
        &&& forall|k: Seq<char>| #[trigger]
            after.broadcast.selected@.contains(k) <==> is_live(before.sessions.tabs@, k)
        &&& after.broadcast == (Broadcast { show: true, selected: after.broadcast.selected, ..before.broadcast })
    }
    &&& after == (NeoShell { broadcast: after.broadcast, ..before })
}

/// Open the broadcast dialog with every connected session ticked, or close it.
pub fn on_show_broadcast_dialog(state: &mut NeoShell)
    ensures
        broadcast_toggled(*old(state), *final(state)),
{
    state.broadcast.show = !state.broadcast.show;
    if state.broadcast.show {
        state.broadcast.selected = NameSet::of(live_sessions(&state.sessions.tabs));
    }
}

pub open spec fn session_ticked(before: NeoShell, sid: Seq<char>, after: NeoShell) -> bool {
    &&& after.broadcast.selected@ == (if before.broadcast.selected@.contains(sid) {
        before.broadcast.selected@.remove(sid)
    } else {
        before.broadcast.selected@.insert(sid)
    })
    &&& after == (NeoShell {
        broadcast: Broadcast { selected: after.broadcast.selected, ..before.broadcast },
        ..before
    })
}

pub fn on_broadcast_toggle_session(state: &mut NeoShell, sid: String)
    ensures
        session_ticked(*old(state), sid@, *final(state)),
{
    if !state.broadcast.selected.remove(sid.as_str()) {
        let _new = state.broadcast.selected.insert(sid);
        assert(state.broadcast.selected@ =~= old(state).broadcast.selected@.insert(sid@));
    }
}

/// The text with a line end behind it, so that the server actually runs it.
pub open spec fn as_line(t: Seq<char>) -> Seq<char> {
    if text::ends_with(t, "\n"@) {
        t
    } else {
        t + "\n"@
    }
}

fn line_of(t: &str) -> (r: String)
    ensures
        r@ == as_line(t@),
{
    if text::text_ends_with(t, "\n") {
        t.to_owned()
    } else {
        text::concat(t, "\n")
    }
}

pub open spec fn typed_quietly(e: Effect) -> Seq<char> {
    match e {
        Effect::TypeQuietly(s, _) => s@,
        _ => Seq::empty(),
    }
}

pub open spec fn types_quietly(e: Effect, data: Seq<char>) -> bool {
    match e {
        Effect::TypeQuietly(_, d) => d@ == data,
        _ => false,
    }
}

/// The text goes once to each of the sessions, and to no other.
pub open spec fn goes_to_all(fx: Seq<Effect>, sessions: Set<Seq<char>>, data: Seq<char>) -> bool {
    let to = fx.map_values(|e: Effect| typed_quietly(e));
    &&& forall|i: int| 0 <= i < fx.len() ==> types_quietly(#[trigger] fx[i], data)
    &&& forall|k: Seq<char>| #[trigger] to.contains(k) <==> sessions.contains(k)
    &&& to.no_duplicates()
}

pub open spec fn broadcast_sent(before: NeoShell, after: NeoShell, fx: Seq<Effect>) -> bool {
    if before.broadcast.text@.len() == 0 {
        after == before && fx.len() == 0
    } else {
        &&& after.broadcast.text@.len() == 0
        &&& after == (NeoShell {
            broadcast: Broadcast { show: false, text: after.broadcast.text, ..before.broadcast },
            ..before
        })
        &&& goes_to_all(fx, before.broadcast.selected@, as_line(before.broadcast.text@))
    }
}

/// Type the broadcast into every ticked session.
pub fn on_broadcast_send_now(state: &mut NeoShell) -> (fx: Vec<Effect>)
    ensures
        broadcast_sent(*old(state), *final(state), fx@),
{
    if forms::is_empty_text(state.broadcast.text.as_str()) {
        return common::nothing();
    }
    let line = line_of(state.broadcast.text.as_str());
    let list = state.broadcast.selected.names();
    let mut fx: Vec<Effect> = Vec::new();
    let mut i: usize = 0;
    while i < list.len()
        invariant
            i <= list.len(),
            fx@.len() == i,
            forall|k: int|
                0 <= k < i ==> types_quietly(#[trigger] fx@[k], line@) && typed_quietly(fx@[k]) == list@[k]@,
        decreases list.len() - i,
    {
        fx.push(Effect::TypeQuietly(list[i].clone(), line.clone()));
        i += 1;
    }
    state.broadcast.text = String::new();
    state.broadcast.show = false;
    proof {
        let to = fx@.map_values(|e: Effect| typed_quietly(e));
        let set = old(state).broadcast.selected@;
        assert forall|k: Seq<char>| #[trigger] to.contains(k) <==> set.contains(k) by {
            assert(names::in_list(list@, k) <==> set.contains(k));
            if to.contains(k) {
                let j = choose|j: int| 0 <= j < to.len() && to[j] == k;
                assert(list@[j]@ == k);
            }
            if names::in_list(list@, k) {
                let j = choose|j: int| 0 <= j < list@.len() && (#[trigger] list@[j])@ == k;
                assert(to[j] == k);
            }
        }
        assert forall|a: int, b: int| 0 <= a < to.len() && 0 <= b < to.len() && a != b implies to[a] != to[b] by {
            if a < b {
                assert(list@[a]@ != list@[b]@);
            } else {
                assert(list@[b]@ != list@[a]@);
            }
        }
    }
    fx
}

// ---- snippets -------------------------------------------------------------------------------------------

/// The place of the first snippet with the id.
pub open spec fn snippet_with_id(list: Seq<Snippet>, id: Seq<char>) -> Option<int>
    decreases list.len(),
{
    if list.len() == 0 {
        None
    } else {
        match snippet_with_id(list.drop_last(), id) {
            Some(i) => Some(i),
            None => if list.last().id@ == id {
                Some(list.len() - 1)
            } else {
                None
            },
        }
    }
}

pub fn find_snippet(list: &Vec<Snippet>, id: &str) -> (r: Option<usize>)
    ensures
        match r {
            Some(i) => i < list@.len() && snippet_with_id(list@, id@) == Some(i as int),
            None => snippet_with_id(list@, id@) is None,
        },
{
    let mut i: usize = 0;
    let mut found: Option<usize> = None;
    while i < list.len()
        invariant
            i <= list.len(),
            match found {
                Some(k) => k < i && snippet_with_id(list@.take(i as int), id@) == Some(k as int),
                None => snippet_with_id(list@.take(i as int), id@) is None,
            },
        decreases list.len() - i,
    {
        assert(list@.take(i + 1).drop_last() =~= list@.take(i as int));
        if found.is_none() && text::same_text(list[i].id.as_str(), id) {
            found = Some(i);
        }
        i += 1;
    }
    assert(list@.take(list@.len() as int) =~= list@);
    found
}

pub open spec fn snippets_only(before: NeoShell, after: NeoShell) -> bool {
    after == (NeoShell { snippets: after.snippets, ..before })
}

/// The snippet form is blank, and edits nothing.
pub open spec fn form_blank(before: Snippets, after: Snippets) -> bool {
    &&& after.name@.len() == 0
    &&& after.body@.len() == 0
    &&& after == (Snippets {
        show: after.show,
        list: after.list,
        edit_id: None,
        name: after.name,
        body: after.body,
        ..before
    })
}

pub open spec fn snippets_toggled(before: NeoShell, after: NeoShell, fx: Seq<Effect>) -> bool {
    &&& snippets_only(before, after)
    &&& if before.snippets.show {
        after.snippets == (Snippets { show: false, ..before.snippets }) && fx.len() == 0
    } else {
        &&& form_blank(before.snippets, after.snippets)
        &&& after.snippets.show
        &&& after.snippets.list == before.snippets.list
        &&& fx == seq![Effect::LoadSnippets]
    }
}

/// Open the snippets, read anew, or close them.
pub fn on_show_snippets_panel(state: &mut NeoShell) -> (fx: Vec<Effect>)
    ensures
        snippets_toggled(*old(state), *final(state), fx@),
{
    state.snippets.show = !state.snippets.show;
    if !state.snippets.show {
        return common::nothing();
    }
    state.snippets.edit_id = None;
    state.snippets.name = String::new();
    state.snippets.body = String::new();
    common::one(Effect::LoadSnippets)
}

pub open spec fn snippet_sent(before: NeoShell, id: Seq<char>, after: NeoShell, fx: Seq<Effect>) -> bool {
    match snippet_with_id(before.snippets.list@, id) {
        Some(i) => {
            &&& after == (NeoShell { snippets: Snippets { show: false, ..before.snippets }, ..before })
            &&& match common::focused_sid(before.sessions) {
                Some(sid) => fx.len() == 1 && types_quietly(fx[0], as_line(before.snippets.list@[i].body@))
                    && typed_quietly(fx[0]) == sid,
                None => fx.len() == 0,
            }
        },
        None => after == before && fx.len() == 0,
    }
}

/// Type a snippet into the focused pane.
pub fn on_snippet_send(state: &mut NeoShell, id: String) -> (fx: Vec<Effect>)
    ensures
        snippet_sent(*old(state), id@, *final(state), fx@),
{
    match find_snippet(&state.snippets.list, id.as_str()) {
        Some(i) => {
            let fx = match state.sessions.focused_session_id() {
                Some(sid) => common::one(
                    Effect::TypeQuietly(sid, line_of(state.snippets.list[i].body.as_str())),
                ),
                None => common::nothing(),
            };
            state.snippets.show = false;
            fx
        },
        None => common::nothing(),
    }
}

pub open spec fn snippet_opened(before: NeoShell, id: Option<String>, after: NeoShell) -> bool {
    &&& snippets_only(before, after)
    &&& after.snippets == (Snippets {
        edit_id: id,
        name: after.snippets.name,
        body: after.snippets.body,
        ..before.snippets
    })
    &&& match id {
        Some(id) => match snippet_with_id(before.snippets.list@, id@) {
            Some(i) => after.snippets.name == before.snippets.list@[i].name && after.snippets.body
                == before.snippets.list@[i].body,
            None => after.snippets.name == before.snippets.name && after.snippets.body == before.snippets.body,
        },
        None => after.snippets.name@.len() == 0 && after.snippets.body@.len() == 0,
    }
}

/// Fill the snippet form, or blank it for a new one.
pub fn on_snippet_edit(state: &mut NeoShell, id: Option<String>)
    ensures
        snippet_opened(*old(state), id, *final(state)),
{
    match &id {
        Some(id) => match find_snippet(&state.snippets.list, id.as_str()) {
            Some(i) => {
                state.snippets.name = state.snippets.list[i].name.clone();
                state.snippets.body = state.snippets.list[i].body.clone();
            },
            None => {},
        },
        None => {
            state.snippets.name = String::new();
            state.snippets.body = String::new();
        },
    }
    state.snippets.edit_id = id;
}

pub open spec fn is_snippet(s: Snippet, id: Seq<char>, name: Seq<char>, body: Seq<char>) -> bool {
    s.id@ == id && s.name@ == name && s.body@ == body
}

/// `after` is `before` with the snippet of the id changed, or added at the end.
pub open spec fn snippet_stored(
    before: Seq<Snippet>,
    id: Seq<char>,
    name: Seq<char>,
    body: Seq<char>,
    after: Seq<Snippet>,
) -> bool {
    match snippet_with_id(before, id) {
        Some(i) => is_snippet(after[i], id, name, body) && after == before.update(i, after[i]),
        None => after.len() == before.len() + 1 && after.drop_last() == before && is_snippet(
            after.last(),
            id,
            name,
            body,
        ),
    }
}

pub open spec fn snippet_id(s: Snippets, env: Env) -> Seq<char> {
    match s.edit_id {
        Some(id) => id@,
        None => env.new_id@,
    }
}

pub open spec fn snippet_saved(before: NeoShell, env: Env, after: NeoShell, fx: Seq<Effect>) -> bool {
    let name = text::trim(before.snippets.name@);
    let body = text::trim(before.snippets.body@);
    if name.len() == 0 || body.len() == 0 {
        after == before && fx.len() == 0
    } else {
        &&& snippets_only(before, after)
        &&& form_blank(before.snippets, after.snippets)
        &&& after.snippets.show == before.snippets.show
        &&& snippet_stored(
            before.snippets.list@,
            snippet_id(before.snippets, env),
            name,
            body,
            after.snippets.list@,
        )
        &&& fx == seq![Effect::SaveSnippets]
    }
}

proof fn lemma_snippet_found(list: Seq<Snippet>, id: Seq<char>)
    ensures
        snippet_with_id(list, id) matches Some(i) ==> 0 <= i < list.len() && list[i].id@ == id,
    decreases list.len(),
{
    if list.len() > 0 {
        lemma_snippet_found(list.drop_last(), id);
    }
}

/// Save the snippet form; nothing without a name and a body.
pub fn on_snippet_save(state: &mut NeoShell, env: &Env) -> (fx: Vec<Effect>)
    ensures
        snippet_saved(*old(state), *env, *final(state), fx@),
{
    let name = text::trim_text(state.snippets.name.as_str());
    let body = text::trim_text(state.snippets.body.as_str());
    if forms::is_empty_text(name.as_str()) || forms::is_empty_text(body.as_str()) {
        return common::nothing();
    }
    let id = match &state.snippets.edit_id {
        Some(id) => id.clone(),
        None => env.new_id.clone(),
    };
    proof {
        lemma_snippet_found(state.snippets.list@, id@);
    }
    match find_snippet(&state.snippets.list, id.as_str()) {
        Some(i) => {
            state.snippets.list[i].name = name;
            state.snippets.list[i].body = body;
            assert(state.snippets.list@ =~= old(state).snippets.list@.update(
                i as int,
                state.snippets.list@[i as int],
            ));
        },
        None => {
            state.snippets.list.push(Snippet { id, name, body });
            assert(state.snippets.list@.drop_last() =~= old(state).snippets.list@);
        },
    }
    state.snippets.edit_id = None;
    state.snippets.name = String::new();
    state.snippets.body = String::new();
    common::one(Effect::SaveSnippets)
}

pub open spec fn snippet_deleted(before: NeoShell, id: Seq<char>, after: NeoShell, fx: Seq<Effect>) -> bool {
    &&& after.snippets.list@ == before.snippets.list@.filter(|s: Snippet| s.id@ != id)
    &&& after.snippets == (Snippets { list: after.snippets.list, ..before.snippets })
    &&& snippets_only(before, after)
    &&& fx == seq![Effect::SaveSnippets]
}

/// Delete a snippet.
pub fn on_snippet_delete(state: &mut NeoShell, id: String) -> (fx: Vec<Effect>)
    ensures
        snippet_deleted(*old(state), id@, *final(state), fx@),
{
    let ghost all = state.snippets.list@;
    let ghost keep = |s: Snippet| s.id@ != id@;
    let mut list: Vec<Snippet> = Vec::new();
    std::mem::swap(&mut list, &mut state.snippets.list);
    let mut kept: Vec<Snippet> = Vec::new();
    assert(all.take(0).filter(keep) =~= Seq::<Snippet>::empty()) by {
        reveal(Seq::filter);
    }
    for s in it: list
        invariant
            it.seq() == all,
            keep == (|s: Snippet| s.id@ != id@),
            kept@ =~= all.take(it.index() as int).filter(keep),
    {
        proof {
            let i = it.index() as int;
            all.take(i).lemma_filter_push(s, keep);
            assert(all.take(i + 1) =~= all.take(i).push(s));
        }
        if !text::same_text(s.id.as_str(), id.as_str()) {
            kept.push(s);
        }
    }
    assert(all.take(all.len() as int) =~= all);
    state.snippets.list = kept;
    common::one(Effect::SaveSnippets)
}

/// A snippet that was saved is sent as it was typed, without the blanks round
/// it.
pub proof fn law_a_saved_snippet_is_found(
    before: Seq<Snippet>,
    id: Seq<char>,
    name: Seq<char>,
    body: Seq<char>,
    after: Seq<Snippet>,
)
    requires
        snippet_stored(before, id, name, body, after),
    ensures
        snippet_with_id(after, id) matches Some(i) && is_snippet(after[i], id, name, body),
{
    lemma_snippet_found(before, id);
    match snippet_with_id(before, id) {
        Some(i) => {
            lemma_still_first(before, after, id, i);
        },
        None => {
            assert(after.last().id@ == id);
        },
    }
}

proof fn lemma_still_first(before: Seq<Snippet>, after: Seq<Snippet>, id: Seq<char>, i: int)
    requires
        snippet_with_id(before, id) == Some(i),
        0 <= i < before.len(),
        after.len() == before.len(),
        forall|k: int| 0 <= k < before.len() ==> (#[trigger] after[k]).id@ == before[k].id@,
    ensures
        snippet_with_id(after, id) == Some(i),
    decreases before.len(),
{
    let a = after.drop_last();
    let b = before.drop_last();
    assert forall|k: int| 0 <= k < b.len() implies (#[trigger] a[k]).id@ == b[k].id@ by {
        assert(after[k].id@ == before[k].id@);
    }
    assert(after[before.len() - 1].id@ == before[before.len() - 1].id@);
    match snippet_with_id(b, id) {
        Some(j) => {
            lemma_snippet_found(b, id);
            lemma_still_first(b, a, id, j);
        },
        None => {
            lemma_none_still(b, a, id);
        },
    }
}

proof fn lemma_none_still(before: Seq<Snippet>, after: Seq<Snippet>, id: Seq<char>)
    requires
        snippet_with_id(before, id) is None,
        after.len() == before.len(),
        forall|k: int| 0 <= k < before.len() ==> (#[trigger] after[k]).id@ == before[k].id@,
    ensures
        snippet_with_id(after, id) is None,
    decreases before.len(),
{
    if before.len() > 0 {
        let a = after.drop_last();
        let b = before.drop_last();
        assert forall|k: int| 0 <= k < b.len() implies (#[trigger] a[k]).id@ == b[k].id@ by {
            assert(after[k].id@ == before[k].id@);
        }
        assert(after[before.len() - 1].id@ == before[before.len() - 1].id@);
        lemma_none_still(b, a, id);
    }
}

// ---- key pairs ------------------------------------------------------------------------------------------

/// The place of the first key pair at the path.
pub open spec fn key_at(list: Seq<LocalKey>, path: Seq<char>) -> Option<int>
    decreases list.len(),
{
    if list.len() == 0 {
        None
    } else {
        match key_at(list.drop_last(), path) {
            Some(i) => Some(i),
            None => if list.last().path@ == path {
                Some(list.len() - 1)
            } else {
                None
            },
        }
    }
}

fn find_key(list: &Vec<LocalKey>, path: &str) -> (r: Option<usize>)
    ensures
        match r {
            Some(i) => i < list@.len() && key_at(list@, path@) == Some(i as int),
            None => key_at(list@, path@) is None,
        },
{
    let mut i: usize = 0;
    let mut found: Option<usize> = None;
    while i < list.len()
        invariant
            i <= list.len(),
            match found {
                Some(k) => k < i && key_at(list@.take(i as int), path@) == Some(k as int),
                None => key_at(list@.take(i as int), path@) is None,
            },
        decreases list.len() - i,
    {
        assert(list@.take(i + 1).drop_last() =~= list@.take(i as int));
        if found.is_none() && text::same_text(list[i].path.as_str(), path) {
            found = Some(i);
        }
        i += 1;
    }
    assert(list@.take(list@.len() as int) =~= list@);
    found
}

pub open spec fn keys_only(before: NeoShell, after: NeoShell) -> bool {
    after == (NeoShell { keys: after.keys, ..before })
}

pub open spec fn keys_toggled(before: NeoShell, after: NeoShell, fx: Seq<Effect>) -> bool {
    &&& keys_only(before, after)
    &&& if before.keys.show {
        after.keys == (KeyManager { show: false, deploying: None, ..before.keys }) && fx.len() == 0
    } else {
        after.keys == (KeyManager { show: true, status: None, ..before.keys }) && fx == seq![
            Effect::ListKeys,
            Effect::Then(Message::LoadConnections),
        ]
    }
}

/// Open the key manager, with the keys read anew, or close it.
pub fn on_show_key_manager(state: &mut NeoShell) -> (fx: Vec<Effect>)
    ensures
        keys_toggled(*old(state), *final(state), fx@),
{
    if state.keys.show {
        state.keys.show = false;
        state.keys.deploying = None;
        return common::nothing();
    }
    state.keys.show = true;
    state.keys.status = None;
    let mut fx = common::one(Effect::ListKeys);
    fx.push(Effect::Then(Message::LoadConnections));
    assert(fx@ =~= seq![Effect::ListKeys, Effect::Then(Message::LoadConnections)]);
    fx
}

/// The name of a new key pair: as typed, or the usual one.
pub open spec fn key_name(typed: Seq<char>) -> Seq<char> {
    if text::trim(typed).len() == 0 {
        "id_ed25519_neoshell"@
    } else {
        text::trim(typed)
    }
}

pub open spec fn key_asked(s: NeoShell, fx: Seq<Effect>) -> bool {
    fx.len() == 1 && (fx[0] matches Effect::GenerateKey(name, comment) && name@ == key_name(s.keys.name@)
        && comment@ == text::trim(s.keys.comment@))
}

/// Make a key pair.
pub fn on_key_generate(s: &NeoShell) -> (fx: Vec<Effect>)
    ensures
        key_asked(*s, fx@),
{
    let name = text::trim_text(s.keys.name.as_str());
    let name = if forms::is_empty_text(name.as_str()) {
        "id_ed25519_neoshell".to_owned()
    } else {
        name
    };
    let comment = text::trim_text(s.keys.comment.as_str());
    common::one(Effect::GenerateKey(name, comment))
}

pub open spec fn failure_mark(e: Seq<char>) -> Seq<char> {
    "✗ "@ + e
}

pub open spec fn key_made(before: NeoShell, result: Result<Vec<LocalKey>, String>, env: Env, after: NeoShell) -> bool {
    &&& keys_only(before, after)
    &&& match result {
        Ok(list) => {
            &&& after.keys.name@.len() == 0
            &&& after.keys.comment@.len() == 0
            &&& secrets::opt_view(after.keys.status) == Some(env.texts.says("keys.generated"@))
            &&& after.keys == (KeyManager {
                name: after.keys.name,
                comment: after.keys.comment,
                keys: list,
                status: after.keys.status,
                ..before.keys
            })
        },
        Err(e) => {
            &&& secrets::opt_view(after.keys.status) == Some(failure_mark(e@))
            &&& after.keys == (KeyManager { status: after.keys.status, ..before.keys })
        },
    }
}

pub fn on_key_generated(state: &mut NeoShell, result: Result<Vec<LocalKey>, String>, env: &Env)
    ensures
        key_made(*old(state), result, *env, *final(state)),
{
    match result {
        Ok(list) => {
            state.keys.name = String::new();
            state.keys.comment = String::new();
            state.keys.keys = list;
            state.keys.status = Some(env.texts.t("keys.generated"));
        },
        Err(e) => {
            state.keys.status = Some(text::concat("✗ ", e.as_str()));
        },
    }
}

pub open spec fn key_copied(before: NeoShell, path: Seq<char>, env: Env, after: NeoShell, fx: Seq<Effect>) -> bool {
    match key_at(before.keys.keys@, path) {
        Some(i) => {
            &&& secrets::opt_view(after.keys.status) == Some(env.texts.says("keys.copied"@))
            &&& after.keys == (KeyManager { status: after.keys.status, ..before.keys })
            &&& keys_only(before, after)
            &&& fx == seq![Effect::Copy(before.keys.keys@[i].pubkey)]
        },
        None => after == before && fx.len() == 0,
    }
}

/// Put the public half of a key on the clipboard.
pub fn on_key_copy_pubkey(state: &mut NeoShell, path: String, env: &Env) -> (fx: Vec<Effect>)
    ensures
        key_copied(*old(state), path@, *env, *final(state), fx@),
{
    match find_key(&state.keys.keys, path.as_str()) {
        Some(i) => {
            let pubkey = state.keys.keys[i].pubkey.clone();
            state.keys.status = Some(env.texts.t("keys.copied"));
            common::one(Effect::Copy(pubkey))
        },
        None => common::nothing(),
    }
}

pub open spec fn key_sent(
    before: NeoShell,
    path: Seq<char>,
    conn_id: String,
    env: Env,
    after: NeoShell,
    fx: Seq<Effect>,
) -> bool {
    match key_at(before.keys.keys@, path) {
        Some(i) => {
            &&& secrets::opt_view(after.keys.status) == Some(env.texts.says("keys.deploying"@))
            &&& after.keys == (KeyManager { deploying: None, status: after.keys.status, ..before.keys })
            &&& keys_only(before, after)
            &&& fx == seq![Effect::DeployKey(before.keys.keys@[i].pubkey, conn_id)]
        },
        None => after == before && fx.len() == 0,
    }
}

/// Put the public half of a key on the host of a connection.
pub fn on_key_deploy_to(state: &mut NeoShell, path: String, conn_id: String, env: &Env) -> (fx: Vec<Effect>)
    ensures
        key_sent(*old(state), path@, conn_id, *env, *final(state), fx@),
{
    match find_key(&state.keys.keys, path.as_str()) {
        Some(i) => {
            let pubkey = state.keys.keys[i].pubkey.clone();
            state.keys.deploying = None;
            state.keys.status = Some(env.texts.t("keys.deploying"));
            common::one(Effect::DeployKey(pubkey, conn_id))
        },
        None => common::nothing(),
    }
}

pub open spec fn key_arrived(before: NeoShell, result: Result<String, String>, env: Env, after: NeoShell) -> bool {
    &&& secrets::opt_view(after.keys.status) == Some(
        match result {
            Ok(host) => env.texts.says("keys.deploy_ok"@) + " "@ + host@,
            Err(e) => failure_mark(e@),
        },
    )
    &&& after.keys == (KeyManager { status: after.keys.status, ..before.keys })
    &&& keys_only(before, after)
}

pub fn on_key_deploy_done(state: &mut NeoShell, result: Result<String, String>, env: &Env)
    ensures
        key_arrived(*old(state), result, *env, *final(state)),
{
    let status = match result {
        Ok(host) => {
            let mut s = env.texts.t("keys.deploy_ok");
            s.append(" ");
            s.append(host.as_str());
            s
        },
        Err(e) => text::concat("✗ ", e.as_str()),
    };
    state.keys.status = Some(status);
}

// ---- the messages ---------------------------------------------------------------------------------------

pub open spec fn is_sharing_message(m: Message) -> bool {
    match m {
        Message::ShowBroadcastDialog => true,
        Message::HideBroadcastDialog => true,
        Message::BroadcastTextChanged(_) => true,
        Message::BroadcastToggleSession(_) => true,
        Message::BroadcastSendNow => true,
        Message::ToggleSyncInput => true,
        Message::ShowSnippetsPanel => true,
        Message::HideSnippetsPanel => true,
        Message::SnippetsLoaded(_) => true,
        Message::SnippetSend(_) => true,
        Message::SnippetEdit(_) => true,
        Message::SnippetFormNameChanged(_) => true,
        Message::SnippetFormBodyChanged(_) => true,
        Message::SnippetSave => true,
        Message::SnippetDelete(_) => true,
        _ => false,
    }
}

pub open spec fn broadcast_is(before: NeoShell, broadcast: Broadcast, after: NeoShell) -> bool {
    after == (NeoShell { broadcast, ..before })
}

pub open spec fn snippets_are(before: NeoShell, snippets: Snippets, after: NeoShell) -> bool {
    after == (NeoShell { snippets, ..before })
}

#[verifier::opaque]
pub open spec fn sharing_step(before: NeoShell, m: Message, env: Env, after: NeoShell, fx: Seq<Effect>) -> bool {
    match m {
        Message::ShowBroadcastDialog => broadcast_toggled(before, after) && fx.len() == 0,
        Message::HideBroadcastDialog => broadcast_is(before, Broadcast { show: false, ..before.broadcast }, after)
            && fx.len() == 0,
        Message::BroadcastTextChanged(v) => broadcast_is(before, Broadcast { text: v, ..before.broadcast }, after)
            && fx.len() == 0,
        Message::BroadcastToggleSession(sid) => session_ticked(before, sid@, after) && fx.len() == 0,
        Message::BroadcastSendNow => broadcast_sent(before, after, fx),
        Message::ToggleSyncInput => broadcast_is(
            before,
            Broadcast { sync_on: !before.broadcast.sync_on, ..before.broadcast },
            after,
        ) && fx.len() == 0,
        Message::ShowSnippetsPanel => snippets_toggled(before, after, fx),
        Message::HideSnippetsPanel => snippets_are(before, Snippets { show: false, ..before.snippets }, after)
            && fx.len() == 0,
        Message::SnippetsLoaded(list) => snippets_are(before, Snippets { list, ..before.snippets }, after)
            && fx.len() == 0,
        Message::SnippetSend(id) => snippet_sent(before, id@, after, fx),
        Message::SnippetEdit(id) => snippet_opened(before, id, after) && fx.len() == 0,
        Message::SnippetFormNameChanged(v) => snippets_are(before, Snippets { name: v, ..before.snippets }, after)
            && fx.len() == 0,
        Message::SnippetFormBodyChanged(v) => snippets_are(before, Snippets { body: v, ..before.snippets }, after)
            && fx.len() == 0,
        Message::SnippetSave => snippet_saved(before, env, after, fx),
        Message::SnippetDelete(id) => snippet_deleted(before, id@, after, fx),
        _ => true,
    }
}

/// The messages of the broadcast dialog and of the snippets.
pub fn handle_sharing(state: &mut NeoShell, message: Message, env: &Env) -> (fx: Vec<Effect>)
    requires
        is_sharing_message(message),
        old(state).wf(),
    ensures
        sharing_step(*old(state), message, *env, *final(state), fx@),
        final(state).wf(),
{
    proof {
        reveal(sharing_step);
    }
    match message {
        Message::ShowBroadcastDialog => {
            on_show_broadcast_dialog(state);
            common::nothing()
        },
        Message::HideBroadcastDialog => {
            state.broadcast.show = false;
            common::nothing()
        },
        Message::BroadcastTextChanged(v) => {
            state.broadcast.text = v;
            common::nothing()
        },
        Message::BroadcastToggleSession(sid) => {
            on_broadcast_toggle_session(state, sid);
            common::nothing()
        },
        Message::BroadcastSendNow => on_broadcast_send_now(state),
        Message::ToggleSyncInput => {
            state.broadcast.sync_on = !state.broadcast.sync_on;
            common::nothing()
        },
        Message::ShowSnippetsPanel => on_show_snippets_panel(state),
        Message::HideSnippetsPanel => {
            state.snippets.show = false;
            common::nothing()
        },
        Message::SnippetsLoaded(list) => {
            state.snippets.list = list;
            common::nothing()
        },
        Message::SnippetSend(id) => on_snippet_send(state, id),
        Message::SnippetEdit(id) => {
            on_snippet_edit(state, id);
            common::nothing()
        },
        Message::SnippetFormNameChanged(v) => {
            state.snippets.name = v;
            common::nothing()
        },
        Message::SnippetFormBodyChanged(v) => {
            state.snippets.body = v;
            common::nothing()
        },
        Message::SnippetSave => on_snippet_save(state, env),
        Message::SnippetDelete(id) => on_snippet_delete(state, id),
        _ => common::nothing(),
    }
}

pub open spec fn is_key_message(m: Message) -> bool {
    match m {
        Message::ShowKeyManager => true,
        Message::HideKeyManager => true,
        Message::KeysListed(_) => true,
        Message::KeyFormNameChanged(_) => true,
        Message::KeyFormCommentChanged(_) => true,
        Message::KeyGenerate => true,
        Message::KeyGenerated(_) => true,
        Message::KeyCopyPubkey(_) => true,
        Message::KeyDeployStart(_) => true,
        Message::KeyDeployTo(_, _) => true,
        Message::KeyDeployDone(_) => true,
        Message::KeyDeployCancel => true,
        _ => false,
    }
}

pub open spec fn keys_are(before: NeoShell, keys: KeyManager, after: NeoShell) -> bool {
    after == (NeoShell { keys, ..before })
}

#[verifier::opaque]
pub open spec fn key_step(before: NeoShell, m: Message, env: Env, after: NeoShell, fx: Seq<Effect>) -> bool {
    match m {
        Message::ShowKeyManager => keys_toggled(before, after, fx),
        Message::HideKeyManager => keys_are(before, KeyManager { show: false, deploying: None, ..before.keys }, after)
            && fx.len() == 0,
        Message::KeysListed(list) => keys_are(before, KeyManager { keys: list, ..before.keys }, after) && fx.len()
            == 0,
        Message::KeyFormNameChanged(v) => keys_are(before, KeyManager { name: v, ..before.keys }, after) && fx.len()
            == 0,
        Message::KeyFormCommentChanged(v) => keys_are(before, KeyManager { comment: v, ..before.keys }, after)
            && fx.len() == 0,
        Message::KeyGenerate => after == before && key_asked(before, fx),
        Message::KeyGenerated(r) => key_made(before, r, env, after) && fx.len() == 0,
        Message::KeyCopyPubkey(path) => key_copied(before, path@, env, after, fx),
        Message::KeyDeployStart(path) => keys_are(
            before,
            KeyManager { deploying: Some(path), status: None, ..before.keys },
            after,
        ) && fx.len() == 0,
        Message::KeyDeployTo(path, conn) => key_sent(before, path@, conn, env, after, fx),
        Message::KeyDeployDone(r) => key_arrived(before, r, env, after) && fx.len() == 0,
        Message::KeyDeployCancel => keys_are(before, KeyManager { deploying: None, ..before.keys }, after) && fx.len()
            == 0,
        _ => true,
    }
}

/// The messages of the key manager.
pub fn handle_key_manager(state: &mut NeoShell, message: Message, env: &Env) -> (fx: Vec<Effect>)
    requires
        is_key_message(message),
        old(state).wf(),
    ensures
        key_step(*old(state), message, *env, *final(state), fx@),
        final(state).wf(),
{
    proof {
        reveal(key_step);
    }
    match message {
        Message::ShowKeyManager => on_show_key_manager(state),
        Message::HideKeyManager => {
            state.keys.show = false;
            state.keys.deploying = None;
            common::nothing()
        },
        Message::KeysListed(list) => {
            state.keys.keys = list;
            common::nothing()
        },
        Message::KeyFormNameChanged(v) => {
            state.keys.name = v;
            common::nothing()
        },
        Message::KeyFormCommentChanged(v) => {
            state.keys.comment = v;
            common::nothing()
        },
        Message::KeyGenerate => on_key_generate(state),
        Message::KeyGenerated(result) => {
            on_key_generated(state, result, env);
            common::nothing()
        },
        Message::KeyCopyPubkey(path) => on_key_copy_pubkey(state, path, env),
        Message::KeyDeployStart(path) => {
            state.keys.deploying = Some(path);
            state.keys.status = None;
            common::nothing()
        },
        Message::KeyDeployTo(path, conn_id) => on_key_deploy_to(state, path, conn_id, env),
        Message::KeyDeployDone(result) => {
            on_key_deploy_done(state, result, env);
            common::nothing()
        },
        Message::KeyDeployCancel => {
            state.keys.deploying = None;
            common::nothing()
        },
        _ => common::nothing(),
    }
}

} // verus!
