//! What is kept on disk under the vault's key: the command history and the
//! folded groups.

use vstd::prelude::*;

use crate::common;
use crate::connections::ConnectionInfo;
use crate::folded;
use crate::folded::SealedGroups;
use crate::history;
use crate::history::CmdRecord;
use crate::history::HistoryLoad;
use crate::history::HistorySync;
use crate::history::WriteLedger;
use crate::names;
use crate::screens::Screen;
use crate::state::Effect;
use crate::state::Env;
use crate::state::Groups;
use crate::state::HistoryPanel;
use crate::state::Message;
use crate::state::NeoShell;

verus! {

// ---- the command history ----------------------------------------------------------------------------------

pub open spec fn history_only(before: NeoShell, after: NeoShell) -> bool {
    after == (NeoShell { history: after.history, ..before })
}

/// A snapshot more is written, or dropped.
pub open spec fn settled_one(l: WriteLedger) -> WriteLedger {
    WriteLedger {
        pending: (if l.pending > 0 {
            (l.pending - 1) as u64
        } else {
            0
        }),
        ..l
    }
}

pub open spec fn history_cleared_via(
    before: NeoShell,
    env: Env,
    mid: HistoryPanel,
    after: NeoShell,
    fx: Seq<Effect>,
) -> bool {
    &&& mid.records@ == Seq::<CmdRecord>::empty()
    &&& mid == (HistoryPanel {
        records: mid.records,
        sync: history::after_clear(before.history.sync),
        ..before.history
    })
    &&& common::history_sealed(mid, env.unlocked, true, true, after.history, fx)
    &&& history_only(before, after)
}

/// The records are gone, from the disk too, and over the old bytes.
pub open spec fn history_cleared(before: NeoShell, env: Env, after: NeoShell, fx: Seq<Effect>) -> bool {
    exists|mid: HistoryPanel| #[trigger] history_cleared_via(before, env, mid, after, fx)
}

/// Clear the history, on disk at once and over the old bytes: clearing is how a
/// user takes back a line they did not mean to keep. A cleartext history still
/// waiting to be imported goes too, or the next unlock would bring its lines
/// straight back.
pub fn on_clear_history(state: &mut NeoShell, env: &Env) -> (fx: Vec<Effect>)
    requires
        old(state).has_room(),
    ensures
        history_cleared(*old(state), *env, *final(state), fx@),
{
    history::clear_history(&mut state.history.records, &mut state.history.sync);
    let ghost mid = state.history;
    let fx = common::persist_history(&mut state.history, env.unlocked, true, true);
    assert(history_cleared_via(*old(state), *env, mid, *state, fx@));
    fx
}

pub open spec fn history_flushed(before: NeoShell, env: Env, after: NeoShell, fx: Seq<Effect>) -> bool {
    if history::flush_due(before.history.sync, env.now) {
        &&& common::history_sealed(
            HistoryPanel {
                sync: HistorySync { flushed_at: Some(env.now), ..before.history.sync },
                ..before.history
            },
            env.unlocked,
            false,
            false,
            after.history,
            fx,
        )
        &&& history_only(before, after)
    } else {
        after == before && fx.len() == 0
    }
}

/// Write the history, if a paced write is due.
pub fn on_flush_history(state: &mut NeoShell, env: &Env) -> (fx: Vec<Effect>)
    requires
        old(state).has_room(),
    ensures
        history_flushed(*old(state), *env, *final(state), fx@),
{
    if !history::history_flush_due(&state.history.sync, env.now) {
        return common::nothing();
    }
    state.history.sync.flushed_at = Some(env.now);
    common::persist_history(&mut state.history, env.unlocked, false, false)
}

pub open spec fn history_write_done(before: NeoShell, result: Result<(), String>, after: NeoShell) -> bool {
    after == (NeoShell {
        history: HistoryPanel {
            sync: HistorySync {
                dirty: before.history.sync.dirty || (result is Err && before.history.sync.loaded),
                ..before.history.sync
            },
            ledger: settled_one(before.history.ledger),
            ..before.history
        },
        ..before
    })
}

/// A write came back. The next paced one tries a failed one again — unless the
/// vault was locked since, which wiped the records it carried.
pub fn on_history_written(state: &mut NeoShell, result: Result<(), String>)
    ensures
        history_write_done(*old(state), result, *final(state)),
{
    state.history.ledger.settle();
    match result {
        Ok(_) => {},
        Err(_) => {
            if state.history.sync.loaded {
                state.history.sync.dirty = true;
            }
        },
    }
}

/// The records with those of the load in front, and what the load lets the
/// session do.
pub open spec fn history_merged(before: HistoryPanel, load: HistoryLoad, after: HistoryPanel) -> bool {
    &&& history::is_merged(
        if before.sync.pending_load->0.cleared {
            Seq::<CmdRecord>::empty()
        } else {
            load.records@
        },
        before.records@,
        after.records@,
    )
    &&& after == (HistoryPanel {
        records: after.records,
        sync: HistorySync {
            pending_load: None,
            dirty: before.records@.len() > 0,
            loaded: load.writable,
            ..before.sync
        },
        ..before
    })
}

pub open spec fn history_loaded_via(
    before: NeoShell,
    load: HistoryLoad,
    env: Env,
    mid: NeoShell,
    warned: NeoShell,
    after: NeoShell,
    fx: Seq<Effect>,
) -> bool {
    let landed = history::landed(load, before.history.sync.pending_load->0.cleared);
    &&& history_merged(before.history, load, mid.history)
    &&& history_only(before, mid)
    &&& match landed.warning {
        Some(w) => common::notice_shown(mid, "history.warn.title"@, env.texts.says(w.text_key()), warned),
        None => warned == mid,
    }
    &&& if landed.import_legacy {
        common::history_sealed(warned.history, env.unlocked, false, true, after.history, fx) && history_only(
            warned,
            after,
        )
    } else {
        after == warned && fx.len() == 0
    }
}

pub open spec fn history_taken_in(
    before: NeoShell,
    load: HistoryLoad,
    env: Env,
    after: NeoShell,
    fx: Seq<Effect>,
) -> bool {
    exists|mid: NeoShell, warned: NeoShell| #[trigger]
        history_loaded_via(before, load, env, mid, warned, after, fx)
}

pub open spec fn history_loaded(
    before: NeoShell,
    seq: u64,
    load: HistoryLoad,
    env: Env,
    after: NeoShell,
    fx: Seq<Effect>,
) -> bool {
    if history::awaited(before.history.sync, seq) {
        history_taken_in(before, load, env, after, fx)
    } else {
        &&& after.history.records@ == before.history.records@
        &&& after == (NeoShell {
            history: HistoryPanel { records: after.history.records, ..before.history },
            ..before
        })
        &&& fx.len() == 0
    }
}

/// The load of an unlock came back. One that nobody waits for any more is
/// dropped.
pub fn on_history_loaded(state: &mut NeoShell, seq: u64, load: HistoryLoad, env: &Env) -> (fx: Vec<Effect>)
    requires
        old(state).has_room(),
    ensures
        history_loaded(*old(state), seq, load, *env, *final(state), fx@),
{
    let landed = match history::land_history_load(&mut state.history.records, &mut state.history.sync, seq, load) {
        Some(landed) => landed,
        None => return common::nothing(),
    };
    let ghost mid = *state;
    match landed.warning {
        Some(w) => {
            state.show_notice("history.warn.title", env.texts.t(w.key()));
        },
        None => {},
    }
    let ghost warned = *state;
    let fx = if landed.import_legacy {
        common::persist_history(&mut state.history, env.unlocked, false, true)
    } else {
        common::nothing()
    };
    assert(history_loaded_via(*old(state), load, *env, mid, warned, *state, fx@));
    fx
}

/// What the user cleared does not come back with a load that was already under
/// way: only what was typed since then is kept.
pub proof fn law_a_clear_outlives_the_load(
    before: NeoShell,
    seq: u64,
    load: HistoryLoad,
    env: Env,
    after: NeoShell,
    fx: Seq<Effect>,
    r: CmdRecord,
)
    requires
        history_loaded(before, seq, load, env, after, fx),
        history::awaited(before.history.sync, seq),
        before.history.sync.pending_load->0.cleared,
        after.history.records@.contains(r),
    ensures
        before.history.records@.contains(r),
{
    let (mid, warned) = choose|mid: NeoShell, warned: NeoShell| #[trigger]
        history_loaded_via(before, load, env, mid, warned, after, fx);
    assert(after.history.records@ == mid.history.records@);
    history::law_cleared_records_stay_gone(before.history.records@, mid.history.records@, r);
}

/// A session whose load could not be trusted has no paced writes.
pub proof fn law_an_unloaded_history_is_not_written(before: NeoShell, env: Env, after: NeoShell, fx: Seq<Effect>)
    requires
        history_flushed(before, env, after, fx),
        !before.history.sync.loaded,
    ensures
        fx.len() == 0,
{
}

// ---- the folded groups ---------------------------------------------------------------------------------------

pub open spec fn group_folded_via(before: NeoShell, g: Seq<char>, mid: Groups, after: NeoShell, fx: Seq<Effect>) -> bool {
    &&& mid.collapsed@ == (if before.groups.collapsed@.contains(g) {
        before.groups.collapsed@.remove(g)
    } else {
        before.groups.collapsed@.insert(g)
    })
    &&& mid == (Groups { collapsed: mid.collapsed, ..before.groups })
    &&& common::groups_scheduled(mid, after.groups, fx)
    &&& after == (NeoShell { groups: after.groups, ..before })
}

pub open spec fn group_folded(before: NeoShell, g: Seq<char>, after: NeoShell, fx: Seq<Effect>) -> bool {
    exists|mid: Groups| #[trigger] group_folded_via(before, g, mid, after, fx)
}

/// Fold a group of the sidebar, or unfold it.
pub fn on_toggle_group_collapsed(state: &mut NeoShell, g: String) -> (fx: Vec<Effect>)
    requires
        old(state).has_room(),
    ensures
        group_folded(*old(state), g@, *final(state), fx@),
{
    if !state.groups.collapsed.remove(g.as_str()) {
        let _new = state.groups.collapsed.insert(g);
        assert(state.groups.collapsed@ =~= old(state).groups.collapsed@.insert(g@));
    }
    let ghost mid = state.groups;
    let fx = common::schedule_groups_save(&mut state.groups);
    assert(group_folded_via(*old(state), g@, mid, *state, fx@));
    fx
}

/// A saved connection is in the group.
pub open spec fn has_members(conns: Seq<ConnectionInfo>, g: Seq<char>) -> bool {
    exists|i: int| 0 <= i < conns.len() && (#[trigger] conns[i]).group@ == g
}

fn groups_of(conns: &Vec<ConnectionInfo>) -> (out: Vec<String>)
    ensures
        forall|k: Seq<char>| #[trigger] names::in_list(out@, k) <==> has_members(conns@, k),
{
    let mut out: Vec<String> = Vec::new();
    let mut i: usize = 0;
    while i < conns.len()
        invariant
            i <= conns.len(),
            out@.len() == i,
            forall|j: int| 0 <= j < i ==> (#[trigger] out@[j])@ == conns@[j].group@,
        decreases conns.len() - i,
    {
        out.push(conns[i].group.clone());
        i += 1;
    }
    assert forall|k: Seq<char>| #[trigger] names::in_list(out@, k) <==> has_members(conns@, k) by {
        if names::in_list(out@, k) {
            let j = choose|j: int| 0 <= j < out@.len() && (#[trigger] out@[j])@ == k;
            assert(conns@[j].group@ == k);
        }
        if has_members(conns@, k) {
            let j = choose|j: int| 0 <= j < conns@.len() && (#[trigger] conns@[j]).group@ == k;
            assert(out@[j]@ == k);
        }
    }
    out
}

/// Every group with a connection in it joins what was folded, or nothing stays
/// folded.
pub open spec fn all_set(before: NeoShell, fold: bool, after: Set<Seq<char>>) -> bool {
    forall|k: Seq<char>| #[trigger]
        after.contains(k) <==> fold && (before.groups.collapsed@.contains(k) || has_members(
            before.sessions.connections@,
            k,
        ))
}

pub open spec fn all_folded_via(before: NeoShell, fold: bool, mid: Groups, after: NeoShell, fx: Seq<Effect>) -> bool {
    &&& all_set(before, fold, mid.collapsed@)
    &&& mid == (Groups { collapsed: mid.collapsed, ..before.groups })
    &&& common::groups_scheduled(mid, after.groups, fx)
    &&& after == (NeoShell { groups: after.groups, ..before })
}

pub open spec fn all_folded(before: NeoShell, fold: bool, after: NeoShell, fx: Seq<Effect>) -> bool {
    exists|mid: Groups| #[trigger] all_folded_via(before, fold, mid, after, fx)
}

/// Fold every group, or unfold them all.
pub fn on_set_all_groups_collapsed(state: &mut NeoShell, collapse: bool) -> (fx: Vec<Effect>)
    requires
        old(state).has_room(),
    ensures
        all_folded(*old(state), collapse, *final(state), fx@),
{
    if collapse {
        let all = groups_of(&state.sessions.connections);
        state.groups.collapsed.extend(all);
    } else {
        state.groups.collapsed.clear();
    }
    let ghost mid = state.groups;
    let fx = common::schedule_groups_save(&mut state.groups);
    assert(all_folded_via(*old(state), collapse, mid, *state, fx@));
    fx
}

pub open spec fn folded_on_disk(
    unlocked: bool,
    sealed: SealedGroups,
    legacy_found: bool,
    legacy: Option<Vec<u8>>,
    set: Set<Seq<char>>,
) -> bool {
    forall|k: Seq<char>| #[trigger]
        set.contains(k) <==> unlocked && (folded::sealed_names(sealed).contains(k) || (legacy_found
            && folded::legacy_names(legacy).contains(k)))
}

pub open spec fn groups_read_via(
    before: NeoShell,
    sealed: SealedGroups,
    legacy_found: bool,
    legacy: Option<Vec<u8>>,
    env: Env,
    mid: Groups,
    after: NeoShell,
    fx: Seq<Effect>,
) -> bool {
    &&& folded_on_disk(env.unlocked, sealed, legacy_found, legacy, mid.collapsed@)
    &&& mid == (Groups { collapsed: mid.collapsed, dirty: false, ..before.groups })
    &&& after == (NeoShell { groups: after.groups, ..before })
    &&& if env.unlocked && legacy_found {
        common::groups_sealed(mid, env.unlocked, true, after.groups, fx)
    } else {
        after.groups == mid && fx.len() == 0
    }
}

pub open spec fn groups_read(
    before: NeoShell,
    sealed: SealedGroups,
    legacy_found: bool,
    legacy: Option<Vec<u8>>,
    env: Env,
    after: NeoShell,
    fx: Seq<Effect>,
) -> bool {
    exists|mid: Groups| #[trigger]
        groups_read_via(before, sealed, legacy_found, legacy, env, mid, after, fx)
}

/// The folded groups came from the disk. Those of a cleartext file join them,
/// and are sealed at once: that write retires the file.
pub fn on_groups_read(
    state: &mut NeoShell,
    sealed: SealedGroups,
    legacy_found: bool,
    legacy: Option<Vec<u8>>,
    env: &Env,
) -> (fx: Vec<Effect>)
    requires
        old(state).has_room(),
    ensures
        groups_read(*old(state), sealed, legacy_found, legacy, *env, *final(state), fx@),
{
    let (collapsed, retire) = folded::groups_load(env.unlocked, &sealed, legacy_found, &legacy);
    state.groups.collapsed = collapsed;
    state.groups.dirty = false;
    let ghost mid = state.groups;
    let fx = if retire {
        common::persist_groups(&mut state.groups, env.unlocked, true)
    } else {
        common::nothing()
    };
    assert(groups_read_via(*old(state), sealed, legacy_found, legacy, *env, mid, *state, fx@));
    fx
}

pub open spec fn groups_saved(before: NeoShell, gen: u64, env: Env, after: NeoShell, fx: Seq<Effect>) -> bool {
    if gen == before.groups.generation && before.groups.dirty {
        common::groups_sealed(before.groups, env.unlocked, false, after.groups, fx) && after == (NeoShell {
            groups: after.groups,
            ..before
        })
    } else {
        after == before && fx.len() == 0
    }
}

/// Save the folded groups: only the save that the latest change scheduled. A
/// lock since then has sealed the change already, and emptied the set.
pub fn on_save_collapsed_groups(state: &mut NeoShell, gen: u64, env: &Env) -> (fx: Vec<Effect>)
    requires
        old(state).has_room(),
    ensures
        groups_saved(*old(state), gen, *env, *final(state), fx@),
{
    if gen == state.groups.generation && state.groups.dirty {
        return common::persist_groups(&mut state.groups, env.unlocked, false);
    }
    common::nothing()
}

pub open spec fn groups_write_done(before: NeoShell, result: Result<(), String>, after: NeoShell) -> bool {
    after == (NeoShell {
        groups: Groups {
            dirty: before.groups.dirty || (result is Err && before.vault.screen is Main),
            ledger: settled_one(before.groups.ledger),
            ..before.groups
        },
        ..before
    })
}

/// A write of the folded groups came back. The next change, or the lock, tries
/// a failed one again — unless the vault is locked already, which forgot the
/// set.
pub fn on_groups_written(state: &mut NeoShell, result: Result<(), String>)
    ensures
        groups_write_done(*old(state), result, *final(state)),
{
    state.groups.ledger.settle();
    match result {
        Ok(_) => {},
        Err(_) => match state.vault.screen {
            Screen::Main => {
                state.groups.dirty = true;
            },
            _ => {},
        },
    }
}

/// Folding a group twice is as if nothing happened to it.
pub proof fn law_folding_twice_unfolds(
    before: NeoShell,
    g: Seq<char>,
    mid: NeoShell,
    fx: Seq<Effect>,
    after: NeoShell,
    fx2: Seq<Effect>,
)
    requires
        group_folded(before, g, mid, fx),
        group_folded(mid, g, after, fx2),
    ensures
        after.groups.collapsed@ == before.groups.collapsed@,
{
    let a = choose|a: Groups| #[trigger] group_folded_via(before, g, a, mid, fx);
    let b = choose|b: Groups| #[trigger] group_folded_via(mid, g, b, after, fx2);
    assert(after.groups.collapsed == b.collapsed);
    assert(mid.groups.collapsed == a.collapsed);
    assert(after.groups.collapsed@ =~= before.groups.collapsed@);
}

/// Of a burst of changes only the last one's save runs: an earlier save finds
/// that another change came after the one that scheduled it.
pub proof fn law_one_save_per_burst(
    before: NeoShell,
    g: Seq<char>,
    mid: NeoShell,
    fx: Seq<Effect>,
    gen: u64,
    env: Env,
    after: NeoShell,
    fx2: Seq<Effect>,
)
    requires
        before.has_room(),
        gen <= before.groups.generation,
        group_folded(before, g, mid, fx),
        groups_saved(mid, gen, env, after, fx2),
    ensures
        after == mid,
        fx2.len() == 0,
        fx == seq![Effect::ScheduleGroupsSave(mid.groups.generation)],
        mid.groups.dirty,
{
    let a = choose|a: Groups| #[trigger] group_folded_via(before, g, a, mid, fx);
    assert(common::groups_scheduled(a, mid.groups, fx));
}

// ---- the messages ---------------------------------------------------------------------------------------------

pub open spec fn is_kept_message(m: Message) -> bool {
    match m {
        Message::ShowHistory => true,
        Message::HideHistory => true,
        Message::HistoryFilterChanged(_) => true,
        Message::ClearHistory => true,
        Message::FlushHistory => true,
        Message::HistoryWritten(_) => true,
        Message::HistoryLoaded(_, _) => true,
        Message::ToggleGroupCollapsed(_) => true,
        Message::SetAllGroupsCollapsed(_) => true,
        Message::GroupsRead(_, _, _) => true,
        Message::SaveCollapsedGroups(_) => true,
        Message::GroupsWritten(_) => true,
        _ => false,
    }
}

/// The history panel opens or closes, with a blank filter.
pub open spec fn history_shown(before: NeoShell, show: bool, after: NeoShell) -> bool {
    &&& after.history.filter@.len() == 0
    &&& after == (NeoShell {
        history: HistoryPanel { show, filter: after.history.filter, ..before.history },
        ..before
    })
}

#[verifier::opaque]
pub open spec fn kept_step(before: NeoShell, m: Message, env: Env, after: NeoShell, fx: Seq<Effect>) -> bool {
    match m {
        Message::ShowHistory => history_shown(before, !before.history.show, after) && fx.len() == 0,
        Message::HideHistory => history_shown(before, false, after) && fx.len() == 0,
        Message::HistoryFilterChanged(v) => after == (NeoShell {
            history: HistoryPanel { filter: v, ..before.history },
            ..before
        }) && fx.len() == 0,
        Message::ClearHistory => history_cleared(before, env, after, fx),
        Message::FlushHistory => history_flushed(before, env, after, fx),
        Message::HistoryWritten(r) => history_write_done(before, r, after) && fx.len() == 0,
        Message::HistoryLoaded(seq, load) => history_loaded(before, seq, load, env, after, fx),
        Message::ToggleGroupCollapsed(g) => group_folded(before, g@, after, fx),
        Message::SetAllGroupsCollapsed(fold) => all_folded(before, fold, after, fx),
        Message::GroupsRead(sealed, found, legacy) => groups_read(before, sealed, found, legacy, env, after, fx),
        Message::SaveCollapsedGroups(gen) => groups_saved(before, gen, env, after, fx),
        Message::GroupsWritten(r) => groups_write_done(before, r, after) && fx.len() == 0,
        _ => true,
    }
}

/// The messages of the command history and of the folded groups.
pub fn handle_kept(state: &mut NeoShell, message: Message, env: &Env) -> (fx: Vec<Effect>)
    requires
        is_kept_message(message),
        old(state).wf(),
        old(state).has_room(),
    ensures
        kept_step(*old(state), message, *env, *final(state), fx@),
        final(state).wf(),
{
    proof {
        reveal(kept_step);
    }
    match message {
        Message::ShowHistory => {
            state.history.show = !state.history.show;
            state.history.filter = String::new();
            common::nothing()
        },
        Message::HideHistory => {
            state.history.show = false;
            state.history.filter = String::new();
            common::nothing()
        },
        Message::HistoryFilterChanged(v) => {
            state.history.filter = v;
            common::nothing()
        },
        Message::ClearHistory => on_clear_history(state, env),
        Message::FlushHistory => on_flush_history(state, env),
        Message::HistoryWritten(result) => {
            on_history_written(state, result);
            common::nothing()
        },
        Message::HistoryLoaded(seq, load) => on_history_loaded(state, seq, load, env),
        Message::ToggleGroupCollapsed(g) => on_toggle_group_collapsed(state, g),
        Message::SetAllGroupsCollapsed(collapse) => on_set_all_groups_collapsed(state, collapse),
        Message::GroupsRead(sealed, found, legacy) => on_groups_read(state, sealed, found, legacy, env),
        Message::SaveCollapsedGroups(gen) => on_save_collapsed_groups(state, gen, env),
        Message::GroupsWritten(result) => {
            on_groups_written(state, result);
            common::nothing()
        },
        _ => common::nothing(),
    }
}

} // verus!
