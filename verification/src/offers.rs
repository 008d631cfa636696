//! What a palette offers: each row does what its label says.

use vstd::prelude::*;
use vstd::string::*;

use crate::catalog::Catalog;
use crate::connections::ConnectionInfo;
use crate::groups;
use crate::lettercase;
use crate::number;
use crate::order;
use crate::order::Rank;
use crate::palette;
use crate::palette::BestFirst;
use crate::palette::Making;
use crate::palette::PaletteItem;
use crate::settings::Snippet;
use crate::state::Message;
use crate::text;

verus! {

// ---- what a row may be ------------------------------------------------------------------------

/// Where a connection leads, as its row says it.
pub open spec fn leads_to(c: ConnectionInfo) -> Seq<char> {
    c.username@ + seq!['@'] + c.host@ + seq![':'] + number::decimal(c.port as nat)
}

/// The row opens the connection and is named after it.
pub open spec fn opens(it: PaletteItem, c: ConnectionInfo) -> bool {
    &&& it.label@ == c.name@
    &&& it.meta@ == leads_to(c)
    &&& it.msg == Message::ConnectTo(c.id)
}

/// The row is called `key` of the connection, and does `msg`.
pub open spec fn works_on(it: PaletteItem, c: ConnectionInfo, key: Seq<char>, msg: Message, texts: Catalog) -> bool {
    &&& it.label@ == texts.says_with(key, "name"@, c.name@)
    &&& it.meta@ == leads_to(c)
    &&& it.msg == msg
}

pub open spec fn edits(it: PaletteItem, c: ConnectionInfo, texts: Catalog) -> bool {
    works_on(it, c, "palette.act.edit_conn"@, Message::ShowForm(Some(c.id)), texts)
}

pub open spec fn tests(it: PaletteItem, c: ConnectionInfo, texts: Catalog) -> bool {
    works_on(it, c, "palette.act.test_conn"@, Message::TestConnectionInList(c.id), texts)
}

pub open spec fn copies(it: PaletteItem, c: ConnectionInfo, texts: Catalog) -> bool {
    works_on(it, c, "palette.act.clone_conn"@, Message::CloneConnection(c.id), texts)
}

pub open spec fn deletes(it: PaletteItem, c: ConnectionInfo, texts: Catalog) -> bool {
    works_on(it, c, "palette.act.delete_conn"@, Message::DeleteConnection(c.id), texts)
}

/// The row folds the group of the connection where it is unfolded, and unfolds it
/// where it is folded.
pub open spec fn folds(it: PaletteItem, c: ConnectionInfo, collapsed: Set<Seq<char>>, texts: Catalog) -> bool {
    let name = groups::label_of(c.group@, texts);
    &&& it.msg == Message::ToggleGroupCollapsed(c.group)
    &&& collapsed.contains(c.group@) ==> it.label@ == texts.says_with("palette.act.expand_group"@, "name"@, name)
    &&& !collapsed.contains(c.group@) ==> it.label@ == texts.says_with("palette.act.collapse_group"@, "name"@, name)
}

/// The row sends the snippet it is named after, and shows how it begins.
pub open spec fn sends(it: PaletteItem, sn: Snippet) -> bool {
    &&& it.label@ == sn.name@
    &&& it.msg == Message::SnippetSend(sn.id)
    &&& it.meta@.len() <= 40
    &&& it.meta@ == sn.body@.take(it.meta@.len() as int)
    &&& it.meta@.len() < 40 ==> it.meta@ == sn.body@
}

/// The row is called by the text of `key`, and does `msg`.
pub open spec fn called(it: PaletteItem, key: Seq<char>, msg: Message, texts: Catalog) -> bool {
    it.label@ == texts.says(key) && it.msg == msg
}

/// The row is one of the commands.
pub open spec fn commands(it: PaletteItem, texts: Catalog) -> bool {
    ||| called(it, "palette.act.new_conn"@, Message::ShowForm(None), texts)
    ||| called(it, "palette.act.connect"@, Message::ShowConnectDialog, texts)
    ||| called(it, "palette.act.settings"@, Message::ShowSettings, texts)
    ||| called(it, "palette.act.broadcast"@, Message::ShowBroadcastDialog, texts)
    ||| called(it, "palette.act.snippets"@, Message::ShowSnippetsPanel, texts)
    ||| called(it, "palette.act.keys"@, Message::ShowKeyManager, texts)
    ||| called(it, "palette.act.tunnels"@, Message::ShowTunnelManager, texts)
    ||| called(it, "palette.act.proxies"@, Message::ShowProxyManager, texts)
    ||| called(it, "palette.act.history"@, Message::ShowHistory, texts)
    ||| called(it, "palette.act.logs"@, Message::ShowLogViewer, texts)
    ||| called(it, "palette.act.sync"@, Message::ToggleSyncInput, texts)
    ||| called(it, "palette.act.split_v"@, Message::SplitTab(true), texts)
    ||| called(it, "palette.act.split_h"@, Message::SplitTab(false), texts)
    ||| called(it, "palette.act.import_ssh"@, Message::ImportAllSshConfigs, texts)
    ||| called(it, "sidebar.collapse_all"@, Message::SetAllGroupsCollapsed(true), texts)
    ||| called(it, "sidebar.expand_all"@, Message::SetAllGroupsCollapsed(false), texts)
}

/// The row acts on the connection.
pub open spec fn about(it: PaletteItem, c: ConnectionInfo, collapsed: Set<Seq<char>>, texts: Catalog) -> bool {
    ||| opens(it, c)
    ||| edits(it, c, texts)
    ||| tests(it, c, texts)
    ||| copies(it, c, texts)
    ||| deletes(it, c, texts)
    ||| folds(it, c, collapsed, texts)
}

/// The row does what it says, to a connection or a snippet that is there.
pub open spec fn honest(
    it: PaletteItem,
    conns: Seq<ConnectionInfo>,
    snippets: Seq<Snippet>,
    collapsed: Set<Seq<char>>,
    texts: Catalog,
) -> bool {
    ||| commands(it, texts)
    ||| exists|k: int| 0 <= k < conns.len() && about(it, #[trigger] conns[k], collapsed, texts)
    ||| exists|k: int| 0 <= k < snippets.len() && sends(it, #[trigger] snippets[k])
}

// ---- entries of each sort ------------------------------------------------------------------------

proof fn lemma_conn_entries(items: Seq<PaletteItem>, q: Seq<char>, ordered: Seq<&ConnectionInfo>, n: int, texts: Catalog)
    requires
        n <= ordered.len(),
        palette::conn_items(items, q, ordered, n, texts),
    ensures
        forall|i: int|
            0 <= i < items.len() ==> exists|k: int| 0 <= k < n && opens(#[trigger] items[i], *#[trigger] ordered[k]),
    decreases n,
{
    if n > 0 {
        let c = *ordered[n - 1];
        let shorter = items.drop_last();
        if palette::score_of(q, palette::conn_hay(c, texts)) is Some {
            lemma_conn_entries(shorter, q, ordered, n - 1, texts);
            assert forall|i: int| 0 <= i < items.len() implies exists|k: int|
                0 <= k < n && opens(#[trigger] items[i], *#[trigger] ordered[k]) by {
                if i < shorter.len() {
                    assert(items[i] == shorter[i]);
                } else {
                    assert(opens(items[i], *ordered[n - 1]));
                }
            }
        } else {
            lemma_conn_entries(items, q, ordered, n - 1, texts);
        }
    }
}

proof fn lemma_command_entries(items: Seq<PaletteItem>, q: Seq<char>, n: int, texts: Catalog)
    requires
        n <= 16,
        palette::action_items(items, q, n, texts),
    ensures
        forall|i: int| 0 <= i < items.len() ==> commands(#[trigger] items[i], texts),
    decreases n,
{
    if n > 0 {
        let shorter = items.drop_last();
        if palette::score_of(q, texts.says(palette::action_key(n - 1))) is Some {
            lemma_command_entries(shorter, q, n - 1, texts);
            assert forall|i: int| 0 <= i < items.len() implies commands(#[trigger] items[i], texts) by {
                if i < shorter.len() {
                    assert(items[i] == shorter[i]);
                } else {
                    let it = items.last();
                    assert(called(it, palette::action_key(n - 1), palette::action_msg(n - 1), texts));
                }
            }
        } else {
            lemma_command_entries(items, q, n - 1, texts);
        }
    }
}

proof fn lemma_fold_entries(
    items: Seq<PaletteItem>,
    q: Seq<char>,
    conns: Seq<ConnectionInfo>,
    n: int,
    collapsed: Set<Seq<char>>,
    texts: Catalog,
)
    requires
        n <= conns.len(),
        palette::group_items(items, q, conns, n, collapsed, texts),
    ensures
        forall|i: int|
            0 <= i < items.len() ==> exists|k: int|
                0 <= k < n && folds(#[trigger] items[i], #[trigger] conns[k], collapsed, texts),
    decreases n,
{
    if n > 0 {
        let c = conns[n - 1];
        let shorter = items.drop_last();
        let hit = palette::score_of(q, groups::label_of(c.group@, texts)) is Some;
        if hit && palette::first_of_group(conns, n - 1) {
            lemma_fold_entries(shorter, q, conns, n - 1, collapsed, texts);
            assert forall|i: int| 0 <= i < items.len() implies exists|k: int|
                0 <= k < n && folds(#[trigger] items[i], #[trigger] conns[k], collapsed, texts) by {
                if i < shorter.len() {
                    assert(items[i] == shorter[i]);
                } else {
                    assert(folds(items[i], conns[n - 1], collapsed, texts));
                }
            }
        } else {
            lemma_fold_entries(items, q, conns, n - 1, collapsed, texts);
        }
    }
}

proof fn lemma_snippet_entries(items: Seq<PaletteItem>, q: Seq<char>, snippets: Seq<Snippet>, n: int)
    requires
        n <= snippets.len(),
        palette::snippet_items(items, q, snippets, n),
    ensures
        forall|i: int|
            0 <= i < items.len() ==> exists|k: int| 0 <= k < n && sends(#[trigger] items[i], #[trigger] snippets[k]),
    decreases n,
{
    if n > 0 {
        let sn = snippets[n - 1];
        let shorter = items.drop_last();
        if palette::score_of(q, sn.name@ + " "@ + sn.body@) is Some {
            lemma_snippet_entries(shorter, q, snippets, n - 1);
            assert forall|i: int| 0 <= i < items.len() implies exists|k: int|
                0 <= k < n && sends(#[trigger] items[i], #[trigger] snippets[k]) by {
                if i < shorter.len() {
                    assert(items[i] == shorter[i]);
                } else {
                    assert(items[i].meta@ =~= sn.body@.take(items[i].meta@.len() as int));
                    assert(sends(items[i], snippets[n - 1]));
                }
            }
        } else {
            lemma_snippet_entries(items, q, snippets, n - 1);
        }
    }
}

proof fn lemma_reordered<T>(a: Seq<T>, b: Seq<T>, i: int)
    requires
        a.to_multiset() == b.to_multiset(),
        0 <= i < a.len(),
    ensures
        b.contains(a[i]),
{
    a.to_multiset_ensures();
    b.to_multiset_ensures();
    assert(a.contains(a[i]));
    assert(a.to_multiset().count(a[i]) > 0);
}

/// The connections in the sidebar's order are the connections.
proof fn lemma_ordered_conns(m: Making, conns: Seq<ConnectionInfo>, k: int)
    requires
        m.ordered.to_multiset() == Seq::new(conns.len(), |i: int| &conns[i]).to_multiset(),
        0 <= k < m.ordered.len(),
    ensures
        exists|j: int| 0 <= j < conns.len() && #[trigger] conns[j] == *m.ordered[k],
{
    let list = Seq::new(conns.len(), |i: int| &conns[i]);
    lemma_reordered(m.ordered, list, k);
    let j = choose|j: int| 0 <= j < list.len() && list[j] == m.ordered[k];
    assert(conns[j] == *m.ordered[k]);
}

/// What is kept stood there, in the same order.
proof fn lemma_kept(items: Seq<PaletteItem>)
    ensures
        forall|i: int| 0 <= i < palette::trimmed(items).len() ==> items.contains(#[trigger] palette::trimmed(items)[i]),
        forall|i: int, j: int|
            0 <= i < j < palette::trimmed(items).len() ==> stood_before(
                items,
                #[trigger] palette::trimmed(items)[i],
                #[trigger] palette::trimmed(items)[j],
            ),
    decreases items.len(),
{
    let out = palette::trimmed(items);
    palette::lemma_last_other(items, items.len() as int);
    if items.len() > palette::PALETTE_MAX {
        match palette::last_other(items, items.len() as int) {
            Some(at) => {
                let fewer = items.remove(at);
                lemma_kept(fewer);
                assert(out == palette::trimmed(fewer));
                assert forall|i: int| 0 <= i < out.len() implies items.contains(#[trigger] out[i]) by {
                    assert(fewer.contains(out[i]));
                    let k = choose|k: int| 0 <= k < fewer.len() && fewer[k] == out[i];
                    assert(items[if k < at {
                        k
                    } else {
                        k + 1
                    }] == out[i]);
                }
                assert forall|i: int, j: int| 0 <= i < j < out.len() implies stood_before(
                    items,
                    #[trigger] out[i],
                    #[trigger] out[j],
                ) by {
                    assert(stood_before(fewer, out[i], out[j]));
                    let (a, b) = choose|a: int, b: int|
                        0 <= a < b < fewer.len() && #[trigger] fewer[a] == out[i] && #[trigger] fewer[b] == out[j];
                    let x = if a < at {
                        a
                    } else {
                        a + 1
                    };
                    let y = if b < at {
                        b
                    } else {
                        b + 1
                    };
                    assert(items[x] == out[i] && items[y] == out[j]);
                }
            },
            None => {
                assert forall|i: int| 0 <= i < out.len() implies items.contains(#[trigger] out[i]) by {
                    assert(items[i] == out[i]);
                }
                assert forall|i: int, j: int| 0 <= i < j < out.len() implies stood_before(
                    items,
                    #[trigger] out[i],
                    #[trigger] out[j],
                ) by {
                    assert(items[i] == out[i] && items[j] == out[j]);
                }
            },
        }
    } else {
        assert forall|i: int, j: int| 0 <= i < j < out.len() implies stood_before(
            items,
            #[trigger] out[i],
            #[trigger] out[j],
        ) by {
            assert(items[i] == out[i] && items[j] == out[j]);
        }
    }
}

/// One of the items stands before the other.
pub open spec fn stood_before(items: Seq<PaletteItem>, a: PaletteItem, b: PaletteItem) -> bool {
    exists|i: int, j: int| 0 <= i < j < items.len() && #[trigger] items[i] == a && #[trigger] items[j] == b
}

/// Every ranked entry does what it says; the ones that open a connection are the
/// entries of connections.
proof fn lemma_ranked(
    m: Making,
    items: Seq<PaletteItem>,
    query: Seq<char>,
    conns: Seq<ConnectionInfo>,
    snippets: Seq<Snippet>,
    collapsed: Set<Seq<char>>,
    texts: Catalog,
)
    requires
        palette::made(m, items, query, conns, snippets, collapsed, texts),
    ensures
        forall|i: int|
            0 <= i < m.ranked.len() ==> honest(#[trigger] m.ranked[i], conns, snippets, collapsed, texts),
        forall|i: int|
            0 <= i < m.ranked.len() && (#[trigger] m.ranked[i]).msg is ConnectTo ==> exists|k: int|
                0 <= k < conns.len() && opens(m.ranked[i], #[trigger] conns[k]),
{
    let q = text::trim(query);
    let all = m.conns + m.actions + m.folds + m.snippets;
    lemma_conn_entries(m.conns, q, m.ordered, m.ordered.len() as int, texts);
    lemma_command_entries(m.actions, q, 16, texts);
    if q.len() > 0 {
        lemma_fold_entries(m.folds, q, conns, conns.len() as int, collapsed, texts);
    }
    lemma_snippet_entries(m.snippets, q, snippets, snippets.len() as int);
    assert forall|i: int| 0 <= i < m.ranked.len() implies honest(
        #[trigger] m.ranked[i],
        conns,
        snippets,
        collapsed,
        texts,
    ) && (m.ranked[i].msg is ConnectTo ==> exists|k: int|
        0 <= k < conns.len() && opens(m.ranked[i], #[trigger] conns[k])) by {
        lemma_reordered(m.ranked, all, i);
        let it = m.ranked[i];
        let j = choose|j: int| 0 <= j < all.len() && all[j] == it;
        let a = m.conns.len();
        let b = a + m.actions.len();
        let c = b + m.folds.len();
        if j < a {
            assert(m.conns[j] == it);
            let k = choose|k: int| 0 <= k < m.ordered.len() && opens(it, *#[trigger] m.ordered[k]);
            lemma_ordered_conns(m, conns, k);
            let s = choose|s: int| 0 <= s < conns.len() && #[trigger] conns[s] == *m.ordered[k];
            assert(opens(it, conns[s]) && about(it, conns[s], collapsed, texts));
        } else if j < b {
            assert(m.actions[j - a] == it);
        } else if j < c {
            assert(m.folds[j - b] == it);
            let k = choose|k: int| 0 <= k < conns.len() && folds(it, #[trigger] conns[k], collapsed, texts);
            assert(about(it, conns[k], collapsed, texts));
        } else {
            assert(m.snippets[j - c] == it);
        }
    }
}

/// The row actions of the best connection are rows of that connection.
proof fn lemma_row_actions(acts: Seq<PaletteItem>, best: PaletteItem, c: ConnectionInfo, texts: Catalog)
    requires
        palette::row_actions(acts, best, texts),
        opens(best, c),
    ensures
        acts.len() == 4,
        edits(acts[0], c, texts),
        tests(acts[1], c, texts),
        copies(acts[2], c, texts),
        deletes(acts[3], c, texts),
{
    assert(palette::row_key(0) == "palette.act.edit_conn"@);
    assert(palette::row_key(1) == "palette.act.test_conn"@);
    assert(palette::row_key(2) == "palette.act.clone_conn"@);
    assert(palette::row_key(3) == "palette.act.delete_conn"@);
}

proof fn lemma_first_conn(items: Seq<PaletteItem>, i: int)
    requires
        0 <= i,
    ensures
        match palette::first_conn(items, i) {
            Some(at) => i <= at < items.len() && items[at].msg is ConnectTo && forall|k: int|
                i <= k < at ==> !((#[trigger] items[k]).msg is ConnectTo),
            None => forall|k: int| i <= k < items.len() ==> !((#[trigger] items[k]).msg is ConnectTo),
        },
    decreases items.len() - i,
{
    if i < items.len() && !palette::is_conn(items[i]) {
        lemma_first_conn(items, i + 1);
    }
}

/// Every row of a palette does what it says, and to what it names: a row labelled
/// as the editing of a connection opens the form of that connection, one labelled as
/// its deletion deletes that one, and likewise for the rest.
pub proof fn law_every_row_does_what_it_says(
    items: Seq<PaletteItem>,
    query: Seq<char>,
    conns: Seq<ConnectionInfo>,
    snippets: Seq<Snippet>,
    collapsed: Set<Seq<char>>,
    texts: Catalog,
)
    requires
        palette::is_palette(items, query, conns, snippets, collapsed, texts),
    ensures
        forall|i: int| 0 <= i < items.len() ==> honest(#[trigger] items[i], conns, snippets, collapsed, texts),
{
    let m = choose|m: Making| palette::made(m, items, query, conns, snippets, collapsed, texts);
    lemma_ranked(m, items, query, conns, snippets, collapsed, texts);
    let q = text::trim(query);
    lemma_first_conn(m.ranked, 0);
    match (q.len() > 0, palette::first_conn(m.ranked, 0)) {
        (true, Some(at)) => {
            let more = palette::with_actions(m.ranked, at, m.acts);
            lemma_kept(more);
            let k = choose|k: int| 0 <= k < conns.len() && opens(m.ranked[at], #[trigger] conns[k]);
            lemma_row_actions(m.acts, m.ranked[at], conns[k], texts);
            assert forall|i: int| 0 <= i < items.len() implies honest(
                #[trigger] items[i],
                conns,
                snippets,
                collapsed,
                texts,
            ) by {
                let j = choose|j: int| 0 <= j < more.len() && more[j] == items[i];
                if j <= at {
                    assert(m.ranked[j] == items[i]);
                } else if j < at + 5 {
                    assert(m.acts[j - at - 1] == items[i]);
                    assert(about(items[i], conns[k], collapsed, texts));
                } else {
                    assert(m.ranked[j - 4] == items[i]);
                }
            }
        },
        _ => {
            lemma_kept(m.ranked);
            assert forall|i: int| 0 <= i < items.len() implies honest(
                #[trigger] items[i],
                conns,
                snippets,
                collapsed,
                texts,
            ) by {
                let j = choose|j: int| 0 <= j < m.ranked.len() && m.ranked[j] == items[i];
            }
        },
    }
}

/// What a row of a palette does tells what it is called: only a row labelled so
/// edits, tests, clones or deletes a connection, and only that one.
pub proof fn law_no_row_does_something_else(
    items: Seq<PaletteItem>,
    query: Seq<char>,
    conns: Seq<ConnectionInfo>,
    snippets: Seq<Snippet>,
    collapsed: Set<Seq<char>>,
    texts: Catalog,
    i: int,
    id: String,
)
    requires
        palette::is_palette(items, query, conns, snippets, collapsed, texts),
        0 <= i < items.len(),
    ensures
        items[i].msg == Message::ShowForm(Some(id)) ==> exists|k: int|
            0 <= k < conns.len() && (#[trigger] conns[k]).id == id && items[i].label@ == texts.says_with(
                "palette.act.edit_conn"@,
                "name"@,
                conns[k].name@,
            ),
        items[i].msg == Message::TestConnectionInList(id) ==> exists|k: int|
            0 <= k < conns.len() && (#[trigger] conns[k]).id == id && items[i].label@ == texts.says_with(
                "palette.act.test_conn"@,
                "name"@,
                conns[k].name@,
            ),
        items[i].msg == Message::CloneConnection(id) ==> exists|k: int|
            0 <= k < conns.len() && (#[trigger] conns[k]).id == id && items[i].label@ == texts.says_with(
                "palette.act.clone_conn"@,
                "name"@,
                conns[k].name@,
            ),
        items[i].msg == Message::DeleteConnection(id) ==> exists|k: int|
            0 <= k < conns.len() && (#[trigger] conns[k]).id == id && items[i].label@ == texts.says_with(
                "palette.act.delete_conn"@,
                "name"@,
                conns[k].name@,
            ),
        items[i].msg == Message::ConnectTo(id) ==> exists|k: int|
            0 <= k < conns.len() && (#[trigger] conns[k]).id == id && items[i].label@ == conns[k].name@,
{
    law_every_row_does_what_it_says(items, query, conns, snippets, collapsed, texts);
    let it = items[i];
    assert(honest(it, conns, snippets, collapsed, texts));
    if exists|k: int| 0 <= k < conns.len() && about(it, #[trigger] conns[k], collapsed, texts) {
        let k = choose|k: int| 0 <= k < conns.len() && about(it, #[trigger] conns[k], collapsed, texts);
        assert(about(it, conns[k], collapsed, texts));
    }
}

// ---- which rows there are, and in what order ------------------------------------------------------

/// The row acts on one connection beside opening it.
pub open spec fn is_row_action(it: PaletteItem) -> bool {
    ||| it.msg is ShowForm && it.msg->ShowForm_0 is Some
    ||| it.msg is TestConnectionInList
    ||| it.msg is CloneConnection
    ||| it.msg is DeleteConnection
}

/// While nothing had to be left out, the first connection that a typed query finds has
/// the four rows that edit, test, clone and delete it right under its own.
pub proof fn law_the_best_match_has_its_actions_under_it(
    items: Seq<PaletteItem>,
    query: Seq<char>,
    conns: Seq<ConnectionInfo>,
    snippets: Seq<Snippet>,
    collapsed: Set<Seq<char>>,
    texts: Catalog,
    at: int,
)
    requires
        palette::is_palette(items, query, conns, snippets, collapsed, texts),
        text::trim(query).len() > 0,
        items.len() < palette::PALETTE_MAX,
        0 <= at < items.len(),
        items[at].msg is ConnectTo,
        forall|i: int| 0 <= i < at ==> !((#[trigger] items[i]).msg is ConnectTo),
    ensures
        at + 4 < items.len(),
        exists|k: int| {
            &&& 0 <= k < conns.len()
            &&& opens(items[at], #[trigger] conns[k])
            &&& edits(items[at + 1], conns[k], texts)
            &&& tests(items[at + 2], conns[k], texts)
            &&& copies(items[at + 3], conns[k], texts)
            &&& deletes(items[at + 4], conns[k], texts)
        },
{
    let m = choose|m: Making| palette::made(m, items, query, conns, snippets, collapsed, texts);
    lemma_ranked(m, items, query, conns, snippets, collapsed, texts);
    lemma_first_conn(m.ranked, 0);
    match palette::first_conn(m.ranked, 0) {
        Some(first) => {
            let more = palette::with_actions(m.ranked, first, m.acts);
            lemma_not_trimmed(more);
            assert(items == more);
            assert(items[first] == m.ranked[first]);
            if at > first {
                assert(items[first].msg is ConnectTo);
            } else {
                assert(items[at] == m.ranked[at]);
            }
            assert(at == first);
            let k = choose|k: int| 0 <= k < conns.len() && opens(m.ranked[at], #[trigger] conns[k]);
            lemma_row_actions(m.acts, m.ranked[at], conns[k], texts);
            assert(items[at + 1] == m.acts[0]);
            assert(items[at + 2] == m.acts[1]);
            assert(items[at + 3] == m.acts[2]);
            assert(items[at + 4] == m.acts[3]);
            assert(opens(items[at], conns[k]));
        },
        None => {
            lemma_not_trimmed(m.ranked);
            assert(items == m.ranked);
            assert(m.ranked[at].msg is ConnectTo);
        },
    }
}

proof fn lemma_not_trimmed(items: Seq<PaletteItem>)
    ensures
        palette::trimmed(items).len() < palette::PALETTE_MAX ==> palette::trimmed(items) == items,
        items.len() >= palette::PALETTE_MAX ==> palette::trimmed(items).len() == palette::PALETTE_MAX,
    decreases items.len(),
{
    palette::lemma_last_other(items, items.len() as int);
    if items.len() > palette::PALETTE_MAX {
        match palette::last_other(items, items.len() as int) {
            Some(at) => {
                lemma_not_trimmed(items.remove(at));
            },
            None => {},
        }
    }
}

/// A palette has as many rows as it shows without scrolling, twelve, or fewer.
pub proof fn law_a_palette_has_no_more_rows_than_it_shows(
    items: Seq<PaletteItem>,
    query: Seq<char>,
    conns: Seq<ConnectionInfo>,
    snippets: Seq<Snippet>,
    collapsed: Set<Seq<char>>,
    texts: Catalog,
)
    requires
        palette::is_palette(items, query, conns, snippets, collapsed, texts),
    ensures
        items.len() <= 12,
{
    let m = choose|m: Making| palette::made(m, items, query, conns, snippets, collapsed, texts);
    palette::law_every_connection_stays_in_reach(m.ranked);
    match palette::first_conn(m.ranked, 0) {
        Some(at) => palette::law_every_connection_stays_in_reach(palette::with_actions(m.ranked, at, m.acts)),
        None => {},
    }
}

/// Beside the rows that act on the best match, a better match stands higher; of equal
/// ones, connections stand above the rest.
pub proof fn law_better_matches_stand_higher(
    items: Seq<PaletteItem>,
    query: Seq<char>,
    conns: Seq<ConnectionInfo>,
    snippets: Seq<Snippet>,
    collapsed: Set<Seq<char>>,
    texts: Catalog,
    i: int,
    j: int,
)
    requires
        palette::is_palette(items, query, conns, snippets, collapsed, texts),
        0 <= i < j < items.len(),
        !is_row_action(items[i]),
        !is_row_action(items[j]),
    ensures
        items[i].score >= items[j].score,
        items[i].score == items[j].score && items[j].place is Some ==> items[i].place is Some && items[i].place->0
            <= items[j].place->0,
{
    let m = choose|m: Making| palette::made(m, items, query, conns, snippets, collapsed, texts);
    lemma_ranked(m, items, query, conns, snippets, collapsed, texts);
    lemma_first_conn(m.ranked, 0);
    let q = text::trim(query);
    let r = m.ranked;
    match (q.len() > 0, palette::first_conn(r, 0)) {
        (true, Some(at)) => {
            let more = palette::with_actions(r, at, m.acts);
            lemma_kept(more);
            assert(stood_before(more, items[i], items[j]));
            let (a, b) = choose|a: int, b: int|
                0 <= a < b < more.len() && #[trigger] more[a] == items[i] && #[trigger] more[b] == items[j];
            let k = choose|k: int| 0 <= k < conns.len() && opens(r[at], #[trigger] conns[k]);
            lemma_row_actions(m.acts, r[at], conns[k], texts);
            assert(at < a < at + 5 ==> more[a] == m.acts[a - at - 1]);
            assert(at < b < at + 5 ==> more[b] == m.acts[b - at - 1]);
            let x = if a <= at {
                a
            } else {
                a - 4
            };
            let y = if b <= at {
                b
            } else {
                b - 4
            };
            assert(r[x] == more[a] && r[y] == more[b]);
            assert((BestFirst {  }).le(r[x], r[y]));
        },
        _ => {
            lemma_kept(r);
            assert(stood_before(r, items[i], items[j]));
            let (a, b) = choose|a: int, b: int|
                0 <= a < b < r.len() && #[trigger] r[a] == items[i] && #[trigger] r[b] == items[j];
            assert((BestFirst {  }).le(r[a], r[b]));
        },
    }
}

/// An entry of every connection that matches is made, five above the score of the match.
proof fn lemma_conn_entry_made(
    items: Seq<PaletteItem>,
    q: Seq<char>,
    ordered: Seq<&ConnectionInfo>,
    n: int,
    texts: Catalog,
    k: int,
)
    requires
        0 <= k < n <= ordered.len(),
        palette::conn_items(items, q, ordered, n, texts),
        palette::score_of(q, palette::conn_hay(*ordered[k], texts)) is Some,
    ensures
        exists|i: int| {
            &&& 0 <= i < items.len()
            &&& opens(#[trigger] items[i], *ordered[k])
            &&& items[i].score == palette::score_of(q, palette::conn_hay(*ordered[k], texts))->0 + 5
        },
    decreases n,
{
    let shorter = items.drop_last();
    if k == n - 1 {
        assert(opens(items[items.len() - 1], *ordered[k]));
    } else if palette::score_of(q, palette::conn_hay(*ordered[n - 1], texts)) is Some {
        lemma_conn_entry_made(shorter, q, ordered, n - 1, texts, k);
        let i = choose|i: int| {
            &&& 0 <= i < shorter.len()
            &&& opens(#[trigger] shorter[i], *ordered[k])
            &&& shorter[i].score == palette::score_of(q, palette::conn_hay(*ordered[k], texts))->0 + 5
        };
        assert(items[i] == shorter[i]);
    } else {
        lemma_conn_entry_made(items, q, ordered, n - 1, texts, k);
    }
}

/// How many rows of the palette open connections.
pub open spec fn openers(items: Seq<PaletteItem>) -> Seq<PaletteItem> {
    items.filter(|it: PaletteItem| it.msg is ConnectTo)
}

/// While fewer connections match than the palette has rows for, each one that matches
/// has a row that opens it, whatever else matches.
pub proof fn law_every_match_can_be_opened(
    items: Seq<PaletteItem>,
    query: Seq<char>,
    conns: Seq<ConnectionInfo>,
    snippets: Seq<Snippet>,
    collapsed: Set<Seq<char>>,
    texts: Catalog,
    k: int,
)
    requires
        palette::is_palette(items, query, conns, snippets, collapsed, texts),
        openers(items).len() < palette::PALETTE_MAX,
        0 <= k < conns.len(),
        palette::score_of(
            text::trim(query),
            conns[k].name@ + " "@ + leads_to(conns[k]) + " "@ + groups::label_of(conns[k].group@, texts),
        ) is Some,
    ensures
        exists|i: int| 0 <= i < items.len() && opens(#[trigger] items[i], conns[k]),
{
    let m = choose|m: Making| palette::made(m, items, query, conns, snippets, collapsed, texts);
    let q = text::trim(query);
    let list = Seq::new(conns.len(), |i: int| &conns[i]);
    assert(list[k] == &conns[k]);
    lemma_reordered(list, m.ordered, k);
    let o = choose|o: int| 0 <= o < m.ordered.len() && m.ordered[o] == list[k];
    lemma_conn_entry_made(m.conns, q, m.ordered, m.ordered.len() as int, texts, o);
    let e = choose|e: int| 0 <= e < m.conns.len() && opens(#[trigger] m.conns[e], *m.ordered[o]);
    let it = m.conns[e];
    let all = m.conns + m.actions + m.folds + m.snippets;
    assert(all[e] == it);
    lemma_reordered(all, m.ranked, e);
    let at = choose|at: int| 0 <= at < m.ranked.len() && m.ranked[at] == it;
    lemma_first_conn(m.ranked, 0);
    let full = match (q.len() > 0, palette::first_conn(m.ranked, 0)) {
        (true, Some(first)) => palette::with_actions(m.ranked, first, m.acts),
        _ => m.ranked,
    };
    assert(full.contains(it)) by {
        match (q.len() > 0, palette::first_conn(m.ranked, 0)) {
            (true, Some(first)) => {
                if at <= first {
                    assert(full[at] == it);
                } else {
                    assert(full[at + 4] == it);
                }
            },
            _ => {
                assert(full[at] == it);
            },
        }
    }
    palette::law_every_connection_stays_in_reach(full);
    let p = |x: PaletteItem| palette::is_conn(x);
    assert(openers(items) == palette::conns_of(items)) by {
        assert((|x: PaletteItem| x.msg is ConnectTo) =~= p);
    }
    full.lemma_filter_contains(p, full.index_of(it));
    assert(palette::conns_of(full).contains(it));
    if palette::conns_of(full).len() > palette::PALETTE_MAX {
        assert forall|i: int| 0 <= i < items.len() implies palette::is_conn(#[trigger] items[i]) by {
            full.lemma_filter_pred(p, i);
            assert(items[i] == palette::conns_of(full)[i]);
        }
        palette::lemma_all_conns(items);
        assert(false);
    }
    items.lemma_filter_contains_rev(p, it);
    let i = choose|i: int| 0 <= i < items.len() && items[i] == it;
    assert(opens(items[i], conns[k]));
}

// ---- what a match is worth ------------------------------------------------------------------------

proof fn lemma_found_bound(q: Seq<char>, t: Seq<char>, n: int)
    requires
        0 <= n <= t.len(),
    ensures
        0 <= palette::found_in(q, t, n) <= n,
        palette::found_in(q, t, n) <= q.len(),
        palette::worth(q, t, n) >= 10 * palette::found_in(q, t, n),
        palette::worth(q, t, n) <= 16 * palette::found_in(q, t, n) + 2,
        palette::found_in(q, t, n) == 0 ==> palette::worth(q, t, n) == 0,
        n > 0 && palette::is_hit(q, t, n - 1) ==> palette::found_in(q, t, n) > 0,
    decreases n,
{
    if n > 0 {
        lemma_found_bound(q, t, n - 1);
        if palette::is_hit(q, t, n - 1) {
            assert(palette::found_in(q, t, n - 1) < q.len());
        }
        if n > 1 {
            lemma_found_bound(q, t, n - 2);
        }
    }
}

proof fn lemma_prefix_worth(q: Seq<char>, t: Seq<char>, n: int)
    requires
        0 <= n <= t.len(),
        q.len() <= t.len(),
        t.take(q.len() as int) == q,
    ensures
        n <= q.len() ==> palette::found_in(q, t, n) == n && palette::worth(q, t, n) == (if n == 0 {
            0
        } else {
            16 * n + 2
        }),
        n > q.len() ==> palette::found_in(q, t, n) == q.len() && palette::worth(q, t, n) == (if q.len() == 0 {
            0
        } else {
            16 * q.len() + 2
        }),
    decreases n,
{
    if n > 0 {
        lemma_prefix_worth(q, t, n - 1);
        if n <= q.len() {
            assert(q[n - 1] == t[n - 1]);
            assert(palette::is_hit(q, t, n - 1));
            if n > 1 {
                lemma_prefix_worth(q, t, n - 2);
                assert(q[n - 2] == t[n - 2]);
                assert(palette::is_hit(q, t, n - 2));
            }
        } else {
            assert(!palette::is_hit(q, t, n - 1));
        }
    }
}

/// Of names of one length none matches better than one that begins with the query, and
/// of names that begin with the query none better than the shortest.
pub proof fn law_a_name_that_begins_so_matches_best(q: Seq<char>, t: Seq<char>, u: Seq<char>)
    requires
        lettercase::folded(q).len() > 0,
        q.len() > 0,
        lettercase::folded(q).len() <= lettercase::folded(t).len() <= lettercase::folded(u).len(),
        lettercase::folded(t).take(lettercase::folded(q).len() as int) == lettercase::folded(q),
    ensures
        palette::score_of(q, t) is Some,
        palette::score_of(q, u) is Some ==> palette::score_of(q, u)->0 <= palette::score_of(q, t)->0,
        palette::score_of(q, t)->0 == 16 * lettercase::folded(q).len() + 2 - lettercase::folded(t).len() as int / 4,
{
    let (a, b, c) = (lettercase::folded(q), lettercase::folded(t), lettercase::folded(u));
    lemma_prefix_worth(a, b, b.len() as int);
    lemma_found_bound(a, c, c.len() as int);
}

/// Each character found counts ten at least, and what is longer counts for less.
pub proof fn law_every_character_found_counts(q: Seq<char>, t: Seq<char>)
    requires
        q.len() > 0,
        palette::score_of(q, t) is Some,
    ensures
        palette::score_of(q, t)->0 >= 10 * lettercase::folded(q).len() - lettercase::folded(t).len() as int / 4,
        palette::score_of(q, t)->0 <= 16 * lettercase::folded(q).len() + 2 - lettercase::folded(t).len() as int / 4,
{
    let (a, b) = (lettercase::folded(q), lettercase::folded(t));
    lemma_found_bound(a, b, b.len() as int);
}

} // verus!
