//! The command palette.

use std::marker::PhantomData;

use vstd::prelude::*;
use vstd::string::*;

use crate::catalog::Catalog;
use crate::connections::ByOrderIn;
use crate::connections::ConnectionInfo;
use crate::forms;
use crate::groups;
use crate::lettercase;
use crate::names::NameSet;
use crate::order;
use crate::order::Rank;
use crate::settings::Snippet;
use crate::state::Message;
use crate::text;
use crate::titles;

verus! {

/// One entry of the palette.
pub struct PaletteItem {
    pub label: String,
    pub meta: String,
    /// Key of the short tag that says what kind of entry it is.
    pub kind: &'static str,
    pub msg: Message,
    pub score: i128,
    /// Where a connection stands in the sidebar's order.
    pub place: Option<usize>,
}

/// Rows the palette shows at most — its list does not scroll.
pub const PALETTE_MAX: usize = 12;

/// Display columns a palette row gives its label and its meta at the default
/// UI font size.
pub const PALETTE_LABEL_COLS: usize = 40;
pub const PALETTE_META_COLS: usize = 32;

// ---- fuzzy matching -----------------------------------------------------------------------------

/// How many characters of `q` are found, in order, in the first `n` of `t`.
pub open spec fn found_in(q: Seq<char>, t: Seq<char>, n: int) -> int
    decreases n, 0int,
{
    if n <= 0 {
        0
    } else {
        let k = found_in(q, t, n - 1);
        if is_hit(q, t, n - 1) {
            k + 1
        } else {
            k
        }
    }
}

/// The character at `n` of `t` is the next one of `q`.
pub open spec fn is_hit(q: Seq<char>, t: Seq<char>, n: int) -> bool
    decreases n, 1int,
    when n >= 0
{
    let k = found_in(q, t, n);
    k < q.len() && t[n] == q[k]
}

/// What the hits in the first `n` characters are worth: ten each, eight more
/// for the very first character, six more right behind another hit.
pub open spec fn worth(q: Seq<char>, t: Seq<char>, n: int) -> int
    decreases n,
{
    if n <= 0 {
        0
    } else {
        worth(q, t, n - 1) + (if is_hit(q, t, n - 1) {
            10int + (if n - 1 == 0 {
                8int
            } else {
                0
            }) + (if n - 1 > 0 && is_hit(q, t, n - 2) {
                6int
            } else {
                0
            })
        } else {
            0
        })
    }
}

/// The score of a target that holds the query; nothing for one that does not.
pub open spec fn score_of(query: Seq<char>, target: Seq<char>) -> Option<int> {
    if query.len() == 0 {
        Some(0)
    } else {
        let q = lettercase::folded(query);
        let t = lettercase::folded(target);
        if found_in(q, t, t.len() as int) == q.len() {
            Some(worth(q, t, t.len() as int) - t.len() as int / 4)
        } else {
            None
        }
    }
}

proof fn lemma_worth_bound(q: Seq<char>, t: Seq<char>, n: int)
    requires
        n >= 0,
    ensures
        0 <= worth(q, t, n) <= 24 * n,
        0 <= found_in(q, t, n) <= q.len(),
        found_in(q, t, n) <= n,
    decreases n,
{
    if n > 0 {
        lemma_worth_bound(q, t, n - 1);
    }
}

/// Case-insensitive subsequence fuzzy match. `None` when `query` is not a
/// subsequence of `target`; a higher score is a better match (prefix and
/// consecutive-run bonuses, mild length penalty). Folded as the sidebar search
/// folds: full-width letters match their ASCII selves.
pub fn fuzzy_score(query: &str, target: &str) -> (r: Option<i128>)
    ensures
        match r {
            Some(s) => score_of(query@, target@) == Some(s as int),
            None => score_of(query@, target@) is None,
        },
        r matches Some(s) ==> -(usize::MAX as int) <= s <= 24 * usize::MAX,
{
    if forms::is_empty_text(query) {
        return Some(0);
    }
    let q = text::chars_of(lettercase::search_fold(query).as_str());
    let t = text::chars_of(lettercase::search_fold(target).as_str());
    let mut qi: usize = 0;
    let mut score: i128 = 0;
    let mut hit_before = false;
    let mut ti: usize = 0;
    while ti < t.len()
        invariant
            ti <= t.len(),
            qi == found_in(q@, t@, ti as int),
            qi <= q.len(),
            score == worth(q@, t@, ti as int),
            0 <= score <= 24 * ti,
            hit_before == (ti > 0 && is_hit(q@, t@, ti - 1)),
        decreases t.len() - ti,
    {
        let hit = qi < q.len() && t[ti] == q[qi];
        assert(hit == is_hit(q@, t@, ti as int));
        if hit {
            score = score + 10;
            if ti == 0 {
                score = score + 8;
            }
            if hit_before {
                score = score + 6;
            }
            qi += 1;
        }
        hit_before = hit;
        ti += 1;
    }
    if qi == q.len() {
        Some(score - (t.len() / 4) as i128)
    } else {
        None
    }
}

/// `q` can be read off `t` by leaving characters out.
pub open spec fn is_subsequence(q: Seq<char>, t: Seq<char>) -> bool
    decreases t.len(),
{
    if q.len() == 0 {
        true
    } else if t.len() == 0 {
        false
    } else if q.last() == t.last() {
        is_subsequence(q.drop_last(), t.drop_last())
    } else {
        is_subsequence(q, t.drop_last())
    }
}

/// Whatever is found greedily can be read off, and whatever can be read off is
/// found.
pub proof fn law_a_match_is_a_subsequence(q: Seq<char>, t: Seq<char>)
    ensures
        found_in(q, t, t.len() as int) == q.len() <==> is_subsequence(q, t),
{
    lemma_worth_bound(q, t, t.len() as int);
    assert(q.take(q.len() as int) =~= q);
    if is_subsequence(q, t) {
        assert(t.take(t.len() as int) =~= t);
        lemma_subsequence_is_found(q, t, t.len() as int, q.len() as int);
    }
    lemma_found_is_subsequence(q, t, t.len() as int);
    assert(t.take(t.len() as int) =~= t);
    if found_in(q, t, t.len() as int) == q.len() {
        assert(q.take(q.len() as int) =~= q);
    }
}

/// What can be read off a start of `t` is found in it.
proof fn lemma_subsequence_is_found(q: Seq<char>, t: Seq<char>, n: int, k: int)
    requires
        0 <= n <= t.len(),
        0 <= k <= q.len(),
        is_subsequence(q.take(k), t.take(n)),
    ensures
        found_in(q, t, n) >= k,
    decreases n,
{
    lemma_worth_bound(q, t, n);
    if n > 0 && k > 0 {
        lemma_worth_bound(q, t, n - 1);
        assert(t.take(n).drop_last() =~= t.take(n - 1));
        assert(q.take(k).drop_last() =~= q.take(k - 1));
        if q.take(k).last() == t.take(n).last() {
            lemma_subsequence_is_found(q, t, n - 1, k - 1);
        } else {
            lemma_subsequence_is_found(q, t, n - 1, k);
        }
    }
}

proof fn lemma_found_is_subsequence(q: Seq<char>, t: Seq<char>, n: int)
    requires
        0 <= n <= t.len(),
    ensures
        is_subsequence(q.take(found_in(q, t, n)), t.take(n)),
    decreases n,
{
    lemma_worth_bound(q, t, n);
    if n > 0 {
        lemma_worth_bound(q, t, n - 1);
        lemma_found_is_subsequence(q, t, n - 1);
        let k = found_in(q, t, n - 1);
        assert(t.take(n).drop_last() =~= t.take(n - 1));
        if is_hit(q, t, n - 1) {
            assert(q.take(k + 1).drop_last() =~= q.take(k));
        } else {
            if k > 0 && q.take(k).last() == t.take(n).last() {
                lemma_drop_last_subsequence(q.take(k), t.take(n - 1));
            }
        }
    }
}

proof fn lemma_drop_last_subsequence(q: Seq<char>, t: Seq<char>)
    requires
        q.len() > 0,
        is_subsequence(q, t),
    ensures
        is_subsequence(q.drop_last(), t),
    decreases t.len(), 0int,
{
    if t.len() > 0 {
        if q.last() == t.last() {
            lemma_extend_subsequence(q.drop_last(), t.drop_last(), t.last());
            assert(t.drop_last().push(t.last()) =~= t);
        } else {
            lemma_drop_last_subsequence(q, t.drop_last());
            lemma_extend_subsequence(q.drop_last(), t.drop_last(), t.last());
            assert(t.drop_last().push(t.last()) =~= t);
        }
    }
}

proof fn lemma_extend_subsequence(q: Seq<char>, t: Seq<char>, c: char)
    requires
        is_subsequence(q, t),
    ensures
        is_subsequence(q, t.push(c)),
    decreases t.len(), 1int,
{
    assert(t.push(c).drop_last() =~= t);
    if q.len() > 0 && q.last() == c {
        lemma_drop_last_subsequence(q, t);
    }
}

// ---- the entries ------------------------------------------------------------------------------------

/// The item reads so, does so and scores so.
pub open spec fn is_item(
    it: PaletteItem,
    label: Seq<char>,
    meta: Seq<char>,
    kind: Seq<char>,
    msg: Message,
    score: int,
    place: Option<usize>,
) -> bool {
    &&& it.label@ == label
    &&& it.meta@ == meta
    &&& it.kind@ == kind
    &&& it.msg == msg
    &&& it.score == score
    &&& it.place == place
}

/// No score is near the end of its range.
pub open spec fn scores_fit(items: Seq<PaletteItem>) -> bool {
    forall|i: int| 0 <= i < items.len() ==> (#[trigger] items[i]).score >= -(usize::MAX as int)
}

/// Where the connection with the id stands; of two with the same id, the last.
pub open spec fn place_of(ordered: Seq<&ConnectionInfo>, id: Seq<char>) -> int
    decreases ordered.len(),
{
    if ordered.len() == 0 {
        -1
    } else if ordered.last().id@ == id {
        ordered.len() - 1
    } else {
        place_of(ordered.drop_last(), id)
    }
}

fn find_place(ordered: &Vec<&ConnectionInfo>, at: usize) -> (r: usize)
    requires
        at < ordered@.len(),
    ensures
        r == place_of(ordered@, ordered@[at as int].id@),
        r < ordered@.len(),
{
    let mut n: usize = ordered.len();
    assert(ordered@.take(n as int) =~= ordered@);
    while n > at + 1 && !text::same_text(ordered[n - 1].id.as_str(), ordered[at].id.as_str())
        invariant
            at < n <= ordered@.len(),
            place_of(ordered@, ordered@[at as int].id@) == place_of(
                ordered@.take(n as int),
                ordered@[at as int].id@,
            ),
        decreases n,
    {
        assert(ordered@.take(n as int).drop_last() =~= ordered@.take(n - 1));
        n -= 1;
    }
    assert(ordered@.take(n as int).last() == ordered@[n - 1]);
    n - 1
}

pub open spec fn conn_meta(c: ConnectionInfo) -> Seq<char> {
    titles::address(c.username@, c.host@, c.port as nat)
}

/// What a query is held against for a connection: its name, where it leads,
/// and its group as the sidebar shows it.
pub open spec fn conn_hay(c: ConnectionInfo, texts: Catalog) -> Seq<char> {
    c.name@ + " "@ + conn_meta(c) + " "@ + groups::label_of(c.group@, texts)
}

/// The item is the entry of a connection that scores `s`. Connections get a
/// small priority bump.
pub open spec fn is_conn_item(it: PaletteItem, c: ConnectionInfo, s: int, place: int) -> bool {
    is_item(
        it,
        c.name@,
        conn_meta(c),
        "palette.kind.conn"@,
        Message::ConnectTo(c.id),
        s + 5,
        Some(place as usize),
    )
}

/// `items` are the entries of those of the first `n` connections that match.
pub open spec fn conn_items(
    items: Seq<PaletteItem>,
    q: Seq<char>,
    ordered: Seq<&ConnectionInfo>,
    n: int,
    texts: Catalog,
) -> bool
    decreases n,
{
    if n <= 0 {
        items.len() == 0
    } else {
        let c = *ordered[n - 1];
        match score_of(q, conn_hay(c, texts)) {
            Some(s) => items.len() > 0 && is_conn_item(items.last(), c, s, place_of(ordered, c.id@))
                && conn_items(items.drop_last(), q, ordered, n - 1, texts),
            None => conn_items(items, q, ordered, n - 1, texts),
        }
    }
}

fn list_conns(q: &str, ordered: &Vec<&ConnectionInfo>, texts: &Catalog) -> (items: Vec<PaletteItem>)
    ensures
        conn_items(items@, q@, ordered@, ordered@.len() as int, *texts),
        scores_fit(items@),
{
    let mut items: Vec<PaletteItem> = Vec::new();
    let mut i: usize = 0;
    while i < ordered.len()
        invariant
            i <= ordered.len(),
            conn_items(items@, q@, ordered@, i as int, *texts),
            scores_fit(items@),
        decreases ordered.len() - i,
    {
        let c = ordered[i];
        let ghost before = items@;
        let meta = titles::address_text(c.username.as_str(), c.host.as_str(), c.port);
        let mut hay = c.name.clone();
        hay.append(" ");
        hay.append(meta.as_str());
        hay.append(" ");
        hay.append(groups::group_label(c.group.as_str(), texts).as_str());
        assert(hay@ =~= conn_hay(*c, *texts));
        match fuzzy_score(q, hay.as_str()) {
            Some(s) => {
                let place = find_place(ordered, i);
                items.push(PaletteItem {
                    label: c.name.clone(),
                    meta,
                    kind: "palette.kind.conn",
                    msg: Message::ConnectTo(c.id.clone()),
                    score: s + 5,
                    place: Some(place),
                });
                assert(items@.drop_last() =~= before);
            },
            None => {},
        }
        i += 1;
    }
    items
}

/// Key of the name of action `n`.
pub open spec fn action_key(n: int) -> Seq<char> {
    if n == 0 {
        "palette.act.new_conn"@
    } else if n == 1 {
        "palette.act.connect"@
    } else if n == 2 {
        "palette.act.settings"@
    } else if n == 3 {
        "palette.act.broadcast"@
    } else if n == 4 {
        "palette.act.snippets"@
    } else if n == 5 {
        "palette.act.keys"@
    } else if n == 6 {
        "palette.act.tunnels"@
    } else if n == 7 {
        "palette.act.proxies"@
    } else if n == 8 {
        "palette.act.history"@
    } else if n == 9 {
        "palette.act.logs"@
    } else if n == 10 {
        "palette.act.sync"@
    } else if n == 11 {
        "palette.act.split_v"@
    } else if n == 12 {
        "palette.act.split_h"@
    } else if n == 13 {
        "palette.act.import_ssh"@
    } else if n == 14 {
        "sidebar.collapse_all"@
    } else {
        "sidebar.expand_all"@
    }
}

/// What action `n` does.
pub open spec fn action_msg(n: int) -> Message {
    if n == 0 {
        Message::ShowForm(None)
    } else if n == 1 {
        Message::ShowConnectDialog
    } else if n == 2 {
        Message::ShowSettings
    } else if n == 3 {
        Message::ShowBroadcastDialog
    } else if n == 4 {
        Message::ShowSnippetsPanel
    } else if n == 5 {
        Message::ShowKeyManager
    } else if n == 6 {
        Message::ShowTunnelManager
    } else if n == 7 {
        Message::ShowProxyManager
    } else if n == 8 {
        Message::ShowHistory
    } else if n == 9 {
        Message::ShowLogViewer
    } else if n == 10 {
        Message::ToggleSyncInput
    } else if n == 11 {
        Message::SplitTab(true)
    } else if n == 12 {
        Message::SplitTab(false)
    } else if n == 13 {
        Message::ImportAllSshConfigs
    } else if n == 14 {
        Message::SetAllGroupsCollapsed(true)
    } else {
        Message::SetAllGroupsCollapsed(false)
    }
}

fn action(n: usize) -> (r: (&'static str, Message))
    ensures
        r.0@ == action_key(n as int),
        r.1 == action_msg(n as int),
{
    match n {
        0 => ("palette.act.new_conn", Message::ShowForm(None)),
        1 => ("palette.act.connect", Message::ShowConnectDialog),
        2 => ("palette.act.settings", Message::ShowSettings),
        3 => ("palette.act.broadcast", Message::ShowBroadcastDialog),
        4 => ("palette.act.snippets", Message::ShowSnippetsPanel),
        5 => ("palette.act.keys", Message::ShowKeyManager),
        6 => ("palette.act.tunnels", Message::ShowTunnelManager),
        7 => ("palette.act.proxies", Message::ShowProxyManager),
        8 => ("palette.act.history", Message::ShowHistory),
        9 => ("palette.act.logs", Message::ShowLogViewer),
        10 => ("palette.act.sync", Message::ToggleSyncInput),
        11 => ("palette.act.split_v", Message::SplitTab(true)),
        12 => ("palette.act.split_h", Message::SplitTab(false)),
        13 => ("palette.act.import_ssh", Message::ImportAllSshConfigs),
        14 => ("sidebar.collapse_all", Message::SetAllGroupsCollapsed(true)),
        _ => ("sidebar.expand_all", Message::SetAllGroupsCollapsed(false)),
    }
}

/// `items` are the entries of those of the first `n` actions that match.
pub open spec fn action_items(items: Seq<PaletteItem>, q: Seq<char>, n: int, texts: Catalog) -> bool
    decreases n,
{
    if n <= 0 {
        items.len() == 0
    } else {
        let label = texts.says(action_key(n - 1));
        match score_of(q, label) {
            Some(s) => items.len() > 0 && is_item(
                items.last(),
                label,
                Seq::empty(),
                "palette.kind.action"@,
                action_msg(n - 1),
                s,
                None,
            ) && action_items(items.drop_last(), q, n - 1, texts),
            None => action_items(items, q, n - 1, texts),
        }
    }
}

fn list_actions(q: &str, texts: &Catalog) -> (items: Vec<PaletteItem>)
    ensures
        action_items(items@, q@, 16, *texts),
        scores_fit(items@),
{
    let mut items: Vec<PaletteItem> = Vec::new();
    let mut i: usize = 0;
    while i < 16
        invariant
            i <= 16,
            action_items(items@, q@, i as int, *texts),
            scores_fit(items@),
        decreases 16 - i,
    {
        let ghost before = items@;
        let (key, msg) = action(i);
        let label = texts.t(key);
        match fuzzy_score(q, label.as_str()) {
            Some(s) => {
                items.push(PaletteItem {
                    label,
                    meta: String::new(),
                    kind: "palette.kind.action",
                    msg,
                    score: s,
                    place: None,
                });
                assert(items@.drop_last() =~= before);
                assert(items@.last().meta@ =~= Seq::<char>::empty());
            },
            None => {},
        }
        i += 1;
    }
    items
}

/// No connection before place `i` is in the same group.
pub open spec fn first_of_group(conns: Seq<ConnectionInfo>, i: int) -> bool {
    forall|j: int| 0 <= j < i ==> (#[trigger] conns[j]).group@ != conns[i].group@
}

fn is_first_of_group(conns: &[ConnectionInfo], i: usize) -> (r: bool)
    requires
        i < conns@.len(),
    ensures
        r == first_of_group(conns@, i as int),
{
    let mut j: usize = 0;
    while j < i
        invariant
            j <= i < conns@.len(),
            forall|k: int| 0 <= k < j ==> (#[trigger] conns@[k]).group@ != conns@[i as int].group@,
        decreases i - j,
    {
        if text::same_text(conns[j].group.as_str(), conns[i].group.as_str()) {
            return false;
        }
        j += 1;
    }
    true
}

/// What folding or unfolding the group is called.
pub open spec fn fold_label(group: Seq<char>, collapsed: Set<Seq<char>>, texts: Catalog) -> Seq<char> {
    texts.says_with(
        if collapsed.contains(group) {
            "palette.act.expand_group"@
        } else {
            "palette.act.collapse_group"@
        },
        "name"@,
        groups::label_of(group, texts),
    )
}

/// `items` are the fold entries of those groups among the first `n`
/// connections whose name matches, each group once.
pub open spec fn group_items(
    items: Seq<PaletteItem>,
    q: Seq<char>,
    conns: Seq<ConnectionInfo>,
    n: int,
    collapsed: Set<Seq<char>>,
    texts: Catalog,
) -> bool
    decreases n,
{
    if n <= 0 {
        items.len() == 0
    } else {
        let c = conns[n - 1];
        match score_of(q, groups::label_of(c.group@, texts)) {
            Some(s) => if first_of_group(conns, n - 1) {
                items.len() > 0 && is_item(
                    items.last(),
                    fold_label(c.group@, collapsed, texts),
                    Seq::empty(),
                    "palette.kind.action"@,
                    Message::ToggleGroupCollapsed(c.group),
                    s,
                    None,
                ) && group_items(items.drop_last(), q, conns, n - 1, collapsed, texts)
            } else {
                group_items(items, q, conns, n - 1, collapsed, texts)
            },
            None => group_items(items, q, conns, n - 1, collapsed, texts),
        }
    }
}

fn list_groups(q: &str, conns: &[ConnectionInfo], collapsed: &NameSet, texts: &Catalog) -> (items: Vec<
    PaletteItem,
>)
    ensures
        group_items(items@, q@, conns@, conns@.len() as int, collapsed@, *texts),
        scores_fit(items@),
{
    let mut items: Vec<PaletteItem> = Vec::new();
    let mut i: usize = 0;
    while i < conns.len()
        invariant
            i <= conns@.len(),
            group_items(items@, q@, conns@, i as int, collapsed@, *texts),
            scores_fit(items@),
        decreases conns@.len() - i,
    {
        let ghost before = items@;
        let first = is_first_of_group(conns, i);
        let name = groups::group_label(conns[i].group.as_str(), texts);
        match fuzzy_score(q, name.as_str()) {
            Some(s) => {
                if first {
                    let key = if collapsed.contains(conns[i].group.as_str()) {
                        "palette.act.expand_group"
                    } else {
                        "palette.act.collapse_group"
                    };
                    items.push(PaletteItem {
                        label: texts.tf(key, "name", name.as_str()),
                        meta: String::new(),
                        kind: "palette.kind.action",
                        msg: Message::ToggleGroupCollapsed(conns[i].group.clone()),
                        score: s,
                        place: None,
                    });
                    assert(items@.drop_last() =~= before);
                    assert(items@.last().meta@ =~= Seq::<char>::empty());
                }
            },
            None => {},
        }
        i += 1;
    }
    items
}

/// The first characters of a text, 40 at most.
pub open spec fn head(s: Seq<char>) -> Seq<char> {
    if s.len() > 40 {
        s.take(40)
    } else {
        s
    }
}

fn head_of(s: &str) -> (r: String)
    ensures
        r@ == head(s@),
{
    let cs = text::chars_of(s);
    if cs.len() > 40 {
        assert(cs@.subrange(0, 40) =~= cs@.take(40));
        text::string_of(vstd::slice::slice_subrange(cs.as_slice(), 0, 40))
    } else {
        s.to_owned()
    }
}

/// `items` are the entries of those of the first `n` snippets that match.
pub open spec fn snippet_items(items: Seq<PaletteItem>, q: Seq<char>, snippets: Seq<Snippet>, n: int) -> bool
    decreases n,
{
    if n <= 0 {
        items.len() == 0
    } else {
        let sn = snippets[n - 1];
        match score_of(q, sn.name@ + " "@ + sn.body@) {
            Some(s) => items.len() > 0 && is_item(
                items.last(),
                sn.name@,
                head(sn.body@),
                "palette.kind.snippet"@,
                Message::SnippetSend(sn.id),
                s,
                None,
            ) && snippet_items(items.drop_last(), q, snippets, n - 1),
            None => snippet_items(items, q, snippets, n - 1),
        }
    }
}

fn list_snippets(q: &str, snippets: &[Snippet]) -> (items: Vec<PaletteItem>)
    ensures
        snippet_items(items@, q@, snippets@, snippets@.len() as int),
        scores_fit(items@),
{
    let mut items: Vec<PaletteItem> = Vec::new();
    let mut i: usize = 0;
    while i < snippets.len()
        invariant
            i <= snippets@.len(),
            snippet_items(items@, q@, snippets@, i as int),
            scores_fit(items@),
        decreases snippets@.len() - i,
    {
        let ghost before = items@;
        let mut hay = snippets[i].name.clone();
        hay.append(" ");
        hay.append(snippets[i].body.as_str());
        match fuzzy_score(q, hay.as_str()) {
            Some(s) => {
                items.push(PaletteItem {
                    label: snippets[i].name.clone(),
                    meta: head_of(snippets[i].body.as_str()),
                    kind: "palette.kind.snippet",
                    msg: Message::SnippetSend(snippets[i].id.clone()),
                    score: s,
                    place: None,
                });
                assert(items@.drop_last() =~= before);
            },
            None => {},
        }
        i += 1;
    }
    items
}

// ---- ranking -----------------------------------------------------------------------------------------

/// Best score first; among equals, connections first in the sidebar's order,
/// then the rest by label.
pub struct BestFirst {}

impl Rank for BestFirst {
    type Item = PaletteItem;

    open spec fn le(&self, a: PaletteItem, b: PaletteItem) -> bool {
        if a.score != b.score {
            a.score > b.score
        } else {
            match (a.place, b.place) {
                (Some(x), Some(y)) => x <= y,
                (Some(_), None) => true,
                (None, Some(_)) => false,
                (None, None) => order::text_le(a.label@, b.label@),
            }
        }
    }

    proof fn total(&self, a: PaletteItem, b: PaletteItem) {
        order::lemma_text_le_total(a.label@, b.label@);
    }

    proof fn transitive(&self, a: PaletteItem, b: PaletteItem, c: PaletteItem) {
        if a.score == b.score && b.score == c.score && a.place is None && b.place is None && c.place is None {
            order::lemma_text_le_transitive(a.label@, b.label@, c.label@);
        }
    }

    fn before(&self, a: &PaletteItem, b: &PaletteItem) -> (r: bool) {
        if a.score != b.score {
            a.score > b.score
        } else {
            match (a.place, b.place) {
                (Some(x), Some(y)) => x <= y,
                (Some(_), None) => true,
                (None, Some(_)) => false,
                (None, None) => order::texts_le(a.label.as_str(), b.label.as_str()),
            }
        }
    }
}

/// The item is a connection's own entry.
pub open spec fn is_conn(it: PaletteItem) -> bool {
    it.msg is ConnectTo
}

fn is_connection(it: &PaletteItem) -> (r: bool)
    ensures
        r == is_conn(*it),
{
    match &it.msg {
        Message::ConnectTo(_) => true,
        _ => false,
    }
}

/// The place of the first connection.
pub open spec fn first_conn(items: Seq<PaletteItem>, i: int) -> Option<int>
    decreases items.len() - i,
{
    if i < 0 || i >= items.len() {
        None
    } else if is_conn(items[i]) {
        Some(i)
    } else {
        first_conn(items, i + 1)
    }
}

fn find_first_conn(items: &Vec<PaletteItem>) -> (r: Option<usize>)
    ensures
        match r {
            Some(i) => first_conn(items@, 0) == Some(i as int) && i < items@.len() && is_conn(items@[i as int]),
            None => first_conn(items@, 0) is None,
        },
{
    let mut i: usize = 0;
    while i < items.len()
        invariant
            i <= items@.len(),
            first_conn(items@, 0) == first_conn(items@, i as int),
        decreases items@.len() - i,
    {
        if is_connection(&items[i]) {
            return Some(i);
        }
        i += 1;
    }
    None
}

pub open spec fn row_key(n: int) -> Seq<char> {
    if n == 0 {
        "palette.act.edit_conn"@
    } else if n == 1 {
        "palette.act.test_conn"@
    } else if n == 2 {
        "palette.act.clone_conn"@
    } else {
        "palette.act.delete_conn"@
    }
}

pub open spec fn row_msg(n: int, id: String) -> Message {
    if n == 0 {
        Message::ShowForm(Some(id))
    } else if n == 1 {
        Message::TestConnectionInList(id)
    } else if n == 2 {
        Message::CloneConnection(id)
    } else {
        Message::DeleteConnection(id)
    }
}

/// `acts` are the row actions of the connection entry `best`: edit, test,
/// clone and delete.
pub open spec fn row_actions(acts: Seq<PaletteItem>, best: PaletteItem, texts: Catalog) -> bool {
    &&& acts.len() == 4
    &&& forall|n: int|
        0 <= n < 4 ==> is_item(
            #[trigger] acts[n],
            texts.says_with(row_key(n), "name"@, best.label@),
            best.meta@,
            "palette.kind.action"@,
            row_msg(n, best.msg->ConnectTo_0),
            best.score - 5,
            None,
        )
}

fn row_action(n: usize, id: String) -> (r: (&'static str, Message))
    ensures
        r.0@ == row_key(n as int),
        r.1 == row_msg(n as int, id),
{
    match n {
        0 => ("palette.act.edit_conn", Message::ShowForm(Some(id))),
        1 => ("palette.act.test_conn", Message::TestConnectionInList(id)),
        2 => ("palette.act.clone_conn", Message::CloneConnection(id)),
        _ => ("palette.act.delete_conn", Message::DeleteConnection(id)),
    }
}

fn list_row_actions(best: &PaletteItem, texts: &Catalog) -> (acts: Vec<PaletteItem>)
    requires
        is_conn(*best),
        best.score >= i128::MIN + 5,
    ensures
        row_actions(acts@, *best, *texts),
{
    let mut acts: Vec<PaletteItem> = Vec::new();
    let mut n: usize = 0;
    while n < 4
        invariant
            n <= 4,
            acts@.len() == n,
            is_conn(*best),
            best.score >= i128::MIN + 5,
            forall|k: int|
                0 <= k < n ==> is_item(
                    #[trigger] acts@[k],
                    texts.says_with(row_key(k), "name"@, best.label@),
                    best.meta@,
                    "palette.kind.action"@,
                    row_msg(k, best.msg->ConnectTo_0),
                    best.score - 5,
                    None,
                ),
        decreases 4 - n,
    {
        let id = match &best.msg {
            Message::ConnectTo(id) => id.clone(),
            _ => String::new(),
        };
        let (key, msg) = row_action(n, id);
        acts.push(PaletteItem {
            label: texts.tf(key, "name", best.label.as_str()),
            meta: best.meta.clone(),
            kind: "palette.kind.action",
            msg,
            score: best.score - 5,
            place: None,
        });
        n += 1;
    }
    acts
}

/// The place of the last entry that is not a connection's.
pub open spec fn last_other(items: Seq<PaletteItem>, n: int) -> Option<int>
    decreases n,
{
    if n <= 0 {
        None
    } else if !is_conn(items[n - 1]) {
        Some(n - 1)
    } else {
        last_other(items, n - 1)
    }
}

pub proof fn lemma_last_other(items: Seq<PaletteItem>, n: int)
    requires
        n <= items.len(),
    ensures
        match last_other(items, n) {
            Some(i) => 0 <= i < n && !is_conn(items[i]),
            None => forall|i: int| 0 <= i < n ==> is_conn(#[trigger] items[i]),
        },
    decreases n,
{
    if n > 0 {
        lemma_last_other(items, n - 1);
    }
}

/// The entries that are kept: past [`PALETTE_MAX`] the lowest-placed one that
/// is not a connection's goes first; once nothing but connections is left, the
/// lowest-ranked of those.
pub open spec fn trimmed(items: Seq<PaletteItem>) -> Seq<PaletteItem>
    decreases items.len(),
{
    if items.len() <= PALETTE_MAX {
        items
    } else {
        match last_other(items, items.len() as int) {
            Some(i) => if 0 <= i < items.len() {
                trimmed(items.remove(i))
            } else {
                items
            },
            None => items.take(PALETTE_MAX as int),
        }
    }
}

fn trim_items(items: Vec<PaletteItem>) -> (out: Vec<PaletteItem>)
    ensures
        out@ == trimmed(items@),
{
    let mut out = items;
    while out.len() > PALETTE_MAX
        invariant
            trimmed(out@) == trimmed(items@),
        decreases out.len(),
    {
        let mut n: usize = out.len();
        while n > 0 && is_connection(&out[n - 1])
            invariant
                n <= out@.len(),
                last_other(out@, out@.len() as int) == last_other(out@, n as int),
            decreases n,
        {
            n -= 1;
        }
        if n > 0 {
            let gone = out.remove(n - 1);
        } else {
            out.truncate(PALETTE_MAX);
        }
    }
    out
}

/// The connections' own entries, in order.
pub open spec fn conns_of(items: Seq<PaletteItem>) -> Seq<PaletteItem> {
    items.filter(|it: PaletteItem| is_conn(it))
}

proof fn lemma_remove_other(items: Seq<PaletteItem>, i: int)
    requires
        0 <= i < items.len(),
        !is_conn(items[i]),
    ensures
        conns_of(items.remove(i)) == conns_of(items),
{
    let p = |it: PaletteItem| is_conn(it);
    let a = items.take(i);
    let b = items.skip(i + 1);
    assert(items.remove(i) =~= a + b);
    assert(items =~= a.push(items[i]) + b);
    Seq::filter_distributes_over_add(a, b, p);
    Seq::filter_distributes_over_add(a.push(items[i]), b, p);
    a.lemma_filter_push(items[i], p);
}

pub proof fn lemma_all_conns(items: Seq<PaletteItem>)
    requires
        forall|i: int| 0 <= i < items.len() ==> is_conn(#[trigger] items[i]),
    ensures
        conns_of(items) == items,
    decreases items.len(),
{
    reveal(Seq::filter);
    if items.len() > 0 {
        lemma_all_conns(items.drop_last());
        assert(items.drop_last().push(items.last()) =~= items);
    }
}

proof fn lemma_filter_shorter(items: Seq<PaletteItem>)
    ensures
        conns_of(items).len() <= items.len(),
    decreases items.len(),
{
    reveal(Seq::filter);
    if items.len() > 0 {
        lemma_filter_shorter(items.drop_last());
    }
}

/// Neither an action nor a snippet can push a connection out of reach: as
/// long as the connections fit, every one of them is kept; when they do not,
/// the first of them are.
pub proof fn law_every_connection_stays_in_reach(items: Seq<PaletteItem>)
    ensures
        trimmed(items).len() <= PALETTE_MAX,
        conns_of(items).len() <= PALETTE_MAX ==> conns_of(trimmed(items)) == conns_of(items),
        conns_of(items).len() > PALETTE_MAX ==> trimmed(items) == conns_of(items).take(PALETTE_MAX as int),
    decreases items.len(),
{
    lemma_last_other(items, items.len() as int);
    if items.len() > PALETTE_MAX {
        match last_other(items, items.len() as int) {
            Some(i) => {
                lemma_remove_other(items, i);
                law_every_connection_stays_in_reach(items.remove(i));
            },
            None => {
                lemma_all_conns(items);
            },
        }
    } else {
        lemma_filter_shorter(items);
    }
}

// ---- the list -----------------------------------------------------------------------------------------

/// How a palette came about: the connections in the sidebar's order, the
/// entries of each kind, all of them ranked, and the row actions of the best
/// match.
pub struct Making<'a> {
    pub ordered: Seq<&'a ConnectionInfo>,
    pub conns: Seq<PaletteItem>,
    pub actions: Seq<PaletteItem>,
    pub folds: Seq<PaletteItem>,
    pub snippets: Seq<PaletteItem>,
    pub ranked: Seq<PaletteItem>,
    pub acts: Seq<PaletteItem>,
}

/// The ranked entries with the best connection's row actions right under it.
pub open spec fn with_actions(ranked: Seq<PaletteItem>, at: int, acts: Seq<PaletteItem>) -> Seq<PaletteItem> {
    ranked.take(at + 1) + acts + ranked.skip(at + 1)
}

/// `items` is the palette that `m` led to for the query. Fold entries and row
/// actions are for a typed query only, so that the empty palette keeps its
/// action list.
pub open spec fn made<'a>(
    m: Making<'a>,
    items: Seq<PaletteItem>,
    query: Seq<char>,
    conns: Seq<ConnectionInfo>,
    snippets: Seq<Snippet>,
    collapsed: Set<Seq<char>>,
    texts: Catalog,
) -> bool {
    let q = text::trim(query);
    &&& order::stably_sorted(
        ByOrderIn { list: PhantomData },
        Seq::new(conns.len(), |i: int| &conns[i]),
        m.ordered,
    )
    &&& conn_items(m.conns, q, m.ordered, m.ordered.len() as int, texts)
    &&& action_items(m.actions, q, 16, texts)
    &&& if q.len() == 0 {
        m.folds.len() == 0
    } else {
        group_items(m.folds, q, conns, conns.len() as int, collapsed, texts)
    }
    &&& snippet_items(m.snippets, q, snippets, snippets.len() as int)
    &&& order::stably_sorted(
        BestFirst {  },
        m.conns + m.actions + m.folds + m.snippets,
        m.ranked,
    )
    &&& match (q.len() > 0, first_conn(m.ranked, 0)) {
        (true, Some(at)) => row_actions(m.acts, m.ranked[at], texts) && items == trimmed(
            with_actions(m.ranked, at, m.acts),
        ),
        _ => items == trimmed(m.ranked),
    }
}

pub open spec fn is_palette(
    items: Seq<PaletteItem>,
    query: Seq<char>,
    conns: Seq<ConnectionInfo>,
    snippets: Seq<Snippet>,
    collapsed: Set<Seq<char>>,
    texts: Catalog,
) -> bool {
    exists|m: Making| made(m, items, query, conns, snippets, collapsed, texts)
}

proof fn lemma_sorted_holds(all: Seq<PaletteItem>, ranked: Seq<PaletteItem>, at: int)
    requires
        all.to_multiset() == ranked.to_multiset(),
        scores_fit(all),
        0 <= at < ranked.len(),
    ensures
        ranked[at].score >= -(usize::MAX as int),
{
    all.to_multiset_ensures();
    ranked.to_multiset_ensures();
    assert(ranked.contains(ranked[at]));
    assert(all.to_multiset().count(ranked[at]) > 0);
    assert(all.contains(ranked[at]));
}

/// Build the palette's list for `query`, best match first.
///
/// Every matching connection's own entry is kept: past [`PALETTE_MAX`] the
/// lowest-placed entry that is *not* a connection goes first, so neither an
/// action nor a snippet can push a connection out of reach. The row actions
/// (edit / test / clone / delete) are offered for the single best match only,
/// right under it.
pub fn build_palette_items(
    query: &str,
    connections: &[ConnectionInfo],
    snippets: &[Snippet],
    collapsed: &NameSet,
    texts: &Catalog,
) -> (items: Vec<PaletteItem>)
    ensures
        is_palette(items@, query@, connections@, snippets@, collapsed@, *texts),
        items@.len() <= PALETTE_MAX,
{
    let q = text::trim_text(query);
    let typed = !forms::is_empty_text(q.as_str());
    // Connections the palette ranks the same keep the sidebar's order.
    let mut list: Vec<&ConnectionInfo> = Vec::new();
    let mut i: usize = 0;
    while i < connections.len()
        invariant
            i <= connections@.len(),
            list@ =~= Seq::new(i as nat, |k: int| &connections@[k]),
        decreases connections@.len() - i,
    {
        list.push(&connections[i]);
        i += 1;
    }
    let ordered = order::sort_by(list, &ByOrderIn { list: PhantomData });
    let mut all = list_conns(q.as_str(), &ordered, texts);
    let ghost conns = all@;
    let mut actions = list_actions(q.as_str(), texts);
    let ghost acted = actions@;
    let mut folds: Vec<PaletteItem> = Vec::new();
    // The keyboard's way to fold one sidebar group: type its name.
    if typed {
        folds = list_groups(q.as_str(), connections, collapsed, texts);
    }
    let ghost folded = folds@;
    let mut sent = list_snippets(q.as_str(), snippets);
    let ghost snips = sent@;
    all.append(&mut actions);
    all.append(&mut folds);
    all.append(&mut sent);
    assert(all@ =~= conns + acted + folded + snips);
    let ranked = order::sort_by(all, &BestFirst {  });
    let ghost ranks = ranked@;
    let mut out = ranked;
    let mut ghost_acts: Ghost<Seq<PaletteItem>> = Ghost(Seq::empty());
    if typed {
        match find_first_conn(&out) {
            Some(at) => {
                proof {
                    lemma_sorted_holds(conns + acted + folded + snips, ranks, at as int);
                }
                let acts = list_row_actions(&out[at], texts);
                let ghost a = acts@;
                proof {
                    ghost_acts@ = a;
                }
                let mut k: usize = 0;
                let mut left = acts;
                while left.len() > 0
                    invariant
                        k + left@.len() == 4,
                        a.len() == 4,
                        at < ranks.len(),
                        left@ =~= a.skip(k as int),
                        out@ =~= ranks.take(at + 1) + a.take(k as int) + ranks.skip(at + 1),
                    decreases left.len(),
                {
                    let len: usize = out.len();
                    assert(len == ranks.len() + k);
                    let act = left.remove(0);
                    out.insert(at + 1 + k, act);
                    k += 1;
                }
                assert(out@ =~= with_actions(ranks, at as int, a));
            },
            None => {},
        }
    }
    let items = trim_items(out);
    proof {
        let m = Making {
            ordered: ordered@,
            conns,
            actions: acted,
            folds: folded,
            snippets: snips,
            ranked: ranks,
            acts: ghost_acts@,
        };
        assert(made(m, items@, query@, connections@, snippets@, collapsed@, *texts));
        law_every_connection_stays_in_reach(out@);
    }
    items
}

} // verus!
