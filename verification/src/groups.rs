//! The sidebar's groups: which are folded, what each shows, how they are kept.

use std::cmp::Ordering;
use std::marker::PhantomData;

use vstd::prelude::*;

use crate::catalog::Catalog;
use crate::connections;
use crate::connections::{ByOrderIn, ConnectionInfo};
use crate::lettercase;
use crate::names;
use crate::names::NameSet;
use crate::order;
use crate::order::Rank;
use crate::split;
use crate::text;

verus! {

// ---- search ---------------------------------------------------------------------------

/// How a stored group name reads.
pub open spec fn label_of(key: Seq<char>, texts: Catalog) -> Seq<char> {
    if key.len() == 0 {
        texts.says("sidebar.ungrouped"@)
    } else {
        key
    }
}

/// A folded query stands in the connection's name, host, user or group, the
/// group as the sidebar shows it.
pub open spec fn matches_query(c: ConnectionInfo, q: Seq<char>, texts: Catalog) -> bool {
    ||| text::contains(lettercase::folded(c.name@), q)
    ||| text::contains(lettercase::folded(c.host@), q)
    ||| text::contains(lettercase::folded(c.username@), q)
    ||| text::contains(lettercase::folded(label_of(c.group@, texts)), q)
}

/// How a stored group name reads in the sidebar and the palette.
pub fn group_label(key: &str, texts: &Catalog) -> (r: String)
    ensures
        r@ == label_of(key@, *texts),
{
    if key.is_empty() {
        texts.t("sidebar.ungrouped")
    } else {
        key.to_owned()
    }
}

fn field_matches(field: &str, folded_query: &str) -> (r: bool)
    ensures
        r == text::contains(lettercase::folded(field@), folded_query@),
{
    let f = lettercase::search_fold(field);
    text::text_contains(f.as_str(), folded_query)
}

/// Whether a connection matches a folded sidebar query: as a substring of its
/// name, host, user or group — the group as the sidebar shows it, so the
/// ungrouped bucket is found by its label too.
pub fn connection_matches(conn: &ConnectionInfo, folded_query: &str, texts: &Catalog) -> (r: bool)
    ensures
        r == matches_query(*conn, folded_query@, *texts),
{
    let group = group_label(conn.group.as_str(), texts);
    field_matches(conn.name.as_str(), folded_query) || field_matches(conn.host.as_str(), folded_query)
        || field_matches(conn.username.as_str(), folded_query) || field_matches(
        group.as_str(),
        folded_query,
    )
}

// ---- the sidebar's list ------------------------------------------------------------------

/// One group of the sidebar list.
#[derive(Debug)]
pub struct SidebarGroup<'a> {
    /// The connections' `group` as stored — "" is the ungrouped bucket.
    pub key: String,
    pub conns: Vec<&'a ConnectionInfo>,
    /// Drawn folded: saved as collapsed, and no search running.
    pub collapsed: bool,
}

impl<'a> SidebarGroup<'a> {
    /// The header's name: the group's own, or "Ungrouped" in the UI language.
    pub fn label(&self, texts: &Catalog) -> (r: String)
        ensures
            r@ == label_of(self.key@, *texts),
    {
        group_label(self.key.as_str(), texts)
    }
}

/// A search is running for `q`, the folded query: it is not blank.
pub open spec fn listed(c: ConnectionInfo, q: Seq<char>, texts: Catalog) -> bool {
    q.len() == 0 || matches_query(c, q, texts)
}

/// The connections that the sidebar lists for the folded query `q`.
pub open spec fn listed_in<'a>(conns: Seq<ConnectionInfo>, q: Seq<char>, texts: Catalog) -> Seq<
    &'a ConnectionInfo,
> {
    conns.map_values(|c: ConnectionInfo| &c).filter(|c: &ConnectionInfo| listed(*c, q, texts))
}

/// Those of a group.
pub open spec fn of_group<'a>(conns: Seq<&'a ConnectionInfo>, key: Seq<char>) -> Seq<
    &'a ConnectionInfo,
> {
    conns.filter(|c: &'a ConnectionInfo| c.group@ == key)
}

/// Groups ranked by name.
pub struct ByName<'a> {
    pub list: PhantomData<&'a ConnectionInfo>,
}

impl<'a> Rank for ByName<'a> {
    type Item = SidebarGroup<'a>;

    open spec fn le(&self, a: SidebarGroup<'a>, b: SidebarGroup<'a>) -> bool {
        connections::keys_le(
            connections::group_keys(a.key@),
            connections::group_keys(b.key@),
        )
    }

    proof fn total(&self, a: SidebarGroup<'a>, b: SidebarGroup<'a>) {
        connections::lemma_keys_total(
            connections::group_keys(a.key@),
            connections::group_keys(b.key@),
        );
    }

    proof fn transitive(&self, a: SidebarGroup<'a>, b: SidebarGroup<'a>, c: SidebarGroup<'a>) {
        connections::lemma_keys_transitive(
            connections::group_keys(a.key@),
            connections::group_keys(b.key@),
            connections::group_keys(c.key@),
        );
    }

    fn before(&self, a: &SidebarGroup<'a>, b: &SidebarGroup<'a>) -> (r: bool) {
        match connections::group_order(a.key.as_str(), b.key.as_str()) {
            Ordering::Greater => false,
            _ => true,
        }
    }
}

/// There is a group of that name.
pub open spec fn has_group<'a>(groups: Seq<SidebarGroup<'a>>, key: Seq<char>) -> bool {
    exists|i: int| 0 <= i < groups.len() && (#[trigger] groups[i]).key@ == key
}

/// The groups hold every connection of `shown`, each in the group of its
/// name, and no group twice.
spec fn grouped<'a>(groups: Seq<SidebarGroup<'a>>, shown: Seq<&'a ConnectionInfo>) -> bool {
    &&& forall|i: int|
        0 <= i < groups.len() ==> (#[trigger] groups[i]).conns@ == of_group(shown, groups[i].key@)
            && groups[i].conns@.len() > 0
    &&& forall|i: int, j: int|
        0 <= i < j < groups.len() ==> (#[trigger] groups[i]).key@ != (#[trigger] groups[j]).key@
    &&& forall|k: int|
        0 <= k < shown.len() ==> has_group(groups, (#[trigger] shown[k]).group@)
}

proof fn lemma_no_member<'a>(shown: Seq<&'a ConnectionInfo>, key: Seq<char>)
    requires
        forall|k: int| 0 <= k < shown.len() ==> (#[trigger] shown[k]).group@ != key,
    ensures
        of_group(shown, key).len() == 0,
    decreases shown.len(),
{
    reveal(Seq::filter);
    if shown.len() > 0 {
        let rest = shown.drop_last();
        assert forall|k: int| 0 <= k < rest.len() implies (#[trigger] rest[k]).group@ != key by {
            assert(rest[k] == shown[k]);
        }
        lemma_no_member(rest, key);
        assert(shown.last() == shown[shown.len() - 1]);
    }
}

/// The connections of the list, in their groups, as they come.
fn bucket<'a>(conns: &'a [ConnectionInfo], q: &str, texts: &Catalog) -> (groups: Vec<SidebarGroup<'a>>)
    ensures
        grouped(groups@, listed_in(conns@, q@, *texts)),
{
    let mut groups: Vec<SidebarGroup<'a>> = Vec::new();
    let ghost refs = conns@.map_values(|c: ConnectionInfo| &c);
    let ghost want = |c: &ConnectionInfo| listed(*c, q@, *texts);
    let mut n: usize = 0;
    assert(refs.take(0).filter(want) =~= Seq::<&ConnectionInfo>::empty()) by {
        reveal(Seq::filter);
    }
    while n < conns.len()
        invariant
            n <= conns.len(),
            refs == conns@.map_values(|c: ConnectionInfo| &c),
            want == (|c: &ConnectionInfo| listed(*c, q@, *texts)),
            grouped(groups@, refs.take(n as int).filter(want)),
        decreases conns.len() - n,
    {
        let conn = &conns[n];
        let ghost shown = refs.take(n as int).filter(want);
        proof {
            refs.take(n as int).lemma_filter_push(conn, want);
            assert(refs.take(n + 1) =~= refs.take(n as int).push(conn));
        }
        if q.is_empty() || connection_matches(conn, q, texts) {
            add_to_group(&mut groups, conn, Ghost(shown));
        }
        n += 1;
    }
    assert(refs.take(n as int) =~= refs);
    groups
}

/// Put one more connection into its group.
fn add_to_group<'a>(groups: &mut Vec<SidebarGroup<'a>>, conn: &'a ConnectionInfo, Ghost(shown): Ghost<Seq<&'a ConnectionInfo>>)
    requires
        grouped(old(groups)@, shown),
    ensures
        grouped(final(groups)@, shown.push(conn)),
{
    let ghost before = groups@;
    let ghost next = shown.push(conn);
    let mut at: usize = 0;
    while at < groups.len() && !text::same_text(groups[at].key.as_str(), conn.group.as_str())
        invariant
            at <= groups.len(),
            groups@ == before,
            forall|j: int| 0 <= j < at ==> #[trigger] groups@[j].key@ != conn.group@,
        decreases groups.len() - at,
    {
        at += 1;
    }
    proof {
        assert forall|key: Seq<char>| #[trigger] of_group(next, key) == (if conn.group@ == key {
            of_group(shown, key).push(conn)
        } else {
            of_group(shown, key)
        }) by {
            shown.lemma_filter_push(conn, |c: &'a ConnectionInfo| c.group@ == key);
        }
    }
    if at < groups.len() {
        groups[at].conns.push(conn);
        proof {
            let g = groups@;
            assert(g[at as int].key@ == conn.group@);
            assert forall|i: int| 0 <= i < g.len() implies (#[trigger] g[i]).conns@ == of_group(next, g[i].key@)
                && g[i].conns@.len() > 0 by {
                assert(before[i].key@ == g[i].key@);
                if i != at {
                    assert(g[i] == before[i]);
                    if i < at {
                        assert(before[i].key@ != conn.group@);
                    } else {
                        assert(before[at as int].key@ != before[i].key@);
                    }
                }
            }
            assert forall|i: int, j: int| 0 <= i < j < g.len() implies (#[trigger] g[i]).key@ != (#[trigger] g[j]).key@ by {
                assert(before[i].key@ == g[i].key@ && before[j].key@ == g[j].key@);
            }
            assert forall|k: int| 0 <= k < next.len() implies has_group(g, (#[trigger] next[k]).group@) by {
                if k < shown.len() {
                    assert(next[k] == shown[k]);
                    let i = choose|i: int| 0 <= i < before.len() && (#[trigger] before[i]).key@ == shown[k].group@;
                    assert(g[i].key@ == before[i].key@);
                } else {
                    assert(g[at as int].key@ == next[k].group@);
                }
            }
        }
    } else {
        let mut one: Vec<&'a ConnectionInfo> = Vec::new();
        one.push(conn);
        proof {
            let key = conn.group@;
            assert forall|k: int| 0 <= k < shown.len() implies (#[trigger] shown[k]).group@ != key by {
                let i = choose|i: int| 0 <= i < before.len() && (#[trigger] before[i]).key@ == shown[k].group@;
                assert(before[i].key@ != key);
            }
            lemma_no_member(shown, key);
            assert(of_group(shown, key) =~= Seq::<&'a ConnectionInfo>::empty());
            assert(one@ =~= of_group(next, key));
        }
        groups.push(SidebarGroup { key: conn.group.clone(), conns: one, collapsed: false });
        proof {
            let g = groups@;
            assert forall|i: int| 0 <= i < g.len() implies (#[trigger] g[i]).conns@ == of_group(next, g[i].key@)
                && g[i].conns@.len() > 0 by {
                if i < before.len() {
                    assert(g[i] == before[i]);
                    assert(before[i].key@ != conn.group@);
                }
            }
            assert forall|i: int, j: int| 0 <= i < j < g.len() implies (#[trigger] g[i]).key@ != (#[trigger] g[j]).key@ by {
                assert(g[i] == before[i]);
                if j < before.len() {
                    assert(g[j] == before[j]);
                } else {
                    assert(before[i].key@ != conn.group@);
                }
            }
            assert forall|k: int| 0 <= k < next.len() implies has_group(g, (#[trigger] next[k]).group@) by {
                if k < shown.len() {
                    assert(next[k] == shown[k]);
                    let i = choose|i: int| 0 <= i < before.len() && (#[trigger] before[i]).key@ == shown[k].group@;
                    assert(g[i] == before[i]);
                } else {
                    assert(g[before.len() as int].key@ == next[k].group@);
                }
            }
        }
    }
}

/// The list the sidebar shows of `shown`: one group for each name there is,
/// in the order of groups, each holding its connections in their order, and
/// folded where it was saved so and no search is running.
pub open spec fn is_sidebar<'a>(
    groups: Seq<SidebarGroup<'a>>,
    shown: Seq<&'a ConnectionInfo>,
    searching: bool,
    collapsed: Set<Seq<char>>,
) -> bool {
    &&& forall|i: int|
        0 <= i < groups.len() ==> order::stably_sorted(
            (ByOrderIn { list: PhantomData }),
            of_group(shown, (#[trigger] groups[i]).key@),
            groups[i].conns@,
        )
    &&& forall|i: int| 0 <= i < groups.len() ==> (#[trigger] groups[i]).conns@.len() > 0
    &&& forall|i: int|
        0 <= i < groups.len() ==> (#[trigger] groups[i]).collapsed == (!searching && collapsed.contains(
            groups[i].key@,
        ))
    &&& forall|i: int, j: int|
        0 <= i < j < groups.len() ==> connections::key_order(
            connections::group_keys((#[trigger] groups[i]).key@),
            connections::group_keys((#[trigger] groups[j]).key@),
        ) == Ordering::Less
    &&& forall|k: int|
        0 <= k < shown.len() ==> has_group(groups, (#[trigger] shown[k]).group@)
}

/// The sidebar's groups for the search `query`, in display order. While a
/// search runs every group with a match is drawn open, whatever was saved —
/// search results are never hidden — and the saved state stays as it was.
pub fn sidebar_groups<'a>(
    conns: &'a [ConnectionInfo],
    query: &str,
    collapsed: &NameSet,
    texts: &Catalog,
) -> (groups: Vec<SidebarGroup<'a>>)
    ensures
        ({
            let q = lettercase::folded(text::trim(query@));
            is_sidebar(groups@, listed_in(conns@, q, *texts), q.len() > 0, collapsed@)
        }),
{
    let trimmed = text::trim_text(query);
    let q = lettercase::search_fold(trimmed.as_str());
    let searching = !q.as_str().is_empty();
    let buckets = bucket(conns, q.as_str(), texts);
    let ghost shown = listed_in(conns@, q@, *texts);
    let ghost raw = buckets@;
    let by_name = ByName { list: PhantomData };
    let sorted = order::sort_by(buckets, &by_name);
    proof {
        lemma_permuted_groups(raw, sorted@, shown);
    }
    let ghost all = sorted@;
    let mut out: Vec<SidebarGroup<'a>> = Vec::new();
    let by_order = ByOrderIn { list: PhantomData };
    for group in it: sorted
        invariant
            it.seq() == all,
            out@.len() == it.index(),
            forall|i: int|
                0 <= i < out@.len() ==> (#[trigger] out@[i]).key@ == all[i].key@ && order::stably_sorted(
                    by_order,
                    all[i].conns@,
                    out@[i].conns@,
                ) && out@[i].collapsed == (!searching && collapsed@.contains(all[i].key@)),
            by_order == (ByOrderIn { list: PhantomData }),
    {
        let folded = !searching && collapsed.contains(group.key.as_str());
        let conns_in_order = order::sort_by(group.conns, &by_order);
        out.push(SidebarGroup { key: group.key, conns: conns_in_order, collapsed: folded });
    }
    proof {
        assert forall|i: int| 0 <= i < out@.len() implies (#[trigger] out@[i]).conns@.len() > 0 by {
            assert(all[i].conns@ == of_group(shown, all[i].key@));
            lemma_sorted_len(by_order, all[i].conns@, out@[i].conns@);
        }
        assert forall|i: int, j: int| 0 <= i < j < out@.len() implies connections::key_order(
            connections::group_keys((#[trigger] out@[i]).key@),
            connections::group_keys((#[trigger] out@[j]).key@),
        ) == Ordering::Less by {
            assert(by_name.le(all[i], all[j]));
            assert(all[i].key@ != all[j].key@);
            let a = connections::group_keys(all[i].key@);
            let b = connections::group_keys(all[j].key@);
            connections::lemma_keys_total(a, b);
            assert(a[2] == all[i].key@ && b[2] == all[j].key@);
        }
        assert forall|k: int| 0 <= k < shown.len() implies has_group(out@, (#[trigger] shown[k]).group@) by {
            let i = choose|i: int| 0 <= i < all.len() && (#[trigger] all[i]).key@ == shown[k].group@;
            assert(out@[i].key@ == all[i].key@);
        }
        assert forall|i: int| 0 <= i < out@.len() implies order::stably_sorted(
            (ByOrderIn { list: PhantomData }),
            of_group(shown, (#[trigger] out@[i]).key@),
            out@[i].conns@,
        ) by {
            assert(all[i].conns@ == of_group(shown, all[i].key@));
        }
    }
    out
}

proof fn lemma_sorted_len<R: Rank>(rank: R, s: Seq<R::Item>, out: Seq<R::Item>)
    requires
        order::stably_sorted(rank, s, out),
    ensures
        s.len() == out.len(),
{
    vstd::seq_lib::to_multiset_len(s);
    vstd::seq_lib::to_multiset_len(out);
}

/// Buckets in another order are still the same buckets.
proof fn lemma_permuted_groups<'a>(
    raw: Seq<SidebarGroup<'a>>,
    sorted: Seq<SidebarGroup<'a>>,
    shown: Seq<&'a ConnectionInfo>,
)
    requires
        grouped(raw, shown),
        raw.to_multiset() == sorted.to_multiset(),
    ensures
        grouped(sorted, shown),
{
    assert forall|i: int| 0 <= i < sorted.len() implies raw.contains(#[trigger] sorted[i]) by {
        sorted.to_multiset_ensures();
        raw.to_multiset_ensures();
        assert(sorted.contains(sorted[i]));
        assert(sorted.to_multiset().count(sorted[i]) > 0);
    }
    assert forall|i: int| 0 <= i < raw.len() implies sorted.contains(#[trigger] raw[i]) by {
        sorted.to_multiset_ensures();
        raw.to_multiset_ensures();
        assert(raw.contains(raw[i]));
        assert(raw.to_multiset().count(raw[i]) > 0);
    }
    assert forall|i: int| 0 <= i < sorted.len() implies (#[trigger] sorted[i]).conns@ == of_group(
        shown,
        sorted[i].key@,
    ) && sorted[i].conns@.len() > 0 by {
        let j = choose|j: int| 0 <= j < raw.len() && raw[j] == sorted[i];
        assert(raw[j].conns@ == of_group(shown, raw[j].key@));
    }
    assert(raw.no_duplicates()) by {
        assert forall|i: int, j: int| 0 <= i < raw.len() && 0 <= j < raw.len() && i != j implies raw[i]
            != raw[j] by {
            if i < j {
                assert(raw[i].key@ != raw[j].key@);
            } else {
                assert(raw[j].key@ != raw[i].key@);
            }
        }
    }
    raw.lemma_multiset_has_no_duplicates();
    assert forall|x: SidebarGroup<'a>| #[trigger] sorted.to_multiset().contains(x) implies sorted.to_multiset().count(x) == 1 by {}
    sorted.lemma_multiset_has_no_duplicates_conv();
    assert forall|i: int, j: int| 0 <= i < j < sorted.len() implies (#[trigger] sorted[i]).key@ != (#[trigger] sorted[j]).key@ by {
        let a = choose|a: int| 0 <= a < raw.len() && raw[a] == sorted[i];
        let b = choose|b: int| 0 <= b < raw.len() && raw[b] == sorted[j];
        assert(sorted[i] != sorted[j]);
        if a < b {
            assert(raw[a].key@ != raw[b].key@);
        } else if b < a {
            assert(raw[b].key@ != raw[a].key@);
        }
    }
    assert forall|k: int| 0 <= k < shown.len() implies has_group(sorted, (#[trigger] shown[k]).group@) by {
        let a = choose|a: int| 0 <= a < raw.len() && (#[trigger] raw[a]).key@ == shown[k].group@;
        assert(sorted.contains(raw[a]));
        let i = choose|i: int| 0 <= i < sorted.len() && sorted[i] == raw[a];
        assert(sorted[i].key@ == shown[k].group@);
    }
}

/// Every connection that is to be listed stands in exactly one group: the one
/// of its name.
pub proof fn law_sidebar_lists_every_match<'a>(
    groups: Seq<SidebarGroup<'a>>,
    shown: Seq<&'a ConnectionInfo>,
    searching: bool,
    collapsed: Set<Seq<char>>,
    c: &'a ConnectionInfo,
)
    requires
        is_sidebar(groups, shown, searching, collapsed),
        shown.contains(c),
    ensures
        exists|i: int| #![trigger groups[i]] 0 <= i < groups.len() && groups[i].conns@.contains(c),
        forall|i: int| 0 <= i < groups.len() && (#[trigger] groups[i]).conns@.contains(c) ==> groups[i].key@
            == c.group@,
{
    let k = choose|k: int| 0 <= k < shown.len() && shown[k] == c;
    assert(shown[k].group@ == c.group@);
    let i = choose|i: int| 0 <= i < groups.len() && (#[trigger] groups[i]).key@ == shown[k].group@;
    let mine = of_group(shown, groups[i].key@);
    let p = |x: &'a ConnectionInfo| x.group@ == groups[i].key@;
    shown.lemma_filter_contains(p, k);
    assert(mine.contains(c));
    mine.to_multiset_ensures();
    groups[i].conns@.to_multiset_ensures();
    assert(mine.to_multiset().count(c) > 0);
    assert(groups[i].conns@.contains(c));
    assert forall|j: int| 0 <= j < groups.len() && (#[trigger] groups[j]).conns@.contains(c) implies groups[j].key@
        == c.group@ by {
        let all = of_group(shown, groups[j].key@);
        all.to_multiset_ensures();
        groups[j].conns@.to_multiset_ensures();
        assert(groups[j].conns@.to_multiset().count(c) > 0);
        assert(all.contains(c));
        let x = choose|x: int| 0 <= x < all.len() && all[x] == c;
        shown.lemma_filter_pred(|x: &'a ConnectionInfo| x.group@ == groups[j].key@, x);
    }
}

/// While a search runs no group is drawn folded.
pub proof fn law_search_hides_nothing<'a>(
    groups: Seq<SidebarGroup<'a>>,
    shown: Seq<&'a ConnectionInfo>,
    collapsed: Set<Seq<char>>,
    i: int,
)
    requires
        is_sidebar(groups, shown, true, collapsed),
        0 <= i < groups.len(),
    ensures
        !groups[i].collapsed,
{
    assert(groups[i].collapsed == false);
}

// ---- the folded groups ---------------------------------------------------------------------

/// A connection of the list is in group `g`.
pub open spec fn in_use(conns: Seq<ConnectionInfo>, g: Seq<char>) -> bool {
    exists|i: int| 0 <= i < conns.len() && (#[trigger] conns[i]).group@ == g
}

/// Forget folded groups no connection is in any more — the last one was
/// deleted or moved to another group. True when anything was dropped.
pub fn prune_collapsed_groups(groups: &mut NameSet, conns: &[ConnectionInfo]) -> (dropped: bool)
    ensures
        forall|g: Seq<char>| #[trigger]
            final(groups)@.contains(g) <==> old(groups)@.contains(g) && in_use(conns@, g),
        dropped == (final(groups)@ != old(groups)@),
{
    let ghost before = *groups;
    let mut dropped = false;
    let names = groups.names();
    let mut i: usize = 0;
    while i < names.len()
        invariant
            i <= names@.len(),
            forall|k: Seq<char>| #[trigger] names::in_list(names@, k) <==> before@.contains(k),
            forall|j: int| 0 <= j < i && !in_use(conns@, (#[trigger] names@[j])@) ==> !groups@.contains(
                names@[j]@,
            ),
            forall|g: Seq<char>| #[trigger] groups@.contains(g) ==> before@.contains(g),
            forall|g: Seq<char>| before@.contains(g) && in_use(conns@, g) ==> #[trigger] groups@.contains(g),
            dropped ==> exists|g: Seq<char>| before@.contains(g) && !#[trigger] in_use(conns@, g),
            !dropped ==> groups@ == before@,
        decreases names.len() - i,
    {
        if !any_in_group(conns, names[i].as_str()) {
            let ghost g = names@[i as int]@;
            assert(names::in_list(names@, g));
            assert(before@.contains(g) && !in_use(conns@, g));
            let _gone = groups.remove(names[i].as_str());
            dropped = true;
        }
        i += 1;
    }
    proof {
        assert forall|g: Seq<char>| #[trigger] groups@.contains(g) <==> before@.contains(g) && in_use(conns@, g) by {
            if groups@.contains(g) {
                assert(names::in_list(names@, g));
                let j = choose|j: int| 0 <= j < names@.len() && (#[trigger] names@[j])@ == g;
                assert(names@[j]@ == g);
            }
        }
        if dropped {
            let g = choose|g: Seq<char>| before@.contains(g) && !#[trigger] in_use(conns@, g);
            assert(!groups@.contains(g));
        }
    }
    dropped
}

fn any_in_group(conns: &[ConnectionInfo], g: &str) -> (r: bool)
    ensures
        r == in_use(conns@, g@),
{
    let mut i: usize = 0;
    while i < conns.len()
        invariant
            i <= conns.len(),
            forall|j: int| 0 <= j < i ==> (#[trigger] conns@[j]).group@ != g@,
        decreases conns.len() - i,
    {
        if text::same_text(conns[i].group.as_str(), g) {
            return true;
        }
        i += 1;
    }
    false
}

} // verus!
