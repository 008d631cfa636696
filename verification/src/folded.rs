//! The folded sidebar groups on their way to disk and back.

use vstd::prelude::*;

use crate::names;
use crate::names::NameSet;
use crate::order;
use crate::order::Rank;
use crate::split;

verus! {

/// How long after the last fold or unfold the folded groups are saved, in
/// nanoseconds: a run of clicks costs one write, not one fsync each.
pub const GROUPS_SAVE_DELAY: u128 = 800_000_000;

/// Largest sealed file of folded groups that is read back; anything bigger is
/// not ours.
pub const SEALED_GROUPS_MAX_BYTES: u64 = 1_048_576;

/// What `serde_json::to_vec` writes for a list of texts; nothing if it fails.
pub uninterp spec fn json_of(list: Seq<Seq<char>>) -> Option<Seq<u8>>;

/// What `serde_json::from_slice` reads as a list of texts; nothing if the
/// bytes are not one.
pub uninterp spec fn names_in_json(bytes: Seq<u8>) -> Option<Seq<Seq<char>>>;

/// The bytes, if there are any.
pub open spec fn opt_bytes(b: Option<Vec<u8>>) -> Option<Seq<u8>> {
    match b {
        Some(b) => Some(b@),
        None => None,
    }
}

pub open spec fn opt_texts(l: Option<Vec<String>>) -> Option<Seq<Seq<char>>> {
    match l {
        Some(l) => Some(split::texts(l@)),
        None => None,
    }
}

/// `serde_json::to_vec` on a list of texts: a JSON array of strings. Neither a
/// list nor a text can fail to be written, and what is written reads back as
/// the same list.
#[verifier::external_body]
fn to_json(list: &Vec<String>) -> (r: Option<Vec<u8>>)
    ensures
        opt_bytes(r) == json_of(split::texts(list@)),
        r is Some,
        names_in_json(opt_bytes(r)->0) == Some(split::texts(list@)),
{
    serde_json::to_vec(list).ok()
}

/// `serde_json::from_slice` for a list of texts.
#[verifier::external_body]
fn from_json(bytes: &Vec<u8>) -> (r: Option<Vec<String>>)
    ensures
        opt_texts(r) == names_in_json(bytes@),
{
    serde_json::from_slice::<Vec<String>>(bytes).ok()
}

/// Texts ranked character by character.
pub struct ByText {}

impl Rank for ByText {
    type Item = String;

    open spec fn le(&self, a: String, b: String) -> bool {
        order::text_le(a@, b@)
    }

    proof fn total(&self, a: String, b: String) {
        order::lemma_text_le_total(a@, b@);
    }

    proof fn transitive(&self, a: String, b: String, c: String) {
        order::lemma_text_le_transitive(a@, b@, c@);
    }

    fn before(&self, a: &String, b: &String) -> (r: bool) {
        order::texts_le(a.as_str(), b.as_str())
    }
}

/// `list` holds exactly the names of the set, in order, each once.
pub open spec fn lists(list: Seq<Seq<char>>, set: Set<Seq<char>>) -> bool {
    &&& forall|k: Seq<char>| #[trigger] list.contains(k) <==> set.contains(k)
    &&& forall|i: int, j: int|
        0 <= i < j < list.len() ==> order::text_le(#[trigger] list[i], #[trigger] list[j]) && list[i]
            != list[j]
}

/// Two lists of the same set are the same list.
pub proof fn law_a_set_has_one_list(a: Seq<Seq<char>>, b: Seq<Seq<char>>, set: Set<Seq<char>>)
    requires
        lists(a, set),
        lists(b, set),
    ensures
        a == b,
    decreases a.len(),
{
    if a.len() == 0 {
        if b.len() > 0 {
            assert(b.contains(b[0]));
            assert(a.contains(b[0]));
        }
        assert(a =~= b);
    } else {
        assert(a.contains(a[0]));
        assert(b.contains(a[0]));
        let i = choose|i: int| 0 <= i < b.len() && b[i] == a[0];
        assert(b.contains(b[0]));
        assert(a.contains(b[0]));
        let j = choose|j: int| 0 <= j < a.len() && a[j] == b[0];
        if i > 0 {
            assert(order::text_le(b[0], b[i]));
            if j > 0 {
                assert(order::text_le(a[0], a[j]));
                order::lemma_text_le_antisymmetric(a[0], b[0]);
            }
            assert(false);
        }
        let rest = set.remove(a[0]);
        let ra = a.drop_first();
        let rb = b.drop_first();
        assert forall|k: Seq<char>| #[trigger] ra.contains(k) <==> rest.contains(k) by {
            if ra.contains(k) {
                let x = choose|x: int| 0 <= x < ra.len() && ra[x] == k;
                assert(a[x + 1] == k);
                assert(a.contains(k));
                assert(a[0] != a[x + 1]);
            }
            if rest.contains(k) {
                assert(a.contains(k));
                let x = choose|x: int| 0 <= x < a.len() && a[x] == k;
                assert(ra[x - 1] == k);
            }
        }
        assert forall|k: Seq<char>| #[trigger] rb.contains(k) <==> rest.contains(k) by {
            if rb.contains(k) {
                let x = choose|x: int| 0 <= x < rb.len() && rb[x] == k;
                assert(b[x + 1] == k);
                assert(b.contains(k));
                assert(b[0] != b[x + 1]);
            }
            if rest.contains(k) {
                assert(b.contains(k));
                let x = choose|x: int| 0 <= x < b.len() && b[x] == k;
                assert(rb[x - 1] == k);
            }
        }
        assert forall|x: int, y: int| 0 <= x < y < ra.len() implies order::text_le(
            #[trigger] ra[x],
            #[trigger] ra[y],
        ) && ra[x] != ra[y] by {
            assert(ra[x] == a[x + 1] && ra[y] == a[y + 1]);
        }
        assert forall|x: int, y: int| 0 <= x < y < rb.len() implies order::text_le(
            #[trigger] rb[x],
            #[trigger] rb[y],
        ) && rb[x] != rb[y] by {
            assert(rb[x] == b[x + 1] && rb[y] == b[y + 1]);
        }
        law_a_set_has_one_list(ra, rb, rest);
        assert(a =~= seq![a[0]] + ra);
        assert(b =~= seq![b[0]] + rb);
    }
}

/// The names of the set in order, each once.
pub fn sorted_names(set: &NameSet) -> (out: Vec<String>)
    ensures
        lists(split::texts(out@), set@),
{
    let items = set.names();
    let ghost all = items@;
    let out = order::sort_by(items, &ByText {  });
    let ghost done = out@;
    proof {
        all.to_multiset_ensures();
        done.to_multiset_ensures();
        let t = split::texts(done);
        assert forall|k: Seq<char>| #[trigger] t.contains(k) <==> set@.contains(k) by {
            assert(names::in_list(all, k) <==> set@.contains(k));
            if t.contains(k) {
                let i = choose|i: int| 0 <= i < t.len() && t[i] == k;
                assert(done[i]@ == k);
                assert(done.contains(done[i]));
                assert(all.to_multiset().count(done[i]) > 0);
                assert(all.contains(done[i]));
            }
            if names::in_list(all, k) {
                let i = choose|i: int| 0 <= i < all.len() && (#[trigger] all[i])@ == k;
                assert(all.contains(all[i]));
                assert(done.to_multiset().count(all[i]) > 0);
                assert(done.contains(all[i]));
                let j = choose|j: int| 0 <= j < done.len() && done[j] == all[i];
                assert(t[j] == k);
            }
        }
        lemma_no_repeats(all, done);
        assert forall|i: int, j: int| 0 <= i < j < t.len() implies order::text_le(
            #[trigger] t[i],
            #[trigger] t[j],
        ) && t[i] != t[j] by {
            assert(t[i] == done[i]@ && t[j] == done[j]@);
            assert(ByText {  }.le(done[i], done[j]));
        }
    }
    out
}

/// A list put in another order repeats no text if it did not before.
proof fn lemma_no_repeats(all: Seq<String>, done: Seq<String>)
    requires
        all.to_multiset() == done.to_multiset(),
        forall|i: int, j: int| 0 <= i < j < all.len() ==> (#[trigger] all[i])@ != (#[trigger] all[j])@,
    ensures
        forall|i: int, j: int| 0 <= i < j < done.len() ==> (#[trigger] done[i])@ != (#[trigger] done[j])@,
{
    all.to_multiset_ensures();
    done.to_multiset_ensures();
    assert(all.no_duplicates());
    all.lemma_multiset_has_no_duplicates();
    assert forall|x: String| done.to_multiset().contains(x) implies #[trigger] done.to_multiset().count(x) == 1 by {
        assert(all.to_multiset().count(x) == 1);
    }
    done.lemma_multiset_has_no_duplicates_conv();
    assert forall|i: int, j: int| 0 <= i < j < done.len() implies (#[trigger] done[i])@ != (
    #[trigger] done[j])@ by {
        assert(done.contains(done[i]) && done.contains(done[j]));
        assert(all.to_multiset().count(done[i]) > 0 && all.to_multiset().count(done[j]) > 0);
        assert(all.contains(done[i]) && all.contains(done[j]));
        let a = choose|a: int| 0 <= a < all.len() && all[a] == done[i];
        let b = choose|b: int| 0 <= b < all.len() && all[b] == done[j];
        assert(done[i] != done[j]);
        if a < b {
            assert(all[a]@ != all[b]@);
        } else if b < a {
            assert(all[b]@ != all[a]@);
        }
    }
}

/// The folded groups as they are sealed: the list of names, as JSON.
pub fn groups_snapshot(set: &NameSet) -> (r: Option<Vec<u8>>)
    ensures
        forall|list: Seq<Seq<char>>| #[trigger] lists(list, set@) ==> opt_bytes(r) == json_of(list),
        r matches Some(b) && names_in_json(b@) is Some && lists(names_in_json(b@)->0, set@),
{
    let list = sorted_names(set);
    let r = to_json(&list);
    proof {
        assert forall|l: Seq<Seq<char>>| #[trigger] lists(l, set@) implies opt_bytes(r) == json_of(l) by {
            law_a_set_has_one_list(l, split::texts(list@), set@);
        }
    }
    r
}

/// What was found where the sealed folded groups are kept.
#[derive(Debug)]
pub enum SealedGroups {
    /// No file yet.
    Missing,
    /// A file that could not be read or opened.
    Unreadable,
    /// What the file holds, opened.
    Opened(Vec<u8>),
}

/// The names of a list, if there is one.
pub open spec fn named(list: Option<Seq<Seq<char>>>) -> Set<Seq<char>> {
    match list {
        Some(list) => list.to_set(),
        None => Set::empty(),
    }
}

/// The names that the bytes hold; none if they are not a list of names.
pub open spec fn names_in(bytes: Seq<u8>) -> Set<Seq<char>> {
    named(names_in_json(bytes))
}

pub open spec fn sealed_names(sealed: SealedGroups) -> Set<Seq<char>> {
    match sealed {
        SealedGroups::Opened(bytes) => names_in(bytes@),
        _ => Set::empty(),
    }
}

pub open spec fn legacy_names(legacy: Option<Vec<u8>>) -> Set<Seq<char>> {
    match legacy {
        Some(bytes) => names_in(bytes@),
        None => Set::empty(),
    }
}

/// A name stands in a list if it is in the set of its texts.
proof fn lemma_listed(l: Seq<String>, k: Seq<char>)
    ensures
        names::in_list(l, k) <==> split::texts(l).to_set().contains(k),
{
    let t = split::texts(l);
    if names::in_list(l, k) {
        let i = choose|i: int| 0 <= i < l.len() && (#[trigger] l[i])@ == k;
        assert(t[i] == k);
    }
    if t.contains(k) {
        let i = choose|i: int| 0 <= i < t.len() && t[i] == k;
        assert(l[i]@ == k);
    }
}

/// The names of both lists, each where there is one.
pub fn merge_groups(sealed: Option<Vec<String>>, legacy: Option<Vec<String>>) -> (groups: NameSet)
    ensures
        groups@ =~= named(opt_texts(sealed)).union(named(opt_texts(legacy))),
{
    let mut groups = NameSet::new();
    match sealed {
        Some(list) => {
            proof {
                assert forall|k: Seq<char>| #[trigger] names::in_list(list@, k) <==> named(
                    opt_texts(sealed),
                ).contains(k) by {
                    lemma_listed(list@, k);
                }
            }
            groups.extend(list);
        },
        None => {},
    }
    match legacy {
        Some(list) => {
            proof {
                assert forall|k: Seq<char>| #[trigger] names::in_list(list@, k) <==> named(
                    opt_texts(legacy),
                ).contains(k) by {
                    lemma_listed(list@, k);
                }
            }
            groups.extend(list);
        },
        None => {},
    }
    groups
}

/// The folded groups of the vault just opened, with the names of a cleartext
/// file merged in; the flag says that one was found (`legacy_found`), for the
/// caller to seal at once and retire. A missing, damaged or foreign sealed
/// file folds nothing — the next save replaces it — and nothing is read while
/// the vault is locked.
pub fn groups_load(
    unlocked: bool,
    sealed: &SealedGroups,
    legacy_found: bool,
    legacy: &Option<Vec<u8>>,
) -> (r: (NameSet, bool))
    ensures
        r.1 == (unlocked && legacy_found),
        forall|k: Seq<char>| #[trigger]
            r.0@.contains(k) <==> unlocked && (sealed_names(*sealed).contains(k) || (legacy_found
                && legacy_names(*legacy).contains(k))),
{
    if !unlocked {
        return (NameSet::new(), false);
    }
    let sealed_list: Option<Vec<String>> = match sealed {
        SealedGroups::Opened(bytes) => from_json(bytes),
        _ => None,
    };
    let legacy_list: Option<Vec<String>> = match (legacy_found, legacy) {
        (true, Some(bytes)) => from_json(bytes),
        _ => None,
    };
    (merge_groups(sealed_list, legacy_list), legacy_found)
}

/// What a snapshot seals is what the next unlock folds.
pub proof fn law_folded_groups_read_back(set: Set<Seq<char>>, bytes: Seq<u8>)
    requires
        names_in_json(bytes) is Some,
        lists(names_in_json(bytes)->0, set),
    ensures
        names_in(bytes) =~= set,
{
    let list = names_in_json(bytes)->0;
    assert forall|k: Seq<char>| names_in(bytes).contains(k) <==> set.contains(k) by {
        assert(list.contains(k) <==> set.contains(k));
    }
}

} // verus!
