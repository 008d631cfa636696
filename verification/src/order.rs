//! Orders on texts and lists, and sorting by them.

use vstd::prelude::*;

use crate::text;

verus! {

// ---- the order of texts --------------------------------------------------------

/// `a` comes before `b` or is `b`, character by character.
pub open spec fn text_le(a: Seq<char>, b: Seq<char>) -> bool
    decreases a.len(),
{
    if a.len() == 0 {
        true
    } else if b.len() == 0 {
        false
    } else if a[0] != b[0] {
        a[0] < b[0]
    } else {
        text_le(a.drop_first(), b.drop_first())
    }
}

/// Two texts that come before each other are the same text.
pub proof fn lemma_text_le_antisymmetric(a: Seq<char>, b: Seq<char>)
    ensures
        text_le(a, b) && text_le(b, a) <==> a == b,
    decreases a.len(),
{
    if a.len() == 0 || b.len() == 0 {
        assert(a.len() == b.len() ==> a =~= b);
    } else if a[0] == b[0] {
        lemma_text_le_antisymmetric(a.drop_first(), b.drop_first());
        if a.drop_first() == b.drop_first() {
            assert(a =~= seq![a[0]] + a.drop_first());
            assert(b =~= seq![b[0]] + b.drop_first());
        }
    }
}

pub proof fn lemma_text_le_total(a: Seq<char>, b: Seq<char>)
    ensures
        text_le(a, b) || text_le(b, a),
    decreases a.len(),
{
    if a.len() > 0 && b.len() > 0 && a[0] == b[0] {
        lemma_text_le_total(a.drop_first(), b.drop_first());
    }
}

pub proof fn lemma_text_le_transitive(a: Seq<char>, b: Seq<char>, c: Seq<char>)
    requires
        text_le(a, b),
        text_le(b, c),
    ensures
        text_le(a, c),
    decreases a.len(),
{
    if a.len() > 0 && b.len() > 0 && c.len() > 0 && a[0] == b[0] && b[0] == c[0] {
        lemma_text_le_transitive(a.drop_first(), b.drop_first(), c.drop_first());
    }
}

/// Whether `a` comes before `b` or is `b`.
pub fn chars_le(a: &[char], b: &[char]) -> (r: bool)
    ensures
        r == text_le(a@, b@),
{
    let mut i: usize = 0;
    assert(a@.skip(0) =~= a@);
    assert(b@.skip(0) =~= b@);
    loop
        invariant
            i <= a.len(),
            i <= b.len(),
            text_le(a@, b@) == text_le(a@.skip(i as int), b@.skip(i as int)),
        decreases a.len() - i,
    {
        if i == a.len() {
            return true;
        }
        if i == b.len() {
            return false;
        }
        if a[i] != b[i] {
            return a[i] < b[i];
        }
        assert(a@.skip(i as int).drop_first() =~= a@.skip(i + 1));
        assert(b@.skip(i as int).drop_first() =~= b@.skip(i + 1));
        i += 1;
    }
}

/// Whether text `a` comes before text `b` or is it.
pub fn texts_le(a: &str, b: &str) -> (r: bool)
    ensures
        r == text_le(a@, b@),
{
    let x = text::chars_of(a);
    let y = text::chars_of(b);
    chars_le(x.as_slice(), y.as_slice())
}

// ---- sorting ---------------------------------------------------------------------

/// A way to rank the items of a list: a total preorder, with its test.
pub trait Rank {
    type Item;

    /// `a` may stand before `b`.
    spec fn le(&self, a: Self::Item, b: Self::Item) -> bool;

    proof fn total(&self, a: Self::Item, b: Self::Item)
        ensures
            self.le(a, b) || self.le(b, a),
    ;

    proof fn transitive(&self, a: Self::Item, b: Self::Item, c: Self::Item)
        requires
            self.le(a, b),
            self.le(b, c),
        ensures
            self.le(a, c),
    ;

    fn before(&self, a: &Self::Item, b: &Self::Item) -> (r: bool)
        ensures
            r == self.le(*a, *b),
    ;
}

/// No item stands after one that it has to stand before.
pub open spec fn sorted<R: Rank>(rank: R, s: Seq<R::Item>) -> bool {
    forall|i: int, j: int| 0 <= i < j < s.len() ==> rank.le(#[trigger] s[i], #[trigger] s[j])
}

/// The items that rank exactly as `x` does, in the order they stand in.
pub open spec fn ranked_as<R: Rank>(rank: R, s: Seq<R::Item>, x: R::Item) -> Seq<R::Item> {
    s.filter(|y: R::Item| rank.le(x, y) && rank.le(y, x))
}

/// `out` is `s` in order, and items that rank the same stand as they stood.
pub open spec fn stably_sorted<R: Rank>(rank: R, s: Seq<R::Item>, out: Seq<R::Item>) -> bool {
    &&& sorted(rank, out)
    &&& out.to_multiset() == s.to_multiset()
    &&& forall|x: R::Item| #[trigger] ranked_as(rank, out, x) == ranked_as(rank, s, x)
}

/// Putting `x` after everything that may stand before it.
proof fn lemma_insert<R: Rank>(rank: R, s: Seq<R::Item>, out: Seq<R::Item>, x: R::Item, k: int)
    requires
        stably_sorted(rank, s, out),
        0 <= k <= out.len(),
        k > 0 ==> rank.le(out[k - 1], x),
        forall|j: int| k <= j < out.len() ==> !rank.le(#[trigger] out[j], x),
    ensures
        stably_sorted(rank, s.push(x), out.insert(k, x)),
{
    let new = out.insert(k, x);
    assert forall|i: int, j: int| 0 <= i < j < new.len() implies rank.le(
        #[trigger] new[i],
        #[trigger] new[j],
    ) by {
        if j == k {
            assert(new[i] == out[i]);
            if i < k - 1 {
                rank.transitive(out[i], out[k - 1], x);
            }
        } else if i == k {
            assert(new[j] == out[j - 1]);
            rank.total(x, out[j - 1]);
        } else {
            let a = if i < k { i } else { i - 1 };
            let b = if j < k { j } else { j - 1 };
            assert(new[i] == out[a]);
            assert(new[j] == out[b]);
        }
    }
    s.to_multiset_ensures();
    vstd::seq_lib::to_multiset_insert(out, k, x);
    vstd::seq_lib::to_multiset_build(s, x);
    let head = out.take(k);
    let tail = out.skip(k);
    assert(out =~= head + tail);
    assert(new =~= head.push(x) + tail);
    assert forall|y: R::Item| #[trigger] ranked_as(rank, new, y) == ranked_as(
        rank,
        s.push(x),
        y,
    ) by {
        let p = |z: R::Item| rank.le(y, z) && rank.le(z, y);
        assert(ranked_as(rank, out, y) == ranked_as(rank, s, y));
        Seq::filter_distributes_over_add(head, tail, p);
        Seq::filter_distributes_over_add(head.push(x), tail, p);
        head.lemma_filter_push(x, p);
        s.lemma_filter_push(x, p);
        if p(x) {
            // Nothing behind the place ranks as `x` does.
            assert forall|j: int| 0 <= j < tail.len() implies !p(#[trigger] tail[j]) by {
                if p(tail[j]) {
                    rank.transitive(tail[j], y, x);
                    assert(tail[j] == out[k + j]);
                }
            }
            assert forall|z: R::Item| #[trigger] tail.contains(z) implies !p(z) by {
                let j = choose|j: int| 0 <= j < tail.len() && tail[j] == z;
                assert(!p(tail[j]));
            }
            tail.lemma_all_neg_filter_empty(p);
            assert(ranked_as(rank, new, y) =~= ranked_as(rank, s.push(x), y));
        } else {
            assert(ranked_as(rank, new, y) =~= ranked_as(rank, s.push(x), y));
        }
    }
}

/// The items of `items` in order; items that rank the same keep their order.
pub fn sort_by<R: Rank>(items: Vec<R::Item>, rank: &R) -> (out: Vec<R::Item>)
    ensures
        stably_sorted(*rank, items@, out@),
{
    let mut out: Vec<R::Item> = Vec::new();
    let ghost all = items@;
    assert(out@ =~= all.take(0));
    for x in it: items
        invariant
            it.seq() == all,
            stably_sorted(*rank, all.take(it.index() as int), out@),
    {
        let mut k: usize = out.len();
        while k > 0 && !rank.before(&out[k - 1], &x)
            invariant
                k <= out.len(),
                forall|j: int| k <= j < out.len() ==> !rank.le(#[trigger] out@[j], x),
            decreases k,
        {
            k -= 1;
        }
        proof {
            lemma_insert(*rank, all.take(it.index() as int), out@, x, k as int);
            assert(all.take(it.index() as int).push(x) =~= all.take(it.index() + 1));
        }
        out.insert(k, x);
    }
    assert(all.take(all.len() as int) =~= all);
    out
}

} // verus!
