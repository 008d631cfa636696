//! Saved connections: their order, the search over them, the sidebar's groups.

use std::cmp::Ordering;
use std::marker::PhantomData;

use vstd::prelude::*;

use crate::lettercase;
use crate::order;
use crate::order::Rank;
use crate::text;

verus! {

/// A saved connection as lists show it: no secret in it.
#[derive(Debug)]
pub struct ConnectionInfo {
    pub id: String,
    pub name: String,
    pub host: String,
    pub port: u16,
    pub username: String,
    pub auth_type: String,
    pub group: String,
    pub color: String,
    pub proxy_id: Option<String>,
}

impl Clone for ConnectionInfo {
    fn clone(&self) -> (r: ConnectionInfo)
        ensures
            r == *self,
    {
        let proxy_id = match &self.proxy_id {
            Some(p) => Some(p.clone()),
            None => None,
        };
        ConnectionInfo {
            id: self.id.clone(),
            name: self.name.clone(),
            host: self.host.clone(),
            port: self.port,
            username: self.username.clone(),
            auth_type: self.auth_type.clone(),
            group: self.group.clone(),
            color: self.color.clone(),
            proxy_id,
        }
    }
}

// ---- order ---------------------------------------------------------------------------

/// How two texts compare, character by character.
pub open spec fn text_order(a: Seq<char>, b: Seq<char>) -> Ordering {
    if a == b {
        Ordering::Equal
    } else if order::text_le(a, b) {
        Ordering::Less
    } else {
        Ordering::Greater
    }
}

/// How two lists of keys compare: by the first pair that differs.
pub open spec fn key_order(a: Seq<Seq<char>>, b: Seq<Seq<char>>) -> Ordering
    decreases a.len(),
{
    if a.len() == 0 || b.len() == 0 {
        Ordering::Equal
    } else if a[0] != b[0] {
        text_order(a[0], b[0])
    } else {
        key_order(a.drop_first(), b.drop_first())
    }
}

/// What a group is ordered by: named ones before the ungrouped bucket, then
/// the name in lower case, then the name.
pub open spec fn group_keys(g: Seq<char>) -> Seq<Seq<char>> {
    seq![
        if g.len() == 0 { seq!['1'] } else { seq!['0'] },
        lettercase::lower_text(g),
        g,
    ]
}

/// What a connection is ordered by: its group, then its name and host without
/// regard to case, then exactly, then its id.
pub open spec fn connection_keys(c: ConnectionInfo) -> Seq<Seq<char>> {
    group_keys(c.group@) + seq![
        lettercase::lower_each(c.name@),
        lettercase::lower_each(c.host@),
        c.name@,
        c.host@,
        c.id@,
    ]
}

pub open spec fn keys_le(a: Seq<Seq<char>>, b: Seq<Seq<char>>) -> bool {
    key_order(a, b) != Ordering::Greater
}

pub proof fn lemma_text_order(a: Seq<char>, b: Seq<char>)
    ensures
        text_order(a, b) == Ordering::Equal <==> a == b,
        text_order(a, b) == Ordering::Less <==> text_order(b, a) == Ordering::Greater,
        text_order(a, b) != Ordering::Greater <==> order::text_le(a, b),
{
    order::lemma_text_le_antisymmetric(a, b);
    order::lemma_text_le_total(a, b);
}

pub proof fn lemma_keys_total(a: Seq<Seq<char>>, b: Seq<Seq<char>>)
    requires
        a.len() == b.len(),
    ensures
        keys_le(a, b) || keys_le(b, a),
        key_order(a, b) == Ordering::Less <==> key_order(b, a) == Ordering::Greater,
        key_order(a, b) == Ordering::Equal <==> a == b,
    decreases a.len(),
{
    if a.len() == 0 {
        assert(a =~= b);
    } else {
        lemma_text_order(a[0], b[0]);
        if a[0] == b[0] {
            lemma_keys_total(a.drop_first(), b.drop_first());
            if a.drop_first() == b.drop_first() {
                assert(a =~= seq![a[0]] + a.drop_first());
                assert(b =~= seq![b[0]] + b.drop_first());
            }
        }
    }
}

pub proof fn lemma_keys_transitive(a: Seq<Seq<char>>, b: Seq<Seq<char>>, c: Seq<Seq<char>>)
    requires
        a.len() == b.len() == c.len(),
        keys_le(a, b),
        keys_le(b, c),
    ensures
        keys_le(a, c),
    decreases a.len(),
{
    if a.len() > 0 {
        lemma_text_order(a[0], b[0]);
        lemma_text_order(b[0], c[0]);
        lemma_text_order(a[0], c[0]);
        if a[0] == b[0] && b[0] == c[0] {
            lemma_keys_transitive(a.drop_first(), b.drop_first(), c.drop_first());
        } else {
            order::lemma_text_le_transitive(a[0], b[0], c[0]);
            if a[0] == c[0] {
                order::lemma_text_le_antisymmetric(a[0], b[0]);
            }
        }
    }
}

fn compare_chars(a: &[char], b: &[char]) -> (r: Ordering)
    ensures
        r == text_order(a@, b@),
{
    if text::same_chars(a, b) {
        Ordering::Equal
    } else if order::chars_le(a, b) {
        Ordering::Less
    } else {
        Ordering::Greater
    }
}

pub fn compare_texts(a: &str, b: &str) -> (r: Ordering)
    ensures
        r == text_order(a@, b@),
{
    let x = text::chars_of(a);
    let y = text::chars_of(b);
    compare_chars(x.as_slice(), y.as_slice())
}

/// Two texts without regard to case.
pub fn compare_ignoring_case(a: &str, b: &str) -> (r: Ordering)
    ensures
        r == text_order(lettercase::lower_each(a@), lettercase::lower_each(b@)),
{
    let x = text::chars_of(a);
    let y = text::chars_of(b);
    let lx = lettercase::lowercase_chars(x.as_slice());
    let ly = lettercase::lowercase_chars(y.as_slice());
    compare_chars(lx.as_slice(), ly.as_slice())
}

/// Group order: by name without regard to case — Chinese and English names
/// alike, by their text; no collation beyond that — and the ungrouped bucket
/// last. Names that differ only in case keep a fixed order.
pub fn group_order(a: &str, b: &str) -> (r: Ordering)
    ensures
        r == key_order(group_keys(a@), group_keys(b@)),
{
    let ghost ka = group_keys(a@);
    let ghost kb = group_keys(b@);
    proof {
        reveal_with_fuel(key_order, 4);
        lemma_text_order(ka[0], kb[0]);
        assert(ka.drop_first()[0] == ka[1] && kb.drop_first()[0] == kb[1]);
        assert(ka.drop_first().drop_first()[0] == ka[2] && kb.drop_first().drop_first()[0] == kb[2]);
    }
    if a.is_empty() != b.is_empty() {
        assert(seq!['0'].drop_first() =~= Seq::<char>::empty());
        assert(seq!['0'][0] == '0' && seq!['1'][0] == '1');
        assert(order::text_le(seq!['0'], seq!['1']));
        assert(!order::text_le(seq!['1'], seq!['0']));
        return if b.is_empty() { Ordering::Less } else { Ordering::Greater };
    }
    let la = lettercase::lowercase(a);
    let lb = lettercase::lowercase(b);
    match compare_texts(la.as_str(), lb.as_str()) {
        Ordering::Equal => compare_texts(a, b),
        other => other,
    }
}

/// Order of connections wherever they are listed — the sidebar, the connect
/// dialog, the palette: by group as the sidebar orders its groups, then by
/// name without regard to case, then by host. The exact name, host and id
/// settle ties, so the order never depends on how they were loaded.
pub fn connection_order(a: &ConnectionInfo, b: &ConnectionInfo) -> (r: Ordering)
    ensures
        r == key_order(connection_keys(*a), connection_keys(*b)),
{
    let ghost ka = connection_keys(*a);
    let ghost kb = connection_keys(*b);
    proof {
        lemma_keys_split(group_keys(a.group@), group_keys(b.group@), seq![
            lettercase::lower_each(a.name@),
            lettercase::lower_each(a.host@),
            a.name@,
            a.host@,
            a.id@,
        ], seq![
            lettercase::lower_each(b.name@),
            lettercase::lower_each(b.host@),
            b.name@,
            b.host@,
            b.id@,
        ]);
    }
    match group_order(a.group.as_str(), b.group.as_str()) {
        Ordering::Equal => order_in_group(a, b),
        other => other,
    }
}

/// Comparing two lists is comparing their heads, and then their tails.
proof fn lemma_keys_split(
    a: Seq<Seq<char>>,
    b: Seq<Seq<char>>,
    x: Seq<Seq<char>>,
    y: Seq<Seq<char>>,
)
    requires
        a.len() == b.len(),
        x.len() == y.len(),
    ensures
        key_order(a + x, b + y) == (if key_order(a, b) == Ordering::Equal {
            key_order(x, y)
        } else {
            key_order(a, b)
        }),
    decreases a.len(),
{
    if a.len() == 0 {
        assert(a + x =~= x);
        assert(b + y =~= y);
    } else {
        lemma_text_order(a[0], b[0]);
        assert((a + x).drop_first() =~= a.drop_first() + x);
        assert((b + y).drop_first() =~= b.drop_first() + y);
        lemma_keys_split(a.drop_first(), b.drop_first(), x, y);
    }
}

/// The order of two connections of one group.
fn order_in_group(a: &ConnectionInfo, b: &ConnectionInfo) -> (r: Ordering)
    ensures
        r == key_order(
            seq![
                lettercase::lower_each(a.name@),
                lettercase::lower_each(a.host@),
                a.name@,
                a.host@,
                a.id@,
            ],
            seq![
                lettercase::lower_each(b.name@),
                lettercase::lower_each(b.host@),
                b.name@,
                b.host@,
                b.id@,
            ],
        ),
{
    proof {
        lemma_five(
            lettercase::lower_each(a.name@),
            lettercase::lower_each(a.host@),
            a.name@,
            a.host@,
            a.id@,
            lettercase::lower_each(b.name@),
            lettercase::lower_each(b.host@),
            b.name@,
            b.host@,
            b.id@,
        );
    }
    match compare_ignoring_case(a.name.as_str(), b.name.as_str()) {
        Ordering::Equal => {},
        other => {
            return other;
        },
    }
    match compare_ignoring_case(a.host.as_str(), b.host.as_str()) {
        Ordering::Equal => {},
        other => {
            return other;
        },
    }
    match compare_texts(a.name.as_str(), b.name.as_str()) {
        Ordering::Equal => {},
        other => {
            return other;
        },
    }
    match compare_texts(a.host.as_str(), b.host.as_str()) {
        Ordering::Equal => {},
        other => {
            return other;
        },
    }
    compare_texts(a.id.as_str(), b.id.as_str())
}

proof fn lemma_five(
    a0: Seq<char>,
    a1: Seq<char>,
    a2: Seq<char>,
    a3: Seq<char>,
    a4: Seq<char>,
    b0: Seq<char>,
    b1: Seq<char>,
    b2: Seq<char>,
    b3: Seq<char>,
    b4: Seq<char>,
)
    ensures
        key_order(seq![a0, a1, a2, a3, a4], seq![b0, b1, b2, b3, b4]) == (if a0 != b0 {
            text_order(a0, b0)
        } else if a1 != b1 {
            text_order(a1, b1)
        } else if a2 != b2 {
            text_order(a2, b2)
        } else if a3 != b3 {
            text_order(a3, b3)
        } else {
            text_order(a4, b4)
        }),
{
    assert(seq![a0, a1, a2, a3, a4].drop_first() =~= seq![a1, a2, a3, a4]);
    assert(seq![b0, b1, b2, b3, b4].drop_first() =~= seq![b1, b2, b3, b4]);
    assert(seq![a1, a2, a3, a4].drop_first() =~= seq![a2, a3, a4]);
    assert(seq![b1, b2, b3, b4].drop_first() =~= seq![b2, b3, b4]);
    assert(seq![a2, a3, a4].drop_first() =~= seq![a3, a4]);
    assert(seq![b2, b3, b4].drop_first() =~= seq![b3, b4]);
    assert(seq![a3, a4].drop_first() =~= seq![a4]);
    assert(seq![b3, b4].drop_first() =~= seq![b4]);
    let (x4, y4) = (seq![a4], seq![b4]);
    assert(x4.drop_first() =~= Seq::<Seq<char>>::empty());
    assert(x4[0] == a4 && y4[0] == b4);
    assert(key_order(x4.drop_first(), y4.drop_first()) == Ordering::Equal);
    assert(key_order(x4, y4) == text_order(a4, b4));
    let (x3, y3) = (seq![a3, a4], seq![b3, b4]);
    assert(x3[0] == a3 && y3[0] == b3);
    assert(key_order(x3, y3) == if a3 != b3 { text_order(a3, b3) } else { key_order(x4, y4) });
    let (x2, y2) = (seq![a2, a3, a4], seq![b2, b3, b4]);
    assert(x2[0] == a2 && y2[0] == b2);
    assert(key_order(x2, y2) == if a2 != b2 { text_order(a2, b2) } else { key_order(x3, y3) });
    let (x1, y1) = (seq![a1, a2, a3, a4], seq![b1, b2, b3, b4]);
    assert(x1[0] == a1 && y1[0] == b1);
    assert(key_order(x1, y1) == if a1 != b1 { text_order(a1, b1) } else { key_order(x2, y2) });
    let (x0, y0) = (seq![a0, a1, a2, a3, a4], seq![b0, b1, b2, b3, b4]);
    assert(x0[0] == a0 && y0[0] == b0);
}

/// The order of connections is a total order: any two compare, comparing the
/// other way round turns the answer round, and only connections alike in
/// group, name, host and id compare as equal.
pub proof fn law_connection_order_is_total(a: ConnectionInfo, b: ConnectionInfo)
    ensures
        key_order(connection_keys(a), connection_keys(b)) == Ordering::Less <==> key_order(
            connection_keys(b),
            connection_keys(a),
        ) == Ordering::Greater,
        key_order(connection_keys(a), connection_keys(b)) == Ordering::Equal <==> (a.group@ == b.group@
            && a.name@ == b.name@ && a.host@ == b.host@ && a.id@ == b.id@),
{
    let ka = connection_keys(a);
    let kb = connection_keys(b);
    lemma_keys_total(ka, kb);
    if ka == kb {
        assert(ka[2] == a.group@ && kb[2] == b.group@);
        assert(ka[5] == a.name@ && kb[5] == b.name@);
        assert(ka[6] == a.host@ && kb[6] == b.host@);
        assert(ka[7] == a.id@ && kb[7] == b.id@);
    }
}

/// The order of connections is transitive.
pub proof fn law_connection_order_is_transitive(a: ConnectionInfo, b: ConnectionInfo, c: ConnectionInfo)
    requires
        keys_le(connection_keys(a), connection_keys(b)),
        keys_le(connection_keys(b), connection_keys(c)),
    ensures
        keys_le(connection_keys(a), connection_keys(c)),
{
    lemma_keys_transitive(connection_keys(a), connection_keys(b), connection_keys(c));
}

/// The ungrouped bucket comes after every named group.
pub proof fn law_ungrouped_comes_last(g: Seq<char>)
    requires
        g.len() > 0,
    ensures
        key_order(group_keys(g), group_keys(Seq::empty())) == Ordering::Less,
{
    let ka = group_keys(g);
    let kb = group_keys(Seq::empty());
    assert(seq!['0'][0] == '0' && seq!['1'][0] == '1');
    assert(ka[0] == seq!['0'] && kb[0] == seq!['1']);
    assert(order::text_le(seq!['0'], seq!['1']));
}

/// Connections ranked in their order.
pub struct ByOrder {}

impl Rank for ByOrder {
    type Item = ConnectionInfo;

    open spec fn le(&self, a: ConnectionInfo, b: ConnectionInfo) -> bool {
        keys_le(connection_keys(a), connection_keys(b))
    }

    proof fn total(&self, a: ConnectionInfo, b: ConnectionInfo) {
        lemma_keys_total(connection_keys(a), connection_keys(b));
    }

    proof fn transitive(&self, a: ConnectionInfo, b: ConnectionInfo, c: ConnectionInfo) {
        lemma_keys_transitive(connection_keys(a), connection_keys(b), connection_keys(c));
    }

    fn before(&self, a: &ConnectionInfo, b: &ConnectionInfo) -> (r: bool) {
        match connection_order(a, b) {
            Ordering::Greater => false,
            _ => true,
        }
    }
}

/// Connections of a list, ranked in their order.
pub struct ByOrderIn<'a> {
    pub list: PhantomData<&'a ConnectionInfo>,
}

impl<'a> Rank for ByOrderIn<'a> {
    type Item = &'a ConnectionInfo;

    open spec fn le(&self, a: &'a ConnectionInfo, b: &'a ConnectionInfo) -> bool {
        keys_le(connection_keys(*a), connection_keys(*b))
    }

    proof fn total(&self, a: &'a ConnectionInfo, b: &'a ConnectionInfo) {
        lemma_keys_total(connection_keys(*a), connection_keys(*b));
    }

    proof fn transitive(&self, a: &'a ConnectionInfo, b: &'a ConnectionInfo, c: &'a ConnectionInfo) {
        lemma_keys_transitive(connection_keys(*a), connection_keys(*b), connection_keys(*c));
    }

    fn before(&self, a: &&'a ConnectionInfo, b: &&'a ConnectionInfo) -> (r: bool) {
        match connection_order(*a, *b) {
            Ordering::Greater => false,
            _ => true,
        }
    }
}

} // verus!
