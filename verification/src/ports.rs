//! The table of listening ports and its order.

use std::cmp::Ordering;

use vstd::prelude::*;

use crate::connections;
use crate::lettercase;
use crate::order;
use crate::order::Rank;

verus! {

/// A port that a host listens on.
#[derive(Debug)]
pub struct PortInfo {
    pub proto: String,
    pub local_addr: String,
    pub port: u16,
    /// The process that holds it; not every user may see that.
    pub pid: Option<u32>,
    pub process: String,
}

/// Column the listening-ports table is sorted by.
#[derive(Debug, Clone, Copy, PartialEq, Eq, Structural)]
pub enum PortSort {
    Proto,
    Addr,
    Port,
    Pid,
    Process,
}

pub open spec fn port_order(a: u16, b: u16) -> Ordering {
    if a < b {
        Ordering::Less
    } else if a == b {
        Ordering::Equal
    } else {
        Ordering::Greater
    }
}

/// No pid comes before any pid.
pub open spec fn pid_order(a: Option<u32>, b: Option<u32>) -> Ordering {
    match (a, b) {
        (None, None) => Ordering::Equal,
        (None, Some(_)) => Ordering::Less,
        (Some(_), None) => Ordering::Greater,
        (Some(x), Some(y)) => if x < y {
            Ordering::Less
        } else if x == y {
            Ordering::Equal
        } else {
            Ordering::Greater
        },
    }
}

/// How two rows compare in one column.
pub open spec fn column_order(key: PortSort, a: PortInfo, b: PortInfo) -> Ordering {
    match key {
        PortSort::Proto => connections::text_order(a.proto@, b.proto@),
        PortSort::Addr => connections::text_order(a.local_addr@, b.local_addr@),
        PortSort::Port => port_order(a.port, b.port),
        PortSort::Pid => pid_order(a.pid, b.pid),
        PortSort::Process => connections::text_order(
            lettercase::lower_each(a.process@),
            lettercase::lower_each(b.process@),
        ),
    }
}

/// `a`, unless it leaves the matter to `b`.
pub open spec fn order_then(a: Ordering, b: Ordering) -> Ordering {
    if a == Ordering::Equal {
        b
    } else {
        a
    }
}

/// How two rows compare: by the column, then by port, then by protocol.
pub open spec fn row_order(key: PortSort, a: PortInfo, b: PortInfo) -> Ordering {
    order_then(
        column_order(key, a, b),
        order_then(port_order(a.port, b.port), connections::text_order(a.proto@, b.proto@)),
    )
}

/// How `a` to `b`, `b` to `c` and `a` to `c` compare fits together.
spec fn orders_agree(ab: Ordering, bc: Ordering, ac: Ordering) -> bool {
    &&& ab == Ordering::Equal ==> ac == bc
    &&& bc == Ordering::Equal ==> ac == ab
    &&& ab == Ordering::Less && bc == Ordering::Less ==> ac == Ordering::Less
    &&& ab == Ordering::Greater && bc == Ordering::Greater ==> ac == Ordering::Greater
}

proof fn lemma_texts_fit(a: Seq<char>, b: Seq<char>, c: Seq<char>)
    ensures
        orders_agree(
            connections::text_order(a, b),
            connections::text_order(b, c),
            connections::text_order(a, c),
        ),
{
    connections::lemma_text_order(a, b);
    connections::lemma_text_order(b, c);
    connections::lemma_text_order(a, c);
    connections::lemma_text_order(b, a);
    connections::lemma_text_order(c, b);
    connections::lemma_text_order(c, a);
    if order::text_le(a, b) && order::text_le(b, c) {
        order::lemma_text_le_transitive(a, b, c);
    }
    if order::text_le(c, b) && order::text_le(b, a) {
        order::lemma_text_le_transitive(c, b, a);
    }
    order::lemma_text_le_antisymmetric(a, c);
}

proof fn lemma_rows_fit(key: PortSort, a: PortInfo, b: PortInfo, c: PortInfo)
    ensures
        orders_agree(row_order(key, a, b), row_order(key, b, c), row_order(key, a, c)),
        row_order(key, a, b) == Ordering::Less <==> row_order(key, b, a) == Ordering::Greater,
{
    lemma_texts_fit(a.proto@, b.proto@, c.proto@);
    lemma_texts_fit(a.local_addr@, b.local_addr@, c.local_addr@);
    lemma_texts_fit(
        lettercase::lower_each(a.process@),
        lettercase::lower_each(b.process@),
        lettercase::lower_each(c.process@),
    );
    connections::lemma_text_order(a.proto@, b.proto@);
    connections::lemma_text_order(b.proto@, a.proto@);
    connections::lemma_text_order(a.local_addr@, b.local_addr@);
    connections::lemma_text_order(b.local_addr@, a.local_addr@);
    connections::lemma_text_order(
        lettercase::lower_each(a.process@),
        lettercase::lower_each(b.process@),
    );
    connections::lemma_text_order(
        lettercase::lower_each(b.process@),
        lettercase::lower_each(a.process@),
    );
}

fn compare_ports(a: u16, b: u16) -> (r: Ordering)
    ensures
        r == port_order(a, b),
{
    if a < b {
        Ordering::Less
    } else if a == b {
        Ordering::Equal
    } else {
        Ordering::Greater
    }
}

fn compare_pids(a: Option<u32>, b: Option<u32>) -> (r: Ordering)
    ensures
        r == pid_order(a, b),
{
    match (a, b) {
        (None, None) => Ordering::Equal,
        (None, Some(_)) => Ordering::Less,
        (Some(_), None) => Ordering::Greater,
        (Some(x), Some(y)) => if x < y {
            Ordering::Less
        } else if x == y {
            Ordering::Equal
        } else {
            Ordering::Greater
        },
    }
}

fn compare_rows(key: PortSort, a: &PortInfo, b: &PortInfo) -> (r: Ordering)
    ensures
        r == row_order(key, *a, *b),
{
    let primary = match key {
        PortSort::Proto => connections::compare_texts(a.proto.as_str(), b.proto.as_str()),
        PortSort::Addr => connections::compare_texts(a.local_addr.as_str(), b.local_addr.as_str()),
        PortSort::Port => compare_ports(a.port, b.port),
        PortSort::Pid => compare_pids(a.pid, b.pid),
        PortSort::Process => connections::compare_ignoring_case(
            a.process.as_str(),
            b.process.as_str(),
        ),
    };
    match primary {
        Ordering::Equal => match compare_ports(a.port, b.port) {
            Ordering::Equal => connections::compare_texts(a.proto.as_str(), b.proto.as_str()),
            other => other,
        },
        other => other,
    }
}

/// Rows ranked by a column, upwards or downwards.
pub struct ByColumn {
    pub key: PortSort,
    pub desc: bool,
}

impl Rank for ByColumn {
    type Item = PortInfo;

    open spec fn le(&self, a: PortInfo, b: PortInfo) -> bool {
        if self.desc {
            row_order(self.key, a, b) != Ordering::Less
        } else {
            row_order(self.key, a, b) != Ordering::Greater
        }
    }

    proof fn total(&self, a: PortInfo, b: PortInfo) {
        lemma_rows_fit(self.key, a, b, a);
    }

    proof fn transitive(&self, a: PortInfo, b: PortInfo, c: PortInfo) {
        lemma_rows_fit(self.key, a, b, c);
    }

    fn before(&self, a: &PortInfo, b: &PortInfo) -> (r: bool) {
        match compare_rows(self.key, a, b) {
            Ordering::Less => !self.desc,
            Ordering::Equal => true,
            Ordering::Greater => self.desc,
        }
    }
}

/// Sort the listening-ports table; ties fall back to port, then protocol.
pub fn sort_ports(ports: &mut Vec<PortInfo>, key: PortSort, desc: bool)
    ensures
        order::stably_sorted((ByColumn { key, desc }), old(ports)@, final(ports)@),
{
    let mut rows: Vec<PortInfo> = Vec::new();
    std::mem::swap(ports, &mut rows);
    let rank = ByColumn { key, desc };
    let mut sorted = order::sort_by(rows, &rank);
    std::mem::swap(ports, &mut sorted);
}

/// The order that a click on column `key` asks for.
pub open spec fn clicked(sort: PortSort, desc: bool, key: PortSort) -> (PortSort, bool) {
    if sort == key {
        (sort, !desc)
    } else {
        (key, false)
    }
}

/// A click on a column header: the same column flips direction, a new one
/// starts ascending — and the table is re-sorted now, so the view can draw
/// `ports` as it stands.
pub fn resort_ports(ports: &mut Vec<PortInfo>, sort: &mut PortSort, desc: &mut bool, key: PortSort)
    ensures
        (*final(sort), *final(desc)) == clicked(*old(sort), *old(desc), key),
        order::stably_sorted(
            (ByColumn { key: *final(sort), desc: *final(desc) }),
            old(ports)@,
            final(ports)@,
        ),
{
    if *sort == key {
        *desc = !*desc;
    } else {
        *sort = key;
        *desc = false;
    }
    sort_ports(ports, *sort, *desc);
}

/// Two clicks on the column that the table is sorted by leave its direction
/// as it was.
pub proof fn law_two_clicks_flip_back(sort: PortSort, desc: bool)
    ensures
        ({
            let (s, d) = clicked(sort, desc, sort);
            clicked(s, d, sort) == (sort, desc)
        }),
{
}

} // verus!
