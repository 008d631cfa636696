//! The command history: what is kept, when it is written, what is offered.

use vstd::prelude::*;
use vstd::slice::slice_subrange;
use vstd::string::*;

use crate::number;
use crate::order;
use crate::order::Rank;
use crate::secrets;
use crate::settings;
use crate::settings::Snippet;
use crate::text;

verus! {

/// One submitted command line. Only lines that the remote echoed are ever
/// kept: that is what keeps a password typed at a no-echo prompt out.
#[derive(Debug)]
pub struct CmdRecord {
    pub cmd: String,
    pub session_title: String,
    /// Host the line was typed on.
    pub host: String,
    /// Unix seconds.
    pub timestamp: u64,
}

impl Clone for CmdRecord {
    fn clone(&self) -> (r: CmdRecord)
        ensures
            r == *self,
    {
        CmdRecord {
            cmd: self.cmd.clone(),
            session_title: self.session_title.clone(),
            host: self.host.clone(),
            timestamp: self.timestamp,
        }
    }
}

/// Suggestions the quick-command dropdown shows at most.
pub const QUICK_CMD_SUGGESTIONS: usize = 5;

/// Most command lines kept, in memory and on disk.
pub const HISTORY_MAX: usize = 500;

/// Paced history writes go out at most this often, in nanoseconds.
pub const HISTORY_FLUSH_INTERVAL: u128 = 60_000_000_000;

/// How often a history with unsaved lines asks whether a write is due.
pub const HISTORY_FLUSH_TICK: u128 = 5_000_000_000;

/// Longest quit waits for history writes already on their way to disk.
pub const HISTORY_SETTLE_WAIT: u128 = 5_000_000_000;

/// Longest the unlock-time load waits for them.
pub const HISTORY_LOAD_SETTLE_WAIT: u128 = 60_000_000_000;

/// A sealed history file larger than this is no history.
pub const SEALED_HISTORY_MAX_BYTES: u64 = 8_388_608;

/// A cleartext history file larger than this is not read.
pub const LEGACY_HISTORY_MAX_BYTES: u64 = 4_194_304;

// ---- the newest records -------------------------------------------------------------------

/// The last `max` of a list.
pub open spec fn newest<T>(s: Seq<T>, max: int) -> Seq<T> {
    if s.len() > max {
        s.skip(s.len() - max)
    } else {
        s
    }
}

/// Keep the newest [`HISTORY_MAX`] records of a list.
pub fn keep_newest(records: Vec<CmdRecord>) -> (out: Vec<CmdRecord>)
    ensures
        out@ == newest(records@, HISTORY_MAX as int),
{
    let n: usize = records.len();
    if n <= HISTORY_MAX {
        return records;
    }
    let skip: usize = n - HISTORY_MAX;
    let ghost all = records@;
    let mut out: Vec<CmdRecord> = Vec::new();
    let mut i: usize = 0;
    for record in it: records
        invariant
            it.seq() == all,
            i == it.index(),
            i <= n,
            n == all.len(),
            skip == n - HISTORY_MAX,
            n > HISTORY_MAX,
            out@ =~= (if i <= skip {
                Seq::<CmdRecord>::empty()
            } else {
                all.subrange(skip as int, i as int)
            }),
    {
        if i >= skip {
            out.push(record);
        }
        i += 1;
    }
    assert(all.subrange(skip as int, n as int) =~= newest(all, HISTORY_MAX as int));
    out
}

// ---- merging -------------------------------------------------------------------------------

/// The two records say the same.
pub open spec fn same_record(a: CmdRecord, b: CmdRecord) -> bool {
    &&& a.cmd@ == b.cmd@
    &&& a.session_title@ == b.session_title@
    &&& a.host@ == b.host@
    &&& a.timestamp == b.timestamp
}

/// The list holds a record that says the same.
pub open spec fn holds(list: Seq<CmdRecord>, r: CmdRecord) -> bool {
    exists|i: int| 0 <= i < list.len() && same_record(#[trigger] list[i], r)
}

/// Records ranked by their time.
pub struct ByTime;

impl Rank for ByTime {
    type Item = CmdRecord;

    open spec fn le(&self, a: CmdRecord, b: CmdRecord) -> bool {
        a.timestamp <= b.timestamp
    }

    proof fn total(&self, a: CmdRecord, b: CmdRecord) {
    }

    proof fn transitive(&self, a: CmdRecord, b: CmdRecord, c: CmdRecord) {
    }

    fn before(&self, a: &CmdRecord, b: &CmdRecord) -> (r: bool) {
        a.timestamp <= b.timestamp
    }
}

/// The records of `legacy` that `sealed` does not hold yet.
pub open spec fn unknown_of(sealed: Seq<CmdRecord>, legacy: Seq<CmdRecord>) -> Seq<CmdRecord> {
    legacy.filter(|r: CmdRecord| !holds(sealed, r))
}

/// `out` is the two lists as one.
pub open spec fn is_merged(sealed: Seq<CmdRecord>, legacy: Seq<CmdRecord>, out: Seq<CmdRecord>) -> bool {
    if legacy.len() == 0 {
        out == newest(sealed, HISTORY_MAX as int)
    } else {
        exists|all: Seq<CmdRecord>| #[trigger]
            order::stably_sorted(ByTime, sealed + unknown_of(sealed, legacy), all) && out == newest(
                all,
                HISTORY_MAX as int,
            )
    }
}

fn record_known(sealed: &Vec<CmdRecord>, known: usize, r: &CmdRecord) -> (b: bool)
    requires
        known <= sealed@.len(),
    ensures
        b == holds(sealed@.take(known as int), *r),
{
    let mut i: usize = 0;
    while i < known
        invariant
            i <= known <= sealed@.len(),
            forall|j: int| 0 <= j < i ==> !same_record(#[trigger] sealed@[j], *r),
        decreases known - i,
    {
        let s = &sealed[i];
        if s.timestamp == r.timestamp && text::same_text(s.cmd.as_str(), r.cmd.as_str())
            && text::same_text(s.session_title.as_str(), r.session_title.as_str())
            && text::same_text(s.host.as_str(), r.host.as_str()) {
            assert(same_record(sealed@.take(known as int)[i as int], *r));
            return true;
        }
        i += 1;
    }
    assert forall|j: int| 0 <= j < known implies !same_record(
        #[trigger] sealed@.take(known as int)[j],
        *r,
    ) by {
        assert(!same_record(sealed@[j], *r));
    }
    false
}

/// Sealed and imported records as one list: oldest first, the newest
/// [`HISTORY_MAX`] kept. An import that was cut short leaves the same records
/// in both files, so an imported record the sealed list already holds is
/// dropped.
pub fn merge_history(sealed: Vec<CmdRecord>, legacy: Vec<CmdRecord>) -> (out: Vec<CmdRecord>)
    ensures
        is_merged(sealed@, legacy@, out@),
{
    if legacy.len() == 0 {
        return keep_newest(sealed);
    }
    let known: usize = sealed.len();
    let ghost base = sealed@;
    let ghost extra = legacy@;
    let ghost want = |r: CmdRecord| !holds(base, r);
    let mut all = sealed;
    assert(extra.take(0).filter(want) =~= Seq::<CmdRecord>::empty()) by {
        reveal(Seq::filter);
    }
    for record in it: legacy
        invariant
            it.seq() == extra,
            want == (|r: CmdRecord| !holds(base, r)),
            known == base.len(),
            all@ =~= base + extra.take(it.index() as int).filter(want),
    {
        proof {
            let i = it.index() as int;
            extra.take(i).lemma_filter_push(record, want);
            assert(extra.take(i + 1) =~= extra.take(i).push(record));
            assert(all@.take(known as int) =~= base);
        }
        if !record_known(&all, known, &record) {
            all.push(record);
        }
    }
    assert(extra.take(extra.len() as int) =~= extra);
    assert(all@ =~= base + unknown_of(base, extra));
    let sorted = order::sort_by(all, &ByTime);
    let ghost s = sorted@;
    let out = keep_newest(sorted);
    assert(order::stably_sorted(ByTime, base + unknown_of(base, extra), s));
    out
}

/// A merged history never grows past its bound, and — where anything was
/// imported — reads oldest first.
pub proof fn law_merged_history_is_bounded_and_ordered(
    sealed: Seq<CmdRecord>,
    legacy: Seq<CmdRecord>,
    out: Seq<CmdRecord>,
)
    requires
        is_merged(sealed, legacy, out),
    ensures
        out.len() <= HISTORY_MAX,
        legacy.len() > 0 ==> forall|i: int, j: int|
            0 <= i < j < out.len() ==> (#[trigger] out[i]).timestamp <= (#[trigger] out[j]).timestamp,
{
    if legacy.len() > 0 {
        let all = choose|all: Seq<CmdRecord>| #[trigger]
            order::stably_sorted(ByTime, sealed + unknown_of(sealed, legacy), all) && out == newest(
                all,
                HISTORY_MAX as int,
            );
        let off = all.len() - out.len();
        assert forall|i: int, j: int| 0 <= i < j < out.len() implies (#[trigger] out[i]).timestamp
            <= (#[trigger] out[j]).timestamp by {
            assert(out[i] == all[off + i] && out[j] == all[off + j]);
            assert(ByTime.le(all[off + i], all[off + j]));
        }
    }
}

// ---- when it reaches the disk -----------------------------------------------------------------

/// An unlock-time load on its way back.
#[derive(Debug, Clone, Copy, PartialEq, Eq, Structural)]
pub struct PendingLoad {
    pub seq: u64,
    /// The history was cleared while the load ran: what it read predates the
    /// clear and must not come back.
    pub cleared: bool,
}

/// Whether, and when, the history reaches the disk.
#[derive(Debug, Clone, Copy, PartialEq, Eq, Structural)]
pub struct HistorySync {
    /// There are records the sealed file does not have yet.
    pub dirty: bool,
    /// The unlock-time load has read the sealed file, found none, or set an
    /// unreadable one aside. Nothing is written without it — a session that
    /// never saw the file would write its short list over the real one — and
    /// it is always false while the vault is locked.
    pub loaded: bool,
    /// When the last paced write went out, in nanoseconds.
    pub flushed_at: Option<u128>,
    /// The unlock-time load that is out, if any. Only this one lands: a lock
    /// drops it, a later unlock replaces it.
    pub pending_load: Option<PendingLoad>,
    /// Numbers the unlock-time loads.
    pub load_seq: u64,
}

impl HistorySync {
    pub open spec fn fresh() -> HistorySync {
        HistorySync { dirty: false, loaded: false, flushed_at: None, pending_load: None, load_seq: 0 }
    }

    pub fn new() -> (r: HistorySync)
        ensures
            r == HistorySync::fresh(),
    {
        HistorySync { dirty: false, loaded: false, flushed_at: None, pending_load: None, load_seq: 0 }
    }
}

/// At least `span` lies between `since` and `now`.
pub open spec fn elapsed(since: u128, now: u128, span: u128) -> bool {
    if now >= since {
        now - since >= span
    } else {
        span == 0
    }
}

pub fn has_elapsed(since: u128, now: u128, span: u128) -> (r: bool)
    ensures
        r == elapsed(since, now, span),
{
    if now >= since {
        now - since >= span
    } else {
        span == 0
    }
}

pub open spec fn flush_due(sync: HistorySync, now: u128) -> bool {
    &&& sync.dirty
    &&& sync.loaded
    &&& sync.flushed_at matches Some(t) ==> elapsed(t, now, HISTORY_FLUSH_INTERVAL)
}

/// Is a paced history write due at `now`? At most one per
/// [`HISTORY_FLUSH_INTERVAL`], and never before the unlock-time load.
pub fn history_flush_due(sync: &HistorySync, now: u128) -> (r: bool)
    ensures
        r == flush_due(*sync, now),
{
    sync.dirty && sync.loaded && (match sync.flushed_at {
        Some(t) => has_elapsed(t, now, HISTORY_FLUSH_INTERVAL),
        None => true,
    })
}

/// Two paced writes never go out closer together than the interval.
pub proof fn law_paced_writes_keep_their_distance(sync: HistorySync, first: u128, second: u128)
    requires
        flush_due(sync, first),
        flush_due((HistorySync { flushed_at: Some(first), ..sync }), second),
    ensures
        second >= first + HISTORY_FLUSH_INTERVAL,
{
}

/// May a write go out at all? Not before the unlock-time load, which is what
/// keeps a session from writing its short list over records it never saw —
/// unless the write is a clear, which is meant to replace whatever is there.
pub fn history_write_allowed(sync: &HistorySync, scrub: bool) -> (r: bool)
    ensures
        r == (sync.loaded || scrub),
{
    sync.loaded || scrub
}

/// Overwrite every record's text, then drop them all.
pub fn wipe_history(records: &mut Vec<CmdRecord>)
    ensures
        final(records)@ == Seq::<CmdRecord>::empty(),
{
    while records.len() > 0
        invariant
            true,
        decreases records@.len(),
    {
        match records.pop() {
            Some(mut r) => {
                secrets::wipe(&mut r.cmd);
                secrets::wipe(&mut r.session_title);
                secrets::wipe(&mut r.host);
            },
            None => {},
        }
    }
    assert(records@ =~= Seq::<CmdRecord>::empty());
}

/// The in-memory half of clearing the history. A load still out read the
/// history before the clear: it must not bring it back.
pub fn clear_history(records: &mut Vec<CmdRecord>, sync: &mut HistorySync)
    ensures
        final(records)@ == Seq::<CmdRecord>::empty(),
        *final(sync) == after_clear(*old(sync)),
{
    wipe_history(records);
    sync.dirty = false;
    match sync.pending_load {
        Some(p) => {
            sync.pending_load = Some(PendingLoad { seq: p.seq, cleared: true });
        },
        None => {},
    }
}

pub open spec fn after_clear(sync: HistorySync) -> HistorySync {
    HistorySync {
        dirty: false,
        pending_load: match sync.pending_load {
            Some(p) => Some(PendingLoad { seq: p.seq, cleared: true }),
            None => None,
        },
        ..sync
    }
}

/// What an unlock found on disk. No `Debug`: the lines in it are not for a log.
pub struct HistoryLoad {
    pub records: Vec<CmdRecord>,
    /// Safe to write the sealed file this session; see `HistorySync::loaded`.
    pub writable: bool,
    /// Not writable because a write sent off before the unlock was still out.
    pub unsettled: bool,
    /// A cleartext history was merged in, for the first write to retire.
    pub legacy_found: bool,
}

/// What landing an unlock-time load asks for.
#[derive(Debug, Clone, Copy, PartialEq, Eq, Structural)]
pub struct LoadLanded {
    /// Seal and write at once: that write retires the cleartext history that
    /// the load imported.
    pub import_legacy: bool,
    /// What the user has to be warned of: nothing typed this session will be
    /// saved.
    pub warning: Option<HistoryWarning>,
}

#[derive(Debug, Clone, Copy, PartialEq, Eq, Structural)]
pub enum HistoryWarning {
    Unsettled,
    Unreadable,
}

impl HistoryWarning {
    /// The text key of the warning.
    pub open spec fn text_key(&self) -> Seq<char> {
        match self {
            HistoryWarning::Unsettled => "history.warn.unsettled"@,
            HistoryWarning::Unreadable => "history.warn.unreadable"@,
        }
    }

    pub fn key(&self) -> (r: &'static str)
        ensures
            r@ == self.text_key(),
    {
        match self {
            HistoryWarning::Unsettled => "history.warn.unsettled",
            HistoryWarning::Unreadable => "history.warn.unreadable",
        }
    }
}

/// The load numbered `seq` is the one that is waited for.
pub open spec fn awaited(sync: HistorySync, seq: u64) -> bool {
    sync.pending_load matches Some(p) && p.seq == seq
}

pub open spec fn landed(load: HistoryLoad, cleared: bool) -> LoadLanded {
    LoadLanded {
        import_legacy: load.legacy_found && !cleared,
        warning: if load.writable {
            None
        } else if load.unsettled {
            Some(HistoryWarning::Unsettled)
        } else {
            Some(HistoryWarning::Unreadable)
        },
    }
}

/// Land the unlock-time load numbered `seq`: the records on disk, then the
/// ones typed while it ran. `None`, and every record it read wiped, for a
/// load nobody wants any more: the vault locked since, or a later unlock
/// started another.
pub fn land_history_load(
    records: &mut Vec<CmdRecord>,
    sync: &mut HistorySync,
    seq: u64,
    load: HistoryLoad,
) -> (r: Option<LoadLanded>)
    ensures
        !awaited(*old(sync), seq) ==> r is None && final(records)@ == old(records)@ && *final(sync)
            == *old(sync),
        awaited(*old(sync), seq) ==> {
            let cleared = old(sync).pending_load->0.cleared;
            let read = if cleared {
                Seq::<CmdRecord>::empty()
            } else {
                load.records@
            };
            &&& r == Some(landed(load, cleared))
            &&& is_merged(read, old(records)@, final(records)@)
            &&& *final(sync) == (HistorySync {
                pending_load: None,
                dirty: old(records)@.len() > 0,
                loaded: load.writable,
                ..*old(sync)
            })
        },
{
    let mut load = load;
    let pending = match sync.pending_load {
        Some(p) => p,
        None => {
            wipe_history(&mut load.records);
            return None;
        },
    };
    if pending.seq != seq {
        wipe_history(&mut load.records);
        return None;
    }
    sync.pending_load = None;
    if pending.cleared {
        wipe_history(&mut load.records);
    }
    let mut typed: Vec<CmdRecord> = Vec::new();
    std::mem::swap(records, &mut typed);
    sync.dirty = typed.len() > 0;
    let mut merged = merge_history(load.records, typed);
    std::mem::swap(records, &mut merged);
    sync.loaded = load.writable;
    let warning = if load.writable {
        None
    } else if load.unsettled {
        Some(HistoryWarning::Unsettled)
    } else {
        Some(HistoryWarning::Unreadable)
    };
    Some(LoadLanded { import_legacy: load.legacy_found && !pending.cleared, warning })
}

/// What a clear took away does not come back with a load that was out while
/// it ran: only what was typed since is in the history then.
pub proof fn law_cleared_records_stay_gone(typed: Seq<CmdRecord>, out: Seq<CmdRecord>, r: CmdRecord)
    requires
        is_merged(Seq::<CmdRecord>::empty(), typed, out),
        out.contains(r),
    ensures
        typed.contains(r),
{
    let none = Seq::<CmdRecord>::empty();
    if typed.len() > 0 {
        let base = none + unknown_of(none, typed);
        let all = choose|all: Seq<CmdRecord>| #[trigger]
            order::stably_sorted(ByTime, base, all) && out == newest(all, HISTORY_MAX as int);
        let i = choose|i: int| 0 <= i < out.len() && out[i] == r;
        assert(all[all.len() - out.len() + i] == r);
        all.to_multiset_ensures();
        base.to_multiset_ensures();
        assert(all.contains(r));
        assert(all.to_multiset().count(r) > 0);
        assert(base.contains(r));
        let k = choose|k: int| 0 <= k < base.len() && base[k] == r;
        let p = |x: CmdRecord| !holds(none, x);
        assert(unknown_of(none, typed)[k] == r);
        typed.lemma_filter_contains_rev(p, r);
    }
}

/// Number the next unlock-time load.
pub fn start_history_load(sync: &mut HistorySync) -> (seq: u64)
    requires
        old(sync).load_seq < u64::MAX,
    ensures
        seq == old(sync).load_seq + 1,
        *final(sync) == (HistorySync {
            load_seq: seq,
            pending_load: Some(PendingLoad { seq, cleared: false }),
            ..*old(sync)
        }),
{
    sync.load_seq = sync.load_seq + 1;
    sync.pending_load = Some(PendingLoad { seq: sync.load_seq, cleared: false });
    sync.load_seq
}

/// The history half of a lock: true when there is something to seal first,
/// while the key is still in memory. A load still out is not wanted any more.
pub fn lock_history(records: &mut Vec<CmdRecord>, sync: &mut HistorySync) -> (r: Option<Vec<CmdRecord>>)
    ensures
        match r {
            Some(kept) => old(sync).dirty && old(sync).loaded && kept@ == newest(
                old(records)@,
                HISTORY_MAX as int,
            ),
            None => !(old(sync).dirty && old(sync).loaded),
        },
        final(records)@ == Seq::<CmdRecord>::empty(),
        *final(sync) == (HistorySync {
            pending_load: None,
            dirty: false,
            loaded: false,
            ..*old(sync)
        }),
{
    sync.pending_load = None;
    let unsaved = sync.dirty && sync.loaded;
    sync.dirty = false;
    sync.loaded = false;
    if unsaved {
        let mut kept: Vec<CmdRecord> = Vec::new();
        std::mem::swap(records, &mut kept);
        assert(records@ =~= Seq::<CmdRecord>::empty());
        Some(keep_newest(kept))
    } else {
        wipe_history(records);
        None
    }
}

// ---- what an unlock reads ---------------------------------------------------------------------

/// What reading the sealed file came to.
#[derive(Debug)]
pub enum SealedRead {
    /// Its records; none where there is no file.
    Records(Vec<CmdRecord>),
    /// The vault locked while it was read and took the key with it: no sign
    /// of damage, and a load nobody wants any more.
    LockedMeanwhile,
    Unreadable,
}

/// An unreadable sealed file is set aside rather than written over: it may be
/// the only copy. Not while an earlier write is still out.
pub fn set_aside_wanted(settled: bool, read: &SealedRead) -> (r: bool)
    ensures
        r == (settled && *read is Unreadable),
{
    match read {
        SealedRead::Unreadable => settled,
        _ => false,
    }
}

/// Whether the sealed file may be written this session.
pub open spec fn may_write(settled: bool, read: SealedRead, set_aside: bool) -> bool {
    match read {
        SealedRead::Records(_) => settled,
        SealedRead::LockedMeanwhile => false,
        SealedRead::Unreadable => settled && set_aside,
    }
}

/// The history of a vault that was just unlocked: the sealed records with a
/// cleartext list merged in. Nothing while it is locked.
pub fn history_load(
    unlocked: bool,
    settled: bool,
    read: SealedRead,
    set_aside: bool,
    legacy: Option<Vec<CmdRecord>>,
) -> (load: HistoryLoad)
    ensures
        !unlocked || read is LockedMeanwhile ==> load.records@ == Seq::<CmdRecord>::empty()
            && !load.writable && !load.unsettled && !load.legacy_found,
        unlocked && !(read is LockedMeanwhile) ==> {
            &&& load.writable == may_write(settled, read, set_aside)
            &&& load.unsettled == !settled
            &&& load.legacy_found == (legacy is Some && load.writable)
            &&& is_merged(
                match read {
                    SealedRead::Records(list) => newest(list@, HISTORY_MAX as int),
                    _ => Seq::empty(),
                },
                match legacy {
                    Some(list) => newest(list@, HISTORY_MAX as int),
                    None => Seq::empty(),
                },
                load.records@,
            )
        },
{
    let nothing = HistoryLoad {
        records: Vec::new(),
        writable: false,
        unsettled: false,
        legacy_found: false,
    };
    if !unlocked {
        return nothing;
    }
    let (sealed, writable) = match read {
        SealedRead::Records(list) => (keep_newest(list), settled),
        SealedRead::LockedMeanwhile => {
            return nothing;
        },
        SealedRead::Unreadable => (Vec::new(), settled && set_aside),
    };
    let (imported, legacy_found) = match legacy {
        Some(list) => (keep_newest(list), writable),
        None => (Vec::new(), false),
    };
    HistoryLoad { records: merge_history(sealed, imported), writable, unsettled: !settled, legacy_found }
}

/// The extension of the name an unreadable file is set aside under, the
/// `n`-th that is tried.
pub open spec fn aside_name(n: nat) -> Seq<char> {
    if n == 0 {
        "enc.unreadable"@
    } else {
        "enc.unreadable."@ + number::decimal(n)
    }
}

pub fn aside_extension(n: u32) -> (r: String)
    ensures
        r@ == aside_name(n as nat),
{
    if n == 0 {
        "enc.unreadable".to_owned()
    } else {
        let d = number::decimal_text(n as u64);
        let mut s = "enc.unreadable.".to_owned();
        s.append(d.as_str());
        s
    }
}

// ---- writes in their order ----------------------------------------------------------------------

/// Numbers the snapshots of a file in the order they are sealed, and knows
/// the newest one on disk: one that runs late is dropped instead of landing
/// over a newer one.
#[derive(Debug, Clone, Copy, PartialEq, Eq, Structural)]
pub struct WriteLedger {
    pub next_seq: u64,
    pub written: u64,
    /// Snapshots sealed but not yet written or dropped.
    pub pending: u64,
}

impl WriteLedger {
    pub fn new() -> (r: WriteLedger)
        ensures
            r == (WriteLedger { next_seq: 0, written: 0, pending: 0 }),
    {
        WriteLedger { next_seq: 0, written: 0, pending: 0 }
    }

    /// Number a snapshot that was just sealed.
    pub fn seal(&mut self) -> (seq: u64)
        requires
            old(self).next_seq < u64::MAX,
            old(self).pending < u64::MAX,
        ensures
            seq == old(self).next_seq + 1,
            *final(self) == (WriteLedger {
                next_seq: seq,
                pending: (old(self).pending + 1) as u64,
                ..*old(self)
            }),
    {
        self.next_seq = self.next_seq + 1;
        self.pending = self.pending + 1;
        self.next_seq
    }

    /// Whether the snapshot numbered `seq` is to be written.
    pub fn is_newer(&self, seq: u64) -> (r: bool)
        ensures
            r == (seq > self.written),
    {
        seq > self.written
    }

    /// The snapshot numbered `seq` is on disk.
    pub fn note_written(&mut self, seq: u64)
        requires
            seq > old(self).written,
        ensures
            *final(self) == (WriteLedger { written: seq, ..*old(self) }),
    {
        self.written = seq;
    }

    /// A snapshot was written, or dropped.
    pub fn settle(&mut self)
        ensures
            *final(self) == (WriteLedger {
                pending: (if old(self).pending > 0 {
                    (old(self).pending - 1) as u64
                } else {
                    0
                }),
                ..*old(self)
            }),
    {
        if self.pending > 0 {
            self.pending = self.pending - 1;
        }
    }
}

/// `after` is `before` once the snapshot numbered `seq` had its turn: written where
/// it is newer than what is on disk, dropped where it is not.
pub open spec fn offered_snapshot(before: WriteLedger, seq: u64, after: WriteLedger) -> bool {
    after == (if seq > before.written {
        WriteLedger { written: seq, ..before }
    } else {
        before
    })
}

/// The ledgers that a run of snapshots goes through, in whatever order they come.
pub open spec fn is_write_run(ledgers: Seq<WriteLedger>, seqs: Seq<u64>) -> bool {
    &&& ledgers.len() == seqs.len() + 1
    &&& forall|i: int| 0 <= i < seqs.len() ==> offered_snapshot(ledgers[i], #[trigger] seqs[i], ledgers[i + 1])
}

/// What is on disk never goes back: over any run of snapshots its number only
/// grows, and it ends up at least as new as every snapshot of the run.
pub proof fn law_late_snapshots_are_dropped(ledgers: Seq<WriteLedger>, seqs: Seq<u64>, i: int, j: int)
    requires
        is_write_run(ledgers, seqs),
        0 <= i <= j < ledgers.len(),
    ensures
        ledgers[i].written <= ledgers[j].written,
        i < j ==> seqs[i] <= ledgers[j].written,
    decreases j - i,
{
    if i < j {
        assert(offered_snapshot(ledgers[i], seqs[i], ledgers[i + 1]));
        law_late_snapshots_are_dropped(ledgers, seqs, i + 1, j);
    }
}

// ---- the history panel ----------------------------------------------------------------------------

/// An age in its largest whole unit.
pub open spec fn ago(secs: nat) -> Seq<char> {
    if secs < 60 {
        number::decimal(secs).push('s')
    } else if secs < 3600 {
        number::decimal(secs / 60).push('m')
    } else if secs < 86_400 {
        number::decimal(secs / 3600).push('h')
    } else {
        number::decimal(secs / 86_400).push('d')
    }
}

/// Compact age for the history panel: 42s, 5m, 3h, 2d.
pub fn format_ago(secs: u64) -> (r: String)
    ensures
        r@ == ago(secs as nat),
{
    let (n, unit): (u64, char) = if secs < 60 {
        (secs, 's')
    } else if secs < 3600 {
        (secs / 60, 'm')
    } else if secs < 86_400 {
        (secs / 3600, 'h')
    } else {
        (secs / 86_400, 'd')
    };
    let mut r = number::decimal_text(n);
    r.push(unit);
    r
}

/// Seconds since the epoch, from a clock that may stand before it.
pub fn unix_now(since_epoch: Option<u64>) -> (r: u64)
    ensures
        r == (match since_epoch {
            Some(s) => s,
            None => 0,
        }),
{
    match since_epoch {
        Some(s) => s,
        None => 0,
    }
}

// ---- suggestions ---------------------------------------------------------------------------------

/// What the quick-command input may be completed with, best first: commands
/// already run (newest first), then snippet bodies of one line.
pub open spec fn candidates(history: Seq<CmdRecord>, snippets: Seq<Snippet>) -> Seq<Seq<char>> {
    history.map_values(|r: CmdRecord| r.cmd@).reverse() + snippets.map_values(
        |s: Snippet| text::trim_end(s.body@),
    ).filter(|b: Seq<char>| !text::contains(b, seq!['\n']))
}

/// `c` completes `input`: it starts with it and goes on.
pub open spec fn completes(c: Seq<char>, input: Seq<char>) -> bool {
    c.len() > input.len() && text::starts_with(c, input)
}

/// The first completions in a list, none twice, at most as many as are shown.
pub open spec fn offered(cands: Seq<Seq<char>>, input: Seq<char>) -> Seq<Seq<char>>
    decreases cands.len(),
{
    if cands.len() == 0 {
        Seq::empty()
    } else {
        let before = offered(cands.drop_last(), input);
        let c = cands.last();
        if before.len() < QUICK_CMD_SUGGESTIONS && completes(c, input) && !before.contains(c) {
            before.push(c)
        } else {
            before
        }
    }
}

/// What is suggested for `input`.
pub open spec fn suggested(input: Seq<char>, history: Seq<CmdRecord>, snippets: Seq<Snippet>) -> Seq<Seq<char>> {
    if text::trim(input).len() == 0 {
        Seq::empty()
    } else {
        offered(candidates(history, snippets), input)
    }
}

fn offer(out: &mut Vec<String>, c: &[char], input: &[char], Ghost(cands): Ghost<Seq<Seq<char>>>)
    requires
        crate::split::texts(old(out)@) == offered(cands, input@),
    ensures
        crate::split::texts(final(out)@) == offered(cands.push(c@), input@),
{
    let ghost before = out@;
    assert(cands.push(c@).drop_last() =~= cands);
    if out.len() >= QUICK_CMD_SUGGESTIONS || c.len() <= input.len() || !text::starts_with_chars(
        c,
        input,
    ) {
        return;
    }
    let s = text::string_of(c);
    let mut i: usize = 0;
    while i < out.len()
        invariant
            i <= out@.len(),
            out@ == before,
            s@ == c@,
            crate::split::texts(before) == offered(cands, input@),
            cands.push(c@).drop_last() == cands,
            forall|j: int| 0 <= j < i ==> (#[trigger] out@[j])@ != c@,
        decreases out.len() - i,
    {
        if text::same_text(out[i].as_str(), s.as_str()) {
            assert(crate::split::texts(before)[i as int] == c@);
            assert(offered(cands, input@).contains(c@));
            return;
        }
        i += 1;
    }
    assert(!offered(cands, input@).contains(c@)) by {
        if offered(cands, input@).contains(c@) {
            let j = choose|j: int| 0 <= j < crate::split::texts(before).len() && crate::split::texts(before)[j] == c@;
            assert(before[j]@ == c@);
        }
    }
    out.push(s);
    assert(crate::split::texts(out@) =~= offered(cands.push(c@), input@));
}

/// Completions for the quick-command input, best first: commands already run
/// (newest first), then snippet bodies. A plain prefix match — case matters
/// to a shell — that never offers the text exactly as typed, and never a
/// multi-line snippet, which a one-line input cannot hold.
pub fn quick_cmd_matches(input: &str, history: &[CmdRecord], snippets: &[Snippet]) -> (out: Vec<String>)
    ensures
        crate::split::texts(out@) == suggested(input@, history@, snippets@),
{
    let mut out: Vec<String> = Vec::new();
    assert(crate::split::texts(out@) =~= Seq::<Seq<char>>::empty());
    let typed = text::chars_of(input);
    if text::trim_chars(typed.as_slice()).len() == 0 {
        return out;
    }
    let ghost first = history@.map_values(|r: CmdRecord| r.cmd@).reverse();
    let n: usize = history.len();
    let mut i: usize = 0;
    assert(first.take(0) =~= Seq::<Seq<char>>::empty());
    while i < n
        invariant
            n == history@.len(),
            i <= n,
            typed@ == input@,
            first == history@.map_values(|r: CmdRecord| r.cmd@).reverse(),
            crate::split::texts(out@) == offered(first.take(i as int), input@),
        decreases n - i,
    {
        let c = text::chars_of(history[n - 1 - i].cmd.as_str());
        assert(first[i as int] == c@);
        assert(first.take(i + 1) =~= first.take(i as int).push(c@));
        offer(&mut out, c.as_slice(), typed.as_slice(), Ghost(first.take(i as int)));
        i += 1;
    }
    assert(first.take(n as int) =~= first);
    let ghost bodies = snippets@.map_values(|s: Snippet| text::trim_end(s.body@));
    let ghost one_line = |b: Seq<char>| !text::contains(b, seq!['\n']);
    let feed: Vec<char> = vec!['\n'];
    assert(feed@ =~= seq!['\n']);
    let mut k: usize = 0;
    assert(bodies.take(0).filter(one_line) =~= Seq::<Seq<char>>::empty()) by {
        reveal(Seq::filter);
    }
    assert(first + Seq::<Seq<char>>::empty() =~= first);
    while k < snippets.len()
        invariant
            k <= snippets@.len(),
            typed@ == input@,
            feed@ == seq!['\n'],
            bodies == snippets@.map_values(|s: Snippet| text::trim_end(s.body@)),
            one_line == (|b: Seq<char>| !text::contains(b, seq!['\n'])),
            crate::split::texts(out@) == offered(
                first + bodies.take(k as int).filter(one_line),
                input@,
            ),
        decreases snippets.len() - k,
    {
        let body = text::chars_of(snippets[k].body.as_str());
        let line = text::trim_end_chars(body.as_slice());
        proof {
            assert(bodies[k as int] == line@);
            bodies.take(k as int).lemma_filter_push(line@, one_line);
            assert(bodies.take(k + 1) =~= bodies.take(k as int).push(line@));
        }
        if !text::contains_chars(line, feed.as_slice()) {
            let ghost so_far = first + bodies.take(k as int).filter(one_line);
            offer(&mut out, line, typed.as_slice(), Ghost(so_far));
            assert(so_far.push(line@) =~= first + bodies.take(k + 1).filter(one_line));
        }
        k += 1;
    }
    assert(bodies.take(k as int) =~= bodies);
    assert(first + bodies.filter(one_line) =~= candidates(history@, snippets@));
    out
}

/// Suggestions are few, no two the same, and each goes on from what was
/// typed.
pub proof fn law_suggestions_complete_what_was_typed(cands: Seq<Seq<char>>, input: Seq<char>)
    ensures
        offered(cands, input).len() <= QUICK_CMD_SUGGESTIONS,
        forall|i: int|
            0 <= i < offered(cands, input).len() ==> completes(#[trigger] offered(cands, input)[i], input),
        offered(cands, input).no_duplicates(),
    decreases cands.len(),
{
    if cands.len() > 0 {
        law_suggestions_complete_what_was_typed(cands.drop_last(), input);
        let before = offered(cands.drop_last(), input);
        let all = offered(cands, input);
        assert forall|i: int| 0 <= i < all.len() implies completes(#[trigger] all[i], input) by {
            if i < before.len() {
                assert(all[i] == before[i]);
            }
        }
        assert forall|i: int, j: int| 0 <= i < all.len() && 0 <= j < all.len() && i != j implies all[i]
            != all[j] by {
            if all.len() > before.len() {
                if i < before.len() && j < before.len() {
                    assert(before[i] != before[j]);
                } else if i < before.len() {
                    assert(before.contains(before[i]));
                } else {
                    assert(before.contains(before[j]));
                }
            }
        }
    }
}

} // verus!
