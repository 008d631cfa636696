//! What is read out of the text that a host prints, and how it is listed and named.

use vstd::prelude::*;
use vstd::string::*;

use crate::auth;
use crate::browsing;
use crate::catalog::Catalog;
use crate::connections::ConnectionInfo;
use crate::connections;
use crate::display;
use crate::groups;
use crate::history::SealedRead;
use crate::history;
use crate::lettercase;
use crate::number;
use crate::order;
use crate::processes::ProcIdentity;
use crate::processes;
use crate::remote_files::EntryKind;
use crate::settings;
use crate::split;
use crate::state::NeoShell;
use crate::text;
use crate::updating;
use crate::wording;

verus! {

/// A word: some characters, none of them whitespace.
pub open spec fn is_word(w: Seq<char>) -> bool {
    w.len() > 0 && forall|i: int| 0 <= i < w.len() ==> !text::is_white(#[trigger] w[i])
}

/// Every one of the list is a word.
pub open spec fn are_words(list: Seq<Seq<char>>) -> bool {
    forall|k: int| 0 <= k < list.len() ==> is_word(#[trigger] list[k])
}

/// Words with a blank between each two are read back one by one.
pub proof fn law_words_read_back(list: Seq<Seq<char>>)
    requires
        are_words(list),
    ensures
        split::words(split::join(list, seq![' '])) == list,
    decreases list.len(),
{
    if list.len() == 0 {
        assert(split::words(split::join(list, seq![' '])) =~= list);
    } else if list.len() == 1 {
        lemma_one_word(list[0]);
        assert(seq![list[0]] =~= list);
    } else {
        let rest = list.drop_first();
        assert(list =~= seq![list[0]] + rest);
        assert forall|k: int| 0 <= k < rest.len() implies is_word(#[trigger] rest[k]) by {
            assert(rest[k] == list[k + 1]);
        }
        law_words_read_back(rest);
        split::lemma_join_cons(list[0], rest, seq![' ']);
        assert(is_word(list[0]));
        wording::law_the_first_word_comes_first(list[0], ' ', split::join(rest, seq![' ']));
    }
}

proof fn lemma_one_word(w: Seq<char>)
    requires
        is_word(w),
    ensures
        split::words(w) == seq![w],
        split::word(w) == w,
{
    split::lemma_word(w);
    let v = split::word(w);
    if v.len() < w.len() {
        assert(!text::is_white(w[v.len() as int]));
        assert(false);
    }
    assert(v =~= w);
    assert(w.skip(w.len() as int) =~= Seq::<char>::empty());
    assert(!text::is_white(w[0]));
    assert(split::words(Seq::<char>::empty()) =~= Seq::empty());
    assert(split::words(w) =~= seq![w]);
}

/// The word at a position is the word at that position of the list of words.
pub proof fn law_a_word_stands_at_its_position(s: Seq<char>, n: nat)
    requires
        n < split::words(s).len(),
    ensures
        processes::word_at(s, n) == split::words(s)[n as int],
{
    lemma_behind_words(s, n);
    let rest = processes::behind_words(s, n);
    assert(split::words(rest)[0] == split::words(s)[n as int]);
    lemma_first_word(rest);
}

/// The first word of a text that does not start with whitespace is its first run.
proof fn lemma_first_word(s: Seq<char>)
    requires
        split::words(s).len() > 0,
        s.len() > 0 ==> !text::is_white(s[0]),
    ensures
        split::words(s)[0] == split::word(s),
        split::words(s) == seq![split::word(s)] + split::words(s.skip(split::word(s).len() as int)),
{
    split::lemma_word(s);
}

proof fn lemma_trimmed_words(s: Seq<char>)
    ensures
        split::words(text::trim_start(s)) == split::words(s),
        text::trim_start(s).len() > 0 ==> !text::is_white(text::trim_start(s)[0]),
    decreases s.len(),
{
    if s.len() > 0 && text::is_white(s[0]) {
        lemma_trimmed_words(s.drop_first());
    }
}

proof fn lemma_behind_words(s: Seq<char>, n: nat)
    requires
        n <= split::words(s).len(),
    ensures
        split::words(processes::behind_words(s, n)) == split::words(s).skip(n as int),
        processes::behind_words(s, n).len() > 0 ==> !text::is_white(processes::behind_words(s, n)[0]),
    decreases n,
{
    if n == 0 {
        lemma_trimmed_words(s);
        assert(split::words(s).skip(0) =~= split::words(s));
    } else {
        lemma_behind_words(s, (n - 1) as nat);
        let rest = processes::behind_words(s, (n - 1) as nat);
        assert(split::words(rest).len() > 0);
        lemma_first_word(rest);
        let more = rest.skip(split::word(rest).len() as int);
        lemma_trimmed_words(more);
        assert(split::words(more) =~= split::words(rest).skip(1));
        assert(split::words(rest).skip(1) =~= split::words(s).skip(n as int));
    }
}

// ---- a process -------------------------------------------------------------------------------------------------

/// The name of a process stands between the first parenthesis and the last, so it may hold
/// parentheses and blanks of its own; the start time is the twentieth word behind it.
pub proof fn law_a_process_is_named_between_its_parentheses(
    pid: Seq<char>,
    name: Seq<char>,
    list: Seq<Seq<char>>,
    cmdline: Seq<char>,
    r: Option<ProcIdentity>,
)
    requires
        forall|i: int| 0 <= i < pid.len() ==> pid[i] != '(',
        are_words(list),
        list.len() >= 20,
        number::all_digits(list[19], 10),
        forall|i: int|
            0 <= i < split::join(list, seq![' ']).len() ==> (#[trigger] split::join(list, seq![' '])[i]) != ')',
        processes::is_proc_identity(
            r,
            pid + seq!['('] + name + seq![')'] + split::join(list, seq![' ']),
            cmdline,
        ),
    ensures
        r is Some,
        r->0.comm@ == name,
        r->0.start_time@ == list[19],
        r->0.cmdline@ == text::trim_end(cmdline),
{
    let rest = split::join(list, seq![' ']);
    let stat = pid + seq!['('] + name + seq![')'] + rest;
    law_words_read_back(list);
    let open = pid.len() as int;
    let close = open + 1 + name.len();
    text::lemma_find(stat, seq!['('], 0);
    assert(stat.subrange(open, open + 1) =~= seq!['(']);
    assert(text::occurs_at(stat, seq!['('], open));
    assert forall|j: int| 0 <= j < open implies !text::occurs_at(stat, seq!['('], j) by {
        if text::occurs_at(stat, seq!['('], j) {
            assert(stat.subrange(j, j + 1)[0] == '(');
            assert(stat[j] == pid[j]);
        }
    }
    text::lemma_rfind(stat, seq![')'], stat.len() as int);
    assert(stat.subrange(close, close + 1) =~= seq![')']);
    assert(text::occurs_at(stat, seq![')'], close));
    assert forall|j: int| close < j <= stat.len() implies !text::occurs_at(stat, seq![')'], j) by {
        if text::occurs_at(stat, seq![')'], j) {
            assert(stat.subrange(j, j + 1)[0] == ')');
            assert(stat[j] == rest[j - close - 1]);
        }
    }
    assert(text::find_char(stat, '(') == Some(open));
    assert(text::rfind_char(stat, ')') == Some(close));
    assert(stat.skip(close + 1) =~= rest);
    assert(stat.subrange(open + 1, close) =~= name);
}

/// A line of `ps` gives its user, its niceness, its two sizes, its age and its state, from
/// the third word on; a line that is too short gives nothing.
pub proof fn law_a_ps_line_is_read_by_position(list: Seq<Seq<char>>)
    requires
        are_words(list),
    ensures
        list.len() < 8 ==> processes::ps_fields(split::join(list, seq![' '])).len() == 0,
        list.len() >= 8 ==> ({
            let f = processes::ps_fields(split::join(list, seq![' ']));
            &&& f.len() == 6
            &&& f[0] == ("User"@, list[2])
            &&& f[1] == ("Nice"@, list[3])
            &&& f[2] == ("VSZ"@, list[4] + " KB"@)
            &&& f[3] == ("RSS"@, list[5] + " KB"@)
            &&& f[4] == ("Elapsed"@, list[6])
            &&& f[5] == ("Stat"@, list[7])
        }),
{
    law_words_read_back(list);
}

/// What is gathered of two lists, one after the other, is what is gathered of the first and
/// then what is gathered of the second: nothing is lost and nothing moves.
pub proof fn law_gathering_keeps_the_order<A, T>(a: Seq<A>, b: Seq<A>, f: spec_fn(A) -> Seq<T>)
    ensures
        processes::gathered(a + b, f) == processes::gathered(a, f) + processes::gathered(b, f),
    decreases b.len(),
{
    if b.len() == 0 {
        assert(a + b =~= a);
        assert(processes::gathered(a, f) + processes::gathered(b, f) =~= processes::gathered(a, f));
    } else {
        law_gathering_keeps_the_order(a, b.drop_last(), f);
        assert((a + b).drop_last() =~= a + b.drop_last());
        assert(processes::gathered(a + b, f) =~= processes::gathered(a, f) + processes::gathered(b, f));
    }
}

/// A line of the status of a process is read under its own name, without the tab in front of
/// its value; of the user and the group only the first number counts, and what is not shown
/// gives nothing.
pub proof fn law_a_status_line_is_read_under_its_name(key: Seq<char>, value: Seq<char>)
    requires
        forall|i: int| 0 <= i < key.len() ==> key[i] != ':',
        text::trim(key) == key,
        forall|i: int| 0 <= i < value.len() ==> value[i] != '\t',
        text::trim(value) == value,
    ensures
        key == "Name"@ || key == "State"@ || key == "PPid"@ || key == "Threads"@ || key == "VmRSS"@ || key
            == "VmSize"@ || key == "VmPeak"@ || key == "VmSwap"@ ==> processes::status_field(
            key + seq![':', '\t'] + value,
        ) == seq![(key, value)],
        (key == "Uid"@ || key == "Gid"@) && split::words(value).len() > 0 ==> processes::status_field(
            key + seq![':', '\t'] + value,
        ) == seq![(key, split::words(value)[0])],
        key == "FDSize"@ || key == "Pid"@ || key == "TracerPid"@ ==> processes::status_field(
            key + seq![':', '\t'] + value,
        ).len() == 0,
{
    let line = key + seq![':', '\t'] + value;
    let n = key.len() as int;
    text::lemma_find(line, seq![':'], 0);
    assert(line.subrange(n, n + 1) =~= seq![':']);
    assert(text::occurs_at(line, seq![':'], n));
    assert forall|j: int| 0 <= j < n implies !text::occurs_at(line, seq![':'], j) by {
        if text::occurs_at(line, seq![':'], j) {
            assert(line.subrange(j, j + 1)[0] == ':');
            assert(line[j] == key[j]);
        }
    }
    assert(text::find_char(line, ':') == Some(n));
    assert(line.take(n) =~= key);
    let raw = line.skip(n + 1);
    assert(raw =~= seq!['\t'] + value);
    assert(raw.drop_first() =~= value);
    assert(raw[0] == '\t');
    assert(text::trim(raw) == text::trim(value));
    assert(processes::untabbed(value) =~= value);
    reveal_strlit("Name");
    reveal_strlit("State");
    reveal_strlit("PPid");
    reveal_strlit("Threads");
    reveal_strlit("VmRSS");
    reveal_strlit("VmSize");
    reveal_strlit("VmPeak");
    reveal_strlit("VmSwap");
    reveal_strlit("Uid");
    reveal_strlit("Gid");
    reveal_strlit("FDSize");
    reveal_strlit("Pid");
    reveal_strlit("TracerPid");
    reveal_strlit("voluntary_ctxt_switches");
    reveal_strlit("nonvoluntary_ctxt_switches");
    if key == "FDSize"@ || key == "Pid"@ || key == "TracerPid"@ {
        lemma_hidden_key(key);
    }
}

proof fn lemma_hidden_key(key: Seq<char>)
    requires
        key == "FDSize"@ || key == "Pid"@ || key == "TracerPid"@,
    ensures
        forall|val: Seq<char>| (#[trigger] processes::status_entry(key, val)).len() == 0,
{
    reveal_strlit("Name");
    reveal_strlit("State");
    reveal_strlit("PPid");
    reveal_strlit("Threads");
    reveal_strlit("VmRSS");
    reveal_strlit("VmSize");
    reveal_strlit("VmPeak");
    reveal_strlit("VmSwap");
    reveal_strlit("Uid");
    reveal_strlit("Gid");
    reveal_strlit("FDSize");
    reveal_strlit("Pid");
    reveal_strlit("TracerPid");
    reveal_strlit("voluntary_ctxt_switches");
    reveal_strlit("nonvoluntary_ctxt_switches");
    if key == "FDSize"@ {
        assert(key.len() == 6 && key[0] == 'F');
        assert("VmRSS"@[0] == 'V' && "VmSize"@[0] == 'V' && "VmPeak"@[0] == 'V' && "VmSwap"@[0] == 'V');
    } else if key == "Pid"@ {
        assert(key.len() == 3 && key[0] == 'P');
        assert("Uid"@[0] == 'U' && "Gid"@[0] == 'G');
    } else {
        assert(key.len() == 9);
    }
}

/// What an open file points at is what stands behind its arrow.
pub proof fn law_an_open_file_is_what_its_arrow_points_at(before: Seq<char>, target: Seq<char>)
    requires
        before.len() > 0,
        before[0] != 't',
        forall|i: int| 0 <= i < before.len() ==> before[i] != '>',
        text::trim(before + seq!['-', '>'] + target) == before + seq!['-', '>'] + target,
    ensures
        processes::fd_target(before + seq!['-', '>'] + target) == seq![text::trim(target)],
{
    reveal_strlit("->");
    reveal_strlit("total");
    let l = before + seq!['-', '>'] + target;
    let n = before.len() as int;
    assert(l[0] == before[0]);
    assert(!text::starts_with(l, "total"@)) by {
        if text::starts_with(l, "total"@) {
            assert(l.subrange(0, 5)[0] == l[0]);
        }
    }
    assert("->"@ =~= seq!['-', '>']);
    lemma_first_arrow(before, target);
    assert(l.skip(n + 2) =~= target);
    assert(text::find(l, "->"@) == Some(n));
}

proof fn lemma_first_arrow(before: Seq<char>, target: Seq<char>)
    requires
        forall|i: int| 0 <= i < before.len() ==> before[i] != '>',
    ensures
        text::find(before + seq!['-', '>'] + target, seq!['-', '>']) == Some(before.len() as int),
{
    let pat = seq!['-', '>'];
    lemma_first_pair(before, pat, target);
}

proof fn lemma_first_pair(before: Seq<char>, pat: Seq<char>, target: Seq<char>)
    requires
        pat.len() == 2,
        pat[0] != pat[1],
        forall|i: int| 0 <= i < before.len() ==> before[i] != pat[1],
    ensures
        text::find(before + pat + target, pat) == Some(before.len() as int),
{
    let l = before + pat + target;
    let n = before.len() as int;
    assert forall|j: int| 0 <= j < n implies !text::occurs_at(l, pat, j) by {
        lemma_no_pair_before(before, pat, target, j);
    }
    let x = pat + target;
    assert(l =~= before + x);
    assert(x.subrange(0, 2) =~= pat);
    assert(text::find(x, pat) == Some(0int));
    text::lemma_find_behind(before, x, pat, 0);
}

proof fn lemma_no_pair_before(before: Seq<char>, pat: Seq<char>, target: Seq<char>, j: int)
    requires
        pat.len() == 2,
        pat[0] != pat[1],
        forall|i: int| 0 <= i < before.len() ==> before[i] != pat[1],
        0 <= j < before.len(),
    ensures
        !text::occurs_at(before + pat + target, pat, j),
{
    let l = before + pat + target;
    let next = l[j + 1];
    assert(next != pat[1]) by {
        if j + 1 < before.len() {
            assert(next == before[j + 1]);
        } else {
            assert(next == pat[0]);
        }
    }
    if text::occurs_at(l, pat, j) {
        assert(l.subrange(j, j + 2)[1] == next);
    }
}

/// The kind of an interface is told by what its name starts with, whatever follows.
pub proof fn law_an_interface_is_told_by_its_name(rest: Seq<char>)
    ensures
        processes::interface_key("eth"@ + rest) == "netdetail.ethernet"@,
        processes::interface_key("en"@ + rest) == "netdetail.ethernet"@,
        processes::interface_key("wl"@ + rest) == "netdetail.wireless"@,
        processes::interface_key("br-"@ + rest) == "netdetail.docker"@,
        processes::interface_key("docker"@ + rest) == "netdetail.docker"@,
        processes::interface_key("veth"@ + rest) == "netdetail.veth"@,
        processes::interface_key("bond"@ + rest) == "netdetail.bond"@,
        processes::interface_key("tun"@ + rest) == "netdetail.vpn"@,
        processes::interface_key("tap"@ + rest) == "netdetail.vpn"@,
        processes::interface_key("lo"@ + rest) == "netdetail.loopback"@,
{
    reveal_strlit("eth");
    reveal_strlit("en");
    reveal_strlit("wl");
    reveal_strlit("br-");
    reveal_strlit("docker");
    reveal_strlit("veth");
    reveal_strlit("bond");
    reveal_strlit("tun");
    reveal_strlit("tap");
    reveal_strlit("lo");
    lemma_starts("eth"@, rest);
    lemma_starts("en"@, rest);
    lemma_starts("wl"@, rest);
    lemma_starts("br-"@, rest);
    lemma_starts("docker"@, rest);
    lemma_starts("veth"@, rest);
    lemma_starts("bond"@, rest);
    lemma_starts("tun"@, rest);
    lemma_starts("tap"@, rest);
    lemma_starts("lo"@, rest);
}

/// A text starts with what it was put together from, and with nothing that differs in its
/// first two characters.
proof fn lemma_starts(pat: Seq<char>, rest: Seq<char>)
    requires
        pat.len() >= 2,
    ensures
        text::starts_with(pat + rest, pat),
        forall|other: Seq<char>|
            other.len() >= 2 && (other[0] != pat[0] || other[1] != pat[1]) ==> !#[trigger] text::starts_with(
                pat + rest,
                other,
            ),
{
    let s = pat + rest;
    assert(s.subrange(0, pat.len() as int) =~= pat);
    assert forall|other: Seq<char>|
        other.len() >= 2 && (other[0] != pat[0] || other[1] != pat[1]) implies !#[trigger] text::starts_with(
        s,
        other,
    ) by {
        if text::starts_with(s, other) {
            let part = s.subrange(0, other.len() as int);
            assert(part[0] == s[0] && part[1] == s[1]);
            assert(s[0] == pat[0] && s[1] == pat[1]);
        }
    }
}

/// The signals that end a process are called by their names, and any other by its number.
pub proof fn law_signals_are_called_by_their_names(texts: Catalog, n: int)
    ensures
        processes::signal_label(9, texts) == "SIGKILL"@,
        processes::signal_label(15, texts) == "SIGTERM"@,
        processes::signal_label(1, texts) == "SIGHUP"@,
        processes::signal_label(2, texts) == "SIGINT"@,
        n > 15 ==> processes::signal_label(n, texts) == texts.says_with(
            "process.signal_n"@,
            "n"@,
            number::decimal(n as nat),
        ),
{
}

// ---- what a mode reads as --------------------------------------------------------------------------------------

/// A mode is shown in octal digits, four of them or more, that read back as the mode.
pub proof fn law_a_shown_mode_reads_back(mode: nat)
    ensures
        browsing::mode_shown(mode).len() >= 4,
        number::all_digits(browsing::mode_shown(mode), 8),
        number::value(browsing::mode_shown(mode), 8) == mode,
{
    number::lemma_digits_read_back(mode, 8);
    let d = number::digits(mode, 8);
    if d.len() < 4 {
        lemma_leading_zeros((4 - d.len()) as nat, d);
    }
}

proof fn lemma_leading_zeros(n: nat, d: Seq<char>)
    requires
        number::all_digits(d, 8),
    ensures
        number::all_digits(browsing::zeros(n) + d, 8),
        number::value(browsing::zeros(n) + d, 8) == number::value(d, 8),
    decreases d.len(),
{
    let s = browsing::zeros(n) + d;
    assert forall|i: int| 0 <= i < s.len() implies number::is_digit_of(#[trigger] s[i], 8) by {
        if i < n {
            assert(s[i] == '0');
        } else {
            assert(s[i] == d[i - n]);
        }
    }
    if d.len() == 0 {
        assert(s =~= browsing::zeros(n));
        lemma_only_zeros(n);
    } else {
        assert(s.drop_last() =~= browsing::zeros(n) + d.drop_last());
        assert(s.last() == d.last());
        lemma_leading_zeros(n, d.drop_last());
    }
}

proof fn lemma_only_zeros(n: nat)
    ensures
        number::value(browsing::zeros(n), 8) == 0,
    decreases n,
{
    if n > 0 {
        assert(browsing::zeros(n).drop_last() =~= browsing::zeros((n - 1) as nat));
        assert(browsing::zeros(n).last() == '0');
        lemma_only_zeros((n - 1) as nat);
    }
}

/// Deleting a folder, a link and a file are asked about in words of their own.
pub proof fn law_each_kind_is_asked_about_in_its_own_words(kind: EntryKind)
    ensures
        kind is Dir <==> browsing::delete_key(kind) == "sftp.confirm_delete_dir_named"@,
        kind is Symlink <==> browsing::delete_key(kind) == "sftp.confirm_delete_link_named"@,
        kind is File || kind is Other <==> browsing::delete_key(kind) == "sftp.confirm_delete_named"@,
{
    reveal_strlit("sftp.confirm_delete_dir_named");
    reveal_strlit("sftp.confirm_delete_link_named");
    reveal_strlit("sftp.confirm_delete_named");
    assert("sftp.confirm_delete_dir_named"@[20] == 'd');
    assert("sftp.confirm_delete_link_named"@[20] == 'l');
    assert("sftp.confirm_delete_named"@[20] == 'n');
}

// ---- the sidebar -----------------------------------------------------------------------------------------------

/// A connection is listed where what is searched for stands anywhere in its name, its host or
/// its user, and every connection is where nothing is.
pub proof fn law_a_match_anywhere_is_listed(
    c: ConnectionInfo,
    a: Seq<char>,
    q: Seq<char>,
    b: Seq<char>,
    texts: Catalog,
)
    ensures
        lettercase::folded(c.name@) == a + q + b ==> groups::listed(c, q, texts),
        lettercase::folded(c.host@) == a + q + b ==> groups::listed(c, q, texts),
        lettercase::folded(c.username@) == a + q + b ==> groups::listed(c, q, texts),
        lettercase::folded(c.group@) == a + q + b && c.group@.len() > 0 ==> groups::listed(c, q, texts),
        groups::listed(c, Seq::empty(), texts),
{
    let s = a + q + b;
    let n = a.len() as int;
    assert(s.subrange(n, n + q.len()) =~= q);
    assert(text::occurs_at(s, q, n));
    assert(text::contains(s, q));
}

/// The sidebar lists exactly those of the connections that are to be listed, in the order that
/// they stand in.
pub proof fn law_the_sidebar_lists_no_other(conns: Seq<ConnectionInfo>, q: Seq<char>, texts: Catalog, i: int)
    requires
        0 <= i < conns.len(),
    ensures
        groups::listed(conns[i], q, texts) ==> groups::listed_in(conns, q, texts).contains(&conns[i]),
        !groups::listed(conns[i], q, texts) ==> !groups::listed_in(conns, q, texts).contains(&conns[i]),
{
    let all = conns.map_values(|c: ConnectionInfo| &c);
    let pred = |c: &ConnectionInfo| groups::listed(*c, q, texts);
    assert(all[i] == &conns[i]);
    if groups::listed(conns[i], q, texts) {
        all.lemma_filter_contains(pred, i);
    } else {
        let out = all.filter(pred);
        if out.contains(&conns[i]) {
            let k = out.index_of(&conns[i]);
            all.lemma_filter_pred(pred, k);
        }
    }
}

/// Keys that start alike compare as their ends do.
proof fn lemma_same_start(p: Seq<Seq<char>>, x: Seq<Seq<char>>, y: Seq<Seq<char>>)
    ensures
        connections::key_order(p + x, p + y) == connections::key_order(x, y),
    decreases p.len(),
{
    if p.len() == 0 {
        assert(p + x =~= x);
        assert(p + y =~= y);
    } else {
        assert((p + x).drop_first() =~= p.drop_first() + x);
        assert((p + y).drop_first() =~= p.drop_first() + y);
        lemma_same_start(p.drop_first(), x, y);
    }
}

/// Within a group connections stand by their names, whatever the case of the letters; of two
/// whose names read alike the host decides.
pub proof fn law_connections_of_a_group_stand_by_name(a: ConnectionInfo, b: ConnectionInfo)
    requires
        a.group@ == b.group@,
    ensures
        lettercase::lower_each(a.name@) != lettercase::lower_each(b.name@) ==> (connections::keys_le(
            connections::connection_keys(a),
            connections::connection_keys(b),
        ) <==> order::text_le(lettercase::lower_each(a.name@), lettercase::lower_each(b.name@))),
        lettercase::lower_each(a.name@) == lettercase::lower_each(b.name@) && lettercase::lower_each(a.host@)
            != lettercase::lower_each(b.host@) ==> (connections::keys_le(
            connections::connection_keys(a),
            connections::connection_keys(b),
        ) <==> order::text_le(lettercase::lower_each(a.host@), lettercase::lower_each(b.host@))),
{
    let g = connections::group_keys(a.group@);
    let x = seq![
        lettercase::lower_each(a.name@),
        lettercase::lower_each(a.host@),
        a.name@,
        a.host@,
        a.id@,
    ];
    let y = seq![
        lettercase::lower_each(b.name@),
        lettercase::lower_each(b.host@),
        b.name@,
        b.host@,
        b.id@,
    ];
    lemma_same_start(g, x, y);
    if x[0] == y[0] {
        let tx = x.drop_first();
        let ty = y.drop_first();
        assert(x =~= seq![x[0]] + tx);
        assert(y =~= seq![y[0]] + ty);
        lemma_same_start(seq![x[0]], tx, ty);
        assert(tx[0] == x[1] && ty[0] == y[1]);
    }
}

// ---- names and texts as they are shown -------------------------------------------------------------------------

/// What is shown of a server's text holds no control character but the line feed, and loses
/// none of the others.
pub proof fn law_server_text_loses_only_controls(s: Seq<char>, i: int)
    ensures
        0 <= i < display::printable(s).len() ==> display::printable(s)[i] == '\n' || !text::is_ctrl(
            display::printable(s)[i],
        ),
        0 <= i < s.len() && (s[i] == '\n' || !text::is_ctrl(s[i])) ==> display::printable(s).contains(s[i]),
{
    let pred = |c: char| c == '\n' || !text::is_ctrl(c);
    if 0 <= i < display::printable(s).len() {
        s.lemma_filter_pred(pred, i);
    }
    if 0 <= i < s.len() && pred(s[i]) {
        s.lemma_filter_contains(pred, i);
    }
}

/// A path none of whose names hides anything is shown as it is.
pub proof fn law_a_plain_path_is_shown_as_it_is(s: Seq<char>)
    requires
        forall|k: int|
            0 <= k < split::split(s, seq!['/']).len() ==> display::name_shown(
                #[trigger] split::split(s, seq!['/'])[k],
            ) == split::split(s, seq!['/'])[k],
    ensures
        display::path_shown(s) == s,
{
    let parts = split::split(s, seq!['/']);
    wording::law_pieces_join_to_the_text(s, seq!['/']);
    assert(parts.map_values(|p: Seq<char>| display::name_shown(p)) =~= parts);
}

/// Who asks is named in the words of the language, and an unknown asker by itself.
pub proof fn law_who_asks_is_named(texts: Catalog, other: Seq<char>)
    requires
        other.len() > 9,
    ensures
        auth::purpose_label("shell"@, texts) == texts.says("auth.purpose.shell"@),
        auth::purpose_label("exec"@, texts) == texts.says("auth.purpose.exec"@),
        auth::purpose_label("reconnect"@, texts) == texts.says("auth.purpose.reconnect"@),
        auth::purpose_label("test"@, texts) == texts.says("auth.purpose.test"@),
        auth::purpose_label("deploy"@, texts) == texts.says("auth.purpose.deploy"@),
        auth::purpose_label(other, texts) == other,
{
    reveal_strlit("shell");
    reveal_strlit("exec");
    reveal_strlit("reconnect");
    reveal_strlit("test");
    reveal_strlit("deploy");
    assert("shell"@.len() == 5 && "reconnect"@.len() == 9 && "deploy"@.len() == 6);
    assert("exec"@.len() == 4 && "test"@.len() == 4);
    assert("exec"@[0] == 'e' && "test"@[0] == 't');
}

/// A question that nobody at the keyboard asked for never takes the keyboard: of a reconnect
/// never, of a test or a key deployment always, of a sign-in only where the user began it.
pub proof fn law_only_the_user_brings_the_keyboard(started: bool)
    ensures
        !auth::may_take_focus("reconnect"@, started),
        auth::may_take_focus("test"@, started),
        auth::may_take_focus("deploy"@, started),
        auth::may_take_focus("shell"@, started) == started,
        auth::may_take_focus("exec"@, started) == started,
{
    reveal_strlit("shell");
    reveal_strlit("exec");
    reveal_strlit("reconnect");
    reveal_strlit("test");
    reveal_strlit("deploy");
    assert("shell"@.len() == 5 && "reconnect"@.len() == 9 && "deploy"@.len() == 6);
    assert("exec"@.len() == 4 && "test"@.len() == 4);
    assert("exec"@[0] == 'e' && "test"@[0] == 't');
}

// ---- what is kept ----------------------------------------------------------------------------------------------

/// A history that could not be read is written over only once it has been set aside, and none
/// is before the older one has been settled.
pub proof fn law_an_unreadable_history_is_not_written_over(settled: bool, read: SealedRead, aside: bool)
    ensures
        history::may_write(settled, read, aside) ==> settled,
        read is Unreadable && history::may_write(settled, read, aside) ==> aside,
        read is LockedMeanwhile ==> !history::may_write(settled, read, aside),
        settled && aside && !(read is LockedMeanwhile) ==> history::may_write(settled, read, aside),
{
}

/// No two of the names that a history is set aside under are the same.
pub proof fn law_names_set_aside_differ(n: nat, m: nat)
    requires
        n != m,
    ensures
        history::aside_name(n) != history::aside_name(m),
{
    reveal_strlit("enc.unreadable");
    reveal_strlit("enc.unreadable.");
    number::lemma_digits_read_back(n, 10);
    number::lemma_digits_read_back(m, 10);
    let p = "enc.unreadable."@;
    if n > 0 && m > 0 {
        if p + number::decimal(n) == p + number::decimal(m) {
            assert((p + number::decimal(n)).skip(15) =~= number::decimal(n));
            assert((p + number::decimal(m)).skip(15) =~= number::decimal(m));
        }
    } else {
        assert((p + number::decimal(n)).len() > 15);
        assert((p + number::decimal(m)).len() > 15);
        assert("enc.unreadable"@.len() == 14);
    }
}

/// The language that was chosen is kept; without one it is Chinese where any variable of the
/// environment says so, and English where none does.
pub proof fn law_the_chosen_language_is_kept(saved: Seq<char>, vars: Seq<Seq<char>>, k: int)
    ensures
        text::trim(saved).len() > 0 ==> settings::starting_locale(Some(saved), vars) == text::trim(saved),
        0 <= k < vars.len() && text::starts_with(lettercase::lower_text(vars[k]), "zh"@)
            ==> settings::starting_locale(None, vars) == "zh-CN"@,
        vars.len() == 0 ==> settings::starting_locale(None, vars) == "en"@,
{
}

// ---- what keeps coming -----------------------------------------------------------------------------------------

/// Off the main screen nothing but the answers of the SSH side and news of updates comes in:
/// no key, no click, no figures, and nothing of the history is written.
pub proof fn law_a_locked_window_takes_no_input(s: NeoShell, moving: bool)
    requires
        !(s.vault.screen is Main),
    ensures
        !updating::subscribed(s, moving).user_input,
        updating::subscribed(s, moving).fetch_monitor_data is None,
        updating::subscribed(s, moving).idle_check is None,
        updating::subscribed(s, moving).flush_history is None,
{
}

/// On the main screen keys come in; the idle check runs where a lock is due at all, the
/// figures where a tab is open, and the history is looked at while something of it is unsaved.
pub proof fn law_the_main_screen_is_kept_up_to_date(s: NeoShell, moving: bool)
    requires
        s.vault.screen is Main,
    ensures
        updating::subscribed(s, moving).user_input,
        updating::subscribed(s, moving).poll_ssh_events is Some,
        updating::subscribed(s, moving).idle_check is Some <==> s.vault.lock_timeout_mins > 0,
        updating::subscribed(s, moving).fetch_monitor_data is Some <==> s.sessions.active_tab is Some,
        updating::subscribed(s, moving).flush_history is Some <==> s.history.sync.dirty,
        updating::subscribed(s, moving).tunnel_state is Some <==> s.tunnel.show_manager,
{
}

} // verus!
