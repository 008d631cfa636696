//! Remote processes: the detail popup, and which process a pid names.

use vstd::prelude::*;
use vstd::slice::slice_subrange;
use vstd::string::*;

use crate::catalog::Catalog;
use crate::display;
use crate::number;
use crate::split;
use crate::text;

verus! {

// ---- gathering ---------------------------------------------------------------------

/// What `f` makes of each item, one after the other.
pub open spec fn gathered<A, T>(items: Seq<A>, f: spec_fn(A) -> Seq<T>) -> Seq<T>
    decreases items.len(),
{
    if items.len() == 0 {
        Seq::empty()
    } else {
        gathered(items.drop_last(), f) + f(items.last())
    }
}

proof fn lemma_gathered_next<A, T>(items: Seq<A>, f: spec_fn(A) -> Seq<T>, i: int)
    requires
        0 <= i < items.len(),
    ensures
        gathered(items.take(i + 1), f) == gathered(items.take(i), f) + f(items[i]),
{
    assert(items.take(i + 1).drop_last() =~= items.take(i));
    assert(items.take(i + 1).last() == items[i]);
}

/// The texts of a vector of named values.
pub open spec fn pairs(v: Seq<(String, String)>) -> Seq<(Seq<char>, Seq<char>)> {
    v.map_values(|p: (String, String)| (p.0@, p.1@))
}

// ---- what one section adds ------------------------------------------------------------

/// The one field `(name, value)`.
pub open spec fn one(name: Seq<char>, value: Seq<char>) -> Seq<(Seq<char>, Seq<char>)> {
    seq![(name, value)]
}

pub open spec fn no_fields() -> Seq<(Seq<char>, Seq<char>)> {
    Seq::empty()
}

/// Tabs read as spaces.
pub open spec fn untabbed(s: Seq<char>) -> Seq<char> {
    s.map_values(|c: char| if c == '\t' { ' ' } else { c })
}

/// The first word, or the whole where there is none.
pub open spec fn first_word(s: Seq<char>) -> Seq<char> {
    if split::words(s).len() > 0 {
        split::words(s)[0]
    } else {
        s
    }
}

/// The value that a line of /proc/<pid>/status gives.
pub open spec fn status_value(raw: Seq<char>) -> Seq<char> {
    text::trim(untabbed(text::trim(raw)))
}

/// The field of the popup for `key: value` in /proc/<pid>/status.
pub open spec fn status_entry(key: Seq<char>, val: Seq<char>) -> Seq<(Seq<char>, Seq<char>)> {
    if key == "Name"@ || key == "State"@ || key == "PPid"@ || key == "Threads"@ || key == "VmRSS"@
        || key == "VmSize"@ || key == "VmPeak"@ || key == "VmSwap"@ {
        one(key, val)
    } else if key == "Uid"@ || key == "Gid"@ {
        one(key, first_word(val))
    } else if key == "voluntary_ctxt_switches"@ {
        one("CtxSwitch(V)"@, val)
    } else if key == "nonvoluntary_ctxt_switches"@ {
        one("CtxSwitch(NV)"@, val)
    } else {
        no_fields()
    }
}

pub open spec fn status_field(line: Seq<char>) -> Seq<(Seq<char>, Seq<char>)> {
    match text::find_char(line, ':') {
        Some(i) => status_entry(text::trim(line.take(i)), status_value(line.skip(i + 1))),
        None => no_fields(),
    }
}

/// The field of the popup for a line of /proc/<pid>/io.
pub open spec fn io_field(line: Seq<char>) -> Seq<(Seq<char>, Seq<char>)> {
    match text::find_char(line, ':') {
        Some(i) => match number::parse_unsigned(text::trim(line.skip(i + 1)), u64::MAX as nat) {
            Some(n) => one(text::trim(line.take(i)), display::bytes_in_words(n)),
            None => no_fields(),
        },
        None => no_fields(),
    }
}

/// The field of the popup for a line of /proc/<pid>/limits.
pub open spec fn limit_field(line: Seq<char>) -> Seq<(Seq<char>, Seq<char>)> {
    let l = text::trim(line);
    if l.len() == 0 || text::starts_with(l, "Limit"@) {
        no_fields()
    } else {
        let clean = split::join(split::words(l), " "@);
        if clean.len() == 0 {
            no_fields()
        } else {
            one("Limit"@, clean)
        }
    }
}

/// The fields of the popup for the line of `ps`.
pub open spec fn ps_fields(body: Seq<char>) -> Seq<(Seq<char>, Seq<char>)> {
    let w = split::words(body);
    if w.len() >= 8 {
        seq![
            ("User"@, w[2]),
            ("Nice"@, w[3]),
            ("VSZ"@, w[4] + " KB"@),
            ("RSS"@, w[5] + " KB"@),
            ("Elapsed"@, w[6]),
            ("Stat"@, w[7]),
        ]
    } else {
        no_fields()
    }
}

/// The body as one field, unless it is blank.
pub open spec fn whole_field(name: Seq<char>, body: Seq<char>) -> Seq<(Seq<char>, Seq<char>)> {
    if body.len() == 0 {
        no_fields()
    } else {
        one(name, body)
    }
}

/// A line without the whitespace around it, unless it is blank.
pub open spec fn plain_line(line: Seq<char>) -> Seq<Seq<char>> {
    if text::trim(line).len() == 0 {
        Seq::empty()
    } else {
        seq![text::trim(line)]
    }
}

pub open spec fn plain_lines(body: Seq<char>) -> Seq<Seq<char>> {
    gathered(split::lines(body), |l: Seq<char>| plain_line(l))
}

/// What a line of `ls -l` of the descriptors points at.
pub open spec fn fd_target(line: Seq<char>) -> Seq<Seq<char>> {
    let l = text::trim(line);
    if l.len() == 0 || text::starts_with(l, "total"@) {
        Seq::empty()
    } else {
        match text::find(l, "->"@) {
            Some(i) => seq![text::trim(l.skip(i + 2))],
            None => Seq::empty(),
        }
    }
}

/// The fields that a section of the output gives.
pub open spec fn section_fields(tag: Seq<char>, body: Seq<char>) -> Seq<(Seq<char>, Seq<char>)> {
    if tag == "STATUS"@ {
        gathered(split::lines(body), |l: Seq<char>| status_field(l))
    } else if tag == "CMDLINE"@ {
        whole_field("Cmdline"@, body)
    } else if tag == "IO"@ {
        gathered(split::lines(body), |l: Seq<char>| io_field(l))
    } else if tag == "CWD"@ {
        whole_field("CWD"@, body)
    } else if tag == "EXE"@ {
        whole_field("Executable"@, body)
    } else if tag == "FD_COUNT"@ {
        whole_field("Open FDs"@, body)
    } else if tag == "OOM"@ {
        whole_field("OOM Score"@, body)
    } else if tag == "PS"@ {
        ps_fields(body)
    } else if tag == "LIMITS"@ {
        gathered(split::lines(body), |l: Seq<char>| limit_field(l))
    } else {
        no_fields()
    }
}

/// The lines that a section tagged `tag` gives to the list tagged `want`.
pub open spec fn section_lines(want: Seq<char>, tag: Seq<char>, body: Seq<char>) -> Seq<Seq<char>> {
    if tag == want {
        plain_lines(body)
    } else {
        Seq::empty()
    }
}

pub open spec fn section_fds(tag: Seq<char>, body: Seq<char>) -> Seq<Seq<char>> {
    if tag == "FDS"@ {
        gathered(split::lines(body), |l: Seq<char>| fd_target(l))
    } else {
        Seq::empty()
    }
}

/// The sections of the output, `___TAG___` and then the body of each.
pub open spec fn sections(output: Seq<char>) -> Seq<(Seq<char>, Seq<char>)> {
    let p = split::split(output, "___"@);
    Seq::new(
        ((p.len() - 1) / 2) as nat,
        |k: int| (text::trim(p[2 * k + 1]), text::trim(p[2 * k + 2])),
    )
}

/// Sections as they are printed: `___TAG___` on a line, and the body behind it.
pub open spec fn printed(list: Seq<(Seq<char>, Seq<char>)>) -> Seq<char>
    decreases list.len(),
{
    if list.len() == 0 {
        Seq::empty()
    } else {
        fence() + (list[0].0 + (fence() + (feeds(list[0].1) + printed(list.drop_first()))))
    }
}

/// What stands around a tag.
pub open spec fn fence() -> Seq<char> {
    seq!['_', '_', '_']
}

/// A body on lines of its own.
pub open spec fn feeds(body: Seq<char>) -> Seq<char> {
    seq!['\n'] + body + seq!['\n']
}

/// No fence stands in `p`, nor starts in it and ends behind it.
pub open spec fn fence_free(p: Seq<char>) -> bool {
    !text::contains(p, fence()) && (p.len() > 0 ==> p.last() != '_')
}

/// Printed sections are read back: each with its tag, and with its body but for
/// the whitespace around it.
pub proof fn law_printed_sections_read_back(list: Seq<(Seq<char>, Seq<char>)>)
    requires
        forall|i: int|
            0 <= i < list.len() ==> fence_free((#[trigger] list[i]).0) && text::trim(list[i].0) == list[i].0
                && !text::contains(list[i].1, fence()),
    ensures
        sections(printed(list)) == list.map_values(|s: (Seq<char>, Seq<char>)| (s.0, text::trim(s.1))),
{
    reveal_strlit("___");
    assert("___"@ =~= fence());
    assert(!text::contains(Seq::<char>::empty(), fence()));
    lemma_split_printed(Seq::empty(), list);
    let out = printed(list);
    assert(Seq::<char>::empty() + out =~= out);
    let p = split::split(out, fence());
    assert(p =~= seq![Seq::<char>::empty()] + parts_of(list));
    let read = sections(out);
    let told = list.map_values(|s: (Seq<char>, Seq<char>)| (s.0, text::trim(s.1)));
    assert forall|k: int| 0 <= k < list.len() implies #[trigger] read[k] == told[k] by {
        assert(p[2 * k + 1] == parts_of(list)[2 * k]);
        assert(p[2 * k + 2] == parts_of(list)[2 * k + 1]);
        lemma_trim_feeds(list[k].1);
    }
    assert(read =~= told);
}

/// The tags and the bodies, one after the other.
pub open spec fn parts_of(list: Seq<(Seq<char>, Seq<char>)>) -> Seq<Seq<char>> {
    Seq::new(
        2 * list.len(),
        |j: int|
            if j % 2 == 0 {
                list[j / 2].0
            } else {
                feeds(list[j / 2].1)
            },
    )
}

proof fn lemma_split_at_fence(p: Seq<char>, x: Seq<char>)
    requires
        fence_free(p),
    ensures
        split::split(p + (fence() + x), fence()) == seq![p] + split::split(x, fence()),
{
    let rest = fence() + x;
    let s = p + rest;
    assert forall|i: int| 0 <= i < p.len() implies !#[trigger] text::occurs_at(s, fence(), i) by {
        if text::occurs_at(s, fence(), i) {
            let at = s.subrange(i, i + 3);
            if i + 3 <= p.len() {
                assert(p.subrange(i, i + 3) =~= fence());
                assert(text::occurs_at(p, fence(), i));
            } else {
                let k = p.len() - 1 - i;
                assert(at[k] == p.last());
                assert(at[k] == fence()[k]);
            }
        }
    }
    text::lemma_find_behind(p, rest, fence(), 0);
    assert(rest.subrange(0, 3) =~= fence());
    assert(text::find(rest, fence()) == Some(0int));
    assert(s.take(p.len() as int) =~= p);
    assert(s.skip(p.len() as int + 3) =~= x);
}

proof fn lemma_no_fence(p: Seq<char>)
    requires
        !text::contains(p, fence()),
    ensures
        split::split(p, fence()) == seq![p],
{
    text::lemma_contains_is_find(p, fence());
}

proof fn lemma_feeds_fence_free(body: Seq<char>)
    requires
        !text::contains(body, fence()),
    ensures
        fence_free(feeds(body)),
{
    let s = feeds(body);
    if text::contains(s, fence()) {
        let i = choose|i: int| text::occurs_at(s, fence(), i);
        let at = s.subrange(i, i + 3);
        assert(at[0] == s[i] && at[1] == s[i + 1] && at[2] == s[i + 2]);
        assert(fence()[0] == '_' && fence()[1] == '_' && fence()[2] == '_');
        assert(s[0] == '\n' && s[s.len() - 1] == '\n');
        assert(body.subrange(i - 1, i + 2) =~= fence());
        assert(text::occurs_at(body, fence(), i - 1));
    }
}

proof fn lemma_split_printed(pre: Seq<char>, list: Seq<(Seq<char>, Seq<char>)>)
    requires
        fence_free(pre),
        forall|i: int|
            0 <= i < list.len() ==> fence_free((#[trigger] list[i]).0) && !text::contains(list[i].1, fence()),
    ensures
        split::split(pre + printed(list), fence()) == seq![pre] + parts_of(list),
    decreases list.len(),
{
    if list.len() == 0 {
        assert(pre + printed(list) =~= pre);
        lemma_no_fence(pre);
        assert(seq![pre] + parts_of(list) =~= seq![pre]);
    } else {
        let rest = list.drop_first();
        let (tag, body) = list[0];
        assert forall|i: int| 0 <= i < rest.len() implies fence_free((#[trigger] rest[i]).0) && !text::contains(
            rest[i].1,
            fence(),
        ) by {
            assert(rest[i] == list[i + 1]);
        }
        assert(fence_free(list[0].0));
        let inner = feeds(body) + printed(rest);
        lemma_split_at_fence(pre, tag + (fence() + inner));
        lemma_split_at_fence(tag, inner);
        lemma_feeds_fence_free(body);
        lemma_split_printed(feeds(body), rest);
        assert(seq![pre] + (seq![tag] + (seq![feeds(body)] + parts_of(rest))) =~= seq![pre] + parts_of(list)) by {
            let l = seq![tag] + (seq![feeds(body)] + parts_of(rest));
            let r = parts_of(list);
            assert forall|j: int| 0 <= j < r.len() implies #[trigger] l[j] == r[j] by {
                if j >= 2 {
                    assert(l[j] == parts_of(rest)[j - 2]);
                    assert((j - 2) / 2 == j / 2 - 1);
                    assert(rest[j / 2 - 1] == list[j / 2]);
                }
            }
            assert(l =~= r);
        }
    }
}

/// Line feeds around a body are trimmed off with what else stands there.
proof fn lemma_trim_feeds(body: Seq<char>)
    ensures
        text::trim(feeds(body)) == text::trim(body),
{
    let s = body + seq!['\n'];
    assert(feeds(body).drop_first() =~= s);
    assert(text::trim_start(feeds(body)) == text::trim_start(s));
    lemma_trim_feed_behind(body);
}

proof fn lemma_trim_feed_behind(body: Seq<char>)
    ensures
        text::trim(body + seq!['\n']) == text::trim(body),
    decreases body.len(),
{
    let s = body + seq!['\n'];
    if body.len() == 0 {
        assert(s.drop_first() =~= Seq::<char>::empty());
        assert(body =~= Seq::<char>::empty());
        assert(text::trim_start(s) == text::trim_start(s.drop_first()));
    } else if text::is_white(body[0]) {
        assert(s.drop_first() =~= body.drop_first() + seq!['\n']);
        lemma_trim_feed_behind(body.drop_first());
    } else {
        assert(s.drop_last() =~= body);
    }
}

/// The lines of the list tagged `want`.
pub open spec fn listed(output: Seq<char>, want: Seq<char>) -> Seq<Seq<char>> {
    gathered(sections(output), |s: (Seq<char>, Seq<char>)| section_lines(want, s.0, s.1))
}

// ---- the detail popup -------------------------------------------------------------------

#[derive(Debug)]
pub struct ProcessDetailInfo {
    pub pid: u32,
    pub fields: Vec<(String, String)>,
    pub children: Vec<String>,
    pub threads: Vec<String>,
    pub net_conns: Vec<String>,
    pub listen_ports: Vec<String>,
    pub open_fds: Vec<String>,
    /// Session the details were read over. A kill from the popup goes to this
    /// host even if the user has switched tabs since.
    pub session_id: String,
}

fn untab(s: &[char]) -> (out: Vec<char>)
    ensures
        out@ == untabbed(s@),
{
    let mut out: Vec<char> = Vec::new();
    let mut i: usize = 0;
    while i < s.len()
        invariant
            i <= s.len(),
            out@ =~= untabbed(s@).take(i as int),
        decreases s.len() - i,
    {
        if s[i] == '\t' {
            out.push(' ');
        } else {
            out.push(s[i]);
        }
        i += 1;
    }
    assert(untabbed(s@).take(i as int) =~= untabbed(s@));
    out
}

/// The two sides of the first `:`.
fn halves<'a>(line: &'a [char]) -> (r: Option<(&'a [char], &'a [char])>)
    ensures
        match r {
            Some((a, b)) => text::find_char(line@, ':') matches Some(i) && a@ == line@.take(i) && b@
                == line@.skip(i + 1),
            None => text::find_char(line@, ':') is None,
        },
{
    let colon: Vec<char> = vec![':'];
    assert(colon@ =~= seq![':']);
    match text::find_chars(line, colon.as_slice()) {
        Some(i) => {
            let n: usize = line.len();
            let a = slice_subrange(line, 0, i);
            let b = slice_subrange(line, i + 1, n);
            assert(a@ =~= line@.take(i as int));
            assert(b@ =~= line@.skip(i + 1));
            Some((a, b))
        },
        None => None,
    }
}

fn push_field(out: &mut Vec<(String, String)>, name: &str, value: &[char])
    ensures
        pairs(final(out)@) == pairs(old(out)@) + one(name@, value@),
{
    let ghost before = out@;
    out.push((name.to_owned(), text::string_of(value)));
    assert(pairs(out@) =~= pairs(before) + one(name@, value@));
}

fn push_status(out: &mut Vec<(String, String)>, line: &[char])
    ensures
        pairs(final(out)@) == pairs(old(out)@) + status_field(line@),
{
    let ghost before = out@;
    match halves(line) {
        None => {
            assert(pairs(out@) =~= pairs(before) + no_fields());
        },
        Some((k, v)) => {
            let key = text::string_of(text::trim_chars(k));
            let clean = untab(text::trim_chars(v));
            let val = text::trim_chars(clean.as_slice());
            let name = key.as_str();
            if text::same_text(name, "Name") || text::same_text(name, "State") || text::same_text(
                name,
                "PPid",
            ) || text::same_text(name, "Threads") || text::same_text(name, "VmRSS")
                || text::same_text(name, "VmSize") || text::same_text(name, "VmPeak")
                || text::same_text(name, "VmSwap") {
                push_field(out, name, val);
            } else if text::same_text(name, "Uid") || text::same_text(name, "Gid") {
                let words = split::words_of(val);
                if words.len() > 0 {
                    assert(split::pieces(words@)[0] == words@[0]@);
                    push_field(out, name, words[0]);
                } else {
                    assert(split::pieces(words@).len() == 0);
                    push_field(out, name, val);
                }
            } else if text::same_text(name, "voluntary_ctxt_switches") {
                push_field(out, "CtxSwitch(V)", val);
            } else if text::same_text(name, "nonvoluntary_ctxt_switches") {
                push_field(out, "CtxSwitch(NV)", val);
            } else {
                assert(pairs(out@) =~= pairs(before) + no_fields());
            }
        },
    }
}

fn push_io(out: &mut Vec<(String, String)>, line: &[char])
    ensures
        pairs(final(out)@) == pairs(old(out)@) + io_field(line@),
{
    let ghost before = out@;
    assert(pairs(before) =~= pairs(before) + no_fields());
    match halves(line) {
        None => {},
        Some((k, v)) => match number::parse_unsigned_chars(
            text::trim_chars(v),
            18_446_744_073_709_551_615,
        ) {
            Some(bytes) => {
                let key = text::string_of(text::trim_chars(k));
                let size = text::chars_of(display::format_bytes(bytes).as_str());
                push_field(out, key.as_str(), size.as_slice());
            },
            None => {},
        },
    }
}

fn push_limit(out: &mut Vec<(String, String)>, line: &[char])
    ensures
        pairs(final(out)@) == pairs(old(out)@) + limit_field(line@),
{
    let ghost before = out@;
    assert(pairs(before) =~= pairs(before) + no_fields());
    let l = text::trim_chars(line);
    let head = text::chars_of("Limit");
    if l.len() == 0 || text::starts_with_chars(l, head.as_slice()) {
        return;
    }
    let words = split::words_of(l);
    let gap = text::chars_of(" ");
    let clean = split::join_chars(&words, gap.as_slice());
    if clean.len() > 0 {
        push_field(out, "Limit", clean.as_slice());
    }
}

fn push_ps(out: &mut Vec<(String, String)>, body: &[char])
    ensures
        pairs(final(out)@) == pairs(old(out)@) + ps_fields(body@),
{
    let ghost before = out@;
    assert(pairs(before) =~= pairs(before) + no_fields());
    let words = split::words_of(body);
    let ghost w = split::words(body@);
    assert(w.len() == words@.len());
    if words.len() >= 8 {
        assert(forall|i: int| 0 <= i < words@.len() ==> #[trigger] words@[i]@ == w[i]) by {
            assert forall|i: int| 0 <= i < words@.len() implies #[trigger] words@[i]@ == w[i] by {
                assert(split::pieces(words@)[i] == words@[i]@);
            }
        }
        let vsz = text::chars_of(text::string_of(words[4]).concat(" KB").as_str());
        let rss = text::chars_of(text::string_of(words[5]).concat(" KB").as_str());
        push_field(out, "User", words[2]);
        push_field(out, "Nice", words[3]);
        push_field(out, "VSZ", vsz.as_slice());
        push_field(out, "RSS", rss.as_slice());
        push_field(out, "Elapsed", words[6]);
        push_field(out, "Stat", words[7]);
        assert(pairs(out@) =~= pairs(before) + ps_fields(body@));
    }
}

fn push_whole(out: &mut Vec<(String, String)>, name: &str, body: &[char])
    ensures
        pairs(final(out)@) == pairs(old(out)@) + whole_field(name@, body@),
{
    let ghost before = out@;
    assert(pairs(before) =~= pairs(before) + no_fields());
    if body.len() > 0 {
        push_field(out, name, body);
    }
}

/// Which lines give the fields of a section that is read line by line.
enum LineKind {
    Status,
    Io,
    Limits,
}

impl LineKind {
    spec fn field(&self) -> spec_fn(Seq<char>) -> Seq<(Seq<char>, Seq<char>)> {
        match self {
            LineKind::Status => |l: Seq<char>| status_field(l),
            LineKind::Io => |l: Seq<char>| io_field(l),
            LineKind::Limits => |l: Seq<char>| limit_field(l),
        }
    }
}

fn push_fields(out: &mut Vec<(String, String)>, body: &[char], kind: LineKind)
    ensures
        pairs(final(out)@) == pairs(old(out)@) + gathered(split::lines(body@), kind.field()),
{
    let lines = split::lines_of(body);
    let ghost all = split::lines(body@);
    let ghost before = pairs(out@);
    let mut i: usize = 0;
    assert(pairs(out@) =~= before + gathered(all.take(0), kind.field()));
    while i < lines.len()
        invariant
            i <= lines.len(),
            all == split::pieces(lines@),
            pairs(out@) == before + gathered(all.take(i as int), kind.field()),
        decreases lines.len() - i,
    {
        proof {
            lemma_gathered_next(all, kind.field(), i as int);
            assert(all[i as int] == lines@[i as int]@);
        }
        let ghost mid = pairs(out@);
        match kind {
            LineKind::Status => push_status(out, lines[i]),
            LineKind::Io => push_io(out, lines[i]),
            LineKind::Limits => push_limit(out, lines[i]),
        }
        assert(pairs(out@) == mid + kind.field()(all[i as int]));
        assert(pairs(out@) =~= before + gathered(all.take(i + 1), kind.field()));
        i += 1;
    }
    assert(all.take(i as int) =~= all);
}

fn push_lines(out: &mut Vec<String>, body: &[char])
    ensures
        split::texts(final(out)@) == split::texts(old(out)@) + plain_lines(body@),
{
    let lines = split::lines_of(body);
    let ghost all = split::lines(body@);
    let ghost f = |l: Seq<char>| plain_line(l);
    let ghost before = split::texts(out@);
    let mut i: usize = 0;
    assert(split::texts(out@) =~= before + gathered(all.take(0), f));
    while i < lines.len()
        invariant
            i <= lines.len(),
            all == split::pieces(lines@),
            f == (|l: Seq<char>| plain_line(l)),
            split::texts(out@) == before + gathered(all.take(i as int), f),
        decreases lines.len() - i,
    {
        proof {
            lemma_gathered_next(all, f, i as int);
            assert(all[i as int] == lines@[i as int]@);
        }
        let ghost mid = out@;
        let l = text::trim_chars(lines[i]);
        if l.len() > 0 {
            out.push(text::string_of(l));
        }
        assert(split::texts(out@) =~= split::texts(mid) + f(all[i as int]));
        assert(split::texts(out@) =~= before + gathered(all.take(i + 1), f));
        i += 1;
    }
    assert(all.take(i as int) =~= all);
}

fn push_fds(out: &mut Vec<String>, body: &[char])
    ensures
        split::texts(final(out)@) == split::texts(old(out)@) + gathered(
            split::lines(body@),
            |l: Seq<char>| fd_target(l),
        ),
{
    let lines = split::lines_of(body);
    let total = text::chars_of("total");
    let arrow = text::chars_of("->");
    let ghost all = split::lines(body@);
    let ghost f = |l: Seq<char>| fd_target(l);
    let ghost before = split::texts(out@);
    let mut i: usize = 0;
    assert(split::texts(out@) =~= before + gathered(all.take(0), f));
    while i < lines.len()
        invariant
            i <= lines.len(),
            all == split::pieces(lines@),
            total@ == "total"@,
            arrow@ == "->"@,
            f == (|l: Seq<char>| fd_target(l)),
            split::texts(out@) == before + gathered(all.take(i as int), f),
        decreases lines.len() - i,
    {
        proof {
            lemma_gathered_next(all, f, i as int);
            assert(all[i as int] == lines@[i as int]@);
            reveal_strlit("->");
        }
        let ghost mid = out@;
        let l = text::trim_chars(lines[i]);
        if l.len() > 0 && !text::starts_with_chars(l, total.as_slice()) {
            match text::find_chars(l, arrow.as_slice()) {
                Some(at) => {
                    let n: usize = l.len();
                    let rest = slice_subrange(l, at + 2, n);
                    assert(rest@ =~= l@.skip(at + 2));
                    out.push(text::string_of(text::trim_chars(rest)));
                },
                None => {},
            }
        }
        assert(split::texts(out@) =~= split::texts(mid) + f(all[i as int]));
        assert(split::texts(out@) =~= before + gathered(all.take(i + 1), f));
        i += 1;
    }
    assert(all.take(i as int) =~= all);
}

fn push_section(out: &mut Vec<(String, String)>, tag: &str, body: &[char])
    ensures
        pairs(final(out)@) == pairs(old(out)@) + section_fields(tag@, body@),
{
    let ghost before = out@;
    assert(pairs(before) =~= pairs(before) + no_fields());
    if text::same_text(tag, "STATUS") {
        push_fields(out, body, LineKind::Status);
    } else if text::same_text(tag, "CMDLINE") {
        push_whole(out, "Cmdline", body);
    } else if text::same_text(tag, "IO") {
        push_fields(out, body, LineKind::Io);
    } else if text::same_text(tag, "CWD") {
        push_whole(out, "CWD", body);
    } else if text::same_text(tag, "EXE") {
        push_whole(out, "Executable", body);
    } else if text::same_text(tag, "FD_COUNT") {
        push_whole(out, "Open FDs", body);
    } else if text::same_text(tag, "OOM") {
        push_whole(out, "OOM Score", body);
    } else if text::same_text(tag, "PS") {
        push_ps(out, body);
    } else if text::same_text(tag, "LIMITS") {
        push_fields(out, body, LineKind::Limits);
    }
}

fn push_list(out: &mut Vec<String>, want: &str, tag: &str, body: &[char])
    ensures
        split::texts(final(out)@) == split::texts(old(out)@) + section_lines(want@, tag@, body@),
{
    let ghost before = split::texts(out@);
    assert(before =~= before + Seq::<Seq<char>>::empty());
    if text::same_text(tag, want) {
        push_lines(out, body);
    }
}

/// Parse /proc-based process detail output into structured fields.
pub fn parse_process_detail(pid: u32, output: &str) -> (d: ProcessDetailInfo)
    ensures
        d.pid == pid,
        pairs(d.fields@) == one("PID"@, number::decimal(pid as nat)) + gathered(
            sections(output@),
            |s: (Seq<char>, Seq<char>)| section_fields(s.0, s.1),
        ),
        split::texts(d.children@) == listed(output@, "CHILDREN"@),
        split::texts(d.threads@) == listed(output@, "THREADS"@),
        split::texts(d.net_conns@) == listed(output@, "NET"@),
        split::texts(d.listen_ports@) == listed(output@, "LISTEN"@),
        split::texts(d.open_fds@) == gathered(
            sections(output@),
            |s: (Seq<char>, Seq<char>)| section_fds(s.0, s.1),
        ),
        d.session_id@ == Seq::<char>::empty(),
{
    let mut fields: Vec<(String, String)> = Vec::new();
    let mut children: Vec<String> = Vec::new();
    let mut threads: Vec<String> = Vec::new();
    let mut net_conns: Vec<String> = Vec::new();
    let mut listen_ports: Vec<String> = Vec::new();
    let mut open_fds: Vec<String> = Vec::new();
    let number = text::chars_of(number::decimal_text(pid as u64).as_str());
    push_field(&mut fields, "PID", number.as_slice());

    let cs = text::chars_of(output);
    let fence = text::chars_of("___");
    proof {
        reveal_strlit("___");
    }
    let parts = split::split_chars(cs.as_slice(), fence.as_slice());
    let ghost all = sections(output@);
    let ghost ff = |s: (Seq<char>, Seq<char>)| section_fields(s.0, s.1);
    let ghost fc = |s: (Seq<char>, Seq<char>)| section_lines("CHILDREN"@, s.0, s.1);
    let ghost ft = |s: (Seq<char>, Seq<char>)| section_lines("THREADS"@, s.0, s.1);
    let ghost fnet = |s: (Seq<char>, Seq<char>)| section_lines("NET"@, s.0, s.1);
    let ghost fl = |s: (Seq<char>, Seq<char>)| section_lines("LISTEN"@, s.0, s.1);
    let ghost fd = |s: (Seq<char>, Seq<char>)| section_fds(s.0, s.1);
    let ghost head = one("PID"@, number::decimal(pid as nat));
    let ghost mut k: int = 0;
    proof {
        assert(parts@.len() == split::split(output@, "___"@).len());
        assert(pairs(fields@) =~= head + gathered(all.take(0), ff));
        assert(split::texts(children@) =~= gathered(all.take(0), fc));
        assert(split::texts(threads@) =~= gathered(all.take(0), ft));
        assert(split::texts(net_conns@) =~= gathered(all.take(0), fnet));
        assert(split::texts(listen_ports@) =~= gathered(all.take(0), fl));
        assert(split::texts(open_fds@) =~= gathered(all.take(0), fd));
    }
    let total: usize = parts.len();
    let mut i: usize = 1;
    while i < total - 1
        invariant
            total == parts@.len(),
            total > 0,
            split::pieces(parts@) == split::split(output@, "___"@),
            all == sections(output@),
            i == 2 * k + 1,
            0 <= k <= all.len(),
            i <= total + 1,
            head == one("PID"@, number::decimal(pid as nat)),
            ff == (|s: (Seq<char>, Seq<char>)| section_fields(s.0, s.1)),
            fc == (|s: (Seq<char>, Seq<char>)| section_lines("CHILDREN"@, s.0, s.1)),
            ft == (|s: (Seq<char>, Seq<char>)| section_lines("THREADS"@, s.0, s.1)),
            fnet == (|s: (Seq<char>, Seq<char>)| section_lines("NET"@, s.0, s.1)),
            fl == (|s: (Seq<char>, Seq<char>)| section_lines("LISTEN"@, s.0, s.1)),
            fd == (|s: (Seq<char>, Seq<char>)| section_fds(s.0, s.1)),
            pairs(fields@) == head + gathered(all.take(k), ff),
            split::texts(children@) == gathered(all.take(k), fc),
            split::texts(threads@) == gathered(all.take(k), ft),
            split::texts(net_conns@) == gathered(all.take(k), fnet),
            split::texts(listen_ports@) == gathered(all.take(k), fl),
            split::texts(open_fds@) == gathered(all.take(k), fd),
        decreases total + 1 - i,
    {
        let tag = text::string_of(text::trim_chars(parts[i]));
        let body = text::trim_chars(parts[i + 1]);
        proof {
            assert(split::pieces(parts@)[i as int] == parts@[i as int]@);
            assert(split::pieces(parts@)[i + 1] == parts@[i + 1]@);
            assert(all[k] == (tag@, body@));
            lemma_gathered_next(all, ff, k);
            lemma_gathered_next(all, fc, k);
            lemma_gathered_next(all, ft, k);
            lemma_gathered_next(all, fnet, k);
            lemma_gathered_next(all, fl, k);
            lemma_gathered_next(all, fd, k);
        }
        push_section(&mut fields, tag.as_str(), body);
        push_list(&mut children, "CHILDREN", tag.as_str(), body);
        push_list(&mut threads, "THREADS", tag.as_str(), body);
        push_list(&mut net_conns, "NET", tag.as_str(), body);
        push_list(&mut listen_ports, "LISTEN", tag.as_str(), body);
        if text::same_text(tag.as_str(), "FDS") {
            push_fds(&mut open_fds, body);
        }
        proof {
            assert(pairs(fields@) =~= head + gathered(all.take(k + 1), ff));
            assert(split::texts(open_fds@) =~= gathered(all.take(k + 1), fd));
            k = k + 1;
        }
        i += 2;
    }
    assert(all.take(k) =~= all);
    ProcessDetailInfo {
        pid,
        fields,
        children,
        threads,
        net_conns,
        listen_ports,
        open_fds,
        session_id: String::new(),
    }
}

// ---- which process a pid names ---------------------------------------------------------

/// Which process holds a pid right now, read from /proc when the kill
/// confirmation opens and again just before the signal goes.
#[derive(Debug)]
pub struct ProcIdentity {
    /// Field 22 of /proc/<pid>/stat, clock ticks after boot: a pid that has
    /// changed hands has a new one. This is what identifies the process.
    pub start_time: String,
    /// The name in the same stat line — all a kernel thread has to show.
    pub comm: String,
    /// /proc/<pid>/cmdline with its NULs as spaces: what the confirmation
    /// shows. The process may rewrite it, so it is not part of the identity.
    pub cmdline: String,
}

impl ProcIdentity {
    pub open spec fn is(&self, start: Seq<char>, comm: Seq<char>, cmdline: Seq<char>) -> bool {
        self.start_time@ == start && self.comm@ == comm && self.cmdline@ == cmdline
    }
}

impl Clone for ProcIdentity {
    fn clone(&self) -> (r: ProcIdentity)
        ensures
            r == *self,
    {
        ProcIdentity {
            start_time: self.start_time.clone(),
            comm: self.comm.clone(),
            cmdline: self.cmdline.clone(),
        }
    }
}

/// Where the name stands in a stat line: between the first '(' and the last
/// ')'. A name may hold parentheses of its own.
pub open spec fn comm_at(stat: Seq<char>) -> Option<(int, int)> {
    match (text::find_char(stat, '('), text::rfind_char(stat, ')')) {
        (Some(open), Some(close)) => if open <= close {
            Some((open, close))
        } else {
            None
        },
        _ => None,
    }
}

/// The start time in a stat line: field 22, the 20th behind the name.
pub open spec fn start_time_in(stat: Seq<char>) -> Option<Seq<char>> {
    match comm_at(stat) {
        Some((_, close)) => {
            let after = split::words(stat.skip(close + 1));
            if after.len() > 19 && number::all_digits(after[19], 10) {
                Some(after[19])
            } else {
                None
            }
        },
        None => None,
    }
}

/// `r` is the identity that the stat line and the command line give.
pub open spec fn is_proc_identity(r: Option<ProcIdentity>, stat: Seq<char>, cmdline: Seq<char>) -> bool {
    match (comm_at(stat), start_time_in(stat)) {
        (Some((open, close)), Some(start)) => match r {
            Some(id) => id.is(start, stat.subrange(open + 1, close), text::trim_end(cmdline)),
            None => false,
        },
        _ => r is None,
    }
}

/// `ProcIdentity` from /proc/<pid>/stat and /proc/<pid>/cmdline as `cat` and
/// `tr '\0' ' '` print them. `None` when there is no such process: nothing
/// was printed, or not a stat line.
pub fn parse_proc_identity(stat: &str, cmdline: &str) -> (r: Option<ProcIdentity>)
    ensures
        is_proc_identity(r, stat@, cmdline@),
{
    let cs = text::chars_of(stat);
    let left: Vec<char> = vec!['('];
    let right: Vec<char> = vec![')'];
    assert(left@ =~= seq!['('] && right@ =~= seq![')']);
    let open: usize = match text::find_chars(cs.as_slice(), left.as_slice()) {
        Some(i) => i,
        None => return None,
    };
    let close: usize = match text::rfind_chars(cs.as_slice(), right.as_slice()) {
        Some(i) => i,
        None => return None,
    };
    if close < open {
        return None;
    }
    proof {
        text::lemma_find(stat@, seq!['('], 0);
        text::lemma_rfind(stat@, seq![')'], stat@.len() as int);
        assert(text::occurs_at(stat@, seq!['('], open as int));
        assert(stat@.subrange(open as int, open + 1)[0] == '(');
        assert(text::occurs_at(stat@, seq![')'], close as int));
        assert(stat@.subrange(close as int, close + 1)[0] == ')');
        assert(open != close);
    }
    let n: usize = cs.len();
    let rest = slice_subrange(cs.as_slice(), close + 1, n);
    assert(rest@ =~= stat@.skip(close + 1));
    let words = split::words_of(rest);
    assert(split::pieces(words@).len() == words@.len());
    if words.len() <= 19 {
        return None;
    }
    assert(split::pieces(words@)[19] == words@[19]@);
    if !number::are_digits(words[19], 10) {
        return None;
    }
    let comm = slice_subrange(cs.as_slice(), open + 1, close);
    let line = text::chars_of(cmdline);
    Some(
        ProcIdentity {
            start_time: text::string_of(words[19]),
            comm: text::string_of(comm),
            cmdline: text::string_of(text::trim_end_chars(line.as_slice())),
        },
    )
}

/// What is left of `s` behind its first `n` words.
pub open spec fn behind_words(s: Seq<char>, n: nat) -> Seq<char>
    decreases n,
{
    if n == 0 {
        text::trim_start(s)
    } else {
        let rest = behind_words(s, (n - 1) as nat);
        text::trim_start(rest.skip(split::word(rest).len() as int))
    }
}

/// Word `n` of `s`; nothing where `s` has not that many.
pub open spec fn word_at(s: Seq<char>, n: nat) -> Seq<char> {
    split::word(behind_words(s, n))
}

/// The first line that is not blank.
pub open spec fn first_line(lines: Seq<Seq<char>>) -> Option<Seq<char>>
    decreases lines.len(),
{
    if lines.len() == 0 {
        None
    } else if text::trim(lines[0]).len() > 0 {
        Some(lines[0])
    } else {
        first_line(lines.drop_first())
    }
}

/// The first five words of a line, as `ps` prints a start time.
pub open spec fn start_words(line: Seq<char>) -> Seq<Seq<char>> {
    seq![word_at(line, 0), word_at(line, 1), word_at(line, 2), word_at(line, 3), word_at(line, 4)]
}

/// The line reads like a start time and a command.
pub open spec fn is_ps_line(line: Seq<char>) -> bool {
    &&& word_at(line, 4).len() > 0
    &&& number::all_digits(word_at(line, 4), 10)
    &&& text::contains(word_at(line, 3), seq![':'])
}

/// The first word of a command line; "?" where it has none.
pub open spec fn command_name(cmdline: Seq<char>) -> Seq<char> {
    if split::words(cmdline).len() > 0 {
        split::words(cmdline)[0]
    } else {
        "?"@
    }
}

/// `r` is the identity that the output of `ps` gives.
pub open spec fn is_ps_identity(r: Option<ProcIdentity>, out: Seq<char>) -> bool {
    match first_line(split::lines(out)) {
        Some(line) => if is_ps_line(line) {
            let cmdline = text::trim_end(behind_words(line, 5));
            match r {
                Some(id) => id.is(
                    split::join(start_words(line), " "@),
                    command_name(cmdline),
                    cmdline,
                ),
                None => false,
            }
        } else {
            r is None
        },
        None => r is None,
    }
}

/// `ProcIdentity` from `ps -o lstart= -o args=` in the C locale, for a host
/// without /proc — a BSD or macOS one: the start time, five fields ("Mon Sep
/// 22 01:02:03 2026"), then the command line. `None` when `ps` printed no
/// such line: no such process.
pub fn parse_ps_identity(out: &str) -> (r: Option<ProcIdentity>)
    ensures
        is_ps_identity(r, out@),
{
    let cs = text::chars_of(out);
    let lines = split::lines_of(cs.as_slice());
    let ghost all = split::lines(out@);
    let mut at: usize = 0;
    assert(all.skip(0) =~= all);
    while at < lines.len() && text::trim_chars(lines[at]).len() == 0
        invariant
            at <= lines.len(),
            all == split::pieces(lines@),
            first_line(all) == first_line(all.skip(at as int)),
        decreases lines.len() - at,
    {
        assert(all.skip(at as int).drop_first() =~= all.skip(at + 1));
        assert(all[at as int] == lines@[at as int]@);
        at += 1;
    }
    if at == lines.len() {
        return None;
    }
    let line = lines[at];
    assert(all[at as int] == line@);
    assert(first_line(all) == Some(line@));
    let mut fields: Vec<&[char]> = Vec::new();
    let mut rest = text::trim_start_chars(line);
    let mut k: usize = 0;
    while k < 5
        invariant
            k <= 5,
            fields@.len() == k,
            rest@ == behind_words(line@, k as nat),
            forall|j: int| 0 <= j < k ==> #[trigger] fields@[j]@ == word_at(line@, j as nat),
        decreases 5 - k,
    {
        let end: usize = split::word_len(rest);
        let n: usize = rest.len();
        let head = slice_subrange(rest, 0, end);
        let tail = slice_subrange(rest, end, n);
        assert(head@ =~= split::word(rest@));
        assert(tail@ =~= rest@.skip(end as int));
        fields.push(head);
        rest = text::trim_start_chars(tail);
        k += 1;
    }
    let colon: Vec<char> = vec![':'];
    assert(colon@ =~= seq![':']);
    let year_ok = fields[4].len() > 0 && number::are_digits(fields[4], 10);
    if !year_ok || !text::contains_chars(fields[3], colon.as_slice()) {
        return None;
    }
    let cmdline = text::trim_end_chars(rest);
    let words = split::words_of(cmdline);
    let comm = if words.len() > 0 {
        assert(split::pieces(words@)[0] == words@[0]@);
        text::string_of(words[0])
    } else {
        assert(split::pieces(words@).len() == 0);
        "?".to_owned()
    };
    let gap = text::chars_of(" ");
    assert(split::pieces(fields@) =~= start_words(line@));
    let start = split::join_chars(&fields, gap.as_slice());
    Some(
        ProcIdentity {
            start_time: text::string_of(start.as_slice()),
            comm,
            cmdline: text::string_of(cmdline),
        },
    )
}

/// What reading an identity asks for next.
#[derive(Debug)]
pub enum IdentityStep {
    /// Run this command over the session's exec connection.
    Run(String),
    /// The process that holds the pid, if any.
    Found(Option<ProcIdentity>),
}

/// The command that prints the stat line, or that there is no /proc.
pub open spec fn stat_command(pid: nat) -> Seq<char> {
    "cat /proc/"@ + number::decimal(pid)
        + "/stat 2>/dev/null || test -d /proc/self || echo NOPROC"@
}

pub open spec fn ps_command(pid: nat) -> Seq<char> {
    "env LC_ALL=C ps -ww -o lstart= -o args= -p "@ + number::decimal(pid) + " 2>/dev/null"@
}

pub open spec fn cmdline_command(pid: nat) -> Seq<char> {
    "tr '\\0' ' ' < /proc/"@ + number::decimal(pid) + "/cmdline 2>/dev/null"@
}

/// The host answered that it has no /proc.
pub open spec fn without_proc(stat: Seq<char>) -> bool {
    text::trim(stat) == "NOPROC"@
}

/// What comes after what the commands so far printed.
pub open spec fn identity_step(step: IdentityStep, pid: nat, printed: Seq<Seq<char>>) -> bool {
    match step {
        IdentityStep::Run(c) => {
            ||| printed.len() == 0 && c@ == stat_command(pid)
            ||| printed.len() == 1 && without_proc(printed[0]) && c@ == ps_command(pid)
            ||| printed.len() == 1 && !without_proc(printed[0]) && c@ == cmdline_command(pid)
        },
        IdentityStep::Found(found) => {
            &&& printed.len() >= 2
            &&& if without_proc(printed[0]) {
                is_ps_identity(found, printed[1])
            } else {
                is_proc_identity(found, printed[0], printed[1])
            }
        },
    }
}

/// `before`, the number and `after`.
fn around_number(before: &str, n: u32, after: &str) -> (r: String)
    ensures
        r@ == before@ + number::decimal(n as nat) + after@,
{
    let digits = number::decimal_text(n as u64);
    let mut r = before.to_owned();
    r.append(digits.as_str());
    r.append(after);
    r
}

/// Read `pid`'s [`ProcIdentity`] over a session's exec connection, given what
/// the commands so far printed: plain reads of /proc — any shell runs them,
/// fish included — with nothing in them but the pid. A host without /proc
/// answers through `ps` instead.
pub fn read_proc_identity(pid: u32, printed: &[String]) -> (step: IdentityStep)
    ensures
        identity_step(step, pid as nat, split::texts(printed@)),
{
    if printed.len() == 0 {
        return IdentityStep::Run(
            around_number(
                "cat /proc/",
                pid,
                "/stat 2>/dev/null || test -d /proc/self || echo NOPROC",
            ),
        );
    }
    assert(split::texts(printed@)[0] == printed@[0]@);
    let first = text::trim_text(printed[0].as_str());
    let no_proc = text::same_text(first.as_str(), "NOPROC");
    if printed.len() == 1 {
        if no_proc {
            IdentityStep::Run(
                around_number(
                    "env LC_ALL=C ps -ww -o lstart= -o args= -p ",
                    pid,
                    " 2>/dev/null",
                ),
            )
        } else {
            IdentityStep::Run(around_number("tr '\\0' ' ' < /proc/", pid, "/cmdline 2>/dev/null"))
        }
    } else if no_proc {
        assert(split::texts(printed@)[1] == printed@[1]@);
        IdentityStep::Found(parse_ps_identity(printed[1].as_str()))
    } else {
        assert(split::texts(printed@)[1] == printed@[1]@);
        IdentityStep::Found(parse_proc_identity(printed[0].as_str(), printed[1].as_str()))
    }
}

/// Whether two reads of a pid found the same process: the same start time.
/// A process may rename itself or rewrite its command line (postgres
/// backends do, per query); only a new process gets a new start time.
pub fn same_process(confirmed: &ProcIdentity, now: &ProcIdentity) -> (r: bool)
    ensures
        r == (confirmed.start_time@ == now.start_time@),
{
    text::same_text(confirmed.start_time.as_str(), now.start_time.as_str())
}

/// What the kill confirmation shows for a process.
pub open spec fn kill_label(id: ProcIdentity) -> Seq<char> {
    let line = if text::trim(id.cmdline@).len() == 0 {
        seq!['['] + id.comm@ + seq![']']
    } else {
        id.cmdline@
    };
    display::truncated(display::text_shown(line), 600)
}

/// What the kill confirmation shows for a process: its command line as /proc
/// has it, with whatever would not show made visible, else "[comm]" — a
/// kernel thread has no command line — as `ps` shows it.
pub fn kill_command_label(identity: &ProcIdentity) -> (r: String)
    ensures
        r@ == kill_label(*identity),
{
    let blank = text::trim_text(identity.cmdline.as_str());
    let line = if blank.as_str().is_empty() {
        let mut s = text::string_of_char('[');
        s.append(identity.comm.as_str());
        s.push(']');
        assert(s@ =~= seq!['['] + identity.comm@ + seq![']']);
        s
    } else {
        identity.cmdline.clone()
    };
    display::truncate_str(display::visible_text(line.as_str()).as_str(), 600)
}

/// The name of a signal.
pub open spec fn signal_label(signal: int, texts: Catalog) -> Seq<char> {
    if signal == 1 {
        "SIGHUP"@
    } else if signal == 2 {
        "SIGINT"@
    } else if signal == 9 {
        "SIGKILL"@
    } else if signal == 15 {
        "SIGTERM"@
    } else {
        texts.says_with("process.signal_n"@, "n"@, number::signed(signal))
    }
}

pub fn signal_name(signal: i32, texts: &Catalog) -> (r: String)
    ensures
        r@ == signal_label(signal as int, *texts),
{
    if signal == 1 {
        "SIGHUP".to_owned()
    } else if signal == 2 {
        "SIGINT".to_owned()
    } else if signal == 9 {
        "SIGKILL".to_owned()
    } else if signal == 15 {
        "SIGTERM".to_owned()
    } else {
        let n = number::signed_text(signal as i64);
        texts.tf("process.signal_n", "n", n.as_str())
    }
}

// ---- the inspection command ----------------------------------------------------------------

/// The pieces of the inspection command; the pid goes between each two.
pub open spec fn inspection() -> Seq<Seq<char>> {
    seq![
        "echo '___STATUS___' && cat /proc/"@,
        "/status 2>/dev/null; echo '___CMDLINE___' && tr '\\0' ' ' < /proc/"@,
        "/cmdline 2>/dev/null; echo; echo '___IO___' && cat /proc/"@,
        "/io 2>/dev/null; echo '___CWD___' && readlink /proc/"@,
        "/cwd 2>/dev/null; echo '___EXE___' && readlink /proc/"@,
        "/exe 2>/dev/null; echo '___FD_COUNT___' && ls /proc/"@,
        "/fd 2>/dev/null | wc -l; echo '___PS___' && ps -p "@,
        " -o pid,ppid,user,nice,vsz,rss,etime,stat,args --no-headers 2>/dev/null; echo '___CHILDREN___' && ps --ppid "@,
        " -o pid,pcpu,pmem,comm --no-headers 2>/dev/null; echo '___THREADS___' && ls /proc/"@,
        "/task 2>/dev/null | head -50; echo '___NET___' && ss -tnp 2>/dev/null | grep 'pid="@,
        ",' | head -20; echo '___LISTEN___' && ss -tlnp 2>/dev/null | grep 'pid="@,
        ",' | head -10; echo '___LIMITS___' && cat /proc/"@,
        "/limits 2>/dev/null | grep -E 'open files|processes|memory' ; echo '___OOM___' && cat /proc/"@,
        "/oom_score 2>/dev/null; echo '___FDS___' && ls -la /proc/"@,
        "/fd 2>/dev/null | tail -15; "@,
    ]
}

/// The command whose output [`parse_process_detail`] reads.
pub fn inspect_command(pid: u32) -> (r: String)
    ensures
        r@ == split::join(inspection(), number::decimal(pid as nat)),
{
    let n = number::decimal_text(pid as u64);
    let mut parts: Vec<String> = Vec::new();
    parts.push("echo '___STATUS___' && cat /proc/".to_owned());
    parts.push("/status 2>/dev/null; echo '___CMDLINE___' && tr '\\0' ' ' < /proc/".to_owned());
    parts.push("/cmdline 2>/dev/null; echo; echo '___IO___' && cat /proc/".to_owned());
    parts.push("/io 2>/dev/null; echo '___CWD___' && readlink /proc/".to_owned());
    parts.push("/cwd 2>/dev/null; echo '___EXE___' && readlink /proc/".to_owned());
    parts.push("/exe 2>/dev/null; echo '___FD_COUNT___' && ls /proc/".to_owned());
    parts.push("/fd 2>/dev/null | wc -l; echo '___PS___' && ps -p ".to_owned());
    parts.push(
        " -o pid,ppid,user,nice,vsz,rss,etime,stat,args --no-headers 2>/dev/null; echo '___CHILDREN___' && ps --ppid ".to_owned(),
    );
    parts.push(
        " -o pid,pcpu,pmem,comm --no-headers 2>/dev/null; echo '___THREADS___' && ls /proc/".to_owned(),
    );
    parts.push(
        "/task 2>/dev/null | head -50; echo '___NET___' && ss -tnp 2>/dev/null | grep 'pid=".to_owned(),
    );
    parts.push(",' | head -20; echo '___LISTEN___' && ss -tlnp 2>/dev/null | grep 'pid=".to_owned());
    parts.push(",' | head -10; echo '___LIMITS___' && cat /proc/".to_owned());
    parts.push(
        "/limits 2>/dev/null | grep -E 'open files|processes|memory' ; echo '___OOM___' && cat /proc/".to_owned(),
    );
    parts.push("/oom_score 2>/dev/null; echo '___FDS___' && ls -la /proc/".to_owned());
    parts.push("/fd 2>/dev/null | tail -15; ".to_owned());
    assert(split::texts(parts@) =~= inspection());
    split::join_texts(&parts, n.as_str())
}

// ---- network interfaces ------------------------------------------------------------------

/// The text key for the kind of an interface, by its name.
pub open spec fn interface_key(name: Seq<char>) -> Seq<char> {
    if text::starts_with(name, "eth"@) || text::starts_with(name, "en"@) {
        "netdetail.ethernet"@
    } else if text::starts_with(name, "wl"@) {
        "netdetail.wireless"@
    } else if text::starts_with(name, "br-"@) || text::starts_with(name, "docker"@) {
        "netdetail.docker"@
    } else if text::starts_with(name, "veth"@) {
        "netdetail.veth"@
    } else if text::starts_with(name, "bond"@) {
        "netdetail.bond"@
    } else if text::starts_with(name, "tun"@) || text::starts_with(name, "tap"@) {
        "netdetail.vpn"@
    } else if text::starts_with(name, "lo"@) {
        "netdetail.loopback"@
    } else {
        "netdetail.other"@
    }
}

/// The labels of the network popup.
#[derive(Debug)]
pub struct NetLabels {
    pub title: String,
    pub close: String,
    pub interface: String,
    pub rx: String,
    pub tx: String,
    pub total: String,
    pub kind_label: String,
    pub kind: String,
}

pub fn net_detail_labels(iface_name: &str, texts: &Catalog) -> (r: NetLabels)
    ensures
        r.title@ == texts.says_with("netdetail.title"@, "name"@, iface_name@),
        r.close@ == texts.says("netdetail.close"@),
        r.interface@ == texts.says("netdetail.interface"@),
        r.rx@ == texts.says("netdetail.rx"@),
        r.tx@ == texts.says("netdetail.tx"@),
        r.total@ == texts.says("netdetail.total_traffic"@),
        r.kind_label@ == texts.says("netdetail.type"@),
        r.kind@ == texts.says(interface_key(iface_name@)),
{
    let key = if text::text_starts_with(iface_name, "eth") || text::text_starts_with(
        iface_name,
        "en",
    ) {
        "netdetail.ethernet"
    } else if text::text_starts_with(iface_name, "wl") {
        "netdetail.wireless"
    } else if text::text_starts_with(iface_name, "br-") || text::text_starts_with(
        iface_name,
        "docker",
    ) {
        "netdetail.docker"
    } else if text::text_starts_with(iface_name, "veth") {
        "netdetail.veth"
    } else if text::text_starts_with(iface_name, "bond") {
        "netdetail.bond"
    } else if text::text_starts_with(iface_name, "tun") || text::text_starts_with(
        iface_name,
        "tap",
    ) {
        "netdetail.vpn"
    } else if text::text_starts_with(iface_name, "lo") {
        "netdetail.loopback"
    } else {
        "netdetail.other"
    };
    NetLabels {
        title: texts.tf("netdetail.title", "name", iface_name),
        close: texts.t("netdetail.close"),
        interface: texts.t("netdetail.interface"),
        rx: texts.t("netdetail.rx"),
        tx: texts.t("netdetail.tx"),
        total: texts.t("netdetail.total_traffic"),
        kind_label: texts.t("netdetail.type"),
        kind: texts.t(key),
    }
}

} // verus!
