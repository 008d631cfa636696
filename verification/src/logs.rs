//! The log viewer.

use vstd::prelude::*;
use vstd::string::*;

use crate::catalog::Catalog;
use crate::number;
use crate::text;

verus! {

/// Most of the log, in bytes, that the viewer shows.
pub const LOG_VIEW_MAX: u128 = 204_800;

/// Bytes that a character takes in a file.
pub open spec fn char_bytes(c: char) -> nat {
    if (c as u32) < 0x80 {
        1
    } else if (c as u32) < 0x800 {
        2
    } else if (c as u32) < 0x10000 {
        3
    } else {
        4
    }
}

/// Bytes that a text takes in a file.
pub open spec fn bytes_of(s: Seq<char>) -> nat
    decreases s.len(),
{
    if s.len() == 0 {
        0
    } else {
        bytes_of(s.drop_last()) + char_bytes(s.last())
    }
}

proof fn lemma_bytes_bound(s: Seq<char>)
    ensures
        s.len() <= bytes_of(s) <= 4 * s.len(),
    decreases s.len(),
{
    if s.len() > 0 {
        lemma_bytes_bound(s.drop_last());
    }
}

fn count_char(c: char) -> (n: u128)
    ensures
        n == char_bytes(c),
{
    let v: u32 = c as u32;
    if v < 0x80 {
        1
    } else if v < 0x800 {
        2
    } else if v < 0x10000 {
        3
    } else {
        4
    }
}

/// Bytes in the first `n` of the characters.
fn count_bytes(cs: &[char], n: usize) -> (total: u128)
    requires
        n <= cs@.len(),
    ensures
        total == bytes_of(cs@.take(n as int)),
{
    let mut total: u128 = 0;
    let mut i: usize = 0;
    while i < n
        invariant
            i <= n <= cs@.len(),
            total == bytes_of(cs@.take(i as int)),
        decreases n - i,
    {
        proof {
            assert(cs@.take(i + 1).drop_last() =~= cs@.take(i as int));
            lemma_bytes_bound(cs@.take(i as int));
        }
        total = total + count_char(cs[i]);
        i += 1;
    }
    total
}

/// Bytes that a text takes in a file.
pub fn text_bytes(s: &str) -> (n: u128)
    ensures
        n == bytes_of(s@),
{
    let cs = text::chars_of(s);
    assert(cs@.take(cs@.len() as int) =~= cs@);
    count_bytes(cs.as_slice(), cs.len())
}

/// Where the shown end of the log begins: at the first character with no more
/// than [`LOG_VIEW_MAX`] bytes from it to the end.
pub open spec fn tail_start(s: Seq<char>, i: int) -> int
    decreases s.len() - i,
{
    if i >= s.len() || bytes_of(s) - bytes_of(s.take(i)) <= LOG_VIEW_MAX {
        i
    } else {
        tail_start(s, i + 1)
    }
}

/// The start of the line after `i`; `i` itself where no line ends any more.
pub open spec fn next_line(s: Seq<char>, i: int) -> int {
    match text::find_from(s, seq!['\n'], i) {
        Some(j) => j + 1,
        None => i,
    }
}

/// Where the log is shown from.
pub open spec fn shown_from(s: Seq<char>) -> int {
    next_line(s, tail_start(s, 0))
}

/// The log as the viewer shows it: all of it, or its end from the start of a
/// line, under a note of how much that is.
pub open spec fn log_shown(s: Seq<char>, texts: Catalog) -> Seq<char> {
    if bytes_of(s) > LOG_VIEW_MAX {
        let at = shown_from(s);
        texts.says_with(
            "log.truncated"@,
            "kb"@,
            number::decimal(((bytes_of(s) - bytes_of(s.take(at))) / 1024) as nat),
        ) + "\n"@ + s.skip(at)
    } else {
        s
    }
}

/// The log as the viewer shows it.
pub fn shown_log(content: String, texts: &Catalog) -> (r: String)
    ensures
        r@ == log_shown(content@, *texts),
{
    let cs = text::chars_of(content.as_str());
    let ghost s = content@;
    let total = count_bytes(cs.as_slice(), cs.len());
    assert(s.take(s.len() as int) =~= s);
    if total <= LOG_VIEW_MAX {
        return content;
    }
    let mut start: usize = 0;
    let mut before: u128 = 0;
    assert(bytes_of(s.take(0)) == 0);
    while start < cs.len() && total - before > LOG_VIEW_MAX
        invariant
            start <= cs.len(),
            cs@ == s,
            total == bytes_of(s),
            before == bytes_of(s.take(start as int)),
            before <= total,
            tail_start(s, 0) == tail_start(s, start as int),
        decreases cs.len() - start,
    {
        proof {
            assert(s.take(start + 1).drop_last() =~= s.take(start as int));
            lemma_prefix_bytes(s, start + 1);
            lemma_bytes_bound(s);
        }
        before = before + count_char(cs[start]);
        start += 1;
    }
    assert(tail_start(s, 0) == start);
    let at = line_after(cs.as_slice(), start);
    let kept = count_bytes(cs.as_slice(), at);
    proof {
        lemma_prefix_bytes(s, at as int);
        lemma_tail_fits(s, start as int, at as int);
    }
    let kb = (total - kept) / 1024;
    let mut out = texts.tf("log.truncated", "kb", number::decimal_text(kb as u64).as_str());
    out.append("\n");
    let rest = text::string_of(vstd::slice::slice_subrange(cs.as_slice(), at, cs.len()));
    out.append(rest.as_str());
    assert(s.subrange(at as int, s.len() as int) =~= s.skip(at as int));
    out
}

proof fn lemma_prefix_bytes(s: Seq<char>, i: int)
    requires
        0 <= i <= s.len(),
    ensures
        bytes_of(s.take(i)) <= bytes_of(s),
    decreases s.len(),
{
    if i < s.len() {
        lemma_prefix_bytes(s.drop_last(), i);
        assert(s.drop_last().take(i) =~= s.take(i));
    } else {
        assert(s.take(i) =~= s);
    }
}

/// What is shown from a later place is no more than from an earlier one.
proof fn lemma_tail_fits(s: Seq<char>, start: int, at: int)
    requires
        0 <= start <= at <= s.len(),
        start >= s.len() || bytes_of(s) - bytes_of(s.take(start)) <= LOG_VIEW_MAX,
    ensures
        bytes_of(s) - bytes_of(s.take(at)) <= LOG_VIEW_MAX,
{
    lemma_prefix_bytes(s.take(at), start);
    assert(s.take(at).take(start) =~= s.take(start));
    if start >= s.len() {
        assert(s.take(at) =~= s);
    }
}

fn line_after(cs: &[char], from: usize) -> (at: usize)
    requires
        from <= cs@.len(),
    ensures
        at == next_line(cs@, from as int),
        from <= at <= cs@.len(),
{
    let mut i: usize = from;
    while i < cs.len()
        invariant
            from <= i <= cs@.len(),
            text::find_from(cs@, seq!['\n'], from as int) == text::find_from(cs@, seq!['\n'], i as int),
        decreases cs.len() - i,
    {
        assert(cs@.subrange(i as int, i + 1) =~= seq![cs@[i as int]]);
        if cs[i] == '\n' {
            return i + 1;
        }
        assert(cs@.subrange(i as int, i + 1)[0] != seq!['\n'][0]);
        i += 1;
    }
    from
}

/// The shown end of a long log starts a line, unless none ends in it, and is
/// no longer than the limit.
pub proof fn law_the_shown_log_fits(s: Seq<char>)
    requires
        bytes_of(s) > LOG_VIEW_MAX,
    ensures
        0 <= shown_from(s) <= s.len(),
        bytes_of(s) - bytes_of(s.take(shown_from(s))) <= LOG_VIEW_MAX,
        shown_from(s) > 0,
{
    lemma_tail_start(s, 0);
    let t = tail_start(s, 0);
    lemma_next_line(s, t);
    lemma_tail_fits(s, t, shown_from(s));
    assert(bytes_of(s.take(0)) == 0);
}

proof fn lemma_tail_start(s: Seq<char>, i: int)
    requires
        0 <= i <= s.len(),
    ensures
        i <= tail_start(s, i) <= s.len(),
        tail_start(s, i) >= s.len() || bytes_of(s) - bytes_of(s.take(tail_start(s, i))) <= LOG_VIEW_MAX,
    decreases s.len() - i,
{
    if !(i >= s.len() || bytes_of(s) - bytes_of(s.take(i)) <= LOG_VIEW_MAX) {
        lemma_tail_start(s, i + 1);
    }
}

proof fn lemma_next_line(s: Seq<char>, i: int)
    requires
        0 <= i <= s.len(),
    ensures
        i <= next_line(s, i) <= s.len(),
    decreases s.len() - i,
{
    lemma_find_from(s, i);
}

proof fn lemma_find_from(s: Seq<char>, i: int)
    requires
        0 <= i,
    ensures
        text::find_from(s, seq!['\n'], i) matches Some(j) ==> i <= j < s.len(),
    decreases s.len() - i,
{
    if i + 1 <= s.len() && !text::occurs_at(s, seq!['\n'], i) {
        lemma_find_from(s, i + 1);
    }
}

} // verus!
