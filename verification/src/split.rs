//! Cutting text into pieces and putting pieces together.

use vstd::prelude::*;
use vstd::slice::slice_subrange;
use vstd::string::*;

use crate::text;

verus! {

/// The texts of a vector of slices.
pub open spec fn pieces(v: Seq<&[char]>) -> Seq<Seq<char>> {
    v.map_values(|p: &[char]| p@)
}

/// The texts of a vector of strings.
pub open spec fn texts(v: Seq<String>) -> Seq<Seq<char>> {
    v.map_values(|p: String| p@)
}

/// `s` cut at every occurrence of `pat`, from the left.
pub open spec fn split(s: Seq<char>, pat: Seq<char>) -> Seq<Seq<char>>
    decreases s.len(),
{
    match text::find(s, pat) {
        Some(i) => if 0 <= i && 0 < pat.len() && i + pat.len() <= s.len() {
            seq![s.take(i)] + split(s.skip(i + pat.len()), pat)
        } else {
            seq![s]
        },
        None => seq![s],
    }
}

/// One line of text without the carriage return its line feed followed.
pub open spec fn strip_cr(line: Seq<char>) -> Seq<char> {
    if line.len() > 0 && line.last() == '\r' {
        line.drop_last()
    } else {
        line
    }
}

/// The lines of `s`: each ended by a line feed, with or without a carriage
/// return before it; the last one may go without.
pub open spec fn lines(s: Seq<char>) -> Seq<Seq<char>>
    decreases s.len(),
{
    if s.len() == 0 {
        Seq::empty()
    } else {
        match text::find_char(s, '\n') {
            Some(i) => if 0 <= i < s.len() {
                seq![strip_cr(s.take(i))] + lines(s.skip(i + 1))
            } else {
                seq![s]
            },
            None => seq![s],
        }
    }
}

/// The characters up to the first whitespace.
pub open spec fn word(s: Seq<char>) -> Seq<char>
    decreases s.len(),
{
    if s.len() == 0 || text::is_white(s[0]) {
        Seq::empty()
    } else {
        seq![s[0]] + word(s.drop_first())
    }
}

/// The words of `s`: its runs of characters that are not whitespace.
pub open spec fn words(s: Seq<char>) -> Seq<Seq<char>>
    decreases s.len(),
{
    if s.len() == 0 {
        Seq::empty()
    } else if text::is_white(s[0]) {
        words(s.drop_first())
    } else {
        let w = word(s);
        if 0 < w.len() <= s.len() {
            seq![w] + words(s.skip(w.len() as int))
        } else {
            Seq::empty()
        }
    }
}

/// The pieces with `sep` between each two.
pub open spec fn join(parts: Seq<Seq<char>>, sep: Seq<char>) -> Seq<char>
    decreases parts.len(),
{
    if parts.len() == 0 {
        Seq::empty()
    } else if parts.len() == 1 {
        parts[0]
    } else {
        join(parts.drop_last(), sep) + sep + parts.last()
    }
}

/// `s` with every `pat` in it replaced by `by`.
pub open spec fn replace(s: Seq<char>, pat: Seq<char>, by: Seq<char>) -> Seq<char> {
    join(split(s, pat), by)
}

/// A join of one piece and more.
pub proof fn lemma_join_cons(a: Seq<char>, rest: Seq<Seq<char>>, sep: Seq<char>)
    requires
        rest.len() > 0,
    ensures
        join(seq![a] + rest, sep) == a + sep + join(rest, sep),
    decreases rest.len(),
{
    let all = seq![a] + rest;
    if rest.len() == 1 {
        assert(all.drop_last() =~= seq![a]);
        assert(join(all.drop_last(), sep) == a);
        assert(all.last() == rest[0]);
    } else {
        assert(all.drop_last() =~= seq![a] + rest.drop_last());
        lemma_join_cons(a, rest.drop_last(), sep);
        assert(join(all, sep) =~= a + sep + join(rest, sep));
    }
}

/// Lines joined by line feeds are read back, where none is empty, holds a line
/// feed or ends in a carriage return.
pub proof fn lemma_lines_of_join(parts: Seq<Seq<char>>)
    requires
        forall|i: int|
            0 <= i < parts.len() ==> (#[trigger] parts[i]).len() > 0 && !parts[i].contains('\n') && parts[i].last()
                != '\r',
    ensures
        lines(join(parts, seq!['\n'])) == parts,
    decreases parts.len(),
{
    let sep = seq!['\n'];
    if parts.len() == 0 {
    } else {
        let a = parts[0];
        let rest = parts.drop_first();
        assert(!a.contains('\n') && a.len() > 0);
        if rest.len() == 0 {
            assert(a + Seq::<char>::empty() =~= a);
            assert forall|j: int| 0 <= j < a.len() implies !#[trigger] text::occurs_at(
                a + Seq::<char>::empty(),
                sep,
                j,
            ) by {
                if text::occurs_at(a, sep, j) {
                    assert(a.subrange(j, j + 1)[0] == a[j]);
                }
            }
            text::lemma_find_behind(a, Seq::empty(), sep, 0);
            assert(lines(a) =~= parts);
        } else {
            assert forall|i: int| 0 <= i < rest.len() implies (#[trigger] rest[i]).len() > 0 && !rest[i].contains(
                '\n',
            ) && rest[i].last() != '\r' by {
                assert(rest[i] == parts[i + 1]);
            }
            lemma_lines_of_join(rest);
            assert(seq![a] + rest =~= parts);
            lemma_join_cons(a, rest, sep);
            let tail = join(rest, sep);
            let x = sep + tail;
            let s = join(parts, sep);
            assert(s =~= a + x);
            assert forall|j: int| 0 <= j < a.len() implies !#[trigger] text::occurs_at(a + x, sep, j) by {
                if text::occurs_at(a + x, sep, j) {
                    assert((a + x).subrange(j, j + 1)[0] == a[j]);
                }
            }
            text::lemma_find_behind(a, x, sep, 0);
            assert(x.subrange(0, 1) =~= sep);
            assert(text::find(x, sep) == Some(0int));
            assert(s.take(a.len() as int) =~= a);
            assert(s.skip(a.len() as int + 1) =~= tail);
            assert(lines(s) =~= seq![a] + lines(tail));
        }
    }
}

/// A word is a prefix that holds no whitespace and ends at some or at the end.
pub proof fn lemma_word(s: Seq<char>)
    ensures
        word(s).len() <= s.len(),
        word(s) == s.take(word(s).len() as int),
        forall|i: int| 0 <= i < word(s).len() ==> !text::is_white(#[trigger] s[i]),
        word(s).len() < s.len() ==> text::is_white(s[word(s).len() as int]),
    decreases s.len(),
{
    if s.len() == 0 || text::is_white(s[0]) {
        assert(word(s) =~= s.take(0));
    } else {
        let rest = s.drop_first();
        lemma_word(rest);
        let w = word(rest);
        assert(word(s) =~= s.take(w.len() as int + 1));
        assert forall|i: int| 0 <= i < word(s).len() implies !text::is_white(#[trigger] s[i]) by {
            if i > 0 {
                assert(rest[i - 1] == s[i]);
            }
        }
        if word(s).len() < s.len() {
            assert(rest[w.len() as int] == s[w.len() as int + 1]);
        }
    }
}

pub fn split_chars<'a>(s: &'a [char], pat: &[char]) -> (out: Vec<&'a [char]>)
    requires
        pat@.len() > 0,
    ensures
        pieces(out@) == split(s@, pat@),
        out@.len() > 0,
{
    let mut out: Vec<&'a [char]> = Vec::new();
    let mut rest: &'a [char] = s;
    loop
        invariant
            pat@.len() > 0,
            split(s@, pat@) =~= pieces(out@) + split(rest@, pat@),
        decreases rest@.len(),
    {
        match text::find_chars(rest, pat) {
            Some(i) => {
                let head = slice_subrange(rest, 0, i);
                let len: usize = rest.len();
                let tail = slice_subrange(rest, i + pat.len(), len);
                assert(head@ =~= rest@.take(i as int));
                assert(tail@ =~= rest@.skip(i + pat@.len()));
                let ghost before = out@;
                out.push(head);
                assert(pieces(out@) =~= pieces(before).push(head@));
                rest = tail;
            },
            None => {
                let ghost before = out@;
                out.push(rest);
                assert(pieces(out@) =~= pieces(before).push(rest@));
                return out;
            },
        }
    }
}

pub fn lines_of<'a>(s: &'a [char]) -> (out: Vec<&'a [char]>)
    ensures
        pieces(out@) == lines(s@),
{
    let mut out: Vec<&'a [char]> = Vec::new();
    let mut rest: &'a [char] = s;
    let feed: Vec<char> = vec!['\n'];
    while rest.len() > 0
        invariant
            feed@ =~= seq!['\n'],
            lines(s@) =~= pieces(out@) + lines(rest@),
        decreases rest@.len(),
    {
        let ghost before = out@;
        match text::find_chars(rest, feed.as_slice()) {
            Some(i) => {
                let head = slice_subrange(rest, 0, i);
                let tail = slice_subrange(rest, i + 1, rest.len());
                assert(head@ =~= rest@.take(i as int));
                assert(tail@ =~= rest@.skip(i + 1));
                let line = if head.len() > 0 && head[head.len() - 1] == '\r' {
                    slice_subrange(head, 0, head.len() - 1)
                } else {
                    head
                };
                assert(line@ =~= strip_cr(rest@.take(i as int)));
                out.push(line);
                assert(pieces(out@) =~= pieces(before).push(line@));
                rest = tail;
            },
            None => {
                out.push(rest);
                assert(pieces(out@) =~= pieces(before).push(rest@));
                let none = slice_subrange(rest, rest.len(), rest.len());
                assert(lines(none@) =~= Seq::<Seq<char>>::empty());
                rest = none;
            },
        }
    }
    assert(lines(rest@) =~= Seq::<Seq<char>>::empty());
    out
}

/// Where the word at the start of `s` ends.
pub fn word_len(s: &[char]) -> (n: usize)
    ensures
        n == word(s@).len(),
        word(s@) == s@.take(n as int),
        n <= s@.len(),
{
    proof {
        lemma_word(s@);
    }
    let mut n: usize = 0;
    while n < s.len() && !s[n].is_whitespace()
        invariant
            n <= s.len(),
            forall|i: int| 0 <= i < n ==> !text::is_white(#[trigger] s@[i]),
        decreases s.len() - n,
    {
        n += 1;
    }
    n
}

pub fn words_of<'a>(s: &'a [char]) -> (out: Vec<&'a [char]>)
    ensures
        pieces(out@) == words(s@),
{
    let mut out: Vec<&'a [char]> = Vec::new();
    let mut rest: &'a [char] = s;
    while rest.len() > 0
        invariant
            words(s@) =~= pieces(out@) + words(rest@),
        decreases rest@.len(),
    {
        if rest[0].is_whitespace() {
            let tail = slice_subrange(rest, 1, rest.len());
            assert(tail@ =~= rest@.drop_first());
            rest = tail;
        } else {
            let n: usize = word_len(rest);
            proof {
                lemma_word(rest@);
            }
            let head = slice_subrange(rest, 0, n);
            let tail = slice_subrange(rest, n, rest.len());
            assert(head@ =~= word(rest@));
            assert(tail@ =~= rest@.skip(n as int));
            let ghost before = out@;
            out.push(head);
            assert(pieces(out@) =~= pieces(before).push(head@));
            rest = tail;
        }
    }
    assert(words(rest@) =~= Seq::<Seq<char>>::empty());
    out
}

pub fn join_chars(parts: &Vec<&[char]>, sep: &[char]) -> (out: Vec<char>)
    ensures
        out@ == join(pieces(parts@), sep@),
{
    let mut out: Vec<char> = Vec::new();
    let mut i: usize = 0;
    while i < parts.len()
        invariant
            i <= parts.len(),
            out@ =~= join(pieces(parts@).take(i as int), sep@),
        decreases parts.len() - i,
    {
        if i > 0 {
            push_all(&mut out, sep);
        }
        push_all(&mut out, parts[i]);
        assert(pieces(parts@).take(i + 1).drop_last() =~= pieces(parts@).take(i as int));
        assert(pieces(parts@).take(i + 1).last() == parts@[i as int]@);
        i += 1;
    }
    assert(pieces(parts@).take(i as int) =~= pieces(parts@));
    out
}

/// `more` goes at the end of `out`.
pub fn push_all(out: &mut Vec<char>, more: &[char])
    ensures
        final(out)@ == old(out)@ + more@,
{
    let ghost before = out@;
    let mut i: usize = 0;
    while i < more.len()
        invariant
            i <= more.len(),
            out@ =~= before + more@.take(i as int),
        decreases more.len() - i,
    {
        out.push(more[i]);
        i += 1;
    }
    assert(more@.take(i as int) =~= more@);
}

/// The texts with `sep` between each two.
pub fn join_texts(parts: &Vec<String>, sep: &str) -> (out: String)
    ensures
        out@ == join(texts(parts@), sep@),
{
    let mut out = String::new();
    let mut i: usize = 0;
    while i < parts.len()
        invariant
            i <= parts.len(),
            out@ =~= join(texts(parts@).take(i as int), sep@),
        decreases parts.len() - i,
    {
        if i > 0 {
            out.append(sep);
        }
        out.append(parts[i].as_str());
        assert(texts(parts@).take(i + 1).drop_last() =~= texts(parts@).take(i as int));
        assert(texts(parts@).take(i + 1).last() == parts@[i as int]@);
        i += 1;
    }
    assert(texts(parts@).take(i as int) =~= texts(parts@));
    out
}

/// `s` with every `pat` in it replaced by `by`.
pub fn replace_text(s: &str, pat: &str, by: &str) -> (out: String)
    requires
        pat@.len() > 0,
    ensures
        out@ == replace(s@, pat@, by@),
{
    let cs = text::chars_of(s);
    let ps = text::chars_of(pat);
    let bs = text::chars_of(by);
    let parts = split_chars(cs.as_slice(), ps.as_slice());
    let joined = join_chars(&parts, bs.as_slice());
    text::string_of(joined.as_slice())
}

} // verus!
