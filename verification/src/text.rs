//! Text as sequences of characters: trimming, searching, splitting, numbers.

use vstd::prelude::*;
use vstd::slice::slice_subrange;
use vstd::string::*;

verus! {

// ---- character classes ------------------------------------------------------

/// The characters with the Unicode `White_Space` property.
pub open spec fn is_white(c: char) -> bool {
    ||| '\u{9}' <= c <= '\u{D}'
    ||| c == ' '
    ||| c == '\u{85}'
    ||| c == '\u{A0}'
    ||| c == '\u{1680}'
    ||| '\u{2000}' <= c <= '\u{200A}'
    ||| c == '\u{2028}'
    ||| c == '\u{2029}'
    ||| c == '\u{202F}'
    ||| c == '\u{205F}'
    ||| c == '\u{3000}'
}

/// The control characters: general category Cc.
pub open spec fn is_ctrl(c: char) -> bool {
    c <= '\u{1F}' || '\u{7F}' <= c <= '\u{9F}'
}

/// `char::is_whitespace`: exactly the characters with the Unicode
/// `White_Space` property, which `is_white` lists.
pub assume_specification[ char::is_whitespace ](c: char) -> (b: bool)
    ensures
        b == is_white(c),
;

/// `char::is_control`: exactly the characters of general category Cc, which
/// Unicode fixes as U+0000..U+001F and U+007F..U+009F.
pub assume_specification[ char::is_control ](c: char) -> (b: bool)
    ensures
        b == is_ctrl(c),
;

/// `String::push`: the character goes at the end.
pub assume_specification[ String::push ](s: &mut String, c: char)
    ensures
        final(s)@ == old(s)@.push(c),
;

/// `String::clear`: nothing is left.
pub assume_specification[ String::clear ](s: &mut String)
    ensures
        final(s)@ == Seq::<char>::empty(),
;

// ---- strings and character vectors -------------------------------------------

/// The characters of `s`.
pub fn chars_of(s: &str) -> (out: Vec<char>)
    ensures
        out@ == s@,
{
    let mut out: Vec<char> = Vec::new();
    for c in it: s.chars()
        invariant
            out@ =~= s@.take(it.index() as int),
            it.seq() == s@,
    {
        out.push(c);
    }
    out
}

/// The string holding the characters `cs`.
pub fn string_of(cs: &[char]) -> (out: String)
    ensures
        out@ == cs@,
{
    let mut out = String::new();
    let mut i: usize = 0;
    while i < cs.len()
        invariant
            i <= cs.len(),
            out@ =~= cs@.take(i as int),
        decreases cs.len() - i,
    {
        out.push(cs[i]);
        i += 1;
    }
    out
}

/// Whether the two texts are the same.
pub fn same_text(a: &str, b: &str) -> (same: bool)
    ensures
        same == (a@ == b@),
{
    let x = chars_of(a);
    let y = chars_of(b);
    same_chars(x.as_slice(), y.as_slice())
}

pub fn same_chars(a: &[char], b: &[char]) -> (same: bool)
    ensures
        same == (a@ == b@),
{
    if a.len() != b.len() {
        return false;
    }
    let mut i: usize = 0;
    while i < a.len()
        invariant
            i <= a.len(),
            a.len() == b.len(),
            a@.take(i as int) =~= b@.take(i as int),
        decreases a.len() - i,
    {
        if a[i] != b[i] {
            return false;
        }
        i += 1;
    }
    assert(a@ =~= a@.take(i as int));
    assert(b@ =~= b@.take(i as int));
    true
}

/// `a` and then `b`.
pub fn concat(a: &str, b: &str) -> (out: String)
    ensures
        out@ == a@ + b@,
{
    let mut out = String::new();
    out.append(a);
    out.append(b);
    assert(out@ =~= a@ + b@);
    out
}

/// The string of the one character `c`.
pub fn string_of_char(c: char) -> (out: String)
    ensures
        out@ == seq![c],
{
    let mut out = String::new();
    out.push(c);
    assert(out@ =~= seq![c]);
    out
}

// ---- trimming -----------------------------------------------------------------

/// `s` without the whitespace at its start.
pub open spec fn trim_start(s: Seq<char>) -> Seq<char>
    decreases s.len(),
{
    if s.len() > 0 && is_white(s[0]) {
        trim_start(s.drop_first())
    } else {
        s
    }
}

/// `s` without the whitespace at its end.
pub open spec fn trim_end(s: Seq<char>) -> Seq<char>
    decreases s.len(),
{
    if s.len() > 0 && is_white(s.last()) {
        trim_end(s.drop_last())
    } else {
        s
    }
}

/// `s` without the whitespace at either end.
pub open spec fn trim(s: Seq<char>) -> Seq<char> {
    trim_end(trim_start(s))
}

/// `s` without the characters `c` at its end.
pub open spec fn trim_end_char(s: Seq<char>, c: char) -> Seq<char>
    decreases s.len(),
{
    if s.len() > 0 && s.last() == c {
        trim_end_char(s.drop_last(), c)
    } else {
        s
    }
}

pub fn trim_start_chars(s: &[char]) -> (r: &[char])
    ensures
        r@ == trim_start(s@),
{
    let mut i: usize = 0;
    assert(s@.skip(0) =~= s@);
    while i < s.len() && s[i].is_whitespace()
        invariant
            i <= s.len(),
            trim_start(s@) == trim_start(s@.skip(i as int)),
        decreases s.len() - i,
    {
        assert(s@.skip(i as int).drop_first() =~= s@.skip(i + 1));
        i += 1;
    }
    let r = slice_subrange(s, i, s.len());
    assert(r@ =~= s@.skip(i as int));
    r
}

pub fn trim_end_chars(s: &[char]) -> (r: &[char])
    ensures
        r@ == trim_end(s@),
{
    let mut n: usize = s.len();
    assert(s@.take(n as int) =~= s@);
    while n > 0 && s[n - 1].is_whitespace()
        invariant
            n <= s.len(),
            trim_end(s@) == trim_end(s@.take(n as int)),
        decreases n,
    {
        assert(s@.take(n as int).drop_last() =~= s@.take(n - 1));
        n -= 1;
    }
    let r = slice_subrange(s, 0, n);
    assert(r@ =~= s@.take(n as int));
    r
}

pub fn trim_chars(s: &[char]) -> (r: &[char])
    ensures
        r@ == trim(s@),
{
    trim_end_chars(trim_start_chars(s))
}

pub fn trim_end_char_chars(s: &[char], c: char) -> (r: &[char])
    ensures
        r@ == trim_end_char(s@, c),
{
    let mut n: usize = s.len();
    assert(s@.take(n as int) =~= s@);
    while n > 0 && s[n - 1] == c
        invariant
            n <= s.len(),
            trim_end_char(s@, c) == trim_end_char(s@.take(n as int), c),
        decreases n,
    {
        assert(s@.take(n as int).drop_last() =~= s@.take(n - 1));
        n -= 1;
    }
    let r = slice_subrange(s, 0, n);
    assert(r@ =~= s@.take(n as int));
    r
}

/// `s` without the whitespace at either end, as a string.
pub fn trim_text(s: &str) -> (r: String)
    ensures
        r@ == trim(s@),
{
    let cs = chars_of(s);
    string_of(trim_chars(cs.as_slice()))
}

// ---- searching ----------------------------------------------------------------

/// `pat` stands in `s` from position `i` on.
pub open spec fn occurs_at(s: Seq<char>, pat: Seq<char>, i: int) -> bool {
    0 <= i && i + pat.len() <= s.len() && s.subrange(i, i + pat.len()) == pat
}

/// The first position from `i` on where `pat` stands in `s`.
pub open spec fn find_from(s: Seq<char>, pat: Seq<char>, i: int) -> Option<int>
    decreases s.len() + 1 - i,
{
    if i < 0 || i + pat.len() > s.len() {
        None
    } else if occurs_at(s, pat, i) {
        Some(i)
    } else {
        find_from(s, pat, i + 1)
    }
}

/// The first position where `pat` stands in `s`.
pub open spec fn find(s: Seq<char>, pat: Seq<char>) -> Option<int> {
    find_from(s, pat, 0)
}

/// The last position up to `i` where `pat` stands in `s`.
pub open spec fn rfind_upto(s: Seq<char>, pat: Seq<char>, i: int) -> Option<int>
    decreases i + 1,
{
    if i < 0 {
        None
    } else if occurs_at(s, pat, i) {
        Some(i)
    } else {
        rfind_upto(s, pat, i - 1)
    }
}

/// The last position where `pat` stands in `s`.
pub open spec fn rfind(s: Seq<char>, pat: Seq<char>) -> Option<int> {
    rfind_upto(s, pat, s.len() as int)
}

/// `pat` stands somewhere in `s`.
pub open spec fn contains(s: Seq<char>, pat: Seq<char>) -> bool {
    exists|i: int| occurs_at(s, pat, i)
}

pub open spec fn starts_with(s: Seq<char>, pat: Seq<char>) -> bool {
    occurs_at(s, pat, 0)
}

pub open spec fn ends_with(s: Seq<char>, pat: Seq<char>) -> bool {
    occurs_at(s, pat, s.len() - pat.len())
}

pub open spec fn find_char(s: Seq<char>, c: char) -> Option<int> {
    find(s, seq![c])
}

pub open spec fn rfind_char(s: Seq<char>, c: char) -> Option<int> {
    rfind(s, seq![c])
}

/// What `find` finds: an occurrence with none before it.
pub proof fn lemma_find(s: Seq<char>, pat: Seq<char>, i: int)
    requires
        0 <= i,
    ensures
        match find_from(s, pat, i) {
            Some(k) => i <= k && occurs_at(s, pat, k) && forall|j: int|
                i <= j < k ==> !occurs_at(s, pat, j),
            None => forall|j: int| i <= j ==> !occurs_at(s, pat, j),
        },
    decreases s.len() + 1 - i,
{
    if i + pat.len() <= s.len() && !occurs_at(s, pat, i) {
        lemma_find(s, pat, i + 1);
    }
}

/// What `rfind` finds: an occurrence with none after it.
pub proof fn lemma_rfind(s: Seq<char>, pat: Seq<char>, i: int)
    ensures
        match rfind_upto(s, pat, i) {
            Some(k) => 0 <= k <= i && occurs_at(s, pat, k) && forall|j: int|
                k < j <= i ==> !occurs_at(s, pat, j),
            None => forall|j: int| j <= i ==> !occurs_at(s, pat, j),
        },
    decreases i + 1,
{
    if i >= 0 && !occurs_at(s, pat, i) {
        lemma_rfind(s, pat, i - 1);
    }
}

/// Where no `pat` starts inside `p`, the first one in `p + x` is the first one in
/// `x`.
pub proof fn lemma_find_behind(p: Seq<char>, x: Seq<char>, pat: Seq<char>, i: int)
    requires
        pat.len() > 0,
        forall|j: int| 0 <= j < p.len() ==> !#[trigger] occurs_at(p + x, pat, j),
        0 <= i <= p.len(),
    ensures
        find_from(p + x, pat, i) == (match find(x, pat) {
            Some(k) => Some(p.len() + k),
            None => None::<int>,
        }),
    decreases p.len() - i,
{
    let s = p + x;
    if i < p.len() {
        lemma_find_behind(p, x, pat, i + 1);
        assert(!occurs_at(s, pat, i));
        if i + pat.len() > s.len() {
            assert(find_from(s, pat, i + 1) is None);
        }
    } else {
        lemma_find_shift(p, x, pat, 0);
    }
}

/// Searching behind `p` is searching what stands behind it.
proof fn lemma_find_shift(p: Seq<char>, x: Seq<char>, pat: Seq<char>, i: int)
    requires
        pat.len() > 0,
        0 <= i,
    ensures
        find_from(p + x, pat, p.len() + i) == (match find_from(x, pat, i) {
            Some(k) => Some(p.len() + k),
            None => None::<int>,
        }),
    decreases x.len() + 1 - i,
{
    let s = p + x;
    if i + pat.len() <= x.len() {
        assert(s.subrange(p.len() + i, p.len() + i + pat.len()) =~= x.subrange(i, i + pat.len()));
        if !occurs_at(x, pat, i) {
            lemma_find_shift(p, x, pat, i + 1);
        }
    }
}

/// A text contains `pat` exactly when `find` finds it.
pub proof fn lemma_contains_is_find(s: Seq<char>, pat: Seq<char>)
    ensures
        contains(s, pat) <==> find(s, pat) is Some,
{
    lemma_find(s, pat, 0);
}

pub fn occurs_at_chars(s: &[char], pat: &[char], i: usize) -> (b: bool)
    ensures
        b == occurs_at(s@, pat@, i as int),
{
    if pat.len() > s.len() || i > s.len() - pat.len() {
        return false;
    }
    let part = slice_subrange(s, i, i + pat.len());
    same_chars(part, pat)
}

pub fn find_chars(s: &[char], pat: &[char]) -> (r: Option<usize>)
    ensures
        match r {
            Some(i) => find(s@, pat@) == Some(i as int) && i + pat@.len() <= s@.len(),
            None => find(s@, pat@) is None,
        },
{
    let mut i: usize = 0;
    while i <= s.len() && pat.len() <= s.len() - i
        invariant
            i <= s.len() + 1,
            s.len() < usize::MAX || i <= s.len(),
            find(s@, pat@) == find_from(s@, pat@, i as int),
        decreases s.len() + 1 - i,
    {
        if occurs_at_chars(s, pat, i) {
            return Some(i);
        }
        if i == s.len() {
            assert(find_from(s@, pat@, i + 1) is None);
            return None;
        }
        i += 1;
    }
    None
}

pub fn rfind_chars(s: &[char], pat: &[char]) -> (r: Option<usize>)
    ensures
        match r {
            Some(i) => rfind(s@, pat@) == Some(i as int) && i + pat@.len() <= s@.len(),
            None => rfind(s@, pat@) is None,
        },
{
    let mut i: usize = s.len();
    loop
        invariant
            i <= s.len(),
            rfind(s@, pat@) == rfind_upto(s@, pat@, i as int),
        decreases i,
    {
        if occurs_at_chars(s, pat, i) {
            return Some(i);
        }
        if i == 0 {
            assert(rfind_upto(s@, pat@, -1) is None);
            return None;
        }
        i -= 1;
    }
}

pub fn contains_chars(s: &[char], pat: &[char]) -> (b: bool)
    ensures
        b == contains(s@, pat@),
{
    proof {
        lemma_contains_is_find(s@, pat@);
    }
    find_chars(s, pat).is_some()
}

pub fn starts_with_chars(s: &[char], pat: &[char]) -> (b: bool)
    ensures
        b == starts_with(s@, pat@),
{
    occurs_at_chars(s, pat, 0)
}

pub fn ends_with_chars(s: &[char], pat: &[char]) -> (b: bool)
    ensures
        b == ends_with(s@, pat@),
{
    if pat.len() > s.len() {
        return false;
    }
    occurs_at_chars(s, pat, s.len() - pat.len())
}

/// Whether the text starts with `pat`.
pub fn text_starts_with(s: &str, pat: &str) -> (b: bool)
    ensures
        b == starts_with(s@, pat@),
{
    let cs = chars_of(s);
    let ps = chars_of(pat);
    starts_with_chars(cs.as_slice(), ps.as_slice())
}

/// Whether the text ends with `pat`.
pub fn text_ends_with(s: &str, pat: &str) -> (b: bool)
    ensures
        b == ends_with(s@, pat@),
{
    let cs = chars_of(s);
    let ps = chars_of(pat);
    ends_with_chars(cs.as_slice(), ps.as_slice())
}

/// Whether `pat` stands somewhere in the text.
pub fn text_contains(s: &str, pat: &str) -> (b: bool)
    ensures
        b == contains(s@, pat@),
{
    let cs = chars_of(s);
    let ps = chars_of(pat);
    contains_chars(cs.as_slice(), ps.as_slice())
}

} // verus!
