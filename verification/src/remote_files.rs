//! Remote files: names, paths, permissions, listings, the progress bar.

use vstd::prelude::*;
use vstd::slice::slice_subrange;
use vstd::string::*;

use crate::catalog::Catalog;
use crate::names::NameMap;
use crate::number;
use crate::text;

verus! {

// ---- ZMODEM -----------------------------------------------------------------------------

/// `pat` stands in `data` from `i` on, with `len` bytes of room there.
pub open spec fn stands_at(data: Seq<u8>, pat: Seq<u8>, len: int, i: int) -> bool {
    0 <= i && i + len <= data.len() && pat.len() <= len && data.subrange(i, i + pat.len()) == pat
}

/// `pat` stands somewhere in `data`, with `len` bytes of room there.
pub open spec fn stands_in(data: Seq<u8>, pat: Seq<u8>, len: int) -> bool {
    exists|i: int| stands_at(data, pat, len, i)
}

/// `**`, CAN, `B0`: the header that `rz` sends.
pub open spec fn rz_header() -> Seq<u8> {
    seq![0x2au8, 0x2au8, 0x18u8, 0x42u8, 0x30u8]
}

/// `**B0`: the same with the CAN lost on the way.
pub open spec fn rz_header_stripped() -> Seq<u8> {
    seq![0x2au8, 0x2au8, 0x42u8, 0x30u8]
}

/// `rz waiting to receive`
pub open spec fn rz_greeting() -> Seq<u8> {
    seq![
        0x72u8, 0x7au8, 0x20u8, 0x77u8, 0x61u8, 0x69u8, 0x74u8, 0x69u8, 0x6eu8, 0x67u8, 0x20u8,
        0x74u8, 0x6fu8, 0x20u8, 0x72u8, 0x65u8, 0x63u8, 0x65u8, 0x69u8, 0x76u8, 0x65u8,
    ]
}

fn has_pattern(data: &[u8], pat: &[u8], len: usize) -> (r: bool)
    requires
        0 < len,
        pat@.len() <= len,
    ensures
        r == stands_in(data@, pat@, len as int),
{
    let n: usize = data.len();
    if n < len {
        return false;
    }
    let mut i: usize = 0;
    while i <= n - len
        invariant
            n == data@.len(),
            len <= n,
            0 < len,
            pat@.len() <= len,
            i <= n - len + 1,
            forall|j: int| 0 <= j < i ==> !stands_at(data@, pat@, len as int, j),
        decreases n - len + 1 - i,
    {
        let part = slice_subrange(data, i, i + pat.len());
        let mut k: usize = 0;
        let mut same = true;
        assert(part@.take(0) =~= pat@.take(0));
        while k < pat.len()
            invariant
                k <= pat@.len(),
                part@.len() == pat@.len(),
                same == (part@.take(k as int) == pat@.take(k as int)),
            decreases pat.len() - k,
        {
            proof {
                assert(part@.take(k + 1) =~= part@.take(k as int).push(part@[k as int]));
                assert(pat@.take(k + 1) =~= pat@.take(k as int).push(pat@[k as int]));
                if part@.take(k + 1) == pat@.take(k + 1) {
                    assert(part@.take(k as int) =~= part@.take(k + 1).take(k as int));
                    assert(pat@.take(k as int) =~= pat@.take(k + 1).take(k as int));
                    assert(part@[k as int] == part@.take(k + 1)[k as int]);
                    assert(pat@[k as int] == pat@.take(k + 1)[k as int]);
                }
            }
            if part[k] != pat[k] {
                same = false;
            }
            k += 1;
        }
        proof {
            assert(part@.take(k as int) =~= part@);
            assert(pat@.take(k as int) =~= pat@);
        }
        if same {
            assert(stands_at(data@, pat@, len as int, i as int));
            return true;
        }
        i += 1;
    }
    false
}

/// Detect ZMODEM from `rz` command: its header with a byte behind it, the
/// header without its CAN, or the greeting with a byte behind it.
pub fn detect_zmodem_rz(data: &[u8]) -> (r: bool)
    ensures
        r == (stands_in(data@, rz_header(), 6) || stands_in(data@, rz_header_stripped(), 4)
            || stands_in(data@, rz_greeting(), 22)),
{
    let header: Vec<u8> = vec![0x2au8, 0x2au8, 0x18u8, 0x42u8, 0x30u8];
    let stripped: Vec<u8> = vec![0x2au8, 0x2au8, 0x42u8, 0x30u8];
    let greeting: Vec<u8> = vec![
        0x72u8, 0x7au8, 0x20u8, 0x77u8, 0x61u8, 0x69u8, 0x74u8, 0x69u8, 0x6eu8, 0x67u8, 0x20u8,
        0x74u8, 0x6fu8, 0x20u8, 0x72u8, 0x65u8, 0x63u8, 0x65u8, 0x69u8, 0x76u8, 0x65u8,
    ];
    assert(header@ =~= rz_header());
    assert(stripped@ =~= rz_header_stripped());
    assert(greeting@ =~= rz_greeting());
    has_pattern(data, header.as_slice(), 6) || has_pattern(data, stripped.as_slice(), 4)
        || has_pattern(data, greeting.as_slice(), 22)
}

// ---- paths ------------------------------------------------------------------------------

/// Where the components of a path start: behind its root, or behind the dot
/// that it starts with.
pub open spec fn body_start(s: Seq<char>) -> int {
    if s.len() > 0 && s[0] == '/' {
        1
    } else if s.len() > 0 && s[0] == '.' && (s.len() == 1 || s[1] == '/') {
        1
    } else {
        0
    }
}

/// The last slash from `f` on.
pub open spec fn last_slash(s: Seq<char>, f: int, i: int) -> Option<int>
    decreases i - f,
{
    if i <= f || i > s.len() {
        None
    } else if s[i - 1] == '/' {
        Some(i - 1)
    } else {
        last_slash(s, f, i - 1)
    }
}

/// Where the last component of `s` starts.
pub open spec fn component_start(s: Seq<char>, f: int) -> int {
    match last_slash(s, f, s.len() as int) {
        Some(i) => i + 1,
        None => f,
    }
}

/// Where `s` ends without its last component and the slash before it.
pub open spec fn cut_at(s: Seq<char>, f: int) -> int {
    match last_slash(s, f, s.len() as int) {
        Some(i) => i,
        None => f,
    }
}

proof fn lemma_last_slash(s: Seq<char>, f: int, i: int)
    requires
        0 <= f,
        i <= s.len(),
    ensures
        match last_slash(s, f, i) {
            Some(k) => f <= k < i && s[k] == '/' && forall|j: int| k < j < i ==> s[j] != '/',
            None => forall|j: int| f <= j < i ==> s[j] != '/',
        },
    decreases i - f,
{
    if i > f && s[i - 1] != '/' {
        lemma_last_slash(s, f, i - 1);
    }
}

/// `s` without the empty components and the dots at its end.
pub open spec fn settled(s: Seq<char>, f: int) -> Seq<char>
    decreases s.len(),
{
    let last = s.skip(component_start(s, f));
    if s.len() > f && 0 <= f && (last.len() == 0 || last == seq!['.']) && 0 <= cut_at(s, f) < s.len() {
        settled(s.take(cut_at(s, f)), f)
    } else {
        s
    }
}

/// The last component of a path, as a file system reads it: none for a root,
/// a dot or two dots.
pub open spec fn file_name(s: Seq<char>) -> Option<Seq<char>> {
    let f = body_start(s);
    let t = settled(s, f);
    let last = t.skip(component_start(t, f));
    if t.len() <= f || last == seq!['.', '.'] {
        None
    } else {
        Some(last)
    }
}

/// The directory that a path lies in; none for a root and for nothing.
pub open spec fn parent(s: Seq<char>) -> Option<Seq<char>> {
    let f = body_start(s);
    let t = settled(s, f);
    if t.len() > f {
        Some(settled(t.take(cut_at(t, f)), f))
    } else if s.len() > 0 && s[0] == '.' {
        Some(Seq::empty())
    } else {
        None
    }
}

fn body_start_of(s: &[char]) -> (f: usize)
    ensures
        f == body_start(s@),
        f <= s@.len(),
{
    if s.len() > 0 && s[0] == '/' {
        1
    } else if s.len() > 0 && s[0] == '.' && (s.len() == 1 || s[1] == '/') {
        1
    } else {
        0
    }
}

/// Where the last component starts, and where the path ends without it.
fn component_of(s: &[char], f: usize) -> (r: (usize, usize))
    requires
        f <= s@.len(),
    ensures
        r.0 == component_start(s@, f as int),
        r.1 == cut_at(s@, f as int),
        f <= r.1 <= r.0 <= s@.len(),
{
    let mut i: usize = s.len();
    while i > f && s[i - 1] != '/'
        invariant
            f <= i <= s.len(),
            last_slash(s@, f as int, s@.len() as int) == last_slash(s@, f as int, i as int),
        decreases i,
    {
        i -= 1;
    }
    if i > f {
        (i, i - 1)
    } else {
        (f, f)
    }
}

fn settle(s: &[char], f: usize) -> (r: &[char])
    requires
        f <= s@.len(),
    ensures
        r@ == settled(s@, f as int),
        f <= r@.len(),
{
    let mut r = s;
    loop
        invariant
            f <= r@.len(),
            settled(s@, f as int) == settled(r@, f as int),
        decreases r@.len(),
    {
        let (start, cut) = component_of(r, f);
        let n: usize = r.len();
        let last = slice_subrange(r, start, n);
        proof {
            lemma_last_slash(r@, f as int, r@.len() as int);
            assert(last@ =~= r@.skip(start as int));
        }
        let dot = last.len() == 1 && last[0] == '.';
        assert(dot == (last@ == seq!['.'])) by {
            if dot {
                assert(last@ =~= seq!['.']);
            }
        }
        if n > f && (last.len() == 0 || dot) {
            let shorter = slice_subrange(r, 0, cut);
            assert(shorter@ =~= r@.take(cut as int));
            r = shorter;
        } else {
            return r;
        }
    }
}

/// A name that can be a file's on every platform: one component, none of the
/// special ones, and no separator or control character in it.
pub open spec fn is_safe_name(s: Seq<char>) -> bool {
    &&& s.len() > 0
    &&& s != seq!['.']
    &&& s != seq!['.', '.']
    &&& forall|i: int| 0 <= i < s.len() ==> s[i] != '/' && s[i] != '\\' && !text::is_ctrl(#[trigger] s[i])
}

fn name_is_safe(s: &[char]) -> (r: bool)
    ensures
        r == is_safe_name(s@),
{
    if s.len() == 0 {
        return false;
    }
    if s.len() == 1 && s[0] == '.' {
        assert(s@ =~= seq!['.']);
        return false;
    }
    if s.len() == 2 && s[0] == '.' && s[1] == '.' {
        assert(s@ =~= seq!['.', '.']);
        return false;
    }
    assert(s@ != seq!['.']) by {
        if s@ == seq!['.'] {
            assert(s@[0] == '.');
        }
    }
    assert(s@ != seq!['.', '.']) by {
        if s@ == seq!['.', '.'] {
            assert(s@[0] == '.' && s@[1] == '.');
        }
    }
    let mut i: usize = 0;
    while i < s.len()
        invariant
            i <= s.len(),
            forall|j: int| 0 <= j < i ==> s@[j] != '/' && s@[j] != '\\' && !text::is_ctrl(#[trigger] s@[j]),
        decreases s.len() - i,
    {
        if s[i] == '/' || s[i] == '\\' || s[i].is_control() {
            assert(!(s@[i as int] != '/' && s@[i as int] != '\\' && !text::is_ctrl(s@[i as int])));
            return false;
        }
        i += 1;
    }
    true
}

/// Reduce a remote-supplied name to a single, safe local file name.
///
/// `sz` filenames are scraped out of terminal output, i.e. out of bytes the
/// REMOTE host controls. Joined to a directory as it stands, a name with `..`
/// in it, or an absolute one, would write anywhere the user can write.
/// Returns None when the name cannot be reduced to something safe — the
/// caller must then refuse.
pub fn safe_local_basename(name: &str) -> (r: Option<String>)
    ensures
        match r {
            Some(base) => file_name(name@) == Some(base@) && is_safe_name(base@),
            None => file_name(name@) matches Some(base) ==> !is_safe_name(base),
        },
{
    let cs = text::chars_of(name);
    let f: usize = body_start_of(cs.as_slice());
    let t = settle(cs.as_slice(), f);
    if t.len() <= f {
        return None;
    }
    let (start, _cut) = component_of(t, f);
    let n: usize = t.len();
    let last = slice_subrange(t, start, n);
    assert(last@ =~= t@.skip(start as int));
    if name_is_safe(last) {
        Some(text::string_of(last))
    } else {
        None
    }
}

/// A name that was reduced to a safe one names something in the directory it
/// is joined to: it holds no separator, and leads nowhere else.
pub proof fn law_safe_names_stay_in_their_directory(base: Seq<char>)
    requires
        is_safe_name(base),
    ensures
        !base.contains('/'),
        !base.contains('\\'),
        !base.contains('\0'),
        base != ".."@,
        base != "."@,
{
    reveal_strlit("..");
    reveal_strlit(".");
    assert(".."@ =~= seq!['.', '.']);
    assert("."@ =~= seq!['.']);
    assert forall|c: char| base.contains(c) implies c != '/' && c != '\\' && c != '\0' by {
        let i = choose|i: int| 0 <= i < base.len() && base[i] == c;
        assert(!text::is_ctrl(base[i]));
    }
}

/// Where the ".." row leads from the remote directory `dir`.
pub open spec fn leads_up(dir: Seq<char>) -> Seq<char> {
    match parent(dir) {
        Some(p) => p,
        None => "/"@,
    }
}

/// Where the ".." row leads from the remote directory `dir`.
pub fn remote_parent(dir: &str) -> (r: String)
    ensures
        r@ == leads_up(dir@),
{
    let cs = text::chars_of(dir);
    let f: usize = body_start_of(cs.as_slice());
    let t = settle(cs.as_slice(), f);
    if t.len() > f {
        let (_start, cut) = component_of(t, f);
        let up = slice_subrange(t, 0, cut);
        assert(up@ =~= t@.take(cut as int));
        text::string_of(settle(up, f))
    } else if cs.len() > 0 && cs[0] == '.' {
        String::new()
    } else {
        "/".to_owned()
    }
}

/// `dir/name` for a remote POSIX path, without doubling the root's slash.
pub open spec fn joined(dir: Seq<char>, name: Seq<char>) -> Seq<char> {
    text::trim_end_char(dir, '/') + seq!['/'] + name
}

/// `dir/name` for a remote POSIX path, without doubling the root's slash.
pub fn join_remote_path(dir: &str, name: &str) -> (r: String)
    ensures
        r@ == joined(dir@, name@),
{
    let cs = text::chars_of(dir);
    let mut r = text::string_of(text::trim_end_char_chars(cs.as_slice(), '/'));
    r.push('/');
    r.append(name);
    assert(r@ =~= joined(dir@, name@));
    r
}

/// A name of one component that is neither the directory itself nor the one above it.
pub open spec fn is_component(name: Seq<char>) -> bool {
    &&& name.len() > 0
    &&& !name.contains('/')
    &&& name != seq!['.']
    &&& name != seq!['.', '.']
}

/// A directory spelled out from the root, with neither a slash nor a dot behind its
/// last name; the root itself is not one.
pub open spec fn is_plain_dir(dir: Seq<char>) -> bool {
    &&& dir.len() > 1
    &&& dir[0] == '/'
    &&& dir.last() != '/'
    &&& !(dir.last() == '.' && dir[dir.len() - 2] == '/')
}

/// A name joined to a directory stands behind it and a slash; going up from there
/// leads back to the directory, and what lies there is called by the name. At the
/// root the slash is not doubled.
pub proof fn law_joining_and_going_up(dir: Seq<char>, name: Seq<char>)
    requires
        is_component(name),
        is_plain_dir(dir) || dir == seq!['/'],
    ensures
        is_plain_dir(dir) ==> joined(dir, name) == dir + seq!['/'] + name,
        dir == seq!['/'] ==> joined(dir, name) == dir + name,
        leads_up(joined(dir, name)) == dir,
        file_name(joined(dir, name)) == Some(name),
        parent(joined(dir, name)) == Some(dir),
{
    let s = joined(dir, name);
    if dir == seq!['/'] {
        assert(dir.drop_last() =~= Seq::<char>::empty());
        assert(text::trim_end_char(dir.drop_last(), '/') =~= Seq::<char>::empty());
        assert(s =~= dir + name);
    }
    let n = s.len() - name.len();
    lemma_last_slash(s, 1, s.len() as int);
    assert forall|j: int| n <= j < s.len() implies s[j] != '/' by {
        assert(name[j - n] == s[j]);
        assert(name.contains(name[j - n]));
    }
    assert(s[n - 1] == '/');
    assert(component_start(s, 1) == n);
    assert(s.skip(n) =~= name);
    assert(settled(s, 1) == s);
    if dir == seq!['/'] {
        assert(s.take(cut_at(s, 1)) =~= dir);
        assert(settled(dir, 1) == dir);
    } else {
        assert(cut_at(s, 1) == dir.len());
        assert(s.take(dir.len() as int) =~= dir);
        lemma_last_slash(dir, 1, dir.len() as int);
        let start = component_start(dir, 1);
        let last = dir.skip(start);
        assert(last.len() > 0);
        if last == seq!['.'] {
            assert(last[0] == dir[start]);
            assert(start == dir.len() - 1);
        }
        assert(settled(dir, 1) == dir);
    }
}

/// Nothing lies above the root.
pub proof fn law_nothing_lies_above_the_root()
    ensures
        leads_up(seq!['/']) == seq!['/'],
        parent(seq!['/']) is None,
{
    reveal_strlit("/");
    assert(settled(seq!['/'], 1) == seq!['/']);
    assert(leads_up(seq!['/']) =~= seq!['/']);
}

// ---- names the user types ------------------------------------------------------------------

/// A single path component with something to see in it.
pub open spec fn is_remote_name(s: Seq<char>) -> bool {
    &&& text::trim(s).len() > 0
    &&& s != "."@
    &&& s != ".."@
    &&& forall|i: int| 0 <= i < s.len() ==> s[i] != '/' && !text::is_ctrl(#[trigger] s[i])
}

/// A file or folder name exactly as the user typed it; `None` unless it is a
/// single path component. The server would resolve `a/b` or `..` somewhere
/// other than the folder on screen, so those are refused, not guessed at.
/// Not trimmed: the rename dialog opens on the name exactly, and "report "
/// submitted as it stands is that file's own name, not "report". A name of
/// nothing but spaces is refused.
pub fn valid_remote_name(input: &str) -> (r: Option<String>)
    ensures
        r is Some <==> is_remote_name(input@),
        r matches Some(name) ==> name@ == input@,
{
    let cs = text::chars_of(input);
    if text::trim_chars(cs.as_slice()).len() == 0 || text::same_text(input, ".") || text::same_text(
        input,
        "..",
    ) {
        return None;
    }
    let mut i: usize = 0;
    while i < cs.len()
        invariant
            i <= cs.len(),
            cs@ == input@,
            forall|j: int| 0 <= j < i ==> cs@[j] != '/' && !text::is_ctrl(#[trigger] cs@[j]),
        decreases cs.len() - i,
    {
        if cs[i] == '/' || cs[i].is_control() {
            assert(!(cs@[i as int] != '/' && !text::is_ctrl(cs@[i as int])));
            return None;
        }
        i += 1;
    }
    Some(input.to_owned())
}

/// What the rename dialog's `value` asks of the row called `from`:
/// `Ok(None)` when the name is unchanged — a no-op, whatever the name holds —
/// `Ok(Some(name))` for a new name, `Err(())` for one that is not valid.
pub fn rename_target(from: &str, value: &str) -> (r: Result<Option<String>, ()>)
    ensures
        r matches Ok(None) <==> value@ == from@,
        r is Err <==> value@ != from@ && !is_remote_name(value@),
        r matches Ok(Some(name)) ==> name@ == value@,
{
    if text::same_text(value, from) {
        return Ok(None);
    }
    match valid_remote_name(value) {
        Some(name) => Ok(Some(name)),
        None => Err(()),
    }
}

// ---- permissions -----------------------------------------------------------------------------

/// The bits that the user typed, if they did: one to four octal digits.
pub open spec fn octal_mode(s: Seq<char>) -> Option<nat> {
    let t = text::trim(s);
    if 1 <= t.len() <= 4 && number::all_digits(t, 8) {
        Some(number::value(t, 8))
    } else {
        None
    }
}

/// Permission bits the user typed ("755", "0644", "4755"); `None` for
/// anything but one to four octal digits.
pub fn parse_octal_mode(input: &str) -> (r: Option<u32>)
    ensures
        match r {
            Some(m) => octal_mode(input@) == Some(m as nat) && m <= 0o7777,
            None => octal_mode(input@) is None,
        },
{
    let cs = text::chars_of(input);
    let t = text::trim_chars(cs.as_slice());
    if t.len() == 0 || t.len() > 4 || !number::are_digits(t, 8) {
        return None;
    }
    proof {
        lemma_four_octal_digits(t@);
    }
    match number::read_digits(t, 8, 4095) {
        Some(m) => Some(m as u32),
        None => None,
    }
}

proof fn lemma_four_octal_digits(s: Seq<char>)
    requires
        1 <= s.len() <= 4,
        number::all_digits(s, 8),
    ensures
        number::value(s, 8) <= 4095,
{
    reveal_with_fuel(number::value, 5);
    assert(forall|i: int| 0 <= i < s.len() ==> number::is_digit_of(s[i], 8));
    let a = s.drop_last();
    assert(number::is_digit_of(s[s.len() - 1], 8));
    if s.len() > 1 {
        let b = a.drop_last();
        assert(number::is_digit_of(s[s.len() - 2], 8));
        assert(a.last() == s[s.len() - 2]);
        if s.len() > 2 {
            assert(number::is_digit_of(s[s.len() - 3], 8));
            assert(b.last() == s[s.len() - 3]);
            if s.len() > 3 {
                assert(number::is_digit_of(s[0], 8));
                assert(b.drop_last().last() == s[0]);
            }
        }
    }
}

/// What one group of three letters says: the bits, and whether the special
/// bit of the group is set. `None` where it is no such group.
pub open spec fn triad(r: char, w: char, x: char) -> Option<(int, bool)> {
    if (r == 'r' || r == '-') && (w == 'w' || w == '-') && (x == 'x' || x == 's' || x == 't' || x
        == 'S' || x == 'T' || x == '-') {
        Some(
            (
                (if r == 'r' {
                    4int
                } else {
                    0
                }) + (if w == 'w' {
                    2int
                } else {
                    0
                }) + (if x == 'x' || x == 's' || x == 't' {
                    1int
                } else {
                    0
                }),
                x == 's' || x == 't' || x == 'S' || x == 'T',
            ),
        )
    } else {
        None
    }
}

pub open spec fn special_bit(set: bool, bit: int) -> int {
    if set {
        bit
    } else {
        0
    }
}

/// The permission bits of an `ls -l` mode string.
pub open spec fn listed_mode(p: Seq<char>) -> Option<int> {
    if p.len() < 10 {
        None
    } else {
        match (triad(p[1], p[2], p[3]), triad(p[4], p[5], p[6]), triad(p[7], p[8], p[9])) {
            (Some(u), Some(g), Some(o)) => Some(
                u.0 * 64 + g.0 * 8 + o.0 + special_bit(u.1, 2048) + special_bit(g.1, 1024)
                    + special_bit(o.1, 512),
            ),
            _ => None,
        }
    }
}

fn triad_bits(r: char, w: char, x: char) -> (t: Option<(u32, bool)>)
    ensures
        match t {
            Some((bits, special)) => triad(r, w, x) == Some((bits as int, special)) && bits <= 7,
            None => triad(r, w, x) is None,
        },
{
    let read: u32 = if r == 'r' {
        4
    } else if r == '-' {
        0
    } else {
        return None;
    };
    let write: u32 = if w == 'w' {
        2
    } else if w == '-' {
        0
    } else {
        return None;
    };
    if x == 'x' {
        Some((read + write + 1, false))
    } else if x == 's' || x == 't' {
        Some((read + write + 1, true))
    } else if x == 'S' || x == 'T' {
        Some((read + write, true))
    } else if x == '-' {
        Some((read + write, false))
    } else {
        None
    }
}

/// Permission bits of an `ls -l` mode string ("drwxr-sr-x", "-rwsr-xr-T"),
/// set-id and sticky included, to prefill the chmod dialog. `None` when the
/// string does not look like one.
pub fn mode_from_permissions(perms: &str) -> (r: Option<u32>)
    ensures
        match r {
            Some(m) => listed_mode(perms@) == Some(m as int) && m <= 0o7777,
            None => listed_mode(perms@) is None,
        },
{
    let p = text::chars_of(perms);
    if p.len() < 10 {
        return None;
    }
    let (u, us): (u32, bool) = match triad_bits(p[1], p[2], p[3]) {
        Some(t) => t,
        None => return None,
    };
    let (g, gs): (u32, bool) = match triad_bits(p[4], p[5], p[6]) {
        Some(t) => t,
        None => return None,
    };
    let (o, os): (u32, bool) = match triad_bits(p[7], p[8], p[9]) {
        Some(t) => t,
        None => return None,
    };
    let mut mode: u32 = u * 64 + g * 8 + o;
    if us {
        mode = mode + 2048;
    }
    if gs {
        mode = mode + 1024;
    }
    if os {
        mode = mode + 512;
    }
    Some(mode)
}

/// The mode that the chmod dialog opens with, submitted as it stands, is the
/// mode that the listing showed.
pub proof fn law_prefilled_mode_reads_back(mode: nat)
    requires
        mode <= 0o7777,
    ensures
        octal_mode(number::digits(mode, 8)) == Some(mode),
{
    let d = number::digits(mode, 8);
    number::lemma_digits_read_back(mode, 8);
    assert(1 <= d.len() <= 4) by {
        reveal_with_fuel(number::digits, 5);
    }
    assert(number::is_digit_of(d[0], 8));
    assert(number::is_digit_of(d.last(), 8)) by {
        assert(d.last() == d[d.len() - 1]);
    }
    assert(text::trim(d) == d);
}

// ---- listings ----------------------------------------------------------------------------------

/// What a row of a listing is.
#[derive(Debug, Clone, Copy, PartialEq, Eq, Structural)]
pub enum EntryKind {
    File,
    Dir,
    Symlink,
    Other,
}

/// A row of a remote listing.
#[derive(Debug)]
pub struct FileEntry {
    pub name: String,
    pub is_dir: bool,
    pub kind: EntryKind,
    pub size: String,
    pub permissions: String,
    pub modified: String,
}

impl Clone for FileEntry {
    fn clone(&self) -> (r: FileEntry)
        ensures
            r == *self,
    {
        FileEntry {
            name: self.name.clone(),
            is_dir: self.is_dir,
            kind: self.kind,
            size: self.size.clone(),
            permissions: self.permissions.clone(),
            modified: self.modified.clone(),
        }
    }
}

/// The text key for a kind of row.
pub open spec fn kind_key(kind: EntryKind) -> Seq<char> {
    match kind {
        EntryKind::File => "sftp.kind.file"@,
        EntryKind::Dir => "sftp.kind.dir"@,
        EntryKind::Symlink => "sftp.kind.symlink"@,
        EntryKind::Other => "sftp.kind.other"@,
    }
}

/// "folder", "file", … for the confirmations that state what they touch.
pub fn entry_kind_label(kind: EntryKind, texts: &Catalog) -> (r: String)
    ensures
        r@ == texts.says(kind_key(kind)),
{
    match kind {
        EntryKind::File => texts.t("sftp.kind.file"),
        EntryKind::Dir => texts.t("sftp.kind.dir"),
        EntryKind::Symlink => texts.t("sftp.kind.symlink"),
        EntryKind::Other => texts.t("sftp.kind.other"),
    }
}

/// A remote directory listing as the file browser shows it, with the
/// directory it was produced for. Every row action — open, download, edit,
/// rename, chmod, delete, the right-click menu — resolves the row's name
/// against `dir`, never against the directory asked for next, whose listing
/// may still be on its way, and may never come.
#[derive(Debug)]
pub struct Listing {
    /// The directory listed, as the SSH layer resolved it.
    pub dir: String,
    pub entries: Vec<FileEntry>,
    /// A later request that failed while this listing stayed on screen. The
    /// prompt's cwd sync does not ask for it again on every tick.
    pub failed: Option<String>,
}

impl Listing {
    pub fn new(dir: String, entries: Vec<FileEntry>) -> (r: Listing)
        ensures
            r == (Listing { dir, entries, failed: None }),
    {
        Listing { dir, entries, failed: None }
    }

    /// Remote path of the row called `name`.
    pub fn path_of(&self, name: &str) -> (r: String)
        ensures
            r@ == joined(self.dir@, name@),
    {
        join_remote_path(self.dir.as_str(), name)
    }
}

/// The listing of `requested` failed, and nothing else was asked for since.
pub open spec fn still_asked(
    current_dir: Map<Seq<char>, String>,
    listings: Map<Seq<char>, Listing>,
    session_id: Seq<char>,
    requested: Seq<char>,
) -> bool {
    &&& listings.contains_key(session_id)
    &&& current_dir.contains_key(session_id)
    &&& current_dir[session_id]@ == requested
}

/// The listing of `requested` for `session_id` failed. The listing on screen
/// stays, and `current_dir` goes back to its directory — unless another one
/// has been asked for since — so a refresh, or the re-list after an
/// operation, lists what is shown; the failure is noted on the listing.
pub fn note_listing_failed(
    current_dir: &mut NameMap<String>,
    listings: &mut NameMap<Listing>,
    session_id: &str,
    requested: &str,
)
    ensures
        !still_asked(old(current_dir)@, old(listings)@, session_id@, requested@) ==> final(current_dir)@
            == old(current_dir)@ && final(listings)@ == old(listings)@,
        still_asked(old(current_dir)@, old(listings)@, session_id@, requested@) ==> {
            let was = old(listings)@[session_id@];
            let now = final(listings)@[session_id@];
            &&& final(current_dir)@ == old(current_dir)@.insert(session_id@, was.dir)
            &&& final(listings)@ == old(listings)@.insert(session_id@, now)
            &&& now == (Listing { failed: now.failed, ..was })
            &&& now.failed matches Some(f) && f@ == requested@
        },
{
    let asked = match current_dir.get(session_id) {
        Some(d) => text::same_text(d.as_str(), requested),
        None => false,
    };
    if !asked || !listings.contains_key(session_id) {
        return;
    }
    match listings.remove(session_id) {
        Some(listing) => {
            current_dir.insert(session_id.to_owned(), listing.dir.clone());
            let noted = Listing {
                dir: listing.dir,
                entries: listing.entries,
                failed: Some(requested.to_owned()),
            };
            listings.insert(session_id.to_owned(), noted);
            assert(listings@ =~= old(listings)@.insert(session_id@, noted));
        },
        None => {},
    }
}

/// Whether the file browser should follow the shell to `cwd`.
pub open spec fn sync_due(last: Option<Seq<char>>, failed: Option<Seq<char>>, cwd: Seq<char>) -> bool {
    last != Some(cwd) && failed != Some(cwd)
}

pub open spec fn opt_text(s: Option<String>) -> Option<Seq<char>> {
    match s {
        Some(t) => Some(t@),
        None => None,
    }
}

/// What a map holds for `k`, as text.
pub open spec fn text_at(m: Map<Seq<char>, String>, k: Seq<char>) -> Option<Seq<char>> {
    if m.contains_key(k) {
        Some(m[k]@)
    } else {
        None
    }
}

/// The request that failed while the listing of `k` stayed on screen.
pub open spec fn failed_at(m: Map<Seq<char>, Listing>, k: Seq<char>) -> Option<Seq<char>> {
    if m.contains_key(k) {
        opt_text(m[k].failed)
    } else {
        None
    }
}

/// Whether the file browser should follow the shell to `cwd`, the directory
/// its prompt shows: when the prompt shows a different directory than the
/// one last followed, unless listing `cwd` has just failed.
pub fn cwd_sync_due(last_followed: Option<&str>, listing: Option<&Listing>, cwd: &str) -> (r: bool)
    ensures
        r == sync_due(
            match last_followed {
                Some(s) => Some(s@),
                None => None,
            },
            match listing {
                Some(l) => opt_text(l.failed),
                None => None,
            },
            cwd@,
        ),
{
    let followed = match last_followed {
        Some(s) => text::same_text(s, cwd),
        None => false,
    };
    let failed = match listing {
        Some(l) => match &l.failed {
            Some(f) => text::same_text(f.as_str(), cwd),
            None => false,
        },
        None => false,
    };
    !followed && !failed
}

/// The prompt of `session_id` shows `cwd`: follow the shell there if it has
/// moved since the browser last followed it. True when a listing of `cwd`
/// should be asked for; `current_dir` then says `cwd`.
///
/// Compared with what the prompt showed last time, never with the directory
/// the browser is in. The listing resolves `~` to the login directory and
/// records that, so comparing the prompt's `~` with it would never settle.
pub fn follow_prompt_cwd(
    prompt_cwd: &mut NameMap<String>,
    current_dir: &mut NameMap<String>,
    listings: &NameMap<Listing>,
    session_id: &str,
    cwd: &str,
) -> (follow: bool)
    ensures
        follow == sync_due(
            text_at(old(prompt_cwd)@, session_id@),
            failed_at(listings@, session_id@),
            cwd@,
        ),
        !follow ==> final(prompt_cwd)@ == old(prompt_cwd)@ && final(current_dir)@ == old(current_dir)@,
        follow ==> {
            let p = final(prompt_cwd)@[session_id@];
            let c = final(current_dir)@[session_id@];
            &&& final(prompt_cwd)@ == old(prompt_cwd)@.insert(session_id@, p)
            &&& final(current_dir)@ == old(current_dir)@.insert(session_id@, c)
            &&& p@ == cwd@
            &&& c@ == cwd@
        },
{
    let last = match prompt_cwd.get(session_id) {
        Some(s) => Some(s.as_str()),
        None => None,
    };
    if !cwd_sync_due(last, listings.get(session_id), cwd) {
        return false;
    }
    prompt_cwd.insert(session_id.to_owned(), cwd.to_owned());
    current_dir.insert(session_id.to_owned(), cwd.to_owned());
    true
}

/// A prompt that keeps showing a directory is followed there once: as soon as
/// it was, it is not due again, wherever the browser went since.
pub proof fn law_a_prompt_is_followed_once(cwd: Seq<char>, failed: Option<Seq<char>>)
    ensures
        !sync_due(Some(cwd), failed, cwd),
{
}

// ---- the single progress bar -----------------------------------------------------------------

/// The progress of one transfer. Every transfer has its own number.
#[derive(Debug)]
pub struct TransferProgress {
    pub id: u64,
    pub finished: bool,
    pub filename: String,
}

/// Whether the bar is taken.
pub open spec fn is_taken(bar: Option<TransferProgress>, upload_job_running: bool) -> bool {
    upload_job_running || (bar matches Some(p) && !p.finished)
}

/// Whether the bar is taken: an upload job is running (a cancelled one keeps
/// it until its thread lets go), or a transfer on it has not finished.
pub fn bar_busy(bar: &Option<TransferProgress>, upload_job_running: bool) -> (r: bool)
    ensures
        r == is_taken(*bar, upload_job_running),
{
    upload_job_running || (match bar {
        Some(p) => !p.finished,
        None => false,
    })
}

/// A bar on which nothing has moved yet.
pub open spec fn is_fresh(bar: Option<TransferProgress>, id: u64) -> bool {
    bar matches Some(p) && p.id == id && !p.finished && p.filename@ == Seq::<char>::empty()
}

/// Put a fresh progress, numbered `id`, on the bar for a transfer about to
/// start; false, leaving the bar alone, while it is taken.
pub fn claim_bar(bar: &mut Option<TransferProgress>, upload_job_running: bool, id: u64) -> (claimed: bool)
    ensures
        claimed == !is_taken(*old(bar), upload_job_running),
        claimed ==> is_fresh(*final(bar), id),
        !claimed ==> *final(bar) == *old(bar),
{
    if bar_busy(bar, upload_job_running) {
        return false;
    }
    *bar = Some(TransferProgress { id, finished: false, filename: String::new() });
    true
}

/// The bar shows the transfer numbered `id`.
pub open spec fn shows(bar: Option<TransferProgress>, id: u64) -> bool {
    bar matches Some(p) && p.id == id
}

/// The bar once the transfer numbered `ended` is over.
pub open spec fn released(bar: Option<TransferProgress>, ended: u64) -> Option<TransferProgress> {
    if shows(bar, ended) {
        None
    } else {
        bar
    }
}

/// A transfer ended: take its progress off the bar, if the bar still shows
/// it. Anything else there belongs to a transfer that is still running.
pub fn release_bar(bar: &mut Option<TransferProgress>, ended: u64)
    ensures
        *final(bar) == released(*old(bar), ended),
{
    let own = match bar {
        Some(p) => p.id == ended,
        None => false,
    };
    if own {
        *bar = None;
    }
}

/// The end of a transfer takes down no bar but its own: one that another
/// transfer has claimed since stays, and stays taken.
pub proof fn law_transfers_leave_other_bars_alone(
    bar: Option<TransferProgress>,
    running: bool,
    mine: u64,
)
    requires
        !shows(bar, mine),
    ensures
        released(bar, mine) == bar,
        is_taken(released(bar, mine), running) == is_taken(bar, running),
{
}

/// What the transfer loops return once the progress bar's Cancel has set
/// `finished`. A cancel is not a failure to report.
pub const TRANSFER_CANCELLED: &'static str = "Transfer cancelled";

/// How a transfer or an SFTP operation ended, as the user hears of it.
#[derive(Debug)]
pub enum OpEnd {
    /// Done, or cancelled from the progress bar: nothing to say.
    Quiet,
    /// Done, with entries left out: said, but as the completion it is, not as
    /// a failure.
    Skipped(String),
    Failed(String),
}

/// `message` is `head`, a number and `tail`.
pub open spec fn counts(message: Seq<char>, head: Seq<char>, tail: Seq<char>) -> bool {
    &&& head.len() + tail.len() < message.len()
    &&& text::starts_with(message, head)
    &&& text::ends_with(message, tail)
    &&& number::all_digits(message.subrange(head.len() as int, message.len() - tail.len()), 10)
}

/// `message` is the "N item(s) skipped" report in the words of `texts`.
pub open spec fn reports_skipped(message: Seq<char>, texts: Catalog) -> bool {
    let template = texts.says("sftp.err.skipped_names"@);
    match text::find(template, "{count}"@) {
        Some(i) => counts(message, template.take(i), template.skip(i + 7)),
        None => false,
    }
}

/// Whether `message` is the SSH layer's "N item(s) skipped" report: what a
/// recursive download or delete returns once everything else is done. Told
/// apart by its text: the template in the current language, with a number
/// for `{count}`. Should the language change while the operation runs, the
/// report still goes up — as a failure.
pub fn is_skipped_report(message: &str, texts: &Catalog) -> (r: bool)
    ensures
        r == reports_skipped(message@, *texts),
{
    let template = text::chars_of(texts.t("sftp.err.skipped_names").as_str());
    let mark = text::chars_of("{count}");
    proof {
        reveal_strlit("{count}");
    }
    let at: usize = match text::find_chars(template.as_slice(), mark.as_slice()) {
        Some(i) => i,
        None => return false,
    };
    let n: usize = template.len();
    let head = slice_subrange(template.as_slice(), 0, at);
    let tail = slice_subrange(template.as_slice(), at + 7, n);
    assert(head@ =~= template@.take(at as int));
    assert(tail@ =~= template@.skip(at + 7));
    let m = text::chars_of(message);
    let len: usize = m.len();
    if len <= head.len() || len - head.len() <= tail.len() {
        return false;
    }
    if !text::starts_with_chars(m.as_slice(), head) || !text::ends_with_chars(m.as_slice(), tail) {
        return false;
    }
    let middle = slice_subrange(m.as_slice(), head.len(), len - tail.len());
    number::are_digits(middle, 10)
}

/// How `result` reads.
pub open spec fn is_end(end: OpEnd, result: Result<(), String>, texts: Catalog) -> bool {
    match result {
        Ok(_) => end is Quiet,
        Err(e) => if e@ == TRANSFER_CANCELLED@ {
            end is Quiet
        } else if reports_skipped(e@, texts) {
            end == OpEnd::Skipped(e)
        } else {
            end == OpEnd::Failed(e)
        },
    }
}

pub fn op_end(result: Result<(), String>, texts: &Catalog) -> (end: OpEnd)
    ensures
        is_end(end, result, *texts),
{
    match result {
        Ok(_) => OpEnd::Quiet,
        Err(e) => if text::same_text(e.as_str(), TRANSFER_CANCELLED) {
            OpEnd::Quiet
        } else if is_skipped_report(e.as_str(), texts) {
            OpEnd::Skipped(e)
        } else {
            OpEnd::Failed(e)
        },
    }
}

} // verus!
