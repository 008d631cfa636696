//! Tab titles, and the keys connections are told apart by.

use vstd::prelude::*;
use vstd::slice::slice_subrange;
use vstd::string::*;

use crate::catalog;
use crate::catalog::Catalog;
use crate::number;
use crate::split;
use crate::text;

verus! {

/// One host of `~/.ssh/config`.
#[derive(Debug)]
pub struct SshHostConfig {
    pub alias: String,
    pub hostname: String,
    pub user: String,
    pub port: u16,
    pub identity_file: String,
}

/// "user@host:port".
pub open spec fn address(user: Seq<char>, host: Seq<char>, port: nat) -> Seq<char> {
    user + seq!['@'] + host + seq![':'] + number::decimal(port)
}

/// "user@host:port".
pub fn address_text(user: &str, host: &str, port: u16) -> (r: String)
    ensures
        r@ == address(user@, host@, port as nat),
{
    let mut out = user.to_owned();
    out.push('@');
    out.append(host);
    out.push(':');
    let digits = number::decimal_text(port as u64);
    out.append(digits.as_str());
    assert(out@ =~= address(user@, host@, port as nat));
    out
}

/// The host to dial for an entry: its `HostName`, else its alias, as ssh(1)
/// does.
pub open spec fn dialled_host(cfg: SshHostConfig) -> Seq<char> {
    if cfg.hostname@.len() == 0 {
        cfg.alias@
    } else {
        cfg.hostname@
    }
}

/// The user@host:port key an import de-duplicates on; `None` for a host entry
/// with no usable address.
pub fn ssh_config_key(cfg: &SshHostConfig) -> (r: Option<String>)
    ensures
        match r {
            Some(key) => dialled_host(*cfg).len() > 0 && key@ == address(
                cfg.user@,
                dialled_host(*cfg),
                cfg.port as nat,
            ),
            None => dialled_host(*cfg).len() == 0,
        },
{
    let host = if cfg.hostname.as_str().is_empty() {
        &cfg.alias
    } else {
        &cfg.hostname
    };
    if host.as_str().is_empty() {
        None
    } else {
        Some(address_text(cfg.user.as_str(), host.as_str(), cfg.port))
    }
}

/// What `std`'s unseeded `DefaultHasher` makes of a text.
pub uninterp spec fn fingerprint_of(s: Seq<char>) -> u64;

/// `BuildHasher::hash_one` of the builder that makes `DefaultHasher`s: such a hasher
/// starts from fixed keys, so one text always gives one number. That two texts
/// give two numbers is not said, and does not hold.
#[verifier::external_body]
fn hash_text(s: &str) -> (r: u64)
    ensures
        r == fingerprint_of(s@),
{
    let hashers = std::hash::BuildHasherDefault::<std::collections::hash_map::DefaultHasher>::default();
    std::hash::BuildHasher::hash_one(&hashers, s)
}

/// Cheap, stable fingerprint of a text.
pub fn fingerprint(s: &str) -> (r: u64)
    ensures
        r == fingerprint_of(s@),
{
    hash_text(s)
}

// ---- tab titles -----------------------------------------------------------------------

/// What a reconnect marker starts with.
pub open spec fn marker() -> Seq<char> {
    seq![' ', '[']
}

/// A title without its reconnect marker.
pub open spec fn base_of(title: Seq<char>) -> Seq<char> {
    match text::find(title, marker()) {
        Some(i) => title.take(i),
        None => title,
    }
}

/// The text after the last `@`, or all of it.
pub open spec fn after_user(s: Seq<char>) -> Seq<char> {
    match text::rfind_char(s, '@') {
        Some(i) => s.skip(i + 1),
        None => s,
    }
}

/// The text before the last `:`, or all of it.
pub open spec fn before_port(s: Seq<char>) -> Seq<char> {
    match text::rfind_char(s, ':') {
        Some(i) => s.take(i),
        None => s,
    }
}

/// The host of a title.
pub open spec fn host_of(title: Seq<char>) -> Seq<char> {
    before_port(after_user(base_of(title)))
}

/// A title with the reconnect marker of a language.
pub open spec fn marked_title(template: Seq<char>, base: Seq<char>, attempt: nat) -> Seq<char> {
    catalog::filled(
        catalog::filled(template, "n"@, number::decimal(attempt)),
        "title"@,
        base,
    )
}

/// A tab's title while its session reconnects: `base`, then the marker —
/// in the UI language, after " [", where `title_base` cuts it off again.
pub fn reconnecting_title(base: &str, attempt: u32, texts: &Catalog) -> (r: String)
    ensures
        r@ == marked_title(texts.says("tab.reconnecting"@), base@, attempt as nat),
{
    let template = texts.t("tab.reconnecting");
    let n = number::decimal_text(attempt as u64);
    let counted = catalog::fill(template.as_str(), "n", n.as_str());
    catalog::fill(counted.as_str(), "title", base)
}

/// A tab title without its reconnect marker: "user@host:port".
pub fn title_base(title: &str) -> (r: String)
    ensures
        r@ == base_of(title@),
{
    let cs = text::chars_of(title);
    let mark: Vec<char> = vec![' ', '['];
    assert(mark@ =~= marker());
    match text::find_chars(cs.as_slice(), mark.as_slice()) {
        Some(i) => {
            let head = slice_subrange(cs.as_slice(), 0, i);
            assert(head@ =~= title@.take(i as int));
            text::string_of(head)
        },
        None => text::string_of(cs.as_slice()),
    }
}

/// Whether a tab title carries a reconnect marker, in either language.
pub fn title_reconnecting(title: &str) -> (r: bool)
    ensures
        r == text::contains(title@, marker()),
        r == (base_of(title@).len() != title@.len()),
{
    let cs = text::chars_of(title);
    let mark: Vec<char> = vec![' ', '['];
    assert(mark@ =~= marker());
    proof {
        text::lemma_contains_is_find(title@, marker());
        text::lemma_find(title@, marker(), 0);
    }
    text::contains_chars(cs.as_slice(), mark.as_slice())
}

/// Host part of a tab title — "user@host:port", possibly followed by
/// " [Reconnecting...]".
pub fn host_from_title(title: &str) -> (r: String)
    ensures
        r@ == host_of(title@),
{
    let base = title_base(title);
    let cs = text::chars_of(base.as_str());
    let at: Vec<char> = vec!['@'];
    let colon: Vec<char> = vec![':'];
    assert(at@ =~= seq!['@']);
    assert(colon@ =~= seq![':']);
    let len: usize = cs.len();
    let rest: &[char] = match text::rfind_chars(cs.as_slice(), at.as_slice()) {
        Some(i) => slice_subrange(cs.as_slice(), i + 1, len),
        None => cs.as_slice(),
    };
    assert(rest@ =~= after_user(base@));
    let host: &[char] = match text::rfind_chars(rest, colon.as_slice()) {
        Some(i) => slice_subrange(rest, 0, i),
        None => rest,
    };
    assert(host@ =~= before_port(rest@));
    text::string_of(host)
}

/// The active tab once the tab at `removed` is gone and `len` are left: the
/// same tab as before when another one was removed, its neighbour when it
/// was the one.
pub fn active_after_removal(active: Option<usize>, removed: usize, len: usize) -> (r: Option<usize>)
    ensures
        r == (match active {
            Some(a) => if len == 0 {
                None
            } else if a > removed {
                Some((a - 1) as usize)
            } else if a < len {
                Some(a)
            } else {
                Some((len - 1) as usize)
            },
            None => None,
        }),
{
    if len == 0 {
        return None;
    }
    match active {
        Some(a) => {
            if a > removed {
                Some(a - 1)
            } else if a < len {
                Some(a)
            } else {
                Some(len - 1)
            }
        },
        None => None,
    }
}

/// The tab that was active stays active wherever another tab is removed, and
/// whatever is removed the active tab is one that is there.
pub proof fn law_removal_keeps_the_active_tab<T>(tabs: Seq<T>, active: int, removed: int)
    requires
        0 <= active < tabs.len(),
        0 <= removed < tabs.len(),
    ensures
        ({
            let left = tabs.remove(removed);
            let now = if active > removed {
                active - 1
            } else if active < left.len() {
                active
            } else {
                left.len() - 1
            };
            left.len() > 0 ==> 0 <= now < left.len() && (active != removed ==> left[now] == tabs[active])
        }),
{
}

// ---- the marker comes off again ----------------------------------------------------------

/// A join starts with its first piece.
proof fn lemma_join_first(a: Seq<char>, b: Seq<char>, rest: Seq<Seq<char>>, sep: Seq<char>)
    ensures
        split::join(seq![a + b] + rest, sep) == a + split::join(seq![b] + rest, sep),
    decreases rest.len(),
{
    let left = seq![a + b] + rest;
    let right = seq![b] + rest;
    if rest.len() == 0 {
        assert(left =~= seq![a + b]);
        assert(right =~= seq![b]);
    } else {
        assert(left.drop_last() =~= seq![a + b] + rest.drop_last());
        assert(right.drop_last() =~= seq![b] + rest.drop_last());
        lemma_join_first(a, b, rest.drop_last(), sep);
        assert(split::join(left, sep) =~= a + split::join(right, sep));
    }
}

/// Replacing leaves alone a head that no pattern starts in.
proof fn lemma_replace_behind(p: Seq<char>, x: Seq<char>, pat: Seq<char>, by: Seq<char>)
    requires
        pat.len() > 0,
        forall|i: int| 0 <= i < p.len() ==> !#[trigger] text::occurs_at(p + x, pat, i),
    ensures
        split::replace(p + x, pat, by) == p + split::replace(x, pat, by),
{
    text::lemma_find_behind(p, x, pat, 0);
    text::lemma_find(x, pat, 0);
    match text::find(x, pat) {
        Some(k) => {
            let rest = split::split(x.skip(k + pat.len()), pat);
            assert((p + x).skip(p.len() + k + pat.len()) =~= x.skip(k + pat.len()));
            assert((p + x).take(p.len() + k) =~= p + x.take(k));
            assert(split::split(p + x, pat) =~= seq![p + x.take(k)] + rest);
            lemma_join_first(p, x.take(k), rest, by);
        },
        None => {
            assert(split::split(p + x, pat) =~= seq![p + x]);
            assert(split::split(x, pat) =~= seq![x]);
        },
    }
}

/// Replacing a pattern that the text starts with.
proof fn lemma_replace_at_start(x: Seq<char>, pat: Seq<char>, by: Seq<char>)
    requires
        pat.len() > 0,
    ensures
        split::replace(pat + x, pat, by) == by + split::replace(x, pat, by),
{
    let s = pat + x;
    assert(s.subrange(0, pat.len() as int) =~= pat);
    assert(text::find(s, pat) == Some(0int));
    assert(s.take(0) =~= Seq::<char>::empty());
    assert(s.skip(0 + pat.len() as int) =~= x);
    let rest = split::split(x, pat);
    lemma_split_nonempty(x, pat);
    assert(split::split(s, pat) =~= seq![Seq::<char>::empty()] + rest);
    split::lemma_join_cons(Seq::empty(), rest, by);
    assert(split::join(split::split(s, pat), by) =~= by + split::join(rest, by));
}

proof fn lemma_split_nonempty(x: Seq<char>, pat: Seq<char>)
    ensures
        split::split(x, pat).len() > 0,
    decreases x.len(),
{
}

/// A title in a language whose template is "{title} [" and anything more is
/// the base, " [" and something.
proof fn lemma_marked_shape(rest: Seq<char>, base: Seq<char>, attempt: nat) -> (more: Seq<char>)
    ensures
        marked_title(catalog::placeholder("title"@) + marker() + rest, base, attempt) == base
            + marker() + more,
{
    let pat = catalog::placeholder("title"@);
    let n = catalog::placeholder("n"@);
    let head = pat + marker();
    reveal_strlit("n");
    reveal_strlit("title");
    assert(n.len() == 3 && n[0] == '{' && n[1] == 'n');
    assert(head =~= seq!['{', 't', 'i', 't', 'l', 'e', '}', ' ', '[']);
    assert forall|i: int| 0 <= i < head.len() implies !#[trigger] text::occurs_at(head + rest, n, i) by {
        if text::occurs_at(head + rest, n, i) {
            let at = (head + rest).subrange(i, i + 3);
            assert(at[0] == head[i] && at[1] == (head + rest)[i + 1]);
        }
    }
    lemma_replace_behind(head, rest, n, number::decimal(attempt));
    let counted = split::replace(rest, n, number::decimal(attempt));
    let tail = marker() + counted;
    assert(head + counted =~= pat + tail);
    lemma_replace_at_start(tail, pat, base);
    assert forall|i: int| 0 <= i < marker().len() implies !#[trigger] text::occurs_at(tail, pat, i) by {
        if text::occurs_at(tail, pat, i) {
            assert(tail.subrange(i, i + pat.len())[0] == marker()[i]);
        }
    }
    lemma_replace_behind(marker(), counted, pat, base);
    let more = split::replace(counted, pat, base);
    assert(base + (marker() + more) =~= base + marker() + more);
    more
}

/// The first " [" behind a base without one is where the base ends.
proof fn lemma_marker_found(base: Seq<char>, more: Seq<char>, j: int)
    requires
        !text::contains(base, marker()),
        0 <= j <= base.len(),
    ensures
        text::find_from(base + marker() + more, marker(), j) == Some(base.len() as int),
    decreases base.len() - j,
{
    let marked = base + marker() + more;
    let n = base.len() as int;
    if j == n {
        assert(marked.subrange(n, n + 2) =~= marker());
    } else {
        lemma_marker_found(base, more, j + 1);
        assert(!text::occurs_at(marked, marker(), j)) by {
            if marked.subrange(j, j + 2) == marker() {
                assert(marked.subrange(j, j + 2)[0] == marked[j]);
                assert(marked.subrange(j, j + 2)[1] == marked[j + 1]);
                assert(marker()[0] == ' ' && marker()[1] == '[');
                if j + 1 < n {
                    assert(base.subrange(j, j + 2) =~= marker());
                    assert(text::occurs_at(base, marker(), j));
                } else {
                    assert(marked[j + 1] == ' ');
                }
            }
        }
    }
}

/// The marker comes off again: of a title marked in a language whose template
/// is "{title} [" and anything more, the base is the title it was made from,
/// and it reads as reconnecting; and a base without a marker is its own base. A
/// base holding " [" has a marker already.
pub proof fn law_reconnect_marker_comes_off(rest: Seq<char>, base: Seq<char>, attempt: nat)
    requires
        !text::contains(base, marker()),
    ensures
        base_of(base) == base,
        ({
            let template = catalog::placeholder("title"@) + marker() + rest;
            let marked = marked_title(template, base, attempt);
            &&& base_of(marked) == base
            &&& text::contains(marked, marker())
            &&& host_of(marked) == host_of(base)
        }),
{
    let more = lemma_marked_shape(rest, base, attempt);
    lemma_marker_found(base, more, 0);
    assert((base + marker() + more).take(base.len() as int) =~= base);
    text::lemma_contains_is_find(base + marker() + more, marker());
    text::lemma_contains_is_find(base, marker());
}

} // verus!
