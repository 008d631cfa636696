//! What texts are cut into, put together from and read as.

use vstd::prelude::*;
use vstd::string::*;

use crate::catalog;
use crate::display;
use crate::history::CmdRecord;
use crate::history;
use crate::number;
use crate::order;
use crate::settings::Snippet;
use crate::split;
use crate::text;
use crate::titles;

verus! {

// ---- cutting and joining ---------------------------------------------------------------------------------------

/// Trimming takes whitespace off both ends and nothing else: what is left is a part of the
/// text, all before it and behind it is whitespace, and neither of its own ends is.
pub proof fn law_trimming_takes_only_the_ends(s: Seq<char>) -> (ends: (int, int))
    ensures
        0 <= ends.0 <= ends.1 <= s.len(),
        text::trim(s) == s.subrange(ends.0, ends.1),
        forall|i: int| 0 <= i < ends.0 ==> text::is_white(#[trigger] s[i]),
        forall|i: int| ends.1 <= i < s.len() ==> text::is_white(#[trigger] s[i]),
        ends.0 < ends.1 ==> !text::is_white(s[ends.0]) && !text::is_white(s[ends.1 - 1]),
{
    let a = lemma_start(s);
    let rest = s.skip(a);
    let n = lemma_end(rest);
    assert(rest.take(n) =~= s.subrange(a, a + n));
    assert forall|i: int| a + n <= i < s.len() implies text::is_white(#[trigger] s[i]) by {
        assert(s[i] == rest[i - a]);
    }
    if 0 < n {
        assert(s[a] == rest[0]);
        assert(s[a + n - 1] == rest[n - 1]);
    }
    (a, a + n)
}

proof fn lemma_start(s: Seq<char>) -> (a: int)
    ensures
        0 <= a <= s.len(),
        text::trim_start(s) == s.skip(a),
        forall|i: int| 0 <= i < a ==> text::is_white(#[trigger] s[i]),
        a < s.len() ==> !text::is_white(s[a]),
    decreases s.len(),
{
    if s.len() > 0 && text::is_white(s[0]) {
        let t = s.drop_first();
        let b = lemma_start(t);
        assert(t.skip(b) =~= s.skip(b + 1));
        assert forall|i: int| 0 <= i < b + 1 implies text::is_white(#[trigger] s[i]) by {
            if i > 0 {
                assert(s[i] == t[i - 1]);
            }
        }
        b + 1
    } else {
        assert(s.skip(0) =~= s);
        0
    }
}

proof fn lemma_end(s: Seq<char>) -> (n: int)
    ensures
        0 <= n <= s.len(),
        text::trim_end(s) == s.take(n),
        forall|i: int| n <= i < s.len() ==> text::is_white(#[trigger] s[i]),
        0 < n ==> !text::is_white(s[n - 1]),
    decreases s.len(),
{
    if s.len() > 0 && text::is_white(s.last()) {
        let t = s.drop_last();
        let m = lemma_end(t);
        assert(t.take(m) =~= s.take(m));
        assert forall|i: int| m <= i < s.len() implies text::is_white(#[trigger] s[i]) by {
            if i < t.len() {
                assert(s[i] == t[i]);
            }
        }
        m
    } else {
        assert(s.take(s.len() as int) =~= s);
        s.len() as int
    }
}

/// Trimming twice is trimming once.
pub proof fn law_trimming_twice(s: Seq<char>)
    ensures
        text::trim(text::trim(s)) == text::trim(s),
{
    let (a, b) = law_trimming_takes_only_the_ends(s);
    let t = text::trim(s);
    if t.len() > 0 {
        assert(t[0] == s[a]);
        assert(t.last() == s[b - 1]);
    }
    assert(text::trim_start(t) == t);
}

/// The pieces of a text that is cut at every separator, joined by that separator again, are
/// the text; and no piece holds a separator.
pub proof fn law_pieces_join_to_the_text(s: Seq<char>, sep: Seq<char>)
    requires
        sep.len() > 0,
    ensures
        split::split(s, sep).len() > 0,
        split::join(split::split(s, sep), sep) == s,
        forall|k: int| 0 <= k < split::split(s, sep).len() ==> !text::contains(#[trigger] split::split(s, sep)[k], sep),
    decreases s.len(),
{
    text::lemma_find(s, sep, 0);
    text::lemma_contains_is_find(s, sep);
    match text::find(s, sep) {
        Some(i) => {
            let rest = s.skip(i + sep.len());
            let head = s.take(i);
            law_pieces_join_to_the_text(rest, sep);
            split::lemma_join_cons(head, split::split(rest, sep), sep);
            assert(s.subrange(i, i + sep.len()) == sep);
            assert(head + sep + rest =~= s);
            assert(!text::contains(head, sep)) by {
                if text::contains(head, sep) {
                    let j = choose|j: int| text::occurs_at(head, sep, j);
                    assert(s.subrange(j, j + sep.len()) =~= head.subrange(j, j + sep.len()));
                    assert(text::occurs_at(s, sep, j));
                }
            }
            let all = seq![head] + split::split(rest, sep);
            assert(split::split(s, sep) == all);
            assert forall|k: int| 0 <= k < all.len() implies !text::contains(#[trigger] all[k], sep) by {
                if k > 0 {
                    assert(all[k] == split::split(rest, sep)[k - 1]);
                }
            }
        },
        None => {
            assert(split::split(s, sep) == seq![s]);
        },
    }
}

/// A word holds no whitespace and is never empty.
pub proof fn law_words_hold_no_whitespace(s: Seq<char>, k: int, i: int)
    requires
        0 <= k < split::words(s).len(),
        0 <= i < split::words(s)[k].len(),
    ensures
        !text::is_white(split::words(s)[k][i]),
    decreases s.len(),
{
    if text::is_white(s[0]) {
        law_words_hold_no_whitespace(s.drop_first(), k, i);
    } else {
        split::lemma_word(s);
        let w = split::word(s);
        if k > 0 {
            assert(split::words(s)[k] == split::words(s.skip(w.len() as int))[k - 1]);
            law_words_hold_no_whitespace(s.skip(w.len() as int), k - 1, i);
        } else {
            assert(w[i] == s[i]);
        }
    }
}

/// The words of a text that has some in front of whitespace: the first, then those behind it.
pub proof fn law_the_first_word_comes_first(w: Seq<char>, c: char, rest: Seq<char>)
    requires
        w.len() > 0,
        forall|i: int| 0 <= i < w.len() ==> !text::is_white(#[trigger] w[i]),
        text::is_white(c),
    ensures
        split::words(w + seq![c] + rest) == seq![w] + split::words(rest),
{
    let s = w + seq![c] + rest;
    split::lemma_word(s);
    let v = split::word(s);
    assert(s[0] == w[0]);
    assert(s[w.len() as int] == c);
    if v.len() < w.len() {
        assert(s[v.len() as int] == w[v.len() as int]);
        assert(false);
    }
    assert(v.len() == w.len());
    assert(v =~= w);
    let behind = s.skip(w.len() as int);
    assert(behind[0] == c);
    assert(behind.drop_first() =~= rest);
    assert(split::words(behind) == split::words(rest));
    assert(split::words(s) == seq![w] + split::words(behind));
}

/// Where a separator does not occur the text is one piece, and replacing it changes nothing.
pub proof fn law_nothing_to_replace(s: Seq<char>, pat: Seq<char>, by: Seq<char>)
    requires
        !text::contains(s, pat),
    ensures
        split::replace(s, pat, by) == s,
{
    text::lemma_contains_is_find(s, pat);
    assert(split::split(s, pat) == seq![s]);
}

/// A placeholder gives way to the value, and what stands before and behind it stays.
pub proof fn law_a_placeholder_gives_way(a: Seq<char>, name: Seq<char>, b: Seq<char>, value: Seq<char>)
    requires
        forall|i: int| 0 <= i < a.len() ==> a[i] != '{',
        !text::contains(b, seq!['{'] + name + seq!['}']),
    ensures
        catalog::filled(a + seq!['{'] + name + seq!['}'] + b, name, value) == a + value + b,
{
    let pat = seq!['{'] + name + seq!['}'];
    let s = a + seq!['{'] + name + seq!['}'] + b;
    assert(pat =~= catalog::placeholder(name));
    assert(s =~= a + pat + b);
    assert(s.subrange(a.len() as int, (a.len() + pat.len()) as int) =~= pat);
    assert(text::occurs_at(s, pat, a.len() as int));
    text::lemma_find(s, pat, 0);
    assert forall|j: int| 0 <= j < a.len() implies !text::occurs_at(s, pat, j) by {
        if text::occurs_at(s, pat, j) {
            assert(s.subrange(j, j + pat.len())[0] == pat[0]);
            assert(s[j] == a[j]);
        }
    }
    assert(text::find(s, pat) == Some(a.len() as int));
    assert(s.take(a.len() as int) =~= a);
    assert(s.skip((a.len() + pat.len()) as int) =~= b);
    text::lemma_contains_is_find(b, pat);
    assert(split::split(b, pat) == seq![b]);
    assert(split::split(s, pat) =~= seq![a, b]);
    assert(seq![a, b] =~= seq![a] + seq![b]);
    split::lemma_join_cons(a, seq![b], value);
}

/// A text is looked up under its key, wherever that stands, and the first one wins.
pub proof fn law_a_text_is_found_under_its_key(entries: Seq<(String, String)>, k: int)
    requires
        0 <= k < entries.len(),
        forall|j: int| 0 <= j < k ==> (#[trigger] entries[j]).0@ != entries[k].0@,
    ensures
        catalog::text_for(entries, entries[k].0@) == entries[k].1@,
    decreases entries.len(),
{
    if k > 0 {
        let rest = entries.drop_first();
        assert(rest[k - 1] == entries[k]);
        assert forall|j: int| 0 <= j < k - 1 implies (#[trigger] rest[j]).0@ != rest[k - 1].0@ by {
            assert(rest[j] == entries[j + 1]);
        }
        law_a_text_is_found_under_its_key(rest, k - 1);
        assert(entries[0].0@ != entries[k].0@);
    }
}

// ---- numbers and sizes -----------------------------------------------------------------------------------------

/// A number that is written and read again is the same, unless it is past what is read.
pub proof fn law_a_number_reads_back(n: nat, max: nat)
    ensures
        number::parse_unsigned(number::decimal(n), max) == (if n <= max {
            Some(n)
        } else {
            None
        }),
{
    number::lemma_digits_read_back(n, 10);
    let d = number::decimal(n);
    assert(number::is_digit_of(d[0], 10));
}

/// Rounding is to the nearest: the rounded quotient is never more than half off.
pub proof fn law_rounding_is_to_the_nearest(n: nat, d: nat)
    requires
        d > 0,
    ensures
        2 * (display::round_div(n, d) * d) <= 2 * n + d,
        2 * n <= 2 * (display::round_div(n, d) * d) + d,
{
    let q = n / d;
    let r = n % d;
    assert(n == q * d + r && r < d) by (nonlinear_arith)
        requires
            d > 0,
            q == n / d,
            r == n % d,
    ;
    assert((q + 1) * d == q * d + d) by (nonlinear_arith);
}

proof fn lemma_round_exact(k: nat, d: nat)
    requires
        d > 0,
    ensures
        display::round_div(k * d, d) == k,
{
    assert((k * d) / d == k && (k * d) % d == 0) by (nonlinear_arith)
        requires
            d > 0,
    ;
}

/// A whole number of units has a zero behind its point.
pub proof fn law_whole_units(k: nat, unit: nat)
    requires
        unit > 0,
        k * unit < 0x20_0000_0000_0000,
    ensures
        display::one_decimal(k * unit, unit) == number::decimal(k) + seq!['.', '0'],
{
    let n = k * unit;
    assert(n / 1 == n);
    assert(display::spacing(n, 1) == 1);
    lemma_round_exact(n, 1);
    assert(n * 1 == n);
    assert(display::as_double(n) == n);
    assert(10 * n == (10 * k) * unit) by (nonlinear_arith)
        requires
            n == k * unit,
    ;
    lemma_round_exact(10 * k, unit);
    assert((10 * k) / 10 == k && (10 * k) % 10 == 0) by (nonlinear_arith);
    reveal_with_fuel(number::digits, 2);
    assert(number::decimal(0) =~= seq!['0']);
    assert(display::one_decimal(n, unit) =~= number::decimal(k) + seq!['.', '0']);
}

/// Each thousand and twenty-four of a unit is one of the next: that many bytes read as so many
/// kilobytes, and on up to terabytes.
pub proof fn law_sizes_go_up_by_1024(k: nat)
    requires
        1 <= k < 1024,
    ensures
        display::size_in_words(k) == number::decimal(k) + " B"@,
        display::size_in_words(k * 1024) == number::decimal(k) + seq!['.', '0'] + " KB"@,
        display::size_in_words(k * 1_048_576) == number::decimal(k) + seq!['.', '0'] + " MB"@,
        display::size_in_words(k * 1_073_741_824) == number::decimal(k) + seq!['.', '0'] + " GB"@,
        display::size_in_words(k * 1_099_511_627_776) == number::decimal(k) + seq!['.', '0'] + " TB"@,
{
    law_whole_units(k, 1024);
    law_whole_units(k, 1_048_576);
    law_whole_units(k, 1_073_741_824);
    law_whole_units(k, 1_099_511_627_776);
}

/// So do the bytes of a transfer, where there is more than one of a unit, up to gigabytes.
pub proof fn law_bytes_go_up_by_1024(k: nat)
    requires
        1 < k < 1024,
    ensures
        display::bytes_in_words(k) == number::decimal(k) + " B"@,
        display::bytes_in_words(k * 1024) == number::decimal(k) + seq!['.', '0'] + " KB"@,
        display::bytes_in_words(k * 1_048_576) == number::decimal(k) + seq!['.', '0'] + " MB"@,
        display::bytes_in_words(k * 1_073_741_824) == number::decimal(k) + seq!['.', '0'] + " GB"@,
{
    law_whole_units(k, 1024);
    law_whole_units(k, 1_048_576);
    law_whole_units(k, 1_073_741_824);
}

/// An age is told in whole units, as many as have passed: seconds up to a minute, minutes up
/// to an hour, hours up to a day, and days.
pub proof fn law_an_age_is_told_in_whole_units(n: nat, rest: nat)
    ensures
        n < 60 ==> history::ago(n) == number::decimal(n) + seq!['s'],
        1 <= n < 60 && rest < 60 ==> history::ago(n * 60 + rest) == number::decimal(n) + seq!['m'],
        1 <= n < 24 && rest < 3600 ==> history::ago(n * 3600 + rest) == number::decimal(n) + seq!['h'],
        1 <= n && rest < 86_400 ==> history::ago(n * 86_400 + rest) == number::decimal(n) + seq!['d'],
{
    if rest < 60 {
        assert((n * 60 + rest) / 60 == n);
    }
    if rest < 3600 {
        assert((n * 3600 + rest) / 3600 == n);
    }
    if rest < 86_400 {
        assert((n * 86_400 + rest) / 86_400 == n);
    }
    assert(number::decimal(n).push('s') =~= number::decimal(n) + seq!['s']);
    assert(number::decimal(n).push('m') =~= number::decimal(n) + seq!['m']);
    assert(number::decimal(n).push('h') =~= number::decimal(n) + seq!['h']);
    assert(number::decimal(n).push('d') =~= number::decimal(n) + seq!['d']);
}

/// A text that is cut short is its own start and three dots; one that fits is left alone.
pub proof fn law_a_cut_text_is_its_own_start(s: Seq<char>, max: nat, i: int)
    ensures
        s.len() <= max ==> display::truncated(s, max as int) == s,
        s.len() > max ==> display::truncated(s, max as int).len() == max + 3,
        0 <= i < max && i < s.len() ==> display::truncated(s, max as int)[i] == s[i],
        s.len() > max && max <= i < max + 3 ==> display::truncated(s, max as int)[i] == '.',
{
}

// ---- titles ----------------------------------------------------------------------------------------------------

/// No character of a number is anything but a digit.
proof fn lemma_only_digits(n: nat, i: int)
    requires
        0 <= i < number::decimal(n).len(),
    ensures
        '0' <= number::decimal(n)[i] <= '9',
{
    number::lemma_digits_read_back(n, 10);
    assert(number::is_digit_of(number::decimal(n)[i], 10));
}

/// The host of a title that was made of an address is the host of the address, whatever the
/// user is called.
pub proof fn law_a_title_gives_its_host_back(user: Seq<char>, host: Seq<char>, port: nat)
    requires
        forall|i: int| 0 <= i < host.len() ==> host[i] != '@',
        !text::contains(titles::address(user, host, port), seq![' ', '[']),
    ensures
        titles::host_of(titles::address(user, host, port)) == host,
        titles::address(user, host, port) == user + seq!['@'] + host + seq![':'] + number::decimal(port),
{
    let d = number::decimal(port);
    let s = titles::address(user, host, port);
    let tail = host + seq![':'] + d;
    text::lemma_contains_is_find(s, titles::marker());
    assert(titles::base_of(s) == s);
    assert forall|i: int| 0 <= i < d.len() implies d[i] != '@' && d[i] != ':' by {
        lemma_only_digits(port, i);
    }
    lemma_last_char(user, '@', tail);
    assert(s =~= user + seq!['@'] + tail);
    assert(s.skip(user.len() as int + 1) =~= tail);
    lemma_last_char(host, ':', d);
    assert(tail.take(host.len() as int) =~= host);
}

/// A character is last found where none stands behind it.
proof fn lemma_last_char(a: Seq<char>, c: char, b: Seq<char>)
    requires
        forall|i: int| 0 <= i < b.len() ==> b[i] != c,
    ensures
        text::rfind_char(a + seq![c] + b, c) == Some(a.len() as int),
{
    let s = a + seq![c] + b;
    let n = a.len() as int;
    text::lemma_rfind(s, seq![c], s.len() as int);
    assert(s.subrange(n, n + 1) =~= seq![c]);
    assert(text::occurs_at(s, seq![c], n));
    assert forall|j: int| n < j <= s.len() implies !text::occurs_at(s, seq![c], j) by {
        if text::occurs_at(s, seq![c], j) {
            assert(s.subrange(j, j + 1)[0] == c);
            assert(s[j] == b[j - n - 1]);
        }
    }
}

// ---- what completes a command ----------------------------------------------------------------------------------

/// The command run last of those that go on from what was typed is suggested first.
pub proof fn law_the_newest_completion_comes_first(
    input: Seq<char>,
    records: Seq<CmdRecord>,
    snippets: Seq<Snippet>,
    k: int,
)
    requires
        text::trim(input).len() > 0,
        0 <= k < records.len(),
        history::completes(records[k].cmd@, input),
        forall|j: int| k < j < records.len() ==> !history::completes((#[trigger] records[j]).cmd@, input),
    ensures
        history::suggested(input, records, snippets).len() > 0,
        history::suggested(input, records, snippets)[0] == records[k].cmd@,
{
    let all = history::candidates(records, snippets);
    let cmds = records.map_values(|r: CmdRecord| r.cmd@);
    let i = records.len() - 1 - k;
    assert(all[i] == cmds.reverse()[i]);
    assert forall|j: int| 0 <= j < i implies !history::completes(#[trigger] all[j], input) by {
        assert(all[j] == cmds.reverse()[j]);
        assert(all[j] == records[records.len() - 1 - j].cmd@);
    }
    lemma_first_offered(all, input, i);
}

proof fn lemma_first_offered(all: Seq<Seq<char>>, input: Seq<char>, i: int)
    requires
        0 <= i < all.len(),
        history::completes(all[i], input),
        forall|j: int| 0 <= j < i ==> !history::completes(#[trigger] all[j], input),
    ensures
        history::offered(all, input).len() > 0,
        history::offered(all, input)[0] == all[i],
    decreases all.len(),
{
    let less = all.drop_last();
    if i == all.len() - 1 {
        lemma_none_offered(less, input);
    } else {
        lemma_first_offered(less, input, i);
    }
}

proof fn lemma_none_offered(all: Seq<Seq<char>>, input: Seq<char>)
    requires
        forall|j: int| 0 <= j < all.len() ==> !history::completes(#[trigger] all[j], input),
    ensures
        history::offered(all, input).len() == 0,
    decreases all.len(),
{
    if all.len() > 0 {
        lemma_none_offered(all.drop_last(), input);
    }
}

/// A completion is what was typed and then more.
pub proof fn law_a_completion_goes_on(input: Seq<char>, more: Seq<char>, other: Seq<char>)
    ensures
        history::completes(input + more, input) <==> more.len() > 0,
        history::completes(other, input) ==> other == input + other.skip(input.len() as int),
{
    assert((input + more).subrange(0, input.len() as int) =~= input);
    if history::completes(other, input) {
        assert(other.subrange(0, input.len() as int) == input);
        assert(other =~= input + other.skip(input.len() as int));
    }
}

// ---- the order of texts ----------------------------------------------------------------------------------------

/// Of two texts that differ at a character and agree before it, the one with the lower
/// character comes first; of a text and its beginning, the beginning.
pub proof fn law_texts_differ_at_their_first_difference(
    same: Seq<char>,
    x: char,
    y: char,
    a: Seq<char>,
    b: Seq<char>,
)
    requires
        x != y,
    ensures
        order::text_le(same + seq![x] + a, same + seq![y] + b) <==> x < y,
        order::text_le(same, same + a),
        a.len() > 0 ==> !order::text_le(same + a, same),
    decreases same.len(),
{
    let p = same + seq![x] + a;
    let q = same + seq![y] + b;
    if same.len() > 0 {
        let t = same.drop_first();
        law_texts_differ_at_their_first_difference(t, x, y, a, b);
        assert(p.drop_first() =~= t + seq![x] + a);
        assert(q.drop_first() =~= t + seq![y] + b);
        assert((same + a).drop_first() =~= t + a);
        assert((same + a)[0] == same[0]);
    }
}

} // verus!
