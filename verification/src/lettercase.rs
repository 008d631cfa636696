//! Lower case, and text folded for searching.

use vstd::prelude::*;

use crate::text;

verus! {

/// What `char::to_lowercase` yields for a character.
pub uninterp spec fn lower_char(c: char) -> Seq<char>;

/// What `str::to_lowercase` makes of a text.
pub uninterp spec fn lower_text(s: Seq<char>) -> Seq<char>;

/// The ASCII letters `A` to `Z` in lower case; any other character as it is.
pub open spec fn ascii_lower(c: char) -> char {
    if 'A' <= c <= 'Z' {
        (c as int + 32) as char
    } else {
        c
    }
}

/// `char::to_lowercase`: the Unicode lower-case mapping, one or more
/// characters. For an ASCII character it is the one `ascii_lower` gives.
#[verifier::external_body]
fn to_lower(c: char) -> (r: Vec<char>)
    ensures
        r@ == lower_char(c),
        r@.len() >= 1,
        c <= '\u{7F}' ==> r@ == seq![ascii_lower(c)],
{
    c.to_lowercase().collect()
}

/// `str::to_lowercase`: the Unicode lower-case form of the whole text. It
/// maps a text of ASCII characters one by one.
#[verifier::external_body]
fn to_lower_text(s: &str) -> (r: String)
    ensures
        r@ == lower_text(s@),
        (forall|i: int| 0 <= i < s@.len() ==> #[trigger] s@[i] <= '\u{7F}') ==> r@
            == s@.map_values(|c: char| ascii_lower(c)),
{
    s.to_lowercase()
}

/// Every character in lower case, one after the other.
pub open spec fn lower_each(s: Seq<char>) -> Seq<char>
    decreases s.len(),
{
    if s.len() == 0 {
        Seq::empty()
    } else {
        lower_each(s.drop_last()) + lower_char(s.last())
    }
}

/// A full-width character as its ASCII self, the ideographic space as a space.
pub open spec fn narrow(c: char) -> char {
    if '\u{FF01}' <= c <= '\u{FF5E}' {
        (c as int - 0xFEE0) as char
    } else if c == '\u{3000}' {
        ' '
    } else {
        c
    }
}

/// Text folded for search: narrow, then in lower case.
pub open spec fn folded(s: Seq<char>) -> Seq<char> {
    lower_each(narrowed(s))
}

/// The text holds ASCII characters only.
pub open spec fn is_ascii(s: Seq<char>) -> bool {
    forall|i: int| 0 <= i < s.len() ==> #[trigger] s[i] <= '\u{7F}'
}

/// The text with its ASCII letters in lower case.
pub open spec fn ascii_lowered(s: Seq<char>) -> Seq<char> {
    s.map_values(|c: char| ascii_lower(c))
}

/// The text, narrow.
pub open spec fn narrowed(s: Seq<char>) -> Seq<char> {
    s.map_values(|c: char| narrow(c))
}

/// The text in lower case, as a whole.
pub fn lowercase(s: &str) -> (r: String)
    ensures
        r@ == lower_text(s@),
        is_ascii(s@) ==> r@ == ascii_lowered(s@),
{
    to_lower_text(s)
}

/// The text in lower case, character by character.
pub fn lowercase_chars(s: &[char]) -> (out: Vec<char>)
    ensures
        out@ == lower_each(s@),
        out@.len() >= s@.len(),
        is_ascii(s@) ==> out@ == ascii_lowered(s@),
{
    let mut out: Vec<char> = Vec::new();
    let mut i: usize = 0;
    while i < s.len()
        invariant
            i <= s.len(),
            out@ =~= lower_each(s@.take(i as int)),
            out@.len() >= i,
            is_ascii(s@) ==> out@ =~= ascii_lowered(s@.take(i as int)),
        decreases s.len() - i,
    {
        let lower = to_lower(s[i]);
        crate::split::push_all(&mut out, lower.as_slice());
        assert(s@.take(i + 1).drop_last() =~= s@.take(i as int));
        i += 1;
    }
    assert(s@.take(i as int) =~= s@);
    out
}

pub fn narrow_char(c: char) -> (r: char)
    ensures
        r == narrow(c),
{
    if '\u{FF01}' <= c && c <= '\u{FF5E}' {
        let n: u32 = c as u32 - 0xFEE0;
        (n as u8) as char
    } else if c == '\u{3000}' {
        ' '
    } else {
        c
    }
}

/// Text folded for search: lowercase, with the full-width Latin letters,
/// digits and punctuation a Chinese input method types in full-width mode
/// read as their ASCII selves, and the ideographic space as a space.
pub fn search_fold(s: &str) -> (r: String)
    ensures
        r@ == folded(s@),
        r@.len() >= s@.len(),
        is_ascii(narrowed(s@)) ==> r@ == ascii_lowered(narrowed(s@)),
{
    let cs = text::chars_of(s);
    let mut thin: Vec<char> = Vec::new();
    let mut i: usize = 0;
    while i < cs.len()
        invariant
            i <= cs.len(),
            thin@ =~= narrowed(cs@.take(i as int)),
        decreases cs.len() - i,
    {
        thin.push(narrow_char(cs[i]));
        i += 1;
    }
    assert(cs@.take(i as int) =~= cs@);
    let lower = lowercase_chars(thin.as_slice());
    text::string_of(lower.as_slice())
}

/// `wide` is `c`, or the full-width form of it.
pub open spec fn is_form_of(wide: char, c: char) -> bool {
    ||| wide == c
    ||| '!' <= c <= '~' && wide as int == c as int + 0xFEE0
    ||| c == ' ' && wide == '\u{3000}'
}

/// Folding does not see the width of a character: whichever characters of a text
/// are written in full width, it folds the same.
pub proof fn law_fold_ignores_width(s: Seq<char>, wide: Seq<char>)
    requires
        wide.len() == s.len(),
        forall|i: int| 0 <= i < s.len() ==> is_form_of(#[trigger] wide[i], s[i]),
    ensures
        folded(wide) == folded(s),
{
    assert forall|i: int| 0 <= i < s.len() implies narrow(#[trigger] wide[i]) == narrow(s[i]) by {
        assert(is_form_of(wide[i], s[i]));
    }
    assert(narrowed(wide) =~= narrowed(s));
}

/// A text that is ASCII but for its width folds to one that is folded already: what
/// `search_fold` gives of it, it gives of that again.
pub proof fn law_folding_twice_is_folding_once(s: Seq<char>)
    requires
        is_ascii(narrowed(s)),
    ensures
        ({
            let once = ascii_lowered(narrowed(s));
            is_ascii(narrowed(once)) && ascii_lowered(narrowed(once)) == once
        }),
{
    let thin = narrowed(s);
    let once = ascii_lowered(thin);
    assert forall|i: int| 0 <= i < once.len() implies #[trigger] once[i] <= '\u{7F}' && narrow(once[i]) == once[i]
        && ascii_lower(once[i]) == once[i] by {
        assert(thin[i] <= '\u{7F}');
        assert(once[i] == ascii_lower(thin[i]));
    }
    assert(narrowed(once) =~= once);
    assert(ascii_lowered(once) =~= once);
}

} // verus!
