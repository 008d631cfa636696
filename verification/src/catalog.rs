//! The texts of the user interface, by key.

use vstd::prelude::*;

use crate::split;
use crate::text;

verus! {

/// The texts of one language. The first entry for a key is the one that counts.
#[derive(Debug)]
pub struct Catalog {
    pub entries: Vec<(String, String)>,
}

/// The text that `entries` gives for `key`; "???" for a key it does not know.
pub open spec fn text_for(entries: Seq<(String, String)>, key: Seq<char>) -> Seq<char>
    decreases entries.len(),
{
    if entries.len() == 0 {
        "???"@
    } else if entries[0].0@ == key {
        entries[0].1@
    } else {
        text_for(entries.drop_first(), key)
    }
}

/// The placeholder `{name}`.
pub open spec fn placeholder(name: Seq<char>) -> Seq<char> {
    seq!['{'] + name + seq!['}']
}

/// `template` with `value` for every `{name}` in it.
pub open spec fn filled(template: Seq<char>, name: Seq<char>, value: Seq<char>) -> Seq<char> {
    split::replace(template, placeholder(name), value)
}

/// `template` with `value` for every `{name}` in it.
pub fn fill(template: &str, name: &str, value: &str) -> (r: String)
    ensures
        r@ == filled(template@, name@, value@),
{
    let mut pat = text::string_of_char('{');
    pat.append(name);
    pat.push('}');
    assert(pat@ =~= placeholder(name@));
    split::replace_text(template, pat.as_str(), value)
}

impl Catalog {
    /// The text for `key`.
    pub open spec fn says(&self, key: Seq<char>) -> Seq<char> {
        text_for(self.entries@, key)
    }

    /// The text for `key` with `value` for `{name}`.
    pub open spec fn says_with(&self, key: Seq<char>, name: Seq<char>, value: Seq<char>) -> Seq<char> {
        filled(self.says(key), name, value)
    }

    /// The text for `key`; "???" when there is none.
    pub fn t(&self, key: &str) -> (r: String)
        ensures
            r@ == self.says(key@),
    {
        let mut i: usize = 0;
        assert(self.entries@.skip(0) =~= self.entries@);
        while i < self.entries.len()
            invariant
                i <= self.entries.len(),
                self.says(key@) == text_for(self.entries@.skip(i as int), key@),
            decreases self.entries.len() - i,
        {
            if text::same_text(self.entries[i].0.as_str(), key) {
                return self.entries[i].1.clone();
            }
            assert(self.entries@.skip(i as int).drop_first() =~= self.entries@.skip(i + 1));
            i += 1;
        }
        "???".to_owned()
    }

    /// The text for `key` with `value` for `{name}`.
    pub fn tf(&self, key: &str, name: &str, value: &str) -> (r: String)
        ensures
            r@ == self.says_with(key@, name@, value@),
    {
        let template = self.t(key);
        fill(template.as_str(), name, value)
    }
}

} // verus!
