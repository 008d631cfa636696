//! Wiping secrets out of memory, and ids that nobody can guess.

use vstd::prelude::*;
use zeroize::Zeroize;

verus! {

/// `<String as zeroize::Zeroize>::zeroize`: writes zeros over the bytes of the
/// text, in a way that is not optimised out, and leaves the text empty. Of
/// the memory behind a text nothing is said here; that the text is empty
/// afterwards is.
#[verifier::external_body]
pub(crate) fn wipe(s: &mut String)
    ensures
        final(s)@ == Seq::<char>::empty(),
{
    s.zeroize();
}

/// A digit of a hexadecimal number in lower case.
pub open spec fn is_hex(c: char) -> bool {
    '0' <= c <= '9' || 'a' <= c <= 'f'
}

/// A random (version 4) UUID as it is written: hexadecimal digits in groups of
/// 8, 4, 4, 4 and 12 with hyphens between, a `4` for the version and one of
/// `8`, `9`, `a`, `b` for the variant.
pub open spec fn random_uuid(id: Seq<char>) -> bool {
    &&& id.len() == 36
    &&& forall|i: int|
        0 <= i < 36 ==> if i == 8 || i == 13 || i == 18 || i == 23 {
            #[trigger] id[i] == '-'
        } else {
            is_hex(id[i])
        }
    &&& id[14] == '4'
    &&& id[19] == '8' || id[19] == '9' || id[19] == 'a' || id[19] == 'b'
}

/// `uuid::Uuid::new_v4`, written out by its `Display`: a random UUID. Which one
/// is up to chance, and that two calls differ is not said. The call panics
/// where the system has no random numbers to give.
#[verifier::external_body]
pub(crate) fn random_id() -> (id: String)
    ensures
        random_uuid(id@),
{
    uuid::Uuid::new_v4().to_string()
}

/// A text that was left out holds nothing.
pub open spec fn opt_view(s: Option<String>) -> Option<Seq<char>> {
    match s {
        Some(t) => Some(t@),
        None => None,
    }
}

/// Wipe a secret that may be there, and forget that it was.
pub fn wipe_opt(s: &mut Option<String>)
    ensures
        *final(s) == None::<String>,
{
    let mut gone: Option<String> = None;
    std::mem::swap(s, &mut gone);
    match gone {
        Some(mut t) => wipe(&mut t),
        None => {},
    }
}

/// Wipe every text of a list, and empty it.
pub fn wipe_all(texts: &mut Vec<String>)
    ensures
        final(texts)@ == Seq::<String>::empty(),
{
    while texts.len() > 0
        invariant
            true,
        decreases texts@.len(),
    {
        match texts.pop() {
            Some(mut t) => wipe(&mut t),
            None => {},
        }
    }
    assert(texts@ =~= Seq::<String>::empty());
}

} // verus!
