//! Random identifiers for tasks and workers.
use vstd::prelude::*;

verus! {

/// The characters that an identifier is drawn from.
pub open spec fn id_charset() -> Seq<char> {
    "0123456789abcdefghijklmnopqrstuvwxyzABCDEFGHIJKLMNOPQRSTUVWXYZ"@
}

/// The length of every identifier.
pub const ID_LENGTH: usize = 16;

/// Whether `s` has the shape of an identifier: sixteen characters, each one
/// taken from `id_charset()`.
pub open spec fn is_id(s: Seq<char>) -> bool {
    &&& s.len() == ID_LENGTH
    &&& forall|i: int| 0 <= i < s.len() ==> id_charset().contains(#[trigger] s[i])
}

/// Calls `random_string::generate`, which builds a string of `length`
/// characters, each one picked at random from `charset` (it panics on an
/// empty charset). Which characters come out is chance: only the length and
/// that each character belongs to `charset` are claimed.
#[verifier::external_body]
fn random_chars(length: usize, charset: &str) -> (s: String)
    requires
        charset@.len() > 0,
    ensures
        s@.len() == length,
        forall|i: int| 0 <= i < s@.len() ==> charset@.contains(#[trigger] s@[i]),
{
    random_string::generate(length, charset)
}

/// A fresh random identifier of sixteen alphanumeric characters.
pub fn random_id() -> (id: String)
    ensures
        is_id(id@),
{
    proof {
        reveal_strlit("0123456789abcdefghijklmnopqrstuvwxyzABCDEFGHIJKLMNOPQRSTUVWXYZ");
    }
    random_chars(ID_LENGTH, "0123456789abcdefghijklmnopqrstuvwxyzABCDEFGHIJKLMNOPQRSTUVWXYZ")
}

/// An identifier holds no colon, so it can stand in front of the colon of a
/// worker message.
pub proof fn lemma_id_has_no_colon(s: Seq<char>)
    requires
        is_id(s),
    ensures
        !s.contains(':'),
{
    reveal_strlit("0123456789abcdefghijklmnopqrstuvwxyzABCDEFGHIJKLMNOPQRSTUVWXYZ");
    if s.contains(':') {
        let k = choose|k: int| 0 <= k < s.len() && s[k] == ':';
        assert(id_charset().contains(s[k]));
        let j = choose|j: int| 0 <= j < id_charset().len() && id_charset()[j] == ':';
        assert(false);
    }
}

} // verus!
