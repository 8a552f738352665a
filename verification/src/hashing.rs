//! The hashing collaborator: a pure digest function, reached through one
//! trusted wrapper.

use vstd::prelude::*;

use crate::text::{canon_spec, is_space_char, lemma_canon_identity};

verus! {

/// The digest of a text.  What the digest is on given values is not stated
/// here; only the wrapper below speaks of it.
pub uninterp spec fn hash_of(s: Seq<char>) -> Seq<char>;

/// Whether `c` is a lowercase hexadecimal digit.
pub open spec fn is_hex_digit(c: char) -> bool {
    ('0' <= c && c <= '9') || ('a' <= c && c <= 'f')
}

/// Whether `s` is a digest-shaped text: 64 lowercase hexadecimal digits.
pub open spec fn is_digest(s: Seq<char>) -> bool {
    s.len() == 64 && forall|i: int| 0 <= i < s.len() ==> is_hex_digit(s[i])
}

/// Relies on `ig_tools::hashing_tools::hash_text`: the SHA-256 digest of the
/// text's bytes, rendered as 64 lowercase hexadecimal characters — a function
/// of the text alone.
#[verifier::external_body]
pub(crate) fn hash_text(s: &str) -> (r: String)
    ensures
        r@ == hash_of(s@),
        is_digest(r@),
{
    ig_tools::hashing_tools::hash_text(s)
}

/// A digest-shaped text holds no whitespace and no line break, so it is its
/// own canonical form.
pub proof fn lemma_digest_canon_identity(s: Seq<char>)
    requires
        is_digest(s),
    ensures
        canon_spec(s) == s,
{
    assert(forall|i: int| 0 <= i < s.len() ==> !is_space_char(s[i]));
    lemma_canon_identity(s);
}

} // verus!
