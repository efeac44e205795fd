use std::hash::{Hash, Hasher};
use vstd::prelude::*;

use crate::digits::{hex_token, hex_token_of, is_lower_hex};

verus! {

/// The 64-bit value that std's `DefaultHasher`, made by `DefaultHasher::new`,
/// finishes with after hashing the path written as `p`.
pub uninterp spec fn default_path_hash(p: Seq<char>) -> u64;

/// Relies on `std::hash::DefaultHasher::new` and `Hash for Path`: a hasher made
/// by `new` starts from fixed keys, so the value depends on the path alone.
#[verifier::external_body]
fn hash_of_path(p: &str) -> (r: u64)
    ensures
        r == default_path_hash(p@),
{
    let mut s = std::hash::DefaultHasher::new();
    std::path::Path::new(p).hash(&mut s);
    s.finish()
}

/// The work-area token of the path written as `p`.
pub open spec fn path_token(p: Seq<char>) -> Seq<char> {
    hex_token(default_path_hash(p))
}

/// A seven-character lowercase hex token for `path`, the same on every call.
pub fn hash_path(path: &str) -> (r: String)
    ensures
        r@ == path_token(path@),
        r@.len() == 7,
        forall|i: int| 0 <= i < 7 ==> is_lower_hex(#[trigger] r@[i]),
{
    hex_token_of(hash_of_path(path))
}

/// The token is seven lowercase hex digits, and the same path always gives
/// the same token.
pub proof fn lemma_path_token(p: Seq<char>, q: Seq<char>)
    requires
        p == q,
    ensures
        path_token(p).len() == 7,
        forall|i: int| 0 <= i < 7 ==> is_lower_hex(#[trigger] path_token(p)[i]),
        path_token(p) == path_token(q),
{
    crate::digits::lemma_digits_hex(crate::digits::leading_seven(default_path_hash(p) as nat), 7);
}

} // verus!
