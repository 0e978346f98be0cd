//! The keys under which the generator and the attribute macros meet: a hash
//! of each marked signature, taken with `ahash` under fixed seeds.

use vstd::prelude::*;
use ahash::RandomState;
use crate::text::{is_white_space, is_whitespace, push_char, push_str, chars_of};

verus! {

#[verifier::external_type_specification]
#[verifier::external_body]
pub struct ExRandomState(RandomState);

/// Calls `ahash::RandomState::with_seeds`. Its documentation promises that
/// states built from the same seeds give identical hashers; the hashes
/// themselves may differ between builds and machines, so nothing is stated
/// of them.
#[verifier::external_body]
fn state_with_seeds(k0: u64, k1: u64, k2: u64, k3: u64) -> RandomState {
    RandomState::with_seeds(k0, k1, k2, k3)
}

/// Calls `ahash::RandomState::hash_one` on a string. The value depends on
/// the machine and the `ahash` build, so nothing is stated of it.
#[verifier::external_body]
fn hash_text(state: &RandomState, text: &str) -> u64 {
    state.hash_one(text)
}

/// The text that a signature is hashed by: the prefix, then the signature's
/// text without any whitespace.
pub open spec fn normalized_signature(prefix: Seq<char>, sig_text: Seq<char>) -> Seq<char> {
    prefix + sig_text.filter(|c: char| !is_white_space(c))
}

/// Builds the text that a signature is hashed by.
pub fn normalize_signature(prefix: &str, sig_text: &str) -> (r: String)
    ensures
        r@ == normalized_signature(prefix@, sig_text@),
{
    let mut s = String::new();
    push_str(&mut s, prefix);
    let cs = chars_of(sig_text);
    let ghost keep = |c: char| !is_white_space(c);
    let mut i: usize = 0;
    assert(cs@.take(0).filter(keep) =~= Seq::<char>::empty()) by {
        reveal(Seq::filter);
    }
    while i < cs.len()
        invariant
            i <= cs.len(),
            cs@ == sig_text@,
            keep == (|c: char| !is_white_space(c)),
            s@ == prefix@ + cs@.take(i as int).filter(keep),
        decreases cs.len() - i,
    {
        let c = cs[i];
        assert(cs@.take(i + 1).drop_last() =~= cs@.take(i as int));
        assert(cs@.take(i + 1).filter(keep) == (if keep(c) {
            cs@.take(i as int).filter(keep).push(c)
        } else {
            cs@.take(i as int).filter(keep)
        })) by {
            reveal(Seq::filter);
        }
        if !is_whitespace(c) {
            push_char(&mut s, c);
        }
        i += 1;
    }
    assert(cs@.take(cs.len() as int) =~= cs@);
    s
}

/// The hash of an identifier, under the fixed seeds. `ahash` documents that
/// its output may differ between machines and versions, so no clause states
/// the value.
pub fn calculate_ident_hash(ident: &str) -> u64 {
    let state = state_with_seeds(0, 0, 0, 0);
    hash_text(&state, ident)
}

/// The hash of a signature (given by its text) under a prefix: the hash of
/// [`normalized_signature`], under the fixed seeds. The text hashed is the
/// one [`normalize_signature`] builds, whose contract states it; the value
/// itself may differ between machines and `ahash` versions, so no clause
/// states it.
pub fn calculate_sig_hash(prefix: &str, sig_text: &str) -> u64 {
    let normalized = normalize_signature(prefix, sig_text);
    let state = state_with_seeds(0, 0, 0, 0);
    hash_text(&state, normalized.as_str())
}

} // verus!
