//! How far a lookup follows redirects: one hop, and no further.
//!
//! A short link answers with a redirect to its target. That redirect is
//! followed; if the target redirects again, the lookup ends there, on the URL
//! that the first hop led to, whatever chain the server had in store.

use vstd::prelude::*;

verus! {

/// Whether a redirect is followed by a request that has visited `visited`
/// URLs so far, the one it was made for included.
pub open spec fn follows(visited: nat) -> bool {
    visited <= 1
}

/// How many redirects a request follows when the server answers with
/// `chain` redirects in a row and `visited` URLs have been visited so far.
pub open spec fn hops_taken(chain: nat, visited: nat) -> nat
    decreases chain,
{
    if chain == 0 || !follows(visited) {
        0
    } else {
        1 + hops_taken((chain - 1) as nat, visited + 1)
    }
}

/// Decides whether to follow a redirect, given how many URLs the request has
/// visited so far, the one it was made for included.
pub fn follow_redirect(visited: usize) -> (follow: bool)
    ensures
        follow == follows(visited as nat),
{
    visited <= 1
}

/// A lookup follows the first redirect and no other: against a chain of two
/// redirects or more it ends on the target of the first.
pub proof fn lemma_one_hop(chain: nat)
    ensures
        hops_taken(chain, 1) == if chain == 0 { 0nat } else { 1nat },
        hops_taken(chain, 1) <= 1,
{
    reveal_with_fuel(hops_taken, 3);
}

} // verus!
