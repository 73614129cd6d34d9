//! The verifier's per-round challenge.

use vstd::prelude::*;

verus! {

/// The two questions the verifier can ask about a commitment `c = g^r mod p`.
#[derive(Clone, Copy, Debug, PartialEq, Eq, Structural)]
pub enum Choice {
    /// Reveal `(x + r) mod (p - 1)`.
    XRMP,
    /// Reveal the ephemeral secret `r` itself.
    R,
}

} // verus!
