//! Ground-truth source: the `verifier.c` state-transition logic, the reference
//! for accept/reject decisions and register-state evolution. No part of it is
//! extracted yet, so the model holds nothing.
use vstd::prelude::*;

verus! {

/// Reference view of the verifier's decision and state-transition logic.
#[derive(Debug, Clone)]
#[non_exhaustive]
pub struct VerifierCModel {}

impl Default for VerifierCModel {
    fn default() -> (m: Self)
        ensures
            m == (VerifierCModel {}),
    {
        VerifierCModel {}
    }
}

} // verus!
