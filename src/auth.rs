//! The authorization guard: who may mutate the counter.

use vstd::prelude::*;
use crate::error::CounterError;

verus! {

/// An opaque caller identity, compared by equality.
#[derive(Clone, Copy, Debug, PartialEq, Eq, Structural)]
pub struct Identity {
    pub block: u128,
    pub tx: u128,
}

/// The one-time-issued ownership record of a contract instance.
#[derive(Clone, Copy, Debug, PartialEq, Eq, Structural)]
pub enum Capability {
    NotProvisioned,
    ProvisionedTo(Identity),
}

impl Capability {
    /// Whether `caller` holds this capability.
    pub open spec fn held_by(self, caller: Identity) -> bool {
        self == Capability::ProvisionedTo(caller)
    }

    /// Succeeds exactly when `caller` is the identity the capability was provisioned to.
    pub fn require_owner(&self, caller: Identity) -> (r: Result<(), CounterError>)
        ensures
            r is Ok <==> self.held_by(caller),
            r is Err ==> r == Err::<(), CounterError>(CounterError::Unauthorized),
    {
        match self {
            Capability::ProvisionedTo(owner) => {
                if *owner == caller {
                    Ok(())
                } else {
                    Err(CounterError::Unauthorized)
                }
            },
            Capability::NotProvisioned => Err(CounterError::Unauthorized),
        }
    }
}

} // verus!
