//! The abstract model of the registry: its observable state (the proofs
//! table and the event log), the closed error set, and one transition
//! function per operation. The executable registry is specified against
//! these transitions, and the registry's laws are proved about them.

use vstd::prelude::*;

verus! {

/// An authenticated participant identifier, supplied by the host.
pub type ActorId = u64;

/// A monotonically non-decreasing ledger height, supplied by the host.
pub type Height = u64;

/// The closed set of rejection reasons.
#[derive(Clone, Copy, Debug, PartialEq, Eq)]
pub enum Error {
    /// A create was attempted on a key with a live entry.
    ProofAlreadyExists,
    /// A revoke or transfer was attempted on a key with no live entry.
    ClaimNotExist,
    /// A revoke or transfer was attempted by a caller who does not own the key.
    NotClaimOwner,
}

/// A notification, at the specification level: the key is a mathematical
/// byte sequence.
pub enum EventV {
    ClaimCreated(ActorId, Seq<u8>),
    ClaimRevoked(ActorId, Seq<u8>),
}

/// The observable state of a registry: the mapping from each claimed key
/// to its single owner and registration height, and the ordered log of
/// every event emitted so far.
#[verifier::ext_equal]
pub struct StateV {
    pub proofs: Map<Seq<u8>, (ActorId, Height)>,
    pub events: Seq<EventV>,
}

/// The transition taken by a create: if the key has a live entry the call
/// is rejected with `ProofAlreadyExists` and the state is unchanged;
/// otherwise the caller's claim is inserted at the given height and
/// `ClaimCreated` is emitted.
pub open spec fn create_step(
    s: StateV,
    caller: ActorId,
    key: Seq<u8>,
    height: Height,
) -> (StateV, Result<(), Error>) {
    if s.proofs.contains_key(key) {
        (s, Err(Error::ProofAlreadyExists))
    } else {
        (
            StateV {
                proofs: s.proofs.insert(key, (caller, height)),
                events: s.events.push(EventV::ClaimCreated(caller, key)),
            },
            Ok(()),
        )
    }
}

/// The transition taken by a revoke: absence of the key is rejected with
/// `ClaimNotExist` (checked first), a caller other than the owner with
/// `NotClaimOwner`; otherwise the entry is deleted and `ClaimRevoked` is
/// emitted.
pub open spec fn revoke_step(s: StateV, caller: ActorId, key: Seq<u8>) -> (StateV, Result<
    (),
    Error,
>) {
    if !s.proofs.contains_key(key) {
        (s, Err(Error::ClaimNotExist))
    } else if s.proofs[key].0 != caller {
        (s, Err(Error::NotClaimOwner))
    } else {
        (
            StateV {
                proofs: s.proofs.remove(key),
                events: s.events.push(EventV::ClaimRevoked(caller, key)),
            },
            Ok(()),
        )
    }
}

/// The transition taken by a transfer: the same checks and errors as a
/// revoke, in the same order; on success the entry is atomically replaced
/// by the recipient's claim at the given height — the key is never absent
/// in any observable state — and `ClaimRevoked(caller)` is emitted
/// strictly before `ClaimCreated(recipient)`. The recipient may equal the
/// caller: the height is still refreshed and both events still emitted.
pub open spec fn send_step(
    s: StateV,
    caller: ActorId,
    recipient: ActorId,
    key: Seq<u8>,
    height: Height,
) -> (StateV, Result<(), Error>) {
    if !s.proofs.contains_key(key) {
        (s, Err(Error::ClaimNotExist))
    } else if s.proofs[key].0 != caller {
        (s, Err(Error::NotClaimOwner))
    } else {
        (
            StateV {
                proofs: s.proofs.insert(key, (recipient, height)),
                events: s.events.push(EventV::ClaimRevoked(caller, key)).push(
                    EventV::ClaimCreated(recipient, key),
                ),
            },
            Ok(()),
        )
    }
}

} // verus!
