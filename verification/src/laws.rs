//! The registry's laws, proved once and for all over the transition
//! functions of `crate::model` — the very functions the executable
//! operations are specified against — and, for uniqueness, over the
//! executable representation itself.

use vstd::prelude::*;

use crate::model::{create_step, revoke_step, send_step, ActorId, Error, EventV, Height, StateV};
use crate::registry::Registry;

verus! {

/// Uniqueness: a well-formed registry — and every operation keeps the
/// registry well-formed — holds at most one (owner, height) entry per
/// key: two entries with the same key stand at the same position.
pub proof fn lemma_uniqueness(r: Registry, i: int, j: int)
    requires
        r.wf(),
        0 <= i < r.entries@.len(),
        0 <= j < r.entries@.len(),
        r.entries@[i].key@ == r.entries@[j].key@,
    ensures
        i == j,
{
}

/// Create rejects duplicates: after any create of `k`, a second create of
/// `k` — by any caller — fails with `ProofAlreadyExists` and leaves the
/// state exactly as the first call left it.
pub proof fn lemma_create_rejects_duplicates(
    s: StateV,
    a: ActorId,
    b: ActorId,
    k: Seq<u8>,
    h1: Height,
    h2: Height,
)
    ensures
        ({
            let (s1, r1) = create_step(s, a, k, h1);
            let (s2, r2) = create_step(s1, b, k, h2);
            r2 == Err::<(), Error>(Error::ProofAlreadyExists) && s2 == s1
        }),
{
}

/// Revoke requires ownership: after `a` creates `k`, a revoke by any
/// `b != a` fails with `NotClaimOwner` and the entry for `k` — owner `a`,
/// height `h` — is unchanged.
pub proof fn lemma_revoke_requires_ownership(
    s: StateV,
    a: ActorId,
    b: ActorId,
    k: Seq<u8>,
    h: Height,
)
    requires
        !s.proofs.contains_key(k),
        b != a,
    ensures
        ({
            let (s1, r1) = create_step(s, a, k, h);
            let (s2, r2) = revoke_step(s1, b, k);
            &&& r1 == Ok::<(), Error>(())
            &&& r2 == Err::<(), Error>(Error::NotClaimOwner)
            &&& s2 == s1
            &&& s2.proofs[k] == (a, h)
        }),
{
}

/// Revoke on an absent key — never created, or already revoked — fails
/// with `ClaimNotExist` and changes nothing.
pub proof fn lemma_revoke_absent(s: StateV, a: ActorId, k: Seq<u8>)
    requires
        !s.proofs.contains_key(k),
    ensures
        revoke_step(s, a, k) == (s, Err::<(), Error>(Error::ClaimNotExist)),
{
}

/// Transfer round trip: `a` creates `k`, transfers it to `b != a`; from
/// then on a revoke by `a` fails with `NotClaimOwner`, a revoke by `b`
/// succeeds and leaves `k` absent, and after that a revoke by `a` fails
/// with `ClaimNotExist`.
pub proof fn lemma_transfer_round_trip(
    s: StateV,
    a: ActorId,
    b: ActorId,
    k: Seq<u8>,
    h1: Height,
    h2: Height,
)
    requires
        !s.proofs.contains_key(k),
        b != a,
    ensures
        ({
            let (s1, r1) = create_step(s, a, k, h1);
            let (s2, r2) = send_step(s1, a, b, k, h2);
            let (s3, r3) = revoke_step(s2, b, k);
            &&& r1 == Ok::<(), Error>(())
            &&& r2 == Ok::<(), Error>(())
            &&& s2.proofs[k] == (b, h2)
            &&& revoke_step(s2, a, k).1 == Err::<(), Error>(Error::NotClaimOwner)
            &&& revoke_step(s2, a, k).0 == s2
            &&& r3 == Ok::<(), Error>(())
            &&& !s3.proofs.contains_key(k)
            &&& revoke_step(s3, a, k).1 == Err::<(), Error>(Error::ClaimNotExist)
        }),
{
}

/// Re-creation after revoke: once `a` has created and revoked `k`, a
/// create of `k` by any actor `b` succeeds and installs `(b, h2)` —
/// absence truly lets any actor claim the key again.
pub proof fn lemma_recreate_after_revoke(
    s: StateV,
    a: ActorId,
    b: ActorId,
    k: Seq<u8>,
    h1: Height,
    h2: Height,
)
    requires
        !s.proofs.contains_key(k),
    ensures
        ({
            let (s1, r1) = create_step(s, a, k, h1);
            let (s2, r2) = revoke_step(s1, a, k);
            let (s3, r3) = create_step(s2, b, k, h2);
            &&& r1 == Ok::<(), Error>(())
            &&& r2 == Ok::<(), Error>(())
            &&& r3 == Ok::<(), Error>(())
            &&& s3.proofs[k] == (b, h2)
        }),
{
}

/// Event ordering for transfer: a successful transfer appends exactly
/// `ClaimRevoked(caller, k)` followed by `ClaimCreated(recipient, k)` to
/// the log, in that order; a failed transfer appends nothing.
pub proof fn lemma_transfer_event_order(
    s: StateV,
    a: ActorId,
    b: ActorId,
    k: Seq<u8>,
    h: Height,
)
    ensures
        ({
            let (s1, r) = send_step(s, a, b, k, h);
            &&& r is Ok ==> s1.events == s.events + seq![
                EventV::ClaimRevoked(a, k),
                EventV::ClaimCreated(b, k),
            ]
            &&& r is Err ==> s1.events == s.events
        }),
{
    let (s1, r) = send_step(s, a, b, k, h);
    if r is Ok {
        assert(s1.events =~= s.events + seq![
            EventV::ClaimRevoked(a, k),
            EventV::ClaimCreated(b, k),
        ]);
    }
}

/// No partial effects: every rejected call — whichever of the three
/// operations, whatever the error — leaves the whole observable state,
/// proofs table and event log alike, exactly as it was.
pub proof fn lemma_rejection_leaves_state(
    s: StateV,
    a: ActorId,
    b: ActorId,
    k: Seq<u8>,
    h: Height,
)
    ensures
        create_step(s, a, k, h).1 is Err ==> create_step(s, a, k, h).0 == s,
        revoke_step(s, a, k).1 is Err ==> revoke_step(s, a, k).0 == s,
        send_step(s, a, b, k, h).1 is Err ==> send_step(s, a, b, k, h).0 == s,
{
}

} // verus!
