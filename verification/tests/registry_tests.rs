use claim_registry::{Error, Event, Registry};

#[test]
fn new_registry_is_empty() {
    let r = Registry::new();
    assert_eq!(r.get_proof(&vec![1, 2, 3]), None);
    assert_eq!(r.get_proof(&vec![]), None);
    assert!(r.events.is_empty());
}

#[test]
fn create_registers_owner_and_height() {
    let mut r = Registry::new();
    assert_eq!(r.create_claim(1, vec![0xde, 0xad], 42), Ok(()));
    assert_eq!(r.get_proof(&vec![0xde, 0xad]), Some((1, 42)));
    assert_eq!(r.events, vec![Event::ClaimCreated(1, vec![0xde, 0xad])]);
}

#[test]
fn create_accepts_empty_key() {
    let mut r = Registry::new();
    assert_eq!(r.create_claim(7, vec![], 1), Ok(()));
    assert_eq!(r.get_proof(&vec![]), Some((7, 1)));
}

#[test]
fn create_rejects_duplicates() {
    let mut r = Registry::new();
    assert_eq!(r.create_claim(1, vec![9], 5), Ok(()));
    assert_eq!(r.create_claim(2, vec![9], 6), Err(Error::ProofAlreadyExists));
    // The duplicate attempt, by the owner itself too, changes nothing.
    assert_eq!(r.create_claim(1, vec![9], 7), Err(Error::ProofAlreadyExists));
    assert_eq!(r.get_proof(&vec![9]), Some((1, 5)));
    assert_eq!(r.events, vec![Event::ClaimCreated(1, vec![9])]);
}

#[test]
fn distinct_keys_live_side_by_side() {
    let mut r = Registry::new();
    assert_eq!(r.create_claim(1, vec![0], 10), Ok(()));
    assert_eq!(r.create_claim(2, vec![0, 0], 11), Ok(()));
    assert_eq!(r.get_proof(&vec![0]), Some((1, 10)));
    assert_eq!(r.get_proof(&vec![0, 0]), Some((2, 11)));
}

#[test]
fn revoke_requires_ownership() {
    let mut r = Registry::new();
    assert_eq!(r.create_claim(1, vec![3, 4], 8), Ok(()));
    assert_eq!(r.revoke_claim(2, vec![3, 4]), Err(Error::NotClaimOwner));
    assert_eq!(r.get_proof(&vec![3, 4]), Some((1, 8)));
    assert_eq!(r.events, vec![Event::ClaimCreated(1, vec![3, 4])]);
}

#[test]
fn revoke_on_absent_key() {
    let mut r = Registry::new();
    assert_eq!(r.revoke_claim(1, vec![5]), Err(Error::ClaimNotExist));
    assert_eq!(r.create_claim(1, vec![5], 2), Ok(()));
    assert_eq!(r.revoke_claim(1, vec![5]), Ok(()));
    // Already revoked: absent again.
    assert_eq!(r.revoke_claim(1, vec![5]), Err(Error::ClaimNotExist));
    assert_eq!(r.get_proof(&vec![5]), None);
}

#[test]
fn revoke_deletes_entry_and_emits() {
    let mut r = Registry::new();
    assert_eq!(r.create_claim(4, vec![1], 3), Ok(()));
    assert_eq!(r.revoke_claim(4, vec![1]), Ok(()));
    assert_eq!(r.get_proof(&vec![1]), None);
    assert_eq!(
        r.events,
        vec![Event::ClaimCreated(4, vec![1]), Event::ClaimRevoked(4, vec![1])]
    );
}

#[test]
fn transfer_round_trip() {
    let mut r = Registry::new();
    assert_eq!(r.create_claim(1, vec![8, 8], 1), Ok(()));
    assert_eq!(r.send_claim(1, 2, vec![8, 8], 2), Ok(()));
    assert_eq!(r.get_proof(&vec![8, 8]), Some((2, 2)));
    // The old owner can no longer revoke.
    assert_eq!(r.revoke_claim(1, vec![8, 8]), Err(Error::NotClaimOwner));
    // The new owner can, leaving the key absent.
    assert_eq!(r.revoke_claim(2, vec![8, 8]), Ok(()));
    assert_eq!(r.get_proof(&vec![8, 8]), None);
    assert_eq!(r.revoke_claim(1, vec![8, 8]), Err(Error::ClaimNotExist));
}

#[test]
fn transfer_requires_ownership_and_presence() {
    let mut r = Registry::new();
    assert_eq!(r.send_claim(1, 2, vec![6], 1), Err(Error::ClaimNotExist));
    assert_eq!(r.create_claim(1, vec![6], 1), Ok(()));
    assert_eq!(r.send_claim(3, 2, vec![6], 2), Err(Error::NotClaimOwner));
    assert_eq!(r.get_proof(&vec![6]), Some((1, 1)));
}

#[test]
fn recreation_after_revoke() {
    let mut r = Registry::new();
    assert_eq!(r.create_claim(1, vec![2, 2], 1), Ok(()));
    assert_eq!(r.revoke_claim(1, vec![2, 2]), Ok(()));
    // Any actor may claim the key again.
    assert_eq!(r.create_claim(9, vec![2, 2], 4), Ok(()));
    assert_eq!(r.get_proof(&vec![2, 2]), Some((9, 4)));
}

#[test]
fn transfer_event_ordering() {
    let mut r = Registry::new();
    assert_eq!(r.create_claim(1, vec![7], 1), Ok(()));
    assert_eq!(r.send_claim(1, 2, vec![7], 5), Ok(()));
    assert_eq!(
        r.events,
        vec![
            Event::ClaimCreated(1, vec![7]),
            Event::ClaimRevoked(1, vec![7]),
            Event::ClaimCreated(2, vec![7]),
        ]
    );
    // A failed transfer emits nothing.
    assert_eq!(r.send_claim(1, 3, vec![7], 6), Err(Error::NotClaimOwner));
    assert_eq!(r.events.len(), 3);
}

#[test]
fn self_transfer_refreshes_height_and_emits_both_events() {
    let mut r = Registry::new();
    assert_eq!(r.create_claim(5, vec![1, 1], 10), Ok(()));
    assert_eq!(r.send_claim(5, 5, vec![1, 1], 20), Ok(()));
    assert_eq!(r.get_proof(&vec![1, 1]), Some((5, 20)));
    assert_eq!(
        r.events,
        vec![
            Event::ClaimCreated(5, vec![1, 1]),
            Event::ClaimRevoked(5, vec![1, 1]),
            Event::ClaimCreated(5, vec![1, 1]),
        ]
    );
}

#[test]
fn rejected_calls_have_no_partial_effects() {
    let mut r = Registry::new();
    assert_eq!(r.create_claim(1, vec![1], 1), Ok(()));
    assert_eq!(r.create_claim(2, vec![2], 2), Ok(()));
    let proofs_before: Vec<_> = r.entries.iter().map(|e| (e.key.clone(), e.owner, e.registered_at)).collect();
    let events_before = r.events.clone();

    assert_eq!(r.create_claim(3, vec![1], 9), Err(Error::ProofAlreadyExists));
    assert_eq!(r.revoke_claim(3, vec![1]), Err(Error::NotClaimOwner));
    assert_eq!(r.revoke_claim(3, vec![3]), Err(Error::ClaimNotExist));
    assert_eq!(r.send_claim(3, 4, vec![1], 9), Err(Error::NotClaimOwner));
    assert_eq!(r.send_claim(3, 4, vec![3], 9), Err(Error::ClaimNotExist));

    let proofs_after: Vec<_> = r.entries.iter().map(|e| (e.key.clone(), e.owner, e.registered_at)).collect();
    assert_eq!(proofs_after, proofs_before);
    assert_eq!(r.events, events_before);
}
