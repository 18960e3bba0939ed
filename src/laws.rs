//! Properties of the registry that relate several operations, stated over
//! the abstract outcome functions that the operations' contracts use.
use vstd::prelude::*;
use crate::registry::{
    after_register, after_revoke, after_transfer, keys_within, owner_check, register_check,
    AccountId, BlockNumber, Error, ProofMap,
};

verus! {

/// A claim longer than the bound is rejected by every operation with
/// `ClaimTooLong`, and the registry is left unchanged.
pub proof fn law_overlong_claim_rejected(
    max: nat,
    proofs: ProofMap,
    origin: AccountId,
    claim: Seq<u8>,
    dest: AccountId,
    now: BlockNumber,
)
    requires
        claim.len() > max,
    ensures
        register_check(max, proofs, claim) == Err::<(), Error>(Error::ClaimTooLong),
        after_register(max, proofs, origin, claim, now) == proofs,
        owner_check(max, proofs, origin, claim) == Err::<(), Error>(Error::ClaimTooLong),
        after_revoke(max, proofs, origin, claim) == proofs,
        after_transfer(max, proofs, origin, claim, dest, now) == proofs,
{
}

/// Registering the same fresh claim twice, by the same or different
/// accounts: the first succeeds, the second fails with `ProofAlreadyExists`
/// and leaves the registry as the first left it.
pub proof fn law_register_twice(
    max: nat,
    proofs: ProofMap,
    first: AccountId,
    second: AccountId,
    claim: Seq<u8>,
    t1: BlockNumber,
    t2: BlockNumber,
)
    requires
        claim.len() <= max,
        !proofs.contains_key(claim),
    ensures
        register_check(max, proofs, claim) == Ok::<(), Error>(()),
        register_check(max, after_register(max, proofs, first, claim, t1), claim) == Err::<
            (),
            Error,
        >(Error::ProofAlreadyExists),
        after_register(max, after_register(max, proofs, first, claim, t1), second, claim, t2)
            == after_register(max, proofs, first, claim, t1),
{
}

/// Revoking or transferring a registered claim on behalf of anyone but its
/// owner fails with `NotClaimOwner` and leaves the registry unchanged.
pub proof fn law_only_owner_may_change(
    max: nat,
    proofs: ProofMap,
    origin: AccountId,
    claim: Seq<u8>,
    dest: AccountId,
    now: BlockNumber,
)
    requires
        keys_within(max, proofs),
        proofs.contains_key(claim),
        proofs[claim].0 != origin,
    ensures
        owner_check(max, proofs, origin, claim) == Err::<(), Error>(Error::NotClaimOwner),
        after_revoke(max, proofs, origin, claim) == proofs,
        after_transfer(max, proofs, origin, claim, dest, now) == proofs,
{
}

/// Register by `a`, transfer from `a` to `b`, revoke by `b`: each step
/// succeeds and the claim is absent at the end.
pub proof fn law_register_transfer_revoke(
    max: nat,
    proofs: ProofMap,
    a: AccountId,
    b: AccountId,
    claim: Seq<u8>,
    t1: BlockNumber,
    t2: BlockNumber,
)
    requires
        claim.len() <= max,
        !proofs.contains_key(claim),
    ensures
        register_check(max, proofs, claim) == Ok::<(), Error>(()),
        owner_check(max, after_register(max, proofs, a, claim, t1), a, claim) == Ok::<(), Error>(
            (),
        ),
        owner_check(
            max,
            after_transfer(max, after_register(max, proofs, a, claim, t1), a, claim, b, t2),
            b,
            claim,
        ) == Ok::<(), Error>(()),
        !after_revoke(
            max,
            after_transfer(max, after_register(max, proofs, a, claim, t1), a, claim, b, t2),
            b,
            claim,
        ).contains_key(claim),
{
    let p1 = after_register(max, proofs, a, claim, t1);
    assert(p1[claim] == (a, t1));
    let p2 = after_transfer(max, p1, a, claim, b, t2);
    assert(p2[claim] == (b, t2));
}

/// Revoking or transferring a claim that is within the bound but not
/// registered fails with `ClaimNotExist` and leaves the registry unchanged.
pub proof fn law_unregistered_claim(
    max: nat,
    proofs: ProofMap,
    origin: AccountId,
    claim: Seq<u8>,
    dest: AccountId,
    now: BlockNumber,
)
    requires
        claim.len() <= max,
        !proofs.contains_key(claim),
    ensures
        owner_check(max, proofs, origin, claim) == Err::<(), Error>(Error::ClaimNotExist),
        after_revoke(max, proofs, origin, claim) == proofs,
        after_transfer(max, proofs, origin, claim, dest, now) == proofs,
{
}

} // verus!
