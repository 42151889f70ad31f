//! The proof-of-existence module: an account claims a hash, and only the account
//! that holds a claim can revoke it.

use crate::keyed_map::{KeyedMap, StoreKey};
use crate::primitives::{
    ensure_signed, signer_of, AccountId, BlockNumber, DispatchError, Origin, H256,
};
use vstd::prelude::*;

verus! {

impl StoreKey for H256 {
    fn same_key(&self, other: &Self) -> (b: bool) {
        self.same(other)
    }
}

/// Who holds a claim, and the block in which it was made.
#[derive(Clone, Copy, Debug, PartialEq, Eq, Structural)]
pub struct ClaimRecord {
    pub owner: AccountId,
    pub block: BlockNumber,
}

/// What the module reports of a call that succeeded.
#[derive(Clone, Copy, Debug, PartialEq, Eq, Structural)]
pub enum Event {
    /// A claim has been created.
    ClaimCreated { who: AccountId, claim: H256 },
    /// A claim has been revoked by its owner.
    ClaimRevoked { who: AccountId, claim: H256 },
}

/// Why the module refused a call.
#[derive(Clone, Copy, Debug, PartialEq, Eq, Structural)]
pub enum Error {
    /// The claim already exists.
    AlreadyClaimed,
    /// The claim does not exist, so it cannot be revoked.
    NoSuchClaim,
    /// The claim is owned by another account, so the caller cannot revoke it.
    NotClaimOwner,
}

/// The outcome of a call of this module.
pub type CallResult = Result<Event, DispatchError<Error>>;

/// The claims after `create_claim`, and what the call returns.
pub open spec fn create_claim_spec(
    claims: Map<H256, ClaimRecord>,
    origin: Origin,
    claim: H256,
    now: BlockNumber,
) -> (Map<H256, ClaimRecord>, CallResult) {
    match signer_of(origin) {
        None => (claims, Err(DispatchError::BadOrigin)),
        Some(who) => if claims.contains_key(claim) {
            (claims, Err(DispatchError::Module(Error::AlreadyClaimed)))
        } else {
            (
                claims.insert(claim, ClaimRecord { owner: who, block: now }),
                Ok(Event::ClaimCreated { who, claim }),
            )
        },
    }
}

/// The claims after `revoke_claim`, and what the call returns.
pub open spec fn revoke_claim_spec(
    claims: Map<H256, ClaimRecord>,
    origin: Origin,
    claim: H256,
) -> (Map<H256, ClaimRecord>, CallResult) {
    match signer_of(origin) {
        None => (claims, Err(DispatchError::BadOrigin)),
        Some(who) => if !claims.contains_key(claim) {
            (claims, Err(DispatchError::Module(Error::NoSuchClaim)))
        } else if claims[claim].owner != who {
            (claims, Err(DispatchError::Module(Error::NotClaimOwner)))
        } else {
            (claims.remove(claim), Ok(Event::ClaimRevoked { who, claim }))
        },
    }
}

/// The state of the module: the claims, each under its hash.
pub struct Pallet {
    claims: KeyedMap<H256, ClaimRecord>,
}

impl View for Pallet {
    type V = Map<H256, ClaimRecord>;

    closed spec fn view(&self) -> Map<H256, ClaimRecord> {
        self.claims@
    }
}

impl Pallet {
    pub closed spec fn wf(&self) -> bool {
        self.claims.wf()
    }

    /// A module without claims.
    pub fn new() -> (p: Pallet)
        ensures
            p.wf(),
            p@ == Map::<H256, ClaimRecord>::empty(),
    {
        Pallet { claims: KeyedMap::new() }
    }

    /// The record of a claim, if it exists.
    pub fn claim(&self, claim: &H256) -> (r: Option<ClaimRecord>)
        requires
            self.wf(),
        ensures
            r == (if self@.contains_key(*claim) {
                Some(self@[*claim])
            } else {
                None::<ClaimRecord>
            }),
    {
        self.claims.get(claim)
    }

    /// The signer of `origin` claims `claim` in block `current_block`, unless the claim
    /// already exists.
    pub fn create_claim(&mut self, origin: Origin, claim: H256, current_block: BlockNumber) -> (r:
        CallResult)
        requires
            old(self).wf(),
        ensures
            final(self).wf(),
            (final(self)@, r) == create_claim_spec(old(self)@, origin, claim, current_block),
    {
        let sender = match ensure_signed(origin) {
            Ok(who) => who,
            Err(_) => return Err(DispatchError::BadOrigin),
        };
        if self.claims.contains_key(&claim) {
            return Err(DispatchError::Module(Error::AlreadyClaimed));
        }
        self.claims.insert(claim, ClaimRecord { owner: sender, block: current_block });
        Ok(Event::ClaimCreated { who: sender, claim })
    }

    /// The signer of `origin` revokes `claim`, which it must own.
    pub fn revoke_claim(&mut self, origin: Origin, claim: H256) -> (r: CallResult)
        requires
            old(self).wf(),
        ensures
            final(self).wf(),
            (final(self)@, r) == revoke_claim_spec(old(self)@, origin, claim),
    {
        let sender = match ensure_signed(origin) {
            Ok(who) => who,
            Err(_) => return Err(DispatchError::BadOrigin),
        };
        let owner = match self.claims.get(&claim) {
            Some(record) => record.owner,
            None => return Err(DispatchError::Module(Error::NoSuchClaim)),
        };
        if sender != owner {
            return Err(DispatchError::Module(Error::NotClaimOwner));
        }
        self.claims.remove(&claim);
        Ok(Event::ClaimRevoked { who: sender, claim })
    }
}

/// A claim made on a free hash can be revoked by its maker, which restores the claims
/// as they were.
pub proof fn revoke_undoes_create(
    claims: Map<H256, ClaimRecord>,
    who: AccountId,
    claim: H256,
    now: BlockNumber,
)
    requires
        !claims.contains_key(claim),
    ensures
        create_claim_spec(claims, Origin::Signed(who), claim, now).1 == Ok::<Event, DispatchError<Error>>(
            Event::ClaimCreated { who, claim },
        ),
        revoke_claim_spec(
            create_claim_spec(claims, Origin::Signed(who), claim, now).0,
            Origin::Signed(who),
            claim,
        ) == (claims, Ok::<Event, DispatchError<Error>>(Event::ClaimRevoked { who, claim })),
{
    let after = create_claim_spec(claims, Origin::Signed(who), claim, now).0;
    assert(after.remove(claim) =~= claims);
}

/// After a claim is created, the claims hold it, owned by its maker and stamped with the
/// block of the call.
pub proof fn created_claim_is_recorded(
    claims: Map<H256, ClaimRecord>,
    origin: Origin,
    claim: H256,
    now: BlockNumber,
)
    requires
        create_claim_spec(claims, origin, claim, now).1 is Ok,
    ensures
        signer_of(origin) is Some,
        create_claim_spec(claims, origin, claim, now).0[claim] == (ClaimRecord {
            owner: signer_of(origin)->0,
            block: now,
        }),
{
}

/// A hash cannot be claimed twice: once a claim is created, every later attempt on the
/// same hash is refused with `AlreadyClaimed` and changes nothing.
pub proof fn claim_cannot_be_taken_twice(
    claims: Map<H256, ClaimRecord>,
    first: Origin,
    second: AccountId,
    claim: H256,
    now: BlockNumber,
    later: BlockNumber,
)
    requires
        create_claim_spec(claims, first, claim, now).1 is Ok,
    ensures
        ({
            let after = create_claim_spec(claims, first, claim, now).0;
            create_claim_spec(after, Origin::Signed(second), claim, later) == (
                after,
                Err::<Event, DispatchError<Error>>(DispatchError::Module(Error::AlreadyClaimed)),
            )
        }),
{
}

/// Only the owner of a claim can revoke it: a revocation that succeeds was signed by the
/// owner, and one signed by any other account is refused with `NotClaimOwner`.
pub proof fn only_owner_revokes(claims: Map<H256, ClaimRecord>, origin: Origin, claim: H256)
    ensures
        revoke_claim_spec(claims, origin, claim).1 is Ok ==> claims.contains_key(claim)
            && signer_of(origin) == Some(claims[claim].owner),
        (claims.contains_key(claim) && signer_of(origin) is Some && signer_of(origin)->0
            != claims[claim].owner) ==> revoke_claim_spec(claims, origin, claim) == (
            claims,
            Err::<Event, DispatchError<Error>>(DispatchError::Module(Error::NotClaimOwner)),
        ),
{
}

/// A refused call leaves the claims as they were.
pub proof fn refused_calls_change_nothing(
    claims: Map<H256, ClaimRecord>,
    origin: Origin,
    claim: H256,
    now: BlockNumber,
)
    ensures
        create_claim_spec(claims, origin, claim, now).1 is Err ==> create_claim_spec(
            claims,
            origin,
            claim,
            now,
        ).0 == claims,
        revoke_claim_spec(claims, origin, claim).1 is Err ==> revoke_claim_spec(
            claims,
            origin,
            claim,
        ).0 == claims,
{
}

/// Any signed account can claim a hash that nobody holds: the call succeeds, reports the
/// signer and the hash, and adds exactly that claim, owned by the signer and stamped with
/// the block of the call.
pub proof fn free_hash_can_be_claimed(
    claims: Map<H256, ClaimRecord>,
    who: AccountId,
    claim: H256,
    now: BlockNumber,
)
    requires
        !claims.contains_key(claim),
    ensures
        create_claim_spec(claims, Origin::Signed(who), claim, now) == (
            claims.insert(claim, ClaimRecord { owner: who, block: now }),
            Ok::<Event, DispatchError<Error>>(Event::ClaimCreated { who, claim }),
        ),
{
}

/// The owner of a claim can always revoke it, whenever it was made: the call succeeds,
/// reports the owner and the hash, and removes exactly that claim.
pub proof fn owner_can_always_revoke(claims: Map<H256, ClaimRecord>, claim: H256)
    requires
        claims.contains_key(claim),
    ensures
        revoke_claim_spec(claims, Origin::Signed(claims[claim].owner), claim) == (
            claims.remove(claim),
            Ok::<Event, DispatchError<Error>>(Event::ClaimRevoked { who: claims[claim].owner, claim }),
        ),
        !revoke_claim_spec(claims, Origin::Signed(claims[claim].owner), claim).0.contains_key(claim),
{
}

} // verus!
