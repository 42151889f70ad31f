//! Values shared by every module: accounts, block numbers, hashes, origins and the
//! counters that hand out fresh identifiers.

use frame_support::traits::Incrementable;
use vstd::prelude::*;

verus! {

/// An account of the chain.
pub type AccountId = u64;

/// A block height.
pub type BlockNumber = u64;

/// A 256-bit hash, held as four 64-bit words, most significant word first.
#[derive(Clone, Copy, Debug, PartialEq, Eq, Structural, Default)]
pub struct H256 {
    pub w0: u64,
    pub w1: u64,
    pub w2: u64,
    pub w3: u64,
}

impl H256 {
    /// The all-zero hash, which is the default value of a hash.
    pub fn zero() -> (h: H256)
        ensures
            h == H256::spec_zero(),
    {
        H256 { w0: 0, w1: 0, w2: 0, w3: 0 }
    }

    pub open spec fn spec_zero() -> H256 {
        H256 { w0: 0, w1: 0, w2: 0, w3: 0 }
    }

    /// Whether two hashes are the same.
    pub fn same(&self, other: &H256) -> (b: bool)
        ensures
            b == (*self == *other),
    {
        self.w0 == other.w0 && self.w1 == other.w1 && self.w2 == other.w2 && self.w3 == other.w3
    }
}

/// Who dispatched a call.
#[derive(Clone, Copy, Debug, PartialEq, Eq, Structural)]
pub enum Origin {
    /// The system itself.
    Root,
    /// A transaction signed by the given account.
    Signed(AccountId),
    /// An unsigned transaction (the system origin `None`).
    Unsigned,
    /// An unsigned transaction that the runtime authorized.
    Authorized,
}

/// The error of a call whose origin is not the one it needs.
#[derive(Clone, Copy, Debug, PartialEq, Eq, Structural)]
pub struct BadOrigin;

/// The error of a dispatched call: either a bad origin, or an error of the module.
#[derive(Clone, Copy, Debug, PartialEq, Eq)]
pub enum DispatchError<E> {
    BadOrigin,
    Module(E),
}

/// The account that signed, if the origin is a signed one.
pub open spec fn signer_of(origin: Origin) -> Option<AccountId> {
    match origin {
        Origin::Signed(who) => Some(who),
        _ => None,
    }
}

/// The signer of a signed origin; every other origin is refused.
pub fn ensure_signed(origin: Origin) -> (r: Result<AccountId, BadOrigin>)
    ensures
        match signer_of(origin) {
            Some(who) => r == Ok::<AccountId, BadOrigin>(who),
            None => r == Err::<AccountId, BadOrigin>(BadOrigin),
        },
{
    match origin {
        Origin::Signed(who) => Ok(who),
        _ => Err(BadOrigin),
    }
}

/// An identifier handed out by a counter.
pub type Id = u32;

/// The first identifier a counter hands out when it has never been set.
pub open spec fn spec_initial_id() -> Option<Id> {
    Some(0u32)
}

/// The identifier that follows `id`, or nothing when `id` is the largest one.
pub open spec fn spec_next_id(id: Id) -> Option<Id> {
    if id < u32::MAX {
        Some((id + 1) as u32)
    } else {
        None
    }
}

/// The first identifier of a counter: `Incrementable::initial_value` of frame_support
/// for `u32`, whose source returns `Some(0)`.
#[verifier::external_body]
pub(crate) fn initial_id() -> (r: Option<Id>)
    ensures
        r == spec_initial_id(),
{
    <Id as Incrementable>::initial_value()
}

/// The identifier that follows `id`: `Incrementable::increment` of frame_support for
/// `u32`, whose source is `checked_add(1)`, so it is `None` exactly on overflow.
#[verifier::external_body]
pub(crate) fn next_id(id: Id) -> (r: Option<Id>)
    ensures
        r == spec_next_id(id),
{
    id.increment()
}

} // verus!
