//! The guardian module: it records the analytics category that an off-chain worker
//! found for a claim, and decides when that worker sends a transaction.

use crate::analytics::HttpError;
use crate::primitives::{
    ensure_signed, signer_of, AccountId, BadOrigin, BlockNumber, Origin, H256,
};
use vstd::prelude::*;

verus! {

/// The constants the module is configured with.
#[derive(Clone, Copy, Debug, PartialEq, Eq, Structural)]
pub struct Config {
    /// The number of blocks after a sent transaction during which no other is sent.
    pub grace_period: BlockNumber,
    /// The number of blocks of cooldown after an unsigned transaction is included.
    pub unsigned_interval: BlockNumber,
    /// The base priority of unsigned transactions.
    pub unsigned_priority: u64,
    /// The largest number of prices kept.
    pub max_prices: u32,
}

/// What the module reports of a call that succeeded.
#[derive(Clone, Copy, Debug, PartialEq, Eq, Structural)]
pub enum Event {
    /// New analytics for a claim.
    NewAnalytics { claim: H256, analytics_cid: u32, maybe_who: Option<AccountId> },
}

/// The kind of transaction the off-chain worker sends in this run.
#[derive(Clone, Copy, Debug, PartialEq, Eq, Structural)]
pub enum TransactionType {
    Signed,
    /// No transaction at all.
    NoTransaction,
}

/// Why the value in the worker's local storage could not be read.
#[derive(Clone, Copy, Debug, PartialEq, Eq, Structural)]
pub enum StorageRetrievalError {
    /// The stored bytes do not decode to a block number.
    Undecodable,
}

/// Why the worker could not take the sending lock in its local storage.
#[derive(Clone, Copy, Debug, PartialEq, Eq, Structural)]
pub enum MutateStorageError {
    /// Another run wrote the value first; the block number that was to be written.
    ConcurrentModification(BlockNumber),
    /// A transaction was sent too recently.
    ValueFunctionFailed,
}

/// The payload of a signed price submission.
#[derive(Clone, Copy, Debug, PartialEq, Eq)]
pub struct PricePayload<Public, BlockNumber> {
    block_number: BlockNumber,
    price: u32,
    public: Public,
}

impl<Public: Copy, BlockNumber: Copy> PricePayload<Public, BlockNumber> {
    pub closed spec fn spec_public(&self) -> Public {
        self.public
    }

    pub closed spec fn spec_block_number(&self) -> BlockNumber {
        self.block_number
    }

    pub closed spec fn spec_price(&self) -> u32 {
        self.price
    }

    pub fn new(block_number: BlockNumber, price: u32, public: Public) -> (p: Self)
        ensures
            p.spec_block_number() == block_number,
            p.spec_price() == price,
            p.spec_public() == public,
    {
        PricePayload { block_number, price, public }
    }

    /// The public key that signs the payload.
    pub fn public(&self) -> (r: Public)
        ensures
            r == self.spec_public(),
    {
        self.public
    }
}

/// What the lock of the worker's local storage becomes: a stored block within the grace
/// period refuses the lock, anything else is replaced by the current block.
pub open spec fn send_lock_spec(
    grace_period: BlockNumber,
    last_send: Result<Option<BlockNumber>, StorageRetrievalError>,
    block_number: BlockNumber,
) -> Result<BlockNumber, ()> {
    match last_send {
        Ok(Some(block)) => if block_number < block + grace_period {
            Err(())
        } else {
            Ok(block_number)
        },
        _ => Ok(block_number),
    }
}

/// The transaction to send, given the outcome of taking the lock: a signed one in every
/// fourth block, none otherwise.
pub open spec fn transaction_type_spec(
    lock: Result<BlockNumber, MutateStorageError>,
) -> TransactionType {
    match lock {
        Ok(block_number) => if block_number % 4 == 0 {
            TransactionType::Signed
        } else {
            TransactionType::NoTransaction
        },
        Err(_) => TransactionType::NoTransaction,
    }
}

/// The event of a payment for `claim` with category `analytics_cid`.
pub open spec fn payment_event(
    maybe_who: Option<AccountId>,
    claim: H256,
    analytics_cid: u32,
) -> Event {
    Event::NewAnalytics { claim, analytics_cid, maybe_who }
}

/// The state of the module.
pub struct Pallet {
    config: Config,
    prices: Vec<u32>,
    next_unsigned_at: BlockNumber,
}

impl Pallet {
    pub closed spec fn spec_config(&self) -> Config {
        self.config
    }

    pub closed spec fn spec_prices(&self) -> Seq<u32> {
        self.prices@
    }

    pub closed spec fn spec_next_unsigned_at(&self) -> BlockNumber {
        self.next_unsigned_at
    }

    /// At most `max_prices` prices are kept.
    pub closed spec fn wf(&self) -> bool {
        self.prices@.len() <= self.config.max_prices
    }

    /// A module with the given constants, no prices, and unsigned transactions accepted
    /// from the first block on.
    pub fn new(config: Config) -> (p: Pallet)
        ensures
            p.wf(),
            p.spec_config() == config,
            p.spec_prices() == Seq::<u32>::empty(),
            p.spec_next_unsigned_at() == 0,
    {
        Pallet { config, prices: Vec::new(), next_unsigned_at: 0 }
    }

    pub fn config(&self) -> (c: Config)
        ensures
            c == self.spec_config(),
    {
        self.config
    }

    /// The prices kept, oldest first.
    pub fn prices(&self) -> (r: &Vec<u32>)
        ensures
            r@ == self.spec_prices(),
    {
        &self.prices
    }

    /// The first block in which an unsigned transaction is accepted.
    pub fn next_unsigned_at(&self) -> (r: BlockNumber)
        ensures
            r == self.spec_next_unsigned_at(),
    {
        self.next_unsigned_at
    }

    /// The signed origin records the category `category` that it found for `claim`.
    pub fn process_payments(origin: Origin, claim: H256, category: u32) -> (r: Result<
        Event,
        BadOrigin,
    >)
        ensures
            r == match signer_of(origin) {
                Some(who) => Ok::<Event, BadOrigin>(payment_event(Some(who), claim, category)),
                None => Err::<Event, BadOrigin>(BadOrigin),
            },
    {
        let who = match ensure_signed(origin) {
            Ok(who) => who,
            Err(e) => return Err(e),
        };
        Ok(Self::submit_payment(Some(who), claim, category))
    }

    /// The event that records the category `analytics_cid` for `claim`.
    pub fn submit_payment(maybe_who: Option<AccountId>, claim: H256, analytics_cid: u32) -> (e:
        Event)
        ensures
            e == payment_event(maybe_who, claim, analytics_cid),
    {
        Event::NewAnalytics { claim, analytics_cid, maybe_who }
    }

    /// What the sending lock becomes, given what the worker's local storage holds
    /// (`last_send`) and the current block.
    pub fn send_lock(
        &self,
        last_send: Result<Option<BlockNumber>, StorageRetrievalError>,
        block_number: BlockNumber,
    ) -> (r: Result<BlockNumber, ()>)
        requires
            last_send matches Ok(Some(block)) ==> block + self.spec_config().grace_period
                <= u64::MAX,
        ensures
            r == send_lock_spec(self.spec_config().grace_period, last_send, block_number),
    {
        match last_send {
            Ok(Some(block)) => {
                if block_number < block + self.config.grace_period {
                    Err(())
                } else {
                    Ok(block_number)
                }
            },
            _ => Ok(block_number),
        }
    }

    /// The category that the connection requests for `claim` give: this step is not
    /// carried out yet and always answers 0.
    pub fn process_connection_requests(_claim: H256) -> (r: Result<u32, HttpError>)
        ensures
            r == Ok::<u32, HttpError>(0),
    {
        Ok(0)
    }

    /// The transaction to send, given the outcome of taking the sending lock.
    pub fn transaction_type(lock: Result<BlockNumber, MutateStorageError>) -> (t: TransactionType)
        ensures
            t == transaction_type_spec(lock),
    {
        match lock {
            Ok(block_number) => if block_number % 4 == 0 {
                TransactionType::Signed
            } else {
                TransactionType::NoTransaction
            },
            Err(_) => TransactionType::NoTransaction,
        }
    }
}

/// Why the worker could not submit a payment for its connections.
#[derive(Clone, Copy, Debug, PartialEq, Eq, Structural)]
pub enum ConnectionsError {
    /// No local account can sign the transaction.
    NoLocalAccounts,
    /// The category could not be fetched.
    FetchFailed,
}

impl ConnectionsError {
    /// The message the worker logs for this error.
    pub fn message(&self) -> (m: &'static str)
        ensures
            m@ == match self {
                ConnectionsError::NoLocalAccounts =>
                    "No local accounts available. Consider adding one via `author_insertKey` RPC."@,
                ConnectionsError::FetchFailed => "Failed to fetch price"@,
            },
    {
        match self {
            ConnectionsError::NoLocalAccounts =>
                "No local accounts available. Consider adding one via `author_insertKey` RPC.",
            ConnectionsError::FetchFailed => "Failed to fetch price",
        }
    }
}

/// What the worker does next while processing the connections of a claim.
#[derive(Clone, Copy, Debug, PartialEq, Eq, Structural)]
pub enum ConnectionsAction {
    /// Fetch the category of the claim.
    Fetch,
    /// Sign and send the payment call for `claim` with `category`.
    Submit { claim: H256, category: u32 },
    /// Give up with this error.
    Fail(ConnectionsError),
}

/// The next step of processing the connections of `claim`: without an account that can
/// sign, fail; before the category is fetched, fetch it; a failed fetch fails; a fetched
/// category is submitted.
pub open spec fn connections_step_spec(
    claim: H256,
    can_sign: bool,
    fetched: Option<Result<u32, HttpError>>,
) -> ConnectionsAction {
    if !can_sign {
        ConnectionsAction::Fail(ConnectionsError::NoLocalAccounts)
    } else {
        match fetched {
            None => ConnectionsAction::Fetch,
            Some(Err(_)) => ConnectionsAction::Fail(ConnectionsError::FetchFailed),
            Some(Ok(category)) => ConnectionsAction::Submit { claim, category },
        }
    }
}

/// The next step of processing the connections of `claim`, given whether a local account
/// can sign and what fetching the category gave, if it was done.
pub fn connections_step(claim: H256, can_sign: bool, fetched: Option<Result<u32, HttpError>>) -> (a:
    ConnectionsAction)
    ensures
        a == connections_step_spec(claim, can_sign, fetched),
{
    if !can_sign {
        return ConnectionsAction::Fail(ConnectionsError::NoLocalAccounts);
    }
    match fetched {
        None => ConnectionsAction::Fetch,
        Some(Err(_)) => ConnectionsAction::Fail(ConnectionsError::FetchFailed),
        Some(Ok(category)) => ConnectionsAction::Submit { claim, category },
    }
}

/// The outcome of taking the lock when the worker's storage refused the new value, or
/// when it stored it (`stored`).
pub open spec fn lock_outcome(lock: Result<BlockNumber, ()>, stored: bool) -> Result<
    BlockNumber,
    MutateStorageError,
> {
    match lock {
        Ok(block_number) => if stored {
            Ok(block_number)
        } else {
            Err(MutateStorageError::ConcurrentModification(block_number))
        },
        Err(()) => Err(MutateStorageError::ValueFunctionFailed),
    }
}

/// The worker sends a signed transaction only in a block that is a multiple of four,
/// outside the grace period after the last one it sent, and only when it could store the
/// new lock; within the grace period it never sends one.
pub proof fn signed_only_outside_grace_period(
    grace_period: BlockNumber,
    last_send: Result<Option<BlockNumber>, StorageRetrievalError>,
    block_number: BlockNumber,
    stored: bool,
)
    ensures
        transaction_type_spec(
            lock_outcome(send_lock_spec(grace_period, last_send, block_number), stored),
        ) == TransactionType::Signed <==> {
            &&& stored
            &&& block_number % 4 == 0
            &&& !(last_send matches Ok(Some(block)) && block_number < block + grace_period)
        },
{
}

/// Processing the connections of a claim: without a signing account it always fails with
/// `NoLocalAccounts`; with one, every fetch error (whichever) fails with `FetchFailed`, a
/// fetched category is submitted for the claim unchanged, and before the fetch the worker
/// fetches. A submission happens only with a signing account and a fetched category, and
/// carries exactly that claim and category.
pub proof fn connections_submit_only_fetched_categories(
    claim: H256,
    can_sign: bool,
    fetched: Option<Result<u32, HttpError>>,
    error: HttpError,
    category: u32,
)
    ensures
        connections_step_spec(claim, false, fetched) == ConnectionsAction::Fail(
            ConnectionsError::NoLocalAccounts,
        ),
        connections_step_spec(claim, true, Some(Err(error))) == ConnectionsAction::Fail(
            ConnectionsError::FetchFailed,
        ),
        connections_step_spec(claim, true, Some(Ok(category))) == (ConnectionsAction::Submit {
            claim,
            category,
        }),
        connections_step_spec(claim, true, None) == ConnectionsAction::Fetch,
        connections_step_spec(claim, can_sign, fetched) matches ConnectionsAction::Submit {
            claim: c,
            category: k,
        } ==> can_sign && c == claim && fetched == Some(Ok::<u32, HttpError>(k)),
{
}

/// A payment event carries the claim, the category and the signer as they were given.
pub proof fn payment_event_carries_its_inputs(
    maybe_who: Option<AccountId>,
    claim: H256,
    analytics_cid: u32,
)
    ensures
        payment_event(maybe_who, claim, analytics_cid) matches Event::NewAnalytics {
            claim: c,
            analytics_cid: a,
            maybe_who: w,
        } ==> c == claim && a == analytics_cid && w == maybe_who,
{
}

} // verus!
