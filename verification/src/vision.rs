//! The vision module: accounts register percepts (sources of video) and cognitos
//! (workers that analyse it), and connect a percept to a cognito. A connection is
//! owned by the account that made it and carries the proof of the work done on it.

use crate::keyed_map::{KeyedMap, StoreKey};
use crate::primitives::{
    ensure_signed, initial_id, next_id, signer_of, spec_initial_id, spec_next_id, AccountId,
    BlockNumber, DispatchError, Id, Origin, H256,
};
use vstd::prelude::*;

verus! {

/// A connection between a percept and a cognito.
#[derive(Clone, Copy, Debug, PartialEq, Eq, Default)]
pub struct ConnectionDetails<AccountId, ConnectionId, BlockNumber, Proof> {
    /// The account that made the connection.
    pub owner: AccountId,
    pub connection: ConnectionId,
    pub start_block: BlockNumber,
    pub proof: Proof,
}

/// A percept: a source of data.
#[derive(Clone, Copy, Debug, PartialEq, Eq, Default)]
pub struct PerceptDetails<Status, Caps> {
    pub status: Status,
    pub caps: Caps,
}

/// A cognito: a worker that analyses data.
#[derive(Clone, Copy, Debug, PartialEq, Eq, Default)]
pub struct CognitoDetails<Status, Caps> {
    pub status: Status,
    pub caps: Caps,
}

/// The connections that this module stores.
pub type Connection = ConnectionDetails<AccountId, Id, BlockNumber, H256>;

/// The key of a percept or a cognito: its owner and its identifier.
#[derive(Clone, Copy, Debug, PartialEq, Eq, Structural)]
pub struct NodeKey {
    pub owner: AccountId,
    pub id: Id,
}

/// The key of a connection: the percept and the cognito that it connects.
#[derive(Clone, Copy, Debug, PartialEq, Eq, Structural)]
pub struct ConnectionKey {
    pub percept_id: Id,
    pub cognito_id: Id,
}

impl StoreKey for NodeKey {
    fn same_key(&self, other: &Self) -> (b: bool) {
        self.owner == other.owner && self.id == other.id
    }
}

impl StoreKey for ConnectionKey {
    fn same_key(&self, other: &Self) -> (b: bool) {
        self.percept_id == other.percept_id && self.cognito_id == other.cognito_id
    }
}

/// What the module reports of a call that succeeded.
#[derive(Clone, Copy, Debug, PartialEq, Eq, Structural)]
pub enum Event {
    PerceptCreated { who: AccountId, percept_id: Id },
    PerceptRevoked { who: AccountId, percept_id: Id },
    CognitoCreated { who: AccountId, cognito_id: Id },
    CognitoRevoked { who: AccountId, cognito_id: Id },
    ConnectionCreated { who: AccountId, connection_id: Id },
    ConnectionRevoked { who: AccountId, connection_id: Id },
    ConnectionUpdated { who: AccountId, connection_id: Id },
}

/// Why the module refused a call.
#[derive(Clone, Copy, Debug, PartialEq, Eq, Structural)]
pub enum Error {
    /// The node or connection already exists.
    AlreadyCreated,
    /// The node or connection does not exist.
    NoSuchNode,
    /// The connection is owned by another account.
    NotOwner,
    /// A name is too long.
    TooLong,
    /// No identifier could be handed out.
    UnknownPercept,
    /// The connection vanished while it was being updated.
    UnknownConnection,
    /// The connection does not exist.
    DoesNotExist,
}

/// The outcome of a call of this module.
pub type CallResult = Result<Event, DispatchError<Error>>;

/// The state of the module, as maps and counters.
pub struct VisionState<PS, PC, CS, CC> {
    pub percepts: Map<NodeKey, PerceptDetails<PS, PC>>,
    pub next_percept_id: Option<Id>,
    pub cognitos: Map<NodeKey, CognitoDetails<CS, CC>>,
    pub next_cognito_id: Option<Id>,
    pub connections: Map<ConnectionKey, Connection>,
    pub next_connection_id: Option<Id>,
}

/// The identifier that a counter hands out next: its stored value, or the first
/// identifier when it holds none.
pub open spec fn counter_candidate(counter: Option<Id>) -> Option<Id> {
    match counter {
        Some(id) => Some(id),
        None => spec_initial_id(),
    }
}

pub open spec fn module_err<PS, PC, CS, CC>(s: VisionState<PS, PC, CS, CC>, e: Error) -> (
    VisionState<PS, PC, CS, CC>,
    CallResult,
) {
    (s, Err(DispatchError::Module(e)))
}

pub open spec fn origin_err<PS, PC, CS, CC>(s: VisionState<PS, PC, CS, CC>) -> (
    VisionState<PS, PC, CS, CC>,
    CallResult,
) {
    (s, Err(DispatchError::BadOrigin))
}

/// `create_percept`: the signer registers a percept under the next percept identifier.
/// The counter itself is left as it is.
pub open spec fn create_percept_spec<PS, PC, CS, CC>(
    s: VisionState<PS, PC, CS, CC>,
    origin: Origin,
    status: PS,
    caps: PC,
) -> (VisionState<PS, PC, CS, CC>, CallResult) {
    match counter_candidate(s.next_percept_id) {
        None => module_err(s, Error::UnknownPercept),
        Some(id) => match signer_of(origin) {
            None => origin_err(s),
            Some(who) => if s.percepts.contains_key(NodeKey { owner: who, id }) {
                module_err(s, Error::AlreadyCreated)
            } else {
                (
                    VisionState {
                        percepts: s.percepts.insert(
                            NodeKey { owner: who, id },
                            PerceptDetails { status, caps },
                        ),
                        ..s
                    },
                    Ok(Event::PerceptCreated { who, percept_id: id }),
                )
            },
        },
    }
}

/// `revoke_percept`: the signer removes its percept `id`, and the percept counter is set
/// to the identifier after `id`.
pub open spec fn revoke_percept_spec<PS, PC, CS, CC>(
    s: VisionState<PS, PC, CS, CC>,
    origin: Origin,
    id: Id,
) -> (VisionState<PS, PC, CS, CC>, CallResult) {
    match signer_of(origin) {
        None => origin_err(s),
        Some(who) => if !s.percepts.contains_key(NodeKey { owner: who, id }) {
            module_err(s, Error::NoSuchNode)
        } else {
            (
                VisionState {
                    percepts: s.percepts.remove(NodeKey { owner: who, id }),
                    next_percept_id: spec_next_id(id),
                    ..s
                },
                Ok(Event::PerceptRevoked { who, percept_id: id }),
            )
        },
    }
}

/// `create_cognito`: the signer registers a cognito under the next cognito identifier,
/// and the counter moves on.
pub open spec fn create_cognito_spec<PS, PC, CS, CC>(
    s: VisionState<PS, PC, CS, CC>,
    origin: Origin,
    status: CS,
    caps: CC,
) -> (VisionState<PS, PC, CS, CC>, CallResult) {
    match counter_candidate(s.next_cognito_id) {
        None => module_err(s, Error::UnknownPercept),
        Some(id) => match signer_of(origin) {
            None => origin_err(s),
            Some(who) => if s.cognitos.contains_key(NodeKey { owner: who, id }) {
                module_err(s, Error::AlreadyCreated)
            } else {
                (
                    VisionState {
                        cognitos: s.cognitos.insert(
                            NodeKey { owner: who, id },
                            CognitoDetails { status, caps },
                        ),
                        next_cognito_id: spec_next_id(id),
                        ..s
                    },
                    Ok(Event::CognitoCreated { who, cognito_id: id }),
                )
            },
        },
    }
}

/// `revoke_cognito`: the signer removes its cognito `id`.
pub open spec fn revoke_cognito_spec<PS, PC, CS, CC>(
    s: VisionState<PS, PC, CS, CC>,
    origin: Origin,
    id: Id,
) -> (VisionState<PS, PC, CS, CC>, CallResult) {
    match signer_of(origin) {
        None => origin_err(s),
        Some(who) => if !s.cognitos.contains_key(NodeKey { owner: who, id }) {
            module_err(s, Error::NoSuchNode)
        } else {
            (
                VisionState { cognitos: s.cognitos.remove(NodeKey { owner: who, id }), ..s },
                Ok(Event::CognitoRevoked { who, cognito_id: id }),
            )
        },
    }
}

/// `create_connection`: the signer connects a percept to a cognito in block `now`, under
/// the next connection identifier and with the zero proof; the counter moves on.
pub open spec fn create_connection_spec<PS, PC, CS, CC>(
    s: VisionState<PS, PC, CS, CC>,
    origin: Origin,
    percept_id: Id,
    cognito_id: Id,
    now: BlockNumber,
) -> (VisionState<PS, PC, CS, CC>, CallResult) {
    match counter_candidate(s.next_connection_id) {
        None => module_err(s, Error::UnknownPercept),
        Some(id) => match signer_of(origin) {
            None => origin_err(s),
            Some(who) => if s.connections.contains_key(ConnectionKey { percept_id, cognito_id }) {
                module_err(s, Error::AlreadyCreated)
            } else {
                (
                    VisionState {
                        connections: s.connections.insert(
                            ConnectionKey { percept_id, cognito_id },
                            ConnectionDetails {
                                owner: who,
                                connection: id,
                                start_block: now,
                                proof: H256::spec_zero(),
                            },
                        ),
                        next_connection_id: spec_next_id(id),
                        ..s
                    },
                    Ok(Event::ConnectionCreated { who, connection_id: id }),
                )
            },
        },
    }
}

/// `revoke_connection`: the owner of a connection removes it.
pub open spec fn revoke_connection_spec<PS, PC, CS, CC>(
    s: VisionState<PS, PC, CS, CC>,
    origin: Origin,
    percept_id: Id,
    cognito_id: Id,
) -> (VisionState<PS, PC, CS, CC>, CallResult) {
    let key = ConnectionKey { percept_id, cognito_id };
    match signer_of(origin) {
        None => origin_err(s),
        Some(who) => if !s.connections.contains_key(key) {
            module_err(s, Error::NoSuchNode)
        } else if s.connections[key].owner != who {
            module_err(s, Error::NotOwner)
        } else {
            (
                VisionState { connections: s.connections.remove(key), ..s },
                Ok(Event::ConnectionRevoked { who, connection_id: s.connections[key].connection }),
            )
        },
    }
}

/// `update_connection_proof`: the owner of a connection replaces its proof.
pub open spec fn update_connection_proof_spec<PS, PC, CS, CC>(
    s: VisionState<PS, PC, CS, CC>,
    origin: Origin,
    percept_id: Id,
    cognito_id: Id,
    proof: H256,
) -> (VisionState<PS, PC, CS, CC>, CallResult) {
    let key = ConnectionKey { percept_id, cognito_id };
    match signer_of(origin) {
        None => origin_err(s),
        Some(who) => if !s.connections.contains_key(key) {
            module_err(s, Error::DoesNotExist)
        } else if s.connections[key].owner != who {
            module_err(s, Error::NotOwner)
        } else {
            (
                VisionState {
                    connections: s.connections.insert(
                        key,
                        ConnectionDetails { proof, ..s.connections[key] },
                    ),
                    ..s
                },
                Ok(Event::ConnectionUpdated { who, connection_id: s.connections[key].connection }),
            )
        },
    }
}

/// The value under `key` in `m`, or `NoSuchNode`.
pub open spec fn lookup<K, V>(m: Map<K, V>, key: K) -> Result<V, Error> {
    if m.contains_key(key) {
        Ok(m[key])
    } else {
        Err(Error::NoSuchNode)
    }
}

/// The state of the module.
pub struct Pallet<PS, PC, CS, CC> {
    percepts: KeyedMap<NodeKey, PerceptDetails<PS, PC>>,
    next_percept_id: Option<Id>,
    cognitos: KeyedMap<NodeKey, CognitoDetails<CS, CC>>,
    next_cognito_id: Option<Id>,
    connections: KeyedMap<ConnectionKey, Connection>,
    next_connection_id: Option<Id>,
}

impl<PS, PC, CS, CC> View for Pallet<PS, PC, CS, CC> {
    type V = VisionState<PS, PC, CS, CC>;

    closed spec fn view(&self) -> VisionState<PS, PC, CS, CC> {
        VisionState {
            percepts: self.percepts@,
            next_percept_id: self.next_percept_id,
            cognitos: self.cognitos@,
            next_cognito_id: self.next_cognito_id,
            connections: self.connections@,
            next_connection_id: self.next_connection_id,
        }
    }
}

impl<PS: Copy, PC: Copy, CS: Copy, CC: Copy> Pallet<PS, PC, CS, CC> {
    pub closed spec fn wf(&self) -> bool {
        &&& self.percepts.wf()
        &&& self.cognitos.wf()
        &&& self.connections.wf()
    }

    /// A module with nothing registered and no counter set.
    pub fn new() -> (p: Self)
        ensures
            p.wf(),
            p@ == initial_state::<PS, PC, CS, CC>(),
            p@.percepts == Map::<NodeKey, PerceptDetails<PS, PC>>::empty(),
            p@.cognitos == Map::<NodeKey, CognitoDetails<CS, CC>>::empty(),
            p@.connections == Map::<ConnectionKey, Connection>::empty(),
            p@.next_percept_id is None,
            p@.next_cognito_id is None,
            p@.next_connection_id is None,
    {
        Pallet {
            percepts: KeyedMap::new(),
            next_percept_id: None,
            cognitos: KeyedMap::new(),
            next_cognito_id: None,
            connections: KeyedMap::new(),
            next_connection_id: None,
        }
    }

    /// The stored value of the percept counter.
    pub fn next_percept_id(&self) -> (r: Option<Id>)
        ensures
            r == self@.next_percept_id,
    {
        self.next_percept_id
    }

    /// The stored value of the cognito counter.
    pub fn next_cognito_id(&self) -> (r: Option<Id>)
        ensures
            r == self@.next_cognito_id,
    {
        self.next_cognito_id
    }

    /// The stored value of the connection counter.
    pub fn next_connection_id(&self) -> (r: Option<Id>)
        ensures
            r == self@.next_connection_id,
    {
        self.next_connection_id
    }

    /// The identifier a counter hands out next.
    fn candidate(counter: Option<Id>) -> (r: Option<Id>)
        ensures
            r == counter_candidate(counter),
    {
        match counter {
            Some(id) => Some(id),
            None => initial_id(),
        }
    }

    /// The signer of `origin` registers a percept with `status` and `caps`.
    pub fn create_percept(&mut self, origin: Origin, status: PS, caps: PC) -> (r: CallResult)
        requires
            old(self).wf(),
        ensures
            final(self).wf(),
            (final(self)@, r) == create_percept_spec(old(self)@, origin, status, caps),
    {
        let percept_id = match Self::candidate(self.next_percept_id) {
            Some(id) => id,
            None => return Err(DispatchError::Module(Error::UnknownPercept)),
        };
        let sender = match ensure_signed(origin) {
            Ok(who) => who,
            Err(_) => return Err(DispatchError::BadOrigin),
        };
        let key = NodeKey { owner: sender, id: percept_id };
        if self.percepts.contains_key(&key) {
            return Err(DispatchError::Module(Error::AlreadyCreated));
        }
        self.percepts.insert(key, PerceptDetails { status, caps });
        Ok(Event::PerceptCreated { who: sender, percept_id })
    }

    /// The signer of `origin` removes its percept `percept_id`.
    pub fn revoke_percept(&mut self, origin: Origin, percept_id: Id) -> (r: CallResult)
        requires
            old(self).wf(),
        ensures
            final(self).wf(),
            (final(self)@, r) == revoke_percept_spec(old(self)@, origin, percept_id),
    {
        let sender = match ensure_signed(origin) {
            Ok(who) => who,
            Err(_) => return Err(DispatchError::BadOrigin),
        };
        let key = NodeKey { owner: sender, id: percept_id };
        if !self.percepts.contains_key(&key) {
            return Err(DispatchError::Module(Error::NoSuchNode));
        }
        self.percepts.remove(&key);
        self.next_percept_id = next_id(percept_id);
        Ok(Event::PerceptRevoked { who: sender, percept_id })
    }

    /// The signer of `origin` registers a cognito with `status` and `caps`.
    pub fn create_cognito(&mut self, origin: Origin, status: CS, caps: CC) -> (r: CallResult)
        requires
            old(self).wf(),
        ensures
            final(self).wf(),
            (final(self)@, r) == create_cognito_spec(old(self)@, origin, status, caps),
    {
        let cognito_id = match Self::candidate(self.next_cognito_id) {
            Some(id) => id,
            None => return Err(DispatchError::Module(Error::UnknownPercept)),
        };
        let sender = match ensure_signed(origin) {
            Ok(who) => who,
            Err(_) => return Err(DispatchError::BadOrigin),
        };
        let key = NodeKey { owner: sender, id: cognito_id };
        if self.cognitos.contains_key(&key) {
            return Err(DispatchError::Module(Error::AlreadyCreated));
        }
        self.cognitos.insert(key, CognitoDetails { status, caps });
        self.next_cognito_id = next_id(cognito_id);
        Ok(Event::CognitoCreated { who: sender, cognito_id })
    }

    /// The signer of `origin` removes its cognito `cognito_id`.
    pub fn revoke_cognito(&mut self, origin: Origin, cognito_id: Id) -> (r: CallResult)
        requires
            old(self).wf(),
        ensures
            final(self).wf(),
            (final(self)@, r) == revoke_cognito_spec(old(self)@, origin, cognito_id),
    {
        let sender = match ensure_signed(origin) {
            Ok(who) => who,
            Err(_) => return Err(DispatchError::BadOrigin),
        };
        let key = NodeKey { owner: sender, id: cognito_id };
        if !self.cognitos.contains_key(&key) {
            return Err(DispatchError::Module(Error::NoSuchNode));
        }
        self.cognitos.remove(&key);
        Ok(Event::CognitoRevoked { who: sender, cognito_id })
    }

    /// The signer of `origin` connects `percept_id` to `cognito_id` in block
    /// `current_block`.
    pub fn create_connection(
        &mut self,
        origin: Origin,
        percept_id: Id,
        cognito_id: Id,
        current_block: BlockNumber,
    ) -> (r: CallResult)
        requires
            old(self).wf(),
        ensures
            final(self).wf(),
            (final(self)@, r) == create_connection_spec(
                old(self)@,
                origin,
                percept_id,
                cognito_id,
                current_block,
            ),
    {
        let connection_id = match Self::candidate(self.next_connection_id) {
            Some(id) => id,
            None => return Err(DispatchError::Module(Error::UnknownPercept)),
        };
        let sender = match ensure_signed(origin) {
            Ok(who) => who,
            Err(_) => return Err(DispatchError::BadOrigin),
        };
        let key = ConnectionKey { percept_id, cognito_id };
        if self.connections.contains_key(&key) {
            return Err(DispatchError::Module(Error::AlreadyCreated));
        }
        self.connections.insert(
            key,
            ConnectionDetails {
                owner: sender,
                connection: connection_id,
                start_block: current_block,
                proof: H256::zero(),
            },
        );
        self.next_connection_id = next_id(connection_id);
        Ok(Event::ConnectionCreated { who: sender, connection_id })
    }

    /// The owner of the connection from `percept_id` to `cognito_id` removes it.
    pub fn revoke_connection(&mut self, origin: Origin, percept_id: Id, cognito_id: Id) -> (r:
        CallResult)
        requires
            old(self).wf(),
        ensures
            final(self).wf(),
            (final(self)@, r) == revoke_connection_spec(old(self)@, origin, percept_id, cognito_id),
    {
        let sender = match ensure_signed(origin) {
            Ok(who) => who,
            Err(_) => return Err(DispatchError::BadOrigin),
        };
        let key = ConnectionKey { percept_id, cognito_id };
        let details = match self.connections.get(&key) {
            Some(d) => d,
            None => return Err(DispatchError::Module(Error::NoSuchNode)),
        };
        if sender != details.owner {
            return Err(DispatchError::Module(Error::NotOwner));
        }
        self.connections.remove(&key);
        Ok(Event::ConnectionRevoked { who: sender, connection_id: details.connection })
    }

    /// The owner of the connection from `percept_id` to `cognito_id` replaces its proof.
    pub fn update_connection_proof(
        &mut self,
        origin: Origin,
        percept_id: Id,
        cognito_id: Id,
        proof: H256,
    ) -> (r: CallResult)
        requires
            old(self).wf(),
        ensures
            final(self).wf(),
            (final(self)@, r) == update_connection_proof_spec(
                old(self)@,
                origin,
                percept_id,
                cognito_id,
                proof,
            ),
    {
        let sender = match ensure_signed(origin) {
            Ok(who) => who,
            Err(_) => return Err(DispatchError::BadOrigin),
        };
        let key = ConnectionKey { percept_id, cognito_id };
        if !self.connections.contains_key(&key) {
            return Err(DispatchError::Module(Error::DoesNotExist));
        }
        let details = match self.connections.get(&key) {
            Some(d) => d,
            None => return Err(DispatchError::Module(Error::UnknownConnection)),
        };
        if sender != details.owner {
            return Err(DispatchError::Module(Error::NotOwner));
        }
        self.connections.insert(key, ConnectionDetails { proof, ..details });
        Ok(Event::ConnectionUpdated { who: sender, connection_id: details.connection })
    }

    /// The connection from `percept_id` to `cognito_id`. The origin is not consulted.
    pub fn get_connection_details(&self, _origin: Origin, percept_id: Id, cognito_id: Id) -> (r:
        Result<Connection, Error>)
        requires
            self.wf(),
        ensures
            r == lookup(self@.connections, ConnectionKey { percept_id, cognito_id }),
    {
        match self.connections.get(&ConnectionKey { percept_id, cognito_id }) {
            Some(d) => Ok(d),
            None => Err(Error::NoSuchNode),
        }
    }

    /// The percept `percept_id` of `account_id`.
    pub fn get_percept_details(&self, account_id: AccountId, percept_id: Id) -> (r: Result<
        PerceptDetails<PS, PC>,
        Error,
    >)
        requires
            self.wf(),
        ensures
            r == lookup(self@.percepts, NodeKey { owner: account_id, id: percept_id }),
    {
        match self.percepts.get(&NodeKey { owner: account_id, id: percept_id }) {
            Some(d) => Ok(d),
            None => Err(Error::NoSuchNode),
        }
    }

    /// The cognito `cognito_id` of `account_id`.
    pub fn get_cognito_details(&self, account_id: AccountId, cognito_id: Id) -> (r: Result<
        CognitoDetails<CS, CC>,
        Error,
    >)
        requires
            self.wf(),
        ensures
            r == lookup(self@.cognitos, NodeKey { owner: account_id, id: cognito_id }),
    {
        match self.cognitos.get(&NodeKey { owner: account_id, id: cognito_id }) {
            Some(d) => Ok(d),
            None => Err(Error::NoSuchNode),
        }
    }

    /// The identifiers of the percepts of `account_id`, each once, in no stated order.
    pub fn get_percepts(&self, account_id: AccountId) -> (r: Result<Vec<Id>, Error>)
        requires
            self.wf(),
        ensures
            r is Ok,
            r->Ok_0@.no_duplicates(),
            forall|id: Id|
                r->Ok_0@.contains(id) <==> self@.percepts.contains_key(
                    NodeKey { owner: account_id, id },
                ),
    {
        let keys = self.percepts.keys();
        Ok(ids_of_owner(&keys, account_id))
    }

    /// The identifiers of the cognitos of `account_id`, each once, in no stated order.
    pub fn get_cognitos(&self, account_id: AccountId) -> (r: Result<Vec<Id>, Error>)
        requires
            self.wf(),
        ensures
            r is Ok,
            r->Ok_0@.no_duplicates(),
            forall|id: Id|
                r->Ok_0@.contains(id) <==> self@.cognitos.contains_key(
                    NodeKey { owner: account_id, id },
                ),
    {
        let keys = self.cognitos.keys();
        Ok(ids_of_owner(&keys, account_id))
    }
}

/// A percept that was created can be read back: the module holds its status and caps
/// under the signer and the identifier the counter handed out.
pub proof fn created_percept_reads_back<PS, PC, CS, CC>(
    s: VisionState<PS, PC, CS, CC>,
    origin: Origin,
    status: PS,
    caps: PC,
)
    requires
        create_percept_spec(s, origin, status, caps).1 is Ok,
    ensures
        ({
            let who = signer_of(origin)->0;
            let id = counter_candidate(s.next_percept_id)->0;
            &&& signer_of(origin) is Some
            &&& create_percept_spec(s, origin, status, caps).1 == Ok::<Event, DispatchError<Error>>(
                Event::PerceptCreated { who, percept_id: id },
            )
            &&& lookup(create_percept_spec(s, origin, status, caps).0.percepts, NodeKey { owner: who, id })
                == Ok::<PerceptDetails<PS, PC>, Error>(PerceptDetails { status, caps })
        }),
{
}

/// Creating a percept and then revoking it restores the percepts, and leaves the percept
/// counter just past the identifier that was used.
pub proof fn revoke_percept_undoes_create_percept<PS, PC, CS, CC>(
    s: VisionState<PS, PC, CS, CC>,
    who: AccountId,
    status: PS,
    caps: PC,
)
    requires
        !s.percepts.contains_key(NodeKey { owner: who, id: counter_candidate(s.next_percept_id)->0 }),
    ensures
        ({
            let id = counter_candidate(s.next_percept_id)->0;
            let created = create_percept_spec(s, Origin::Signed(who), status, caps);
            let revoked = revoke_percept_spec(created.0, Origin::Signed(who), id);
            &&& created.1 is Ok
            &&& revoked.1 == Ok::<Event, DispatchError<Error>>(
                Event::PerceptRevoked { who, percept_id: id },
            )
            &&& revoked.0.percepts == s.percepts
            &&& revoked.0.next_percept_id == spec_next_id(id)
            &&& revoked.0.cognitos == s.cognitos
            &&& revoked.0.connections == s.connections
        }),
{
    let id = counter_candidate(s.next_percept_id)->0;
    let created = create_percept_spec(s, Origin::Signed(who), status, caps);
    assert(created.0.percepts.remove(NodeKey { owner: who, id }) =~= s.percepts);
}

/// Creating a percept does not move the percept counter, so an account cannot create a
/// second percept until it has revoked one: the second attempt is refused with
/// `AlreadyCreated` and changes nothing.
pub proof fn second_percept_needs_revoke<PS, PC, CS, CC>(
    s: VisionState<PS, PC, CS, CC>,
    who: AccountId,
    status: PS,
    caps: PC,
    status2: PS,
    caps2: PC,
)
    requires
        create_percept_spec(s, Origin::Signed(who), status, caps).1 is Ok,
    ensures
        ({
            let after = create_percept_spec(s, Origin::Signed(who), status, caps).0;
            &&& after.next_percept_id == s.next_percept_id
            &&& create_percept_spec(after, Origin::Signed(who), status2, caps2) == module_err(
                after,
                Error::AlreadyCreated,
            )
        }),
{
}

/// Creating a cognito and then revoking it restores the cognitos; the cognito counter
/// has moved past the identifier that was used.
pub proof fn revoke_cognito_undoes_create_cognito<PS, PC, CS, CC>(
    s: VisionState<PS, PC, CS, CC>,
    who: AccountId,
    status: CS,
    caps: CC,
)
    requires
        !s.cognitos.contains_key(NodeKey { owner: who, id: counter_candidate(s.next_cognito_id)->0 }),
    ensures
        ({
            let id = counter_candidate(s.next_cognito_id)->0;
            let created = create_cognito_spec(s, Origin::Signed(who), status, caps);
            let revoked = revoke_cognito_spec(created.0, Origin::Signed(who), id);
            &&& created.1 == Ok::<Event, DispatchError<Error>>(
                Event::CognitoCreated { who, cognito_id: id },
            )
            &&& lookup(created.0.cognitos, NodeKey { owner: who, id }) == Ok::<
                CognitoDetails<CS, CC>,
                Error,
            >(CognitoDetails { status, caps })
            &&& revoked.1 == Ok::<Event, DispatchError<Error>>(
                Event::CognitoRevoked { who, cognito_id: id },
            )
            &&& revoked.0.cognitos == s.cognitos
            &&& revoked.0.next_cognito_id == spec_next_id(id)
            &&& revoked.0.percepts == s.percepts
            &&& revoked.0.connections == s.connections
        }),
{
    let id = counter_candidate(s.next_cognito_id)->0;
    let created = create_cognito_spec(s, Origin::Signed(who), status, caps);
    assert(created.0.cognitos.remove(NodeKey { owner: who, id }) =~= s.cognitos);
}

/// A new connection belongs to its maker, starts in the block of the call with the zero
/// proof; revoking it restores the connections, and the revocation reports the identifier
/// that the creation handed out.
pub proof fn revoke_connection_undoes_create_connection<PS, PC, CS, CC>(
    s: VisionState<PS, PC, CS, CC>,
    who: AccountId,
    percept_id: Id,
    cognito_id: Id,
    now: BlockNumber,
)
    requires
        !s.connections.contains_key(ConnectionKey { percept_id, cognito_id }),
    ensures
        ({
            let id = counter_candidate(s.next_connection_id)->0;
            let key = ConnectionKey { percept_id, cognito_id };
            let created = create_connection_spec(s, Origin::Signed(who), percept_id, cognito_id, now);
            let revoked = revoke_connection_spec(created.0, Origin::Signed(who), percept_id, cognito_id);
            &&& created.1 == Ok::<Event, DispatchError<Error>>(
                Event::ConnectionCreated { who, connection_id: id },
            )
            &&& lookup(created.0.connections, key) == Ok::<Connection, Error>(
                ConnectionDetails { owner: who, connection: id, start_block: now, proof: H256::spec_zero() },
            )
            &&& revoked.1 == Ok::<Event, DispatchError<Error>>(
                Event::ConnectionRevoked { who, connection_id: id },
            )
            &&& revoked.0.connections == s.connections
            &&& revoked.0.next_connection_id == spec_next_id(id)
        }),
{
    let key = ConnectionKey { percept_id, cognito_id };
    let created = create_connection_spec(s, Origin::Signed(who), percept_id, cognito_id, now);
    assert(created.0.connections.remove(key) =~= s.connections);
}

/// Two connections made one after the other get successive identifiers; after the
/// largest identifier the counter is cleared and starts again from the first one.
pub proof fn connections_get_successive_ids<PS, PC, CS, CC>(
    s: VisionState<PS, PC, CS, CC>,
    origin1: Origin,
    percept1: Id,
    cognito1: Id,
    now1: BlockNumber,
    origin2: Origin,
    percept2: Id,
    cognito2: Id,
    now2: BlockNumber,
)
    ensures
        ({
            let first = create_connection_spec(s, origin1, percept1, cognito1, now1);
            let second = create_connection_spec(first.0, origin2, percept2, cognito2, now2);
            first.1 matches Ok(Event::ConnectionCreated { connection_id: a, .. }) ==> (second.1 matches Ok(
                Event::ConnectionCreated { connection_id: b, .. },
            ) ==> if a < u32::MAX { b == a + 1 } else { b == 0 })
        }),
{
    let first = create_connection_spec(s, origin1, percept1, cognito1, now1);
    if first.1 is Ok {
        let a = counter_candidate(s.next_connection_id)->0;
        assert(first.0.next_connection_id == spec_next_id(a));
    }
}

/// Updating the proof of a connection replaces its proof and nothing else: its owner,
/// identifier and start block stay, and every other connection, percept and cognito is
/// left as it was.
pub proof fn update_proof_changes_only_the_proof<PS, PC, CS, CC>(
    s: VisionState<PS, PC, CS, CC>,
    origin: Origin,
    percept_id: Id,
    cognito_id: Id,
    proof: H256,
)
    requires
        update_connection_proof_spec(s, origin, percept_id, cognito_id, proof).1 is Ok,
    ensures
        ({
            let key = ConnectionKey { percept_id, cognito_id };
            let after = update_connection_proof_spec(s, origin, percept_id, cognito_id, proof).0;
            &&& s.connections.contains_key(key)
            &&& after.connections.contains_key(key)
            &&& after.connections[key].proof == proof
            &&& after.connections[key].owner == s.connections[key].owner
            &&& after.connections[key].connection == s.connections[key].connection
            &&& after.connections[key].start_block == s.connections[key].start_block
            &&& forall|other: ConnectionKey|
                other != key ==> #[trigger] after.connections.contains_key(other)
                    == s.connections.contains_key(other) && (s.connections.contains_key(other)
                    ==> after.connections[other] == s.connections[other])
            &&& after.connections.dom() == s.connections.dom()
            &&& after.percepts == s.percepts
            &&& after.cognitos == s.cognitos
            &&& after.next_connection_id == s.next_connection_id
        }),
{
    let key = ConnectionKey { percept_id, cognito_id };
    let after = update_connection_proof_spec(s, origin, percept_id, cognito_id, proof).0;
    assert(after.connections.dom() =~= s.connections.dom());
}

/// Only the owner of a connection can revoke it or update its proof.
pub proof fn only_owner_controls_connection<PS, PC, CS, CC>(
    s: VisionState<PS, PC, CS, CC>,
    origin: Origin,
    percept_id: Id,
    cognito_id: Id,
    proof: H256,
)
    ensures
        ({
            let key = ConnectionKey { percept_id, cognito_id };
            &&& revoke_connection_spec(s, origin, percept_id, cognito_id).1 is Ok
                ==> s.connections.contains_key(key) && signer_of(origin) == Some(s.connections[key].owner)
            &&& update_connection_proof_spec(s, origin, percept_id, cognito_id, proof).1 is Ok
                ==> s.connections.contains_key(key) && signer_of(origin) == Some(s.connections[key].owner)
        }),
{
}

/// A refused call leaves the whole state of the module as it was.
pub proof fn refused_calls_change_nothing<PS, PC, CS, CC>(
    s: VisionState<PS, PC, CS, CC>,
    origin: Origin,
    status_p: PS,
    caps_p: PC,
    status_c: CS,
    caps_c: CC,
    id: Id,
    percept_id: Id,
    cognito_id: Id,
    now: BlockNumber,
    proof: H256,
)
    ensures
        create_percept_spec(s, origin, status_p, caps_p).1 is Err ==> create_percept_spec(
            s,
            origin,
            status_p,
            caps_p,
        ).0 == s,
        revoke_percept_spec(s, origin, id).1 is Err ==> revoke_percept_spec(s, origin, id).0 == s,
        create_cognito_spec(s, origin, status_c, caps_c).1 is Err ==> create_cognito_spec(
            s,
            origin,
            status_c,
            caps_c,
        ).0 == s,
        revoke_cognito_spec(s, origin, id).1 is Err ==> revoke_cognito_spec(s, origin, id).0 == s,
        create_connection_spec(s, origin, percept_id, cognito_id, now).1 is Err
            ==> create_connection_spec(s, origin, percept_id, cognito_id, now).0 == s,
        revoke_connection_spec(s, origin, percept_id, cognito_id).1 is Err
            ==> revoke_connection_spec(s, origin, percept_id, cognito_id).0 == s,
        update_connection_proof_spec(s, origin, percept_id, cognito_id, proof).1 is Err
            ==> update_connection_proof_spec(s, origin, percept_id, cognito_id, proof).0 == s,
{
}

/// A call of the module, with its arguments.
pub enum VisionCall<PS, PC, CS, CC> {
    CreatePercept { origin: Origin, status: PS, caps: PC },
    RevokePercept { origin: Origin, percept_id: Id },
    CreateCognito { origin: Origin, status: CS, caps: CC },
    RevokeCognito { origin: Origin, cognito_id: Id },
    CreateConnection { origin: Origin, percept_id: Id, cognito_id: Id, now: BlockNumber },
    RevokeConnection { origin: Origin, percept_id: Id, cognito_id: Id },
    UpdateConnectionProof { origin: Origin, percept_id: Id, cognito_id: Id, proof: H256 },
}

/// The state after `call`, and what the call returns.
pub open spec fn apply_call<PS, PC, CS, CC>(
    s: VisionState<PS, PC, CS, CC>,
    call: VisionCall<PS, PC, CS, CC>,
) -> (VisionState<PS, PC, CS, CC>, CallResult) {
    match call {
        VisionCall::CreatePercept { origin, status, caps } => create_percept_spec(
            s,
            origin,
            status,
            caps,
        ),
        VisionCall::RevokePercept { origin, percept_id } => revoke_percept_spec(s, origin, percept_id),
        VisionCall::CreateCognito { origin, status, caps } => create_cognito_spec(
            s,
            origin,
            status,
            caps,
        ),
        VisionCall::RevokeCognito { origin, cognito_id } => revoke_cognito_spec(s, origin, cognito_id),
        VisionCall::CreateConnection { origin, percept_id, cognito_id, now } => create_connection_spec(
            s,
            origin,
            percept_id,
            cognito_id,
            now,
        ),
        VisionCall::RevokeConnection { origin, percept_id, cognito_id } => revoke_connection_spec(
            s,
            origin,
            percept_id,
            cognito_id,
        ),
        VisionCall::UpdateConnectionProof {
            origin,
            percept_id,
            cognito_id,
            proof,
        } => update_connection_proof_spec(s, origin, percept_id, cognito_id, proof),
    }
}

/// The state after the calls `calls`, made one after the other from `s`.
pub open spec fn run_calls<PS, PC, CS, CC>(
    s: VisionState<PS, PC, CS, CC>,
    calls: Seq<VisionCall<PS, PC, CS, CC>>,
) -> VisionState<PS, PC, CS, CC>
    decreases calls.len(),
{
    if calls.len() == 0 {
        s
    } else {
        run_calls(apply_call(s, calls[0]).0, calls.drop_first())
    }
}

/// The state of a module that nothing has been done to.
pub open spec fn initial_state<PS, PC, CS, CC>() -> VisionState<PS, PC, CS, CC> {
    VisionState {
        percepts: Map::empty(),
        next_percept_id: None,
        cognitos: Map::empty(),
        next_cognito_id: None,
        connections: Map::empty(),
        next_connection_id: None,
    }
}

/// No two connections share an identifier, and every identifier in use is below the one
/// the counter hands out next; while the counter is unset there is no connection.
pub open spec fn connection_ids_unique<PS, PC, CS, CC>(s: VisionState<PS, PC, CS, CC>) -> bool {
    &&& forall|a: ConnectionKey, b: ConnectionKey|
        #![trigger s.connections[a], s.connections[b]]
        s.connections.contains_key(a) && s.connections.contains_key(b) && a != b
            ==> s.connections[a].connection != s.connections[b].connection
    &&& match s.next_connection_id {
        Some(n) => forall|k: ConnectionKey| #[trigger]
            s.connections.contains_key(k) ==> s.connections[k].connection < n,
        None => s.connections.dom() == Set::<ConnectionKey>::empty(),
    }
}

/// The call does not make the connection counter overflow: it is not a connection
/// created under the largest identifier.
pub open spec fn call_keeps_counter<PS, PC, CS, CC>(
    s: VisionState<PS, PC, CS, CC>,
    call: VisionCall<PS, PC, CS, CC>,
) -> bool {
    !(call is CreateConnection && apply_call(s, call).1 is Ok && counter_candidate(
        s.next_connection_id,
    ) == Some(u32::MAX))
}

/// No call of the run `calls` from `s` makes the connection counter overflow.
pub open spec fn run_keeps_counter<PS, PC, CS, CC>(
    s: VisionState<PS, PC, CS, CC>,
    calls: Seq<VisionCall<PS, PC, CS, CC>>,
) -> bool
    decreases calls.len(),
{
    calls.len() == 0 || (call_keeps_counter(s, calls[0]) && run_keeps_counter(
        apply_call(s, calls[0]).0,
        calls.drop_first(),
    ))
}

/// Every call that does not make the connection counter overflow keeps connection
/// identifiers unique.
pub proof fn calls_keep_connection_ids_unique<PS, PC, CS, CC>(
    s: VisionState<PS, PC, CS, CC>,
    call: VisionCall<PS, PC, CS, CC>,
)
    requires
        connection_ids_unique(s),
        call_keeps_counter(s, call),
    ensures
        connection_ids_unique(apply_call(s, call).0),
{
    let t = apply_call(s, call).0;
    match call {
        VisionCall::CreateConnection { origin, percept_id, cognito_id, now } => {
            if create_connection_spec(s, origin, percept_id, cognito_id, now).1 is Ok {
                let id = counter_candidate(s.next_connection_id)->0;
                let key = ConnectionKey { percept_id, cognito_id };
                assert(t.connections == s.connections.insert(key, t.connections[key]));
                assert(t.connections[key].connection == id);
                if s.next_connection_id is None {
                    assert(forall|k: ConnectionKey| !s.connections.contains_key(k));
                }
                assert forall|k: ConnectionKey| #[trigger]
                    t.connections.contains_key(k) && k != key implies s.connections.contains_key(k)
                    && s.connections[k].connection < id by {}
            }
        },
        VisionCall::RevokeConnection { origin, percept_id, cognito_id } => {
            if s.next_connection_id is None {
                assert(t.connections.dom() =~= Set::<ConnectionKey>::empty());
            }
        },
        VisionCall::UpdateConnectionProof { origin, percept_id, cognito_id, proof } => {
            let key = ConnectionKey { percept_id, cognito_id };
            if update_connection_proof_spec(s, origin, percept_id, cognito_id, proof).1 is Ok {
                assert(t.connections.dom() =~= s.connections.dom());
                assert(t.connections[key].connection == s.connections[key].connection);
            }
        },
        _ => {},
    }
}

/// Connection identifiers stay unique along every run of calls in which the connection
/// counter never overflows.
pub proof fn connection_ids_stay_unique<PS, PC, CS, CC>(
    s: VisionState<PS, PC, CS, CC>,
    calls: Seq<VisionCall<PS, PC, CS, CC>>,
)
    requires
        connection_ids_unique(s),
        run_keeps_counter(s, calls),
    ensures
        connection_ids_unique(run_calls(s, calls)),
    decreases calls.len(),
{
    if calls.len() > 0 {
        calls_keep_connection_ids_unique(s, calls[0]);
        connection_ids_stay_unique(apply_call(s, calls[0]).0, calls.drop_first());
    }
}

/// From a module that nothing has been done to, along every run of calls in which the
/// connection counter never overflows, no connection identifier is handed out twice: the
/// connections in place have pairwise different identifiers, all below the value of the
/// counter.
pub proof fn connection_ids_never_reused<PS, PC, CS, CC>(calls: Seq<VisionCall<PS, PC, CS, CC>>)
    requires
        run_keeps_counter(initial_state::<PS, PC, CS, CC>(), calls),
    ensures
        connection_ids_unique(run_calls(initial_state::<PS, PC, CS, CC>(), calls)),
{
    let s = initial_state::<PS, PC, CS, CC>();
    assert(s.connections.dom() =~= Set::<ConnectionKey>::empty());
    connection_ids_stay_unique(s, calls);
}

/// Every call but `revoke_percept` keeps the percept counter and the percept stored under
/// `key`.
proof fn lemma_call_keeps_percept<PS, PC, CS, CC>(
    s: VisionState<PS, PC, CS, CC>,
    call: VisionCall<PS, PC, CS, CC>,
    key: NodeKey,
)
    requires
        !(call is RevokePercept),
        s.percepts.contains_key(key),
    ensures
        apply_call(s, call).0.next_percept_id == s.next_percept_id,
        apply_call(s, call).0.percepts.contains_key(key),
        apply_call(s, call).0.percepts[key] == s.percepts[key],
{
}

proof fn lemma_run_keeps_percept<PS, PC, CS, CC>(
    s: VisionState<PS, PC, CS, CC>,
    calls: Seq<VisionCall<PS, PC, CS, CC>>,
    key: NodeKey,
)
    requires
        forall|j: int| 0 <= j < calls.len() ==> !(#[trigger] calls[j] is RevokePercept),
        s.percepts.contains_key(key),
    ensures
        run_calls(s, calls).next_percept_id == s.next_percept_id,
        run_calls(s, calls).percepts.contains_key(key),
        run_calls(s, calls).percepts[key] == s.percepts[key],
    decreases calls.len(),
{
    if calls.len() > 0 {
        assert(!(calls[0] is RevokePercept));
        lemma_call_keeps_percept(s, calls[0], key);
        let rest = calls.drop_first();
        assert forall|j: int| 0 <= j < rest.len() implies !(#[trigger] rest[j] is RevokePercept) by {
            assert(rest[j] == calls[j + 1]);
        }
        lemma_run_keeps_percept(apply_call(s, calls[0]).0, rest, key);
    }
}

/// Once an account has created a percept, and as long as no percept is revoked (by any
/// account), whatever other calls are made: the percept stays as it was created, and a
/// new percept of that account is refused with `AlreadyCreated`, changing nothing.
pub proof fn percept_blocks_recreation_until_revoke<PS, PC, CS, CC>(
    s: VisionState<PS, PC, CS, CC>,
    who: AccountId,
    status: PS,
    caps: PC,
    calls: Seq<VisionCall<PS, PC, CS, CC>>,
    status2: PS,
    caps2: PC,
)
    requires
        create_percept_spec(s, Origin::Signed(who), status, caps).1 is Ok,
        forall|j: int| 0 <= j < calls.len() ==> !(#[trigger] calls[j] is RevokePercept),
    ensures
        ({
            let id = counter_candidate(s.next_percept_id)->0;
            let later = run_calls(create_percept_spec(s, Origin::Signed(who), status, caps).0, calls);
            &&& lookup(later.percepts, NodeKey { owner: who, id }) == Ok::<PerceptDetails<PS, PC>, Error>(
                PerceptDetails { status, caps },
            )
            &&& create_percept_spec(later, Origin::Signed(who), status2, caps2) == module_err(
                later,
                Error::AlreadyCreated,
            )
        }),
{
    let id = counter_candidate(s.next_percept_id)->0;
    let created = create_percept_spec(s, Origin::Signed(who), status, caps).0;
    lemma_run_keeps_percept(created, calls, NodeKey { owner: who, id });
}

/// A read gives what the map holds under the key, and `NoSuchNode` exactly when it holds
/// nothing there.
pub proof fn lookup_reads_the_map<K, V>(m: Map<K, V>, key: K, value: V)
    ensures
        (lookup(m, key) == Ok::<V, Error>(value)) <==> (m.contains_key(key) && m[key] == value),
        (lookup(m, key) == Err::<V, Error>(Error::NoSuchNode)) <==> !m.contains_key(key),
{
}

/// A signed account whose next percept key is free always creates a percept there: the
/// call reports the signer and the identifier, adds exactly that percept, and leaves the
/// counters, cognitos and connections alone.
pub proof fn free_percept_can_be_created<PS, PC, CS, CC>(
    s: VisionState<PS, PC, CS, CC>,
    who: AccountId,
    status: PS,
    caps: PC,
)
    requires
        !s.percepts.contains_key(NodeKey { owner: who, id: counter_candidate(s.next_percept_id)->0 }),
    ensures
        ({
            let id = counter_candidate(s.next_percept_id)->0;
            let r = create_percept_spec(s, Origin::Signed(who), status, caps);
            &&& id == (match s.next_percept_id { Some(n) => n, None => 0 })
            &&& r.1 == Ok::<Event, DispatchError<Error>>(Event::PerceptCreated { who, percept_id: id })
            &&& r.0.percepts == s.percepts.insert(NodeKey { owner: who, id }, PerceptDetails { status, caps })
            &&& r.0.next_percept_id == s.next_percept_id
            &&& r.0.cognitos == s.cognitos
            &&& r.0.connections == s.connections
            &&& r.0.next_cognito_id == s.next_cognito_id
            &&& r.0.next_connection_id == s.next_connection_id
        }),
{
}

/// Whoever holds a percept can always revoke it, whatever the percept counter holds: the
/// call reports the signer and the identifier, removes exactly that percept, and sets the
/// counter to the identifier after it (none after the largest).
pub proof fn holder_can_always_revoke_percept<PS, PC, CS, CC>(
    s: VisionState<PS, PC, CS, CC>,
    who: AccountId,
    percept_id: Id,
)
    requires
        s.percepts.contains_key(NodeKey { owner: who, id: percept_id }),
    ensures
        ({
            let r = revoke_percept_spec(s, Origin::Signed(who), percept_id);
            &&& r.1 == Ok::<Event, DispatchError<Error>>(Event::PerceptRevoked { who, percept_id })
            &&& r.0.percepts == s.percepts.remove(NodeKey { owner: who, id: percept_id })
            &&& !r.0.percepts.contains_key(NodeKey { owner: who, id: percept_id })
            &&& r.0.next_percept_id == (if percept_id < u32::MAX {
                Some((percept_id + 1) as u32)
            } else {
                None::<Id>
            })
            &&& r.0.cognitos == s.cognitos
            &&& r.0.connections == s.connections
        }),
{
}

/// A signed account whose next cognito key is free always creates a cognito there, and
/// the cognito counter moves to the identifier after it.
pub proof fn free_cognito_can_be_created<PS, PC, CS, CC>(
    s: VisionState<PS, PC, CS, CC>,
    who: AccountId,
    status: CS,
    caps: CC,
)
    requires
        !s.cognitos.contains_key(NodeKey { owner: who, id: counter_candidate(s.next_cognito_id)->0 }),
    ensures
        ({
            let id = counter_candidate(s.next_cognito_id)->0;
            let r = create_cognito_spec(s, Origin::Signed(who), status, caps);
            &&& id == (match s.next_cognito_id { Some(n) => n, None => 0 })
            &&& r.1 == Ok::<Event, DispatchError<Error>>(Event::CognitoCreated { who, cognito_id: id })
            &&& r.0.cognitos == s.cognitos.insert(NodeKey { owner: who, id }, CognitoDetails { status, caps })
            &&& r.0.next_cognito_id == (if id < u32::MAX {
                Some((id + 1) as u32)
            } else {
                None::<Id>
            })
            &&& r.0.percepts == s.percepts
            &&& r.0.connections == s.connections
        }),
{
}

/// Whoever holds a cognito can always revoke it: the call removes exactly that cognito
/// and leaves everything else alone.
pub proof fn holder_can_always_revoke_cognito<PS, PC, CS, CC>(
    s: VisionState<PS, PC, CS, CC>,
    who: AccountId,
    cognito_id: Id,
)
    requires
        s.cognitos.contains_key(NodeKey { owner: who, id: cognito_id }),
    ensures
        ({
            let r = revoke_cognito_spec(s, Origin::Signed(who), cognito_id);
            &&& r.1 == Ok::<Event, DispatchError<Error>>(Event::CognitoRevoked { who, cognito_id })
            &&& r.0.cognitos == s.cognitos.remove(NodeKey { owner: who, id: cognito_id })
            &&& r.0.next_cognito_id == s.next_cognito_id
            &&& r.0.percepts == s.percepts
            &&& r.0.connections == s.connections
        }),
{
}

/// Any signed account can connect a percept to a cognito that are not yet connected,
/// whether or not it owns them: the new connection belongs to the signer, carries the
/// counter's identifier, starts in the block of the call with the zero proof, and the
/// counter moves to the identifier after it.
pub proof fn free_pair_can_be_connected<PS, PC, CS, CC>(
    s: VisionState<PS, PC, CS, CC>,
    who: AccountId,
    percept_id: Id,
    cognito_id: Id,
    now: BlockNumber,
)
    requires
        !s.connections.contains_key(ConnectionKey { percept_id, cognito_id }),
    ensures
        ({
            let id = counter_candidate(s.next_connection_id)->0;
            let r = create_connection_spec(s, Origin::Signed(who), percept_id, cognito_id, now);
            &&& id == (match s.next_connection_id { Some(n) => n, None => 0 })
            &&& r.1 == Ok::<Event, DispatchError<Error>>(Event::ConnectionCreated { who, connection_id: id })
            &&& r.0.connections == s.connections.insert(
                ConnectionKey { percept_id, cognito_id },
                ConnectionDetails { owner: who, connection: id, start_block: now, proof: H256::spec_zero() },
            )
            &&& r.0.next_connection_id == (if id < u32::MAX {
                Some((id + 1) as u32)
            } else {
                None::<Id>
            })
            &&& r.0.percepts == s.percepts
            &&& r.0.cognitos == s.cognitos
        }),
{
}

/// The owner of a connection can always revoke it: the call reports the connection's
/// identifier and removes exactly that connection.
pub proof fn owner_can_always_revoke_connection<PS, PC, CS, CC>(
    s: VisionState<PS, PC, CS, CC>,
    percept_id: Id,
    cognito_id: Id,
)
    requires
        s.connections.contains_key(ConnectionKey { percept_id, cognito_id }),
    ensures
        ({
            let key = ConnectionKey { percept_id, cognito_id };
            let who = s.connections[key].owner;
            let r = revoke_connection_spec(s, Origin::Signed(who), percept_id, cognito_id);
            &&& r.1 == Ok::<Event, DispatchError<Error>>(
                Event::ConnectionRevoked { who, connection_id: s.connections[key].connection },
            )
            &&& r.0.connections == s.connections.remove(key)
            &&& r.0.next_connection_id == s.next_connection_id
            &&& r.0.percepts == s.percepts
            &&& r.0.cognitos == s.cognitos
        }),
{
}

/// The owner of a connection can always set its proof, whatever proof it held before:
/// the call reports the connection's identifier and the connection then holds the new
/// proof, with its owner, identifier and start block unchanged.
pub proof fn owner_can_always_update_proof<PS, PC, CS, CC>(
    s: VisionState<PS, PC, CS, CC>,
    percept_id: Id,
    cognito_id: Id,
    proof: H256,
)
    requires
        s.connections.contains_key(ConnectionKey { percept_id, cognito_id }),
    ensures
        ({
            let key = ConnectionKey { percept_id, cognito_id };
            let old = s.connections[key];
            let r = update_connection_proof_spec(s, Origin::Signed(old.owner), percept_id, cognito_id, proof);
            &&& r.1 == Ok::<Event, DispatchError<Error>>(
                Event::ConnectionUpdated { who: old.owner, connection_id: old.connection },
            )
            &&& r.0.connections == s.connections.insert(
                key,
                ConnectionDetails {
                    owner: old.owner,
                    connection: old.connection,
                    start_block: old.start_block,
                    proof,
                },
            )
        }),
{
}

/// Setting the proof of a connection twice keeps the last proof: both calls by the owner
/// succeed, and the connection ends up with the second proof.
pub proof fn last_proof_wins<PS, PC, CS, CC>(
    s: VisionState<PS, PC, CS, CC>,
    percept_id: Id,
    cognito_id: Id,
    first: H256,
    second: H256,
)
    requires
        s.connections.contains_key(ConnectionKey { percept_id, cognito_id }),
    ensures
        ({
            let key = ConnectionKey { percept_id, cognito_id };
            let owner = Origin::Signed(s.connections[key].owner);
            let once = update_connection_proof_spec(s, owner, percept_id, cognito_id, first);
            let twice = update_connection_proof_spec(once.0, owner, percept_id, cognito_id, second);
            &&& once.1 is Ok
            &&& twice.1 is Ok
            &&& twice.0.connections[key].proof == second
            &&& twice.0.connections[key].owner == s.connections[key].owner
        }),
{
    owner_can_always_update_proof(s, percept_id, cognito_id, first);
    let key = ConnectionKey { percept_id, cognito_id };
    let once = update_connection_proof_spec(s, Origin::Signed(s.connections[key].owner), percept_id, cognito_id, first);
    owner_can_always_update_proof(once.0, percept_id, cognito_id, second);
}

/// Some key among the first `n` of `keys` is `owner`'s key with identifier `id`.
pub open spec fn owned_among(keys: Seq<NodeKey>, owner: AccountId, id: Id, n: int) -> bool {
    exists|j: int| 0 <= j < n && #[trigger] keys[j] == (NodeKey { owner, id })
}

/// The identifiers of the keys in `keys` that belong to `owner`.
fn ids_of_owner(keys: &Vec<NodeKey>, owner: AccountId) -> (r: Vec<Id>)
    requires
        keys@.no_duplicates(),
    ensures
        r@.no_duplicates(),
        forall|id: Id| r@.contains(id) <==> keys@.contains(NodeKey { owner, id }),
{
    let mut r: Vec<Id> = Vec::new();
    let mut i: usize = 0;
    while i < keys.len()
        invariant
            keys@.no_duplicates(),
            i <= keys@.len(),
            r@.no_duplicates(),
            forall|id: Id| #[trigger] r@.contains(id) <==> owned_among(keys@, owner, id, i as int),
        decreases keys@.len() - i,
    {
        let k = keys[i];
        let ghost r0 = r@;
        if k.owner == owner {
            proof {
                if r0.contains(k.id) {
                    let j = choose|j: int|
                        0 <= j < i && #[trigger] keys@[j] == (NodeKey { owner, id: k.id });
                    assert(keys@[j] == keys@[i as int]);
                }
            }
            r.push(k.id);
            proof {
                assert(r@ == r0.push(k.id));
                assert forall|a: int, b: int| 0 <= a < b < r@.len() implies r@[a] != r@[b] by {
                    if b < r0.len() {
                        assert(r0[a] != r0[b]);
                    } else {
                        assert(r0.contains(r0[a]));
                    }
                }
                assert forall|id: Id| #[trigger]
                    r@.contains(id) <==> owned_among(keys@, owner, id, i + 1) by {
                    if r@.contains(id) {
                        let m = choose|m: int| 0 <= m < r@.len() && r@[m] == id;
                        if m < r0.len() {
                            assert(r0[m] == id);
                            assert(r0.contains(id));
                            let j = choose|j: int|
                                0 <= j < i && #[trigger] keys@[j] == (NodeKey { owner, id });
                            assert(keys@[j] == (NodeKey { owner, id }));
                        } else {
                            assert(keys@[i as int] == (NodeKey { owner, id }));
                        }
                    }
                    if owned_among(keys@, owner, id, i + 1) {
                        let j = choose|j: int|
                            0 <= j < i + 1 && #[trigger] keys@[j] == (NodeKey { owner, id });
                        if j < i {
                            assert(owned_among(keys@, owner, id, i as int));
                            assert(r0.contains(id));
                            let m = choose|m: int| 0 <= m < r0.len() && r0[m] == id;
                            assert(r@[m] == id);
                        } else {
                            assert(r@[r0.len() as int] == id);
                        }
                    }
                }
            }
        } else {
            proof {
                assert forall|id: Id| #[trigger]
                    r@.contains(id) <==> owned_among(keys@, owner, id, i + 1) by {
                    if owned_among(keys@, owner, id, i + 1) {
                        let j = choose|j: int|
                            0 <= j < i + 1 && #[trigger] keys@[j] == (NodeKey { owner, id });
                        assert(j != i);
                        assert(owned_among(keys@, owner, id, i as int));
                    }
                    if owned_among(keys@, owner, id, i as int) {
                        let j = choose|j: int|
                            0 <= j < i && #[trigger] keys@[j] == (NodeKey { owner, id });
                        assert(keys@[j] == (NodeKey { owner, id }));
                    }
                }
            }
        }
        i = i + 1;
    }
    proof {
        assert forall|id: Id| r@.contains(id) <==> keys@.contains(NodeKey { owner, id }) by {
            if keys@.contains(NodeKey { owner, id }) {
                let j = choose|j: int| 0 <= j < keys@.len() && keys@[j] == (NodeKey { owner, id });
                assert(owned_among(keys@, owner, id, i as int));
            }
            if r@.contains(id) {
                assert(owned_among(keys@, owner, id, i as int));
                let j = choose|j: int|
                    0 <= j < i && #[trigger] keys@[j] == (NodeKey { owner, id });
                assert(keys@[j] == (NodeKey { owner, id }));
            }
        }
    }
    r
}

} // verus!
