//! Requests against one chain, and what each one asks of the caller.
//!
//! The session decides; the caller reads requests, performs what a reply
//! asks for, and prints.

use crate::chain::Blockochen;
use crate::model::ChainView;
use vstd::prelude::*;

verus! {

/// What a caller can ask of a session.
#[derive(Debug)]
pub enum Request {
    /// Start with a new chain.
    NewBlockchain,
    /// Start with the chain that `json` describes.
    LoadBlockchain { json: String },
    /// Record an event for an identity.
    AddBlock { birth_hash: crate::Hash, data: Vec<u8> },
    /// Mint a new identity.
    SpawnBlock { birth_data: Vec<u8>, data: Vec<u8> },
    /// Ask for the liveness left to an identity.
    GetTTL { birth_hash: crate::Hash },
    /// Ask for the events of an identity.
    GetEvents { birth_hash: crate::Hash },
    /// Ask for the whole chain.
    Print,
    /// Ask for the hash of the first block.
    PrintGenesis,
    /// End the session.
    Quit,
}

/// What the session answers, and leaves to the caller to carry out.
#[derive(Debug)]
pub enum Reply {
    /// The session is now initialised; there is nothing to print.
    Initialised,
    /// Refused: the session was initialised before.
    AlreadyInitialised,
    /// The session is now initialised; the caller is to read a chain from
    /// this text and install it.
    Load(String),
    /// A block was appended; this is its hash.
    Appended(crate::Hash),
    /// No block is anchored to this identity.
    NotFound(crate::Hash),
    /// This identity has no liveness left.
    Dead(crate::Hash),
    /// The liveness left.
    Ttl(usize),
    /// The events of the identity asked for, if it has any.
    Events(Option<Vec<Vec<u8>>>),
    /// The caller is to print the chain.
    Dump,
    /// The hash of the first block.
    Genesis(crate::Hash),
    /// The caller is to stop.
    Quit,
}

/// One chain, and whether a request has initialised it yet.
#[derive(Debug)]
pub struct Session {
    chain: Blockochen,
    init: bool,
}

/// A session as plain mathematical data.
pub struct SessionView {
    pub chain: ChainView,
    pub init: bool,
}

impl View for Session {
    type V = SessionView;

    closed spec fn view(&self) -> SessionView {
        SessionView { chain: self.chain@, init: self.init }
    }
}

impl SessionView {
    /// Whether serving `request` appends a block.
    pub open spec fn appends(self, request: Request) -> bool {
        match request {
            Request::AddBlock { birth_hash, data } => self.chain.admits(birth_hash@),
            Request::SpawnBlock { birth_data, data } => true,
            _ => false,
        }
    }

    /// Whether `reply` with the state `next` answers `request` in this
    /// state.
    ///
    /// Only the first of `NewBlockchain` and `LoadBlockchain` initialises;
    /// a later one is refused and changes nothing. Every other request is
    /// served whether the session is initialised or not, on the chain it
    /// holds, which is a new chain until another is installed.
    pub open spec fn answers(self, request: Request, next: SessionView, reply: Reply) -> bool {
        match request {
            Request::NewBlockchain => {
                &&& next == SessionView { chain: self.chain, init: true }
                &&& if self.init {
                    reply is AlreadyInitialised
                } else {
                    reply is Initialised
                }
            },
            Request::LoadBlockchain { json } => {
                &&& next == SessionView { chain: self.chain, init: true }
                &&& if self.init {
                    reply is AlreadyInitialised
                } else {
                    reply matches Reply::Load(text) && text@ == json@
                }
            },
            Request::AddBlock { birth_hash, data } => {
                &&& next.init == self.init
                &&& if self.chain.admits(birth_hash@) {
                    &&& next.chain == self.chain.add(birth_hash@, data@)
                    &&& reply matches Reply::Appended(hash)
                    &&& hash@ == self.chain.next_rooted(birth_hash@, data@).hash
                } else {
                    &&& next.chain == self.chain
                    &&& if self.chain.liveness(birth_hash@) is None {
                        reply matches Reply::NotFound(hash) && hash@ == birth_hash@
                    } else {
                        reply matches Reply::Dead(hash) && hash@ == birth_hash@
                    }
                }
            },
            Request::SpawnBlock { birth_data, data } => {
                &&& next == SessionView {
                    chain: self.chain.spawn(birth_data@, data@),
                    init: self.init,
                }
                &&& reply matches Reply::Appended(hash)
                &&& hash@ == self.chain.next_spawned(birth_data@, data@).hash
            },
            Request::GetTTL { birth_hash } => {
                &&& next == self
                &&& match self.chain.liveness(birth_hash@) {
                    Some(left) => reply matches Reply::Ttl(n) && n == left,
                    None => reply matches Reply::NotFound(hash) && hash@ == birth_hash@,
                }
            },
            Request::GetEvents { birth_hash } => {
                &&& next == self
                &&& reply matches Reply::Events(events)
                &&& match events {
                    Some(list) => list.len() > 0 && list.deep_view() == self.chain.events_for(
                        birth_hash@,
                    ),
                    None => self.chain.events_for(birth_hash@).len() == 0,
                }
            },
            Request::Print => next == self && reply is Dump,
            Request::PrintGenesis => {
                &&& next == self
                &&& reply matches Reply::Genesis(hash)
                &&& hash@ == self.chain.genesis_hash
            },
            Request::Quit => next == self && reply is Quit,
        }
    }
}

impl Session {
    /// A session that holds a new chain and is not yet initialised.
    pub fn new() -> (session: Session)
        ensures
            session@ == (SessionView { chain: ChainView::genesis(), init: false }),
    {
        Session { chain: Blockochen::new(), init: false }
    }

    /// The chain that the session holds.
    pub fn chain(&self) -> (chain: &Blockochen)
        ensures
            chain@ == self@.chain,
    {
        &self.chain
    }

    /// Whether a request has initialised the session.
    pub fn is_initialised(&self) -> (init: bool)
        ensures
            init == self@.init,
    {
        self.init
    }

    /// Puts `chain` in place of the chain held, as a `Load` reply asks.
    pub fn install(&mut self, chain: Blockochen)
        ensures
            final(self)@ == (SessionView { chain: chain@, init: old(self)@.init }),
    {
        self.chain = chain;
    }

    /// Serves one request.
    pub fn handle(&mut self, request: Request) -> (reply: Reply)
        requires
            old(self)@.appends(request) ==> old(self)@.chain.ts < u64::MAX,
        ensures
            old(self)@.answers(request, final(self)@, reply),
    {
        match request {
            Request::NewBlockchain => {
                if self.init {
                    Reply::AlreadyInitialised
                } else {
                    self.init = true;
                    Reply::Initialised
                }
            },
            Request::LoadBlockchain { json } => {
                if self.init {
                    Reply::AlreadyInitialised
                } else {
                    self.init = true;
                    Reply::Load(json)
                }
            },
            Request::AddBlock { birth_hash, data } => {
                match self.chain.add(birth_hash.clone(), data) {
                    Ok(hash) => Reply::Appended(hash),
                    Err(None) => Reply::NotFound(birth_hash),
                    Err(Some(_)) => Reply::Dead(birth_hash),
                }
            },
            Request::SpawnBlock { birth_data, data } => Reply::Appended(
                self.chain.spawn(birth_data, data),
            ),
            Request::GetTTL { birth_hash } => {
                match self.chain.get_ttl(birth_hash.clone()) {
                    Some(left) => Reply::Ttl(left),
                    None => Reply::NotFound(birth_hash),
                }
            },
            Request::GetEvents { birth_hash } => Reply::Events(self.chain.get_events(birth_hash)),
            Request::Print => Reply::Dump,
            Request::PrintGenesis => Reply::Genesis(self.chain.genesis_hash().clone()),
            Request::Quit => Reply::Quit,
        }
    }
}

} // verus!
