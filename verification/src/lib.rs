//! An append-only, hash-linked ledger of opaque records whose identities
//! stay alive only while they are referenced within a trailing window.
//!
//! A block either mints an identity (`spawn`) or records an event for one
//! (`add`). An identity is alive while a block anchored to it lies among the
//! last [`TTL`] blocks of the chain; events for an identity that is not
//! alive are refused. The hash of the first block is always admitted.
//!
//! * [`block`]: blocks, and the two recipes that make them.
//! * [`chain`]: the chain and its operations.
//! * [`model`]: the chain as a mathematical value; the contracts of
//!   [`chain`] are stated on it.
//! * [`laws`]: what follows for every chain, as proved statements.
//! * [`request`]: a session that serves requests against one chain.
//! * [`sha`], [`store`], [`hextext`]: SHA-256, the ordered map and the hex
//!   codec, each taken from a crate of its own and trusted to do what its
//!   contract here says.

pub mod block;
pub mod chain;
pub mod hextext;
pub mod laws;
pub mod model;
pub mod request;
pub mod sha;
pub mod store;

pub use block::{Blocko, BlockoView};
pub use chain::Blockochen;
pub use hextext::HexError;
pub use model::{Append, ChainView, GENESIS_PAYLOAD, GENESIS_PLACEHOLDER, TTL};
pub use request::{Reply, Request, Session, SessionView};

use vstd::prelude::*;
use vstd::std_specs::cmp::PartialEqSpecImpl;
use vstd::string::StringSliceAdditionalSpecFns;

verus! {

/// A content hash, or the empty value that stands for "no anchor".
///
/// Its view is the raw byte sequence; two hashes are the same hash exactly
/// when their bytes agree.
#[derive(Debug)]
pub struct Hash(Vec<u8>);

impl View for Hash {
    type V = Seq<u8>;

    closed spec fn view(&self) -> Seq<u8> {
        self.0@
    }
}

/// Whether two byte strings hold the same bytes.
pub fn bytes_equal(a: &[u8], b: &[u8]) -> (same: bool)
    ensures
        same == (a@ == b@),
{
    if a.len() != b.len() {
        return false;
    }
    let mut i: usize = 0;
    while i < a.len()
        invariant
            a@.len() == b@.len(),
            i <= a@.len(),
            forall|j: int| 0 <= j < i ==> a@[j] == b@[j],
        decreases a@.len() - i,
    {
        if a[i] != b[i] {
            return false;
        }
        i += 1;
    }
    assert(a@ =~= b@);
    true
}

impl Hash {
    /// The hash made of exactly these bytes.
    pub fn from_bytes(bytes: Vec<u8>) -> (h: Hash)
        ensures
            h@ == bytes@,
    {
        Hash(bytes)
    }

    /// The empty hash, which anchors to nothing.
    pub fn empty() -> (h: Hash)
        ensures
            h@ == Seq::<u8>::empty(),
    {
        Hash(Vec::new())
    }

    /// The raw bytes.
    pub fn as_bytes(&self) -> (bytes: &[u8])
        ensures
            bytes@ == self@,
    {
        self.0.as_slice()
    }

    /// The raw bytes, by value.
    pub fn into_bytes(self) -> (bytes: Vec<u8>)
        ensures
            bytes@ == self@,
    {
        self.0
    }

    /// The hash as text: two lower-case hex digits for each byte.
    pub fn to_hex(&self) -> (text: String)
        ensures
            text@ == hextext::hex_text(self@),
    {
        hextext::hex_encode(self.0.as_slice())
    }

    /// Reads a hash from its text form. Digits of either case are taken; a
    /// text that is no hex form of a byte string is refused, never cut
    /// short.
    pub fn from_hex(text: &str) -> (parsed: Result<Hash, HexError>)
        ensures
            hextext::decodes_to(
                text.spec_bytes(),
                match parsed {
                    Ok(hash) => Ok(hash@),
                    Err(e) => Err(e),
                },
            ),
    {
        match hextext::hex_decode(text.as_bytes()) {
            Ok(bytes) => Ok(Hash(bytes)),
            Err(e) => Err(e),
        }
    }

    /// Whether this is the empty hash.
    pub fn is_empty(&self) -> (e: bool)
        ensures
            e == (self@.len() == 0),
    {
        self.0.is_empty()
    }
}

impl Clone for Hash {
    fn clone(&self) -> (h: Hash)
        ensures
            h@ == self@,
    {
        let bytes = self.0.clone();
        assert(bytes@ =~= self.0@);
        Hash(bytes)
    }
}

impl Default for Hash {
    fn default() -> (h: Hash)
        ensures
            h@ == Seq::<u8>::empty(),
    {
        Hash(Vec::new())
    }
}

impl PartialEq for Hash {
    fn eq(&self, other: &Hash) -> (same: bool) {
        bytes_equal(self.0.as_slice(), other.0.as_slice())
    }
}

impl PartialEqSpecImpl for Hash {
    open spec fn obeys_eq_spec() -> bool {
        true
    }

    open spec fn eq_spec(&self, other: &Hash) -> bool {
        self@ == other@
    }
}

impl Eq for Hash {}

} // verus!
