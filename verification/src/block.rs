//! Blocks and the two recipes that make them.

use crate::sha::{digest, push_be_bytes, push_bytes, sha256_bytes};
use vstd::prelude::*;

verus! {

/// One immutable entry of the chain.
#[derive(Debug)]
pub struct Blocko {
    /// Position in the chain, counted from zero.
    pub index: usize,
    /// The logical time at which the block was appended.
    pub timestamp: u64,
    /// The payload.
    pub data: Vec<u8>,
    /// The identity this block is attributed to; empty for none.
    pub birth_hash: crate::Hash,
    /// The hash of the block before this one.
    pub preceding_hash: crate::Hash,
    /// This block's own content hash.
    pub hash: crate::Hash,
}

/// A block as plain mathematical data.
pub struct BlockoView {
    pub index: nat,
    pub timestamp: nat,
    pub data: Seq<u8>,
    pub birth_hash: Seq<u8>,
    pub preceding_hash: Seq<u8>,
    pub hash: Seq<u8>,
}

impl View for Blocko {
    type V = BlockoView;

    open spec fn view(&self) -> BlockoView {
        BlockoView {
            index: self.index as nat,
            timestamp: self.timestamp as nat,
            data: self.data@,
            birth_hash: self.birth_hash@,
            preceding_hash: self.preceding_hash@,
            hash: self.hash@,
        }
    }
}

/// The bytes of an optional hash; an absent one counts as empty.
pub open spec fn bytes_or_empty(hash: Option<crate::Hash>) -> Seq<u8> {
    match hash {
        Some(h) => h@,
        None => Seq::empty(),
    }
}

impl BlockoView {
    /// The block that records an event for `birth_hash`: the anchor is
    /// stored as given, and the hash covers the anchor's bytes followed by
    /// the payload. With an empty anchor that is the payload alone.
    pub open spec fn rooted(
        index: nat,
        timestamp: nat,
        birth_hash: Seq<u8>,
        data: Seq<u8>,
        preceding_hash: Seq<u8>,
    ) -> BlockoView {
        BlockoView {
            index,
            timestamp,
            data,
            birth_hash,
            preceding_hash,
            hash: digest(index, timestamp, birth_hash + data, preceding_hash),
        }
    }

    /// The block that mints an identity from `birth_seed`: its hash covers
    /// the seed followed by the payload, and that hash is also its anchor.
    /// With an empty seed nothing is minted and the block is the rooted one
    /// with no anchor.
    pub open spec fn spawned(
        index: nat,
        timestamp: nat,
        birth_seed: Seq<u8>,
        data: Seq<u8>,
        preceding_hash: Seq<u8>,
    ) -> BlockoView {
        if birth_seed.len() == 0 {
            BlockoView::rooted(index, timestamp, Seq::empty(), data, preceding_hash)
        } else {
            let minted = digest(index, timestamp, birth_seed + data, preceding_hash);
            BlockoView { index, timestamp, data, birth_hash: minted, preceding_hash, hash: minted }
        }
    }

    /// Whether the stored hash is the digest of the stored fields.
    pub open spec fn recomputes(self) -> bool {
        self.hash == digest(
            self.index,
            self.timestamp,
            self.birth_hash + self.data,
            self.preceding_hash,
        )
    }

    /// Whether the hash is the digest over `seed` followed by the payload,
    /// for a seed that is not empty.
    pub open spec fn minted_from(self, seed: Seq<u8>) -> bool {
        &&& seed.len() > 0
        &&& self.hash == digest(self.index, self.timestamp, seed + self.data, self.preceding_hash)
    }

    /// Whether the block mints the identity it is anchored to: hash and
    /// anchor agree, and are the digest over some non-empty seed followed by
    /// the payload.
    pub open spec fn mints(self) -> bool {
        &&& self.birth_hash == self.hash
        &&& exists|seed: Seq<u8>| self.minted_from(seed)
    }
}

impl Blocko {
    /// Builds the block that records `data` for the identity `birth_hash`.
    pub fn new(
        index: usize,
        timestamp: u64,
        birth_hash: crate::Hash,
        data: Vec<u8>,
        preceding_hash: Option<crate::Hash>,
    ) -> (block: Blocko)
        ensures
            block@ == BlockoView::rooted(
                index as nat,
                timestamp as nat,
                birth_hash@,
                data@,
                bytes_or_empty(preceding_hash),
            ),
    {
        let preceding_hash = match preceding_hash {
            Some(h) => h,
            None => crate::Hash::empty(),
        };
        let hash = if birth_hash.is_empty() {
            assert(birth_hash@ + data@ =~= data@);
            Blocko::compute_hash(index, timestamp, data.as_slice(), preceding_hash.as_bytes())
        } else {
            let mut amalg: Vec<u8> = Vec::new();
            push_bytes(&mut amalg, birth_hash.as_bytes());
            push_bytes(&mut amalg, data.as_slice());
            assert(amalg@ =~= birth_hash@ + data@);
            Blocko::compute_hash(index, timestamp, amalg.as_slice(), preceding_hash.as_bytes())
        };
        Blocko { index, timestamp, data, birth_hash, preceding_hash, hash }
    }

    /// Builds the block that mints a new identity from `birth_data`.
    pub fn spawn(
        index: usize,
        timestamp: u64,
        birth_data: Vec<u8>,
        data: Vec<u8>,
        preceding_hash: Option<crate::Hash>,
    ) -> (block: Blocko)
        ensures
            block@ == BlockoView::spawned(
                index as nat,
                timestamp as nat,
                birth_data@,
                data@,
                bytes_or_empty(preceding_hash),
            ),
    {
        let preceding_hash = match preceding_hash {
            Some(h) => h,
            None => crate::Hash::empty(),
        };
        if birth_data.is_empty() {
            assert(Seq::<u8>::empty() + data@ =~= data@);
            let hash = Blocko::compute_hash(
                index,
                timestamp,
                data.as_slice(),
                preceding_hash.as_bytes(),
            );
            Blocko { index, timestamp, data, birth_hash: crate::Hash::empty(), preceding_hash, hash }
        } else {
            let mut amalg: Vec<u8> = birth_data;
            push_bytes(&mut amalg, data.as_slice());
            let hash = Blocko::compute_hash(
                index,
                timestamp,
                amalg.as_slice(),
                preceding_hash.as_bytes(),
            );
            let birth_hash = hash.clone();
            Blocko { index, timestamp, data, birth_hash, preceding_hash, hash }
        }
    }

    /// The content hash of a block at `index`, stamped `timestamp`, over
    /// `data`, after the block whose hash is `preceding_hash`.
    pub fn compute_hash(index: usize, timestamp: u64, data: &[u8], preceding_hash: &[u8]) -> (hash:
        crate::Hash)
        ensures
            hash@ == digest(index as nat, timestamp as nat, data@, preceding_hash@),
    {
        let mut composed: Vec<u8> = Vec::new();
        push_be_bytes(&mut composed, index as u64);
        push_be_bytes(&mut composed, timestamp);
        push_bytes(&mut composed, data);
        push_bytes(&mut composed, preceding_hash);
        crate::Hash::from_bytes(sha256_bytes(composed.as_slice()))
    }
}

} // verus!
