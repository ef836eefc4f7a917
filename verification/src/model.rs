//! The chain as a mathematical value, and the rules of the ledger stated on
//! it.

use crate::block::BlockoView;
use vstd::prelude::*;
use vstd::string::StringSliceAdditionalSpecFns;

verus! {

/// The width of the liveness window: an identity stays alive while a block
/// anchored to it lies among the last `TTL` blocks.
pub const TTL: usize = 16;

/// The text that the first block of every chain carries as its payload.
pub const GENESIS_PAYLOAD: &'static str = "Initial Block in the Chain";

/// The text that the first block records in place of the hash of a block
/// before it. It is not the empty hash.
pub const GENESIS_PLACEHOLDER: &'static str = "0";

/// The payload of the first block of every chain.
pub open spec fn genesis_payload() -> Seq<u8> {
    GENESIS_PAYLOAD.spec_bytes()
}

/// What the first block records in place of the hash of a block before it.
pub open spec fn genesis_placeholder() -> Seq<u8> {
    GENESIS_PLACEHOLDER.spec_bytes()
}

/// The position of the block nearest the tail that is anchored to
/// `birth_hash`, found by walking from the tail backward.
pub open spec fn last_reference(blocks: Seq<BlockoView>, birth_hash: Seq<u8>) -> Option<int>
    decreases blocks.len(),
{
    if blocks.len() == 0 {
        None
    } else if blocks.last().birth_hash == birth_hash {
        Some(blocks.len() - 1)
    } else {
        last_reference(blocks.drop_last(), birth_hash)
    }
}

/// The liveness left to an identity whose latest reference stands at
/// `position` in a chain of `len` blocks: the window width less the
/// distance to the end, and never below zero.
pub open spec fn remaining(len: nat, position: int) -> nat {
    if len - position >= TTL {
        0
    } else {
        (TTL - (len - position)) as nat
    }
}

/// The payloads of the blocks anchored to `birth_hash`, in chain order.
pub open spec fn events_of(blocks: Seq<BlockoView>, birth_hash: Seq<u8>) -> Seq<Seq<u8>> {
    blocks.filter(|b: BlockoView| b.birth_hash == birth_hash).map_values(|b: BlockoView| b.data)
}

/// The position that `last_reference` gives is in range and anchored to
/// `birth_hash`, and no block after it is; where it gives none, no block is
/// anchored to `birth_hash`.
pub proof fn lemma_last_reference(blocks: Seq<BlockoView>, birth_hash: Seq<u8>)
    ensures
        match last_reference(blocks, birth_hash) {
            Some(p) => {
                &&& 0 <= p < blocks.len()
                &&& blocks[p].birth_hash == birth_hash
                &&& forall|q: int| p < q < blocks.len() ==> (#[trigger] blocks[q]).birth_hash != birth_hash
            },
            None => forall|q: int| 0 <= q < blocks.len() ==> (#[trigger] blocks[q]).birth_hash != birth_hash,
        },
    decreases blocks.len(),
{
    if blocks.len() > 0 && blocks.last().birth_hash != birth_hash {
        let front = blocks.drop_last();
        lemma_last_reference(front, birth_hash);
        assert(forall|q: int| 0 <= q < front.len() ==> front[q] == blocks[q]);
    }
}

/// A block anchored to `birth_hash` with none after it is the one that
/// `last_reference` finds.
pub proof fn lemma_last_reference_is(blocks: Seq<BlockoView>, birth_hash: Seq<u8>, p: int)
    requires
        0 <= p < blocks.len(),
        blocks[p].birth_hash == birth_hash,
        forall|q: int| p < q < blocks.len() ==> (#[trigger] blocks[q]).birth_hash != birth_hash,
    ensures
        last_reference(blocks, birth_hash) == Some(p),
{
    lemma_last_reference(blocks, birth_hash);
}

/// Appending a block adds its payload to the events of its anchor and to
/// no others.
pub proof fn lemma_events_push(blocks: Seq<BlockoView>, block: BlockoView, birth_hash: Seq<u8>)
    ensures
        events_of(blocks.push(block), birth_hash) == if block.birth_hash == birth_hash {
            events_of(blocks, birth_hash).push(block.data)
        } else {
            events_of(blocks, birth_hash)
        },
{
    broadcast use Seq::lemma_filter_push;

    let anchored = |b: BlockoView| b.birth_hash == birth_hash;
    let payload = |b: BlockoView| b.data;
    assert(blocks.push(block).filter(anchored) == if anchored(block) {
        blocks.filter(anchored).push(block)
    } else {
        blocks.filter(anchored)
    });
    assert(blocks.filter(anchored).push(block).map_values(payload) =~= blocks.filter(
        anchored,
    ).map_values(payload).push(block.data));
}

/// A chain as plain mathematical data.
pub struct ChainView {
    /// The hash of the first block.
    pub genesis_hash: Seq<u8>,
    /// The blocks in chain order.
    pub blocks: Seq<BlockoView>,
    /// The timestamp that the next block will carry.
    pub ts: nat,
}

impl ChainView {
    /// The number of blocks.
    pub open spec fn len(self) -> nat {
        self.blocks.len()
    }

    /// The block appended last.
    pub open spec fn tail(self) -> BlockoView {
        self.blocks.last()
    }

    /// Whether some block has the hash `hash`.
    pub open spec fn holds(self, hash: Seq<u8>) -> bool {
        exists|i: int| 0 <= i < self.blocks.len() && (#[trigger] self.blocks[i]).hash == hash
    }

    /// A position at which the hash `hash` stands, if `holds(hash)`.
    pub open spec fn position_of(self, hash: Seq<u8>) -> int {
        choose|i: int| 0 <= i < self.blocks.len() && (#[trigger] self.blocks[i]).hash == hash
    }

    /// What every chain satisfies: there is a first block, `genesis_hash`
    /// is its hash, and no two blocks share a hash.
    pub open spec fn wf(self) -> bool {
        &&& self.blocks.len() > 0
        &&& self.genesis_hash == self.blocks[0].hash
        &&& forall|i: int, j: int|
            0 <= i < j < self.blocks.len() ==> (#[trigger] self.blocks[i]).hash != (
            #[trigger] self.blocks[j]).hash
    }

    /// The chain right after creation.
    pub open spec fn genesis() -> ChainView {
        let first = BlockoView::rooted(
            0,
            0,
            Seq::empty(),
            genesis_payload(),
            genesis_placeholder(),
        );
        ChainView { genesis_hash: first.hash, blocks: seq![first], ts: 0 }
    }

    /// The chain after `block` is inserted under its hash and the clock
    /// advances. A block whose hash is new becomes the tail. A block whose
    /// hash some block already has takes that block's place instead, and the
    /// chain grows no longer.
    pub open spec fn append(self, block: BlockoView) -> ChainView {
        ChainView {
            genesis_hash: self.genesis_hash,
            blocks: if self.holds(block.hash) {
                self.blocks.update(self.position_of(block.hash), block)
            } else {
                self.blocks.push(block)
            },
            ts: self.ts + 1,
        }
    }

    /// The liveness left to `birth_hash`, if any block is anchored to it.
    pub open spec fn liveness(self, birth_hash: Seq<u8>) -> Option<nat> {
        match last_reference(self.blocks, birth_hash) {
            Some(p) => Some(remaining(self.blocks.len(), p)),
            None => None,
        }
    }

    /// The payloads recorded for `birth_hash`, in chain order.
    pub open spec fn events_for(self, birth_hash: Seq<u8>) -> Seq<Seq<u8>> {
        events_of(self.blocks, birth_hash)
    }

    /// Whether an event for `birth_hash` is admitted: the first block's
    /// hash always is, any other while it has liveness left.
    pub open spec fn admits(self, birth_hash: Seq<u8>) -> bool {
        ||| birth_hash == self.genesis_hash
        ||| self.liveness(birth_hash) matches Some(left) && left > 0
    }

    /// The block that an admitted event for `birth_hash` appends.
    pub open spec fn next_rooted(self, birth_hash: Seq<u8>, data: Seq<u8>) -> BlockoView {
        BlockoView::rooted(self.blocks.len(), self.ts, birth_hash, data, self.tail().hash)
    }

    /// The block that spawning from `birth_seed` appends.
    pub open spec fn next_spawned(self, birth_seed: Seq<u8>, data: Seq<u8>) -> BlockoView {
        BlockoView::spawned(self.blocks.len(), self.ts, birth_seed, data, self.tail().hash)
    }

    /// The chain after an admitted event for `birth_hash`.
    pub open spec fn add(self, birth_hash: Seq<u8>, data: Seq<u8>) -> ChainView {
        self.append(self.next_rooted(birth_hash, data))
    }

    /// The chain after spawning from `birth_seed`.
    pub open spec fn spawn(self, birth_seed: Seq<u8>, data: Seq<u8>) -> ChainView {
        self.append(self.next_spawned(birth_seed, data))
    }

    /// The block that the append `step` builds on this chain.
    pub open spec fn block_for(self, step: Append) -> BlockoView {
        match step {
            Append::Event { birth_hash, data } => self.next_rooted(birth_hash, data),
            Append::Spawn { birth_seed, data } => self.next_spawned(birth_seed, data),
        }
    }

    /// The chain after the appends `steps`, made in order.
    pub open spec fn after(self, steps: Seq<Append>) -> ChainView
        decreases steps.len(),
    {
        if steps.len() == 0 {
            self
        } else {
            let before = self.after(steps.drop_last());
            before.append(before.block_for(steps.last()))
        }
    }

    /// Whether none of the appends `steps` builds a block whose hash the
    /// chain already holds at that moment.
    pub open spec fn collision_free(self, steps: Seq<Append>) -> bool {
        forall|k: int|
            0 <= k < steps.len() ==> !(#[trigger] self.after(steps.take(k))).holds(
                self.after(steps.take(k)).block_for(steps[k]).hash,
            )
    }

    /// The shape of a chain that was created and then grew by appends of
    /// new hashes only: every block sits at the position it records, the
    /// appended blocks carry the timestamps 0, 1, 2, ... in order, each
    /// block but the first records the hash of the block before it, and
    /// each hash is the digest that one of the two recipes gives.
    pub open spec fn linked(self) -> bool {
        &&& self.wf()
        &&& self.ts == self.blocks.len() - 1
        &&& self.blocks[0] == ChainView::genesis().blocks[0]
        &&& forall|i: int| 0 <= i < self.blocks.len() ==> (#[trigger] self.blocks[i]).index == i
        &&& forall|i: int|
            1 <= i < self.blocks.len() ==> (#[trigger] self.blocks[i]).timestamp == i - 1
        &&& forall|i: int|
            1 <= i < self.blocks.len() ==> (#[trigger] self.blocks[i]).preceding_hash
                == self.blocks[i - 1].hash
        &&& forall|i: int|
            0 <= i < self.blocks.len() ==> (#[trigger] self.blocks[i]).recomputes()
                || self.blocks[i].mints()
    }
}

/// One append, as the caller asks for it.
pub enum Append {
    /// An event for an existing identity.
    Event { birth_hash: Seq<u8>, data: Seq<u8> },
    /// The minting of a new identity.
    Spawn { birth_seed: Seq<u8>, data: Seq<u8> },
}

} // verus!
