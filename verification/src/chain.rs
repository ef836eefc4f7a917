//! The chain: blocks in append order, found again by their hash.

use crate::block::{Blocko, BlockoView};
use crate::laws::{law_append_keeps_links, law_creation};
use crate::model::{
    events_of, lemma_events_push, lemma_last_reference, lemma_last_reference_is, Append,
    ChainView, GENESIS_PAYLOAD, GENESIS_PLACEHOLDER, TTL,
};
use crate::sha::push_bytes;
use crate::store::{
    entries, map_get_index, map_get_index_of, map_insert, map_last, map_len, map_new,
};
use indexmap::IndexMap;
use vstd::prelude::*;

verus! {

/// The blocks of the stored pairs, in order.
pub open spec fn block_views(pairs: Seq<(Seq<u8>, Blocko)>) -> Seq<BlockoView> {
    pairs.map_values(|pair: (Seq<u8>, Blocko)| pair.1@)
}

/// An append-only chain of blocks.
///
/// Blocks are kept in the order of their appending and filed under their
/// hashes. The chain always holds its first block, and no two of its blocks
/// share a hash. Should an append ever build a block whose hash the chain
/// already holds, the new block takes the place of the old one, as
/// [`ChainView::append`] says; nothing else ever replaces or removes a
/// block.
#[derive(Debug)]
pub struct Blockochen {
    genesis_hash: crate::Hash,
    chen: IndexMap<Vec<u8>, Blocko>,
    ts: u64,
}

impl View for Blockochen {
    type V = ChainView;

    closed spec fn view(&self) -> ChainView {
        ChainView {
            genesis_hash: self.genesis_hash@,
            blocks: block_views(entries(self.chen)),
            ts: self.ts as nat,
        }
    }
}

impl Blockochen {
    /// Every block is stored under its own hash, the first one under
    /// `genesis_hash`.
    #[verifier::type_invariant]
    closed spec fn inv(&self) -> bool {
        let pairs = entries(self.chen);
        &&& pairs.len() > 0
        &&& self.genesis_hash@ == pairs[0].0
        &&& forall|i: int| 0 <= i < pairs.len() ==> (#[trigger] pairs[i]).0 == pairs[i].1.hash@
        &&& forall|i: int, j: int|
            0 <= i < j < pairs.len() ==> (#[trigger] pairs[i]).0 != (#[trigger] pairs[j]).0
    }

    /// A chain of one block, the genesis block.
    pub fn new() -> (chain: Blockochen)
        ensures
            chain@ == ChainView::genesis(),
            chain@.linked(),
    {
        proof {
            law_creation();
        }
        let mut payload: Vec<u8> = Vec::new();
        push_bytes(&mut payload, GENESIS_PAYLOAD.as_bytes());
        let mut placeholder: Vec<u8> = Vec::new();
        push_bytes(&mut placeholder, GENESIS_PLACEHOLDER.as_bytes());
        let first = Blocko::new(
            0,
            0,
            crate::Hash::empty(),
            payload,
            Some(crate::Hash::from_bytes(placeholder)),
        );
        let genesis_hash = first.hash.clone();
        let key = first.hash.clone().into_bytes();
        let mut chen = map_new();
        let ghost first_view = first@;
        map_insert(&mut chen, key, first);
        let chain = Blockochen { genesis_hash, chen, ts: 0 };
        assert(chain@.blocks =~= seq![first_view]);
        chain
    }

    /// The hash of the first block.
    pub fn genesis_hash(&self) -> (hash: &crate::Hash)
        ensures
            hash@ == self@.genesis_hash,
    {
        &self.genesis_hash
    }

    /// The timestamp that the next block will carry.
    pub fn ts(&self) -> (ts: u64)
        ensures
            ts == self@.ts,
    {
        self.ts
    }

    /// The number of blocks.
    pub fn len(&self) -> (n: usize)
        ensures
            n == self@.len(),
    {
        map_len(&self.chen)
    }

    /// The block appended last.
    pub fn last(&self) -> (block: &Blocko)
        ensures
            block@ == self@.tail(),
    {
        proof {
            use_type_invariant(self);
        }
        map_last(&self.chen).unwrap().1
    }

    /// The block at a position, if the chain is that long.
    pub fn block_at(&self, index: usize) -> (block: Option<&Blocko>)
        ensures
            match block {
                Some(b) => index < self@.len() && b@ == self@.blocks[index as int],
                None => index >= self@.len(),
            },
    {
        match map_get_index(&self.chen, index) {
            Some((_, block)) => Some(block),
            None => None,
        }
    }

    /// The hash of the block at a position, if the chain is that long.
    pub fn get_hash(&self, index: usize) -> (hash: Option<&[u8]>)
        ensures
            match hash {
                Some(bytes) => index < self@.len() && bytes@ == self@.blocks[index as int].hash,
                None => index >= self@.len(),
            },
    {
        proof {
            use_type_invariant(self);
        }
        match map_get_index(&self.chen, index) {
            Some((key, _)) => Some(key.as_slice()),
            None => None,
        }
    }

    /// The payloads of the blocks anchored to `birth_hash`, in chain order,
    /// or `None` if there is no such block.
    pub fn get_events(&self, birth_hash: crate::Hash) -> (events: Option<Vec<Vec<u8>>>)
        ensures
            match events {
                Some(list) => list.deep_view() == self@.events_for(birth_hash@) && list.len() > 0,
                None => self@.events_for(birth_hash@).len() == 0,
            },
    {
        let n = map_len(&self.chen);
        let mut list: Vec<Vec<u8>> = Vec::new();
        let mut i: usize = 0;
        assert(self@.blocks.take(0) =~= Seq::<BlockoView>::empty());
        assert(events_of(Seq::<BlockoView>::empty(), birth_hash@) =~= Seq::<Seq<u8>>::empty()) by {
            reveal(Seq::filter);
        }
        assert(list.deep_view() =~= Seq::<Seq<u8>>::empty());
        while i < n
            invariant
                n == self@.len(),
                i <= n,
                list.deep_view() == events_of(self@.blocks.take(i as int), birth_hash@),
            decreases n - i,
        {
            let (_, block) = map_get_index(&self.chen, i).unwrap();
            proof {
                lemma_events_push(self@.blocks.take(i as int), block@, birth_hash@);
                assert(self@.blocks.take(i as int).push(block@) =~= self@.blocks.take(i + 1));
            }
            if block.birth_hash == birth_hash {
                let ghost before = list;
                let mut payload: Vec<u8> = Vec::new();
                push_bytes(&mut payload, block.data.as_slice());
                assert(payload.deep_view() =~= block@.data);
                list.push(payload);
                assert forall|k: int| 0 <= k < list.len() implies list.deep_view()[k]
                    == before.deep_view().push(block@.data)[k] by {
                    if k < before.len() {
                        assert(list[k] == before[k]);
                    }
                }
                assert(list.deep_view() =~= before.deep_view().push(block@.data));
            }
            i += 1;
        }
        assert(self@.blocks.take(n as int) =~= self@.blocks);
        if list.is_empty() {
            None
        } else {
            Some(list)
        }
    }

    /// The liveness left to `birth_hash`: the window width less the
    /// distance from its latest reference to the end of the chain, or
    /// `None` if no block is anchored to it.
    pub fn get_ttl(&self, birth_hash: crate::Hash) -> (ttl: Option<usize>)
        ensures
            match ttl {
                Some(left) => self@.liveness(birth_hash@) == Some(left as nat),
                None => self@.liveness(birth_hash@) is None,
            },
    {
        proof {
            use_type_invariant(self);
        }
        let n = map_len(&self.chen);
        let mut i: usize = n;
        while i > 0
            invariant
                self.inv(),
                n == self@.len(),
                i <= n,
                forall|q: int| i <= q < n ==> (#[trigger] self@.blocks[q]).birth_hash != birth_hash@,
            decreases i,
        {
            i -= 1;
            let (key, block) = map_get_index(&self.chen, i).unwrap();
            if block.birth_hash == birth_hash {
                proof {
                    lemma_last_reference_is(self@.blocks, birth_hash@, i as int);
                }
                return match map_get_index_of(&self.chen, key) {
                    Some(r) => Some(TTL.saturating_sub(n.saturating_sub(r))),
                    None => None,
                };
            }
        }
        proof {
            lemma_last_reference(self@.blocks, birth_hash@);
        }
        None
    }

    /// Whether an event for `birth_hash` would be admitted now.
    pub fn admits(&self, birth_hash: &crate::Hash) -> (admitted: bool)
        ensures
            admitted == self@.admits(birth_hash@),
    {
        if *birth_hash == self.genesis_hash {
            true
        } else {
            match self.get_ttl(birth_hash.clone()) {
                Some(left) => left > 0,
                None => false,
            }
        }
    }

    /// The view of a chain is well formed.
    proof fn view_is_well_formed(&self)
        requires
            self.inv(),
        ensures
            self@.wf(),
    {
        let pairs = entries(self.chen);
        assert(block_views(pairs)[0] == pairs[0].1@);
        assert forall|i: int, j: int| 0 <= i < j < self@.blocks.len() implies (
        #[trigger] self@.blocks[i]).hash != (#[trigger] self@.blocks[j]).hash by {
            assert(block_views(pairs)[i] == pairs[i].1@);
            assert(block_views(pairs)[j] == pairs[j].1@);
        }
    }

    /// Inserts `block` under its hash and advances the clock.
    fn insert(&mut self, block: Blocko) -> (hash: crate::Hash)
        requires
            old(self)@.ts < u64::MAX,
        ensures
            hash@ == block@.hash,
            final(self)@ == old(self)@.append(block@),
            final(self)@.wf(),
    {
        proof {
            use_type_invariant(&*self);
        }
        let ghost before = entries(self.chen);
        let ghost chain = self@;
        let hash = block.hash.clone();
        let key = block.hash.clone().into_bytes();
        self.ts = self.ts + 1;
        let replaced = map_insert(&mut self.chen, key, block);
        proof {
            let after = entries(self.chen);
            match replaced {
                Some(_) => {
                    let i = choose|i: int|
                        0 <= i < before.len() && (#[trigger] before[i]).0 == key@ && after
                            == before.update(i, (key@, block));
                    assert(chain.blocks[i].hash == block@.hash);
                    assert(chain.holds(block@.hash));
                    let p = chain.position_of(block@.hash);
                    assert(before[p].0 == before[i].0);
                    assert(p == i);
                    assert(block_views(after) =~= chain.blocks.update(i, block@));
                },
                None => {
                    if chain.holds(block@.hash) {
                        let p = chain.position_of(block@.hash);
                        assert(before[p].0 == key@);
                    }
                    assert(block_views(after) =~= chain.blocks.push(block@));
                },
            }
        }
        hash
    }

    /// Records `data` as an event of the identity `birth_hash`.
    ///
    /// The first block's hash is always admitted. Any other identity is
    /// admitted while it has liveness left: `Err(None)` says that no block
    /// is anchored to it, `Err(Some(0))` that its liveness has run out. A
    /// rejected event leaves the chain as it was.
    pub fn add(&mut self, birth_hash: crate::Hash, data: Vec<u8>) -> (outcome: Result<
        crate::Hash,
        Option<usize>,
    >)
        requires
            old(self)@.admits(birth_hash@) ==> old(self)@.ts < u64::MAX,
        ensures
            birth_hash@ == old(self)@.genesis_hash ==> outcome is Ok,
            final(self)@.wf(),
            old(self)@.linked() && final(self)@.len() != old(self)@.len() ==> final(self)@.linked(),
            match outcome {
                Ok(hash) => {
                    &&& old(self)@.admits(birth_hash@)
                    &&& hash@ == old(self)@.next_rooted(birth_hash@, data@).hash
                    &&& final(self)@ == old(self)@.add(birth_hash@, data@)
                },
                Err(left) => {
                    &&& !old(self)@.admits(birth_hash@)
                    &&& final(self)@ == old(self)@
                    &&& match left {
                        Some(n) => n == 0 && old(self)@.liveness(birth_hash@) == Some(0nat),
                        None => old(self)@.liveness(birth_hash@) is None,
                    }
                },
            },
    {
        proof {
            use_type_invariant(&*self);
            self.view_is_well_formed();
        }
        if birth_hash != self.genesis_hash {
            match self.get_ttl(birth_hash.clone()) {
                None => {
                    return Err(None);
                },
                Some(left) => {
                    if left == 0 {
                        return Err(Some(0));
                    }
                },
            }
        }
        let ghost step = Append::Event { birth_hash: birth_hash@, data: data@ };
        let timestamp = self.ts;
        let index = map_len(&self.chen);
        let preceding = self.last().hash.clone();
        let block = Blocko::new(index, timestamp, birth_hash, data, Some(preceding));
        proof {
            if old(self)@.linked() && !old(self)@.holds(block@.hash) {
                law_append_keeps_links(old(self)@, step);
            }
        }
        Ok(self.insert(block))
    }

    /// Mints a new identity from `birth_data` and records `data` as its
    /// first event. The hash returned is both the new block's hash and the
    /// handle of the identity. With an empty `birth_data` no identity is
    /// minted and the block is anchored to nothing.
    pub fn spawn(&mut self, birth_data: Vec<u8>, data: Vec<u8>) -> (hash: crate::Hash)
        requires
            old(self)@.ts < u64::MAX,
        ensures
            hash@ == old(self)@.next_spawned(birth_data@, data@).hash,
            final(self)@ == old(self)@.spawn(birth_data@, data@),
            final(self)@.wf(),
            old(self)@.linked() && final(self)@.len() != old(self)@.len() ==> final(self)@.linked(),
    {
        proof {
            use_type_invariant(&*self);
            self.view_is_well_formed();
        }
        let ghost step = Append::Spawn { birth_seed: birth_data@, data: data@ };
        let timestamp = self.ts;
        let index = map_len(&self.chen);
        let preceding = self.last().hash.clone();
        let block = Blocko::spawn(index, timestamp, birth_data, data, Some(preceding));
        proof {
            if old(self)@.linked() && !old(self)@.holds(block@.hash) {
                law_append_keeps_links(old(self)@, step);
            }
        }
        self.insert(block)
    }
    /// Rebuilds a chain from its parts: the first block's hash, the blocks
    /// in chain order, and the clock.
    ///
    /// The parts are accepted exactly when they are well formed: there is a
    /// block, `genesis_hash` is the hash of the first one, and no two blocks
    /// share a hash.
    pub fn from_parts(genesis_hash: crate::Hash, blocks: Vec<Blocko>, ts: u64) -> (chain: Option<
        Blockochen,
    >)
        ensures
            match chain {
                Some(c) => c@ == parts_view(genesis_hash, blocks, ts) && c@.wf(),
                None => !parts_view(genesis_hash, blocks, ts).wf(),
            },
    {
        let ghost want = parts_view(genesis_hash, blocks, ts);
        let ghost all = blocks@;
        if blocks.len() == 0 || genesis_hash != blocks[0].hash {
            return None;
        }
        let mut chen = map_new();
        for block in it: blocks
            invariant
                it.seq() == all,
                all.len() > 0,
                genesis_hash@ == all[0].hash@,
                want.blocks == all.map_values(|b: Blocko| b@),
                entries(chen).len() == it.index(),
                block_views(entries(chen)) == want.blocks.take(it.index() as int),
                forall|i: int|
                    0 <= i < entries(chen).len() ==> (#[trigger] entries(chen)[i]).0 == entries(
                        chen,
                    )[i].1.hash@,
                forall|i: int, j: int|
                    0 <= i < j < entries(chen).len() ==> (#[trigger] entries(chen)[i]).0 != (
                    #[trigger] entries(chen)[j]).0,
        {
            let ghost before = entries(chen);
            let ghost k = it.index() as int;
            assert(0 <= k < all.len() && block == all[k]);
            assert(want.blocks[k] == block@);
            let key = block.hash.clone().into_bytes();
            let replaced = map_insert(&mut chen, key, block);
            if replaced.is_some() {
                proof {
                    let i = choose|i: int| 0 <= i < before.len() && (#[trigger] before[i]).0 == key@;
                    assert(block_views(before)[i] == before[i].1@);
                    assert(want.blocks.take(k)[i] == want.blocks[i]);
                    assert(want.blocks[i].hash == want.blocks[k].hash);
                }
                return None;
            }
            assert(block_views(entries(chen)) =~= want.blocks.take(k + 1));
        }
        proof {
            let pairs = entries(chen);
            assert(want.blocks.take(all.len() as int) =~= want.blocks);
            assert(block_views(pairs)[0] == pairs[0].1@);
            assert forall|i: int, j: int| 0 <= i < j < want.blocks.len() implies (
            #[trigger] want.blocks[i]).hash != (#[trigger] want.blocks[j]).hash by {
                assert(block_views(pairs)[i] == pairs[i].1@);
                assert(block_views(pairs)[j] == pairs[j].1@);
            }
        }
        let chain = Blockochen { genesis_hash, chen, ts };
        assert(chain@ == want);
        Some(chain)
    }
}

/// The chain that the given parts describe.
pub open spec fn parts_view(genesis_hash: crate::Hash, blocks: Vec<Blocko>, ts: u64) -> ChainView {
    ChainView {
        genesis_hash: genesis_hash@,
        blocks: blocks@.map_values(|b: Blocko| b@),
        ts: ts as nat,
    }
}

} // verus!
