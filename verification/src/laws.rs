//! What holds of every chain, proved from the model.

use crate::block::BlockoView;
use crate::hextext::{decodes_to, hex_bytes, hex_digits, hex_text, hex_value, is_hex_text};
use crate::model::{lemma_last_reference, Append, ChainView, TTL};
use vstd::string::StringSliceAdditionalSpecFns;
use vstd::utf8::is_ascii_chars_encode_utf8;
use vstd::prelude::*;

verus! {

/// Right after creation the chain has exactly one block, at position 0,
/// `genesis_hash` is that block's hash, and the clock stands at 0.
pub proof fn law_creation()
    ensures
        ChainView::genesis().blocks.len() == 1,
        ChainView::genesis().blocks[0].index == 0,
        ChainView::genesis().genesis_hash == ChainView::genesis().blocks[0].hash,
        ChainView::genesis().ts == 0,
        ChainView::genesis().linked(),
{
    let first = ChainView::genesis().blocks[0];
    assert(first.birth_hash + first.data =~= first.data);
}

/// Inserting a block keeps a chain well formed, whether the hash is new or
/// not, and never changes `genesis_hash`.
pub proof fn law_append_keeps_wf(chain: ChainView, block: BlockoView)
    requires
        chain.wf(),
    ensures
        chain.append(block).wf(),
        chain.append(block).genesis_hash == chain.genesis_hash,
        chain.append(block).ts == chain.ts + 1,
        chain.holds(block.hash) ==> chain.append(block).len() == chain.len(),
        !chain.holds(block.hash) ==> chain.append(block).len() == chain.len() + 1
            && chain.append(block).tail() == block,
{
}

/// The k-th append is stamped k, and after n appends the clock stands at
/// n: with `steps` made on a new chain, the block built by `steps[k]`
/// carries the timestamp `k`, and the clock ends at `steps.len()`.
pub proof fn law_monotonic_timestamps(steps: Seq<Append>)
    ensures
        ChainView::genesis().after(steps).ts == steps.len(),
        forall|k: int|
            0 <= k < steps.len() ==> (#[trigger] ChainView::genesis().after(
                steps.take(k),
            )).block_for(steps[k]).timestamp == k,
    decreases steps.len(),
{
    if steps.len() > 0 {
        law_monotonic_timestamps(steps.drop_last());
        assert forall|k: int| 0 <= k < steps.len() implies (#[trigger] ChainView::genesis().after(
            steps.take(k),
        )).block_for(steps[k]).timestamp == k by {
            law_monotonic_timestamps(steps.take(k));
        }
    }
}

/// An append of a new hash keeps a chain linked.
pub proof fn law_append_keeps_links(chain: ChainView, step: Append)
    requires
        chain.linked(),
        !chain.holds(chain.block_for(step).hash),
    ensures
        chain.append(chain.block_for(step)).linked(),
{
    let block = chain.block_for(step);
    let grown = chain.append(block);
    match step {
        Append::Event { birth_hash, data } => {
            assert(block.recomputes());
        },
        Append::Spawn { birth_seed, data } => {
            if birth_seed.len() == 0 {
                assert(block.birth_hash + block.data =~= block.data);
                assert(block.recomputes());
            } else {
                assert(block.minted_from(birth_seed));
            }
        },
    }
    assert forall|i: int| 0 <= i < grown.blocks.len() implies (#[trigger] grown.blocks[i]).recomputes()
        || grown.blocks[i].mints() by {
        if i < chain.blocks.len() {
            assert(grown.blocks[i] == chain.blocks[i]);
        }
    }
}

/// A chain that grew from creation without a collision of hashes is
/// linked, and has one block for the first and one for each append.
pub proof fn law_grown_chain_is_linked(steps: Seq<Append>)
    requires
        ChainView::genesis().collision_free(steps),
    ensures
        ChainView::genesis().after(steps).linked(),
        ChainView::genesis().after(steps).len() == steps.len() + 1,
    decreases steps.len(),
{
    let start = ChainView::genesis();
    if steps.len() == 0 {
        law_creation();
    } else {
        let front = steps.drop_last();
        assert forall|k: int| 0 <= k < front.len() implies !(#[trigger] start.after(
            front.take(k),
        )).holds(start.after(front.take(k)).block_for(front[k]).hash) by {
            assert(front.take(k) =~= steps.take(k));
        }
        law_grown_chain_is_linked(front);
        assert(steps.take(steps.len() - 1) =~= front);
        law_append_keeps_links(start.after(front), steps.last());
    }
}

/// In a linked chain every block but the first records the hash of the
/// block one position lower.
pub proof fn law_chaining(chain: ChainView, i: int)
    requires
        chain.linked(),
        1 <= i < chain.len(),
    ensures
        chain.blocks[i].preceding_hash == chain.blocks[i - 1].hash,
        chain.blocks[i].index == i,
{
}

/// The hash of a block that records an event is the digest of its own
/// stored fields: whoever recomputes it from them gets the stored hash.
pub proof fn law_rooted_hash_recomputes(
    index: nat,
    timestamp: nat,
    birth_hash: Seq<u8>,
    data: Seq<u8>,
    preceding_hash: Seq<u8>,
)
    ensures
        BlockoView::rooted(index, timestamp, birth_hash, data, preceding_hash).recomputes(),
{
}

/// A block spawned from an empty seed recomputes like any anchor-less
/// block; one spawned from a seed is anchored to its own hash, which covers
/// the seed in place of the anchor.
pub proof fn law_spawned_hash(
    index: nat,
    timestamp: nat,
    birth_seed: Seq<u8>,
    data: Seq<u8>,
    preceding_hash: Seq<u8>,
)
    ensures
        birth_seed.len() == 0 ==> BlockoView::spawned(
            index,
            timestamp,
            birth_seed,
            data,
            preceding_hash,
        ).recomputes(),
        birth_seed.len() > 0 ==> BlockoView::spawned(
            index,
            timestamp,
            birth_seed,
            data,
            preceding_hash,
        ).mints(),
{
    let block = BlockoView::spawned(index, timestamp, birth_seed, data, preceding_hash);
    if birth_seed.len() == 0 {
        assert(block.birth_hash + block.data =~= block.data);
    } else {
        assert(block.minted_from(birth_seed));
    }
}

/// The decay law: where the latest block anchored to `birth_hash` stands
/// at `p`, that is `len - p` positions from the end, the liveness left is
/// the window width less that distance, and zero once the distance reaches
/// the width.
pub proof fn law_liveness_decay(chain: ChainView, birth_hash: Seq<u8>, p: int)
    requires
        0 <= p < chain.len(),
        chain.blocks[p].birth_hash == birth_hash,
        forall|q: int| p < q < chain.len() ==> (#[trigger] chain.blocks[q]).birth_hash != birth_hash,
    ensures
        chain.liveness(birth_hash) == Some(
            if chain.len() - p < 16 {
                (16 - (chain.len() - p)) as nat
            } else {
                0nat
            },
        ),
{
    lemma_last_reference(chain.blocks, birth_hash);
}

/// An identity that no block is anchored to has no liveness, and an event
/// for it is admitted only if it is the first block's hash.
pub proof fn law_unknown_identity(chain: ChainView, birth_hash: Seq<u8>)
    requires
        forall|q: int| 0 <= q < chain.len() ==> (#[trigger] chain.blocks[q]).birth_hash != birth_hash,
    ensures
        chain.liveness(birth_hash) is None,
        chain.admits(birth_hash) <==> birth_hash == chain.genesis_hash,
{
    lemma_last_reference(chain.blocks, birth_hash);
}

/// The first block's hash is admitted as an anchor by every chain, however
/// long it has grown.
pub proof fn law_genesis_exemption(chain: ChainView)
    ensures
        chain.admits(chain.genesis_hash),
{
}

/// A new block that is anchored to an identity restores its liveness to
/// one less than the window width.
pub proof fn law_reference_refreshes(chain: ChainView, block: BlockoView)
    requires
        chain.wf(),
        !chain.holds(block.hash),
    ensures
        chain.append(block).liveness(block.birth_hash) == Some((TTL - 1) as nat),
{
}

/// A new block that is anchored elsewhere takes one unit from the liveness
/// of an identity, down to zero.
pub proof fn law_other_block_consumes(chain: ChainView, block: BlockoView, birth_hash: Seq<u8>)
    requires
        chain.wf(),
        !chain.holds(block.hash),
        block.birth_hash != birth_hash,
    ensures
        chain.append(block).liveness(birth_hash) == match chain.liveness(birth_hash) {
            Some(left) => Some(if left > 0 { (left - 1) as nat } else { 0nat }),
            None => None,
        },
{
    let grown = chain.append(block);
    assert(grown.blocks.drop_last() =~= chain.blocks);
    lemma_last_reference(chain.blocks, birth_hash);
}

/// Reading back the text of a hash gives the hash: the hex form of a byte
/// string decodes to that byte string.
pub proof fn law_hex_round_trip(bytes: Seq<u8>, text: &str)
    requires
        text@ == hex_text(bytes),
    ensures
        decodes_to(text.spec_bytes(), Ok(bytes)),
{
    let chars = text@;
    let read = text.spec_bytes();
    assert forall|i: int| 0 <= i < chars.len() implies '\0' <= #[trigger] chars[i] <= '\u{7f}'
        && hex_value(chars[i] as u8) == Some(
        if i % 2 == 0 {
            bytes[i / 2] as int / 16
        } else {
            bytes[i / 2] as int % 16
        },
    ) by {
        let v = if i % 2 == 0 {
            bytes[i / 2] as int / 16
        } else {
            bytes[i / 2] as int % 16
        };
        assert(0 <= v < 16);
        assert(chars[i] == hex_digits()[v]);
        lemma_hex_digit(v);
    }
    is_ascii_chars_encode_utf8(chars);
    assert forall|i: int| 0 <= i < read.len() implies hex_value(#[trigger] read[i]) is Some by {
        assert(read[i] == chars[i] as u8);
    }
    assert(is_hex_text(read));
    assert forall|k: int| 0 <= k < bytes.len() implies hex_bytes(read)[k] == bytes[k] by {
        assert(read[2 * k] == chars[2 * k] as u8);
        assert(read[2 * k + 1] == chars[2 * k + 1] as u8);
    }
    assert(hex_bytes(read) =~= bytes);
}

/// Each of the sixteen digits is an ASCII character that stands for its own
/// position.
proof fn lemma_hex_digit(v: int)
    requires
        0 <= v < 16,
    ensures
        '\0' <= hex_digits()[v] <= '\u{7f}',
        hex_value(hex_digits()[v] as u8) == Some(v),
{
    let d = hex_digits();
    assert(d[0] == '0' && d[1] == '1' && d[2] == '2' && d[3] == '3');
    assert(d[4] == '4' && d[5] == '5' && d[6] == '6' && d[7] == '7');
    assert(d[8] == '8' && d[9] == '9' && d[10] == 'a' && d[11] == 'b');
    assert(d[12] == 'c' && d[13] == 'd' && d[14] == 'e' && d[15] == 'f');
}

} // verus!
