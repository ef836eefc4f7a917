//! The digest primitive: SHA-256 over a byte composition.

use sha2::Digest;
use vstd::prelude::*;

verus! {

/// The SHA-256 digest of a byte string.
///
/// The algorithm is not restated here: the digest is known only as a function
/// of its input, so equal inputs have equal digests and nothing else is
/// claimed of it.
pub uninterp spec fn sha256(input: Seq<u8>) -> Seq<u8>;

/// Hashes `input` in one shot with `sha2::Sha256::digest`.
///
/// Trusted: the bytes returned are the SHA-256 digest of exactly the bytes
/// given.
#[verifier::external_body]
pub(crate) fn sha256_bytes(input: &[u8]) -> (out: Vec<u8>)
    ensures
        out@ == sha256(input@),
{
    sha2::Sha256::digest(input).to_vec()
}

/// The eight bytes of `x`, most significant first. Values of 2^64 and above
/// are reduced modulo 2^64.
pub open spec fn be_bytes(x: nat) -> Seq<u8> {
    seq![
        ((x / 0x100_0000_0000_0000) % 256) as u8,
        ((x / 0x1_0000_0000_0000) % 256) as u8,
        ((x / 0x100_0000_0000) % 256) as u8,
        ((x / 0x1_0000_0000) % 256) as u8,
        ((x / 0x100_0000) % 256) as u8,
        ((x / 0x1_0000) % 256) as u8,
        ((x / 0x100) % 256) as u8,
        (x % 256) as u8,
    ]
}

/// The byte string that is hashed for a block: position, then timestamp,
/// each as eight big-endian bytes, then the payload, then the hash of the
/// block before.
pub open spec fn composition(
    index: nat,
    timestamp: nat,
    payload: Seq<u8>,
    preceding: Seq<u8>,
) -> Seq<u8> {
    be_bytes(index) + be_bytes(timestamp) + payload + preceding
}

/// The content hash of a block.
pub open spec fn digest(index: nat, timestamp: nat, payload: Seq<u8>, preceding: Seq<u8>) -> Seq<
    u8,
> {
    sha256(composition(index, timestamp, payload, preceding))
}

/// Appends the eight big-endian bytes of `x` to `out`.
pub fn push_be_bytes(out: &mut Vec<u8>, x: u64)
    ensures
        final(out)@ == old(out)@ + be_bytes(x as nat),
{
    out.push(((x / 0x100_0000_0000_0000) % 256) as u8);
    out.push(((x / 0x1_0000_0000_0000) % 256) as u8);
    out.push(((x / 0x100_0000_0000) % 256) as u8);
    out.push(((x / 0x1_0000_0000) % 256) as u8);
    out.push(((x / 0x100_0000) % 256) as u8);
    out.push(((x / 0x1_0000) % 256) as u8);
    out.push(((x / 0x100) % 256) as u8);
    out.push((x % 256) as u8);
    assert(out@ =~= old(out)@ + be_bytes(x as nat));
}

/// Appends a copy of `bytes` to `out`.
pub fn push_bytes(out: &mut Vec<u8>, bytes: &[u8])
    ensures
        final(out)@ == old(out)@ + bytes@,
{
    out.extend_from_slice(bytes);
    assert(out@ =~= old(out)@ + bytes@);
}

} // verus!
