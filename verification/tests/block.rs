use blockochen::Blocko;

fn hash_of(text: &str) -> blockochen::Hash {
    blockochen::Hash::from_hex(text).unwrap()
}

#[test]
fn compute_hash_known_answer() {
    let h = Blocko::compute_hash(3, 7, b"abc", b"xyz");
    assert_eq!(
        h.to_hex(),
        "5f0df8271dd1fefc61652a300669f1c4a3a2a2168338a7f141d98a0cac980ee0"
    );
}

#[test]
fn compute_hash_writes_both_counters_big_endian() {
    let h = Blocko::compute_hash(0x0102030405060708, 0x1112131415161718, b"", b"");
    assert_eq!(
        h.to_hex(),
        "8136e510176b1dfef06ac5cb084b946fcde2d914baac508485a009f85d364273"
    );
}

#[test]
fn compute_hash_of_nothing_is_sha256_of_sixteen_zero_bytes() {
    let h = Blocko::compute_hash(0, 0, b"", b"");
    assert_eq!(
        h.to_hex(),
        "374708fff7719dd5979ec875d56cd2286f6d3cf7ec317a3b25632aab28ec37bb"
    );
    assert_eq!(h.as_bytes().len(), 32);
}

#[test]
fn compute_hash_is_not_its_input() {
    let data = b"some payload".to_vec();
    let h = Blocko::compute_hash(1, 2, &data, b"");
    assert_ne!(h.as_bytes(), data.as_slice());
}

#[test]
fn compute_hash_is_deterministic() {
    let a = Blocko::compute_hash(4, 5, b"same", b"prev");
    let b = Blocko::compute_hash(4, 5, b"same", b"prev");
    assert_eq!(a, b);
}

#[test]
fn compute_hash_depends_on_every_input() {
    let base = Blocko::compute_hash(4, 5, b"same", b"prev");
    assert_ne!(base, Blocko::compute_hash(5, 5, b"same", b"prev"));
    assert_ne!(base, Blocko::compute_hash(4, 6, b"same", b"prev"));
    assert_ne!(base, Blocko::compute_hash(4, 5, b"samf", b"prev"));
    assert_ne!(base, Blocko::compute_hash(4, 5, b"same", b"prew"));
}

#[test]
fn new_without_anchor_hashes_the_payload_alone() {
    let b = Blocko::new(5, 9, blockochen::Hash::empty(), b"payload".to_vec(), None);
    assert_eq!(b.index, 5);
    assert_eq!(b.timestamp, 9);
    assert_eq!(b.data, b"payload".to_vec());
    assert!(b.birth_hash.is_empty());
    assert!(b.preceding_hash.is_empty());
    assert_eq!(
        b.hash,
        hash_of("62d4f2214addcae1f4e755d44c9cff0bc19d8e5c7813559fb53da95700d779e3")
    );
    assert_eq!(b.hash, Blocko::compute_hash(5, 9, b"payload", b""));
}

#[test]
fn new_with_anchor_hashes_anchor_then_payload() {
    let anchor = blockochen::Hash::from_bytes(vec![1, 2, 3]);
    let before = blockochen::Hash::from_bytes(vec![9, 9]);
    let b = Blocko::new(5, 9, anchor.clone(), b"payload".to_vec(), Some(before.clone()));
    assert_eq!(b.birth_hash, anchor);
    assert_eq!(b.preceding_hash, before);
    assert_eq!(b.data, b"payload".to_vec());
    assert_eq!(
        b.hash,
        hash_of("4be8c7fdd966a77c104ffe065330ca4adb092cd654edacef6861e2ebe56e6ca5")
    );
    let mut amalgam = vec![1u8, 2, 3];
    amalgam.extend_from_slice(b"payload");
    assert_eq!(b.hash, Blocko::compute_hash(5, 9, &amalgam, &[9, 9]));
}

#[test]
fn spawn_with_seed_mints_hash_as_anchor() {
    let before = blockochen::Hash::from_bytes(vec![7]);
    let b = Blocko::spawn(2, 4, b"seed".to_vec(), b"data".to_vec(), Some(before.clone()));
    assert_eq!(b.index, 2);
    assert_eq!(b.timestamp, 4);
    assert_eq!(b.data, b"data".to_vec());
    assert_eq!(b.preceding_hash, before);
    assert_eq!(
        b.hash,
        hash_of("0fcb5fc162ea03e38816fce313221764ef3ee9d21961c82054c4ca79a6265c1b")
    );
    assert_eq!(b.birth_hash, b.hash);
}

#[test]
fn spawn_without_seed_is_a_block_without_anchor() {
    let before = blockochen::Hash::from_bytes(vec![7]);
    let spawned = Blocko::spawn(2, 4, Vec::new(), b"data".to_vec(), Some(before.clone()));
    let rooted = Blocko::new(2, 4, blockochen::Hash::empty(), b"data".to_vec(), Some(before));
    assert!(spawned.birth_hash.is_empty());
    assert_eq!(
        spawned.hash,
        hash_of("d1cb9c5d54f3ceb6e1e127a2ce8f15e42f94a09e30f38f4a6ec3bc4d294e8d44")
    );
    assert_eq!(spawned.hash, rooted.hash);
    assert_eq!(spawned.index, rooted.index);
    assert_eq!(spawned.timestamp, rooted.timestamp);
    assert_eq!(spawned.data, rooted.data);
    assert_eq!(spawned.preceding_hash, rooted.preceding_hash);
}

#[test]
fn rooted_hash_recomputes_from_stored_fields() {
    let anchor = blockochen::Hash::from_bytes(vec![0xaa; 32]);
    let before = blockochen::Hash::from_bytes(vec![0xbb; 32]);
    let b = Blocko::new(11, 10, anchor, b"event".to_vec(), Some(before));
    let mut amalgam = b.birth_hash.as_bytes().to_vec();
    amalgam.extend_from_slice(&b.data);
    let again = Blocko::compute_hash(b.index, b.timestamp, &amalgam, b.preceding_hash.as_bytes());
    assert_eq!(again, b.hash);
}
