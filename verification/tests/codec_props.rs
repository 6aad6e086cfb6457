use eris_store::codec::{decode, encode, round_trip, BlockSize, Capability};
use eris_store::paths::reference_to_path;
use eris_store::store::{MemStore, StorageErrorKind};

fn pattern(len: usize) -> Vec<u8> {
    (0..len).map(|i| (i % 251) as u8).collect()
}

fn check_round_trip(len: usize, block_size: BlockSize) {
    let input = pattern(len);
    let mut store = MemStore::new(b"store".to_vec());
    let out = round_trip(&input, block_size, &[0u8; 32], &mut store).unwrap();
    assert_eq!(out, input, "round trip failed for length {}", len);
}

#[test]
fn round_trip_small_block_lengths() {
    for len in [0usize, 1, 1023, 1024, 1025] {
        check_round_trip(len, BlockSize::Size1KiB);
    }
}

#[test]
fn round_trip_large_block_lengths() {
    for len in [0usize, 1, 32767, 32768, 32769] {
        check_round_trip(len, BlockSize::Size32KiB);
    }
}

#[test]
fn encode_then_decode_separately() {
    let input = pattern(3000);
    let mut store = MemStore::new(b"s".to_vec());
    let cap = encode(&input, BlockSize::Size1KiB, &[0u8; 32], &mut store).unwrap();
    let out = decode(&store, &cap).unwrap();
    assert_eq!(out, input);
}

#[test]
fn encode_matches_collaborator_vector() {
    // The capability of "Hello world!" at the 1 KiB block size with the
    // all-zero secret, as the collaborator library's own test suite
    // pins it.
    let input = b"Hello world!";
    let mut store = MemStore::new(b"s".to_vec());
    let cap = encode(input, BlockSize::Size1KiB, &[0u8; 32], &mut store).unwrap();
    assert_eq!(
        cap.read_capability().to_urn(),
        "urn:eris:BIAD77QDJMFAKZYH2DXBUZYAP3MXZ3DJZVFYQ5DFWC6T65WSFCU5S2IT4YZGJ7AC4SYQMP2DM2ANS2ZTCP3DJJIRV733CRAAHOSWIYZM3M"
    );
}

#[test]
fn reencode_into_populated_store_adds_nothing() {
    let input = pattern(3000);
    let mut store = MemStore::new(b"s".to_vec());
    let cap1 = encode(&input, BlockSize::Size1KiB, &[0u8; 32], &mut store).unwrap();
    let blocks_after_first = store.num_blocks();
    let cap2 = encode(&input, BlockSize::Size1KiB, &[0u8; 32], &mut store).unwrap();
    assert_eq!(store.num_blocks(), blocks_after_first);
    assert_eq!(
        cap1.read_capability().to_urn(),
        cap2.read_capability().to_urn()
    );
    let out = decode(&store, &cap2).unwrap();
    assert_eq!(out, input);
}

#[test]
fn secret_sensitivity() {
    let input = pattern(2000);
    let mut store_a = MemStore::new(b"store".to_vec());
    let mut store_b = MemStore::new(b"store".to_vec());
    let cap_a = encode(&input, BlockSize::Size1KiB, &[0u8; 32], &mut store_a).unwrap();
    let cap_b = encode(&input, BlockSize::Size1KiB, &[1u8; 32], &mut store_b).unwrap();
    assert_ne!(
        cap_a.read_capability().root.reference,
        cap_b.read_capability().root.reference
    );

    let mut paths_a: Vec<Vec<u8>> = Vec::new();
    for i in 0..store_a.num_blocks() {
        paths_a.push(store_a.path_at(i).clone());
    }
    let mut paths_b: Vec<Vec<u8>> = Vec::new();
    for i in 0..store_b.num_blocks() {
        paths_b.push(store_b.path_at(i).clone());
    }
    paths_a.sort();
    paths_b.sort();
    assert_ne!(paths_a, paths_b);
}

#[test]
fn decode_against_empty_store_is_not_found() {
    let input = pattern(100);
    let mut store = MemStore::new(b"s".to_vec());
    let cap = encode(&input, BlockSize::Size1KiB, &[0u8; 32], &mut store).unwrap();
    let raw = cap.read_capability();
    let urn = raw.to_urn();
    let reparsed = eris_rs::types::ReadCapability::from_urn(urn).unwrap();
    let empty = MemStore::new(b"s".to_vec());
    let err = decode(&empty, &Capability::from_raw(reparsed)).unwrap_err();
    assert_eq!(err.kind, StorageErrorKind::NotFound);
}

#[test]
fn urn_round_trip_capability_still_decodes() {
    let input = pattern(5000);
    let mut store = MemStore::new(b"store".to_vec());
    let cap = encode(&input, BlockSize::Size1KiB, &[0u8; 32], &mut store).unwrap();
    let urn = cap.read_capability().to_urn();
    let reparsed = eris_rs::types::ReadCapability::from_urn(urn).unwrap();
    let out = decode(&store, &Capability::from_raw(reparsed)).unwrap();
    assert_eq!(out, input);
}

#[test]
fn scenario_five_thousand_bytes() {
    let input = pattern(5000);
    let mut store = MemStore::new(b"store".to_vec());
    let cap = encode(&input, BlockSize::Size1KiB, &[0u8; 32], &mut store).unwrap();
    let out = decode(&store, &cap).unwrap();
    assert_eq!(out, input);

    // Every stored path must be exactly what the path deriver yields
    // for the reference named by its base32 file name.
    let alphabet = base32::Alphabet::Rfc4648 { padding: false };
    assert!(store.num_blocks() > 0);
    for i in 0..store.num_blocks() {
        let path = String::from_utf8(store.path_at(i).clone()).unwrap();
        let name = path.rsplit_once('/').unwrap().1;
        let decoded = base32::decode(alphabet, name).unwrap();
        assert_eq!(decoded.len(), 32);
        let mut reference: [u8; 32] = [0u8; 32];
        reference.copy_from_slice(&decoded);
        assert_eq!(store.path_at(i), &reference_to_path(b"store", &reference));
    }
}
