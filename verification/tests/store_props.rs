use eris_store::paths::reference_to_path;
use eris_store::store::{BlockWithReference, MemStore, StorageErrorKind};

fn path_string(root: &[u8], reference: &[u8; 32]) -> String {
    String::from_utf8(reference_to_path(root, reference)).unwrap()
}

#[test]
fn derive_deterministic() {
    let reference: [u8; 32] = [7u8; 32];
    let p1 = reference_to_path(b"/tmp/store", &reference);
    let p2 = reference_to_path(b"/tmp/store", &reference);
    assert_eq!(p1, p2);
}

#[test]
fn derive_zero_reference_exact() {
    let reference: [u8; 32] = [0u8; 32];
    let name = "A".repeat(52);
    let expected = format!("store/AA/AA/{}", name);
    assert_eq!(path_string(b"store", &reference), expected);
}

#[test]
fn derive_matches_base32_crate() {
    let mut reference: [u8; 32] = [0u8; 32];
    for (i, b) in reference.iter_mut().enumerate() {
        *b = (i as u8).wrapping_mul(37).wrapping_add(11);
    }
    let alphabet = base32::Alphabet::Rfc4648 { padding: false };
    let encoded = base32::encode(alphabet, &reference);
    assert_eq!(encoded.len(), 52);
    let expected = format!(
        "root/{}/{}/{}",
        &encoded[0..2],
        &encoded[2..4],
        &encoded
    );
    assert_eq!(path_string(b"root", &reference), expected);
}

#[test]
fn fan_out_different_prefix_different_directories() {
    let r1: [u8; 32] = [0u8; 32];
    let mut r2: [u8; 32] = [0u8; 32];
    r2[0] = 0xFF;
    let p1 = path_string(b"s", &r1);
    let p2 = path_string(b"s", &r2);
    let dir1 = p1.rsplit_once('/').unwrap().0.to_string();
    let dir2 = p2.rsplit_once('/').unwrap().0.to_string();
    assert_ne!(dir1, dir2);
}

#[test]
fn fan_out_same_prefix_same_directory_distinct_names() {
    let r1: [u8; 32] = [0u8; 32];
    let mut r2: [u8; 32] = [0u8; 32];
    r2[31] = 1;
    let p1 = path_string(b"s", &r1);
    let p2 = path_string(b"s", &r2);
    let (dir1, name1) = p1.rsplit_once('/').unwrap();
    let (dir2, name2) = p2.rsplit_once('/').unwrap();
    assert_eq!(dir1, dir2);
    assert_ne!(name1, name2);
}

#[test]
fn put_is_idempotent() {
    let mut store = MemStore::new(b"store".to_vec());
    let bwr = BlockWithReference { block: vec![1u8, 2, 3, 4], reference: [9u8; 32] };
    let first = store.put(&bwr).unwrap();
    assert_eq!(first, 4);
    assert_eq!(store.num_blocks(), 1);
    let path_before = store.path_at(0).clone();

    let second = store.put(&bwr).unwrap();
    assert_eq!(second, 4);
    assert_eq!(store.num_blocks(), 1);
    assert_eq!(store.path_at(0), &path_before);
    assert_eq!(store.get(&[9u8; 32]).unwrap(), vec![1u8, 2, 3, 4]);
}

#[test]
fn get_miss_is_not_found() {
    let store = MemStore::new(b"store".to_vec());
    let err = store.get(&[42u8; 32]).unwrap_err();
    assert_eq!(err.kind, StorageErrorKind::NotFound);
    assert_ne!(err.kind, StorageErrorKind::IoError);
}

#[test]
fn put_stores_under_derived_path() {
    let mut store = MemStore::new(b"root".to_vec());
    let reference: [u8; 32] = [5u8; 32];
    let bwr = BlockWithReference { block: vec![0xAB; 8], reference };
    store.put(&bwr).unwrap();
    assert_eq!(store.num_blocks(), 1);
    assert_eq!(store.path_at(0), &reference_to_path(b"root", &reference));
}
