use turingarena_core::error::ApiError;
use turingarena_core::store::{compute_integrity, ArtifactStore};

#[test]
fn integrity_of_empty_content() {
    assert_eq!(compute_integrity(b""), "sha256-47DEQpj8HBSa-_TImW-5JCeuQeRkm5NMpJWZG3hSuFU=");
}

#[test]
fn different_contents_have_different_integrities() {
    let contents: Vec<Vec<u8>> = (0u8..64).map(|i| vec![i; i as usize]).collect();
    let mut seen: Vec<String> = Vec::new();
    for c in &contents {
        let d = compute_integrity(c);
        assert!(!seen.contains(&d));
        seen.push(d);
    }
    assert_ne!(compute_integrity(b"ab"), compute_integrity(b"ba"));
}

#[test]
fn putting_twice_stores_once() {
    let mut store = ArtifactStore::new("/tmp/ws".to_string());
    let d1 = store.put(b"archive");
    let d2 = store.put(b"archive");
    assert_eq!(d1, d2);
    assert_eq!(store.len(), 1);
    store.put(b"other");
    assert_eq!(store.len(), 2);
    assert_eq!(store.content_of(&d1).unwrap(), &b"archive".to_vec());
    assert!(store.content_of("sha256-unknown").is_none());
}

#[test]
fn unpack_twice_extracts_once() {
    let mut store = ArtifactStore::new("/tmp/ws".to_string());
    let d = store.put(b"bytes");
    let first = store.unpack(&d, "problem").unwrap();
    assert_eq!(first.path, format!("/tmp/ws/problem-{}", d));
    assert_eq!(first.extract, Some(b"bytes".to_vec()));
    let second = store.unpack(&d, "problem").unwrap();
    assert_eq!(second.path, first.path);
    assert!(second.extract.is_none());
    let other = store.unpack(&d, "submission").unwrap();
    assert_eq!(other.path, format!("/tmp/ws/submission-{}", d));
    assert!(other.extract.is_some());
}

#[test]
fn unpack_of_unknown_digest_is_not_found() {
    let mut store = ArtifactStore::new("/tmp/ws".to_string());
    assert_eq!(store.unpack("sha256-nothing", "problem").unwrap_err(), ApiError::NotFound);
    assert_eq!(store.workspace_path(), "/tmp/ws");
}
