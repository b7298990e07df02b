use blake3::Hasher;
use orb_relay_client::AppAuthenticatedData;

fn app_data(version: u32) -> AppAuthenticatedData {
    AppAuthenticatedData {
        self_custody_public_key: "pk_abc123".into(),
        identity_commitment: "ic_def456".into(),
        os: "iOS".into(),
        os_version: "18.0".into(),
        pcp_version: 2,
        version,
    }
}

fn finish(hasher: Hasher, n: usize) -> Vec<u8> {
    let mut output = vec![0; n];
    hasher.finalize_xof().fill(&mut output);
    output
}

fn legacy_hash(data: &AppAuthenticatedData, n: usize) -> Vec<u8> {
    let mut hasher = Hasher::new();
    for v in [
        &data.identity_commitment,
        &data.self_custody_public_key,
        &data.os_version,
        &data.os,
    ] {
        hasher.update(v.as_bytes());
    }
    if data.pcp_version != 2 {
        hasher.update(&data.pcp_version.to_le_bytes());
    }
    finish(hasher, n)
}

fn current_hash(data: &AppAuthenticatedData, n: usize) -> Vec<u8> {
    let mut hasher = Hasher::new();
    for v in [
        &data.self_custody_public_key,
        &data.identity_commitment,
        &data.os,
        &data.os_version,
    ] {
        let len = u32::try_from(v.len()).unwrap();
        hasher.update(&len.to_le_bytes());
        hasher.update(v.as_bytes());
    }
    hasher.update(&data.pcp_version.to_le_bytes());
    hasher.update(&data.version.to_le_bytes());
    finish(hasher, n)
}

#[test]
fn hash_uses_current_format() {
    let data = app_data(AppAuthenticatedData::VERSION);
    assert_eq!(data.hash(16), current_hash(&data, 16));
    assert_ne!(data.hash(16), legacy_hash(&data, 16));
}

#[test]
fn verify_accepts_current_hash_and_rejects_bad_hashes() {
    let data = app_data(AppAuthenticatedData::VERSION);
    let mut hash = data.hash(16);

    assert!(data.verify(&hash));
    assert!(!data.verify(b""));

    hash[0] ^= 0xff;
    assert!(!data.verify(&hash));
}

#[test]
fn verify_accepts_legacy_hash_only_when_version_is_missing() {
    let legacy_data = app_data(0);
    let mut versioned_data = legacy_data.clone();
    versioned_data.version = AppAuthenticatedData::VERSION;
    let hash = legacy_hash(&legacy_data, 16);

    assert!(legacy_data.verify(&hash));
    assert!(!versioned_data.verify(&hash));
}

#[test]
fn length_prefix_prevents_field_boundary_collision() {
    let mut data_a = app_data(AppAuthenticatedData::VERSION);
    data_a.identity_commitment = "abc".into();
    data_a.self_custody_public_key = "def".into();

    let mut data_b = data_a.clone();
    data_b.identity_commitment = "ab".into();
    data_b.self_custody_public_key = "cdef".into();

    assert_eq!(legacy_hash(&data_a, 16), legacy_hash(&data_b, 16));
    assert_ne!(data_a.hash(16), data_b.hash(16));
}

#[test]
fn hash_has_requested_length() {
    let data = app_data(AppAuthenticatedData::VERSION);
    assert_eq!(data.hash(0).len(), 0);
    assert_eq!(data.hash(1).len(), 1);
    assert_eq!(data.hash(100).len(), 100);
    // extendable output: a shorter hash is a prefix of a longer one
    assert_eq!(data.hash(100)[..16], data.hash(16)[..]);
}

#[test]
fn hash_differs_from_preimage_passed_through() {
    let data = app_data(AppAuthenticatedData::VERSION);
    let h = data.hash(32);
    assert_ne!(h, vec![0u8; 32]);
    assert_eq!(h, current_hash(&data, 32));
}

#[test]
fn verify_rejects_unknown_version() {
    let current = app_data(AppAuthenticatedData::VERSION);
    let hash = current.hash(16);
    let mut future = current.clone();
    future.version = 2;
    assert!(!future.verify(&hash));
    assert!(!future.verify(&current_hash(&future, 16)));
}

#[test]
fn verify_rejects_empty_hash_for_every_version() {
    assert!(!app_data(0).verify(b""));
    assert!(!app_data(1).verify(b""));
    assert!(!app_data(7).verify(b""));
}

#[test]
fn legacy_hash_covers_non_default_pcp_version() {
    let mut data = app_data(0);
    data.pcp_version = 3;
    let hash = legacy_hash(&data, 16);
    assert!(data.verify(&hash));
    let mut other = data.clone();
    other.pcp_version = 2;
    assert!(!other.verify(&hash));
}

#[test]
fn verify_accepts_hashes_of_any_nonzero_length() {
    let data = app_data(AppAuthenticatedData::VERSION);
    for n in [1usize, 5, 32, 64, 65, 200] {
        assert!(data.verify(&data.hash(n)));
    }
    let legacy = app_data(0);
    for n in [1usize, 31, 64] {
        assert!(legacy.verify(&legacy_hash(&legacy, n)));
    }
}

#[test]
fn verify_rejects_hash_of_other_data() {
    let data = app_data(AppAuthenticatedData::VERSION);
    let mut other = data.clone();
    other.os = "Android".into();
    assert!(!data.verify(&other.hash(16)));
}
