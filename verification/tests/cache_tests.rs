use squisher::cache::{fingerprint, hex_key, Cache};
use squisher::pipeline::{consult_cache, store_result};
use squisher::texture::TextureFormat;

#[test]
fn fingerprint_matches_digest_of_material() {
    // The key is the SeaHash digest of format byte, flag byte, then bytes.
    let bytes = vec![10u8, 20, 30];
    let key = fingerprint(TextureFormat::Astc, true, &bytes);
    let expected = seahash::hash(&[1u8, 1, 10, 20, 30]);
    assert_eq!(key, expected);
    let key2 = fingerprint(TextureFormat::Rgba8, false, &bytes);
    assert_eq!(key2, seahash::hash(&[0u8, 0, 10, 20, 30]));
}

#[test]
fn fingerprint_is_deterministic_and_option_sensitive() {
    let bytes = vec![1u8, 2, 3, 4];
    let a = fingerprint(TextureFormat::Astc, true, &bytes);
    let b = fingerprint(TextureFormat::Astc, true, &bytes);
    assert_eq!(a, b);
    // Re-running with different options always produces a different key.
    assert_ne!(a, fingerprint(TextureFormat::Rgba8, true, &bytes));
    assert_ne!(a, fingerprint(TextureFormat::Astc, false, &bytes));
    assert_ne!(a, fingerprint(TextureFormat::Astc, true, &vec![1u8, 2, 3]));
}

#[test]
fn hex_key_is_sixteen_uppercase_digits() {
    for h in [0u64, 1, 0xab, 0xdead_beef, u64::MAX, 0x0123_4567_89ab_cdef] {
        assert_eq!(hex_key(h), format!("{:016X}", h));
    }
}

#[test]
fn cache_store_and_lookup() {
    let mut cache = Cache::new();
    assert!(cache.lookup(7).is_none());
    cache.store(7, vec![1, 2, 3]);
    assert_eq!(cache.lookup(7).unwrap(), vec![1, 2, 3]);
    assert!(cache.lookup(8).is_none());
    cache.store(7, vec![9]);
    assert_eq!(cache.lookup(7).unwrap(), vec![9]);
}

#[test]
fn second_request_is_served_without_encoding() {
    // Idempotence under caching: the first request misses and stores the
    // encoder's output; the second request returns byte-identical output
    // without invoking the encoder.
    let mut cache = Cache::new();
    let key = fingerprint(TextureFormat::Astc, true, &vec![5u8, 5, 5]);
    let mut encoder_runs = 0;

    let first = match consult_cache(&cache, true, key) {
        Some(hit) => hit,
        None => {
            encoder_runs += 1;
            let encoded = vec![0xaa, 0xbb];
            store_result(&mut cache, true, key, encoded.clone());
            encoded
        }
    };
    let second = match consult_cache(&cache, true, key) {
        Some(hit) => hit,
        None => {
            encoder_runs += 1;
            let encoded = vec![0xcc];
            store_result(&mut cache, true, key, encoded.clone());
            encoded
        }
    };
    assert_eq!(first, second);
    assert_eq!(encoder_runs, 1);
}

#[test]
fn disabled_cache_never_serves() {
    let mut cache = Cache::new();
    store_result(&mut cache, false, 3, vec![1]);
    assert!(consult_cache(&cache, false, 3).is_none());
    assert!(consult_cache(&cache, true, 3).is_none());
    store_result(&mut cache, true, 3, vec![2]);
    assert!(consult_cache(&cache, false, 3).is_none());
    assert_eq!(consult_cache(&cache, true, 3).unwrap(), vec![2]);
}
