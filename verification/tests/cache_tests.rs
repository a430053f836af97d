use media_vault_core::cache::FrameCache;
use media_vault_core::extract::{check_decoder_output, finish_extraction, DecoderRun, ExtractError};

fn good_run(bytes: &[u8]) -> DecoderRun {
    DecoderRun {
        success: true,
        stdout: bytes.to_vec(),
        stderr: String::new(),
    }
}

#[test]
fn test_store_then_cached_hit() {
    // A second request for an unchanged file and the same instant is served
    // from the store: the decoder would not be run again.
    let mut cache = FrameCache::new_in_memory().unwrap();
    assert_eq!(cache.get_cached_frame("/v/a.mp4", 100, 5_000), None);

    let frame = finish_extraction(&mut cache, "/v/a.mp4", 100, 5_000, &good_run(b"jpegdata"))
        .unwrap();
    assert_eq!(frame, b"jpegdata".to_vec());

    let hit = cache.get_cached_frame("/v/a.mp4", 100, 5_000);
    assert_eq!(hit, Some(b"jpegdata".to_vec()));
}

#[test]
fn test_changed_mtime_misses() {
    // After the file's modification time changes, the same path and instant
    // form a new key: the old bytes are not returned.
    let mut cache = FrameCache::new_in_memory().unwrap();
    cache.store_frame("/v/a.mp4", 100, 5_000, b"oldframe");
    assert_eq!(cache.get_cached_frame("/v/a.mp4", 100, 5_000), Some(b"oldframe".to_vec()));
    assert_eq!(cache.get_cached_frame("/v/a.mp4", 101, 5_000), None);
}

#[test]
fn test_distinct_instants_are_distinct_keys() {
    let mut cache = FrameCache::new_in_memory().unwrap();
    cache.store_frame("/v/a.mp4", 100, 5_000, b"five");
    cache.store_frame("/v/a.mp4", 100, 6_000, b"six");
    assert_eq!(cache.get_cached_frame("/v/a.mp4", 100, 5_000), Some(b"five".to_vec()));
    assert_eq!(cache.get_cached_frame("/v/a.mp4", 100, 6_000), Some(b"six".to_vec()));
}

#[test]
fn test_store_is_upsert() {
    // Last write wins: a later write under the same key supersedes.
    let mut cache = FrameCache::new_in_memory().unwrap();
    cache.store_frame("/v/a.mp4", 100, 5_000, b"first");
    cache.store_frame("/v/a.mp4", 100, 5_000, b"second");
    assert_eq!(cache.get_cached_frame("/v/a.mp4", 100, 5_000), Some(b"second".to_vec()));
}

#[test]
fn test_decoder_failure_is_error() {
    let mut cache = FrameCache::new_in_memory().unwrap();
    let run = DecoderRun {
        success: false,
        stdout: Vec::new(),
        stderr: "boom".to_string(),
    };
    let err = finish_extraction(&mut cache, "/v/a.mp4", 100, 5_000, &run).unwrap_err();
    assert_eq!(
        err,
        ExtractError::DecoderFailed {
            instant_ms: 5_000,
            detail: "boom".to_string()
        }
    );
    // Nothing was cached for the key.
    assert_eq!(cache.get_cached_frame("/v/a.mp4", 100, 5_000), None);
}

#[test]
fn test_decoder_empty_output_is_error() {
    let run = good_run(b"");
    let err = check_decoder_output(7_000, &run).unwrap_err();
    assert_eq!(err, ExtractError::EmptyOutput { instant_ms: 7_000 });
}

#[test]
fn test_from_connection_keeps_entries() {
    let conn = rusqlite::Connection::open_in_memory().unwrap();
    let mut cache = FrameCache::from_connection(conn).unwrap();
    cache.store_frame("/v/b.mkv", 7, 1_000, b"frame");
    assert_eq!(cache.get_cached_frame("/v/b.mkv", 7, 1_000), Some(b"frame".to_vec()));
}
