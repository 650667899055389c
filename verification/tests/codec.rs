use integrity_watcher::types::{FileMetadata, SymlinkMetadata, DirMetadata, FileMetadataExt};
use integrity_watcher::codec::{encode_record, decode_record};
use integrity_watcher::circl::{CacheEntry, encode_cache, decode_cache};
use integrity_watcher::render::{dec_u64, oct_u32, render_record, describe_change};

fn sample_hash() -> [u8; 32] {
    let mut h = [0u8; 32];
    for i in 0..32 {
        h[i] = (i as u8) * 3 + 1;
    }
    h
}

#[test]
fn round_trip_file_record() {
    let rec = FileMetadataExt::File(FileMetadata::new(sample_hash(), 0o644, Some(1700000000), 12345));
    let bytes = encode_record(&rec);
    let back = decode_record(bytes.as_slice()).expect("a freshly encoded record must decode");
    assert!(back == rec);
}

#[test]
fn round_trip_symlink_record() {
    let rec = FileMetadataExt::Symlink(SymlinkMetadata::new(
        String::from("/target/with/ümlaut"),
        0o777,
        Some(12345),
        19,
    ));
    let bytes = encode_record(&rec);
    let back = decode_record(bytes.as_slice()).expect("a freshly encoded record must decode");
    assert!(back == rec);
}

#[test]
fn round_trip_dir_record() {
    let rec = FileMetadataExt::Dir(DirMetadata::new(0o755, None, 4096));
    let bytes = encode_record(&rec);
    let back = decode_record(bytes.as_slice()).expect("a freshly encoded record must decode");
    assert!(back == rec);
    if let FileMetadataExt::Dir(d) = &back {
        assert_eq!(d.modified, 0, "an unreadable modification time is recorded as zero");
    }
}

#[test]
fn dir_record_exact_bytes() {
    let rec = FileMetadataExt::Dir(DirMetadata::new(0o755, Some(7), 4096));
    let bytes = encode_record(&rec);
    let mut expected = vec![2u8];
    expected.extend_from_slice(&0o755u32.to_le_bytes());
    expected.extend_from_slice(&7u64.to_le_bytes());
    expected.extend_from_slice(&4096u64.to_le_bytes());
    assert_eq!(bytes, expected);
}

#[test]
fn corrupt_record_bytes_rejected() {
    assert!(decode_record(&[]).is_none());
    assert!(decode_record(&[9u8, 0, 0]).is_none());
    assert!(decode_record(&[2u8, 0, 0]).is_none());
    let rec = FileMetadataExt::Dir(DirMetadata::new(0o755, Some(7), 4096));
    let mut bytes = encode_record(&rec);
    bytes.pop();
    assert!(decode_record(bytes.as_slice()).is_none());
}

#[test]
fn round_trip_cache_entry_found() {
    let e = CacheEntry::new(Some(42), 1700000000);
    let back = decode_cache(encode_cache(&e).as_slice()).expect("must decode");
    assert_eq!(back.get_score(), Some(42));
    assert_eq!(back.entry_time, 1700000000);
}

#[test]
fn round_trip_cache_entry_not_found() {
    let e = CacheEntry::new(None, -5);
    let back = decode_cache(encode_cache(&e).as_slice()).expect("must decode");
    assert_eq!(back.get_score(), None);
    assert_eq!(back.entry_time, -5);
}

#[test]
fn cache_entry_exact_bytes() {
    let e = CacheEntry::new(None, 3);
    let mut expected = vec![0u8];
    expected.extend_from_slice(&3u64.to_le_bytes());
    assert_eq!(encode_cache(&e), expected);
}

#[test]
fn decimal_and_octal_text() {
    assert_eq!(dec_u64(0), "0");
    assert_eq!(dec_u64(1234567890123), "1234567890123");
    assert_eq!(oct_u32(0), "0");
    assert_eq!(oct_u32(0o755), "755");
}

#[test]
fn hash_hex_text() {
    let mut h = [0u8; 32];
    h[0] = 0x0f;
    h[1] = 0xa0;
    h[31] = 0xff;
    let hash = integrity_watcher::types::Hash::from(h);
    let hex = hash.to_hex();
    assert_eq!(hex.len(), 64);
    assert!(hex.starts_with("0fa0"));
    assert!(hex.ends_with("ff"));
    assert_eq!(&hex[4..62], "0".repeat(58).as_str());
}

#[test]
fn record_text_epoch() {
    let rec = FileMetadataExt::Dir(DirMetadata::new(0o755, Some(0), 42));
    assert_eq!(
        render_record(&rec),
        "Directory  perm: 755 size: 42 modified: 1970-01-01 00:00:00 UTC"
    );
}

#[test]
fn change_description_fields() {
    let a = FileMetadataExt::File(FileMetadata::new(sample_hash(), 0o644, Some(0), 10));
    let b = FileMetadataExt::File(FileMetadata::new(sample_hash(), 0o600, Some(0), 11));
    let text = describe_change(&a, &b);
    assert_eq!(text, " permissions changed 644 -> 600 size changed 10 -> 11");
}
