use bytes::Bytes;

use aliyundrive_fuse::cache::FileCache;
use aliyundrive_fuse::cache::ReadPlan;
use aliyundrive_fuse::error::Error;

const CHUNK: usize = 1048576;

fn expect_fetch(plan: Result<ReadPlan, Error>) -> (String, u64, usize, u32) {
    match plan {
        Ok(ReadPlan::Fetch { file_id, start, len, serve }) => (file_id, start, len, serve),
        _ => panic!("expected a fetch plan"),
    }
}

fn expect_hit(plan: Result<ReadPlan, Error>) -> Bytes {
    match plan {
        Ok(ReadPlan::Hit(data)) => data,
        _ => panic!("expected a buffer hit"),
    }
}

#[test]
fn unknown_handle_is_no_entry() {
    let cache = FileCache::new(CHUNK);
    match cache.read(7, 0, 16) {
        Err(Error::NoEntry) => {},
        _ => panic!("expected NoEntry"),
    }
}

#[test]
fn open_then_release_restores_the_cache() {
    let mut cache = FileCache::new(CHUNK);
    cache.open(3, "file-a".to_string(), 1000);
    cache.release(3);
    match cache.read(3, 0, 16) {
        Err(Error::NoEntry) => {},
        _ => panic!("expected NoEntry after release"),
    }
}

#[test]
fn release_of_unknown_handle_is_a_no_op() {
    let mut cache = FileCache::new(CHUNK);
    cache.release(42);
}

#[test]
fn read_miss_then_hit_then_seek() {
    let mut cache = FileCache::new(CHUNK);
    cache.open(3, "file-a".to_string(), 5_000_000);

    // First read misses: one chunk starting at the offset is asked for.
    let (file_id, start, len, serve) = expect_fetch(cache.read(3, 0, 4096));
    assert_eq!(file_id, "file-a");
    assert_eq!(start, 0);
    assert_eq!(len, CHUNK);
    assert_eq!(serve, 4096);

    let mut chunk_bytes: Vec<u8> = Vec::with_capacity(len);
    for i in 0..len {
        chunk_bytes.push((i % 251) as u8);
    }
    let chunk = Bytes::from(chunk_bytes);
    let data = cache.apply_chunk(3, start, chunk.clone(), serve);
    assert_eq!(data.len(), 4096);
    assert_eq!(data, chunk.slice(0..4096));

    // A read inside the buffered range is served from memory.
    let data = expect_hit(cache.read(3, 4096, 4096));
    assert_eq!(data, chunk.slice(4096..8192));

    // A seek outside the buffer fetches a new chunk at the offset.
    let (_, start, len, serve) = expect_fetch(cache.read(3, 2_000_000, 4096));
    assert_eq!(start, 2_000_000);
    assert_eq!(len, CHUNK);
    assert_eq!(serve, 4096);
}

#[test]
fn read_past_end_of_file_is_empty() {
    let mut cache = FileCache::new(CHUNK);
    cache.open(5, "file-b".to_string(), 100);
    let data = expect_hit(cache.read(5, 100, 16));
    assert!(data.is_empty());
    let data = expect_hit(cache.read(5, 500, 16));
    assert!(data.is_empty());
}

#[test]
fn chunk_request_is_clamped_to_end_of_file() {
    let mut cache = FileCache::new(CHUNK);
    cache.open(5, "file-b".to_string(), 100);
    let (_, start, len, serve) = expect_fetch(cache.read(5, 40, 16));
    assert_eq!(start, 40);
    assert_eq!(len, 60);
    assert_eq!(serve, 16);
}

#[test]
fn short_chunk_serves_its_length() {
    let mut cache = FileCache::new(CHUNK);
    cache.open(5, "file-b".to_string(), 100);
    let (_, start, _, _) = expect_fetch(cache.read(5, 90, 64));
    let chunk = Bytes::from(vec![9u8; 10]);
    let data = cache.apply_chunk(5, start, chunk, 64);
    assert_eq!(data, Bytes::from(vec![9u8; 10]));
}

#[test]
fn reopen_resets_the_buffer() {
    let mut cache = FileCache::new(CHUNK);
    cache.open(3, "file-a".to_string(), 1000);
    let (_, start, _, serve) = expect_fetch(cache.read(3, 0, 8));
    cache.apply_chunk(3, start, Bytes::from(vec![1u8; 1000]), serve);
    let data = expect_hit(cache.read(3, 0, 8));
    assert_eq!(data, Bytes::from(vec![1u8; 8]));
    cache.open(3, "file-a".to_string(), 1000);
    expect_fetch(cache.read(3, 0, 8));
}
