use cflib_rust::toc_cache::file_name_for_key;
use cflib_rust::toc_cache::FileTocCache;
use cflib_rust::toc_cache::InMemoryTocCache;
use cflib_rust::toc_cache::NoTocCache;

#[test]
fn no_cache_always_misses() {
    let cache = NoTocCache::new();
    let key = vec![0xde, 0xad, 0xbe, 0xef];
    cache.store_toc(&key, "{\"toc\":1}");
    assert!(cache.get_toc(&key).is_none());
    cache.store_toc(&key, "{\"toc\":2}");
    assert!(cache.get_toc(&key).is_none());
    assert!(cache.get_toc(&[]).is_none());
}

#[test]
fn in_memory_store_then_get() {
    let mut cache = InMemoryTocCache::new();
    let key = vec![1u8, 2, 3, 4];
    assert!(cache.get_toc(&key).is_none());
    cache.store_toc(&key, "document one");
    assert_eq!(cache.get_toc(&key).as_deref(), Some("document one"));
    // A different key still misses.
    assert!(cache.get_toc(&[9u8, 9, 9, 9]).is_none());
}

#[test]
fn in_memory_overwrite_keeps_one_entry() {
    let mut cache = InMemoryTocCache::new();
    let key = vec![7u8];
    cache.store_toc(&key, "first");
    cache.store_toc(&key, "second");
    assert_eq!(cache.get_toc(&key).as_deref(), Some("second"));
    assert_eq!(cache.size(), 1);
}

#[test]
fn in_memory_clear_forgets_everything() {
    let mut cache = InMemoryTocCache::new();
    cache.store_toc(&[1u8], "a");
    cache.store_toc(&[2u8], "b");
    assert_eq!(cache.size(), 2);
    cache.clear();
    assert_eq!(cache.size(), 0);
    assert!(cache.get_toc(&[1u8]).is_none());
    assert!(cache.get_toc(&[2u8]).is_none());
}

#[test]
fn in_memory_distinct_keys_are_independent() {
    let mut cache = InMemoryTocCache::new();
    cache.store_toc(&[1u8], "one");
    cache.store_toc(&[1u8, 0], "two");
    assert_eq!(cache.get_toc(&[1u8]).as_deref(), Some("one"));
    assert_eq!(cache.get_toc(&[1u8, 0]).as_deref(), Some("two"));
}

#[test]
fn file_backed_store_then_get() {
    let mut cache = FileTocCache::new(String::from("/tmp/toc-cache"));
    let key = vec![0xab, 0xcd];
    assert!(cache.get_toc(&key).is_none());
    cache.store_toc(&key, "persisted document");
    assert_eq!(cache.get_toc(&key).as_deref(), Some("persisted document"));
}

#[test]
fn file_backed_disk_fallback_repopulates_memory() {
    let mut cache = FileTocCache::new(String::from("/tmp/toc-cache"));
    let key = vec![0x42u8, 0x43];
    cache.store_toc(&key, "survives the memory layer");
    // Drop the in-memory layer, as a fresh process over the same directory
    // would start.
    cache.clear_memory();
    assert_eq!(cache.size(), 0);
    // Still retrievable through the persistent layer...
    assert_eq!(
        cache.get_toc(&key).as_deref(),
        Some("survives the memory layer")
    );
    // ...and the hit was promoted back into memory.
    assert_eq!(cache.size(), 1);
}

#[test]
fn file_backed_clear_drops_both_layers() {
    let mut cache = FileTocCache::new(String::from("/tmp/toc-cache"));
    let key = vec![5u8];
    cache.store_toc(&key, "doc");
    cache.clear();
    assert!(cache.get_toc(&key).is_none());
    cache.clear_memory();
    assert!(cache.get_toc(&key).is_none());
}

#[test]
fn file_backed_reports_its_directory() {
    let cache = FileTocCache::new(String::from("/var/cache/toc"));
    assert_eq!(cache.get_cache_dir(), "/var/cache/toc");
}

#[test]
fn file_names_are_lowercase_hex_with_json_suffix() {
    assert_eq!(file_name_for_key(&[0x0f, 0xa0]), "0fa0.json");
    assert_eq!(file_name_for_key(&[]), ".json");
    assert_eq!(
        file_name_for_key(&[0x00, 0x01, 0x23, 0x45, 0x67, 0x89, 0xab, 0xcd, 0xef, 0xff]),
        "000123456789abcdefff.json"
    );
}
