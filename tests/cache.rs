use std::sync::Arc;
use omnisearch::cache::{
    cache_get, cache_paths, cache_rebuild, cache_stats, contains_cache, create_cache, keeps_body,
    update_cache, Cache, FileIndex, FileIndexTree,
};
use omnisearch::params::{CacheParams, Params, QueryParams};
use omnisearch::ext::Extension;

fn listing(names: &[&str]) -> Vec<(String, Option<FileIndex>)> {
    names.iter().map(|n| (n.to_string(), None)).collect()
}

#[test]
fn cache_monotonicity() {
    let mut c = Cache::new();
    assert!(c.add_index("/r").is_ok());
    let s1 = Arc::new(FileIndexTree::new(&mut c.seq, listing(&["/r/a.rs"])).unwrap());
    assert!(c.upsert_index("/r", s1.clone()));
    let s2 = Arc::new(FileIndexTree::new(&mut c.seq, listing(&["/r/a.rs", "/r/b.rs"])).unwrap());
    assert!(s2.txid() > s1.txid());
    assert!(c.upsert_index("/r", s2.clone()));
    assert!(!c.upsert_index("/r", s1.clone()));
    let s = c.get_index("/r").unwrap();
    assert_eq!(s.txid(), s2.txid());
    assert_eq!(s.entries().unwrap().len(), 2);
}

#[test]
fn later_snapshots_get_higher_versions() {
    let mut c = Cache::new();
    assert_eq!(c.seq.peek(), 0);
    let a = FileIndexTree::null(&mut c.seq).unwrap();
    let b = FileIndexTree::new(&mut c.seq, listing(&["x"])).unwrap();
    let d = FileIndexTree::null(&mut c.seq).unwrap();
    assert_eq!(a.txid(), 0);
    assert_eq!(b.txid(), 1);
    assert_eq!(d.txid(), 2);
    assert_eq!(c.seq.peek(), 3);
    assert!(a.is_empty() && a.entries().is_none());
    assert!(!b.is_empty());
}

#[test]
fn register_twice_is_idempotent() {
    let mut c = Cache::new();
    assert!(c.add_index("/r").is_ok());
    let first = c.get_index("/r").unwrap().txid();
    let next = c.seq.peek();
    assert!(c.add_index("/r").is_ok());
    assert_eq!(c.get_index("/r").unwrap().txid(), first);
    assert_eq!(c.seq.peek(), next);
    assert_eq!(c.paths(), vec!["/r".to_string()]);
}

#[test]
fn register_keeps_populated_snapshot() {
    let mut c = Cache::new();
    assert!(c.add_index("/r").is_ok());
    assert!(c.rebuild_index("/r", listing(&["/r/a.rs"])).is_ok());
    assert!(c.add_index("/r").is_ok());
    assert!(!c.get_index("/r").unwrap().is_empty());
}

#[test]
fn remove_installs_newer_empty_snapshot() {
    let mut c = Cache::new();
    let t = Arc::new(FileIndexTree::new(&mut c.seq, listing(&["/r/a.rs"])).unwrap());
    assert!(c.upsert_index("/r", t.clone()));
    assert!(c.remove_index("/r").is_ok());
    let s = c.get_index("/r").unwrap();
    assert!(s.is_empty());
    assert!(s.entries().is_none());
    assert!(s.txid() > t.txid());
    assert!(c.contains("/r"));
    assert!(!c.contains("/s"));
    assert!(c.get_index("/s").is_none());
}

#[test]
fn rebuild_installs_newest_snapshot() {
    let mut c = Cache::new();
    assert!(c.add_index("/r").is_ok());
    let before = c.get_index("/r").unwrap().txid();
    assert!(c.rebuild_index("/r", listing(&["/r/a.rs", "/r/b.rs"])).is_ok());
    let s = c.get_index("/r").unwrap();
    assert!(s.txid() > before);
    assert_eq!(s.entries().unwrap().len(), 2);
}

#[test]
fn paths_lists_every_root() {
    let mut c = Cache::new();
    assert!(c.add_index("/a").is_ok());
    assert!(c.add_index("/b").is_ok());
    let mut p = c.paths();
    p.sort();
    assert_eq!(p, vec!["/a".to_string(), "/b".to_string()]);
}

#[test]
fn stats_count_entries_and_bodies() {
    let mut c = Cache::new();
    let t = FileIndexTree::new(
        &mut c.seq,
        vec![("ab".to_string(), Some(FileIndex::new(vec![0u8; 10]))), ("cde".to_string(), None)],
    )
    .unwrap();
    let st = t.stats();
    assert_eq!(st.txid, 0);
    assert_eq!(st.num_entries, 2);
    assert_eq!(st.num_indexed, 1);
    let overhead = std::mem::size_of::<FileIndexTree>()
        + std::mem::size_of::<FileIndex>()
        + std::mem::size_of::<Vec<u8>>();
    assert_eq!(st.memory_used, overhead + 2 + 3 + 10);
    let n = FileIndexTree::null(&mut c.seq).unwrap().stats();
    assert_eq!(n.txid, 1);
    assert_eq!(n.num_entries, 0);
    assert_eq!(n.memory_used, std::mem::size_of::<FileIndexTree>());
    assert!(c.upsert_index("/r", Arc::new(t)));
    let cs = c.stats();
    assert_eq!(cs.trees.len(), 1);
    assert_eq!(cs.memory_used, std::mem::size_of::<Cache>() + 2 + overhead + 2 + 3 + 10);
}

#[test]
fn bodies_kept_from_min_size() {
    assert!(keeps_body(1024));
    assert!(!keeps_body(1023));
    let fi = FileIndex::new(vec![1, 2, 3]);
    assert_eq!(fi.content(), &[1, 2, 3]);
}

#[test]
fn shared_cache_operations() {
    let c = create_cache();
    assert_eq!(contains_cache(&c, "/r").ok(), Some(false));
    assert!(update_cache(&c, "/r").is_ok());
    assert_eq!(contains_cache(&c, "/r").ok(), Some(true));
    assert_eq!(cache_paths(&c), vec!["/r".to_string()]);
    let before = cache_get(&c, "/r").unwrap().txid();
    assert!(cache_rebuild(&c, "/r", listing(&["/r/x.go"])).is_ok());
    let s = cache_get(&c, "/r").unwrap();
    assert!(s.txid() > before);
    assert_eq!(s.entries().unwrap().len(), 1);
    assert_eq!(cache_stats(&c).ok().unwrap().trees.len(), 1);
}

#[test]
fn params_defaults() {
    let q = QueryParams { dir: "/tmp".to_string(), pattern: "p".to_string(), use_regex: None, use_cache: Some(true) };
    assert_eq!(q.dir(), "/tmp");
    assert_eq!(q.pattern(), "p");
    assert!(!q.use_regex());
    assert!(q.use_cache());
    let c = CacheParams { dir: "/d".to_string() };
    assert_eq!(c.dir(), "/d");
    let p = Params { dir: "/e".to_string(), pattern: "q".to_string(), extensions: Some(vec![" RS".to_string(), "zip".to_string()]) };
    assert_eq!(p.dir(), "/e");
    assert_eq!(p.pattern(), "q");
    assert_eq!(p.extensions(), vec![Extension::RS, Extension::UNKNOWN]);
    let p = Params { dir: "/e".to_string(), pattern: "q".to_string(), extensions: None };
    assert!(p.extensions().is_empty());
}
