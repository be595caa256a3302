use std::sync::Arc;
use omnisearch::cache::{Cache, FileIndex, FileIndexTree};
use omnisearch::error::ErrorKind;
use omnisearch::ext::Extension;
use omnisearch::matcher::{DirectMatcher, Matcher};
use omnisearch::result::{ContentItem, FileItem, Matched};
use omnisearch::search::{
    admit_file_hit, cached_entries, plan_entry, plan_file, should_quit, split, split_end, summarize, Query,
};
use omnisearch::sink::Collector;

#[test]
fn literal_basename_match() {
    let q = Query::new("World", false, Vec::new()).ok().unwrap();
    let plan = plan_entry(&q, "/tmp/x/helloWorld.java", 0);
    assert!(plan.name_matches);
    assert_eq!(plan.ext, Extension::JAVA);
    assert!(plan.scan_content);
    let files = vec![FileItem::new("/tmp/x/helloWorld.java".to_string(), plan.ext)];
    let r = summarize(5, false, files, Vec::new());
    assert_eq!(r.files.len(), 1);
    assert_eq!(r.file_matches, Matched::Exact(1));
    assert_eq!(r.content_matches, Matched::Exact(0));
    assert!(!r.used_cache);
}

#[test]
fn literal_match_is_case_sensitive() {
    let q = Query::new("Hello", false, Vec::new()).ok().unwrap();
    assert!(!plan_file(&q, "helloWorld.java", "java", 0).name_matches);
    assert!(plan_file(&q, "Hello.java", "java", 0).name_matches);
}

#[test]
fn regex_name_match_is_smart_case() {
    let q = Query::new("hello", true, Vec::new()).ok().unwrap();
    assert!(plan_file(&q, "HelloWorld.java", "java", 0).name_matches);
    let q = Query::new("Hello", true, Vec::new()).ok().unwrap();
    assert!(!plan_file(&q, "helloWorld.java", "java", 0).name_matches);
}

#[test]
fn plan_respects_extensions_and_budget() {
    let q = Query::new("x", false, vec![Extension::RS]).ok().unwrap();
    assert!(plan_file(&q, "a.rs", "rs", 100).scan_content);
    assert!(!plan_file(&q, "a.rs", "rs", 101).scan_content);
    assert!(!plan_file(&q, "a.go", "go", 0).scan_content);
    assert!(!plan_file(&q, "", "rs", 0).name_matches);
    let q = Query::new("x", false, Vec::new()).ok().unwrap();
    assert!(!plan_file(&q, "a.bin", "bin", 0).scan_content);
}

#[test]
fn empty_pattern_is_refused() {
    let e = Query::new("", false, Vec::new()).err().unwrap();
    assert_eq!(e.kind, ErrorKind::EmptyPattern);
    let e = Matcher::compile("", true).err().unwrap();
    assert_eq!(e.kind, ErrorKind::EmptyPattern);
}

#[test]
fn bad_regex_is_refused() {
    let e = Query::new("(abc", true, Vec::new()).err().unwrap();
    assert_eq!(e.kind, ErrorKind::PatternCompile);
    assert!(e.message().len() > 0);
}

#[test]
fn direct_matcher_finds_first_occurrence() {
    let d = DirectMatcher::new("ab");
    assert_eq!(d.find(b"xxabyab"), Some((2, 4)));
    assert_eq!(d.find(b"a"), None);
    assert_eq!(d.find(b"ba"), None);
    assert!(d.is_match(b"cab"));
    assert!(!d.is_match(b"acb"));
    let m = Matcher::compile("ab", false).ok().unwrap();
    assert!(!m.is_regex());
    assert_eq!(m.find(b"zzab"), Some((2, 4)));
}

#[test]
fn regex_matcher_finds_interval() {
    let m = Matcher::compile("al.ha", true).ok().unwrap();
    assert!(m.is_regex());
    assert_eq!(m.find(b"xx alpha"), Some((3, 8)));
    assert_eq!(m.find(b"beta"), None);
    assert!(m.is_match("the alpha"));
}

#[test]
fn file_hits_past_the_cap_are_admitted_once() {
    assert!(admit_file_hit(0));
    assert!(admit_file_hit(10));
    assert!(!admit_file_hit(11));
}

#[test]
fn walk_quits_when_both_caps_are_exceeded() {
    assert!(!should_quit(11, 100));
    assert!(!should_quit(10, 101));
    assert!(should_quit(11, 101));
}

#[test]
fn budget_overflow() {
    let q = Query::new("x", false, Vec::new()).ok().unwrap();
    let mut count: usize = 0;
    let mut content: Vec<ContentItem> = Vec::new();
    for i in 0..200 {
        let name = format!("f{}.rs", i);
        let plan = plan_file(&q, &name, "rs", count);
        if plan.scan_content {
            let mut c = Collector::new(name.clone(), plan.ext);
            count += 1;
            assert_eq!(c.matched(&q.matcher, Some(1), b"x\n").ok(), Some(true));
            if let Some(item) = c.finish() {
                content.push(item);
            }
        }
    }
    let r = summarize(0, false, Vec::new(), content);
    assert_eq!(r.content.len(), 101);
    assert_eq!(r.content_matches, Matched::AtLeast(101));
}

#[test]
fn counts_are_exact_up_to_the_cap() {
    let files: Vec<FileItem> = (0..10).map(|i| FileItem::new(format!("{}", i), Extension::RS)).collect();
    let r = summarize(0, true, files, Vec::new());
    assert_eq!(r.file_matches, Matched::Exact(10));
    assert!(r.used_cache);
    let files: Vec<FileItem> = (0..11).map(|i| FileItem::new(format!("{}", i), Extension::RS)).collect();
    let r = summarize(0, true, files, Vec::new());
    assert_eq!(r.file_matches, Matched::AtLeast(11));
    assert_eq!(r.file_matches.count(), r.files.len());
}

#[test]
fn split_into_equal_ranges() {
    assert_eq!(split(10, 4), vec![0, 2, 4, 6]);
    assert_eq!(split(3, 4), vec![0, 0, 0, 0]);
    assert_eq!(split(8, 0), Vec::<usize>::new());
    let s = split(10, 4);
    assert_eq!(split_end(&s, 3, 10), 10);
    assert_eq!(split_end(&s, 1, 10), 4);
}

#[test]
fn cached_entries_only_for_populated_snapshots() {
    let mut c = Cache::new();
    let t = Arc::new(FileIndexTree::new(&mut c.seq, vec![("a.rs".to_string(), Some(FileIndex::new(vec![1, 2])))]).unwrap());
    assert!(cached_entries(false, Some(t.clone())).is_none());
    assert_eq!(cached_entries(true, Some(t)).unwrap().len(), 1);
    assert!(cached_entries(true, Some(Arc::new(FileIndexTree::null(&mut c.seq).unwrap()))).is_none());
    assert!(cached_entries(true, None).is_none());
}

#[test]
fn entry_extension_follows_last_dot_of_name() {
    let q = Query::new("zz", false, Vec::new()).ok().unwrap();
    assert_eq!(plan_entry(&q, "/a/b.tar.RS", 0).ext, Extension::RS);
    assert_eq!(plan_entry(&q, "/home/u/.bashrc", 0).ext, Extension::UNKNOWN);
    assert_eq!(plan_entry(&q, "/a.rs/Makefile", 0).ext, Extension::UNKNOWN);
    assert_eq!(plan_entry(&q, "/a/x.go", 0).ext, Extension::GO);
}

#[test]
fn regex_keeps_its_pattern() {
    let m = Matcher::compile("a+b", true).ok().unwrap();
    match &m {
        Matcher::Regex(c) => assert_eq!(c.pattern(), "a+b"),
        Matcher::Literal(_) => panic!("expected a regular expression"),
    }
    assert_eq!(m.find(b"xaab"), Some((1, 4)));
}
