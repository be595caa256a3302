use omnisearch::error::ErrorKind;
use omnisearch::ext::Extension;
use omnisearch::matcher::Matcher;
use omnisearch::result::{ContentKind, ContentMatch, ContentItem};
use omnisearch::sink::{Collector, ContextKind};

fn literal(p: &str) -> Matcher {
    Matcher::compile(p, false).ok().unwrap()
}

fn nums(m: &ContentMatch) -> Vec<u64> {
    m.lines.iter().map(|l| l.num).collect()
}

fn kinds(m: &ContentMatch) -> Vec<ContentKind> {
    m.lines.iter().map(|l| l.kind).collect()
}

fn run_window(c: &mut Collector, m: &Matcher, lines: &[&str], at: u64, first: u64, last: u64) {
    for n in first..=last {
        let text = lines[(n - 1) as usize].as_bytes();
        if n < at {
            assert_eq!(c.context(ContextKind::Before, Some(n), text).ok(), Some(true));
        } else if n == at {
            assert_eq!(c.matched(m, Some(n), text).ok(), Some(true));
        } else {
            assert_eq!(c.context(ContextKind::After, Some(n), text).ok(), Some(true));
        }
    }
}

#[test]
fn content_match_with_context() {
    let lines = ["L1\n", "L2\n", "L3 alpha\n", "L4\n", "L5\n"];
    let m = literal("alpha");
    let mut c = Collector::new("/tmp/x/f.txt".to_string(), Extension::UNKNOWN);
    run_window(&mut c, &m, &lines, 3, 1, 5);
    let item: ContentItem = c.finish().unwrap();
    assert_eq!(item.matches.len(), 1);
    let g = &item.matches[0];
    assert_eq!(nums(g), vec![1, 2, 3, 4, 5]);
    assert_eq!(
        kinds(g),
        vec![ContentKind::Before, ContentKind::Before, ContentKind::Match, ContentKind::After, ContentKind::After]
    );
    assert_eq!(g.lines[2].range, Some((3, 8)));
    assert_eq!(g.lines[0].range, None);
    assert_eq!(item.path, "/tmp/x/f.txt");
}

#[test]
fn two_groups_separated_by_gap() {
    let text: Vec<String> = (1..=20).map(|i| if i == 3 || i == 17 { format!("m{} x\n", i) } else { format!("l{}\n", i) }).collect();
    let lines: Vec<&str> = text.iter().map(|s| s.as_str()).collect();
    let m = literal("x");
    let mut c = Collector::new("f".to_string(), Extension::RS);
    run_window(&mut c, &m, &lines, 3, 1, 5);
    assert!(c.context_break(1));
    run_window(&mut c, &m, &lines, 17, 15, 19);
    let item = c.finish().unwrap();
    assert_eq!(item.matches.len(), 2);
    assert_eq!(nums(&item.matches[0]), vec![1, 2, 3, 4, 5]);
    assert_eq!(nums(&item.matches[1]), vec![15, 16, 17, 18, 19]);
    assert_eq!(item.matches[1].lines[2].range, Some((4, 5)));
}

#[test]
fn no_match_no_item() {
    let mut c = Collector::new("f".to_string(), Extension::RS);
    assert!(c.finish().is_none());
}

#[test]
fn context_only_lines_are_dropped() {
    let m = literal("zzz");
    let mut c = Collector::new("f".to_string(), Extension::RS);
    assert_eq!(c.context(ContextKind::After, Some(4), b"a\n").ok(), Some(true));
    assert!(c.context_break(0));
    assert_eq!(c.matched(&m, Some(9), b"zzz\n").ok(), Some(true));
    let item = c.finish().unwrap();
    assert_eq!(item.matches.len(), 1);
    assert_eq!(nums(&item.matches[0]), vec![9]);
}

#[test]
fn break_stops_past_the_budget() {
    let m = literal("a");
    let mut c = Collector::new("f".to_string(), Extension::RS);
    assert_eq!(c.matched(&m, Some(1), b"a\n").ok(), Some(true));
    assert!(!c.context_break(101));
    assert_eq!(c.lines.len(), 1);
    assert!(c.context_break(100));
    assert_eq!(c.lines.len(), 0);
    assert_eq!(c.matches.len(), 1);
}

#[test]
fn missing_line_numbers_are_refused() {
    let m = literal("a");
    let mut c = Collector::new("f".to_string(), Extension::RS);
    let e = c.matched(&m, None, b"a\n").err().unwrap();
    assert_eq!(e.kind(), ErrorKind::LineNumbersDisabled);
    let e = c.context(ContextKind::Before, None, b"a\n").err().unwrap();
    assert_eq!(e.kind, ErrorKind::LineNumbersDisabled);
}

#[test]
fn out_of_order_lines_are_refused() {
    let m = literal("a");
    let mut c = Collector::new("f".to_string(), Extension::RS);
    assert_eq!(c.matched(&m, Some(5), b"a\n").ok(), Some(true));
    let e = c.context(ContextKind::After, Some(5), b"b\n").err().unwrap();
    assert_eq!(e.kind, ErrorKind::Internal);
    let e = c.matched(&m, Some(2), b"a\n").err().unwrap();
    assert_eq!(e.kind, ErrorKind::Internal);
    assert_eq!(c.context(ContextKind::Other, Some(1), b"b\n").ok(), Some(true));
    assert_eq!(c.lines.len(), 1);
}

#[test]
fn emitted_lines_increase() {
    let m = literal("k");
    let mut c = Collector::new("f".to_string(), Extension::RS);
    for n in [2u64, 3, 7, 8, 20] {
        assert_eq!(c.matched(&m, Some(n), b"k\n").ok(), Some(true));
        assert!(c.context_break(0));
    }
    let item = c.finish().unwrap();
    let all: Vec<u64> = item.matches.iter().flat_map(|g| g.lines.iter().map(|l| l.num)).collect();
    assert_eq!(all, vec![2, 3, 7, 8, 20]);
    for g in &item.matches {
        assert!(g.lines.iter().any(|l| l.kind == ContentKind::Match));
    }
}

#[test]
fn match_ranges_lie_within_lines() {
    let m = Matcher::compile("b+", true).ok().unwrap();
    let mut c = Collector::new("f".to_string(), Extension::RS);
    assert_eq!(c.matched(&m, Some(1), b"aabbbc\n").ok(), Some(true));
    let line = &c.lines[0];
    let (s, e) = line.range.unwrap();
    assert!(s < e && e <= line.bytes.len());
    assert_eq!((s, e), (2, 5));
}
