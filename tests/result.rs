use omnisearch::result::{ContentKind, ContentLine, FileItem, Matched};
use omnisearch::ext::Extension;

#[test]
fn long_line_without_range_is_shortened() {
    let bytes: Vec<u8> = (0..200u32).map(|i| (b'a' + (i % 26) as u8)).collect();
    let line = ContentLine::without_match(ContentKind::Before, 7, &bytes);
    assert_eq!(line.bytes.len(), 140);
    assert!(line.truncated);
    let mut expected = bytes[0..120].to_vec();
    expected.extend_from_slice(b"...");
    expected.extend_from_slice(&bytes[183..200]);
    assert_eq!(line.bytes, expected);
    assert_eq!(line.range, None);
    assert_eq!(line.num, 7);
}

#[test]
fn long_line_with_range_is_kept_whole() {
    let bytes = vec![b'x'; 200];
    let line = ContentLine::new(ContentKind::Match, 3, &bytes, Some(150), Some(160));
    assert_eq!(line.bytes, bytes);
    assert!(line.truncated);
    assert_eq!(line.range, Some((150, 160)));
}

#[test]
fn line_at_the_cap_is_kept() {
    let bytes = vec![b'y'; 140];
    let line = ContentLine::without_match(ContentKind::After, 1, &bytes);
    assert_eq!(line.bytes, bytes);
    assert!(!line.truncated);
    let bytes = vec![b'y'; 141];
    let line = ContentLine::without_match(ContentKind::After, 1, &bytes);
    assert_eq!(line.bytes.len(), 140);
    assert!(line.truncated);
}

#[test]
fn range_outside_the_line_is_dropped() {
    let line = ContentLine::new(ContentKind::Match, 1, b"abc", Some(1), Some(5));
    assert_eq!(line.range, None);
    let line = ContentLine::new(ContentKind::Match, 1, b"abc", Some(2), Some(2));
    assert_eq!(line.range, None);
    let line = ContentLine::new(ContentKind::Before, 1, b"abc", Some(0), Some(1));
    assert_eq!(line.range, None);
    let line = ContentLine::new(ContentKind::Match, 1, b"abc", Some(0), Some(3));
    assert_eq!(line.range, Some((0, 3)));
}

#[test]
fn matched_counts_against_cap() {
    assert_eq!(Matched::of(10, 10), Matched::Exact(10));
    assert_eq!(Matched::of(11, 10), Matched::AtLeast(11));
    assert_eq!(Matched::of(0, 10).count(), 0);
    assert!(Matched::of(100, 100).is_exact());
    assert!(!Matched::of(101, 100).is_exact());
}

#[test]
fn file_item_keeps_parts() {
    let f = FileItem::new("/tmp/x/a.rs".to_string(), Extension::RS);
    assert_eq!(f.path, "/tmp/x/a.rs");
    assert_eq!(f.ext, Extension::RS);
}
