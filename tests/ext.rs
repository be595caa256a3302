use omnisearch::ext::{same_text, Extension, Extensions};

#[test]
fn parse_trims_and_folds_case() {
    assert_eq!(Extension::parse(" JAVA "), Extension::JAVA);
    assert_eq!(Extension::parse("Rs"), Extension::RS);
    assert_eq!(Extension::parse("markdown"), Extension::MARKDOWN);
}

#[test]
fn parse_trims_unicode_white_space() {
    assert_eq!(Extension::parse("\u{3000}go\t\n"), Extension::GO);
    assert_eq!(Extension::parse("\u{00A0}py"), Extension::PY);
}

#[test]
fn parse_unknown_suffix_is_unknown() {
    assert_eq!(Extension::parse("exe"), Extension::UNKNOWN);
    assert_eq!(Extension::parse(""), Extension::UNKNOWN);
}

#[test]
fn from_name_is_exact() {
    assert_eq!(Extension::from_name("yml"), Extension::YML);
    assert_eq!(Extension::from_name("YML"), Extension::UNKNOWN);
}

#[test]
fn names_round_trip() {
    assert_eq!(Extension::JAVA.as_str(), "java");
    assert_eq!(Extension::UNKNOWN.as_str(), "<unknown>");
    assert_eq!(Extension::from_name(Extension::THRIFT.as_str()), Extension::THRIFT);
}

#[test]
fn all_excludes_unknown() {
    let all = Extensions::all();
    assert!(all.is_supported_extension(Extension::JAVA));
    assert!(all.is_supported_extension(Extension::YML));
    assert!(!all.is_supported_extension(Extension::UNKNOWN));
    let n = Extensions::new();
    assert!(n.is_supported_extension(Extension::BZL));
}

#[test]
fn with_extensions_limits_set() {
    let s = Extensions::with_extensions(vec![Extension::RS, Extension::GO]);
    assert!(s.is_supported_extension(Extension::RS));
    assert!(s.is_supported_extension(Extension::GO));
    assert!(!s.is_supported_extension(Extension::JAVA));
}

#[test]
fn same_text_compares_characters() {
    assert!(same_text("abc", "abc"));
    assert!(!same_text("abc", "abd"));
    assert!(!same_text("abc", "ab"));
    assert!(same_text("", ""));
}
