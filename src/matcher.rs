//! The two pattern modes, literal substring and regular expression, behind
//! one "find first / is match" interface.
use vstd::prelude::*;
use vstd::string::StringSliceAdditionalSpecFns;
use grep::matcher::Matcher as _;
use grep::regex::Error as RegexBuildError;
use crate::error::{Error, ErrorKind};

verus! {

#[verifier::external_type_specification]
#[verifier::external_body]
pub struct ExRegexMatcher(grep::regex::RegexMatcher);

#[verifier::external_type_specification]
#[verifier::external_body]
pub struct ExRegexError(RegexBuildError);

/// True iff `p` occurs in `h` at byte offset `i`.
pub open spec fn occurs_at(p: Seq<u8>, h: Seq<u8>, i: int) -> bool {
    0 <= i && i + p.len() <= h.len() && h.subrange(i, i + p.len()) == p
}

/// True iff `p` occurs somewhere in `h`.
pub open spec fn occurs_in(p: Seq<u8>, h: Seq<u8>) -> bool {
    exists|i: int| occurs_at(p, h, i)
}

/// `r` is the leftmost occurrence of `p` in `h`, or `None` when there is none.
pub open spec fn is_first_occurrence(p: Seq<u8>, h: Seq<u8>, r: Option<(usize, usize)>) -> bool {
    match r {
        Some((s, e)) => e == s + p.len() && occurs_at(p, h, s as int)
            && forall|j: int| 0 <= j < s ==> !occurs_at(p, h, j),
        None => !occurs_in(p, h),
    }
}

/// `r` is an interval inside a haystack of `len` bytes.
pub open spec fn interval_within(r: Option<(usize, usize)>, len: int) -> bool {
    match r {
        Some((s, e)) => s <= e && e <= len,
        None => true,
    }
}

/// The first match of the regular expression `pattern` (in single-line,
/// smart-case mode with a `\n` line terminator) in `haystack`; it depends on
/// the pattern and the haystack alone.
pub uninterp spec fn regex_first_match(pattern: Seq<char>, haystack: Seq<u8>) -> Option<(usize, usize)>;

/// Whether the regular expression `pattern` (same mode) matches somewhere in
/// `haystack`; it depends on the pattern and the haystack alone.
pub uninterp spec fn regex_matches(pattern: Seq<char>, haystack: Seq<u8>) -> bool;

/// Whether `pattern` compiles as a regular expression (same mode); it
/// depends on the pattern alone.
pub uninterp spec fn regex_compiles(pattern: Seq<char>) -> bool;

/// A regular expression compiled from its pattern.
pub struct CompiledRegex {
    pattern: String,
    compiled: grep::regex::RegexMatcher,
}

impl CompiledRegex {
    /// The pattern this expression was compiled from.
    pub closed spec fn spec_pattern(&self) -> Seq<char> {
        self.pattern@
    }

    /// The pattern this expression was compiled from.
    pub fn pattern(&self) -> (r: &str)
        ensures
            r@ == self.spec_pattern(),
    {
        self.pattern.as_str()
    }

    /// The compiled matcher, for the scanner.
    pub fn compiled(&self) -> &grep::regex::RegexMatcher {
        &self.compiled
    }
}

/// What compiling `pattern` may give: an empty pattern is refused, a literal
/// is kept as its bytes, a regular expression compiles or is refused.
pub open spec fn compile_outcome(pattern: &str, use_regex: bool, r: Result<Matcher, Error>) -> bool {
    &&& pattern@.len() == 0 <==> (r is Err && r->Err_0.kind == ErrorKind::EmptyPattern)
    &&& pattern@.len() > 0 && !use_regex ==> (r matches Ok(Matcher::Literal(d))
        && d.pattern@ == pattern.spec_bytes())
    &&& pattern@.len() > 0 && use_regex ==> (r is Ok <==> regex_compiles(pattern@))
    &&& pattern@.len() > 0 && use_regex ==> match r {
        Ok(m) => m matches Matcher::Regex(c) && c.spec_pattern() == pattern@,
        Err(e) => e.kind == ErrorKind::PatternCompile,
    }
}

/// Relies on grep-regex's `RegexMatcherBuilder::build` with a `\n` line
/// terminator, single-line mode and smart case; the result keeps its pattern.
#[verifier::external_body]
fn build_regex(pattern: &str) -> (r: Result<CompiledRegex, RegexBuildError>)
    ensures
        r is Ok <==> regex_compiles(pattern@),
        r matches Ok(c) ==> c.spec_pattern() == pattern@,
{
    let built = grep::regex::RegexMatcherBuilder::new()
        .line_terminator(Some(b'\n'))
        .multi_line(false)
        .case_smart(true)
        .build(pattern);
    match built {
        Ok(m) => Ok(CompiledRegex { pattern: pattern.to_owned(), compiled: m }),
        Err(e) => Err(e),
    }
}

/// Relies on the `Display` of grep-regex's `Error` for its message.
#[verifier::external_body]
fn regex_error_message(e: &RegexBuildError) -> (r: String) {
    format!("Regex error: {}", e)
}

/// Relies on grep-matcher's `Matcher::find` for `RegexMatcher`: the first
/// match, as an interval of the haystack.
#[verifier::external_body]
fn regex_find(m: &CompiledRegex, haystack: &[u8]) -> (r: Option<(usize, usize)>)
    ensures
        r == regex_first_match(m.spec_pattern(), haystack@),
        interval_within(r, haystack@.len() as int),
{
    match m.compiled.find(haystack) {
        Ok(Some(found)) => Some((found.start(), found.end())),
        _ => None,
    }
}

/// Relies on grep-matcher's `Matcher::is_match` for `RegexMatcher`.
#[verifier::external_body]
fn regex_is_match(m: &CompiledRegex, haystack: &[u8]) -> (r: bool)
    ensures
        r == regex_matches(m.spec_pattern(), haystack@),
{
    m.compiled.is_match(haystack).unwrap_or(false)
}

/// True iff `h[i..i + p.len()]` equals `p`.
fn window_matches(p: &[u8], h: &[u8], i: usize) -> (r: bool)
    requires
        i + p@.len() <= h@.len(),
    ensures
        r == occurs_at(p@, h@, i as int),
{
    let hlen = h.len();
    let mut k: usize = 0;
    while k < p.len()
        invariant
            hlen == h@.len(),
            i + p@.len() <= h@.len(),
            0 <= k <= p@.len(),
            forall|j: int| 0 <= j < k ==> h@[i + j] == p@[j],
        decreases p@.len() - k,
    {
        if h[i + k] != p[k] {
            assert(h@.subrange(i as int, i + p@.len())[k as int] != p@[k as int]);
            return false;
        }
        k = k + 1;
    }
    assert(h@.subrange(i as int, i + p@.len()) =~= p@);
    true
}

/// Literal matcher: finds a byte string as a substring.
#[derive(Clone, Debug)]
pub struct DirectMatcher {
    pub pattern: Vec<u8>,
}

impl DirectMatcher {
    /// Creates a literal matcher for the bytes of `pattern`.
    pub fn new(pattern: &str) -> (r: Self)
        ensures
            r.pattern@ == pattern.spec_bytes(),
    {
        let bytes = pattern.as_bytes();
        let mut v: Vec<u8> = Vec::new();
        let mut i: usize = 0;
        while i < bytes.len()
            invariant
                0 <= i <= bytes@.len(),
                v@ == bytes@.subrange(0, i as int),
            decreases bytes@.len() - i,
        {
            v.push(bytes[i]);
            i = i + 1;
        }
        assert(v@ =~= bytes@);
        DirectMatcher { pattern: v }
    }

    /// The leftmost occurrence of the pattern in `haystack`.
    pub fn find(&self, haystack: &[u8]) -> (r: Option<(usize, usize)>)
        ensures
            is_first_occurrence(self.pattern@, haystack@, r),
    {
        let p = self.pattern.as_slice();
        let plen = p.len();
        let hlen = haystack.len();
        if plen > hlen {
            return None;
        }
        let last = hlen - plen;
        let mut i: usize = 0;
        loop
            invariant
                p@ == self.pattern@,
                plen == p@.len(),
                hlen == haystack@.len(),
                last + plen == hlen,
                0 <= i <= last,
                forall|j: int| 0 <= j < i ==> !occurs_at(p@, haystack@, j),
            decreases last - i,
        {
            if window_matches(p, haystack, i) {
                return Some((i, i + plen));
            }
            if i == last {
                return None;
            }
            i = i + 1;
        }
    }

    /// True iff the pattern occurs in `haystack`.
    pub fn is_match(&self, haystack: &[u8]) -> (r: bool)
        ensures
            r == occurs_in(self.pattern@, haystack@),
    {
        let found = self.find(haystack);
        if found.is_some() {
            true
        } else {
            false
        }
    }
}

/// A compiled pattern: a literal byte string or a regular expression.
pub enum Matcher {
    Literal(DirectMatcher),
    Regex(CompiledRegex),
}

impl Matcher {
    /// True iff this is the regular expression mode.
    pub fn is_regex(&self) -> (r: bool)
        ensures
            r == (self is Regex),
    {
        match self {
            Matcher::Literal(_) => false,
            Matcher::Regex(_) => true,
        }
    }

    /// Compiles `pattern` in the given mode. An empty pattern is refused;
    /// a regular expression that does not compile is refused.
    pub fn compile(pattern: &str, use_regex: bool) -> (r: Result<Matcher, Error>)
        ensures
            compile_outcome(pattern, use_regex, r),
    {
        if pattern.is_empty() {
            return Err(Error::with_kind(
                ErrorKind::EmptyPattern,
                "Empty pattern, expected a valid search word or regular expression".to_owned(),
            ));
        }
        if use_regex {
            match build_regex(pattern) {
                Ok(m) => Ok(Matcher::Regex(m)),
                Err(e) => Err(Error::with_kind(ErrorKind::PatternCompile, regex_error_message(&e))),
            }
        } else {
            Ok(Matcher::Literal(DirectMatcher::new(pattern)))
        }
    }

    /// The first interval of `haystack` that the pattern matches. A literal
    /// gives its leftmost occurrence.
    pub fn find(&self, haystack: &[u8]) -> (r: Option<(usize, usize)>)
        ensures
            interval_within(r, haystack@.len() as int),
            self matches Matcher::Literal(d) ==> is_first_occurrence(d.pattern@, haystack@, r),
            self matches Matcher::Regex(c) ==> r == regex_first_match(c.spec_pattern(), haystack@),
    {
        match self {
            Matcher::Literal(d) => d.find(haystack),
            Matcher::Regex(m) => regex_find(m, haystack),
        }
    }

    /// True iff the pattern matches somewhere in `haystack`.
    pub fn is_match(&self, haystack: &str) -> (r: bool)
        ensures
            self matches Matcher::Literal(d) ==> r == occurs_in(d.pattern@, haystack.spec_bytes()),
            self matches Matcher::Regex(c) ==> r == regex_matches(c.spec_pattern(), haystack.spec_bytes()),
    {
        match self {
            Matcher::Literal(d) => d.is_match(haystack.as_bytes()),
            Matcher::Regex(m) => regex_is_match(m, haystack.as_bytes()),
        }
    }
}

} // verus!
