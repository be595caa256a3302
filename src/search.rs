//! Search bookkeeping: the global caps, the decisions taken for each file,
//! the partition of a snapshot among workers and the final tally.
use vstd::prelude::*;
use vstd::string::StringSliceAdditionalSpecFns;
use crate::error::Error;
use crate::ext::{ext_from_name, lowercased, trimmed, Extension, Extensions};
use crate::matcher::{compile_outcome, occurs_in, regex_matches, Matcher};
use crate::result::{ContentItem, FileItem, Matched, SearchResult};
use crate::cache::{Entry, FileIndexTree};
use std::sync::Arc;

verus! {

/// Number of file-name hits reported exactly.
pub const FILE_MAX_MATCHES: usize = 10;
/// Number of content hits reported exactly.
pub const CONTENT_MAX_MATCHES: usize = 100;
/// Lines of context before and after each match.
pub const CONTEXT_NUM_LINES: usize = 2;
/// Number of workers that scan a cached snapshot.
pub const DEFAULT_THREAD_POOL_SIZE: usize = 4;

/// What `Path::file_name` gives for a path, as text ("" when there is none).
pub uninterp spec fn file_name_of(p: Seq<char>) -> Seq<char>;

/// The extension of a file name: what follows its last '.', when that dot
/// is not the name's first character; otherwise none ("").
pub open spec fn extension_of_name(n: Seq<char>) -> Seq<char> {
    extension_before(n, n.len() as int)
}

/// `extension_of_name` when the characters from `j` on hold no dot.
pub open spec fn extension_before(n: Seq<char>, j: int) -> Seq<char>
    decreases j,
{
    if j <= 1 {
        Seq::empty()
    } else if n[j - 1] == '.' {
        n.subrange(j, n.len() as int)
    } else {
        extension_before(n, j - 1)
    }
}

/// Relies on `std::path::Path::file_name`: the last component of the path.
#[verifier::external_body]
fn path_file_name(p: &str) -> (r: &str)
    ensures
        r@ == file_name_of(p@),
{
    std::path::Path::new(p).file_name().and_then(|s| s.to_str()).unwrap_or("")
}

/// Relies on `std::path::Path::extension`: what follows the last '.' of the
/// file name, none when the name has no dot past its first character.
#[verifier::external_body]
fn path_extension(p: &str) -> (r: &str)
    ensures
        r@ == extension_of_name(file_name_of(p@)),
{
    std::path::Path::new(p).extension().and_then(|s| s.to_str()).unwrap_or("")
}

/// A compiled query: the pattern and the extensions searched by content.
pub struct Query {
    pub matcher: Matcher,
    pub extensions: Extensions,
}

impl Query {
    /// Compiles a query. An empty `extensions` list means every known
    /// extension.
    pub fn new(pattern: &str, use_regex: bool, extensions: Vec<Extension>) -> (r: Result<Query, Error>)
        ensures
            r matches Ok(q) ==> forall|e: Extension| q.extensions.allows(e) <==> if extensions@.len() == 0 {
                e != Extension::UNKNOWN
            } else {
                extensions@.contains(e)
            },
            compile_outcome(pattern, use_regex, match r {
                Ok(q) => Ok(q.matcher),
                Err(e) => Err(e),
            }),
    {
        match Matcher::compile(pattern, use_regex) {
            Ok(matcher) => {
                let extensions = if extensions.len() > 0 {
                    Extensions::with_extensions(extensions)
                } else {
                    Extensions::all()
                };
                Ok(Query { matcher, extensions })
            },
            Err(e) => Err(e),
        }
    }
}

/// What is done with one file: its extension, whether its name matches, and
/// whether its content is scanned.
#[derive(Clone, Copy, Debug)]
pub struct FilePlan {
    pub ext: Extension,
    pub name_matches: bool,
    pub scan_content: bool,
}

/// Decides what to do with a file from its name and suffix. The name is
/// matched against the pattern; the content is scanned when the extension is
/// searched and the content budget is not exhausted.
pub fn plan_file(
    query: &Query,
    file_name: &str,
    ext_name: &str,
    content_count: usize,
) -> (r: FilePlan)
    ensures
        r.ext == ext_from_name(lowercased(trimmed(ext_name@))),
        r.scan_content == (query.extensions.allows(r.ext) && content_count <= CONTENT_MAX_MATCHES),
        file_name@.len() == 0 ==> !r.name_matches,
        query.matcher matches Matcher::Literal(d) ==> r.name_matches == (file_name@.len() > 0
            && occurs_in(d.pattern@, file_name.spec_bytes())),
        query.matcher matches Matcher::Regex(c) ==> r.name_matches == (file_name@.len() > 0
            && regex_matches(c.spec_pattern(), file_name.spec_bytes())),
{
    let ext = Extension::parse(ext_name);
    let name_matches = if file_name.is_empty() {
        false
    } else {
        query.matcher.is_match(file_name)
    };
    let scan_content = query.extensions.is_supported_extension(ext) && content_count <= CONTENT_MAX_MATCHES;
    FilePlan { ext, name_matches, scan_content }
}

/// Decides what to do with a snapshot entry from its path alone.
pub fn plan_entry(query: &Query, path: &str, content_count: usize) -> (r: FilePlan)
    ensures
        r.ext == ext_from_name(lowercased(trimmed(extension_of_name(file_name_of(path@))))),
        r.scan_content == (query.extensions.allows(r.ext) && content_count <= CONTENT_MAX_MATCHES),
        file_name_of(path@).len() == 0 ==> !r.name_matches,
        query.matcher matches Matcher::Literal(d) ==> r.name_matches == (file_name_of(path@).len() > 0
            && occurs_in(d.pattern@, encode_of(file_name_of(path@)))),
        query.matcher matches Matcher::Regex(c) ==> r.name_matches == (file_name_of(path@).len() > 0
            && regex_matches(c.spec_pattern(), encode_of(file_name_of(path@)))),
{
    let name = path_file_name(path);
    let ext = path_extension(path);
    plan_file(query, name, ext, content_count)
}

/// The bytes of a text.
pub open spec fn encode_of(s: Seq<char>) -> Seq<u8> {
    vstd::utf8::encode_utf8(s)
}

/// A file-name hit is published while the number of hits before it is at
/// most the cap, so that one hit past the cap shows that it was exceeded.
pub fn admit_file_hit(previous_count: usize) -> (r: bool)
    ensures
        r == (previous_count <= FILE_MAX_MATCHES),
{
    previous_count <= FILE_MAX_MATCHES
}

/// The walk stops once both counters have exceeded their caps.
pub fn should_quit(file_count: usize, content_count: usize) -> (r: bool)
    ensures
        r == (file_count > FILE_MAX_MATCHES && content_count > CONTENT_MAX_MATCHES),
{
    file_count > FILE_MAX_MATCHES && content_count > CONTENT_MAX_MATCHES
}

/// Start offsets of `splits` ranges of equal length over `len` items; the
/// last range also takes the remainder.
pub fn split(len: usize, splits: usize) -> (r: Vec<usize>)
    ensures
        r@.len() == splits,
        splits > 0 ==> forall|i: int| 0 <= i < splits ==> #[trigger] r@[i] == i * (len / splits) as int,
        forall|i: int| 0 <= i < splits ==> #[trigger] r@[i] <= len,
{
    let mut buckets: Vec<usize> = Vec::new();
    if splits == 0 {
        return buckets;
    }
    let size = len / splits;
    let mut i: usize = 0;
    while i < splits
        invariant
            splits > 0,
            size == len / splits,
            0 <= i <= splits,
            buckets@.len() == i,
            forall|k: int| 0 <= k < i ==> #[trigger] buckets@[k] == k * size as int && buckets@[k] <= len,
        decreases splits - i,
    {
        proof {
            assert(i * size <= splits * size) by (nonlinear_arith)
                requires i < splits;
            assert(splits * size <= len) by (nonlinear_arith)
                requires size == len / splits, splits > 0;
        }
        buckets.push(i * size);
        i = i + 1;
    }
    buckets
}

/// End offset of range `i` of a split of `len` items.
pub fn split_end(starts: &Vec<usize>, i: usize, len: usize) -> (r: usize)
    requires
        i < starts@.len(),
    ensures
        r == if i + 1 < starts@.len() { starts@[i + 1] } else { len },
{
    if i < starts.len() - 1 {
        starts[i + 1]
    } else {
        len
    }
}

/// Builds the search result: counts within the caps are exact, counts above
/// them are reported as lower bounds.
pub fn summarize(
    elapsed_nanos: u64,
    used_cache: bool,
    files: Vec<FileItem>,
    content: Vec<ContentItem>,
) -> (r: SearchResult)
    ensures
        r.elapsed_nanos == elapsed_nanos,
        r.used_cache == used_cache,
        r.files@ == files@,
        r.content@ == content@,
        r.file_matches.spec_count() == r.files@.len(),
        r.content_matches.spec_count() == r.content@.len(),
        r.file_matches is Exact <==> r.file_matches.spec_count() <= FILE_MAX_MATCHES,
        r.content_matches is Exact <==> r.content_matches.spec_count() <= CONTENT_MAX_MATCHES,
{
    let file_matches = Matched::of(files.len(), FILE_MAX_MATCHES);
    let content_matches = Matched::of(content.len(), CONTENT_MAX_MATCHES);
    SearchResult::new(elapsed_nanos, used_cache, files, file_matches, content, content_matches)
}

/// The entries to scan from the cache: those of the root's snapshot when the
/// cache is asked for and holds a populated snapshot; otherwise none, and the
/// file system is walked instead.
pub fn cached_entries(use_cache: bool, snapshot: Option<Arc<FileIndexTree>>) -> (r: Option<Arc<Vec<Entry>>>)
    ensures
        r is Some <==> (use_cache && (snapshot matches Some(t) && *t is List)),
        r matches Some(v) ==> (snapshot matches Some(t) && (*v)@ == t.spec_entries()),
{
    if !use_cache {
        return None;
    }
    match snapshot {
        Some(t) => t.entries(),
        None => None,
    }
}

} // verus!
