//! Shapes of search results: file hits, content lines, match groups and
//! counted totals.
use vstd::prelude::*;
use crate::ext::Extension;

verus! {

/// Number of leading bytes kept when a line is shortened.
pub const MAX_PREFIX_LENGTH: usize = 120;
/// Number of trailing bytes kept when a line is shortened.
pub const MAX_SUFFIX_LENGTH: usize = 17;
/// Longest line kept whole: prefix, suffix and the three bytes of "...".
pub const MAX_LENGTH: usize = 140;

/// A file whose name matches the pattern.
#[derive(Clone, Debug)]
pub struct FileItem {
    pub path: String,
    pub ext: Extension,
}

impl FileItem {
    /// Creates a file hit from its path and extension.
    pub fn new(path: String, ext: Extension) -> (r: Self)
        ensures
            r.path@ == path@,
            r.ext == ext,
    {
        FileItem { path, ext }
    }
}

/// Role of a line within a match group.
#[derive(Clone, Copy, Debug, PartialEq, Eq, Structural)]
pub enum ContentKind {
    Before,
    Match,
    After,
}

/// A line that is too long and has no known match range is shown as its
/// first `MAX_PREFIX_LENGTH` bytes, "..." and its last `MAX_SUFFIX_LENGTH` bytes.
pub open spec fn shortened(b: Seq<u8>) -> Seq<u8> {
    b.subrange(0, MAX_PREFIX_LENGTH as int) + seq![46u8, 46u8, 46u8]
        + b.subrange(b.len() - MAX_SUFFIX_LENGTH, b.len() as int)
}

/// The match range that a line keeps: only a match line keeps one, and only a
/// non-empty interval that lies within the line's bytes.
pub open spec fn kept_range(
    kind: ContentKind,
    len: int,
    start: Option<usize>,
    end: Option<usize>,
) -> Option<(usize, usize)> {
    if kind == ContentKind::Match && start is Some && end is Some && start->0 < end->0 && end->0 <= len {
        Some((start->0, end->0))
    } else {
        None
    }
}

/// Well-formedness of a line: a range lies within the bytes.
pub open spec fn range_ok(range: Option<(usize, usize)>, len: int) -> bool {
    match range {
        Some((s, e)) => s < e && e <= len,
        None => true,
    }
}

/// One line of a match group.
#[derive(Clone, Debug)]
pub struct ContentLine {
    pub kind: ContentKind,
    pub num: u64,
    pub bytes: Vec<u8>,
    pub range: Option<(usize, usize)>,
    pub truncated: bool,
}

impl ContentLine {
    /// True iff the match range lies within the bytes.
    pub open spec fn wf(&self) -> bool {
        range_ok(self.range, self.bytes@.len() as int)
    }

    /// Creates a line. A line longer than `MAX_LENGTH` is marked truncated; if
    /// it keeps no match range its bytes are shortened to `MAX_LENGTH`, else
    /// they are kept whole so that the range still points into them.
    pub fn new(
        kind: ContentKind,
        line_number: u64,
        bytes: &[u8],
        start: Option<usize>,
        end: Option<usize>,
    ) -> (r: Self)
        ensures
            r.kind == kind,
            r.num == line_number,
            r.range == kept_range(kind, bytes@.len() as int, start, end),
            r.truncated == (bytes@.len() > MAX_LENGTH),
            r.bytes@ == if bytes@.len() > MAX_LENGTH && r.range is None {
                shortened(bytes@)
            } else {
                bytes@
            },
            r.range is None && bytes@.len() > MAX_LENGTH ==> r.truncated && r.bytes@.len() == MAX_LENGTH,
            r.wf(),
    {
        let len = bytes.len();
        let range = match (start, end) {
            (Some(s), Some(e)) => {
                if kind == ContentKind::Match && s < e && e <= len {
                    Some((s, e))
                } else {
                    None
                }
            },
            _ => None,
        };
        let truncated = len > MAX_LENGTH;
        let mut out: Vec<u8> = Vec::new();
        if truncated && range.is_none() {
            copy_range(&mut out, bytes, 0, MAX_PREFIX_LENGTH);
            out.push(46u8);
            out.push(46u8);
            out.push(46u8);
            copy_range(&mut out, bytes, len - MAX_SUFFIX_LENGTH, len);
            assert(out@ =~= shortened(bytes@));
        } else {
            copy_range(&mut out, bytes, 0, len);
            assert(out@ =~= bytes@);
        }
        ContentLine { kind, num: line_number, bytes: out, range, truncated }
    }

    /// Creates a line that carries no match range.
    pub fn without_match(kind: ContentKind, line_number: u64, bytes: &[u8]) -> (r: Self)
        ensures
            r.kind == kind,
            r.num == line_number,
            r.range is None,
            r.truncated == (bytes@.len() > MAX_LENGTH),
            r.bytes@ == if bytes@.len() > MAX_LENGTH {
                shortened(bytes@)
            } else {
                bytes@
            },
            bytes@.len() > MAX_LENGTH ==> r.truncated && r.bytes@.len() == MAX_LENGTH,
            r.wf(),
    {
        ContentLine::new(kind, line_number, bytes, None, None)
    }
}

/// Appends `src[from..to]` to `dst`.
fn copy_range(dst: &mut Vec<u8>, src: &[u8], from: usize, to: usize)
    requires
        from <= to <= src@.len(),
    ensures
        final(dst)@ == old(dst)@ + src@.subrange(from as int, to as int),
{
    let mut i: usize = from;
    while i < to
        invariant
            from <= i <= to <= src@.len(),
            dst@ == old(dst)@ + src@.subrange(from as int, i as int),
        decreases to - i,
    {
        dst.push(src[i]);
        assert(src@.subrange(from as int, i + 1) == src@.subrange(from as int, i as int).push(src@[i as int]));
        i = i + 1;
    }
}

/// Line numbers strictly increase along `lines`.
pub open spec fn nums_increasing(lines: Seq<ContentLine>) -> bool {
    forall|i: int, j: int| 0 <= i < j < lines.len() ==> #[trigger] lines[i].num < #[trigger] lines[j].num
}

/// Some line of `lines` is a match line.
pub open spec fn has_match_line(lines: Seq<ContentLine>) -> bool {
    exists|i: int| 0 <= i < lines.len() && #[trigger] lines[i].kind == ContentKind::Match
}

/// A well-formed group: non-empty, at least one match line, line numbers
/// strictly increasing and at least 1, every range within its line.
pub open spec fn group_ok(lines: Seq<ContentLine>) -> bool {
    &&& lines.len() > 0
    &&& has_match_line(lines)
    &&& nums_increasing(lines)
    &&& forall|i: int| 0 <= i < lines.len() ==> #[trigger] lines[i].wf() && lines[i].num >= 1
}

/// Well-formed groups of one file, in file order: each group ends before the
/// next one starts.
pub open spec fn groups_ok(gs: Seq<ContentMatch>) -> bool {
    &&& forall|i: int| 0 <= i < gs.len() ==> group_ok(#[trigger] gs[i].lines@)
    &&& forall|i: int| 0 <= i < gs.len() - 1 ==> #[trigger] last_num(gs[i].lines@) < gs[i + 1].lines@[0].num
}

/// Line number of the last line of a group.
pub open spec fn last_num(lines: Seq<ContentLine>) -> u64 {
    lines.last().num
}

/// Lines that form a single match: context before, match lines, context after.
#[derive(Clone, Debug)]
pub struct ContentMatch {
    pub lines: Vec<ContentLine>,
}

impl ContentMatch {
    /// Creates a group from its lines.
    pub fn new(lines: Vec<ContentLine>) -> (r: Self)
        ensures
            r.lines@ == lines@,
    {
        ContentMatch { lines }
    }
}

/// A file whose content matches, with its groups in file order.
#[derive(Clone, Debug)]
pub struct ContentItem {
    pub path: String,
    pub ext: Extension,
    pub matches: Vec<ContentMatch>,
}

impl ContentItem {
    /// Creates a content hit.
    pub fn new(path: String, ext: Extension, matches: Vec<ContentMatch>) -> (r: Self)
        ensures
            r.path@ == path@,
            r.ext == ext,
            r.matches@ == matches@,
    {
        ContentItem { path, ext, matches }
    }
}

/// Within a well-formed group every line lies between its first and last line.
proof fn lemma_group_bounds(g: Seq<ContentLine>, a: int)
    requires
        group_ok(g),
        0 <= a < g.len(),
    ensures
        g[0].num <= g[a].num <= g[g.len() - 1].num,
        a > 0 ==> g[0].num < g[a].num,
        a < g.len() - 1 ==> g[a].num < g[g.len() - 1].num,
{
    if a > 0 {
        assert(g[0].num < g[a].num);
    }
    if a < g.len() - 1 {
        assert(g[a].num < g[g.len() - 1].num);
    }
}

/// The last line of group `i` comes before the first line of any later group.
proof fn lemma_groups_apart(gs: Seq<ContentMatch>, i: int, j: int)
    requires
        groups_ok(gs),
        0 <= i < j < gs.len(),
    ensures
        gs[i].lines@.last().num < gs[j].lines@[0].num,
    decreases j - i,
{
    if j > i + 1 {
        lemma_groups_apart(gs, i, j - 1);
        let g = gs[j - 1].lines@;
        assert(group_ok(g));
        lemma_group_bounds(g, g.len() - 1);
        assert(last_num(gs[j - 1].lines@) < gs[j].lines@[0].num);
    } else {
        assert(last_num(gs[i].lines@) < gs[i + 1].lines@[0].num);
    }
}

/// Every line that a file's content hit holds comes after the lines before
/// it: taken group by group, line by line, the line numbers strictly
/// increase, and every group holds a match line.
pub proof fn lemma_file_lines_increase(gs: Seq<ContentMatch>)
    requires
        groups_ok(gs),
    ensures
        forall|i: int| 0 <= i < gs.len() ==> has_match_line(#[trigger] gs[i].lines@),
        forall|i: int, a: int, j: int, b: int|
            0 <= i < gs.len() && 0 <= j < gs.len() && 0 <= a < gs[i].lines@.len()
                && 0 <= b < gs[j].lines@.len() && (i < j || (i == j && a < b))
                ==> #[trigger] gs[i].lines@[a].num < #[trigger] gs[j].lines@[b].num,
{
    assert forall|i: int| 0 <= i < gs.len() implies has_match_line(#[trigger] gs[i].lines@) by {
        assert(group_ok(gs[i].lines@));
    }
    assert forall|i: int, a: int, j: int, b: int|
        0 <= i < gs.len() && 0 <= j < gs.len() && 0 <= a < gs[i].lines@.len()
            && 0 <= b < gs[j].lines@.len() && (i < j || (i == j && a < b))
            implies #[trigger] gs[i].lines@[a].num < #[trigger] gs[j].lines@[b].num by {
        let gi = gs[i].lines@;
        let gj = gs[j].lines@;
        assert(group_ok(gi));
        assert(group_ok(gj));
        if i < j {
            lemma_groups_apart(gs, i, j);
            lemma_group_bounds(gi, a);
            lemma_group_bounds(gj, b);
        } else {
            assert(gi[a].num < gi[b].num);
        }
    }
}

/// Every match range of a file's content hit lies within its line, as a
/// non-empty interval.
pub proof fn lemma_ranges_within_lines(gs: Seq<ContentMatch>)
    requires
        groups_ok(gs),
    ensures
        forall|i: int, a: int| 0 <= i < gs.len() && 0 <= a < gs[i].lines@.len()
            ==> range_ok(#[trigger] gs[i].lines@[a].range, gs[i].lines@[a].bytes@.len() as int),
{
    assert forall|i: int, a: int| 0 <= i < gs.len() && 0 <= a < gs[i].lines@.len()
        implies range_ok(#[trigger] gs[i].lines@[a].range, gs[i].lines@[a].bytes@.len() as int) by {
        assert(group_ok(gs[i].lines@));
        assert(gs[i].lines@[a].wf());
    }
}

/// A count reported with a cap: `Exact(n)` when `n` is at most the cap,
/// `AtLeast(n)` when it exceeds it.
#[derive(Clone, Copy, Debug, PartialEq, Eq, Structural)]
pub enum Matched {
    Exact(usize),
    AtLeast(usize),
}

impl Matched {
    /// The count that is reported.
    pub open spec fn spec_count(self) -> usize {
        match self {
            Matched::Exact(n) => n,
            Matched::AtLeast(n) => n,
        }
    }

    /// Reports `n` against `cap`.
    pub fn of(n: usize, cap: usize) -> (r: Matched)
        ensures
            r.spec_count() == n,
            r is Exact <==> n <= cap,
    {
        if n <= cap {
            Matched::Exact(n)
        } else {
            Matched::AtLeast(n)
        }
    }

    /// The count that is reported.
    pub fn count(&self) -> (r: usize)
        ensures
            r == self.spec_count(),
    {
        match self {
            Matched::Exact(n) => *n,
            Matched::AtLeast(n) => *n,
        }
    }

    /// True iff the count is exact.
    pub fn is_exact(&self) -> (r: bool)
        ensures
            r == (*self is Exact),
    {
        match self {
            Matched::Exact(_) => true,
            Matched::AtLeast(_) => false,
        }
    }
}

/// Outcome of a search. The elapsed time is kept in nanoseconds.
#[derive(Clone, Debug)]
pub struct SearchResult {
    pub elapsed_nanos: u64,
    pub used_cache: bool,
    pub files: Vec<FileItem>,
    pub file_matches: Matched,
    pub content: Vec<ContentItem>,
    pub content_matches: Matched,
}

impl SearchResult {
    /// Creates a search result from its parts.
    pub fn new(
        elapsed_nanos: u64,
        used_cache: bool,
        files: Vec<FileItem>,
        file_matches: Matched,
        content: Vec<ContentItem>,
        content_matches: Matched,
    ) -> (r: Self)
        ensures
            r.elapsed_nanos == elapsed_nanos,
            r.used_cache == used_cache,
            r.files@ == files@,
            r.file_matches == file_matches,
            r.content@ == content@,
            r.content_matches == content_matches,
    {
        SearchResult { elapsed_nanos, used_cache, files, file_matches, content, content_matches }
    }
}

} // verus!
