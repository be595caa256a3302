//! Match assembly: turns the scanner's per-line events for one file into
//! ordered match groups.
use vstd::prelude::*;
use crate::error::{Error, ErrorKind};
use crate::ext::Extension;
use crate::matcher::{occurs_at, occurs_in, regex_first_match, Matcher};
use crate::result::{
    group_ok, groups_ok, has_match_line, kept_range, last_num, nums_increasing, shortened, ContentItem,
    ContentKind, ContentLine, ContentMatch, MAX_LENGTH,
};
use crate::search::CONTENT_MAX_MATCHES;

verus! {

/// Kind of a context line as the scanner reports it.
#[derive(Clone, Copy, Debug, PartialEq, Eq, Structural)]
pub enum ContextKind {
    Before,
    After,
    Other,
}

/// `l` is the line built from `bytes` with the given kind and number.
pub open spec fn line_from(l: ContentLine, kind: ContentKind, n: u64, bytes: Seq<u8>) -> bool {
    &&& l.kind == kind
    &&& l.num == n
    &&& l.truncated == (bytes.len() > MAX_LENGTH)
    &&& l.bytes@ == if bytes.len() > MAX_LENGTH && l.range is None {
        shortened(bytes)
    } else {
        bytes
    }
    &&& l.wf()
}

/// The range that a match line gets from a literal pattern `p`: its leftmost
/// occurrence, or none when `p` is empty or does not occur.
pub open spec fn literal_range_ok(p: Seq<u8>, b: Seq<u8>, r: Option<(usize, usize)>) -> bool {
    match r {
        Some((s, e)) => e == s + p.len() && occurs_at(p, b, s as int)
            && forall|j: int| 0 <= j < s ==> !occurs_at(p, b, j),
        None => p.len() == 0 || !occurs_in(p, b),
    }
}

/// `gs` is `old` with the pending lines closed as a new group; pending lines
/// that hold no match line are dropped.
pub open spec fn flushed(old: Seq<ContentMatch>, pending: Seq<ContentLine>, gs: Seq<ContentMatch>) -> bool {
    if pending.len() > 0 && has_match_line(pending) {
        gs.len() == old.len() + 1 && gs.drop_last() == old && gs.last().lines@ == pending
    } else {
        gs == old
    }
}

/// Collects the lines of one file into match groups.
pub struct Collector {
    pub path: String,
    pub ext: Extension,
    /// Lines of the group being built.
    pub lines: Vec<ContentLine>,
    /// Finished groups, in file order.
    pub matches: Vec<ContentMatch>,
    /// Number of the latest line taken, 0 before the first.
    pub last: u64,
}

impl Collector {
    /// Invariant: finished groups are well formed and ordered, the pending
    /// lines strictly increase, and everything taken ends at `last`.
    pub open spec fn wf(&self) -> bool {
        let p = self.lines@;
        let gs = self.matches@;
        &&& groups_ok(gs)
        &&& nums_increasing(p)
        &&& forall|i: int| 0 <= i < p.len() ==> #[trigger] p[i].wf() && p[i].num >= 1
        &&& p.len() > 0 ==> p.last().num == self.last
        &&& gs.len() > 0 ==> last_num(gs.last().lines@) <= self.last
        &&& p.len() > 0 && gs.len() > 0 ==> last_num(gs.last().lines@) < p[0].num
    }

    /// Creates a collector for the file at `path`.
    pub fn new(path: String, ext: Extension) -> (r: Self)
        ensures
            r.wf(),
            r.path@ == path@,
            r.ext == ext,
            r.lines@.len() == 0,
            r.matches@.len() == 0,
            r.last == 0,
    {
        Collector { path, ext, lines: Vec::new(), matches: Vec::new(), last: 0 }
    }

    /// Appends a line that comes after every line taken so far.
    fn take(&mut self, line: ContentLine)
        requires
            old(self).wf(),
            line.wf(),
            line.num > old(self).last,
        ensures
            final(self).wf(),
            final(self).lines@ == old(self).lines@.push(line),
            final(self).matches@ == old(self).matches@,
            final(self).last == line.num,
            final(self).path == old(self).path,
            final(self).ext == old(self).ext,
    {
        let ghost p = self.lines@;
        proof {
            if p.len() > 0 {
                assert forall|i: int| 0 <= i < p.len() implies #[trigger] p[i].num <= self.last by {
                    if i < p.len() - 1 {
                        assert(p[i].num < p[p.len() - 1].num);
                    }
                }
            }
        }
        let n = line.num;
        self.lines.push(line);
        self.last = n;
        proof {
            let q = self.lines@;
            assert forall|i: int, j: int| 0 <= i < j < q.len() implies #[trigger] q[i].num < #[trigger] q[j].num by {
                if j < p.len() {
                    assert(p[i].num < p[j].num);
                }
            }
            assert forall|i: int| 0 <= i < q.len() implies #[trigger] q[i].wf() && q[i].num >= 1 by {
                if i < p.len() {
                    assert(q[i] == p[i]);
                    assert(p[i].wf());
                }
            }
        }
    }

    /// Closes the pending lines as a group; lines without a match are dropped.
    fn flush_lines(&mut self)
        requires
            old(self).wf(),
        ensures
            final(self).wf(),
            final(self).lines@.len() == 0,
            flushed(old(self).matches@, old(self).lines@, final(self).matches@),
            final(self).last == old(self).last,
            final(self).path == old(self).path,
            final(self).ext == old(self).ext,
    {
        let mut pending: Vec<ContentLine> = Vec::new();
        std::mem::swap(&mut pending, &mut self.lines);
        let mut found = false;
        let mut i: usize = 0;
        while i < pending.len()
            invariant
                0 <= i <= pending@.len(),
                found == exists|j: int| 0 <= j < i && #[trigger] pending@[j].kind == ContentKind::Match,
            decreases pending@.len() - i,
        {
            if pending[i].kind == ContentKind::Match {
                found = true;
            }
            i = i + 1;
        }
        if pending.len() > 0 && found {
            let ghost gs = self.matches@;
            let ghost p = pending@;
            self.matches.push(ContentMatch::new(pending));
            proof {
                let ns = self.matches@;
                assert(ns.drop_last() =~= gs);
                assert(group_ok(p));
                assert forall|k: int| 0 <= k < ns.len() implies group_ok(#[trigger] ns[k].lines@) by {
                    if k < gs.len() {
                        assert(ns[k] == gs[k]);
                    }
                }
                assert forall|k: int| 0 <= k < ns.len() - 1 implies #[trigger] last_num(ns[k].lines@) < ns[k + 1].lines@[0].num by {
                    if k < gs.len() - 1 {
                        assert(ns[k] == gs[k]);
                        assert(ns[k + 1] == gs[k + 1]);
                    } else {
                        assert(ns[k] == gs[k]);
                    }
                }
            }
        }
    }

    /// A match line. Without line numbers the file is refused; a line number
    /// that does not come after the previous line is refused too.
    pub fn matched(&mut self, matcher: &Matcher, line_number: Option<u64>, bytes: &[u8]) -> (r: Result<bool, Error>)
        requires
            old(self).wf(),
        ensures
            final(self).wf(),
            final(self).path == old(self).path,
            final(self).ext == old(self).ext,
            final(self).matches@ == old(self).matches@,
            line_number is None ==> (r matches Err(e) && e.kind == ErrorKind::LineNumbersDisabled),
            line_number matches Some(n) && n <= old(self).last ==> (r matches Err(e) && e.kind == ErrorKind::Internal),
            r is Err ==> final(self).lines@ == old(self).lines@ && final(self).last == old(self).last,
            line_number is Some && line_number->Some_0 > old(self).last ==> {
                &&& r == Ok::<bool, Error>(true)
                &&& final(self).lines@.len() == old(self).lines@.len() + 1
                &&& final(self).lines@.drop_last() == old(self).lines@
                &&& line_from(final(self).lines@.last(), ContentKind::Match, line_number->Some_0, bytes@)
                &&& matcher matches Matcher::Literal(d) ==> literal_range_ok(d.pattern@, bytes@, final(self).lines@.last().range)
                &&& matcher matches Matcher::Regex(c) ==> match regex_first_match(c.spec_pattern(), bytes@) {
                    Some((s, e)) => final(self).lines@.last().range == kept_range(ContentKind::Match, bytes@.len() as int, Some(s), Some(e)),
                    None => final(self).lines@.last().range is None,
                }
            },
    {
        match line_number {
            None => Err(Error::with_kind(ErrorKind::LineNumbersDisabled, "Line numbers are not enabled".to_owned())),
            Some(n) => {
                if n <= self.last {
                    return Err(Error::new("Line reported out of order".to_owned()));
                }
                let found = matcher.find(bytes);
                let line = match found {
                    Some((s, e)) => ContentLine::new(ContentKind::Match, n, bytes, Some(s), Some(e)),
                    None => ContentLine::new(ContentKind::Match, n, bytes, None, None),
                };
                let ghost old_lines = self.lines@;
                self.take(line);
                assert(self.lines@.drop_last() =~= old_lines);
                Ok(true)
            },
        }
    }

    /// A context line. Context lines of another kind than before or after
    /// pass through.
    pub fn context(&mut self, kind: ContextKind, line_number: Option<u64>, bytes: &[u8]) -> (r: Result<bool, Error>)
        requires
            old(self).wf(),
        ensures
            final(self).wf(),
            final(self).path == old(self).path,
            final(self).ext == old(self).ext,
            final(self).matches@ == old(self).matches@,
            line_number is None ==> (r matches Err(e) && e.kind == ErrorKind::LineNumbersDisabled),
            line_number is Some && kind == ContextKind::Other ==> r == Ok::<bool, Error>(true),
            line_number matches Some(n) && n <= old(self).last && kind != ContextKind::Other
                ==> (r matches Err(e) && e.kind == ErrorKind::Internal),
            !(line_number matches Some(n) && n > old(self).last && kind != ContextKind::Other)
                ==> final(self).lines@ == old(self).lines@ && final(self).last == old(self).last,
            line_number is Some && line_number->Some_0 > old(self).last && kind != ContextKind::Other ==> {
                &&& r == Ok::<bool, Error>(true)
                &&& final(self).lines@.len() == old(self).lines@.len() + 1
                &&& final(self).lines@.drop_last() == old(self).lines@
                &&& final(self).lines@.last().range is None
                &&& line_from(final(self).lines@.last(),
                    if kind == ContextKind::Before { ContentKind::Before } else { ContentKind::After },
                    line_number->Some_0, bytes@)
            },
    {
        match line_number {
            None => Err(Error::with_kind(ErrorKind::LineNumbersDisabled, "Line numbers are not enabled".to_owned())),
            Some(n) => {
                let content_kind = match kind {
                    ContextKind::Before => ContentKind::Before,
                    ContextKind::After => ContentKind::After,
                    ContextKind::Other => {
                        return Ok(true);
                    },
                };
                if n <= self.last {
                    return Err(Error::new("Line reported out of order".to_owned()));
                }
                let line = ContentLine::without_match(content_kind, n, bytes);
                let ghost old_lines = self.lines@;
                self.take(line);
                assert(self.lines@.drop_last() =~= old_lines);
                Ok(true)
            },
        }
    }

    /// The end of a context window. Once `content_count` exceeds the content
    /// cap the scan of this file stops (`false`); otherwise the pending lines
    /// are closed as a group.
    pub fn context_break(&mut self, content_count: usize) -> (r: bool)
        requires
            old(self).wf(),
        ensures
            final(self).wf(),
            final(self).path == old(self).path,
            final(self).ext == old(self).ext,
            final(self).last == old(self).last,
            r == (content_count <= CONTENT_MAX_MATCHES),
            !r ==> final(self).lines@ == old(self).lines@ && final(self).matches@ == old(self).matches@,
            r ==> final(self).lines@.len() == 0 && flushed(old(self).matches@, old(self).lines@, final(self).matches@),
    {
        if content_count > CONTENT_MAX_MATCHES {
            return false;
        }
        self.flush_lines();
        true
    }

    /// The end of the file: closes the pending lines and hands out the file's
    /// content hit, if it has any group. The groups are in file order.
    pub fn finish(&mut self) -> (r: Option<ContentItem>)
        requires
            old(self).wf(),
        ensures
            final(self).wf(),
            final(self).lines@.len() == 0,
            final(self).matches@.len() == 0,
            final(self).path == old(self).path,
            final(self).ext == old(self).ext,
            exists|gs: Seq<ContentMatch>| #[trigger] flushed(old(self).matches@, old(self).lines@, gs) && {
                &&& gs.len() == 0 ==> r is None
                &&& gs.len() > 0 ==> (r matches Some(item) && item.matches@ == gs && item.path@ == old(self).path@
                    && item.ext == old(self).ext)
            },
            r matches Some(item) ==> groups_ok(item.matches@),
    {
        self.flush_lines();
        let ghost gs = self.matches@;
        let mut matches: Vec<ContentMatch> = Vec::new();
        std::mem::swap(&mut matches, &mut self.matches);
        if matches.len() > 0 {
            let item = ContentItem::new(self.path.clone(), self.ext, matches);
            assert(flushed(old(self).matches@, old(self).lines@, gs));
            Some(item)
        } else {
            assert(flushed(old(self).matches@, old(self).lines@, gs));
            None
        }
    }
}

} // verus!
