//! In-memory content cache: versioned snapshots of the files under each
//! registered root, with their bodies when they are large enough.
use vstd::prelude::*;
use vstd::rwlock::{RwLock, RwLockPredicate};
use std::sync::Arc;
use crate::error::Error;
use crate::ext::same_text;

verus! {

/// Smallest file, in bytes, whose body a snapshot keeps in memory.
pub const MIN_BYTES_TO_CACHE: u64 = 1024;
/// Seconds between two refreshes of the cache.
pub const CACHE_POLL_INTERVAL_SECS: u64 = 5;

/// True iff a file of `size` bytes has its body kept in a snapshot.
pub fn keeps_body(size: u64) -> (r: bool)
    ensures
        r == (size >= MIN_BYTES_TO_CACHE),
{
    size >= MIN_BYTES_TO_CACHE
}

/// The body of a file, kept in memory.
pub struct FileIndex {
    pub content: Vec<u8>,
}

impl FileIndex {
    /// Creates a file index that owns `content`.
    pub fn new(content: Vec<u8>) -> (r: Self)
        ensures
            r.content@ == content@,
    {
        FileIndex { content }
    }

    /// The kept body.
    pub fn content(&self) -> (r: &[u8])
        ensures
            r@ == self.content@,
    {
        self.content.as_slice()
    }
}

/// One entry of a snapshot: a file path and, maybe, its body.
pub type Entry = (String, Option<FileIndex>);

/// Memory held by one entry: its path, and its body with its overhead.
pub open spec fn entry_memory(e: Entry) -> nat {
    vstd::utf8::encode_utf8(e.0@).len() + match e.1 {
        Some(fi) => vstd::layout::size_of::<FileIndex>() + vstd::layout::size_of::<Vec<u8>>() + fi.content@.len(),
        None => 0,
    }
}

/// Memory held by a list of entries.
pub open spec fn entries_memory(s: Seq<Entry>) -> nat
    decreases s.len(),
{
    if s.len() == 0 {
        0
    } else {
        entries_memory(s.drop_last()) + entry_memory(s.last())
    }
}

/// Number of entries that keep a body.
pub open spec fn indexed_count(s: Seq<Entry>) -> nat
    decreases s.len(),
{
    if s.len() == 0 {
        0
    } else {
        indexed_count(s.drop_last()) + if s.last().1 is Some { 1nat } else { 0nat }
    }
}

/// `n` clamped to what a `usize` holds.
pub open spec fn clamp(n: nat) -> usize {
    if n <= usize::MAX {
        n as usize
    } else {
        usize::MAX
    }
}

/// Statistics of one snapshot.
#[derive(Clone, Copy, Debug)]
pub struct FileIndexTreeStatistics {
    pub txid: usize,
    pub memory_used: usize,
    pub num_entries: usize,
    pub num_indexed: usize,
}

impl FileIndexTreeStatistics {
    /// Creates statistics from their parts.
    pub fn new(txid: usize, memory_used: usize, num_entries: usize, num_indexed: usize) -> (r: Self)
        ensures
            r.txid == txid,
            r.memory_used == memory_used,
            r.num_entries == num_entries,
            r.num_indexed == num_indexed,
    {
        FileIndexTreeStatistics { txid, memory_used, num_entries, num_indexed }
    }
}

/// The sequence of snapshot versions of a cache. Versions are handed out in
/// strictly increasing order, one per snapshot made.
pub struct TxidSeq {
    next: usize,
}

impl TxidSeq {
    /// The version that the next snapshot gets.
    pub closed spec fn spec_next(&self) -> usize {
        self.next
    }

    /// A sequence that starts at version 0.
    pub(crate) fn new() -> (r: Self)
        ensures
            r.spec_next() == 0,
    {
        TxidSeq { next: 0 }
    }

    /// The version that the next snapshot gets.
    pub fn peek(&self) -> (r: usize)
        ensures
            r == self.spec_next(),
    {
        self.next
    }

    /// Takes the next version; fails once the versions are used up.
    fn take(&mut self) -> (r: Result<usize, Error>)
        ensures
            old(self).spec_next() < usize::MAX ==> r == Ok::<usize, Error>(old(self).spec_next())
                && final(self).spec_next() == old(self).spec_next() + 1,
            old(self).spec_next() == usize::MAX ==> r is Err && final(self).spec_next() == old(self).spec_next(),
    {
        if self.next == usize::MAX {
            return Err(Error::new("Snapshot versions are used up".to_owned()));
        }
        let t = self.next;
        self.next = t + 1;
        Ok(t)
    }
}

/// The outcome of making a snapshot from `seq`: on success it gets the
/// sequence's next version and the sequence moves on by one; the sequence
/// fails only when its versions are used up.
pub open spec fn made_from(old_seq: TxidSeq, new_seq: TxidSeq, r: Result<FileIndexTree, Error>) -> bool {
    if old_seq.spec_next() < usize::MAX {
        r matches Ok(t) && t.spec_txid() == old_seq.spec_next() && new_seq.spec_next() == old_seq.spec_next() + 1
    } else {
        r is Err && new_seq.spec_next() == old_seq.spec_next()
    }
}

/// Of two snapshots made one after the other from the same sequence, the
/// later one has the higher version.
pub proof fn lemma_later_snapshot_higher(
    s0: TxidSeq,
    s1: TxidSeq,
    r1: Result<FileIndexTree, Error>,
    s2: TxidSeq,
    r2: Result<FileIndexTree, Error>,
)
    requires
        made_from(s0, s1, r1),
        made_from(s1, s2, r2),
        r1 is Ok,
        r2 is Ok,
    ensures
        r1->Ok_0.spec_txid() < r2->Ok_0.spec_txid(),
{
}

/// A versioned, immutable snapshot of the files under a root. `Null` marks a
/// root that is registered and not yet populated.
pub enum FileIndexTree {
    Null(usize),
    List(usize, Arc<Vec<Entry>>),
}

impl FileIndexTree {
    /// Version of the snapshot.
    pub open spec fn spec_txid(&self) -> usize {
        match self {
            FileIndexTree::Null(t) => *t,
            FileIndexTree::List(t, _) => *t,
        }
    }

    /// Entries of the snapshot; none for `Null`.
    pub open spec fn spec_entries(&self) -> Seq<Entry> {
        match self {
            FileIndexTree::Null(_) => Seq::empty(),
            FileIndexTree::List(_, v) => (**v)@,
        }
    }

    /// Memory held by the snapshot.
    pub open spec fn spec_memory(&self) -> nat {
        vstd::layout::size_of::<FileIndexTree>() + entries_memory(self.spec_entries())
    }

    /// Creates a snapshot holding `info`, with the next version of `seq`.
    pub fn new(seq: &mut TxidSeq, info: Vec<Entry>) -> (r: Result<Self, Error>)
        ensures
            made_from(*old(seq), *final(seq), r),
            r matches Ok(t) ==> (t is List && t.spec_entries() == info@),
    {
        let txid = seq.take()?;
        Ok(FileIndexTree::List(txid, Arc::new(info)))
    }

    /// Creates an empty snapshot, with the next version of `seq`.
    pub fn null(seq: &mut TxidSeq) -> (r: Result<Self, Error>)
        ensures
            made_from(*old(seq), *final(seq), r),
            r matches Ok(t) ==> t is Null,
    {
        let txid = seq.take()?;
        Ok(FileIndexTree::Null(txid))
    }

    /// True iff the snapshot holds no entry.
    pub fn is_empty(&self) -> (r: bool)
        ensures
            r == (self.spec_entries().len() == 0),
    {
        match self {
            FileIndexTree::Null(_) => true,
            FileIndexTree::List(_, v) => v.len() == 0,
        }
    }

    /// Version of the snapshot.
    pub fn txid(&self) -> (r: usize)
        ensures
            r == self.spec_txid(),
    {
        match self {
            FileIndexTree::Null(t) => *t,
            FileIndexTree::List(t, _) => *t,
        }
    }

    /// Shared handle on the entries; none for `Null`.
    pub fn entries(&self) -> (r: Option<Arc<Vec<Entry>>>)
        ensures
            self is Null ==> r is None,
            self is List ==> (r matches Some(v) && (*v)@ == self.spec_entries()),
    {
        match self {
            FileIndexTree::Null(_) => None,
            FileIndexTree::List(_, v) => Some(Arc::clone(v)),
        }
    }

    /// Statistics of the snapshot. Memory is the size of the snapshot, of
    /// each path and of each kept body with its overhead, clamped to `usize`.
    pub fn stats(&self) -> (r: FileIndexTreeStatistics)
        ensures
            r.txid == self.spec_txid(),
            r.num_entries == self.spec_entries().len(),
            r.num_indexed == indexed_count(self.spec_entries()),
            r.memory_used == clamp(self.spec_memory()),
    {
        let base = std::mem::size_of::<FileIndexTree>();
        match self {
            FileIndexTree::Null(t) => {
                FileIndexTreeStatistics::new(*t, base, 0, 0)
            },
            FileIndexTree::List(t, v) => {
                let s: &Vec<Entry> = &**v;
                let mut memory: usize = base;
                let mut indexed: usize = 0;
                let mut i: usize = 0;
                while i < s.len()
                    invariant
                        0 <= i <= s@.len(),
                        base == vstd::layout::size_of::<FileIndexTree>(),
                        memory == clamp(base as nat + entries_memory(s@.subrange(0, i as int))),
                        indexed == indexed_count(s@.subrange(0, i as int)),
                        indexed <= i,
                    decreases s@.len() - i,
                {
                    let ghost prev = s@.subrange(0, i as int);
                    let ghost next = s@.subrange(0, i + 1);
                    assert(next.drop_last() == prev);
                    let ghost e = s@[i as int];
                    assert(next.last() == e);
                    let ghost total: nat = base as nat + entries_memory(prev);
                    let key_len = s[i].0.as_str().as_bytes().len();
                    assert(key_len == vstd::utf8::encode_utf8(e.0@).len());
                    memory = memory.saturating_add(key_len);
                    assert(memory == clamp(total + key_len as nat));
                    match &s[i].1 {
                        Some(fi) => {
                            let a = std::mem::size_of::<FileIndex>();
                            let b = std::mem::size_of::<Vec<u8>>();
                            let c = fi.content.len();
                            memory = memory.saturating_add(a);
                            assert(memory == clamp(total + key_len as nat + a as nat));
                            memory = memory.saturating_add(b);
                            assert(memory == clamp(total + key_len as nat + a as nat + b as nat));
                            memory = memory.saturating_add(c);
                            assert(memory == clamp(total + key_len as nat + a as nat + b as nat + c as nat));
                            indexed = indexed + 1;
                        },
                        None => {},
                    }
                    i = i + 1;
                }
                assert(s@.subrange(0, s@.len() as int) == s@);
                FileIndexTreeStatistics::new(*t, memory, s.len(), indexed)
            },
        }
    }
}

/// One cached root: its path and its current snapshot.
pub type Slot = (String, Arc<FileIndexTree>);

/// No two slots share a path.
pub open spec fn keys_unique(s: Seq<Slot>) -> bool {
    forall|i: int, j: int| 0 <= i < s.len() && 0 <= j < s.len() && i != j ==> #[trigger] s[i].0@ != #[trigger] s[j].0@
}

/// Some slot has path `k`.
pub open spec fn has_key(s: Seq<Slot>, k: Seq<char>) -> bool {
    exists|i: int| 0 <= i < s.len() && #[trigger] s[i].0@ == k
}

/// The map from each cached root to its snapshot.
pub open spec fn slots_view(s: Seq<Slot>) -> Map<Seq<char>, FileIndexTree> {
    Map::new(
        |k: Seq<char>| has_key(s, k),
        |k: Seq<char>| *s[choose|i: int| 0 <= i < s.len() && #[trigger] s[i].0@ == k].1,
    )
}

/// Installed versions never go down: every root of `a` is in `b`, with a
/// version at least as high.
pub open spec fn txids_monotone(a: Map<Seq<char>, FileIndexTree>, b: Map<Seq<char>, FileIndexTree>) -> bool {
    forall|k: Seq<char>| #[trigger] a.contains_key(k) ==> b.contains_key(k) && a[k].spec_txid() <= b[k].spec_txid()
}

/// The effect of a write of `t` for root `k`: it is installed unless the
/// resident snapshot has a version at least as high.
pub open spec fn upserted(a: Map<Seq<char>, FileIndexTree>, k: Seq<char>, t: FileIndexTree) -> Map<Seq<char>, FileIndexTree> {
    if a.contains_key(k) && a[k].spec_txid() >= t.spec_txid() {
        a
    } else {
        a.insert(k, t)
    }
}

/// The snapshot behind a shared handle.
pub open spec fn arc_tree(a: Arc<FileIndexTree>) -> FileIndexTree {
    *a
}

/// The snapshot of a slot.
pub open spec fn slot_tree(x: Slot) -> FileIndexTree {
    *x.1
}

/// The slot with path `s[i].0` is slot `i`.
proof fn lemma_slot_lookup(s: Seq<Slot>, i: int)
    requires
        keys_unique(s),
        0 <= i < s.len(),
    ensures
        slots_view(s).contains_key(s[i].0@),
        slots_view(s)[s[i].0@] == *s[i].1,
{
    let k = s[i].0@;
    assert(has_key(s, k));
    let j = choose|j: int| 0 <= j < s.len() && #[trigger] s[j].0@ == k;
    assert(j == i);
}

/// Replacing the snapshot of slot `i` updates the map at its path.
proof fn lemma_slot_update(s: Seq<Slot>, i: int, x: Slot)
    requires
        keys_unique(s),
        0 <= i < s.len(),
        x.0@ == s[i].0@,
    ensures
        keys_unique(s.update(i, x)),
        slots_view(s.update(i, x)) == slots_view(s).insert(x.0@, *x.1),
{
    let t = s.update(i, x);
    assert forall|a: int, b: int| 0 <= a < t.len() && 0 <= b < t.len() && a != b implies #[trigger] t[a].0@ != #[trigger] t[b].0@ by {
        assert(s[a].0@ != s[b].0@);
    }
    let m1 = slots_view(t);
    let m2 = slots_view(s).insert(x.0@, slot_tree(x));
    assert forall|k: Seq<char>| m1.contains_key(k) <==> m2.contains_key(k) by {
        if has_key(s, k) {
            let j = choose|j: int| 0 <= j < s.len() && #[trigger] s[j].0@ == k;
            assert(t[j].0@ == k);
        }
        if has_key(t, k) {
            let j = choose|j: int| 0 <= j < t.len() && #[trigger] t[j].0@ == k;
            assert(s[j].0@ == k);
        }
    }
    assert forall|k: Seq<char>| m1.contains_key(k) implies m1[k] == m2[k] by {
        let j = choose|j: int| 0 <= j < t.len() && #[trigger] t[j].0@ == k;
        lemma_slot_lookup(t, j);
        if j != i {
            lemma_slot_lookup(s, j);
        }
    }
    assert(m1 =~= m2);
}

/// Appending a slot with a new path adds it to the map.
proof fn lemma_slot_push(s: Seq<Slot>, x: Slot)
    requires
        keys_unique(s),
        !has_key(s, x.0@),
    ensures
        keys_unique(s.push(x)),
        slots_view(s.push(x)) == slots_view(s).insert(x.0@, *x.1),
{
    let t = s.push(x);
    assert forall|a: int, b: int| 0 <= a < t.len() && 0 <= b < t.len() && a != b implies #[trigger] t[a].0@ != #[trigger] t[b].0@ by {
        if a < s.len() && b < s.len() {
            assert(s[a].0@ != s[b].0@);
        } else if a < s.len() {
            assert(t[a].0@ == s[a].0@);
        } else {
            assert(t[b].0@ == s[b].0@);
        }
    }
    let m1 = slots_view(t);
    let m2 = slots_view(s).insert(x.0@, slot_tree(x));
    assert forall|k: Seq<char>| m1.contains_key(k) <==> m2.contains_key(k) by {
        if has_key(s, k) {
            let j = choose|j: int| 0 <= j < s.len() && #[trigger] s[j].0@ == k;
            assert(t[j].0@ == k);
        }
        if k == x.0@ {
            assert(t[s.len() as int].0@ == k);
        }
        if has_key(t, k) {
            let j = choose|j: int| 0 <= j < t.len() && #[trigger] t[j].0@ == k;
            if j < s.len() {
                assert(s[j].0@ == k);
            }
        }
    }
    assert forall|k: Seq<char>| m1.contains_key(k) implies m1[k] == m2[k] by {
        let j = choose|j: int| 0 <= j < t.len() && #[trigger] t[j].0@ == k;
        lemma_slot_lookup(t, j);
        if j < s.len() {
            assert(t[j] == s[j]);
            lemma_slot_lookup(s, j);
        }
    }
    assert(m1 =~= m2);
}

/// Statistics of the whole cache.
#[derive(Clone, Debug)]
pub struct CacheStatistics {
    pub memory_used: usize,
    pub trees: Vec<FileIndexTreeStatistics>,
}

impl CacheStatistics {
    /// Creates cache statistics from their parts.
    pub fn new(memory_used: usize, trees: Vec<FileIndexTreeStatistics>) -> (r: Self)
        ensures
            r.memory_used == memory_used,
            r.trees@ == trees@,
    {
        CacheStatistics { memory_used, trees }
    }
}

/// Cache of snapshots by root path. A snapshot is replaced only by one of a
/// strictly higher version.
pub struct Cache {
    /// Snapshot of each root.
    pub index: Vec<Slot>,
    /// Versions of the snapshots made for this cache.
    pub seq: TxidSeq,
}

impl Cache {
    /// Invariant: at most one snapshot per root, and every resident snapshot
    /// has a version below the sequence's next one.
    pub open spec fn wf(&self) -> bool {
        &&& keys_unique(self.index@)
        &&& forall|k: Seq<char>| #[trigger] self.view().contains_key(k) ==> self.view()[k].spec_txid() < self.seq.spec_next()
    }

    /// The snapshot of each cached root.
    pub open spec fn view(&self) -> Map<Seq<char>, FileIndexTree> {
        slots_view(self.index@)
    }

    /// Creates an empty cache.
    pub fn new() -> (r: Self)
        ensures
            r.wf(),
            r.view() == Map::<Seq<char>, FileIndexTree>::empty(),
            r.seq.spec_next() == 0,
    {
        let r = Cache { index: Vec::new(), seq: TxidSeq::new() };
        assert(r.view() =~= Map::<Seq<char>, FileIndexTree>::empty());
        r
    }

    /// Position of the slot for `path`, if any.
    fn find_slot(&self, path: &str) -> (r: Option<usize>)
        requires
            self.wf(),
        ensures
            r matches Some(i) ==> i < self.index@.len() && self.index@[i as int].0@ == path@,
            r is None ==> !has_key(self.index@, path@),
    {
        let mut i: usize = 0;
        while i < self.index.len()
            invariant
                0 <= i <= self.index@.len(),
                forall|j: int| 0 <= j < i ==> #[trigger] self.index@[j].0@ != path@,
            decreases self.index@.len() - i,
        {
            if same_text(self.index[i].0.as_str(), path) {
                return Some(i);
            }
            i = i + 1;
        }
        None
    }

    /// Writes a snapshot for `path`: it is installed unless the resident one
    /// has a version at least as high. Returns whether it was installed.
    pub fn upsert_index(&mut self, path: &str, idx: Arc<FileIndexTree>) -> (r: bool)
        requires
            old(self).wf(),
            idx.spec_txid() < old(self).seq.spec_next(),
        ensures
            final(self).wf(),
            final(self).seq == old(self).seq,
            final(self).view() == upserted(old(self).view(), path@, *idx),
            r == !(old(self).view().contains_key(path@) && old(self).view()[path@].spec_txid() >= idx.spec_txid()),
            txids_monotone(old(self).view(), final(self).view()),
    {
        let ghost s = self.index@;
        let ghost before = *self;
        let ghost tv = arc_tree(idx);
        match self.find_slot(path) {
            Some(i) => {
                proof { lemma_slot_lookup(s, i as int); }
                if self.index[i].1.txid() >= idx.txid() {
                    return false;
                }
                let key = self.index[i].0.clone();
                let ghost x: Slot = (key, idx);
                proof { lemma_slot_update(s, i as int, x); }
                self.index.set(i, (key, idx));
                assert(self.index@ == s.update(i as int, x));
                proof { lemma_installed_below(before, *self, path@, tv); }
                true
            },
            None => {
                let key = path.to_owned();
                proof { lemma_slot_push(s, (key, idx)); }
                self.index.push((key, idx));
                proof { lemma_installed_below(before, *self, path@, tv); }
                true
            },
        }
    }

    /// Registers `path`: an empty snapshot is installed if the root is not
    /// cached yet; a cached root is left as it is.
    pub fn add_index(&mut self, path: &str) -> (r: Result<(), Error>)
        requires
            old(self).wf(),
        ensures
            final(self).wf(),
            registered(*old(self), path@, *final(self), r is Ok),
            txids_monotone(old(self).view(), final(self).view()),
    {
        match self.find_slot(path) {
            Some(_) => Ok(()),
            None => {
                let ghost before = *self;
                let t = FileIndexTree::null(&mut self.seq)?;
                proof { lemma_seq_advanced(before, *self); }
                self.upsert_index(path, Arc::new(t));
                Ok(())
            },
        }
    }

    /// The snapshot of `path`, if the root is cached.
    pub fn get_index(&self, path: &str) -> (r: Option<Arc<FileIndexTree>>)
        requires
            self.wf(),
        ensures
            r is Some <==> self.view().contains_key(path@),
            r matches Some(t) ==> *t == self.view()[path@],
    {
        match self.find_slot(path) {
            Some(i) => {
                proof { lemma_slot_lookup(self.index@, i as int); }
                Some(Arc::clone(&self.index[i].1))
            },
            None => None,
        }
    }

    /// True iff `path` is cached.
    pub fn contains(&self, path: &str) -> (r: bool)
        requires
            self.wf(),
        ensures
            r == self.view().contains_key(path@),
    {
        match self.find_slot(path) {
            Some(i) => {
                proof { lemma_slot_lookup(self.index@, i as int); }
                true
            },
            None => false,
        }
    }

    /// Empties the snapshot of `path` by writing an empty one of a fresh,
    /// higher version.
    pub fn remove_index(&mut self, path: &str) -> (r: Result<(), Error>)
        requires
            old(self).wf(),
        ensures
            final(self).wf(),
            r is Ok <==> old(self).seq.spec_next() < usize::MAX,
            r is Ok ==> final(self).view() == old(self).view().insert(path@, FileIndexTree::Null(old(self).seq.spec_next())),
            r is Ok && old(self).view().contains_key(path@) ==> old(self).view()[path@].spec_txid() < final(self).view()[path@].spec_txid(),
            r is Err ==> final(self).view() == old(self).view(),
            txids_monotone(old(self).view(), final(self).view()),
    {
        let ghost before = *self;
        let t = FileIndexTree::null(&mut self.seq)?;
        proof { lemma_seq_advanced(before, *self); }
        self.upsert_index(path, Arc::new(t));
        Ok(())
    }

    /// Makes a snapshot of `path` holding `info`, with the next version, and
    /// installs it. Fails only when the versions are used up.
    pub fn rebuild_index(&mut self, path: &str, info: Vec<Entry>) -> (r: Result<(), Error>)
        requires
            old(self).wf(),
        ensures
            final(self).wf(),
            r is Ok <==> old(self).seq.spec_next() < usize::MAX,
            r is Ok ==> final(self).view().contains_key(path@) && final(self).view()[path@] is List
                && final(self).view()[path@].spec_entries() == info@
                && final(self).view()[path@].spec_txid() == old(self).seq.spec_next()
                && final(self).view() == old(self).view().insert(path@, final(self).view()[path@]),
            r is Err ==> final(self).view() == old(self).view(),
            txids_monotone(old(self).view(), final(self).view()),
    {
        let ghost before = *self;
        let t = FileIndexTree::new(&mut self.seq, info)?;
        proof { lemma_seq_advanced(before, *self); }
        self.upsert_index(path, Arc::new(t));
        Ok(())
    }

    /// Paths of the cached roots.
    pub fn paths(&self) -> (r: Vec<String>)
        requires
            self.wf(),
        ensures
            forall|k: Seq<char>| self.view().contains_key(k) <==> exists|i: int| 0 <= i < r@.len() && #[trigger] r@[i]@ == k,
            r@.len() == self.view().dom().len(),
    {
        let mut paths: Vec<String> = Vec::new();
        let mut i: usize = 0;
        while i < self.index.len()
            invariant
                0 <= i <= self.index@.len(),
                paths@.len() == i,
                forall|j: int| 0 <= j < i ==> #[trigger] paths@[j]@ == self.index@[j].0@,
            decreases self.index@.len() - i,
        {
            paths.push(self.index[i].0.clone());
            i = i + 1;
        }
        proof {
            assert forall|k: Seq<char>| self.view().contains_key(k) <==> exists|i: int| 0 <= i < paths@.len() && #[trigger] paths@[i]@ == k by {
                if self.view().contains_key(k) {
                    let j = choose|j: int| 0 <= j < self.index@.len() && #[trigger] self.index@[j].0@ == k;
                    assert(paths@[j]@ == k);
                }
                if exists|i: int| 0 <= i < paths@.len() && #[trigger] paths@[i]@ == k {
                    let j = choose|j: int| 0 <= j < paths@.len() && #[trigger] paths@[j]@ == k;
                    assert(self.index@[j].0@ == k);
                }
            }
            lemma_dom_len(self.index@);
        }
        paths
    }
    /// Statistics of every snapshot, and the memory that the cache holds:
    /// the cache itself, each root's path and each snapshot, clamped to `usize`.
    pub fn stats(&self) -> (r: CacheStatistics)
        requires
            self.wf(),
        ensures
            r.trees@.len() == self.index@.len(),
            forall|i: int| 0 <= i < self.index@.len() ==> tree_stats_of(#[trigger] r.trees@[i], *self.index@[i].1),
            r.memory_used == clamp(vstd::layout::size_of::<Cache>() + slots_memory(self.index@)),
    {
        let base = std::mem::size_of::<Cache>();
        let mut memory: usize = base;
        let mut trees: Vec<FileIndexTreeStatistics> = Vec::new();
        let mut i: usize = 0;
        while i < self.index.len()
            invariant
                0 <= i <= self.index@.len(),
                base == vstd::layout::size_of::<Cache>(),
                trees@.len() == i,
                forall|j: int| 0 <= j < i ==> tree_stats_of(#[trigger] trees@[j], *self.index@[j].1),
                memory == clamp(base as nat + slots_memory(self.index@.subrange(0, i as int))),
            decreases self.index@.len() - i,
        {
            let ghost prev = self.index@.subrange(0, i as int);
            let ghost next = self.index@.subrange(0, i + 1);
            assert(next.drop_last() == prev);
            let ghost total: nat = base as nat + slots_memory(prev);
            let st = self.index[i].1.stats();
            let key_len = self.index[i].0.as_str().as_bytes().len();
            memory = memory.saturating_add(key_len);
            assert(memory == clamp(total + key_len as nat));
            let ghost tm = (*self.index@[i as int].1).spec_memory();
            proof {
                if tm > usize::MAX {
                    assert(st.memory_used == usize::MAX);
                }
            }
            if st.memory_used == usize::MAX {
                memory = usize::MAX;
            } else {
                memory = memory.saturating_add(st.memory_used);
            }
            assert(memory == clamp(total + key_len as nat + tm));
            trees.push(st);
            i = i + 1;
        }
        assert(self.index@.subrange(0, self.index@.len() as int) == self.index@);
        CacheStatistics::new(memory, trees)
    }
}

/// `st` describes snapshot `t`.
pub open spec fn tree_stats_of(st: FileIndexTreeStatistics, t: FileIndexTree) -> bool {
    &&& st.txid == t.spec_txid()
    &&& st.num_entries == t.spec_entries().len()
    &&& st.num_indexed == indexed_count(t.spec_entries())
    &&& st.memory_used == clamp(t.spec_memory())
}

/// Memory held by the slots: each path and each snapshot.
pub open spec fn slots_memory(s: Seq<Slot>) -> nat
    decreases s.len(),
{
    if s.len() == 0 {
        0
    } else {
        slots_memory(s.drop_last()) + vstd::utf8::encode_utf8(s.last().0@).len() + slot_tree(s.last()).spec_memory()
    }
}

/// Moving the sequence on keeps a cache well formed.
proof fn lemma_seq_advanced(a: Cache, b: Cache)
    requires
        a.wf(),
        b.index@ == a.index@,
        a.seq.spec_next() <= b.seq.spec_next(),
    ensures
        b.wf(),
        b.view() == a.view(),
{
    assert forall|k: Seq<char>| #[trigger] b.view().contains_key(k) implies b.view()[k].spec_txid() < b.seq.spec_next() by {
        assert(a.view().contains_key(k));
    }
}

/// Installing a snapshot below the sequence's next version keeps a cache
/// well formed.
proof fn lemma_installed_below(a: Cache, b: Cache, k: Seq<char>, t: FileIndexTree)
    requires
        a.wf(),
        keys_unique(b.index@),
        b.seq == a.seq,
        t.spec_txid() < a.seq.spec_next(),
        b.view() == a.view().insert(k, t),
    ensures
        b.wf(),
{
    assert forall|j: Seq<char>| #[trigger] b.view().contains_key(j) implies b.view()[j].spec_txid() < b.seq.spec_next() by {
        if j != k {
            assert(a.view().contains_key(j));
        }
    }
}

/// The effect of registering root `k`: a cached root is left as it is, with
/// the whole cache; otherwise, on success, an empty snapshot of the next
/// version is installed.
pub open spec fn registered(a: Cache, k: Seq<char>, b: Cache, ok: bool) -> bool {
    if a.view().contains_key(k) {
        ok && b.view() == a.view() && b.seq == a.seq
    } else if a.seq.spec_next() < usize::MAX {
        ok && b.view() == a.view().insert(k, FileIndexTree::Null(a.seq.spec_next()))
            && b.seq.spec_next() == a.seq.spec_next() + 1
    } else {
        !ok && b.view() == a.view() && b.seq.spec_next() == a.seq.spec_next()
    }
}

/// Registering a root twice leaves the cache as the first registration left
/// it.
pub proof fn lemma_register_idempotent(c0: Cache, k: Seq<char>, c1: Cache, ok1: bool, c2: Cache, ok2: bool)
    requires
        registered(c0, k, c1, ok1),
        registered(c1, k, c2, ok2),
        ok1,
    ensures
        ok2,
        c2.view() == c1.view(),
        c2.seq == c1.seq,
{
}

/// Monotonicity of versions composes: over two successive writes no root
/// disappears and no root's version goes down.
pub proof fn lemma_txids_monotone_trans(
    a: Map<Seq<char>, FileIndexTree>,
    b: Map<Seq<char>, FileIndexTree>,
    c: Map<Seq<char>, FileIndexTree>,
)
    requires
        txids_monotone(a, b),
        txids_monotone(b, c),
    ensures
        txids_monotone(a, c),
{
}

/// The map has as many roots as there are slots.
proof fn lemma_dom_len(s: Seq<Slot>)
    requires
        keys_unique(s),
    ensures
        slots_view(s).dom().len() == s.len(),
        slots_view(s).dom().finite(),
    decreases s.len(),
{
    if s.len() == 0 {
        assert(slots_view(s).dom() =~= Set::<Seq<char>>::empty());
    } else {
        let p = s.drop_last();
        assert(keys_unique(p));
        lemma_dom_len(p);
        assert(!has_key(p, s.last().0@)) by {
            if has_key(p, s.last().0@) {
                let j = choose|j: int| 0 <= j < p.len() && #[trigger] p[j].0@ == s.last().0@;
                assert(s[j].0@ == s[s.len() - 1].0@);
            }
        }
        lemma_slot_push(p, s.last());
        assert(p.push(s.last()) =~= s);
    }
}

/// The lock of a shared cache keeps a well-formed cache.
pub struct CacheInvariant;

impl RwLockPredicate<Cache> for CacheInvariant {
    open spec fn inv(self, v: Cache) -> bool {
        v.wf()
    }
}

/// A cache shared among threads: readers and writers take the lock for one
/// operation each.
pub type SharedCache = Arc<RwLock<Cache, CacheInvariant>>;

/// Creates an empty shared cache.
pub fn create_cache() -> (r: SharedCache)
    ensures
        r.pred() == CacheInvariant,
{
    Arc::new(RwLock::new(Cache::new(), Ghost(CacheInvariant)))
}

/// True iff `path` is cached at the time of the call.
pub fn contains_cache(cache: &SharedCache, path: &str) -> (r: Result<bool, Error>)
    ensures
        r is Ok,
{
    let handle = cache.acquire_read();
    let found = handle.borrow().contains(path);
    handle.release_read();
    Ok(found)
}

/// Statistics of the shared cache at the time of the call.
pub fn cache_stats(cache: &SharedCache) -> (r: Result<CacheStatistics, Error>)
    ensures
        r is Ok,
{
    let handle = cache.acquire_read();
    let stats = handle.borrow().stats();
    handle.release_read();
    Ok(stats)
}

/// Registers `path` in the shared cache (see `Cache::add_index`).
pub fn update_cache(cache: &SharedCache, path: &str) -> (r: Result<(), Error>) {
    let (mut c, handle) = cache.acquire_write();
    let r = c.add_index(path);
    handle.release_write(c);
    r
}

/// Paths of the roots of the shared cache at the time of the call.
pub fn cache_paths(cache: &SharedCache) -> (r: Vec<String>) {
    let handle = cache.acquire_read();
    let paths = handle.borrow().paths();
    handle.release_read();
    paths
}

/// The snapshot of `path` in the shared cache at the time of the call.
pub fn cache_get(cache: &SharedCache, path: &str) -> (r: Option<Arc<FileIndexTree>>) {
    let handle = cache.acquire_read();
    let tree = handle.borrow().get_index(path);
    handle.release_read();
    tree
}

/// Makes and installs a new snapshot of `path` in the shared cache (see
/// `Cache::rebuild_index`).
pub fn cache_rebuild(cache: &SharedCache, path: &str, info: Vec<Entry>) -> (r: Result<(), Error>) {
    let (mut c, handle) = cache.acquire_write();
    let r = c.rebuild_index(path, info);
    handle.release_write(c);
    r
}

} // verus!
