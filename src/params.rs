//! Parameters of the requests that the service accepts.
use vstd::prelude::*;
use crate::ext::{ext_from_name, lowercased, trimmed, Extension};

verus! {

/// A search request.
#[derive(Clone, Debug)]
pub struct QueryParams {
    pub dir: String,
    pub pattern: String,
    pub use_regex: Option<bool>,
    pub use_cache: Option<bool>,
}

impl QueryParams {
    /// Root directory to search.
    pub fn dir(&self) -> (r: &str)
        ensures
            r@ == self.dir@,
    {
        self.dir.as_str()
    }

    /// Search pattern.
    pub fn pattern(&self) -> (r: &str)
        ensures
            r@ == self.pattern@,
    {
        self.pattern.as_str()
    }

    /// Whether the pattern is a regular expression; literal by default.
    pub fn use_regex(&self) -> (r: bool)
        ensures
            r == (self.use_regex == Some(true)),
    {
        match self.use_regex {
            Some(b) => b,
            None => false,
        }
    }

    /// Whether the cache is consulted; not by default.
    pub fn use_cache(&self) -> (r: bool)
        ensures
            r == (self.use_cache == Some(true)),
    {
        match self.use_cache {
            Some(b) => b,
            None => false,
        }
    }
}

/// A cache registration request.
#[derive(Clone, Debug)]
pub struct CacheParams {
    pub dir: String,
}

impl CacheParams {
    /// Root directory to cache.
    pub fn dir(&self) -> (r: &str)
        ensures
            r@ == self.dir@,
    {
        self.dir.as_str()
    }
}

/// A search request that names the extensions to search by content.
#[derive(Clone, Debug)]
pub struct Params {
    pub dir: String,
    pub pattern: String,
    pub extensions: Option<Vec<String>>,
}

impl Params {
    /// Root directory to search.
    pub fn dir(&self) -> (r: &str)
        ensures
            r@ == self.dir@,
    {
        self.dir.as_str()
    }

    /// Search pattern.
    pub fn pattern(&self) -> (r: &str)
        ensures
            r@ == self.pattern@,
    {
        self.pattern.as_str()
    }

    /// The named extensions, each parsed; none when none is named.
    pub fn extensions(&self) -> (r: Vec<Extension>)
        ensures
            self.extensions is None ==> r@.len() == 0,
            self.extensions matches Some(v) ==> r@.len() == v@.len() && forall|i: int| 0 <= i < v@.len()
                ==> #[trigger] r@[i] == ext_from_name(lowercased(trimmed(v@[i]@))),
    {
        let mut out: Vec<Extension> = Vec::new();
        match &self.extensions {
            None => {},
            Some(v) => {
                let mut i: usize = 0;
                while i < v.len()
                    invariant
                        0 <= i <= v@.len(),
                        out@.len() == i,
                        forall|j: int| 0 <= j < i ==> #[trigger] out@[j] == ext_from_name(lowercased(trimmed(v@[j]@))),
                    decreases v@.len() - i,
                {
                    out.push(Extension::parse(v[i].as_str()));
                    i = i + 1;
                }
            },
        }
        out
    }
}

} // verus!
