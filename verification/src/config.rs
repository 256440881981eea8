//! The settings a run works from, assumed already loaded.

use vstd::prelude::*;

use crate::extensions::ExtensionSet;
use crate::subreddit::Subreddit;

verus! {

/// Cap on simultaneous downloads within one subreddit when the
/// configuration names none.
pub fn default_concurrent_downloads() -> (n: usize)
    ensures
        n == 5,
{
    5
}

/// A run's settings: which subreddits to fetch, which extensions to accept,
/// where to write, and how many downloads may be in flight per subreddit.
pub struct Config {
    pub subreddits: Vec<Subreddit>,
    pub file_ext: ExtensionSet,
    pub download_path: String,
    pub concurrent_downloads: usize,
}

impl Config {
    /// A command-line value replaces the configured limit; absence keeps it.
    pub fn apply_concurrency_override(&mut self, requested: Option<usize>)
        ensures
            final(self).concurrent_downloads == match requested {
                Some(c) => c,
                None => old(self).concurrent_downloads,
            },
            final(self).subreddits == old(self).subreddits,
            final(self).file_ext == old(self).file_ext,
            final(self).download_path == old(self).download_path,
    {
        match requested {
            Some(c) => {
                self.concurrent_downloads = c;
            },
            None => {},
        }
    }

    /// The limit the admission gate runs under: the configured value, or
    /// the default where the configuration asks for none at all.
    pub fn download_limit(&self) -> (r: usize)
        ensures
            r == if self.concurrent_downloads == 0 {
                5usize
            } else {
                self.concurrent_downloads
            },
            r >= 1,
    {
        if self.concurrent_downloads == 0 {
            default_concurrent_downloads()
        } else {
            self.concurrent_downloads
        }
    }
}

} // verus!
