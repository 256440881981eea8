//! The set of file extensions the pipeline is allowed to download.

use vstd::prelude::*;

verus! {

/// Allowed extensions, loaded once from configuration and shared read-only.
///
/// Each entry pairs an extension (without the dot) with the configured flag;
/// the logic never reads the flag — presence of the key is what admits a URL.
pub struct ExtensionSet {
    pub entries: Vec<(String, bool)>,
}

impl ExtensionSet {
    /// Membership goes by the keys alone, whatever each flag says.
    pub open spec fn contains_key_spec(&self, e: Seq<char>) -> bool {
        exists|i: int| 0 <= i < self.entries@.len() && self.entries@[i].0@ == e
    }

    /// Whether `e` is one of the allowed extensions.
    pub fn contains_key(&self, e: &str) -> (r: bool)
        ensures
            r == self.contains_key_spec(e@),
    {
        let key = String::from_str(e);
        let mut i: usize = 0;
        while i < self.entries.len()
            invariant
                i <= self.entries@.len(),
                key@ == e@,
                forall|j: int| 0 <= j < i ==> self.entries@[j].0@ != e@,
            decreases self.entries@.len() - i,
        {
            if self.entries[i].0.eq(&key) {
                return true;
            }
            i = i + 1;
        }
        false
    }
}

} // verus!
