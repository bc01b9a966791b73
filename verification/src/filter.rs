//! Which file extensions a scan looks at.

use vstd::prelude::*;
use crate::text::str_eq;

verus! {

/// Selects which file extensions are scanned.
///
/// A file is scanned only if its extension maps to a supported language *and*
/// passes this filter. An empty filter accepts every supported extension.
pub struct ExtFilter {
    /// If non-empty, only these extensions are scanned.
    pub included: Vec<String>,
    /// These extensions are never scanned; takes precedence over the inclusion list.
    pub excluded: Vec<String>,
}

/// Some string of `list` holds exactly the characters `ext`.
pub open spec fn lists(list: Seq<String>, ext: Seq<char>) -> bool {
    exists|i: int| 0 <= i < list.len() && #[trigger] list[i]@ == ext
}

impl ExtFilter {
    /// The filter that accepts every extension.
    pub fn new() -> (f: ExtFilter)
        ensures
            f.included@.len() == 0,
            f.excluded@.len() == 0,
    {
        ExtFilter { included: Vec::new(), excluded: Vec::new() }
    }

    /// What `accepts` decides: not excluded, and included or no inclusion list.
    pub open spec fn spec_accepts(&self, ext: Seq<char>) -> bool {
        &&& !lists(self.excluded@, ext)
        &&& (self.included@.len() == 0 || lists(self.included@, ext))
    }

    /// Whether this filter lets files with `extension` through.
    pub fn accepts(&self, extension: &str) -> (r: bool)
        ensures
            r == self.spec_accepts(extension@),
    {
        if list_has(&self.excluded, extension) {
            return false;
        }
        self.included.len() == 0 || list_has(&self.included, extension)
    }
}

impl Default for ExtFilter {
    /// The filter that accepts every extension.
    fn default() -> (f: ExtFilter)
        ensures
            f.included@.len() == 0,
            f.excluded@.len() == 0,
    {
        ExtFilter::new()
    }
}

/// Whether some string of `list` equals `ext`.
fn list_has(list: &Vec<String>, ext: &str) -> (r: bool)
    ensures
        r == lists(list@, ext@),
{
    let mut i: usize = 0;
    while i < list.len()
        invariant
            i <= list@.len(),
            forall|k: int| 0 <= k < i ==> list@[k]@ != ext@,
        decreases list@.len() - i,
    {
        if str_eq(list[i].as_str(), ext) {
            return true;
        }
        i += 1;
    }
    false
}

/// An extension on the exclusion list is never accepted, whatever the
/// inclusion list holds: exclusion takes precedence.
pub proof fn law_exclusion_wins(filter: &ExtFilter, ext: Seq<char>)
    requires
        lists(filter.excluded@, ext),
    ensures
        !filter.spec_accepts(ext),
{
}

/// A filter with no lists accepts every extension.
pub proof fn law_empty_filter_accepts_all(filter: &ExtFilter, ext: Seq<char>)
    requires
        filter.included@.len() == 0,
        filter.excluded@.len() == 0,
    ensures
        filter.spec_accepts(ext),
{
}

/// With an inclusion list, only its extensions are accepted.
pub proof fn law_inclusion_restricts(filter: &ExtFilter, ext: Seq<char>)
    requires
        filter.included@.len() > 0,
        filter.spec_accepts(ext),
    ensures
        lists(filter.included@, ext),
{
}

} // verus!
