use vstd::prelude::*;

use crate::text::{contains, contains_text};

verus! {

/// Some entry of `ignored` is a substring of `path`.
pub open spec fn ignored_by(path: Seq<char>, ignored: Seq<Seq<char>>) -> bool {
    exists|k: int| 0 <= k < ignored.len() && contains(path, ignored[k])
}

/// Whether some entry of `ignored_paths` stands in `path` as a substring.
/// The match is literal: it is neither a glob nor bound to path segments.
pub fn path_is_ignored(path: &str, ignored_paths: &Vec<String>) -> (r: bool)
    ensures
        r == ignored_by(path@, ignored_paths.deep_view()),
{
    let ghost ig = ignored_paths.deep_view();
    let mut k: usize = 0;
    while k < ignored_paths.len()
        invariant
            ig == ignored_paths.deep_view(),
            k <= ignored_paths@.len(),
            forall|j: int| 0 <= j < k ==> !contains(path@, ig[j]),
        decreases ignored_paths@.len() - k,
    {
        assert(ig[k as int] == ignored_paths@[k as int]@);
        if contains_text(path, ignored_paths[k].as_str()) {
            return true;
        }
        k = k + 1;
    }
    false
}

} // verus!
