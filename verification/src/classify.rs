//! Emergency classifier: case-sensitive substring containment of the
//! decoded body against each configured keyword, first match sufficing.
//! An empty keyword list never classifies anything as an emergency.

use vstd::prelude::*;
use crate::strutil::{chars_of, find_subslice_char, has_subseq};

verus! {

/// The character sequences of a list of keyword strings.
pub open spec fn keyword_views(ks: Seq<String>) -> Seq<Seq<char>> {
    ks.map_values(|s: String| s@)
}

/// Some keyword occurs in the body.
pub open spec fn matches_any(kws: Seq<Seq<char>>, body: Seq<char>) -> bool {
    exists|i: int| 0 <= i < kws.len() && has_subseq(body, #[trigger] kws[i])
}

/// Whether the body contains any configured keyword.
pub fn is_emergency(keywords: &Vec<String>, body: &str) -> (r: bool)
    ensures
        r == matches_any(keyword_views(keywords@), body@),
{
    let bodyc = chars_of(body);
    let n = keywords.len();
    let mut i: usize = 0;
    while i < n
        invariant
            i <= n,
            n == keywords@.len(),
            bodyc@ == body@,
            forall|k: int|
                0 <= k < i ==> !has_subseq(body@, #[trigger] keyword_views(keywords@)[k]),
        decreases n - i,
    {
        let kwc = chars_of(keywords[i].as_str());
        assert(kwc@ == keyword_views(keywords@)[i as int]);
        if find_subslice_char(bodyc.as_slice(), kwc.as_slice()) {
            return true;
        }
        i = i + 1;
    }
    false
}

} // verus!
