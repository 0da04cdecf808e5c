//! File-system paths, carried through as `PathBuf` values.

use std::path::PathBuf;
use vstd::prelude::*;

verus! {

/// `std::path::PathBuf`, carried through as a value that nothing here looks
/// into.
#[verifier::external_type_specification]
#[verifier::external_body]
pub struct ExPathBuf(PathBuf);

/// The path that `PathBuf::from` makes of a text.
pub uninterp spec fn path_of(text: Seq<char>) -> PathBuf;

/// The paths made of each text of `values`, in order.
pub open spec fn paths_of(values: Seq<Seq<char>>) -> Seq<PathBuf> {
    values.map_values(|v: Seq<char>| path_of(v))
}

/// Calls `PathBuf::from` on a string slice. The conversion copies the text
/// into a new path buffer and depends on nothing else, so the result is
/// named by the text alone.
#[verifier::external_body]
pub(crate) fn path_from(s: &str) -> (p: PathBuf)
    ensures
        p == path_of(s@),
{
    PathBuf::from(s)
}

/// One path for each of `values`, in order.
pub fn paths_from(values: &Vec<String>) -> (r: Vec<PathBuf>)
    ensures
        r@ == paths_of(values.deep_view()),
{
    let mut r: Vec<PathBuf> = Vec::new();
    let mut i: usize = 0;
    while i < values.len()
        invariant
            i <= values.len(),
            r@ == paths_of(values.deep_view().take(i as int)),
        decreases values.len() - i,
    {
        let p = path_from(values[i].as_str());
        proof {
            let dv = values.deep_view();
            assert(dv.take(i + 1) == dv.take(i as int).push(values[i as int]@));
            assert(paths_of(dv.take(i + 1)) == paths_of(dv.take(i as int)).push(path_of(values[i as int]@)));
        }
        r.push(p);
        i += 1;
    }
    proof {
        assert(values.deep_view().take(values.len() as int) == values.deep_view());
    }
    r
}

} // verus!
