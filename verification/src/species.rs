//! Wood species: workability, and looking species up by id or name.
use vstd::prelude::*;

use crate::text::text_eq;

verus! {

/// How easy a wood species is to work with hand and power tools.
#[derive(Clone, Copy, Debug, PartialEq, Eq, Structural)]
pub enum Workability {
    Easy,
    Moderate,
    Difficult,
}

/// What `str::to_lowercase` returns for a text.
pub uninterp spec fn lowercase(s: Seq<char>) -> Seq<char>;

/// Calls `str::to_lowercase`. Its result is Unicode's lower-case mapping of
/// each character, which takes Unicode's tables to state: here it is only
/// named, as `lowercase` of the text.
#[verifier::external_body]
fn to_lower(s: &str) -> (r: String)
    ensures
        r@ == lowercase(s@),
{
    s.to_lowercase()
}

/// Position of the first species whose id is `id`, if any.
pub fn species_index_by_id(ids: &[&str], id: &str) -> (r: Option<usize>)
    ensures
        r matches Some(i) ==> i < ids@.len() && ids@[i as int]@ == id@ && forall|j: int|
            0 <= j < i ==> (#[trigger] ids@[j])@ != id@,
        r is None ==> forall|j: int| 0 <= j < ids@.len() ==> (#[trigger] ids@[j])@ != id@,
{
    let mut i: usize = 0;
    while i < ids.len()
        invariant
            i <= ids@.len(),
            forall|j: int| 0 <= j < i ==> (#[trigger] ids@[j])@ != id@,
        decreases ids.len() - i,
    {
        if text_eq(ids[i], id) {
            return Some(i);
        }
        i = i + 1;
    }
    None
}

/// Position of the first species whose name equals `name` once both are
/// lower-cased, if any.
pub fn species_index_by_name(names: &[&str], name: &str) -> (r: Option<usize>)
    ensures
        r matches Some(i) ==> i < names@.len() && lowercase(names@[i as int]@) == lowercase(name@) && forall|j: int|
            0 <= j < i ==> lowercase((#[trigger] names@[j])@) != lowercase(name@),
        r is None ==> forall|j: int| 0 <= j < names@.len() ==> lowercase((#[trigger] names@[j])@) != lowercase(name@),
{
    let lower = to_lower(name);
    let mut i: usize = 0;
    while i < names.len()
        invariant
            i <= names@.len(),
            lower@ == lowercase(name@),
            forall|j: int| 0 <= j < i ==> lowercase((#[trigger] names@[j])@) != lowercase(name@),
        decreases names.len() - i,
    {
        let candidate = to_lower(names[i]);
        if text_eq(candidate.as_str(), lower.as_str()) {
            return Some(i);
        }
        i = i + 1;
    }
    None
}

} // verus!
