//! Finish kinds.
use vstd::prelude::*;

use crate::text::text_eq;

verus! {

/// Gloss level of a paint.
#[derive(Clone, Copy, Debug, PartialEq, Eq, Structural)]
pub enum Sheen {
    Matte,
    Satin,
    SemiGloss,
    Gloss,
}

/// The sheen a user-interface key names: `matte`, `satin`, `semi-gloss`
/// or `gloss`; anything else is satin.
pub open spec fn sheen_of_key(s: Seq<char>) -> Sheen {
    if s == "matte"@ {
        Sheen::Matte
    } else if s == "satin"@ {
        Sheen::Satin
    } else if s == "semi-gloss"@ {
        Sheen::SemiGloss
    } else if s == "gloss"@ {
        Sheen::Gloss
    } else {
        Sheen::Satin
    }
}

/// The sheen a user-interface key names (see `sheen_of_key`).
pub fn parse_sheen(s: &str) -> (r: Sheen)
    ensures
        r == sheen_of_key(s@),
{
    if text_eq(s, "matte") {
        Sheen::Matte
    } else if text_eq(s, "satin") {
        Sheen::Satin
    } else if text_eq(s, "semi-gloss") {
        Sheen::SemiGloss
    } else if text_eq(s, "gloss") {
        Sheen::Gloss
    } else {
        Sheen::Satin
    }
}

} // verus!
