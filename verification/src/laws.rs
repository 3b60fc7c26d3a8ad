use vstd::prelude::*;

use crate::text::views;

pub mod asking;
pub mod cloning;
pub mod commanding;
pub mod deploying;
pub mod entering;
pub mod flakes;
pub mod founding;
pub mod keeping;
pub mod networking;
pub mod reaching;
pub mod registering;
pub mod reporting;
pub mod running;
pub mod serving;
pub mod spelling;
pub mod starting;
pub mod writing;

verus! {

/// What a list of strings says, item by item.
pub proof fn lemma_views(v: Seq<String>)
    ensures
        views(v).len() == v.len(),
        forall|i: int| 0 <= i < v.len() ==> (#[trigger] v[i])@ == views(v)[i],
{
}

} // verus!
