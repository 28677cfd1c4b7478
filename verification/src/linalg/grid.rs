//! The spec-level reading of a vector of scalar rows as a grid of raw
//! integers, with the pointwise facts that matrix proofs lean on.

use vstd::prelude::*;

use crate::fixed::Fx;

verus! {

/// The raw entries of a grid of scalars, for specifications.
pub open spec fn grid(v: Seq<Vec<Fx>>) -> Seq<Seq<int>> {
    Seq::new(v.len(), |i: int| Seq::new(v[i]@.len(), |j: int| (v[i]@[j]).raw as int))
}

pub broadcast proof fn lemma_grid_len(v: Seq<Vec<Fx>>)
    ensures
        (#[trigger] grid(v)).len() == v.len(),
{
}

pub broadcast proof fn lemma_grid_row_len(v: Seq<Vec<Fx>>, p: int)
    requires
        0 <= p < v.len(),
    ensures
        (#[trigger] grid(v)[p]).len() == v[p]@.len(),
{
    assert(grid(v)[p] == Seq::new(v[p]@.len(), |j: int| (v[p]@[j]).raw as int));
}

pub broadcast proof fn lemma_grid_entry(v: Seq<Vec<Fx>>, p: int, q: int)
    requires
        0 <= p < v.len(),
        0 <= q < v[p]@.len(),
    ensures
        #[trigger] grid(v)[p][q] == (v[p]@[q]).raw as int,
{
    assert(grid(v)[p] == Seq::new(v[p]@.len(), |j: int| (v[p]@[j]).raw as int));
}

} // verus!
