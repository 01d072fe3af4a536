//! Running independent work items on a pool of workers, results kept in order.
use vstd::prelude::*;

use rayon::iter::{IndexedParallelIterator, IntoParallelIterator, ParallelIterator};

verus! {

/// Relies on rayon's `into_par_iter` over `0..n`, `map` and `collect_into_vec`:
/// the output vector is cleared, then holds `f(i)` at position `i` for each `i`
/// below `n`, whatever order the workers ran in.
#[verifier::external_body]
pub(crate) fn par_map<T: Send, F: Fn(usize) -> T + Sync + Send>(n: usize, f: &F) -> (r: Vec<T>)
    requires
        forall|i: usize| i < n ==> f.requires((i,)),
    ensures
        r@.len() == n,
        forall|i: int| 0 <= i < n ==> f.ensures((i as usize,), #[trigger] r@[i]),
{
    let mut out: Vec<T> = Vec::new();
    (0..n).into_par_iter().map(f).collect_into_vec(&mut out);
    out
}

} // verus!
