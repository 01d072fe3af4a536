//! The matcher over a spatial index: the index is built once from the reference
//! rows, then asked once for each query row.
//!
//! The index is handed in as `nearest(q)`, its answer for query row `q`: the
//! reference row it holds nearest, with the squared distance. How it finds that
//! row, and which of two equally near rows it gives, is its own affair.
use vstd::prelude::*;

use crate::aggregate::{locations_of, FromShapeIter, IndexAndDistance, LocationAndDistance};
use crate::parallel::par_map;
use crate::record::SingleIndexDistance;
use crate::table::Table;
use crate::validate::{check_shapes, shape_check, MatchError};

verus! {

/// `nearest` can be asked for every query row, and names a reference row each time.
pub open spec fn answerable<G: Fn(usize) -> SingleIndexDistance>(
    nearest: &G,
    n_query: nat,
    n_ref: nat,
) -> bool {
    &&& forall|q: usize| q < n_query ==> #[trigger] nearest.requires((q,))
    &&& forall|q: usize, rec: SingleIndexDistance| #[trigger] nearest.ensures((q,), rec) ==> rec.index < n_ref
}

/// What an index-based matcher in index form returns: the refusal of
/// [`shape_check`], or one entry per query row, in query order, each the index's
/// answer for that row.
pub open spec fn lookup_index_outcome<G: Fn(usize) -> SingleIndexDistance>(
    reference: &Table,
    query: &Table,
    nearest: &G,
    r: Result<IndexAndDistance, MatchError>,
) -> bool {
    match shape_check(reference, query) {
        Err(e) => r == Err::<IndexAndDistance, MatchError>(e),
        Ok(_) => match r {
            Ok(out) => {
                &&& out.index@.len() == query@.len()
                &&& out.distance@.len() == query@.len()
                &&& forall|q: int|
                    0 <= q < query@.len() ==> nearest.ensures(
                        (q as usize,),
                        SingleIndexDistance { index: #[trigger] out.index@[q], distance: out.distance@[q] },
                    )
            },
            Err(_) => false,
        },
    }
}

/// `point`, at squared distance `d`, is the reference row that `nearest`
/// answers for query row `q`.
pub open spec fn answered<G: Fn(usize) -> SingleIndexDistance>(
    nearest: &G,
    reference: &Table,
    q: usize,
    point: Seq<u64>,
    d: u64,
) -> bool {
    exists|i: usize|
        #[trigger] nearest.ensures((q,), SingleIndexDistance { index: i, distance: d })
            && point == reference@[i as int]
}

/// What an index-based matcher in location form returns: the refusal of
/// [`shape_check`], or one row per query row, in query order, each the
/// coordinates of the reference row that the index answers for that row.
pub open spec fn lookup_location_outcome<G: Fn(usize) -> SingleIndexDistance>(
    reference: &Table,
    query: &Table,
    nearest: &G,
    r: Result<LocationAndDistance, MatchError>,
) -> bool {
    match shape_check(reference, query) {
        Err(e) => r == Err::<LocationAndDistance, MatchError>(e),
        Ok(_) => match r {
            Ok(out) => {
                &&& out.location@.len() == query@.len()
                &&& out.location.width() == reference.width()
                &&& out.distance@.len() == query@.len()
                &&& forall|q: int|
                    0 <= q < query@.len() ==> answered(
                        nearest,
                        reference,
                        q as usize,
                        #[trigger] out.location@[q],
                        out.distance@[q],
                    )
            },
            Err(_) => false,
        },
    }
}

/// The index's answer for every query row, in query order, one after the other.
fn lookup_records<G: Fn(usize) -> SingleIndexDistance>(n_query: usize, nearest: &G) -> (r: Vec<
    SingleIndexDistance,
>)
    requires
        forall|q: usize| q < n_query ==> #[trigger] nearest.requires((q,)),
    ensures
        r@.len() == n_query,
        forall|q: int| 0 <= q < n_query ==> nearest.ensures((q as usize,), #[trigger] r@[q]),
{
    let mut records: Vec<SingleIndexDistance> = Vec::with_capacity(n_query);
    let mut q: usize = 0;
    while q < n_query
        invariant
            q <= n_query,
            records@.len() == q,
            forall|q: usize| q < n_query ==> #[trigger] nearest.requires((q,)),
            forall|k: int| 0 <= k < q ==> nearest.ensures((k as usize,), #[trigger] records@[k]),
        decreases n_query - q,
    {
        records.push(nearest(q));
        q = q + 1;
    }
    records
}

/// The index's answer for every query row, in query order, the rows shared out
/// among workers.
fn lookup_records_par<G: Fn(usize) -> SingleIndexDistance + Sync + Send>(
    n_query: usize,
    nearest: &G,
) -> (r: Vec<SingleIndexDistance>)
    requires
        forall|q: usize| q < n_query ==> #[trigger] nearest.requires((q,)),
    ensures
        r@.len() == n_query,
        forall|q: int| 0 <= q < n_query ==> nearest.ensures((q as usize,), #[trigger] r@[q]),
{
    par_map(n_query, nearest)
}

/// Matches each query row through the spatial index, by reference row index,
/// one query row after the other.
pub fn kd_tree_index<G: Fn(usize) -> SingleIndexDistance>(
    reference: &Table,
    query: &Table,
    nearest: &G,
) -> (r: Result<IndexAndDistance, MatchError>)
    requires
        answerable(nearest, query@.len(), reference@.len()),
    ensures
        lookup_index_outcome(reference, query, nearest, r),
{
    match check_shapes(reference, query) {
        Err(e) => Err(e),
        Ok(()) => {
            let records = lookup_records(query.nrows(), nearest);
            let ghost items = records@;
            let out = IndexAndDistance::from_shape_iter(records, (query.nrows(), query.ncols()));
            assert forall|q: int| 0 <= q < query@.len() implies nearest.ensures(
                (q as usize,),
                SingleIndexDistance { index: #[trigger] out.index@[q], distance: out.distance@[q] },
            ) by {
                assert(items[q] == SingleIndexDistance { index: out.index@[q], distance: out.distance@[q] });
            }
            Ok(out)
        },
    }
}

/// As [`kd_tree_index`], the query rows shared out among workers; the index is
/// only read.
pub fn kd_tree_index_par<G: Fn(usize) -> SingleIndexDistance + Sync + Send>(
    reference: &Table,
    query: &Table,
    nearest: &G,
) -> (r: Result<IndexAndDistance, MatchError>)
    requires
        answerable(nearest, query@.len(), reference@.len()),
    ensures
        lookup_index_outcome(reference, query, nearest, r),
{
    match check_shapes(reference, query) {
        Err(e) => Err(e),
        Ok(()) => {
            let records = lookup_records_par(query.nrows(), nearest);
            let ghost items = records@;
            let out = IndexAndDistance::from_shape_iter(records, (query.nrows(), query.ncols()));
            assert forall|q: int| 0 <= q < query@.len() implies nearest.ensures(
                (q as usize,),
                SingleIndexDistance { index: #[trigger] out.index@[q], distance: out.distance@[q] },
            ) by {
                assert(items[q] == SingleIndexDistance { index: out.index@[q], distance: out.distance@[q] });
            }
            Ok(out)
        },
    }
}

/// Matches each query row through the spatial index, by the reference row's
/// coordinates, one query row after the other.
pub fn kd_tree_location<G: Fn(usize) -> SingleIndexDistance>(
    reference: &Table,
    query: &Table,
    nearest: &G,
) -> (r: Result<LocationAndDistance, MatchError>)
    requires
        answerable(nearest, query@.len(), reference@.len()),
    ensures
        lookup_location_outcome(reference, query, nearest, r),
{
    match check_shapes(reference, query) {
        Err(e) => Err(e),
        Ok(()) => {
            let records = lookup_records(query.nrows(), nearest);
            let out = locations_of(&records, reference, query);
            assert forall|q: int| 0 <= q < query@.len() implies answered(
                nearest,
                reference,
                q as usize,
                #[trigger] out.location@[q],
                out.distance@[q],
            ) by {
                let i = records@[q].index;
                assert(out.location@[q] == reference@[i as int]);
                assert(nearest.ensures((q as usize,), records@[q]));
                assert(records@[q] == SingleIndexDistance { index: i, distance: out.distance@[q] });
            }
            Ok(out)
        },
    }
}

/// As [`kd_tree_location`], the query rows shared out among workers; the index
/// is only read.
pub fn kd_tree_location_par<G: Fn(usize) -> SingleIndexDistance + Sync + Send>(
    reference: &Table,
    query: &Table,
    nearest: &G,
) -> (r: Result<LocationAndDistance, MatchError>)
    requires
        answerable(nearest, query@.len(), reference@.len()),
    ensures
        lookup_location_outcome(reference, query, nearest, r),
{
    match check_shapes(reference, query) {
        Err(e) => Err(e),
        Ok(()) => {
            let records = lookup_records_par(query.nrows(), nearest);
            let out = locations_of(&records, reference, query);
            assert forall|q: int| 0 <= q < query@.len() implies answered(
                nearest,
                reference,
                q as usize,
                #[trigger] out.location@[q],
                out.distance@[q],
            ) by {
                let i = records@[q].index;
                assert(out.location@[q] == reference@[i as int]);
                assert(nearest.ensures((q as usize,), records@[q]));
                assert(records@[q] == SingleIndexDistance { index: i, distance: out.distance@[q] });
            }
            Ok(out)
        },
    }
}

/// `nearest` gives one answer for each query row: it is a function of the row.
pub open spec fn deterministic_lookup<G: Fn(usize) -> SingleIndexDistance>(nearest: &G) -> bool {
    forall|q: usize, r1: SingleIndexDistance, r2: SingleIndexDistance|
        #[trigger] nearest.ensures((q,), r1) && #[trigger] nearest.ensures((q,), r2) ==> r1 == r2
}

/// Serial and parallel matching through a deterministic spatial index agree
/// exactly, in index form.
pub proof fn lemma_lookup_index_modes_agree<G: Fn(usize) -> SingleIndexDistance>(
    reference: &Table,
    query: &Table,
    nearest: &G,
    serial: Result<IndexAndDistance, MatchError>,
    parallel: Result<IndexAndDistance, MatchError>,
)
    requires
        deterministic_lookup(nearest),
        lookup_index_outcome(reference, query, nearest, serial),
        lookup_index_outcome(reference, query, nearest, parallel),
    ensures
        match (serial, parallel) {
            (Ok(a), Ok(b)) => a.index@ == b.index@ && a.distance@ == b.distance@,
            (Err(e1), Err(e2)) => e1 == e2,
            _ => false,
        },
{
    if let (Ok(a), Ok(b)) = (serial, parallel) {
        assert forall|q: int| 0 <= q < query@.len() implies a.index@[q] == b.index@[q]
            && a.distance@[q] == b.distance@[q] by {
            let ra = SingleIndexDistance { index: a.index@[q], distance: a.distance@[q] };
            let rb = SingleIndexDistance { index: b.index@[q], distance: b.distance@[q] };
            assert(nearest.ensures((q as usize,), ra));
            assert(nearest.ensures((q as usize,), rb));
        }
        assert(a.index@ =~= b.index@);
        assert(a.distance@ =~= b.distance@);
    }
}

/// Serial and parallel matching through a deterministic spatial index agree
/// exactly, in location form.
pub proof fn lemma_lookup_location_modes_agree<G: Fn(usize) -> SingleIndexDistance>(
    reference: &Table,
    query: &Table,
    nearest: &G,
    serial: Result<LocationAndDistance, MatchError>,
    parallel: Result<LocationAndDistance, MatchError>,
)
    requires
        deterministic_lookup(nearest),
        lookup_location_outcome(reference, query, nearest, serial),
        lookup_location_outcome(reference, query, nearest, parallel),
    ensures
        match (serial, parallel) {
            (Ok(a), Ok(b)) => a.location@ == b.location@ && a.distance@ == b.distance@,
            (Err(e1), Err(e2)) => e1 == e2,
            _ => false,
        },
{
    if let (Ok(a), Ok(b)) = (serial, parallel) {
        assert forall|q: int| 0 <= q < query@.len() implies a.location@[q] == b.location@[q]
            && a.distance@[q] == b.distance@[q] by {
            assert(answered(nearest, reference, q as usize, a.location@[q], a.distance@[q]));
            assert(answered(nearest, reference, q as usize, b.location@[q], b.distance@[q]));
            let i1 = choose|i: usize|
                #[trigger] nearest.ensures(
                    (q as usize,),
                    SingleIndexDistance { index: i, distance: a.distance@[q] },
                ) && a.location@[q] == reference@[i as int];
            let i2 = choose|i: usize|
                #[trigger] nearest.ensures(
                    (q as usize,),
                    SingleIndexDistance { index: i, distance: b.distance@[q] },
                ) && b.location@[q] == reference@[i as int];
            assert(SingleIndexDistance { index: i1, distance: a.distance@[q] } == SingleIndexDistance {
                index: i2,
                distance: b.distance@[q],
            });
        }
        assert(a.location@ =~= b.location@);
        assert(a.distance@ =~= b.distance@);
    }
}

} // verus!
