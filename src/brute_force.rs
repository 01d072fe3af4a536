//! The exhaustive matcher: every reference point is measured against every query
//! point, and the nearest one kept under the tie-break policy.
use vstd::prelude::*;

use crate::float_bits::{bits_is_nan, bits_lt, float_lt, is_nan};
use crate::aggregate::{locations_of, FromShapeIter, IndexAndDistance, LocationAndDistance};
use crate::parallel::par_map;
use crate::record::{Distance, SingleIndexDistance};
use crate::table::Table;
use crate::validate::{check_shapes, shape_check, MatchError};

verus! {

/// The tie-break policy between the best candidate so far (`l`, met first) and a
/// new one (`r`): the new one wins only where its distance is smaller, or where
/// the old one's is NaN and the new one's is not. Equal distances, and two NaNs,
/// keep the old one.
pub open spec fn keeps_left(l: u64, r: u64) -> bool {
    !(float_lt(r, l) || (is_nan(l) && !is_nan(r)))
}

/// Position `i` holds the nearest of the distances `ds`: the first of the
/// smallest values that are not NaN; position 0 where all are NaN.
pub open spec fn is_nearest(ds: Seq<u64>, i: int) -> bool {
    &&& 0 <= i < ds.len()
    &&& if exists|j: int| 0 <= j < ds.len() && !is_nan(#[trigger] ds[j]) {
        &&& !is_nan(ds[i])
        &&& forall|j: int| 0 <= j < ds.len() ==> !float_lt(#[trigger] ds[j], ds[i])
        &&& forall|j: int| 0 <= j < i ==> is_nan(#[trigger] ds[j]) || float_lt(ds[i], ds[j])
    } else {
        i == 0
    }
}

/// `ds` are squared distances that `dist` can give from query row `q` to the
/// reference rows, in row order.
pub open spec fn scanned<F: Fn(usize, usize) -> u64>(dist: &F, q: usize, ds: Seq<u64>) -> bool {
    forall|j: int| 0 <= j < ds.len() ==> dist.ensures((q, j as usize), #[trigger] ds[j])
}

/// Reference row `index`, at squared distance `d`, is what the scan of all
/// `n_ref` reference rows finds for query row `q`.
pub open spec fn matched<F: Fn(usize, usize) -> u64>(
    dist: &F,
    n_ref: nat,
    q: usize,
    index: int,
    d: u64,
) -> bool {
    exists|ds: Seq<u64>|
        ds.len() == n_ref && #[trigger] scanned(dist, q, ds) && is_nearest(ds, index) && d == ds[index]
}

/// `dist` can be called on every pair of a query row and a reference row.
pub open spec fn measurable<F: Fn(usize, usize) -> u64>(dist: &F, n_query: nat, n_ref: nat) -> bool {
    forall|q: usize, j: usize| q < n_query && j < n_ref ==> #[trigger] dist.requires((q, j))
}

/// What a matcher in index form returns: the refusal of [`shape_check`], or one
/// entry per query row, in query order, each the scan's match for that row.
pub open spec fn index_outcome<F: Fn(usize, usize) -> u64>(
    reference: &Table,
    query: &Table,
    dist: &F,
    r: Result<IndexAndDistance, MatchError>,
) -> bool {
    match shape_check(reference, query) {
        Err(e) => r == Err::<IndexAndDistance, MatchError>(e),
        Ok(_) => match r {
            Ok(out) => {
                &&& out.index@.len() == query@.len()
                &&& out.distance@.len() == query@.len()
                &&& forall|q: int|
                    0 <= q < query@.len() ==> matched(
                        dist,
                        reference@.len(),
                        q as usize,
                        #[trigger] out.index@[q] as int,
                        out.distance@[q],
                    )
            },
            Err(_) => false,
        },
    }
}

/// `point`, at squared distance `d`, is a reference row that the scan of all
/// reference rows finds for query row `q`.
pub open spec fn located<F: Fn(usize, usize) -> u64>(
    dist: &F,
    reference: &Table,
    q: usize,
    point: Seq<u64>,
    d: u64,
) -> bool {
    exists|i: int| #[trigger] matched(dist, reference@.len(), q, i, d) && point == reference@[i]
}

/// What a matcher in location form returns: the refusal of [`shape_check`], or
/// one row per query row, in query order, each the coordinates of the scan's
/// match for that row.
pub open spec fn location_outcome<F: Fn(usize, usize) -> u64>(
    reference: &Table,
    query: &Table,
    dist: &F,
    r: Result<LocationAndDistance, MatchError>,
) -> bool {
    match shape_check(reference, query) {
        Err(e) => r == Err::<LocationAndDistance, MatchError>(e),
        Ok(_) => match r {
            Ok(out) => {
                &&& out.location@.len() == query@.len()
                &&& out.location.width() == reference.width()
                &&& out.distance@.len() == query@.len()
                &&& forall|q: int|
                    0 <= q < query@.len() ==> located(
                        dist,
                        reference,
                        q as usize,
                        #[trigger] out.location@[q],
                        out.distance@[q],
                    )
            },
            Err(_) => false,
        },
    }
}

/// The candidate to keep of two: `left`, met first, unless `right` is nearer or
/// `left`'s distance is NaN and `right`'s is not.
pub fn minimize_float<T: Distance>(left: T, right: T) -> (r: T)
    ensures
        keeps_left(left.distance_spec(), right.distance_spec()) ==> r == left,
        !keeps_left(left.distance_spec(), right.distance_spec()) ==> r == right,
{
    let left_float = left.distance();
    let right_float = right.distance();

    if bits_lt(left_float, right_float) {
        left
    } else if bits_lt(right_float, left_float) {
        right
    } else {
        if bits_is_nan(left_float) && !bits_is_nan(right_float) {
            right
        } else if bits_is_nan(right_float) && !bits_is_nan(left_float) {
            left
        } else {
            left
        }
    }
}

/// The nearest of `distances` (the squared distances from one query point to
/// each reference row, in row order), folded from the first row to the last
/// with [`minimize_float`].
pub fn min_distance_to_point(distances: &Vec<u64>) -> (r: SingleIndexDistance)
    requires
        distances@.len() > 0,
    ensures
        is_nearest(distances@, r.index as int),
        r.distance == distances@[r.index as int],
{
    let ghost ds = distances@;
    let mut best = SingleIndexDistance { index: 0, distance: distances[0] };
    assert(ds.take(1)[0] == ds[0]);
    let mut j: usize = 1;
    while j < distances.len()
        invariant
            1 <= j <= ds.len(),
            ds == distances@,
            is_nearest(ds.take(j as int), best.index as int),
            best.distance == ds[best.index as int],
        decreases ds.len() - j,
    {
        let candidate = SingleIndexDistance { index: j, distance: distances[j] };
        let ghost old_best = best;
        best = minimize_float(best, candidate);
        proof {
            lemma_nearest_step(ds, j as int, old_best.index as int);
        }
        j = j + 1;
    }
    assert(ds.take(ds.len() as int) =~= ds);
    best
}

/// Scans every reference row for query row `q`.
fn nearest_for_query<F: Fn(usize, usize) -> u64>(q: usize, n_ref: usize, dist: &F) -> (r:
    SingleIndexDistance)
    requires
        n_ref > 0,
        forall|j: usize| j < n_ref ==> dist.requires((q, j)),
    ensures
        matched(dist, n_ref as nat, q, r.index as int, r.distance),
        r.index < n_ref,
{
    let mut distances: Vec<u64> = Vec::with_capacity(n_ref);
    let mut j: usize = 0;
    while j < n_ref
        invariant
            j <= n_ref,
            distances@.len() == j,
            forall|j: usize| j < n_ref ==> dist.requires((q, j)),
            scanned(dist, q, distances@),
        decreases n_ref - j,
    {
        let d = dist(q, j);
        distances.push(d);
        j = j + 1;
    }
    let r = min_distance_to_point(&distances);
    assert(scanned(dist, q, distances@));
    r
}

/// The match of every query row, in query order, one row after the other.
fn brute_force_records<F: Fn(usize, usize) -> u64>(n_ref: usize, n_query: usize, dist: &F) -> (r:
    Vec<SingleIndexDistance>)
    requires
        n_ref > 0 || n_query == 0,
        measurable(dist, n_query as nat, n_ref as nat),
    ensures
        r@.len() == n_query,
        forall|q: int|
            0 <= q < n_query ==> #[trigger] r@[q].index < n_ref && matched(
                dist,
                n_ref as nat,
                q as usize,
                r@[q].index as int,
                r@[q].distance,
            ),
{
    let mut records: Vec<SingleIndexDistance> = Vec::with_capacity(n_query);
    let mut q: usize = 0;
    while q < n_query
        invariant
            q <= n_query,
            n_ref > 0 || n_query == 0,
            measurable(dist, n_query as nat, n_ref as nat),
            records@.len() == q,
            forall|k: int|
                0 <= k < q ==> #[trigger] records@[k].index < n_ref && matched(
                    dist,
                    n_ref as nat,
                    k as usize,
                    records@[k].index as int,
                    records@[k].distance,
                ),
        decreases n_query - q,
    {
        assert(forall|j: usize| j < n_ref ==> dist.requires((q, j)));
        records.push(nearest_for_query(q, n_ref, dist));
        q = q + 1;
    }
    records
}

/// The match of every query row, in query order, the rows shared out among
/// workers.
fn brute_force_records_par<F: Fn(usize, usize) -> u64 + Sync + Send>(
    n_ref: usize,
    n_query: usize,
    dist: &F,
) -> (r: Vec<SingleIndexDistance>)
    requires
        n_ref > 0 || n_query == 0,
        measurable(dist, n_query as nat, n_ref as nat),
    ensures
        r@.len() == n_query,
        forall|q: int|
            0 <= q < n_query ==> #[trigger] r@[q].index < n_ref && matched(
                dist,
                n_ref as nat,
                q as usize,
                r@[q].index as int,
                r@[q].distance,
            ),
{
    let per_query = |q: usize| -> (r: SingleIndexDistance)
        requires
            q < n_query,
            n_ref > 0 || n_query == 0,
            measurable(dist, n_query as nat, n_ref as nat),
        ensures
            r.index < n_ref,
            matched(dist, n_ref as nat, q, r.index as int, r.distance),
        {
            assert(forall|j: usize| j < n_ref ==> dist.requires((q, j)));
            nearest_for_query(q, n_ref, dist)
        };
    par_map(n_query, &per_query)
}

/// Matches each query row to its nearest reference row, by row index, one
/// query row after the other. `dist(q, j)` gives the squared distance from query
/// row `q` to reference row `j`.
pub fn brute_force_index<F: Fn(usize, usize) -> u64>(reference: &Table, query: &Table, dist: &F) -> (r:
    Result<IndexAndDistance, MatchError>)
    requires
        measurable(dist, query@.len(), reference@.len()),
    ensures
        index_outcome(reference, query, dist, r),
{
    match check_shapes(reference, query) {
        Err(e) => Err(e),
        Ok(()) => {
            let records = brute_force_records(reference.nrows(), query.nrows(), dist);
            let ghost items = records@;
            let out = IndexAndDistance::from_shape_iter(records, (query.nrows(), query.ncols()));
            assert(forall|q: int| 0 <= q < query@.len() ==> #[trigger] out.index@[q] == items[q].index);
            Ok(out)
        },
    }
}

/// As [`brute_force_index`], the query rows shared out among workers.
pub fn brute_force_index_par<F: Fn(usize, usize) -> u64 + Sync + Send>(
    reference: &Table,
    query: &Table,
    dist: &F,
) -> (r: Result<IndexAndDistance, MatchError>)
    requires
        measurable(dist, query@.len(), reference@.len()),
    ensures
        index_outcome(reference, query, dist, r),
{
    match check_shapes(reference, query) {
        Err(e) => Err(e),
        Ok(()) => {
            let records = brute_force_records_par(reference.nrows(), query.nrows(), dist);
            let ghost items = records@;
            let out = IndexAndDistance::from_shape_iter(records, (query.nrows(), query.ncols()));
            assert(forall|q: int| 0 <= q < query@.len() ==> #[trigger] out.index@[q] == items[q].index);
            Ok(out)
        },
    }
}

/// Matches each query row to its nearest reference row, by the reference row's
/// coordinates, one query row after the other. `dist(q, j)` gives the squared
/// distance from query row `q` to reference row `j`.
pub fn brute_force_location<F: Fn(usize, usize) -> u64>(
    reference: &Table,
    query: &Table,
    dist: &F,
) -> (r: Result<LocationAndDistance, MatchError>)
    requires
        measurable(dist, query@.len(), reference@.len()),
    ensures
        location_outcome(reference, query, dist, r),
{
    match check_shapes(reference, query) {
        Err(e) => Err(e),
        Ok(()) => {
            let records = brute_force_records(reference.nrows(), query.nrows(), dist);
            let out = locations_of(&records, reference, query);
            assert forall|q: int| 0 <= q < query@.len() implies located(
                dist,
                reference,
                q as usize,
                #[trigger] out.location@[q],
                out.distance@[q],
            ) by {
                let i = records@[q].index as int;
                assert(out.location@[q] == reference@[i]);
                assert(out.distance@[q] == records@[q].distance);
                assert(matched(dist, reference@.len(), q as usize, i, out.distance@[q]));
            }
            Ok(out)
        },
    }
}

/// As [`brute_force_location`], the query rows shared out among workers.
pub fn brute_force_location_par<F: Fn(usize, usize) -> u64 + Sync + Send>(
    reference: &Table,
    query: &Table,
    dist: &F,
) -> (r: Result<LocationAndDistance, MatchError>)
    requires
        measurable(dist, query@.len(), reference@.len()),
    ensures
        location_outcome(reference, query, dist, r),
{
    match check_shapes(reference, query) {
        Err(e) => Err(e),
        Ok(()) => {
            let records = brute_force_records_par(reference.nrows(), query.nrows(), dist);
            let out = locations_of(&records, reference, query);
            assert forall|q: int| 0 <= q < query@.len() implies located(
                dist,
                reference,
                q as usize,
                #[trigger] out.location@[q],
                out.distance@[q],
            ) by {
                let i = records@[q].index as int;
                assert(out.location@[q] == reference@[i]);
                assert(out.distance@[q] == records@[q].distance);
                assert(matched(dist, reference@.len(), q as usize, i, out.distance@[q]));
            }
            Ok(out)
        },
    }
}

/// `dist` gives one squared distance for each pair of rows: it is a function of
/// the query row and the reference row alone.
pub open spec fn deterministic<F: Fn(usize, usize) -> u64>(dist: &F) -> bool {
    forall|q: usize, j: usize, d1: u64, d2: u64|
        #[trigger] dist.ensures((q, j), d1) && #[trigger] dist.ensures((q, j), d2) ==> d1 == d2
}

/// The nearest position of a sequence of distances is unique.
pub proof fn lemma_nearest_unique(ds: Seq<u64>, i: int, k: int)
    requires
        is_nearest(ds, i),
        is_nearest(ds, k),
    ensures
        i == k,
{
    if exists|j: int| 0 <= j < ds.len() && !is_nan(#[trigger] ds[j]) {
        assert(!float_lt(ds[i], ds[k]));
        assert(!float_lt(ds[k], ds[i]));
        if i < k {
            assert(is_nan(ds[i]) || float_lt(ds[k], ds[i]));
        } else if k < i {
            assert(is_nan(ds[k]) || float_lt(ds[i], ds[k]));
        }
    }
}

/// Of two positions at exactly the same distance, which is not NaN, the later
/// one is never the nearest: ties go to the earlier reference row.
pub proof fn lemma_tie_keeps_earlier(ds: Seq<u64>, k: int, i: int, j: int)
    requires
        is_nearest(ds, k),
        0 <= i < j < ds.len(),
        ds[i] == ds[j],
        !is_nan(ds[i]),
    ensures
        k != j,
{
    assert(!is_nan(ds[i]));
    if k == j {
        assert(is_nan(ds[i]) || float_lt(ds[j], ds[i]));
    }
}

/// Where any distance is a number, the nearest is a number too, wherever the
/// NaNs stand.
pub proof fn lemma_nan_never_nearest(ds: Seq<u64>, k: int, j: int)
    requires
        is_nearest(ds, k),
        0 <= j < ds.len(),
        !is_nan(ds[j]),
    ensures
        !is_nan(ds[k]),
{
    assert(!is_nan(ds[j]));
}

/// Two scans of the same rows with a deterministic `dist` find the same match.
proof fn lemma_matched_unique<F: Fn(usize, usize) -> u64>(
    dist: &F,
    n_ref: nat,
    q: usize,
    i1: int,
    d1: u64,
    i2: int,
    d2: u64,
)
    requires
        deterministic(dist),
        matched(dist, n_ref, q, i1, d1),
        matched(dist, n_ref, q, i2, d2),
    ensures
        i1 == i2,
        d1 == d2,
{
    let ds1 = choose|ds: Seq<u64>|
        ds.len() == n_ref && #[trigger] scanned(dist, q, ds) && is_nearest(ds, i1) && d1 == ds[i1];
    let ds2 = choose|ds: Seq<u64>|
        ds.len() == n_ref && #[trigger] scanned(dist, q, ds) && is_nearest(ds, i2) && d2 == ds[i2];
    assert forall|j: int| 0 <= j < ds1.len() implies ds1[j] == ds2[j] by {
        assert(dist.ensures((q, j as usize), ds1[j]));
        assert(dist.ensures((q, j as usize), ds2[j]));
    }
    assert(ds1 =~= ds2);
    lemma_nearest_unique(ds1, i1, i2);
}

/// Serial and parallel matching agree exactly, in index form: the same refusal,
/// or the same index and the same distance bits on every row.
pub proof fn lemma_index_modes_agree<F: Fn(usize, usize) -> u64>(
    reference: &Table,
    query: &Table,
    dist: &F,
    serial: Result<IndexAndDistance, MatchError>,
    parallel: Result<IndexAndDistance, MatchError>,
)
    requires
        deterministic(dist),
        index_outcome(reference, query, dist, serial),
        index_outcome(reference, query, dist, parallel),
    ensures
        match (serial, parallel) {
            (Ok(a), Ok(b)) => a.index@ == b.index@ && a.distance@ == b.distance@,
            (Err(e1), Err(e2)) => e1 == e2,
            _ => false,
        },
{
    if let (Ok(a), Ok(b)) = (serial, parallel) {
        assert forall|q: int| 0 <= q < query@.len() implies a.index@[q] == b.index@[q]
            && a.distance@[q] == b.distance@[q] by {
            assert(matched(dist, reference@.len(), q as usize, a.index@[q] as int, a.distance@[q]));
            assert(matched(dist, reference@.len(), q as usize, b.index@[q] as int, b.distance@[q]));
            lemma_matched_unique(
                dist,
                reference@.len(),
                q as usize,
                a.index@[q] as int,
                a.distance@[q],
                b.index@[q] as int,
                b.distance@[q],
            );
        }
        assert(a.index@ =~= b.index@);
        assert(a.distance@ =~= b.distance@);
    }
}

/// Serial and parallel matching agree exactly, in location form: the same
/// refusal, or the same coordinates and the same distance bits on every row.
pub proof fn lemma_location_modes_agree<F: Fn(usize, usize) -> u64>(
    reference: &Table,
    query: &Table,
    dist: &F,
    serial: Result<LocationAndDistance, MatchError>,
    parallel: Result<LocationAndDistance, MatchError>,
)
    requires
        deterministic(dist),
        location_outcome(reference, query, dist, serial),
        location_outcome(reference, query, dist, parallel),
    ensures
        match (serial, parallel) {
            (Ok(a), Ok(b)) => a.location@ == b.location@ && a.distance@ == b.distance@,
            (Err(e1), Err(e2)) => e1 == e2,
            _ => false,
        },
{
    if let (Ok(a), Ok(b)) = (serial, parallel) {
        assert forall|q: int| 0 <= q < query@.len() implies a.location@[q] == b.location@[q]
            && a.distance@[q] == b.distance@[q] by {
            assert(located(dist, reference, q as usize, a.location@[q], a.distance@[q]));
            assert(located(dist, reference, q as usize, b.location@[q], b.distance@[q]));
            let i1 = choose|i: int|
                #[trigger] matched(dist, reference@.len(), q as usize, i, a.distance@[q])
                    && a.location@[q] == reference@[i];
            let i2 = choose|i: int|
                #[trigger] matched(dist, reference@.len(), q as usize, i, b.distance@[q])
                    && b.location@[q] == reference@[i];
            lemma_matched_unique(
                dist,
                reference@.len(),
                q as usize,
                i1,
                a.distance@[q],
                i2,
                b.distance@[q],
            );
        }
        assert(a.location@ =~= b.location@);
        assert(a.distance@ =~= b.distance@);
    }
}

/// An empty query table, of the reference table's dimension, is matched without
/// error into results with no rows, whatever the reference table holds.
pub proof fn lemma_empty_query<F: Fn(usize, usize) -> u64>(
    reference: &Table,
    query: &Table,
    dist: &F,
    by_index: Result<IndexAndDistance, MatchError>,
    by_location: Result<LocationAndDistance, MatchError>,
)
    requires
        query@.len() == 0,
        reference.width() == query.width(),
        index_outcome(reference, query, dist, by_index),
        location_outcome(reference, query, dist, by_location),
    ensures
        by_index matches Ok(out) && out.index@.len() == 0 && out.distance@.len() == 0,
        by_location matches Ok(out) && out.location@.len() == 0 && out.distance@.len() == 0,
{
}

/// One step of the fold: from the nearest of the first `j` distances to the
/// nearest of the first `j + 1`.
proof fn lemma_nearest_step(ds: Seq<u64>, j: int, b: int)
    requires
        1 <= j < ds.len(),
        is_nearest(ds.take(j), b),
    ensures
        is_nearest(ds.take(j + 1), if keeps_left(ds[b], ds[j]) { b } else { j }),
{
    let p = ds.take(j);
    let p1 = ds.take(j + 1);
    assert(forall|k: int| 0 <= k < j ==> p1[k] == #[trigger] p[k] && p[k] == ds[k]);
    assert(p1[j] == ds[j]);
    if exists|k: int| 0 <= k < p.len() && !is_nan(#[trigger] p[k]) {
        assert(exists|k: int| 0 <= k < p1.len() && !is_nan(#[trigger] p1[k])) by {
            let k = choose|k: int| 0 <= k < p.len() && !is_nan(#[trigger] p[k]);
            assert(!is_nan(p1[k]));
        }
    } else if !is_nan(ds[j]) {
        assert(!is_nan(p1[j]));
        assert(forall|k: int| 0 <= k < j ==> is_nan(#[trigger] p1[k])) by {
            assert(forall|k: int| 0 <= k < j ==> is_nan(#[trigger] p[k]));
        }
    } else {
        assert(forall|k: int| 0 <= k < j + 1 ==> is_nan(#[trigger] p1[k])) by {
            assert(forall|k: int| 0 <= k < j ==> is_nan(#[trigger] p[k]));
        }
    }
}

} // verus!
