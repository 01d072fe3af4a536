//! The results of a matching call for a whole query table, one row per query
//! point, and how they are laid out from the per-point records.
use vstd::prelude::*;

use crate::record::{copy_point, point_of, SingleIndexDistance, SinglePointDistance};
use crate::table::Table;

verus! {

/// Matches by reference row: `index[i]` and `distance[i]` describe query row `i`.
#[derive(Debug, PartialEq)]
pub struct IndexAndDistance {
    pub index: Vec<usize>,
    /// Bit patterns of the squared distances.
    pub distance: Vec<u64>,
}

/// Matches by coordinates: row `i` of `location` and `distance[i]` describe
/// query row `i`.
#[derive(Debug, PartialEq)]
pub struct LocationAndDistance {
    pub location: Table,
    /// Bit patterns of the squared distances.
    pub distance: Vec<u64>,
}

/// A result for a whole query table, laid out from its per-point records.
pub trait FromShapeIter<A>: Sized {
    /// Whether `items` can fill a result of `shape` (query rows, columns).
    spec fn fits(items: Seq<A>, shape: (usize, usize)) -> bool;

    /// Whether `self` holds `items` in `shape`, row `i` from item `i`.
    spec fn holds(&self, items: Seq<A>, shape: (usize, usize)) -> bool;

    /// Writes item `i` into row `i`: the rows keep the items' order.
    fn from_shape_iter(items: Vec<A>, shape: (usize, usize)) -> (r: Self)
        requires
            Self::fits(items@, shape),
        ensures
            r.holds(items@, shape),
    ;
}

impl FromShapeIter<SingleIndexDistance> for IndexAndDistance {
    open spec fn fits(items: Seq<SingleIndexDistance>, shape: (usize, usize)) -> bool {
        items.len() == shape.0
    }

    open spec fn holds(&self, items: Seq<SingleIndexDistance>, shape: (usize, usize)) -> bool {
        &&& self.index@.len() == shape.0
        &&& self.distance@.len() == shape.0
        &&& forall|i: int|
            0 <= i < shape.0 ==> #[trigger] self.index@[i] == items[i].index
                && self.distance@[i] == items[i].distance
    }

    fn from_shape_iter(items: Vec<SingleIndexDistance>, shape: (usize, usize)) -> (r: Self) {
        let mut index: Vec<usize> = Vec::with_capacity(shape.0);
        let mut distance: Vec<u64> = Vec::with_capacity(shape.0);
        let mut row: usize = 0;
        while row < items.len()
            invariant
                row <= items@.len(),
                index@.len() == row,
                distance@.len() == row,
                forall|i: int|
                    0 <= i < row ==> #[trigger] index@[i] == items@[i].index
                        && distance@[i] == items@[i].distance,
            decreases items@.len() - row,
        {
            index.push(items[row].index);
            distance.push(items[row].distance);
            row = row + 1;
        }
        IndexAndDistance { index, distance }
    }
}

impl FromShapeIter<SinglePointDistance> for LocationAndDistance {
    open spec fn fits(items: Seq<SinglePointDistance>, shape: (usize, usize)) -> bool {
        &&& items.len() == shape.0
        &&& forall|i: int| 0 <= i < items.len() ==> (#[trigger] items[i]).point@.len() == shape.1
    }

    open spec fn holds(&self, items: Seq<SinglePointDistance>, shape: (usize, usize)) -> bool {
        &&& self.location@.len() == shape.0
        &&& self.location.width() == shape.1
        &&& self.distance@.len() == shape.0
        &&& forall|i: int|
            0 <= i < shape.0 ==> #[trigger] self.location@[i] == items[i].point@
                && self.distance@[i] == items[i].distance
    }

    fn from_shape_iter(items: Vec<SinglePointDistance>, shape: (usize, usize)) -> (r: Self) {
        let mut rows: Vec<Vec<u64>> = Vec::with_capacity(shape.0);
        let mut distance: Vec<u64> = Vec::with_capacity(shape.0);
        let mut row: usize = 0;
        while row < items.len()
            invariant
                Self::fits(items@, shape),
                row <= items@.len(),
                rows@.len() == row,
                distance@.len() == row,
                forall|i: int|
                    0 <= i < row ==> #[trigger] rows@[i]@ == items@[i].point@
                        && distance@[i] == items@[i].distance,
            decreases items@.len() - row,
        {
            rows.push(copy_point(&items[row].point));
            distance.push(items[row].distance);
            row = row + 1;
        }
        let location = Table::from_fitting_rows(shape.1, rows);
        LocationAndDistance { location, distance }
    }
}

/// The location-form records of `records`, rows copied from `reference`.
fn to_locations(records: &Vec<SingleIndexDistance>, reference: &Table) -> (r: Vec<SinglePointDistance>)
    requires
        forall|q: int| 0 <= q < records@.len() ==> #[trigger] records@[q].index < reference@.len(),
    ensures
        r@.len() == records@.len(),
        forall|q: int|
            0 <= q < records@.len() ==> #[trigger] r@[q].point@ == reference@[records@[q].index as int]
                && r@[q].distance == records@[q].distance,
        forall|q: int| 0 <= q < r@.len() ==> (#[trigger] r@[q]).point@.len() == reference.width(),
{
    let mut out: Vec<SinglePointDistance> = Vec::with_capacity(records.len());
    let mut q: usize = 0;
    while q < records.len()
        invariant
            q <= records@.len(),
            out@.len() == q,
            forall|k: int| 0 <= k < records@.len() ==> #[trigger] records@[k].index < reference@.len(),
            forall|k: int|
                0 <= k < q ==> #[trigger] out@[k].point@ == reference@[records@[k].index as int]
                    && out@[k].distance == records@[k].distance && out@[k].point@.len()
                    == reference.width(),
        decreases records@.len() - q,
    {
        let p = point_of(&records[q], reference);
        out.push(p);
        q = q + 1;
    }
    out
}

/// Lays out the location form of `records`, one per query row of `query`.
pub(crate) fn locations_of(
    records: &Vec<SingleIndexDistance>,
    reference: &Table,
    query: &Table,
) -> (r: LocationAndDistance)
    requires
        records@.len() == query@.len(),
        reference.width() == query.width(),
        forall|q: int| 0 <= q < records@.len() ==> #[trigger] records@[q].index < reference@.len(),
    ensures
        r.location@.len() == query@.len(),
        r.location.width() == reference.width(),
        r.distance@.len() == query@.len(),
        forall|q: int|
            0 <= q < query@.len() ==> #[trigger] r.location@[q] == reference@[records@[q].index as int]
                && r.distance@[q] == records@[q].distance,
{
    let points = to_locations(records, reference);
    let ghost items = points@;
    let out = LocationAndDistance::from_shape_iter(points, (query.nrows(), query.ncols()));
    assert(forall|q: int| 0 <= q < query@.len() ==> #[trigger] out.location@[q] == items[q].point@);
    out
}

} // verus!
