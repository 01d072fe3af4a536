//! Match records: what one query point was matched to, and at what distance.
use vstd::prelude::*;

use crate::table::Table;

verus! {

/// The nearest reference row for one query point, by its position in the
/// reference table, with the squared distance to it.
#[derive(Debug, Clone, Copy, PartialEq, Eq, Structural)]
pub struct SingleIndexDistance {
    pub index: usize,
    /// Bit pattern of the squared distance.
    pub distance: u64,
}

/// The nearest reference point for one query point, by its coordinates, with the
/// squared distance to it.
#[derive(Debug, PartialEq)]
pub struct SinglePointDistance {
    /// Bit patterns of the coordinates.
    pub point: Vec<u64>,
    /// Bit pattern of the squared distance.
    pub distance: u64,
}

/// A record that carries a squared distance.
pub trait Distance {
    spec fn distance_spec(&self) -> u64;

    fn distance(&self) -> (r: u64)
        ensures
            r == self.distance_spec(),
    ;
}

impl Distance for SingleIndexDistance {
    open spec fn distance_spec(&self) -> u64 {
        self.distance
    }

    fn distance(&self) -> (r: u64) {
        self.distance
    }
}

impl Distance for SinglePointDistance {
    open spec fn distance_spec(&self) -> u64 {
        self.distance
    }

    fn distance(&self) -> (r: u64) {
        self.distance
    }
}

/// A copy of the coordinates `p`.
pub fn copy_point(p: &Vec<u64>) -> (r: Vec<u64>)
    ensures
        r@ == p@,
{
    let mut point: Vec<u64> = Vec::with_capacity(p.len());
    let mut col: usize = 0;
    while col < p.len()
        invariant
            col <= p@.len(),
            point@ == p@.take(col as int),
        decreases p@.len() - col,
    {
        point.push(p[col]);
        col = col + 1;
        assert(point@ =~= p@.take(col as int));
    }
    assert(p@.take(p@.len() as int) =~= p@);
    point
}

/// The record in location form for `rec`: the coordinates of reference row
/// `rec.index`, copied, and the same distance.
pub fn point_of(rec: &SingleIndexDistance, reference: &Table) -> (r: SinglePointDistance)
    requires
        rec.index < reference@.len(),
    ensures
        r.point@ == reference@[rec.index as int],
        r.point@.len() == reference.width(),
        r.distance == rec.distance,
{
    let point = copy_point(reference.row(rec.index));
    SinglePointDistance { point, distance: rec.distance }
}

} // verus!
