//! A table of points: one row per point, one column per coordinate.
use vstd::prelude::*;

verus! {

/// Rows of equal length, each one point. The number of columns is kept apart
/// from the rows, so that a table with no rows still has a dimension.
#[derive(Debug, PartialEq)]
pub struct Table {
    cols: usize,
    rows: Vec<Vec<u64>>,
}

impl View for Table {
    type V = Seq<Seq<u64>>;

    closed spec fn view(&self) -> Seq<Seq<u64>> {
        self.rows@.map_values(|r: Vec<u64>| r@)
    }
}

impl Table {
    /// The number of columns: the dimension of every point in the table.
    pub closed spec fn width(&self) -> nat {
        self.cols as nat
    }

    #[verifier::type_invariant]
    spec fn rows_fit(&self) -> bool {
        forall|i: int| 0 <= i < self.rows@.len() ==> #[trigger] self.rows@[i]@.len() == self.cols
    }

    /// A table of `cols` columns holding `rows`; `None` where a row has another length.
    pub fn new(cols: usize, rows: Vec<Vec<u64>>) -> (r: Option<Table>)
        ensures
            r is Some <==> forall|i: int| 0 <= i < rows@.len() ==> #[trigger] rows@[i]@.len() == cols,
            r matches Some(t) ==> t@ == rows@.map_values(|v: Vec<u64>| v@) && t.width() == cols,
    {
        let mut i: usize = 0;
        while i < rows.len()
            invariant
                i <= rows@.len(),
                forall|k: int| 0 <= k < i ==> #[trigger] rows@[k]@.len() == cols,
            decreases rows@.len() - i,
        {
            if rows[i].len() != cols {
                return None;
            }
            i = i + 1;
        }
        Some(Table { cols, rows })
    }

    /// A table of `cols` columns and no rows.
    pub fn empty(cols: usize) -> (r: Table)
        ensures
            r@.len() == 0,
            r.width() == cols,
    {
        let r = Table { cols, rows: Vec::new() };
        assert(r@ =~= Seq::<Seq<u64>>::empty());
        r
    }

    /// The number of rows.
    pub fn nrows(&self) -> (r: usize)
        ensures
            r == self@.len(),
    {
        self.rows.len()
    }

    /// The number of columns.
    pub fn ncols(&self) -> (r: usize)
        ensures
            r == self.width(),
    {
        self.cols
    }

    /// Row `i`.
    pub fn row(&self, i: usize) -> (r: &Vec<u64>)
        requires
            i < self@.len(),
        ensures
            r@ == self@[i as int],
            r@.len() == self.width(),
    {
        proof {
            use_type_invariant(self);
        }
        &self.rows[i]
    }

    /// The entry at row `i`, column `j`.
    pub fn get(&self, i: usize, j: usize) -> (r: u64)
        requires
            i < self@.len(),
            j < self.width(),
        ensures
            r == self@[i as int][j as int],
    {
        proof {
            use_type_invariant(self);
        }
        self.rows[i][j]
    }

    /// A table of `cols` columns holding `rows`, each of which has that length.
    pub fn from_fitting_rows(cols: usize, rows: Vec<Vec<u64>>) -> (r: Table)
        requires
            forall|i: int| 0 <= i < rows@.len() ==> #[trigger] rows@[i]@.len() == cols,
        ensures
            r@ == rows@.map_values(|v: Vec<u64>| v@),
            r.width() == cols,
    {
        Table { cols, rows }
    }
}

} // verus!
