//! Nearest-neighbour matching of a query point set against a reference point set.
//!
//! Coordinates and squared distances are IEEE 754 double-precision values. The
//! library holds each one as its bit pattern (`u64`, as given by `f64::to_bits`),
//! so that every comparison it makes follows the IEEE ordering exactly.
pub mod float_bits;
pub mod table;
pub mod record;
pub mod brute_force;
pub mod tree;
pub mod aggregate;
pub mod validate;
mod parallel;

pub use aggregate::{FromShapeIter, IndexAndDistance, LocationAndDistance};
pub use brute_force::{
    brute_force_index, brute_force_index_par, brute_force_location, brute_force_location_par,
};
pub use record::{SingleIndexDistance, SinglePointDistance};
pub use table::Table;
pub use tree::{kd_tree_index, kd_tree_index_par, kd_tree_location, kd_tree_location_par};
pub use validate::MatchError;
