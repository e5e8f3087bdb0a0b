use vstd::prelude::*;

verus! {

/// Errors that the rule engine reports to its callers.
///
/// No error here is fatal: callers recover by prompting the player again.
/// An attempt to finalize an overlapping or overflowing fleet is not an
/// `Error` value; it is reported by `ShipSetBuilder::build` returning
/// `None`.
#[derive(Clone, Copy, PartialEq, Eq, Debug, Structural)]
pub enum Error {
    /// A coordinate component lay outside the grid.
    OutOfRange,
}

} // verus!
