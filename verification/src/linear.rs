//! Linear-algebra vocabulary shared with the vector types.

use vstd::prelude::*;

verus! {

/// The type of coordinate system used to interpret a vector's components.
///
/// In `CARTESIAN`, the components are orthogonal displacements; in `POLAR`,
/// they are a magnitude and one or two angles in radians.
#[allow(non_camel_case_types)]
#[derive(Copy, Clone, Debug, PartialEq, Eq, Structural)]
pub enum CoordSystem {
    /// Orthogonal linear displacements.
    CARTESIAN,
    /// Magnitude plus angle(s).
    POLAR,
}

} // verus!
