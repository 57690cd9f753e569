//! The layer capability an application supplies for its objects.

use vstd::prelude::*;

verus! {

/// Trait for the type an application uses to indicate its objects' layers.
///
/// A layer maps to a whole-numbered *base depth* via
/// [`LayerIndex::as_z_coordinate`]; an object whose resolved layer has base
/// depth `z` receives a final depth in the half-open interval `[z, z + 1)`,
/// and the exact fractional part is an implementation detail. Because base
/// depths are whole numbers, two distinct base depths are always at least
/// one apart, which is exactly the headroom the fractional offsets need:
/// objects on a layer with a smaller base depth always end up strictly
/// below objects on a layer with a larger one.
pub trait LayerIndex: Sized + Copy {
    /// The base depth of the layer, as specification-level integer.
    spec fn z_value(&self) -> int;

    /// The base depth of the layer. Implementations must be pure: the
    /// result is a function of the layer value alone.
    fn as_z_coordinate(&self) -> (z: i64)
        ensures
            z as int == self.z_value(),
    ;
}

/// The simplest layer type: the base depth itself.
impl LayerIndex for i64 {
    open spec fn z_value(&self) -> int {
        *self as int
    }

    fn as_z_coordinate(&self) -> (z: i64)
        ensures
            z as int == self.z_value(),
    {
        *self
    }
}

} // verus!
