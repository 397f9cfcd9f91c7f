use vstd::prelude::*;

verus! {

/// The parameters of one frame: the surface, its shading exponent and the
/// transform. Each real number is held as the bit pattern of its `f64`, so
/// that two sets of parameters are equal exactly when every bit is.
#[derive(Clone, Copy, Debug, PartialEq, Eq, Structural)]
pub struct SceneParams {
    /// Coefficient of `x²` of the surface.
    pub a: u64,
    /// Coefficient of `y²` of the surface.
    pub b: u64,
    /// Coefficient of `z²` of the surface.
    pub c: u64,
    /// Shading exponent.
    pub m: u64,
    pub scale_x: u64,
    pub scale_y: u64,
    pub scale_z: u64,
    /// Rotation about the x axis, in radians.
    pub rotation_x: u64,
    /// Rotation about the y axis, in radians.
    pub rotation_y: u64,
    /// Rotation about the z axis, in radians.
    pub rotation_z: u64,
    pub translation_x: u64,
    pub translation_y: u64,
    pub translation_z: u64,
}

} // verus!
