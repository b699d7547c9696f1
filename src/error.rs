use vstd::prelude::*;

verus! {

/// Failures the renderer core reports.
#[derive(Debug, Clone)]
pub enum RenderError {
    /// The camera direction and up vector are parallel (or one is zero),
    /// so no orthonormal camera basis exists.
    DegenerateBasis,
    /// The near plane is not in front of the eye, or the far plane is not
    /// beyond the near plane.
    InvalidDepthRange,
    /// A render target with a zero width or height.
    InvalidDimensions,
    /// A geometry or program handle that does not name a live resource.
    HandleInvalid,
    /// The shader backend refused a program; holds its diagnostic text.
    ShaderCompile(String),
}

} // verus!
