//! Material transport modes of a sphere's surface.
use vstd::prelude::*;

verus! {

/// How a surface scatters an incoming ray.
#[derive(Clone, Copy, Debug, PartialEq, Eq, Structural)]
pub enum RefrectionType {
    /// Cosine-weighted hemisphere scattering around the oriented normal.
    Diffuse,
    /// Mirror reflection about the geometric normal.
    Specular,
    /// Dielectric refraction by Snell's law with Fresnel-weighted branches.
    Refraction,
}

} // verus!
