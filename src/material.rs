//! Surface materials whose parameters are colours.

use vstd::prelude::*;

use crate::color::{black, Color};

verus! {

/// A diffuse surface: it scatters every ray it is hit by and attenuates the
/// light by its albedo.
#[derive(Clone, Copy, Debug, PartialEq, Eq, Structural)]
pub struct Lambertian {
    pub albedo: Color,
}

impl Default for Lambertian {
    /// A black surface.
    fn default() -> (r: Lambertian)
        ensures
            r.albedo == black(),
    {
        Lambertian { albedo: Color::black() }
    }
}

} // verus!
