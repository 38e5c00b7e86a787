//! Depth policy of the radiance estimator.
//!
//! The estimator recurses once per bounce; Russian roulette decides when a
//! path stops. These integer thresholds govern that decision: up to `DEPTH`
//! bounces a path always continues, beyond `DEPTH_LIMIT` its continuation
//! probability is decayed geometrically so that termination stays almost
//! sure even for reflectance near one, and a refractive hit splits into both
//! the reflected and the refracted ray only while the path is at most
//! `REFRACTION_SPLIT_DEPTH` deep (deeper hits choose one branch
//! stochastically and reweight).
use vstd::prelude::*;

verus! {

/// Depth up to which a path continues with probability one.
pub const DEPTH: u32 = 5;

/// Depth beyond which the continuation probability decays geometrically.
pub const DEPTH_LIMIT: u32 = 64;

/// Depth up to which a refractive hit follows both branches.
pub const REFRACTION_SPLIT_DEPTH: u32 = 2;

/// Whether a path at `depth` continues unconditionally, with no roulette
/// draw yet, keeping early bounces free of termination noise.
pub fn forces_continuation(depth: u32) -> (r: bool)
    ensures
        r <==> depth <= DEPTH,
{
    depth <= DEPTH
}

/// Whether the continuation probability at `depth` is decayed below the
/// surface's maximum reflectance channel.
pub fn decays_roulette(depth: u32) -> (r: bool)
    ensures
        r <==> depth > DEPTH_LIMIT,
{
    depth > DEPTH_LIMIT
}

/// The exponent of the geometric decay applied past `DEPTH_LIMIT`: one
/// halving per level beyond the limit.
pub fn roulette_decay_exponent(depth: u32) -> (e: u32)
    requires
        depth > DEPTH_LIMIT,
    ensures
        e == depth - DEPTH_LIMIT,
{
    depth - DEPTH_LIMIT
}

/// Whether a refractive hit at `depth` evaluates both the reflected and the
/// refracted ray deterministically instead of sampling one of them.
pub fn splits_refraction(depth: u32) -> (r: bool)
    ensures
        r <==> depth <= REFRACTION_SPLIT_DEPTH,
{
    depth <= REFRACTION_SPLIT_DEPTH
}

} // verus!
