//! How a hit is shaded: by its own light, or by what a mirror shows.
//!
//! A mirror shows what the reflected ray meets, and that may be a mirror
//! again. The limit that travels along bounds the chain: each further mirror
//! lowers it by one, and at zero a mirror is shaded by its own light.

use vstd::prelude::*;
use crate::color::Material;

verus! {

/// The number of mirrors that a ray from the camera may pass through after
/// the first.
pub const RECURSION_LIMIT: u8 = 3;

/// What to do for a hit.
#[derive(Clone, Copy, Debug, PartialEq, Eq, Structural)]
pub enum Shading {
    /// Nothing was met: the pixel shows the colour of the world.
    Background,
    /// The surface shows its own colour as the lights reach it.
    Diffuse,
    /// The surface is a mirror: cast the reflected ray and shade what it
    /// meets, with this limit.
    Reflect(u8),
}

/// How the hit of a ray from the camera is shaded.
pub open spec fn primary(material: Material) -> Shading {
    if material.reflective {
        Shading::Reflect(RECURSION_LIMIT)
    } else {
        Shading::Diffuse
    }
}

/// How to shade what a reflected ray met, `met` being the material of the
/// nearest surface on it, if any. A mirror is followed once more while the
/// limit is above zero; anything else is shaded by its own light.
pub open spec fn reflected(met: Option<Material>, limit: u8) -> Shading {
    match met {
        None => Shading::Background,
        Some(material) => if material.reflective && limit > 0 {
            Shading::Reflect((limit - 1) as u8)
        } else {
            Shading::Diffuse
        },
    }
}

/// The number of reflected rays that are cast for a mirror with the given
/// limit, where the first of them meets `path[0]`, the next `path[1]`, and
/// so on for as long as mirrors are followed.
pub open spec fn rays_cast(path: Seq<Option<Material>>, limit: u8) -> nat
    decreases path.len(),
{
    if path.len() == 0 {
        0
    } else {
        match reflected(path[0], limit) {
            Shading::Reflect(rest) => 1 + rays_cast(path.drop_first(), rest),
            _ => 1,
        }
    }
}

/// Decides how the hit of a ray from the camera is shaded.
pub fn shade_primary(material: Material) -> (shading: Shading)
    ensures
        shading == primary(material),
{
    if material.reflective {
        Shading::Reflect(RECURSION_LIMIT)
    } else {
        Shading::Diffuse
    }
}

/// Decides how to shade what a reflected ray met.
pub fn shade_reflective(met: Option<Material>, limit: u8) -> (shading: Shading)
    ensures
        shading == reflected(met, limit),
        shading matches Shading::Reflect(rest) ==> rest < limit,
{
    match met {
        None => Shading::Background,
        Some(material) => {
            if limit > 0 && material.reflective {
                Shading::Reflect(limit - 1)
            } else {
                Shading::Diffuse
            }
        },
    }
}

/// Mirror shading ends: however many mirrors face each other, a mirror
/// shaded with a limit casts at most one ray more than the limit.
pub proof fn lemma_reflection_is_bounded(path: Seq<Option<Material>>, limit: u8)
    ensures
        rays_cast(path, limit) <= limit + 1,
    decreases path.len(),
{
    if path.len() > 0 {
        match reflected(path[0], limit) {
            Shading::Reflect(rest) => {
                lemma_reflection_is_bounded(path.drop_first(), rest);
            },
            _ => {},
        }
    }
}

} // verus!
