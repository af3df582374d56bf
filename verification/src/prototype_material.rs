//! Prototype material: a procedurally colored stand-in material for
//! blockout meshes.
//!
//! The color is derived from a feature name, so that the same name paints
//! the same color every run; shader and texture handling belong to the
//! embedding application.

use vstd::prelude::*;

use std::collections::hash_map::DefaultHasher;
use std::hash::Hash;
use std::hash::Hasher;

verus! {

/// An sRGB color with 8-bit channels.
#[derive(Clone, Copy, Debug, PartialEq, Eq)]
pub struct Rgb8 {
    pub red: u8,
    pub green: u8,
    pub blue: u8,
}

/// The 64-bit hash a feature name stands for.
pub uninterp spec fn feature_name_hash(name: Seq<char>) -> u64;

/// Relies on std's DefaultHasher, constructed unkeyed by `new`: the digest
/// depends on the hashed text alone, the same in every run of one
/// toolchain's build.
#[verifier::external_body]
fn hash_feature_name(name: &str) -> (h: u64)
    ensures
        h == feature_name_hash(name@),
{
    let mut hasher = DefaultHasher::new();
    name.hash(&mut hasher);
    hasher.finish()
}

/// The bright color a seed stands for.
pub uninterp spec fn bright_rgb_of(seed: u64) -> (u8, u8, u8);

/// Relies on random_color's RandomColor: with the generator seeded by
/// `seed` and luminosity pinned to bright, the produced RGB triple is a
/// function of the seed alone.
#[verifier::external_body]
fn bright_rgb_for_seed(seed: u64) -> (rgb: (u8, u8, u8))
    ensures
        rgb == bright_rgb_of(seed),
{
    let rgb = random_color::RandomColor::new().luminosity(
        random_color::options::Luminosity::Bright,
    ).seed(seed).to_rgb_array();
    (rgb[0], rgb[1], rgb[2])
}

/// Component standing for a procedurally colored prototype material. The
/// embedding application turns it into its material asset, attaching the
/// shared blockout texture and shader.
#[derive(Clone, Copy, Debug, PartialEq, Eq)]
pub struct PrototypeMaterial {
    /// The derived color.
    pub color: Rgb8,
}

impl PrototypeMaterial {
    /// Creates a prototype material with a procedural color.
    ///
    /// # Arguments
    /// * `feature_name` - Describes the feature this prototype material is
    ///   for, e.g. `floor` or `wall`. It seeds the color, which is the same
    ///   every time the program is run.
    pub fn new(feature_name: &str) -> (m: Self)
        ensures
            ({
                let rgb = bright_rgb_of(feature_name_hash(feature_name@));
                m.color == Rgb8 { red: rgb.0, green: rgb.1, blue: rgb.2 }
            }),
    {
        let hash = hash_feature_name(feature_name);
        let rgb = bright_rgb_for_seed(hash);
        PrototypeMaterial { color: Rgb8 { red: rgb.0, green: rgb.1, blue: rgb.2 } }
    }
}

} // verus!
