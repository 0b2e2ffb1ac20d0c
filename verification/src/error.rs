//! Why an append is rejected.

use vstd::prelude::*;

verus! {

/// Why a [`Scene::append_scene`](crate::Scene::append_scene) call was rejected. No partial work is
/// performed on rejection: the target scene is untouched.
#[derive(Debug, Clone, Copy, PartialEq, Eq, Structural)]
pub enum AppendSceneError {
    /// The two scenes have different viewport dimensions.
    ViewportMismatch,
    /// One of the scenes has a pushed layer that was not popped (the recording is not settled).
    OpenLayers,
    /// The donor scene contains filter layers, whose placement cannot be translated.
    UnsupportedFilterLayers,
    /// The clip strips of the donor scene live in a non-default thread-local storage, which a
    /// single-storage append cannot absorb.
    UnsupportedThreadedClips,
    /// The requested translation is not tile-granular: a multiple of
    /// [`TILE_WIDTH`](crate::TILE_WIDTH) in x and of [`TILE_HEIGHT`](crate::TILE_HEIGHT) in y.
    /// Coverage is generated in tile-aligned strips with alpha bytes packed relative to that
    /// alignment, so a sub-tile shift would require re-slicing coverage, not moving it.
    UnalignedTranslation,
    /// An index or coordinate would overflow its storage type.
    Overflow,
}

impl AppendSceneError {
    /// A sentence for people, one per error.
    pub open spec fn spec_message(self) -> Seq<char> {
        match self {
            AppendSceneError::ViewportMismatch => "appended scenes must share viewport dimensions"@,
            AppendSceneError::OpenLayers =>
                "both scenes must have balanced layers before appending"@,
            AppendSceneError::UnsupportedFilterLayers =>
                "appending scenes with filter layers is unsupported"@,
            AppendSceneError::UnsupportedThreadedClips =>
                "appending scenes with non-default thread-local clip storage is unsupported"@,
            AppendSceneError::UnalignedTranslation =>
                "translation must be tile-granular (multiples of Tile::WIDTH / Tile::HEIGHT)"@,
            AppendSceneError::Overflow => "appending would overflow an index or coordinate"@,
        }
    }

    /// The sentence to show for this error.
    pub fn message(&self) -> (message: &'static str)
        ensures
            message@ == self.spec_message(),
    {
        match self {
            AppendSceneError::ViewportMismatch => "appended scenes must share viewport dimensions",
            AppendSceneError::OpenLayers => {
                "both scenes must have balanced layers before appending"
            },
            AppendSceneError::UnsupportedFilterLayers => {
                "appending scenes with filter layers is unsupported"
            },
            AppendSceneError::UnsupportedThreadedClips => {
                "appending scenes with non-default thread-local clip storage is unsupported"
            },
            AppendSceneError::UnalignedTranslation => {
                "translation must be tile-granular (multiples of Tile::WIDTH / Tile::HEIGHT)"
            },
            AppendSceneError::Overflow => "appending would overflow an index or coordinate",
        }
    }
}

} // verus!
