//! A recorded scene.

use crate::record::{CommandRecorder, RecorderView};
use crate::strips::{StorageMode, StripView};
use vello_common::encode::EncodedPaint;
use vello_common::strip_generator::StripStorage;
use vstd::prelude::*;

verus! {

/// A scene: what was recorded into a viewport, with coverage in viewport space.
#[derive(Debug)]
pub struct Scene {
    /// Width of the viewport in pixels.
    pub width: u16,
    /// Height of the viewport in pixels.
    pub height: u16,
    /// The strips of all paths, with their alpha bytes.
    pub strip_storage: StripStorage,
    /// The paints that indexed paints point to.
    pub encoded_paints: Vec<EncodedPaint>,
    /// The recorded commands.
    pub recorder: CommandRecorder,
}

/// A scene with unbounded numbers.
#[verifier::ext_equal]
pub struct SceneView {
    pub width: int,
    pub height: int,
    pub strips: Seq<StripView>,
    pub alphas: Seq<u8>,
    pub mode: StorageMode,
    pub paints: Seq<EncodedPaint>,
    pub recorder: RecorderView,
}

impl View for Scene {
    type V = SceneView;

    open spec fn view(&self) -> SceneView {
        SceneView {
            width: self.width as int,
            height: self.height as int,
            strips: crate::strips::strip_views(crate::strips::stored_strips(self.strip_storage)),
            alphas: crate::strips::stored_alphas(self.strip_storage),
            mode: crate::strips::stored_mode(self.strip_storage),
            paints: self.encoded_paints@,
            recorder: self.recorder@,
        }
    }
}

impl SceneView {
    /// Whether every pushed layer was popped.
    pub open spec fn is_settled(self) -> bool {
        self.recorder.layer_stack.len() == 0
    }
}

} // verus!
