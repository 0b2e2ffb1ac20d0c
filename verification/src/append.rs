//! Appending one settled scene onto another.
//!
//! A consumer that caches lowered scenes across frames composes the cached pieces into a frame
//! without re-recording their geometry. The strips of a recorded scene are coverage in viewport
//! space already, which makes two shapes of composition cheap:
//!
//! - **In place**: the strips, alpha bytes and paints of the donor land behind those of the target,
//!   and its commands are replayed with their indices offset.
//! - **Translated by whole tiles**: strip coordinates move as well, by multiples of
//!   [`TILE_WIDTH`](crate::TILE_WIDTH) and [`TILE_HEIGHT`](crate::TILE_HEIGHT). Strips are
//!   tile-aligned and their alpha bytes are packed relative to that alignment, so a smaller shift
//!   would have to re-slice coverage.

use crate::error::AppendSceneError;
use crate::geometry::{max_size, tile_height, tile_width};
use crate::record::{
    shift_draws, shift_layers, shift_nodes, CommandRecorder, Node, NodeView, RecordedLayer,
    RecorderView,
};
use crate::scene::{Scene, SceneView};
use crate::shift::{Shift, ShiftView};
use crate::strips::{alpha_count, extend_storage, shift_strips, strip_count};
use vstd::prelude::*;

verus! {

/// The pixels to move by: none unless asked for.
pub open spec fn translation(translate: Option<(u16, u16)>) -> (int, int) {
    match translate {
        Some((dx, dy)) => (dx as int, dy as int),
        None => (0, 0),
    }
}

/// Whether the last batch of the first list is still open, so that recording goes on in it, and
/// the second list has a node to go on with.
pub open spec fn continues(nodes: Seq<NodeView>, donor: Seq<NodeView>) -> bool {
    nodes.len() > 0 && donor.len() > 0 && nodes.last().layer is None
}

/// The nodes of two lists, one behind the other. Where the last batch of the first list is still
/// open, it goes on into the first node of the second list.
pub open spec fn joined_nodes(nodes: Seq<NodeView>, donor: Seq<NodeView>) -> Seq<NodeView> {
    if continues(nodes, donor) {
        nodes.drop_last().push(
            NodeView { start: nodes.last().start, end: donor[0].end, layer: donor[0].layer },
        ) + donor.drop_first()
    } else {
        nodes + donor
    }
}

impl RecorderView {
    /// The recording with another one, moved already, behind it.
    pub open spec fn joined(self, donor: RecorderView) -> RecorderView {
        RecorderView {
            nodes: joined_nodes(self.nodes, donor.nodes),
            draws: self.draws + donor.draws,
            layers: self.layers + donor.layers,
            filter_layers: self.filter_layers,
            root_is_blend_target: self.root_is_blend_target || donor.root_is_blend_target,
            max_layer_depth: crate::geometry::max_of(self.max_layer_depth, donor.max_layer_depth),
            largest_layer_size: crate::geometry::max_size_of(
                self.largest_layer_size,
                donor.largest_layer_size,
            ),
            largest_filter_layer_size: crate::geometry::max_size_of(
                self.largest_filter_layer_size,
                donor.largest_filter_layer_size,
            ),
            has_non_default_blend: self.has_non_default_blend || donor.has_non_default_blend,
            layer_stack: self.layer_stack + donor.layer_stack,
        }
    }

    /// The recording with everything that it points to found behind the tables of another scene,
    /// and its pixels moved.
    pub open spec fn shifted(self, shift: ShiftView) -> RecorderView {
        RecorderView {
            nodes: crate::record::shifted_nodes(self.nodes, shift),
            draws: crate::record::shifted_draws(self.draws, shift),
            layers: crate::record::shifted_layers(self.layers, shift),
            layer_stack: self.layer_stack.map_values(|id: int| id + shift.layer),
            ..self
        }
    }
}

impl SceneView {
    /// How far a scene moves that is appended to this one.
    pub open spec fn shift_behind(self, dx: int, dy: int) -> ShiftView {
        ShiftView {
            strip: self.strips.len() as int,
            alpha: self.alphas.len() as int,
            paint: self.paints.len() as int,
            draw: self.recorder.draws.len() as int,
            layer: self.recorder.layers.len() as int,
            dx,
            dy,
        }
    }

    /// This scene with `donor` behind it, moved by `(dx, dy)` pixels.
    pub open spec fn appended(self, donor: SceneView, dx: int, dy: int) -> SceneView {
        let shift = self.shift_behind(dx, dy);
        SceneView {
            width: self.width,
            height: self.height,
            strips: self.strips + crate::strips::shifted_strips(donor.strips, shift),
            alphas: self.alphas + donor.alphas,
            mode: self.mode,
            paints: self.paints + donor.paints,
            recorder: self.recorder.joined(donor.recorder.shifted(shift)),
        }
    }

    /// Whether every index and coordinate of `donor` can be stored once it lies behind this scene,
    /// moved by `(dx, dy)` pixels.
    pub open spec fn append_fits(self, donor: SceneView, dx: int, dy: int) -> bool {
        let shift = self.shift_behind(dx, dy);
        &&& shift.alpha <= u32::MAX
        &&& shift.draw <= u32::MAX
        &&& shift.layer <= u32::MAX
        &&& crate::strips::strips_fit(crate::strips::shifted_strips(donor.strips, shift))
        &&& crate::record::draws_fit(crate::record::shifted_draws(donor.recorder.draws, shift))
        &&& crate::record::nodes_fit(crate::record::shifted_nodes(donor.recorder.nodes, shift))
        &&& crate::record::layer_shifts_fit(donor.recorder.layers, shift)
    }

    /// Why `donor` cannot be appended to this scene, if it cannot.
    pub open spec fn rejection(self, donor: SceneView, dx: int, dy: int) -> Option<
        AppendSceneError,
    > {
        if !crate::geometry::is_tile_granular(dx, dy) {
            Some(AppendSceneError::UnalignedTranslation)
        } else if self.width != donor.width || self.height != donor.height {
            Some(AppendSceneError::ViewportMismatch)
        } else if !self.is_settled() || !donor.is_settled() {
            Some(AppendSceneError::OpenLayers)
        } else if donor.recorder.filter_layers.len() > 0 {
            Some(AppendSceneError::UnsupportedFilterLayers)
        } else if !crate::record::all_clips_in_default_storage(donor.recorder.layers) {
            Some(AppendSceneError::UnsupportedThreadedClips)
        } else if !self.append_fits(donor, dx, dy) {
            Some(AppendSceneError::Overflow)
        } else {
            None
        }
    }

    /// Whether an open last batch of this scene ends where the first batch of `donor` will start,
    /// as it does for settled recordings: the one ends with all draws, the other starts with the
    /// first.
    pub open spec fn batches_meet(self, donor: SceneView) -> bool {
        continues(self.recorder.nodes, donor.recorder.nodes) ==> self.recorder.nodes.last().end
            == donor.recorder.nodes[0].start + self.recorder.draws.len()
    }
}

/// Whether the strips of every clip path are in the default storage.
fn clips_in_default_storage(layers: &Vec<RecordedLayer>) -> (default: bool)
    ensures
        default == crate::record::all_clips_in_default_storage(
            crate::record::layer_views(layers@),
        ),
{
    let ghost views = crate::record::layer_views(layers@);
    let mut i: usize = 0;
    while i < layers.len()
        invariant
            i <= layers@.len(),
            views == crate::record::layer_views(layers@),
            forall|j: int| 0 <= j < i ==> (#[trigger] views[j]).clips_in_default_storage(),
        decreases layers@.len() - i,
    {
        assert(views[i as int] == layers@[i as int]@);
        if let Some(clip) = &layers[i].clip_path {
            if clip.thread_idx != 0 {
                return false;
            }
        }
        i += 1;
    }
    true
}

/// Moves the nodes of `donor` behind `nodes`. Where the last batch of `nodes` is still open, it
/// goes on into the first node of `donor`, as in one recording.
fn join_nodes(nodes: &mut Vec<Node>, donor: Vec<Node>)
    ensures
        crate::record::node_views(final(nodes)@) == joined_nodes(
            crate::record::node_views(old(nodes)@),
            crate::record::node_views(donor@),
        ),
{
    let ghost before = crate::record::node_views(nodes@);
    let ghost moved = crate::record::node_views(donor@);
    let mut donor = donor;
    let count: usize = nodes.len();
    if count > 0 && donor.len() > 0 && nodes[count - 1].layer.is_none() {
        let first = donor.remove(0);
        let start: u32 = nodes[count - 1].draws.start;
        nodes[count - 1] = Node { draws: start..first.draws.end, layer: first.layer };
        assert(crate::record::node_views(donor@) =~= moved.drop_first());
        assert(crate::record::node_views(nodes@) =~= before.drop_last().push(
            NodeView { start: before.last().start, end: moved[0].end, layer: moved[0].layer },
        ));
    }
    let ghost front = nodes@;
    let ghost back = donor@;
    nodes.append(&mut donor);
    assert(crate::record::node_views(nodes@) =~= crate::record::node_views(front)
        + crate::record::node_views(back));
}

impl CommandRecorder {
    /// Moves a recording behind this one. Maxima grow and flags are combined, so that a renderer
    /// provisions for both.
    fn join(&mut self, donor: CommandRecorder)
        requires
            donor@.layer_stack.len() == 0,
        ensures
            final(self)@ == old(self)@.joined(donor@),
    {
        let ghost before = *self;
        let mut donor = donor;
        let ghost moved = donor;
        self.draws.append(&mut donor.draws);
        assert(crate::record::draw_views(self.draws@) =~= before@.draws + moved@.draws);
        self.layers.append(&mut donor.layers);
        assert(crate::record::layer_views(self.layers@) =~= before@.layers + moved@.layers);
        join_nodes(&mut self.nodes, donor.nodes);
        if donor.max_layer_depth > self.max_layer_depth {
            self.max_layer_depth = donor.max_layer_depth;
        }
        self.root_is_blend_target = self.root_is_blend_target || donor.root_is_blend_target;
        self.has_non_default_blend = self.has_non_default_blend || donor.has_non_default_blend;
        self.largest_layer_size = max_size(self.largest_layer_size, donor.largest_layer_size);
        self.largest_filter_layer_size = max_size(
            self.largest_filter_layer_size,
            donor.largest_filter_layer_size,
        );
        assert(self@ =~= before@.joined(moved@));
    }
}

/// What an appended scene stores, strip by strip.
proof fn lemma_stored_strips(target: Scene, donor: Scene, appended: Scene, dx: int, dy: int)
    requires
        appended@ == target@.appended(donor@, dx, dy),
    ensures
        ({
            let strips = crate::strips::stored_strips(target.strip_storage);
            let moved = crate::strips::stored_strips(donor.strip_storage);
            let all = crate::strips::stored_strips(appended.strip_storage);
            &&& all.len() == strips.len() + moved.len()
            &&& forall|i: int| 0 <= i < strips.len() ==> #[trigger] all[i] == strips[i]
            &&& forall|i: int|
                0 <= i < moved.len() ==> all[strips.len() + i]@ == (#[trigger] moved[i])@.shifted(
                    target@.shift_behind(dx, dy),
                )
        }),
{
    let strips = crate::strips::stored_strips(target.strip_storage);
    let moved = crate::strips::stored_strips(donor.strip_storage);
    let all = crate::strips::stored_strips(appended.strip_storage);
    assert(all.len() == appended@.strips.len());
    assert forall|i: int| 0 <= i < strips.len() implies #[trigger] all[i] == strips[i] by {
        assert(appended@.strips[i] == target@.strips[i]);
        assert(all[i]@ == strips[i]@);
    }
    assert forall|i: int| 0 <= i < moved.len() implies all[strips.len() + i]@ == (
    #[trigger] moved[i])@.shifted(target@.shift_behind(dx, dy)) by {
        assert(appended@.strips[strips.len() + i] == all[strips.len() + i]@);
        assert(donor@.strips[i] == moved[i]@);
    }
}

impl Scene {
    /// Append the contents of `other` onto this scene, in painter order (after everything already
    /// recorded here), optionally shifted by a translation in pixels.
    ///
    /// `other` is consumed: its strips, paints and commands move into this scene with their indices
    /// rewritten. On rejection this scene is untouched.
    pub fn append_scene(&mut self, other: Self, translate: Option<(u16, u16)>) -> (result: Result<
        (),
        AppendSceneError,
    >)
        ensures
            ({
                let (dx, dy) = translation(translate);
                match old(self)@.rejection(other@, dx, dy) {
                    Some(error) => result == Err::<(), _>(error) && *final(self) == *old(self),
                    None => result is Ok && final(self)@ == old(self)@.appended(other@, dx, dy),
                }
            }),
            old(self)@.wf() && other@.wf() ==> final(self)@.wf(),
            result is Err ==> *final(self) == *old(self),
            result == Err::<(), _>(AppendSceneError::UnalignedTranslation) <==> (
            translate matches Some((dx, dy)) && (dx % 4 != 0 || dy % 4 != 0)),
            result is Ok ==> {
                let (dx, dy): (u16, u16) = match translate {
                    Some(offset) => offset,
                    None => (0, 0),
                };
                let strips = crate::strips::stored_strips(old(self).strip_storage);
                let alphas = crate::strips::stored_alphas(old(self).strip_storage);
                let moved = crate::strips::stored_strips(other.strip_storage);
                let all = crate::strips::stored_strips(final(self).strip_storage);
                &&& other.width == old(self).width
                &&& other.height == old(self).height
                &&& other.recorder.layer_stack@.len() == 0
                &&& old(self).recorder.layer_stack@.len() == 0
                &&& other.recorder.filter_layers@.len() == 0
                &&& final(self).width == old(self).width
                &&& final(self).height == old(self).height
                &&& final(self).encoded_paints@ == old(self).encoded_paints@
                    + other.encoded_paints@
                &&& crate::strips::stored_alphas(final(self).strip_storage) == alphas
                    + crate::strips::stored_alphas(other.strip_storage)
                &&& all.len() == strips.len() + moved.len()
                &&& forall|i: int| 0 <= i < strips.len() ==> #[trigger] all[i] == strips[i]
                &&& forall|i: int|
                    0 <= i < moved.len() ==> {
                        let strip = #[trigger] moved[i];
                        let new = all[strips.len() + i];
                        &&& new.y == strip.y + dy
                        &&& new.x == if strip.x == 65535 {
                            65535
                        } else {
                            strip.x + dx
                        }
                        &&& new.alpha_idx == strip.alpha_idx + alphas.len()
                        &&& new.fill_gap == strip.fill_gap
                    }
            },
    {
        let (dx, dy): (u16, u16) = match translate {
            Some(offset) => offset,
            None => (0, 0),
        };
        if dx % tile_width() != 0 || dy % tile_height() != 0 {
            return Err(AppendSceneError::UnalignedTranslation);
        }
        if self.width != other.width || self.height != other.height {
            return Err(AppendSceneError::ViewportMismatch);
        }
        if self.recorder.has_open_layers() || other.recorder.has_open_layers() {
            return Err(AppendSceneError::OpenLayers);
        }
        if !other.recorder.filter_layers.is_empty() {
            return Err(AppendSceneError::UnsupportedFilterLayers);
        }
        if !clips_in_default_storage(&other.recorder.layers) {
            return Err(AppendSceneError::UnsupportedThreadedClips);
        }
        let ghost target = self@;
        let ghost donor = other@;
        let ghost before = other;
        let mut other = other;

        // Offsets into this scene's tables that the donor's indices shift by. Everything is
        // validated before this scene changes.
        let alphas: usize = alpha_count(&self.strip_storage);
        let draws: usize = self.recorder.draws.len();
        let layers: usize = self.recorder.layers.len();
        if alphas > u32::MAX as usize || draws > u32::MAX as usize || layers > u32::MAX as usize {
            return Err(AppendSceneError::Overflow);
        }
        let shift = Shift {
            strip: strip_count(&self.strip_storage),
            alpha: alphas as u32,
            paint: self.encoded_paints.len(),
            draw: draws as u32,
            layer: layers as u32,
            dx,
            dy,
        };
        assert(shift@ == target.shift_behind(dx as int, dy as int));
        match shift_strips(&mut other.strip_storage, &shift) {
            Ok(()) => {},
            Err(error) => return Err(error),
        }
        match shift_draws(&mut other.recorder.draws, &shift) {
            Ok(()) => {},
            Err(error) => return Err(error),
        }
        match shift_nodes(&mut other.recorder.nodes, &shift) {
            Ok(()) => {},
            Err(error) => return Err(error),
        }
        match shift_layers(&mut other.recorder.layers, &shift) {
            Ok(()) => {},
            Err(error) => return Err(error),
        }
        assert(other.recorder@ =~= donor.recorder.shifted(shift@));

        // All donor data is rewritten; move it in.
        extend_storage(&mut self.strip_storage, &other.strip_storage);
        self.encoded_paints.append(&mut other.encoded_paints);
        self.recorder.join(other.recorder);
        assert(self@ =~= target.appended(donor, dx as int, dy as int));
        proof {
            lemma_stored_strips(*old(self), before, *self, dx as int, dy as int);
            if target.wf() && donor.wf() {
                crate::laws::recording::law_append_keeps_wf(target, donor, dx as int, dy as int);
            }
        }
        Ok(())
    }
}

} // verus!
