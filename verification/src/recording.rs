//! Recording commands into a scene.
//!
//! Paths come as strips with alpha bytes of their own, and layers get their final bounds when they
//! are popped: generating coverage and measuring it is the caller's work.

use crate::geometry::{max_size, RectU16, RectView, SizeU16};
use crate::paint::{Paint, PaintView};
use crate::record::{
    ClipView, CommandRecorder, DrawView, LayerClip, LayerKind, LayerView, Node, NodeView,
    RecordedDraw, RecordedLayer, RecordedPath, RecordedRect, RecorderView,
};
use crate::scene::{Scene, SceneView};
use crate::shift::ShiftView;
use crate::strips::{
    alpha_count, new_storage, push_alphas, push_strip, strip_count, StorageMode, Strip, StripView,
};
use core::ops::Range;
use vello_common::encode::EncodedPaint;
use vello_common::kurbo::Rect;
use vello_common::paint::PremulColor;
use vello_common::record::LayerProps;
use vstd::prelude::*;

verus! {

/// What to paint a draw with.
#[derive(Debug)]
pub enum PaintSource {
    /// One color.
    Solid(PremulColor),
    /// An encoded paint, to be put into the scene's paint table.
    Encoded(EncodedPaint),
}

/// A clip path: its coverage and its tile-aligned bounds.
#[derive(Debug)]
pub struct ClipPath {
    /// The strips, with indices into `alphas`.
    pub strips: Vec<Strip>,
    pub alphas: Vec<u8>,
    pub bbox: RectU16,
}

/// A clip path with unbounded numbers.
pub struct ClipPathView {
    pub strips: Seq<StripView>,
    pub alphas: Seq<u8>,
    pub bbox: RectView,
}

/// A command to record.
pub enum Command {
    /// Draw a path, given by its strips with indices into `alphas`.
    FillPath { strips: Seq<StripView>, alphas: Seq<u8>, paint: PaintSource },
    /// Draw `rect`, moved by each of `moves` in turn.
    FillRect { rect: Rect, moves: Seq<(int, int)>, paint: PaintSource },
    /// Start a layer. `blends` says whether its blend mode is another than the default one.
    PushLayer { props: LayerProps, blends: bool, clip: Option<ClipPathView> },
    /// End the innermost layer, whose final bounds, already cut to its clip path, are `bbox`.
    PopLayer { bbox: RectView },
}

impl View for ClipPath {
    type V = ClipPathView;

    open spec fn view(&self) -> ClipPathView {
        ClipPathView {
            strips: crate::strips::strip_views(self.strips@),
            alphas: self.alphas@,
            bbox: self.bbox@,
        }
    }
}

/// The clip path that may be there, with unbounded numbers.
pub open spec fn clip_path_view(clip: Option<ClipPath>) -> Option<ClipPathView> {
    match clip {
        Some(clip) => Some(clip@),
        None => None,
    }
}

/// A node list once the draw at `index` is recorded into it: an open last batch that ends there
/// grows, else a new batch starts.
pub open spec fn with_draw_node(nodes: Seq<NodeView>, index: int) -> Seq<NodeView> {
    if nodes.len() > 0 && nodes.last().layer is None && nodes.last().end == index {
        nodes.drop_last().push(NodeView { end: index + 1, ..nodes.last() })
    } else {
        nodes.push(NodeView { start: index, end: index + 1, layer: None })
    }
}

/// A node list once the layer `id` is pushed into it, with `index` draws recorded before: the layer
/// closes an open last batch, else it follows an empty one.
pub open spec fn with_layer_node(nodes: Seq<NodeView>, index: int, id: int) -> Seq<NodeView> {
    if nodes.len() > 0 && nodes.last().layer is None {
        nodes.drop_last().push(NodeView { layer: Some(id), ..nodes.last() })
    } else {
        nodes.push(NodeView { start: index, end: index, layer: Some(id) })
    }
}

/// The rectangle with all coordinates zero.
pub open spec fn zero_rect() -> RectView {
    RectView { x0: 0, y0: 0, x1: 0, y1: 0 }
}

/// A move of alpha indices alone.
pub open spec fn alpha_shift(alpha: int) -> ShiftView {
    ShiftView { strip: 0, alpha, paint: 0, draw: 0, layer: 0, dx: 0, dy: 0 }
}

impl RecorderView {
    /// The recorder of a new scene.
    pub open spec fn empty() -> RecorderView {
        RecorderView {
            nodes: Seq::empty(),
            draws: Seq::empty(),
            layers: Seq::empty(),
            filter_layers: Seq::empty(),
            root_is_blend_target: false,
            max_layer_depth: 0,
            largest_layer_size: None,
            largest_filter_layer_size: None,
            has_non_default_blend: false,
            layer_stack: Seq::empty(),
        }
    }

    /// The nodes of the innermost open layer, or of the root.
    pub open spec fn active_nodes(self) -> Seq<NodeView> {
        if self.layer_stack.len() == 0 {
            self.nodes
        } else {
            self.layers[self.layer_stack.last()].nodes
        }
    }

    /// The recorder with other nodes in the innermost open layer, or in the root.
    pub open spec fn with_active_nodes(self, nodes: Seq<NodeView>) -> RecorderView {
        if self.layer_stack.len() == 0 {
            RecorderView { nodes, ..self }
        } else {
            let id = self.layer_stack.last();
            RecorderView {
                layers: self.layers.update(id, LayerView { nodes, ..self.layers[id] }),
                ..self
            }
        }
    }

    /// The recorder once `draw` is recorded.
    pub open spec fn with_draw(self, draw: DrawView) -> RecorderView {
        let nodes = with_draw_node(self.active_nodes(), self.draws.len() as int);
        RecorderView { draws: self.draws.push(draw), ..self.with_active_nodes(nodes) }
    }

    /// The recorder once a layer is pushed.
    pub open spec fn with_layer(
        self,
        props: LayerProps,
        blends: bool,
        clip_path: Option<ClipView>,
    ) -> RecorderView {
        let id = self.layers.len() as int;
        let depth = self.layer_stack.len() as int + 1;
        let layer = LayerView {
            props,
            clip_path,
            nodes: Seq::empty(),
            kind: LayerKind::Regular,
            depth,
            bbox: zero_rect(),
        };
        let nodes = with_layer_node(self.active_nodes(), self.draws.len() as int, id);
        let noded = self.with_active_nodes(nodes);
        RecorderView {
            layers: noded.layers.push(layer),
            root_is_blend_target: self.root_is_blend_target || (blends && self.layer_stack.len()
                == 0),
            max_layer_depth: crate::geometry::max_of(self.max_layer_depth, depth),
            has_non_default_blend: self.has_non_default_blend || blends,
            layer_stack: self.layer_stack.push(id),
            ..noded
        }
    }

    /// The recorder once the innermost layer is popped, with the bounds `bbox`.
    pub open spec fn with_layer_popped(self, bbox: RectView) -> RecorderView {
        let id = self.layer_stack.last();
        RecorderView {
            layers: self.layers.update(id, LayerView { bbox, ..self.layers[id] }),
            largest_layer_size: crate::geometry::max_size_of(
                self.largest_layer_size,
                Some(bbox.size()),
            ),
            layer_stack: self.layer_stack.drop_last(),
            ..self
        }
    }
}

impl SceneView {
    /// A new scene.
    pub open spec fn empty(width: int, height: int) -> SceneView {
        SceneView {
            width,
            height,
            strips: Seq::empty(),
            alphas: Seq::empty(),
            mode: StorageMode::Append,
            paints: Seq::empty(),
            recorder: RecorderView::empty(),
        }
    }

    /// The scene with the coverage of a path behind what is stored.
    pub open spec fn with_coverage(self, strips: Seq<StripView>, alphas: Seq<u8>) -> SceneView {
        SceneView {
            strips: self.strips + crate::strips::shifted_strips(
                strips,
                alpha_shift(self.alphas.len() as int),
            ),
            alphas: self.alphas + alphas,
            ..self
        }
    }

    /// The scene with what `source` needs in its paint table.
    pub open spec fn with_source(self, source: PaintSource) -> SceneView {
        match source {
            PaintSource::Solid(_) => self,
            PaintSource::Encoded(paint) => SceneView { paints: self.paints.push(paint), ..self },
        }
    }

    /// The paint that stands for `source` once it is in the paint table.
    pub open spec fn paint_for(self, source: PaintSource) -> PaintView {
        match source {
            PaintSource::Solid(color) => PaintView::Solid(color),
            PaintSource::Encoded(_) => PaintView::Indexed(self.paints.len() as int),
        }
    }

    /// The clip path of a layer about to be pushed, with its strips behind what is stored.
    pub open spec fn clip_for(self, clip: ClipPathView) -> ClipView {
        ClipView {
            start: self.strips.len() as int,
            end: self.strips.len() as int + clip.strips.len(),
            thread_idx: 0,
            bbox: clip.bbox,
        }
    }

    /// The scene once `command` is recorded.
    pub open spec fn recorded(self, command: Command) -> SceneView {
        match command {
            Command::FillPath { strips, alphas, paint } => SceneView {
                recorder: self.recorder.with_draw(
                    DrawView::Path {
                        start: self.strips.len() as int,
                        end: self.strips.len() as int + strips.len(),
                        paint: self.paint_for(paint),
                    },
                ),
                ..self.with_coverage(strips, alphas).with_source(paint)
            },
            Command::FillRect { rect, moves, paint } => SceneView {
                recorder: self.recorder.with_draw(
                    DrawView::Rect { rect, moves, paint: self.paint_for(paint) },
                ),
                ..self.with_source(paint)
            },
            Command::PushLayer { props, blends, clip } => match clip {
                Some(clip) => SceneView {
                    recorder: self.recorder.with_layer(props, blends, Some(self.clip_for(clip))),
                    ..self.with_coverage(clip.strips, clip.alphas)
                },
                None => SceneView {
                    recorder: self.recorder.with_layer(props, blends, None),
                    ..self
                },
            },
            Command::PopLayer { bbox } => SceneView {
                recorder: self.recorder.with_layer_popped(bbox),
                ..self
            },
        }
    }

    /// The scene once all of `commands` are recorded, in order.
    pub open spec fn recorded_all(self, commands: Seq<Command>) -> SceneView
        decreases commands.len(),
    {
        if commands.len() == 0 {
            self
        } else {
            self.recorded_all(commands.drop_last()).recorded(commands.last())
        }
    }
}

impl SceneView {
    /// Whether `command` makes sense here: its coverage points into its own alpha bytes, and it
    /// pops no layer but an open, regular one.
    pub open spec fn accepts(self, command: Command) -> bool {
        match command {
            Command::FillPath { strips, alphas, paint } => crate::validity::coverage_valid(
                strips,
                alphas,
            ),
            Command::FillRect { .. } => true,
            Command::PushLayer { props, blends, clip } => clip matches Some(clip)
                ==> crate::validity::coverage_valid(clip.strips, clip.alphas),
            Command::PopLayer { bbox } => {
                &&& self.recorder.layer_stack.len() > 0
                &&& self.recorder.layers[self.recorder.layer_stack.last()].kind is Regular
            },
        }
    }
}

/// Recording keeps a scene well-formed.
pub proof fn law_recording_keeps_wf(scene: SceneView, command: Command)
    requires
        scene.wf(),
        scene.accepts(command),
    ensures
        scene.recorded(command).wf(),
{
    match command {
        Command::FillPath { strips, alphas, paint } => {
            let draw = DrawView::Path {
                start: scene.strips.len() as int,
                end: scene.strips.len() as int + strips.len(),
                paint: scene.paint_for(paint),
            };
            let next = scene.recorded(command);
            lemma_draw_keeps_wf(
                scene.recorder,
                draw,
                scene.strips.len() as int,
                scene.paints.len() as int,
                next.strips.len() as int,
                next.paints.len() as int,
            );
        },
        Command::FillRect { rect, moves, paint } => {
            let draw = DrawView::Rect { rect, moves, paint: scene.paint_for(paint) };
            let next = scene.recorded(command);
            lemma_draw_keeps_wf(
                scene.recorder,
                draw,
                scene.strips.len() as int,
                scene.paints.len() as int,
                next.strips.len() as int,
                next.paints.len() as int,
            );
        },
        Command::PushLayer { props, blends, clip } => {
            let next = scene.recorded(command);
            let clip_path = match clip {
                Some(clip) => Some(scene.clip_for(clip)),
                None => None,
            };
            lemma_layer_keeps_wf(
                scene.recorder,
                props,
                blends,
                clip_path,
                scene.strips.len() as int,
                next.strips.len() as int,
                scene.paints.len() as int,
            );
        },
        Command::PopLayer { bbox } => {
            let before = scene.recorder;
            let after = scene.recorded(command).recorder;
            assert(after.stack_valid());
            assert(after.batches_valid()) by {
                if before.layer_stack.len() > 1 {
                    let k = before.layer_stack.len() - 2;
                    assert(before.layer_stack[k] < before.layer_stack.last());
                    assert(crate::validity::ends_in_layer(
                        before.layers[before.layer_stack[k]].nodes,
                    ));
                }
            }
        },
    }
}

proof fn lemma_draw_keeps_wf(
    recorder: RecorderView,
    draw: DrawView,
    strips: int,
    paints: int,
    new_strips: int,
    new_paints: int,
)
    requires
        recorder.wf(strips, paints),
        strips <= new_strips,
        paints <= new_paints,
        draw.is_valid(new_strips, new_paints),
    ensures
        recorder.with_draw(draw).wf(new_strips, new_paints),
{
    let next = recorder.with_draw(draw);
    assert forall|i: int| 0 <= i < next.draws.len() implies (#[trigger] next.draws[i]).is_valid(
        new_strips,
        new_paints,
    ) by {
        if i < recorder.draws.len() {
            assert(recorder.draws[i].is_valid(strips, paints));
        }
    }
    assert forall|i: int| 0 <= i < next.layers.len() implies (#[trigger] next.layers[i]).is_valid(
        next.draws.len() as int,
        next.layers.len() as int,
        new_strips,
    ) by {
        assert(recorder.layers[i].is_valid(
            recorder.draws.len() as int,
            recorder.layers.len() as int,
            strips,
        ));
    }
}

proof fn lemma_layer_keeps_wf(
    recorder: RecorderView,
    props: LayerProps,
    blends: bool,
    clip_path: Option<ClipView>,
    strips: int,
    new_strips: int,
    paints: int,
)
    requires
        recorder.wf(strips, paints),
        strips <= new_strips,
        clip_path matches Some(clip) ==> 0 <= clip.start <= clip.end <= new_strips,
    ensures
        recorder.with_layer(props, blends, clip_path).wf(new_strips, paints),
{
    let next = recorder.with_layer(props, blends, clip_path);
    assert forall|i: int| 0 <= i < next.draws.len() implies (#[trigger] next.draws[i]).is_valid(
        new_strips,
        paints,
    ) by {
        assert(recorder.draws[i].is_valid(strips, paints));
    }
    assert forall|i: int| 0 <= i < next.layers.len() implies (#[trigger] next.layers[i]).is_valid(
        next.draws.len() as int,
        next.layers.len() as int,
        new_strips,
    ) by {
        if i < recorder.layers.len() {
            assert(recorder.layers[i].is_valid(
                recorder.draws.len() as int,
                recorder.layers.len() as int,
                strips,
            ));
        }
    }
}

impl SceneView {
    /// Whether the coverage of a path can be stored behind what is stored.
    pub open spec fn has_room_for_coverage(self, strips: Seq<StripView>) -> bool {
        &&& self.strips.len() + strips.len() <= usize::MAX
        &&& crate::strips::strips_fit(
            crate::strips::shifted_strips(strips, alpha_shift(self.alphas.len() as int)),
        )
    }

    /// Whether every index that `command` needs can be stored.
    pub open spec fn has_room_for(self, command: Command) -> bool {
        match command {
            Command::FillPath { strips, alphas, paint } => {
                &&& self.has_room_for_coverage(strips)
                &&& self.paint_for(paint).fits()
                &&& self.recorder.draws.len() < u32::MAX
            },
            Command::FillRect { rect, moves, paint } => {
                &&& self.paint_for(paint).fits()
                &&& self.recorder.draws.len() < u32::MAX
            },
            Command::PushLayer { props, blends, clip } => {
                &&& clip matches Some(clip) ==> self.has_room_for_coverage(clip.strips)
                &&& self.recorder.draws.len() <= u32::MAX
                &&& self.recorder.layers.len() <= u32::MAX
                &&& self.recorder.layer_stack.len() < usize::MAX
            },
            Command::PopLayer { bbox } => true,
        }
    }
}

/// Records the draw at `index` into a node list.
fn push_draw_node(nodes: &mut Vec<Node>, index: u32)
    requires
        index < u32::MAX,
    ensures
        crate::record::node_views(final(nodes)@) == with_draw_node(
            crate::record::node_views(old(nodes)@),
            index as int,
        ),
{
    let ghost before = crate::record::node_views(nodes@);
    let count: usize = nodes.len();
    if count > 0 && nodes[count - 1].layer.is_none() && nodes[count - 1].draws.end == index {
        nodes[count - 1].draws.end = index + 1;
    } else {
        nodes.push(Node { draws: index..index + 1, layer: None });
    }
    assert(crate::record::node_views(nodes@) =~= with_draw_node(before, index as int));
}

/// Records the layer `id` into a node list, with `index` draws recorded before.
fn push_layer_node(nodes: &mut Vec<Node>, index: u32, id: u32)
    ensures
        crate::record::node_views(final(nodes)@) == with_layer_node(
            crate::record::node_views(old(nodes)@),
            index as int,
            id as int,
        ),
{
    let ghost before = crate::record::node_views(nodes@);
    let count: usize = nodes.len();
    if count > 0 && nodes[count - 1].layer.is_none() {
        nodes[count - 1].layer = Some(id);
    } else {
        nodes.push(Node { draws: index..index, layer: Some(id) });
    }
    assert(crate::record::node_views(nodes@) =~= with_layer_node(before, index as int, id as int));
}

impl CommandRecorder {
    /// Records a draw into the innermost open layer, or into the root.
    fn push_draw(&mut self, draw: RecordedDraw)
        requires
            old(self)@.stack_valid(),
            old(self)@.draws.len() < u32::MAX,
        ensures
            final(self)@ == old(self)@.with_draw(draw@),
    {
        let ghost before = self@;
        let index: u32 = self.draws.len() as u32;
        self.draws.push(draw);
        let open: usize = self.layer_stack.len();
        if open == 0 {
            push_draw_node(&mut self.nodes, index);
        } else {
            let id: usize = self.layer_stack[open - 1] as usize;
            assert(before.layer_stack[open - 1] == id);
            push_draw_node(&mut self.layers[id].nodes, index);
        }
        assert(self@ =~= before.with_draw(draw@));
    }

    /// Starts a layer in the innermost open layer, or in the root.
    fn push_layer(&mut self, props: LayerProps, blends: bool, clip_path: Option<LayerClip>)
        requires
            old(self)@.stack_valid(),
            old(self)@.draws.len() <= u32::MAX,
            old(self)@.layers.len() <= u32::MAX,
            old(self)@.layer_stack.len() < usize::MAX,
        ensures
            final(self)@ == old(self)@.with_layer(
                props,
                blends,
                crate::record::clip_view(clip_path),
            ),
    {
        let ghost before = self@;
        let index: u32 = self.draws.len() as u32;
        let id: u32 = self.layers.len() as u32;
        let open: usize = self.layer_stack.len();
        let depth: usize = open + 1;
        if open == 0 {
            push_layer_node(&mut self.nodes, index, id);
            if blends {
                self.root_is_blend_target = true;
            }
        } else {
            let parent: usize = self.layer_stack[open - 1] as usize;
            assert(before.layer_stack[open - 1] == parent);
            push_layer_node(&mut self.layers[parent].nodes, index, id);
        }
        if blends {
            self.has_non_default_blend = true;
        }
        if depth > self.max_layer_depth {
            self.max_layer_depth = depth;
        }
        self.layers.push(
            RecordedLayer {
                props,
                clip_path,
                nodes: Vec::new(),
                kind: LayerKind::Regular,
                depth,
                bbox: RectU16 { x0: 0, y0: 0, x1: 0, y1: 0 },
            },
        );
        self.layer_stack.push(id);
        let ghost after = before.with_layer(props, blends, crate::record::clip_view(clip_path));
        assert(self@.layers.last().nodes =~= Seq::<NodeView>::empty());
        assert(self@.layers =~= after.layers);
        assert(self@ =~= after);
    }

    /// Ends the innermost open layer.
    fn pop_layer(&mut self, bbox: RectU16)
        requires
            old(self)@.stack_valid(),
            old(self)@.layer_stack.len() > 0,
        ensures
            final(self)@ == old(self)@.with_layer_popped(bbox@),
    {
        let ghost before = self@;
        let open: usize = self.layer_stack.len();
        let id: usize = self.layer_stack[open - 1] as usize;
        assert(before.layer_stack[open - 1] == id);
        self.layers[id].bbox = bbox;
        let size = SizeU16 {
            width: if bbox.x1 >= bbox.x0 { bbox.x1 - bbox.x0 } else { 0 },
            height: if bbox.y1 >= bbox.y0 { bbox.y1 - bbox.y0 } else { 0 },
        };
        self.largest_layer_size = max_size(self.largest_layer_size, Some(size));
        self.layer_stack.pop();
        assert(self@ =~= before.with_layer_popped(bbox@));
    }
}

impl Scene {
    /// A scene for a viewport of `width` by `height` pixels, with nothing recorded.
    pub fn new(width: u16, height: u16) -> (scene: Self)
        ensures
            scene@ == SceneView::empty(width as int, height as int),
            scene@.wf(),
            scene.width == width,
            scene.height == height,
    {
        let scene = Scene {
            width,
            height,
            strip_storage: new_storage(),
            encoded_paints: Vec::new(),
            recorder: CommandRecorder {
                nodes: Vec::new(),
                draws: Vec::new(),
                layers: Vec::new(),
                filter_layers: Vec::new(),
                root_is_blend_target: false,
                max_layer_depth: 0,
                largest_layer_size: None,
                largest_filter_layer_size: None,
                has_non_default_blend: false,
                layer_stack: Vec::new(),
            },
        };
        assert(scene@ =~= SceneView::empty(width as int, height as int));
        scene
    }

    /// Stores the coverage of a path, and returns where its strips are.
    fn store_coverage(&mut self, strips: &Vec<Strip>, alphas: &Vec<u8>) -> (range: Range<usize>)
        requires
            old(self)@.has_room_for_coverage(crate::strips::strip_views(strips@)),
        ensures
            final(self)@ == old(self)@.with_coverage(crate::strips::strip_views(strips@), alphas@),
            range.start == old(self)@.strips.len(),
            range.end == old(self)@.strips.len() + strips@.len(),
    {
        let ghost before = self@;
        let ghost views = crate::strips::strip_views(strips@);
        let ghost shifted = crate::strips::shifted_strips(
            views,
            alpha_shift(before.alphas.len() as int),
        );
        let start: usize = strip_count(&self.strip_storage);
        let alpha_base: usize = alpha_count(&self.strip_storage);
        let mut i: usize = 0;
        while i < strips.len()
            invariant
                i <= strips@.len(),
                alpha_base == before.alphas.len(),
                views == crate::strips::strip_views(strips@),
                shifted == crate::strips::shifted_strips(
                    views,
                    alpha_shift(before.alphas.len() as int),
                ),
                crate::strips::strips_fit(shifted),
                self@ == (SceneView { strips: before.strips + shifted.take(i as int), ..before }),
            decreases strips@.len() - i,
        {
            let strip = strips[i];
            assert(shifted[i as int] == strip@.shifted(alpha_shift(alpha_base as int)));
            assert(shifted[i as int].fits());
            let ghost stored = self@.strips;
            push_strip(
                &mut self.strip_storage,
                Strip {
                    x: strip.x,
                    y: strip.y,
                    alpha_idx: strip.alpha_idx + alpha_base as u32,
                    fill_gap: strip.fill_gap,
                },
            );
            assert(self@.strips =~= stored.push(shifted[i as int]));
            assert(shifted.take(i + 1) =~= shifted.take(i as int).push(shifted[i as int]));
            assert(self@ =~= SceneView { strips: before.strips + shifted.take(i + 1), ..before });
            i += 1;
        }
        push_alphas(&mut self.strip_storage, alphas);
        assert(shifted.take(strips@.len() as int) =~= shifted);
        assert(self@ =~= before.with_coverage(views, alphas@));
        start..start + strips.len()
    }

    /// Puts what `source` needs into the paint table, and returns the paint that stands for it.
    fn store_paint(&mut self, source: PaintSource) -> (paint: Paint)
        requires
            old(self)@.paint_for(source).fits(),
        ensures
            final(self)@ == old(self)@.with_source(source),
            paint@ == old(self)@.paint_for(source),
    {
        match source {
            PaintSource::Solid(color) => Paint::Solid(color),
            PaintSource::Encoded(encoded) => {
                let index: u32 = self.encoded_paints.len() as u32;
                self.encoded_paints.push(encoded);
                Paint::Indexed(index)
            },
        }
    }

    /// Draws a path, given by its strips with indices into `alphas`.
    pub fn fill_path(&mut self, strips: &Vec<Strip>, alphas: &Vec<u8>, paint: PaintSource)
        requires
            old(self)@.wf(),
            ({
                let command = Command::FillPath {
                    strips: crate::strips::strip_views(strips@),
                    alphas: alphas@,
                    paint,
                };
                old(self)@.accepts(command) && old(self)@.has_room_for(command)
            }),
        ensures
            final(self)@ == old(self)@.recorded(
                Command::FillPath {
                    strips: crate::strips::strip_views(strips@),
                    alphas: alphas@,
                    paint,
                },
            ),
            final(self)@.wf(),
    {
        let ghost before = self@;
        let ghost command = Command::FillPath {
            strips: crate::strips::strip_views(strips@),
            alphas: alphas@,
            paint,
        };
        proof {
            law_recording_keeps_wf(before, command);
        }
        let range = self.store_coverage(strips, alphas);
        let paint = self.store_paint(paint);
        self.recorder.push_draw(RecordedDraw::Path(RecordedPath { strips: range, paint }));
        assert(self@ =~= before.recorded(command));
    }

    /// Draws `rect`, moved by the pixels of each of `moves` in turn.
    pub fn fill_rect(&mut self, rect: Rect, moves: Vec<(u16, u16)>, paint: PaintSource)
        requires
            old(self)@.wf(),
            old(self)@.has_room_for(
                Command::FillRect { rect, moves: crate::record::move_views(moves@), paint },
            ),
        ensures
            final(self)@ == old(self)@.recorded(
                Command::FillRect { rect, moves: crate::record::move_views(moves@), paint },
            ),
            final(self)@.wf(),
    {
        let ghost before = self@;
        let ghost command = Command::FillRect {
            rect,
            moves: crate::record::move_views(moves@),
            paint,
        };
        proof {
            law_recording_keeps_wf(before, command);
        }
        let paint = self.store_paint(paint);
        self.recorder.push_draw(RecordedDraw::Rect(RecordedRect { rect, moves, paint }));
        assert(self@ =~= before.recorded(command));
    }

    /// Starts a layer, clipped to `clip` if there is one. `blends` says whether its blend mode is
    /// another than the default one.
    pub fn push_layer(&mut self, props: LayerProps, blends: bool, clip: Option<ClipPath>)
        requires
            old(self)@.wf(),
            ({
                let command = Command::PushLayer { props, blends, clip: clip_path_view(clip) };
                old(self)@.accepts(command) && old(self)@.has_room_for(command)
            }),
        ensures
            final(self)@ == old(self)@.recorded(
                Command::PushLayer { props, blends, clip: clip_path_view(clip) },
            ),
            final(self)@.wf(),
    {
        let ghost before = self@;
        let ghost command = Command::PushLayer { props, blends, clip: clip_path_view(clip) };
        proof {
            law_recording_keeps_wf(before, command);
        }
        let clip_path = match clip {
            Some(clip) => Some(
                LayerClip {
                    strip_range: self.store_coverage(&clip.strips, &clip.alphas),
                    thread_idx: 0,
                    bbox: clip.bbox,
                },
            ),
            None => None,
        };
        self.recorder.push_layer(props, blends, clip_path);
        assert(self@ =~= before.recorded(command));
    }

    /// Ends the innermost layer, whose final bounds, tile-aligned and already cut to its clip path,
    /// are `bbox`.
    pub fn pop_layer(&mut self, bbox: RectU16)
        requires
            old(self)@.wf(),
            old(self)@.accepts(Command::PopLayer { bbox: bbox@ }),
        ensures
            final(self)@ == old(self)@.recorded(Command::PopLayer { bbox: bbox@ }),
            final(self)@.wf(),
    {
        let ghost before = self@;
        proof {
            law_recording_keeps_wf(before, Command::PopLayer { bbox: bbox@ });
        }
        self.recorder.pop_layer(bbox);
        assert(self@ =~= before.recorded(Command::PopLayer { bbox: bbox@ }));
    }
}

} // verus!
