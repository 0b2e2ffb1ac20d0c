//! The tables of a recording: draws, nodes that batch them, and layers.

use crate::error::AppendSceneError;
use crate::geometry::{translated_bbox, RectU16, RectView, SizeU16, SizeView};
use crate::paint::{remap_paint, Paint, PaintView};
use crate::shift::{Shift, ShiftView};
use core::ops::Range;
use vello_common::filter::{FilterData, FilterLayerPlacement};
use vello_common::kurbo::Rect;
use vello_common::record::LayerProps;
use vstd::prelude::*;

verus! {

/// `Rect` of `kurbo`, which `vello_common` exports: a rectangle with floating-point corners,
/// carried as it is.
#[verifier::external_type_specification]
#[verifier::external_body]
pub struct ExRect(Rect);

/// `LayerProps` of `vello_common`: how a layer is composited (blend mode, opacity, mask), carried
/// as it is.
#[verifier::external_type_specification]
#[verifier::external_body]
pub struct ExLayerProps(LayerProps);

/// `FilterData` of `vello_common`: the filter of a filter layer, carried as it is.
#[verifier::external_type_specification]
#[verifier::external_body]
pub struct ExFilterData(FilterData);

/// `FilterLayerPlacement` of `vello_common`: where a filter layer is placed, carried as it is.
#[verifier::external_type_specification]
#[verifier::external_body]
pub struct ExFilterLayerPlacement(FilterLayerPlacement);

/// A path, drawn through its strips.
#[derive(Debug)]
pub struct RecordedPath {
    /// The strips of the path in the scene's storage.
    pub strips: Range<usize>,
    pub paint: Paint,
}

/// A rectangle, drawn without strips.
///
/// Its corners are floating-point numbers and stay as recorded. The rectangle to draw is `rect`,
/// with the pixels of each of `moves` added to its corners in turn: a corner may be rounded at each
/// step, so that two moves are not always one move by their sum.
#[derive(Debug)]
pub struct RecordedRect {
    pub rect: Rect,
    /// Horizontal and vertical pixels to move by, first move first.
    pub moves: Vec<(u16, u16)>,
    pub paint: Paint,
}

/// A draw command.
#[derive(Debug)]
pub enum RecordedDraw {
    Path(RecordedPath),
    Rect(RecordedRect),
}

/// A batch of draws, and a layer to composite behind them.
#[derive(Debug)]
pub struct Node {
    /// A contiguous, possibly empty batch of the recorder's draws.
    pub draws: Range<u32>,
    /// The layer composited after the draws.
    pub layer: Option<u32>,
}

/// The clip path of a layer.
#[derive(Debug)]
pub struct LayerClip {
    /// The strips of the clip path.
    pub strip_range: Range<usize>,
    /// Which thread-local storage holds the strips.
    pub thread_idx: u8,
    /// Tile-aligned bounds of the clip path.
    pub bbox: RectU16,
}

/// Whether a layer is filtered.
#[derive(Debug)]
pub enum LayerKind {
    Regular,
    Filter { filter_data: FilterData, placement: FilterLayerPlacement },
}

/// A layer with the nodes recorded into it.
#[derive(Debug)]
pub struct RecordedLayer {
    /// How the layer is composited. Its clip path is in `clip_path`.
    pub props: LayerProps,
    pub clip_path: Option<LayerClip>,
    pub nodes: Vec<Node>,
    pub kind: LayerKind,
    /// Nesting depth of the layer.
    pub depth: usize,
    /// Tile-aligned bounds of the layer.
    pub bbox: RectU16,
}

/// Everything recorded into a scene but its strips and paints.
#[derive(Debug)]
pub struct CommandRecorder {
    /// The nodes of the root layer.
    pub nodes: Vec<Node>,
    /// All draw commands, in the order in which they were recorded.
    pub draws: Vec<RecordedDraw>,
    /// All layers, by their id.
    pub layers: Vec<RecordedLayer>,
    /// Ids of the filter layers.
    pub filter_layers: Vec<u32>,
    /// Whether something is blended into the root in another way than the default one.
    pub root_is_blend_target: bool,
    /// The greatest nesting depth of a layer.
    pub max_layer_depth: usize,
    /// The largest dimensions of a layer.
    pub largest_layer_size: Option<SizeU16>,
    /// The largest dimensions of a filter layer.
    pub largest_filter_layer_size: Option<SizeU16>,
    /// Whether a layer uses another blend mode than the default one.
    pub has_non_default_blend: bool,
    /// Ids of the pushed layers that were not popped yet, innermost last.
    pub layer_stack: Vec<u32>,
}

/// A draw with unbounded numbers.
#[verifier::ext_equal]
pub enum DrawView {
    Path { start: int, end: int, paint: PaintView },
    Rect { rect: Rect, moves: Seq<(int, int)>, paint: PaintView },
}

/// The moves of a list with unbounded numbers.
pub open spec fn move_views(moves: Seq<(u16, u16)>) -> Seq<(int, int)> {
    moves.map_values(|by: (u16, u16)| (by.0 as int, by.1 as int))
}

/// A node with unbounded numbers.
pub struct NodeView {
    pub start: int,
    pub end: int,
    pub layer: Option<int>,
}

/// A clip path with unbounded numbers.
pub struct ClipView {
    pub start: int,
    pub end: int,
    pub thread_idx: int,
    pub bbox: RectView,
}

/// A layer with unbounded numbers.
#[verifier::ext_equal]
pub struct LayerView {
    pub props: LayerProps,
    pub clip_path: Option<ClipView>,
    pub nodes: Seq<NodeView>,
    pub kind: LayerKind,
    pub depth: int,
    pub bbox: RectView,
}

/// A recorder with unbounded numbers.
#[verifier::ext_equal]
pub struct RecorderView {
    pub nodes: Seq<NodeView>,
    pub draws: Seq<DrawView>,
    pub layers: Seq<LayerView>,
    pub filter_layers: Seq<u32>,
    pub root_is_blend_target: bool,
    pub max_layer_depth: int,
    pub largest_layer_size: Option<SizeView>,
    pub largest_filter_layer_size: Option<SizeView>,
    pub has_non_default_blend: bool,
    pub layer_stack: Seq<int>,
}

impl View for RecordedDraw {
    type V = DrawView;

    open spec fn view(&self) -> DrawView {
        match self {
            RecordedDraw::Path(path) => DrawView::Path {
                start: path.strips.start as int,
                end: path.strips.end as int,
                paint: path.paint@,
            },
            RecordedDraw::Rect(rect) => DrawView::Rect {
                rect: rect.rect,
                moves: move_views(rect.moves@),
                paint: rect.paint@,
            },
        }
    }
}

/// The number that may be there, unbounded.
pub open spec fn id_view(id: Option<u32>) -> Option<int> {
    match id {
        Some(id) => Some(id as int),
        None => None,
    }
}

impl View for Node {
    type V = NodeView;

    open spec fn view(&self) -> NodeView {
        NodeView {
            start: self.draws.start as int,
            end: self.draws.end as int,
            layer: id_view(self.layer),
        }
    }
}

impl View for LayerClip {
    type V = ClipView;

    open spec fn view(&self) -> ClipView {
        ClipView {
            start: self.strip_range.start as int,
            end: self.strip_range.end as int,
            thread_idx: self.thread_idx as int,
            bbox: self.bbox@,
        }
    }
}

/// The clip path that may be there, with unbounded numbers.
pub open spec fn clip_view(clip: Option<LayerClip>) -> Option<ClipView> {
    match clip {
        Some(clip) => Some(clip@),
        None => None,
    }
}

/// The nodes of a list with unbounded numbers.
pub open spec fn node_views(nodes: Seq<Node>) -> Seq<NodeView> {
    nodes.map_values(|node: Node| node@)
}

/// The draws of a list with unbounded numbers.
pub open spec fn draw_views(draws: Seq<RecordedDraw>) -> Seq<DrawView> {
    draws.map_values(|draw: RecordedDraw| draw@)
}

impl View for RecordedLayer {
    type V = LayerView;

    open spec fn view(&self) -> LayerView {
        LayerView {
            props: self.props,
            clip_path: clip_view(self.clip_path),
            nodes: node_views(self.nodes@),
            kind: self.kind,
            depth: self.depth as int,
            bbox: self.bbox@,
        }
    }
}

/// The layers of a list with unbounded numbers.
pub open spec fn layer_views(layers: Seq<RecordedLayer>) -> Seq<LayerView> {
    layers.map_values(|layer: RecordedLayer| layer@)
}

impl View for CommandRecorder {
    type V = RecorderView;

    open spec fn view(&self) -> RecorderView {
        RecorderView {
            nodes: node_views(self.nodes@),
            draws: draw_views(self.draws@),
            layers: layer_views(self.layers@),
            filter_layers: self.filter_layers@,
            root_is_blend_target: self.root_is_blend_target,
            max_layer_depth: self.max_layer_depth as int,
            largest_layer_size: crate::geometry::size_view(self.largest_layer_size),
            largest_filter_layer_size: crate::geometry::size_view(self.largest_filter_layer_size),
            has_non_default_blend: self.has_non_default_blend,
            layer_stack: self.layer_stack@.map_values(|id: u32| id as int),
        }
    }
}

impl DrawView {
    /// The draw with its strips and its paint found behind those of another scene, and its pixels
    /// moved.
    pub open spec fn shifted(self, shift: ShiftView) -> DrawView {
        match self {
            DrawView::Path { start, end, paint } => DrawView::Path {
                start: start + shift.strip,
                end: end + shift.strip,
                paint: paint.shifted(shift.paint),
            },
            DrawView::Rect { rect, moves, paint } => DrawView::Rect {
                rect,
                moves: moves.push((shift.dx, shift.dy)),
                paint: paint.shifted(shift.paint),
            },
        }
    }

    /// Whether a recorded draw can hold these numbers.
    pub open spec fn fits(self) -> bool {
        match self {
            DrawView::Path { start, end, paint } => {
                &&& 0 <= start <= usize::MAX
                &&& 0 <= end <= usize::MAX
                &&& paint.fits()
            },
            DrawView::Rect { rect, moves, paint } => {
                &&& forall|i: int|
                    0 <= i < moves.len() ==> {
                        &&& 0 <= (#[trigger] moves[i]).0 <= u16::MAX
                        &&& 0 <= moves[i].1 <= u16::MAX
                    }
                &&& paint.fits()
            },
        }
    }
}

impl NodeView {
    /// The node with its draws and its layer found behind those of another scene.
    pub open spec fn shifted(self, shift: ShiftView) -> NodeView {
        NodeView {
            start: self.start + shift.draw,
            end: self.end + shift.draw,
            layer: match self.layer {
                Some(layer) => Some(layer + shift.layer),
                None => None,
            },
        }
    }

    /// Whether a node can hold these numbers.
    pub open spec fn fits(self) -> bool {
        &&& 0 <= self.start <= u32::MAX
        &&& 0 <= self.end <= u32::MAX
        &&& self.layer matches Some(layer) ==> 0 <= layer <= u32::MAX
    }
}

impl ClipView {
    /// The clip path with its strips found behind those of another scene, and its bounds moved.
    pub open spec fn shifted(self, shift: ShiftView) -> ClipView {
        ClipView {
            start: self.start + shift.strip,
            end: self.end + shift.strip,
            thread_idx: self.thread_idx,
            bbox: self.bbox.translated(shift.dx, shift.dy),
        }
    }

    /// Whether the moved clip path can be stored.
    pub open spec fn shift_fits(self, shift: ShiftView) -> bool {
        &&& 0 <= self.start + shift.strip <= usize::MAX
        &&& 0 <= self.end + shift.strip <= usize::MAX
        &&& self.bbox.translation_fits(shift.dx, shift.dy)
    }
}

/// The nodes of a list, each moved.
pub open spec fn shifted_nodes(nodes: Seq<NodeView>, shift: ShiftView) -> Seq<NodeView> {
    nodes.map_values(|node: NodeView| node.shifted(shift))
}

/// Whether each node of a list can be stored.
pub open spec fn nodes_fit(nodes: Seq<NodeView>) -> bool {
    forall|i: int| 0 <= i < nodes.len() ==> (#[trigger] nodes[i]).fits()
}

/// The draws of a list, each moved.
pub open spec fn shifted_draws(draws: Seq<DrawView>, shift: ShiftView) -> Seq<DrawView> {
    draws.map_values(|draw: DrawView| draw.shifted(shift))
}

/// Whether each draw of a list can be stored.
pub open spec fn draws_fit(draws: Seq<DrawView>) -> bool {
    forall|i: int| 0 <= i < draws.len() ==> (#[trigger] draws[i]).fits()
}

impl LayerView {
    /// The layer with everything that it points to found behind the tables of another scene, and
    /// its bounds moved.
    pub open spec fn shifted(self, shift: ShiftView) -> LayerView {
        LayerView {
            clip_path: match self.clip_path {
                Some(clip) => Some(clip.shifted(shift)),
                None => None,
            },
            nodes: shifted_nodes(self.nodes, shift),
            bbox: self.bbox.translated(shift.dx, shift.dy),
            ..self
        }
    }

    /// Whether the moved layer can be stored.
    pub open spec fn shift_fits(self, shift: ShiftView) -> bool {
        &&& nodes_fit(shifted_nodes(self.nodes, shift))
        &&& self.clip_path matches Some(clip) ==> clip.shift_fits(shift)
        &&& self.bbox.translation_fits(shift.dx, shift.dy)
    }

    /// Whether the strips of the clip path, if there is one, are in the default storage.
    pub open spec fn clips_in_default_storage(self) -> bool {
        self.clip_path matches Some(clip) ==> clip.thread_idx == 0
    }
}

/// The layers of a list, each moved.
pub open spec fn shifted_layers(layers: Seq<LayerView>, shift: ShiftView) -> Seq<LayerView> {
    layers.map_values(|layer: LayerView| layer.shifted(shift))
}

/// Whether each layer of a list can be stored after its move.
pub open spec fn layer_shifts_fit(layers: Seq<LayerView>, shift: ShiftView) -> bool {
    forall|i: int| 0 <= i < layers.len() ==> (#[trigger] layers[i]).shift_fits(shift)
}

/// Whether the strips of every clip path are in the default storage.
pub open spec fn all_clips_in_default_storage(layers: Seq<LayerView>) -> bool {
    forall|i: int| 0 <= i < layers.len() ==> (#[trigger] layers[i]).clips_in_default_storage()
}

/// The range moved up by `base`, where its ends can still be stored.
fn shift_strip_range(range: &Range<usize>, base: usize) -> (shifted: Result<
    Range<usize>,
    AppendSceneError,
>)
    ensures
        match shifted {
            Ok(moved) => moved.start == range.start + base && moved.end == range.end + base,
            Err(error) => error == AppendSceneError::Overflow && (range.start + base > usize::MAX
                || range.end + base > usize::MAX),
        },
{
    match (range.start.checked_add(base), range.end.checked_add(base)) {
        (Some(start), Some(end)) => Ok(start..end),
        _ => Err(AppendSceneError::Overflow),
    }
}

impl RecordedDraw {
    /// Moves the draw, where it can still be stored.
    pub(crate) fn shift(&mut self, shift: &Shift) -> (result: Result<(), AppendSceneError>)
        ensures
            match result {
                Ok(()) => old(self)@.shifted(shift@).fits() && final(self)@ == old(self)@.shifted(
                    shift@,
                ),
                Err(error) => !old(self)@.shifted(shift@).fits() && error
                    == AppendSceneError::Overflow,
            },
    {
        match self {
            RecordedDraw::Path(path) => {
                match shift_strip_range(&path.strips, shift.strip) {
                    Ok(strips) => {
                        path.strips = strips;
                    },
                    Err(error) => return Err(error),
                }
                remap_paint(&mut path.paint, shift.paint)
            },
            RecordedDraw::Rect(rect) => {
                let ghost before = move_views(rect.moves@);
                rect.moves.push((shift.dx, shift.dy));
                assert(move_views(rect.moves@) =~= before.push((shift@.dx, shift@.dy)));
                remap_paint(&mut rect.paint, shift.paint)
            },
        }
    }
}

impl Node {
    /// Moves the node, where it can still be stored.
    pub(crate) fn shift(&mut self, shift: &Shift) -> (result: Result<(), AppendSceneError>)
        ensures
            match result {
                Ok(()) => old(self)@.shifted(shift@).fits() && final(self)@ == old(self)@.shifted(
                    shift@,
                ),
                Err(error) => !old(self)@.shifted(shift@).fits() && error
                    == AppendSceneError::Overflow,
            },
    {
        match (
            self.draws.start.checked_add(shift.draw),
            self.draws.end.checked_add(shift.draw),
        ) {
            (Some(start), Some(end)) => {
                self.draws = start..end;
            },
            _ => return Err(AppendSceneError::Overflow),
        }
        if let Some(layer) = self.layer {
            match layer.checked_add(shift.layer) {
                Some(layer) => {
                    self.layer = Some(layer);
                },
                None => return Err(AppendSceneError::Overflow),
            }
        }
        Ok(())
    }
}

/// Moves every draw of a list, where each of them can still be stored.
pub(crate) fn shift_draws(draws: &mut Vec<RecordedDraw>, shift: &Shift) -> (result: Result<
    (),
    AppendSceneError,
>)
    ensures
        ({
            let shifted = shifted_draws(draw_views(old(draws)@), shift@);
            match result {
                Ok(()) => draws_fit(shifted) && draw_views(final(draws)@) == shifted,
                Err(error) => !draws_fit(shifted) && error == AppendSceneError::Overflow,
            }
        }),
{
    let ghost before = draws@;
    let ghost shifted = shifted_draws(draw_views(before), shift@);
    let count: usize = draws.len();
    let mut i: usize = 0;
    while i < count
        invariant
            i <= count,
            count == before.len(),
            before == old(draws)@,
            shifted == shifted_draws(draw_views(before), shift@),
            draws@.len() == count,
            forall|j: int|
                0 <= j < i ==> (#[trigger] shifted[j]).fits() && draws@[j]@ == shifted[j],
            forall|j: int| i <= j < count ==> #[trigger] draws@[j] == before[j],
        decreases count - i,
    {
        assert(shifted[i as int] == draws@[i as int]@.shifted(shift@));
        match draws[i].shift(shift) {
            Ok(()) => {},
            Err(error) => return Err(error),
        }
        i += 1;
    }
    assert(draw_views(draws@) =~= shifted);
    Ok(())
}

/// Moves every node of a list, where each of them can still be stored.
pub(crate) fn shift_nodes(nodes: &mut Vec<Node>, shift: &Shift) -> (result: Result<
    (),
    AppendSceneError,
>)
    ensures
        ({
            let shifted = shifted_nodes(node_views(old(nodes)@), shift@);
            match result {
                Ok(()) => nodes_fit(shifted) && node_views(final(nodes)@) == shifted,
                Err(error) => !nodes_fit(shifted) && error == AppendSceneError::Overflow,
            }
        }),
{
    let ghost before = nodes@;
    let ghost shifted = shifted_nodes(node_views(before), shift@);
    let count: usize = nodes.len();
    let mut i: usize = 0;
    while i < count
        invariant
            i <= count,
            count == before.len(),
            before == old(nodes)@,
            shifted == shifted_nodes(node_views(before), shift@),
            nodes@.len() == count,
            forall|j: int|
                0 <= j < i ==> (#[trigger] shifted[j]).fits() && nodes@[j]@ == shifted[j],
            forall|j: int| i <= j < count ==> #[trigger] nodes@[j] == before[j],
        decreases count - i,
    {
        assert(shifted[i as int] == nodes@[i as int]@.shifted(shift@));
        match nodes[i].shift(shift) {
            Ok(()) => {},
            Err(error) => return Err(error),
        }
        i += 1;
    }
    assert(node_views(nodes@) =~= shifted);
    Ok(())
}

impl RecordedLayer {
    /// Moves the layer, where it can still be stored.
    pub(crate) fn shift(&mut self, shift: &Shift) -> (result: Result<(), AppendSceneError>)
        ensures
            match result {
                Ok(()) => old(self)@.shift_fits(shift@) && final(self)@ == old(self)@.shifted(
                    shift@,
                ),
                Err(error) => !old(self)@.shift_fits(shift@) && error == AppendSceneError::Overflow,
            },
    {
        match shift_nodes(&mut self.nodes, shift) {
            Ok(()) => {},
            Err(error) => return Err(error),
        }
        if let Some(clip) = &mut self.clip_path {
            let strip_range = match shift_strip_range(&clip.strip_range, shift.strip) {
                Ok(strip_range) => strip_range,
                Err(error) => return Err(error),
            };
            let bbox = match translated_bbox(clip.bbox, shift.dx, shift.dy) {
                Some(bbox) => bbox,
                None => return Err(AppendSceneError::Overflow),
            };
            *clip = LayerClip { strip_range, thread_idx: clip.thread_idx, bbox };
        }
        match translated_bbox(self.bbox, shift.dx, shift.dy) {
            Some(bbox) => {
                self.bbox = bbox;
            },
            None => return Err(AppendSceneError::Overflow),
        }
        Ok(())
    }
}

/// Moves every layer of a list, where each of them can still be stored.
pub(crate) fn shift_layers(layers: &mut Vec<RecordedLayer>, shift: &Shift) -> (result: Result<
    (),
    AppendSceneError,
>)
    ensures
        match result {
            Ok(()) => layer_shifts_fit(layer_views(old(layers)@), shift@) && layer_views(
                final(layers)@,
            ) == shifted_layers(layer_views(old(layers)@), shift@),
            Err(error) => !layer_shifts_fit(layer_views(old(layers)@), shift@) && error
                == AppendSceneError::Overflow,
        },
{
    let ghost before = layer_views(layers@);
    let ghost shifted = shifted_layers(before, shift@);
    let count: usize = layers.len();
    let mut i: usize = 0;
    while i < count
        invariant
            i <= count,
            count == before.len(),
            before == layer_views(old(layers)@),
            shifted == shifted_layers(before, shift@),
            layers@.len() == count,
            forall|j: int|
                0 <= j < i ==> (#[trigger] before[j]).shift_fits(shift@) && layers@[j]@
                    == shifted[j],
            forall|j: int| i <= j < count ==> #[trigger] layers@[j]@ == before[j],
        decreases count - i,
    {
        assert(layers@[i as int]@ == before[i as int]);
        match layers[i].shift(shift) {
            Ok(()) => {},
            Err(error) => return Err(error),
        }
        i += 1;
    }
    assert(layer_views(layers@) =~= shifted);
    Ok(())
}

impl CommandRecorder {
    /// Whether a layer was pushed that was not popped yet.
    pub fn has_open_layers(&self) -> (open: bool)
        ensures
            open <==> self@.layer_stack.len() > 0,
            open <==> self.layer_stack@.len() != 0,
    {
        !self.layer_stack.is_empty()
    }
}

} // verus!
