//! The numbers of a view are the numbers of what it views.

use crate::geometry::{RectU16, SizeU16};
use crate::paint::{Paint, PaintView};
use crate::record::{CommandRecorder, DrawView, LayerClip, Node, RecordedDraw, RecordedLayer};
use crate::recording::ClipPath;
use crate::scene::Scene;
use crate::strips::Strip;
use vstd::prelude::*;

verus! {

/// A strip has the coordinates, the alpha index and the flag of its view.
pub proof fn law_strip_view(strip: Strip)
    ensures
        strip@.x == strip.x,
        strip@.y == strip.y,
        strip@.alpha_idx == strip.alpha_idx,
        strip@.fill_gap == strip.fill_gap,
        strip@.is_sentinel() <==> strip.x == 65535,
{
}

/// A rectangle has the corners of its view, and a size the dimensions of its view.
pub proof fn law_geometry_views(rect: RectU16, size: SizeU16)
    ensures
        rect@.x0 == rect.x0,
        rect@.y0 == rect.y0,
        rect@.x1 == rect.x1,
        rect@.y1 == rect.y1,
        size@.width == size.width,
        size@.height == size.height,
        crate::geometry::size_view(None) is None,
        crate::geometry::size_view(Some(size)) == Some(size@),
{
}

/// A paint has the color, or the index, of its view.
pub proof fn law_paint_view(paint: Paint)
    ensures
        match (paint, paint@) {
            (Paint::Solid(color), PaintView::Solid(view)) => view == color,
            (Paint::Indexed(index), PaintView::Indexed(view)) => view == index,
            _ => false,
        },
{
}

/// A node has the draws and the layer of its view.
pub proof fn law_node_view(node: Node)
    ensures
        node@.start == node.draws.start,
        node@.end == node.draws.end,
        match (node.layer, node@.layer) {
            (Some(layer), Some(view)) => view == layer,
            (None, None) => true,
            _ => false,
        },
{
}

/// A draw has the strips, or the rectangle with its moves, and the paint of its view.
pub proof fn law_draw_view(draw: RecordedDraw)
    ensures
        match (draw, draw@) {
            (RecordedDraw::Path(path), DrawView::Path { start, end, paint }) => {
                &&& start == path.strips.start
                &&& end == path.strips.end
                &&& paint == path.paint@
            },
            (RecordedDraw::Rect(drawn), DrawView::Rect { rect, moves, paint }) => {
                &&& rect == drawn.rect
                &&& moves.len() == drawn.moves@.len()
                &&& forall|i: int|
                    0 <= i < moves.len() ==> {
                        &&& (#[trigger] moves[i]).0 == drawn.moves@[i].0
                        &&& moves[i].1 == drawn.moves@[i].1
                    }
                &&& paint == drawn.paint@
            },
            _ => false,
        },
{
}

/// A clip path of a layer has the strips, the storage and the bounds of its view.
pub proof fn law_clip_view(clip: LayerClip)
    ensures
        clip@.start == clip.strip_range.start,
        clip@.end == clip.strip_range.end,
        clip@.thread_idx == clip.thread_idx,
        clip@.bbox == clip.bbox@,
{
}

/// A layer has everything that its view has.
pub proof fn law_layer_view(layer: RecordedLayer)
    ensures
        layer@.props == layer.props,
        layer@.kind == layer.kind,
        layer@.depth == layer.depth,
        layer@.bbox == layer.bbox@,
        match (layer.clip_path, layer@.clip_path) {
            (Some(clip), Some(view)) => view == clip@,
            (None, None) => true,
            _ => false,
        },
        layer@.nodes.len() == layer.nodes@.len(),
        forall|i: int|
            0 <= i < layer.nodes@.len() ==> #[trigger] layer@.nodes[i] == layer.nodes@[i]@,
{
}

/// A recorder has everything that its view has, in the same order.
pub proof fn law_recorder_view(recorder: CommandRecorder)
    ensures
        recorder@.nodes.len() == recorder.nodes@.len(),
        forall|i: int|
            0 <= i < recorder.nodes@.len() ==> #[trigger] recorder@.nodes[i] == recorder.nodes@[i]@,
        recorder@.draws.len() == recorder.draws@.len(),
        forall|i: int|
            0 <= i < recorder.draws@.len() ==> #[trigger] recorder@.draws[i] == recorder.draws@[i]@,
        recorder@.layers.len() == recorder.layers@.len(),
        forall|i: int|
            0 <= i < recorder.layers@.len() ==> #[trigger] recorder@.layers[i]
                == recorder.layers@[i]@,
        recorder@.layer_stack.len() == recorder.layer_stack@.len(),
        forall|i: int|
            0 <= i < recorder.layer_stack@.len() ==> #[trigger] recorder@.layer_stack[i]
                == recorder.layer_stack@[i],
        recorder@.filter_layers == recorder.filter_layers@,
        recorder@.root_is_blend_target == recorder.root_is_blend_target,
        recorder@.has_non_default_blend == recorder.has_non_default_blend,
        recorder@.max_layer_depth == recorder.max_layer_depth,
        match (recorder.largest_layer_size, recorder@.largest_layer_size) {
            (Some(size), Some(view)) => view == size@,
            (None, None) => true,
            _ => false,
        },
        match (recorder.largest_filter_layer_size, recorder@.largest_filter_layer_size) {
            (Some(size), Some(view)) => view == size@,
            (None, None) => true,
            _ => false,
        },
{
}

/// A scene has everything that its view has, in the same order.
pub proof fn law_scene_view(scene: Scene)
    ensures
        scene@.width == scene.width,
        scene@.height == scene.height,
        scene@.strips.len() == crate::strips::stored_strips(scene.strip_storage).len(),
        forall|i: int|
            0 <= i < scene@.strips.len() ==> #[trigger] scene@.strips[i]
                == crate::strips::stored_strips(scene.strip_storage)[i]@,
        scene@.alphas == crate::strips::stored_alphas(scene.strip_storage),
        scene@.mode == crate::strips::stored_mode(scene.strip_storage),
        scene@.paints == scene.encoded_paints@,
        scene@.recorder == scene.recorder@,
{
}

/// A clip path to record has the strips, the alpha bytes and the bounds of its view.
pub proof fn law_clip_path_view(clip: ClipPath)
    ensures
        clip@.strips.len() == clip.strips@.len(),
        forall|i: int|
            0 <= i < clip.strips@.len() ==> #[trigger] clip@.strips[i] == clip.strips@[i]@,
        clip@.alphas == clip.alphas@,
        clip@.bbox == clip.bbox@,
        crate::recording::clip_path_view(None) is None,
        crate::recording::clip_path_view(Some(clip)) == Some(clip@),
{
}

/// Lists of strips and of moves have the numbers of their views, in the same order.
pub proof fn law_list_views(strips: Seq<Strip>, moves: Seq<(u16, u16)>)
    ensures
        crate::strips::strip_views(strips).len() == strips.len(),
        forall|i: int|
            0 <= i < strips.len() ==> #[trigger] crate::strips::strip_views(strips)[i]
                == strips[i]@,
        crate::record::move_views(moves).len() == moves.len(),
        forall|i: int|
            0 <= i < moves.len() ==> {
                &&& (#[trigger] crate::record::move_views(moves)[i]).0 == moves[i].0
                &&& crate::record::move_views(moves)[i].1 == moves[i].1
            },
{
}

/// A translation moves right by its first number and down by its second, and none moves nothing.
pub proof fn law_translation(dx: u16, dy: u16)
    ensures
        crate::append::translation(Some((dx, dy))).0 == dx,
        crate::append::translation(Some((dx, dy))).1 == dy,
        crate::append::translation(None).0 == 0,
        crate::append::translation(None).1 == 0,
{
}

} // verus!
