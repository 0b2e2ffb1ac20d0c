//! Where everything lies in the tables of an appended scene.

use crate::geometry::{RectView, SizeView};
use crate::paint::PaintView;
use crate::record::DrawView;
use crate::scene::SceneView;
use vstd::prelude::*;

verus! {

/// The viewport and the mode of the target stay. The strips of the target stay in front. Each strip
/// of the donor lies `dx` pixels further right, unless it is a sentinel, and `dy` pixels further
/// down, and its alpha bytes are found behind those of the target.
pub proof fn law_appended_strips(target: SceneView, donor: SceneView, dx: int, dy: int)
    ensures
        ({
            let appended = target.appended(donor, dx, dy);
            let before = target.strips.len();
            &&& appended.width == target.width
            &&& appended.height == target.height
            &&& appended.mode == target.mode
            &&& appended.strips.len() == before + donor.strips.len()
            &&& forall|i: int|
                0 <= i < before ==> #[trigger] appended.strips[i] == target.strips[i]
            &&& forall|i: int|
                0 <= i < donor.strips.len() ==> {
                    let strip = #[trigger] donor.strips[i];
                    let moved = appended.strips[before + i];
                    &&& moved.y == strip.y + dy
                    &&& strip.x != 65535 ==> moved.x == strip.x + dx
                    &&& strip.x == 65535 ==> moved.x == 65535
                    &&& moved.alpha_idx == strip.alpha_idx + target.alphas.len()
                    &&& moved.fill_gap == strip.fill_gap
                }
        }),
{
}

/// The alpha bytes and the paints of the target stay in front, and those of the donor follow.
pub proof fn law_appended_bytes_and_paints(target: SceneView, donor: SceneView, dx: int, dy: int)
    ensures
        ({
            let appended = target.appended(donor, dx, dy);
            &&& appended.alphas.len() == target.alphas.len() + donor.alphas.len()
            &&& forall|i: int|
                0 <= i < target.alphas.len() ==> #[trigger] appended.alphas[i] == target.alphas[i]
            &&& forall|i: int|
                0 <= i < donor.alphas.len() ==> appended.alphas[target.alphas.len() + i]
                    == #[trigger] donor.alphas[i]
            &&& appended.paints.len() == target.paints.len() + donor.paints.len()
            &&& forall|i: int|
                0 <= i < target.paints.len() ==> #[trigger] appended.paints[i] == target.paints[i]
            &&& forall|i: int|
                0 <= i < donor.paints.len() ==> appended.paints[target.paints.len() + i]
                    == #[trigger] donor.paints[i]
        }),
{
}

/// A color stays; an index goes up by as many paints as the target has.
pub proof fn law_shifted_paint(paint: PaintView, base: int)
    ensures
        match (paint, paint.shifted(base)) {
            (PaintView::Solid(color), PaintView::Solid(moved)) => moved == color,
            (PaintView::Indexed(index), PaintView::Indexed(moved)) => moved == index + base,
            _ => false,
        },
        paint.fits() <==> match paint {
            PaintView::Solid(_) => true,
            PaintView::Indexed(index) => 0 <= index && index <= 0xffff_ffff,
        },
{
}

/// The draws of the target stay in front, and those of the donor follow. A path finds its strips
/// behind those of the target; a rectangle keeps its corners and counts one more move, by `dx` to
/// the right and `dy` down; a color stays, and an indexed paint is found behind those of the
/// target.
pub proof fn law_appended_draws(target: SceneView, donor: SceneView, dx: int, dy: int)
    ensures
        ({
            let draws = target.appended(donor, dx, dy).recorder.draws;
            let before = target.recorder.draws.len();
            &&& draws.len() == before + donor.recorder.draws.len()
            &&& forall|i: int| 0 <= i < before ==> #[trigger] draws[i] == target.recorder.draws[i]
            &&& forall|i: int|
                0 <= i < donor.recorder.draws.len() ==> match (
                    #[trigger] donor.recorder.draws[i],
                    draws[before + i],
                ) {
                    (
                        DrawView::Path { start, end, paint },
                        DrawView::Path { start: new_start, end: new_end, paint: new_paint },
                    ) => {
                        &&& new_start == start + target.strips.len()
                        &&& new_end == end + target.strips.len()
                        &&& match (paint, new_paint) {
                            (PaintView::Solid(color), PaintView::Solid(new)) => new == color,
                            (PaintView::Indexed(index), PaintView::Indexed(new)) => new == index
                                + target.paints.len(),
                            _ => false,
                        }
                    },
                    (
                        DrawView::Rect { rect, moves, paint },
                        DrawView::Rect { rect: new_rect, moves: new_moves, paint: new_paint },
                    ) => {
                        &&& new_rect == rect
                        &&& new_moves.len() == moves.len() + 1
                        &&& new_moves[moves.len() as int].0 == dx
                        &&& new_moves[moves.len() as int].1 == dy
                        &&& forall|k: int|
                            0 <= k < moves.len() ==> #[trigger] new_moves[k] == moves[k]
                        &&& match (paint, new_paint) {
                            (PaintView::Solid(color), PaintView::Solid(new)) => new == color,
                            (PaintView::Indexed(index), PaintView::Indexed(new)) => new == index
                                + target.paints.len(),
                            _ => false,
                        }
                    },
                    _ => false,
                }
        }),
{
}

/// The nodes of the target stay in front, and those of the donor follow, with their draws and
/// layers found behind those of the target. Where the last node of the target is an open batch and
/// the donor has a node, the two are one node: it starts where the one starts and ends as the other
/// ends.
pub proof fn law_appended_nodes(target: SceneView, donor: SceneView, dx: int, dy: int)
    ensures
        ({
            let nodes = target.appended(donor, dx, dy).recorder.nodes;
            let front = target.recorder.nodes;
            let back = donor.recorder.nodes;
            let open = front.len() > 0 && back.len() > 0 && front[front.len() - 1].layer is None;
            let shared: int = if open {
                1
            } else {
                0
            };
            &&& nodes.len() == front.len() + back.len() - shared
            &&& forall|i: int|
                0 <= i < front.len() - shared ==> #[trigger] nodes[i] == front[i]
            &&& forall|i: int|
                0 <= i < back.len() ==> {
                    let node = #[trigger] back[i];
                    let moved = nodes[front.len() - shared + i];
                    &&& moved.end == node.end + target.recorder.draws.len()
                    &&& moved.start == if open && i == 0 {
                        front[front.len() - 1].start
                    } else {
                        node.start + target.recorder.draws.len()
                    }
                    &&& match (node.layer, moved.layer) {
                        (Some(layer), Some(new)) => new == layer + target.recorder.layers.len(),
                        (None, None) => true,
                        _ => false,
                    }
                }
        }),
{
}

/// The layers of the target stay in front, and those of the donor follow. A layer keeps how it is
/// composited, its kind and its depth; its nodes find their draws and layers, and its clip path its
/// strips, behind those of the target.
pub proof fn law_appended_layers(target: SceneView, donor: SceneView, dx: int, dy: int)
    ensures
        ({
            let layers = target.appended(donor, dx, dy).recorder.layers;
            let before = target.recorder.layers.len();
            &&& layers.len() == before + donor.recorder.layers.len()
            &&& forall|i: int|
                0 <= i < before ==> #[trigger] layers[i] == target.recorder.layers[i]
            &&& forall|i: int|
                0 <= i < donor.recorder.layers.len() ==> {
                    let layer = #[trigger] donor.recorder.layers[i];
                    let moved = layers[before + i];
                    &&& moved.props == layer.props
                    &&& moved.kind == layer.kind
                    &&& moved.depth == layer.depth
                    &&& moved.nodes.len() == layer.nodes.len()
                    &&& forall|k: int|
                        0 <= k < layer.nodes.len() ==> {
                            let node = #[trigger] layer.nodes[k];
                            let new_node = moved.nodes[k];
                            &&& new_node.start == node.start + target.recorder.draws.len()
                            &&& new_node.end == node.end + target.recorder.draws.len()
                            &&& match (node.layer, new_node.layer) {
                                (Some(id), Some(new)) => new == id + before,
                                (None, None) => true,
                                _ => false,
                            }
                        }
                    &&& match (layer.clip_path, moved.clip_path) {
                        (Some(clip), Some(new)) => {
                            &&& new.start == clip.start + target.strips.len()
                            &&& new.end == clip.end + target.strips.len()
                            &&& new.thread_idx == clip.thread_idx
                        },
                        (None, None) => true,
                        _ => false,
                    }
                }
        }),
{
}

/// Each bound of a donor's layer, and of its clip path, lies on the tile grid, less than a tile
/// outward of where the bound was, `dx` pixels further right and `dy` pixels further down. Bounds
/// that cover no pixel end where they start.
pub proof fn law_appended_bounds(target: SceneView, donor: SceneView, dx: int, dy: int)
    ensures
        ({
            let layers = target.appended(donor, dx, dy).recorder.layers;
            let before = target.recorder.layers.len();
            forall|i: int|
                0 <= i < donor.recorder.layers.len() ==> {
                    let layer = #[trigger] donor.recorder.layers[i];
                    let moved = layers[before + i];
                    &&& {
                        let b = layer.bbox;
                        let m = moved.bbox;
                        &&& m.x0 % 4 == 0 && m.x0 <= b.x0 + dx < m.x0 + 4
                        &&& m.y0 % 4 == 0 && m.y0 <= b.y0 + dy < m.y0 + 4
                        &&& if b.x0 < b.x1 && b.y0 < b.y1 {
                            &&& m.x1 % 4 == 0 && m.x1 - 4 < b.x1 + dx <= m.x1
                            &&& m.y1 % 4 == 0 && m.y1 - 4 < b.y1 + dy <= m.y1
                        } else {
                            m.x1 == m.x0 && m.y1 == m.y0
                        }
                    }
                    &&& match (layer.clip_path, moved.clip_path) {
                        (Some(clip), Some(new)) => {
                            let b = clip.bbox;
                            let m = new.bbox;
                            &&& m.x0 % 4 == 0 && m.x0 <= b.x0 + dx < m.x0 + 4
                            &&& m.y0 % 4 == 0 && m.y0 <= b.y0 + dy < m.y0 + 4
                            &&& if b.x0 < b.x1 && b.y0 < b.y1 {
                                &&& m.x1 % 4 == 0 && m.x1 - 4 < b.x1 + dx <= m.x1
                                &&& m.y1 % 4 == 0 && m.y1 - 4 < b.y1 + dy <= m.y1
                            } else {
                                m.x1 == m.x0 && m.y1 == m.y0
                            }
                        },
                        (None, None) => true,
                        _ => false,
                    }
                }
        }),
{
    let appended = target.appended(donor, dx, dy);
    let before = target.recorder.layers.len();
    let shift = target.shift_behind(dx, dy);
    assert forall|i: int| 0 <= i < donor.recorder.layers.len() implies (
    #[trigger] donor.recorder.layers[i]).shifted(shift) == appended.recorder.layers[before + i] by {
    }
    assert forall|bbox: RectView| #![trigger bbox.translated(dx, dy)] {
        let m = bbox.translated(dx, dy);
        &&& m.x0 % 4 == 0 && m.x0 <= bbox.x0 + dx < m.x0 + 4
        &&& m.y0 % 4 == 0 && m.y0 <= bbox.y0 + dy < m.y0 + 4
        &&& if bbox.x0 < bbox.x1 && bbox.y0 < bbox.y1 {
            &&& m.x1 % 4 == 0 && m.x1 - 4 < bbox.x1 + dx <= m.x1
            &&& m.y1 % 4 == 0 && m.y1 - 4 < bbox.y1 + dy <= m.y1
        } else {
            m.x1 == m.x0 && m.y1 == m.y0
        }
    } by {
        crate::laws::bounds::law_translated_bounds_are_tight(bbox, dx, dy);
    }
}

/// What a scene says about itself: it blends where one of the two blends, and its depth and its
/// sizes are the greater of the two. Its filter layers stay.
pub proof fn law_appended_provisions(target: SceneView, donor: SceneView, dx: int, dy: int)
    ensures
        ({
            let appended = target.appended(donor, dx, dy).recorder;
            let first = target.recorder;
            let second = donor.recorder;
            &&& appended.filter_layers == first.filter_layers
            &&& appended.root_is_blend_target <==> first.root_is_blend_target
                || second.root_is_blend_target
            &&& appended.has_non_default_blend <==> first.has_non_default_blend
                || second.has_non_default_blend
            &&& appended.max_layer_depth >= first.max_layer_depth
            &&& appended.max_layer_depth >= second.max_layer_depth
            &&& appended.max_layer_depth == first.max_layer_depth || appended.max_layer_depth
                == second.max_layer_depth
            &&& first.layer_stack.len() == 0 && second.layer_stack.len() == 0
                ==> appended.layer_stack.len() == 0
            &&& match (
                first.largest_layer_size,
                second.largest_layer_size,
                appended.largest_layer_size,
            ) {
                (Some(a), Some(b), Some(size)) => {
                    &&& size.width >= a.width && size.width >= b.width
                    &&& size.width == a.width || size.width == b.width
                    &&& size.height >= a.height && size.height >= b.height
                    &&& size.height == a.height || size.height == b.height
                },
                (Some(a), None, Some(size)) => size == a,
                (None, Some(b), Some(size)) => size == b,
                (None, None, None) => true,
                _ => false,
            }
            &&& match (
                first.largest_filter_layer_size,
                second.largest_filter_layer_size,
                appended.largest_filter_layer_size,
            ) {
                (Some(a), Some(b), Some(size)) => {
                    &&& size.width >= a.width && size.width >= b.width
                    &&& size.width == a.width || size.width == b.width
                    &&& size.height >= a.height && size.height >= b.height
                    &&& size.height == a.height || size.height == b.height
                },
                (Some(a), None, Some(size)) => size == a,
                (None, Some(b), Some(size)) => size == b,
                (None, None, None) => true,
                _ => false,
            }
        }),
{
}

/// The larger size holds both sizes, and is no larger than one of them in each dimension.
pub proof fn law_max_size(a: Option<SizeView>, b: Option<SizeView>)
    ensures
        match (a, b, crate::geometry::max_size_of(a, b)) {
            (Some(a), Some(b), Some(size)) => {
                &&& size.width >= a.width && size.width >= b.width
                &&& size.width == a.width || size.width == b.width
                &&& size.height >= a.height && size.height >= b.height
                &&& size.height == a.height || size.height == b.height
            },
            (Some(a), None, Some(size)) => size == a,
            (None, Some(b), Some(size)) => size == b,
            (None, None, None) => true,
            _ => false,
        },
{
}

} // verus!
