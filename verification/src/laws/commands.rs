//! What each command adds to the tables of a scene.

use crate::paint::PaintView;
use crate::record::{DrawView, LayerKind};
use crate::recording::{ClipPathView, Command, PaintSource};
use crate::scene::SceneView;
use crate::strips::{StorageMode, StripView};
use vello_common::kurbo::Rect;
use vello_common::record::LayerProps;
use vstd::prelude::*;

verus! {

/// A new scene has its viewport and nothing in its tables.
pub proof fn law_new_scene(width: int, height: int)
    ensures
        ({
            let scene = SceneView::empty(width, height);
            &&& scene.width == width
            &&& scene.height == height
            &&& scene.mode == StorageMode::Append
            &&& scene.strips.len() == 0
            &&& scene.alphas.len() == 0
            &&& scene.paints.len() == 0
            &&& scene.recorder.nodes.len() == 0
            &&& scene.recorder.draws.len() == 0
            &&& scene.recorder.layers.len() == 0
            &&& scene.recorder.filter_layers.len() == 0
            &&& scene.recorder.layer_stack.len() == 0
            &&& !scene.recorder.root_is_blend_target
            &&& !scene.recorder.has_non_default_blend
            &&& scene.recorder.max_layer_depth == 0
            &&& scene.recorder.largest_layer_size is None
            &&& scene.recorder.largest_filter_layer_size is None
        }),
{
}

/// Commands are recorded first to last.
pub proof fn law_recorded_in_order(scene: SceneView, commands: Seq<Command>, command: Command)
    ensures
        scene.recorded_all(Seq::empty()) == scene,
        scene.recorded_all(commands.push(command)) == scene.recorded_all(commands).recorded(
            command,
        ),
{
    assert(commands.push(command).drop_last() =~= commands);
}

/// A path brings its strips where they are, with their alpha bytes behind those that are stored,
/// its paint where that is encoded, and one draw over its strips.
pub proof fn law_recorded_path(
    scene: SceneView,
    strips: Seq<StripView>,
    alphas: Seq<u8>,
    source: PaintSource,
)
    ensures
        ({
            let after = scene.recorded(Command::FillPath { strips, alphas, paint: source });
            let stored = scene.strips.len();
            let draws = scene.recorder.draws.len();
            &&& after.width == scene.width && after.height == scene.height
            &&& after.mode == scene.mode
            &&& after.strips.len() == stored + strips.len()
            &&& forall|i: int|
                0 <= i < stored ==> #[trigger] after.strips[i] == scene.strips[i]
            &&& forall|i: int|
                0 <= i < strips.len() ==> {
                    let strip = #[trigger] strips[i];
                    let new = after.strips[stored + i];
                    &&& new.x == strip.x && new.y == strip.y
                    &&& new.alpha_idx == strip.alpha_idx + scene.alphas.len()
                    &&& new.fill_gap == strip.fill_gap
                }
            &&& after.alphas == scene.alphas + alphas
            &&& match source {
                PaintSource::Solid(_) => after.paints == scene.paints,
                PaintSource::Encoded(paint) => after.paints == scene.paints.push(paint),
            }
            &&& after.recorder.draws.len() == draws + 1
            &&& forall|i: int|
                0 <= i < draws ==> #[trigger] after.recorder.draws[i] == scene.recorder.draws[i]
            &&& match after.recorder.draws[draws as int] {
                DrawView::Path { start, end, paint } => {
                    &&& start == stored
                    &&& end == stored + strips.len()
                    &&& match (source, paint) {
                        (PaintSource::Solid(color), PaintView::Solid(new)) => new == color,
                        (PaintSource::Encoded(_), PaintView::Indexed(index)) => index
                            == scene.paints.len(),
                        _ => false,
                    }
                },
                _ => false,
            }
        }),
{
}

/// A rectangle brings no coverage, its paint where that is encoded, and one draw with its corners
/// and its moves.
pub proof fn law_recorded_rect(
    scene: SceneView,
    rect: Rect,
    moves: Seq<(int, int)>,
    source: PaintSource,
)
    ensures
        ({
            let after = scene.recorded(Command::FillRect { rect, moves, paint: source });
            let draws = scene.recorder.draws.len();
            &&& after.width == scene.width && after.height == scene.height
            &&& after.mode == scene.mode
            &&& after.strips == scene.strips
            &&& after.alphas == scene.alphas
            &&& match source {
                PaintSource::Solid(_) => after.paints == scene.paints,
                PaintSource::Encoded(paint) => after.paints == scene.paints.push(paint),
            }
            &&& after.recorder.draws.len() == draws + 1
            &&& forall|i: int|
                0 <= i < draws ==> #[trigger] after.recorder.draws[i] == scene.recorder.draws[i]
            &&& match after.recorder.draws[draws as int] {
                DrawView::Rect { rect: new_rect, moves: new_moves, paint } => {
                    &&& new_rect == rect
                    &&& new_moves == moves
                    &&& match (source, paint) {
                        (PaintSource::Solid(color), PaintView::Solid(new)) => new == color,
                        (PaintSource::Encoded(_), PaintView::Indexed(index)) => index
                            == scene.paints.len(),
                        _ => false,
                    }
                },
                _ => false,
            }
        }),
{
}

/// A draw joins the batch that ends before it, where that is open, and starts a batch otherwise: in
/// the innermost open layer, or in the root. All else that is recorded stays.
pub proof fn law_recorded_draw_is_batched(scene: SceneView, command: Command)
    requires
        scene.wf(),
        command is FillPath || command is FillRect,
    ensures
        ({
            let before = scene.recorder;
            let after = scene.recorded(command).recorder;
            let open = before.layer_stack.len() > 0;
            let id = before.layer_stack[before.layer_stack.len() - 1];
            let index = before.draws.len();
            let nodes = if open {
                before.layers[id].nodes
            } else {
                before.nodes
            };
            let new_nodes = if open {
                after.layers[id].nodes
            } else {
                after.nodes
            };
            let count = nodes.len();
            &&& after.filter_layers == before.filter_layers
            &&& after.layer_stack == before.layer_stack
            &&& after.root_is_blend_target == before.root_is_blend_target
            &&& after.has_non_default_blend == before.has_non_default_blend
            &&& after.max_layer_depth == before.max_layer_depth
            &&& after.largest_layer_size == before.largest_layer_size
            &&& after.largest_filter_layer_size == before.largest_filter_layer_size
            &&& after.layers.len() == before.layers.len()
            &&& forall|i: int|
                0 <= i < before.layers.len() ==> {
                    let layer = #[trigger] before.layers[i];
                    let new = after.layers[i];
                    &&& new.props == layer.props && new.kind == layer.kind
                    &&& new.clip_path == layer.clip_path
                    &&& new.depth == layer.depth && new.bbox == layer.bbox
                    &&& !open || i != id ==> new.nodes == layer.nodes
                }
            &&& open ==> after.nodes == before.nodes
            &&& if count > 0 && nodes[count - 1].layer is None && nodes[count - 1].end == index {
                &&& new_nodes.len() == count
                &&& new_nodes.drop_last() =~= nodes.drop_last()
                &&& new_nodes[count - 1].start == nodes[count - 1].start
                &&& new_nodes[count - 1].end == index + 1
                &&& new_nodes[count - 1].layer is None
            } else {
                &&& new_nodes.len() == count + 1
                &&& new_nodes.drop_last() =~= nodes
                &&& new_nodes[count as int].start == index
                &&& new_nodes[count as int].end == index + 1
                &&& new_nodes[count as int].layer is None
            }
        }),
{
    if scene.recorder.layer_stack.len() > 0 {
        let last = scene.recorder.layer_stack.len() - 1;
        assert(0 <= scene.recorder.layer_stack[last] < scene.recorder.layers.len());
    }
}

/// A pushed layer gets the next id, is one deeper than the layers around it, and starts without
/// nodes and bounds. Its clip path brings its coverage. The scene is at least as deep as the layer,
/// and blends where the layer blends: in the root, where no layer is around it.
pub proof fn law_recorded_push(
    scene: SceneView,
    props: LayerProps,
    blends: bool,
    clip: Option<ClipPathView>,
)
    requires
        scene.wf(),
    ensures
        ({
            let after = scene.recorded(Command::PushLayer { props, blends, clip });
            let stored = scene.strips.len();
            let id = scene.recorder.layers.len();
            let depth = scene.recorder.layer_stack.len() + 1;
            let layer = after.recorder.layers[id as int];
            &&& after.width == scene.width && after.height == scene.height
            &&& after.mode == scene.mode
            &&& after.paints == scene.paints
            &&& after.recorder.draws == scene.recorder.draws
            &&& after.recorder.filter_layers == scene.recorder.filter_layers
            &&& after.recorder.largest_layer_size == scene.recorder.largest_layer_size
            &&& after.recorder.largest_filter_layer_size == scene.recorder.largest_filter_layer_size
            &&& after.recorder.layers.len() == id + 1
            &&& after.recorder.layer_stack.len() == depth
            &&& after.recorder.layer_stack[depth - 1] == id
            &&& forall|k: int|
                0 <= k < depth - 1 ==> #[trigger] after.recorder.layer_stack[k]
                    == scene.recorder.layer_stack[k]
            &&& layer.props == props
            &&& layer.kind == LayerKind::Regular
            &&& layer.depth == depth
            &&& layer.nodes.len() == 0
            &&& layer.bbox.x0 == 0 && layer.bbox.y0 == 0
            &&& layer.bbox.x1 == 0 && layer.bbox.y1 == 0
            &&& after.recorder.max_layer_depth >= scene.recorder.max_layer_depth
            &&& after.recorder.max_layer_depth >= depth
            &&& after.recorder.max_layer_depth == scene.recorder.max_layer_depth
                || after.recorder.max_layer_depth == depth
            &&& after.recorder.has_non_default_blend <==> scene.recorder.has_non_default_blend
                || blends
            &&& after.recorder.root_is_blend_target <==> scene.recorder.root_is_blend_target || (
            blends && depth == 1)
            &&& match (clip, layer.clip_path) {
                (Some(path), Some(new)) => {
                    &&& new.start == stored
                    &&& new.end == stored + path.strips.len()
                    &&& new.thread_idx == 0
                    &&& new.bbox == path.bbox
                    &&& after.alphas == scene.alphas + path.alphas
                    &&& after.strips.len() == stored + path.strips.len()
                    &&& forall|i: int|
                        0 <= i < stored ==> #[trigger] after.strips[i] == scene.strips[i]
                    &&& forall|i: int|
                        0 <= i < path.strips.len() ==> {
                            let strip = #[trigger] path.strips[i];
                            let moved = after.strips[stored + i];
                            &&& moved.x == strip.x && moved.y == strip.y
                            &&& moved.alpha_idx == strip.alpha_idx + scene.alphas.len()
                            &&& moved.fill_gap == strip.fill_gap
                        }
                },
                (None, None) => after.strips == scene.strips && after.alphas == scene.alphas,
                _ => false,
            }
        }),
{
    if scene.recorder.layer_stack.len() > 0 {
        let last = scene.recorder.layer_stack.len() - 1;
        assert(0 <= scene.recorder.layer_stack[last] < scene.recorder.layers.len());
    }
}

/// A pushed layer closes an open last batch, and follows an empty batch otherwise: in the innermost
/// open layer, or in the root. All other layers stay.
pub proof fn law_recorded_push_closes_a_batch(
    scene: SceneView,
    props: LayerProps,
    blends: bool,
    clip: Option<ClipPathView>,
)
    requires
        scene.wf(),
    ensures
        ({
            let before = scene.recorder;
            let after = scene.recorded(Command::PushLayer { props, blends, clip }).recorder;
            let open = before.layer_stack.len() > 0;
            let around = before.layer_stack[before.layer_stack.len() - 1];
            let id = before.layers.len();
            let index = before.draws.len();
            let nodes = if open {
                before.layers[around].nodes
            } else {
                before.nodes
            };
            let new_nodes = if open {
                after.layers[around].nodes
            } else {
                after.nodes
            };
            let count = nodes.len();
            &&& forall|i: int|
                0 <= i < id ==> {
                    let layer = #[trigger] before.layers[i];
                    let new = after.layers[i];
                    &&& new.props == layer.props && new.kind == layer.kind
                    &&& new.clip_path == layer.clip_path
                    &&& new.depth == layer.depth && new.bbox == layer.bbox
                    &&& !open || i != around ==> new.nodes == layer.nodes
                }
            &&& open ==> after.nodes == before.nodes
            &&& if count > 0 && nodes[count - 1].layer is None {
                &&& new_nodes.len() == count
                &&& new_nodes.drop_last() =~= nodes.drop_last()
                &&& new_nodes[count - 1].start == nodes[count - 1].start
                &&& new_nodes[count - 1].end == nodes[count - 1].end
                &&& new_nodes[count - 1].layer matches Some(layer) && layer == id
            } else {
                &&& new_nodes.len() == count + 1
                &&& new_nodes.drop_last() =~= nodes
                &&& new_nodes[count as int].start == index
                &&& new_nodes[count as int].end == index
                &&& new_nodes[count as int].layer matches Some(layer) && layer == id
            }
        }),
{
    if scene.recorder.layer_stack.len() > 0 {
        let last = scene.recorder.layer_stack.len() - 1;
        assert(0 <= scene.recorder.layer_stack[last] < scene.recorder.layers.len());
    }
}

/// The innermost layer is popped with its bounds, and no other layer. The largest size holds the
/// size of the layer, which is zero where the bounds are the wrong way round. All else stays.
pub proof fn law_recorded_pop(scene: SceneView, bbox: crate::geometry::RectView)
    requires
        scene.wf(),
        scene.recorder.layer_stack.len() > 0,
    ensures
        ({
            let whole = scene.recorded(Command::PopLayer { bbox });
            let before = scene.recorder;
            let after = whole.recorder;
            let depth = before.layer_stack.len();
            let id = before.layer_stack[depth - 1];
            let width = if bbox.x0 <= bbox.x1 {
                bbox.x1 - bbox.x0
            } else {
                0
            };
            let height = if bbox.y0 <= bbox.y1 {
                bbox.y1 - bbox.y0
            } else {
                0
            };
            &&& whole.width == scene.width && whole.height == scene.height
            &&& whole.mode == scene.mode
            &&& whole.strips == scene.strips && whole.alphas == scene.alphas
            &&& whole.paints == scene.paints
            &&& after.nodes == before.nodes && after.draws == before.draws
            &&& after.filter_layers == before.filter_layers
            &&& after.root_is_blend_target == before.root_is_blend_target
            &&& after.has_non_default_blend == before.has_non_default_blend
            &&& after.max_layer_depth == before.max_layer_depth
            &&& after.largest_filter_layer_size == before.largest_filter_layer_size
            &&& after.layer_stack.len() == depth - 1
            &&& forall|k: int|
                0 <= k < depth - 1 ==> #[trigger] after.layer_stack[k] == before.layer_stack[k]
            &&& after.layers.len() == before.layers.len()
            &&& forall|i: int|
                0 <= i < before.layers.len() ==> {
                    let layer = #[trigger] before.layers[i];
                    let new = after.layers[i];
                    &&& new.props == layer.props && new.kind == layer.kind
                    &&& new.clip_path == layer.clip_path && new.nodes == layer.nodes
                    &&& new.depth == layer.depth
                    &&& new.bbox == if i == id {
                        bbox
                    } else {
                        layer.bbox
                    }
                }
            &&& match (before.largest_layer_size, after.largest_layer_size) {
                (Some(old_size), Some(size)) => {
                    &&& size.width >= old_size.width && size.width >= width
                    &&& size.width == old_size.width || size.width == width
                    &&& size.height >= old_size.height && size.height >= height
                    &&& size.height == old_size.height || size.height == height
                },
                (None, Some(size)) => size.width == width && size.height == height,
                _ => false,
            }
        }),
{
    let last = scene.recorder.layer_stack.len() - 1;
    assert(0 <= scene.recorder.layer_stack[last] < scene.recorder.layers.len());
}

/// A path can be recorded just where its indices and coordinates can be stored, and makes sense
/// just where its strips point into its own alpha bytes, or right behind them.
pub proof fn law_room_for_path(
    scene: SceneView,
    strips: Seq<StripView>,
    alphas: Seq<u8>,
    source: PaintSource,
)
    ensures
        ({
            let command = Command::FillPath { strips, alphas, paint: source };
            &&& scene.has_room_for(command) <==> {
                &&& scene.strips.len() + strips.len() <= usize::MAX
                &&& forall|i: int|
                    0 <= i < strips.len() ==> {
                        let strip = #[trigger] strips[i];
                        &&& 0 <= strip.x <= 65535 && 0 <= strip.y <= 65535
                        &&& 0 <= strip.alpha_idx + scene.alphas.len() < 0x8000_0000
                    }
                &&& source is Encoded ==> scene.paints.len() <= 0xffff_ffff
                &&& scene.recorder.draws.len() < 0xffff_ffff
            }
            &&& scene.accepts(command) <==> forall|i: int|
                0 <= i < strips.len() ==> 0 <= (#[trigger] strips[i]).alpha_idx <= alphas.len()
        }),
{
    lemma_room_for_coverage(scene, strips);
}

proof fn lemma_room_for_coverage(scene: SceneView, strips: Seq<StripView>)
    ensures
        scene.has_room_for_coverage(strips) <==> {
            &&& scene.strips.len() + strips.len() <= usize::MAX
            &&& forall|i: int|
                0 <= i < strips.len() ==> {
                    let strip = #[trigger] strips[i];
                    &&& 0 <= strip.x <= 65535 && 0 <= strip.y <= 65535
                    &&& 0 <= strip.alpha_idx + scene.alphas.len() < 0x8000_0000
                }
        },
{
    let shift = crate::recording::alpha_shift(scene.alphas.len() as int);
    let moved = crate::strips::shifted_strips(strips, shift);
    if crate::strips::strips_fit(moved) {
        assert forall|i: int| 0 <= i < strips.len() implies {
            let strip = #[trigger] strips[i];
            &&& 0 <= strip.x <= 65535 && 0 <= strip.y <= 65535
            &&& 0 <= strip.alpha_idx + scene.alphas.len() < 0x8000_0000
        } by {
            assert(moved[i].fits());
        }
    }
    if forall|i: int|
        0 <= i < strips.len() ==> {
            let strip = #[trigger] strips[i];
            &&& 0 <= strip.x <= 65535 && 0 <= strip.y <= 65535
            &&& 0 <= strip.alpha_idx + scene.alphas.len() < 0x8000_0000
        } {
        assert forall|i: int| 0 <= i < moved.len() implies (#[trigger] moved[i]).fits() by {
            let strip = strips[i];
        }
    }
}

/// A rectangle can be recorded just where its index and its paint's can be stored, and makes sense
/// everywhere.
pub proof fn law_room_for_rect(
    scene: SceneView,
    rect: Rect,
    moves: Seq<(int, int)>,
    source: PaintSource,
)
    ensures
        ({
            let command = Command::FillRect { rect, moves, paint: source };
            &&& scene.has_room_for(command) <==> {
                &&& source is Encoded ==> scene.paints.len() <= 0xffff_ffff
                &&& scene.recorder.draws.len() < 0xffff_ffff
            }
            &&& scene.accepts(command)
        }),
{
}

/// A layer can be pushed just where its id, the draws before it and the coverage of its clip path
/// can be stored, and makes sense just where the strips of its clip path do. A layer can be popped
/// just where a regular layer is open.
pub proof fn law_room_for_layer(
    scene: SceneView,
    props: LayerProps,
    blends: bool,
    clip: Option<ClipPathView>,
    bbox: crate::geometry::RectView,
)
    ensures
        ({
            let push = Command::PushLayer { props, blends, clip };
            let pop = Command::PopLayer { bbox };
            let depth = scene.recorder.layer_stack.len();
            &&& scene.has_room_for(push) <==> {
                &&& clip matches Some(path) ==> {
                    &&& scene.strips.len() + path.strips.len() <= usize::MAX
                    &&& forall|i: int|
                        0 <= i < path.strips.len() ==> {
                            let strip = #[trigger] path.strips[i];
                            &&& 0 <= strip.x <= 65535 && 0 <= strip.y <= 65535
                            &&& 0 <= strip.alpha_idx + scene.alphas.len() < 0x8000_0000
                        }
                }
                &&& scene.recorder.draws.len() <= 0xffff_ffff
                &&& scene.recorder.layers.len() <= 0xffff_ffff
                &&& depth < usize::MAX
            }
            &&& scene.accepts(push) <==> (clip matches Some(path) ==> forall|i: int|
                0 <= i < path.strips.len() ==> 0 <= (#[trigger] path.strips[i]).alpha_idx
                    <= path.alphas.len())
            &&& scene.has_room_for(pop)
            &&& scene.accepts(pop) <==> {
                &&& depth > 0
                &&& scene.recorder.layers[scene.recorder.layer_stack[depth - 1]].kind is Regular
            }
        }),
{
    if let Some(path) = clip {
        lemma_room_for_coverage(scene, path.strips);
    }
}

} // verus!
