//! Appending keeps painter order.

use crate::paint::PaintView;
use crate::record::{ClipView, DrawView, NodeView};
use crate::scene::SceneView;
use crate::shift::ShiftView;
use crate::strips::StripView;
use vstd::prelude::*;

verus! {

/// One step of painting a list of nodes.
pub enum Painted {
    /// The draw at an index.
    Draw(int),
    /// The layer with an id.
    Layer(int),
}

impl Painted {
    /// The step with its index or id found behind the tables of another scene.
    pub open spec fn shifted(self, shift: ShiftView) -> Painted {
        match self {
            Painted::Draw(index) => Painted::Draw(index + shift.draw),
            Painted::Layer(id) => Painted::Layer(id + shift.layer),
        }
    }
}

/// What a node paints, in order: its draws, then its layer.
pub open spec fn painted_by_node(node: NodeView) -> Seq<Painted> {
    let draws = Seq::new((node.end - node.start) as nat, |i: int| Painted::Draw(node.start + i));
    match node.layer {
        Some(id) => draws.push(Painted::Layer(id)),
        None => draws,
    }
}

/// What a list of nodes paints, in order.
pub open spec fn painted(nodes: Seq<NodeView>) -> Seq<Painted>
    decreases nodes.len(),
{
    if nodes.len() == 0 {
        Seq::empty()
    } else {
        painted(nodes.drop_last()) + painted_by_node(nodes.last())
    }
}

/// What is painted, with every index and id found behind the tables of another scene.
pub open spec fn shifted_painting(steps: Seq<Painted>, shift: ShiftView) -> Seq<Painted> {
    steps.map_values(|step: Painted| step.shifted(shift))
}

proof fn lemma_painted_concat(front: Seq<NodeView>, back: Seq<NodeView>)
    ensures
        painted(front + back) == painted(front) + painted(back),
    decreases back.len(),
{
    if back.len() == 0 {
        assert(front + back =~= front);
        assert(painted(front) + painted(back) =~= painted(front));
    } else {
        lemma_painted_concat(front, back.drop_last());
        assert((front + back).drop_last() =~= front + back.drop_last());
        assert(painted(front + back) =~= painted(front) + painted(back));
    }
}

proof fn lemma_painted_shifts(nodes: Seq<NodeView>, shift: ShiftView)
    requires
        forall|i: int| 0 <= i < nodes.len() ==> (#[trigger] nodes[i]).start <= nodes[i].end,
    ensures
        painted(crate::record::shifted_nodes(nodes, shift)) == shifted_painting(
            painted(nodes),
            shift,
        ),
    decreases nodes.len(),
{
    let moved = crate::record::shifted_nodes(nodes, shift);
    if nodes.len() == 0 {
        assert(painted(moved) =~= shifted_painting(painted(nodes), shift));
    } else {
        lemma_painted_shifts(nodes.drop_last(), shift);
        assert(moved.drop_last() =~= crate::record::shifted_nodes(nodes.drop_last(), shift));
        assert(nodes[nodes.len() - 1].start <= nodes[nodes.len() - 1].end);
        assert(painted_by_node(moved.last()) =~= shifted_painting(
            painted_by_node(nodes.last()),
            shift,
        ));
        assert(painted(moved) =~= shifted_painting(painted(nodes), shift));
    }
}

/// Painter order: an appended scene paints everything that the target painted, in the same order,
/// and then everything that the donor painted, in the same order. Each layer of the donor paints
/// what it painted before.
pub proof fn law_painter_order(target: SceneView, donor: SceneView, dx: int, dy: int)
    requires
        target.wf(),
        target.is_settled(),
        donor.wf(),
        donor.is_settled(),
    ensures
        ({
            let shift = target.shift_behind(dx, dy);
            let appended = target.appended(donor, dx, dy);
            &&& painted(appended.recorder.nodes) == painted(target.recorder.nodes)
                + shifted_painting(painted(donor.recorder.nodes), shift)
            &&& forall|id: int|
                0 <= id < target.recorder.layers.len() ==> painted(
                    (#[trigger] appended.recorder.layers[id]).nodes,
                ) == painted(target.recorder.layers[id].nodes)
            &&& forall|id: int|
                0 <= id < donor.recorder.layers.len() ==> painted(
                    appended.recorder.layers[id + shift.layer].nodes,
                ) == shifted_painting(painted((#[trigger] donor.recorder.layers[id]).nodes), shift)
        }),
{
    let shift = target.shift_behind(dx, dy);
    let appended = target.appended(donor, dx, dy);
    let front = target.recorder.nodes;
    let back = crate::record::shifted_nodes(donor.recorder.nodes, shift);
    crate::laws::recording::law_append_keeps_wf(target, donor, dx, dy);
    lemma_painted_shifts(donor.recorder.nodes, shift);
    assert forall|id: int| 0 <= id < donor.recorder.layers.len() implies painted(
        appended.recorder.layers[id + shift.layer].nodes,
    ) == shifted_painting(painted((#[trigger] donor.recorder.layers[id]).nodes), shift) by {
        assert(donor.recorder.layers[id].is_valid(
            donor.recorder.draws.len() as int,
            donor.recorder.layers.len() as int,
            donor.strips.len() as int,
        ));
        lemma_painted_shifts(donor.recorder.layers[id].nodes, shift);
    }
    if crate::append::continues(front, back) {
        let joint = NodeView {
            start: front.last().start,
            end: back[0].end,
            layer: back[0].layer,
        };
        assert(donor.recorder.nodes[0].start <= donor.recorder.nodes[0].end);
        assert(front[front.len() - 1].start <= front[front.len() - 1].end);
        assert(painted_by_node(joint) =~= painted_by_node(front.last()) + painted_by_node(back[0]));
        lemma_painted_concat(front.drop_last().push(joint), back.drop_first());
        assert(front.drop_last().push(joint).drop_last() =~= front.drop_last());
        lemma_painted_concat(seq![back[0]], back.drop_first());
        assert(seq![back[0]] + back.drop_first() =~= back);
        assert(seq![back[0]].drop_last() =~= Seq::<NodeView>::empty());
        assert(painted(Seq::<NodeView>::empty()) =~= Seq::<Painted>::empty());
        assert(painted(seq![back[0]]) =~= painted_by_node(back[0]));
        assert(painted(appended.recorder.nodes) =~= painted(front) + painted(back));
    } else {
        lemma_painted_concat(front, back);
    }
}

/// Whether a draw of one scene, moved, is a draw of another: with the same strips, moved, and the
/// same paint, each found in the tables of its scene.
pub open spec fn draws_alike(
    donor: SceneView,
    draw: DrawView,
    scene: SceneView,
    moved: DrawView,
    shift: ShiftView,
) -> bool {
    match (draw, moved) {
        (
            DrawView::Path { start, end, paint },
            DrawView::Path { start: moved_start, end: moved_end, paint: moved_paint },
        ) => {
            &&& scene.strips.subrange(moved_start, moved_end) == crate::strips::shifted_strips(
                donor.strips.subrange(start, end),
                shift,
            )
            &&& paints_alike(donor, paint, scene, moved_paint)
        },
        (
            DrawView::Rect { rect, moves, paint },
            DrawView::Rect { rect: moved_rect, moves: all_moves, paint: moved_paint },
        ) => {
            &&& moved_rect == rect
            &&& all_moves == moves.push((shift.dx, shift.dy))
            &&& paints_alike(donor, paint, scene, moved_paint)
        },
        _ => false,
    }
}

/// Whether two paints, each of its scene, paint the same.
pub open spec fn paints_alike(
    donor: SceneView,
    paint: PaintView,
    scene: SceneView,
    moved: PaintView,
) -> bool {
    match (paint, moved) {
        (PaintView::Solid(color), PaintView::Solid(moved_color)) => moved_color == color,
        (PaintView::Indexed(index), PaintView::Indexed(moved_index)) => {
            &&& 0 <= moved_index < scene.paints.len()
            &&& scene.paints[moved_index] == donor.paints[index]
        },
        _ => false,
    }
}

/// Whether two clip paths, each of its scene, clip to the same strips, moved, and to the same
/// bounds, translated.
pub open spec fn clips_alike(
    donor: SceneView,
    clip: Option<ClipView>,
    scene: SceneView,
    moved: Option<ClipView>,
    shift: ShiftView,
) -> bool {
    match (clip, moved) {
        (Some(clip), Some(moved)) => {
            &&& scene.strips.subrange(moved.start, moved.end) == crate::strips::shifted_strips(
                donor.strips.subrange(clip.start, clip.end),
                shift,
            )
            &&& moved.bbox == clip.bbox.translated(shift.dx, shift.dy)
            &&& moved.thread_idx == clip.thread_idx
        },
        (None, None) => true,
        _ => false,
    }
}

/// Whether two strips, each of its scene, start the same alpha bytes.
pub open spec fn coverage_alike(
    donor: SceneView,
    strip: StripView,
    scene: SceneView,
    moved: StripView,
) -> bool {
    scene.alphas.skip(moved.alpha_idx) == donor.alphas.skip(strip.alpha_idx)
}

/// What an appended scene points to is what the two scenes pointed to: the target's tables are kept
/// in front, and the draws, clip paths and strips of the donor find their own strips, paints and
/// alpha bytes behind them, moved.
pub proof fn law_moved_indices_find_the_same(target: SceneView, donor: SceneView, dx: int, dy: int)
    requires
        target.wf(),
        donor.wf(),
    ensures
        ({
            let shift = target.shift_behind(dx, dy);
            let appended = target.appended(donor, dx, dy);
            &&& appended.strips.take(shift.strip) == target.strips
            &&& appended.alphas.take(shift.alpha) == target.alphas
            &&& appended.paints.take(shift.paint) == target.paints
            &&& appended.recorder.draws.take(shift.draw) == target.recorder.draws
            &&& appended.recorder.layers.take(shift.layer) == target.recorder.layers
            &&& forall|i: int|
                0 <= i < donor.recorder.draws.len() ==> draws_alike(
                    donor,
                    #[trigger] donor.recorder.draws[i],
                    appended,
                    appended.recorder.draws[i + shift.draw],
                    shift,
                )
            &&& forall|i: int|
                0 <= i < donor.recorder.layers.len() ==> clips_alike(
                    donor,
                    (#[trigger] donor.recorder.layers[i]).clip_path,
                    appended,
                    appended.recorder.layers[i + shift.layer].clip_path,
                    shift,
                )
            &&& forall|i: int|
                0 <= i < donor.strips.len() ==> coverage_alike(
                    donor,
                    #[trigger] donor.strips[i],
                    appended,
                    appended.strips[i + shift.strip],
                )
        }),
{
    let shift = target.shift_behind(dx, dy);
    let appended = target.appended(donor, dx, dy);
    assert(appended.strips.take(shift.strip) =~= target.strips);
    assert(appended.alphas.take(shift.alpha) =~= target.alphas);
    assert(appended.paints.take(shift.paint) =~= target.paints);
    assert(appended.recorder.draws.take(shift.draw) =~= target.recorder.draws);
    assert(appended.recorder.layers.take(shift.layer) =~= target.recorder.layers);
    assert forall|i: int| 0 <= i < donor.recorder.draws.len() implies draws_alike(
        donor,
        #[trigger] donor.recorder.draws[i],
        appended,
        appended.recorder.draws[i + shift.draw],
        shift,
    ) by {
        let draw = donor.recorder.draws[i];
        assert(draw.is_valid(donor.strips.len() as int, donor.paints.len() as int));
        assert(appended.recorder.draws[i + shift.draw] == draw.shifted(shift));
        if let DrawView::Path { start, end, paint } = draw {
            assert(appended.strips.subrange(start + shift.strip, end + shift.strip)
                =~= crate::strips::shifted_strips(donor.strips.subrange(start, end), shift));
        }
    }
    assert forall|i: int| 0 <= i < donor.recorder.layers.len() implies clips_alike(
        donor,
        (#[trigger] donor.recorder.layers[i]).clip_path,
        appended,
        appended.recorder.layers[i + shift.layer].clip_path,
        shift,
    ) by {
        let layer = donor.recorder.layers[i];
        assert(layer.is_valid(
            donor.recorder.draws.len() as int,
            donor.recorder.layers.len() as int,
            donor.strips.len() as int,
        ));
        assert(appended.recorder.layers[i + shift.layer] == layer.shifted(shift));
        if let Some(clip) = layer.clip_path {
            assert(appended.strips.subrange(clip.start + shift.strip, clip.end + shift.strip)
                =~= crate::strips::shifted_strips(
                donor.strips.subrange(clip.start, clip.end),
                shift,
            ));
        }
    }
    assert forall|i: int| 0 <= i < donor.strips.len() implies coverage_alike(
        donor,
        #[trigger] donor.strips[i],
        appended,
        appended.strips[i + shift.strip],
    ) by {
        assert(appended.strips[i + shift.strip] == donor.strips[i].shifted(shift));
        assert(appended.alphas.skip(donor.strips[i].alpha_idx + shift.alpha) =~= donor.alphas.skip(
            donor.strips[i].alpha_idx,
        ));
    }
}

} // verus!
