//! Composed scenes compose.

use crate::geometry::RectView;
use crate::record::{DrawView, LayerView, NodeView, RecorderView};
use crate::scene::SceneView;
use crate::shift::ShiftView;
use vstd::prelude::*;

verus! {

proof fn lemma_translated_twice(bbox: RectView, dx1: int, dy1: int, dx2: int, dy2: int)
    requires
        crate::geometry::is_tile_granular(dx1, dy1),
        crate::geometry::is_tile_granular(dx2, dy2),
    ensures
        bbox.translated(dx2, dy2).translated(dx1, dy1) == bbox.translated(dx1 + dx2, dy1 + dy2),
{
    crate::laws::bounds::lemma_snapped_moves(bbox, dx2, dy2);
    crate::laws::bounds::law_translated_bounds_cover(bbox, dx2, dy2);
    crate::laws::bounds::law_translated_bounds_cover(bbox.translated(dx2, dy2), dx1, dy1);
    crate::laws::bounds::lemma_snapped_moves(bbox, dx1 + dx2, dy1 + dy2);
}

/// Two moves, one after the other, as one.
spec fn both_shifts(first: ShiftView, second: ShiftView) -> ShiftView {
    ShiftView {
        strip: first.strip + second.strip,
        alpha: first.alpha + second.alpha,
        paint: first.paint + second.paint,
        draw: first.draw + second.draw,
        layer: first.layer + second.layer,
        dx: first.dx + second.dx,
        dy: first.dy + second.dy,
    }
}

proof fn lemma_nodes_shift_twice(nodes: Seq<NodeView>, first: ShiftView, second: ShiftView)
    ensures
        crate::record::shifted_nodes(crate::record::shifted_nodes(nodes, first), second)
            == crate::record::shifted_nodes(nodes, both_shifts(first, second)),
{
    assert(crate::record::shifted_nodes(crate::record::shifted_nodes(nodes, first), second)
        =~= crate::record::shifted_nodes(nodes, both_shifts(first, second)));
}

proof fn lemma_layer_shifts_twice(layer: LayerView, first: ShiftView, second: ShiftView)
    requires
        crate::geometry::is_tile_granular(first.dx, first.dy),
        crate::geometry::is_tile_granular(second.dx, second.dy),
    ensures
        layer.shifted(first).shifted(second) == layer.shifted(both_shifts(first, second)),
{
    lemma_nodes_shift_twice(layer.nodes, first, second);
    lemma_translated_twice(layer.bbox, second.dx, second.dy, first.dx, first.dy);
    if let Some(clip) = layer.clip_path {
        lemma_translated_twice(clip.bbox, second.dx, second.dy, first.dx, first.dy);
    }
}

proof fn lemma_recorder_shifts_twice(
    recorder: RecorderView,
    first: ShiftView,
    second: ShiftView,
)
    requires
        crate::geometry::is_tile_granular(first.dx, first.dy),
        crate::geometry::is_tile_granular(second.dx, second.dy),
    ensures
        recorder.shifted(first).shifted(second).with_net_moves() == recorder.shifted(
            both_shifts(first, second),
        ).with_net_moves(),
{
    let twice = recorder.shifted(first).shifted(second).with_net_moves();
    let once = recorder.shifted(both_shifts(first, second)).with_net_moves();
    lemma_nodes_shift_twice(recorder.nodes, first, second);
    assert forall|i: int| 0 <= i < recorder.draws.len() implies #[trigger] twice.draws[i]
        == once.draws[i] by {
        if let DrawView::Rect { rect, moves, paint } = recorder.draws[i] {
            let by = both_shifts(first, second);
            crate::laws::moves::lemma_net_move_push(moves, (first.dx, first.dy));
            crate::laws::moves::lemma_net_move_push(
                moves.push((first.dx, first.dy)),
                (second.dx, second.dy),
            );
            crate::laws::moves::lemma_net_move_push(moves, (by.dx, by.dy));
        }
    }
    assert(twice.draws =~= once.draws);
    assert forall|i: int| 0 <= i < recorder.layers.len() implies #[trigger] twice.layers[i]
        == once.layers[i] by {
        lemma_layer_shifts_twice(recorder.layers[i], first, second);
    }
    assert(twice.layers =~= once.layers);
    assert(twice.layer_stack =~= once.layer_stack);
}

proof fn lemma_joined_shifts(front: RecorderView, back: RecorderView, shift: ShiftView)
    ensures
        front.joined(back).shifted(shift) == front.shifted(shift).joined(back.shifted(shift)),
{
    let after = front.joined(back).shifted(shift);
    let before = front.shifted(shift).joined(back.shifted(shift));
    assert(after.nodes =~= before.nodes);
    assert(after.draws =~= before.draws);
    assert(after.layers =~= before.layers);
    assert(after.layer_stack =~= before.layer_stack);
}

proof fn lemma_joined_in_any_order(first: RecorderView, second: RecorderView, third: RecorderView)
    ensures
        first.joined(second.joined(third)) == first.joined(second).joined(third),
{
    let right = first.joined(second.joined(third));
    let left = first.joined(second).joined(third);
    assert(right.nodes =~= left.nodes);
    assert(right.draws =~= left.draws);
    assert(right.layers =~= left.layers);
    assert(right.layer_stack =~= left.layer_stack);
}

proof fn lemma_net_moves_joined(front: RecorderView, back: RecorderView)
    ensures
        front.joined(back).with_net_moves() == front.with_net_moves().joined(
            back.with_net_moves(),
        ),
{
    let after = front.joined(back).with_net_moves();
    let before = front.with_net_moves().joined(back.with_net_moves());
    assert(after.draws =~= before.draws);
    assert(after =~= before);
}

/// Composing composed scenes: appending to a donor before it is appended is appending the two one
/// after the other, the second by both translations. Every table comes out the same, but for the
/// rectangles of the last scene: they count two moves in the one case, and one move by their sum in
/// the other, which may round their corners differently.
///
/// The inner move takes no strip of the last scene to the column that marks a sentinel.
pub proof fn law_append_is_associative(
    target: SceneView,
    donor: SceneView,
    dx1: int,
    dy1: int,
    last: SceneView,
    dx2: int,
    dy2: int,
)
    requires
        forall|i: int|
            0 <= i < last.strips.len() ==> ((#[trigger] last.strips[i]).is_sentinel()
                || last.strips[i].x + dx2 != u16::MAX),
        crate::geometry::is_tile_granular(dx1, dy1),
        crate::geometry::is_tile_granular(dx2, dy2),
    ensures
        target.appended(donor.appended(last, dx2, dy2), dx1, dy1).with_net_moves()
            == target.appended(donor, dx1, dy1).appended(
            last,
            dx1 + dx2,
            dy1 + dy2,
        ).with_net_moves(),
        forall|i: int|
            0 <= i < target.recorder.draws.len() + donor.recorder.draws.len()
                ==> #[trigger] target.appended(
                donor.appended(last, dx2, dy2),
                dx1,
                dy1,
            ).recorder.draws[i] == target.appended(donor, dx1, dy1).recorder.draws[i],
{
    let inner = target.appended(donor.appended(last, dx2, dy2), dx1, dy1);
    let outer = target.appended(donor, dx1, dy1).appended(last, dx1 + dx2, dy1 + dy2);
    let first = donor.shift_behind(dx2, dy2);
    let second = target.shift_behind(dx1, dy1);
    assert(both_shifts(first, second) == target.appended(donor, dx1, dy1).shift_behind(
        dx1 + dx2,
        dy1 + dy2,
    ));
    assert(inner.strips =~= outer.strips);
    assert(inner.alphas =~= outer.alphas);
    assert(inner.paints =~= outer.paints);
    lemma_joined_shifts(donor.recorder, last.recorder.shifted(first), second);
    lemma_recorder_shifts_twice(last.recorder, first, second);
    let base = target.recorder.joined(donor.recorder.shifted(second));
    lemma_joined_in_any_order(
        target.recorder,
        donor.recorder.shifted(second),
        last.recorder.shifted(first).shifted(second),
    );
    lemma_net_moves_joined(base, last.recorder.shifted(first).shifted(second));
    lemma_net_moves_joined(base, last.recorder.shifted(both_shifts(first, second)));
}

} // verus!
