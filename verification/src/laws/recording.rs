//! Appending a recording is recording it.

use crate::error::AppendSceneError;
use crate::geometry::RectView;
use crate::record::{ClipView, DrawView, LayerView, NodeView, RecorderView};
use crate::recording::{ClipPathView, Command};
use crate::scene::SceneView;
use crate::shift::ShiftView;
use crate::strips::StripView;
use vello_common::record::LayerProps;
use vstd::prelude::*;

verus! {

/// The strips `dx` pixels further right and `dy` pixels further down. A sentinel has no column to
/// move.
pub open spec fn moved_strips(strips: Seq<StripView>, dx: int, dy: int) -> Seq<StripView> {
    strips.map_values(
        |strip: StripView|
            StripView {
                x: if strip.x == 65535 {
                    strip.x
                } else {
                    strip.x + dx
                },
                y: strip.y + dy,
                alpha_idx: strip.alpha_idx,
                fill_gap: strip.fill_gap,
            },
    )
}

/// A move of pixels alone.
pub open spec fn pixel_shift(dx: int, dy: int) -> ShiftView {
    ShiftView { strip: 0, alpha: 0, paint: 0, draw: 0, layer: 0, dx, dy }
}

/// Strips that move by pixels alone lie where the numbers say.
pub proof fn law_pixel_shift(strips: Seq<StripView>, dx: int, dy: int)
    ensures
        crate::strips::shifted_strips(strips, pixel_shift(dx, dy)) == moved_strips(strips, dx, dy),
{
    assert(crate::strips::shifted_strips(strips, pixel_shift(dx, dy)) =~= moved_strips(
        strips,
        dx,
        dy,
    ));
}

impl Command {
    /// The command with everything that it brings moved by `(dx, dy)`.
    pub open spec fn moved(self, dx: int, dy: int) -> Command {
        match self {
            Command::FillPath { strips, alphas, paint } => Command::FillPath {
                strips: moved_strips(strips, dx, dy),
                alphas,
                paint,
            },
            Command::FillRect { rect, moves, paint } => Command::FillRect {
                rect,
                moves: moves.push((dx, dy)),
                paint,
            },
            Command::PushLayer { props, blends, clip } => Command::PushLayer {
                props,
                blends,
                clip: match clip {
                    Some(clip) => Some(
                        ClipPathView {
                            strips: moved_strips(clip.strips, dx, dy),
                            alphas: clip.alphas,
                            bbox: clip.bbox.moved(dx, dy),
                        },
                    ),
                    None => None,
                },
            },
            Command::PopLayer { bbox } => Command::PopLayer { bbox: bbox.moved(dx, dy) },
        }
    }

    /// Whether `other` is the command on geometry that was moved by `(dx, dy)` before it was
    /// recorded.
    pub open spec fn moves_to(self, other: Command, dx: int, dy: int) -> bool {
        match (self, other) {
            (
                Command::PushLayer { props, blends, clip: Some(clip) },
                Command::PushLayer { clip: Some(other_clip), .. },
            ) => {
                &&& other == Command::PushLayer {
                    props,
                    blends,
                    clip: Some(
                        ClipPathView {
                            strips: moved_strips(clip.strips, dx, dy),
                            alphas: clip.alphas,
                            bbox: other_clip.bbox,
                        },
                    ),
                }
                &&& bounds_move_to(clip.bbox, other_clip.bbox, dx, dy)
            },
            (Command::PopLayer { bbox }, Command::PopLayer { bbox: other_bbox }) => bounds_move_to(
                bbox,
                other_bbox,
                dx,
                dy,
            ),
            _ => other == self.moved(dx, dy),
        }
    }

    /// Whether the bounds that the command brings are made of whole tiles, or are a corner of one.
    pub open spec fn is_snapped(self) -> bool {
        match self {
            Command::PushLayer { props, blends, clip: Some(clip) } => clip.bbox.is_snapped(),
            Command::PopLayer { bbox } => bbox.is_snapped(),
            _ => true,
        }
    }

    /// Whether the bounds that the command brings are made of whole tiles, or cover no pixel.
    pub open spec fn covers_tiles(self) -> bool {
        match self {
            Command::PushLayer { props, blends, clip: Some(clip) } => clip.bbox.covers_tiles(),
            Command::PopLayer { bbox } => bbox.covers_tiles(),
            _ => true,
        }
    }
}

/// Whether content with the bounds `bbox` has the bounds `other` once it is moved by `(dx, dy)`:
/// bounds move with what they cover. Bounds that cover no pixel keep their size, but need not move:
/// a layer in which nothing is drawn, and which has no clip path, has zero bounds wherever it lies.
pub open spec fn bounds_move_to(bbox: RectView, other: RectView, dx: int, dy: int) -> bool {
    ||| other == bbox.moved(dx, dy)
    ||| bbox.is_empty() && other.is_empty() && other.size() == bbox.size()
}

/// Whether `direct` are the commands on geometry that was moved by `(dx, dy)` before they were
/// recorded.
pub open spec fn commands_move_to(
    commands: Seq<Command>,
    direct: Seq<Command>,
    dx: int,
    dy: int,
) -> bool {
    &&& commands.len() == direct.len()
    &&& forall|i: int|
        0 <= i < commands.len() ==> (#[trigger] commands[i]).moves_to(direct[i], dx, dy)
}

/// The commands with everything that they bring moved by `(dx, dy)`.
pub open spec fn moved_commands(commands: Seq<Command>, dx: int, dy: int) -> Seq<Command> {
    commands.map_values(|command: Command| command.moved(dx, dy))
}

impl SceneView {
    /// Whether each of `commands` makes sense where it is recorded.
    pub open spec fn accepts_all(self, commands: Seq<Command>) -> bool
        decreases commands.len(),
    {
        commands.len() > 0 ==> {
            &&& self.accepts_all(commands.drop_last())
            &&& self.recorded_all(commands.drop_last()).accepts(commands.last())
        }
    }
}

/// The layers of a donor that may still be recording: an open layer has no bounds yet.
spec fn merged_layers(donor: RecorderView, shift: ShiftView) -> Seq<LayerView> {
    Seq::new(
        donor.layers.len(),
        |i: int|
            if donor.layer_stack.contains(i) {
                LayerView { bbox: donor.layers[i].bbox, ..donor.layers[i].shifted(shift) }
            } else {
                donor.layers[i].shifted(shift)
            },
    )
}

/// `target.joined(donor.shifted(shift))` for a donor that may still be recording.
spec fn merged_recorder(
    target: RecorderView,
    donor: RecorderView,
    shift: ShiftView,
) -> RecorderView {
    RecorderView {
        layers: target.layers + merged_layers(donor, shift),
        ..target.joined(donor.shifted(shift))
    }
}

/// `target.appended(donor, dx, dy)` for a donor that may still be recording.
spec fn merged(target: SceneView, donor: SceneView, dx: int, dy: int) -> SceneView {
    SceneView {
        recorder: merged_recorder(target.recorder, donor.recorder, target.shift_behind(dx, dy)),
        ..target.appended(donor, dx, dy)
    }
}

proof fn lemma_draw_node_shifts(nodes: Seq<NodeView>, index: int, shift: ShiftView)
    ensures
        ({
            let moved = crate::record::shifted_nodes(nodes, shift);
            let next = crate::recording::with_draw_node(nodes, index);
            crate::recording::with_draw_node(moved, index + shift.draw)
                == crate::record::shifted_nodes(next, shift)
        }),
{
    let moved = crate::record::shifted_nodes(nodes, shift);
    let next = crate::recording::with_draw_node(nodes, index);
    assert(crate::recording::with_draw_node(moved, index + shift.draw)
        =~= crate::record::shifted_nodes(next, shift));
}

proof fn lemma_layer_node_shifts(nodes: Seq<NodeView>, index: int, id: int, shift: ShiftView)
    ensures
        ({
            let moved = crate::record::shifted_nodes(nodes, shift);
            let next = crate::recording::with_layer_node(nodes, index, id);
            crate::recording::with_layer_node(moved, index + shift.draw, id + shift.layer)
                == crate::record::shifted_nodes(next, shift)
        }),
{
    let moved = crate::record::shifted_nodes(nodes, shift);
    let next = crate::recording::with_layer_node(nodes, index, id);
    assert(crate::recording::with_layer_node(moved, index + shift.draw, id + shift.layer)
        =~= crate::record::shifted_nodes(next, shift));
}

/// Changing the nodes that recording goes on in, then merging, is merging, then changing them.
proof fn lemma_active_nodes(
    target: RecorderView,
    donor: RecorderView,
    nodes: Seq<NodeView>,
    shift: ShiftView,
)
    requires
        target.layer_stack.len() == 0,
        donor.layer_stack.len() > 0,
        donor.stack_valid(),
        shift.layer == target.layers.len(),
    ensures
        merged_recorder(target, donor, shift).active_nodes() == crate::record::shifted_nodes(
            donor.active_nodes(),
            shift,
        ),
        merged_recorder(target, donor, shift).with_active_nodes(
            crate::record::shifted_nodes(nodes, shift),
        ) == merged_recorder(target, donor.with_active_nodes(nodes), shift),
{
    let id = donor.layer_stack.last();
    let merged = merged_recorder(target, donor, shift);
    let direct = merged.with_active_nodes(crate::record::shifted_nodes(nodes, shift));
    let after = merged_recorder(target, donor.with_active_nodes(nodes), shift);
    assert(merged.layer_stack.last() == id + shift.layer);
    assert(merged.layers[id + shift.layer] == merged_layers(donor, shift)[id]);
    assert(direct.layers =~= after.layers) by {
        assert forall|i: int| 0 <= i < direct.layers.len() implies direct.layers[i]
            == after.layers[i] by {
            if i >= target.layers.len() && i != id + shift.layer {
                assert(merged_layers(donor, shift)[i - target.layers.len()] == merged_layers(
                    donor.with_active_nodes(nodes),
                    shift,
                )[i - target.layers.len()]);
            }
        }
    }
    assert(direct =~= after);
}

proof fn lemma_draw(target: RecorderView, donor: RecorderView, draw: DrawView, shift: ShiftView)
    requires
        target.layer_stack.len() == 0,
        crate::validity::ends_at(target.nodes, target.draws.len() as int),
        donor.stack_valid(),
        donor.nodes.len() > 0 || donor.draws.len() == 0,
        shift.layer == target.layers.len(),
        shift.draw == target.draws.len(),
    ensures
        merged_recorder(target, donor, shift).with_draw(draw.shifted(shift)) == merged_recorder(
            target,
            donor.with_draw(draw),
            shift,
        ),
{
    let merged = merged_recorder(target, donor, shift);
    let index = donor.draws.len() as int;
    let nodes = crate::recording::with_draw_node(donor.active_nodes(), index);
    lemma_draw_node_shifts(donor.active_nodes(), index, shift);
    let direct = merged.with_draw(draw.shifted(shift));
    let after = merged_recorder(target, donor.with_draw(draw), shift);
    assert(direct.draws =~= after.draws);
    if donor.layer_stack.len() == 0 {
        assert(direct.nodes =~= after.nodes);
        assert(direct =~= after);
    } else {
        lemma_active_nodes(target, donor, nodes, shift);
        assert(merged_layers(donor.with_draw(draw), shift) =~= merged_layers(
            donor.with_active_nodes(nodes),
            shift,
        ));
        assert(direct =~= after);
    }
}

proof fn lemma_layer(
    target: RecorderView,
    donor: RecorderView,
    props: LayerProps,
    blends: bool,
    clip: Option<ClipView>,
    shifted_clip: Option<ClipView>,
    shift: ShiftView,
)
    requires
        target.layer_stack.len() == 0,
        crate::validity::ends_at(target.nodes, target.draws.len() as int),
        donor.stack_valid(),
        donor.nodes.len() > 0 || donor.draws.len() == 0,
        shift.layer == target.layers.len(),
        shift.draw == target.draws.len(),
        shifted_clip == match clip {
            Some(clip) => Some(clip.shifted(shift)),
            None => None,
        },
    ensures
        merged_recorder(target, donor, shift).with_layer(props, blends, shifted_clip)
            == merged_recorder(target, donor.with_layer(props, blends, clip), shift),
{
    let merged = merged_recorder(target, donor, shift);
    let index = donor.draws.len() as int;
    let id = donor.layers.len() as int;
    let nodes = crate::recording::with_layer_node(donor.active_nodes(), index, id);
    lemma_layer_node_shifts(donor.active_nodes(), index, id, shift);
    let direct = merged.with_layer(props, blends, shifted_clip);
    let next = donor.with_layer(props, blends, clip);
    let after = merged_recorder(target, next, shift);
    let noded = donor.with_active_nodes(nodes);
    if donor.layer_stack.len() > 0 {
        lemma_active_nodes(target, donor, nodes, shift);
    }
    assert(direct.layer_stack =~= after.layer_stack);
    assert(next.layer_stack.last() == id);
    assert forall|i: int| 0 <= i < id implies next.layer_stack.contains(i)
        == donor.layer_stack.contains(i) by {
        if donor.layer_stack.contains(i) {
            let k = donor.layer_stack.index_of(i);
            assert(next.layer_stack[k] == i);
        }
    }
    assert(merged_layers(next, shift).drop_last() =~= merged_layers(noded, shift));
    assert(merged_layers(next, shift).last().nodes =~= Seq::<NodeView>::empty());
    assert(direct.layers =~= after.layers);
    if donor.layer_stack.len() == 0 {
        assert(direct.nodes =~= after.nodes);
    }
    assert(direct =~= after);
}

proof fn lemma_pop(
    target: RecorderView,
    donor: RecorderView,
    bbox: RectView,
    moved_bbox: RectView,
    shift: ShiftView,
)
    requires
        target.layer_stack.len() == 0,
        donor.layer_stack.len() > 0,
        donor.stack_valid(),
        shift.layer == target.layers.len(),
        moved_bbox == bbox.translated(shift.dx, shift.dy),
        moved_bbox == bbox.moved(shift.dx, shift.dy),
    ensures
        merged_recorder(target, donor, shift).with_layer_popped(moved_bbox) == merged_recorder(
            target,
            donor.with_layer_popped(bbox),
            shift,
        ),
{
    let merged = merged_recorder(target, donor, shift);
    let next = donor.with_layer_popped(bbox);
    let direct = merged.with_layer_popped(moved_bbox);
    let after = merged_recorder(target, next, shift);
    let id = donor.layer_stack.last();
    assert(merged.layer_stack.last() == id + shift.layer);
    assert(direct.layer_stack =~= after.layer_stack);
    assert forall|i: int| 0 <= i < donor.layers.len() implies next.layer_stack.contains(i) == (
    donor.layer_stack.contains(i) && i != id) by {
        if donor.layer_stack.contains(i) && i != id {
            let k = donor.layer_stack.index_of(i);
            assert(next.layer_stack[k] == i);
        }
        if next.layer_stack.contains(i) {
            let k = next.layer_stack.index_of(i);
            assert(donor.layer_stack[k] == i);
        }
    }
    assert(direct.layers =~= after.layers);
    assert(direct.largest_layer_size == after.largest_layer_size);
    assert(direct =~= after);
}

/// Moving coverage before it is recorded behind a target is recording it, then moving it there.
proof fn lemma_coverage(
    target: SceneView,
    donor: SceneView,
    strips: Seq<StripView>,
    alphas: Seq<u8>,
    dx: int,
    dy: int,
)
    ensures
        merged(target, donor, dx, dy).with_coverage(
            moved_strips(strips, dx, dy),
            alphas,
        ) == merged(target, donor.with_coverage(strips, alphas), dx, dy),
{
    assert(merged(target, donor, dx, dy).with_coverage(
        moved_strips(strips, dx, dy),
        alphas,
    ) =~= merged(target, donor.with_coverage(strips, alphas), dx, dy));
}

/// One more command: recording it, moved, into a target that a donor was merged into is merging
/// the donor that recorded it.
proof fn lemma_step(target: SceneView, donor: SceneView, command: Command, dx: int, dy: int)
    requires
        target.wf(),
        target.is_settled(),
        donor.wf(),
        donor.accepts(command),
        command.is_snapped(),
        crate::geometry::is_tile_granular(dx, dy),
    ensures
        merged(target, donor, dx, dy).recorded(command.moved(dx, dy)) == merged(
            target,
            donor.recorded(command),
            dx,
            dy,
        ),
{
    let shift = target.shift_behind(dx, dy);
    let direct = merged(target, donor, dx, dy).recorded(command.moved(dx, dy));
    let after = merged(target, donor.recorded(command), dx, dy);
    match command {
        Command::FillPath { strips, alphas, paint } => {
            lemma_coverage(target, donor, strips, alphas, dx, dy);
            let draw = DrawView::Path {
                start: donor.strips.len() as int,
                end: donor.strips.len() as int + strips.len(),
                paint: donor.paint_for(paint),
            };
            lemma_draw(target.recorder, donor.recorder, draw, shift);
            assert(direct =~= after);
        },
        Command::FillRect { rect, moves, paint } => {
            let draw = DrawView::Rect { rect, moves, paint: donor.paint_for(paint) };
            lemma_draw(target.recorder, donor.recorder, draw, shift);
            assert(direct =~= after);
        },
        Command::PushLayer { props, blends, clip: Some(clip) } => {
            lemma_coverage(target, donor, clip.strips, clip.alphas, dx, dy);
            crate::laws::bounds::lemma_snapped_moves(clip.bbox, dx, dy);
            let recorded = donor.clip_for(clip);
            lemma_layer(
                target.recorder,
                donor.recorder,
                props,
                blends,
                Some(recorded),
                Some(recorded.shifted(shift)),
                shift,
            );
            assert(direct =~= after);
        },
        Command::PushLayer { props, blends, clip: None } => {
            lemma_layer(target.recorder, donor.recorder, props, blends, None, None, shift);
            assert(direct =~= after);
        },
        Command::PopLayer { bbox } => {
            crate::laws::bounds::lemma_snapped_moves(bbox, dx, dy);
            lemma_pop(target.recorder, donor.recorder, bbox, bbox.moved(dx, dy), shift);
            assert(direct =~= after);
        },
    }
}

/// What makes sense in a donor makes sense, moved, in a target that the donor was merged into.
proof fn lemma_merged_accepts(
    target: SceneView,
    donor: SceneView,
    command: Command,
    dx: int,
    dy: int,
)
    requires
        target.is_settled(),
        donor.wf(),
        donor.accepts(command),
    ensures
        merged(target, donor, dx, dy).accepts(command.moved(dx, dy)),
{
    let merged = merged(target, donor, dx, dy);
    match command {
        Command::FillPath { strips, alphas, paint } => {
            lemma_moved_coverage_valid(strips, alphas, dx, dy);
        },
        Command::PushLayer { props, blends, clip: Some(clip) } => {
            lemma_moved_coverage_valid(clip.strips, clip.alphas, dx, dy);
        },
        Command::PopLayer { bbox } => {
            let shift = target.shift_behind(dx, dy);
            let last = donor.recorder.layer_stack.len() - 1;
            let id = donor.recorder.layer_stack[last];
            assert(merged.recorder.layer_stack.last() == id + shift.layer);
            assert(merged.recorder.layers[id + shift.layer] == merged_layers(
                donor.recorder,
                shift,
            )[id]);
        },
        _ => {},
    }
}

proof fn lemma_moved_coverage_valid(
    strips: Seq<StripView>,
    alphas: Seq<u8>,
    dx: int,
    dy: int,
)
    requires
        crate::validity::coverage_valid(strips, alphas),
    ensures
        crate::validity::coverage_valid(
            moved_strips(strips, dx, dy),
            alphas,
        ),
{
    let moved = moved_strips(strips, dx, dy);
    assert forall|i: int| 0 <= i < moved.len() implies 0 <= (#[trigger] moved[i]).alpha_idx
        <= alphas.len() by {
        assert(0 <= strips[i].alpha_idx <= alphas.len());
    }
}

/// Appending a scene into which nothing was recorded changes nothing.
pub proof fn law_appending_nothing(target: SceneView, dx: int, dy: int)
    requires
        target.wf(),
    ensures
        target.appended(SceneView::empty(target.width, target.height), dx, dy) == target,
{
    assert(target.appended(SceneView::empty(target.width, target.height), dx, dy) =~= target);
}

/// Whether no filter layer and no clip path of another storage was recorded.
spec fn plainly_recorded(scene: SceneView) -> bool {
    &&& scene.recorder.filter_layers.len() == 0
    &&& crate::record::all_clips_in_default_storage(scene.recorder.layers)
}

proof fn lemma_recorded_all(
    target: SceneView,
    commands: Seq<Command>,
    dx: int,
    dy: int,
)
    requires
        target.wf(),
        target.is_settled(),
        SceneView::empty(target.width, target.height).accepts_all(commands),
        forall|i: int| 0 <= i < commands.len() ==> (#[trigger] commands[i]).is_snapped(),
        crate::geometry::is_tile_granular(dx, dy),
    ensures
        ({
            let donor = SceneView::empty(target.width, target.height).recorded_all(commands);
            &&& donor.wf()
            &&& plainly_recorded(donor)
            &&& donor.width == target.width
            &&& donor.height == target.height
            &&& merged(target, donor, dx, dy) == target.recorded_all(
                moved_commands(commands, dx, dy),
            )
            &&& target.accepts_all(moved_commands(commands, dx, dy))
        }),
    decreases commands.len(),
{
    let blank = SceneView::empty(target.width, target.height);
    if commands.len() == 0 {
        assert(merged(target, blank, dx, dy) =~= target);
    } else {
        let command = commands.last();
        let front = commands.drop_last();
        let donor = blank.recorded_all(front);
        assert forall|i: int| 0 <= i < front.len() implies (#[trigger] front[i]).is_snapped() by {
            assert(commands[i].is_snapped());
        }
        lemma_recorded_all(target, front, dx, dy);
        assert(commands[commands.len() - 1].is_snapped());
        lemma_step(target, donor, command, dx, dy);
        lemma_merged_accepts(target, donor, command, dx, dy);
        crate::recording::law_recording_keeps_wf(donor, command);
        assert(moved_commands(commands, dx, dy).drop_last() =~= moved_commands(front, dx, dy));
    }
}

/// Appending recorded content, moved by whole tiles, is recording the same content moved before:
/// every table comes out the same. Only a lack of room can keep the append from being accepted.
///
/// The bounds that layers and clip paths bring are made of whole tiles, or cover no pixel. Those
/// that cover no pixel move with the append too, and collapse onto a corner of a tile. Recording
/// moved content may leave them elsewhere, and then the tables differ in that alone.
pub proof fn law_append_matches_moved_recording(
    target: SceneView,
    commands: Seq<Command>,
    direct: Seq<Command>,
    dx: int,
    dy: int,
)
    requires
        target.wf(),
        target.is_settled(),
        SceneView::empty(target.width, target.height).accepts_all(commands),
        SceneView::empty(target.width, target.height).recorded_all(commands).is_settled(),
        forall|i: int| 0 <= i < commands.len() ==> (#[trigger] commands[i]).covers_tiles(),
        commands_move_to(commands, direct, dx, dy),
        crate::geometry::is_tile_granular(dx, dy),
    ensures
        ({
            let donor = SceneView::empty(target.width, target.height).recorded_all(commands);
            &&& target.accepts_all(direct)
            &&& target.appended(donor, dx, dy).with_covered_bounds() == target.recorded_all(
                direct,
            ).with_covered_bounds()
            &&& bounds_follow(commands, direct, dx, dy) ==> target.appended(donor, dx, dy)
                == target.recorded_all(direct)
            &&& target.batches_meet(donor)
            &&& target.rejection(donor, dx, dy) == if target.append_fits(donor, dx, dy) {
                None::<AppendSceneError>
            } else {
                Some(AppendSceneError::Overflow)
            }
        }),
{
    let blank = SceneView::empty(target.width, target.height);
    let donor = blank.recorded_all(commands);
    let covered = crate::laws::covered::covered_commands(commands);
    let moved = moved_commands(covered, dx, dy);
    let twin = blank.recorded_all(covered);
    assert(blank.wf());
    assert(crate::laws::covered::covered_commands(covered) =~= covered);
    crate::laws::covered::lemma_recorded_alike(blank, blank, commands, covered);
    assert forall|i: int| 0 <= i < covered.len() implies (#[trigger] covered[i]).is_snapped() by {
        assert(commands[i].covers_tiles());
    }
    lemma_recorded_all(target, covered, dx, dy);
    assert(merged(target, twin, dx, dy) =~= target.appended(twin, dx, dy));
    assert(crate::laws::covered::covered_commands(moved)
        =~= crate::laws::covered::covered_commands(direct)) by {
        assert forall|i: int| 0 <= i < commands.len() implies (
        #[trigger] moved[i]).with_covered_bounds() == direct[i].with_covered_bounds() by {
            assert(commands[i].moves_to(direct[i], dx, dy));
            assert(covered[i] == commands[i].with_covered_bounds());
        }
    }
    crate::laws::covered::lemma_recorded_alike(target, target, moved, direct);
    crate::laws::covered::lemma_appended_alike(target, donor, twin, dx, dy);
    assert forall|i: int| 0 <= i < direct.len() implies (#[trigger] direct[i]).popped_size()
        == commands[i].popped_size() by {
        assert(commands[i].moves_to(direct[i], dx, dy));
    }
    crate::laws::covered::lemma_recorded_sizes(
        target.recorder.largest_layer_size,
        target,
        blank,
        direct,
        commands,
    );
    crate::laws::covered::lemma_alike_in_size(
        target.appended(donor, dx, dy),
        target.recorded_all(direct),
    );
    assert(plainly_recorded(donor)) by {
        crate::laws::covered::lemma_layers_alike(donor, twin);
        assert forall|i: int| 0 <= i < donor.recorder.layers.len() implies (
        #[trigger] donor.recorder.layers[i]).clips_in_default_storage() by {
            assert(donor.recorder.layers[i].with_covered_bounds()
                == twin.recorder.layers[i].with_covered_bounds());
            assert(twin.recorder.layers[i].clips_in_default_storage());
        }
    }
    law_recording_all_keeps_wf(blank, commands);
    law_append_keeps_wf(target, donor, dx, dy);
    if bounds_follow(commands, direct, dx, dy) {
        lemma_recorded_all(target, commands, dx, dy);
        assert(merged(target, donor, dx, dy) =~= target.appended(donor, dx, dy));
    }
}

/// Whether all bounds, those that cover no pixel too, are where an append moves them.
pub open spec fn bounds_follow(
    commands: Seq<Command>,
    direct: Seq<Command>,
    dx: int,
    dy: int,
) -> bool {
    &&& direct == moved_commands(commands, dx, dy)
    &&& forall|i: int| 0 <= i < commands.len() ==> (#[trigger] commands[i]).is_snapped()
}

/// Appending recorded content in place is recording the same content into one scene: every table
/// comes out the same, except that each rectangle of the content counts one more move, by nothing.
/// Only a lack of room can keep the append from being accepted.
///
/// The bounds that layers and clip paths bring are made of whole tiles, or cover no pixel. Those
/// that cover no pixel collapse onto a corner of a tile, unless they are one already.
pub proof fn law_append_matches_recording(target: SceneView, commands: Seq<Command>)
    requires
        target.wf(),
        target.is_settled(),
        SceneView::empty(target.width, target.height).accepts_all(commands),
        SceneView::empty(target.width, target.height).recorded_all(commands).is_settled(),
        forall|i: int| 0 <= i < commands.len() ==> (#[trigger] commands[i]).covers_tiles(),
    ensures
        ({
            let donor = SceneView::empty(target.width, target.height).recorded_all(commands);
            let appended = target.appended(donor, 0, 0);
            let recorded = target.recorded_all(commands);
            let snapped = forall|i: int|
                0 <= i < commands.len() ==> (#[trigger] commands[i]).is_snapped();
            let no_rects = forall|i: int|
                0 <= i < commands.len() ==> (#[trigger] commands[i]) !is FillRect;
            &&& appended.with_covered_bounds().with_real_moves()
                == recorded.with_covered_bounds().with_real_moves()
            &&& snapped ==> appended.with_real_moves() == recorded.with_real_moves()
            &&& snapped && no_rects ==> appended == recorded
            &&& target.batches_meet(donor)
            &&& target.rejection(donor, 0, 0) == if target.append_fits(donor, 0, 0) {
                None::<AppendSceneError>
            } else {
                Some(AppendSceneError::Overflow)
            }
        }),
{
    let moved = moved_commands(commands, 0, 0);
    assert forall|i: int| 0 <= i < commands.len() implies (#[trigger] commands[i]).moves_to(
        moved[i],
        0,
        0,
    ) by {
        lemma_moved_moves_to(commands[i], 0, 0);
    }
    law_append_matches_moved_recording(target, commands, moved, 0, 0);
    assert forall|i: int| 0 <= i < commands.len() implies {
        &&& (#[trigger] moved[i]).with_real_moves() == commands[i].with_real_moves()
        &&& commands[i] !is FillRect ==> moved[i] == commands[i]
    } by {
        match commands[i] {
            Command::FillPath { strips, alphas, paint } => {
                assert(moved_strips(strips, 0, 0) =~= strips);
            },
            Command::FillRect { rect, moves, paint } => {
                crate::laws::moves::lemma_null_move(moves);
            },
            Command::PushLayer { props, blends, clip: Some(clip) } => {
                assert(moved_strips(clip.strips, 0, 0)
                    =~= clip.strips);
            },
            _ => {},
        }
    }
    assert(crate::laws::moves::real_commands(moved) =~= crate::laws::moves::real_commands(
        commands,
    ));
    crate::laws::moves::lemma_real_moves_recorded_all(target, moved);
    crate::laws::moves::lemma_real_moves_recorded_all(target, commands);
    assert(target.recorded_all(moved).with_real_moves() == target.recorded_all(
        commands,
    ).with_real_moves());
    lemma_real_moves_covered(target.recorded_all(moved));
    lemma_real_moves_covered(target.recorded_all(commands));
    if forall|i: int| 0 <= i < commands.len() ==> (#[trigger] commands[i]) !is FillRect {
        assert(moved =~= commands);
    }
}

/// A command on moved geometry is one with everything moved.
proof fn lemma_moved_moves_to(command: Command, dx: int, dy: int)
    ensures
        command.moves_to(command.moved(dx, dy), dx, dy),
{
}

/// Moves and bounds are told apart.
proof fn lemma_real_moves_covered(scene: SceneView)
    ensures
        scene.with_covered_bounds().with_real_moves()
            == scene.with_real_moves().with_covered_bounds(),
{
}

/// Recording keeps a scene well-formed, command after command.
pub proof fn law_recording_all_keeps_wf(scene: SceneView, commands: Seq<Command>)
    requires
        scene.wf(),
        scene.accepts_all(commands),
    ensures
        scene.recorded_all(commands).wf(),
    decreases commands.len(),
{
    if commands.len() > 0 {
        law_recording_all_keeps_wf(scene, commands.drop_last());
        crate::recording::law_recording_keeps_wf(
            scene.recorded_all(commands.drop_last()),
            commands.last(),
        );
    }
}

/// Appending one well-formed, settled scene onto another gives a well-formed, settled scene:
/// everything still points into its table, and draws are batched as recording batches them. The
/// open last batch of the one meets the first batch of the other.
pub proof fn law_append_keeps_wf(target: SceneView, donor: SceneView, dx: int, dy: int)
    requires
        target.wf(),
        target.is_settled(),
        donor.wf(),
        donor.is_settled(),
    ensures
        target.batches_meet(donor),
        target.appended(donor, dx, dy).wf(),
        target.appended(donor, dx, dy).is_settled(),
{
    let shift = target.shift_behind(dx, dy);
    let appended = target.appended(donor, dx, dy);
    let draws = appended.recorder.draws.len() as int;
    let layers = appended.recorder.layers.len() as int;
    let strips = appended.strips.len() as int;
    assert forall|i: int| 0 <= i < appended.strips.len() implies 0 <= (
    #[trigger] appended.strips[i]).alpha_idx <= appended.alphas.len() by {
        if i >= target.strips.len() {
            assert(0 <= donor.strips[i - target.strips.len()].alpha_idx <= donor.alphas.len());
        }
    }
    assert forall|i: int| 0 <= i < draws implies (#[trigger] appended.recorder.draws[i]).is_valid(
        strips,
        appended.paints.len() as int,
    ) by {
        if i < target.recorder.draws.len() {
            assert(target.recorder.draws[i].is_valid(
                target.strips.len() as int,
                target.paints.len() as int,
            ));
        } else {
            assert(donor.recorder.draws[i - target.recorder.draws.len()].is_valid(
                donor.strips.len() as int,
                donor.paints.len() as int,
            ));
        }
    }
    assert forall|i: int| 0 <= i < layers implies (#[trigger] appended.recorder.layers[i]).is_valid(
        draws,
        layers,
        strips,
    ) by {
        if i < target.recorder.layers.len() {
            assert(target.recorder.layers[i].is_valid(
                target.recorder.draws.len() as int,
                target.recorder.layers.len() as int,
                target.strips.len() as int,
            ));
        } else {
            assert(donor.recorder.layers[i - target.recorder.layers.len()].is_valid(
                donor.recorder.draws.len() as int,
                donor.recorder.layers.len() as int,
                donor.strips.len() as int,
            ));
        }
    }
    let moved = crate::record::shifted_nodes(donor.recorder.nodes, shift);
    assert(crate::validity::nodes_valid(appended.recorder.nodes, draws, layers)) by {
        assert forall|i: int| 0 <= i < moved.len() implies (#[trigger] moved[i]).is_valid(
            draws,
            layers,
        ) by {
            assert(donor.recorder.nodes[i].is_valid(
                donor.recorder.draws.len() as int,
                donor.recorder.layers.len() as int,
            ));
        }
        if crate::append::continues(target.recorder.nodes, moved) {
            assert(target.recorder.nodes.last().is_valid(
                target.recorder.draws.len() as int,
                target.recorder.layers.len() as int,
            ));
            assert(moved[0].is_valid(draws, layers));
        }
    }
}

/// Content to append, and how far to move it.
pub struct Piece {
    pub commands: Seq<Command>,
    /// The commands on the same geometry, moved before it is recorded.
    pub direct: Seq<Command>,
    pub dx: int,
    pub dy: int,
}

impl Piece {
    /// Whether the content makes sense in a scene of its own, which it leaves settled, whether the
    /// bounds that it brings are made of whole tiles or cover no pixel, and whether it is moved by
    /// whole tiles.
    pub open spec fn is_valid(self, width: int, height: int) -> bool {
        &&& SceneView::empty(width, height).accepts_all(self.commands)
        &&& self.recorded(width, height).is_settled()
        &&& forall|i: int|
            0 <= i < self.commands.len() ==> (#[trigger] self.commands[i]).covers_tiles()
        &&& commands_move_to(self.commands, self.direct, self.dx, self.dy)
        &&& crate::geometry::is_tile_granular(self.dx, self.dy)
    }

    /// Whether all bounds of the content, those that cover no pixel too, are where an append moves
    /// them.
    pub open spec fn bounds_follow(self) -> bool {
        bounds_follow(self.commands, self.direct, self.dx, self.dy)
    }

    /// The content, recorded into a scene of its own.
    pub open spec fn recorded(self, width: int, height: int) -> SceneView {
        SceneView::empty(width, height).recorded_all(self.commands)
    }
}

/// The commands of all pieces, each piece moved before it is recorded, one behind the other.
pub open spec fn all_moved(pieces: Seq<Piece>) -> Seq<Command>
    decreases pieces.len(),
{
    if pieces.len() == 0 {
        Seq::empty()
    } else {
        all_moved(pieces.drop_last()) + pieces.last().direct
    }
}

impl SceneView {
    /// This scene with each of `pieces`, recorded by itself, appended in turn.
    pub open spec fn appended_all(self, pieces: Seq<Piece>) -> SceneView
        decreases pieces.len(),
    {
        if pieces.len() == 0 {
            self
        } else {
            let last = pieces.last();
            self.appended_all(pieces.drop_last()).appended(
                last.recorded(self.width, self.height),
                last.dx,
                last.dy,
            )
        }
    }
}

/// One append of the many.
proof fn lemma_append_piece(target: SceneView, piece: Piece)
    requires
        target.wf(),
        target.is_settled(),
        piece.is_valid(target.width, target.height),
    ensures
        ({
            let donor = piece.recorded(target.width, target.height);
            let appended = target.appended(donor, piece.dx, piece.dy);
            let recorded = target.recorded_all(piece.direct);
            &&& appended.wf()
            &&& appended.is_settled()
            &&& appended.with_covered_bounds() == recorded.with_covered_bounds()
            &&& piece.bounds_follow() ==> appended == recorded
            &&& target.accepts_all(piece.direct)
            &&& accepted_but_for_room(target, piece)
        }),
{
    law_append_matches_moved_recording(target, piece.commands, piece.direct, piece.dx, piece.dy);
    law_recording_all_keeps_wf(SceneView::empty(target.width, target.height), piece.commands);
    law_append_keeps_wf(
        target,
        piece.recorded(target.width, target.height),
        piece.dx,
        piece.dy,
    );
}

/// Appends accumulate: appending any number of recordings, one after the other, is recording one
/// after the other, each moved, into the first scene. Only a lack of room can keep one of the
/// appends from being accepted.
///
/// As for one append, bounds that cover no pixel may come out elsewhere.
pub proof fn law_repeated_appends_match_recording(target: SceneView, pieces: Seq<Piece>)
    requires
        target.wf(),
        target.is_settled(),
        forall|i: int|
            0 <= i < pieces.len() ==> (#[trigger] pieces[i]).is_valid(target.width, target.height),
    ensures
        target.appended_all(pieces).with_covered_bounds() == target.recorded_all(
            all_moved(pieces),
        ).with_covered_bounds(),
        (forall|i: int| 0 <= i < pieces.len() ==> (#[trigger] pieces[i]).bounds_follow())
            ==> target.appended_all(pieces) == target.recorded_all(all_moved(pieces)),
        target.appended_all(pieces).wf(),
        target.appended_all(pieces).is_settled(),
        forall|i: int|
            0 <= i < pieces.len() ==> accepted_but_for_room(
                target.appended_all(pieces.take(i)),
                #[trigger] pieces[i],
            ),
    decreases pieces.len(),
{
    if pieces.len() > 0 {
        let front = pieces.drop_last();
        let last = pieces.last();
        assert forall|i: int| 0 <= i < front.len() implies (#[trigger] front[i]).is_valid(
            target.width,
            target.height,
        ) by {
            assert(pieces[i].is_valid(target.width, target.height));
        }
        assert(pieces[pieces.len() - 1].is_valid(target.width, target.height));
        law_repeated_appends_match_recording(target, front);
        let before = target.appended_all(front);
        let recorded = target.recorded_all(all_moved(front));
        lemma_appends_keep_viewport(target, front);
        lemma_append_piece(before, last);
        lemma_recorded_in_two_parts(target, all_moved(front), last.direct);
        crate::laws::covered::lemma_recorded_covered(before, recorded, last.direct);
        if forall|i: int| 0 <= i < pieces.len() ==> (#[trigger] pieces[i]).bounds_follow() {
            assert forall|i: int| 0 <= i < front.len() implies (
            #[trigger] front[i]).bounds_follow() by {
                assert(front[i] == pieces[i]);
            }
            assert(pieces[pieces.len() - 1].bounds_follow());
        }
        assert forall|i: int| 0 <= i < pieces.len() implies accepted_but_for_room(
            target.appended_all(pieces.take(i)),
            #[trigger] pieces[i],
        ) by {
            if i < front.len() {
                assert(front[i] == pieces[i]);
                assert(front.take(i) =~= pieces.take(i));
            } else {
                assert(pieces.take(i) =~= front);
            }
        }
    }
}

/// Whether only a lack of room can keep a piece from being appended to `target`.
pub open spec fn accepted_but_for_room(target: SceneView, piece: Piece) -> bool {
    let donor = piece.recorded(target.width, target.height);
    target.rejection(donor, piece.dx, piece.dy) == if target.append_fits(
        donor,
        piece.dx,
        piece.dy,
    ) {
        None::<AppendSceneError>
    } else {
        Some(AppendSceneError::Overflow)
    }
}

proof fn lemma_appends_keep_viewport(target: SceneView, pieces: Seq<Piece>)
    ensures
        target.appended_all(pieces).width == target.width,
        target.appended_all(pieces).height == target.height,
    decreases pieces.len(),
{
    if pieces.len() > 0 {
        lemma_appends_keep_viewport(target, pieces.drop_last());
    }
}

proof fn lemma_recorded_in_two_parts(
    scene: SceneView,
    first: Seq<Command>,
    second: Seq<Command>,
)
    ensures
        scene.recorded_all(first + second) == scene.recorded_all(first).recorded_all(second),
    decreases second.len(),
{
    if second.len() == 0 {
        assert(first + second =~= first);
    } else {
        lemma_recorded_in_two_parts(scene, first, second.drop_last());
        assert((first + second).drop_last() =~= first + second.drop_last());
    }
}

} // verus!
