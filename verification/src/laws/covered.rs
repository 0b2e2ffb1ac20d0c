//! Bounds that cover no pixel, and where they lie.

use crate::geometry::{RectView, SizeView};
use crate::record::{ClipView, LayerView, RecorderView};
use crate::recording::{ClipPathView, Command};
use crate::scene::SceneView;
use vstd::prelude::*;

verus! {

impl RectView {
    /// The rectangle, or the zero rectangle where it covers no pixel.
    pub open spec fn covered(self) -> RectView {
        if self.is_empty() {
            crate::recording::zero_rect()
        } else {
            self
        }
    }

    /// Whether the rectangle is made of whole tiles, or covers no pixel.
    pub open spec fn covers_tiles(self) -> bool {
        self.is_empty() || self.is_snapped()
    }
}

impl ClipView {
    /// The clip path, with zero bounds where they cover no pixel.
    pub open spec fn with_covered_bounds(self) -> ClipView {
        ClipView { bbox: self.bbox.covered(), ..self }
    }
}

impl LayerView {
    /// The layer, with zero bounds for itself and its clip path where they cover no pixel.
    pub open spec fn with_covered_bounds(self) -> LayerView {
        LayerView {
            bbox: self.bbox.covered(),
            clip_path: match self.clip_path {
                Some(clip) => Some(clip.with_covered_bounds()),
                None => None,
            },
            ..self
        }
    }
}

impl RecorderView {
    /// The recording, with zero bounds for layers and clip paths where they cover no pixel.
    pub open spec fn with_covered_bounds(self) -> RecorderView {
        RecorderView {
            layers: self.layers.map_values(|layer: LayerView| layer.with_covered_bounds()),
            ..self
        }
    }
}

impl SceneView {
    /// The scene, with zero bounds for layers and clip paths where they cover no pixel.
    pub open spec fn with_covered_bounds(self) -> SceneView {
        SceneView { recorder: self.recorder.with_covered_bounds(), ..self }
    }
}

impl Command {
    /// The command, with zero bounds where they cover no pixel.
    pub(crate) open spec fn with_covered_bounds(self) -> Command {
        match self {
            Command::PushLayer { props, blends, clip: Some(clip) } => Command::PushLayer {
                props,
                blends,
                clip: Some(ClipPathView { bbox: clip.bbox.covered(), ..clip }),
            },
            Command::PopLayer { bbox } => Command::PopLayer { bbox: bbox.covered() },
            _ => self,
        }
    }

    /// The size of the layer that the command ends.
    pub(crate) open spec fn popped_size(self) -> Option<SizeView> {
        match self {
            Command::PopLayer { bbox } => Some(bbox.size()),
            _ => None,
        }
    }
}

/// The commands, with zero bounds where they cover no pixel.
pub(crate) open spec fn covered_commands(commands: Seq<Command>) -> Seq<Command> {
    commands.map_values(|command: Command| command.with_covered_bounds())
}

/// A recording without where bounds that cover no pixel lie, and without sizes.
pub(crate) open spec fn unsized_recorder(recorder: RecorderView) -> RecorderView {
    RecorderView { largest_layer_size: None, ..recorder.with_covered_bounds() }
}

/// Whether two scenes agree in all but where bounds that cover no pixel lie, and sizes.
pub(crate) open spec fn alike(first: SceneView, second: SceneView) -> bool {
    (SceneView { recorder: unsized_recorder(first.recorder), ..first }) == (SceneView {
        recorder: unsized_recorder(second.recorder),
        ..second
    })
}

/// Scenes that agree have layers that agree.
pub(crate) proof fn lemma_layers_alike(first: SceneView, second: SceneView)
    requires
        alike(first, second),
    ensures
        first.recorder.layers.len() == second.recorder.layers.len(),
        forall|i: int|
            0 <= i < first.recorder.layers.len() ==> (
            #[trigger] first.recorder.layers[i]).with_covered_bounds()
                == second.recorder.layers[i].with_covered_bounds(),
{
    let firsts = unsized_recorder(first.recorder).layers;
    let seconds = unsized_recorder(second.recorder).layers;
    assert(firsts == seconds);
    assert(firsts.len() == first.recorder.layers.len());
    assert(seconds.len() == second.recorder.layers.len());
    assert forall|i: int| 0 <= i < first.recorder.layers.len() implies (
    #[trigger] first.recorder.layers[i]).with_covered_bounds()
        == second.recorder.layers[i].with_covered_bounds() by {
        assert(firsts[i] == first.recorder.layers[i].with_covered_bounds());
        assert(seconds[i] == second.recorder.layers[i].with_covered_bounds());
    }
}

/// Scenes that agree go on agreeing under commands that agree.
proof fn lemma_step_alike(
    first: SceneView,
    second: SceneView,
    command: Command,
    other: Command,
)
    requires
        first.wf(),
        first.accepts(command),
        alike(first, second),
        command.with_covered_bounds() == other.with_covered_bounds(),
    ensures
        alike(first.recorded(command), second.recorded(other)),
        second.accepts(other),
{
    lemma_layers_alike(first, second);
    assert(first.recorder.layer_stack == second.recorder.layer_stack);
    if first.recorder.layer_stack.len() > 0 {
        let id = first.recorder.layer_stack[first.recorder.layer_stack.len() - 1];
        assert(first.recorder.layers[id].with_covered_bounds()
            == second.recorder.layers[id].with_covered_bounds());
    }
    let after = first.recorded(command);
    let others = second.recorded(other);
    assert(unsized_recorder(after.recorder).layers =~= unsized_recorder(others.recorder).layers);
    assert(unsized_recorder(after.recorder) =~= unsized_recorder(others.recorder));
}

/// Scenes that agree go on agreeing under lists of commands that agree.
pub(crate) proof fn lemma_recorded_alike(
    first: SceneView,
    second: SceneView,
    commands: Seq<Command>,
    others: Seq<Command>,
)
    requires
        first.wf(),
        first.accepts_all(commands),
        alike(first, second),
        covered_commands(commands) == covered_commands(others),
    ensures
        alike(first.recorded_all(commands), second.recorded_all(others)),
        second.accepts_all(others),
    decreases commands.len(),
{
    assert(covered_commands(commands).len() == commands.len());
    assert(covered_commands(others).len() == others.len());
    if commands.len() > 0 {
        let front = commands.drop_last();
        let others_front = others.drop_last();
        assert(covered_commands(commands).drop_last() =~= covered_commands(front));
        assert(covered_commands(others).drop_last() =~= covered_commands(others_front));
        assert(covered_commands(commands).last() == commands.last().with_covered_bounds());
        assert(covered_commands(others).last() == others.last().with_covered_bounds());
        lemma_recorded_alike(first, second, front, others_front);
        crate::laws::recording::law_recording_all_keeps_wf(first, front);
        lemma_step_alike(
            first.recorded_all(front),
            second.recorded_all(others_front),
            commands.last(),
            others.last(),
        );
    }
}

/// Recording layers of the same sizes makes the same provisions, beyond those made before.
pub(crate) proof fn lemma_recorded_sizes(
    before: Option<SizeView>,
    first: SceneView,
    second: SceneView,
    commands: Seq<Command>,
    others: Seq<Command>,
)
    requires
        commands.len() == others.len(),
        forall|i: int|
            0 <= i < commands.len() ==> (#[trigger] commands[i]).popped_size()
                == others[i].popped_size(),
        first.recorder.largest_layer_size == crate::geometry::max_size_of(
            before,
            second.recorder.largest_layer_size,
        ),
    ensures
        first.recorded_all(commands).recorder.largest_layer_size == crate::geometry::max_size_of(
            before,
            second.recorded_all(others).recorder.largest_layer_size,
        ),
    decreases commands.len(),
{
    if commands.len() > 0 {
        let front = commands.drop_last();
        let others_front = others.drop_last();
        assert forall|i: int| 0 <= i < front.len() implies (#[trigger] front[i]).popped_size()
            == others_front[i].popped_size() by {
            assert(commands[i].popped_size() == others[i].popped_size());
        }
        lemma_recorded_sizes(before, first, second, front, others_front);
        assert(commands[commands.len() - 1].popped_size() == others[commands.len()
            - 1].popped_size());
    }
}

/// Donors that agree give scenes that agree.
pub(crate) proof fn lemma_appended_alike(
    target: SceneView,
    donor: SceneView,
    other: SceneView,
    dx: int,
    dy: int,
)
    requires
        alike(donor, other),
    ensures
        alike(target.appended(donor, dx, dy), target.appended(other, dx, dy)),
{
    lemma_layers_alike(donor, other);
    let shift = target.shift_behind(dx, dy);
    let after = target.appended(donor, dx, dy);
    let others = target.appended(other, dx, dy);
    assert forall|i: int| 0 <= i < donor.recorder.layers.len() implies (
    #[trigger] donor.recorder.layers[i]).shifted(shift).with_covered_bounds()
        == other.recorder.layers[i].shifted(shift).with_covered_bounds() by {
        let layer = donor.recorder.layers[i];
        let twin = other.recorder.layers[i];
        assert(layer.with_covered_bounds() == twin.with_covered_bounds());
        lemma_translated_covered(layer.bbox, twin.bbox, dx, dy);
        if let (Some(clip), Some(twin)) = (layer.clip_path, twin.clip_path) {
            lemma_translated_covered(clip.bbox, twin.bbox, dx, dy);
        }
    }
    assert(unsized_recorder(after.recorder).layers =~= unsized_recorder(others.recorder).layers);
    assert(unsized_recorder(after.recorder) =~= unsized_recorder(others.recorder));
}

proof fn lemma_translated_covered(rect: RectView, other: RectView, dx: int, dy: int)
    requires
        rect.covered() == other.covered(),
    ensures
        rect.translated(dx, dy).covered() == other.translated(dx, dy).covered(),
{
    if rect.is_empty() {
        assert(other.is_empty());
        assert(rect.translated(dx, dy).is_empty());
        assert(other.translated(dx, dy).is_empty());
    }
}

/// Scenes that agree, and in their sizes too, differ only in where bounds that cover no pixel lie.
pub(crate) proof fn lemma_alike_in_size(first: SceneView, second: SceneView)
    requires
        alike(first, second),
        first.recorder.largest_layer_size == second.recorder.largest_layer_size,
    ensures
        first.with_covered_bounds() == second.with_covered_bounds(),
{
    let firsts = unsized_recorder(first.recorder);
    let seconds = unsized_recorder(second.recorder);
    assert(firsts == seconds);
    assert(first.recorder.with_covered_bounds() == RecorderView {
        largest_layer_size: first.recorder.largest_layer_size,
        ..firsts
    });
    assert(second.recorder.with_covered_bounds() == RecorderView {
        largest_layer_size: second.recorder.largest_layer_size,
        ..seconds
    });
}

/// Scenes that differ only in where bounds that cover no pixel lie go on differing in that alone.
pub(crate) proof fn lemma_recorded_covered(
    first: SceneView,
    second: SceneView,
    commands: Seq<Command>,
)
    requires
        first.wf(),
        first.accepts_all(commands),
        first.with_covered_bounds() == second.with_covered_bounds(),
    ensures
        first.recorded_all(commands).with_covered_bounds() == second.recorded_all(
            commands,
        ).with_covered_bounds(),
{
    lemma_recorded_alike(first, second, commands, commands);
    lemma_recorded_sizes(None, first, second, commands, commands);
    lemma_alike_in_size(first.recorded_all(commands), second.recorded_all(commands));
}

} // verus!
