//! What holds of the tables of every scene.

use crate::paint::PaintView;
use crate::record::{DrawView, LayerView, NodeView, RecorderView};
use crate::scene::SceneView;
use crate::strips::StripView;
use vstd::prelude::*;

verus! {

impl NodeView {
    /// Whether the node points into tables with this many draws and layers.
    pub open spec fn is_valid(self, draws: int, layers: int) -> bool {
        &&& 0 <= self.start <= self.end <= draws
        &&& self.layer matches Some(layer) ==> 0 <= layer < layers
    }
}

/// Whether each node of a list points into the tables, and each but the last is closed by a layer:
/// draws between two layers share one batch.
pub open spec fn nodes_valid(nodes: Seq<NodeView>, draws: int, layers: int) -> bool {
    &&& forall|i: int| 0 <= i < nodes.len() ==> (#[trigger] nodes[i]).is_valid(draws, layers)
    &&& forall|i: int| 0 <= i < nodes.len() - 1 ==> (#[trigger] nodes[i]).layer is Some
}

/// Whether an open last batch ends with the last of `draws` draws.
pub open spec fn ends_at(nodes: Seq<NodeView>, draws: int) -> bool {
    nodes.len() > 0 && nodes.last().layer is None ==> nodes.last().end == draws
}

/// Whether the last node is closed by a layer.
pub open spec fn ends_in_layer(nodes: Seq<NodeView>) -> bool {
    nodes.len() > 0 && nodes.last().layer is Some
}

impl PaintView {
    /// Whether the paint points into a table of this many paints.
    pub open spec fn is_valid(self, paints: int) -> bool {
        self matches PaintView::Indexed(index) ==> 0 <= index < paints
    }
}

impl DrawView {
    /// Whether the draw points into tables with this many strips and paints.
    pub open spec fn is_valid(self, strips: int, paints: int) -> bool {
        match self {
            DrawView::Path { start, end, paint } => 0 <= start <= end <= strips && paint.is_valid(
                paints,
            ),
            DrawView::Rect { rect, moves, paint } => paint.is_valid(paints),
        }
    }
}

impl LayerView {
    /// Whether the layer points into tables with this many draws, layers and strips.
    pub open spec fn is_valid(self, draws: int, layers: int, strips: int) -> bool {
        &&& nodes_valid(self.nodes, draws, layers)
        &&& self.clip_path matches Some(clip) ==> 0 <= clip.start <= clip.end <= strips
    }
}

impl RecorderView {
    /// Whether the ids of the open layers are ids, outermost first.
    pub open spec fn stack_valid(self) -> bool {
        &&& forall|k: int|
            0 <= k < self.layer_stack.len() ==> 0 <= (#[trigger] self.layer_stack[k])
                < self.layers.len()
        &&& forall|j: int, k: int|
            0 <= j < k < self.layer_stack.len() ==> (#[trigger] self.layer_stack[j]) < (
            #[trigger] self.layer_stack[k])
    }

    /// Whether recording can go on in the innermost open layer, and each list around it ends in the
    /// next open layer.
    pub open spec fn batches_valid(self) -> bool {
        &&& if self.layer_stack.len() == 0 {
            ends_at(self.nodes, self.draws.len() as int)
        } else {
            ends_in_layer(self.nodes)
        }
        &&& forall|k: int|
            0 <= k < self.layer_stack.len() - 1 ==> ends_in_layer(
                self.layers[#[trigger] self.layer_stack[k]].nodes,
            )
        &&& self.layer_stack.len() > 0 ==> ends_at(
            self.layers[self.layer_stack.last()].nodes,
            self.draws.len() as int,
        )
    }

    /// Whether everything points into its table, with this many strips and paints, and the draws
    /// are batched as recording batches them.
    pub open spec fn wf(self, strips: int, paints: int) -> bool {
        &&& nodes_valid(self.nodes, self.draws.len() as int, self.layers.len() as int)
        &&& if self.nodes.len() == 0 {
            self.draws.len() == 0
        } else {
            self.nodes[0].start == 0
        }
        &&& forall|i: int|
            0 <= i < self.draws.len() ==> (#[trigger] self.draws[i]).is_valid(strips, paints)
        &&& forall|i: int|
            0 <= i < self.layers.len() ==> (#[trigger] self.layers[i]).is_valid(
                self.draws.len() as int,
                self.layers.len() as int,
                strips,
            )
        &&& self.max_layer_depth >= 0
        &&& self.stack_valid()
        &&& self.batches_valid()
    }
}

/// Whether each strip points into (or, as a sentinel may, right behind) the alpha bytes.
pub open spec fn coverage_valid(strips: Seq<StripView>, alphas: Seq<u8>) -> bool {
    forall|i: int|
        0 <= i < strips.len() ==> 0 <= (#[trigger] strips[i]).alpha_idx <= alphas.len()
}

impl SceneView {
    /// What holds of every scene: everything points into its table, and the draws are batched as
    /// recording batches them.
    pub open spec fn wf(self) -> bool {
        &&& coverage_valid(self.strips, self.alphas)
        &&& self.recorder.wf(self.strips.len() as int, self.paints.len() as int)
    }
}

} // verus!
