//! When an append is rejected, and why.

use crate::error::AppendSceneError;
use crate::geometry::RectU16;
use crate::paint::Paint;
use crate::record::{LayerClip, Node, RecordedDraw, RecordedLayer};
use crate::scene::Scene;
use crate::strips::Strip;
use vstd::prelude::*;

verus! {

/// A translation is rejected as unaligned just where it is no whole number of tiles, each 4 pixels
/// wide and 4 pixels high: in x, or in y, each by itself.
pub proof fn law_unaligned_translation(target: Scene, donor: Scene, dx: u16, dy: u16)
    ensures
        ({
            let rejection = target@.rejection(donor@, dx as int, dy as int);
            let unaligned = Some(AppendSceneError::UnalignedTranslation);
            &&& dx % 4 != 0 ==> rejection == unaligned
            &&& dy % 4 != 0 ==> rejection == unaligned
            &&& dx % 4 == 0 && dy % 4 == 0 ==> rejection != unaligned
        }),
{
}

/// Viewports are rejected as mismatched just where the translation is aligned and their widths
/// differ, or their heights differ, whichever is the larger.
pub proof fn law_viewport_mismatch(target: Scene, donor: Scene, dx: u16, dy: u16)
    requires
        dx % 4 == 0,
        dy % 4 == 0,
    ensures
        ({
            let rejection = target@.rejection(donor@, dx as int, dy as int);
            let mismatch = Some(AppendSceneError::ViewportMismatch);
            &&& target.width != donor.width ==> rejection == mismatch
            &&& target.height != donor.height ==> rejection == mismatch
            &&& target.width == donor.width && target.height == donor.height ==> rejection
                != mismatch
        }),
{
}

/// Scenes of one viewport are rejected as open just where a layer of one of them is still open.
pub proof fn law_open_layers(target: Scene, donor: Scene, dx: u16, dy: u16)
    requires
        dx % 4 == 0,
        dy % 4 == 0,
        target.width == donor.width,
        target.height == donor.height,
    ensures
        ({
            let rejection = target@.rejection(donor@, dx as int, dy as int);
            let open = Some(AppendSceneError::OpenLayers);
            &&& target.recorder.layer_stack@.len() != 0 ==> rejection == open
            &&& donor.recorder.layer_stack@.len() != 0 ==> rejection == open
            &&& target.recorder.layer_stack@.len() == 0 && donor.recorder.layer_stack@.len() == 0
                ==> rejection != open
        }),
{
}

/// A settled donor of the same viewport is rejected for its filter layers just where it has one, or
/// more.
pub proof fn law_filter_layers(target: Scene, donor: Scene, dx: u16, dy: u16)
    requires
        dx % 4 == 0,
        dy % 4 == 0,
        target.width == donor.width,
        target.height == donor.height,
        target.recorder.layer_stack@.len() == 0,
        donor.recorder.layer_stack@.len() == 0,
    ensures
        (target@.rejection(donor@, dx as int, dy as int) == Some(
            AppendSceneError::UnsupportedFilterLayers,
        )) <==> donor.recorder.filter_layers@.len() != 0,
{
}

/// A settled donor of the same viewport without filter layers is rejected for its clip paths just
/// where the strips of one of them are in another storage than the default one.
pub proof fn law_threaded_clips(target: Scene, donor: Scene, dx: u16, dy: u16)
    requires
        dx % 4 == 0,
        dy % 4 == 0,
        target.width == donor.width,
        target.height == donor.height,
        target.recorder.layer_stack@.len() == 0,
        donor.recorder.layer_stack@.len() == 0,
        donor.recorder.filter_layers@.len() == 0,
    ensures
        (target@.rejection(donor@, dx as int, dy as int) == Some(
            AppendSceneError::UnsupportedThreadedClips,
        )) <==> exists|i: int|
            0 <= i < donor.recorder.layers@.len() && ((
            #[trigger] donor.recorder.layers@[i]).clip_path matches Some(clip) && clip.thread_idx
                != 0),
{
    let layers = donor.recorder.layers@;
    assert forall|i: int| 0 <= i < layers.len() implies donor@.recorder.layers[i] == (
    #[trigger] layers[i])@ by {}
    if exists|i: int|
        0 <= i < layers.len() && ((#[trigger] layers[i]).clip_path matches Some(clip)
            && clip.thread_idx != 0) {
        let i = choose|i: int|
            0 <= i < layers.len() && ((#[trigger] layers[i]).clip_path matches Some(clip)
                && clip.thread_idx != 0);
        assert(!donor@.recorder.layers[i].clips_in_default_storage());
    } else {
        assert forall|i: int| 0 <= i < donor@.recorder.layers.len() implies (
        #[trigger] donor@.recorder.layers[i]).clips_in_default_storage() by {
            assert(donor@.recorder.layers[i] == layers[i]@);
        }
    }
}

/// Whether a number of a strip passes its type once the strip is moved behind `alphas` alpha bytes:
/// a coordinate that moves, 16 bits; an alpha index, 31 bits.
spec fn strip_overflows(strip: Strip, alphas: int, dx: int, dy: int) -> bool {
    ||| strip.y + dy > 65535
    ||| strip.x != 65535 && strip.x + dx > 65535
    ||| strip.alpha_idx + alphas >= 0x8000_0000
}

/// Whether an index passes its type once the draw is found behind `strips` strips and `paints`
/// paints: a strip index, a machine word; a paint index, 32 bits.
spec fn draw_overflows(draw: RecordedDraw, strips: int, paints: int) -> bool {
    match draw {
        RecordedDraw::Path(path) => {
            ||| path.strips.start + strips > usize::MAX
            ||| path.strips.end + strips > usize::MAX
            ||| path.paint matches Paint::Indexed(index) && index + paints > 0xffff_ffff
        },
        RecordedDraw::Rect(rect) => {
            rect.paint matches Paint::Indexed(index) && index + paints > 0xffff_ffff
        },
    }
}

/// Whether an index of a node passes 32 bits once it is found behind `draws` draws and `layers`
/// layers.
spec fn node_overflows(node: Node, draws: int, layers: int) -> bool {
    ||| node.draws.start + draws > 0xffff_ffff
    ||| node.draws.end + draws > 0xffff_ffff
    ||| node.layer matches Some(layer) && layer + layers > 0xffff_ffff
}

/// Whether a coordinate of moved bounds passes 16 bits, or passes them where bounds that cover a
/// pixel grow to the next line of the tile grid.
spec fn bounds_overflow(bbox: RectU16, dx: int, dy: int) -> bool {
    ||| bbox.x0 + dx > 65535
    ||| bbox.y0 + dy > 65535
    ||| bbox.x1 + dx > 65535
    ||| bbox.y1 + dy > 65535
    ||| bbox.x0 < bbox.x1 && bbox.y0 < bbox.y1 && (bbox.x1 + dx > 65532 || bbox.y1 + dy > 65532)
}

/// Whether a strip index of a clip path passes a machine word once it is found behind `strips`
/// strips, or its moved bounds pass their type.
spec fn clip_overflows(clip: LayerClip, strips: int, dx: int, dy: int) -> bool {
    ||| clip.strip_range.start + strips > usize::MAX
    ||| clip.strip_range.end + strips > usize::MAX
    ||| bounds_overflow(clip.bbox, dx, dy)
}

/// Whether something of a layer passes its type once it is moved.
spec fn layer_overflows(
    layer: RecordedLayer,
    strips: int,
    draws: int,
    layers: int,
    dx: int,
    dy: int,
) -> bool {
    ||| exists|k: int|
        0 <= k < layer.nodes@.len() && node_overflows(#[trigger] layer.nodes@[k], draws, layers)
    ||| layer.clip_path matches Some(clip) && clip_overflows(clip, strips, dx, dy)
    ||| bounds_overflow(layer.bbox, dx, dy)
}

proof fn lemma_layer_overflows(
    layer: RecordedLayer,
    strips: int,
    draws: int,
    layers: int,
    dx: u16,
    dy: u16,
    shift: crate::shift::ShiftView,
)
    requires
        shift.strip == strips,
        shift.draw == draws,
        shift.layer == layers,
        shift.dx == dx,
        shift.dy == dy,
        strips >= 0,
        draws >= 0,
        layers >= 0,
    ensures
        layer@.shift_fits(shift) <==> !layer_overflows(
            layer,
            strips,
            draws,
            layers,
            dx as int,
            dy as int,
        ),
{
    crate::laws::bounds::law_translation_room(layer.bbox, dx, dy);
    if let Some(clip) = layer.clip_path {
        crate::laws::bounds::law_translation_room(clip.bbox, dx, dy);
    }
    let moved = crate::record::shifted_nodes(layer@.nodes, shift);
    assert forall|k: int| 0 <= k < layer.nodes@.len() implies (#[trigger] moved[k]).fits()
        == !node_overflows(layer.nodes@[k], draws, layers) by {
        assert(moved[k] == layer.nodes@[k]@.shifted(shift));
    }
    if exists|k: int|
        0 <= k < layer.nodes@.len() && node_overflows(#[trigger] layer.nodes@[k], draws, layers) {
        let k = choose|k: int|
            0 <= k < layer.nodes@.len() && node_overflows(
                #[trigger] layer.nodes@[k],
                draws,
                layers,
            );
        assert(!moved[k].fits());
    } else {
        assert forall|k: int| 0 <= k < moved.len() implies (#[trigger] moved[k]).fits() by {
            assert(!node_overflows(layer.nodes@[k], draws, layers));
        }
    }
}

/// [`law_overflow`], with one predicate for each kind of thing that is stored.
proof fn lemma_overflow(target: Scene, donor: Scene, dx: u16, dy: u16)
    requires
        dx % 4 == 0,
        dy % 4 == 0,
        target.width == donor.width,
        target.height == donor.height,
        target.recorder.layer_stack@.len() == 0,
        donor.recorder.layer_stack@.len() == 0,
        donor.recorder.filter_layers@.len() == 0,
        forall|i: int|
            0 <= i < donor.recorder.layers@.len() ==> ((
            #[trigger] donor.recorder.layers@[i]).clip_path matches Some(clip) ==> clip.thread_idx
                == 0),
    ensures
        ({
            let rejection = target@.rejection(donor@, dx as int, dy as int);
            let strips = crate::strips::stored_strips(target.strip_storage).len() as int;
            let alphas = crate::strips::stored_alphas(target.strip_storage).len() as int;
            let paints = target.encoded_paints@.len() as int;
            let draws = target.recorder.draws@.len() as int;
            let layers = target.recorder.layers@.len() as int;
            let moved = crate::strips::stored_strips(donor.strip_storage);
            let overflows = {
                ||| alphas > 0xffff_ffff
                ||| draws > 0xffff_ffff
                ||| layers > 0xffff_ffff
                ||| exists|i: int|
                    0 <= i < moved.len() && strip_overflows(
                        #[trigger] moved[i],
                        alphas,
                        dx as int,
                        dy as int,
                    )
                ||| exists|i: int|
                    0 <= i < donor.recorder.draws@.len() && draw_overflows(
                        #[trigger] donor.recorder.draws@[i],
                        strips,
                        paints,
                    )
                ||| exists|i: int|
                    0 <= i < donor.recorder.nodes@.len() && node_overflows(
                        #[trigger] donor.recorder.nodes@[i],
                        draws,
                        layers,
                    )
                ||| exists|i: int|
                    0 <= i < donor.recorder.layers@.len() && layer_overflows(
                        #[trigger] donor.recorder.layers@[i],
                        strips,
                        draws,
                        layers,
                        dx as int,
                        dy as int,
                    )
            };
            &&& overflows ==> rejection == Some(AppendSceneError::Overflow)
            &&& !overflows ==> rejection is None
        }),
{
    let shift = target@.shift_behind(dx as int, dy as int);
    let storage = crate::strips::stored_strips(donor.strip_storage);
    law_threaded_clips(target, donor, dx, dy);
    let strips = crate::strips::shifted_strips(donor@.strips, shift);
    assert forall|i: int| 0 <= i < storage.len() implies (#[trigger] strips[i]).fits()
        == !strip_overflows(storage[i], shift.alpha, dx as int, dy as int) by {
        assert(strips[i] == storage[i]@.shifted(shift));
    }
    let draws = crate::record::shifted_draws(donor@.recorder.draws, shift);
    assert forall|i: int| 0 <= i < donor.recorder.draws@.len() implies (#[trigger] draws[i]).fits()
        == !draw_overflows(donor.recorder.draws@[i], shift.strip, shift.paint) by {
        let draw = donor.recorder.draws@[i];
        assert(draws[i] == draw@.shifted(shift));
        if let RecordedDraw::Rect(rect) = draw {
            let moves = crate::record::move_views(rect.moves@).push((dx as int, dy as int));
            assert forall|k: int| 0 <= k < moves.len() implies 0 <= (#[trigger] moves[k]).0 <= 65535
                && 0 <= moves[k].1 <= 65535 by {
                if k < rect.moves@.len() {
                    assert(moves[k].0 == rect.moves@[k].0);
                }
            }
        }
    }
    let nodes = crate::record::shifted_nodes(donor@.recorder.nodes, shift);
    assert forall|i: int| 0 <= i < donor.recorder.nodes@.len() implies (#[trigger] nodes[i]).fits()
        == !node_overflows(donor.recorder.nodes@[i], shift.draw, shift.layer) by {
        assert(nodes[i] == donor.recorder.nodes@[i]@.shifted(shift));
    }
    let layers = donor@.recorder.layers;
    assert forall|i: int| 0 <= i < layers.len() implies (#[trigger] layers[i]).shift_fits(shift)
        == !layer_overflows(
        donor.recorder.layers@[i],
        shift.strip,
        shift.draw,
        shift.layer,
        dx as int,
        dy as int,
    ) by {
        assert(layers[i] == donor.recorder.layers@[i]@);
        lemma_layer_overflows(
            donor.recorder.layers@[i],
            shift.strip,
            shift.draw,
            shift.layer,
            dx,
            dy,
            shift,
        );
    }
    assert(crate::strips::strips_fit(strips) <==> !(exists|i: int|
        0 <= i < storage.len() && strip_overflows(
            #[trigger] storage[i],
            shift.alpha,
            dx as int,
            dy as int,
        ))) by {
        if crate::strips::strips_fit(strips) {
            assert forall|i: int| 0 <= i < storage.len() implies !strip_overflows(
                #[trigger] storage[i],
                shift.alpha,
                dx as int,
                dy as int,
            ) by {
                assert(strips[i].fits());
            }
        }
    }
    assert(crate::record::draws_fit(draws) <==> !(exists|i: int|
        0 <= i < donor.recorder.draws@.len() && draw_overflows(
            #[trigger] donor.recorder.draws@[i],
            shift.strip,
            shift.paint,
        ))) by {
        if crate::record::draws_fit(draws) {
            assert forall|i: int| 0 <= i < donor.recorder.draws@.len() implies !draw_overflows(
                #[trigger] donor.recorder.draws@[i],
                shift.strip,
                shift.paint,
            ) by {
                assert(draws[i].fits());
            }
        }
    }
    assert(crate::record::nodes_fit(nodes) <==> !(exists|i: int|
        0 <= i < donor.recorder.nodes@.len() && node_overflows(
            #[trigger] donor.recorder.nodes@[i],
            shift.draw,
            shift.layer,
        ))) by {
        if crate::record::nodes_fit(nodes) {
            assert forall|i: int| 0 <= i < donor.recorder.nodes@.len() implies !node_overflows(
                #[trigger] donor.recorder.nodes@[i],
                shift.draw,
                shift.layer,
            ) by {
                assert(nodes[i].fits());
            }
        }
    }
    assert(crate::record::layer_shifts_fit(layers, shift) <==> !(exists|i: int|
        0 <= i < donor.recorder.layers@.len() && layer_overflows(
            #[trigger] donor.recorder.layers@[i],
            shift.strip,
            shift.draw,
            shift.layer,
            dx as int,
            dy as int,
        ))) by {
        if crate::record::layer_shifts_fit(layers, shift) {
            assert forall|i: int| 0 <= i < donor.recorder.layers@.len() implies !layer_overflows(
                #[trigger] donor.recorder.layers@[i],
                shift.strip,
                shift.draw,
                shift.layer,
                dx as int,
                dy as int,
            ) by {
                assert(layers[i].shift_fits(shift));
            }
        }
    }
}

/// An append that is acceptable otherwise is accepted just where every number can be stored, and
/// rejected for an overflow where one cannot:
///
/// - the alpha bytes, the draws and the layers of the target can be counted in 32 bits;
/// - the moved coordinates of each strip of the donor, but the column of a sentinel, take 16 bits,
///   and its alpha index behind those of the target takes 31;
/// - each strip index behind those of the target takes a machine word, and each paint, draw and
///   layer index behind those of the target takes 32 bits;
/// - each moved bound takes 16 bits, also where it grows to the next line of the tile grid, of
///   which 65532 is the last.
pub proof fn law_overflow(target: Scene, donor: Scene, dx: u16, dy: u16)
    requires
        dx % 4 == 0,
        dy % 4 == 0,
        target.width == donor.width,
        target.height == donor.height,
        target.recorder.layer_stack@.len() == 0,
        donor.recorder.layer_stack@.len() == 0,
        donor.recorder.filter_layers@.len() == 0,
        forall|i: int|
            0 <= i < donor.recorder.layers@.len() ==> ((
            #[trigger] donor.recorder.layers@[i]).clip_path matches Some(clip) ==> clip.thread_idx
                == 0),
    ensures
        ({
            let rejection = target@.rejection(donor@, dx as int, dy as int);
            let strips = crate::strips::stored_strips(target.strip_storage).len();
            let alphas = crate::strips::stored_alphas(target.strip_storage).len();
            let paints = target.encoded_paints@.len();
            let draws = target.recorder.draws@.len();
            let layers = target.recorder.layers@.len();
            let moved = crate::strips::stored_strips(donor.strip_storage);
            let fits = {
                &&& alphas <= 0xffff_ffff
                &&& draws <= 0xffff_ffff
                &&& layers <= 0xffff_ffff
                &&& forall|i: int|
                    0 <= i < moved.len() ==> {
                        let strip = #[trigger] moved[i];
                        &&& strip.y + dy <= 65535
                        &&& strip.x == 65535 || strip.x + dx <= 65535
                        &&& strip.alpha_idx + alphas < 0x8000_0000
                    }
                &&& forall|i: int|
                    0 <= i < donor.recorder.draws@.len() ==> match (
                    #[trigger] donor.recorder.draws@[i]) {
                        RecordedDraw::Path(path) => {
                            &&& path.strips.start + strips <= usize::MAX
                            &&& path.strips.end + strips <= usize::MAX
                            &&& path.paint matches Paint::Indexed(index) ==> index + paints
                                <= 0xffff_ffff
                        },
                        RecordedDraw::Rect(rect) => rect.paint matches Paint::Indexed(index)
                            ==> index + paints <= 0xffff_ffff,
                    }
                &&& forall|i: int|
                    0 <= i < donor.recorder.nodes@.len() ==> {
                        let node = #[trigger] donor.recorder.nodes@[i];
                        &&& node.draws.start + draws <= 0xffff_ffff
                        &&& node.draws.end + draws <= 0xffff_ffff
                        &&& node.layer matches Some(layer) ==> layer + layers <= 0xffff_ffff
                    }
                &&& forall|i: int|
                    0 <= i < donor.recorder.layers@.len() ==> {
                        let layer = #[trigger] donor.recorder.layers@[i];
                        let b = layer.bbox;
                        &&& forall|k: int|
                            0 <= k < layer.nodes@.len() ==> {
                                let node = #[trigger] layer.nodes@[k];
                                &&& node.draws.start + draws <= 0xffff_ffff
                                &&& node.draws.end + draws <= 0xffff_ffff
                                &&& node.layer matches Some(id) ==> id + layers <= 0xffff_ffff
                            }
                        &&& layer.clip_path matches Some(clip) ==> {
                            let c = clip.bbox;
                            &&& clip.strip_range.start + strips <= usize::MAX
                            &&& clip.strip_range.end + strips <= usize::MAX
                            &&& c.x0 + dx <= 65535 && c.y0 + dy <= 65535
                            &&& c.x1 + dx <= 65535 && c.y1 + dy <= 65535
                            &&& c.x0 < c.x1 && c.y0 < c.y1 ==> c.x1 + dx <= 65532 && c.y1 + dy
                                <= 65532
                        }
                        &&& b.x0 + dx <= 65535 && b.y0 + dy <= 65535
                        &&& b.x1 + dx <= 65535 && b.y1 + dy <= 65535
                        &&& b.x0 < b.x1 && b.y0 < b.y1 ==> b.x1 + dx <= 65532 && b.y1 + dy <= 65532
                    }
            };
            &&& fits ==> rejection is None
            &&& !fits ==> rejection == Some(AppendSceneError::Overflow)
        }),
{
    lemma_overflow(target, donor, dx, dy);
}

/// Scenes whose tables fit together can be appended: where the alpha bytes of both stay below 2 to
/// the 31st, the draws, layers and paints of both can be counted in 32 bits and the strips of both
/// in a machine word, and no moved coordinate passes 65532, an append that is acceptable otherwise
/// is accepted.
pub proof fn law_tables_fit_together(target: Scene, donor: Scene, dx: u16, dy: u16)
    requires
        target@.wf(),
        donor@.wf(),
        dx % 4 == 0,
        dy % 4 == 0,
        target.width == donor.width,
        target.height == donor.height,
        target.recorder.layer_stack@.len() == 0,
        donor.recorder.layer_stack@.len() == 0,
        donor.recorder.filter_layers@.len() == 0,
        forall|i: int|
            0 <= i < donor.recorder.layers@.len() ==> ((
            #[trigger] donor.recorder.layers@[i]).clip_path matches Some(clip) ==> clip.thread_idx
                == 0),
        crate::strips::stored_alphas(target.strip_storage).len() + crate::strips::stored_alphas(
            donor.strip_storage,
        ).len() < 0x8000_0000,
        crate::strips::stored_strips(target.strip_storage).len() + crate::strips::stored_strips(
            donor.strip_storage,
        ).len() <= usize::MAX,
        target.recorder.draws@.len() + donor.recorder.draws@.len() <= 0xffff_ffff,
        target.recorder.layers@.len() + donor.recorder.layers@.len() <= 0xffff_ffff,
        target.encoded_paints@.len() + donor.encoded_paints@.len() <= 0xffff_ffff,
        forall|i: int|
            0 <= i < crate::strips::stored_strips(donor.strip_storage).len() ==> {
                let strip = #[trigger] crate::strips::stored_strips(donor.strip_storage)[i];
                &&& strip.y + dy <= 65532
                &&& strip.x == 65535 || strip.x + dx <= 65532
            },
        forall|i: int|
            0 <= i < donor.recorder.layers@.len() ==> {
                let layer = #[trigger] donor.recorder.layers@[i];
                &&& layer.bbox.x0 + dx <= 65532 && layer.bbox.y0 + dy <= 65532
                &&& layer.bbox.x1 + dx <= 65532 && layer.bbox.y1 + dy <= 65532
                &&& layer.clip_path matches Some(clip) ==> {
                    &&& clip.bbox.x0 + dx <= 65532 && clip.bbox.y0 + dy <= 65532
                    &&& clip.bbox.x1 + dx <= 65532 && clip.bbox.y1 + dy <= 65532
                }
            },
    ensures
        target@.rejection(donor@, dx as int, dy as int) is None,
{
    let moved = crate::strips::stored_strips(donor.strip_storage);
    let view = donor@.recorder;
    let draws = view.draws.len() as int;
    let layers = view.layers.len() as int;
    let strips = donor@.strips.len() as int;
    assert forall|i: int| 0 <= i < moved.len() implies (#[trigger] moved[i]).alpha_idx
        <= donor@.alphas.len() by {
        assert(donor@.strips[i].alpha_idx <= donor@.alphas.len());
    }
    assert forall|i: int| 0 <= i < draws implies (#[trigger] donor.recorder.draws@[i])@.is_valid(
        strips,
        donor@.paints.len() as int,
    ) by {
        assert(view.draws[i].is_valid(strips, donor@.paints.len() as int));
    }
    assert forall|i: int| 0 <= i < donor.recorder.nodes@.len() implies (
    #[trigger] donor.recorder.nodes@[i])@.is_valid(draws, layers) by {
        assert(view.nodes[i].is_valid(draws, layers));
    }
    assert forall|i: int| 0 <= i < layers implies (#[trigger] donor.recorder.layers@[i])@.is_valid(
        draws,
        layers,
        strips,
    ) by {
        assert(view.layers[i].is_valid(draws, layers, strips));
    }
    assert forall|i: int, k: int|
        0 <= i < layers && 0 <= k < donor.recorder.layers@[i].nodes@.len() implies (
    #[trigger] donor.recorder.layers@[i].nodes@[k])@.is_valid(draws, layers) by {
        let layer = donor.recorder.layers@[i];
        assert(layer@.is_valid(draws, layers, strips));
        assert(layer@.nodes[k].is_valid(draws, layers));
    }
    law_overflow(target, donor, dx, dy);
}

} // verus!
