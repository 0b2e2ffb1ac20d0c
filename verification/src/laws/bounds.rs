//! Strips and bounds move together, and provisions only grow.

use crate::geometry::{RectU16, RectView, SizeView, TILE_HEIGHT, TILE_WIDTH};
use crate::record::RecorderView;
use crate::scene::SceneView;
use crate::shift::ShiftView;
use crate::strips::StripView;
use vstd::prelude::*;

verus! {

/// Snapping an edge encloses it, moves with whole tiles, and is done once.
pub(crate) proof fn lemma_snap_edge(value: int, delta: int)
    requires
        delta % 4 == 0,
    ensures
        ({
            let down = crate::geometry::snap_down(value, 4);
            let up = crate::geometry::snap_up(value, 4);
            &&& down <= value <= up
            &&& crate::geometry::snap_down(value + delta, 4) == down + delta
            &&& crate::geometry::snap_up(value + delta, 4) == up + delta
            &&& crate::geometry::snap_down(down, 4) == down
            &&& crate::geometry::snap_up(up, 4) == up
        }),
{
}

/// Snapping and moving by whole tiles can change places.
pub(crate) proof fn lemma_snapped_moves(rect: RectView, dx: int, dy: int)
    requires
        crate::geometry::is_tile_granular(dx, dy),
    ensures
        rect.translated(dx, dy) == rect.snapped().moved(dx, dy),
        rect.snapped().is_snapped(),
{
    lemma_snap_edge(rect.x0, dx);
    lemma_snap_edge(rect.y0, dy);
    lemma_snap_edge(rect.x1, dx);
    lemma_snap_edge(rect.y1, dy);
}

impl StripView {
    /// How many columns of alpha bytes lie between this strip and the next one.
    pub open spec fn columns_to(self, next: StripView) -> int {
        next.alpha_idx / (TILE_HEIGHT as int) - self.alpha_idx / (TILE_HEIGHT as int)
    }

    /// Whether the strip starts at a column of tiles, which no sentinel does.
    pub open spec fn is_column_aligned(self) -> bool {
        self.x % (TILE_WIDTH as int) == 0
    }
}

/// Strips that move together stay in the same rows relative to each other, and keep the widths that
/// their alpha indices give where these start the same way within a column. A sentinel stays a
/// sentinel, and a strip at a column of tiles stays one under a tile-granular move.
pub proof fn law_strips_move_together(strip: StripView, next: StripView, shift: ShiftView)
    ensures
        strip.shifted(shift).y == next.shifted(shift).y <==> strip.y == next.y,
        strip.shifted(shift).fill_gap == strip.fill_gap,
        strip.alpha_idx % (TILE_HEIGHT as int) == next.alpha_idx % (TILE_HEIGHT as int)
            ==> strip.shifted(shift).columns_to(next.shifted(shift)) == strip.columns_to(next),
        strip.is_sentinel() ==> strip.shifted(shift).is_sentinel(),
        strip.is_column_aligned() && crate::geometry::is_tile_granular(shift.dx, shift.dy)
            ==> strip.shifted(shift).is_column_aligned() && !strip.shifted(shift).is_sentinel(),
{
}

/// The translated bounds of a layer are made of whole tiles and cover the moved bounds; where both
/// the bounds and the translation are tile-granular, they are just the moved bounds.
pub proof fn law_translated_bounds_cover(bbox: RectView, dx: int, dy: int)
    ensures
        bbox.translated(dx, dy).is_snapped(),
        !bbox.is_empty() ==> {
            &&& bbox.translated(dx, dy).x0 <= bbox.x0 + dx
            &&& bbox.translated(dx, dy).y0 <= bbox.y0 + dy
            &&& bbox.x1 + dx <= bbox.translated(dx, dy).x1
            &&& bbox.y1 + dy <= bbox.translated(dx, dy).y1
        },
        bbox.is_snapped() && crate::geometry::is_tile_granular(dx, dy) ==> bbox.translated(dx, dy)
            == bbox.moved(dx, dy),
{
    let moved = bbox.moved(dx, dy);
    lemma_snap_edge(moved.x0, 0);
    lemma_snap_edge(moved.y0, 0);
    lemma_snap_edge(moved.x1, 0);
    lemma_snap_edge(moved.y1, 0);
    lemma_snapped_moves(moved, 0, 0);
    if crate::geometry::is_tile_granular(dx, dy) {
        lemma_snapped_moves(bbox, dx, dy);
    }
}

/// The translated bounds of a layer start on the tile grid, less than a tile before the moved
/// bounds start. Where they cover a pixel, they end on it too, less than a tile behind the moved
/// bounds; else they end where they start.
pub proof fn law_translated_bounds_are_tight(bbox: RectView, dx: int, dy: int)
    ensures
        ({
            let moved = bbox.translated(dx, dy);
            &&& moved.x0 % 4 == 0 && moved.x0 <= bbox.x0 + dx < moved.x0 + 4
            &&& moved.y0 % 4 == 0 && moved.y0 <= bbox.y0 + dy < moved.y0 + 4
            &&& if bbox.x0 < bbox.x1 && bbox.y0 < bbox.y1 {
                &&& moved.x1 % 4 == 0 && moved.x1 - 4 < bbox.x1 + dx <= moved.x1
                &&& moved.y1 % 4 == 0 && moved.y1 - 4 < bbox.y1 + dy <= moved.y1
            } else {
                moved.x1 == moved.x0 && moved.y1 == moved.y0
            }
        }),
{
}

/// Bounds can be translated just where no moved coordinate passes 65535 and, where they cover a
/// pixel, they end no further than the last line of the tile grid, 65532.
pub proof fn law_translation_room(bbox: RectU16, dx: u16, dy: u16)
    ensures
        bbox@.translation_fits(dx as int, dy as int) <==> {
            &&& bbox.x0 + dx <= 65535
            &&& bbox.y0 + dy <= 65535
            &&& bbox.x1 + dx <= 65535
            &&& bbox.y1 + dy <= 65535
            &&& bbox.x0 < bbox.x1 && bbox.y0 < bbox.y1 ==> bbox.x1 + dx <= 65532 && bbox.y1 + dy
                <= 65532
        },
{
}

/// Whether `size` is there and holds `other`, or `other` is not there.
pub open spec fn holds_size(size: Option<SizeView>, other: Option<SizeView>) -> bool {
    other matches Some(other) ==> {
        &&& size matches Some(size)
        &&& size.width >= other.width
        &&& size.height >= other.height
    }
}

/// Whether what `recorder` says about itself makes a renderer provision at least what `other`
/// makes it provision.
pub open spec fn provisions_for(recorder: RecorderView, other: RecorderView) -> bool {
    &&& recorder.max_layer_depth >= other.max_layer_depth
    &&& other.root_is_blend_target ==> recorder.root_is_blend_target
    &&& other.has_non_default_blend ==> recorder.has_non_default_blend
    &&& holds_size(recorder.largest_layer_size, other.largest_layer_size)
    &&& holds_size(recorder.largest_filter_layer_size, other.largest_filter_layer_size)
}

/// Appending only ever makes a renderer provision more, never less: for the target as well as for
/// the donor.
pub proof fn law_append_provisions_for_both(
    target: SceneView,
    donor: SceneView,
    dx: int,
    dy: int,
)
    ensures
        provisions_for(target.appended(donor, dx, dy).recorder, target.recorder),
        provisions_for(target.appended(donor, dx, dy).recorder, donor.recorder),
{
}

} // verus!
