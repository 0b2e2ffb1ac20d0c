//! Rectangles and sizes on the pixel grid, and the tile grid laid over it.

use vello_common::tile::Tile;
use vello_common::util::RectExt;
use vstd::prelude::*;

verus! {

/// Width of a tile in pixels.
pub const TILE_WIDTH: u16 = 4;

/// Height of a tile in pixels.
pub const TILE_HEIGHT: u16 = 4;

/// A size in whole pixels.
#[derive(Debug, Clone, Copy, PartialEq, Eq, Structural)]
pub struct SizeU16 {
    pub width: u16,
    pub height: u16,
}

/// A rectangle in whole pixels, from its inclusive minimum corner `(x0, y0)` to its exclusive
/// maximum corner `(x1, y1)`.
#[derive(Debug, Clone, Copy, PartialEq, Eq, Structural)]
pub struct RectU16 {
    pub x0: u16,
    pub y0: u16,
    pub x1: u16,
    pub y1: u16,
}

/// A rectangle with unbounded coordinates.
pub struct RectView {
    pub x0: int,
    pub y0: int,
    pub x1: int,
    pub y1: int,
}

/// The greatest multiple of `step` that is not above `value`.
pub open spec fn snap_down(value: int, step: int) -> int {
    value - value % step
}

/// The least multiple of `step` that is not below `value`.
pub open spec fn snap_up(value: int, step: int) -> int {
    -snap_down(-value, step)
}

impl RectView {
    /// Whether the rectangle covers no pixel.
    pub open spec fn is_empty(self) -> bool {
        self.x0 >= self.x1 || self.y0 >= self.y1
    }

    /// The rectangle moved by `(dx, dy)`.
    pub open spec fn moved(self, dx: int, dy: int) -> RectView {
        RectView { x0: self.x0 + dx, y0: self.y0 + dy, x1: self.x1 + dx, y1: self.y1 + dy }
    }

    /// The rectangle grown to whole tiles. An empty rectangle collapses onto the corner of the
    /// tile that holds its minimum corner.
    pub open spec fn snapped(self) -> RectView {
        let x0 = snap_down(self.x0, TILE_WIDTH as int);
        let y0 = snap_down(self.y0, TILE_HEIGHT as int);
        if self.is_empty() {
            RectView { x0, y0, x1: x0, y1: y0 }
        } else {
            RectView {
                x0,
                y0,
                x1: snap_up(self.x1, TILE_WIDTH as int),
                y1: snap_up(self.y1, TILE_HEIGHT as int),
            }
        }
    }

    /// Whether the rectangle is made of whole tiles, or is a corner of one.
    pub open spec fn is_snapped(self) -> bool {
        self.snapped() == self
    }

    /// The box of a layer moved by `(dx, dy)`: whole tiles, wherever the move ends.
    pub open spec fn translated(self, dx: int, dy: int) -> RectView {
        self.moved(dx, dy).snapped()
    }

    /// Whether the moved box can be stored, before and after it grows to whole tiles.
    pub open spec fn translation_fits(self, dx: int, dy: int) -> bool {
        self.moved(dx, dy).fits() && self.translated(dx, dy).fits()
    }

    /// The width and height, zero where the corners are the wrong way round.
    pub open spec fn size(self) -> SizeView {
        SizeView { width: max_of(self.x1 - self.x0, 0), height: max_of(self.y1 - self.y0, 0) }
    }

    /// Whether every coordinate can be stored in a [`RectU16`].
    pub open spec fn fits(self) -> bool {
        &&& 0 <= self.x0 <= u16::MAX
        &&& 0 <= self.y0 <= u16::MAX
        &&& 0 <= self.x1 <= u16::MAX
        &&& 0 <= self.y1 <= u16::MAX
    }
}

impl View for RectU16 {
    type V = RectView;

    open spec fn view(&self) -> RectView {
        RectView { x0: self.x0 as int, y0: self.y0 as int, x1: self.x1 as int, y1: self.y1 as int }
    }
}

/// A size with unbounded dimensions.
pub struct SizeView {
    pub width: int,
    pub height: int,
}

impl View for SizeU16 {
    type V = SizeView;

    open spec fn view(&self) -> SizeView {
        SizeView { width: self.width as int, height: self.height as int }
    }
}

/// The greater of two numbers.
pub open spec fn max_of(a: int, b: int) -> int {
    if a >= b {
        a
    } else {
        b
    }
}

/// The least size that holds both sizes, where both are there.
pub open spec fn max_size_of(a: Option<SizeView>, b: Option<SizeView>) -> Option<SizeView> {
    match (a, b) {
        (Some(a), Some(b)) => Some(
            SizeView { width: max_of(a.width, b.width), height: max_of(a.height, b.height) },
        ),
        (Some(a), None) => Some(a),
        (None, b) => b,
    }
}

/// The size that may be there, with unbounded dimensions.
pub open spec fn size_view(size: Option<SizeU16>) -> Option<SizeView> {
    match size {
        Some(size) => Some(size@),
        None => None,
    }
}

/// Whether `(dx, dy)` moves tiles onto tiles.
pub open spec fn is_tile_granular(dx: int, dy: int) -> bool {
    dx % (TILE_WIDTH as int) == 0 && dy % (TILE_HEIGHT as int) == 0
}

/// `Tile::WIDTH` of `vello_common`: the constant is [`TILE_WIDTH`].
#[verifier::external_body]
pub(crate) fn tile_width() -> (width: u16)
    ensures
        width == TILE_WIDTH,
{
    Tile::WIDTH
}

/// `Tile::HEIGHT` of `vello_common`: the constant is [`TILE_HEIGHT`].
#[verifier::external_body]
pub(crate) fn tile_height() -> (height: u16)
    ensures
        height == TILE_HEIGHT,
{
    Tile::HEIGHT
}

/// `RectExt::snap_to_tile_coordinates` of `vello_common`, on its `RectU16`: the minimum corner
/// rounds down and the maximum corner rounds up to the tile grid, and an empty rectangle collapses
/// onto its rounded minimum corner.
///
/// The outside function panics where a rounded coordinate passes `u16::MAX`.
#[verifier::external_body]
fn snap_to_tile_coordinates(rect: RectU16) -> (snapped: RectU16)
    requires
        rect@.snapped().fits(),
    ensures
        snapped@ == rect@.snapped(),
{
    let outside = vello_common::geometry::RectU16::new(rect.x0, rect.y0, rect.x1, rect.y1)
        .snap_to_tile_coordinates();
    RectU16 { x0: outside.x0, y0: outside.y0, x1: outside.x1, y1: outside.y1 }
}

/// Translate a tile-aligned bounding box, re-snapping outward so that the result stays
/// tile-aligned. Outward snapping only enlarges the region that a layer is provisioned for, which
/// is safe: the extra area is transparent.
///
/// Returns `None` where a coordinate of the moved or of the snapped box passes `u16::MAX`.
pub fn translated_bbox(bbox: RectU16, dx: u16, dy: u16) -> (translated: Option<RectU16>)
    ensures
        translated is Some <==> bbox@.translation_fits(dx as int, dy as int),
        translated matches Some(rect) ==> rect@ == bbox@.translated(dx as int, dy as int),
        translated is Some <==> {
            &&& bbox.x0 + dx <= 65535 && bbox.y0 + dy <= 65535
            &&& bbox.x1 + dx <= 65535 && bbox.y1 + dy <= 65535
            &&& bbox.x0 < bbox.x1 && bbox.y0 < bbox.y1 ==> bbox.x1 + dx <= 65532 && bbox.y1 + dy
                <= 65532
        },
        translated matches Some(rect) ==> {
            &&& rect.x0 % 4 == 0 && rect.x0 <= bbox.x0 + dx < rect.x0 + 4
            &&& rect.y0 % 4 == 0 && rect.y0 <= bbox.y0 + dy < rect.y0 + 4
            &&& if bbox.x0 < bbox.x1 && bbox.y0 < bbox.y1 {
                &&& rect.x1 % 4 == 0 && rect.x1 - 4 < bbox.x1 + dx <= rect.x1
                &&& rect.y1 % 4 == 0 && rect.y1 - 4 < bbox.y1 + dy <= rect.y1
            } else {
                rect.x1 == rect.x0 && rect.y1 == rect.y0
            }
        },
{
    let x0: u16 = match bbox.x0.checked_add(dx) {
        Some(x0) => x0,
        None => return None,
    };
    let y0: u16 = match bbox.y0.checked_add(dy) {
        Some(y0) => y0,
        None => return None,
    };
    let x1: u16 = match bbox.x1.checked_add(dx) {
        Some(x1) => x1,
        None => return None,
    };
    let y1: u16 = match bbox.y1.checked_add(dy) {
        Some(y1) => y1,
        None => return None,
    };
    let moved = RectU16 { x0, y0, x1, y1 };
    let is_empty = x0 >= x1 || y0 >= y1;
    let last_column: u16 = u16::MAX - u16::MAX % tile_width();
    let last_row: u16 = u16::MAX - u16::MAX % tile_height();
    if !is_empty && (x1 > last_column || y1 > last_row) {
        return None;
    }
    Some(snap_to_tile_coordinates(moved))
}

/// The least size that holds both sizes, where both are there; else the one that is.
pub fn max_size(a: Option<SizeU16>, b: Option<SizeU16>) -> (size: Option<SizeU16>)
    ensures
        size_view(size) == max_size_of(size_view(a), size_view(b)),
        match (a, b, size) {
            (Some(a), Some(b), Some(size)) => {
                &&& size.width >= a.width && size.width >= b.width
                &&& size.width == a.width || size.width == b.width
                &&& size.height >= a.height && size.height >= b.height
                &&& size.height == a.height || size.height == b.height
            },
            (Some(a), None, Some(size)) => size == a,
            (None, Some(b), Some(size)) => size == b,
            (None, None, None) => true,
            _ => false,
        },
{
    match (a, b) {
        (Some(a), Some(b)) => Some(
            SizeU16 {
                width: if a.width >= b.width { a.width } else { b.width },
                height: if a.height >= b.height { a.height } else { b.height },
            },
        ),
        (Some(a), None) => Some(a),
        (None, b) => b,
    }
}

} // verus!
