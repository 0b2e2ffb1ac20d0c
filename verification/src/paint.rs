//! Paints of recorded draws.

use crate::error::AppendSceneError;
use vello_common::encode::EncodedPaint;
use vello_common::paint::PremulColor;
use vstd::prelude::*;

verus! {

/// A premultiplied color of `vello_common`, carried as it is.
#[verifier::external_type_specification]
#[verifier::external_body]
pub struct ExPremulColor(PremulColor);

/// An encoded gradient, image or blurred rectangle of `vello_common`, carried as it is.
#[verifier::external_type_specification]
#[verifier::external_body]
pub struct ExEncodedPaint(EncodedPaint);

/// How a draw is painted.
#[derive(Debug)]
pub enum Paint {
    /// With one color.
    Solid(PremulColor),
    /// With the encoded paint at an index of the scene's paint table.
    Indexed(u32),
}

/// A paint with an unbounded index.
pub enum PaintView {
    Solid(PremulColor),
    Indexed(int),
}

impl PaintView {
    /// The paint with its index, if it has one, moved up by `base`.
    pub open spec fn shifted(self, base: int) -> PaintView {
        match self {
            PaintView::Solid(color) => PaintView::Solid(color),
            PaintView::Indexed(index) => PaintView::Indexed(index + base),
        }
    }

    /// Whether the index, if there is one, can be stored.
    pub open spec fn fits(self) -> bool {
        self matches PaintView::Indexed(index) ==> 0 <= index <= u32::MAX
    }
}

impl View for Paint {
    type V = PaintView;

    open spec fn view(&self) -> PaintView {
        match self {
            Paint::Solid(color) => PaintView::Solid(*color),
            Paint::Indexed(index) => PaintView::Indexed(*index as int),
        }
    }
}

/// Re-index a non-solid paint into the merged encoded-paint table, where the index can still be
/// stored.
pub fn remap_paint(paint: &mut Paint, paint_base: usize) -> (result: Result<(), AppendSceneError>)
    ensures
        match result {
            Ok(()) => old(paint)@.shifted(paint_base as int).fits() && final(paint)@ == old(
                paint,
            )@.shifted(paint_base as int),
            Err(error) => !old(paint)@.shifted(paint_base as int).fits() && error
                == AppendSceneError::Overflow && *final(paint) == *old(paint),
        },
        match *old(paint) {
            Paint::Solid(color) => result is Ok && *final(paint) == Paint::Solid(color),
            Paint::Indexed(index) => {
                &&& result is Ok <==> index + paint_base <= 0xffff_ffff
                &&& result is Ok ==> (*final(paint) matches Paint::Indexed(new) && new == index
                    + paint_base)
            },
        },
{
    if let Paint::Indexed(index) = paint {
        let room: u32 = u32::MAX - *index;
        if paint_base > room as usize {
            return Err(AppendSceneError::Overflow);
        }
        *paint = Paint::Indexed(*index + paint_base as u32);
    }
    Ok(())
}

} // verus!
