//! How far the indices and coordinates of a donor move.

use vstd::prelude::*;

verus! {

/// What is added to the indices and coordinates of a donor scene when its tables move behind those
/// of another scene.
#[derive(Debug, Clone, Copy)]
pub struct Shift {
    /// Added to indices into the strips.
    pub strip: usize,
    /// Added to indices into the alpha bytes.
    pub alpha: u32,
    /// Added to indices into the encoded paints.
    pub paint: usize,
    /// Added to indices into the draws.
    pub draw: u32,
    /// Added to layer ids.
    pub layer: u32,
    /// Added to horizontal pixel coordinates.
    pub dx: u16,
    /// Added to vertical pixel coordinates.
    pub dy: u16,
}

/// A [`Shift`] with unbounded numbers.
pub struct ShiftView {
    pub strip: int,
    pub alpha: int,
    pub paint: int,
    pub draw: int,
    pub layer: int,
    pub dx: int,
    pub dy: int,
}

impl View for Shift {
    type V = ShiftView;

    open spec fn view(&self) -> ShiftView {
        ShiftView {
            strip: self.strip as int,
            alpha: self.alpha as int,
            paint: self.paint as int,
            draw: self.draw as int,
            layer: self.layer as int,
            dx: self.dx as int,
            dy: self.dy as int,
        }
    }
}

} // verus!
