//! Strips, and the storage that holds them with their alpha bytes.

use crate::error::AppendSceneError;
use crate::shift::{Shift, ShiftView};
use vello_common::strip_generator::{GenerationMode, StripStorage};
use vstd::prelude::*;

verus! {

/// The first alpha index that a strip cannot store: one bit of its 32 holds the fill-gap flag.
pub const ALPHA_IDX_END: u32 = 0x8000_0000;

/// A strip of coverage: where it lies, and where its alpha bytes start.
#[derive(Debug, Clone, Copy, PartialEq, Eq, Structural)]
pub struct Strip {
    /// The x coordinate in pixels, or `u16::MAX` on a sentinel.
    pub x: u16,
    /// The y coordinate in pixels.
    pub y: u16,
    /// Index of the first alpha byte.
    pub alpha_idx: u32,
    /// Whether the gap to the previous strip of the row is filled.
    pub fill_gap: bool,
}

/// A strip with unbounded numbers.
pub struct StripView {
    pub x: int,
    pub y: int,
    pub alpha_idx: int,
    pub fill_gap: bool,
}

impl StripView {
    /// Whether the strip only ends a list of strips.
    pub open spec fn is_sentinel(self) -> bool {
        self.x == u16::MAX
    }

    /// The strip with its coordinates and its alpha index moved. A sentinel stays one: its `x` is
    /// kept, while its row and its alpha index move with the strips that it ends.
    pub open spec fn shifted(self, shift: ShiftView) -> StripView {
        StripView {
            x: if self.is_sentinel() {
                self.x
            } else {
                self.x + shift.dx
            },
            y: self.y + shift.dy,
            alpha_idx: self.alpha_idx + shift.alpha,
            fill_gap: self.fill_gap,
        }
    }

    /// Whether a stored strip can hold these numbers.
    pub open spec fn fits(self) -> bool {
        &&& 0 <= self.x <= u16::MAX
        &&& 0 <= self.y <= u16::MAX
        &&& 0 <= self.alpha_idx < ALPHA_IDX_END
    }
}

impl View for Strip {
    type V = StripView;

    open spec fn view(&self) -> StripView {
        StripView {
            x: self.x as int,
            y: self.y as int,
            alpha_idx: self.alpha_idx as int,
            fill_gap: self.fill_gap,
        }
    }
}

/// The storage of strips and alpha bytes of `vello_common`.
#[verifier::external_type_specification]
#[verifier::external_body]
pub struct ExStripStorage(StripStorage);

/// The strips that a storage holds, unpacked, in order.
pub uninterp spec fn stored_strips(storage: StripStorage) -> Seq<Strip>;

/// The alpha bytes that a storage holds, in order.
pub uninterp spec fn stored_alphas(storage: StripStorage) -> Seq<u8>;

/// What generating strips into a storage does to those that it holds.
pub enum StorageMode {
    /// It drops them.
    Replace,
    /// It keeps them.
    Append,
    /// It drops those from an index on.
    ReplaceAfter(usize),
}

/// The generation mode of a storage.
pub uninterp spec fn stored_mode(storage: StripStorage) -> StorageMode;

/// The strips of a list with unbounded numbers.
pub open spec fn strip_views(strips: Seq<Strip>) -> Seq<StripView> {
    strips.map_values(|strip: Strip| strip@)
}

/// The strips of a list, each moved.
pub open spec fn shifted_strips(strips: Seq<StripView>, shift: ShiftView) -> Seq<StripView> {
    strips.map_values(|strip: StripView| strip.shifted(shift))
}

/// Whether each strip of a list can be stored.
pub open spec fn strips_fit(strips: Seq<StripView>) -> bool {
    forall|i: int| 0 <= i < strips.len() ==> (#[trigger] strips[i]).fits()
}

/// `StripStorage::new` of `vello_common`, with `GenerationMode::Append`: the storage starts without
/// strips and without alpha bytes, in that mode.
#[verifier::external_body]
pub(crate) fn new_storage() -> (storage: StripStorage)
    ensures
        stored_strips(storage) == Seq::<Strip>::empty(),
        stored_alphas(storage) == Seq::<u8>::empty(),
        stored_mode(storage) == StorageMode::Append,
{
    StripStorage::new(GenerationMode::Append)
}

/// The length of `StripStorage::strips` of `vello_common`.
#[verifier::external_body]
pub(crate) fn strip_count(storage: &StripStorage) -> (count: usize)
    ensures
        count == stored_strips(*storage).len(),
{
    storage.strips.len()
}

/// The length of `StripStorage::alphas` of `vello_common`.
#[verifier::external_body]
pub(crate) fn alpha_count(storage: &StripStorage) -> (count: usize)
    ensures
        count == stored_alphas(*storage).len(),
{
    storage.alphas.len()
}

/// `Strip::alpha_idx` and `Strip::fill_gap` of `vello_common`, beside the public coordinates: what
/// the stored strip unpacks to.
#[verifier::external_body]
pub(crate) fn strip_at(storage: &StripStorage, index: usize) -> (strip: Strip)
    requires
        index < stored_strips(*storage).len(),
    ensures
        strip == stored_strips(*storage)[index as int],
{
    let stored = &storage.strips[index];
    Strip { x: stored.x, y: stored.y, alpha_idx: stored.alpha_idx(), fill_gap: stored.fill_gap() }
}

/// `Strip::new` of `vello_common`, stored over the strip at `index`: the stored strip unpacks to
/// what it was packed from, and nothing else of the storage changes.
///
/// The outside function panics where the alpha index reaches [`ALPHA_IDX_END`].
#[verifier::external_body]
pub(crate) fn set_strip(storage: &mut StripStorage, index: usize, strip: Strip)
    requires
        index < stored_strips(*old(storage)).len(),
        strip.alpha_idx < ALPHA_IDX_END,
    ensures
        stored_strips(*final(storage)) == stored_strips(*old(storage)).update(index as int, strip),
        stored_alphas(*final(storage)) == stored_alphas(*old(storage)),
        stored_mode(*final(storage)) == stored_mode(*old(storage)),
{
    storage.strips[index] =
        vello_common::strip::Strip::new(strip.x, strip.y, strip.alpha_idx, strip.fill_gap);
}

/// `Strip::new` of `vello_common`, stored behind the last strip: the stored strip unpacks to what
/// it was packed from, and nothing else of the storage changes.
///
/// The outside function panics where the alpha index reaches [`ALPHA_IDX_END`].
#[verifier::external_body]
pub(crate) fn push_strip(storage: &mut StripStorage, strip: Strip)
    requires
        strip.alpha_idx < ALPHA_IDX_END,
    ensures
        stored_strips(*final(storage)) == stored_strips(*old(storage)).push(strip),
        stored_alphas(*final(storage)) == stored_alphas(*old(storage)),
        stored_mode(*final(storage)) == stored_mode(*old(storage)),
{
    let packed =
        vello_common::strip::Strip::new(strip.x, strip.y, strip.alpha_idx, strip.fill_gap);
    storage.strips.push(packed);
}

/// `Vec::extend_from_slice` on `StripStorage::alphas` of `vello_common`: the bytes land behind
/// those that are stored, and the strips and the mode do not change.
#[verifier::external_body]
pub(crate) fn push_alphas(storage: &mut StripStorage, alphas: &Vec<u8>)
    ensures
        stored_strips(*final(storage)) == stored_strips(*old(storage)),
        stored_alphas(*final(storage)) == stored_alphas(*old(storage)) + alphas@,
        stored_mode(*final(storage)) == stored_mode(*old(storage)),
{
    storage.alphas.extend_from_slice(alphas);
}

/// `StripStorage::extend` of `vello_common`: the strips and the alpha bytes of `other` land behind
/// those that are stored, and the mode does not change.
#[verifier::external_body]
pub(crate) fn extend_storage(storage: &mut StripStorage, other: &StripStorage)
    ensures
        stored_strips(*final(storage)) == stored_strips(*old(storage)) + stored_strips(*other),
        stored_alphas(*final(storage)) == stored_alphas(*old(storage)) + stored_alphas(*other),
        stored_mode(*final(storage)) == stored_mode(*old(storage)),
{
    storage.extend(other);
}

impl Strip {
    /// Whether the strip only ends a list of strips.
    pub fn is_sentinel(&self) -> (sentinel: bool)
        ensures
            sentinel == self@.is_sentinel(),
            sentinel <==> self.x == 65535,
    {
        self.x == u16::MAX
    }

    /// The strip with its coordinates and its alpha index moved, where it can still be stored.
    pub(crate) fn shift(&self, shift: &Shift) -> (shifted: Result<Strip, AppendSceneError>)
        ensures
            match shifted {
                Ok(strip) => self@.shifted(shift@).fits() && strip@ == self@.shifted(shift@),
                Err(error) => !self@.shifted(shift@).fits() && error == AppendSceneError::Overflow,
            },
    {
        let alpha_idx: u32 = match self.alpha_idx.checked_add(shift.alpha) {
            Some(alpha_idx) => alpha_idx,
            None => return Err(AppendSceneError::Overflow),
        };
        if alpha_idx >= ALPHA_IDX_END {
            return Err(AppendSceneError::Overflow);
        }
        let y: u16 = match self.y.checked_add(shift.dy) {
            Some(y) => y,
            None => return Err(AppendSceneError::Overflow),
        };
        let x: u16 = if self.is_sentinel() {
            self.x
        } else {
            match self.x.checked_add(shift.dx) {
                Some(x) => x,
                None => return Err(AppendSceneError::Overflow),
            }
        };
        Ok(Strip { x, y, alpha_idx, fill_gap: self.fill_gap })
    }
}

/// Moves every stored strip, where each of them can still be stored.
pub(crate) fn shift_strips(storage: &mut StripStorage, shift: &Shift) -> (result: Result<
    (),
    AppendSceneError,
>)
    ensures
        stored_alphas(*final(storage)) == stored_alphas(*old(storage)),
        stored_mode(*final(storage)) == stored_mode(*old(storage)),
        ({
            let shifted = shifted_strips(strip_views(stored_strips(*old(storage))), shift@);
            match result {
                Ok(()) => strips_fit(shifted) && strip_views(stored_strips(*final(storage)))
                    == shifted,
                Err(error) => !strips_fit(shifted) && error == AppendSceneError::Overflow,
            }
        }),
{
    let ghost before = stored_strips(*storage);
    let ghost shifted = shifted_strips(strip_views(before), shift@);
    let count: usize = strip_count(storage);
    let mut i: usize = 0;
    while i < count
        invariant
            i <= count,
            count == before.len(),
            before == stored_strips(*old(storage)),
            shifted == shifted_strips(strip_views(before), shift@),
            stored_strips(*storage).len() == count,
            stored_alphas(*storage) == stored_alphas(*old(storage)),
            stored_mode(*storage) == stored_mode(*old(storage)),
            forall|j: int|
                0 <= j < i ==> (#[trigger] shifted[j]).fits() && stored_strips(*storage)[j]@
                    == shifted[j],
            forall|j: int| i <= j < count ==> #[trigger] stored_strips(*storage)[j] == before[j],
        decreases count - i,
    {
        let strip = strip_at(storage, i);
        assert(shifted[i as int] == strip@.shifted(shift@));
        match strip.shift(shift) {
            Ok(moved) => set_strip(storage, i, moved),
            Err(error) => return Err(error),
        }
        i += 1;
    }
    assert(strip_views(stored_strips(*storage)) =~= shifted);
    Ok(())
}

} // verus!
