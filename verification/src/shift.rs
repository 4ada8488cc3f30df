//! Per-channel subsampling of JPEG-style chroma planes.
use vstd::prelude::*;
use crate::error::Error;

verus! {

/// Whether some channel's mode asks for two samples per pair of columns.
pub open spec fn any_horizontal(modes: [u32; 3]) -> bool {
    modes[0] == 1 || modes[0] == 2 || modes[1] == 1 || modes[1] == 2 || modes[2] == 1 || modes[2]
        == 2
}

/// Whether some channel's mode asks for two samples per pair of rows.
pub open spec fn any_vertical(modes: [u32; 3]) -> bool {
    modes[0] == 1 || modes[0] == 3 || modes[1] == 1 || modes[1] == 3 || modes[2] == 1 || modes[2]
        == 3
}

/// The horizontal and vertical shift of channel `idx`, given the
/// subsampling modes of all three channels.  A shift of 1 means that the
/// channel holds half as many samples on that axis as the full image.
///
/// A channel in mode 1 is stored at full resolution.  A channel in mode 0
/// is halved on every axis on which some other channel is doubled; mode 2
/// keeps the full width and mode 3 the full height.
pub open spec fn spec_jpeg_shift(modes: [u32; 3], idx: int) -> (i32, i32) {
    let h = any_horizontal(modes);
    let v = any_vertical(modes);
    let mode = modes[idx];
    let (hs, vs) = if mode == 0 {
        (h, v)
    } else if mode == 1 {
        (false, false)
    } else if mode == 2 {
        (false, v)
    } else {
        (h, false)
    };
    (if hs { 1i32 } else { 0i32 }, if vs { 1i32 } else { 0i32 })
}

/// Whether every mode is one of the four the format defines.
pub open spec fn modes_valid(modes: [u32; 3]) -> bool {
    modes[0] <= 3 && modes[1] <= 3 && modes[2] <= 3
}

/// Asks `jxl_modular::ChannelShift::from_jpeg_upsampling` for the shift of
/// channel `idx` and reads it back with `hshift` and `vshift`.
///
/// Trusted: the result is the pair `spec_jpeg_shift` describes.  The outside
/// function indexes `modes` with `idx` and panics on a mode above 3, so both
/// are excluded here.
#[verifier::external_body]
fn outside_jpeg_shift(modes: [u32; 3], idx: usize) -> (r: (i32, i32))
    requires
        idx < 3,
        modes[idx as int] <= 3,
    ensures
        r == spec_jpeg_shift(modes, idx as int),
{
    let shift = jxl_modular::ChannelShift::from_jpeg_upsampling(modes, idx);
    (shift.hshift(), shift.vshift())
}

/// The horizontal and vertical shift of channel `idx`.  Fails with
/// `InvalidCoefficient` when `idx` names no channel or the channel's mode is
/// not one of 0 to 3.
pub fn jpeg_shift(modes: [u32; 3], idx: usize) -> (r: Result<(i32, i32), Error>)
    ensures
        r is Ok <==> idx < 3 && modes[idx as int] <= 3,
        r is Ok ==> r.unwrap() == spec_jpeg_shift(modes, idx as int),
        r is Err ==> r == Err::<(i32, i32), Error>(Error::InvalidCoefficient),
{
    if idx < 3 && modes[idx] <= 3 {
        Ok(outside_jpeg_shift(modes, idx))
    } else {
        Err(Error::InvalidCoefficient)
    }
}

/// With all three channels in mode 0 no channel is subsampled.
pub proof fn lemma_no_modes_no_shift(modes: [u32; 3], idx: int)
    requires
        0 <= idx < 3,
        modes[0] == 0 && modes[1] == 0 && modes[2] == 0,
    ensures
        spec_jpeg_shift(modes, idx) == (0i32, 0i32),
{
}

} // verus!
