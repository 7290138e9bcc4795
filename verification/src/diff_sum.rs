//! A coarse distance between two images of equal dimensions: the sum of the
//! absolute channel-byte differences over the whole buffer.

use vstd::prelude::*;

use crate::raster::Image;
use crate::raster::ImageView;

verus! {

/// Absolute difference of two channel bytes.
pub open spec fn abs_diff(a: u8, b: u8) -> int {
    if a >= b {
        a - b
    } else {
        b - a
    }
}

/// Sum of the absolute differences of the first `n` bytes of two buffers.
pub open spec fn diff_sum_upto(a: Seq<u8>, b: Seq<u8>, n: int) -> int
    decreases n,
{
    if n <= 0 {
        0
    } else {
        diff_sum_upto(a, b, n - 1) + abs_diff(a[n - 1], b[n - 1])
    }
}

/// The distance between two images: absolute channel differences, summed.
pub open spec fn spec_diff_sum(a: ImageView, b: ImageView) -> int {
    diff_sum_upto(a.pixels, b.pixels, a.pixels.len() as int)
}

/// Sum of the absolute per-channel differences between two images of equal
/// dimensions. Zero exactly when the images are pixel-identical.
pub fn calculate_diff_sum(img1: &Image, img2: &Image) -> (r: u64)
    requires
        img1@.wf(),
        img2@.wf(),
        img1@.same_dims(img2@),
    ensures
        r == spec_diff_sum(img1@, img2@),
{
    let len = img1.byte_len();
    let mut sum: u64 = 0;
    let mut i: usize = 0;
    while i < len
        invariant
            i <= len,
            len == img1@.pixels.len(),
            len == img2@.pixels.len(),
            len <= u32::MAX,
            sum == diff_sum_upto(img1@.pixels, img2@.pixels, i as int),
            sum <= 255 * i,
        decreases len - i,
    {
        let a = img1.byte_at(i);
        let b = img2.byte_at(i);
        let d: u64 = if a >= b {
            (a - b) as u64
        } else {
            (b - a) as u64
        };
        sum = sum + d;
        i = i + 1;
    }
    sum
}

} // verus!
