//! A fixed-point structural-similarity metric between two images of equal
//! dimensions.
//!
//! Both images are first reduced to single-channel luma (ITU-R BT.709 integer
//! weighting). Three per-image statistics are then taken over all pixels: the
//! luma total, a spread figure (the integer square root of the variance
//! numerator), and an edge-structure figure (gradient kernels paired
//! positionally with the flattened luma sequence, normalized by the luma
//! total). Each pair of statistics is folded through the symmetric form
//! `2ab / (a^2 + b^2)`, scaled to [`SSIM_SCALE`], and the final score is the
//! product of the three component similarities, again on that scale.
//!
//! All arithmetic is exact integer arithmetic on a fixed scale, so the score
//! is a pure function of the two pixel buffers. Degenerate quotients are
//! pinned explicitly: a component with both statistics zero counts as fully
//! similar, and the edge-structure figure of an all-black image (luma total
//! zero) is zero.

use vstd::arithmetic::div_mod::lemma_div_is_ordered;
use vstd::arithmetic::div_mod::lemma_div_multiples_vanish;
use vstd::arithmetic::div_mod::lemma_div_nonincreasing;
use vstd::arithmetic::div_mod::lemma_div_pos_is_pos;
use vstd::prelude::*;

use crate::raster::Image;
use crate::raster::ImageView;

verus! {

/// Full scale of the similarity score: a score of `SSIM_SCALE` means the
/// images are indistinguishable to the metric; pixel-identical images reach
/// it exactly.
pub const SSIM_SCALE: u64 = 1_000_000;

/// Square of the fixed-point scale used for the edge-structure figure.
pub const STRUCT_SCALE_SQ: u64 = 0x100_0000_0000;

/// Integer luma of one RGB triple, the BT.709 weighting used for grayscale
/// conversion: `(2126 r + 7152 g + 722 b) / 10000`, truncated.
pub open spec fn luma_of(red: u8, green: u8, blue: u8) -> int {
    (2126 * red + 7152 * green + 722 * blue) / 10000
}

/// The flattened luma sequence of an image, one entry per pixel in row-major
/// order.
pub open spec fn lumas(img: ImageView) -> Seq<int> {
    Seq::new(img.pixel_count(), |p: int| luma_of(img.chan(p, 0), img.chan(p, 1), img.chan(p, 2)))
}

/// Sum of the first `n` entries of a sequence.
pub open spec fn sum_upto(s: Seq<int>, n: int) -> int
    decreases n,
{
    if n <= 0 {
        0
    } else {
        sum_upto(s, n - 1) + s[n - 1]
    }
}

/// Sum of the squares of the first `n` entries of a sequence.
pub open spec fn sum_sq_upto(s: Seq<int>, n: int) -> int
    decreases n,
{
    if n <= 0 {
        0
    } else {
        sum_sq_upto(s, n - 1) + s[n - 1] * s[n - 1]
    }
}

/// Horizontal gradient kernel weight at flat position `i`.
pub open spec fn kernel_x(i: int) -> int {
    if i == 0 {
        -1
    } else if i == 1 {
        0
    } else if i == 2 {
        1
    } else if i == 3 {
        -2
    } else if i == 4 {
        0
    } else if i == 5 {
        2
    } else if i == 6 {
        -1
    } else if i == 7 {
        0
    } else {
        1
    }
}

/// Vertical gradient kernel weight at flat position `i`.
pub open spec fn kernel_y(i: int) -> int {
    if i == 0 {
        -1
    } else if i == 1 {
        -2
    } else if i == 2 {
        -1
    } else if i <= 5 {
        0
    } else if i == 6 {
        1
    } else if i == 7 {
        2
    } else {
        1
    }
}

/// Dot product of the horizontal kernel with the first `n` lumas.
pub open spec fn grad_x_upto(l: Seq<int>, n: int) -> int
    decreases n,
{
    if n <= 0 {
        0
    } else {
        grad_x_upto(l, n - 1) + kernel_x(n - 1) * l[n - 1]
    }
}

/// Dot product of the vertical kernel with the first `n` lumas.
pub open spec fn grad_y_upto(l: Seq<int>, n: int) -> int
    decreases n,
{
    if n <= 0 {
        0
    } else {
        grad_y_upto(l, n - 1) + kernel_y(n - 1) * l[n - 1]
    }
}

/// The kernels have nine weights; an image with fewer pixels contributes
/// only the pixels it has.
pub open spec fn grad_len(img: ImageView) -> int {
    if img.pixel_count() < 9 {
        img.pixel_count() as int
    } else {
        9
    }
}

/// Total luma of an image. With equal pixel counts on both sides, comparing
/// totals is the same comparison as comparing mean lumas.
pub open spec fn luma_sum(img: ImageView) -> int {
    sum_upto(lumas(img), img.pixel_count() as int)
}

/// Sum of squared lumas of an image.
pub open spec fn luma_sq_sum(img: ImageView) -> int {
    sum_sq_upto(lumas(img), img.pixel_count() as int)
}

/// Numerator of the luma variance, scaled by the squared pixel count:
/// `n * sum(l^2) - sum(l)^2`. Never negative.
pub open spec fn variance_num(img: ImageView) -> int {
    img.pixel_count() * luma_sq_sum(img) - luma_sum(img) * luma_sum(img)
}

/// Largest `r` with `r * r <= x`.
pub open spec fn spec_isqrt(x: nat) -> nat
    decreases x,
{
    if x == 0 {
        0
    } else {
        let r = spec_isqrt((x - 1) as nat);
        if (r + 1) * (r + 1) <= x {
            (r + 1) as nat
        } else {
            r
        }
    }
}

/// Spread figure of an image: the integer square root of the variance
/// numerator. Comparing these compares standard deviations, since the
/// pixel counts of the two images agree.
pub open spec fn contrast_val(img: ImageView) -> int {
    spec_isqrt(variance_num(img) as nat) as int
}

/// Edge-structure figure of an image: the Euclidean norm of the two kernel
/// dot products, in fixed point, normalized by the luma total. An all-black
/// image (luma total zero) has structure zero.
pub open spec fn structure_val(img: ImageView) -> int {
    let g = grad_x_upto(lumas(img), grad_len(img)) * grad_x_upto(lumas(img), grad_len(img))
        + grad_y_upto(lumas(img), grad_len(img)) * grad_y_upto(lumas(img), grad_len(img));
    if luma_sum(img) == 0 {
        0
    } else {
        spec_isqrt((g * STRUCT_SCALE_SQ) as nat) as int / luma_sum(img)
    }
}

/// The symmetric similarity of two non-negative statistics, on the scale of
/// `SSIM_SCALE`: `2ab / (a^2 + b^2)`, with the degenerate pair (0, 0) pinned
/// to full similarity.
pub open spec fn component_sim(a: int, b: int) -> int {
    if a == 0 && b == 0 {
        SSIM_SCALE as int
    } else {
        2 * a * b * (SSIM_SCALE as int) / (a * a + b * b)
    }
}

/// The structural similarity of two images of equal dimensions: the product
/// of the luma, contrast and structure component similarities, on the scale
/// of `SSIM_SCALE`.
pub open spec fn spec_ssim(a: ImageView, b: ImageView) -> int {
    let cl = component_sim(luma_sum(a), luma_sum(b));
    let cc = component_sim(contrast_val(a), contrast_val(b));
    let cs = component_sim(structure_val(a), structure_val(b));
    cl * cc * cs / ((SSIM_SCALE * SSIM_SCALE) as int)
}

/// A component similarity of a statistic with itself is exactly full scale.
pub proof fn lemma_component_sim_identity(a: int)
    requires
        a >= 0,
    ensures
        component_sim(a, a) == SSIM_SCALE,
{
    if a != 0 {
        assert(a * a + a * a > 0) by (nonlinear_arith)
            requires
                a != 0,
        ;
        assert(2 * a * a * (SSIM_SCALE as int) == (a * a + a * a) * (SSIM_SCALE as int))
            by (nonlinear_arith);
        lemma_div_multiples_vanish(SSIM_SCALE as int, a * a + a * a);
    }
}

/// A component similarity does not depend on the order of its arguments.
pub proof fn lemma_component_sim_sym(a: int, b: int)
    ensures
        component_sim(a, b) == component_sim(b, a),
{
    assert(2 * a * b * (SSIM_SCALE as int) == 2 * b * a * (SSIM_SCALE as int))
        by (nonlinear_arith);
    assert(a * a + b * b == b * b + a * a);
}

/// A component similarity of non-negative statistics lies on the scale:
/// `2ab <= a^2 + b^2` always, so the quotient never exceeds full scale.
pub proof fn lemma_component_sim_bounds(a: int, b: int)
    requires
        a >= 0,
        b >= 0,
    ensures
        0 <= component_sim(a, b) <= SSIM_SCALE,
{
    if !(a == 0 && b == 0) {
        assert(a * a + b * b > 0 && 2 * a * b * (SSIM_SCALE as int) >= 0 && 2 * a * b * (
        SSIM_SCALE as int) <= (a * a + b * b) * (SSIM_SCALE as int)) by (nonlinear_arith)
            requires
                a >= 0 && b >= 0 && (a != 0 || b != 0) && SSIM_SCALE as int == 1_000_000,
        ;
        lemma_div_pos_is_pos(2 * a * b * (SSIM_SCALE as int), a * a + b * b);
        lemma_div_is_ordered(
            2 * a * b * (SSIM_SCALE as int),
            (a * a + b * b) * (SSIM_SCALE as int),
            a * a + b * b,
        );
        lemma_div_multiples_vanish(SSIM_SCALE as int, a * a + b * b);
    }
}

/// Sums of lumas are non-negative and bounded by 255 per pixel.
proof fn lemma_luma_sum_bounds(l: Seq<int>, n: int)
    requires
        0 <= n <= l.len(),
        forall|i: int| 0 <= i < l.len() ==> 0 <= #[trigger] l[i] <= 255,
    ensures
        0 <= sum_upto(l, n) <= 255 * n,
        0 <= sum_sq_upto(l, n) <= 65025 * n,
    decreases n,
{
    if n > 0 {
        lemma_luma_sum_bounds(l, n - 1);
        let x = l[n - 1];
        assert(0 <= x * x <= 65025) by (nonlinear_arith)
            requires
                0 <= x <= 255,
        ;
    }
}

/// Cauchy-Schwarz on a prefix: the square of a sum of `n` entries is at most
/// `n` times the sum of their squares.
proof fn lemma_sum_sq_cauchy(l: Seq<int>, n: int)
    requires
        0 <= n <= l.len(),
    ensures
        sum_upto(l, n) * sum_upto(l, n) <= n * sum_sq_upto(l, n),
    decreases n,
{
    if n > 0 {
        lemma_sum_sq_cauchy(l, n - 1);
        let k = n - 1;
        let s = sum_upto(l, k);
        let q = sum_sq_upto(l, k);
        let x = l[k];
        assert(sum_upto(l, n) == s + x);
        assert(sum_sq_upto(l, n) == q + x * x);
        assert((s + x) * (s + x) <= (k + 1) * (q + x * x)) by (nonlinear_arith)
            requires
                s * s <= k * q,
                k >= 0,
                k == 0 ==> s == 0 && q == 0,
        ;
        assert(sum_upto(l, n) * sum_upto(l, n) <= n * sum_sq_upto(l, n)) by (nonlinear_arith)
            requires
                sum_upto(l, n) == s + x,
                sum_sq_upto(l, n) == q + x * x,
                n == k + 1,
                (s + x) * (s + x) <= (k + 1) * (q + x * x),
        ;
    }
}

/// The variance numerator of an image is never negative.
pub proof fn lemma_variance_num_nonneg(img: ImageView)
    ensures
        variance_num(img) >= 0,
{
    let l = lumas(img);
    let n = img.pixel_count() as int;
    lemma_sum_sq_cauchy(l, n);
    lemma_lumas_in_range(img);
    lemma_luma_sum_bounds(l, n);
    assert(luma_sum(img) * luma_sum(img) <= n * luma_sq_sum(img));
}

/// Every luma value lies in the byte range.
pub proof fn lemma_lumas_in_range(img: ImageView)
    ensures
        forall|i: int| 0 <= i < lumas(img).len() ==> 0 <= #[trigger] lumas(img)[i] <= 255,
{
    assert forall|i: int| 0 <= i < lumas(img).len() implies 0 <= #[trigger] lumas(img)[i]
        <= 255 by {
        let r = img.chan(i, 0);
        let g = img.chan(i, 1);
        let b = img.chan(i, 2);
        assert(0 <= 2126 * r + 7152 * g + 722 * b <= 2550000);
    }
}

/// The luma total of an image is non-negative.
pub proof fn lemma_luma_sum_nonneg(img: ImageView)
    ensures
        0 <= luma_sum(img) <= 255 * img.pixel_count(),
{
    lemma_lumas_in_range(img);
    lemma_luma_sum_bounds(lumas(img), img.pixel_count() as int);
}

/// The edge-structure figure of an image is non-negative.
pub proof fn lemma_structure_val_nonneg(img: ImageView)
    ensures
        structure_val(img) >= 0,
{
    if luma_sum(img) != 0 {
        let g = grad_x_upto(lumas(img), grad_len(img)) * grad_x_upto(lumas(img), grad_len(img))
            + grad_y_upto(lumas(img), grad_len(img)) * grad_y_upto(lumas(img), grad_len(img));
        lemma_luma_sum_nonneg(img);
        lemma_div_pos_is_pos(spec_isqrt((g * STRUCT_SCALE_SQ) as nat) as int, luma_sum(img));
    }
}

/// An image compared with itself scores exactly full scale: all three
/// component similarities are full, and so is their product.
pub proof fn lemma_ssim_identity(v: ImageView)
    ensures
        spec_ssim(v, v) == SSIM_SCALE,
{
    lemma_luma_sum_nonneg(v);
    lemma_component_sim_identity(luma_sum(v));
    lemma_component_sim_identity(contrast_val(v));
    lemma_structure_val_nonneg(v);
    lemma_component_sim_identity(structure_val(v));
    lemma_div_multiples_vanish(1_000_000int, 1_000_000_000_000int);
    assert(1_000_000int * 1_000_000 * 1_000_000 == 1_000_000_000_000int * 1_000_000);
}

/// The similarity score does not depend on the order of the two images.
pub proof fn lemma_ssim_symmetric(a: ImageView, b: ImageView)
    ensures
        spec_ssim(a, b) == spec_ssim(b, a),
{
    lemma_component_sim_sym(luma_sum(a), luma_sum(b));
    lemma_component_sim_sym(contrast_val(a), contrast_val(b));
    lemma_component_sim_sym(structure_val(a), structure_val(b));
}

/// The integer square root is bracketed by the two neighbouring squares.
pub proof fn lemma_isqrt_bounds(x: nat)
    ensures
        spec_isqrt(x) * spec_isqrt(x) <= x,
        x < (spec_isqrt(x) + 1) * (spec_isqrt(x) + 1),
    decreases x,
{
    if x > 0 {
        lemma_isqrt_bounds((x - 1) as nat);
        let r = spec_isqrt((x - 1) as nat);
        assert(r * r <= x - 1 && x - 1 < (r + 1) * (r + 1));
        if (r + 1) * (r + 1) <= x {
            let s = spec_isqrt(x);
            assert(s == r + 1);
            assert(x <= (r + 1) * (r + 1));
            assert((s + 1) * (s + 1) > x) by (nonlinear_arith)
                requires
                    s == r + 1,
                    x == (r + 1) * (r + 1),
                    r >= 0,
            ;
            assert(s * s <= x) by (nonlinear_arith)
                requires
                    s == r + 1,
                    (r + 1) * (r + 1) <= x,
            ;
        } else {
            let s = spec_isqrt(x);
            assert(s == r);
            assert(s * s <= x);
            assert(x < (s + 1) * (s + 1));
        }
    } else {
        assert(spec_isqrt(x) == 0);
        assert((spec_isqrt(x) + 1) * (spec_isqrt(x) + 1) == 1) by (nonlinear_arith)
            requires
                spec_isqrt(x) == 0,
        ;
    }
}

/// Any value bracketed by neighbouring squares is the integer square root.
pub proof fn lemma_isqrt_unique(x: nat, r: nat)
    requires
        r * r <= x,
        x < (r + 1) * (r + 1),
    ensures
        r == spec_isqrt(x),
{
    lemma_isqrt_bounds(x);
    let s = spec_isqrt(x);
    if r < s {
        assert((r + 1) * (r + 1) <= s * s) by (nonlinear_arith)
            requires
                0 <= r + 1 <= s,
        ;
    }
    if s < r {
        assert((s + 1) * (s + 1) <= r * r) by (nonlinear_arith)
            requires
                0 <= s + 1 <= r,
        ;
    }
}

/// Largest `r` with `r * r <= x`, by binary search.
pub fn isqrt_u128(x: u128) -> (r: u64)
    requires
        x < 0x4000_0000_0000_0000_0000_0000_0000_0000u128,
    ensures
        r as nat == spec_isqrt(x as nat),
        (r as int) * (r as int) <= x,
        x < ((r as int) + 1) * ((r as int) + 1),
{
    let mut lo: u64 = 0;
    let mut hi: u64 = 0x8000_0000_0000_0000;
    proof {
        assert(0x8000_0000_0000_0000int * 0x8000_0000_0000_0000int
            == 0x4000_0000_0000_0000_0000_0000_0000_0000int);
    }
    while lo + 1 < hi
        invariant
            lo < hi,
            hi <= 0x8000_0000_0000_0000,
            (lo as int) * (lo as int) <= x,
            (x as int) < (hi as int) * (hi as int),
        decreases hi - lo,
    {
        let mid: u64 = lo + (hi - lo) / 2;
        proof {
            assert((mid as int) * (mid as int) < 0x4000_0000_0000_0000_0000_0000_0000_0000int)
                by (nonlinear_arith)
                requires
                    mid < 0x8000_0000_0000_0000u64,
            ;
        }
        let m2: u128 = (mid as u128) * (mid as u128);
        if m2 <= x {
            lo = mid;
        } else {
            hi = mid;
        }
    }
    proof {
        lemma_isqrt_unique(x as nat, lo as nat);
    }
    lo
}

/// The byte sequence read as a sequence of mathematical integers.
pub open spec fn as_ints(s: Seq<u8>) -> Seq<int> {
    Seq::new(s.len(), |i: int| s[i] as int)
}

/// Single-channel reduction of an image: the luma byte of every pixel, in
/// row-major order.
pub fn convert_to_grayscale(img: &Image) -> (g: Vec<u8>)
    requires
        img@.wf(),
    ensures
        g@.len() == img@.pixel_count(),
        as_ints(g@) == lumas(img@),
{
    let len = img.byte_len();
    let count: usize = len / 3;
    proof {
        lemma_div_multiples_vanish(img@.pixel_count() as int, 3);
    }
    let mut g: Vec<u8> = Vec::new();
    let mut p: usize = 0;
    while p < count
        invariant
            img@.wf(),
            p <= count,
            count == img@.pixel_count(),
            g@.len() == p,
            forall|q: int| 0 <= q < p ==> g@[q] == lumas(img@)[q],
        decreases count - p,
    {
        let red = img.byte_at(3 * p);
        let green = img.byte_at(3 * p + 1);
        let blue = img.byte_at(3 * p + 2);
        let l: u32 = (2126 * (red as u32) + 7152 * (green as u32) + 722 * (blue as u32)) / 10000;
        g.push(l as u8);
        p = p + 1;
    }
    proof {
        assert(as_ints(g@) =~= lumas(img@));
    }
    g
}

/// Sum and sum of squares of a luma buffer.
fn luma_totals(g: &Vec<u8>) -> (t: (u64, u64))
    requires
        g@.len() <= u32::MAX,
    ensures
        t.0 == sum_upto(as_ints(g@), g@.len() as int),
        t.1 == sum_sq_upto(as_ints(g@), g@.len() as int),
        t.0 <= 255 * g@.len(),
        t.1 <= 65025 * g@.len(),
{
    let mut s: u64 = 0;
    let mut q: u64 = 0;
    let mut i: usize = 0;
    while i < g.len()
        invariant
            i <= g@.len(),
            g@.len() <= u32::MAX,
            s == sum_upto(as_ints(g@), i as int),
            q == sum_sq_upto(as_ints(g@), i as int),
            s <= 255 * i,
            q <= 65025 * i,
        decreases g@.len() - i,
    {
        let x: u64 = g[i] as u64;
        proof {
            assert((x as int) * (x as int) <= 65025) by (nonlinear_arith)
                requires
                    0 <= x <= 255,
            ;
        }
        s = s + x;
        q = q + x * x;
        i = i + 1;
    }
    (s, q)
}

fn kernel_x_at(i: usize) -> (k: i64)
    requires
        i < 9,
    ensures
        k as int == kernel_x(i as int),
{
    if i == 0 {
        -1
    } else if i == 1 {
        0
    } else if i == 2 {
        1
    } else if i == 3 {
        -2
    } else if i == 4 {
        0
    } else if i == 5 {
        2
    } else if i == 6 {
        -1
    } else if i == 7 {
        0
    } else {
        1
    }
}

fn kernel_y_at(i: usize) -> (k: i64)
    requires
        i < 9,
    ensures
        k as int == kernel_y(i as int),
{
    if i == 0 {
        -1
    } else if i == 1 {
        -2
    } else if i == 2 {
        -1
    } else if i <= 5 {
        0
    } else if i == 6 {
        1
    } else if i == 7 {
        2
    } else {
        1
    }
}

/// The two kernel dot products over the head of a luma buffer.
fn gradients(g: &Vec<u8>) -> (r: (i64, i64))
    ensures
        ({
            let m = if g@.len() < 9 {
                g@.len() as int
            } else {
                9
            };
            &&& r.0 == grad_x_upto(as_ints(g@), m)
            &&& r.1 == grad_y_upto(as_ints(g@), m)
            &&& -4590 <= r.0 <= 4590
            &&& -4590 <= r.1 <= 4590
        }),
{
    let m: usize = if g.len() < 9 {
        g.len()
    } else {
        9
    };
    let mut gx: i64 = 0;
    let mut gy: i64 = 0;
    let mut i: usize = 0;
    while i < m
        invariant
            i <= m,
            m <= 9,
            m <= g@.len(),
            gx == grad_x_upto(as_ints(g@), i as int),
            gy == grad_y_upto(as_ints(g@), i as int),
            -510 * i <= gx <= 510 * i,
            -510 * i <= gy <= 510 * i,
        decreases m - i,
    {
        let kx = kernel_x_at(i);
        let ky = kernel_y_at(i);
        let l: i64 = g[i] as i64;
        proof {
            assert(-510 <= (kx as int) * (l as int) <= 510 && -510 <= (ky as int) * (l as int)
                <= 510) by (nonlinear_arith)
                requires
                    -2 <= kx <= 2,
                    -2 <= ky <= 2,
                    0 <= l <= 255,
            ;
        }
        gx = gx + kx * l;
        gy = gy + ky * l;
        i = i + 1;
    }
    (gx, gy)
}

/// The three statistics of one image: luma total, spread figure, and
/// edge-structure figure.
fn image_stats(img: &Image) -> (st: (u64, u64, u64))
    requires
        img@.wf(),
    ensures
        st.0 == luma_sum(img@),
        st.1 == contrast_val(img@),
        st.2 == structure_val(img@),
        st.0 < 0x100_0000_0000,
        st.1 < 0x100_0000_0000,
        st.2 < 0x100_0000_0000,
{
    let g = convert_to_grayscale(img);
    let (s, q) = luma_totals(&g);
    proof {
        assert(s == luma_sum(img@));
        assert(3 * img@.pixel_count() <= u32::MAX);
        assert(s <= 255 * 1431655765);
    }
    let n64: u64 = g.len() as u64;
    proof {
        lemma_lumas_in_range(img@);
        lemma_luma_sum_bounds(lumas(img@), img@.pixel_count() as int);
        lemma_variance_num_nonneg(img@);
        assert((n64 as int) * (q as int) <= 0x10000_0000int * (65025 * 0x10000_0000int))
            by (nonlinear_arith)
            requires
                0 <= n64 <= 0x1_0000_0000u64,
                0 <= q <= 65025 * (n64 as int),
        ;
    }
    let nq: u128 = (n64 as u128) * (q as u128);
    let ss: u128 = (s as u128) * (s as u128);
    proof {
        assert(nq == img@.pixel_count() * luma_sq_sum(img@)) by (nonlinear_arith)
            requires
                nq == (n64 as int) * (q as int),
                n64 as int == img@.pixel_count() as int,
                q as int == luma_sq_sum(img@),
        ;
        assert(ss == luma_sum(img@) * luma_sum(img@)) by (nonlinear_arith)
            requires
                ss == (s as int) * (s as int),
                s as int == luma_sum(img@),
        ;
    }
    let v: u128 = nq - ss;
    let c: u64 = isqrt_u128(v);
    proof {
        assert(v as nat == variance_num(img@) as nat);
        assert(c as int * (c as int) <= v);
        assert(c < 0x100_0000_0000) by (nonlinear_arith)
            requires
                (c as int) * (c as int) <= (v as int),
                v < 0x1_0000_0000_0000_0000_0000u128,
                c >= 0,
        ;
    }
    let (gx, gy) = gradients(&g);
    proof {
        assert((gx as int) * (gx as int) + (gy as int) * (gy as int) <= 42136200)
            by (nonlinear_arith)
            requires
                -4590 <= gx <= 4590,
                -4590 <= gy <= 4590,
        ;
        assert((gx as int) * (gx as int) >= 0 && (gy as int) * (gy as int) >= 0)
            by (nonlinear_arith);
    }
    let gg: i64 = gx * gx + gy * gy;
    let xx: u128 = (gg as u128) * (STRUCT_SCALE_SQ as u128);
    let t: u64 = isqrt_u128(xx);
    let structure: u64 = if s == 0 {
        0
    } else {
        t / s
    };
    proof {
        assert(t < 0x100_0000_0000) by (nonlinear_arith)
            requires
                (t as int) * (t as int) <= (xx as int),
                xx <= 42136200 * 0x100_0000_0000u128,
                t >= 0,
        ;
        if s != 0 {
            lemma_div_nonincreasing(t as int, s as int);
        }
        assert(structure == structure_val(img@));
    }
    (s, c, structure)
}

/// The symmetric similarity of one pair of statistics, in executable form.
fn component_sim_exec(a: u64, b: u64) -> (c: u64)
    requires
        a < 0x100_0000_0000,
        b < 0x100_0000_0000,
    ensures
        c == component_sim(a as int, b as int),
        c <= SSIM_SCALE,
{
    proof {
        lemma_component_sim_bounds(a as int, b as int);
    }
    if a == 0 && b == 0 {
        SSIM_SCALE
    } else {
        proof {
            assert((a as int) * (b as int) < 0x1_0000_0000_0000_0000_0000int && (a as int) * (
            a as int) < 0x1_0000_0000_0000_0000_0000int && (b as int) * (b as int)
                < 0x1_0000_0000_0000_0000_0000int && (a as int) * (a as int) + (b as int) * (
            b as int) > 0) by (nonlinear_arith)
                requires
                    0 <= a < 0x100_0000_0000,
                    0 <= b < 0x100_0000_0000,
                    a != 0 || b != 0,
            ;
        }
        let p: u128 = (a as u128) * (b as u128);
        let num: u128 = 2 * p * (SSIM_SCALE as u128);
        let aa: u128 = (a as u128) * (a as u128);
        let bb: u128 = (b as u128) * (b as u128);
        let den: u128 = aa + bb;
        let c128: u128 = num / den;
        proof {
            assert(2 * ((a as int) * (b as int)) * (SSIM_SCALE as int) == 2 * (a as int) * (
            b as int) * (SSIM_SCALE as int)) by (nonlinear_arith);
            assert(c128 == component_sim(a as int, b as int));
        }
        c128 as u64
    }
}

/// The structural similarity of two images of equal, non-zero dimensions, on
/// the scale of `SSIM_SCALE`. Pixel-identical images score exactly
/// `SSIM_SCALE`; the score never exceeds it.
pub fn calculate_ssim(image1: &Image, image2: &Image) -> (r: u64)
    requires
        image1@.wf(),
        image2@.wf(),
        image1@.same_dims(image2@),
        image1@.width > 0,
        image1@.height > 0,
    ensures
        r == spec_ssim(image1@, image2@),
        r <= SSIM_SCALE,
{
    let (s1, c1, t1) = image_stats(image1);
    let (s2, c2, t2) = image_stats(image2);
    let cl = component_sim_exec(s1, s2);
    let cc = component_sim_exec(c1, c2);
    let cs = component_sim_exec(t1, t2);
    proof {
        assert((cl as int) * (cc as int) <= 1_000_000_000_000int && (cl as int) * (cc as int) >= 0)
            by (nonlinear_arith)
            requires
                0 <= cl <= 1_000_000,
                0 <= cc <= 1_000_000,
        ;
        assert((cl as int) * (cc as int) * (cs as int) <= 1_000_000_000_000_000_000int && (
        cl as int) * (cc as int) * (cs as int) >= 0) by (nonlinear_arith)
            requires
                0 <= (cl as int) * (cc as int) <= 1_000_000_000_000int,
                0 <= cs <= 1_000_000,
        ;
    }
    let prod: u64 = cl * cc * cs;
    let r: u64 = prod / (SSIM_SCALE * SSIM_SCALE);
    proof {
        lemma_div_is_ordered(prod as int, 1_000_000_000_000_000_000int, 1_000_000_000_000int);
        lemma_div_multiples_vanish(1_000_000int, 1_000_000_000_000int);
        assert(1_000_000_000_000int * 1_000_000 == 1_000_000_000_000_000_000int);
    }
    r
}

} // verus!
