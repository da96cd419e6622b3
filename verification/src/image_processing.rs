//! Pixel filters on whole numbers: the Sobel edge strength of a 3x3 patch and
//! the median of a neighbourhood.

use vstd::prelude::*;
use crate::shared::Color;

verus! {

/// The horizontal Sobel response of a 3x3 patch (rows first).
pub open spec fn sobel_x(p: [[u8; 3]; 3]) -> int {
    (p[0][2] + 2 * p[1][2] + p[2][2]) - (p[0][0] + 2 * p[1][0] + p[2][0])
}

/// The vertical Sobel response of a 3x3 patch (rows first).
pub open spec fn sobel_y(p: [[u8; 3]; 3]) -> int {
    (p[2][0] + 2 * p[2][1] + p[2][2]) - (p[0][0] + 2 * p[0][1] + p[0][2])
}

/// The edge strength of a patch: the whole part of the length of the Sobel
/// gradient, at most 255. `r` is it exactly when `r` is the integer square
/// root of the squared length, or 255 when that root is larger.
pub open spec fn is_edge_magnitude(p: [[u8; 3]; 3], r: int) -> bool {
    let n = sobel_x(p) * sobel_x(p) + sobel_y(p) * sobel_y(p);
    &&& 0 <= r <= 255
    &&& r * r <= n
    &&& r < 255 ==> n < (r + 1) * (r + 1)
}

/// How many of the values are below `v`.
pub open spec fn count_below(s: Seq<u8>, v: int) -> nat
    decreases s.len(),
{
    if s.len() == 0 {
        0
    } else {
        count_below(s.drop_last(), v) + (if s.last() < v { 1nat } else { 0nat })
    }
}

/// How many of the values equal `v`.
pub open spec fn count_equal(s: Seq<u8>, v: int) -> nat
    decreases s.len(),
{
    if s.len() == 0 {
        0
    } else {
        count_equal(s.drop_last(), v) + (if s.last() == v { 1nat } else { 0nat })
    }
}

/// `m` is the median of `s` as `sorted(s)[len / 2]`: fewer than half of the
/// values (rounded down) lie below it, and counting those equal to it passes
/// that position.
pub open spec fn is_median(s: Seq<u8>, m: int) -> bool {
    count_below(s, m) <= s.len() / 2 < count_below(s, m) + count_equal(s, m)
}

proof fn lemma_count_step(s: Seq<u8>, v: int)
    ensures
        count_below(s, v + 1) == count_below(s, v) + count_equal(s, v),
    decreases s.len(),
{
    if s.len() > 0 {
        lemma_count_step(s.drop_last(), v);
    }
}

proof fn lemma_count_all(s: Seq<u8>)
    ensures
        count_below(s, 256) == s.len(),
        count_below(s, 0) == 0,
    decreases s.len(),
{
    if s.len() > 0 {
        lemma_count_all(s.drop_last());
    }
}

/// The edge detector and noise filter of the image pipeline.
pub struct ImageProcessingService;

impl ImageProcessingService {
    /// The Sobel edge strength of a 3x3 patch; see `is_edge_magnitude`.
    pub fn sobel_edge_magnitude(pixels: &[[u8; 3]; 3]) -> (r: u8)
        ensures
            is_edge_magnitude(*pixels, r as int),
    {
        let p = *pixels;
        let sum_x: i32 = (p[0][2] as i32 + 2 * p[1][2] as i32 + p[2][2] as i32)
            - (p[0][0] as i32 + 2 * p[1][0] as i32 + p[2][0] as i32);
        let sum_y: i32 = (p[2][0] as i32 + 2 * p[2][1] as i32 + p[2][2] as i32)
            - (p[0][0] as i32 + 2 * p[0][1] as i32 + p[0][2] as i32);
        assert(sum_x == sobel_x(p) && sum_y == sobel_y(p));
        assert(-1020 <= sum_x <= 1020 && -1020 <= sum_y <= 1020);
        assert(sum_x * sum_x <= 1020 * 1020) by (nonlinear_arith)
            requires
                -1020 <= sum_x <= 1020,
        ;
        assert(sum_y * sum_y <= 1020 * 1020) by (nonlinear_arith)
            requires
                -1020 <= sum_y <= 1020,
        ;
        assert(0 <= sum_x * sum_x && 0 <= sum_y * sum_y) by (nonlinear_arith);
        let n: i32 = sum_x * sum_x + sum_y * sum_y;
        let mut r: i32 = 0;
        let mut next_sq: i32 = 1;
        while r < 255 && next_sq <= n
            invariant
                0 <= r <= 255,
                r * r <= n,
                0 <= n <= 2080800,
                next_sq == (r + 1) * (r + 1),
            decreases 255 - r,
        {
            assert((r + 2) * (r + 2) == (r + 1) * (r + 1) + 2 * (r + 1) + 1) by (nonlinear_arith);
            r = r + 1;
            next_sq = next_sq + 2 * r + 1;
        }
        r as u8
    }

    /// The median of a neighbourhood: the middle value, `sorted[len / 2]`, of
    /// the values in order; see `is_median`.
    pub fn median_filter(pixels: &[u8]) -> (r: u8)
        requires
            pixels@.len() > 0,
        ensures
            is_median(pixels@, r as int),
    {
        let mut counts: Vec<usize> = Vec::new();
        let mut v: usize = 0;
        while v < 256
            invariant
                v <= 256,
                counts@.len() == v,
                forall|x: int| 0 <= x < v ==> counts@[x] == 0,
            decreases 256 - v,
        {
            counts.push(0);
            v = v + 1;
        }
        let mut i: usize = 0;
        while i < pixels.len()
            invariant
                i <= pixels@.len(),
                counts@.len() == 256,
                forall|x: int| 0 <= x < 256 ==> counts@[x] == count_equal(pixels@.take(i as int), x),
            decreases pixels@.len() - i,
        {
            let p = pixels[i] as usize;
            proof {
                let s = pixels@;
                assert(s.take(i + 1).drop_last() =~= s.take(i as int));
                assert forall|x: int| 0 <= x < 256 implies count_equal(s.take(i as int), x) <= i by {
                    lemma_count_equal_bound(s.take(i as int), x);
                }
            }
            let c = counts[p];
            counts.set(p, c + 1);
            i = i + 1;
        }
        assert(pixels@.take(i as int) =~= pixels@);
        let half = pixels.len() / 2;
        let mut acc: usize = 0;
        let mut m: usize = 0;
        proof {
            lemma_count_all(pixels@);
            lemma_count_step(pixels@, 0);
            lemma_count_below_bound(pixels@, 1);
        }
        while acc + counts[m] <= half
            invariant
                m < 256,
                counts@.len() == 256,
                forall|x: int| 0 <= x < 256 ==> counts@[x] == count_equal(pixels@, x),
                acc == count_below(pixels@, m as int),
                acc + counts@[m as int] == count_below(pixels@, m + 1),
                count_below(pixels@, m + 1) <= pixels@.len(),
                pixels@.len() > 0,
                pixels@.len() <= usize::MAX,
                acc <= half,
                half == pixels@.len() / 2,
                count_below(pixels@, 256) == pixels@.len(),
            decreases 256 - m,
        {
            acc = acc + counts[m];
            m = m + 1;
            proof {
                lemma_count_step(pixels@, m as int);
                lemma_count_below_bound(pixels@, m + 1);
            }
        }
        m as u8
    }
}

proof fn lemma_count_below_bound(s: Seq<u8>, v: int)
    ensures
        count_below(s, v) <= s.len(),
    decreases s.len(),
{
    if s.len() > 0 {
        lemma_count_below_bound(s.drop_last(), v);
    }
}

proof fn lemma_count_equal_bound(s: Seq<u8>, x: int)
    ensures
        count_equal(s, x) <= s.len(),
    decreases s.len(),
{
    if s.len() > 0 {
        lemma_count_equal_bound(s.drop_last(), x);
    }
}

impl ImageProcessingService {
    /// Black-and-white reduction of a pixel whose grey level is `grayscale`:
    /// white at or above the threshold, black below.
    pub fn binarize(grayscale: u8, threshold: u8) -> (c: Color)
        ensures
            grayscale >= threshold ==> c == (Color { r: 255, g: 255, b: 255, a: 255 }),
            grayscale < threshold ==> c == (Color { r: 0, g: 0, b: 0, a: 255 }),
    {
        if grayscale >= threshold {
            Color::white()
        } else {
            Color::black()
        }
    }

    /// The threshold of adaptive binarization: the local average grey level
    /// plus the constant, kept within 0 to 255.
    pub fn adaptive_threshold_level(local_average: u8, constant: i8) -> (r: u8)
        ensures
            r == (if local_average + constant < 0 { 0int } else if local_average + constant > 255 { 255int }
                else { local_average + constant }),
    {
        let t: i16 = local_average as i16 + constant as i16;
        if t < 0 {
            0
        } else if t > 255 {
            255
        } else {
            t as u8
        }
    }
}

} // verus!
