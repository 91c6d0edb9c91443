//! Otsu's method: the gray level that best parts dark from light pixels,
//! found by exact integer arithmetic.

use crate::ocr_handler::{binarize, binarized, histogram, histogram_of};
use vstd::prelude::*;

verus! {

/// How often the gray level `i` occurs; zero where the histogram does not
/// reach.
pub open spec fn count(h: Seq<u32>, i: int) -> nat {
    if 0 <= i < h.len() {
        h[i] as nat
    } else {
        0
    }
}

/// How many pixels are of a gray level below `n`.
pub open spec fn pixels_below(h: Seq<u32>, n: int) -> nat
    decreases n,
{
    if n <= 0 {
        0
    } else {
        pixels_below(h, n - 1) + count(h, n - 1)
    }
}

/// The sum of the gray levels of the pixels that are of a level below `n`.
pub open spec fn levels_below(h: Seq<u32>, n: int) -> nat
    decreases n,
{
    if n <= 0 {
        0
    } else {
        levels_below(h, n - 1) + ((n - 1) * count(h, n - 1)) as nat
    }
}

/// How many pixels are of a gray level up to `upto`.
pub open spec fn weight(h: Seq<u32>, upto: int) -> nat {
    pixels_below(h, upto + 1)
}

/// The sum of the gray levels of the pixels that are of a level up to
/// `upto`.
pub open spec fn moment(h: Seq<u32>, upto: int) -> nat {
    levels_below(h, upto + 1)
}

/// How many pixels there are.
pub open spec fn total(h: Seq<u32>) -> nat {
    weight(h, 255)
}

/// Whether the gray level `t` parts the pixels into two classes that both
/// have pixels: those up to `t`, and those above.
pub open spec fn is_candidate(h: Seq<u32>, t: int) -> bool {
    0 <= t < 256 && 0 < weight(h, t) < total(h)
}

/// The product of the sizes of the two classes that `t` parts.
pub open spec fn split(h: Seq<u32>, t: int) -> int {
    weight(h, t) * (total(h) - weight(h, t))
}

/// The difference of the means of the two classes that `t` parts, times
/// `split(h, t)`.
pub open spec fn spread(h: Seq<u32>, t: int) -> int {
    moment(h, t) * total(h) - moment(h, 255) * weight(h, t)
}

/// Whether the classes that `a` parts lie further apart than those that `b`
/// parts: whether the variance between the classes, which is
/// `spread² / split`, is greater for `a`.
pub open spec fn parts_better(h: Seq<u32>, a: int, b: int) -> bool {
    spread(h, a) * spread(h, a) * split(h, b) > spread(h, b) * spread(h, b) * split(h, a)
}

/// Whether `t` is the threshold of Otsu's method: the lowest gray level
/// among those for which the variance between the two classes is greatest;
/// zero where no gray level parts two classes of different means.
pub open spec fn is_otsu(h: Seq<u32>, t: int) -> bool {
    if exists|c: int| is_candidate(h, c) && spread(h, c) != 0 {
        &&& is_candidate(h, t)
        &&& spread(h, t) != 0
        &&& forall|c: int| is_candidate(h, c) ==> !parts_better(h, c, t)
        &&& forall|c: int| is_candidate(h, c) && c < t ==> parts_better(h, t, c)
    } else {
        t == 0
    }
}

/// Two to the power of 64.
pub open spec fn two_64() -> int {
    0x1_0000_0000_0000_0000
}

/// A number of up to 256 bits, in two halves.
#[derive(Debug, Clone, Copy, PartialEq, Eq, Structural)]
pub struct Wide {
    pub hi: u128,
    pub lo: u128,
}

impl Wide {
    /// The number.
    pub open spec fn value(self) -> int {
        self.hi * (two_64() * two_64()) + self.lo
    }
}

/// The square of `2^64` is one more than the greatest 128-bit number.
proof fn lemma_two_128()
    ensures
        two_64() * two_64() == u128::MAX + 1,
{
    assert(0x1_0000_0000_0000_0000int * 0x1_0000_0000_0000_0000int == u128::MAX + 1)
        by (nonlinear_arith);
}

/// The product of two numbers of 64 bits fits in 128 bits.
proof fn lemma_product_fits(a: int, b: int)
    requires
        0 <= a < two_64(),
        0 <= b < two_64(),
    ensures
        0 <= a * b <= (two_64() - 1) * (two_64() - 1),
        (two_64() - 1) * (two_64() - 1) == u128::MAX - 2 * two_64() + 2,
{
    assert(0 <= a * b <= (two_64() - 1) * (two_64() - 1)) by (nonlinear_arith)
        requires
            0 <= a <= two_64() - 1,
            0 <= b <= two_64() - 1,
    ;
    assert((0x1_0000_0000_0000_0000int - 1) * (0x1_0000_0000_0000_0000int - 1) == u128::MAX - 2
        * 0x1_0000_0000_0000_0000int + 2) by (nonlinear_arith);
}

/// The product of two halves of 64 bits.
fn half_product(a: u128, b: u128) -> (p: u128)
    requires
        a < two_64(),
        b < two_64(),
    ensures
        p == a * b,
        p <= u128::MAX - 2 * two_64() + 2,
{
    proof {
        lemma_product_fits(a as int, b as int);
    }
    a * b
}

/// The exact product of two 128-bit numbers.
pub fn wide_product(a: u128, b: u128) -> (w: Wide)
    ensures
        w.value() == a * b,
{
    let base: u128 = 0x1_0000_0000_0000_0000;
    let a1 = a / base;
    let a0 = a % base;
    let b1 = b / base;
    let b0 = b % base;
    let p00 = half_product(a0, b0);
    let p01 = half_product(a0, b1);
    let p10 = half_product(a1, b0);
    let p11 = half_product(a1, b1);
    let t: u128 = p00 / base + p01 % base + p10 % base;
    let lo: u128 = p00 % base + (t % base) * base;
    let hi: u128 = p11 + p01 / base + p10 / base + t / base;
    proof {
        lemma_two_128();
        let bb = two_64();
        assert(a * b == p11 * (bb * bb) + (p01 + p10) * bb + p00) by (nonlinear_arith)
            requires
                a == a1 * bb + a0,
                b == b1 * bb + b0,
                p00 == a0 * b0,
                p01 == a0 * b1,
                p10 == a1 * b0,
                p11 == a1 * b1,
        ;
        assert(hi * (bb * bb) + lo == p11 * (bb * bb) + (p01 + p10) * bb + p00) by (nonlinear_arith)
            requires
                bb == 0x1_0000_0000_0000_0000int,
                t == p00 / 0x1_0000_0000_0000_0000u128 + p01 % 0x1_0000_0000_0000_0000u128 + p10
                    % 0x1_0000_0000_0000_0000u128,
                lo == p00 % 0x1_0000_0000_0000_0000u128 + (t % 0x1_0000_0000_0000_0000u128) * bb,
                hi == p11 + p01 / 0x1_0000_0000_0000_0000u128 + p10 / 0x1_0000_0000_0000_0000u128
                    + t / 0x1_0000_0000_0000_0000u128,
        ;
    }
    Wide { hi, lo }
}

/// Whether one wide number is greater than another.
pub fn wide_greater(a: Wide, b: Wide) -> (r: bool)
    ensures
        r == (a.value() > b.value()),
{
    proof {
        lemma_two_128();
        assert(a.hi > b.hi ==> a.hi * (two_64() * two_64()) >= (b.hi + 1) * (two_64() * two_64()))
            by (nonlinear_arith);
        assert(b.hi > a.hi ==> b.hi * (two_64() * two_64()) >= (a.hi + 1) * (two_64() * two_64()))
            by (nonlinear_arith);
        assert((a.hi + 1) * (two_64() * two_64()) == a.hi * (two_64() * two_64()) + two_64()
            * two_64()) by (nonlinear_arith);
        assert((b.hi + 1) * (two_64() * two_64()) == b.hi * (two_64() * two_64()) + two_64()
            * two_64()) by (nonlinear_arith);
    }
    a.hi > b.hi || (a.hi == b.hi && a.lo > b.lo)
}

/// A bound of 40 bits, for numbers of pixels.
pub open spec fn two_40() -> int {
    0x100_0000_0000
}

/// The square of a number of up to 88 bits, times a number of up to 80
/// bits.
fn weighted_square(n: u128, d: u128) -> (w: Wide)
    requires
        n < two_40() * two_40() * 256,
        d < two_40() * two_40(),
    ensures
        w.value() == n * n * d,
{
    let sq = wide_product(n, n);
    let low = wide_product(sq.lo, d);
    proof {
        lemma_two_128();
        let c = two_64() * two_64();
        let lim_n = two_40() * two_40() * 256;
        let lim_d = two_40() * two_40();
        assert(lim_n == 0x100_0000_0000int * 0x100_0000_0000int * 256);
        assert(n * n < lim_n * lim_n) by (nonlinear_arith)
            requires
                0 <= n < lim_n,
        ;
        assert(0x100_0000_0000int * 0x100_0000_0000int * 256 * (0x100_0000_0000int
            * 0x100_0000_0000int * 256) == 0x1_0000_0000_0000int * (u128::MAX + 1))
            by (nonlinear_arith);
        assert(sq.hi < 0x1_0000_0000_0000int) by (nonlinear_arith)
            requires
                sq.hi * c + sq.lo < 0x1_0000_0000_0000int * c,
                sq.lo >= 0,
                c > 0,
        ;
        assert(sq.lo * d < c * lim_d) by (nonlinear_arith)
            requires
                0 <= sq.lo < c,
                0 <= d < lim_d,
        ;
        assert(lim_d == 0x1_0000_0000_0000_0000_0000int) by (nonlinear_arith)
            requires
                lim_d == 0x100_0000_0000int * 0x100_0000_0000int,
        ;
        assert(low.hi < lim_d) by (nonlinear_arith)
            requires
                low.hi * c + low.lo < c * lim_d,
                low.lo >= 0,
                c > 0,
        ;
        assert(sq.hi * d <= (0x1_0000_0000_0000int - 1) * (lim_d - 1)) by (nonlinear_arith)
            requires
                0 <= sq.hi <= 0x1_0000_0000_0000int - 1,
                0 <= d <= lim_d - 1,
        ;
        assert((0x1_0000_0000_0000int - 1) * (0x1_0000_0000_0000_0000_0000int - 1) + (
        0x1_0000_0000_0000_0000_0000int - 1) <= u128::MAX) by (nonlinear_arith);
        assert((sq.hi * d + low.hi) * c + low.lo == (sq.hi * c + sq.lo) * d) by (nonlinear_arith)
            requires
                low.hi * c + low.lo == sq.lo * d,
        ;
        assert((n * n) * d == n * n * d);
    }
    Wide { hi: sq.hi * d + low.hi, lo: low.lo }
}

/// Below a gray level lie at most as many pixels as the counts can hold,
/// and the sum of their levels is at most 255 for each.
pub proof fn lemma_below_bounds(h: Seq<u32>, n: int)
    requires
        0 <= n <= 256,
    ensures
        pixels_below(h, n) <= n * u32::MAX,
        levels_below(h, n) <= 255 * pixels_below(h, n),
    decreases n,
{
    if n > 0 {
        lemma_below_bounds(h, n - 1);
        assert((n - 1) * count(h, n - 1) <= 255 * count(h, n - 1)) by (nonlinear_arith)
            requires
                0 <= n - 1 <= 255,
                count(h, n - 1) >= 0,
        ;
    }
}

/// Below a higher gray level lie no fewer pixels.
pub proof fn lemma_below_grows(h: Seq<u32>, n: int, m: int)
    requires
        n <= m,
    ensures
        pixels_below(h, n) <= pixels_below(h, m),
    decreases m - n,
{
    if n < m {
        lemma_below_grows(h, n, m - 1);
    }
}

/// Where the variance between the classes of `c` is no greater than that of
/// `b`, and that of `i` is greater than that of `b`, it is greater than
/// that of `c`.
proof fn lemma_better_than_all(x: int, p: int, y: int, q: int, z: int, r: int)
    requires
        p > 0,
        q > 0,
        r > 0,
        x * q <= y * p,
        z * q > y * r,
    ensures
        z * p > x * r,
{
    assert(x * q * r <= y * p * r) by (nonlinear_arith)
        requires
            x * q <= y * p,
            r > 0,
    ;
    assert(z * q * p > y * r * p) by (nonlinear_arith)
        requires
            z * q > y * r,
            p > 0,
    ;
    assert(y * p * r == y * r * p) by (nonlinear_arith);
    assert(x * q * r == (x * r) * q) by (nonlinear_arith);
    assert(z * q * p == (z * p) * q) by (nonlinear_arith);
    assert(z * p > x * r) by (nonlinear_arith)
        requires
            (z * p) * q > (x * r) * q,
            q > 0,
    ;
}

/// The count of a gray level, zero where the histogram does not reach.
fn count_at(histogram: &Vec<u32>, i: usize) -> (c: u64)
    ensures
        c == count(histogram@, i as int),
        c <= u32::MAX,
{
    if i < histogram.len() {
        histogram[i] as u64
    } else {
        0
    }
}

/// The number of all pixels and the sum of their gray levels.
fn sums(histogram: &Vec<u32>) -> (r: (u64, u64))
    ensures
        r.0 == total(histogram@),
        r.1 == moment(histogram@, 255),
{
    let mut pixels: u64 = 0;
    let mut levels: u64 = 0;
    let mut i: usize = 0;
    while i < 256
        invariant
            i <= 256,
            pixels == pixels_below(histogram@, i as int),
            levels == levels_below(histogram@, i as int),
        decreases 256 - i,
    {
        proof {
            lemma_below_bounds(histogram@, i as int);
            lemma_below_bounds(histogram@, i + 1);
        }
        let c = count_at(histogram, i);
        assert(i * c <= 255 * u32::MAX) by (nonlinear_arith)
            requires
                0 <= i <= 255,
                0 <= c <= u32::MAX,
        ;
        pixels = pixels + c;
        levels = levels + (i as u64) * c;
        i += 1;
    }
    (pixels, levels)
}

/// What is known of one gray level: the size of the class up to it, and
/// the magnitude of the spread and the split of the two classes that it
/// parts, where it parts two.
struct Level {
    parts: bool,
    spread: u128,
    split: u128,
}

/// Measures the gray level `t`, given the number and the sum of levels of
/// the pixels up to it and of all pixels.
fn measure(histogram: &Vec<u32>, t: usize, below: u64, levels: u64, all: u64, sum: u64) -> (m: Level)
    requires
        t < 256,
        below == weight(histogram@, t as int),
        levels == moment(histogram@, t as int),
        all == total(histogram@),
        sum == moment(histogram@, 255),
    ensures
        m.parts == is_candidate(histogram@, t as int),
        m.parts ==> {
            &&& m.split == split(histogram@, t as int)
            &&& m.split > 0
            &&& m.split < two_40() * two_40()
            &&& m.spread < two_40() * two_40() * 256
            &&& m.spread * m.spread == spread(histogram@, t as int) * spread(histogram@, t as int)
            &&& (m.spread == 0) == (spread(histogram@, t as int) == 0)
        },
{
    if below == 0 || below >= all {
        proof {
            lemma_below_grows(histogram@, t + 1, 256);
        }
        return Level { parts: false, spread: 0, split: 0 };
    }
    proof {
        lemma_below_bounds(histogram@, t + 1);
        lemma_below_bounds(histogram@, 256);
        let lim = two_40();
        assert(all < lim && sum < lim * 256 && below < lim && levels < lim * 256);
        assert(levels * all < lim * 256 * lim) by (nonlinear_arith)
            requires
                0 <= levels < lim * 256,
                0 <= all < lim,
        ;
        assert(sum * below < lim * 256 * lim) by (nonlinear_arith)
            requires
                0 <= sum < lim * 256,
                0 <= below < lim,
        ;
        assert(lim * 256 * lim == lim * lim * 256) by (nonlinear_arith);
        assert(0 < below * (all - below) < lim * lim) by (nonlinear_arith)
            requires
                0 < below < lim,
                0 < all - below < lim,
        ;
        assert(lim * lim * 256 < u128::MAX) by (nonlinear_arith)
            requires
                lim == 0x100_0000_0000int,
        ;
    }
    let x: u128 = (levels as u128) * (all as u128);
    let y: u128 = (sum as u128) * (below as u128);
    let spread: u128 = if x >= y {
        x - y
    } else {
        y - x
    };
    let split: u128 = (below as u128) * ((all - below) as u128);
    proof {
        let v = x - y;
        assert(spread * spread == v * v) by (nonlinear_arith)
            requires
                spread == v || spread == -v,
        ;
    }
    Level { parts: true, spread, split }
}

/// The threshold of Otsu's method for a histogram of 256 gray levels: the
/// gray level that parts the pixels into the two classes with the greatest
/// variance between them. A histogram with fewer counts is taken to hold
/// zeros beyond its end.
pub fn calculate_otsu_threshold(histogram: &Vec<u32>) -> (threshold: u8)
    ensures
        is_otsu(histogram@, threshold as int),
{
    let ghost h = histogram@;
    let (all, sum) = sums(histogram);
    let mut below: u64 = 0;
    let mut levels: u64 = 0;
    let mut best: usize = 0;
    let mut has_best = false;
    let mut best_spread: u128 = 0;
    let mut best_split: u128 = 0;
    let mut i: usize = 0;
    while i < 256
        invariant
            i <= 256,
            h == histogram@,
            all == total(h),
            sum == moment(h, 255),
            below == pixels_below(h, i as int),
            levels == levels_below(h, i as int),
            !has_best ==> best == 0 && forall|c: int|
                0 <= c < i && is_candidate(h, c) ==> spread(h, c) == 0,
            has_best ==> {
                &&& best < i
                &&& is_candidate(h, best as int)
                &&& spread(h, best as int) != 0
                &&& best_spread < two_40() * two_40() * 256
                &&& best_split < two_40() * two_40()
                &&& best_spread * best_spread == spread(h, best as int) * spread(h, best as int)
                &&& best_split == split(h, best as int)
                &&& best_split > 0
                &&& forall|c: int| 0 <= c < i && is_candidate(h, c) ==> !parts_better(h, c, best as int)
                &&& forall|c: int|
                    0 <= c < best && is_candidate(h, c) ==> parts_better(h, best as int, c)
            },
        decreases 256 - i,
    {
        proof {
            lemma_below_bounds(h, i as int);
            lemma_below_bounds(h, i + 1);
        }
        let c = count_at(histogram, i);
        assert(i * c <= 255 * u32::MAX) by (nonlinear_arith)
            requires
                0 <= i <= 255,
                0 <= c <= u32::MAX,
        ;
        below = below + c;
        levels = levels + (i as u64) * c;
        let m = measure(histogram, i, below, levels, all, sum);
        if m.parts && m.spread != 0 {
            let ghost z = spread(h, i as int) * spread(h, i as int);
            let ghost r = split(h, i as int);
            if !has_best {
                proof {
                    assert(z > 0) by (nonlinear_arith)
                        requires
                            z == spread(h, i as int) * spread(h, i as int),
                            spread(h, i as int) != 0,
                    ;
                    assert forall|c: int| 0 <= c <= i && is_candidate(h, c) implies !parts_better(
                        h,
                        c,
                        i as int,
                    ) by {
                        if c < i {
                            lemma_split_positive(h, c);
                            assert(z * split(h, c) >= 0) by (nonlinear_arith)
                                requires
                                    z > 0,
                                    split(h, c) > 0,
                            ;
                            assert(spread(h, c) * spread(h, c) * r == 0) by (nonlinear_arith)
                                requires
                                    spread(h, c) == 0,
                            ;
                        }
                    }
                    assert forall|c: int| 0 <= c < i && is_candidate(h, c) implies parts_better(
                        h,
                        i as int,
                        c,
                    ) by {
                        lemma_split_positive(h, c);
                        assert(z * split(h, c) > 0) by (nonlinear_arith)
                            requires
                                z > 0,
                                split(h, c) > 0,
                        ;
                        assert(spread(h, c) * spread(h, c) * r == 0) by (nonlinear_arith)
                            requires
                                spread(h, c) == 0,
                        ;
                    }
                }
                best = i;
                best_spread = m.spread;
                best_split = m.split;
                has_best = true;
            } else {
                let mine = weighted_square(m.spread, best_split);
                let theirs = weighted_square(best_spread, m.split);
                let ghost y = spread(h, best as int) * spread(h, best as int);
                let ghost q = split(h, best as int);
                if wide_greater(mine, theirs) {
                    proof {
                        assert(z * q > y * r);
                        assert forall|c: int|
                            0 <= c <= i && is_candidate(h, c) implies !parts_better(
                            h,
                            c,
                            i as int,
                        ) by {
                            if c < i {
                                lemma_split_positive(h, c);
                                lemma_better_than_all(
                                    spread(h, c) * spread(h, c),
                                    split(h, c),
                                    y,
                                    q,
                                    z,
                                    r,
                                );
                            }
                        }
                        assert forall|c: int|
                            0 <= c < i && is_candidate(h, c) implies parts_better(
                            h,
                            i as int,
                            c,
                        ) by {
                            lemma_split_positive(h, c);
                            lemma_better_than_all(
                                spread(h, c) * spread(h, c),
                                split(h, c),
                                y,
                                q,
                                z,
                                r,
                            );
                        }
                    }
                    best = i;
                    best_spread = m.spread;
                    best_split = m.split;
                } else {
                    assert(!parts_better(h, i as int, best as int));
                }
            }
        } else if m.parts && has_best {
            proof {
                let y = spread(h, best as int) * spread(h, best as int);
                assert(y * split(h, i as int) >= 0) by (nonlinear_arith)
                    requires
                        y == spread(h, best as int) * spread(h, best as int),
                        split(h, i as int) > 0,
                ;
                assert(spread(h, i as int) * spread(h, i as int) * split(h, best as int) == 0)
                    by (nonlinear_arith)
                    requires
                        spread(h, i as int) == 0,
                ;
            }
        }
        i += 1;
    }
    best as u8
}

/// The two classes of a candidate both have pixels.
proof fn lemma_split_positive(h: Seq<u32>, c: int)
    requires
        is_candidate(h, c),
    ensures
        split(h, c) > 0,
{
    assert(weight(h, c) * (total(h) - weight(h, c)) > 0) by (nonlinear_arith)
        requires
            0 < weight(h, c) < total(h),
    ;
}

/// Makes the pixels of a gray image black and white: those above the
/// threshold of Otsu's method become 255, the others 0. The threshold is
/// returned.
pub fn binarize_by_otsu(pixels: &mut Vec<u8>) -> (threshold: u8)
    ensures
        is_otsu(histogram_of(old(pixels)@), threshold as int),
        final(pixels)@ == binarized(old(pixels)@, threshold),
{
    let counts = histogram(pixels.as_slice());
    let threshold = calculate_otsu_threshold(&counts);
    binarize(pixels, threshold);
    threshold
}

} // verus!
