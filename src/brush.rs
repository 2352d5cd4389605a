//! The sculpting brush: the square of cells around a centre, each with its
//! closeness to the centre, and the cubic falloff that turns closeness into a
//! weight.
use vstd::prelude::*;
use vstd::arithmetic::div_mod::{lemma_div_is_ordered, lemma_fundamental_div_mod_converse};
use crate::fixed::{ONE, isqrt_ceil, sqrt_ceil, lemma_sqrt_ceil_least, lemma_sqrt_ceil_monotone};

verus! {

/// Largest brush radius: a square scan of `(2r+1)^2` cells beyond this could
/// not be held in memory.
pub const MAX_RADIUS: usize = 65535;

/// First index of the scan around `c`, saturating at zero.
pub open spec fn span_lo(c: int, r: int) -> int {
    if c >= r {
        c - r
    } else {
        0
    }
}

/// Last index of the scan around `c`, saturating at `usize::MAX`.
pub open spec fn span_hi(c: int, r: int) -> int {
    if c + r <= usize::MAX {
        c + r
    } else {
        usize::MAX as int
    }
}

/// Number of indices scanned around `c` on one axis.
pub open spec fn span_len(c: int, r: int) -> int {
    span_hi(c, r) - span_lo(c, r) + 1
}

/// Squared Euclidean distance between cells `(i, j)` and `(x, y)`.
pub open spec fn dist_sq(i: int, j: int, x: int, y: int) -> int {
    (i - x) * (i - x) + (j - y) * (j - y)
}

/// `a / b` rounded up.
pub open spec fn ceil_div(a: int, b: int) -> int {
    (a + b - 1) / b
}

/// Closeness in `[0, ONE]` of a cell at squared distance `dsq` from the
/// centre: `ONE * (1 - d / (r * sqrt 2))` rounded down, and `ONE` at radius 0.
pub open spec fn closeness(dsq: int, r: int) -> int {
    if r == 0 {
        ONE as int
    } else {
        ONE - sqrt_ceil(ceil_div(ONE * ONE * dsq, 2 * r * r) as nat)
    }
}

/// The cubic brush falloff `1 - (1 - c)^3` of a closeness `c`, over `ONE`.
pub open spec fn falloff(c: int) -> int {
    ONE - (ONE - c) * (ONE - c) * (ONE - c) / (ONE * ONE)
}

/// The `k`-th cell of the scan around `(x, y)`, rows (`y`) outermost.
pub open spec fn neighbour(x: int, y: int, r: int, k: int) -> (usize, usize, u64) {
    let w = span_len(x, r);
    let i = span_lo(x, r) + k % w;
    let j = span_lo(y, r) + k / w;
    (i as usize, j as usize, closeness(dist_sq(i, j, x, y), r) as u64)
}

/// All cells of the square scan of radius `r` around `(x, y)`.
pub open spec fn neighbours(x: int, y: int, r: int) -> Seq<(usize, usize, u64)> {
    Seq::new((span_len(x, r) * span_len(y, r)) as nat, |k: int| neighbour(x, y, r, k))
}

proof fn lemma_closeness_range(dsq: int, r: int)
    requires
        0 <= dsq <= 2 * r * r,
        r >= 0,
    ensures
        0 <= closeness(dsq, r) <= ONE,
        r > 0 ==> 0 <= ceil_div(ONE * ONE * dsq, 2 * r * r) <= ONE * ONE,
{
    if r > 0 {
        let den = 2 * r * r;
        assert(den > 0) by (nonlinear_arith)
            requires
                r > 0,
                den == 2 * r * r,
        ;
        assert(ONE * ONE * dsq + den - 1 <= ONE * ONE * den + den - 1) by (nonlinear_arith)
            requires
                dsq <= den,
        ;
        assert((ONE * ONE * den + den - 1) / den == ONE * ONE) by {
            lemma_fundamental_div_mod_converse(
                ONE * ONE * den + den - 1,
                den,
                ONE * ONE,
                den - 1,
            );
        }
        lemma_div_is_ordered(ONE * ONE * dsq + den - 1, ONE * ONE * den + den - 1, den);
        lemma_div_is_ordered(0, ONE * ONE * dsq + den - 1, den);
        let q = ceil_div(ONE * ONE * dsq, den);
        lemma_sqrt_ceil_least(q as nat, ONE as nat);
    }
}

/// Closeness of a cell at squared distance `dsq`.
fn closeness_of(dsq: u64, r: usize) -> (c: u64)
    requires
        dsq <= 2 * r * r,
        r <= MAX_RADIUS,
    ensures
        c == closeness(dsq as int, r as int),
{
    proof {
        lemma_closeness_range(dsq as int, r as int);
    }
    if r == 0 {
        return ONE;
    }
    assert(2 * (r as u128) * (r as u128) <= 0x2_0000_0000u128) by (nonlinear_arith)
        requires
            r <= MAX_RADIUS,
    ;
    let den: u128 = 2 * (r as u128) * (r as u128);
    assert(ONE as u128 * ONE as u128 * dsq as u128 <= 1_000_000_000_000 * 0x2_0000_0000u128)
        by (nonlinear_arith)
        requires
            dsq <= 2 * r * r,
            r <= MAX_RADIUS,
    ;
    let num: u128 = (ONE as u128) * (ONE as u128) * (dsq as u128);
    assert(den > 0) by (nonlinear_arith)
        requires
            r > 0,
            den == 2 * r * r,
    ;
    assert(num + den - 1 <= u128::MAX);
    let q: u128 = (num + den - 1) / den;
    let s = isqrt_ceil(q as u64);
    ONE - s
}

/// The brush weight `1 - (1 - c)^3` of a closeness `c`, over `ONE`.
pub fn brush_weight(c: u64) -> (w: u64)
    requires
        c <= ONE,
    ensures
        w == falloff(c as int),
        w <= ONE,
{
    let d: u64 = ONE - c;
    assert(d * d <= 1_000_000_000_000) by (nonlinear_arith)
        requires
            d <= 1_000_000,
    ;
    assert(d * d * d <= 1_000_000_000_000_000_000) by (nonlinear_arith)
        requires
            d <= 1_000_000,
    ;
    assert(d * d * d / (ONE * ONE) <= ONE) by {
        lemma_div_is_ordered(d * d * d, 1_000_000_000_000_000_000, (ONE * ONE) as int);
    }
    ONE - d * d * d / (ONE * ONE)
}

proof fn lemma_index_split(jj: int, ii: int, w: int)
    requires
        w > 0,
        0 <= ii < w,
        jj >= 0,
    ensures
        (jj * w + ii) % w == ii,
        (jj * w + ii) / w == jj,
{
    lemma_fundamental_div_mod_converse(jj * w + ii, w, jj, ii);
}

/// The cells within the square of radius `r` around `(x, y)`, row by row,
/// each with its closeness to the centre: `ONE` at the centre, falling to 0 at
/// the corners. The square is cut off where it would leave `0..=usize::MAX`.
pub fn get_neighbours_radius(x: usize, y: usize, r: usize) -> (ns: Vec<(usize, usize, u64)>)
    requires
        r <= MAX_RADIUS,
    ensures
        ns@ == neighbours(x as int, y as int, r as int),
{
    let x_lo = x.saturating_sub(r);
    let x_hi = x.saturating_add(r);
    let y_lo = y.saturating_sub(r);
    let y_hi = y.saturating_add(r);
    let w: usize = x_hi - x_lo + 1;
    let h: usize = y_hi - y_lo + 1;
    let ghost spec_ns = neighbours(x as int, y as int, r as int);
    assert(w == span_len(x as int, r as int) && h == span_len(y as int, r as int));
    let mut ns: Vec<(usize, usize, u64)> = Vec::new();
    let mut jj: usize = 0;
    while jj < h
        invariant
            w == span_len(x as int, r as int),
            h == span_len(y as int, r as int),
            x_lo == span_lo(x as int, r as int),
            y_lo == span_lo(y as int, r as int),
            1 <= w <= 2 * MAX_RADIUS + 1,
            1 <= h <= 2 * MAX_RADIUS + 1,
            r <= MAX_RADIUS,
            jj <= h,
            ns@.len() == jj * w,
            forall|k: int| 0 <= k < ns@.len() ==> ns@[k] == neighbour(x as int, y as int, r as int, k),
        decreases h - jj,
    {
        let j: usize = y_lo + jj;
        let dj: u64 = if j >= y { (j - y) as u64 } else { (y - j) as u64 };
        let mut ii: usize = 0;
        while ii < w
            invariant
                w == span_len(x as int, r as int),
                h == span_len(y as int, r as int),
                x_lo == span_lo(x as int, r as int),
                y_lo == span_lo(y as int, r as int),
                1 <= w <= 2 * MAX_RADIUS + 1,
                1 <= h <= 2 * MAX_RADIUS + 1,
                r <= MAX_RADIUS,
                jj < h,
                j == y_lo + jj,
                dj as int == if j >= y { j - y } else { y - j },
                dj <= r,
                ii <= w,
                ns@.len() == jj * w + ii,
                forall|k: int| 0 <= k < ns@.len() ==> ns@[k] == neighbour(x as int, y as int, r as int, k),
            decreases w - ii,
        {
            let i: usize = x_lo + ii;
            let di: u64 = if i >= x { (i - x) as u64 } else { (x - i) as u64 };
            assert(di * di + dj * dj <= 2 * r * r && di * di <= r * r && dj * dj <= r * r
                && 2 * r * r <= 0x2_0000_0000) by (nonlinear_arith)
                requires
                    di <= r,
                    dj <= r,
                    r <= MAX_RADIUS,
            ;
            let dsq: u64 = di * di + dj * dj;
            let c = closeness_of(dsq, r);
            proof {
                lemma_index_split(jj as int, ii as int, w as int);
                assert(dsq == dist_sq(i as int, j as int, x as int, y as int)) by (nonlinear_arith)
                    requires
                        di as int == if i >= x { i - x } else { x - i },
                        dj as int == if j >= y { j - y } else { y - j },
                        dsq == di * di + dj * dj,
                ;
            }
            ns.push((i, j, c));
            ii = ii + 1;
        }
        assert((jj + 1) * w == jj * w + w) by (nonlinear_arith);
        jj = jj + 1;
    }
    assert(h * w == w * h) by (nonlinear_arith);
    assert(ns@ =~= spec_ns);
    ns
}

/// Every scanned cell lies within `r` of the centre on both axes.
pub proof fn lemma_neighbour_within_radius(x: usize, y: usize, r: usize, k: int)
    requires
        r <= MAX_RADIUS,
        0 <= k < neighbours(x as int, y as int, r as int).len(),
    ensures
        ({
            let n = neighbours(x as int, y as int, r as int)[k];
            &&& x - r <= n.0 <= x + r
            &&& y - r <= n.1 <= y + r
            &&& 0 <= dist_sq(n.0 as int, n.1 as int, x as int, y as int) <= 2 * r * r
            &&& n.2 as int == closeness(dist_sq(n.0 as int, n.1 as int, x as int, y as int), r as int)
            &&& n.2 <= ONE
        }),
{
    let w = span_len(x as int, r as int);
    let h = span_len(y as int, r as int);
    assert(0 <= k % w < w && 0 <= k / w) by (nonlinear_arith)
        requires
            w > 0,
            k >= 0,
    ;
    assert(k / w < h) by (nonlinear_arith)
        requires
            w > 0,
            h > 0,
            0 <= k < w * h,
    ;
    let i = span_lo(x as int, r as int) + k % w;
    let j = span_lo(y as int, r as int) + k / w;
    assert(i <= span_hi(x as int, r as int) && j <= span_hi(y as int, r as int));
    assert(0 <= dist_sq(i, j, x as int, y as int) <= 2 * r * r) by (nonlinear_arith)
        requires
            x - r <= i <= x + r,
            y - r <= j <= y + r,
    ;
    lemma_closeness_range(dist_sq(i, j, x as int, y as int), r as int);
}

/// Cells farther from the centre are never closer: closeness does not grow
/// with distance, and so neither does the brush weight.
pub proof fn lemma_closeness_monotone(d1: int, d2: int, r: int)
    requires
        0 <= d1 <= d2 <= 2 * r * r,
        r >= 0,
    ensures
        closeness(d1, r) >= closeness(d2, r),
        falloff(closeness(d1, r)) >= falloff(closeness(d2, r)),
{
    lemma_closeness_range(d1, r);
    lemma_closeness_range(d2, r);
    if r > 0 {
        let den = 2 * r * r;
        assert(den > 0) by (nonlinear_arith)
            requires
                r > 0,
                den == 2 * r * r,
        ;
        assert(ONE * ONE * d1 + den - 1 <= ONE * ONE * d2 + den - 1) by (nonlinear_arith)
            requires
                d1 <= d2,
        ;
        lemma_div_is_ordered(ONE * ONE * d1 + den - 1, ONE * ONE * d2 + den - 1, den);
        lemma_sqrt_ceil_monotone(
            ceil_div(ONE * ONE * d1, den) as nat,
            ceil_div(ONE * ONE * d2, den) as nat,
        );
    }
    lemma_falloff_monotone(closeness(d2, r), closeness(d1, r));
}

/// A larger closeness never gives a smaller weight.
pub proof fn lemma_falloff_monotone(c1: int, c2: int)
    requires
        0 <= c1 <= c2 <= ONE,
    ensures
        falloff(c1) <= falloff(c2),
{
    let a = ONE - c2;
    let b = ONE - c1;
    assert(a * a * a <= b * b * b) by (nonlinear_arith)
        requires
            0 <= a <= b,
    ;
    lemma_div_is_ordered(a * a * a, b * b * b, (ONE * ONE) as int);
}

/// Brush weights fall off with distance: of two scanned cells, the one nearer
/// the centre has at least the weight of the farther one, and the centre cell
/// itself has weight exactly one.
pub proof fn lemma_neighbour_weights_fall_off(x: usize, y: usize, r: usize, a: int, b: int)
    requires
        r <= MAX_RADIUS,
        0 <= a < neighbours(x as int, y as int, r as int).len(),
        0 <= b < neighbours(x as int, y as int, r as int).len(),
    ensures
        ({
            let ns = neighbours(x as int, y as int, r as int);
            &&& dist_sq(ns[a].0 as int, ns[a].1 as int, x as int, y as int)
                <= dist_sq(ns[b].0 as int, ns[b].1 as int, x as int, y as int)
                ==> falloff(ns[a].2 as int) >= falloff(ns[b].2 as int)
            &&& (ns[a].0 == x && ns[a].1 == y) ==> ns[a].2 == ONE && falloff(ns[a].2 as int) == ONE
        }),
{
    let ns = neighbours(x as int, y as int, r as int);
    lemma_neighbour_within_radius(x, y, r, a);
    lemma_neighbour_within_radius(x, y, r, b);
    let da = dist_sq(ns[a].0 as int, ns[a].1 as int, x as int, y as int);
    let db = dist_sq(ns[b].0 as int, ns[b].1 as int, x as int, y as int);
    lemma_closeness_range(da, r as int);
    lemma_closeness_range(db, r as int);
    if da <= db {
        lemma_closeness_monotone(da, db, r as int);
    }
    if ns[a].0 == x && ns[a].1 == y {
        assert(dist_sq(x as int, y as int, x as int, y as int) == 0) by (nonlinear_arith);
        assert(da == 0);
        if r > 0 {
            assert(ceil_div(ONE * ONE * 0, 2 * r * r) == 0) by (nonlinear_arith)
                requires
                    r > 0,
            ;
            lemma_sqrt_ceil_least(0, 0);
        }
        assert(falloff(ONE as int) == ONE);
    }
}

/// The scan holds `(2r+1)^2` cells when the square fits inside the index
/// range; near zero it is cut to the cells that exist.
pub proof fn lemma_neighbour_count(x: usize, y: usize, r: usize)
    requires
        r <= MAX_RADIUS,
    ensures
        x + r <= usize::MAX && y + r <= usize::MAX ==> neighbours(x as int, y as int, r as int).len()
            == (if x >= r { 2 * r + 1 } else { x + r + 1 }) * (if y >= r { 2 * r + 1 } else { y + r + 1 }),
        x >= r && y >= r && x + r <= usize::MAX && y + r <= usize::MAX ==> neighbours(
            x as int,
            y as int,
            r as int,
        ).len() == (2 * r + 1) * (2 * r + 1),
{
    let w = span_len(x as int, r as int);
    let h = span_len(y as int, r as int);
    assert(w * h >= 0) by (nonlinear_arith)
        requires
            w >= 1,
            h >= 1,
    ;
}

/// Each cell of the scanned square appears in the scan exactly once; in
/// particular the centre `(x, y)` does, with closeness `ONE`.
pub proof fn lemma_neighbour_unique(x: usize, y: usize, r: usize, i: int, j: int)
    requires
        r <= MAX_RADIUS,
        span_lo(x as int, r as int) <= i <= span_hi(x as int, r as int),
        span_lo(y as int, r as int) <= j <= span_hi(y as int, r as int),
    ensures
        ({
            let ns = neighbours(x as int, y as int, r as int);
            let k = (j - span_lo(y as int, r as int)) * span_len(x as int, r as int) + (i - span_lo(
                x as int,
                r as int,
            ));
            &&& 0 <= k < ns.len()
            &&& ns[k].0 == i && ns[k].1 == j
            &&& forall|k2: int| 0 <= k2 < ns.len() && #[trigger] ns[k2].0 == i && ns[k2].1 == j ==> k2 == k
            &&& (i == x && j == y) ==> ns[k].2 == ONE
        }),
{
    let ns = neighbours(x as int, y as int, r as int);
    let w = span_len(x as int, r as int);
    let h = span_len(y as int, r as int);
    let qi = i - span_lo(x as int, r as int);
    let qj = j - span_lo(y as int, r as int);
    let k = qj * w + qi;
    assert(0 <= k < w * h) by (nonlinear_arith)
        requires
            0 <= qi < w,
            0 <= qj < h,
            k == qj * w + qi,
    ;
    lemma_index_split(qj, qi, w);
    assert(ns[k].0 == i && ns[k].1 == j);
    assert forall|k2: int| 0 <= k2 < ns.len() && #[trigger] ns[k2].0 == i && ns[k2].1 == j implies k2 == k by {
        lemma_neighbour_within_radius(x, y, r, k2);
        vstd::arithmetic::div_mod::lemma_fundamental_div_mod(k2, w);
        assert(0 <= k2 % w < w && k2 / w >= 0) by (nonlinear_arith)
            requires
                w > 0,
                k2 >= 0,
        ;
        assert(k2 / w < h) by (nonlinear_arith)
            requires
                w > 0,
                h > 0,
                0 <= k2 < w * h,
        ;
        assert(span_lo(y as int, r as int) + k2 / w <= span_hi(y as int, r as int));
        assert(span_lo(x as int, r as int) + k2 % w <= span_hi(x as int, r as int));
        assert(k2 % w == qi);
        assert(k2 / w == qj);
        assert(k2 == qj * w + qi) by (nonlinear_arith)
            requires
                k2 == w * (k2 / w) + k2 % w,
                k2 % w == qi,
                k2 / w == qj,
        ;
    }
    if i == x && j == y {
        lemma_neighbour_weights_fall_off(x, y, r, k, k);
    }
}

} // verus!
