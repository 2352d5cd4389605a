//! The terrain height field: a row-major grid of non-negative heights over a
//! rectangle of the world, split into bands of `CELL_SIZE` rows, one per chunk.
use vstd::prelude::*;
use crate::fixed::ONE;
use crate::constants::{CELL_SIZE, MAX_TERRAIN_HEIGHT, HALFPIPE_HEIGHT};
use crate::random::random_below;

verus! {

/// `v` clamped to `[0, i64::MAX]`.
pub open spec fn clamp_height(v: int) -> i64 {
    if v < 0 {
        0
    } else if v > i64::MAX {
        i64::MAX
    } else {
        v as i64
    }
}

/// Every height of the grid is at least zero.
pub open spec fn non_negative(g: Seq<Seq<i64>>) -> bool {
    forall|z: int, x: int| 0 <= z < g.len() && 0 <= x < g[z].len() ==> g[z][x] >= 0
}

/// The grid after adding `delta` at column `x` of row `z` of band `chunk`:
/// unchanged when `x` or `z` lies outside the field or the row does not exist.
pub open spec fn apply_edit(
    g: Seq<Seq<i64>>,
    cw: int,
    ch: int,
    x: int,
    z: int,
    delta: int,
    chunk: int,
) -> Seq<Seq<i64>> {
    let row = chunk * CELL_SIZE + z;
    if 0 <= x < cw && 0 <= z < ch && 0 <= row < ch && row < g.len() && x < g[row].len() {
        g.update(row, g[row].update(x, clamp_height(g[row][x] + delta)))
    } else {
        g
    }
}

/// The grid after the edits `(x, z, delta, chunk)`, first to last.
pub open spec fn replay(g: Seq<Seq<i64>>, cw: int, ch: int, edits: Seq<(int, int, int, int)>) -> Seq<
    Seq<i64>,
>
    decreases edits.len(),
{
    if edits.len() == 0 {
        g
    } else {
        let e = edits.last();
        apply_edit(replay(g, cw, ch, edits.drop_last()), cw, ch, e.0, e.1, e.2, e.3)
    }
}

/// Cell index of world coordinate `p` along an axis of `extent` split into `cells`.
pub open spec fn cell_of(p: int, extent: int, cells: int) -> int {
    p * cells / extent
}

/// Smallest world coordinate inside cell `c`.
pub open spec fn cell_origin(c: int, extent: int, cells: int) -> int {
    (c * extent + cells - 1) / cells
}

/// `p` to the power `k` in fixed point, rounding down at each step.
pub open spec fn pow_fixed(p: int, k: nat) -> int
    decreases k,
{
    if k == 0 {
        ONE as int
    } else {
        pow_fixed(p, (k - 1) as nat) * p / (ONE as int)
    }
}

pub open spec fn abs(v: int) -> int {
    if v < 0 {
        -v
    } else {
        v
    }
}

/// Height of the halfpipe wall at column `x` of `cw`: `50 * px^12` with
/// `px = 2x/cw - 1`.
pub open spec fn halfpipe(x: int, cw: int) -> int {
    let px = abs(2 * x - cw) * ONE / cw;
    HALFPIPE_HEIGHT * pow_fixed(px, 12) / (ONE as int)
}

/// Slope multiplier over `ONE` at row `z` of `ch`: `max(0, 1 - (z/(0.48 ch) - 1)^4)`.
pub open spec fn slope_curve(z: int, ch: int) -> int {
    let t = abs(100 * z - 48 * ch) * ONE / (48 * ch);
    if t >= ONE {
        0
    } else {
        ONE - pow_fixed(t, 4)
    }
}

/// Height contributed by a noise sample `n` over `ONE`, floored at zero.
pub open spec fn noise_height(n: int) -> int {
    if n < 0 {
        0
    } else {
        n * MAX_TERRAIN_HEIGHT / (ONE as int)
    }
}

/// Generated height of cell `(x, z)` from its noise sample `n`.
pub open spec fn terrain_height(n: int, x: int, z: int, cw: int, ch: int) -> int {
    (noise_height(n) + halfpipe(x, cw)) * slope_curve(z, ch) / (ONE as int)
}

pub proof fn lemma_pow_fixed_bounded(p: int, k: nat)
    requires
        0 <= p <= ONE,
    ensures
        0 <= pow_fixed(p, k) <= ONE,
    decreases k,
{
    if k > 0 {
        lemma_pow_fixed_bounded(p, (k - 1) as nat);
        let q = pow_fixed(p, (k - 1) as nat);
        assert(0 <= q * p <= ONE * ONE) by (nonlinear_arith)
            requires
                0 <= q <= ONE,
                0 <= p <= ONE,
        ;
        vstd::arithmetic::div_mod::lemma_div_is_ordered(q * p, (ONE * ONE) as int, ONE as int);
        vstd::arithmetic::div_mod::lemma_div_is_ordered(0, q * p, ONE as int);
    }
}

/// `p` to the power `k` in fixed point.
fn pow_fixed_exec(p: u64, k: u32) -> (r: u64)
    requires
        p <= ONE,
    ensures
        r == pow_fixed(p as int, k as nat),
        r <= ONE,
{
    let mut acc: u64 = ONE;
    let mut i: u32 = 0;
    while i < k
        invariant
            i <= k,
            p <= ONE,
            acc == pow_fixed(p as int, i as nat),
        decreases k - i,
    {
        proof {
            lemma_pow_fixed_bounded(p as int, i as nat);
        }
        assert(acc * p <= ONE * ONE) by (nonlinear_arith)
            requires
                acc <= ONE,
                p <= ONE,
        ;
        acc = acc * p / ONE;
        i = i + 1;
    }
    proof {
        lemma_pow_fixed_bounded(p as int, k as nat);
    }
    acc
}

/// A height field over `w` by `h` world units, `cell_w` by `cell_h` cells.
#[derive(Clone, Debug)]
pub struct HeightMap {
    pub w: i64,
    pub h: i64,
    pub cell_w: usize,
    pub cell_h: usize,
    /// Heights, row by row.
    pub map: Vec<Vec<i64>>,
}

impl HeightMap {
    /// The heights as a sequence of rows.
    pub open spec fn grid(&self) -> Seq<Seq<i64>> {
        self.map@.map_values(|row: Vec<i64>| row@)
    }

    /// `cell_h` rows of `cell_w` heights each.
    pub open spec fn shaped(&self) -> bool {
        &&& self.map@.len() == self.cell_h
        &&& forall|z: int| 0 <= z < self.cell_h ==> #[trigger] self.map@[z]@.len() == self.cell_w
        &&& self.grid().len() == self.cell_h
        &&& forall|z: int| 0 <= z < self.cell_h ==> #[trigger] self.grid()[z].len() == self.cell_w
    }

    /// Well formed: positive extent, the grid shaped to the cell counts, and
    /// no height below zero.
    pub open spec fn wf(&self) -> bool {
        &&& self.w > 0
        &&& self.h > 0
        &&& self.shaped()
        &&& non_negative(self.grid())
    }

    /// Height at column `x` of row `z`.
    pub open spec fn height(&self, x: int, z: int) -> i64 {
        self.grid()[z][x]
    }

    /// The cell holding world point `(x, z)`, if it lies on the field.
    pub open spec fn cell_from_pos(&self, x: int, z: int) -> Option<(usize, usize)> {
        let cx = cell_of(x, self.w as int, self.cell_w as int);
        let cz = cell_of(z, self.h as int, self.cell_h as int);
        if x < 0 || z < 0 || cx >= self.cell_w || cz >= self.cell_h {
            None
        } else {
            Some((cx as usize, cz as usize))
        }
    }

    /// Height under world point `(x, z)`, zero off the field.
    pub open spec fn ground(&self, x: int, z: int) -> int {
        match self.cell_from_pos(x, z) {
            Some((cx, cz)) => self.height(cx as int, cz as int) as int,
            None => 0,
        }
    }

    /// A zeroed field of `cell_w` by `cell_h` cells over `w` by `h` world units.
    pub fn new(w: i64, h: i64, cell_w: usize, cell_h: usize) -> (hm: HeightMap)
        requires
            w > 0,
            h > 0,
        ensures
            hm.wf(),
            hm.w == w && hm.h == h && hm.cell_w == cell_w && hm.cell_h == cell_h,
            forall|z: int, x: int| 0 <= z < cell_h && 0 <= x < cell_w ==> hm.height(x, z) == 0,
    {
        let mut map: Vec<Vec<i64>> = Vec::new();
        let mut z: usize = 0;
        while z < cell_h
            invariant
                z <= cell_h,
                map@.len() == z,
                forall|k: int| 0 <= k < z ==> #[trigger] map@[k]@.len() == cell_w,
                forall|k: int, x: int| 0 <= k < z && 0 <= x < cell_w ==> map@[k]@[x] == 0,
            decreases cell_h - z,
        {
            let mut row: Vec<i64> = Vec::new();
            let mut x: usize = 0;
            while x < cell_w
                invariant
                    x <= cell_w,
                    row@.len() == x,
                    forall|i: int| 0 <= i < x ==> row@[i] == 0,
                decreases cell_w - x,
            {
                row.push(0);
                x = x + 1;
            }
            map.push(row);
            z = z + 1;
        }
        HeightMap { w, h, cell_w, cell_h, map }
    }

    /// The cell holding world point `(x, y)`: `x * cell_w / w` and
    /// `y * cell_h / h` rounded down, or `None` when the point lies before the
    /// field or the cell past its last cell.
    pub fn get_cell_from_pos(&self, x: i64, y: i64) -> (r: Option<(usize, usize)>)
        requires
            self.w > 0,
            self.h > 0,
        ensures
            r == self.cell_from_pos(x as int, y as int),
    {
        if x < 0 || y < 0 {
            return None;
        }
        assert((x as u128) * (self.cell_w as u128) <= 0x8000_0000_0000_0000u128 * 0x1_0000_0000_0000_0000u128)
            by (nonlinear_arith)
            requires
                0 <= x <= i64::MAX,
                self.cell_w <= usize::MAX,
        ;
        assert((y as u128) * (self.cell_h as u128) <= 0x8000_0000_0000_0000u128 * 0x1_0000_0000_0000_0000u128)
            by (nonlinear_arith)
            requires
                0 <= y <= i64::MAX,
                self.cell_h <= usize::MAX,
        ;
        let cx: u128 = (x as u128) * (self.cell_w as u128) / (self.w as u128);
        let cz: u128 = (y as u128) * (self.cell_h as u128) / (self.h as u128);
        if cx >= self.cell_w as u128 || cz >= self.cell_h as u128 {
            None
        } else {
            Some((cx as usize, cz as usize))
        }
    }

    /// The height under world point `(x, y)`, if it lies on the field.
    pub fn pos_to_height(&self, x: i64, y: i64) -> (r: Option<i64>)
        requires
            self.wf(),
        ensures
            r == match self.cell_from_pos(x as int, y as int) {
                Some((cx, cz)) => Some(self.height(cx as int, cz as int)),
                None => None,
            },
    {
        match self.get_cell_from_pos(x, y) {
            Some((cx, cz)) => Some(self.map[cz][cx]),
            None => None,
        }
    }

    /// A cell drawn at random from the whole field.
    pub fn get_random_cell(&self) -> (r: (usize, usize))
        requires
            self.cell_w > 0,
            self.cell_h > 0,
        ensures
            r.0 < self.cell_w,
            r.1 < self.cell_h,
    {
        let cx = random_below(self.cell_w as u64);
        let cz = random_below(self.cell_h as u64);
        (cx as usize, cz as usize)
    }

    /// Smallest world coordinates inside cell `(cx, cz)`.
    pub fn cell_pos(&self, cx: usize, cz: usize) -> (r: (i64, i64))
        requires
            self.wf(),
            cx < self.cell_w,
            cz < self.cell_h,
        ensures
            r.0 == cell_origin(cx as int, self.w as int, self.cell_w as int),
            r.1 == cell_origin(cz as int, self.h as int, self.cell_h as int),
            0 <= r.0 <= self.w,
            0 <= r.1 <= self.h,
    {
        proof {
            lemma_cell_origin_bounds(cx as int, self.w as int, self.cell_w as int);
            lemma_cell_origin_bounds(cz as int, self.h as int, self.cell_h as int);
        }
        assert((cx as u128) * (self.w as u128) <= 0x1_0000_0000_0000_0000u128 * 0x8000_0000_0000_0000u128)
            by (nonlinear_arith)
            requires
                cx <= usize::MAX,
                0 < self.w <= i64::MAX,
        ;
        assert((cz as u128) * (self.h as u128) <= 0x1_0000_0000_0000_0000u128 * 0x8000_0000_0000_0000u128)
            by (nonlinear_arith)
            requires
                cz <= usize::MAX,
                0 < self.h <= i64::MAX,
        ;
        let ox: u128 = ((cx as u128) * (self.w as u128) + (self.cell_w as u128) - 1) / (self.cell_w as u128);
        let oz: u128 = ((cz as u128) * (self.h as u128) + (self.cell_h as u128) - 1) / (self.cell_h as u128);
        (ox as i64, oz as i64)
    }

    /// World coordinates of the first of the cells `draws` whose height lies
    /// in `[min_h, max_h]`, or the origin `(0, 0)` when none does.
    pub open spec fn first_between(&self, draws: Seq<(usize, usize)>, min_h: int, max_h: int) -> (i64, i64)
        decreases draws.len(),
    {
        if draws.len() == 0 {
            (0, 0)
        } else {
            let (cx, cz) = draws[0];
            let v = self.height(cx as int, cz as int);
            if min_h <= v <= max_h {
                (
                    cell_origin(cx as int, self.w as int, self.cell_w as int) as i64,
                    cell_origin(cz as int, self.h as int, self.cell_h as int) as i64,
                )
            } else {
                self.first_between(draws.drop_first(), min_h, max_h)
            }
        }
    }

    /// All draws are cells of the grid.
    pub open spec fn draws_on_grid(&self, draws: Seq<(usize, usize)>) -> bool {
        forall|i: int| 0 <= i < draws.len() ==> (#[trigger] draws[i]).0 < self.cell_w && draws[i].1 < self.cell_h
    }

    /// The result of a search over draws is the origin, or the corner of a cell
    /// whose height lies in `[min_h, max_h]`.
    pub proof fn lemma_first_between_found(&self, draws: Seq<(usize, usize)>, min_h: int, max_h: int)
        requires
            self.wf(),
            self.draws_on_grid(draws),
        ensures
            ({
                let r = self.first_between(draws, min_h, max_h);
                r == (0i64, 0i64) || exists|cx: int, cz: int|
                    0 <= cx < self.cell_w && 0 <= cz < self.cell_h && min_h <= #[trigger] self.height(cx, cz)
                        <= max_h && r.0 == cell_origin(cx, self.w as int, self.cell_w as int) && r.1
                        == cell_origin(cz, self.h as int, self.cell_h as int)
            }),
        decreases draws.len(),
    {
        if draws.len() > 0 {
            let (cx, cz) = draws[0];
            assert(draws[0].0 < self.cell_w && draws[0].1 < self.cell_h);
            lemma_cell_origin_bounds(cx as int, self.w as int, self.cell_w as int);
            lemma_cell_origin_bounds(cz as int, self.h as int, self.cell_h as int);
            if !(min_h <= self.height(cx as int, cz as int) <= max_h) {
                assert forall|i: int| 0 <= i < draws.drop_first().len() implies (#[trigger] draws.drop_first()[i]).0
                    < self.cell_w && draws.drop_first()[i].1 < self.cell_h by {
                    assert(draws.drop_first()[i] == draws[i + 1]);
                }
                self.lemma_first_between_found(draws.drop_first(), min_h, max_h);
            }
        }
    }

    /// World coordinates of the first drawn cell whose height lies in
    /// `[min_h, max_h]`, or the origin `(0, 0)` when no draw qualifies.
    pub fn first_between_height(&self, draws: &Vec<(usize, usize)>, min_h: i64, max_h: i64) -> (r: (i64, i64))
        requires
            self.wf(),
            self.draws_on_grid(draws@),
        ensures
            r == self.first_between(draws@, min_h as int, max_h as int),
    {
        let mut k: usize = 0;
        assert(draws@.subrange(0, draws@.len() as int) =~= draws@);
        while k < draws.len()
            invariant
                self.wf(),
                self.draws_on_grid(draws@),
                k <= draws@.len(),
                self.first_between(draws@, min_h as int, max_h as int) == self.first_between(
                    draws@.subrange(k as int, draws@.len() as int),
                    min_h as int,
                    max_h as int,
                ),
            decreases draws@.len() - k,
        {
            let (cx, cz) = draws[k];
            assert(draws@[k as int].0 < self.cell_w && draws@[k as int].1 < self.cell_h);
            let ghost rest = draws@.subrange(k as int, draws@.len() as int);
            assert(rest[0] == draws@[k as int]);
            assert(self.map@[cz as int]@.len() == self.cell_w);
            let v = self.map[cz][cx];
            if v >= min_h && v <= max_h {
                return self.cell_pos(cx, cz);
            }
            assert(rest.drop_first() =~= draws@.subrange(k as int + 1, draws@.len() as int));
            k = k + 1;
        }
        (0, 0)
    }

    /// World coordinates of a cell drawn at random, retried up to 100 times
    /// until its height lies in `[min_h, max_h]`; the origin `(0, 0)` when no
    /// draw did. Whatever the draws, the result is what `first_between` gives
    /// for them.
    pub fn get_random_pos_between_height(&self, min_h: i64, max_h: i64) -> (r: (i64, i64))
        requires
            self.wf(),
            self.cell_w > 0,
            self.cell_h > 0,
        ensures
            exists|draws: Seq<(usize, usize)>|
                draws.len() == 100 && self.draws_on_grid(draws) && r == #[trigger] self.first_between(
                    draws,
                    min_h as int,
                    max_h as int,
                ),
            r == (0i64, 0i64) || exists|cx: int, cz: int|
                0 <= cx < self.cell_w && 0 <= cz < self.cell_h
                && min_h <= #[trigger] self.height(cx, cz) <= max_h
                && r.0 == cell_origin(cx, self.w as int, self.cell_w as int)
                && r.1 == cell_origin(cz, self.h as int, self.cell_h as int),
    {
        let mut draws: Vec<(usize, usize)> = Vec::new();
        while draws.len() < 100
            invariant
                self.wf(),
                self.cell_w > 0,
                self.cell_h > 0,
                draws@.len() <= 100,
                self.draws_on_grid(draws@),
            decreases 100 - draws@.len(),
        {
            draws.push(self.get_random_cell());
        }
        let r = self.first_between_height(&draws, min_h, max_h);
        proof {
            self.lemma_first_between_found(draws@, min_h as int, max_h as int);
        }
        r
    }

    /// Adds `value` to the height at column `hm_x` of row `hm_y` of chunk band
    /// `chunk_idx`, never going below zero; nothing happens when the column,
    /// the row or the band's row lies outside the field.
    pub fn add_height(&mut self, hm_x: usize, hm_y: usize, value: i64, chunk_idx: usize)
        requires
            old(self).wf(),
        ensures
            final(self).wf(),
            final(self).w == old(self).w && final(self).h == old(self).h,
            final(self).cell_w == old(self).cell_w && final(self).cell_h == old(self).cell_h,
            final(self).grid() == apply_edit(
                old(self).grid(),
                old(self).cell_w as int,
                old(self).cell_h as int,
                hm_x as int,
                hm_y as int,
                value as int,
                chunk_idx as int,
            ),
    {
        if hm_x >= self.cell_w || hm_y >= self.cell_h {
            return;
        }
        let row_wide: u128 = hm_y as u128 + (chunk_idx as u128) * (CELL_SIZE as u128);
        if row_wide >= self.cell_h as u128 {
            return;
        }
        let row = row_wide as usize;
        let ghost g0 = self.grid();
        let mut cells: Vec<i64> = Vec::new();
        self.map.set_and_swap(row, &mut cells);
        assert(cells@ == g0[row as int]);
        let sum: i128 = cells[hm_x] as i128 + value as i128;
        let next: i64 = if sum < 0 {
            0
        } else if sum > i64::MAX as i128 {
            i64::MAX
        } else {
            sum as i64
        };
        cells.set(hm_x, next);
        self.map.set_and_swap(row, &mut cells);
        proof {
            let g1 = g0.update(row as int, g0[row as int].update(hm_x as int, next));
            assert(self.grid() =~= g1);
            assert forall|z: int| 0 <= z < self.cell_h implies #[trigger] self.map@[z]@.len()
                == self.cell_w by {
                if z != row {
                    assert(self.map@[z]@ == g0[z]);
                }
            }
        }
    }

    /// Fills the field from noise samples, one per cell and each over `ONE`:
    /// every height becomes the sample's height plus the halfpipe wall of its
    /// column, scaled by the slope curve of its row.
    pub fn terraform(&mut self, noise: &Vec<Vec<i64>>)
        requires
            old(self).wf(),
            noise@.len() == old(self).cell_h,
            forall|z: int| 0 <= z < old(self).cell_h ==> #[trigger] noise@[z]@.len() == old(self).cell_w,
            forall|z: int, x: int|
                0 <= z < old(self).cell_h && 0 <= x < old(self).cell_w ==> -(ONE as int) <= #[trigger] noise@[z]@[x]
                    <= ONE,
        ensures
            final(self).wf(),
            final(self).w == old(self).w && final(self).h == old(self).h,
            final(self).cell_w == old(self).cell_w && final(self).cell_h == old(self).cell_h,
            forall|z: int, x: int|
                0 <= z < final(self).cell_h && 0 <= x < final(self).cell_w ==> #[trigger] final(self).height(x, z)
                    == terrain_height(
                    noise@[z]@[x] as int,
                    x,
                    z,
                    final(self).cell_w as int,
                    final(self).cell_h as int,
                ),
    {
        let cw = self.cell_w;
        let ch = self.cell_h;
        let mut rows: Vec<Vec<i64>> = Vec::new();
        let mut z: usize = 0;
        while z < ch
            invariant
                z <= ch,
                cw == self.cell_w,
                ch == self.cell_h,
                noise@.len() == ch,
                forall|k: int| 0 <= k < ch ==> #[trigger] noise@[k]@.len() == cw,
                forall|k: int, x: int|
                    0 <= k < ch && 0 <= x < cw ==> -(ONE as int) <= #[trigger] noise@[k]@[x] <= ONE,
                rows@.len() == z,
                forall|k: int| 0 <= k < z ==> #[trigger] rows@[k]@.len() == cw,
                forall|k: int, x: int|
                    0 <= k < z && 0 <= x < cw ==> rows@[k]@[x] >= 0 && rows@[k]@[x] == terrain_height(
                        noise@[k]@[x] as int,
                        x,
                        k,
                        cw as int,
                        ch as int,
                    ),
            decreases ch - z,
        {
            let curve = slope_curve_exec(z, ch);
            let mut row: Vec<i64> = Vec::new();
            let mut x: usize = 0;
            while x < cw
                invariant
                    x <= cw,
                    z < ch,
                    noise@.len() == ch,
                    forall|k: int| 0 <= k < ch ==> #[trigger] noise@[k]@.len() == cw,
                    forall|k: int, i: int|
                        0 <= k < ch && 0 <= i < cw ==> -(ONE as int) <= #[trigger] noise@[k]@[i] <= ONE,
                    curve == slope_curve(z as int, ch as int),
                    curve <= ONE,
                    row@.len() == x,
                    forall|i: int|
                        0 <= i < x ==> row@[i] >= 0 && row@[i] == terrain_height(
                            noise@[z as int]@[i] as int,
                            i,
                            z as int,
                            cw as int,
                            ch as int,
                        ),
                decreases cw - x,
            {
                let n = noise[z][x];
                let base: u64 = if n < 0 {
                    0
                } else {
                    (n as u64) * (MAX_TERRAIN_HEIGHT as u64) / ONE
                };
                let wall = halfpipe_exec(x, cw);
                proof {
                    vstd::arithmetic::div_mod::lemma_div_is_ordered(
                        n * MAX_TERRAIN_HEIGHT,
                        ONE * MAX_TERRAIN_HEIGHT,
                        ONE as int,
                    );
                }
                assert((base + wall) * curve <= 100_000_000_000) by (nonlinear_arith)
                    requires
                        base <= MAX_TERRAIN_HEIGHT,
                        wall <= HALFPIPE_HEIGHT,
                        curve <= ONE,
                ;
                let v: u64 = (base + wall) * curve / ONE;
                row.push(v as i64);
                x = x + 1;
            }
            rows.push(row);
            z = z + 1;
        }
        self.map = rows;
        assert(non_negative(self.grid()));
    }
}

/// Halfpipe wall height of column `x` of `cw`.
fn halfpipe_exec(x: usize, cw: usize) -> (r: u64)
    requires
        x < cw,
    ensures
        r == halfpipe(x as int, cw as int),
        r <= HALFPIPE_HEIGHT,
{
    let a: u128 = if 2 * (x as u128) >= cw as u128 {
        2 * (x as u128) - cw as u128
    } else {
        cw as u128 - 2 * (x as u128)
    };
    assert(a * ONE <= (cw as u128) * ONE) by (nonlinear_arith)
        requires
            a <= cw,
    ;
    let px: u128 = a * (ONE as u128) / (cw as u128);
    proof {
        vstd::arithmetic::div_mod::lemma_div_is_ordered((a * ONE) as int, (cw * ONE) as int, cw as int);
        vstd::arithmetic::div_mod::lemma_div_multiples_vanish(ONE as int, cw as int);
        assert((cw * ONE) as int / cw as int == ONE);
    }
    let px_pow = pow_fixed_exec(px as u64, 12);
    proof {
        vstd::arithmetic::div_mod::lemma_div_is_ordered(
            (HALFPIPE_HEIGHT * px_pow) as int,
            (HALFPIPE_HEIGHT * ONE) as int,
            ONE as int,
        );
    }
    (HALFPIPE_HEIGHT as u64) * px_pow / ONE
}

/// Slope multiplier of row `z` of `ch`.
fn slope_curve_exec(z: usize, ch: usize) -> (r: u64)
    requires
        z < ch,
    ensures
        r == slope_curve(z as int, ch as int),
        r <= ONE,
{
    let a: u128 = if 100 * (z as u128) >= 48 * (ch as u128) {
        100 * (z as u128) - 48 * (ch as u128)
    } else {
        48 * (ch as u128) - 100 * (z as u128)
    };
    assert(a * ONE <= 100 * (ch as u128) * ONE) by (nonlinear_arith)
        requires
            a <= 100 * ch,
    ;
    let t: u128 = a * (ONE as u128) / (48 * (ch as u128));
    if t >= ONE as u128 {
        0
    } else {
        let t4 = pow_fixed_exec(t as u64, 4);
        ONE - t4
    }
}

/// Every cell-aligned coordinate lies on the field.
proof fn lemma_cell_origin_bounds(c: int, extent: int, cells: int)
    requires
        0 <= c < cells,
        extent > 0,
    ensures
        0 <= cell_origin(c, extent, cells) <= extent,
{
    assert(0 <= c * extent + cells - 1 <= cells * extent + cells - 1 - extent) by (nonlinear_arith)
        requires
            0 <= c < cells,
            extent > 0,
    ;
    vstd::arithmetic::div_mod::lemma_div_is_ordered(0, c * extent + cells - 1, cells);
    vstd::arithmetic::div_mod::lemma_div_is_ordered(
        c * extent + cells - 1,
        cells * extent + cells - 1,
        cells,
    );
    assert(cells * extent + cells - 1 == extent * cells + (cells - 1)) by (nonlinear_arith);
    vstd::arithmetic::div_mod::lemma_fundamental_div_mod_converse(
        cells * extent + cells - 1,
        cells,
        extent,
        cells - 1,
    );
}

proof fn lemma_apply_edit_non_negative(g: Seq<Seq<i64>>, cw: int, ch: int, x: int, z: int, delta: int, chunk: int)
    requires
        non_negative(g),
    ensures
        non_negative(apply_edit(g, cw, ch, x, z, delta, chunk)),
{
    let g2 = apply_edit(g, cw, ch, x, z, delta, chunk);
    assert forall|zz: int, xx: int| 0 <= zz < g2.len() && 0 <= xx < g2[zz].len() implies g2[zz][xx] >= 0 by {
        let row = chunk * CELL_SIZE + z;
        if 0 <= x < cw && 0 <= z < ch && 0 <= row < ch && row < g.len() && x < g[row].len() {
            if zz == row && xx == x {
                assert(g2[zz][xx] == clamp_height(g[row][x] + delta));
            } else {
                assert(g2[zz][xx] == g[zz][xx]);
            }
        }
    }
}

proof fn lemma_replay_non_negative(g: Seq<Seq<i64>>, cw: int, ch: int, edits: Seq<(int, int, int, int)>)
    requires
        non_negative(g),
    ensures
        non_negative(replay(g, cw, ch, edits)),
    decreases edits.len(),
{
    if edits.len() > 0 {
        let e = edits.last();
        lemma_replay_non_negative(g, cw, ch, edits.drop_last());
        lemma_apply_edit_non_negative(replay(g, cw, ch, edits.drop_last()), cw, ch, e.0, e.1, e.2, e.3);
    }
}

/// Terrain never goes below zero: starting from a field with no negative
/// height, any sequence of height edits `(x, z, delta, chunk)`, with deltas of
/// either sign, leaves every height at zero or above after every edit.
pub proof fn lemma_heights_stay_non_negative(
    g: Seq<Seq<i64>>,
    cw: int,
    ch: int,
    edits: Seq<(int, int, int, int)>,
)
    requires
        non_negative(g),
    ensures
        forall|k: int| 0 <= k <= edits.len() ==> non_negative(#[trigger] replay(g, cw, ch, edits.take(k))),
{
    assert forall|k: int| 0 <= k <= edits.len() implies non_negative(#[trigger] replay(g, cw, ch, edits.take(k))) by {
        lemma_replay_non_negative(g, cw, ch, edits.take(k));
    }
}

/// Cell mapping: every point of the field `[0, w) x [0, h)` falls in a cell
/// of the grid; a point beyond the far edge, or before the near edge, falls
/// in none; and the smallest point of a cell maps back to that cell when
/// cells are at least one unit wide.
pub proof fn lemma_cell_mapping_round_trip(m: HeightMap, x: int, z: int, eps: int, cx: int)
    requires
        m.w > 0,
        m.h > 0,
        m.cell_w > 0,
        m.cell_h > 0,
        eps > 0,
    ensures
        0 <= x < m.w && 0 <= z < m.h ==> (m.cell_from_pos(x, z) matches Some((a, b)) && a < m.cell_w
            && b < m.cell_h),
        m.cell_from_pos(m.w + eps, 0) is None,
        m.cell_from_pos(-eps, 0) is None,
        0 <= cx < m.cell_w && m.w >= m.cell_w ==> cell_of(
            cell_origin(cx, m.w as int, m.cell_w as int),
            m.w as int,
            m.cell_w as int,
        ) == cx,
{
    let w = m.w as int;
    let h = m.h as int;
    let cw = m.cell_w as int;
    let ch = m.cell_h as int;
    if 0 <= x < w && 0 <= z < h {
        lemma_cell_below(x, w, cw);
        lemma_cell_below(z, h, ch);
    }
    assert((w + eps) * cw >= w * cw) by (nonlinear_arith)
        requires
            eps > 0,
            cw > 0,
    ;
    vstd::arithmetic::div_mod::lemma_div_is_ordered(w * cw, (w + eps) * cw, w);
    vstd::arithmetic::div_mod::lemma_div_multiples_vanish(cw, w);
    assert(w * cw == cw * w) by (nonlinear_arith);
    if 0 <= cx < cw && w >= cw {
        let o = cell_origin(cx, w, cw);
        let n = cx * w + cw - 1;
        vstd::arithmetic::div_mod::lemma_fundamental_div_mod(n, cw);
        let r = n % cw;
        assert(n == cw * o + r);
        assert(cx * w <= o * cw < cx * w + w) by (nonlinear_arith)
            requires
                n == cx * w + cw - 1,
                n == cw * o + r,
                0 <= r < cw,
                cw <= w,
        ;
        vstd::arithmetic::div_mod::lemma_fundamental_div_mod(o * cw, w);
        let q = o * cw / w;
        let rr = (o * cw) % w;
        assert(q == cx) by (nonlinear_arith)
            requires
                o * cw == w * q + rr,
                0 <= rr < w,
                cx * w <= o * cw < cx * w + w,
        ;
    }
}

/// A coordinate inside `[0, extent)` falls in one of the `cells` cells.
proof fn lemma_cell_below(p: int, extent: int, cells: int)
    requires
        0 <= p < extent,
        cells > 0,
    ensures
        0 <= cell_of(p, extent, cells) < cells,
{
    vstd::arithmetic::div_mod::lemma_fundamental_div_mod(p * cells, extent);
    let q = p * cells / extent;
    let r = (p * cells) % extent;
    assert(0 <= q < cells) by (nonlinear_arith)
        requires
            p * cells == extent * q + r,
            0 <= r < extent,
            0 <= p < extent,
            cells > 0,
    ;
}

/// `ch` rows of `cw` heights each.
pub open spec fn grid_shaped(g: Seq<Seq<i64>>, cw: int, ch: int) -> bool {
    g.len() == ch && forall|z: int| 0 <= z < ch ==> #[trigger] g[z].len() == cw
}

/// Edit `e = (x, z, delta, chunk)` lands on column `x` of row `row`.
pub open spec fn edit_hits(e: (int, int, int, int), cw: int, ch: int, x: int, row: int) -> bool {
    &&& 0 <= e.0 < cw
    &&& 0 <= e.1 < ch
    &&& 0 <= row < ch
    &&& e.3 * CELL_SIZE + e.1 == row
    &&& e.0 == x
}

proof fn lemma_apply_edit_cell(g: Seq<Seq<i64>>, cw: int, ch: int, e: (int, int, int, int), x: int, row: int)
    requires
        grid_shaped(g, cw, ch),
        0 <= x < cw,
        0 <= row < ch,
    ensures
        grid_shaped(apply_edit(g, cw, ch, e.0, e.1, e.2, e.3), cw, ch),
        apply_edit(g, cw, ch, e.0, e.1, e.2, e.3)[row][x] == if edit_hits(e, cw, ch, x, row) {
            clamp_height(g[row][x] + e.2)
        } else {
            g[row][x]
        },
{
    let g2 = apply_edit(g, cw, ch, e.0, e.1, e.2, e.3);
    assert forall|z: int| 0 <= z < ch implies #[trigger] g2[z].len() == cw by {
        assert(g[z].len() == cw);
    }
}

/// Replaying edits keeps the grid's shape, and an edit that lands on no
/// cell of interest leaves it alone: a cell hit by exactly one edit ends at
/// its height plus that edit's delta (clamped), a cell hit by none keeps its
/// height.
pub proof fn lemma_replay_cell(g: Seq<Seq<i64>>, cw: int, ch: int, edits: Seq<(int, int, int, int)>, x: int, row: int)
    requires
        grid_shaped(g, cw, ch),
        0 <= x < cw,
        0 <= row < ch,
    ensures
        grid_shaped(replay(g, cw, ch, edits), cw, ch),
        (forall|k: int| 0 <= k < edits.len() ==> !edit_hits(#[trigger] edits[k], cw, ch, x, row)) ==> replay(
            g,
            cw,
            ch,
            edits,
        )[row][x] == g[row][x],
        forall|k: int|
            0 <= k < edits.len() && edit_hits(#[trigger] edits[k], cw, ch, x, row) && (forall|k2: int|
                0 <= k2 < edits.len() && k2 != k ==> !edit_hits(#[trigger] edits[k2], cw, ch, x, row)) ==> replay(
                g,
                cw,
                ch,
                edits,
            )[row][x] == clamp_height(g[row][x] + edits[k].2),
    decreases edits.len(),
{
    if edits.len() > 0 {
        let pre = edits.drop_last();
        let e = edits.last();
        lemma_replay_cell(g, cw, ch, pre, x, row);
        lemma_apply_edit_cell(replay(g, cw, ch, pre), cw, ch, e, x, row);
        assert forall|k: int| 0 <= k < pre.len() implies #[trigger] pre[k] == edits[k] by {}
        assert forall|k: int|
            0 <= k < edits.len() && edit_hits(#[trigger] edits[k], cw, ch, x, row) && (forall|k2: int|
                0 <= k2 < edits.len() && k2 != k ==> !edit_hits(#[trigger] edits[k2], cw, ch, x, row)) implies replay(
                g,
                cw,
                ch,
                edits,
            )[row][x] == clamp_height(g[row][x] + edits[k].2) by {
            if k == edits.len() - 1 {
                assert forall|k2: int| 0 <= k2 < pre.len() implies !edit_hits(#[trigger] pre[k2], cw, ch, x, row) by {
                    assert(pre[k2] == edits[k2]);
                }
            } else {
                assert(pre[k] == edits[k]);
                assert forall|k2: int| 0 <= k2 < pre.len() && k2 != k implies !edit_hits(#[trigger] pre[k2], cw, ch, x, row) by {
                    assert(pre[k2] == edits[k2]);
                }
                assert(!edit_hits(edits[edits.len() - 1], cw, ch, x, row));
            }
        }
        if forall|k: int| 0 <= k < edits.len() ==> !edit_hits(#[trigger] edits[k], cw, ch, x, row) {
            assert forall|k2: int| 0 <= k2 < pre.len() implies !edit_hits(#[trigger] pre[k2], cw, ch, x, row) by {
                assert(pre[k2] == edits[k2]);
            }
            assert(!edit_hits(edits[edits.len() - 1], cw, ch, x, row));
        }
    }
}

/// Edits that only add never lower any height.
pub proof fn lemma_replay_raises(g: Seq<Seq<i64>>, cw: int, ch: int, edits: Seq<(int, int, int, int)>, x: int, row: int)
    requires
        grid_shaped(g, cw, ch),
        0 <= x < cw,
        0 <= row < ch,
        forall|k: int| 0 <= k < edits.len() ==> (#[trigger] edits[k]).2 >= 0,
    ensures
        replay(g, cw, ch, edits)[row][x] >= g[row][x],
    decreases edits.len(),
{
    if edits.len() > 0 {
        let pre = edits.drop_last();
        assert forall|k: int| 0 <= k < pre.len() implies (#[trigger] pre[k]).2 >= 0 by {
            assert(pre[k] == edits[k]);
        }
        lemma_replay_raises(g, cw, ch, pre, x, row);
        lemma_replay_cell(g, cw, ch, pre, x, row);
        lemma_apply_edit_cell(replay(g, cw, ch, pre), cw, ch, edits.last(), x, row);
        assert(edits.last() == edits[edits.len() - 1]);
    }
}

} // verus!
