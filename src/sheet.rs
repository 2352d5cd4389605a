//! The sheet: the shared height field with the chunks that show it, and the
//! brush edit that reshapes it under the pointer.
use vstd::prelude::*;
use crate::brush::{
    get_neighbours_radius, brush_weight, neighbours, falloff, closeness, dist_sq, ceil_div,
    lemma_neighbour_within_radius, lemma_neighbour_unique, lemma_falloff_monotone,
};
use crate::fixed::{sqrt_ceil, sqrt_floor, lemma_sqrt_floor_unique};
use crate::chunk::{Chunk, ChunkMesh, SpawnChunk, sync_chunk_with_heightmap};
use crate::constants::{
    CELL_SIZE, CHUNK_SIZE, NUM_CHUNKS, SCULPT_RADIUS, SCULPT_RAISE_STEP, SCULPT_LOWER_STEP,
};
use crate::fixed::ONE;
use crate::height_map::{
    HeightMap, replay, terrain_height, clamp_height, non_negative, grid_shaped, edit_hits, lemma_replay_cell,
    lemma_replay_raises,
};
use crate::point::Point3;

verus! {

/// Half the side of a chunk: chunk origins sit at their centres.
pub const HALF_CHUNK: i64 = 200_000;

/// A sculpt request from the pointer: raise (`up`) or lower the ground at
/// world point `point`, hit on mesh triangle `idx`.
#[derive(Clone, Copy, Debug, PartialEq, Eq, Structural)]
pub struct TerrainSculpt {
    pub up: bool,
    pub idx: usize,
    pub point: Point3,
}

/// Height change at a cell of brush weight `weight` (over `ONE`).
pub open spec fn sculpt_delta(raise: bool, weight: int) -> int {
    if raise {
        SCULPT_RAISE_STEP * weight / (ONE as int)
    } else {
        -(SCULPT_LOWER_STEP * weight / (ONE as int))
    }
}

/// The height edits `(x, z, delta, band)` of one brush stroke over the cells `ns`.
pub open spec fn sculpt_edits(ns: Seq<(usize, usize, u64)>, raise: bool, band: int) -> Seq<
    (int, int, int, int),
> {
    Seq::new(
        ns.len(),
        |k: int| (ns[k].0 as int, ns[k].1 as int, sculpt_delta(raise, falloff(ns[k].2 as int)), band),
    )
}

/// Height change at a cell of brush weight `weight`.
pub fn sculpt_amount(raise: bool, weight: u64) -> (d: i64)
    requires
        weight <= ONE,
    ensures
        d == sculpt_delta(raise, weight as int),
{
    proof {
        vstd::arithmetic::div_mod::lemma_div_is_ordered(400 * weight, 400 * ONE, ONE as int);
    }
    if raise {
        (SCULPT_RAISE_STEP as u64 * weight / ONE) as i64
    } else {
        -((SCULPT_LOWER_STEP as u64 * weight / ONE) as i64)
    }
}

/// The terrain of one round: the height field and the chunks showing it.
#[derive(Debug)]
pub struct Sheet {
    pub height_map: HeightMap,
    pub chunks: Vec<Chunk>,
}

impl Sheet {
    /// The field spans one chunk across and `NUM_CHUNKS` along, at
    /// `CELL_SIZE` cells per chunk side, and every chunk sits inside it.
    pub open spec fn wf(&self) -> bool {
        &&& self.height_map.wf()
        &&& self.height_map.w == CHUNK_SIZE
        &&& self.height_map.h == CHUNK_SIZE * NUM_CHUNKS
        &&& self.height_map.cell_w == CELL_SIZE
        &&& self.height_map.cell_h == CELL_SIZE * NUM_CHUNKS
        &&& forall|i: int| 0 <= i < self.chunks@.len() ==> #[trigger] self.chunks@[i].placed(&self.height_map)
    }

    /// The cell under world point `hit`, in the rows of chunk `c`.
    pub open spec fn local_cell(&self, c: int, hit: Point3) -> Option<(usize, usize)> {
        let ch = self.chunks@[c];
        self.height_map.cell_from_pos(hit.x - ch.origin_x + HALF_CHUNK, hit.z - ch.origin_z + HALF_CHUNK)
    }

    /// `post` is `pre` after the brush stroke `ev` on chunk `chunk`, and
    /// `done` says whether the stroke applied: it does exactly when the chunk
    /// exists, is sculptable, and the point lies over the field.
    pub open spec fn sculpted(pre: Sheet, post: Sheet, chunk: usize, ev: TerrainSculpt, done: bool) -> bool {
        &&& post.wf()
        &&& done == (chunk < pre.chunks@.len() && pre.chunks@[chunk as int].sheet && pre.local_cell(
            chunk as int,
            ev.point,
        ) is Some)
        &&& !done ==> post == pre
        &&& done ==> ({
            let (cx, cz) = pre.local_cell(chunk as int, ev.point)->Some_0;
            let c = pre.chunks@[chunk as int];
            &&& post.height_map.grid() == replay(
                pre.height_map.grid(),
                CELL_SIZE as int,
                (CELL_SIZE * NUM_CHUNKS) as int,
                sculpt_edits(neighbours(cx as int, cz as int, SCULPT_RADIUS as int), ev.up, c.band as int),
            )
            &&& post.chunks@.len() == pre.chunks@.len()
            &&& forall|i: int| 0 <= i < pre.chunks@.len() && i != chunk ==> #[trigger] post.chunks@[i] == pre.chunks@[i]
            &&& post.chunks@[chunk as int].mesh.synced(&post.height_map, c.x_offset as int, c.z_offset as int)
            &&& post.chunks@[chunk as int].mesh.collider_generation == c.mesh.collider_generation.wrapping_add(1)
            &&& post.chunks@[chunk as int].band == c.band
            &&& post.chunks@[chunk as int].origin_x == c.origin_x
            &&& post.chunks@[chunk as int].origin_z == c.origin_z
            &&& post.chunks@[chunk as int].sheet == c.sheet
        })
    }

    /// A fresh sheet generated from one noise sample per cell (over `ONE`),
    /// with a chunk for every band but the last, which holds the target.
    pub fn setup(noise: &Vec<Vec<i64>>) -> (s: Sheet)
        requires
            noise@.len() == CELL_SIZE * NUM_CHUNKS,
            forall|z: int| 0 <= z < CELL_SIZE * NUM_CHUNKS ==> #[trigger] noise@[z]@.len() == CELL_SIZE,
            forall|z: int, x: int|
                0 <= z < CELL_SIZE * NUM_CHUNKS && 0 <= x < CELL_SIZE ==> -(ONE as int) <= #[trigger] noise@[z]@[x]
                    <= ONE,
        ensures
            s.wf(),
            forall|z: int, x: int|
                0 <= z < CELL_SIZE * NUM_CHUNKS && 0 <= x < CELL_SIZE ==> #[trigger] s.height_map.height(x, z)
                    == terrain_height(noise@[z]@[x] as int, x, z, CELL_SIZE as int, (CELL_SIZE * NUM_CHUNKS) as int),
            s.chunks@.len() == NUM_CHUNKS - 1,
            forall|i: int| 0 <= i < NUM_CHUNKS - 1 ==> (#[trigger] s.chunks@[i]).band == i && s.chunks@[i].x_offset == 0
                && s.chunks@[i].mesh.synced(&s.height_map, 0, i * CELL_SIZE),
    {
        let mut map = HeightMap::new(CHUNK_SIZE, CHUNK_SIZE * (NUM_CHUNKS as i64), CELL_SIZE, CELL_SIZE * NUM_CHUNKS);
        map.terraform(noise);
        let mut chunks: Vec<Chunk> = Vec::new();
        let mut i: u32 = 0;
        while i < (NUM_CHUNKS - 1) as u32
            invariant
                map.wf(),
                map.w == CHUNK_SIZE,
                map.h == CHUNK_SIZE * NUM_CHUNKS,
                map.cell_w == CELL_SIZE,
                map.cell_h == CELL_SIZE * NUM_CHUNKS,
                i <= NUM_CHUNKS - 1,
                chunks@.len() == i,
                forall|k: int| 0 <= k < i ==> (#[trigger] chunks@[k]).placed(&map) && chunks@[k].band == k
                    && chunks@[k].x_offset == 0 && chunks@[k].mesh.synced(&map, 0, k * CELL_SIZE),
            decreases NUM_CHUNKS - 1 - i,
        {
            let c = SpawnChunk { pos_x: 0, pos_y: i }.apply(&map);
            chunks.push(c);
            i = i + 1;
        }
        Sheet { height_map: map, chunks }
    }

    /// Applies one brush stroke at world point `ev.point` on chunk `chunk`:
    /// every cell within `SCULPT_RADIUS` of the cell under the point, in the
    /// chunk's band of rows, is raised (or lowered) by the brush weight of its
    /// distance; then that chunk's mesh is resynced and its collider marked
    /// for rebuilding. Nothing happens when the chunk does not exist, is not
    /// sculptable, or the point lies off the field; the result says whether
    /// the stroke was applied.
    pub fn terrain_sculpt(&mut self, chunk: usize, ev: TerrainSculpt) -> (done: bool)
        requires
            old(self).wf(),
            ev.point.in_world(),
        ensures
            Sheet::sculpted(*old(self), *final(self), chunk, ev, done),
    {
        if chunk >= self.chunks.len() || !self.chunks[chunk].sheet {
            return false;
        }
        let origin_x = self.chunks[chunk].origin_x;
        let origin_z = self.chunks[chunk].origin_z;
        let band = self.chunks[chunk].band;
        assert(self.chunks@[chunk as int].placed(&self.height_map));
        assert(band <= NUM_CHUNKS) by (nonlinear_arith)
            requires
                band * CELL_SIZE + CELL_SIZE <= CELL_SIZE * NUM_CHUNKS,
        ;
        assert(self.chunks@[chunk as int].x_offset == 0);
        let lx: i64 = ev.point.x - origin_x + HALF_CHUNK;
        let lz: i64 = ev.point.z - origin_z + HALF_CHUNK;
        let cell = self.height_map.get_cell_from_pos(lx, lz);
        let (cx, cz) = match cell {
            Some(c) => c,
            None => {
                return false;
            },
        };
        let ghost g0 = self.height_map.grid();
        let ghost old_chunks = self.chunks@;
        let ns = get_neighbours_radius(cx, cz, SCULPT_RADIUS);
        let ghost edits = sculpt_edits(ns@, ev.up, band as int);
        let mut k: usize = 0;
        while k < ns.len()
            invariant
                self.height_map.wf(),
                self.height_map.w == CHUNK_SIZE,
                self.height_map.h == CHUNK_SIZE * NUM_CHUNKS,
                self.height_map.cell_w == CELL_SIZE,
                self.height_map.cell_h == CELL_SIZE * NUM_CHUNKS,
                self.chunks@ == old_chunks,
                ns@ == neighbours(cx as int, cz as int, SCULPT_RADIUS as int),
                edits == sculpt_edits(ns@, ev.up, band as int),
                k <= ns@.len(),
                self.height_map.grid() == replay(
                    g0,
                    CELL_SIZE as int,
                    (CELL_SIZE * NUM_CHUNKS) as int,
                    edits.take(k as int),
                ),
            decreases ns@.len() - k,
        {
            let n = ns[k];
            proof {
                lemma_neighbour_within_radius(cx, cz, SCULPT_RADIUS, k as int);
            }
            let weight = brush_weight(n.2);
            let delta = sculpt_amount(ev.up, weight);
            self.height_map.add_height(n.0, n.1, delta, band);
            proof {
                assert(edits.take(k as int + 1).drop_last() =~= edits.take(k as int));
            }
            k = k + 1;
        }
        assert(edits.take(ns@.len() as int) =~= edits);
        let mut c = Chunk {
            band: 0,
            x_offset: 0,
            z_offset: 0,
            origin_x: 0,
            origin_z: 0,
            sheet: false,
            mesh: ChunkMesh { heights: Vec::new(), bands: Vec::new(), collider_generation: 0 },
        };
        self.chunks.set_and_swap(chunk, &mut c);
        assert(c == old_chunks[chunk as int]);
        sync_chunk_with_heightmap(&mut c.mesh, &self.height_map, c.x_offset, c.z_offset);
        self.chunks.set_and_swap(chunk, &mut c);
        proof {
            assert forall|i: int| 0 <= i < self.chunks@.len() implies #[trigger] self.chunks@[i].placed(
                &self.height_map,
            ) by {
                assert(old_chunks[i].placed(&old(self).height_map));
            }
        }
        true
    }
}

/// The brush edit of scan entry `k` lands on cell `(i, row)` exactly when
/// the entry is that cell of the stroke's band.
proof fn lemma_stroke_hits(cx: usize, cz: usize, band: int, k: int, i: int, row: int)
    requires
        0 <= k < neighbours(cx as int, cz as int, SCULPT_RADIUS as int).len(),
        band >= 0,
        0 <= row < CELL_SIZE * NUM_CHUNKS,
        0 <= i < CELL_SIZE,
    ensures
        ({
            let ns = neighbours(cx as int, cz as int, SCULPT_RADIUS as int);
            let e = sculpt_edits(ns, true, band)[k];
            &&& e.2 == sculpt_delta(true, falloff(ns[k].2 as int))
            &&& e.2 >= 0
            &&& edit_hits(e, CELL_SIZE as int, (CELL_SIZE * NUM_CHUNKS) as int, i, row) <==> (ns[k].0 == i
                && band * CELL_SIZE + ns[k].1 == row)
        }),
{
    let ns = neighbours(cx as int, cz as int, SCULPT_RADIUS as int);
    lemma_neighbour_within_radius(cx, cz, SCULPT_RADIUS, k);
    lemma_falloff_monotone(0, ns[k].2 as int);
    assert(1_000_000int * 1_000_000 * 1_000_000 == 1_000_000_000_000_000_000int) by (nonlinear_arith);
    assert(falloff(0) == 0);
}

/// The change a raising stroke makes at the scanned cell `(cx + di, cz + dj)`.
proof fn lemma_stroke_cell(g: Seq<Seq<i64>>, cx: usize, cz: usize, band: int, di: int, dj: int)
    requires
        grid_shaped(g, CELL_SIZE as int, (CELL_SIZE * NUM_CHUNKS) as int),
        cx + 4 < CELL_SIZE,
        band >= 0,
        band * CELL_SIZE + cz + 4 < CELL_SIZE * NUM_CHUNKS,
        0 <= di <= 4,
        0 <= dj <= 4,
    ensures
        ({
            let ns = neighbours(cx as int, cz as int, SCULPT_RADIUS as int);
            let post = replay(g, CELL_SIZE as int, (CELL_SIZE * NUM_CHUNKS) as int, sculpt_edits(ns, true, band));
            let row = band * CELL_SIZE + cz + dj;
            post[row][cx + di] == clamp_height(
                g[row][cx + di] + sculpt_delta(true, falloff(closeness(di * di + dj * dj, 4))),
            )
        }),
{
    let cw = CELL_SIZE as int;
    let ch = (CELL_SIZE * NUM_CHUNKS) as int;
    let ns = neighbours(cx as int, cz as int, SCULPT_RADIUS as int);
    let edits = sculpt_edits(ns, true, band);
    let i = cx + di;
    let j = cz + dj;
    let row = band * CELL_SIZE + j;
    lemma_neighbour_unique(cx, cz, SCULPT_RADIUS, i, j);
    let k = (j - crate::brush::span_lo(cz as int, 4)) * crate::brush::span_len(cx as int, 4) + (i
        - crate::brush::span_lo(cx as int, 4));
    assert forall|k2: int| 0 <= k2 < edits.len() && k2 != k implies !edit_hits(#[trigger] edits[k2], cw, ch, i, row) by {
        lemma_stroke_hits(cx, cz, band, k2, i, row);
    }
    lemma_stroke_hits(cx, cz, band, k, i, row);
    lemma_neighbour_within_radius(cx, cz, SCULPT_RADIUS, k);
    assert(dist_sq(i, j, cx as int, cz as int) == di * di + dj * dj);
    lemma_replay_cell(g, cw, ch, edits, i, row);
}

/// A raising stroke centred on cell `(cx, cz)` of chunk band `band` never
/// lowers any height; it lifts the centre by exactly `SCULPT_RAISE_STEP`
/// (0.4 units), the cell four columns over by 258 thousandths (less than the
/// centre, more than nothing), and leaves the corner four cells over on both
/// axes as it was (all clamped to `i64`).
pub proof fn lemma_raise_stroke(g: Seq<Seq<i64>>, cx: usize, cz: usize, band: int)
    requires
        grid_shaped(g, CELL_SIZE as int, (CELL_SIZE * NUM_CHUNKS) as int),
        non_negative(g),
        cx + 4 < CELL_SIZE,
        band >= 0,
        band * CELL_SIZE + cz + 4 < CELL_SIZE * NUM_CHUNKS,
    ensures
        ({
            let post = replay(
                g,
                CELL_SIZE as int,
                (CELL_SIZE * NUM_CHUNKS) as int,
                sculpt_edits(neighbours(cx as int, cz as int, SCULPT_RADIUS as int), true, band),
            );
            let row = band * CELL_SIZE + cz;
            &&& forall|z: int, x: int|
                0 <= z < CELL_SIZE * NUM_CHUNKS && 0 <= x < CELL_SIZE ==> #[trigger] post[z][x] >= g[z][x]
            &&& post[row][cx as int] == clamp_height(g[row][cx as int] + SCULPT_RAISE_STEP)
            &&& post[row][cx + 4] == clamp_height(g[row][cx + 4] + 258)
            &&& post[row + 4][cx + 4] == g[row + 4][cx + 4]
        }),
{
    let cw = CELL_SIZE as int;
    let ch = (CELL_SIZE * NUM_CHUNKS) as int;
    let ns = neighbours(cx as int, cz as int, SCULPT_RADIUS as int);
    let edits = sculpt_edits(ns, true, band);
    let post = replay(g, cw, ch, edits);
    assert forall|k: int| 0 <= k < edits.len() implies (#[trigger] edits[k]).2 >= 0 by {
        lemma_stroke_hits(cx, cz, band, k, 0, 0);
    }
    assert forall|z: int, x: int| 0 <= z < ch && 0 <= x < cw implies #[trigger] post[z][x] >= g[z][x] by {
        lemma_replay_raises(g, cw, ch, edits, x, z);
    }
    // Centre: closeness one, full weight.
    lemma_stroke_cell(g, cx, cz, band, 0, 0);
    assert(ceil_div(ONE * ONE * 0, 32int) == 0);
    crate::fixed::lemma_sqrt_ceil_least(0, 0);
    assert(closeness(0, 4) == ONE);
    assert(falloff(ONE as int) == ONE);
    assert(sculpt_delta(true, ONE as int) == SCULPT_RAISE_STEP);
    assert(post[band * CELL_SIZE + cz][cx as int] == clamp_height(g[band * CELL_SIZE + cz][cx as int] + SCULPT_RAISE_STEP));
    // Four columns over: d / dmax = 1 / sqrt 2.
    lemma_stroke_cell(g, cx, cz, band, 4, 0);
    assert(ceil_div(ONE * ONE * 16, 32int) == 500_000_000_000);
    assert(707_106 * 707_106 <= 500_000_000_000int < 707_107 * 707_107) by (nonlinear_arith);
    lemma_sqrt_floor_unique(500_000_000_000, 707_106);
    assert(sqrt_ceil(500_000_000_000) == 707_107);
    assert(closeness(16, 4) == 292_893);
    assert(707_107 * 707_107 * 707_107 == 353_553_718_813_554_043int) by (nonlinear_arith);
    assert(falloff(292_893) == 646_447);
    assert(sculpt_delta(true, 646_447) == 258);
    assert(post[band * CELL_SIZE + cz][cx + 4] == clamp_height(g[band * CELL_SIZE + cz][cx + 4] + 258));
    // The corner: closeness zero.
    lemma_stroke_cell(g, cx, cz, band, 4, 4);
    assert(ceil_div(ONE * ONE * 32, 32int) == 1_000_000_000_000);
    assert(1_000_000 * 1_000_000 <= 1_000_000_000_000int < 1_000_001 * 1_000_001) by (nonlinear_arith);
    lemma_sqrt_floor_unique(1_000_000_000_000, 1_000_000);
    assert(sqrt_ceil(1_000_000_000_000) == 1_000_000);
    assert(closeness(32, 4) == 0);
    assert(1_000_000int * 1_000_000 * 1_000_000 == 1_000_000_000_000_000_000int) by (nonlinear_arith);
    assert(falloff(0) == 0);
    assert(sculpt_delta(true, 0) == 0);
    assert(4 * 4 + 4 * 4 == 32int) by (nonlinear_arith);
    assert(sculpt_delta(true, falloff(closeness(32int, 4int))) == 0);
    let gc = g[band * CELL_SIZE + cz + 4][cx + 4];
    assert(gc >= 0);
    assert(clamp_height(gc + 0) == gc);
    assert(g[band * CELL_SIZE + cz + 4].len() == cw);
    assert(post[band * CELL_SIZE + cz + 4][cx + 4] == g[band * CELL_SIZE + cz + 4][cx + 4]);
}

} // verus!
