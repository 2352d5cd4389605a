//! Terrain chunks: the part of the height field each one shows, and the mesh
//! heights and colour bands kept in step with it.
use vstd::prelude::*;
use crate::constants::{CELL_SIZE, CHUNK_SIZE, NUM_CHUNKS};
use crate::fixed::UNIT;
use crate::height_map::HeightMap;

verus! {

/// Colour band of a terrain vertex, from the highest ground to the lowest.
#[derive(Clone, Copy, Debug, PartialEq, Eq, Structural)]
pub enum HeightBand {
    /// Near white: peaks.
    Snow,
    /// Brown: rock.
    Rock,
    /// Bright green: high meadow.
    Meadow,
    /// Green: grass.
    Grass,
    /// Dark green: lowland.
    Lowland,
}

/// Band of a height: above 40 units snow, above 18 rock, above 7 meadow,
/// above 1 grass, lowland below.
pub open spec fn height_band(h: int) -> HeightBand {
    if h > 40 * UNIT {
        HeightBand::Snow
    } else if h > 18 * UNIT {
        HeightBand::Rock
    } else if h > 7 * UNIT {
        HeightBand::Meadow
    } else if h > UNIT {
        HeightBand::Grass
    } else {
        HeightBand::Lowland
    }
}

/// How rock-like a band is: higher ground has a higher rank.
pub open spec fn band_rank(b: HeightBand) -> int {
    match b {
        HeightBand::Snow => 4,
        HeightBand::Rock => 3,
        HeightBand::Meadow => 2,
        HeightBand::Grass => 1,
        HeightBand::Lowland => 0,
    }
}

/// Higher ground never takes a greener band than lower ground.
pub proof fn lemma_band_order(h1: int, h2: int)
    requires
        h1 <= h2,
    ensures
        band_rank(height_band(h1)) <= band_rank(height_band(h2)),
{
}

fn band_of(h: i64) -> (b: HeightBand)
    ensures
        b == height_band(h as int),
{
    if h > 40 * UNIT {
        HeightBand::Snow
    } else if h > 18 * UNIT {
        HeightBand::Rock
    } else if h > 7 * UNIT {
        HeightBand::Meadow
    } else if h > UNIT {
        HeightBand::Grass
    } else {
        HeightBand::Lowland
    }
}

/// The colour band of each vertex height.
pub fn vert_height_to_color(cols: &Vec<i64>) -> (r: Vec<HeightBand>)
    ensures
        r@.len() == cols@.len(),
        forall|k: int| 0 <= k < cols@.len() ==> r@[k] == height_band(cols@[k] as int),
{
    let mut r: Vec<HeightBand> = Vec::new();
    let mut k: usize = 0;
    while k < cols.len()
        invariant
            k <= cols@.len(),
            r@.len() == k,
            forall|i: int| 0 <= i < k ==> r@[i] == height_band(cols@[i] as int),
        decreases cols@.len() - k,
    {
        r.push(band_of(cols[k]));
        k = k + 1;
    }
    r
}

/// Vertices of one chunk mesh: `CELL_SIZE` rows of `CELL_SIZE`.
pub open spec fn mesh_len() -> int {
    CELL_SIZE * CELL_SIZE
}

/// The renderable and collidable surface of one chunk: a height and a colour
/// band per vertex, and a counter that goes up each time the collider must be
/// rebuilt from the mesh.
#[derive(Debug)]
pub struct ChunkMesh {
    pub heights: Vec<i64>,
    pub bands: Vec<HeightBand>,
    pub collider_generation: u64,
}

impl ChunkMesh {
    /// The mesh shows the `CELL_SIZE` square of `map` at columns from `xo`
    /// and rows from `yo`, each vertex coloured by its height.
    pub open spec fn synced(&self, map: &HeightMap, xo: int, yo: int) -> bool {
        &&& self.heights@.len() == mesh_len()
        &&& self.bands@.len() == mesh_len()
        &&& forall|y: int, x: int|
            0 <= y < CELL_SIZE && 0 <= x < CELL_SIZE ==> #[trigger] self.heights@[y * CELL_SIZE + x]
                == map.height(xo + x, yo + y)
        &&& forall|k: int| 0 <= k < mesh_len() ==> #[trigger] self.bands@[k] == height_band(self.heights@[k] as int)
    }
}

proof fn lemma_vertex_index(y: int, x: int)
    requires
        0 <= y < CELL_SIZE,
        0 <= x < CELL_SIZE,
    ensures
        0 <= y * CELL_SIZE + x < mesh_len(),
        (y * CELL_SIZE + x) / (CELL_SIZE as int) == y,
        (y * CELL_SIZE + x) % (CELL_SIZE as int) == x,
{
    assert(0 <= y * CELL_SIZE + x < mesh_len()) by (nonlinear_arith)
        requires
            0 <= y < CELL_SIZE,
            0 <= x < CELL_SIZE,
    ;
    vstd::arithmetic::div_mod::lemma_fundamental_div_mod_converse(y * CELL_SIZE + x, CELL_SIZE as int, y, x);
}

/// Copies the `CELL_SIZE` square of the height field at columns from `xo` and
/// rows from `yo` into the mesh, recolours every vertex by its height, and
/// marks the collider for rebuilding.
pub fn sync_chunk_with_heightmap(mesh: &mut ChunkMesh, map: &HeightMap, xo: usize, yo: usize)
    requires
        map.wf(),
        xo + CELL_SIZE <= map.cell_w,
        yo + CELL_SIZE <= map.cell_h,
    ensures
        final(mesh).synced(map, xo as int, yo as int),
        final(mesh).collider_generation == old(mesh).collider_generation.wrapping_add(1),
{
    let mut heights: Vec<i64> = Vec::new();
    let mut y: usize = 0;
    while y < CELL_SIZE
        invariant
            map.wf(),
            xo + CELL_SIZE <= map.cell_w,
            yo + CELL_SIZE <= map.cell_h,
            y <= CELL_SIZE,
            heights@.len() == y * CELL_SIZE,
            forall|k: int| 0 <= k < heights@.len() ==> #[trigger] heights@[k] == map.height(
                xo + k % (CELL_SIZE as int),
                yo + k / (CELL_SIZE as int),
            ),
        decreases CELL_SIZE - y,
    {
        let mut x: usize = 0;
        while x < CELL_SIZE
            invariant
                map.wf(),
                xo + CELL_SIZE <= map.cell_w,
                yo + CELL_SIZE <= map.cell_h,
                y < CELL_SIZE,
                x <= CELL_SIZE,
                heights@.len() == y * CELL_SIZE + x,
                forall|k: int| 0 <= k < heights@.len() ==> #[trigger] heights@[k] == map.height(
                    xo + k % (CELL_SIZE as int),
                    yo + k / (CELL_SIZE as int),
                ),
            decreases CELL_SIZE - x,
        {
            proof {
                lemma_vertex_index(y as int, x as int);
            }
            assert(map.map@[(yo + y) as int]@.len() == map.cell_w);
            heights.push(map.map[yo + y][xo + x]);
            x = x + 1;
        }
        y = y + 1;
    }
    let bands = vert_height_to_color(&heights);
    mesh.heights = heights;
    mesh.bands = bands;
    mesh.collider_generation = mesh.collider_generation.wrapping_add(1);
    proof {
        assert forall|yy: int, xx: int| 0 <= yy < CELL_SIZE && 0 <= xx < CELL_SIZE implies #[trigger] mesh.heights@[yy
            * CELL_SIZE + xx] == map.height(xo + xx, yo + yy) by {
            lemma_vertex_index(yy, xx);
        }
    }
}

/// One terrain chunk: the cell offsets of its square in the height field, its
/// world origin, whether pointer sculpting reaches it (the target chunk at
/// the end of the sheet does not), and its mesh.
#[derive(Debug)]
pub struct Chunk {
    /// Chunk index along the sheet: its band of height-field rows.
    pub band: usize,
    pub x_offset: usize,
    pub z_offset: usize,
    pub origin_x: i64,
    pub origin_z: i64,
    pub sheet: bool,
    pub mesh: ChunkMesh,
}

impl Chunk {
    /// Offsets and origin agree with the chunk's place on the sheet, and its
    /// square lies inside `map`.
    pub open spec fn placed(&self, map: &HeightMap) -> bool {
        &&& self.x_offset + CELL_SIZE <= map.cell_w
        &&& self.z_offset + CELL_SIZE <= map.cell_h
        &&& self.z_offset == self.band * CELL_SIZE
        &&& self.origin_z == self.band * CHUNK_SIZE
        &&& self.origin_x == (self.x_offset / CELL_SIZE) as int * CHUNK_SIZE
        &&& self.sheet == (self.band != NUM_CHUNKS - 1)
    }
}

/// A request to create the chunk at grid position `(pos_x, pos_y)` of the sheet.
#[derive(Clone, Copy, Debug, PartialEq, Eq, Structural)]
pub struct SpawnChunk {
    pub pos_x: u32,
    pub pos_y: u32,
}

impl SpawnChunk {
    /// The chunk at this position, its mesh built from `map`: its square
    /// starts `CELL_SIZE` cells per step along each axis, its origin
    /// `CHUNK_SIZE` per step, and only the last chunk of the sheet is left out
    /// of sculpting.
    pub fn apply(&self, map: &HeightMap) -> (c: Chunk)
        requires
            map.wf(),
            (self.pos_x + 1) * CELL_SIZE <= map.cell_w,
            (self.pos_y + 1) * CELL_SIZE <= map.cell_h,
        ensures
            c.placed(map),
            c.band == self.pos_y,
            c.x_offset == self.pos_x * CELL_SIZE,
            c.z_offset == self.pos_y * CELL_SIZE,
            c.origin_x == self.pos_x * CHUNK_SIZE,
            c.origin_z == self.pos_y * CHUNK_SIZE,
            c.sheet == (self.pos_y != NUM_CHUNKS - 1),
            c.mesh.synced(map, c.x_offset as int, c.z_offset as int),
    {
        let xo: usize = self.pos_x as usize * CELL_SIZE;
        let yo: usize = self.pos_y as usize * CELL_SIZE;
        let mut mesh = ChunkMesh { heights: Vec::new(), bands: Vec::new(), collider_generation: 0 };
        sync_chunk_with_heightmap(&mut mesh, map, xo, yo);
        proof {
            vstd::arithmetic::div_mod::lemma_div_multiples_vanish(self.pos_x as int, CELL_SIZE as int);
            assert(xo == CELL_SIZE * self.pos_x);
        }
        Chunk {
            band: self.pos_y as usize,
            x_offset: xo,
            z_offset: yo,
            origin_x: self.pos_x as i64 * CHUNK_SIZE,
            origin_z: self.pos_y as i64 * CHUNK_SIZE,
            sheet: self.pos_y as usize != NUM_CHUNKS - 1,
            mesh,
        }
    }
}

} // verus!
