//! Random placement of things on the sheet: powerups, townsfolk, buildings
//! and trees, each set on the ground under it.
use vstd::prelude::*;
use crate::constants::{CHUNK_SIZE, SHEET_TOTAL};
use crate::fixed::UNIT;
use crate::height_map::HeightMap;
use crate::point::{Point3, clamp_i64, clamp_wide};
use crate::random::{random_below, random_between};
use crate::sheet::HALF_CHUNK;

verus! {

/// Depth along the sheet over which things are scattered: all but the last
/// two chunks.
pub const SCATTER_DEPTH: i64 = SHEET_TOTAL - 2 * CHUNK_SIZE;
pub const NUM_POWERUPS: usize = 30;
pub const NUM_PEOPLE: usize = 200;
pub const NUM_BUILDINGS: usize = 200;
pub const NUM_TREES: usize = 100;
/// Buildings go on ground between these heights.
pub const BUILDING_MIN_HEIGHT: i64 = 100;
pub const BUILDING_MAX_HEIGHT: i64 = 1500;

/// A point `pos` in chunk-centred world coordinates lies over the scatter
/// area at field point `(pos.x + HALF_CHUNK, pos.z + HALF_CHUNK)`, with its
/// height between `lo` and `hi - 1` above the ground there (within `i64`).
pub open spec fn placed_on(map: HeightMap, pos: Point3, lo: int, hi: int) -> bool {
    let x = pos.x + HALF_CHUNK;
    let z = pos.z + HALF_CHUNK;
    &&& 0 <= x < CHUNK_SIZE
    &&& 0 <= z < SCATTER_DEPTH
    &&& clamp_i64(map.ground(x, z) + lo) <= pos.y <= clamp_i64(map.ground(x, z) + hi - 1)
}

/// A powerup: where it floats, its cube size, and the velocity it adds.
#[derive(Clone, Copy, Debug, PartialEq, Eq, Structural)]
pub struct PowerupSpawn {
    pub pos: Point3,
    pub size: i64,
    pub boost: Point3,
}

/// Kinds of townsfolk scenery.
#[derive(Clone, Copy, Debug, PartialEq, Eq, Structural)]
pub enum TownsfolkType {
    Person,
    House,
    Shop,
    Cab,
}

/// Where the townsfolk, the buildings (each with its kind) and the trees go.
#[derive(Debug)]
pub struct TownsfolkPlan {
    pub people: Vec<Point3>,
    pub things: Vec<(TownsfolkType, Point3)>,
    pub trees: Vec<Point3>,
}

/// Ground height under field point `(x, z)`, zero off the field.
fn ground_at(map: &HeightMap, x: i64, z: i64) -> (g: i64)
    requires
        map.wf(),
    ensures
        g == map.ground(x as int, z as int),
{
    match map.pos_to_height(x, z) {
        Some(h) => h,
        None => 0,
    }
}

/// A point over the scatter area at a random place, `lift` in `[lo, hi)`
/// above the ground.
fn scatter_point(map: &HeightMap, lo: i64, hi: i64) -> (p: Point3)
    requires
        map.wf(),
        lo < hi,
    ensures
        placed_on(*map, p, lo as int, hi as int),
{
    let x = random_between(0, CHUNK_SIZE);
    let z = random_between(0, SCATTER_DEPTH);
    let lift = random_between(lo, hi);
    let y = clamp_wide(ground_at(map, x, z) as i128 + lift as i128);
    Point3 { x: x - HALF_CHUNK, y, z: z - HALF_CHUNK }
}

/// Thirty powerups scattered over the sheet, each floating between 20 units
/// below and 35 above the ground, 8 to 22 units across, and pushing the
/// stone forward by 20 units and sideways by up to 100 either way.
pub fn spawn_powerups(map: &HeightMap) -> (ps: Vec<PowerupSpawn>)
    requires
        map.wf(),
    ensures
        ps@.len() == NUM_POWERUPS,
        forall|i: int| 0 <= i < ps@.len() ==> {
            let p = #[trigger] ps@[i];
            &&& placed_on(*map, p.pos, -20 * UNIT, 35 * UNIT)
            &&& 8 * UNIT <= p.size < 22 * UNIT
            &&& -100 * UNIT <= p.boost.x < 100 * UNIT
            &&& p.boost.y == 0
            &&& p.boost.z == 20 * UNIT
        },
{
    let mut ps: Vec<PowerupSpawn> = Vec::new();
    let mut k: usize = 0;
    while k < NUM_POWERUPS
        invariant
            map.wf(),
            k <= NUM_POWERUPS,
            ps@.len() == k,
            forall|i: int| 0 <= i < ps@.len() ==> {
                let p = #[trigger] ps@[i];
                &&& placed_on(*map, p.pos, -20 * UNIT, 35 * UNIT)
                &&& 8 * UNIT <= p.size < 22 * UNIT
                &&& -100 * UNIT <= p.boost.x < 100 * UNIT
                &&& p.boost.y == 0
                &&& p.boost.z == 20 * UNIT
            },
        decreases NUM_POWERUPS - k,
    {
        let pos = scatter_point(map, -20 * UNIT, 35 * UNIT);
        let size = random_between(8 * UNIT, 22 * UNIT);
        let side = random_between(-100 * UNIT, 100 * UNIT);
        ps.push(PowerupSpawn { pos, size, boost: Point3 { x: side, y: 0, z: 20 * UNIT } });
        k = k + 1;
    }
    ps
}

/// Points on the ground of the scatter area.
fn scatter_on_ground(map: &HeightMap, n: usize) -> (v: Vec<Point3>)
    requires
        map.wf(),
    ensures
        v@.len() == n,
        forall|i: int| 0 <= i < n ==> placed_on(*map, #[trigger] v@[i], 0, 1),
{
    let mut v: Vec<Point3> = Vec::new();
    let mut k: usize = 0;
    while k < n
        invariant
            map.wf(),
            k <= n,
            v@.len() == k,
            forall|i: int| 0 <= i < k ==> placed_on(*map, #[trigger] v@[i], 0, 1),
        decreases n - k,
    {
        v.push(scatter_point(map, 0, 1));
        k = k + 1;
    }
    v
}

/// A building stands on field point `(pos.x + HALF_CHUNK, pos.z +
/// HALF_CHUNK)`, one unit above the ground: the corner of the first of 100
/// cells drawn from the grid whose height is between `BUILDING_MIN_HEIGHT`
/// and `BUILDING_MAX_HEIGHT`, or the field's origin when none of them is.
pub open spec fn building_site(map: HeightMap, pos: Point3) -> bool {
    let x = pos.x + HALF_CHUNK;
    let z = pos.z + HALF_CHUNK;
    &&& pos.y == clamp_i64(map.ground(x, z) + UNIT)
    &&& exists|draws: Seq<(usize, usize)>|
        draws.len() == 100 && map.draws_on_grid(draws) && (x as i64, z as i64) == #[trigger] map.first_between(
            draws,
            BUILDING_MIN_HEIGHT as int,
            BUILDING_MAX_HEIGHT as int,
        )
}

/// Townsfolk scenery for the sheet: 200 people and 100 trees on the ground
/// at random places, and 200 shops, houses and cabs on low ground.
pub fn spawn_townsfolk(map: &HeightMap) -> (plan: TownsfolkPlan)
    requires
        map.wf(),
        map.cell_w > 0,
        map.cell_h > 0,
    ensures
        plan.people@.len() == NUM_PEOPLE,
        forall|i: int| 0 <= i < NUM_PEOPLE ==> placed_on(*map, #[trigger] plan.people@[i], 0, 1),
        plan.things@.len() == NUM_BUILDINGS,
        forall|i: int| 0 <= i < NUM_BUILDINGS ==> (#[trigger] plan.things@[i]).0 != TownsfolkType::Person
            && building_site(*map, plan.things@[i].1),
        plan.trees@.len() == NUM_TREES,
        forall|i: int| 0 <= i < NUM_TREES ==> placed_on(*map, #[trigger] plan.trees@[i], 0, 1),
{
    let people = scatter_on_ground(map, NUM_PEOPLE);
    let mut things: Vec<(TownsfolkType, Point3)> = Vec::new();
    let mut k: usize = 0;
    while k < NUM_BUILDINGS
        invariant
            map.wf(),
            map.cell_w > 0,
            map.cell_h > 0,
            k <= NUM_BUILDINGS,
            things@.len() == k,
            forall|i: int| 0 <= i < k ==> (#[trigger] things@[i]).0 != TownsfolkType::Person && building_site(
                *map,
                things@[i].1,
            ),
        decreases NUM_BUILDINGS - k,
    {
        let (x, z) = map.get_random_pos_between_height(BUILDING_MIN_HEIGHT, BUILDING_MAX_HEIGHT);
        let y = clamp_wide(ground_at(map, x, z) as i128 + UNIT as i128);
        let kind = match random_below(3) {
            0 => TownsfolkType::Shop,
            1 => TownsfolkType::House,
            _ => TownsfolkType::Cab,
        };
        let pos = Point3 { x: x - HALF_CHUNK, y, z: z - HALF_CHUNK };
        assert(pos.x + HALF_CHUNK == x && pos.z + HALF_CHUNK == z);
        things.push((kind, pos));
        k = k + 1;
    }
    let trees = scatter_on_ground(map, NUM_TREES);
    TownsfolkPlan { people, things, trees }
}

} // verus!
