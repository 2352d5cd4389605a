use stone_sheet::chunk::SpawnChunk;
use stone_sheet::constants::{CELL_SIZE, CHUNK_SIZE, NUM_CHUNKS};
use stone_sheet::fixed::UNIT;
use stone_sheet::height_map::HeightMap;
use stone_sheet::scatter::{spawn_powerups, spawn_townsfolk, TownsfolkType, SCATTER_DEPTH};

fn sheet_map() -> HeightMap {
    let mut m = HeightMap::new(CHUNK_SIZE, CHUNK_SIZE * NUM_CHUNKS as i64, CELL_SIZE, CELL_SIZE * NUM_CHUNKS);
    for z in 0..CELL_SIZE * NUM_CHUNKS {
        for x in 0..CELL_SIZE {
            m.add_height(x, z, ((x * 37 + z * 11) % 3000) as i64, 0);
        }
    }
    m
}

#[test]
fn powerups_float_near_the_ground() {
    let m = sheet_map();
    let ps = spawn_powerups(&m);
    assert_eq!(ps.len(), 30);
    for p in &ps {
        let x = p.pos.x + 200 * UNIT;
        let z = p.pos.z + 200 * UNIT;
        assert!(0 <= x && x < CHUNK_SIZE && 0 <= z && z < SCATTER_DEPTH);
        let ground = m.pos_to_height(x, z).unwrap_or(0);
        assert!(p.pos.y >= ground - 20 * UNIT && p.pos.y < ground + 35 * UNIT);
        assert!(p.size >= 8 * UNIT && p.size < 22 * UNIT);
        assert!(p.boost.x >= -100 * UNIT && p.boost.x < 100 * UNIT);
        assert_eq!((p.boost.y, p.boost.z), (0, 20 * UNIT));
    }
    assert!(ps.iter().any(|p| p.pos != ps[0].pos));
}

#[test]
fn townsfolk_stand_on_the_ground() {
    let m = sheet_map();
    let plan = spawn_townsfolk(&m);
    assert_eq!(plan.people.len(), 200);
    assert_eq!(plan.things.len(), 200);
    assert_eq!(plan.trees.len(), 100);
    for p in plan.people.iter().chain(plan.trees.iter()) {
        let ground = m.pos_to_height(p.x + 200 * UNIT, p.z + 200 * UNIT).unwrap_or(0);
        assert_eq!(p.y, ground);
    }
    for (kind, p) in &plan.things {
        assert_ne!(*kind, TownsfolkType::Person);
        let (x, z) = (p.x + 200 * UNIT, p.z + 200 * UNIT);
        let ground = m.pos_to_height(x, z).unwrap_or(0);
        assert_eq!(p.y, ground + UNIT);
        if (x, z) != (0, 0) {
            assert!(ground >= 100 && ground <= 1500);
        }
    }
}

#[test]
fn spawned_chunk_mirrors_its_rows() {
    let m = sheet_map();
    let c = SpawnChunk { pos_x: 0, pos_y: 3 }.apply(&m);
    assert_eq!(c.z_offset, 3 * CELL_SIZE);
    assert_eq!(c.origin_z, 3 * CHUNK_SIZE);
    assert!(c.sheet);
    assert_eq!(c.mesh.heights[5 * CELL_SIZE + 9], m.map[3 * CELL_SIZE + 5][9]);
    let last = SpawnChunk { pos_x: 0, pos_y: (NUM_CHUNKS - 1) as u32 }.apply(&m);
    assert!(!last.sheet);
}
