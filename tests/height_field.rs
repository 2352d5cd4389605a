use stone_sheet::brush::{brush_weight, get_neighbours_radius};
use stone_sheet::fixed::{isqrt, ONE, UNIT};
use stone_sheet::height_map::HeightMap;

fn close_to(fixed: u64, expected: f64) -> bool {
    (fixed as f64 / ONE as f64 - expected).abs() < 1e-6
}

#[test]
fn pos_to_cell() {
    let mut height_map = HeightMap::new(100 * UNIT, 100 * UNIT, 10, 10);

    let cell = height_map.get_cell_from_pos(0, 0);
    assert_eq!(cell, Some((0, 0)));

    let cell = height_map.get_cell_from_pos(50 * UNIT, 50 * UNIT);
    assert_eq!(cell, Some((5, 5)));

    height_map.map[0][0] = UNIT / 2;
    let h = height_map.pos_to_height(0, 0);
    assert_eq!(h, Some(UNIT / 2));

    height_map.map[1][1] = 2 * UNIT;
    let h = height_map.pos_to_height(10 * UNIT, 10 * UNIT);
    assert_eq!(h, Some(2 * UNIT));

    height_map.map[2][9] = 2500;
    let h = height_map.pos_to_height(95 * UNIT, 25 * UNIT);
    assert_eq!(h, Some(2500));

    let h = height_map.pos_to_height(100_100, 0);
    assert_eq!(h, None);

    let h = height_map.pos_to_height(-100, 0);
    assert_eq!(h, None);
}

#[test]
fn get_neighbours() {
    let n = get_neighbours_radius(2, 2, 1);
    assert_eq!(n.len(), 9);
    assert_eq!(n[0], (1, 1, 0));
    assert_eq!((n[1].0, n[1].1), (2, 1));
    assert!(close_to(n[1].2, 0.29289323));
    assert_eq!(n[1].2, 292_893);
    assert_eq!(n[4], (2, 2, ONE));
    assert_eq!(n[8], (3, 3, 0));
}

#[test]
fn get_neighbours_sat() {
    let n = get_neighbours_radius(0, 0, 1);
    assert_eq!(n.len(), 4);
    assert_eq!(n[0], (0, 0, ONE));
    assert_eq!(n[3], (1, 1, 0));
}

#[test]
fn get_neighbours_wide() {
    let n = get_neighbours_radius(0, 0, 2);
    assert_eq!(n.len(), 9);
    assert_eq!(n[8], (2, 2, 0));
}

#[test]
fn get_neighbours_vwide() {
    let n = get_neighbours_radius(0, 0, 3);
    assert_eq!(n.len(), 16);
    assert_eq!(n[15], (3, 3, 0));
}

#[test]
fn neighbours_full_square_far_from_edges() {
    let n = get_neighbours_radius(50, 60, 4);
    assert_eq!(n.len(), 81);
    assert_eq!(n[0], (46, 56, 0));
    assert_eq!(n[40], (50, 60, ONE));
    let n = get_neighbours_radius(2, 100, 4);
    assert_eq!(n.len(), 7 * 9);
}

#[test]
fn neighbours_at_top_of_index_range() {
    let n = get_neighbours_radius(usize::MAX, 5, 1);
    assert_eq!(n.len(), 6);
    assert_eq!(n[0], (usize::MAX - 1, 4, 0));
}

#[test]
fn zero_radius_is_the_centre_alone() {
    let n = get_neighbours_radius(7, 7, 0);
    assert_eq!(n, vec![(7, 7, ONE)]);
}

#[test]
fn brush_weight_falls_off_with_distance() {
    let n = get_neighbours_radius(10, 10, 4);
    let centre = n.iter().find(|e| e.0 == 10 && e.1 == 10).unwrap();
    assert_eq!(brush_weight(centre.2), ONE);
    for a in &n {
        for b in &n {
            let da = (a.0 as i64 - 10).pow(2) + (a.1 as i64 - 10).pow(2);
            let db = (b.0 as i64 - 10).pow(2) + (b.1 as i64 - 10).pow(2);
            if da <= db {
                assert!(brush_weight(a.2) >= brush_weight(b.2));
            }
        }
    }
    assert_eq!(brush_weight(0), 0);
    assert_eq!(brush_weight(ONE / 2), 875_000);
}

#[test]
fn integer_square_root() {
    assert_eq!(isqrt(0), 0);
    assert_eq!(isqrt(15), 3);
    assert_eq!(isqrt(16), 4);
    assert_eq!(isqrt(u64::MAX), 4_294_967_295);
}

#[test]
fn cell_mapping_covers_the_field() {
    let m = HeightMap::new(100 * UNIT, 70 * UNIT, 10, 7);
    for x in (0..100 * UNIT).step_by(997) {
        for z in (0..70 * UNIT).step_by(991) {
            let (cx, cz) = m.get_cell_from_pos(x, z).unwrap();
            assert!(cx < 10 && cz < 7);
        }
    }
    assert_eq!(m.get_cell_from_pos(100 * UNIT - 1, 70 * UNIT - 1), Some((9, 6)));
    assert_eq!(m.get_cell_from_pos(100 * UNIT + 1, 0), None);
    assert_eq!(m.get_cell_from_pos(-1, 0), None);
    assert_eq!(m.get_cell_from_pos(0, -1), None);
    for c in 0..10 {
        let (x, z) = m.cell_pos(c, c % 7);
        assert_eq!(m.get_cell_from_pos(x, z), Some((c, c % 7)));
    }
}

#[test]
fn heights_never_go_negative() {
    let mut m = HeightMap::new(100 * UNIT, 100 * UNIT, 10, 10);
    let deltas = [300, -1000, 250, i64::MIN, 40, -39, i64::MAX, 5];
    for (i, d) in deltas.iter().enumerate() {
        m.add_height(i % 3, i % 2, *d, 0);
        assert!(m.map.iter().all(|row| row.iter().all(|h| *h >= 0)));
    }
    assert_eq!(m.map[0][0], i64::MAX);
    assert_eq!(m.map[0][1], 40);
    assert_eq!(m.map[1][2], 0);
    assert_eq!(m.map[1][1], 5);
}

#[test]
fn add_height_ignores_cells_off_the_field() {
    let mut m = HeightMap::new(100 * UNIT, 100 * UNIT, 10, 10);
    let before = m.map.clone();
    m.add_height(10, 0, 500, 0);
    m.add_height(0, 10, 500, 0);
    m.add_height(0, 0, 500, 1);
    assert_eq!(m.map, before);
    m.add_height(3, 4, 500, 0);
    assert_eq!(m.map[4][3], 500);
}

#[test]
fn terraform_shapes_halfpipe_and_slope() {
    let mut m = HeightMap::new(100 * UNIT, 100 * UNIT, 10, 10);
    let mut noise = vec![vec![0i64; 10]; 10];
    noise[3][5] = ONE as i64 / 2;
    noise[4][5] = -(ONE as i64);
    m.terraform(&noise);
    // Row 0 is flat: the slope curve is zero there.
    assert!(m.map[0].iter().all(|h| *h == 0));
    // Row 9: |900 - 480| / 480 = 0.875, curve = 1 - 0.875^4 > 0.
    assert!(m.map[9][0] > 0);
    // Row 3: |300 - 480| / 480 = 0.375, curve = 1 - 0.375^4.
    let curve: u64 = ONE - 375_000u64.pow(2) / ONE * 375_000 / ONE * 375_000 / ONE;
    assert_eq!(m.map[3][5], (10 * UNIT as u64 * curve / ONE) as i64);
    // Negative noise gives nothing; the centre column has no halfpipe wall.
    assert_eq!(m.map[4][5], 0);
    // The edge column carries the full halfpipe wall.
    assert!(m.map[4][0] > 40 * UNIT);
}

#[test]
fn random_cells_stay_on_the_field() {
    let m = HeightMap::new(100 * UNIT, 100 * UNIT, 3, 2);
    let mut seen = std::collections::HashSet::new();
    for _ in 0..500 {
        let c = m.get_random_cell();
        assert!(c.0 < 3 && c.1 < 2);
        seen.insert(c);
    }
    assert!(seen.len() > 1);
}

#[test]
fn random_pos_between_height_finds_matching_cell_or_origin() {
    let mut m = HeightMap::new(100 * UNIT, 100 * UNIT, 10, 10);
    m.map[7][3] = 1000;
    let (x, z) = m.get_random_pos_between_height(500, 1500);
    assert!((x, z) == (0, 0) || (x, z) == (30 * UNIT, 70 * UNIT));
    let none = HeightMap::new(100 * UNIT, 100 * UNIT, 10, 10);
    assert_eq!(none.get_random_pos_between_height(1, 2), (0, 0));
}

#[test]
fn first_between_height_takes_the_first_qualifying_draw() {
    let mut m = HeightMap::new(100 * UNIT, 100 * UNIT, 10, 10);
    m.map[7][3] = 1000;
    m.map[2][5] = 1200;
    let draws = vec![(0, 0), (5, 2), (3, 7)];
    assert_eq!(m.first_between_height(&draws, 500, 1500), (50 * UNIT, 20 * UNIT));
    let draws = vec![(3, 7), (5, 2)];
    assert_eq!(m.first_between_height(&draws, 500, 1500), (30 * UNIT, 70 * UNIT));
    assert_eq!(m.first_between_height(&draws, 1100, 1500), (50 * UNIT, 20 * UNIT));
    assert_eq!(m.first_between_height(&draws, 2000, 3000), (0, 0));
    assert_eq!(m.first_between_height(&vec![], 0, 0), (0, 0));
}
