use boids::cell::{cell_index_1d, cell_key, BorderDir, CellCoord, Point};
use boids::space::{
    border_dir, Clustering, Collision, GridError, Space, CLUSTERING_CELL_SIZE,
    COLLISION_CELL_SIZE,
};
use boids::unit::{IndexGrid, PosString};

fn pt(x: i32, y: i32) -> Point {
    Point { x, y }
}

fn bucket(m: &Collision, p: Point) -> Vec<u32> {
    match m.query(p) {
        Some(g) => g.get_entities().to_vec(),
        None => Vec::new(),
    }
}

#[test]
fn index_grid_keeps_insertion_order() {
    let mut g = IndexGrid::new();
    assert!(g.get_entities().is_empty());
    g.insert(7);
    g.insert(3);
    g.insert(7);
    assert_eq!(g.get_entities(), &[7, 3, 7]);
}

#[test]
fn cell_index_rounds_down() {
    assert_eq!(cell_index_1d(0, 200), 0);
    assert_eq!(cell_index_1d(199, 200), 0);
    assert_eq!(cell_index_1d(200, 200), 1);
    assert_eq!(cell_index_1d(-1, 200), -1);
    assert_eq!(cell_index_1d(-200, 200), -1);
    assert_eq!(cell_index_1d(-201, 200), -2);
    assert_eq!(cell_index_1d(i32::MIN, 1), i32::MIN);
    assert_eq!(cell_index_1d(i32::MAX, 1), i32::MAX);
}

#[test]
fn cell_keys_pack_both_coordinates() {
    assert_eq!(cell_key(CellCoord { x: 0, y: 0 }), 0x8000_0000_8000_0000);
    assert_eq!(cell_key(CellCoord { x: i32::MIN, y: i32::MIN }), 0);
    assert_eq!(cell_key(CellCoord { x: i32::MAX, y: i32::MAX }), u64::MAX);
    assert_ne!(cell_key(CellCoord { x: 0, y: 1 }), cell_key(CellCoord { x: 1, y: 0 }));
    assert_ne!(cell_key(CellCoord { x: -1, y: 0 }), cell_key(CellCoord { x: 0, y: -1 }));
}

#[test]
fn pos_string_texts() {
    assert_eq!(PosString::from_cell(CellCoord { x: 3, y: -4 }).value, "3,-4");
    assert_eq!(PosString::from_cell(CellCoord { x: 0, y: 120 }).value, "0,120");
    assert_eq!(
        PosString::from_cell(CellCoord { x: i32::MIN, y: i32::MAX }).value,
        "-2147483648,2147483647"
    );
    assert_eq!(
        PosString::from_border(CellCoord { x: 3, y: -4 }, BorderDir::LB).value,
        "3,-4LB"
    );
}

#[test]
fn zero_cell_size_is_refused() {
    assert!(matches!(Collision::new(0, 5), Err(GridError::ZeroCellSize)));
    assert!(matches!(Collision::new(5, 0), Err(GridError::ZeroCellSize)));
    assert!(Collision::new(1, 1).is_ok());
}

#[test]
fn single_entity_is_found_in_its_cell_only() {
    let mut m = Collision::new(200, 200).unwrap();
    let p = pt(120, -30);
    m.insert(0, p);
    assert_eq!(bucket(&m, p), vec![0]);
    assert_eq!(bucket(&m, pt(0, -200)), vec![0]);
    assert!(m.query(pt(120, 30)).is_none());
    assert!(m.query(pt(220, -30)).is_none());
}

#[test]
fn rebuild_files_each_entity_under_its_cell() {
    let mut m = Collision::new(200, 200).unwrap();
    m.insert(9, pt(1000, 1000));
    let ps = vec![pt(10, 10), pt(250, 10), pt(20, 30), pt(-1, -1)];
    m.rebuild(&ps);
    assert_eq!(bucket(&m, pt(0, 0)), vec![0, 2]);
    assert_eq!(bucket(&m, pt(399, 199)), vec![1]);
    assert_eq!(bucket(&m, pt(-200, -200)), vec![3]);
    assert!(m.query(pt(1000, 1000)).is_none());
}

#[test]
fn clear_empties_every_bucket() {
    let mut m = Collision::new(50, 50).unwrap();
    m.insert(1, pt(5, 5));
    m.insert(2, pt(-5, 5));
    m.clear();
    assert!(m.query(pt(5, 5)).is_none());
    assert!(m.query(pt(-5, 5)).is_none());
}

#[test]
fn border_layer_adds_the_leaning_diagonal() {
    let mut m = Collision::new(100, 100).unwrap();
    m.with_border_layer(5, 10);
    m.insert(0, pt(95, 95));
    m.insert(1, pt(5, 95));
    m.insert(2, pt(50, 50));
    m.insert(3, pt(95, 50));
    m.insert(4, pt(5, 5));
    m.insert(5, pt(95, 5));
    assert_eq!(bucket(&m, pt(50, 50)), vec![0, 1, 2, 3, 4, 5]);
    assert_eq!(bucket(&m, pt(150, 150)), vec![0]);
    assert_eq!(bucket(&m, pt(-50, 150)), vec![1]);
    assert_eq!(bucket(&m, pt(-50, -50)), vec![4]);
    assert_eq!(bucket(&m, pt(150, -50)), vec![5]);
    assert!(m.query(pt(150, 50)).is_none());
}

#[test]
fn border_layer_leaves_the_middle_band_alone() {
    let mut m = Collision::new(100, 100).unwrap();
    m.with_border_layer(5, 10);
    // 30 from the center on both axes is not beyond 50 - 20.
    m.insert(0, pt(80, 80));
    assert_eq!(bucket(&m, pt(80, 80)), vec![0]);
    assert!(m.query(pt(150, 150)).is_none());
}

#[test]
fn border_dir_follows_offset_signs() {
    assert_eq!(border_dir(1, 1), BorderDir::RT);
    assert_eq!(border_dir(-1, -1), BorderDir::LB);
    assert_eq!(border_dir(-1, 1), BorderDir::LT);
    assert_eq!(border_dir(1, -1), BorderDir::RB);
    assert_eq!(border_dir(0, 0), BorderDir::RB);
}

#[test]
fn space_has_a_fine_and_a_coarse_grid() {
    let space = Space::new();
    assert_eq!(space.maps.0.cell_size(), (COLLISION_CELL_SIZE, COLLISION_CELL_SIZE));
    assert_eq!(space.maps.1.cell_size(), (CLUSTERING_CELL_SIZE, CLUSTERING_CELL_SIZE));
    assert_eq!((COLLISION_CELL_SIZE, CLUSTERING_CELL_SIZE), (200, 500));
}

#[test]
fn space_rebuilds_both_grids() {
    let mut space = Space::new();
    let ps = vec![pt(100, 100), pt(300, 100), pt(450, 20)];
    space.rebuild(&ps);
    let fine: Vec<u32> = space.maps.0.query(pt(100, 100)).unwrap().get_entities().to_vec();
    assert_eq!(fine, vec![0]);
    let coarse: Vec<u32> = space.maps.1.query(pt(100, 100)).unwrap().get_entities().to_vec();
    assert_eq!(coarse, vec![0, 1, 2]);
    assert_eq!(space.clustering_neighbors(&ps, 1), vec![0, 2]);
    assert_eq!(space.clustering_neighbors(&ps, 0), vec![1, 2]);
}

#[test]
fn neighbors_stay_within_the_cell() {
    let mut space = Space::new();
    // Entities 1 and 2 are only 2 apart, across the boundary at x = 500.
    let ps = vec![pt(10, 10), pt(499, 10), pt(501, 10)];
    space.rebuild(&ps);
    assert_eq!(space.clustering_neighbors(&ps, 1), vec![0]);
    assert_eq!(space.clustering_neighbors(&ps, 2), Vec::<u32>::new());
    let _: Option<&boids::unit::IndexGrid> = Clustering::new(1, 1).unwrap().query(pt(0, 0));
}

#[test]
fn cell_centers_are_doubled() {
    let m = Collision::new(200, 200).unwrap();
    assert_eq!(m.get_cell_center(&CellCoord { x: 0, y: 0 }), (200, 200));
    let m = Collision::new(100, 50).unwrap();
    assert_eq!(m.get_cell_center(&CellCoord { x: -1, y: 2 }), (-100, 250));
    assert_eq!(m.get_cell_index(pt(-1, 100)), CellCoord { x: -1, y: 2 });
}

#[test]
fn close_pair_see_each_other() {
    let mut space = Space::new();
    let ps = vec![pt(100, 100), pt(105, 100)];
    space.rebuild(&ps);
    assert_eq!(space.clustering_neighbors(&ps, 0), vec![1]);
    assert_eq!(space.clustering_neighbors(&ps, 1), vec![0]);
}

#[test]
fn rebuilds_from_same_positions_agree() {
    let ps = vec![pt(10, 10), pt(-300, 40), pt(20, 30), pt(260, -10)];
    let mut a = Space::new();
    let mut b = Space::new();
    b.rebuild(&vec![pt(0, 0), pt(1, 1)]);
    a.rebuild(&ps);
    b.rebuild(&ps);
    for i in 0..ps.len() {
        assert_eq!(a.clustering_neighbors(&ps, i), b.clustering_neighbors(&ps, i));
        let fa = a.maps.0.query(ps[i]).unwrap().get_entities().to_vec();
        let fb = b.maps.0.query(ps[i]).unwrap().get_entities().to_vec();
        assert_eq!(fa, fb);
    }
}
