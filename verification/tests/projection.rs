use life_scene::game::Game;
use life_scene::model::Instance;

#[test]
fn empty_grid_projects_nothing() {
    let g = Game::with_size(8, 8);
    assert!(g.make_instances().is_empty());
    assert!(g.make_list().is_empty());
}

#[test]
fn one_cell_projects_its_translation() {
    let mut g = Game::with_size(5, 5);
    g.insert((3, 4), true);
    let list = g.make_list();
    assert_eq!(
        list,
        vec![1, 0, 0, 0, 0, 1, 0, 0, 0, 0, 1, 0, 3, 4, 0, 1]
    );
}

#[test]
fn instances_follow_scan_order() {
    let mut g = Game::with_size(6, 6);
    g.insert((2, 3), true);
    g.insert((1, 0), true);
    let instances = g.make_instances();
    assert_eq!(instances.len(), 2);
    assert_eq!((instances[0].x, instances[0].y), (1, 0));
    assert_eq!((instances[1].x, instances[1].y), (2, 3));
    let list = g.make_list();
    assert_eq!(list.len(), 32);
    assert_eq!(&list[12..16], &[1, 0, 0, 1]);
    assert_eq!(&list[28..32], &[2, 3, 0, 1]);
}

#[test]
fn to_raw_is_column_major_translation() {
    let inst = Instance { x: 7, y: -2 };
    assert_eq!(
        inst.to_raw(),
        vec![1, 0, 0, 0, 0, 1, 0, 0, 0, 0, 1, 0, 7, -2, 0, 1]
    );
}

#[test]
fn raw_matches_nalgebra_homogeneous_matrix() {
    let iso = nalgebra::Isometry3::from_parts(
        nalgebra::Translation3::new(3.0f32, 4.0, 0.0),
        nalgebra::UnitQuaternion::identity(),
    );
    let want = iso.to_matrix();
    let got = Instance { x: 3, y: 4 }.to_raw();
    assert_eq!(got.len(), 16);
    for i in 0..16 {
        assert_eq!(got[i] as f32, want.as_slice()[i]);
    }
}

#[test]
fn seed_projects_four_instances() {
    let g = Game::new();
    let list = g.make_list();
    assert_eq!(list.len(), 64);
    let translations: Vec<(i32, i32)> = (0..4)
        .map(|k| (list[16 * k + 12], list[16 * k + 13]))
        .collect();
    assert_eq!(translations, vec![(0, 0), (1, 0), (1, 1), (2, 1)]);
}
