use life_scene::game::Game;

fn alive_set(g: &Game, w: i32, h: i32) -> Vec<(i32, i32)> {
    let mut out = Vec::new();
    for y in 0..h {
        for x in 0..w {
            if g.get((x, y)) {
                out.push((x, y));
            }
        }
    }
    out
}

#[test]
fn seed_grid_matches_pattern() {
    let g = Game::new();
    assert_eq!(alive_set(&g, 10, 10), vec![(0, 0), (1, 0), (1, 1), (2, 1)]);
    assert!(!g.get((-1, 0)));
    assert!(!g.get((10, 0)));
    assert!(!g.get((0, 10)));
}

#[test]
fn default_matches_new() {
    let a = Game::new();
    let b = Game::default();
    assert_eq!(alive_set(&a, 10, 10), alive_set(&b, 10, 10));
}

#[test]
fn seed_advances_to_block() {
    let mut g = Game::new();
    g.update();
    assert_eq!(
        alive_set(&g, 10, 10),
        vec![(0, 0), (1, 0), (2, 0), (0, 1), (1, 1), (2, 1)]
    );
}

#[test]
fn second_generation_drops_edge_birth() {
    let mut g = Game::new();
    g.update();
    g.update();
    // the birth at (1, -1) falls outside the tracked region and is dropped
    assert_eq!(
        alive_set(&g, 10, 10),
        vec![(0, 0), (2, 0), (0, 1), (2, 1), (1, 2)]
    );
    assert!(!g.get((1, -1)));
}

#[test]
fn l_shape_one_tick() {
    let mut g = Game::with_size(10, 10);
    g.insert((1, 1), true);
    g.insert((0, 1), true);
    g.insert((1, 0), true);
    g.insert((1, 2), true);
    g.update();
    assert_eq!(
        alive_set(&g, 10, 10),
        vec![(0, 0), (1, 0), (0, 1), (1, 1), (2, 1), (0, 2), (1, 2)]
    );
}

#[test]
fn lone_cell_dies() {
    let mut g = Game::with_size(10, 10);
    g.insert((5, 5), true);
    g.update();
    assert_eq!(alive_set(&g, 10, 10), vec![]);
}

#[test]
fn pair_dies() {
    let mut g = Game::with_size(10, 10);
    g.insert((4, 4), true);
    g.insert((5, 4), true);
    g.update();
    assert_eq!(alive_set(&g, 10, 10), vec![]);
}

#[test]
fn block_is_still() {
    let mut g = Game::with_size(10, 10);
    g.insert((4, 4), true);
    g.insert((5, 4), true);
    g.insert((4, 5), true);
    g.insert((5, 5), true);
    g.update();
    assert_eq!(alive_set(&g, 10, 10), vec![(4, 4), (5, 4), (4, 5), (5, 5)]);
}

#[test]
fn birth_with_exactly_three() {
    let mut g = Game::with_size(10, 10);
    g.insert((0, 0), true);
    g.insert((1, 0), true);
    g.insert((0, 1), true);
    g.update();
    assert_eq!(alive_set(&g, 10, 10), vec![(0, 0), (1, 0), (0, 1), (1, 1)]);
}

#[test]
fn overcrowded_center_dies() {
    let mut g = Game::with_size(10, 10);
    g.insert((1, 1), true);
    g.insert((0, 1), true);
    g.insert((2, 1), true);
    g.insert((1, 0), true);
    g.insert((1, 2), true);
    g.update();
    assert!(!g.get((1, 1)));
    assert_eq!(
        alive_set(&g, 10, 10),
        vec![
            (0, 0),
            (1, 0),
            (2, 0),
            (0, 1),
            (2, 1),
            (0, 2),
            (1, 2),
            (2, 2)
        ]
    );
}

#[test]
fn update_is_deterministic() {
    let mut a = Game::new();
    let mut b = Game::new();
    a.update();
    b.update();
    assert_eq!(alive_set(&a, 10, 10), alive_set(&b, 10, 10));
    assert_eq!(a.make_list(), b.make_list());
}

#[test]
fn neighbor_count_includes_diagonals() {
    let mut g = Game::with_size(10, 10);
    for dy in -1..=1 {
        for dx in -1..=1 {
            if dx != 0 || dy != 0 {
                g.insert((5 + dx, 5 + dy), true);
            }
        }
    }
    assert_eq!(g.get_neighbors((5, 5)), 8);
    assert_eq!(g.get_neighbors((4, 4)), 2);
    assert_eq!(g.get_neighbors((4, 5)), 4);
}

#[test]
fn neighbor_count_at_corner() {
    let mut g = Game::with_size(10, 10);
    g.insert((1, 1), true);
    g.insert((1, 0), true);
    assert_eq!(g.get_neighbors((0, 0)), 2);
    assert_eq!(g.get_neighbors((-1, -1)), 0);
}

#[test]
fn reseeding_overwrites() {
    let mut g = Game::with_size(10, 10);
    g.insert((3, 3), true);
    g.insert((3, 3), false);
    assert!(!g.get((3, 3)));
    assert_eq!(alive_set(&g, 10, 10), vec![]);
}
