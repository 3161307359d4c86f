use seam_carving::carve::{carve, carve_step, check_seam, highlight_seam, remove_seam, run_phase, CarveMode};
use seam_carving::energy::{calculate_delta, calculate_energy, isqrt, map_energy};
use seam_carving::error::CarveError;
use seam_carving::grid::{highlight_colour, PixelGrid, Rgba};
use seam_carving::seam::{find_seam, first_row, grow_paths, lowest_energy_seam, Path, Point};

fn px(r: u8, g: u8, b: u8) -> Rgba {
    Rgba { r, g, b, a: 255 }
}

/// A grid whose pixel (x, y) has red = 10 * y + x, so every pixel is distinct.
fn numbered(width: usize, height: usize) -> PixelGrid {
    let rows: Vec<Vec<Rgba>> = (0..height)
        .map(|y| (0..width).map(|x| px((10 * y + x) as u8, 0, 0)).collect())
        .collect();
    PixelGrid::from_rows(width, rows).unwrap()
}

fn seam_of(points: &[(usize, usize)]) -> Vec<Point> {
    points.iter().map(|&(x, y)| Point { x, y }).collect()
}

fn xs(p: &Path) -> Vec<usize> {
    p.path.iter().map(|q| q.x).collect()
}

#[test]
fn delta_ignores_alpha() {
    let a = Rgba { r: 10, g: 20, b: 30, a: 0 };
    let b = Rgba { r: 13, g: 16, b: 30, a: 255 };
    assert_eq!(calculate_delta(a, b), 25);
    assert_eq!(calculate_delta(b, a), 25);
    assert_eq!(calculate_delta(px(0, 0, 0), px(255, 255, 255)), 195075);
}

#[test]
fn integer_square_roots() {
    assert_eq!(isqrt(0), 0);
    assert_eq!(isqrt(1), 1);
    assert_eq!(isqrt(15), 3);
    assert_eq!(isqrt(16), 4);
    assert_eq!(isqrt(1u64 << 32), 65536);
    assert_eq!(isqrt(25u64 << 32), 327680);
}

#[test]
fn energy_of_black_white_pair() {
    let g = PixelGrid::from_rows(2, vec![vec![px(0, 0, 0), px(255, 255, 255)]]).unwrap();
    assert_eq!(calculate_energy(&g, 0, 0), 28945478);
    assert_eq!(calculate_energy(&g, 1, 0), 28945478);
}

#[test]
fn energy_uses_both_directions() {
    // Centre pixel of a 3x3 grid: black above and left, white below and right.
    let b = px(0, 0, 0);
    let w = px(255, 255, 255);
    let g = PixelGrid::from_rows(3, vec![vec![b, b, b], vec![b, b, w], vec![b, w, w]]).unwrap();
    assert_eq!(calculate_energy(&g, 1, 1), 40935088);
    // A corner uses itself for the missing neighbours.
    assert_eq!(calculate_energy(&g, 0, 0), 0);
}

#[test]
fn energy_grid_matches_dimensions() {
    let g = numbered(5, 3);
    let e = map_energy(&g);
    assert_eq!(e.len(), 3);
    for row in &e {
        assert_eq!(row.len(), 5);
    }
    assert_eq!(e[1][2], calculate_energy(&g, 2, 1));
}

#[test]
fn uniform_grid_has_zero_energy() {
    let g = PixelGrid::uniform(4, 3, px(12, 200, 7));
    let e = map_energy(&g);
    assert_eq!(e, vec![vec![0u32; 4]; 3]);
}

#[test]
fn first_row_makes_one_candidate_per_column() {
    let paths = first_row(&vec![4, 9, 1]);
    assert_eq!(paths.len(), 3);
    assert_eq!(paths[2].total_energy, 1);
    assert_eq!(paths[1].path, vec![Point { x: 1, y: 0 }]);
}

#[test]
fn centre_column_wins() {
    let e = vec![vec![10, 0, 10], vec![10, 0, 10], vec![10, 0, 10]];
    let seam = find_seam(&e).unwrap();
    assert_eq!(seam.path, seam_of(&[(1, 0), (1, 1), (1, 2)]));
    assert_eq!(seam.total_energy, 0);
}

#[test]
fn single_pixel_seam() {
    let seam = find_seam(&vec![vec![7]]).unwrap();
    assert_eq!(seam.path, seam_of(&[(0, 0)]));
    assert_eq!(seam.total_energy, 7);
}

#[test]
fn checkerboard_seam_stays_on_zeros() {
    let e: Vec<Vec<u32>> =
        (0..4).map(|y| (0..4).map(|x| if (x + y) % 2 == 0 { 0 } else { 100 }).collect()).collect();
    let seam = find_seam(&e).unwrap();
    assert_eq!(seam.path, seam_of(&[(0, 0), (1, 1), (0, 2), (1, 3)]));
    assert_eq!(seam.total_energy, 0);
    for p in &seam.path {
        assert_eq!(e[p.y][p.x], 0);
    }
}

#[test]
fn ties_go_to_leftmost_start_and_left_neighbour() {
    let e = vec![vec![5, 5, 5], vec![5, 5, 5]];
    let seam = find_seam(&e).unwrap();
    assert_eq!(seam.path, seam_of(&[(0, 0), (0, 1)]));
    let e = vec![vec![9, 1, 9], vec![3, 9, 3]];
    let seam = find_seam(&e).unwrap();
    assert_eq!(seam.path, seam_of(&[(1, 0), (0, 1)]));
    assert_eq!(seam.total_energy, 4);
}

#[test]
fn candidates_grow_greedily_and_independently() {
    // From column 0 the walk takes the cheap 1, then is stuck with 50; the
    // walk from column 2 pays 2 and then 0, so it is selected.
    let e = vec![vec![0, 9, 0], vec![1, 9, 2], vec![50, 90, 0]];
    let grown = grow_paths(first_row(&e[0]), &e);
    assert_eq!(xs(&grown[0]), vec![0, 0, 0]);
    assert_eq!(grown[0].total_energy, 51);
    assert_eq!(xs(&grown[1]), vec![1, 0, 0]);
    assert_eq!(grown[1].total_energy, 60);
    assert_eq!(xs(&grown[2]), vec![2, 2, 2]);
    assert_eq!(grown[2].total_energy, 2);
    let best = lowest_energy_seam(grown);
    assert_eq!(xs(&best), vec![2, 2, 2]);
    assert_eq!(best.total_energy, 2);
}

#[test]
fn seam_search_rejects_malformed_grids() {
    assert_eq!(find_seam(&vec![]).unwrap_err(), CarveError::EmptyGrid);
    assert_eq!(find_seam(&vec![vec![], vec![]]).unwrap_err(), CarveError::EmptyGrid);
    assert_eq!(find_seam(&vec![vec![1, 2], vec![3]]).unwrap_err(), CarveError::RaggedRows);
}

#[test]
fn seam_has_one_adjacent_point_per_row() {
    let e: Vec<Vec<u32>> = (0..6).map(|y| (0..5).map(|x| ((x * 7 + y * 13) % 11) as u32).collect()).collect();
    let seam = find_seam(&e).unwrap();
    assert_eq!(seam.path.len(), 6);
    for (i, p) in seam.path.iter().enumerate() {
        assert_eq!(p.y, i);
        assert!(p.x < 5);
        if i > 0 {
            assert!(p.x.abs_diff(seam.path[i - 1].x) <= 1);
        }
    }
    assert!(check_seam(&seam.path, 5, 6));
}

#[test]
fn check_seam_rejects_bad_paths() {
    assert!(check_seam(&seam_of(&[(0, 0), (1, 1)]), 2, 2));
    assert!(!check_seam(&seam_of(&[(0, 0)]), 2, 2));
    assert!(!check_seam(&seam_of(&[(0, 0), (2, 1)]), 3, 2));
    assert!(!check_seam(&seam_of(&[(0, 0), (0, 0)]), 2, 2));
    assert!(!check_seam(&seam_of(&[(0, 0), (2, 1)]), 2, 2));
}

#[test]
fn removing_a_seam_drops_a_column_and_the_last_row() {
    let g = numbered(3, 3);
    let out = remove_seam(seam_of(&[(1, 0), (0, 1), (1, 2)]), &g).unwrap();
    assert_eq!(out.width, 2);
    assert_eq!(out.height, 2);
    assert_eq!(out.rows, vec![vec![px(0, 0, 0), px(2, 0, 0)], vec![px(11, 0, 0), px(12, 0, 0)]]);
}

#[test]
fn removing_the_last_column() {
    let g = numbered(3, 2);
    let out = remove_seam(seam_of(&[(2, 0), (2, 1)]), &g).unwrap();
    assert_eq!(out.rows, vec![vec![px(0, 0, 0), px(1, 0, 0)]]);
}

#[test]
fn removing_rejects_bad_input() {
    let g = numbered(3, 2);
    assert_eq!(remove_seam(seam_of(&[(0, 0)]), &g).unwrap_err(), CarveError::InvalidSeam);
    assert_eq!(remove_seam(seam_of(&[(0, 0), (3, 1)]), &g).unwrap_err(), CarveError::InvalidSeam);
    let empty = PixelGrid::uniform(0, 0, px(0, 0, 0));
    assert_eq!(remove_seam(vec![], &empty).unwrap_err(), CarveError::EmptyGrid);
}

#[test]
fn highlighting_paints_one_pixel_per_row() {
    let g = numbered(4, 3);
    let out = highlight_seam(seam_of(&[(1, 0), (2, 1), (2, 2)]), numbered(4, 3)).unwrap();
    assert_eq!(out.width, 4);
    assert_eq!(out.height, 3);
    let red = highlight_colour();
    assert_eq!(red, Rgba { r: 255, g: 0, b: 0, a: 255 });
    let mut changed = 0;
    for y in 0..3 {
        for x in 0..4 {
            if out.rows[y][x] != g.rows[y][x] {
                changed += 1;
                assert_eq!(out.rows[y][x], red);
            }
        }
    }
    assert_eq!(changed, 3);
    assert_eq!(out.rows[1][2], red);
}

#[test]
fn highlighting_rejects_bad_input() {
    assert_eq!(highlight_seam(seam_of(&[(0, 0)]), numbered(2, 2)).unwrap_err(), CarveError::InvalidSeam);
    let empty = PixelGrid::uniform(3, 0, px(0, 0, 0));
    assert_eq!(highlight_seam(vec![], empty).unwrap_err(), CarveError::EmptyGrid);
}

#[test]
fn rotations() {
    let g = numbered(3, 2);
    let r = g.rotate90();
    assert_eq!(r.width, 2);
    assert_eq!(r.height, 3);
    assert_eq!(
        r.rows,
        vec![
            vec![px(10, 0, 0), px(0, 0, 0)],
            vec![px(11, 0, 0), px(1, 0, 0)],
            vec![px(12, 0, 0), px(2, 0, 0)],
        ]
    );
    let l = g.rotate270();
    assert_eq!(
        l.rows,
        vec![
            vec![px(2, 0, 0), px(12, 0, 0)],
            vec![px(1, 0, 0), px(11, 0, 0)],
            vec![px(0, 0, 0), px(10, 0, 0)],
        ]
    );
    let back = r.rotate270();
    assert_eq!(back.rows, g.rows);
    assert_eq!((back.width, back.height), (3, 2));
}

#[test]
fn carving_nothing_keeps_the_grid() {
    let g = numbered(4, 3);
    let out = carve(numbered(4, 3), 0, 0, CarveMode::Remove).unwrap();
    assert_eq!((out.width, out.height), (4, 3));
    assert_eq!(out.rows, g.rows);
}

#[test]
fn carving_shrinks_both_ways() {
    let out = carve(numbered(5, 4), 1, 1, CarveMode::Remove).unwrap();
    assert_eq!((out.width, out.height), (3, 2));
    assert_eq!(out.rows.len(), 2);
    assert_eq!(out.rows[0].len(), 3);
}

#[test]
fn carving_a_uniform_grid() {
    let c = px(40, 50, 60);
    let out = carve(PixelGrid::uniform(3, 3, c), 1, 0, CarveMode::Remove).unwrap();
    assert_eq!(out.rows, vec![vec![c; 2]; 2]);
}

#[test]
fn one_step_removes_the_selected_seam() {
    let g = numbered(3, 3);
    let seam = find_seam(&map_energy(&g)).unwrap();
    let expected = remove_seam(seam.path, &g).unwrap();
    let out = carve_step(numbered(3, 3), CarveMode::Remove);
    assert_eq!(out.rows, expected.rows);
}

#[test]
fn highlight_mode_marks_the_first_seam_of_a_flat_grid() {
    let c = px(1, 2, 3);
    let out = carve(PixelGrid::uniform(3, 3, c), 1, 0, CarveMode::Highlight).unwrap();
    let red = highlight_colour();
    assert_eq!(out.rows, vec![vec![red, c, c]; 3]);
}

#[test]
fn carving_too_many_seams_fails() {
    assert_eq!(carve(numbered(2, 2), 2, 0, CarveMode::Remove).unwrap_err(), CarveError::GridExhausted);
    assert_eq!(carve(numbered(3, 3), 1, 2, CarveMode::Remove).unwrap_err(), CarveError::GridExhausted);
    assert_eq!(run_phase(numbered(1, 5), 1, CarveMode::Remove).unwrap_err(), CarveError::GridExhausted);
    assert!(run_phase(numbered(1, 5), 3, CarveMode::Highlight).is_ok());
}

#[test]
fn grid_construction() {
    assert!(PixelGrid::from_rows(2, vec![vec![px(0, 0, 0)]]).is_none());
    let g = PixelGrid::from_rows(1, vec![vec![px(1, 1, 1)], vec![px(2, 2, 2)]]).unwrap();
    assert_eq!((g.width, g.height), (1, 2));
    assert_eq!(g.get_pixel(0, 1), px(2, 2, 2));
}
