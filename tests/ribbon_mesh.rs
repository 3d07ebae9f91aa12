use ribbon::{
    build_ribbon, build_ribbon_with, check_grid, generate_paths, isqrt, morph_ribbon,
    ribbon_index_list, segment_length, update_paths, Point, RibbonError, UvPolicy, ONE,
};

fn plane(rows: i32, cols: i32) -> Vec<Vec<Point>> {
    (0..rows)
        .map(|i| (0..cols).map(|j| Point::new(j * ONE, i * ONE, 0)).collect())
        .collect()
}

fn cross_z(ps: &[Point], a: usize, b: usize, c: usize) -> (i128, i128, i128) {
    let (pa, pb, pc) = (ps[a], ps[b], ps[c]);
    let u = ((pb.x - pa.x) as i128, (pb.y - pa.y) as i128, (pb.z - pa.z) as i128);
    let v = ((pc.x - pa.x) as i128, (pc.y - pa.y) as i128, (pc.z - pa.z) as i128);
    (u.1 * v.2 - u.2 * v.1, u.2 * v.0 - u.0 * v.2, u.0 * v.1 - u.1 * v.0)
}

#[test]
fn three_by_three_plane() {
    let g = plane(3, 3);
    let m = build_ribbon(&g).unwrap();
    assert_eq!(m.indices().len() / 3, 8);
    assert_eq!(m.positions().len(), 9);
    assert_eq!(m.uvs().len(), 9);
    let halves = [0.0, 0.5, 1.0];
    for i in 0..3 {
        for j in 0..3 {
            let uv = m.uvs()[i * 3 + j];
            let u = uv.u as f64 / m.u_span() as f64;
            let v = uv.v as f64 / m.v_span() as f64;
            assert_eq!(u, halves[j]);
            assert_eq!(v, halves[2 - i]);
        }
    }
    for t in m.indices().chunks(3) {
        let n = cross_z(m.positions(), t[0], t[1], t[2]);
        assert_eq!(n.0, 0);
        assert_eq!(n.1, 0);
        assert!(n.2 > 0);
    }
}

#[test]
fn single_quad_winding() {
    let g = vec![
        vec![Point::new(0, 0, 0), Point::new(ONE, 0, 0)],
        vec![Point::new(0, ONE, 0), Point::new(ONE, ONE, 0)],
    ];
    let m = build_ribbon(&g).unwrap();
    assert_eq!(m.indices().clone(), vec![0, 1, 3, 3, 2, 0]);
    assert_eq!(m.positions().clone(), vec![g[0][0], g[0][1], g[1][0], g[1][1]]);
}

#[test]
fn counts_and_mapping() {
    let g = generate_paths(-3, 2, -2, 4, ONE / 5, &vec![ONE / 2; 12], &vec![ONE; 6], 3 * ONE);
    let m = build_ribbon(&g).unwrap();
    assert_eq!(m.positions().len(), 5 * 6);
    assert_eq!(m.uvs().len(), 5 * 6);
    assert_eq!(m.indices().len(), 3 * 4 * 5 * 2);
    assert_eq!((m.rows(), m.cols()), (5, 6));
    for i in 0..5 {
        for j in 0..6 {
            assert_eq!(m.positions()[i * 6 + j], g[i][j]);
        }
    }
    assert!(m.indices().iter().all(|&k| k < 30));
}

#[test]
fn uvs_stay_in_unit_range() {
    let g = generate_paths(-4, 4, -3, 3, ONE / 5, &vec![ONE / 3; 14], &vec![-ONE / 2; 6], ONE);
    for pol in [UvPolicy::SharedArcs, UvPolicy::RunningArcs] {
        let m = build_ribbon_with(&g, pol).unwrap();
        for uv in m.uvs() {
            assert!(uv.u <= m.u_span());
            assert!(uv.v <= m.v_span());
        }
    }
}

#[test]
fn running_arcs_accumulate_across_rows() {
    let g = plane(2, 3);
    let m = build_ribbon_with(&g, UvPolicy::RunningArcs).unwrap();
    let one = ONE as u128;
    assert_eq!(m.u_span(), 4 * one);
    assert_eq!(m.v_span(), 3 * one);
    let us: Vec<u128> = m.uvs().iter().map(|uv| uv.u).collect();
    assert_eq!(us, vec![0, one, 2 * one, 2 * one, 3 * one, 4 * one]);
    let vs: Vec<u128> = m.uvs().iter().map(|uv| uv.v).collect();
    assert_eq!(vs, vec![3 * one, 2 * one, one, 2 * one, one, 0]);
}

#[test]
fn malformed_grids_are_rejected() {
    let empty: Vec<Vec<Point>> = Vec::new();
    assert_eq!(build_ribbon(&empty).err(), Some(RibbonError::MalformedGrid));
    let one_row = plane(1, 3);
    assert_eq!(build_ribbon(&one_row).err(), Some(RibbonError::MalformedGrid));
    let one_col = plane(3, 1);
    assert_eq!(build_ribbon(&one_col).err(), Some(RibbonError::MalformedGrid));
    let mut jagged = plane(3, 3);
    jagged[2].pop();
    assert!(!check_grid(&jagged));
    assert_eq!(build_ribbon(&jagged).err(), Some(RibbonError::MalformedGrid));
}

#[test]
fn degenerate_arc_length_is_surfaced() {
    let g = vec![vec![Point::new(0, 0, 0); 3]; 3];
    assert_eq!(build_ribbon(&g).err(), Some(RibbonError::DegenerateArcLength));
    let mut rows_same = plane(2, 3);
    rows_same[1] = rows_same[0].clone();
    assert_eq!(build_ribbon(&rows_same).err(), Some(RibbonError::DegenerateArcLength));
}

#[test]
fn morph_replaces_positions_only() {
    let g = plane(3, 4);
    let mut m = build_ribbon(&g).unwrap();
    let (indices, uvs) = (m.indices().clone(), m.uvs().clone());
    let mut g2 = g.clone();
    for row in g2.iter_mut() {
        for p in row.iter_mut() {
            p.z = p.x + 7;
        }
    }
    assert_eq!(morph_ribbon(&mut m, &g2), Ok(()));
    assert_eq!(m.indices().clone(), indices);
    assert_eq!(m.uvs().clone(), uvs);
    let flat: Vec<Point> = g2.concat();
    assert_eq!(m.positions().clone(), flat);
}

#[test]
fn morph_shape_mismatch_fails() {
    let g = plane(3, 3);
    let mut m = build_ribbon(&g).unwrap();
    let before = m.positions().clone();
    assert_eq!(morph_ribbon(&mut m, &plane(3, 4)), Err(RibbonError::ShapeMismatch));
    assert_eq!(morph_ribbon(&mut m, &plane(2, 3)), Err(RibbonError::ShapeMismatch));
    assert_eq!(m.positions().clone(), before);
    // equal counts pass the length check even when the shape differs
    assert_eq!(morph_ribbon(&mut m, &plane(1, 9)), Ok(()));
}

#[test]
fn update_twice_same_phase() {
    let mut g = generate_paths(-5, 5, -4, 4, ONE / 5, &vec![ONE / 4; 17], &vec![ONE; 8], 0);
    let waves: Vec<i32> = (0..17).map(|k| (k * 3000 - 20000) as i32).collect();
    update_paths(&mut g, &waves, ONE / 3);
    let once = g.clone();
    update_paths(&mut g, &waves, ONE / 3);
    assert_eq!(g, once);
}

#[test]
fn update_sets_height_from_x() {
    let mut g = vec![vec![Point::new(2 * ONE, 5, 99), Point::new(-2 * ONE, 6, 99)]];
    update_paths(&mut g, &vec![ONE / 2, ONE / 2], ONE / 4);
    // 2 * 0.5 * 0.25 = 0.25, and -0.25 rounded toward zero
    assert_eq!(g[0][0], Point::new(2 * ONE, 5, ONE / 4));
    assert_eq!(g[0][1], Point::new(-2 * ONE, 6, -ONE / 4));
    let mut h = vec![vec![Point::new(3, 0, 0)]];
    update_paths(&mut h, &vec![-ONE], ONE / 2);
    assert_eq!(h[0][0].z, -1);
}

#[test]
fn generate_lattice_values() {
    let g = generate_paths(-1, 1, 0, 2, 10, &vec![100, 200, 300], &vec![ONE / 2, -ONE], 8);
    assert_eq!(g.len(), 2);
    assert_eq!(g[0], vec![Point::new(-10, 0, 104), Point::new(-10, 10, 192)]);
    assert_eq!(g[1], vec![Point::new(0, 0, 204), Point::new(0, 10, 292)]);
    let flat = generate_paths(0, 2, 0, 2, ONE, &vec![0; 3], &vec![ONE; 2], -3);
    assert_eq!(flat[1][1].z, -3);
}

#[test]
fn integer_square_roots() {
    assert_eq!(isqrt(0), 0);
    assert_eq!(isqrt(1), 1);
    assert_eq!(isqrt(15), 3);
    assert_eq!(isqrt(16), 4);
    assert_eq!(isqrt(u128::MAX), u64::MAX);
    let a = Point::new(0, 0, 0);
    assert_eq!(segment_length(&a, &Point::new(3 * ONE, 4 * ONE, 0)), 5 * ONE as u128);
    assert_eq!(segment_length(&a, &Point::new(1, 1, 1)), 1);
}

#[test]
fn index_list_of_two_by_three() {
    assert_eq!(ribbon_index_list(2, 3), vec![0, 1, 4, 4, 3, 0, 1, 2, 5, 5, 4, 1]);
}
