use engine::rand::Wyhash64;
use engine::world::{
    decode_spans, Array2D, Array3D, ColumnSpan, World, MAX_SIZE_X, MAX_SIZE_Y, MAX_SIZE_Z,
};

fn column_volume(cells: &[u32]) -> Array3D {
    let mut arr = Array3D::new(0, 1, cells.len(), 1);
    for (y, cell) in cells.iter().enumerate() {
        arr.set(0, y, 0, *cell);
    }
    arr
}

fn rows_of(sy: usize) -> usize {
    2 * ((sy + 1) / 2)
}

fn spans_of(world: &World, x: usize, z: usize) -> Vec<(u32, u32)> {
    let sx = world.size_x() as usize;
    let rows = rows_of(world.size_y() as usize);
    let count = world.sizes()[z * sx + x] as usize;
    (0..count)
        .map(|i| {
            let bottom = world.spans()[z * rows * sx + (2 * i) * sx + x];
            let top = world.spans()[z * rows * sx + (2 * i + 1) * sx + x];
            (bottom, top)
        })
        .collect()
}

fn decode(spans: &[(u32, u32)], sy: usize) -> Vec<bool> {
    let mut col = vec![false; sy];
    for (bottom, top) in spans {
        for y in *bottom..*top {
            col[y as usize] = true;
        }
    }
    col
}

fn random_volume(seed: u64, sx: usize, sy: usize, sz: usize) -> Array3D {
    let mut rng = Wyhash64::from_seed(seed);
    let mut arr = Array3D::new(0, sx, sy, sz);
    for x in 0..sx {
        for y in 0..sy {
            for z in 0..sz {
                if rng.gen_in_range(0..3) != 0 {
                    arr.set(x, y, z, 1);
                }
            }
        }
    }
    arr
}

#[test]
fn single_contiguous_column() {
    let arr = column_volume(&[0, 0, 0, 1, 1, 1, 0, 0]);
    let world = World::from_array(&arr);
    assert_eq!(world.sizes(), &[1]);
    assert_eq!(world.spans(), &[3, 6, 0, 0, 0, 0, 0, 0]);
    assert_eq!(spans_of(&world, 0, 0), vec![(3, 6)]);
}

#[test]
fn alternating_column_meets_the_bound() {
    let arr = column_volume(&[1, 0, 1, 0, 1, 0, 1, 0]);
    let world = World::from_array(&arr);
    assert_eq!(world.sizes(), &[4]);
    assert_eq!(world.spans(), &[0, 1, 2, 3, 4, 5, 6, 7]);
    assert_eq!(spans_of(&world, 0, 0), vec![(0, 1), (2, 3), (4, 5), (6, 7)]);
}

#[test]
fn empty_column_has_no_spans() {
    let arr = column_volume(&[0, 0, 0, 0, 0, 0, 0, 0]);
    let world = World::from_array(&arr);
    assert_eq!(world.sizes(), &[0]);
    assert_eq!(world.spans(), &[0, 0, 0, 0, 0, 0, 0, 0]);
}

#[test]
fn run_that_reaches_the_top_is_closed() {
    let arr = column_volume(&[0, 1, 1]);
    let world = World::from_array(&arr);
    assert_eq!(world.sizes(), &[1]);
    assert_eq!(world.spans(), &[1, 3, 0, 0]);
}

#[test]
fn full_column_is_one_span() {
    let arr = column_volume(&[1, 1, 1, 1]);
    let world = World::from_array(&arr);
    assert_eq!(world.sizes(), &[1]);
    assert_eq!(world.spans(), &[0, 4, 0, 0]);
}

#[test]
fn odd_alternating_column_uses_every_row() {
    let arr = column_volume(&[1, 0, 1, 0, 1]);
    let world = World::from_array(&arr);
    assert_eq!(world.sizes(), &[3]);
    assert_eq!(world.spans(), &[0, 1, 2, 3, 4, 5]);
}

#[test]
fn column_of_height_one() {
    let world = World::from_array(&column_volume(&[7]));
    assert_eq!(world.sizes(), &[1]);
    assert_eq!(world.spans(), &[0, 1]);
    let world = World::from_array(&column_volume(&[0]));
    assert_eq!(world.sizes(), &[0]);
    assert_eq!(world.spans(), &[0, 0]);
}

#[test]
fn volume_without_cells() {
    let arr = Array3D::new(0, 0, 0, 0);
    let world = World::from_array(&arr);
    assert_eq!(world.size_x(), 0);
    assert_eq!(world.sizes().len(), 0);
    assert_eq!(world.spans().len(), 0);
    assert!(world.needs_upload());
}

#[test]
fn column_spans_of_a_volume() {
    let arr = column_volume(&[1, 1, 0, 0, 1, 0, 1, 1]);
    let runs = arr.column_spans(0, 0);
    assert_eq!(
        runs,
        vec![
            ColumnSpan { bottom: 0, top: 2 },
            ColumnSpan { bottom: 4, top: 5 },
            ColumnSpan { bottom: 6, top: 8 },
        ]
    );
}

#[test]
fn columns_are_laid_out_by_z_then_row_then_x() {
    let mut arr = Array3D::new(0, 2, 4, 2);
    // column (0, 0): one run [1, 3)
    arr.set(0, 1, 0, 1);
    arr.set(0, 2, 0, 1);
    // column (1, 0): two runs [0, 1) and [3, 4)
    arr.set(1, 0, 0, 1);
    arr.set(1, 3, 0, 1);
    // column (1, 1): one run [0, 4)
    for y in 0..4 {
        arr.set(1, y, 1, 1);
    }
    let world = World::from_array(&arr);
    assert_eq!((world.size_x(), world.size_y(), world.size_z()), (2, 4, 2));
    assert_eq!(world.sizes(), &[1, 2, 0, 1]);
    assert_eq!(
        world.spans(),
        &[
            1, 0, // z = 0, row 0
            3, 1, // z = 0, row 1
            0, 3, // z = 0, row 2
            0, 4, // z = 0, row 3
            0, 0, // z = 1, row 0
            0, 4, // z = 1, row 1
            0, 0, 0, 0,
        ]
    );
}

#[test]
fn decoding_the_spans_gives_the_column_back() {
    let (sx, sy, sz) = (5, 17, 4);
    let arr = random_volume(7, sx, sy, sz);
    let world = World::from_array(&arr);
    for x in 0..sx {
        for z in 0..sz {
            let col: Vec<bool> = (0..sy).map(|y| arr.get(x, y, z) > 0).collect();
            assert_eq!(decode(&spans_of(&world, x, z), sy), col);
        }
    }
}

#[test]
fn spans_are_sorted_and_never_touch() {
    let (sx, sy, sz) = (6, 24, 3);
    let arr = random_volume(99, sx, sy, sz);
    let world = World::from_array(&arr);
    for x in 0..sx {
        for z in 0..sz {
            let spans = spans_of(&world, x, z);
            for (bottom, top) in &spans {
                assert!(bottom < top);
                assert!(*top as usize <= sy);
            }
            for pair in spans.windows(2) {
                assert!(pair[0].1 < pair[1].0);
            }
        }
    }
}

#[test]
fn span_count_stays_within_half_the_height() {
    for sy in [1usize, 2, 7, 8, 31] {
        let arr = random_volume(sy as u64, 3, sy, 3);
        let world = World::from_array(&arr);
        assert_eq!(world.spans().len(), 3 * rows_of(sy) * 3);
        for count in world.sizes() {
            assert!(*count as usize <= (sy + 1) / 2);
        }
    }
}

#[test]
fn span_heights_add_up_to_the_solid_voxels() {
    let (sx, sy, sz) = (4, 19, 4);
    let arr = random_volume(1234, sx, sy, sz);
    let world = World::from_array(&arr);
    for x in 0..sx {
        for z in 0..sz {
            let solid = (0..sy).filter(|y| arr.get(x, *y, z) > 0).count() as u32;
            let height: u32 = spans_of(&world, x, z).iter().map(|(b, t)| t - b).sum();
            assert_eq!(height, solid);
        }
    }
}

#[test]
fn rows_past_the_last_run_are_zero() {
    let (sx, sy, sz) = (3, 10, 3);
    let arr = random_volume(5, sx, sy, sz);
    let world = World::from_array(&arr);
    let rows = rows_of(sy);
    for x in 0..sx {
        for z in 0..sz {
            let count = world.sizes()[z * sx + x] as usize;
            for k in 2 * count..rows {
                assert_eq!(world.spans()[z * rows * sx + k * sx + x], 0);
            }
        }
    }
}

#[test]
fn upload_handshake() {
    let mut world = World::from_array(&column_volume(&[1, 0]));
    assert!(world.needs_upload());
    world.uploaded();
    assert!(!world.needs_upload());
    assert_eq!(world.sizes(), &[1]);
    assert_eq!(world.spans(), &[0, 1]);
    world.uploaded();
    assert!(!world.needs_upload());
}

#[test]
fn maxima() {
    assert_eq!((MAX_SIZE_X, MAX_SIZE_Y, MAX_SIZE_Z), (256, 256, 256));
}

#[test]
fn array_cells_are_independent() {
    let mut arr = Array3D::new(9, 3, 4, 5);
    assert_eq!(arr.get(2, 3, 4), 9);
    arr.set(1, 2, 3, 77);
    for x in 0..3 {
        for y in 0..4 {
            for z in 0..5 {
                let expected = if (x, y, z) == (1, 2, 3) { 77 } else { 9 };
                assert_eq!(arr.get(x, y, z), expected);
            }
        }
    }
    let mut flat = Array2D::new(0, 2, 2);
    flat.set(1, 0, 5);
    flat.set(0, 1, 6);
}

#[test]
fn sphere_covers_the_cells_within_its_radius() {
    let mut arr = Array3D::new(0, 16, 16, 16);
    arr.add_sphere(8, 8, 8, 2);
    assert_eq!(arr.get(8, 8, 8), 1);
    assert_eq!(arr.get(6, 8, 8), 1);
    assert_eq!(arr.get(9, 8, 8), 1);
    // the box ends before center + radius
    assert_eq!(arr.get(10, 8, 8), 0);
    assert_eq!(arr.get(8, 10, 8), 0);
    assert_eq!(arr.get(8, 8, 10), 0);
    // outside the radius though inside the box
    assert_eq!(arr.get(6, 6, 8), 0);
    assert_eq!(arr.get(7, 7, 7), 1);
    assert_eq!(arr.get(7, 7, 6), 0);
    let solid = (0..16)
        .flat_map(|x| (0..16).flat_map(move |y| (0..16).map(move |z| (x, y, z))))
        .filter(|(x, y, z)| arr.get(*x, *y, *z) > 0)
        .count();
    assert_eq!(solid, 30);
}

#[test]
fn sphere_at_the_edge_is_cut_off() {
    let mut arr = Array3D::new(0, 4, 4, 4);
    arr.add_sphere(0, 0, 3, 3);
    assert_eq!(arr.get(0, 0, 3), 1);
    assert_eq!(arr.get(2, 0, 3), 1);
    assert_eq!(arr.get(3, 0, 3), 0);
    assert_eq!(arr.get(0, 0, 0), 1);
    assert_eq!(arr.get(0, 1, 0), 0);
}

#[test]
fn spheres_come_from_the_seed() {
    let mut arr = Array3D::new(0, 32, 32, 32);
    arr.fill_with_spheres(0xcafe_babe, 1, 3..25);
    // the first sphere has radius 20 and its center at (20, 24, 22)
    assert_eq!(arr.get(20, 24, 22), 1);
    assert_eq!(arr.get(1, 24, 22), 1);
    assert_eq!(arr.get(0, 24, 22), 1);
    assert_eq!(arr.get(20, 4, 22), 1);
    assert_eq!(arr.get(20, 3, 22), 0);
    assert_eq!(arr.get(0, 0, 0), 0);
    let mut again = Array3D::new(0, 32, 32, 32);
    again.fill_with_spheres(0xcafe_babe, 1, 3..25);
    let mut by_hand = Array3D::new(0, 32, 32, 32);
    by_hand.add_sphere(20, 24, 22, 20);
    for x in 0..32 {
        for y in 0..32 {
            for z in 0..32 {
                assert_eq!(arr.get(x, y, z), again.get(x, y, z));
                assert_eq!(arr.get(x, y, z), by_hand.get(x, y, z));
            }
        }
    }
}

#[test]
fn test_world_holds_the_test_scene() {
    let world = World::new(32, 32, 32);
    assert_eq!((world.size_x(), world.size_y(), world.size_z()), (32, 32, 32));
    assert!(world.needs_upload());
    assert_eq!(world.sizes().len(), 32 * 32);
    assert_eq!(world.spans().len(), 32 * 32 * 32);
    let mut arr = Array3D::new(0, 32, 32, 32);
    arr.fill_test_data();
    assert_eq!(arr.get(20, 20, 13), 1);
    assert_eq!(arr.get(16, 16, 13), 1);
    let same = World::from_array(&arr);
    assert_eq!(world.sizes(), same.sizes());
    assert_eq!(world.spans(), same.spans());
    let spans = spans_of(&world, 20, 13);
    assert!(spans.iter().any(|(b, t)| *b <= 20 && 20 < *t));
}

#[test]
fn world_gives_out_the_spans_of_a_column() {
    let (sx, sy, sz) = (4, 9, 3);
    let arr = random_volume(21, sx, sy, sz);
    let world = World::from_array(&arr);
    for x in 0..sx {
        for z in 0..sz {
            let spans = world.column(x, z);
            assert_eq!(spans, arr.column_spans(x, z));
            let pairs: Vec<(u32, u32)> = spans.iter().map(|s| (s.bottom, s.top)).collect();
            assert_eq!(pairs, spans_of(&world, x, z));
        }
    }
}

#[test]
fn decoded_spans_are_the_column() {
    let (sx, sy, sz) = (3, 12, 3);
    let arr = random_volume(77, sx, sy, sz);
    let world = World::from_array(&arr);
    for x in 0..sx {
        for z in 0..sz {
            let col: Vec<bool> = (0..sy).map(|y| arr.get(x, y, z) > 0).collect();
            assert_eq!(decode_spans(&world.column(x, z), sy), col);
        }
    }
}

#[test]
fn decoding_stops_at_the_height_asked_for() {
    let spans = vec![ColumnSpan { bottom: 0, top: 2 }, ColumnSpan { bottom: 5, top: 9 }];
    assert_eq!(decode_spans(&spans, 6), vec![true, true, false, false, false, true]);
    assert_eq!(decode_spans(&spans, 0), Vec::<bool>::new());
    assert_eq!(decode_spans(&vec![], 3), vec![false, false, false]);
    let scenario = vec![ColumnSpan { bottom: 3, top: 6 }];
    assert_eq!(
        decode_spans(&scenario, 8),
        vec![false, false, false, true, true, true, false, false]
    );
}
