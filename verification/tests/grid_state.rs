use wave_sim::field::{Field, GridError};
use wave_sim::fixed::{div_toward_zero, saturate_to_sample};
use wave_sim::grid::{GridState, Layer};
use wave_sim::params::ConfigurationError;

fn filled(dimx: usize, dimy: usize, a: i64, b: i64, c: i64) -> GridState {
    let mut g = GridState::new(dimx, dimy).unwrap();
    for x in 0..dimx {
        for y in 0..dimy {
            let k = (x * dimy + y) as i64;
            g.write(Layer::Current, x, y, a + k).unwrap();
            g.write(Layer::Previous, x, y, b + k).unwrap();
            g.write(Layer::TwoBack, x, y, c + k).unwrap();
        }
    }
    g
}

#[test]
fn new_grid_is_zero_everywhere() {
    let g = GridState::new(4, 6).unwrap();
    assert_eq!(g.dimx(), 4);
    assert_eq!(g.dimy(), 6);
    for layer in [Layer::Current, Layer::Previous, Layer::TwoBack] {
        for x in 0..4 {
            for y in 0..6 {
                assert_eq!(g.read(layer, x, y), Ok(0));
            }
        }
    }
}

#[test]
fn new_grid_refuses_bad_shapes() {
    assert_eq!(GridState::new(0, 5).err(), Some(ConfigurationError::EmptyGrid));
    assert_eq!(GridState::new(5, 0).err(), Some(ConfigurationError::EmptyGrid));
    let most = isize::MAX as usize / 24;
    assert_eq!(GridState::new(most + 1, 1).err(), Some(ConfigurationError::GridTooLarge));
    assert_eq!(GridState::new(1, most + 1).err(), Some(ConfigurationError::GridTooLarge));
    assert_eq!(GridState::new(usize::MAX, 2).err(), Some(ConfigurationError::GridTooLarge));
    assert_eq!(
        GridState::new(usize::MAX, usize::MAX).err(),
        Some(ConfigurationError::GridTooLarge)
    );
}

#[test]
fn write_changes_one_sample_of_one_layer() {
    let mut g = GridState::new(3, 4).unwrap();
    assert_eq!(g.write(Layer::Previous, 2, 3, 17), Ok(()));
    for layer in [Layer::Current, Layer::Previous, Layer::TwoBack] {
        for x in 0..3 {
            for y in 0..4 {
                let expected = if layer == Layer::Previous && x == 2 && y == 3 { 17 } else { 0 };
                assert_eq!(g.read(layer, x, y), Ok(expected));
            }
        }
    }
}

#[test]
fn index_is_not_transposed() {
    let mut g = GridState::new(2, 5).unwrap();
    g.write(Layer::Current, 1, 4, 9).unwrap();
    assert_eq!(g.read(Layer::Current, 1, 4), Ok(9));
    assert_eq!(g.read(Layer::Current, 4, 1), Err(GridError::IndexOutOfRange));
}

#[test]
fn access_outside_the_grid_is_refused() {
    let mut g = filled(3, 4, 100, 200, 300);
    for (x, y) in [(3usize, 0usize), (0, 4), (3, 4), (usize::MAX, 0), (0, usize::MAX)] {
        for layer in [Layer::Current, Layer::Previous, Layer::TwoBack] {
            assert_eq!(g.read(layer, x, y), Err(GridError::IndexOutOfRange));
            assert_eq!(g.write(layer, x, y, 5), Err(GridError::IndexOutOfRange));
        }
    }
    for x in 0..3 {
        for y in 0..4 {
            let k = (x * 4 + y) as i64;
            assert_eq!(g.read(Layer::Current, x, y), Ok(100 + k));
            assert_eq!(g.read(Layer::Previous, x, y), Ok(200 + k));
            assert_eq!(g.read(Layer::TwoBack, x, y), Ok(300 + k));
        }
    }
}

#[test]
fn rotate_moves_each_layer_one_role_back() {
    let mut g = filled(3, 4, 100, 200, 300);
    g.rotate();
    for x in 0..3 {
        for y in 0..4 {
            let k = (x * 4 + y) as i64;
            assert_eq!(g.read(Layer::Previous, x, y), Ok(100 + k));
            assert_eq!(g.read(Layer::TwoBack, x, y), Ok(200 + k));
            assert_eq!(g.read(Layer::Current, x, y), Ok(300 + k));
        }
    }
}

#[test]
fn three_rotations_restore_the_roles() {
    let mut g = filled(2, 2, 1000, 2000, 3000);
    g.rotate();
    g.rotate();
    g.rotate();
    for x in 0..2 {
        for y in 0..2 {
            let k = (x * 2 + y) as i64;
            assert_eq!(g.read(Layer::Current, x, y), Ok(1000 + k));
            assert_eq!(g.read(Layer::Previous, x, y), Ok(2000 + k));
            assert_eq!(g.read(Layer::TwoBack, x, y), Ok(3000 + k));
        }
    }
}

#[test]
fn assign_interior_leaves_the_ring() {
    let mut g = filled(5, 6, 100, 200, 300);
    let mut inner = Field::uniform(3, 4, 0).unwrap();
    for i in 0..3 {
        for j in 0..4 {
            inner.set(i, j, -((i * 10 + j) as i64) - 1).unwrap();
        }
    }
    g.assign_interior(1, &inner);
    for x in 0..5 {
        for y in 0..6 {
            let k = (x * 6 + y) as i64;
            let inside = (1..4).contains(&x) && (1..5).contains(&y);
            let expected = if inside { -(((x - 1) * 10 + (y - 1)) as i64) - 1 } else { 100 + k };
            assert_eq!(g.read(Layer::Current, x, y), Ok(expected));
            assert_eq!(g.read(Layer::Previous, x, y), Ok(200 + k));
            assert_eq!(g.read(Layer::TwoBack, x, y), Ok(300 + k));
        }
    }
}

#[test]
fn a_grid_of_millions_of_cells_is_made() {
    let mut g = GridState::new(1500, 1200).unwrap();
    assert_eq!((g.dimx(), g.dimy()), (1500, 1200));
    assert_eq!(g.read(Layer::TwoBack, 1499, 1199), Ok(0));
    g.write(Layer::Current, 1499, 1199, 5).unwrap();
    g.rotate();
    assert_eq!(g.read(Layer::Previous, 1499, 1199), Ok(5));
    assert_eq!(g.read(Layer::Current, 1500, 0), Err(GridError::IndexOutOfRange));
}

#[test]
fn field_holds_what_is_set() {
    let mut f = Field::uniform(3, 2, 7).unwrap();
    assert_eq!((f.dimx(), f.dimy()), (3, 2));
    assert_eq!(f.set(2, 1, -4), Ok(()));
    assert_eq!(f.set(3, 0, 1), Err(GridError::IndexOutOfRange));
    assert_eq!(f.set(0, 2, 1), Err(GridError::IndexOutOfRange));
    for x in 0..3 {
        for y in 0..2 {
            let expected = if x == 2 && y == 1 { -4 } else { 7 };
            assert_eq!(f.get(x, y), Ok(expected));
        }
    }
    assert_eq!(f.get(3, 0), Err(GridError::IndexOutOfRange));
    assert_eq!(f.get(1, 2), Err(GridError::IndexOutOfRange));
}

#[test]
fn field_refuses_bad_shapes() {
    assert_eq!(Field::uniform(0, 1, 0).err(), Some(ConfigurationError::EmptyGrid));
    assert_eq!(Field::uniform(1, 0, 0).err(), Some(ConfigurationError::EmptyGrid));
    let most = isize::MAX as usize / 8;
    assert_eq!(Field::uniform(most + 1, 1, 0).err(), Some(ConfigurationError::GridTooLarge));
    assert_eq!(Field::uniform(usize::MAX, usize::MAX, 0).err(), Some(ConfigurationError::GridTooLarge));
}

#[test]
fn division_rounds_toward_zero() {
    assert_eq!(div_toward_zero(7, 2), 3);
    assert_eq!(div_toward_zero(-7, 2), -3);
    assert_eq!(div_toward_zero(-1, 1000), 0);
    assert_eq!(div_toward_zero(0, 5), 0);
    assert_eq!(div_toward_zero(-6, 3), -2);
    assert_eq!(div_toward_zero(i128::MAX, 1), i128::MAX);
}

#[test]
fn stored_samples_saturate() {
    assert_eq!(saturate_to_sample(i64::MAX as i128 + 1), i64::MAX);
    assert_eq!(saturate_to_sample(i64::MIN as i128 - 1), i64::MIN);
    assert_eq!(saturate_to_sample(i128::MAX), i64::MAX);
    assert_eq!(saturate_to_sample(i128::MIN), i64::MIN);
    assert_eq!(saturate_to_sample(-42), -42);
}
