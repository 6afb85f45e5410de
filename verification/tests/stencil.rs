use wave_sim::coeff::Coefficients;
use wave_sim::field::Field;
use wave_sim::grid::{GridState, Layer};
use wave_sim::params::{Parameters, StencilOrder};
use wave_sim::stencil::{
    compute_interior, leapfrog_sample, update_with_laplace_operator_1,
    update_with_laplace_operator_4,
};

const ONE: i64 = 1_000_000;

fn coefficients(dimx: usize, dimy: usize, boundary_size: usize) -> Coefficients {
    let p = Parameters::new(dimx, dimy, ONE, ONE / 10, ONE, boundary_size, true, ONE).unwrap();
    Coefficients::derive(&p)
}

fn noisy_grid(dimx: usize, dimy: usize) -> GridState {
    let mut g = GridState::new(dimx, dimy).unwrap();
    let mut seed: i64 = 12345;
    for x in 0..dimx {
        for y in 0..dimy {
            for layer in [Layer::Current, Layer::Previous, Layer::TwoBack] {
                seed = (seed * 1_103_515_245 + 12_345) % 2_147_483_648;
                g.write(layer, x, y, seed % 4_000_001 - 2_000_000).unwrap();
            }
        }
    }
    g
}

fn prev(g: &GridState, x: usize, y: usize) -> i128 {
    g.read(Layer::Previous, x, y).unwrap() as i128
}

fn expected_1(tau: i128, g: &GridState, x: usize, y: usize) -> i64 {
    let lap = prev(g, x - 1, y) + prev(g, x + 1, y) + prev(g, x, y - 1) + prev(g, x, y + 1)
        - 4 * prev(g, x, y);
    let v = tau * lap / 1_000_000 + 2 * prev(g, x, y)
        - g.read(Layer::TwoBack, x, y).unwrap() as i128;
    v as i64
}

fn expected_4(tau: i128, g: &GridState, x: usize, y: usize) -> i64 {
    let along_x = -prev(g, x - 2, y) + 16 * prev(g, x - 1, y) - 30 * prev(g, x, y)
        + 16 * prev(g, x + 1, y)
        - prev(g, x + 2, y);
    let along_y = -prev(g, x, y - 2) + 16 * prev(g, x, y - 1) - 30 * prev(g, x, y)
        + 16 * prev(g, x, y + 1)
        - prev(g, x, y + 2);
    let v = tau * (along_x + along_y) / 12_000_000 + 2 * prev(g, x, y)
        - g.read(Layer::TwoBack, x, y).unwrap() as i128;
    v as i64
}

fn assert_all(inner: &Field, nx: usize, ny: usize, expected: &dyn Fn(usize, usize) -> i64) {
    assert_eq!((inner.dimx(), inner.dimy()), (nx, ny));
    for i in 0..nx {
        for j in 0..ny {
            assert_eq!(inner.get(i, j), Ok(expected(i, j)), "cell ({}, {})", i, j);
        }
    }
}

#[test]
fn leapfrog_of_one_cell() {
    assert_eq!(leapfrog_sample(10_000, -4 * ONE as i128, 1, ONE, 0), 1_960_000);
    assert_eq!(leapfrog_sample(10_000, ONE as i128, 1, 0, 0), 10_000);
    assert_eq!(leapfrog_sample(10_000, -4 * ONE as i128, 1, ONE, 500_000), 1_460_000);
    assert_eq!(leapfrog_sample(10_000, -60 * ONE as i128, 12, ONE, 0), 1_950_000);
    assert_eq!(leapfrog_sample(10_000, 16 * ONE as i128, 12, 0, 0), 13_333);
    assert_eq!(leapfrog_sample(10_000, -(ONE as i128), 12, 0, 0), -833);
    assert_eq!(leapfrog_sample(0, 123_456, 1, 5, 3), 7);
}

#[test]
fn leapfrog_saturates_only_the_result() {
    assert_eq!(leapfrog_sample(0, 0, 1, i64::MAX, 0), i64::MAX);
    assert_eq!(leapfrog_sample(0, 0, 1, i64::MIN, 0), i64::MIN);
    assert_eq!(leapfrog_sample(0, 0, 1, i64::MAX, i64::MAX), i64::MAX);
    assert_eq!(leapfrog_sample(0, 0, 1, 0, i64::MIN), i64::MAX);
    assert_eq!(leapfrog_sample(ONE, 1 << 64, 1, i64::MIN, 0), 0);
}

#[test]
fn leapfrog_with_the_largest_coefficients() {
    let big: i128 = 1 << 70;
    assert_eq!(leapfrog_sample(i64::MAX, 1, 1, 0, 0), 9_223_372_036_854);
    assert_eq!(leapfrog_sample(i64::MAX, -1, 1, 0, 0), -9_223_372_036_854);
    assert_eq!(leapfrog_sample(i64::MAX, 12, 12, 5, 3), 9_223_372_036_861);
    assert_eq!(leapfrog_sample(i64::MAX, ONE as i128, 1, 0, 0), i64::MAX);
    assert_eq!(leapfrog_sample(i64::MAX, ONE as i128 - 1, 1, 0, 0), 9_223_362_813_482_738_952);
    assert_eq!(leapfrog_sample(i64::MAX, big, 1, i64::MIN, i64::MAX), i64::MAX);
    assert_eq!(leapfrog_sample(i64::MAX, -big, 12, i64::MAX, i64::MIN), i64::MIN);
    assert_eq!(leapfrog_sample(1 << 56, big, 12, 0, 0), i64::MAX);
    assert_eq!(leapfrog_sample(1 << 56, -big, 12, 0, 0), i64::MIN);
    assert_eq!(leapfrog_sample((1 << 56) + 1, (1 << 63) + 1, 1, i64::MIN, i64::MAX), i64::MAX);
    assert_eq!(leapfrog_sample((1 << 56) + 1, -(1 << 63) - 1, 1, i64::MAX, i64::MIN), i64::MIN);
    assert_eq!(leapfrog_sample(i64::MAX, 1 << 63, 1, i64::MIN, i64::MAX), i64::MAX);
    assert_eq!(leapfrog_sample(1, big, 1, 0, 0), 1_180_591_620_717_411);
}

#[test]
fn order_1_single_excitation() {
    let c = coefficients(5, 5, 1);
    let mut g = GridState::new(5, 5).unwrap();
    g.write(Layer::Previous, 2, 2, ONE).unwrap();
    let inner = update_with_laplace_operator_1(&c, &g);
    assert_all(&inner, 3, 3, &|i, j| match (i, j) {
        (1, 1) => 1_960_000,
        (0, 1) | (2, 1) | (1, 0) | (1, 2) => 10_000,
        _ => 0,
    });
}

#[test]
fn order_1_reads_the_layer_two_steps_back() {
    let c = coefficients(5, 5, 1);
    let mut g = GridState::new(5, 5).unwrap();
    g.write(Layer::Previous, 2, 2, ONE).unwrap();
    g.write(Layer::TwoBack, 2, 2, 500_000).unwrap();
    g.write(Layer::TwoBack, 1, 1, 300).unwrap();
    let inner = update_with_laplace_operator_1(&c, &g);
    assert_eq!(inner.get(1, 1), Ok(1_460_000));
    assert_eq!(inner.get(0, 0), Ok(-300));
}

#[test]
fn order_1_ignores_the_current_layer() {
    let c = coefficients(4, 4, 1);
    let mut g = GridState::new(4, 4).unwrap();
    for x in 0..4 {
        for y in 0..4 {
            g.write(Layer::Current, x, y, 999).unwrap();
        }
    }
    let inner = update_with_laplace_operator_1(&c, &g);
    assert_all(&inner, 2, 2, &|_, _| 0);
}

#[test]
fn order_1_on_arbitrary_data() {
    let c = coefficients(7, 9, 1);
    let g = noisy_grid(7, 9);
    let inner = update_with_laplace_operator_1(&c, &g);
    assert_all(&inner, 5, 7, &|i, j| expected_1(10_000, &g, i + 1, j + 1));
}

#[test]
fn order_4_single_excitation() {
    let c = coefficients(13, 13, 4);
    let mut g = GridState::new(13, 13).unwrap();
    g.write(Layer::Previous, 6, 6, ONE).unwrap();
    let inner = update_with_laplace_operator_4(&c, &g);
    assert_all(&inner, 5, 5, &|i, j| match (i, j) {
        (2, 2) => 1_950_000,
        (1, 2) | (3, 2) | (2, 1) | (2, 3) => 13_333,
        (0, 2) | (4, 2) | (2, 0) | (2, 4) => -833,
        _ => 0,
    });
}

#[test]
fn order_4_on_arbitrary_data() {
    let c = coefficients(11, 12, 4);
    let g = noisy_grid(11, 12);
    let inner = update_with_laplace_operator_4(&c, &g);
    assert_all(&inner, 3, 4, &|i, j| expected_4(10_000, &g, i + 4, j + 4));
}

#[test]
fn compute_interior_selects_the_stencil() {
    let g1 = noisy_grid(6, 6);
    let c1 = coefficients(6, 6, 1);
    let inner1 = compute_interior(StencilOrder::Order1, &c1, &g1);
    assert_all(&inner1, 4, 4, &|i, j| expected_1(10_000, &g1, i + 1, j + 1));
    let g4 = noisy_grid(10, 9);
    let c4 = coefficients(10, 9, 4);
    let inner4 = compute_interior(StencilOrder::Order4, &c4, &g4);
    assert_all(&inner4, 2, 1, &|i, j| expected_4(10_000, &g4, i + 4, j + 4));
}

#[test]
fn smallest_grids_have_one_interior_cell() {
    let mut g = GridState::new(3, 3).unwrap();
    g.write(Layer::Previous, 1, 1, ONE).unwrap();
    g.write(Layer::Previous, 0, 1, 7 * ONE).unwrap();
    let inner = update_with_laplace_operator_1(&coefficients(3, 3, 1), &g);
    assert_all(&inner, 1, 1, &|_, _| 2_030_000);
    let mut g = GridState::new(9, 9).unwrap();
    g.write(Layer::Previous, 4, 4, ONE).unwrap();
    let inner = update_with_laplace_operator_4(&coefficients(9, 9, 4), &g);
    assert_all(&inner, 1, 1, &|_, _| 1_950_000);
}
