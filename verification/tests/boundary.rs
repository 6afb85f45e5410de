use wave_sim::boundary::{
    attenuate_sample, mur_sample, update_with_absorbing_boundary, update_with_attenuation,
};
use wave_sim::coeff::Coefficients;
use wave_sim::grid::{GridState, Layer};
use wave_sim::params::Parameters;

const ONE: i64 = 1_000_000;

fn coefficients(dimx: usize, dimy: usize, boundary_size: usize) -> Coefficients {
    let p = Parameters::new(dimx, dimy, ONE, ONE / 10, ONE, boundary_size, true, ONE).unwrap();
    Coefficients::derive(&p)
}

fn noisy_grid(dimx: usize, dimy: usize) -> GridState {
    let mut g = GridState::new(dimx, dimy).unwrap();
    let mut seed: i64 = 777;
    for x in 0..dimx {
        for y in 0..dimy {
            for layer in [Layer::Current, Layer::Previous, Layer::TwoBack] {
                seed = (seed * 1_103_515_245 + 12_345) % 2_147_483_648;
                g.write(layer, x, y, seed % 4_000_001 - 2_000_000).unwrap();
            }
        }
    }
    g
}

fn snapshot(g: &GridState, layer: Layer) -> Vec<Vec<i64>> {
    (0..g.dimx())
        .map(|x| (0..g.dimy()).map(|y| g.read(layer, x, y).unwrap()).collect())
        .collect()
}

fn inward(x: usize, dim: usize, h: usize) -> usize {
    if x < h {
        x + 1
    } else if x >= dim - h {
        x - 1
    } else {
        x
    }
}

fn expected_absorbed(
    kappa: i128,
    cur: &Vec<Vec<i64>>,
    prev: &Vec<Vec<i64>>,
    h: usize,
    x: usize,
    y: usize,
) -> i64 {
    let (dimx, dimy) = (cur.len(), cur[0].len());
    let (nx, ny) = (inward(x, dimx, h), inward(y, dimy, h));
    if (nx, ny) == (x, y) {
        return cur[x][y];
    }
    let new_inward = expected_absorbed(kappa, cur, prev, h, nx, ny) as i128;
    let v = prev[nx][ny] as i128
        + (kappa - 1_000_000) * (new_inward - prev[x][y] as i128) / (kappa + 1_000_000);
    v as i64
}

#[test]
fn attenuation_of_one_sample() {
    assert_eq!(attenuate_sample(ONE), 995_000);
    assert_eq!(attenuate_sample(-ONE), -995_000);
    assert_eq!(attenuate_sample(1000), 995);
    assert_eq!(attenuate_sample(1001), 995);
    assert_eq!(attenuate_sample(-1001), -995);
    assert_eq!(attenuate_sample(1), 0);
    assert_eq!(attenuate_sample(-1), 0);
    assert_eq!(attenuate_sample(0), 0);
    assert_eq!(attenuate_sample(i64::MAX), 9_177_255_176_670_501_927);
    assert_eq!(attenuate_sample(i64::MIN), -9_177_255_176_670_501_928);
}

#[test]
fn attenuation_covers_the_whole_current_layer() {
    let mut g = noisy_grid(6, 5);
    let cur = snapshot(&g, Layer::Current);
    let prev = snapshot(&g, Layer::Previous);
    let two_back = snapshot(&g, Layer::TwoBack);
    update_with_attenuation(&mut g);
    for x in 0..6 {
        for y in 0..5 {
            let expected = (cur[x][y] as i128 * 995 / 1000) as i64;
            assert_eq!(g.read(Layer::Current, x, y), Ok(expected));
        }
    }
    assert_eq!(snapshot(&g, Layer::Previous), prev);
    assert_eq!(snapshot(&g, Layer::TwoBack), two_back);
}

#[test]
fn absorbing_blend_of_one_cell() {
    assert_eq!(mur_sample(100_000, 300_000, 500_000, 100_000), -27_272);
    assert_eq!(mur_sample(100_000, ONE, 1_960_000, 0), -603_636);
    assert_eq!(mur_sample(100_000, 0, 10_000, 0), -8_181);
    assert_eq!(mur_sample(ONE, 42, 1_000, -1_000), 42);
    assert_eq!(mur_sample(0, 5, 100, 30), -65);
    assert_eq!(mur_sample(3 * ONE, 0, 400, 0), 200);
    assert_eq!(mur_sample(0, i64::MIN, i64::MAX, 0), i64::MIN);
    assert_eq!(mur_sample(0, i64::MAX, i64::MIN, 0), i64::MAX);
    assert_eq!(mur_sample(i64::MAX, 0, 1000, 0), 999);
    assert_eq!(mur_sample(i64::MAX, 7, i64::MAX, i64::MIN), i64::MAX);
    assert_eq!(mur_sample(i64::MAX, -7, i64::MIN, i64::MAX), i64::MIN);
    assert_eq!(mur_sample(2_000_000_000, 0, 2_001, 0), 1_999);
}

#[test]
fn absorbing_ring_of_width_one() {
    let c = coefficients(5, 5, 1);
    let mut g = GridState::new(5, 5).unwrap();
    g.write(Layer::Previous, 1, 2, 300_000).unwrap();
    g.write(Layer::Current, 1, 2, 500_000).unwrap();
    g.write(Layer::Previous, 0, 2, 100_000).unwrap();
    g.write(Layer::Current, 0, 2, 123).unwrap();
    g.write(Layer::Current, 4, 4, 456).unwrap();
    update_with_absorbing_boundary(1, &c, &mut g);
    assert_eq!(g.read(Layer::Current, 0, 2), Ok(-27_272));
    assert_eq!(g.read(Layer::Current, 1, 2), Ok(500_000));
    assert_eq!(g.read(Layer::Current, 4, 4), Ok(0));
    assert_eq!(g.read(Layer::Current, 0, 1), Ok(0));
    assert_eq!(g.read(Layer::Previous, 0, 2), Ok(100_000));
}

#[test]
fn absorbing_corner_takes_the_diagonal_neighbour() {
    let c = coefficients(5, 5, 1);
    let mut g = GridState::new(5, 5).unwrap();
    g.write(Layer::Previous, 1, 1, 300_000).unwrap();
    g.write(Layer::Current, 1, 1, 500_000).unwrap();
    g.write(Layer::Previous, 0, 0, 100_000).unwrap();
    g.write(Layer::Previous, 3, 3, ONE).unwrap();
    g.write(Layer::Current, 3, 3, 1_960_000).unwrap();
    update_with_absorbing_boundary(1, &c, &mut g);
    assert_eq!(g.read(Layer::Current, 0, 0), Ok(-27_272));
    assert_eq!(g.read(Layer::Current, 4, 4), Ok(-603_636));
    assert_eq!(g.read(Layer::Current, 4, 3), Ok(-603_636));
    assert_eq!(g.read(Layer::Current, 3, 4), Ok(-603_636));
    assert_eq!(g.read(Layer::Current, 4, 2), Ok(0));
}

#[test]
fn absorbing_ring_on_arbitrary_data() {
    for (dimx, dimy, h) in [(6usize, 7usize, 1usize), (3, 3, 1), (10, 11, 4), (9, 9, 4)] {
        let c = coefficients(dimx, dimy, h);
        let mut g = noisy_grid(dimx, dimy);
        let cur = snapshot(&g, Layer::Current);
        let prev = snapshot(&g, Layer::Previous);
        let two_back = snapshot(&g, Layer::TwoBack);
        update_with_absorbing_boundary(h, &c, &mut g);
        for x in 0..dimx {
            for y in 0..dimy {
                let expected = expected_absorbed(100_000, &cur, &prev, h, x, y);
                assert_eq!(g.read(Layer::Current, x, y), Ok(expected), "cell ({}, {})", x, y);
                let inside = x >= h && x < dimx - h && y >= h && y < dimy - h;
                if inside {
                    assert_eq!(expected, cur[x][y]);
                }
            }
        }
        assert_eq!(snapshot(&g, Layer::Previous), prev);
        assert_eq!(snapshot(&g, Layer::TwoBack), two_back);
    }
}

#[test]
fn absorbing_ring_of_width_four_works_outward() {
    let c = coefficients(9, 9, 4);
    let mut g = GridState::new(9, 9).unwrap();
    g.write(Layer::Current, 4, 4, 11 * ONE).unwrap();
    update_with_absorbing_boundary(4, &c, &mut g);
    let mut value: i64 = 11 * ONE;
    for depth in 1..=4usize {
        value = (-900_000i128 * value as i128 / 1_100_000) as i64;
        assert_eq!(g.read(Layer::Current, 4 - depth, 4), Ok(value));
        assert_eq!(g.read(Layer::Current, 4 + depth, 4), Ok(value));
        assert_eq!(g.read(Layer::Current, 4, 4 - depth), Ok(value));
        assert_eq!(g.read(Layer::Current, 4 - depth, 4 + depth), Ok(value));
    }
    assert_eq!(g.read(Layer::Current, 0, 4), Ok(4_929_376));
    assert_eq!(g.read(Layer::Current, 4, 4), Ok(11 * ONE));
}
