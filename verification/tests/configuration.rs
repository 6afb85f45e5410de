use wave_sim::coeff::Coefficients;
use wave_sim::params::{planes_fit_memory, ConfigurationError, Parameters, StencilOrder};

const ONE: i64 = 1_000_000;

fn valid(dimx: usize, dimy: usize, boundary_size: usize) -> Result<Parameters, ConfigurationError> {
    Parameters::new(dimx, dimy, ONE, ONE / 10, ONE, boundary_size, true, ONE)
}

#[test]
fn accepts_and_keeps_every_field() {
    let p = Parameters::new(20, 30, 2 * ONE, ONE / 4, 3 * ONE, 4, false, -7).unwrap();
    assert_eq!(p.dimx(), 20);
    assert_eq!(p.dimy(), 30);
    assert_eq!(p.wave_velocity(), 2 * ONE);
    assert_eq!(p.time_step_width(), ONE / 4);
    assert_eq!(p.spatial_step_width(), 3 * ONE);
    assert_eq!(p.boundary_size(), 4);
    assert!(!p.use_absorbing_boundary());
    assert_eq!(p.applied_force_amplitude(), -7);
    assert_eq!(p.order(), StencilOrder::Order4);
}

#[test]
fn valid_parameters_leave_an_interior() {
    for b in [1usize, 4] {
        for dim in 0usize..12 {
            match valid(dim, dim, b) {
                Ok(p) => {
                    assert!(p.dimx() > 2 * p.boundary_size());
                    assert!(p.dimy() > 2 * p.boundary_size());
                }
                Err(_) => assert!(dim <= 2 * b),
            }
        }
    }
}

#[test]
fn refuses_unsupported_boundary_sizes() {
    for b in [0usize, 2, 3, 5, 8, usize::MAX] {
        assert_eq!(valid(20, 20, b).unwrap_err(), ConfigurationError::UnsupportedBoundarySize);
        assert_eq!(
            StencilOrder::from_boundary_size(b),
            Err(ConfigurationError::UnsupportedBoundarySize)
        );
    }
    assert_eq!(StencilOrder::from_boundary_size(1), Ok(StencilOrder::Order1));
    assert_eq!(StencilOrder::from_boundary_size(4), Ok(StencilOrder::Order4));
    assert_eq!(StencilOrder::Order1.halo(), 1);
    assert_eq!(StencilOrder::Order4.halo(), 4);
}

#[test]
fn unsupported_boundary_size_comes_before_other_faults() {
    let r = Parameters::new(0, 0, 0, 0, 0, 2, true, 0);
    assert_eq!(r.unwrap_err(), ConfigurationError::UnsupportedBoundarySize);
}

#[test]
fn refuses_empty_grids() {
    assert_eq!(valid(0, 20, 1).unwrap_err(), ConfigurationError::EmptyGrid);
    assert_eq!(valid(20, 0, 4).unwrap_err(), ConfigurationError::EmptyGrid);
}

#[test]
fn refuses_grids_without_interior() {
    assert_eq!(valid(2, 20, 1).unwrap_err(), ConfigurationError::GridTooSmall);
    assert_eq!(valid(20, 1, 1).unwrap_err(), ConfigurationError::GridTooSmall);
    assert_eq!(valid(8, 20, 4).unwrap_err(), ConfigurationError::GridTooSmall);
    assert_eq!(valid(20, 8, 4).unwrap_err(), ConfigurationError::GridTooSmall);
    assert!(valid(3, 3, 1).is_ok());
    assert!(valid(9, 9, 4).is_ok());
}

#[test]
fn refuses_only_grids_that_cannot_be_allocated() {
    assert!(valid(5000, 5000, 1).is_ok());
    assert!(valid(4096, 4097, 4).is_ok());
    assert!(valid(100_000, 100_000, 1).is_ok());
    let most = isize::MAX as usize / 24;
    assert!(valid(most, 3, 1).is_err() || most < 3);
    assert!(valid(most / 3, 3, 1).is_ok());
    assert_eq!(valid(most / 3 + 1, 3, 1).unwrap_err(), ConfigurationError::GridTooLarge);
    assert_eq!(valid(usize::MAX, usize::MAX, 1).unwrap_err(), ConfigurationError::GridTooLarge);
    assert_eq!(valid(usize::MAX, 9, 4).unwrap_err(), ConfigurationError::GridTooLarge);
    assert_eq!(valid(9, usize::MAX, 4).unwrap_err(), ConfigurationError::GridTooLarge);
}

#[test]
fn memory_bound_counts_every_byte() {
    let most = isize::MAX as usize / 8;
    assert!(planes_fit_memory(1, most, 1));
    assert!(planes_fit_memory(1, 1, most));
    assert!(!planes_fit_memory(1, most + 1, 1));
    assert!(!planes_fit_memory(2, most, 1));
    assert!(planes_fit_memory(3, most / 3, 1));
    assert!(!planes_fit_memory(3, most / 3 + 1, 1));
    assert!(planes_fit_memory(3, 5000, 5000));
    assert!(!planes_fit_memory(1, usize::MAX, 2));
    assert!(!planes_fit_memory(1, usize::MAX, usize::MAX));
    assert!(!planes_fit_memory(usize::MAX, 1, 1));
    assert!(planes_fit_memory(0, usize::MAX, usize::MAX));
    assert!(planes_fit_memory(3, 0, usize::MAX));
    assert!(planes_fit_memory(3, usize::MAX, 0));
}

#[test]
fn refuses_constants_that_are_not_positive() {
    let fault = ConfigurationError::NonPositiveConstant;
    assert_eq!(Parameters::new(20, 20, 0, ONE, ONE, 1, true, ONE).unwrap_err(), fault);
    assert_eq!(Parameters::new(20, 20, ONE, -1, ONE, 1, true, ONE).unwrap_err(), fault);
    assert_eq!(Parameters::new(20, 20, ONE, ONE, 0, 1, true, ONE).unwrap_err(), fault);
    assert_eq!(Parameters::new(20, 20, ONE, ONE, i64::MIN, 1, true, ONE).unwrap_err(), fault);
}

#[test]
fn accepts_every_positive_ratio() {
    let p = Parameters::new(20, 20, 2000 * ONE, ONE, ONE, 1, true, ONE).unwrap();
    assert_eq!(p.courant(), 2_000_000_000);
    let q = Parameters::new(20, 20, i64::MAX, i64::MAX, 1, 1, true, ONE).unwrap();
    assert_eq!(q.courant(), i64::MAX as i128 * i64::MAX as i128);
    let r = Parameters::new(20, 20, 1, 1, i64::MAX, 1, true, ONE).unwrap();
    assert_eq!(r.courant(), 0);
}

#[test]
fn coefficients_saturate_at_the_range_of_a_sample() {
    let p = Parameters::new(3, 3, 2000 * ONE, ONE, ONE, 1, true, ONE).unwrap();
    let c = Coefficients::derive(&p);
    assert_eq!(c.tau().get(1, 1), Ok(4_000_000_000_000));
    assert_eq!(c.kappa().get(1, 1), Ok(2_000_000_000));
    let p = Parameters::new(3, 3, 3_037_000_499_976, ONE, ONE, 1, true, ONE).unwrap();
    let c = Coefficients::derive(&p);
    assert_eq!(c.tau().get(0, 0), Ok(9_223_372_036_854_473_976));
    assert_eq!(c.kappa().get(0, 0), Ok(3_037_000_499_976));
    let p = Parameters::new(3, 3, 3_037_000_499_977, ONE, ONE, 1, true, ONE).unwrap();
    let c = Coefficients::derive(&p);
    assert_eq!(c.tau().get(0, 0), Ok(i64::MAX));
    assert_eq!(c.kappa().get(0, 0), Ok(3_037_000_499_977));
    let p = Parameters::new(3, 3, i64::MAX, 2 * ONE, ONE, 1, true, ONE).unwrap();
    let c = Coefficients::derive(&p);
    assert_eq!(c.tau().get(2, 2), Ok(i64::MAX));
    assert_eq!(c.kappa().get(2, 2), Ok(i64::MAX));
    let p = Parameters::new(3, 3, i64::MAX, i64::MAX, 1, 1, true, ONE).unwrap();
    let c = Coefficients::derive(&p);
    assert_eq!(c.tau().get(2, 0), Ok(i64::MAX));
    assert_eq!(c.kappa().get(0, 2), Ok(i64::MAX));
}

#[test]
fn courant_ratio_rounds_toward_zero() {
    let p = Parameters::new(20, 20, ONE, ONE / 10, ONE, 1, true, ONE).unwrap();
    assert_eq!(p.courant(), 100_000);
    let q = Parameters::new(20, 20, ONE, ONE, 3 * ONE, 1, true, ONE).unwrap();
    assert_eq!(q.courant(), 333_333);
    let r = Parameters::new(20, 20, 1, 1, i64::MAX, 1, true, ONE).unwrap();
    assert_eq!(r.courant(), 0);
}

#[test]
fn a_quarter_ratio_gives_a_sixteenth_and_a_quarter() {
    let p = Parameters::new(20, 20, ONE, ONE / 4, ONE, 1, true, ONE).unwrap();
    let c = Coefficients::derive(&p);
    assert_eq!((c.tau().dimx(), c.tau().dimy()), (20, 20));
    assert_eq!((c.kappa().dimx(), c.kappa().dimy()), (20, 20));
    for x in 0..20 {
        for y in 0..20 {
            assert_eq!(c.tau().get(x, y), Ok(62_500));
            assert_eq!(c.kappa().get(x, y), Ok(250_000));
        }
    }
}

#[test]
fn coefficient_fields_hold_the_derived_values() {
    let p = Parameters::new(5, 7, ONE, ONE / 10, ONE, 1, true, ONE).unwrap();
    let c = Coefficients::derive(&p);
    assert_eq!(c.tau().dimx(), 5);
    assert_eq!(c.tau().dimy(), 7);
    assert_eq!(c.kappa().dimx(), 5);
    assert_eq!(c.kappa().dimy(), 7);
    for x in 0..5 {
        for y in 0..7 {
            assert_eq!(c.tau().get(x, y), Ok(10_000));
            assert_eq!(c.kappa().get(x, y), Ok(100_000));
        }
    }
    let q = Parameters::new(3, 3, 1000 * ONE, ONE, ONE, 1, true, ONE).unwrap();
    let d = Coefficients::derive(&q);
    assert_eq!(d.tau().get(1, 1), Ok(1_000_000_000_000));
    assert_eq!(d.kappa().get(1, 1), Ok(1_000_000_000));
}
