//! Configuration of a run, validated once at construction.

use vstd::prelude::*;
use crate::fixed::{div_toward_zero, trunc_div};
use crate::grid::LAYERS;
use crate::storage::{fits_memory, SAMPLE_BYTES};

verus! {

/// Why a configuration was refused.
#[derive(Clone, Copy, Debug, PartialEq, Eq)]
pub enum ConfigurationError {
    /// `boundary_size` is neither 1 nor 4.
    UnsupportedBoundarySize,
    /// A grid dimension is zero.
    EmptyGrid,
    /// A grid dimension does not exceed twice the boundary size, so that
    /// no interior is left.
    GridTooSmall,
    /// The three layers of the grid would take more bytes than can be
    /// allocated.
    GridTooLarge,
    /// The wave velocity, the time step or the spatial step is not positive.
    NonPositiveConstant,
    /// The period of the repeating force is zero.
    ZeroForcePeriod,
}

/// The discrete Laplacian in use. It is chosen by the boundary size, which
/// is also the width of the halo kept around the interior.
#[derive(Clone, Copy, Debug, PartialEq, Eq)]
pub enum StencilOrder {
    /// Five-point stencil, halo of one cell.
    Order1,
    /// Nine-point stencil of fourth-order accuracy, halo of four cells.
    Order4,
}

/// The stencil that a boundary size selects, if any.
pub open spec fn order_of(boundary_size: int) -> Option<StencilOrder> {
    if boundary_size == 1 {
        Some(StencilOrder::Order1)
    } else if boundary_size == 4 {
        Some(StencilOrder::Order4)
    } else {
        None
    }
}

impl StencilOrder {
    /// Width of the halo, which is the boundary size that selects `self`.
    pub open spec fn spec_halo(self) -> int {
        match self {
            StencilOrder::Order1 => 1,
            StencilOrder::Order4 => 4,
        }
    }

    /// How far from a cell the stencil reads along each axis.
    pub open spec fn spec_reach(self) -> int {
        match self {
            StencilOrder::Order1 => 1,
            StencilOrder::Order4 => 2,
        }
    }

    /// Selects the stencil for a boundary size; every size but 1 and 4 is
    /// refused.
    pub fn from_boundary_size(boundary_size: usize) -> (r: Result<StencilOrder, ConfigurationError>)
        ensures
            r == match order_of(boundary_size as int) {
                Some(order) => Ok::<StencilOrder, ConfigurationError>(order),
                None => Err(ConfigurationError::UnsupportedBoundarySize),
            },
    {
        if boundary_size == 1 {
            Ok(StencilOrder::Order1)
        } else if boundary_size == 4 {
            Ok(StencilOrder::Order4)
        } else {
            Err(ConfigurationError::UnsupportedBoundarySize)
        }
    }

    /// Width of the halo in cells.
    pub fn halo(self) -> (h: usize)
        ensures
            h == self.spec_halo(),
    {
        match self {
            StencilOrder::Order1 => 1,
            StencilOrder::Order4 => 4,
        }
    }
}

/// The ratio `wave_velocity * time_step_width / spatial_step_width` in
/// fixed-point units.
pub open spec fn courant_of(wave_velocity: int, time_step_width: int, spatial_step_width: int) -> int
    recommends
        spatial_step_width > 0,
{
    trunc_div(wave_velocity * time_step_width, spatial_step_width)
}

/// The first fault of a configuration, or `None` where it is valid.
pub open spec fn config_fault(
    dimx: int,
    dimy: int,
    wave_velocity: int,
    time_step_width: int,
    spatial_step_width: int,
    boundary_size: int,
) -> Option<ConfigurationError> {
    if order_of(boundary_size).is_none() {
        Some(ConfigurationError::UnsupportedBoundarySize)
    } else if dimx <= 0 || dimy <= 0 {
        Some(ConfigurationError::EmptyGrid)
    } else if dimx <= 2 * boundary_size || dimy <= 2 * boundary_size {
        Some(ConfigurationError::GridTooSmall)
    } else if !fits_memory(LAYERS as int, dimx, dimy) {
        Some(ConfigurationError::GridTooLarge)
    } else if wave_velocity <= 0 || time_step_width <= 0 || spatial_step_width <= 0 {
        Some(ConfigurationError::NonPositiveConstant)
    } else {
        None
    }
}

/// Whether `planes` planes of `dimx` by `dimy` samples can be allocated.
pub fn planes_fit_memory(planes: usize, dimx: usize, dimy: usize) -> (fits: bool)
    ensures
        fits == fits_memory(planes as int, dimx as int, dimy as int),
{
    assert(SAMPLE_BYTES == 8);
    assert(isize::MAX <= usize::MAX);
    if planes == 0 || dimx == 0 || dimy == 0 {
        assert(planes * (dimx * dimy) == 0) by (nonlinear_arith)
            requires
                planes == 0 || dimx == 0 || dimy == 0,
        ;
        return true;
    }
    assert(dimx * dimy >= 1) by (nonlinear_arith)
        requires
            dimx >= 1,
            dimy >= 1,
    ;
    assert(planes * (dimx * dimy) >= dimx * dimy) by (nonlinear_arith)
        requires
            planes >= 1,
            dimx * dimy >= 1,
    ;
    match dimx.checked_mul(dimy) {
        None => false,
        Some(cells) => match planes.checked_mul(cells) {
            None => false,
            Some(samples) => match SAMPLE_BYTES.checked_mul(samples) {
                None => false,
                Some(bytes) => bytes <= isize::MAX as usize,
            },
        },
    }
}

/// Configuration of a run. A value of this type has passed validation:
/// the constructor is the only way to make one.
#[derive(Clone, Copy, Debug)]
pub struct Parameters {
    dimx: usize,
    dimy: usize,
    wave_velocity: i64,
    time_step_width: i64,
    spatial_step_width: i64,
    boundary_size: usize,
    use_absorbing_boundary: bool,
    applied_force_amplitude: i64,
}

impl Parameters {
    pub closed spec fn spec_dimx(&self) -> usize {
        self.dimx
    }

    pub closed spec fn spec_dimy(&self) -> usize {
        self.dimy
    }

    pub closed spec fn spec_wave_velocity(&self) -> i64 {
        self.wave_velocity
    }

    pub closed spec fn spec_time_step_width(&self) -> i64 {
        self.time_step_width
    }

    pub closed spec fn spec_spatial_step_width(&self) -> i64 {
        self.spatial_step_width
    }

    pub closed spec fn spec_boundary_size(&self) -> usize {
        self.boundary_size
    }

    pub closed spec fn spec_use_absorbing_boundary(&self) -> bool {
        self.use_absorbing_boundary
    }

    pub closed spec fn spec_applied_force_amplitude(&self) -> i64 {
        self.applied_force_amplitude
    }

    /// The configuration is free of faults.
    pub open spec fn wf(&self) -> bool {
        config_fault(
            self.spec_dimx() as int,
            self.spec_dimy() as int,
            self.spec_wave_velocity() as int,
            self.spec_time_step_width() as int,
            self.spec_spatial_step_width() as int,
            self.spec_boundary_size() as int,
        ).is_none()
    }

    /// The stencil that the boundary size selects.
    pub open spec fn spec_order(&self) -> StencilOrder
        recommends
            self.wf(),
    {
        order_of(self.spec_boundary_size() as int).unwrap()
    }

    /// The ratio of the three constants, in fixed-point units.
    pub open spec fn spec_courant(&self) -> int {
        courant_of(
            self.spec_wave_velocity() as int,
            self.spec_time_step_width() as int,
            self.spec_spatial_step_width() as int,
        )
    }

    /// Validates a configuration. The lengths are in cells; the three
    /// constants and the amplitude are fixed-point numbers. The result is
    /// the first fault in the order of `config_fault`, or the parameters
    /// with every field as given.
    pub fn new(
        dimx: usize,
        dimy: usize,
        wave_velocity: i64,
        time_step_width: i64,
        spatial_step_width: i64,
        boundary_size: usize,
        use_absorbing_boundary: bool,
        applied_force_amplitude: i64,
    ) -> (r: Result<Parameters, ConfigurationError>)
        ensures
            match config_fault(
                dimx as int,
                dimy as int,
                wave_velocity as int,
                time_step_width as int,
                spatial_step_width as int,
                boundary_size as int,
            ) {
                Some(fault) => r == Err::<Parameters, ConfigurationError>(fault),
                None => r.is_ok() && r.unwrap().wf() && r.unwrap().spec_dimx() == dimx
                    && r.unwrap().spec_dimy() == dimy && r.unwrap().spec_wave_velocity()
                    == wave_velocity && r.unwrap().spec_time_step_width() == time_step_width
                    && r.unwrap().spec_spatial_step_width() == spatial_step_width
                    && r.unwrap().spec_boundary_size() == boundary_size
                    && r.unwrap().spec_use_absorbing_boundary() == use_absorbing_boundary
                    && r.unwrap().spec_applied_force_amplitude() == applied_force_amplitude,
            },
    {
        if StencilOrder::from_boundary_size(boundary_size).is_err() {
            return Err(ConfigurationError::UnsupportedBoundarySize);
        }
        if dimx == 0 || dimy == 0 {
            return Err(ConfigurationError::EmptyGrid);
        }
        if dimx <= 2 * boundary_size || dimy <= 2 * boundary_size {
            return Err(ConfigurationError::GridTooSmall);
        }
        if !planes_fit_memory(LAYERS, dimx, dimy) {
            return Err(ConfigurationError::GridTooLarge);
        }
        if wave_velocity <= 0 || time_step_width <= 0 || spatial_step_width <= 0 {
            return Err(ConfigurationError::NonPositiveConstant);
        }
        Ok(
            Parameters {
                dimx,
                dimy,
                wave_velocity,
                time_step_width,
                spatial_step_width,
                boundary_size,
                use_absorbing_boundary,
                applied_force_amplitude,
            },
        )
    }

    #[verifier::when_used_as_spec(spec_dimx)]
    pub fn dimx(&self) -> (v: usize)
        ensures
            v == self.spec_dimx(),
    {
        self.dimx
    }

    #[verifier::when_used_as_spec(spec_dimy)]
    pub fn dimy(&self) -> (v: usize)
        ensures
            v == self.spec_dimy(),
    {
        self.dimy
    }

    #[verifier::when_used_as_spec(spec_wave_velocity)]
    pub fn wave_velocity(&self) -> (v: i64)
        ensures
            v == self.spec_wave_velocity(),
    {
        self.wave_velocity
    }

    #[verifier::when_used_as_spec(spec_time_step_width)]
    pub fn time_step_width(&self) -> (v: i64)
        ensures
            v == self.spec_time_step_width(),
    {
        self.time_step_width
    }

    #[verifier::when_used_as_spec(spec_spatial_step_width)]
    pub fn spatial_step_width(&self) -> (v: i64)
        ensures
            v == self.spec_spatial_step_width(),
    {
        self.spatial_step_width
    }

    #[verifier::when_used_as_spec(spec_boundary_size)]
    pub fn boundary_size(&self) -> (v: usize)
        ensures
            v == self.spec_boundary_size(),
    {
        self.boundary_size
    }

    #[verifier::when_used_as_spec(spec_use_absorbing_boundary)]
    pub fn use_absorbing_boundary(&self) -> (v: bool)
        ensures
            v == self.spec_use_absorbing_boundary(),
    {
        self.use_absorbing_boundary
    }

    #[verifier::when_used_as_spec(spec_applied_force_amplitude)]
    pub fn applied_force_amplitude(&self) -> (v: i64)
        ensures
            v == self.spec_applied_force_amplitude(),
    {
        self.applied_force_amplitude
    }

    /// The stencil that the boundary size selects.
    pub fn order(&self) -> (o: StencilOrder)
        requires
            self.wf(),
        ensures
            o == self.spec_order(),
            o.spec_halo() == self.spec_boundary_size(),
    {
        if self.boundary_size == 1 {
            StencilOrder::Order1
        } else {
            StencilOrder::Order4
        }
    }

    /// The ratio of the three constants, in fixed-point units. It can
    /// exceed what a sample holds, so it comes in a wider type.
    pub fn courant(&self) -> (c: i128)
        requires
            self.wf(),
        ensures
            c == self.spec_courant(),
            0 <= c < 0x4000_0000_0000_0000_0000_0000_0000_0000,
    {
        assert(0 < self.wave_velocity * self.time_step_width
            < 0x4000_0000_0000_0000_0000_0000_0000_0000) by (nonlinear_arith)
            requires
                0 < self.wave_velocity <= i64::MAX,
                0 < self.time_step_width <= i64::MAX,
        ;
        let product: i128 = self.wave_velocity as i128 * self.time_step_width as i128;
        let courant: i128 = div_toward_zero(product, self.spatial_step_width as i128);
        proof {
            crate::fixed::lemma_trunc_div_bounds(product as int, self.spatial_step_width as int);
        }
        courant
    }
}

/// A valid configuration leaves an interior: both dimensions exceed twice
/// the boundary size, which is 1 or 4. Its three constants are positive.
pub proof fn lemma_valid_parameters_have_interior(p: Parameters)
    requires
        p.wf(),
    ensures
        p.spec_boundary_size() == 1 || p.spec_boundary_size() == 4,
        p.spec_dimx() > 2 * p.spec_boundary_size(),
        p.spec_dimy() > 2 * p.spec_boundary_size(),
        p.spec_wave_velocity() > 0,
        p.spec_time_step_width() > 0,
        p.spec_spatial_step_width() > 0,
{
}

/// Nothing is refused but what `config_fault` lists: a configuration with
/// a supported boundary size, an interior, positive constants and a grid
/// that the machine can hold is valid, whatever the size of its numbers.
pub proof fn lemma_valid_iff_no_listed_fault(
    dimx: int,
    dimy: int,
    wave_velocity: int,
    time_step_width: int,
    spatial_step_width: int,
    boundary_size: int,
)
    ensures
        config_fault(
            dimx,
            dimy,
            wave_velocity,
            time_step_width,
            spatial_step_width,
            boundary_size,
        ).is_none() <==> ((boundary_size == 1 || boundary_size == 4) && dimx > 2 * boundary_size
            && dimy > 2 * boundary_size && fits_memory(LAYERS as int, dimx, dimy) && wave_velocity
            > 0 && time_step_width > 0 && spatial_step_width > 0),
{
}

} // verus!
