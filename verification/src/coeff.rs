//! The coefficient fields that a configuration determines.

use vstd::prelude::*;
use crate::field::Field;
use crate::fixed::{div_toward_zero, fx_mul, lemma_trunc_div_bounds, saturate, saturate_to_sample, SCALE};
use crate::grid::LAYERS;
use crate::params::Parameters;
use crate::storage::{fits_memory, uniform_plane, SAMPLE_BYTES};

verus! {

/// The factor of the Laplacian in the wave equation: the square of the
/// ratio `courant`, limited to the range of a sample.
pub open spec fn tau_of(courant: int) -> i64 {
    saturate(fx_mul(courant, courant))
}

/// The factor of the boundary condition: the ratio `courant` itself,
/// limited to the range of a sample.
pub open spec fn kappa_of(courant: int) -> i64 {
    saturate(courant)
}

/// No cell of `p` is negative.
pub open spec fn non_negative(p: Seq<Seq<i64>>) -> bool {
    forall|x: int, y: int| 0 <= x < p.len() && 0 <= y < p[x].len() ==> 0 <= #[trigger] p[x][y]
}

/// The two coefficient fields of a run, of the shape of its grid. They are
/// made from the parameters as a whole and not changed afterwards.
pub struct Coefficients {
    tau: Field,
    kappa: Field,
}

impl Coefficients {
    /// The factor of the Laplacian in the wave equation, cell by cell.
    pub closed spec fn tau_field(&self) -> Field {
        self.tau
    }

    /// The factor of the boundary condition, cell by cell.
    pub closed spec fn kappa_field(&self) -> Field {
        self.kappa
    }

    pub open spec fn spec_dimx(&self) -> usize {
        self.tau_field().spec_dimx()
    }

    pub open spec fn spec_dimy(&self) -> usize {
        self.tau_field().spec_dimy()
    }

    /// Both fields are well formed, of one shape, and nowhere negative.
    pub open spec fn wf(&self) -> bool {
        &&& self.tau_field().wf()
        &&& self.kappa_field().wf()
        &&& self.kappa_field().spec_dimx() == self.tau_field().spec_dimx()
        &&& self.kappa_field().spec_dimy() == self.tau_field().spec_dimy()
        &&& non_negative(self.tau_field()@)
        &&& non_negative(self.kappa_field()@)
    }

    /// The fields are those that `params` determines: `tau` holds the
    /// square of the ratio
    /// `wave_velocity * time_step_width / spatial_step_width` in every
    /// cell, and `kappa` the ratio itself.
    pub open spec fn derived_from(&self, params: Parameters) -> bool {
        &&& self.tau_field()@ == uniform_plane(
            params.spec_dimx() as int,
            params.spec_dimy() as int,
            tau_of(params.spec_courant()),
        )
        &&& self.kappa_field()@ == uniform_plane(
            params.spec_dimx() as int,
            params.spec_dimy() as int,
            kappa_of(params.spec_courant()),
        )
    }

    /// The coefficient fields of a configuration.
    pub fn derive(params: &Parameters) -> (c: Coefficients)
        requires
            params.wf(),
        ensures
            c.wf(),
            c.spec_dimx() == params.spec_dimx(),
            c.spec_dimy() == params.spec_dimy(),
            c.derived_from(*params),
    {
        let courant: i128 = params.courant();
        let kappa_value: i64 = saturate_to_sample(courant);
        let tau_value: i64 = if courant >= 0x8000_0000_0000_0000 {
            proof {
                let square = courant * courant;
                assert(square >= 0x8000_0000_0000_0000 * 0x8000_0000_0000_0000) by (nonlinear_arith)
                    requires
                        square == courant * courant,
                        courant >= 0x8000_0000_0000_0000,
                ;
                assert(square / (SCALE as int) > i64::MAX) by (nonlinear_arith)
                    requires
                        square >= 0x8000_0000_0000_0000 * 0x8000_0000_0000_0000,
                        SCALE == 1_000_000,
                ;
            }
            i64::MAX
        } else {
            assert(0 <= courant * courant < 0x8000_0000_0000_0000 * 0x8000_0000_0000_0000)
                by (nonlinear_arith)
                requires
                    0 <= courant < 0x8000_0000_0000_0000,
            ;
            let square: i128 = courant * courant;
            let tau_wide: i128 = div_toward_zero(square, SCALE as i128);
            proof {
                lemma_trunc_div_bounds(square as int, SCALE as int);
            }
            saturate_to_sample(tau_wide)
        };
        proof {
            let dimx = params.spec_dimx() as int;
            let dimy = params.spec_dimy() as int;
            assert(dimx * dimy >= 0) by (nonlinear_arith)
                requires
                    dimx >= 0,
                    dimy >= 0,
            ;
            assert(SAMPLE_BYTES == 8 && LAYERS == 3);
            assert(fits_memory(1, dimx, dimy));
            lemma_trunc_div_bounds(courant * courant, SCALE as int);
            assert(courant * courant >= 0) by (nonlinear_arith);
        }
        let tau = Field::filled(params.dimx(), params.dimy(), tau_value);
        let kappa = Field::filled(params.dimx(), params.dimy(), kappa_value);
        Coefficients { tau, kappa }
    }

    /// The field `tau`.
    pub fn tau(&self) -> (f: &Field)
        ensures
            *f == self.tau_field(),
    {
        &self.tau
    }

    /// The field `kappa`.
    pub fn kappa(&self) -> (f: &Field)
        ensures
            *f == self.kappa_field(),
    {
        &self.kappa
    }
}

} // verus!
