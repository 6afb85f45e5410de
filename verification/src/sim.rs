//! One run of the simulation: the configuration, what is derived from it,
//! the grid, and the order in which a step does its work.

use vstd::prelude::*;
use crate::boundary::{absorbed, attenuated, update_with_absorbing_boundary, update_with_attenuation};
use crate::coeff::Coefficients;
use crate::field::GridError;
use crate::force::{inject_all, injected_all, sourced, timer_carry, timer_fires, ForceEvent, ForceInjector};
use crate::grid::{with_interior, zero_layers, GridState, Layer};
use crate::params::{ConfigurationError, Parameters, StencilOrder};
use crate::stencil::{compute_interior, interior_of};

verus! {

/// The current layer that one step produces. `newest` and `older` are the
/// two layers of history that the stencil reads; `stale` is the storage
/// that the step writes, of which only the ring can show through, and
/// only until the boundary has run.
pub open spec fn stepped_current(
    order: StencilOrder,
    absorbing: bool,
    tau: Seq<Seq<i64>>,
    kappa: Seq<Seq<i64>>,
    newest: Seq<Seq<i64>>,
    older: Seq<Seq<i64>>,
    stale: Seq<Seq<i64>>,
    dimx: int,
    dimy: int,
) -> Seq<Seq<i64>> {
    let h = order.spec_halo();
    let fresh = with_interior(stale, interior_of(order, tau, newest, older, dimx, dimy), dimx, dimy, h);
    if absorbing {
        absorbed(kappa, fresh, newest, dimx, dimy, h)
    } else {
        attenuated(fresh, dimx, dimy)
    }
}

/// The three layers after one step: the new current layer, then what were
/// the current and the previous layer.
pub open spec fn stepped(
    order: StencilOrder,
    absorbing: bool,
    tau: Seq<Seq<i64>>,
    kappa: Seq<Seq<i64>>,
    layers: Seq<Seq<Seq<i64>>>,
    dimx: int,
    dimy: int,
) -> Seq<Seq<Seq<i64>>> {
    seq![
        stepped_current(order, absorbing, tau, kappa, layers[0], layers[1], layers[2], dimx, dimy),
        layers[0],
        layers[1],
    ]
}

/// The three layers with the current one replaced.
pub open spec fn with_current(layers: Seq<Seq<Seq<i64>>>, cur: Seq<Seq<i64>>) -> Seq<Seq<Seq<i64>>> {
    seq![cur, layers[1], layers[2]]
}

/// A run: validated parameters, the coefficient fields derived from them,
/// the grid and the repeating source.
pub struct Simulation {
    params: Parameters,
    coeffs: Coefficients,
    grid: GridState,
    injector: ForceInjector,
}

impl Simulation {
    pub closed spec fn spec_params(&self) -> Parameters {
        self.params
    }

    pub closed spec fn spec_coeffs(&self) -> Coefficients {
        self.coeffs
    }

    pub closed spec fn spec_grid(&self) -> GridState {
        self.grid
    }

    pub closed spec fn spec_injector(&self) -> ForceInjector {
        self.injector
    }

    /// The parts are well formed, the grid and the coefficient fields have
    /// the shape that the parameters give, and the coefficient fields hold
    /// what the parameters determine: `tau` the squared ratio of the three
    /// constants in every cell, `kappa` the ratio.
    pub open spec fn wf(&self) -> bool {
        &&& self.spec_params().wf()
        &&& self.spec_coeffs().wf()
        &&& self.spec_grid().wf()
        &&& self.spec_injector().wf()
        &&& self.spec_grid().spec_dimx() == self.spec_params().spec_dimx()
        &&& self.spec_grid().spec_dimy() == self.spec_params().spec_dimy()
        &&& self.spec_coeffs().spec_dimx() == self.spec_params().spec_dimx()
        &&& self.spec_coeffs().spec_dimy() == self.spec_params().spec_dimy()
        &&& self.spec_coeffs().derived_from(self.spec_params())
    }

    /// The three layers after one step from `layers`, under this run's
    /// configuration.
    pub open spec fn spec_step(&self, layers: Seq<Seq<Seq<i64>>>) -> Seq<Seq<Seq<i64>>> {
        stepped(
            self.spec_params().spec_order(),
            self.spec_params().spec_use_absorbing_boundary(),
            self.spec_coeffs().tau_field()@,
            self.spec_coeffs().kappa_field()@,
            layers,
            self.spec_params().spec_dimx() as int,
            self.spec_params().spec_dimy() as int,
        )
    }

    /// The current layer `cur` after the repeating source, if it fired,
    /// and then the events, under this run's configuration.
    pub open spec fn spec_forced(
        &self,
        cur: Seq<Seq<i64>>,
        fired: bool,
        events: Seq<ForceEvent>,
    ) -> Seq<Seq<i64>> {
        injected_all(
            sourced(
                cur,
                fired,
                self.spec_params().spec_dimx() as int,
                self.spec_params().spec_dimy() as int,
                self.spec_params().spec_applied_force_amplitude(),
            ),
            events,
            self.spec_params().spec_dimx() as int,
            self.spec_params().spec_dimy() as int,
            self.spec_params().spec_applied_force_amplitude(),
        )
    }

    /// Starts a run: the grid at zero, the coefficient fields derived from
    /// the parameters alone (`wf` says what they hold), the source at the
    /// start of its first interval. Nothing is refused but a period of
    /// zero.
    pub fn setup(params: Parameters, force_period: u64) -> (r: Result<Simulation, ConfigurationError>)
        requires
            params.wf(),
        ensures
            force_period == 0 ==> r == Err::<Simulation, ConfigurationError>(
                ConfigurationError::ZeroForcePeriod,
            ),
            force_period > 0 ==> r.is_ok() && r.unwrap().wf() && r.unwrap().spec_params() == params
                && r.unwrap().spec_grid()@ == zero_layers(
                params.spec_dimx() as int,
                params.spec_dimy() as int,
            ) && r.unwrap().spec_coeffs().derived_from(params)
                && r.unwrap().spec_injector().spec_period() == force_period
                && r.unwrap().spec_injector().spec_elapsed() == 0,
    {
        match ForceInjector::new(force_period) {
            Err(e) => Err(e),
            Ok(injector) => {
                let coeffs = Coefficients::derive(&params);
                let grid = GridState::zeroed(params.dimx(), params.dimy());
                Ok(Simulation { params, coeffs, grid, injector })
            },
        }
    }

    /// Starts the run over with the given parameters: the grid is made
    /// anew at zero and the coefficient fields are derived again from the
    /// parameters alone, so that nothing of the earlier run is left in
    /// either. The repeating source keeps its period and its place in the
    /// interval.
    pub fn reset(&mut self, params: Parameters)
        requires
            old(self).wf(),
            params.wf(),
        ensures
            final(self).wf(),
            final(self).spec_params() == params,
            final(self).spec_grid()@ == zero_layers(
                params.spec_dimx() as int,
                params.spec_dimy() as int,
            ),
            final(self).spec_coeffs().derived_from(params),
            final(self).spec_injector() == old(self).spec_injector(),
    {
        let coeffs = Coefficients::derive(&params);
        let grid = GridState::zeroed(params.dimx(), params.dimy());
        self.params = params;
        self.coeffs = coeffs;
        self.grid = grid;
    }

    /// The parameters of the run.
    pub fn params(&self) -> (p: &Parameters)
        ensures
            *p == self.spec_params(),
    {
        &self.params
    }

    /// The coefficient fields of the run.
    pub fn coefficients(&self) -> (c: &Coefficients)
        ensures
            *c == self.spec_coeffs(),
    {
        &self.coeffs
    }

    /// The grid, to read.
    pub fn grid(&self) -> (g: &GridState)
        ensures
            *g == self.spec_grid(),
    {
        &self.grid
    }

    /// The sample of the current layer at `(x, y)`.
    pub fn sample(&self, x: usize, y: usize) -> (r: Result<i64, GridError>)
        requires
            self.wf(),
        ensures
            x < self.spec_params().spec_dimx() && y < self.spec_params().spec_dimy() ==> r == Ok::<
                i64,
                GridError,
            >(self.spec_grid().current()[x as int][y as int]),
            x >= self.spec_params().spec_dimx() || y >= self.spec_params().spec_dimy() ==> r
                == Err::<i64, GridError>(GridError::IndexOutOfRange),
    {
        self.grid.read(Layer::Current, x, y)
    }

    /// The first part of a step: the repeating source has its turn, then
    /// the events are applied in the order of their arrival. Only the
    /// current layer can change. The result says whether the repeating
    /// source fired.
    pub fn apply_force(&mut self, elapsed_time: u64, events: &Vec<ForceEvent>) -> (fired: bool)
        requires
            old(self).wf(),
        ensures
            final(self).wf(),
            final(self).spec_params() == old(self).spec_params(),
            final(self).spec_coeffs() == old(self).spec_coeffs(),
            final(self).spec_injector().spec_period() == old(self).spec_injector().spec_period(),
            fired == timer_fires(
                old(self).spec_injector().spec_period(),
                old(self).spec_injector().spec_elapsed(),
                elapsed_time,
            ),
            final(self).spec_injector().spec_elapsed() == timer_carry(
                old(self).spec_injector().spec_period(),
                old(self).spec_injector().spec_elapsed(),
                elapsed_time,
            ),
            final(self).spec_grid()@ == with_current(
                old(self).spec_grid()@,
                old(self).spec_forced(old(self).spec_grid().current(), fired, events@),
            ),
    {
        let fired: bool = self.injector.tick(elapsed_time, &self.params, &mut self.grid);
        inject_all(events, &self.params, &mut self.grid);
        assert(self.grid@ =~= with_current(
            old(self).spec_grid()@,
            old(self).spec_forced(old(self).spec_grid().current(), fired, events@),
        ));
        fired
    }

    /// The second part of a step: the layers rotate, the stencil computes
    /// the interior of the new current layer from the two layers of
    /// history, and the boundary runs over the result, absorbing or
    /// attenuating as configured.
    pub fn update_wave(&mut self)
        requires
            old(self).wf(),
        ensures
            final(self).wf(),
            final(self).spec_params() == old(self).spec_params(),
            final(self).spec_coeffs() == old(self).spec_coeffs(),
            final(self).spec_injector() == old(self).spec_injector(),
            final(self).spec_grid()@ == old(self).spec_step(old(self).spec_grid()@),
    {
        let order: StencilOrder = self.params.order();
        let h: usize = order.halo();
        self.grid.rotate();
        let inner = compute_interior(order, &self.coeffs, &self.grid);
        self.grid.assign_interior(h, &inner);
        if self.params.use_absorbing_boundary() {
            update_with_absorbing_boundary(h, &self.coeffs, &mut self.grid);
        } else {
            update_with_attenuation(&mut self.grid);
        }
        assert(self.grid@ =~= old(self).spec_step(old(self).spec_grid()@));
    }

    /// One whole step: the forces, then the update of the wave.
    pub fn tick(&mut self, elapsed_time: u64, events: &Vec<ForceEvent>) -> (fired: bool)
        requires
            old(self).wf(),
        ensures
            final(self).wf(),
            final(self).spec_params() == old(self).spec_params(),
            final(self).spec_coeffs() == old(self).spec_coeffs(),
            final(self).spec_injector().spec_period() == old(self).spec_injector().spec_period(),
            fired == timer_fires(
                old(self).spec_injector().spec_period(),
                old(self).spec_injector().spec_elapsed(),
                elapsed_time,
            ),
            final(self).spec_injector().spec_elapsed() == timer_carry(
                old(self).spec_injector().spec_period(),
                old(self).spec_injector().spec_elapsed(),
                elapsed_time,
            ),
            final(self).spec_grid()@ == old(self).spec_step(
                with_current(
                    old(self).spec_grid()@,
                    old(self).spec_forced(old(self).spec_grid().current(), fired, events@),
                ),
            ),
    {
        let fired: bool = self.apply_force(elapsed_time, events);
        self.update_wave();
        fired
    }
}

} // verus!
