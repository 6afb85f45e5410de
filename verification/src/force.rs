//! External excitation: a point source that fires at a fixed rate, and
//! single injections at coordinates that come from outside.

use vstd::prelude::*;
use crate::fixed::SCALE;
use crate::grid::{plane_with, GridState, Layer};
use crate::params::{ConfigurationError, Parameters};

verus! {

/// One request to excite the field at a point. The coordinates are
/// fixed-point numbers in units of cells and need not lie in the grid.
#[derive(Clone, Copy, Debug, PartialEq, Eq)]
pub struct ForceEvent {
    pub x: i64,
    pub y: i64,
}

/// The cell index nearest to the fixed-point coordinate `c`: halves round
/// away from zero, and every negative coordinate gives zero.
pub open spec fn nearest_cell(c: int) -> int {
    if c <= 0 {
        0
    } else {
        (c + SCALE / 2) / (SCALE as int)
    }
}

/// The coordinate of the repeating point source along an axis of length
/// `dim`: four sixths of the length, rounded down.
pub open spec fn source_cell(dim: int) -> int {
    4 * dim / 6
}

/// `(x, y)` lies in the grid and on none of the lines `x = 0`, `y = 0`.
pub open spec fn strictly_inside(x: int, y: int, dimx: int, dimy: int) -> bool {
    0 < x < dimx && 0 < y < dimy
}

/// The current layer `cur` after the event `e`: the amplitude at the
/// nearest cell if that cell is strictly inside, `cur` itself if not.
pub open spec fn injected(
    cur: Seq<Seq<i64>>,
    e: ForceEvent,
    dimx: int,
    dimy: int,
    amplitude: i64,
) -> Seq<Seq<i64>> {
    if strictly_inside(nearest_cell(e.x as int), nearest_cell(e.y as int), dimx, dimy) {
        plane_with(cur, nearest_cell(e.x as int), nearest_cell(e.y as int), amplitude)
    } else {
        cur
    }
}

/// The current layer `cur` after the events of `events`, first to last.
pub open spec fn injected_all(
    cur: Seq<Seq<i64>>,
    events: Seq<ForceEvent>,
    dimx: int,
    dimy: int,
    amplitude: i64,
) -> Seq<Seq<i64>>
    decreases events.len(),
{
    if events.len() == 0 {
        cur
    } else {
        injected(
            injected_all(cur, events.drop_last(), dimx, dimy, amplitude),
            events.last(),
            dimx,
            dimy,
            amplitude,
        )
    }
}

/// Whether a repeating timer of the given period, `elapsed` into its
/// interval, completes an interval within the next `delta`.
pub open spec fn timer_fires(period: u64, elapsed: u64, delta: u64) -> bool {
    elapsed + delta >= period
}

/// How far into its interval the timer is after `delta`.
pub open spec fn timer_carry(period: u64, elapsed: u64, delta: u64) -> int
    recommends
        period > 0,
{
    (elapsed + delta) % (period as int)
}

/// The current layer after the repeating source has had its turn.
pub open spec fn sourced(
    cur: Seq<Seq<i64>>,
    fired: bool,
    dimx: int,
    dimy: int,
    amplitude: i64,
) -> Seq<Seq<i64>> {
    if fired {
        plane_with(cur, source_cell(dimx), source_cell(dimy), amplitude)
    } else {
        cur
    }
}

/// Computes `nearest_cell`.
pub fn event_cell(c: i64) -> (cell: u64)
    ensures
        cell == nearest_cell(c as int),
{
    if c <= 0 {
        0
    } else {
        let shifted: u64 = c as u64 + (SCALE / 2) as u64;
        shifted / (SCALE as u64)
    }
}

/// The cell of the repeating point source.
pub fn canonical_source(params: &Parameters) -> (cell: (usize, usize))
    requires
        params.wf(),
    ensures
        cell.0 == source_cell(params.spec_dimx() as int),
        cell.1 == source_cell(params.spec_dimy() as int),
        cell.0 < params.spec_dimx(),
        cell.1 < params.spec_dimy(),
{
    let dimx: usize = params.dimx();
    let dimy: usize = params.dimy();
    let sx: u128 = 4 * (dimx as u128) / 6;
    let sy: u128 = 4 * (dimy as u128) / 6;
    (sx as usize, sy as usize)
}

/// Writes the amplitude into the current layer at the cell nearest to the
/// event, if that cell is strictly inside the grid. An event that lands on
/// the lines `x = 0` or `y = 0`, or on or beyond the far edges, changes
/// nothing; that is no fault. The result says whether a sample was written.
pub fn inject_at(event: ForceEvent, params: &Parameters, grid: &mut GridState) -> (written: bool)
    requires
        params.wf(),
        old(grid).wf(),
        old(grid).spec_dimx() == params.spec_dimx(),
        old(grid).spec_dimy() == params.spec_dimy(),
    ensures
        final(grid).wf(),
        final(grid).spec_dimx() == old(grid).spec_dimx(),
        final(grid).spec_dimy() == old(grid).spec_dimy(),
        written == strictly_inside(
            nearest_cell(event.x as int),
            nearest_cell(event.y as int),
            params.spec_dimx() as int,
            params.spec_dimy() as int,
        ),
        !written ==> final(grid)@ == old(grid)@,
        final(grid).previous() == old(grid).previous(),
        final(grid).two_back() == old(grid).two_back(),
        final(grid).current() == injected(
            old(grid).current(),
            event,
            params.spec_dimx() as int,
            params.spec_dimy() as int,
            params.spec_applied_force_amplitude(),
        ),
{
    let cx: u64 = event_cell(event.x);
    let cy: u64 = event_cell(event.y);
    if 0 < cx && cx < params.dimx() as u64 && 0 < cy && cy < params.dimy() as u64 {
        grid.put(Layer::Current, cx as usize, cy as usize, params.applied_force_amplitude());
        true
    } else {
        false
    }
}

/// The repeating point source: a timer that completes an interval every
/// `period` units of time.
#[derive(Clone, Copy, Debug)]
pub struct ForceInjector {
    period: u64,
    elapsed: u64,
}

impl ForceInjector {
    pub closed spec fn spec_period(&self) -> u64 {
        self.period
    }

    pub closed spec fn spec_elapsed(&self) -> u64 {
        self.elapsed
    }

    /// The period is positive and the timer is within its interval.
    pub open spec fn wf(&self) -> bool {
        self.spec_elapsed() < self.spec_period()
    }

    /// A source with the given period, at the start of its first interval.
    /// A period of zero is refused.
    pub fn new(period: u64) -> (r: Result<ForceInjector, ConfigurationError>)
        ensures
            period == 0 ==> r == Err::<ForceInjector, ConfigurationError>(
                ConfigurationError::ZeroForcePeriod,
            ),
            period > 0 ==> r.is_ok() && r.unwrap().wf() && r.unwrap().spec_period() == period
                && r.unwrap().spec_elapsed() == 0,
    {
        if period == 0 {
            Err(ConfigurationError::ZeroForcePeriod)
        } else {
            Ok(ForceInjector { period, elapsed: 0 })
        }
    }

    #[verifier::when_used_as_spec(spec_period)]
    pub fn period(&self) -> (v: u64)
        ensures
            v == self.spec_period(),
    {
        self.period
    }

    #[verifier::when_used_as_spec(spec_elapsed)]
    pub fn elapsed(&self) -> (v: u64)
        ensures
            v == self.spec_elapsed(),
    {
        self.elapsed
    }

    /// Moves the timer on by `delta` and says whether it completed an
    /// interval. What is left over after the last completed interval is
    /// carried into the next.
    pub fn advance(&mut self, delta: u64) -> (fired: bool)
        requires
            old(self).wf(),
        ensures
            final(self).wf(),
            final(self).spec_period() == old(self).spec_period(),
            fired == timer_fires(old(self).spec_period(), old(self).spec_elapsed(), delta),
            final(self).spec_elapsed() == timer_carry(
                old(self).spec_period(),
                old(self).spec_elapsed(),
                delta,
            ),
    {
        let total: u128 = self.elapsed as u128 + delta as u128;
        let period: u128 = self.period as u128;
        let fired: bool = total >= period;
        let carry: u128 = total % period;
        self.elapsed = carry as u64;
        fired
    }

    /// Moves the timer on by `elapsed_time`; if it completed an interval,
    /// writes the amplitude into the current layer at the canonical source
    /// cell, over whatever was there.
    pub fn tick(&mut self, elapsed_time: u64, params: &Parameters, grid: &mut GridState) -> (fired: bool)
        requires
            old(self).wf(),
            params.wf(),
            old(grid).wf(),
            old(grid).spec_dimx() == params.spec_dimx(),
            old(grid).spec_dimy() == params.spec_dimy(),
        ensures
            final(self).wf(),
            final(self).spec_period() == old(self).spec_period(),
            fired == timer_fires(old(self).spec_period(), old(self).spec_elapsed(), elapsed_time),
            final(self).spec_elapsed() == timer_carry(
                old(self).spec_period(),
                old(self).spec_elapsed(),
                elapsed_time,
            ),
            final(grid).wf(),
            final(grid).spec_dimx() == old(grid).spec_dimx(),
            final(grid).spec_dimy() == old(grid).spec_dimy(),
            !fired ==> final(grid)@ == old(grid)@,
            final(grid).previous() == old(grid).previous(),
            final(grid).two_back() == old(grid).two_back(),
            final(grid).current() == sourced(
                old(grid).current(),
                fired,
                params.spec_dimx() as int,
                params.spec_dimy() as int,
                params.spec_applied_force_amplitude(),
            ),
    {
        let fired: bool = self.advance(elapsed_time);
        if fired {
            let cell: (usize, usize) = canonical_source(params);
            grid.put(Layer::Current, cell.0, cell.1, params.applied_force_amplitude());
        }
        fired
    }
}

/// Applies the events to the current layer in the order of their arrival.
/// A later event at a cell overwrites an earlier one.
pub fn inject_all(events: &Vec<ForceEvent>, params: &Parameters, grid: &mut GridState)
    requires
        params.wf(),
        old(grid).wf(),
        old(grid).spec_dimx() == params.spec_dimx(),
        old(grid).spec_dimy() == params.spec_dimy(),
    ensures
        final(grid).wf(),
        final(grid).spec_dimx() == old(grid).spec_dimx(),
        final(grid).spec_dimy() == old(grid).spec_dimy(),
        final(grid).previous() == old(grid).previous(),
        final(grid).two_back() == old(grid).two_back(),
        final(grid).current() == injected_all(
            old(grid).current(),
            events@,
            params.spec_dimx() as int,
            params.spec_dimy() as int,
            params.spec_applied_force_amplitude(),
        ),
{
    let ghost start = grid.current();
    let ghost dimx = params.spec_dimx() as int;
    let ghost dimy = params.spec_dimy() as int;
    let ghost amplitude = params.spec_applied_force_amplitude();
    let mut i: usize = 0;
    while i < events.len()
        invariant
            params.wf(),
            grid.wf(),
            grid.spec_dimx() == params.spec_dimx(),
            grid.spec_dimy() == params.spec_dimy(),
            dimx == params.spec_dimx(),
            dimy == params.spec_dimy(),
            amplitude == params.spec_applied_force_amplitude(),
            i <= events.len(),
            grid.previous() == old(grid).previous(),
            grid.two_back() == old(grid).two_back(),
            grid.current() == injected_all(start, events@.take(i as int), dimx, dimy, amplitude),
        decreases events.len() - i,
    {
        let event: ForceEvent = events[i];
        proof {
            let upto = events@.take(i as int + 1);
            assert(upto.drop_last() =~= events@.take(i as int));
            assert(upto.last() == events@[i as int]);
        }
        let _ = inject_at(event, params, grid);
        i = i + 1;
    }
    assert(events@.take(events.len() as int) =~= events@);
}

/// An event on the lines `x = 0` or `y = 0`, or on the lines `x = dimx` or
/// `y = dimy` just beyond the far edges, is never strictly inside and so
/// leaves every current layer as it was.
pub proof fn lemma_edge_events_change_nothing(
    cur: Seq<Seq<i64>>,
    e: ForceEvent,
    dimx: int,
    dimy: int,
    amplitude: i64,
)
    requires
        e.x == 0 || e.y == 0 || e.x == dimx * SCALE || e.y == dimy * SCALE,
    ensures
        injected(cur, e, dimx, dimy, amplitude) == cur,
{
    if e.x == dimx * SCALE && e.x > 0 {
        assert((dimx * SCALE + SCALE / 2) / (SCALE as int) == dimx) by (nonlinear_arith)
            requires
                SCALE == 1_000_000,
        ;
    }
    if e.y == dimy * SCALE && e.y > 0 {
        assert((dimy * SCALE + SCALE / 2) / (SCALE as int) == dimy) by (nonlinear_arith)
            requires
                SCALE == 1_000_000,
        ;
    }
}

} // verus!
