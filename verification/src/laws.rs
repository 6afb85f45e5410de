//! Laws of the scheme, proved of the functions that the contracts of the
//! library are stated in.

use vstd::prelude::*;
use crate::boundary::{absorbed, absorbed_at, attenuate, attenuated, inward, lemma_inward_is_shallower, lemma_ring_depth_range, ring_depth};
use crate::coeff::non_negative;
use crate::fixed::{saturate, trunc_div, SCALE};
use crate::force::ForceEvent;
use crate::grid::{in_interior, plane_with, with_interior, zero_layers};
use crate::params::StencilOrder;
use crate::sim::{stepped, stepped_current, Simulation};
use crate::stencil::{interior_of, laplacian_denominator, laplacian_numerator, stencil_at};
use crate::storage::{is_plane, uniform_plane};

verus! {

/// The layers after `n` steps without any force.
pub open spec fn stepped_n(
    order: StencilOrder,
    absorbing: bool,
    tau: Seq<Seq<i64>>,
    kappa: Seq<Seq<i64>>,
    layers: Seq<Seq<Seq<i64>>>,
    dimx: int,
    dimy: int,
    n: nat,
) -> Seq<Seq<Seq<i64>>>
    decreases n,
{
    if n == 0 {
        layers
    } else {
        stepped(
            order,
            absorbing,
            tau,
            kappa,
            stepped_n(order, absorbing, tau, kappa, layers, dimx, dimy, (n - 1) as nat),
            dimx,
            dimy,
        )
    }
}

/// The stencil gives zero wherever the previous layer is zero within its
/// reach and the layer two steps back is zero at the cell.
pub proof fn lemma_stencil_of_rest(
    order: StencilOrder,
    tau: Seq<Seq<i64>>,
    prev: Seq<Seq<i64>>,
    two_back: Seq<Seq<i64>>,
    x: int,
    y: int,
)
    requires
        forall|k: int|
            -order.spec_reach() <= k <= order.spec_reach() ==> (#[trigger] prev[x + k])[y] == 0,
        forall|k: int|
            -order.spec_reach() <= k <= order.spec_reach() ==> #[trigger] prev[x][y + k] == 0,
        two_back[x][y] == 0,
    ensures
        stencil_at(order, tau, prev, two_back, x, y) == 0,
{
    assert((prev[x + 0])[y] == 0);
    assert((prev[x + 1])[y] == 0);
    assert((prev[x + (-1)])[y] == 0);
    assert(prev[x][y + 0] == 0);
    assert(prev[x][y + 1] == 0);
    assert(prev[x][y + (-1)] == 0);
    if order == StencilOrder::Order4 {
        assert((prev[x + 2])[y] == 0);
        assert((prev[x + (-2)])[y] == 0);
        assert(prev[x][y + 2] == 0);
        assert(prev[x][y + (-2)] == 0);
    }
    assert(laplacian_numerator(order, prev, x, y) == 0);
    let t = tau[x][y] as int;
    assert(t * 0 == 0);
}

/// Where the current and the previous layer are both zero, the absorbing
/// boundary leaves every cell at zero.
pub proof fn lemma_absorbed_rest(kappa: Seq<Seq<i64>>, dimx: int, dimy: int, h: int, x: int, y: int)
    requires
        0 < h,
        2 * h < dimx,
        2 * h < dimy,
        0 <= x < dimx,
        0 <= y < dimy,
        is_plane(kappa, dimx, dimy),
        non_negative(kappa),
    ensures
        absorbed_at(
            kappa,
            uniform_plane(dimx, dimy, 0i64),
            uniform_plane(dimx, dimy, 0i64),
            dimx,
            dimy,
            h,
            x,
            y,
        ) == 0,
    decreases ring_depth(x, y, dimx, dimy, h),
{
    let zero = uniform_plane(dimx, dimy, 0i64);
    lemma_ring_depth_range(x, y, dimx, dimy, h);
    if ring_depth(x, y, dimx, dimy, h) > 0 {
        lemma_inward_is_shallower(x, y, dimx, dimy, h);
        let nx = inward(x, dimx, h);
        let ny = inward(y, dimy, h);
        lemma_absorbed_rest(kappa, dimx, dimy, h, nx, ny);
        let k = kappa[x][y] as int;
        assert(0 <= k);
        assert((k - SCALE) * 0 == 0);
        assert(zero[nx][ny] == 0);
        assert(zero[x][y] == 0);
    } else {
        assert(zero[x][y] == 0);
    }
}

/// A field at rest stays at rest: from three layers of zeros, one step
/// without force gives three layers of zeros, with either stencil and
/// either boundary.
pub proof fn lemma_rest_steps_to_rest(
    order: StencilOrder,
    absorbing: bool,
    tau: Seq<Seq<i64>>,
    kappa: Seq<Seq<i64>>,
    dimx: int,
    dimy: int,
)
    requires
        2 * order.spec_halo() < dimx,
        2 * order.spec_halo() < dimy,
        is_plane(kappa, dimx, dimy),
        non_negative(kappa),
    ensures
        stepped(order, absorbing, tau, kappa, zero_layers(dimx, dimy), dimx, dimy) == zero_layers(
            dimx,
            dimy,
        ),
{
    let zero = uniform_plane(dimx, dimy, 0i64);
    let h = order.spec_halo();
    let inner = interior_of(order, tau, zero, zero, dimx, dimy);
    assert forall|i: int, j: int|
        0 <= i < dimx - 2 * h && 0 <= j < dimy - 2 * h implies #[trigger] inner[i][j] == 0 by {
        lemma_stencil_of_rest(order, tau, zero, zero, i + h, j + h);
    }
    let fresh = with_interior(zero, inner, dimx, dimy, h);
    assert(fresh =~~= zero);
    let result = stepped_current(order, absorbing, tau, kappa, zero, zero, zero, dimx, dimy);
    if absorbing {
        assert forall|x: int, y: int| 0 <= x < dimx && 0 <= y < dimy implies absorbed_at(
            kappa,
            zero,
            zero,
            dimx,
            dimy,
            h,
            x,
            y,
        ) == 0 by {
            lemma_absorbed_rest(kappa, dimx, dimy, h, x, y);
        }
        assert(absorbed(kappa, zero, zero, dimx, dimy, h) =~~= zero);
    } else {
        assert(attenuate(0i64) == 0);
        assert(attenuated(zero, dimx, dimy) =~~= zero);
    }
    assert(result == zero);
    assert(stepped(order, absorbing, tau, kappa, zero_layers(dimx, dimy), dimx, dimy)
        =~= zero_layers(dimx, dimy));
}

/// A field at rest stays at rest for any number of steps without force.
pub proof fn lemma_rest_stays_at_rest(
    order: StencilOrder,
    absorbing: bool,
    tau: Seq<Seq<i64>>,
    kappa: Seq<Seq<i64>>,
    dimx: int,
    dimy: int,
    n: nat,
)
    requires
        2 * order.spec_halo() < dimx,
        2 * order.spec_halo() < dimy,
        is_plane(kappa, dimx, dimy),
        non_negative(kappa),
    ensures
        stepped_n(order, absorbing, tau, kappa, zero_layers(dimx, dimy), dimx, dimy, n)
            == zero_layers(dimx, dimy),
    decreases n,
{
    if n > 0 {
        lemma_rest_stays_at_rest(order, absorbing, tau, kappa, dimx, dimy, (n - 1) as nat);
        lemma_rest_steps_to_rest(order, absorbing, tau, kappa, dimx, dimy);
    }
}

/// The layers of a run after `n` steps without any force.
pub open spec fn run_of(sim: Simulation, layers: Seq<Seq<Seq<i64>>>, n: nat) -> Seq<Seq<Seq<i64>>>
    decreases n,
{
    if n == 0 {
        layers
    } else {
        sim.spec_step(run_of(sim, layers, (n - 1) as nat))
    }
}

/// In any run, a step in which the repeating source does not fire and no
/// event arrives applies no force, and a grid of zeros is still a grid of
/// zeros after any number of such steps.
pub proof fn lemma_run_at_rest(sim: Simulation, n: nat)
    requires
        sim.wf(),
    ensures
        forall|cur: Seq<Seq<i64>>| sim.spec_forced(cur, false, Seq::<ForceEvent>::empty()) == cur,
        run_of(
            sim,
            zero_layers(
                sim.spec_params().spec_dimx() as int,
                sim.spec_params().spec_dimy() as int,
            ),
            n,
        ) == zero_layers(
            sim.spec_params().spec_dimx() as int,
            sim.spec_params().spec_dimy() as int,
        ),
    decreases n,
{
    if n > 0 {
        lemma_run_at_rest(sim, (n - 1) as nat);
        lemma_rest_steps_to_rest(
            sim.spec_params().spec_order(),
            sim.spec_params().spec_use_absorbing_boundary(),
            sim.spec_coeffs().tau_field()@,
            sim.spec_coeffs().kappa_field()@,
            sim.spec_params().spec_dimx() as int,
            sim.spec_params().spec_dimy() as int,
        );
    }
}

/// One step spreads a single excitation no farther than the stencil
/// reaches. From a grid at rest but for the amplitude at `(sx, sy)` in the
/// current layer, the step leaves zero at every interior cell that lies
/// more than the reach of the stencil from the source along either axis;
/// the reach is at most the boundary size, so the same holds of every
/// interior cell more than the boundary size away.
pub proof fn lemma_single_source_is_local(
    order: StencilOrder,
    absorbing: bool,
    tau: Seq<Seq<i64>>,
    kappa: Seq<Seq<i64>>,
    dimx: int,
    dimy: int,
    sx: int,
    sy: int,
    amplitude: i64,
    x: int,
    y: int,
)
    requires
        2 * order.spec_halo() < dimx,
        2 * order.spec_halo() < dimy,
        0 <= sx < dimx,
        0 <= sy < dimy,
        in_interior(x, y, dimx, dimy, order.spec_halo()),
        x - sx > order.spec_reach() || sx - x > order.spec_reach() || y - sy > order.spec_reach()
            || sy - y > order.spec_reach(),
    ensures
        order.spec_reach() <= order.spec_halo(),
        stepped_current(
            order,
            absorbing,
            tau,
            kappa,
            plane_with(uniform_plane(dimx, dimy, 0i64), sx, sy, amplitude),
            uniform_plane(dimx, dimy, 0i64),
            uniform_plane(dimx, dimy, 0i64),
            dimx,
            dimy,
        )[x][y] == 0,
{
    let zero = uniform_plane(dimx, dimy, 0i64);
    let newest = plane_with(zero, sx, sy, amplitude);
    let h = order.spec_halo();
    let r = order.spec_reach();
    assert forall|k: int| -r <= k <= r implies (#[trigger] newest[x + k])[y] == 0 by {
        assert(zero[x + k][y] == 0);
    }
    assert forall|k: int| -r <= k <= r implies #[trigger] newest[x][y + k] == 0 by {
        assert(zero[x][y + k] == 0);
    }
    assert(zero[x][y] == 0);
    lemma_stencil_of_rest(order, tau, newest, zero, x, y);
    let inner = interior_of(order, tau, newest, zero, dimx, dimy);
    assert(inner[x - h][y - h] == stencil_at(order, tau, newest, zero, x - h + h, y - h + h));
    let fresh = with_interior(zero, inner, dimx, dimy, h);
    assert(fresh[x][y] == 0);
    if absorbing {
        lemma_ring_depth_range(x, y, dimx, dimy, h);
    } else {
        assert(attenuate(0i64) == 0);
    }
}

/// The two samples that one step gives the source cell and a cell next to
/// it, before the boundary runs, are not both within one unit of zero,
/// provided the amplitude is at least five units in magnitude. `product`
/// is the coefficient times the amplitude; the weights are those of
/// either stencil at the two cells.
proof fn lemma_source_or_neighbour_is_large(order: StencilOrder, product: int, amplitude: int)
    requires
        amplitude >= 5 || amplitude <= -5,
        amplitude > 0 ==> product >= 0,
        amplitude < 0 ==> product <= 0,
    ensures
        ({
            let d = SCALE * laplacian_denominator(order);
            let (centre_weight, side_weight): (int, int) = match order {
                StencilOrder::Order1 => (-4int, 1int),
                StencilOrder::Order4 => (-60int, 16int),
            };
            let centre = trunc_div(centre_weight * product, d) + 2 * amplitude;
            let side = trunc_div(side_weight * product, d);
            centre >= 2 || centre <= -2 || side >= 2 || side <= -2
        }),
{
    let m: int = if product >= 0 {
        product
    } else {
        -product
    };
    match order {
        StencilOrder::Order1 => {
            assert(SCALE * laplacian_denominator(order) == 1_000_000);
            let side = trunc_div(1 * product, 1_000_000);
            let pull = trunc_div(-4 * product, 1_000_000);
            if m / 1_000_000 < 2 {
                assert((4 * m) / 1_000_000 <= 7);
                assert(-7 <= pull <= 7);
            } else {
                assert(side >= 2 || side <= -2);
            }
        },
        StencilOrder::Order4 => {
            assert(SCALE * laplacian_denominator(order) == 12_000_000);
            let side = trunc_div(16 * product, 12_000_000);
            let pull = trunc_div(-60 * product, 12_000_000);
            if (16 * m) / 12_000_000 < 2 {
                assert((60 * m) / 12_000_000 <= 7);
                assert(-7 <= pull <= 7);
            } else {
                assert(side >= 2 || side <= -2);
            }
        },
    }
}

/// A sample of magnitude two or more is still not zero after it has been
/// limited to the range of a sample, nor after it has been attenuated.
proof fn lemma_large_stays_nonzero(v: int)
    requires
        v >= 2 || v <= -2,
    ensures
        saturate(v) >= 2 || saturate(v) <= -2,
        attenuate(saturate(v)) != 0,
{
}

/// One step makes a single excitation felt. From a grid at rest but for
/// an amplitude of at least five units in magnitude at `(sx, sy)` in the
/// current layer, with the source and the cell after it along the first
/// axis both in the interior and one coefficient `t` that is not negative
/// in every cell, the step leaves a sample other than zero at the source
/// or at that cell, with either stencil and either boundary. (Smaller
/// amplitudes are left out: with some of them every product rounds to
/// zero and the two samples cancel.)
pub proof fn lemma_single_source_is_felt(
    order: StencilOrder,
    absorbing: bool,
    t: i64,
    kappa: Seq<Seq<i64>>,
    dimx: int,
    dimy: int,
    sx: int,
    sy: int,
    amplitude: i64,
)
    requires
        2 * order.spec_halo() < dimx,
        2 * order.spec_halo() < dimy,
        in_interior(sx, sy, dimx, dimy, order.spec_halo()),
        in_interior(sx + 1, sy, dimx, dimy, order.spec_halo()),
        t >= 0,
        amplitude >= 5 || amplitude <= -5,
    ensures
        ({
            let cur = stepped_current(
                order,
                absorbing,
                uniform_plane(dimx, dimy, t),
                kappa,
                plane_with(uniform_plane(dimx, dimy, 0i64), sx, sy, amplitude),
                uniform_plane(dimx, dimy, 0i64),
                uniform_plane(dimx, dimy, 0i64),
                dimx,
                dimy,
            );
            cur[sx][sy] != 0 || cur[sx + 1][sy] != 0
        }),
{
    let zero = uniform_plane(dimx, dimy, 0i64);
    let tau = uniform_plane(dimx, dimy, t);
    let newest = plane_with(zero, sx, sy, amplitude);
    let h = order.spec_halo();
    let a = amplitude as int;
    let product = t * a;
    assert(a > 0 ==> product >= 0) by (nonlinear_arith)
        requires
            t >= 0,
            product == t * a,
    ;
    assert(a < 0 ==> product <= 0) by (nonlinear_arith)
        requires
            t >= 0,
            product == t * a,
    ;
    // What the previous layer holds around the two cells.
    assert forall|i: int, j: int| 0 <= i < dimx && 0 <= j < dimy implies #[trigger] newest[i][j]
        == if i == sx && j == sy {
        amplitude
    } else {
        0i64
    } by {
        assert(zero[i][j] == 0);
    }
    assert(tau[sx][sy] == t && tau[sx + 1][sy] == t);
    assert(zero[sx][sy] == 0 && zero[sx + 1][sy] == 0);
    let centre_lap = laplacian_numerator(order, newest, sx, sy);
    let side_lap = laplacian_numerator(order, newest, sx + 1, sy);
    let (centre_weight, side_weight): (int, int) = match order {
        StencilOrder::Order1 => (-4int, 1int),
        StencilOrder::Order4 => (-60int, 16int),
    };
    assert(newest[sx][sy] == amplitude);
    assert(newest[sx - 1][sy] == 0 && newest[sx + 1][sy] == 0);
    assert(newest[sx][sy - 1] == 0 && newest[sx][sy + 1] == 0);
    assert(newest[sx + 2][sy] == 0);
    assert(newest[sx + 1][sy - 1] == 0 && newest[sx + 1][sy + 1] == 0);
    if order == StencilOrder::Order4 {
        assert(newest[sx - 2][sy] == 0 && newest[sx + 3][sy] == 0);
        assert(newest[sx][sy - 2] == 0 && newest[sx][sy + 2] == 0);
        assert(newest[sx + 1][sy - 2] == 0 && newest[sx + 1][sy + 2] == 0);
    }
    assert(centre_lap == centre_weight * a);
    assert(side_lap == side_weight * a);
    assert(t * (centre_weight * a) == centre_weight * product) by (nonlinear_arith)
        requires
            product == t * a,
    ;
    assert(t * (side_weight * a) == side_weight * product) by (nonlinear_arith)
        requires
            product == t * a,
    ;
    let d = SCALE * laplacian_denominator(order);
    let centre_raw = trunc_div(centre_weight * product, d) + 2 * a;
    let side_raw = trunc_div(side_weight * product, d);
    lemma_source_or_neighbour_is_large(order, product, a);
    let inner = interior_of(order, tau, newest, zero, dimx, dimy);
    assert(inner[sx - h][sy - h] == stencil_at(order, tau, newest, zero, sx - h + h, sy - h + h));
    assert(inner[sx + 1 - h][sy - h] == stencil_at(
        order,
        tau,
        newest,
        zero,
        sx + 1 - h + h,
        sy - h + h,
    ));
    let fresh = with_interior(zero, inner, dimx, dimy, h);
    assert(fresh[sx][sy] == saturate(centre_raw));
    assert(fresh[sx + 1][sy] == saturate(side_raw));
    if centre_raw >= 2 || centre_raw <= -2 {
        lemma_large_stays_nonzero(centre_raw);
    } else {
        lemma_large_stays_nonzero(side_raw);
    }
    if absorbing {
        lemma_ring_depth_range(sx, sy, dimx, dimy, h);
        lemma_ring_depth_range(sx + 1, sy, dimx, dimy, h);
    }
}

/// With the attenuating boundary, every sample of the new current layer,
/// in the interior and on the ring alike, is what it was before the
/// boundary ran, attenuated once.
pub proof fn lemma_attenuating_step_scales_every_sample(
    order: StencilOrder,
    tau: Seq<Seq<i64>>,
    kappa: Seq<Seq<i64>>,
    newest: Seq<Seq<i64>>,
    older: Seq<Seq<i64>>,
    stale: Seq<Seq<i64>>,
    dimx: int,
    dimy: int,
)
    ensures
        forall|x: int, y: int|
            0 <= x < dimx && 0 <= y < dimy ==> #[trigger] stepped_current(
                order,
                false,
                tau,
                kappa,
                newest,
                older,
                stale,
                dimx,
                dimy,
            )[x][y] == attenuate(
                with_interior(
                    stale,
                    interior_of(order, tau, newest, older, dimx, dimy),
                    dimx,
                    dimy,
                    order.spec_halo(),
                )[x][y],
            ),
{
}

/// The absorbing boundary changes the ring alone: every interior cell
/// keeps the sample that the stencil gave it.
pub proof fn lemma_absorbing_keeps_interior(
    kappa: Seq<Seq<i64>>,
    cur: Seq<Seq<i64>>,
    prev: Seq<Seq<i64>>,
    dimx: int,
    dimy: int,
    h: int,
    x: int,
    y: int,
)
    requires
        0 < h,
        2 * h < dimx,
        2 * h < dimy,
        in_interior(x, y, dimx, dimy, h),
    ensures
        absorbed(kappa, cur, prev, dimx, dimy, h)[x][y] == cur[x][y],
{
    lemma_ring_depth_range(x, y, dimx, dimy, h);
}

} // verus!
