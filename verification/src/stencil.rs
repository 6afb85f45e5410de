//! The interior update: the leapfrog form of the wave equation with a
//! discrete Laplacian of one of two orders.

use vstd::prelude::*;
use crate::coeff::Coefficients;
use crate::field::Field;
use crate::fixed::{div_toward_zero, saturate, saturate_to_sample, trunc_div, SCALE};
use crate::grid::{GridState, Layer, LAYERS};
use crate::params::StencilOrder;
use crate::storage::{fits_memory, SAMPLE_BYTES};

verus! {

/// The sample of the plane `p` at `(x, y)`, as a number.
pub open spec fn sample(p: Seq<Seq<i64>>, x: int, y: int) -> int {
    p[x][y] as int
}

/// The five-point Laplacian of `p` at `(x, y)`: the four nearest
/// neighbours less four times the centre.
pub open spec fn laplacian_1(p: Seq<Seq<i64>>, x: int, y: int) -> int {
    sample(p, x - 1, y) + sample(p, x + 1, y) + sample(p, x, y - 1) + sample(p, x, y + 1) - 4
        * sample(p, x, y)
}

/// Twelve times the fourth-order second difference of five samples in a
/// row: the weights `-1/12, 4/3, -5/2, 4/3, -1/12`, cleared of fractions.
pub open spec fn second_difference_4(far_lo: int, lo: int, centre: int, hi: int, far_hi: int) -> int {
    -far_lo + 16 * lo - 30 * centre + 16 * hi - far_hi
}

/// Twelve times the nine-point Laplacian of `p` at `(x, y)`: the fourth-order
/// second difference along each axis.
pub open spec fn laplacian_4_twelfths(p: Seq<Seq<i64>>, x: int, y: int) -> int {
    second_difference_4(
        sample(p, x - 2, y),
        sample(p, x - 1, y),
        sample(p, x, y),
        sample(p, x + 1, y),
        sample(p, x + 2, y),
    ) + second_difference_4(
        sample(p, x, y - 2),
        sample(p, x, y - 1),
        sample(p, x, y),
        sample(p, x, y + 1),
        sample(p, x, y + 2),
    )
}

/// The numerator of the Laplacian of `p` at `(x, y)` for a stencil.
pub open spec fn laplacian_numerator(order: StencilOrder, p: Seq<Seq<i64>>, x: int, y: int) -> int {
    match order {
        StencilOrder::Order1 => laplacian_1(p, x, y),
        StencilOrder::Order4 => laplacian_4_twelfths(p, x, y),
    }
}

/// The denominator that goes with `laplacian_numerator`.
pub open spec fn laplacian_denominator(order: StencilOrder) -> int {
    match order {
        StencilOrder::Order1 => 1,
        StencilOrder::Order4 => 12,
    }
}

/// The leapfrog update `tau * laplacian + 2 * prev - two_back`, with the
/// Laplacian given as a fraction and `tau` as a fixed-point number. The
/// product is exact; its one division rounds toward zero; the sum is
/// limited to the range of a sample.
pub open spec fn leapfrog(tau: int, lap_num: int, lap_den: int, prev: int, two_back: int) -> i64 {
    saturate(trunc_div(tau * lap_num, SCALE * lap_den) + 2 * prev - two_back)
}

/// The new sample at the interior cell `(x, y)`.
pub open spec fn stencil_at(
    order: StencilOrder,
    tau: Seq<Seq<i64>>,
    prev: Seq<Seq<i64>>,
    two_back: Seq<Seq<i64>>,
    x: int,
    y: int,
) -> i64 {
    leapfrog(
        sample(tau, x, y),
        laplacian_numerator(order, prev, x, y),
        laplacian_denominator(order),
        sample(prev, x, y),
        sample(two_back, x, y),
    )
}

/// The new interior field of a `dimx` by `dimy` grid: its cell `(i, j)` is
/// the new sample of the grid cell `(i + halo, j + halo)`.
pub open spec fn interior_of(
    order: StencilOrder,
    tau: Seq<Seq<i64>>,
    prev: Seq<Seq<i64>>,
    two_back: Seq<Seq<i64>>,
    dimx: int,
    dimy: int,
) -> Seq<Seq<i64>> {
    let h = order.spec_halo();
    Seq::new(
        (dimx - 2 * h) as nat,
        |i: int|
            Seq::new(
                (dimy - 2 * h) as nat,
                |j: int| stencil_at(order, tau, prev, two_back, i + h, j + h),
            ),
    )
}

/// Largest magnitude of a Laplacian numerator: the weights of either
/// stencil sum to at most 128 in magnitude.
pub open spec fn lap_bound() -> int {
    128 * 0x8000_0000_0000_0000int
}

/// Computes the leapfrog update of one cell. Where the product of `tau`
/// and the Laplacian is too large to form, the result is known without
/// it: the update lies beyond the range of a sample, on the side of the
/// Laplacian's sign.
pub fn leapfrog_sample(tau: i64, lap_num: i128, lap_den: i128, prev: i64, two_back: i64) -> (v: i64)
    requires
        0 <= tau,
        -lap_bound() <= lap_num <= lap_bound(),
        1 <= lap_den <= 12,
    ensures
        v == leapfrog(tau as int, lap_num as int, lap_den as int, prev as int, two_back as int),
{
    assert(0 < SCALE * lap_den <= SCALE * 12) by (nonlinear_arith)
        requires
            1 <= lap_den <= 12,
            SCALE == 1_000_000,
    ;
    let divisor: i128 = SCALE as i128 * lap_den;
    let small_tau: bool = tau <= 0x100_0000_0000_0000;
    let small_lap: bool = -0x8000_0000_0000_0000 <= lap_num && lap_num <= 0x8000_0000_0000_0000;
    if small_tau || small_lap {
        assert(-0x4000_0000_0000_0000_0000_0000_0000_0000 <= tau * lap_num
            <= 0x4000_0000_0000_0000_0000_0000_0000_0000) by (nonlinear_arith)
            requires
                0 <= tau < 0x8000_0000_0000_0000,
                -128 * 0x8000_0000_0000_0000 <= lap_num <= 128 * 0x8000_0000_0000_0000,
                tau <= 0x100_0000_0000_0000 || (-0x8000_0000_0000_0000 <= lap_num
                    <= 0x8000_0000_0000_0000),
        ;
        let product: i128 = tau as i128 * lap_num;
        let scaled: i128 = div_toward_zero(product, divisor);
        proof {
            crate::fixed::lemma_trunc_div_bounds(product as int, divisor as int);
        }
        let sum: i128 = scaled + 2 * (prev as i128) - two_back as i128;
        saturate_to_sample(sum)
    } else {
        proof {
            let magnitude: int = if lap_num > 0 {
                tau * lap_num
            } else {
                -(tau * lap_num)
            };
            assert(magnitude >= 0x100_0000_0000_0000 * 0x8000_0000_0000_0000) by (nonlinear_arith)
                requires
                    tau > 0x100_0000_0000_0000,
                    lap_num > 0x8000_0000_0000_0000 || lap_num < -0x8000_0000_0000_0000,
                    magnitude == if lap_num > 0 {
                        tau * lap_num
                    } else {
                        -(tau * lap_num)
                    },
            ;
            assert(magnitude / (divisor as int) >= 0x1_0000_0000_0000_0000_0000) by (nonlinear_arith)
                requires
                    magnitude >= 0x100_0000_0000_0000 * 0x8000_0000_0000_0000,
                    0 < divisor <= 12_000_000,
            ;
            assert(lap_num > 0 ==> tau * lap_num == magnitude);
            assert(lap_num < 0 ==> -(tau * lap_num) == magnitude);
        }
        if lap_num > 0 {
            i64::MAX
        } else {
            i64::MIN
        }
    }
}

/// The numerator of the Laplacian of the previous layer at `(x, y)`.
fn laplacian_sample(order: StencilOrder, grid: &GridState, x: usize, y: usize) -> (lap: i128)
    requires
        grid.wf(),
        order.spec_reach() <= x < grid.spec_dimx() - order.spec_reach(),
        order.spec_reach() <= y < grid.spec_dimy() - order.spec_reach(),
    ensures
        lap == laplacian_numerator(order, grid.previous(), x as int, y as int),
        -lap_bound() <= lap <= lap_bound(),
{
    let centre: i128 = grid.at(Layer::Previous, x, y) as i128;
    let west: i128 = grid.at(Layer::Previous, x - 1, y) as i128;
    let east: i128 = grid.at(Layer::Previous, x + 1, y) as i128;
    let south: i128 = grid.at(Layer::Previous, x, y - 1) as i128;
    let north: i128 = grid.at(Layer::Previous, x, y + 1) as i128;
    match order {
        StencilOrder::Order1 => west + east + south + north - 4 * centre,
        StencilOrder::Order4 => {
            let far_west: i128 = grid.at(Layer::Previous, x - 2, y) as i128;
            let far_east: i128 = grid.at(Layer::Previous, x + 2, y) as i128;
            let far_south: i128 = grid.at(Layer::Previous, x, y - 2) as i128;
            let far_north: i128 = grid.at(Layer::Previous, x, y + 2) as i128;
            let along_x: i128 = -far_west + 16 * west - 30 * centre + 16 * east - far_east;
            let along_y: i128 = -far_south + 16 * south - 30 * centre + 16 * north - far_north;
            along_x + along_y
        },
    }
}

/// The new interior field for either stencil.
fn interior_with(order: StencilOrder, coeffs: &Coefficients, grid: &GridState) -> (inner: Field)
    requires
        coeffs.wf(),
        grid.wf(),
        coeffs.spec_dimx() == grid.spec_dimx(),
        coeffs.spec_dimy() == grid.spec_dimy(),
        grid.spec_dimx() > 2 * order.spec_halo(),
        grid.spec_dimy() > 2 * order.spec_halo(),
    ensures
        inner.wf(),
        inner.spec_dimx() == grid.spec_dimx() - 2 * order.spec_halo(),
        inner.spec_dimy() == grid.spec_dimy() - 2 * order.spec_halo(),
        inner@ == interior_of(
            order,
            coeffs.tau_field()@,
            grid.previous(),
            grid.two_back(),
            grid.spec_dimx() as int,
            grid.spec_dimy() as int,
        ),
{
    let h: usize = order.halo();
    let nx: usize = grid.dimx() - 2 * h;
    let ny: usize = grid.dimy() - 2 * h;
    assert(0 <= nx * ny <= grid.spec_dimx() * grid.spec_dimy()) by (nonlinear_arith)
        requires
            0 < nx <= grid.spec_dimx(),
            0 < ny <= grid.spec_dimy(),
    ;
    assert(SAMPLE_BYTES == 8 && LAYERS == 3);
    assert(fits_memory(1, nx as int, ny as int));
    let lap_den: i128 = match order {
        StencilOrder::Order1 => 1,
        StencilOrder::Order4 => 12,
    };
    let ghost tau = coeffs.tau_field()@;
    let ghost prev = grid.previous();
    let ghost two_back = grid.two_back();
    let mut inner = Field::filled(nx, ny, 0);
    let mut i: usize = 0;
    while i < nx
        invariant
            coeffs.wf(),
            grid.wf(),
            coeffs.spec_dimx() == grid.spec_dimx(),
            coeffs.spec_dimy() == grid.spec_dimy(),
            h == order.spec_halo(),
            lap_den == laplacian_denominator(order),
            nx == grid.spec_dimx() - 2 * h,
            ny == grid.spec_dimy() - 2 * h,
            tau == coeffs.tau_field()@,
            prev == grid.previous(),
            two_back == grid.two_back(),
            inner.wf(),
            inner.spec_dimx() == nx,
            inner.spec_dimy() == ny,
            i <= nx,
            forall|a: int, b: int|
                0 <= a < i && 0 <= b < ny ==> #[trigger] inner@[a][b] == stencil_at(
                    order,
                    tau,
                    prev,
                    two_back,
                    a + h,
                    b + h,
                ),
        decreases nx - i,
    {
        let mut j: usize = 0;
        while j < ny
            invariant
                coeffs.wf(),
                grid.wf(),
                coeffs.spec_dimx() == grid.spec_dimx(),
                coeffs.spec_dimy() == grid.spec_dimy(),
                h == order.spec_halo(),
                lap_den == laplacian_denominator(order),
                nx == grid.spec_dimx() - 2 * h,
                ny == grid.spec_dimy() - 2 * h,
                tau == coeffs.tau_field()@,
                prev == grid.previous(),
                two_back == grid.two_back(),
                inner.wf(),
                inner.spec_dimx() == nx,
                inner.spec_dimy() == ny,
                i < nx,
                j <= ny,
                forall|a: int, b: int|
                    0 <= a < i && 0 <= b < ny ==> #[trigger] inner@[a][b] == stencil_at(
                        order,
                        tau,
                        prev,
                        two_back,
                        a + h,
                        b + h,
                    ),
                forall|b: int|
                    0 <= b < j ==> #[trigger] inner@[i as int][b] == stencil_at(
                        order,
                        tau,
                        prev,
                        two_back,
                        i + h,
                        b + h,
                    ),
            decreases ny - j,
        {
            let x: usize = i + h;
            let y: usize = j + h;
            let lap: i128 = laplacian_sample(order, grid, x, y);
            let t: i64 = coeffs.tau().at(x, y);
            let p: i64 = grid.at(Layer::Previous, x, y);
            let q: i64 = grid.at(Layer::TwoBack, x, y);
            let v: i64 = leapfrog_sample(t, lap, lap_den, p, q);
            inner.put(i, j, v);
            j = j + 1;
        }
        i = i + 1;
    }
    assert(inner@ =~~= interior_of(
        order,
        tau,
        prev,
        two_back,
        grid.spec_dimx() as int,
        grid.spec_dimy() as int,
    ));
    inner
}

/// The new interior field by the five-point stencil: for every cell that
/// lies at least one cell from each edge,
/// `tau * (west + east + south + north - 4 * centre) + 2 * centre - two_back`,
/// with the neighbours and the centre taken from the previous layer.
pub fn update_with_laplace_operator_1(coeffs: &Coefficients, grid: &GridState) -> (inner: Field)
    requires
        coeffs.wf(),
        grid.wf(),
        coeffs.spec_dimx() == grid.spec_dimx(),
        coeffs.spec_dimy() == grid.spec_dimy(),
        grid.spec_dimx() > 2,
        grid.spec_dimy() > 2,
    ensures
        inner.wf(),
        inner.spec_dimx() == grid.spec_dimx() - 2,
        inner.spec_dimy() == grid.spec_dimy() - 2,
        inner@ == interior_of(
            StencilOrder::Order1,
            coeffs.tau_field()@,
            grid.previous(),
            grid.two_back(),
            grid.spec_dimx() as int,
            grid.spec_dimy() as int,
        ),
{
    interior_with(StencilOrder::Order1, coeffs, grid)
}

/// The new interior field by the nine-point stencil of fourth-order
/// accuracy, for every cell that lies at least four cells from each edge.
pub fn update_with_laplace_operator_4(coeffs: &Coefficients, grid: &GridState) -> (inner: Field)
    requires
        coeffs.wf(),
        grid.wf(),
        coeffs.spec_dimx() == grid.spec_dimx(),
        coeffs.spec_dimy() == grid.spec_dimy(),
        grid.spec_dimx() > 8,
        grid.spec_dimy() > 8,
    ensures
        inner.wf(),
        inner.spec_dimx() == grid.spec_dimx() - 8,
        inner.spec_dimy() == grid.spec_dimy() - 8,
        inner@ == interior_of(
            StencilOrder::Order4,
            coeffs.tau_field()@,
            grid.previous(),
            grid.two_back(),
            grid.spec_dimx() as int,
            grid.spec_dimy() as int,
        ),
{
    interior_with(StencilOrder::Order4, coeffs, grid)
}

/// The new interior field by the stencil that `order` names.
pub fn compute_interior(order: StencilOrder, coeffs: &Coefficients, grid: &GridState) -> (inner: Field)
    requires
        coeffs.wf(),
        grid.wf(),
        coeffs.spec_dimx() == grid.spec_dimx(),
        coeffs.spec_dimy() == grid.spec_dimy(),
        grid.spec_dimx() > 2 * order.spec_halo(),
        grid.spec_dimy() > 2 * order.spec_halo(),
    ensures
        inner.wf(),
        inner.spec_dimx() == grid.spec_dimx() - 2 * order.spec_halo(),
        inner.spec_dimy() == grid.spec_dimy() - 2 * order.spec_halo(),
        inner@ == interior_of(
            order,
            coeffs.tau_field()@,
            grid.previous(),
            grid.two_back(),
            grid.spec_dimx() as int,
            grid.spec_dimy() as int,
        ),
{
    match order {
        StencilOrder::Order1 => update_with_laplace_operator_1(coeffs, grid),
        StencilOrder::Order4 => update_with_laplace_operator_4(coeffs, grid),
    }
}

} // verus!
