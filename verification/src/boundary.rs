//! What happens to the field after the interior update: either the ring
//! absorbs outgoing waves, or the whole field is attenuated.

use vstd::prelude::*;
use crate::coeff::Coefficients;
use crate::fixed::{div_toward_zero, lemma_trunc_div_bounds, saturate, saturate_to_sample, trunc_div, SCALE};
use crate::grid::{in_interior, plane_with, GridState, Layer, LAYERS};
use crate::storage::is_plane;

verus! {

/// Numerator of the factor by which the attenuating boundary scales every
/// sample in a step.
pub const ATTENUATION_NUM: i64 = 995;

/// Denominator of that factor.
pub const ATTENUATION_DEN: i64 = 1000;

/// The sample `v` after one step of attenuation: `v * 0.995`, rounded
/// toward zero.
pub open spec fn attenuate(v: i64) -> i64 {
    trunc_div(v * ATTENUATION_NUM, ATTENUATION_DEN as int) as i64
}

/// The `dimx` by `dimy` plane `p` with every sample attenuated.
pub open spec fn attenuated(p: Seq<Seq<i64>>, dimx: int, dimy: int) -> Seq<Seq<i64>> {
    Seq::new(dimx as nat, |x: int| Seq::new(dimy as nat, |y: int| attenuate(p[x][y])))
}

/// How deep the coordinate `x` lies in the ring of width `h` along an axis
/// of length `dim`: zero in the interior, one next to it, `h` at the edge.
pub open spec fn ring_depth_axis(x: int, dim: int, h: int) -> int {
    if x < h {
        h - x
    } else if x >= dim - h {
        x - (dim - h) + 1
    } else {
        0
    }
}

/// How deep the cell `(x, y)` lies in the ring: the larger of its depths
/// along the two axes.
pub open spec fn ring_depth(x: int, y: int, dimx: int, dimy: int, h: int) -> int {
    if ring_depth_axis(x, dimx, h) >= ring_depth_axis(y, dimy, h) {
        ring_depth_axis(x, dimx, h)
    } else {
        ring_depth_axis(y, dimy, h)
    }
}

/// The coordinate one step nearer the interior, or `x` itself where it is
/// not in the ring.
pub open spec fn inward(x: int, dim: int, h: int) -> int {
    if x < h {
        x + 1
    } else if x >= dim - h {
        x - 1
    } else {
        x
    }
}

/// The first-order absorbing condition for one ring cell:
/// `prev_inward + (kappa - 1) / (kappa + 1) * (new_inward - prev_here)`,
/// where the inward values are those of the neighbour one step nearer the
/// interior. The product is exact, its one division rounds toward zero,
/// and the sum is limited to the range of a sample.
pub open spec fn mur_blend(kappa: int, prev_inward: int, new_inward: int, prev_here: int) -> i64 {
    saturate(
        prev_inward + trunc_div((kappa - SCALE) * (new_inward - prev_here), kappa + SCALE),
    )
}

/// The sample at `(x, y)` after the absorbing boundary has run over the
/// current layer `cur`, with `prev` the previous layer. An interior cell
/// keeps its value. A ring cell is blended from its inward neighbour,
/// whose own new value is found in the same way.
pub open spec fn absorbed_at(
    kappa: Seq<Seq<i64>>,
    cur: Seq<Seq<i64>>,
    prev: Seq<Seq<i64>>,
    dimx: int,
    dimy: int,
    h: int,
    x: int,
    y: int,
) -> i64
    decreases ring_depth(x, y, dimx, dimy, h),
    when 0 < h && 2 * h < dimx && 2 * h < dimy && 0 <= x < dimx && 0 <= y < dimy
{
    if ring_depth(x, y, dimx, dimy, h) == 0 {
        cur[x][y]
    } else {
        let nx = inward(x, dimx, h);
        let ny = inward(y, dimy, h);
        mur_blend(
            kappa[x][y] as int,
            prev[nx][ny] as int,
            absorbed_at(kappa, cur, prev, dimx, dimy, h, nx, ny) as int,
            prev[x][y] as int,
        )
    }
}

/// The current layer after the absorbing boundary has run.
pub open spec fn absorbed(
    kappa: Seq<Seq<i64>>,
    cur: Seq<Seq<i64>>,
    prev: Seq<Seq<i64>>,
    dimx: int,
    dimy: int,
    h: int,
) -> Seq<Seq<i64>> {
    Seq::new(
        dimx as nat,
        |x: int|
            Seq::new(dimy as nat, |y: int| absorbed_at(kappa, cur, prev, dimx, dimy, h, x, y)),
    )
}

/// A ring cell's inward neighbour lies in the grid, one level less deep.
pub proof fn lemma_inward_is_shallower(x: int, y: int, dimx: int, dimy: int, h: int)
    requires
        0 < h,
        2 * h < dimx,
        2 * h < dimy,
        0 <= x < dimx,
        0 <= y < dimy,
        ring_depth(x, y, dimx, dimy, h) > 0,
    ensures
        0 <= inward(x, dimx, h) < dimx,
        0 <= inward(y, dimy, h) < dimy,
        ring_depth(inward(x, dimx, h), inward(y, dimy, h), dimx, dimy, h) == ring_depth(
            x,
            y,
            dimx,
            dimy,
            h,
        ) - 1,
{
}

/// The interior is where the ring depth is zero, and no cell is deeper
/// than the ring is wide.
pub proof fn lemma_ring_depth_range(x: int, y: int, dimx: int, dimy: int, h: int)
    requires
        0 < h,
        2 * h < dimx,
        2 * h < dimy,
        0 <= x < dimx,
        0 <= y < dimy,
    ensures
        0 <= ring_depth(x, y, dimx, dimy, h) <= h,
        ring_depth(x, y, dimx, dimy, h) == 0 <==> in_interior(x, y, dimx, dimy, h),
{
}

/// Computes `attenuate`.
pub fn attenuate_sample(v: i64) -> (r: i64)
    ensures
        r == attenuate(v),
{
    assert(-0x8000_0000_0000_0000 * 995 <= v * ATTENUATION_NUM <= 0x8000_0000_0000_0000 * 995)
        by (nonlinear_arith)
        requires
            -0x8000_0000_0000_0000 <= v < 0x8000_0000_0000_0000,
            ATTENUATION_NUM == 995,
    ;
    let scaled: i128 = v as i128 * ATTENUATION_NUM as i128;
    let q: i128 = div_toward_zero(scaled, ATTENUATION_DEN as i128);
    proof {
        lemma_trunc_div_bounds(scaled as int, ATTENUATION_DEN as int);
        lemma_attenuate_shrinks(v);
    }
    q as i64
}

/// Attenuation moves a sample toward zero and never past it.
pub proof fn lemma_attenuate_shrinks(v: i64)
    ensures
        v >= 0 ==> 0 <= trunc_div(v * ATTENUATION_NUM, ATTENUATION_DEN as int) <= v,
        v <= 0 ==> v <= trunc_div(v * ATTENUATION_NUM, ATTENUATION_DEN as int) <= 0,
        v >= 0 ==> 0 <= attenuate(v) <= v,
        v <= 0 ==> v <= attenuate(v) <= 0,
{
    if v >= 0 {
        let n = v * ATTENUATION_NUM;
        assert(n / 1000 <= v) by (nonlinear_arith)
            requires
                n == v * 995,
                v >= 0,
        ;
        assert(0 <= n / 1000) by (nonlinear_arith)
            requires
                n >= 0,
        ;
    } else {
        let n = (-v) * ATTENUATION_NUM;
        assert(-(v * ATTENUATION_NUM) == n);
        assert(n / 1000 <= -v) by (nonlinear_arith)
            requires
                n == (-v) * 995,
                -v >= 0,
        ;
        assert(0 <= n / 1000) by (nonlinear_arith)
            requires
                n >= 0,
        ;
    }
}

/// Computes `mur_blend`.
pub fn mur_sample(kappa: i64, prev_inward: i64, new_inward: i64, prev_here: i64) -> (v: i64)
    requires
        0 <= kappa,
    ensures
        v == mur_blend(kappa as int, prev_inward as int, new_inward as int, prev_here as int),
{
    let factor: i128 = kappa as i128 - SCALE as i128;
    let diff: i128 = new_inward as i128 - prev_here as i128;
    assert(-(0x8000_0000_0000_0000 * 0x1_0000_0000_0000_0000) < factor * diff
        < 0x8000_0000_0000_0000 * 0x1_0000_0000_0000_0000) by (nonlinear_arith)
        requires
            -0x8000_0000_0000_0000 < factor < 0x8000_0000_0000_0000,
            -0x1_0000_0000_0000_0000 < diff < 0x1_0000_0000_0000_0000,
    ;
    let product: i128 = factor * diff;
    let divisor: i128 = kappa as i128 + SCALE as i128;
    let correction: i128 = div_toward_zero(product, divisor);
    proof {
        lemma_trunc_div_bounds(product as int, divisor as int);
        let magnitude: int = if product >= 0 {
            product as int
        } else {
            -product
        };
        assert(magnitude / (divisor as int) < 0x1000_0000_0000_0000_0000_0000_0000)
            by (nonlinear_arith)
            requires
                0 <= magnitude < 0x8000_0000_0000_0000 * 0x1_0000_0000_0000_0000,
                divisor >= 0x8_0000,
        ;
    }
    saturate_to_sample(prev_inward as i128 + correction)
}

/// Multiplies every sample of the current layer, interior and ring
/// alike, by the attenuation factor. The older layers stay.
pub fn update_with_attenuation(grid: &mut GridState)
    requires
        old(grid).wf(),
    ensures
        final(grid).wf(),
        final(grid).spec_dimx() == old(grid).spec_dimx(),
        final(grid).spec_dimy() == old(grid).spec_dimy(),
        final(grid).previous() == old(grid).previous(),
        final(grid).two_back() == old(grid).two_back(),
        final(grid).current() == attenuated(
            old(grid).current(),
            old(grid).spec_dimx() as int,
            old(grid).spec_dimy() as int,
        ),
{
    let ghost before = grid@;
    let dimx: usize = grid.dimx();
    let dimy: usize = grid.dimy();
    let mut x: usize = 0;
    while x < dimx
        invariant
            grid.wf(),
            grid.spec_dimx() == dimx,
            grid.spec_dimy() == dimy,
            before.len() == LAYERS,
            is_plane(before[0], dimx as int, dimy as int),
            x <= dimx,
            grid@[1] == before[1],
            grid@[2] == before[2],
            forall|a: int, b: int|
                0 <= a < dimx && 0 <= b < dimy ==> #[trigger] grid@[0][a][b] == if a < x {
                    attenuate(before[0][a][b])
                } else {
                    before[0][a][b]
                },
        decreases dimx - x,
    {
        let mut y: usize = 0;
        while y < dimy
            invariant
                grid.wf(),
                grid.spec_dimx() == dimx,
                grid.spec_dimy() == dimy,
                before.len() == LAYERS,
                is_plane(before[0], dimx as int, dimy as int),
                x < dimx,
                y <= dimy,
                grid@[1] == before[1],
                grid@[2] == before[2],
                forall|a: int, b: int|
                    0 <= a < dimx && 0 <= b < dimy ==> #[trigger] grid@[0][a][b] == if a < x || (a
                        == x && b < y) {
                        attenuate(before[0][a][b])
                    } else {
                        before[0][a][b]
                    },
            decreases dimy - y,
        {
            let v: i64 = grid.at(Layer::Current, x, y);
            grid.put(Layer::Current, x, y, attenuate_sample(v));
            y = y + 1;
        }
        x = x + 1;
    }
    assert(grid@[0] =~~= attenuated(before[0], dimx as int, dimy as int));
}

/// The depth of a coordinate in the ring along one axis.
fn depth_along(x: usize, dim: usize, h: usize) -> (d: usize)
    requires
        2 * h < dim,
        x < dim,
    ensures
        d == ring_depth_axis(x as int, dim as int, h as int),
{
    if x < h {
        h - x
    } else if x >= dim - h {
        x - (dim - h) + 1
    } else {
        0
    }
}

/// The coordinate one step nearer the interior.
fn step_inward(x: usize, dim: usize, h: usize) -> (n: usize)
    requires
        2 * h < dim,
        x < dim,
    ensures
        n == inward(x as int, dim as int, h as int),
        n < dim,
{
    if x < h {
        x + 1
    } else if x >= dim - h {
        x - 1
    } else {
        x
    }
}

/// Replaces one ring cell of the current layer by the blend of its inward
/// neighbour's previous and current samples with its own previous sample.
fn absorb_cell(h: usize, coeffs: &Coefficients, grid: &mut GridState, x: usize, y: usize)
    requires
        old(grid).wf(),
        coeffs.wf(),
        coeffs.spec_dimx() == old(grid).spec_dimx(),
        coeffs.spec_dimy() == old(grid).spec_dimy(),
        0 < h,
        2 * h < old(grid).spec_dimx(),
        2 * h < old(grid).spec_dimy(),
        x < old(grid).spec_dimx(),
        y < old(grid).spec_dimy(),
    ensures
        final(grid).wf(),
        final(grid).spec_dimx() == old(grid).spec_dimx(),
        final(grid).spec_dimy() == old(grid).spec_dimy(),
        final(grid).previous() == old(grid).previous(),
        final(grid).two_back() == old(grid).two_back(),
        final(grid).current() == plane_with(
            old(grid).current(),
            x as int,
            y as int,
            mur_blend(
                coeffs.kappa_field()@[x as int][y as int] as int,
                old(grid).previous()[inward(x as int, old(grid).spec_dimx() as int, h as int)][inward(
                    y as int,
                    old(grid).spec_dimy() as int,
                    h as int,
                )] as int,
                old(grid).current()[inward(x as int, old(grid).spec_dimx() as int, h as int)][inward(
                    y as int,
                    old(grid).spec_dimy() as int,
                    h as int,
                )] as int,
                old(grid).previous()[x as int][y as int] as int,
            ),
        ),
{
    let nx: usize = step_inward(x, grid.dimx(), h);
    let ny: usize = step_inward(y, grid.dimy(), h);
    let k: i64 = coeffs.kappa().at(x, y);
    let prev_inward: i64 = grid.at(Layer::Previous, nx, ny);
    let new_inward: i64 = grid.at(Layer::Current, nx, ny);
    let prev_here: i64 = grid.at(Layer::Previous, x, y);
    let v: i64 = mur_sample(k, prev_inward, new_inward, prev_here);
    grid.put(Layer::Current, x, y, v);
    assert(grid@[1] =~= old(grid)@[1]);
    assert(grid@[2] =~= old(grid)@[2]);
}

/// Runs the absorbing boundary over the ring of width `boundary_size` of
/// the current layer, level by level from the cells next to the interior
/// outward: each ring cell takes the blend of its inward neighbour's
/// previous and new samples with its own previous sample. Only ring cells
/// are visited. Interior cells and the older layers stay.
pub fn update_with_absorbing_boundary(boundary_size: usize, coeffs: &Coefficients, grid: &mut GridState)
    requires
        old(grid).wf(),
        coeffs.wf(),
        coeffs.spec_dimx() == old(grid).spec_dimx(),
        coeffs.spec_dimy() == old(grid).spec_dimy(),
        0 < boundary_size,
        2 * boundary_size < old(grid).spec_dimx(),
        2 * boundary_size < old(grid).spec_dimy(),
    ensures
        final(grid).wf(),
        final(grid).spec_dimx() == old(grid).spec_dimx(),
        final(grid).spec_dimy() == old(grid).spec_dimy(),
        final(grid).previous() == old(grid).previous(),
        final(grid).two_back() == old(grid).two_back(),
        final(grid).current() == absorbed(
            coeffs.kappa_field()@,
            old(grid).current(),
            old(grid).previous(),
            old(grid).spec_dimx() as int,
            old(grid).spec_dimy() as int,
            boundary_size as int,
        ),
{
    let ghost before = grid@;
    let ghost kappa = coeffs.kappa_field()@;
    let ghost cur = grid@[0];
    let ghost prev = grid@[1];
    let h: usize = boundary_size;
    let dimx: usize = grid.dimx();
    let dimy: usize = grid.dimy();
    let mut d: usize = 1;
    while d <= h
        invariant
            grid.wf(),
            coeffs.wf(),
            coeffs.spec_dimx() == dimx,
            coeffs.spec_dimy() == dimy,
            grid.spec_dimx() == dimx,
            grid.spec_dimy() == dimy,
            kappa == coeffs.kappa_field()@,
            0 < h,
            2 * h < dimx,
            2 * h < dimy,
            is_plane(cur, dimx as int, dimy as int),
            is_plane(prev, dimx as int, dimy as int),
            1 <= d <= h + 1,
            grid@[1] == prev,
            grid@[2] == before[2],
            forall|a: int, b: int|
                0 <= a < dimx && 0 <= b < dimy ==> #[trigger] grid@[0][a][b] == if ring_depth(
                    a,
                    b,
                    dimx as int,
                    dimy as int,
                    h as int,
                ) < d {
                    absorbed_at(kappa, cur, prev, dimx as int, dimy as int, h as int, a, b)
                } else {
                    cur[a][b]
                },
        decreases h + 1 - d,
    {
        // The cells of level `d` are the outline of a rectangle: its two
        // end columns in full, and the first and last row of the others.
        let first_row: usize = h - d;
        let last_row: usize = dimy - h + d - 1;
        let mut x: usize = h - d;
        while x < dimx - h + d
            invariant
                grid.wf(),
                coeffs.wf(),
                coeffs.spec_dimx() == dimx,
                coeffs.spec_dimy() == dimy,
                grid.spec_dimx() == dimx,
                grid.spec_dimy() == dimy,
                kappa == coeffs.kappa_field()@,
                0 < h,
                2 * h < dimx,
                2 * h < dimy,
                is_plane(cur, dimx as int, dimy as int),
                is_plane(prev, dimx as int, dimy as int),
                1 <= d <= h,
                first_row == h - d,
                last_row == dimy - h + d - 1,
                h - d <= x <= dimx - h + d,
                grid@[1] == prev,
                grid@[2] == before[2],
                forall|a: int, b: int|
                    0 <= a < dimx && 0 <= b < dimy ==> #[trigger] grid@[0][a][b] == if ring_depth(
                        a,
                        b,
                        dimx as int,
                        dimy as int,
                        h as int,
                    ) < d || (ring_depth(a, b, dimx as int, dimy as int, h as int) == d && a < x) {
                        absorbed_at(kappa, cur, prev, dimx as int, dimy as int, h as int, a, b)
                    } else {
                        cur[a][b]
                    },
            decreases dimx - h + d - x,
        {
            if depth_along(x, dimx, h) == d {
                let mut y: usize = first_row;
                while y <= last_row
                    invariant
                        grid.wf(),
                        coeffs.wf(),
                        coeffs.spec_dimx() == dimx,
                        coeffs.spec_dimy() == dimy,
                        grid.spec_dimx() == dimx,
                        grid.spec_dimy() == dimy,
                        kappa == coeffs.kappa_field()@,
                        0 < h,
                        2 * h < dimx,
                        2 * h < dimy,
                        is_plane(cur, dimx as int, dimy as int),
                        is_plane(prev, dimx as int, dimy as int),
                        1 <= d <= h,
                        first_row == h - d,
                        last_row == dimy - h + d - 1,
                        x < dimx,
                        ring_depth_axis(x as int, dimx as int, h as int) == d,
                        first_row <= y <= last_row + 1,
                        grid@[1] == prev,
                        grid@[2] == before[2],
                        forall|a: int, b: int|
                            0 <= a < dimx && 0 <= b < dimy ==> #[trigger] grid@[0][a][b]
                                == if ring_depth(a, b, dimx as int, dimy as int, h as int) < d || (
                            ring_depth(a, b, dimx as int, dimy as int, h as int) == d && (a < x
                                || (a == x && b < y))) {
                                absorbed_at(kappa, cur, prev, dimx as int, dimy as int, h as int, a, b)
                            } else {
                                cur[a][b]
                            },
                    decreases last_row + 1 - y,
                {
                    proof {
                        lemma_inward_is_shallower(
                            x as int,
                            y as int,
                            dimx as int,
                            dimy as int,
                            h as int,
                        );
                    }
                    absorb_cell(h, coeffs, grid, x, y);
                    y = y + 1;
                }
            } else {
                proof {
                    lemma_inward_is_shallower(
                        x as int,
                        first_row as int,
                        dimx as int,
                        dimy as int,
                        h as int,
                    );
                    lemma_inward_is_shallower(
                        x as int,
                        last_row as int,
                        dimx as int,
                        dimy as int,
                        h as int,
                    );
                }
                absorb_cell(h, coeffs, grid, x, first_row);
                absorb_cell(h, coeffs, grid, x, last_row);
            }
            x = x + 1;
        }
        d = d + 1;
    }
    assert forall|a: int, b: int| 0 <= a < dimx && 0 <= b < dimy implies #[trigger] grid@[0][a][b]
        == absorbed_at(kappa, cur, prev, dimx as int, dimy as int, h as int, a, b) by {
        lemma_ring_depth_range(a, b, dimx as int, dimy as int, h as int);
    }
    assert(grid@[0] =~~= absorbed(kappa, cur, prev, dimx as int, dimy as int, h as int));
}

} // verus!
