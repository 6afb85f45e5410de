//! Dense sample storage, kept in `ndarray` arrays.
//!
//! Nothing in this file is proved. Each function states what the `ndarray`
//! call in its body does, as that crate documents it; the rest of the
//! library is verified against these statements and reaches the arrays
//! through them alone.

use vstd::prelude::*;

verus! {

/// Size of one stored sample in bytes.
pub const SAMPLE_BYTES: usize = 8;

/// Whether `planes` planes of `dimx` by `dimy` samples can be allocated:
/// their bytes must not exceed `isize::MAX`.
pub open spec fn fits_memory(planes: int, dimx: int, dimy: int) -> bool {
    SAMPLE_BYTES * (planes * (dimx * dimy)) <= isize::MAX
}

/// `p` has `dimx` columns of `dimy` samples each.
pub open spec fn is_plane(p: Seq<Seq<i64>>, dimx: int, dimy: int) -> bool {
    &&& p.len() == dimx
    &&& forall|x: int| 0 <= x < dimx ==> (#[trigger] p[x]).len() == dimy
}

/// The plane of the given shape that holds `value` everywhere.
pub open spec fn uniform_plane(dimx: int, dimy: int, value: i64) -> Seq<Seq<i64>> {
    Seq::new(dimx as nat, |x: int| Seq::new(dimy as nat, |y: int| value))
}

/// `(x, y)` is an index of the plane `p`.
pub open spec fn plane_has(p: Seq<Seq<i64>>, x: int, y: int) -> bool {
    0 <= x < p.len() && 0 <= y < p[x].len()
}

/// `(k, x, y)` is an index of the stack of planes `c`.
pub open spec fn stack_has(c: Seq<Seq<Seq<i64>>>, k: int, x: int, y: int) -> bool {
    0 <= k < c.len() && plane_has(c[k], x, y)
}

/// A two-dimensional array of samples: an `ndarray::Array2<i64>`.
#[verifier::external_body]
pub struct PlaneStore {
    cells: ndarray::Array2<i64>,
}

/// A three-dimensional array of samples: an `ndarray::Array3<i64>`.
#[verifier::external_body]
pub struct StackStore {
    cells: ndarray::Array3<i64>,
}

/// What a `PlaneStore` holds: the sample at index `(x, y)` is `plane_cells(s)[x][y]`.
pub uninterp spec fn plane_cells(s: PlaneStore) -> Seq<Seq<i64>>;

/// What a `StackStore` holds: the sample at index `(k, x, y)` is
/// `stack_cells(s)[k][x][y]`.
pub uninterp spec fn stack_cells(s: StackStore) -> Seq<Seq<Seq<i64>>>;

/// `ndarray::Array2::from_elem` with the shape `(dimx, dimy)`: the new array
/// has that shape and holds `value` at every index. The call panics where
/// the number of elements does not fit in `isize`, and the vector behind it
/// where their bytes do not; the precondition leaves both out.
#[verifier::external_body]
pub(crate) fn plane_from_elem(dimx: usize, dimy: usize, value: i64) -> (s: PlaneStore)
    requires
        0 < dimx,
        0 < dimy,
        fits_memory(1, dimx as int, dimy as int),
    ensures
        plane_cells(s) == uniform_plane(dimx as int, dimy as int, value),
{
    PlaneStore { cells: ndarray::Array2::from_elem((dimx, dimy), value) }
}

/// `ndarray::Array3::zeros` with the shape `(depth, dimx, dimy)`: the new
/// array has that shape and holds zero at every index. It panics as
/// `from_elem` does; the precondition leaves those shapes out.
#[verifier::external_body]
pub(crate) fn stack_zeros(depth: usize, dimx: usize, dimy: usize) -> (s: StackStore)
    requires
        0 < depth,
        0 < dimx,
        0 < dimy,
        fits_memory(depth as int, dimx as int, dimy as int),
    ensures
        stack_cells(s) == Seq::new(
            depth as nat,
            |k: int| uniform_plane(dimx as int, dimy as int, 0i64),
        ),
{
    StackStore { cells: ndarray::Array3::zeros((depth, dimx, dimy)) }
}

/// `ArrayBase::get` on a two-dimensional array: the element at `(x, y)`, or
/// `None` where the index lies outside the array's shape.
#[verifier::external_body]
pub(crate) fn plane_get(s: &PlaneStore, x: usize, y: usize) -> (r: Option<i64>)
    ensures
        plane_has(plane_cells(*s), x as int, y as int) ==> r == Some(
            plane_cells(*s)[x as int][y as int],
        ),
        !plane_has(plane_cells(*s), x as int, y as int) ==> r.is_none(),
{
    s.cells.get((x, y)).copied()
}

/// `ArrayBase::get_mut` on a two-dimensional array, followed by a store
/// through the reference it hands out: the element at `(x, y)` becomes
/// `value` and the result is `true`; where the index lies outside the
/// array's shape nothing changes and the result is `false`.
#[verifier::external_body]
pub(crate) fn plane_set(s: &mut PlaneStore, x: usize, y: usize, value: i64) -> (done: bool)
    ensures
        done == plane_has(plane_cells(*old(s)), x as int, y as int),
        done ==> plane_cells(*final(s)) == plane_cells(*old(s)).update(
            x as int,
            plane_cells(*old(s))[x as int].update(y as int, value),
        ),
        !done ==> plane_cells(*final(s)) == plane_cells(*old(s)),
{
    match s.cells.get_mut((x, y)) {
        Some(cell) => {
            *cell = value;
            true
        },
        None => false,
    }
}

/// `ArrayBase::get` on a three-dimensional array: the element at
/// `(k, x, y)`, or `None` where the index lies outside the array's shape.
#[verifier::external_body]
pub(crate) fn stack_get(s: &StackStore, k: usize, x: usize, y: usize) -> (r: Option<i64>)
    ensures
        stack_has(stack_cells(*s), k as int, x as int, y as int) ==> r == Some(
            stack_cells(*s)[k as int][x as int][y as int],
        ),
        !stack_has(stack_cells(*s), k as int, x as int, y as int) ==> r.is_none(),
{
    s.cells.get((k, x, y)).copied()
}

/// `ArrayBase::get_mut` on a three-dimensional array, followed by a store
/// through the reference it hands out: the element at `(k, x, y)` becomes
/// `value` and the result is `true`; where the index lies outside the
/// array's shape nothing changes and the result is `false`.
#[verifier::external_body]
pub(crate) fn stack_set(s: &mut StackStore, k: usize, x: usize, y: usize, value: i64) -> (done: bool)
    ensures
        done == stack_has(stack_cells(*old(s)), k as int, x as int, y as int),
        done ==> stack_cells(*final(s)) == stack_cells(*old(s)).update(
            k as int,
            stack_cells(*old(s))[k as int].update(
                x as int,
                stack_cells(*old(s))[k as int][x as int].update(y as int, value),
            ),
        ),
        !done ==> stack_cells(*final(s)) == stack_cells(*old(s)),
{
    match s.cells.get_mut((k, x, y)) {
        Some(cell) => {
            *cell = value;
            true
        },
        None => false,
    }
}

} // verus!
