//! A dense two-dimensional field of samples.

use vstd::prelude::*;
use crate::params::{planes_fit_memory, ConfigurationError};
use crate::storage::{fits_memory, is_plane, plane_cells, plane_from_elem, plane_get, plane_set, uniform_plane, PlaneStore};

verus! {

/// An access outside the grid.
#[derive(Clone, Copy, Debug, PartialEq, Eq)]
pub enum GridError {
    /// The index does not lie in `[0, dimx) x [0, dimy)`.
    IndexOutOfRange,
}

/// A field of `dimx` by `dimy` samples. Its view is the sequence of its
/// columns: the sample at `(x, y)` is `self@[x][y]`.
pub struct Field {
    store: PlaneStore,
    dimx: usize,
    dimy: usize,
}

impl View for Field {
    type V = Seq<Seq<i64>>;

    closed spec fn view(&self) -> Seq<Seq<i64>> {
        plane_cells(self.store)
    }
}

impl Field {
    pub closed spec fn spec_dimx(&self) -> usize {
        self.dimx
    }

    pub closed spec fn spec_dimy(&self) -> usize {
        self.dimy
    }

    /// The view has the shape that the dimensions give, and the field is
    /// neither empty nor larger than can be allocated.
    pub open spec fn wf(&self) -> bool {
        &&& 0 < self.spec_dimx()
        &&& 0 < self.spec_dimy()
        &&& fits_memory(1, self.spec_dimx() as int, self.spec_dimy() as int)
        &&& is_plane(self@, self.spec_dimx() as int, self.spec_dimy() as int)
    }

    /// A field that holds `value` in every cell.
    pub fn uniform(dimx: usize, dimy: usize, value: i64) -> (r: Result<Field, ConfigurationError>)
        ensures
            dimx == 0 || dimy == 0 ==> r == Err::<Field, ConfigurationError>(
                ConfigurationError::EmptyGrid,
            ),
            dimx > 0 && dimy > 0 && !fits_memory(1, dimx as int, dimy as int) ==> r == Err::<
                Field,
                ConfigurationError,
            >(ConfigurationError::GridTooLarge),
            dimx > 0 && dimy > 0 && fits_memory(1, dimx as int, dimy as int) ==> r.is_ok()
                && r.unwrap().wf()
                && r.unwrap().spec_dimx() == dimx && r.unwrap().spec_dimy() == dimy
                && r.unwrap()@ == uniform_plane(dimx as int, dimy as int, value),
    {
        if dimx == 0 || dimy == 0 {
            return Err(ConfigurationError::EmptyGrid);
        }
        if !planes_fit_memory(1, dimx, dimy) {
            return Err(ConfigurationError::GridTooLarge);
        }
        Ok(Field::filled(dimx, dimy, value))
    }

    /// A field that holds `value` in every cell, for a shape known to be
    /// within the limits.
    pub(crate) fn filled(dimx: usize, dimy: usize, value: i64) -> (f: Field)
        requires
            0 < dimx,
            0 < dimy,
            fits_memory(1, dimx as int, dimy as int),
        ensures
            f.wf(),
            f.spec_dimx() == dimx,
            f.spec_dimy() == dimy,
            f@ == uniform_plane(dimx as int, dimy as int, value),
    {
        let store = plane_from_elem(dimx, dimy, value);
        Field { store, dimx, dimy }
    }

    #[verifier::when_used_as_spec(spec_dimx)]
    pub fn dimx(&self) -> (v: usize)
        ensures
            v == self.spec_dimx(),
    {
        self.dimx
    }

    #[verifier::when_used_as_spec(spec_dimy)]
    pub fn dimy(&self) -> (v: usize)
        ensures
            v == self.spec_dimy(),
    {
        self.dimy
    }

    /// The sample at `(x, y)`.
    pub fn get(&self, x: usize, y: usize) -> (r: Result<i64, GridError>)
        requires
            self.wf(),
        ensures
            x < self.spec_dimx() && y < self.spec_dimy() ==> r == Ok::<i64, GridError>(
                self@[x as int][y as int],
            ),
            x >= self.spec_dimx() || y >= self.spec_dimy() ==> r == Err::<i64, GridError>(
                GridError::IndexOutOfRange,
            ),
    {
        match plane_get(&self.store, x, y) {
            Some(v) => Ok(v),
            None => Err(GridError::IndexOutOfRange),
        }
    }

    /// Stores `value` at `(x, y)`. Outside the grid nothing is stored.
    pub fn set(&mut self, x: usize, y: usize, value: i64) -> (r: Result<(), GridError>)
        requires
            old(self).wf(),
        ensures
            final(self).wf(),
            final(self).spec_dimx() == old(self).spec_dimx(),
            final(self).spec_dimy() == old(self).spec_dimy(),
            x < old(self).spec_dimx() && y < old(self).spec_dimy() ==> r.is_ok() && final(self)@
                == old(self)@.update(x as int, old(self)@[x as int].update(y as int, value)),
            x >= old(self).spec_dimx() || y >= old(self).spec_dimy() ==> r == Err::<(), GridError>(
                GridError::IndexOutOfRange,
            ) && final(self)@ == old(self)@,
    {
        if plane_set(&mut self.store, x, y, value) {
            Ok(())
        } else {
            Err(GridError::IndexOutOfRange)
        }
    }

    /// The sample at an index known to lie in the field.
    pub(crate) fn at(&self, x: usize, y: usize) -> (v: i64)
        requires
            self.wf(),
            x < self.spec_dimx(),
            y < self.spec_dimy(),
        ensures
            v == self@[x as int][y as int],
    {
        match plane_get(&self.store, x, y) {
            Some(v) => v,
            None => 0,
        }
    }

    /// Stores `value` at an index known to lie in the field.
    pub(crate) fn put(&mut self, x: usize, y: usize, value: i64)
        requires
            old(self).wf(),
            x < old(self).spec_dimx(),
            y < old(self).spec_dimy(),
        ensures
            final(self).wf(),
            final(self).spec_dimx() == old(self).spec_dimx(),
            final(self).spec_dimy() == old(self).spec_dimy(),
            final(self)@ == old(self)@.update(x as int, old(self)@[x as int].update(y as int, value)),
    {
        let _ = plane_set(&mut self.store, x, y, value);
    }
}

} // verus!
