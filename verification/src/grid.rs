//! The three time layers of the field, addressed by role.

use vstd::prelude::*;
use crate::field::{Field, GridError};
use crate::params::{planes_fit_memory, ConfigurationError};
use crate::storage::{fits_memory, is_plane, stack_cells, stack_get, stack_set, stack_zeros, uniform_plane, StackStore};

verus! {

/// Number of time layers that the scheme keeps.
pub const LAYERS: usize = 3;

/// The role of a time layer.
#[derive(Clone, Copy, Debug, PartialEq, Eq)]
pub enum Layer {
    /// The newest layer: the one that a step writes.
    Current,
    /// The layer one step back.
    Previous,
    /// The layer two steps back.
    TwoBack,
}

impl Layer {
    /// Position of the layer in the view of a `GridState`.
    pub open spec fn spec_index(self) -> int {
        match self {
            Layer::Current => 0,
            Layer::Previous => 1,
            Layer::TwoBack => 2,
        }
    }

    /// Position of the layer in the storage.
    pub fn index(self) -> (k: usize)
        ensures
            k == self.spec_index(),
            k < LAYERS,
    {
        match self {
            Layer::Current => 0,
            Layer::Previous => 1,
            Layer::TwoBack => 2,
        }
    }
}

/// Three layers of `dimx` by `dimy` samples. The view is the sequence of
/// the layers by role, each the sequence of its columns: the sample of
/// layer `l` at `(x, y)` is `self@[l.spec_index()][x][y]`.
pub struct GridState {
    layers: StackStore,
    dimx: usize,
    dimy: usize,
}

impl View for GridState {
    type V = Seq<Seq<Seq<i64>>>;

    closed spec fn view(&self) -> Seq<Seq<Seq<i64>>> {
        stack_cells(self.layers)
    }
}

/// The stack of three planes that all hold zero.
pub open spec fn zero_layers(dimx: int, dimy: int) -> Seq<Seq<Seq<i64>>> {
    Seq::new(LAYERS as nat, |k: int| uniform_plane(dimx, dimy, 0i64))
}

/// The plane `p` with the sample at `(x, y)` replaced by `value`.
pub open spec fn plane_with(p: Seq<Seq<i64>>, x: int, y: int, value: i64) -> Seq<Seq<i64>> {
    p.update(x, p[x].update(y, value))
}

/// `(x, y)` lies at least `h` cells from every edge of a `dimx` by `dimy`
/// grid.
pub open spec fn in_interior(x: int, y: int, dimx: int, dimy: int, h: int) -> bool {
    h <= x < dimx - h && h <= y < dimy - h
}

/// The `dimx` by `dimy` plane `cur` with its interior replaced by `inner`,
/// whose cell `(i, j)` goes to `(i + h, j + h)`. The ring of width `h`
/// keeps what it held.
pub open spec fn with_interior(
    cur: Seq<Seq<i64>>,
    inner: Seq<Seq<i64>>,
    dimx: int,
    dimy: int,
    h: int,
) -> Seq<Seq<i64>> {
    Seq::new(
        dimx as nat,
        |x: int|
            Seq::new(
                dimy as nat,
                |y: int|
                    if in_interior(x, y, dimx, dimy, h) {
                        inner[x - h][y - h]
                    } else {
                        cur[x][y]
                    },
            ),
    )
}

impl GridState {
    pub closed spec fn spec_dimx(&self) -> usize {
        self.dimx
    }

    pub closed spec fn spec_dimy(&self) -> usize {
        self.dimy
    }

    /// The plane that has the role `layer`.
    pub open spec fn plane(&self, layer: Layer) -> Seq<Seq<i64>> {
        self@[layer.spec_index()]
    }

    /// The newest layer.
    pub open spec fn current(&self) -> Seq<Seq<i64>> {
        self@[0]
    }

    /// The layer one step back.
    pub open spec fn previous(&self) -> Seq<Seq<i64>> {
        self@[1]
    }

    /// The layer two steps back.
    pub open spec fn two_back(&self) -> Seq<Seq<i64>> {
        self@[2]
    }

    /// There are three layers, each of the shape that the dimensions give,
    /// and the grid is neither empty nor larger than can be allocated.
    pub open spec fn wf(&self) -> bool {
        &&& 0 < self.spec_dimx()
        &&& 0 < self.spec_dimy()
        &&& fits_memory(LAYERS as int, self.spec_dimx() as int, self.spec_dimy() as int)
        &&& self@.len() == LAYERS
        &&& forall|k: int|
            0 <= k < LAYERS ==> is_plane(
                #[trigger] self@[k],
                self.spec_dimx() as int,
                self.spec_dimy() as int,
            )
    }

    /// A grid with every sample of every layer at zero.
    pub fn new(dimx: usize, dimy: usize) -> (r: Result<GridState, ConfigurationError>)
        ensures
            dimx == 0 || dimy == 0 ==> r == Err::<GridState, ConfigurationError>(
                ConfigurationError::EmptyGrid,
            ),
            dimx > 0 && dimy > 0 && !fits_memory(LAYERS as int, dimx as int, dimy as int) ==> r
                == Err::<
                GridState,
                ConfigurationError,
            >(ConfigurationError::GridTooLarge),
            dimx > 0 && dimy > 0 && fits_memory(LAYERS as int, dimx as int, dimy as int)
                ==> r.is_ok() && r.unwrap().wf()
                && r.unwrap().spec_dimx() == dimx && r.unwrap().spec_dimy() == dimy
                && r.unwrap()@ == zero_layers(dimx as int, dimy as int),
    {
        if dimx == 0 || dimy == 0 {
            return Err(ConfigurationError::EmptyGrid);
        }
        if !planes_fit_memory(LAYERS, dimx, dimy) {
            return Err(ConfigurationError::GridTooLarge);
        }
        Ok(GridState::zeroed(dimx, dimy))
    }

    /// A grid of zeros, for a shape known to be within the limits.
    pub(crate) fn zeroed(dimx: usize, dimy: usize) -> (g: GridState)
        requires
            0 < dimx,
            0 < dimy,
            fits_memory(LAYERS as int, dimx as int, dimy as int),
        ensures
            g.wf(),
            g.spec_dimx() == dimx,
            g.spec_dimy() == dimy,
            g@ == zero_layers(dimx as int, dimy as int),
    {
        let layers = stack_zeros(LAYERS, dimx, dimy);
        GridState { layers, dimx, dimy }
    }

    #[verifier::when_used_as_spec(spec_dimx)]
    pub fn dimx(&self) -> (v: usize)
        ensures
            v == self.spec_dimx(),
    {
        self.dimx
    }

    #[verifier::when_used_as_spec(spec_dimy)]
    pub fn dimy(&self) -> (v: usize)
        ensures
            v == self.spec_dimy(),
    {
        self.dimy
    }

    /// The sample of `layer` at `(x, y)`.
    pub fn read(&self, layer: Layer, x: usize, y: usize) -> (r: Result<i64, GridError>)
        requires
            self.wf(),
        ensures
            x < self.spec_dimx() && y < self.spec_dimy() ==> r == Ok::<i64, GridError>(
                self.plane(layer)[x as int][y as int],
            ),
            x >= self.spec_dimx() || y >= self.spec_dimy() ==> r == Err::<i64, GridError>(
                GridError::IndexOutOfRange,
            ),
    {
        match stack_get(&self.layers, layer.index(), x, y) {
            Some(v) => Ok(v),
            None => Err(GridError::IndexOutOfRange),
        }
    }

    /// Stores `value` in `layer` at `(x, y)`; the other samples stay.
    /// Outside the grid nothing is stored.
    pub fn write(&mut self, layer: Layer, x: usize, y: usize, value: i64) -> (r: Result<(), GridError>)
        requires
            old(self).wf(),
        ensures
            final(self).wf(),
            final(self).spec_dimx() == old(self).spec_dimx(),
            final(self).spec_dimy() == old(self).spec_dimy(),
            x < old(self).spec_dimx() && y < old(self).spec_dimy() ==> r.is_ok() && final(self)@
                == old(self)@.update(
                layer.spec_index(),
                plane_with(old(self).plane(layer), x as int, y as int, value),
            ),
            x >= old(self).spec_dimx() || y >= old(self).spec_dimy() ==> r == Err::<(), GridError>(
                GridError::IndexOutOfRange,
            ) && final(self)@ == old(self)@,
    {
        if stack_set(&mut self.layers, layer.index(), x, y, value) {
            Ok(())
        } else {
            Err(GridError::IndexOutOfRange)
        }
    }

    /// The sample of `layer` at an index known to lie in the grid.
    pub(crate) fn at(&self, layer: Layer, x: usize, y: usize) -> (v: i64)
        requires
            self.wf(),
            x < self.spec_dimx(),
            y < self.spec_dimy(),
        ensures
            v == self.plane(layer)[x as int][y as int],
    {
        match stack_get(&self.layers, layer.index(), x, y) {
            Some(v) => v,
            None => 0,
        }
    }

    /// Stores `value` in `layer` at an index known to lie in the grid.
    pub(crate) fn put(&mut self, layer: Layer, x: usize, y: usize, value: i64)
        requires
            old(self).wf(),
            x < old(self).spec_dimx(),
            y < old(self).spec_dimy(),
        ensures
            final(self).wf(),
            final(self).spec_dimx() == old(self).spec_dimx(),
            final(self).spec_dimy() == old(self).spec_dimy(),
            final(self)@ == old(self)@.update(
                layer.spec_index(),
                plane_with(old(self).plane(layer), x as int, y as int, value),
            ),
    {
        let _ = stack_set(&mut self.layers, layer.index(), x, y, value);
    }

    /// Copies `inner` into the interior of the current layer: the cells at
    /// least `h` from every edge. The ring and the older layers stay.
    pub fn assign_interior(&mut self, h: usize, inner: &Field)
        requires
            old(self).wf(),
            inner.wf(),
            old(self).spec_dimx() == inner.spec_dimx() + 2 * h,
            old(self).spec_dimy() == inner.spec_dimy() + 2 * h,
        ensures
            final(self).wf(),
            final(self).spec_dimx() == old(self).spec_dimx(),
            final(self).spec_dimy() == old(self).spec_dimy(),
            final(self).previous() == old(self).previous(),
            final(self).two_back() == old(self).two_back(),
            final(self).current() == with_interior(
                old(self).current(),
                inner@,
                old(self).spec_dimx() as int,
                old(self).spec_dimy() as int,
                h as int,
            ),
    {
        let ghost before = self@;
        let ghost dimx = self.dimx as int;
        let ghost dimy = self.dimy as int;
        let nx: usize = inner.dimx();
        let ny: usize = inner.dimy();
        let mut i: usize = 0;
        while i < nx
            invariant
                self.wf(),
                inner.wf(),
                self.spec_dimx() == dimx,
                self.spec_dimy() == dimy,
                nx == inner.spec_dimx(),
                ny == inner.spec_dimy(),
                dimx == nx + 2 * h,
                dimy == ny + 2 * h,
                before.len() == LAYERS,
                is_plane(before[0], dimx, dimy),
                i <= nx,
                self@[1] == before[1],
                self@[2] == before[2],
                forall|x: int, y: int|
                    0 <= x < dimx && 0 <= y < dimy ==> #[trigger] self@[0][x][y] == if in_interior(
                        x,
                        y,
                        dimx,
                        dimy,
                        h as int,
                    ) && x - h < i {
                        inner@[x - h][y - h]
                    } else {
                        before[0][x][y]
                    },
            decreases nx - i,
        {
            let mut j: usize = 0;
            while j < ny
                invariant
                    self.wf(),
                    inner.wf(),
                    self.spec_dimx() == dimx,
                    self.spec_dimy() == dimy,
                    nx == inner.spec_dimx(),
                    ny == inner.spec_dimy(),
                    dimx == nx + 2 * h,
                    dimy == ny + 2 * h,
                    before.len() == LAYERS,
                    is_plane(before[0], dimx, dimy),
                    i < nx,
                    j <= ny,
                    self@[1] == before[1],
                    self@[2] == before[2],
                    forall|x: int, y: int|
                        0 <= x < dimx && 0 <= y < dimy ==> #[trigger] self@[0][x][y]
                            == if in_interior(x, y, dimx, dimy, h as int) && (x - h < i || (x - h
                            == i && y - h < j)) {
                            inner@[x - h][y - h]
                        } else {
                            before[0][x][y]
                        },
                decreases ny - j,
            {
                let v: i64 = inner.at(i, j);
                self.put(Layer::Current, i + h, j + h, v);
                j = j + 1;
            }
            i = i + 1;
        }
        assert(self@[0] =~~= with_interior(before[0], inner@, dimx, dimy, h as int));
    }

    /// Exchanges the contents of two layers sample by sample, in place.
    pub(crate) fn swap_layers(&mut self, a: Layer, b: Layer)
        requires
            old(self).wf(),
            a != b,
        ensures
            final(self).wf(),
            final(self).spec_dimx() == old(self).spec_dimx(),
            final(self).spec_dimy() == old(self).spec_dimy(),
            final(self).plane(a) == old(self).plane(b),
            final(self).plane(b) == old(self).plane(a),
            forall|c: Layer| c != a && c != b ==> final(self).plane(c) == old(self).plane(c),
    {
        let ghost before = self@;
        let ghost ka = a.spec_index();
        let ghost kb = b.spec_index();
        let dimx: usize = self.dimx;
        let dimy: usize = self.dimy;
        let mut x: usize = 0;
        while x < dimx
            invariant
                self.wf(),
                self.spec_dimx() == dimx,
                self.spec_dimy() == dimy,
                before.len() == LAYERS,
                forall|k: int| 0 <= k < LAYERS ==> is_plane(#[trigger] before[k], dimx as int, dimy as int),
                ka == a.spec_index(),
                kb == b.spec_index(),
                ka != kb,
                x <= dimx,
                forall|k: int| 0 <= k < LAYERS && k != ka && k != kb ==> self@[k] == before[k],
                forall|i: int| 0 <= i < x ==> #[trigger] self@[ka][i] == before[kb][i],
                forall|i: int| 0 <= i < x ==> #[trigger] self@[kb][i] == before[ka][i],
                forall|i: int| x <= i < dimx ==> #[trigger] self@[ka][i] == before[ka][i],
                forall|i: int| x <= i < dimx ==> #[trigger] self@[kb][i] == before[kb][i],
            decreases dimx - x,
        {
            let mut y: usize = 0;
            while y < dimy
                invariant
                    self.wf(),
                    self.spec_dimx() == dimx,
                    self.spec_dimy() == dimy,
                    before.len() == LAYERS,
                    forall|k: int| 0 <= k < LAYERS ==> is_plane(#[trigger] before[k], dimx as int, dimy as int),
                    ka == a.spec_index(),
                    kb == b.spec_index(),
                    ka != kb,
                    x < dimx,
                    y <= dimy,
                    forall|k: int| 0 <= k < LAYERS && k != ka && k != kb ==> self@[k] == before[k],
                    forall|i: int| 0 <= i < x ==> #[trigger] self@[ka][i] == before[kb][i],
                    forall|i: int| 0 <= i < x ==> #[trigger] self@[kb][i] == before[ka][i],
                    forall|i: int| x < i < dimx ==> #[trigger] self@[ka][i] == before[ka][i],
                    forall|i: int| x < i < dimx ==> #[trigger] self@[kb][i] == before[kb][i],
                    forall|j: int| 0 <= j < y ==> #[trigger] self@[ka][x as int][j] == before[kb][x as int][j],
                    forall|j: int| 0 <= j < y ==> #[trigger] self@[kb][x as int][j] == before[ka][x as int][j],
                    forall|j: int| y <= j < dimy ==> #[trigger] self@[ka][x as int][j] == before[ka][x as int][j],
                    forall|j: int| y <= j < dimy ==> #[trigger] self@[kb][x as int][j] == before[kb][x as int][j],
                decreases dimy - y,
            {
                let va: i64 = self.at(a, x, y);
                let vb: i64 = self.at(b, x, y);
                self.put(a, x, y, vb);
                self.put(b, x, y, va);
                y = y + 1;
            }
            assert(self@[ka][x as int] =~= before[kb][x as int]);
            assert(self@[kb][x as int] =~= before[ka][x as int]);
            x = x + 1;
        }
        assert(self@[ka] =~= before[kb]);
        assert(self@[kb] =~= before[ka]);
        assert forall|c: Layer| c != a && c != b implies self.plane(c) == before[c.spec_index()] by {
            assert(c.spec_index() != ka && c.spec_index() != kb);
        }
    }

    /// Advances the roles by one step: what was the current layer becomes
    /// the previous one, what was the previous layer becomes the one two
    /// steps back, and the storage of the oldest layer becomes the current
    /// layer, to be written next. Nothing is allocated: two exchanges in
    /// place, of the two older layers and then of the two newer ones.
    pub fn rotate(&mut self)
        requires
            old(self).wf(),
        ensures
            final(self).wf(),
            final(self).spec_dimx() == old(self).spec_dimx(),
            final(self).spec_dimy() == old(self).spec_dimy(),
            final(self).previous() == old(self).current(),
            final(self).two_back() == old(self).previous(),
            final(self).current() == old(self).two_back(),
    {
        self.swap_layers(Layer::TwoBack, Layer::Previous);
        self.swap_layers(Layer::Previous, Layer::Current);
    }
}

} // verus!
