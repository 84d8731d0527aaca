use crate::cell::{Cell, ONE_BITS, ZERO_BITS};
use crate::config::{Config, DrawMode};
use crate::grid::{cell_index, in_grid, interior_index, lemma_index_split, on_ring, put};
use crate::stream::solid_of;
use std::collections::HashSet;
use vstd::prelude::*;

verus! {

/// Why a flat index was refused.
#[derive(Clone, Copy, Debug, PartialEq, Eq, Structural)]
pub enum IndexError {
    /// The index names no cell of the grid.
    OutOfRange,
    /// The index names a cell of the outer ring, which cannot be solid.
    OnBoundary,
}

/// The engine: two cell buffers of which one is active, the derived fields,
/// the solid cells and the tracers.
pub struct Lattice {
    pub(crate) config: Config,
    pub(crate) cells_one: Vec<Cell>,
    pub(crate) cells_two: Vec<Cell>,
    pub(crate) use_one: bool,
    pub(crate) density: Vec<u64>,
    pub(crate) ux: Vec<u64>,
    pub(crate) uy: Vec<u64>,
    pub(crate) curl: Vec<u64>,
    pub(crate) barrier_set: HashSet<usize>,
    pub(crate) barrier: Vec<usize>,
    pub(crate) flow_particles_x: Vec<u64>,
    pub(crate) flow_particles_y: Vec<u64>,
}

/// `s` occurs among the first `k` entries of `list`.
pub open spec fn listed(list: Seq<usize>, k: int, s: int) -> bool {
    exists|j: int| 0 <= j < k && j < list.len() && #[trigger] list[j] == s
}

/// `list` without the entries equal to `v`, the others in their order.
pub open spec fn without(list: Seq<usize>, v: usize) -> Seq<usize>
    decreases list.len(),
{
    if list.len() == 0 {
        Seq::empty()
    } else if list.last() == v {
        without(list.drop_last(), v)
    } else {
        without(list.drop_last(), v).push(list.last())
    }
}

/// In a list without duplicates, what occurs among the first `k` entries is
/// not the entry at `k`.
pub proof fn lemma_listed_differs(list: Seq<usize>, k: int, s: int)
    requires
        list.no_duplicates(),
        0 <= k < list.len(),
        listed(list, k, s),
    ensures
        list[k] != s,
{
    let j = choose|j: int| 0 <= j < k && j < list.len() && #[trigger] list[j] == s;
    assert(list[j] != list[k]);
}

/// A vector of `n` copies of `v`.
pub fn filled<T: Copy>(n: usize, v: T) -> (out: Vec<T>)
    ensures
        out@ == Seq::new(n as nat, |i: int| v),
{
    let mut out: Vec<T> = Vec::with_capacity(n);
    let mut i: usize = 0;
    while i < n
        invariant
            i <= n,
            out@ == Seq::new(i as nat, |j: int| v),
        decreases n - i,
    {
        out.push(v);
        i = i + 1;
        assert(out@ =~= Seq::new(i as nat, |j: int| v));
    }
    out
}

/// Overwrites with `value` every entry of `v` whose index is not in `set`.
pub(crate) fn fill_outside<T: Copy>(v: &mut Vec<T>, set: &HashSet<usize>, value: T)
    ensures
        final(v)@.len() == old(v)@.len(),
        forall|i: int|
            0 <= i < old(v)@.len() ==> #[trigger] final(v)@[i] == (if solid_of(set@).contains(i) {
                old(v)@[i]
            } else {
                value
            }),
{
    let n: usize = v.len();
    let mut i: usize = 0;
    while i < n
        invariant
            i <= n,
            v@.len() == n,
            n == old(v)@.len(),
            forall|j: int|
                0 <= j < n ==> #[trigger] v@[j] == (if j >= i || solid_of(set@).contains(j) {
                    old(v)@[j]
                } else {
                    value
                }),
        decreases n - i,
    {
        if !set.contains(&i) {
            v.set(i, value);
        }
        i = i + 1;
    }
}

/// Overwrites every cell of the outer ring with `fill`: first the top and
/// bottom rows, then the left and right columns.
pub(crate) fn fill_ring(cells: &mut Vec<Cell>, width: u32, height: u32, fill: Cell)
    requires
        2 <= width,
        2 <= height,
        width * height <= u32::MAX,
        old(cells)@.len() == width * height,
    ensures
        final(cells)@.len() == width * height,
        forall|x: int, y: int|
            in_grid(width as int, height as int, x, y) ==> #[trigger] final(cells)@[cell_index(
                width as int,
                x,
                y,
            )] == (if on_ring(width as int, height as int, x, y) {
                fill
            } else {
                old(cells)@[cell_index(width as int, x, y)]
            }),
{
    let mut x: u32 = 0;
    while x < width
        invariant
            x <= width,
            2 <= width,
            2 <= height,
            width * height <= u32::MAX,
            cells@.len() == width * height,
            forall|x2: int, y2: int|
                in_grid(width as int, height as int, x2, y2) ==> #[trigger] cells@[cell_index(
                    width as int,
                    x2,
                    y2,
                )] == (if x2 < x && (y2 == 0 || y2 == height - 1) {
                    fill
                } else {
                    old(cells)@[cell_index(width as int, x2, y2)]
                }),
        decreases width - x,
    {
        put(cells, width, height, x, 0, fill);
        put(cells, width, height, x, height - 1, fill);
        x = x + 1;
    }
    let mut y: u32 = 0;
    while y < height
        invariant
            y <= height,
            2 <= width,
            2 <= height,
            width * height <= u32::MAX,
            cells@.len() == width * height,
            forall|x2: int, y2: int|
                in_grid(width as int, height as int, x2, y2) ==> #[trigger] cells@[cell_index(
                    width as int,
                    x2,
                    y2,
                )] == (if y2 == 0 || y2 == height - 1 || (y2 < y && (x2 == 0 || x2 == width
                    - 1)) {
                    fill
                } else {
                    old(cells)@[cell_index(width as int, x2, y2)]
                }),
        decreases height - y,
    {
        put(cells, width, height, 0, y, fill);
        put(cells, width, height, width - 1, y, fill);
        y = y + 1;
    }
}

/// `post` is `pre` with every cell of the outer ring of the active buffer
/// replaced by `fill`; nothing else differs.
pub open spec fn ring_set(pre: &Lattice, post: &Lattice, fill: Cell) -> bool {
    &&& post.spec_config() == pre.spec_config()
    &&& post.same_barriers(pre)
    &&& post.same_tracers(pre)
    &&& post.same_fields(pre)
    &&& post.first_active() == pre.first_active()
    &&& post.spec_cells().len() == pre.size()
    &&& forall|x: int, y: int|
        in_grid(pre.spec_width(), pre.spec_height(), x, y) ==> #[trigger] post.spec_cells()[cell_index(
            pre.spec_width(),
            x,
            y,
        )] == (if on_ring(pre.spec_width(), pre.spec_height(), x, y) {
            fill
        } else {
            pre.spec_cells()[cell_index(pre.spec_width(), x, y)]
        })
}

/// `post` is `pre` with the outer ring set to an equilibrium of the inflow
/// speed of `pre`, no y-velocity and density 1.
pub open spec fn bounded<F: Fn(u64, u64, u64) -> Cell>(
    pre: &Lattice,
    post: &Lattice,
    equilibrium: &F,
) -> bool {
    exists|fill: Cell|
        #![trigger ring_set(pre, post, fill)]
        equilibrium.ensures((pre.spec_config().spec_flow_speed(), ZERO_BITS, ONE_BITS), fill)
            && ring_set(pre, post, fill)
}

impl Lattice {
    pub open(crate) spec fn spec_config(&self) -> Config {
        self.config
    }

    pub open spec fn spec_width(&self) -> int {
        self.spec_config().spec_width()
    }

    pub open spec fn spec_height(&self) -> int {
        self.spec_config().spec_height()
    }

    /// The number of cells.
    pub open spec fn size(&self) -> int {
        self.spec_width() * self.spec_height()
    }

    /// The active buffer.
    pub open(crate) spec fn spec_cells(&self) -> Seq<Cell> {
        if self.use_one {
            self.cells_one@
        } else {
            self.cells_two@
        }
    }

    pub open(crate) spec fn spec_density(&self) -> Seq<u64> {
        self.density@
    }

    pub open(crate) spec fn spec_ux(&self) -> Seq<u64> {
        self.ux@
    }

    pub open(crate) spec fn spec_uy(&self) -> Seq<u64> {
        self.uy@
    }

    pub open(crate) spec fn spec_curl(&self) -> Seq<u64> {
        self.curl@
    }

    /// The solid cells, in the order in which they were added.
    pub open(crate) spec fn spec_barrier(&self) -> Seq<usize> {
        self.barrier@
    }

    /// The flat indices of the solid cells.
    pub open(crate) spec fn solid_set(&self) -> Set<int> {
        solid_of(self.barrier_set@)
    }

    /// The cell with flat index `i` is solid.
    pub open spec fn is_barrier(&self, i: int) -> bool {
        self.solid_set().contains(i)
    }

    /// The first of the two buffers is the active one.
    pub open(crate) spec fn first_active(&self) -> bool {
        self.use_one
    }

    pub open(crate) spec fn spec_tracers_x(&self) -> Seq<u64> {
        self.flow_particles_x@
    }

    pub open(crate) spec fn spec_tracers_y(&self) -> Seq<u64> {
        self.flow_particles_y@
    }

    /// The invariant of the engine: every array has one entry per cell, the
    /// membership test and the ordered list name the same cells, all of them
    /// interior, and the two tracer arrays are equally long.
    pub open(crate) spec fn wf(&self) -> bool {
        &&& self.config.wf()
        &&& self.cells_one@.len() == self.size()
        &&& self.cells_two@.len() == self.size()
        &&& self.density@.len() == self.size()
        &&& self.ux@.len() == self.size()
        &&& self.uy@.len() == self.size()
        &&& self.curl@.len() == self.size()
        &&& self.flow_particles_x@.len() == self.flow_particles_y@.len()
        &&& self.barrier@.no_duplicates()
        &&& forall|j: int|
            0 <= j < self.barrier@.len() ==> (#[trigger] self.barrier@[j]) < self.size()
                && self.barrier_set@.contains(self.barrier@[j])
        &&& forall|v: usize| #[trigger]
            self.barrier_set@.contains(v) ==> listed(
                self.barrier@,
                self.barrier@.len() as int,
                v as int,
            ) && interior_index(self.spec_width(), self.spec_height(), v as int)
    }

    /// What the invariant says in the vocabulary of the contracts: every
    /// array has one entry per cell, the tracer arrays are equally long, the
    /// ordered list names each solid cell once and nothing else, and every
    /// solid cell is interior.
    pub proof fn lemma_invariant(&self)
        requires
            self.wf(),
        ensures
            self.spec_config().wf(),
            self.spec_cells().len() == self.size(),
            self.spec_density().len() == self.size(),
            self.spec_ux().len() == self.size(),
            self.spec_uy().len() == self.size(),
            self.spec_curl().len() == self.size(),
            self.spec_tracers_x().len() == self.spec_tracers_y().len(),
            self.spec_barrier().no_duplicates(),
            forall|j: int|
                0 <= j < self.spec_barrier().len() ==> self.is_barrier(
                    #[trigger] self.spec_barrier()[j] as int,
                ),
            forall|i: int| #[trigger]
                self.is_barrier(i) ==> interior_index(self.spec_width(), self.spec_height(), i)
                    && listed(self.spec_barrier(), self.spec_barrier().len() as int, i),
    {
        assert forall|i: int| #[trigger] self.is_barrier(i) implies interior_index(
            self.spec_width(),
            self.spec_height(),
            i,
        ) && listed(self.spec_barrier(), self.spec_barrier().len() as int, i) by {
            assert(self.barrier_set@.contains(i as usize));
        }
    }

    /// The two engines have the same solid cells.
    pub open spec fn same_barriers(&self, other: &Lattice) -> bool {
        &&& self.spec_barrier() == other.spec_barrier()
        &&& self.solid_set() == other.solid_set()
    }

    /// The two engines have the same tracers.
    pub open spec fn same_tracers(&self, other: &Lattice) -> bool {
        &&& self.spec_tracers_x() == other.spec_tracers_x()
        &&& self.spec_tracers_y() == other.spec_tracers_y()
    }

    /// The two engines have the same derived fields.
    pub open spec fn same_fields(&self, other: &Lattice) -> bool {
        &&& self.spec_density() == other.spec_density()
        &&& self.spec_ux() == other.spec_ux()
        &&& self.spec_uy() == other.spec_uy()
        &&& self.spec_curl() == other.spec_curl()
    }

    /// An engine at rest: every cell holds `rest`, the density field is 1
    /// everywhere and both velocity fields and the curl are 0. There are no
    /// solid cells and no tracers.
    pub fn with_rest_state(config: Config, rest: Cell) -> (lattice: Self)
        requires
            config.wf(),
        ensures
            lattice.wf(),
            lattice.spec_config() == config,
            lattice.spec_cells() == Seq::new(lattice.size() as nat, |i: int| rest),
            lattice.spec_density() == Seq::new(lattice.size() as nat, |i: int| ONE_BITS),
            lattice.spec_ux() == Seq::new(lattice.size() as nat, |i: int| ZERO_BITS),
            lattice.spec_uy() == Seq::new(lattice.size() as nat, |i: int| ZERO_BITS),
            lattice.spec_curl() == Seq::new(lattice.size() as nat, |i: int| ZERO_BITS),
            lattice.spec_barrier() == Seq::<usize>::empty(),
            forall|i: int| !lattice.is_barrier(i),
            lattice.spec_tracers_x() == Seq::<u64>::empty(),
            lattice.spec_tracers_y() == Seq::<u64>::empty(),
    {
        let n: usize = (config.width * config.height) as usize;
        let mut lattice = Lattice {
            config,
            cells_one: filled(n, Cell::default()),
            cells_two: filled(n, Cell::default()),
            use_one: true,
            density: filled(n, ZERO_BITS),
            ux: filled(n, ZERO_BITS),
            uy: filled(n, ZERO_BITS),
            curl: filled(n, ZERO_BITS),
            barrier_set: HashSet::new(),
            barrier: Vec::new(),
            flow_particles_x: Vec::new(),
            flow_particles_y: Vec::new(),
        };
        lattice.fill_fluid(ZERO_BITS, ZERO_BITS, ONE_BITS, rest);
        assert(lattice.spec_cells() =~= Seq::new(lattice.size() as nat, |i: int| rest));
        assert(lattice.spec_density() =~= Seq::new(lattice.size() as nat, |i: int| ONE_BITS));
        assert(lattice.spec_ux() =~= Seq::new(lattice.size() as nat, |i: int| ZERO_BITS));
        assert(lattice.spec_uy() =~= Seq::new(lattice.size() as nat, |i: int| ZERO_BITS));
        lattice
    }

    /// An engine at rest. `equilibrium` gives the populations of a cell from
    /// its x-velocity, y-velocity and density; it is applied once, to
    /// velocity (0, 0) and density 1, and every cell holds the result.
    pub fn new<F: Fn(u64, u64, u64) -> Cell>(config: Config, equilibrium: &F) -> (lattice: Self)
        requires
            config.wf(),
            equilibrium.requires((ZERO_BITS, ZERO_BITS, ONE_BITS)),
        ensures
            lattice.wf(),
            lattice.spec_config() == config,
            exists|rest: Cell|
                equilibrium.ensures((ZERO_BITS, ZERO_BITS, ONE_BITS), rest) && lattice.spec_cells()
                    == Seq::new(lattice.size() as nat, |i: int| rest),
            lattice.spec_density() == Seq::new(lattice.size() as nat, |i: int| ONE_BITS),
            lattice.spec_ux() == Seq::new(lattice.size() as nat, |i: int| ZERO_BITS),
            lattice.spec_uy() == Seq::new(lattice.size() as nat, |i: int| ZERO_BITS),
            lattice.spec_curl() == Seq::new(lattice.size() as nat, |i: int| ZERO_BITS),
            lattice.spec_barrier() == Seq::<usize>::empty(),
            forall|i: int| !lattice.is_barrier(i),
            lattice.spec_tracers_x() == Seq::<u64>::empty(),
            lattice.spec_tracers_y() == Seq::<u64>::empty(),
    {
        let rest: Cell = equilibrium(ZERO_BITS, ZERO_BITS, ONE_BITS);
        Self::with_rest_state(config, rest)
    }

    /// Sets every cell that is not solid to `fill`, and its entries of the
    /// density and velocity fields to `rho`, `ux` and `uy`. Solid cells keep
    /// what they hold.
    pub fn fill_fluid(&mut self, ux: u64, uy: u64, rho: u64, fill: Cell)
        requires
            old(self).wf(),
        ensures
            final(self).wf(),
            final(self).spec_config() == old(self).spec_config(),
            final(self).same_barriers(old(self)),
            final(self).same_tracers(old(self)),
            final(self).spec_curl() == old(self).spec_curl(),
            forall|i: int|
                0 <= i < old(self).size() ==> #[trigger] final(self).spec_cells()[i] == (if old(
                    self,
                ).is_barrier(i) {
                    old(self).spec_cells()[i]
                } else {
                    fill
                }),
            forall|i: int|
                0 <= i < old(self).size() ==> #[trigger] final(self).spec_density()[i] == (if old(
                    self,
                ).is_barrier(i) {
                    old(self).spec_density()[i]
                } else {
                    rho
                }),
            forall|i: int|
                0 <= i < old(self).size() ==> #[trigger] final(self).spec_ux()[i] == (if old(
                    self,
                ).is_barrier(i) {
                    old(self).spec_ux()[i]
                } else {
                    ux
                }),
            forall|i: int|
                0 <= i < old(self).size() ==> #[trigger] final(self).spec_uy()[i] == (if old(
                    self,
                ).is_barrier(i) {
                    old(self).spec_uy()[i]
                } else {
                    uy
                }),
    {
        fill_outside(&mut self.density, &self.barrier_set, rho);
        fill_outside(&mut self.ux, &self.barrier_set, ux);
        fill_outside(&mut self.uy, &self.barrier_set, uy);
        if self.use_one {
            fill_outside(&mut self.cells_one, &self.barrier_set, fill);
        } else {
            fill_outside(&mut self.cells_two, &self.barrier_set, fill);
        }
    }

    /// Sets the fluid to the equilibrium of the given velocity and density:
    /// `equilibrium` is applied once, to `(ux, uy, rho)`, and every cell that
    /// is not solid holds the result; the fields hold `rho`, `ux` and `uy`
    /// there.
    pub fn init_flow<F: Fn(u64, u64, u64) -> Cell>(
        &mut self,
        ux: u64,
        uy: u64,
        rho: u64,
        equilibrium: &F,
    )
        requires
            old(self).wf(),
            equilibrium.requires((ux, uy, rho)),
        ensures
            final(self).wf(),
            final(self).spec_config() == old(self).spec_config(),
            final(self).same_barriers(old(self)),
            final(self).same_tracers(old(self)),
            final(self).spec_curl() == old(self).spec_curl(),
            exists|fill: Cell|
                equilibrium.ensures((ux, uy, rho), fill) && forall|i: int|
                    0 <= i < old(self).size() ==> #[trigger] final(self).spec_cells()[i] == (
                    if old(self).is_barrier(i) {
                        old(self).spec_cells()[i]
                    } else {
                        fill
                    }),
            forall|i: int|
                0 <= i < old(self).size() ==> #[trigger] final(self).spec_density()[i] == (if old(
                    self,
                ).is_barrier(i) {
                    old(self).spec_density()[i]
                } else {
                    rho
                }),
            forall|i: int|
                0 <= i < old(self).size() ==> #[trigger] final(self).spec_ux()[i] == (if old(
                    self,
                ).is_barrier(i) {
                    old(self).spec_ux()[i]
                } else {
                    ux
                }),
            forall|i: int|
                0 <= i < old(self).size() ==> #[trigger] final(self).spec_uy()[i] == (if old(
                    self,
                ).is_barrier(i) {
                    old(self).spec_uy()[i]
                } else {
                    uy
                }),
    {
        let fill: Cell = equilibrium(ux, uy, rho);
        self.fill_fluid(ux, uy, rho, fill);
    }

    /// Overwrites every cell of the outer ring of the active buffer with
    /// `fill`. Interior cells and everything else stay.
    pub fn apply_ring(&mut self, fill: Cell)
        requires
            old(self).wf(),
        ensures
            final(self).wf(),
            ring_set(old(self), final(self), fill),
    {
        let width: u32 = self.config.width;
        let height: u32 = self.config.height;
        if self.use_one {
            fill_ring(&mut self.cells_one, width, height, fill);
        } else {
            fill_ring(&mut self.cells_two, width, height, fill);
        }
    }

    /// The inflow and outflow condition. `equilibrium` is applied once, to
    /// the inflow speed as x-velocity, y-velocity 0 and density 1, and every
    /// cell of the outer ring of the active buffer holds the result.
    pub fn set_boundaries<F: Fn(u64, u64, u64) -> Cell>(&mut self, equilibrium: &F)
        requires
            old(self).wf(),
            equilibrium.requires((old(self).spec_config().spec_flow_speed(), ZERO_BITS, ONE_BITS)),
        ensures
            final(self).wf(),
            bounded(old(self), final(self), equilibrium),
    {
        let fill: Cell = equilibrium(self.config.flow_speed, ZERO_BITS, ONE_BITS);
        self.apply_ring(fill);
    }

    /// Marks the interior cell with flat index `idx` as solid and, unless it
    /// was solid already, appends it to the ordered list. The cell's stored
    /// populations are not touched.
    ///
    /// An index that names no cell is refused with `OutOfRange`, one on the
    /// outer ring with `OnBoundary`; the engine is then unchanged.
    pub fn add_barrier(&mut self, idx: usize) -> (res: Result<(), IndexError>)
        requires
            old(self).wf(),
        ensures
            final(self).wf(),
            idx >= old(self).size() <==> res == Err::<(), IndexError>(IndexError::OutOfRange),
            (idx < old(self).size() && !interior_index(
                old(self).spec_width(),
                old(self).spec_height(),
                idx as int,
            )) <==> res == Err::<(), IndexError>(IndexError::OnBoundary),
            interior_index(old(self).spec_width(), old(self).spec_height(), idx as int)
                <==> res is Ok,
            res is Err ==> *final(self) == *old(self),
            final(self).spec_config() == old(self).spec_config(),
            final(self).same_tracers(old(self)),
            final(self).same_fields(old(self)),
            final(self).first_active() == old(self).first_active(),
            final(self).spec_cells() == old(self).spec_cells(),
            res is Ok ==> final(self).solid_set() == old(self).solid_set().insert(idx as int),
            res is Ok ==> final(self).spec_barrier() == (if old(self).is_barrier(idx as int) {
                old(self).spec_barrier()
            } else {
                old(self).spec_barrier().push(idx)
            }),
    {
        let width: u32 = self.config.width;
        let height: u32 = self.config.height;
        let n: usize = (width * height) as usize;
        if idx >= n {
            return Err(IndexError::OutOfRange);
        }
        let x: u32 = (idx as u32) % width;
        let y: u32 = (idx as u32) / width;
        proof {
            lemma_index_split(width as int, height as int, idx as int);
        }
        if x == 0 || y == 0 || x >= width - 1 || y >= height - 1 {
            return Err(IndexError::OnBoundary);
        }
        if !self.barrier_set.contains(&idx) {
            let ghost old_list = self.barrier@;
            let ghost old_set = self.barrier_set@;
            self.barrier_set.insert(idx);
            self.barrier.push(idx);
            proof {
                assert(self.barrier@[old_list.len() as int] == idx);
                assert forall|i: int, j: int|
                    0 <= i < self.barrier@.len() && 0 <= j < self.barrier@.len() && i
                        != j implies self.barrier@[i] != self.barrier@[j] by {
                    if i < old_list.len() {
                        assert(old_set.contains(old_list[i]));
                    }
                    if j < old_list.len() {
                        assert(old_set.contains(old_list[j]));
                    }
                }
                assert forall|v: usize| #[trigger] self.barrier_set@.contains(v) implies listed(
                    self.barrier@,
                    self.barrier@.len() as int,
                    v as int,
                ) by {
                    if v != idx {
                        assert(old_set.contains(v));
                        let j = choose|j: int|
                            0 <= j < old_list.len() && j < old_list.len() && #[trigger] old_list[j]
                                == v;
                        assert(self.barrier@[j] == v);
                    }
                }
                assert(self.solid_set() =~= old(self).solid_set().insert(idx as int));
            }
        } else {
            assert(self.solid_set() =~= old(self).solid_set().insert(idx as int));
        }
        Ok(())
    }

    /// Makes the cell with flat index `idx` fluid again: it leaves the
    /// membership test and the ordered list, whose other entries keep their
    /// order. The cell's stored populations are not touched. Of a cell that
    /// is not solid nothing changes.
    ///
    /// An index that names no cell is refused with `OutOfRange`.
    pub fn remove_barrier(&mut self, idx: usize) -> (res: Result<(), IndexError>)
        requires
            old(self).wf(),
        ensures
            final(self).wf(),
            idx >= old(self).size() <==> res == Err::<(), IndexError>(IndexError::OutOfRange),
            idx < old(self).size() <==> res is Ok,
            res is Err ==> *final(self) == *old(self),
            final(self).spec_config() == old(self).spec_config(),
            final(self).same_tracers(old(self)),
            final(self).same_fields(old(self)),
            final(self).first_active() == old(self).first_active(),
            final(self).spec_cells() == old(self).spec_cells(),
            res is Ok ==> final(self).solid_set() == old(self).solid_set().remove(idx as int),
            res is Ok ==> final(self).spec_barrier() == without(old(self).spec_barrier(), idx),
    {
        let n: usize = (self.config.width * self.config.height) as usize;
        if idx >= n {
            return Err(IndexError::OutOfRange);
        }
        let mut kept: Vec<usize> = Vec::new();
        let mut k: usize = 0;
        while k < self.barrier.len()
            invariant
                k <= self.barrier@.len(),
                *self == *old(self),
                self.wf(),
                kept@ == without(self.barrier@.take(k as int), idx),
                kept@.no_duplicates(),
                forall|j: int|
                    0 <= j < kept@.len() ==> (#[trigger] kept@[j]) != idx && kept@[j] < self.size()
                        && self.barrier_set@.contains(kept@[j]) && listed(
                        self.barrier@,
                        k as int,
                        kept@[j] as int,
                    ),
                forall|i: int|
                    0 <= i < k && (#[trigger] self.barrier@[i]) != idx ==> listed(
                        kept@,
                        kept@.len() as int,
                        self.barrier@[i] as int,
                    ),
            decreases self.barrier@.len() - k,
        {
            let v: usize = self.barrier[k];
            let ghost before = kept@;
            proof {
                assert(self.barrier@.take(k + 1).drop_last() == self.barrier@.take(k as int));
                assert(self.barrier@.take(k + 1).last() == v);
            }
            if v != idx {
                kept.push(v);
                proof {
                    assert(kept@[before.len() as int] == v);
                    assert forall|i: int, j: int|
                        0 <= i < kept@.len() && 0 <= j < kept@.len() && i != j implies kept@[i]
                        != kept@[j] by {
                        if i < before.len() && j < before.len() {
                            assert(before[i] != before[j]);
                        } else if i < before.len() {
                            lemma_listed_differs(self.barrier@, k as int, before[i] as int);
                        } else {
                            lemma_listed_differs(self.barrier@, k as int, before[j] as int);
                        }
                    }
                }
            }
            proof {
                assert forall|j: int| 0 <= j < kept@.len() implies listed(
                    self.barrier@,
                    k + 1,
                    #[trigger] kept@[j] as int,
                ) by {
                    if j < before.len() {
                        let i = choose|i: int|
                            0 <= i < k && i < self.barrier@.len() && #[trigger] self.barrier@[i]
                                == before[j];
                        assert(self.barrier@[i] == kept@[j]);
                    } else {
                        assert(self.barrier@[k as int] == kept@[j]);
                    }
                }
            }
            proof {
                assert forall|i: int|
                    0 <= i < k + 1 && (#[trigger] self.barrier@[i]) != idx implies listed(
                    kept@,
                    kept@.len() as int,
                    self.barrier@[i] as int,
                ) by {
                    if i < k {
                        let j = choose|j: int|
                            0 <= j < before.len() && j < before.len() && #[trigger] before[j]
                                == self.barrier@[i];
                        assert(kept@[j] == self.barrier@[i]);
                    }
                }
            }
            k = k + 1;
        }
        proof {
            assert(self.barrier@.take(k as int) == self.barrier@);
        }
        let ghost old_set = self.barrier_set@;
        self.barrier = kept;
        self.barrier_set.remove(&idx);
        proof {
            assert(self.solid_set() =~= old(self).solid_set().remove(idx as int));
            assert forall|v: usize| #[trigger] self.barrier_set@.contains(v) implies listed(
                self.barrier@,
                self.barrier@.len() as int,
                v as int,
            ) by {
                assert(old_set.contains(v));
                let j = choose|j: int|
                    0 <= j < old(self).barrier@.len() && j < old(self).barrier@.len()
                        && #[trigger] old(self).barrier@[j] == v;
                assert(old(self).barrier@[j] != idx);
            }
        }
        Ok(())
    }

    /// Overwrites the cell with flat index `idx` of the active buffer. The
    /// solid cells are not touched. An index that names no cell is refused
    /// with `OutOfRange`, and nothing changes.
    pub fn set_cell(&mut self, new_cell: Cell, idx: usize) -> (res: Result<(), IndexError>)
        requires
            old(self).wf(),
        ensures
            final(self).wf(),
            idx >= old(self).size() <==> res == Err::<(), IndexError>(IndexError::OutOfRange),
            idx < old(self).size() <==> res is Ok,
            res is Err ==> *final(self) == *old(self),
            res is Ok ==> final(self).spec_cells() == old(self).spec_cells().update(
                idx as int,
                new_cell,
            ),
            final(self).spec_config() == old(self).spec_config(),
            final(self).same_barriers(old(self)),
            final(self).same_tracers(old(self)),
            final(self).same_fields(old(self)),
            final(self).first_active() == old(self).first_active(),
    {
        let n: usize = (self.config.width * self.config.height) as usize;
        if idx >= n {
            return Err(IndexError::OutOfRange);
        }
        if self.use_one {
            self.cells_one.set(idx, new_cell);
        } else {
            self.cells_two.set(idx, new_cell);
        }
        Ok(())
    }

    /// The configuration.
    pub fn config(&self) -> (out: &Config)
        ensures
            *out == self.spec_config(),
    {
        &self.config
    }

    /// The active buffer, one cell per grid site in row-major order.
    pub fn cells(&self) -> (out: &Vec<Cell>)
        ensures
            out@ == self.spec_cells(),
    {
        if self.use_one {
            &self.cells_one
        } else {
            &self.cells_two
        }
    }

    /// The solid cells, in the order in which they were added.
    pub fn barrier(&self) -> (out: &Vec<usize>)
        ensures
            out@ == self.spec_barrier(),
    {
        &self.barrier
    }

    /// Whether the cell with flat index `idx` is solid.
    pub fn is_solid(&self, idx: usize) -> (solid: bool)
        ensures
            solid == self.is_barrier(idx as int),
    {
        self.barrier_set.contains(&idx)
    }

    pub fn ux(&self) -> (out: &Vec<u64>)
        ensures
            out@ == self.spec_ux(),
    {
        &self.ux
    }

    pub fn uy(&self) -> (out: &Vec<u64>)
        ensures
            out@ == self.spec_uy(),
    {
        &self.uy
    }

    pub fn curl(&self) -> (out: &Vec<u64>)
        ensures
            out@ == self.spec_curl(),
    {
        &self.curl
    }

    pub fn density(&self) -> (out: &Vec<u64>)
        ensures
            out@ == self.spec_density(),
    {
        &self.density
    }

    pub fn flow_particles_x(&self) -> (out: &Vec<u64>)
        ensures
            out@ == self.spec_tracers_x(),
    {
        &self.flow_particles_x
    }

    pub fn flow_particles_y(&self) -> (out: &Vec<u64>)
        ensures
            out@ == self.spec_tracers_y(),
    {
        &self.flow_particles_y
    }

    /// The number of tracers.
    pub fn flow_size(&self) -> (n: usize)
        ensures
            n == self.spec_tracers_x().len(),
    {
        self.flow_particles_x.len()
    }

    pub fn draw_mode(&self) -> (mode: DrawMode)
        ensures
            mode == self.spec_config().spec_draw_mode(),
    {
        self.config.draw_mode
    }

    pub fn width(&self) -> (w: u32)
        ensures
            w == self.spec_width(),
    {
        self.config.width
    }

    pub fn height(&self) -> (h: u32)
        ensures
            h == self.spec_height(),
    {
        self.config.height
    }

    /// The two engines differ in nothing but, possibly, the configuration.
    pub open spec fn same_grid(&self, other: &Lattice) -> bool {
        &&& self.spec_cells() == other.spec_cells()
        &&& self.first_active() == other.first_active()
        &&& self.same_fields(other)
        &&& self.same_barriers(other)
        &&& self.same_tracers(other)
    }

    pub fn set_draw_mode(&mut self, draw_mode: DrawMode)
        ensures
            old(self).wf() ==> final(self).wf(),
            final(self).same_grid(old(self)),
            final(self).spec_config() == old(self).spec_config().with_draw_mode(draw_mode),
            final(self).spec_config().holds(
                old(self).spec_width(),
                old(self).spec_height(),
                old(self).spec_config().spec_steps_per_frame(),
                old(self).spec_config().spec_flow_speed(),
                draw_mode,
                old(self).spec_config().spec_omega(),
            ),
    {
        self.config.draw_mode = draw_mode;
    }

    /// Replaces the relaxation rate by what `relaxation_rate` makes of
    /// `viscosity`.
    pub fn set_viscosity<F: Fn(u64) -> u64>(&mut self, viscosity: u64, relaxation_rate: F)
        requires
            relaxation_rate.requires((viscosity,)),
        ensures
            old(self).wf() ==> final(self).wf(),
            final(self).same_grid(old(self)),
            relaxation_rate.ensures((viscosity,), final(self).spec_config().spec_omega()),
            final(self).spec_config().holds(
                old(self).spec_width(),
                old(self).spec_height(),
                old(self).spec_config().spec_steps_per_frame(),
                old(self).spec_config().spec_flow_speed(),
                old(self).spec_config().spec_draw_mode(),
                final(self).spec_config().spec_omega(),
            ),
            final(self).spec_config() == old(self).spec_config().with_omega(
                final(self).spec_config().spec_omega(),
            ),
    {
        let omega: u64 = relaxation_rate(viscosity);
        self.config.omega = omega;
    }

    pub fn set_flow_speed(&mut self, flow_speed: u64)
        ensures
            old(self).wf() ==> final(self).wf(),
            final(self).same_grid(old(self)),
            final(self).spec_config() == old(self).spec_config().with_flow_speed(flow_speed),
            final(self).spec_config().holds(
                old(self).spec_width(),
                old(self).spec_height(),
                old(self).spec_config().spec_steps_per_frame(),
                flow_speed,
                old(self).spec_config().spec_draw_mode(),
                old(self).spec_config().spec_omega(),
            ),
    {
        self.config.flow_speed = flow_speed;
    }

    pub fn set_steps_per_frame(&mut self, steps_per_frame: u8)
        ensures
            old(self).wf() ==> final(self).wf(),
            final(self).same_grid(old(self)),
            final(self).spec_config() == old(self).spec_config().with_steps_per_frame(steps_per_frame),
            final(self).spec_config().holds(
                old(self).spec_width(),
                old(self).spec_height(),
                steps_per_frame as int,
                old(self).spec_config().spec_flow_speed(),
                old(self).spec_config().spec_draw_mode(),
                old(self).spec_config().spec_omega(),
            ),
    {
        self.config.steps_per_frame = steps_per_frame;
    }

    /// Drops all tracers. The grid is not touched.
    pub fn clear_flow_particles(&mut self)
        requires
            old(self).wf(),
        ensures
            final(self).wf(),
            final(self).spec_tracers_x() == Seq::<u64>::empty(),
            final(self).spec_tracers_y() == Seq::<u64>::empty(),
            final(self).spec_config() == old(self).spec_config(),
            final(self).same_barriers(old(self)),
            final(self).same_fields(old(self)),
            final(self).first_active() == old(self).first_active(),
            final(self).spec_cells() == old(self).spec_cells(),
    {
        self.flow_particles_x.clear();
        self.flow_particles_y.clear();
    }
}

} // verus!
