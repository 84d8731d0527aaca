use crate::cell::ONE_BITS;
use crate::grid::{cell_index, get, index_of, lemma_index_bounds};
use crate::lattice::Lattice;
use vstd::prelude::*;

verus! {

/// The sites of row `10 * gy` that are seeded in columns `10`, `20`, ... up
/// to, not including, `10 * upto`: those that are not solid, from the left.
pub open spec fn row_seeds(solid: Set<int>, width: int, gy: int, upto: int) -> Seq<(int, int)>
    decreases upto,
{
    if upto <= 1 {
        Seq::empty()
    } else {
        let before = row_seeds(solid, width, gy, upto - 1);
        if solid.contains(cell_index(width, 10 * (upto - 1), 10 * gy)) {
            before
        } else {
            before.push((10 * (upto - 1), 10 * gy))
        }
    }
}

/// The seeded sites of rows `10`, `20`, ... up to, not including,
/// `10 * upto`, row after row. A row is seeded in the columns that are
/// multiples of 10, from 10 on and below the greatest one that is at most the
/// width.
pub open spec fn seed_sites(solid: Set<int>, width: int, upto: int) -> Seq<(int, int)>
    decreases upto,
{
    if upto <= 1 {
        Seq::empty()
    } else {
        seed_sites(solid, width, upto - 1) + row_seeds(solid, width, upto - 1, width / 10)
    }
}

/// `out` is `old` followed by one coordinate for each site, the one that
/// `coord` makes of the site's column (`column` set) or row.
pub open spec fn seeded<F: Fn(u32) -> u64>(
    coord: &F,
    old: Seq<u64>,
    sites: Seq<(int, int)>,
    column: bool,
    out: Seq<u64>,
) -> bool {
    &&& out.len() == old.len() + sites.len()
    &&& forall|k: int| 0 <= k < old.len() ==> #[trigger] out[k] == old[k]
    &&& forall|k: int|
        0 <= k < sites.len() ==> coord.ensures(
            (
                if column {
                    (#[trigger] sites[k]).0
                } else {
                    sites[k].1
                } as u32,
            ),
            out[old.len() + k],
        )
}

/// Where one tracer is after a step, given the cell `(lx, ly)` that its
/// position was floored to and whether it is past the outlet (`wrap`).
///
/// Inside the grid the velocity at `(lx, ly)` is added to the position;
/// outside it the tracer stays. Past the outlet its x becomes 1, whatever
/// else happened; its y is not reset.
pub open spec fn moved<A: Fn(u64, u64) -> u64>(
    shift: &A,
    ux: Seq<u64>,
    uy: Seq<u64>,
    width: int,
    height: int,
    x0: u64,
    y0: u64,
    lx: u32,
    ly: u32,
    wrap: bool,
    x1: u64,
    y1: u64,
) -> bool {
    let inside = lx < width && ly < height;
    let i = cell_index(width, lx as int, ly as int);
    &&& if inside {
        shift.ensures((y0, uy[i]), y1)
    } else {
        y1 == y0
    }
    &&& if wrap {
        x1 == ONE_BITS
    } else if inside {
        shift.ensures((x0, ux[i]), x1)
    } else {
        x1 == x0
    }
}

/// One tracer's step: `floor` gives the cell of its position,
/// `past_outlet` says of the inflow speed, its x and the column
/// `width - 2` whether it is re-injected, and `moved` does the rest.
pub open spec fn advected<Fl: Fn(u64) -> u32, A: Fn(u64, u64) -> u64, P: Fn(u64, u64, u32) -> bool>(
    floor: &Fl,
    shift: &A,
    past_outlet: &P,
    ux: Seq<u64>,
    uy: Seq<u64>,
    width: int,
    height: int,
    flow_speed: u64,
    x0: u64,
    y0: u64,
    x1: u64,
    y1: u64,
) -> bool {
    exists|lx: u32, ly: u32, wrap: bool|
        #![trigger floor.ensures((x0,), lx), floor.ensures((y0,), ly), past_outlet.ensures((flow_speed, x0, (width - 2) as u32), wrap)]
        floor.ensures((x0,), lx) && floor.ensures((y0,), ly) && past_outlet.ensures(
            (flow_speed, x0, (width - 2) as u32),
            wrap,
        ) && moved(shift, ux, uy, width, height, x0, y0, lx, ly, wrap, x1, y1)
}

/// `post` is `pre` after every tracer has made its step, as `advected`
/// says; nothing else differs.
pub open spec fn tracers_moved<
    Fl: Fn(u64) -> u32,
    A: Fn(u64, u64) -> u64,
    P: Fn(u64, u64, u32) -> bool,
>(pre: &Lattice, post: &Lattice, floor: &Fl, shift: &A, past_outlet: &P) -> bool {
    &&& post.spec_config() == pre.spec_config()
    &&& post.same_barriers(pre)
    &&& post.same_fields(pre)
    &&& post.first_active() == pre.first_active()
    &&& post.spec_cells() == pre.spec_cells()
    &&& post.spec_tracers_x().len() == pre.spec_tracers_x().len()
    &&& post.spec_tracers_y().len() == pre.spec_tracers_y().len()
    &&& forall|k: int|
        0 <= k < pre.spec_tracers_x().len() ==> advected(
            floor,
            shift,
            past_outlet,
            pre.spec_ux(),
            pre.spec_uy(),
            pre.spec_width(),
            pre.spec_height(),
            pre.spec_config().spec_flow_speed(),
            pre.spec_tracers_x()[k],
            pre.spec_tracers_y()[k],
            #[trigger] post.spec_tracers_x()[k],
            post.spec_tracers_y()[k],
        )
}

impl Lattice {
    /// The step of one tracer at `(x0, y0)` whose position floors to the cell
    /// `(lx, ly)`; `wrap` says whether it is past the outlet.
    pub fn advance_tracer<A: Fn(u64, u64) -> u64>(
        &self,
        x0: u64,
        y0: u64,
        lx: u32,
        ly: u32,
        wrap: bool,
        shift: &A,
    ) -> (to: (u64, u64))
        requires
            self.wf(),
            forall|a: u64, b: u64| shift.requires((a, b)),
        ensures
            moved(
                shift,
                self.spec_ux(),
                self.spec_uy(),
                self.spec_width(),
                self.spec_height(),
                x0,
                y0,
                lx,
                ly,
                wrap,
                to.0,
                to.1,
            ),
    {
        let width: u32 = self.config.width;
        let height: u32 = self.config.height;
        let mut x1: u64 = x0;
        let mut y1: u64 = y0;
        if lx < width && ly < height {
            let vx: u64 = get(&self.ux, width, height, lx, ly);
            let vy: u64 = get(&self.uy, width, height, lx, ly);
            x1 = shift(x0, vx);
            y1 = shift(y0, vy);
        }
        if wrap {
            x1 = ONE_BITS;
        }
        (x1, y1)
    }

    /// Moves every tracer by one step, as `advected` says. The grid is not
    /// touched.
    pub fn move_particles<
        Fl: Fn(u64) -> u32,
        A: Fn(u64, u64) -> u64,
        P: Fn(u64, u64, u32) -> bool,
    >(&mut self, floor: &Fl, shift: &A, past_outlet: &P)
        requires
            old(self).wf(),
            forall|v: u64| floor.requires((v,)),
            forall|a: u64, b: u64| shift.requires((a, b)),
            forall|s: u64, x: u64, limit: u32| past_outlet.requires((s, x, limit)),
        ensures
            final(self).wf(),
            tracers_moved(old(self), final(self), floor, shift, past_outlet),
    {
        let n: usize = self.flow_particles_x.len();
        let flow_speed: u64 = self.config.flow_speed;
        let limit: u32 = self.config.width - 2;
        let mut k: usize = 0;
        while k < n
            invariant
                k <= n,
                old(self).wf(),
                self.wf(),
                n == self.flow_particles_x@.len(),
                n == old(self).flow_particles_x@.len(),
                flow_speed == self.config.flow_speed,
                limit == self.config.width - 2,
                self.config == old(self).config,
                self.cells_one == old(self).cells_one,
                self.cells_two == old(self).cells_two,
                self.use_one == old(self).use_one,
                self.density == old(self).density,
                self.ux == old(self).ux,
                self.uy == old(self).uy,
                self.curl == old(self).curl,
                self.barrier == old(self).barrier,
                self.barrier_set == old(self).barrier_set,
                forall|v: u64| floor.requires((v,)),
                forall|a: u64, b: u64| shift.requires((a, b)),
                forall|s: u64, x: u64, limit: u32| past_outlet.requires((s, x, limit)),
                forall|j: int|
                    k <= j < n ==> #[trigger] self.flow_particles_x@[j] == old(
                        self,
                    ).flow_particles_x@[j],
                forall|j: int|
                    k <= j < n ==> #[trigger] self.flow_particles_y@[j] == old(
                        self,
                    ).flow_particles_y@[j],
                forall|j: int|
                    0 <= j < k ==> advected(
                        floor,
                        shift,
                        past_outlet,
                        old(self).ux@,
                        old(self).uy@,
                        old(self).spec_width(),
                        old(self).spec_height(),
                        flow_speed,
                        old(self).flow_particles_x@[j],
                        old(self).flow_particles_y@[j],
                        #[trigger] self.flow_particles_x@[j],
                        self.flow_particles_y@[j],
                    ),
            decreases n - k,
        {
            let x0: u64 = self.flow_particles_x[k];
            let y0: u64 = self.flow_particles_y[k];
            let lx: u32 = floor(x0);
            let ly: u32 = floor(y0);
            let wrap: bool = past_outlet(flow_speed, x0, limit);
            let to: (u64, u64) = self.advance_tracer(x0, y0, lx, ly, wrap, shift);
            self.flow_particles_x.set(k, to.0);
            self.flow_particles_y.set(k, to.1);
            k = k + 1;
        }
    }

    /// Adds a tracer at every site whose column and row are multiples of 10,
    /// from 10 on, and that is not solid: the sites of `seed_sites`, in that
    /// order. `coord` turns a column or a row into a coordinate.
    pub fn init_flow_particles<F: Fn(u32) -> u64>(&mut self, coord: &F)
        requires
            old(self).wf(),
            forall|v: u32| coord.requires((v,)),
        ensures
            final(self).wf(),
            final(self).spec_config() == old(self).spec_config(),
            final(self).same_barriers(old(self)),
            final(self).same_fields(old(self)),
            final(self).first_active() == old(self).first_active(),
            final(self).spec_cells() == old(self).spec_cells(),
            seeded(
                coord,
                old(self).spec_tracers_x(),
                seed_sites(old(self).solid_set(), old(self).spec_width(), old(self).spec_height() / 10),
                true,
                final(self).spec_tracers_x(),
            ),
            seeded(
                coord,
                old(self).spec_tracers_y(),
                seed_sites(old(self).solid_set(), old(self).spec_width(), old(self).spec_height() / 10),
                false,
                final(self).spec_tracers_y(),
            ),
    {
        let width: u32 = self.config.width;
        let height: u32 = self.config.height;
        let rows: u32 = height / 10;
        let cols: u32 = width / 10;
        let ghost solid = self.solid_set();
        let ghost w = width as int;
        let ghost old_x = self.flow_particles_x@;
        let ghost old_y = self.flow_particles_y@;
        let mut gy: u32 = 1;
        while gy < rows
            invariant
                1 <= gy,
                gy <= rows || gy == 1,
                rows == height / 10,
                cols == width / 10,
                width == self.config.width,
                height == self.config.height,
                w == width as int,
                old(self).wf(),
                self.wf(),
                solid == old(self).solid_set(),
                old_x == old(self).flow_particles_x@,
                old_y == old(self).flow_particles_y@,
                self.config == old(self).config,
                self.cells_one == old(self).cells_one,
                self.cells_two == old(self).cells_two,
                self.use_one == old(self).use_one,
                self.density == old(self).density,
                self.ux == old(self).ux,
                self.uy == old(self).uy,
                self.curl == old(self).curl,
                self.barrier == old(self).barrier,
                self.barrier_set == old(self).barrier_set,
                forall|v: u32| coord.requires((v,)),
                seeded(coord, old_x, seed_sites(solid, w, gy as int), true, self.flow_particles_x@),
                seeded(coord, old_y, seed_sites(solid, w, gy as int), false, self.flow_particles_y@),
            decreases rows - gy,
        {
            let ghost done = seed_sites(solid, w, gy as int);
            let mut gx: u32 = 1;
            while gx < cols
                invariant
                    1 <= gx,
                    gx <= cols || gx == 1,
                    1 <= gy < rows,
                    rows == height / 10,
                    cols == width / 10,
                    width == self.config.width,
                    height == self.config.height,
                    w == width as int,
                    old(self).wf(),
                    self.wf(),
                    solid == old(self).solid_set(),
                    done == seed_sites(solid, w, gy as int),
                    self.config == old(self).config,
                    self.cells_one == old(self).cells_one,
                    self.cells_two == old(self).cells_two,
                    self.use_one == old(self).use_one,
                    self.density == old(self).density,
                    self.ux == old(self).ux,
                    self.uy == old(self).uy,
                    self.curl == old(self).curl,
                    self.barrier == old(self).barrier,
                    self.barrier_set == old(self).barrier_set,
                    forall|v: u32| coord.requires((v,)),
                    seeded(
                        coord,
                        old_x,
                        done + row_seeds(solid, w, gy as int, gx as int),
                        true,
                        self.flow_particles_x@,
                    ),
                    seeded(
                        coord,
                        old_y,
                        done + row_seeds(solid, w, gy as int, gx as int),
                        false,
                        self.flow_particles_y@,
                    ),
                decreases cols - gx,
            {
                let ghost row = row_seeds(solid, w, gy as int, gx as int);
                let col: u32 = gx * 10;
                let line: u32 = gy * 10;
                proof {
                    lemma_index_bounds(w, height as int, col as int, line as int);
                }
                let site: usize = index_of(width, height, col, line);
                let blocked: bool = self.barrier_set.contains(&site);
                if !blocked {
                    let px: u64 = coord(col);
                    let py: u64 = coord(line);
                    self.flow_particles_x.push(px);
                    self.flow_particles_y.push(py);
                    proof {
                        let next = done + row.push((col as int, line as int));
                        assert(next =~= (done + row).push((col as int, line as int)));
                        assert(row_seeds(solid, w, gy as int, gx + 1) == row.push(
                            (col as int, line as int),
                        ));
                    }
                } else {
                    assert(row_seeds(solid, w, gy as int, gx + 1) == row);
                }
                gx = gx + 1;
            }
            proof {
                if cols == 0 {
                    assert(row_seeds(solid, w, gy as int, 1) == Seq::<(int, int)>::empty());
                    assert(row_seeds(solid, w, gy as int, 0) == Seq::<(int, int)>::empty());
                }
                assert(row_seeds(solid, w, gy as int, gx as int) == row_seeds(
                    solid,
                    w,
                    gy as int,
                    cols as int,
                ));
                assert(seed_sites(solid, w, gy + 1) == done + row_seeds(
                    solid,
                    w,
                    gy as int,
                    w / 10,
                ));
            }
            gy = gy + 1;
        }
        proof {
            if rows == 0 {
                assert(seed_sites(solid, w, 1) == Seq::<(int, int)>::empty());
                assert(seed_sites(solid, w, 0) == Seq::<(int, int)>::empty());
            }
            assert(seed_sites(solid, w, gy as int) == seed_sites(solid, w, rows as int));
        }
    }
}

} // verus!
