use crate::cell::{Cell, Relaxed};
use crate::config::DrawMode;
use crate::grid::{cell_index, get, in_grid, index_of, is_interior, lemma_index_bounds, put};
use crate::lattice::Lattice;
use crate::stream::solid_of;
use std::collections::HashSet;
use vstd::prelude::*;

verus! {

/// The active buffer and the four derived fields at one moment.
pub struct Snapshot {
    pub cells: Seq<Cell>,
    pub density: Seq<u64>,
    pub ux: Seq<u64>,
    pub uy: Seq<u64>,
    pub curl: Seq<u64>,
}

impl Snapshot {
    /// The two snapshots hold the same at flat index `i`.
    pub open spec fn same_at(self, other: Snapshot, i: int) -> bool {
        &&& self.cells[i] == other.cells[i]
        &&& self.density[i] == other.density[i]
        &&& self.ux[i] == other.ux[i]
        &&& self.uy[i] == other.uy[i]
        &&& self.curl[i] == other.curl[i]
    }
}

/// What one collision step does at cell `(x, y)`, which is fluid and
/// interior.
///
/// `relax` is applied to the cell and the relaxation rate; the density and
/// velocity it reports go to the fields and the cell it returns replaces the
/// cell. With `with_curl`, `curl_of` is applied to the y-velocity east and
/// west of the cell and the x-velocity south and north of it, and its result
/// goes to the curl field. The step runs row by row from the origin, so the
/// west and north neighbours are read after their own update and the east
/// and south ones before it.
pub open spec fn collided_at<R: Fn(Cell, u64) -> Relaxed, C: Fn(u64, u64, u64, u64) -> u64>(
    before: Snapshot,
    after: Snapshot,
    relax: &R,
    curl_of: &C,
    omega: u64,
    with_curl: bool,
    width: int,
    x: int,
    y: int,
) -> bool {
    let i = cell_index(width, x, y);
    &&& relax.ensures(
        (before.cells[i], omega),
        Relaxed { rho: after.density[i], ux: after.ux[i], uy: after.uy[i], cell: after.cells[i] },
    )
    &&& if with_curl {
        curl_of.ensures(
            (
                before.uy[cell_index(width, x + 1, y)],
                after.uy[cell_index(width, x - 1, y)],
                before.ux[cell_index(width, x, y + 1)],
                after.ux[cell_index(width, x, y - 1)],
            ),
            after.curl[i],
        )
    } else {
        after.curl[i] == before.curl[i]
    }
}

/// The collision step on the arrays of an engine.
pub(crate) fn relax_cells<R: Fn(Cell, u64) -> Relaxed, C: Fn(u64, u64, u64, u64) -> u64>(
    cells: &mut Vec<Cell>,
    density: &mut Vec<u64>,
    ux: &mut Vec<u64>,
    uy: &mut Vec<u64>,
    curl: &mut Vec<u64>,
    members: &HashSet<usize>,
    width: u32,
    height: u32,
    omega: u64,
    with_curl: bool,
    relax: &R,
    curl_of: &C,
)
    requires
        2 <= width,
        2 <= height,
        width * height <= u32::MAX,
        old(cells)@.len() == width * height,
        old(density)@.len() == width * height,
        old(ux)@.len() == width * height,
        old(uy)@.len() == width * height,
        old(curl)@.len() == width * height,
        forall|c: Cell, o: u64| relax.requires((c, o)),
        forall|e: u64, w: u64, s: u64, n: u64| curl_of.requires((e, w, s, n)),
    ensures
        final(cells)@.len() == width * height,
        final(density)@.len() == width * height,
        final(ux)@.len() == width * height,
        final(uy)@.len() == width * height,
        final(curl)@.len() == width * height,
        forall|x: int, y: int|
            in_grid(width as int, height as int, x, y) ==> (if is_interior(
                width as int,
                height as int,
                x,
                y,
            ) && !solid_of(members@).contains(#[trigger] cell_index(width as int, x, y)) {
                collided_at(
                    Snapshot {
                        cells: old(cells)@,
                        density: old(density)@,
                        ux: old(ux)@,
                        uy: old(uy)@,
                        curl: old(curl)@,
                    },
                    Snapshot {
                        cells: final(cells)@,
                        density: final(density)@,
                        ux: final(ux)@,
                        uy: final(uy)@,
                        curl: final(curl)@,
                    },
                    relax,
                    curl_of,
                    omega,
                    with_curl,
                    width as int,
                    x,
                    y,
                )
            } else {
                (Snapshot {
                    cells: final(cells)@,
                    density: final(density)@,
                    ux: final(ux)@,
                    uy: final(uy)@,
                    curl: final(curl)@,
                }).same_at(
                    Snapshot {
                        cells: old(cells)@,
                        density: old(density)@,
                        ux: old(ux)@,
                        uy: old(uy)@,
                        curl: old(curl)@,
                    },
                    cell_index(width as int, x, y),
                )
            }),
{
    let ghost before = Snapshot {
        cells: cells@,
        density: density@,
        ux: ux@,
        uy: uy@,
        curl: curl@,
    };
    let mut y: u32 = 1;
    while y < height - 1
        invariant
            1 <= y <= height - 1,
            2 <= width,
            2 <= height,
            width * height <= u32::MAX,
            cells@.len() == width * height,
            density@.len() == width * height,
            ux@.len() == width * height,
            uy@.len() == width * height,
            curl@.len() == width * height,
            forall|c: Cell, o: u64| relax.requires((c, o)),
            forall|e: u64, w: u64, s: u64, n: u64| curl_of.requires((e, w, s, n)),
            forall|x2: int, y2: int|
                in_grid(width as int, height as int, x2, y2) ==> (if is_interior(
                    width as int,
                    height as int,
                    x2,
                    y2,
                ) && y2 < y && !solid_of(members@).contains(#[trigger] cell_index(width as int, x2, y2)) {
                    collided_at(
                        before,
                        Snapshot { cells: cells@, density: density@, ux: ux@, uy: uy@, curl: curl@ },
                        relax,
                        curl_of,
                        omega,
                        with_curl,
                        width as int,
                        x2,
                        y2,
                    )
                } else {
                    (Snapshot {
                        cells: cells@,
                        density: density@,
                        ux: ux@,
                        uy: uy@,
                        curl: curl@,
                    }).same_at(before, cell_index(width as int, x2, y2))
                }),
        decreases height - y,
    {
        let mut x: u32 = 1;
        while x < width - 1
            invariant
                1 <= x <= width - 1,
                1 <= y < height - 1,
                2 <= width,
                2 <= height,
                width * height <= u32::MAX,
                cells@.len() == width * height,
                density@.len() == width * height,
                ux@.len() == width * height,
                uy@.len() == width * height,
                curl@.len() == width * height,
                forall|c: Cell, o: u64| relax.requires((c, o)),
                forall|e: u64, w: u64, s: u64, n: u64| curl_of.requires((e, w, s, n)),
                forall|x2: int, y2: int|
                    in_grid(width as int, height as int, x2, y2) ==> (if is_interior(
                        width as int,
                        height as int,
                        x2,
                        y2,
                    ) && (y2 < y || (y2 == y && x2 < x)) && !solid_of(members@).contains(
                        #[trigger] cell_index(width as int, x2, y2),
                    ) {
                        collided_at(
                            before,
                            Snapshot {
                                cells: cells@,
                                density: density@,
                                ux: ux@,
                                uy: uy@,
                                curl: curl@,
                            },
                            relax,
                            curl_of,
                            omega,
                            with_curl,
                            width as int,
                            x2,
                            y2,
                        )
                    } else {
                        (Snapshot {
                            cells: cells@,
                            density: density@,
                            ux: ux@,
                            uy: uy@,
                            curl: curl@,
                        }).same_at(before, cell_index(width as int, x2, y2))
                    }),
            decreases width - x,
        {
            proof {
                lemma_index_bounds(width as int, height as int, x as int, y as int);
            }
            let site: usize = index_of(width, height, x, y);
            let solid: bool = members.contains(&site);
            if !solid {
                let ghost prev = Snapshot {
                    cells: cells@,
                    density: density@,
                    ux: ux@,
                    uy: uy@,
                    curl: curl@,
                };
                let here: Cell = get(cells, width, height, x, y);
                let r: Relaxed = relax(here, omega);
                put(density, width, height, x, y, r.rho);
                put(ux, width, height, x, y, r.ux);
                put(uy, width, height, x, y, r.uy);
                if with_curl {
                    let c: u64 = curl_of(
                        get(uy, width, height, x + 1, y),
                        get(uy, width, height, x - 1, y),
                        get(ux, width, height, x, y + 1),
                        get(ux, width, height, x, y - 1),
                    );
                    put(curl, width, height, x, y, c);
                }
                put(cells, width, height, x, y, r.cell);
                proof {
                    let now = Snapshot {
                        cells: cells@,
                        density: density@,
                        ux: ux@,
                        uy: uy@,
                        curl: curl@,
                    };
                    let w = width as int;
                    let h = height as int;
                    assert(prev.same_at(before, cell_index(w, x as int, y as int)));
                    assert(prev.same_at(before, cell_index(w, x + 1, y as int)));
                    assert(prev.same_at(before, cell_index(w, x as int, y + 1)));
                    assert forall|x2: int, y2: int| in_grid(w, h, x2, y2) implies (if is_interior(
                        w,
                        h,
                        x2,
                        y2,
                    ) && (y2 < y || (y2 == y && x2 < x + 1)) && !solid_of(members@).contains(#[trigger] cell_index(w, x2, y2)) {
                        collided_at(before, now, relax, curl_of, omega, with_curl, w, x2, y2)
                    } else {
                        now.same_at(before, cell_index(w, x2, y2))
                    }) by {
                        if x2 == x && y2 == y {
                        } else if is_interior(w, h, x2, y2) && (y2 < y || (y2 == y && x2 < x))
                            && !solid_of(members@).contains(cell_index(w, x2, y2)) {
                            assert(collided_at(
                                before,
                                prev,
                                relax,
                                curl_of,
                                omega,
                                with_curl,
                                w,
                                x2,
                                y2,
                            ));
                            assert(in_grid(w, h, x2 - 1, y2));
                            assert(in_grid(w, h, x2, y2 - 1));
                            assert(now.uy[cell_index(w, x2 - 1, y2)] == prev.uy[cell_index(
                                w,
                                x2 - 1,
                                y2,
                            )]);
                            assert(now.ux[cell_index(w, x2, y2 - 1)] == prev.ux[cell_index(
                                w,
                                x2,
                                y2 - 1,
                            )]);
                        } else {
                            assert(prev.same_at(before, cell_index(w, x2, y2)));
                        }
                    }
                }
            }
            x = x + 1;
        }
        y = y + 1;
    }
}

/// `post` is `pre` after one collision step: `collided_at` holds at every
/// interior cell that is not solid, with the relaxation rate of the
/// configuration and with the curl refreshed exactly if the draw mode is
/// `Curl`; every other cell keeps its populations and its entries of the
/// fields; nothing else differs.
pub open spec fn collided<R: Fn(Cell, u64) -> Relaxed, C: Fn(u64, u64, u64, u64) -> u64>(
    pre: &Lattice,
    post: &Lattice,
    relax: &R,
    curl_of: &C,
) -> bool {
    &&& post.spec_config() == pre.spec_config()
    &&& post.same_barriers(pre)
    &&& post.same_tracers(pre)
    &&& post.first_active() == pre.first_active()
    &&& post.snapshot().cells.len() == pre.size()
    &&& post.snapshot().density.len() == pre.size()
    &&& post.snapshot().ux.len() == pre.size()
    &&& post.snapshot().uy.len() == pre.size()
    &&& post.snapshot().curl.len() == pre.size()
    &&& forall|x: int, y: int|
        in_grid(pre.spec_width(), pre.spec_height(), x, y) ==> (if is_interior(
            pre.spec_width(),
            pre.spec_height(),
            x,
            y,
        ) && !pre.is_barrier(#[trigger] cell_index(pre.spec_width(), x, y)) {
            collided_at(
                pre.snapshot(),
                post.snapshot(),
                relax,
                curl_of,
                pre.spec_config().spec_omega(),
                pre.spec_config().spec_draw_mode() == DrawMode::Curl,
                pre.spec_width(),
                x,
                y,
            )
        } else {
            post.snapshot().same_at(pre.snapshot(), cell_index(pre.spec_width(), x, y))
        })
}

impl Lattice {
    /// The active buffer and the derived fields.
    pub open(crate) spec fn snapshot(&self) -> Snapshot {
        Snapshot {
            cells: self.spec_cells(),
            density: self.density@,
            ux: self.ux@,
            uy: self.uy@,
            curl: self.curl@,
        }
    }

    /// One collision step: every interior cell that is not solid is relaxed
    /// as `collided_at` says, with the relaxation rate of the configuration,
    /// and its curl is refreshed if the draw mode is `Curl`. Cells of the
    /// outer ring and solid cells keep their populations and their entries
    /// of the fields.
    pub fn collide<R: Fn(Cell, u64) -> Relaxed, C: Fn(u64, u64, u64, u64) -> u64>(
        &mut self,
        relax: &R,
        curl_of: &C,
    )
        requires
            old(self).wf(),
            forall|c: Cell, o: u64| relax.requires((c, o)),
            forall|e: u64, w: u64, s: u64, n: u64| curl_of.requires((e, w, s, n)),
        ensures
            final(self).wf(),
            collided(old(self), final(self), relax, curl_of),
    {
        let width: u32 = self.config.width;
        let height: u32 = self.config.height;
        let omega: u64 = self.config.omega;
        let with_curl: bool = self.config.draw_mode == DrawMode::Curl;
        if self.use_one {
            relax_cells(
                &mut self.cells_one,
                &mut self.density,
                &mut self.ux,
                &mut self.uy,
                &mut self.curl,
                &self.barrier_set,
                width,
                height,
                omega,
                with_curl,
                relax,
                curl_of,
            );
        } else {
            relax_cells(
                &mut self.cells_two,
                &mut self.density,
                &mut self.ux,
                &mut self.uy,
                &mut self.curl,
                &self.barrier_set,
                width,
                height,
                omega,
                with_curl,
                relax,
                curl_of,
            );
        }
        proof {
            assert forall|x: int, y: int|
                in_grid(
                    old(self).spec_width(),
                    old(self).spec_height(),
                    x,
                    y,
                ) implies 0 <= #[trigger] cell_index(old(self).spec_width(), x, y) < old(
                self,
            ).size() by {
                lemma_index_bounds(old(self).spec_width(), old(self).spec_height(), x, y);
            }
        }
    }
}

} // verus!
