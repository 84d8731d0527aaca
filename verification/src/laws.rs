use crate::cell::{Cell, Relaxed, ONE_BITS};
use crate::collide::{collided, collided_at};
use crate::grid::{
    cell_index, in_grid, is_interior, lemma_index_bounds, lemma_index_split, on_ring,
};
use crate::lattice::{ring_set, Lattice};
use crate::stream::{stream_cell, streamed};
use crate::tracers::moved;
use vstd::prelude::*;

verus! {

/// Every cell of `cells` is equal to `cell`.
pub open spec fn uniform(cells: Seq<Cell>, cell: Cell) -> bool {
    forall|i: int| 0 <= i < cells.len() ==> #[trigger] cells[i] == cell
}

/// A streaming step leaves a uniform field without solid cells as it is.
pub proof fn law_stream_keeps_uniform(pre: &Lattice, post: &Lattice, cell: Cell)
    requires
        pre.wf(),
        streamed(pre, post),
        uniform(pre.spec_cells(), cell),
        forall|i: int| !pre.is_barrier(i),
    ensures
        post.spec_cells() == pre.spec_cells(),
{
    let w = pre.spec_width();
    let h = pre.spec_height();
    assert forall|i: int| 0 <= i < pre.size() implies post.spec_cells()[i]
        == pre.spec_cells()[i] by {
        lemma_index_split(w, h, i);
        let x = i % w;
        let y = i / w;
        assert(post.spec_cells()[cell_index(w, x, y)] == stream_cell(
            pre.spec_cells(),
            pre.solid_set(),
            w,
            h,
            x,
            y,
        ));
        assert(!pre.is_barrier(cell_index(w, x - 1, y)));
        assert(!pre.is_barrier(cell_index(w, x + 1, y)));
        assert(!pre.is_barrier(cell_index(w, x, y - 1)));
        assert(!pre.is_barrier(cell_index(w, x, y + 1)));
        assert(!pre.is_barrier(cell_index(w, x - 1, y - 1)));
        assert(!pre.is_barrier(cell_index(w, x + 1, y - 1)));
        assert(!pre.is_barrier(cell_index(w, x + 1, y + 1)));
        assert(!pre.is_barrier(cell_index(w, x - 1, y + 1)));
        if !on_ring(w, h, x, y) {
            lemma_index_bounds(w, h, x - 1, y);
            lemma_index_bounds(w, h, x + 1, y);
            lemma_index_bounds(w, h, x, y - 1);
            lemma_index_bounds(w, h, x, y + 1);
            lemma_index_bounds(w, h, x - 1, y - 1);
            lemma_index_bounds(w, h, x + 1, y - 1);
            lemma_index_bounds(w, h, x + 1, y + 1);
            lemma_index_bounds(w, h, x - 1, y + 1);
        }
    }
    assert(post.spec_cells() =~= pre.spec_cells());
}

/// After a streaming step each of the eight neighbours of a solid cell holds,
/// in the slot that points away from the solid cell, the population that the
/// solid cell held for the opposite direction.
pub proof fn law_bounce_back(pre: &Lattice, post: &Lattice, bx: int, by: int)
    requires
        pre.wf(),
        streamed(pre, post),
        in_grid(pre.spec_width(), pre.spec_height(), bx, by),
        pre.is_barrier(cell_index(pre.spec_width(), bx, by)),
    ensures
        is_interior(pre.spec_width(), pre.spec_height(), bx, by),
        ({
            let w = pre.spec_width();
            let solid = pre.spec_cells()[cell_index(w, bx, by)];
            let after = post.spec_cells();
            &&& after[cell_index(w, bx + 1, by)].e == solid.w
            &&& after[cell_index(w, bx - 1, by)].w == solid.e
            &&& after[cell_index(w, bx, by + 1)].n == solid.s
            &&& after[cell_index(w, bx, by - 1)].s == solid.n
            &&& after[cell_index(w, bx + 1, by + 1)].ne == solid.sw
            &&& after[cell_index(w, bx - 1, by + 1)].nw == solid.se
            &&& after[cell_index(w, bx - 1, by - 1)].sw == solid.ne
            &&& after[cell_index(w, bx + 1, by - 1)].se == solid.nw
        }),
{
    let w = pre.spec_width();
    let h = pre.spec_height();
    lemma_index_bounds(w, h, bx, by);
    assert(is_interior(w, h, bx, by));
    assert(in_grid(w, h, bx + 1, by) && in_grid(w, h, bx - 1, by));
    assert(in_grid(w, h, bx, by + 1) && in_grid(w, h, bx, by - 1));
    assert(in_grid(w, h, bx + 1, by + 1) && in_grid(w, h, bx - 1, by + 1));
    assert(in_grid(w, h, bx - 1, by - 1) && in_grid(w, h, bx + 1, by - 1));
    let after = post.spec_cells();
    let src = pre.spec_cells();
    let solid = pre.solid_set();
    assert(after[cell_index(w, bx + 1, by)] == stream_cell(src, solid, w, h, bx + 1, by));
    assert(after[cell_index(w, bx - 1, by)] == stream_cell(src, solid, w, h, bx - 1, by));
    assert(after[cell_index(w, bx, by + 1)] == stream_cell(src, solid, w, h, bx, by + 1));
    assert(after[cell_index(w, bx, by - 1)] == stream_cell(src, solid, w, h, bx, by - 1));
    assert(after[cell_index(w, bx + 1, by + 1)] == stream_cell(src, solid, w, h, bx + 1, by + 1));
    assert(after[cell_index(w, bx - 1, by + 1)] == stream_cell(src, solid, w, h, bx - 1, by + 1));
    assert(after[cell_index(w, bx - 1, by - 1)] == stream_cell(src, solid, w, h, bx - 1, by - 1));
    assert(after[cell_index(w, bx + 1, by - 1)] == stream_cell(src, solid, w, h, bx + 1, by - 1));
}

/// Once the ring has been set to `fill`, every cell of the outer ring holds
/// exactly `fill`, whatever flat index names it.
pub proof fn law_ring_holds_fill(pre: &Lattice, post: &Lattice, fill: Cell, i: int)
    requires
        pre.wf(),
        ring_set(pre, post, fill),
        0 <= i < pre.size(),
        on_ring(pre.spec_width(), pre.spec_height(), i % pre.spec_width(), i / pre.spec_width()),
    ensures
        post.spec_cells()[i] == fill,
{
    lemma_index_split(pre.spec_width(), pre.spec_height(), i);
    assert(post.spec_cells()[cell_index(pre.spec_width(), i % pre.spec_width(), i / pre.spec_width())]
        == fill);
}

/// A collision step leaves a fluid interior cell unchanged if the
/// relaxation maps the cell to itself, as it does for a cell at its own
/// equilibrium, whatever the relaxation rate.
pub proof fn law_collide_keeps_fixed_point<
    R: Fn(Cell, u64) -> Relaxed,
    C: Fn(u64, u64, u64, u64) -> u64,
>(pre: &Lattice, post: &Lattice, relax: &R, curl_of: &C, x: int, y: int)
    requires
        pre.wf(),
        collided(pre, post, relax, curl_of),
        in_grid(pre.spec_width(), pre.spec_height(), x, y),
        forall|r: Relaxed|
            relax.ensures(
                (pre.spec_cells()[cell_index(pre.spec_width(), x, y)], pre.spec_config().spec_omega()),
                r,
            ) ==> r.cell == pre.spec_cells()[cell_index(pre.spec_width(), x, y)],
    ensures
        post.spec_cells()[cell_index(pre.spec_width(), x, y)] == pre.spec_cells()[cell_index(
            pre.spec_width(),
            x,
            y,
        )],
{
    let i = cell_index(pre.spec_width(), x, y);
    lemma_index_bounds(pre.spec_width(), pre.spec_height(), x, y);
    if is_interior(pre.spec_width(), pre.spec_height(), x, y) && !pre.is_barrier(i) {
        assert(collided_at(
            pre.snapshot(),
            post.snapshot(),
            relax,
            curl_of,
            pre.spec_config().spec_omega(),
            pre.spec_config().spec_draw_mode() == crate::config::DrawMode::Curl,
            pre.spec_width(),
            x,
            y,
        ));
        let r = Relaxed {
            rho: post.snapshot().density[i],
            ux: post.snapshot().ux[i],
            uy: post.snapshot().uy[i],
            cell: post.snapshot().cells[i],
        };
        assert(relax.ensures((pre.spec_cells()[i], pre.spec_config().spec_omega()), r));
        assert(r.cell == pre.spec_cells()[i]);
    } else {
        assert(post.snapshot().same_at(pre.snapshot(), i));
    }
}

/// A tracer that is past the outlet has its x reset to 1 by its next step.
/// Its y is not reset: it stays if the tracer is outside the grid.
pub proof fn law_reinjection<A: Fn(u64, u64) -> u64>(
    shift: &A,
    ux: Seq<u64>,
    uy: Seq<u64>,
    width: int,
    height: int,
    x0: u64,
    y0: u64,
    lx: u32,
    ly: u32,
    x1: u64,
    y1: u64,
)
    requires
        moved(shift, ux, uy, width, height, x0, y0, lx, ly, true, x1, y1),
    ensures
        x1 == ONE_BITS,
        !(lx < width && ly < height) ==> y1 == y0,
{
}

} // verus!
