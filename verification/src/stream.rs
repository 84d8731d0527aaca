use crate::cell::Cell;
use crate::grid::{
    cell_index, get, in_grid, interior_index, is_interior, lemma_index_bounds,
    lemma_index_injective, lemma_index_split, on_ring, put,
};
use crate::lattice::{listed, Lattice};
use std::collections::HashSet;
use vstd::prelude::*;

verus! {

/// The members of a set of flat indices, as mathematical integers.
pub open spec fn solid_of(members: Set<usize>) -> Set<int> {
    Set::new(|i: int| 0 <= i <= usize::MAX && members.contains(i as usize))
}

/// `(sx, sy)` is a cell of the grid and one of `solid`.
pub open spec fn source_solid(solid: Set<int>, width: int, height: int, sx: int, sy: int) -> bool {
    in_grid(width, height, sx, sy) && solid.contains(cell_index(width, sx, sy))
}

/// What cell `(x, y)` holds after one streaming step from `src`.
///
/// Each of the eight moving populations has a source: the neighbour that it
/// arrives from. The east population arrives from `(x - 1, y)`, the west one
/// from `(x + 1, y)`, the north one from `(x, y - 1)`, the south one from
/// `(x, y + 1)`, and each diagonal from the sum of its two axes. Where the
/// source is solid, the population is the source's population of the
/// opposite direction, bounced back. Otherwise a cell of the outer ring keeps
/// its own population, and an interior cell takes that of the source. The
/// rest population always stays.
pub open spec fn stream_cell(
    src: Seq<Cell>,
    solid: Set<int>,
    width: int,
    height: int,
    x: int,
    y: int,
) -> Cell {
    let here = src[cell_index(width, x, y)];
    let ring = on_ring(width, height, x, y);
    Cell {
        c: here.c,
        e: if source_solid(solid, width, height, x - 1, y) {
            src[cell_index(width, x - 1, y)].w
        } else if ring {
            here.e
        } else {
            src[cell_index(width, x - 1, y)].e
        },
        n: if source_solid(solid, width, height, x, y - 1) {
            src[cell_index(width, x, y - 1)].s
        } else if ring {
            here.n
        } else {
            src[cell_index(width, x, y - 1)].n
        },
        w: if source_solid(solid, width, height, x + 1, y) {
            src[cell_index(width, x + 1, y)].e
        } else if ring {
            here.w
        } else {
            src[cell_index(width, x + 1, y)].w
        },
        s: if source_solid(solid, width, height, x, y + 1) {
            src[cell_index(width, x, y + 1)].n
        } else if ring {
            here.s
        } else {
            src[cell_index(width, x, y + 1)].s
        },
        ne: if source_solid(solid, width, height, x - 1, y - 1) {
            src[cell_index(width, x - 1, y - 1)].sw
        } else if ring {
            here.ne
        } else {
            src[cell_index(width, x - 1, y - 1)].ne
        },
        nw: if source_solid(solid, width, height, x + 1, y - 1) {
            src[cell_index(width, x + 1, y - 1)].se
        } else if ring {
            here.nw
        } else {
            src[cell_index(width, x + 1, y - 1)].nw
        },
        sw: if source_solid(solid, width, height, x + 1, y + 1) {
            src[cell_index(width, x + 1, y + 1)].ne
        } else if ring {
            here.sw
        } else {
            src[cell_index(width, x + 1, y + 1)].sw
        },
        se: if source_solid(solid, width, height, x - 1, y + 1) {
            src[cell_index(width, x - 1, y + 1)].nw
        } else if ring {
            here.se
        } else {
            src[cell_index(width, x - 1, y + 1)].se
        },
    }
}

/// The bulk copy: every cell of `dst` receives what streaming without solid
/// cells gives it.
pub(crate) fn copy_streamed(src: &Vec<Cell>, dst: &mut Vec<Cell>, width: u32, height: u32)
    requires
        2 <= width,
        2 <= height,
        width * height <= u32::MAX,
        src@.len() == width * height,
        old(dst)@.len() == width * height,
    ensures
        final(dst)@.len() == width * height,
        forall|x: int, y: int|
            in_grid(width as int, height as int, x, y) ==> #[trigger] final(dst)@[cell_index(
                width as int,
                x,
                y,
            )] == stream_cell(src@, Set::<int>::empty(), width as int, height as int, x, y),
{
    let mut y: u32 = 0;
    while y < height
        invariant
            y <= height,
            2 <= width,
            2 <= height,
            width * height <= u32::MAX,
            src@.len() == width * height,
            dst@.len() == width * height,
            forall|x2: int, y2: int|
                in_grid(width as int, height as int, x2, y2) && y2 < y ==> #[trigger] dst@[cell_index(
                    width as int,
                    x2,
                    y2,
                )] == stream_cell(src@, Set::<int>::empty(), width as int, height as int, x2, y2),
        decreases height - y,
    {
        let mut x: u32 = 0;
        while x < width
            invariant
                x <= width,
                y < height,
                2 <= width,
                2 <= height,
                width * height <= u32::MAX,
                src@.len() == width * height,
                dst@.len() == width * height,
                forall|x2: int, y2: int|
                    in_grid(width as int, height as int, x2, y2) && (y2 < y || (y2 == y && x2
                        < x)) ==> #[trigger] dst@[cell_index(width as int, x2, y2)] == stream_cell(
                        src@,
                        Set::<int>::empty(),
                        width as int,
                        height as int,
                        x2,
                        y2,
                    ),
            decreases width - x,
        {
            let here: Cell = get(src, width, height, x, y);
            if x == 0 || y == 0 || x >= width - 1 || y >= height - 1 {
                put(dst, width, height, x, y, here);
            } else {
                let moved = Cell {
                    c: here.c,
                    e: get(src, width, height, x - 1, y).e,
                    n: get(src, width, height, x, y - 1).n,
                    w: get(src, width, height, x + 1, y).w,
                    s: get(src, width, height, x, y + 1).s,
                    ne: get(src, width, height, x - 1, y - 1).ne,
                    nw: get(src, width, height, x + 1, y - 1).nw,
                    sw: get(src, width, height, x + 1, y + 1).sw,
                    se: get(src, width, height, x - 1, y + 1).se,
                };
                put(dst, width, height, x, y, moved);
            }
            x = x + 1;
        }
        y = y + 1;
    }
}

/// A cell after the solid cell `solid`, which lies `(dx, dy)` away from it
/// towards the origin, has bounced its populations back: the one slot that
/// faces away from the solid cell holds the solid cell's opposite population.
pub open spec fn reflected(cell: Cell, solid: Cell, dx: int, dy: int) -> Cell {
    Cell {
        c: cell.c,
        e: if dx == 1 && dy == 0 {
            solid.w
        } else {
            cell.e
        },
        n: if dx == 0 && dy == 1 {
            solid.s
        } else {
            cell.n
        },
        w: if dx == -1 && dy == 0 {
            solid.e
        } else {
            cell.w
        },
        s: if dx == 0 && dy == -1 {
            solid.n
        } else {
            cell.s
        },
        ne: if dx == 1 && dy == 1 {
            solid.sw
        } else {
            cell.ne
        },
        nw: if dx == -1 && dy == 1 {
            solid.se
        } else {
            cell.nw
        },
        sw: if dx == -1 && dy == -1 {
            solid.ne
        } else {
            cell.sw
        },
        se: if dx == 1 && dy == -1 {
            solid.nw
        } else {
            cell.se
        },
    }
}

/// Writes the eight moving populations of the solid cell `(bx, by)` into its
/// eight neighbours.
pub(crate) fn reflect(
    dst: &mut Vec<Cell>,
    width: u32,
    height: u32,
    bx: u32,
    by: u32,
    solid: Cell,
)
    requires
        width * height <= u32::MAX,
        old(dst)@.len() == width * height,
        is_interior(width as int, height as int, bx as int, by as int),
    ensures
        final(dst)@.len() == width * height,
        forall|x: int, y: int|
            in_grid(width as int, height as int, x, y) ==> #[trigger] final(dst)@[cell_index(
                width as int,
                x,
                y,
            )] == reflected(old(dst)@[cell_index(width as int, x, y)], solid, x - bx, y - by),
{
    let mut t: Cell = get(dst, width, height, bx + 1, by);
    t.e = solid.w;
    put(dst, width, height, bx + 1, by, t);
    t = get(dst, width, height, bx, by + 1);
    t.n = solid.s;
    put(dst, width, height, bx, by + 1, t);
    t = get(dst, width, height, bx - 1, by);
    t.w = solid.e;
    put(dst, width, height, bx - 1, by, t);
    t = get(dst, width, height, bx, by - 1);
    t.s = solid.n;
    put(dst, width, height, bx, by - 1, t);
    t = get(dst, width, height, bx + 1, by + 1);
    t.ne = solid.sw;
    put(dst, width, height, bx + 1, by + 1, t);
    t = get(dst, width, height, bx - 1, by + 1);
    t.nw = solid.se;
    put(dst, width, height, bx - 1, by + 1, t);
    t = get(dst, width, height, bx - 1, by - 1);
    t.sw = solid.ne;
    put(dst, width, height, bx - 1, by - 1, t);
    t = get(dst, width, height, bx + 1, by - 1);
    t.se = solid.nw;
    put(dst, width, height, bx + 1, by - 1, t);
}

/// Reflecting at one more solid cell turns what streaming gives with the
/// solid cells `done` into what it gives with that cell added.
proof fn lemma_reflect_step(
    src: Seq<Cell>,
    before: Seq<Cell>,
    after: Seq<Cell>,
    done: Set<int>,
    w: int,
    h: int,
    bx: int,
    by: int,
)
    requires
        is_interior(w, h, bx, by),
        forall|x: int, y: int|
            in_grid(w, h, x, y) ==> #[trigger] before[cell_index(w, x, y)] == stream_cell(
                src,
                done,
                w,
                h,
                x,
                y,
            ),
        forall|x: int, y: int|
            in_grid(w, h, x, y) ==> #[trigger] after[cell_index(w, x, y)] == reflected(
                before[cell_index(w, x, y)],
                src[cell_index(w, bx, by)],
                x - bx,
                y - by,
            ),
    ensures
        forall|x: int, y: int|
            in_grid(w, h, x, y) ==> #[trigger] after[cell_index(w, x, y)] == stream_cell(
                src,
                done.insert(cell_index(w, bx, by)),
                w,
                h,
                x,
                y,
            ),
{
    let grown = done.insert(cell_index(w, bx, by));
    assert forall|x: int, y: int| in_grid(w, h, x, y) implies #[trigger] after[cell_index(
        w,
        x,
        y,
    )] == stream_cell(src, grown, w, h, x, y) by {
        assert(before[cell_index(w, x, y)] == stream_cell(src, done, w, h, x, y));
        lemma_same_source(w, x - 1, y, bx, by);
        lemma_same_source(w, x + 1, y, bx, by);
        lemma_same_source(w, x, y - 1, bx, by);
        lemma_same_source(w, x, y + 1, bx, by);
        lemma_same_source(w, x - 1, y - 1, bx, by);
        lemma_same_source(w, x + 1, y - 1, bx, by);
        lemma_same_source(w, x + 1, y + 1, bx, by);
        lemma_same_source(w, x - 1, y + 1, bx, by);
    }
}

/// The reflection pass: for every solid cell, each of its eight moving
/// populations is written into the opposite slot of the neighbour on that
/// side, over what the bulk copy put there.
pub(crate) fn bounce_back(
    src: &Vec<Cell>,
    dst: &mut Vec<Cell>,
    width: u32,
    height: u32,
    members: &HashSet<usize>,
    list: &Vec<usize>,
)
    requires
        2 <= width,
        2 <= height,
        width * height <= u32::MAX,
        src@.len() == width * height,
        old(dst)@.len() == width * height,
        forall|j: int|
            0 <= j < list@.len() ==> (#[trigger] list@[j]) < width * height && members@.contains(list@[j]),
        forall|v: usize| #[trigger]
            members@.contains(v) ==> listed(list@, list@.len() as int, v as int) && interior_index(
                width as int,
                height as int,
                v as int,
            ),
        forall|x: int, y: int|
            in_grid(width as int, height as int, x, y) ==> #[trigger] old(dst)@[cell_index(
                width as int,
                x,
                y,
            )] == stream_cell(src@, Set::<int>::empty(), width as int, height as int, x, y),
    ensures
        final(dst)@.len() == width * height,
        forall|x: int, y: int|
            in_grid(width as int, height as int, x, y) ==> #[trigger] final(dst)@[cell_index(
                width as int,
                x,
                y,
            )] == stream_cell(src@, solid_of(members@), width as int, height as int, x, y),
{
    let ghost mut done: Set<int> = Set::empty();
    let mut k: usize = 0;
    while k < list.len()
        invariant
            k <= list@.len(),
            2 <= width,
            2 <= height,
            width * height <= u32::MAX,
            src@.len() == width * height,
            dst@.len() == width * height,
                forall|j: int|
                0 <= j < list@.len() ==> (#[trigger] list@[j]) < width * height
                    && members@.contains(list@[j]),
            forall|v: usize| #[trigger]
                members@.contains(v) ==> listed(list@, list@.len() as int, v as int)
                    && interior_index(width as int, height as int, v as int),
            forall|j: int| 0 <= j < k ==> done.contains(#[trigger] list@[j] as int),
            forall|s: int| #[trigger]
                done.contains(s) ==> 0 <= s < width * height && members@.contains(s as usize),
            forall|x: int, y: int|
                in_grid(width as int, height as int, x, y) ==> #[trigger] dst@[cell_index(
                    width as int,
                    x,
                    y,
                )] == stream_cell(src@, done, width as int, height as int, x, y),
        decreases list@.len() - k,
    {
        let b: usize = list[k];
        let bx: u32 = (b as u32) % width;
        let by: u32 = (b as u32) / width;
        proof {
            lemma_index_split(width as int, height as int, b as int);
            assert(members@.contains(b));
            assert(is_interior(width as int, height as int, bx as int, by as int));
        }
        let solid: Cell = src[b];
        let ghost before = dst@;
        reflect(dst, width, height, bx, by, solid);
        proof {
            lemma_reflect_step(
                src@,
                before,
                dst@,
                done,
                width as int,
                height as int,
                bx as int,
                by as int,
            );
            done = done.insert(b as int);
        }
        k = k + 1;
    }
    proof {
        let w = width as int;
        let h = height as int;
        assert forall|x: int, y: int| in_grid(w, h, x, y) implies #[trigger] dst@[cell_index(
            w,
            x,
            y,
        )] == stream_cell(src@, solid_of(members@), w, h, x, y) by {
            assert(dst@[cell_index(w, x, y)] == stream_cell(src@, done, w, h, x, y));
            lemma_solid_agree(members@, list@, done, w, h, x - 1, y);
            lemma_solid_agree(members@, list@, done, w, h, x + 1, y);
            lemma_solid_agree(members@, list@, done, w, h, x, y - 1);
            lemma_solid_agree(members@, list@, done, w, h, x, y + 1);
            lemma_solid_agree(members@, list@, done, w, h, x - 1, y - 1);
            lemma_solid_agree(members@, list@, done, w, h, x + 1, y - 1);
            lemma_solid_agree(members@, list@, done, w, h, x + 1, y + 1);
            lemma_solid_agree(members@, list@, done, w, h, x - 1, y + 1);
        }
    }
}

/// A neighbour `(sx, sy)` of a cell of the grid has the flat index of the
/// interior cell `(bx, by)` only if it is that cell.
proof fn lemma_same_source(width: int, sx: int, sy: int, bx: int, by: int)
    requires
        -1 <= sx <= width,
        0 < bx < width - 1,
    ensures
        cell_index(width, sx, sy) == cell_index(width, bx, by) ==> sx == bx && sy == by,
{
    if cell_index(width, sx, sy) == cell_index(width, bx, by) {
        lemma_index_injective(width, sx, sy, bx, by);
    }
}

/// Once every listed cell is in `done`, a source is in `done` exactly if it
/// is a member.
proof fn lemma_solid_agree(
    members: Set<usize>,
    list: Seq<usize>,
    done: Set<int>,
    width: int,
    height: int,
    sx: int,
    sy: int,
)
    requires
        width * height <= u32::MAX,
        forall|v: usize| #[trigger] members.contains(v) ==> listed(list, list.len() as int, v as int),
        forall|j: int| 0 <= j < list.len() ==> done.contains(#[trigger] list[j] as int),
        forall|s: int| #[trigger]
            done.contains(s) ==> 0 <= s < width * height && members.contains(s as usize),
    ensures
        source_solid(done, width, height, sx, sy) == source_solid(
            solid_of(members),
            width,
            height,
            sx,
            sy,
        ),
{
    if in_grid(width, height, sx, sy) {
        lemma_index_bounds(width, height, sx, sy);
        let s = cell_index(width, sx, sy);
        if members.contains(s as usize) {
            assert(listed(list, list.len() as int, s));
        }
    }
}

/// `post` is `pre` after one streaming step: the buffers have changed roles,
/// each cell of the active one holds what `stream_cell` gives, and nothing
/// else differs.
pub open spec fn streamed(pre: &Lattice, post: &Lattice) -> bool {
    &&& post.spec_config() == pre.spec_config()
    &&& post.same_barriers(pre)
    &&& post.same_tracers(pre)
    &&& post.same_fields(pre)
    &&& post.first_active() != pre.first_active()
    &&& post.spec_cells().len() == pre.size()
    &&& forall|x: int, y: int|
        in_grid(pre.spec_width(), pre.spec_height(), x, y) ==> #[trigger] post.spec_cells()[cell_index(
            pre.spec_width(),
            x,
            y,
        )] == stream_cell(
            pre.spec_cells(),
            pre.solid_set(),
            pre.spec_width(),
            pre.spec_height(),
            x,
            y,
        )
}

impl Lattice {
    /// One streaming step. Every population moves one cell along its
    /// direction, from the active buffer into the other one; the outer ring
    /// stays as it is; then each solid cell sends what reached it back the way
    /// it came. The buffer that was written becomes the active one.
    pub fn stream(&mut self)
        requires
            old(self).wf(),
        ensures
            final(self).wf(),
            streamed(old(self), final(self)),
    {
        let width: u32 = self.config.width;
        let height: u32 = self.config.height;
        if self.use_one {
            copy_streamed(&self.cells_one, &mut self.cells_two, width, height);
            bounce_back(
                &self.cells_one,
                &mut self.cells_two,
                width,
                height,
                &self.barrier_set,
                &self.barrier,
            );
        } else {
            copy_streamed(&self.cells_two, &mut self.cells_one, width, height);
            bounce_back(
                &self.cells_two,
                &mut self.cells_one,
                width,
                height,
                &self.barrier_set,
                &self.barrier,
            );
        }
        self.use_one = !self.use_one;
    }
}

} // verus!
