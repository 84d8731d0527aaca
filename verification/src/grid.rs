use vstd::prelude::*;

verus! {

/// The flat, row-major index of column `x` in row `y`: `y * width + x`.
///
/// The definition is opaque, so that proofs about cells go by coordinates;
/// the lemmas below say how indices and coordinates relate.
#[verifier::opaque]
pub open spec fn cell_index(width: int, x: int, y: int) -> int {
    y * width + x
}

/// `(x, y)` names a cell of the grid.
pub open spec fn in_grid(width: int, height: int, x: int, y: int) -> bool {
    0 <= x < width && 0 <= y < height
}

/// `(x, y)` lies on the outer ring: the first or last row or column.
pub open spec fn on_ring(width: int, height: int, x: int, y: int) -> bool {
    in_grid(width, height, x, y) && (x == 0 || y == 0 || x == width - 1 || y == height - 1)
}

/// `(x, y)` is a cell with all eight neighbours in the grid.
pub open spec fn is_interior(width: int, height: int, x: int, y: int) -> bool {
    0 < x < width - 1 && 0 < y < height - 1
}

/// The flat index `i` names an interior cell.
pub open spec fn interior_index(width: int, height: int, i: int) -> bool {
    0 < width && 0 <= i < width * height && is_interior(width, height, i % width, i / width)
}

/// A flat index below `width * height` is the index of exactly one cell, the
/// one in column `i % width` of row `i / width`.
pub proof fn lemma_index_split(width: int, height: int, i: int)
    requires
        0 < width,
        0 <= i < width * height,
    ensures
        in_grid(width, height, i % width, i / width),
        cell_index(width, i % width, i / width) == i,
{
    reveal(cell_index);
    vstd::arithmetic::div_mod::lemma_fundamental_div_mod(i, width);
    vstd::arithmetic::div_mod::lemma_mod_bound(i, width);
    let q = i / width;
    assert(width * q == q * width) by (nonlinear_arith);
    assert(q >= 0) by (nonlinear_arith)
        requires
            i >= 0,
            width > 0,
            q == i / width,
    ;
    assert(q < height) by (nonlinear_arith)
        requires
            q * width + (i % width) == i,
            0 <= i % width,
            i < width * height,
            width > 0,
    ;
}

/// The index of a cell of the grid is below `width * height`, and its column
/// and row are found again by remainder and quotient.
pub proof fn lemma_index_bounds(width: int, height: int, x: int, y: int)
    requires
        in_grid(width, height, x, y),
    ensures
        0 <= cell_index(width, x, y) < width * height,
        cell_index(width, x, y) % width == x,
        cell_index(width, x, y) / width == y,
{
    reveal(cell_index);
    assert(0 <= y * width && y * width + width <= width * height) by (nonlinear_arith)
        requires
            0 <= y < height,
            0 < width,
    ;
    vstd::arithmetic::div_mod::lemma_fundamental_div_mod_converse(
        cell_index(width, x, y),
        width,
        y,
        x,
    );
}

/// Two coordinate pairs with the same flat index, whose columns are less
/// than a row apart, are the same pair. This holds of any two cells of the
/// grid, and of an interior cell and a neighbour of any cell.
pub proof fn lemma_index_injective(width: int, x1: int, y1: int, x2: int, y2: int)
    requires
        -width < x1 - x2 < width,
        cell_index(width, x1, y1) == cell_index(width, x2, y2),
    ensures
        x1 == x2,
        y1 == y2,
{
    reveal(cell_index);
    assert(y1 == y2) by (nonlinear_arith)
        requires
            -width < x1 - x2 < width,
            y1 * width + x1 == y2 * width + x2,
    ;
}

/// The flat index of a cell, computed without overflow.
pub fn index_of(width: u32, height: u32, x: u32, y: u32) -> (i: usize)
    requires
        x < width,
        y < height,
        width * height <= u32::MAX,
    ensures
        i == cell_index(width as int, x as int, y as int),
        i < width * height,
{
    proof {
        reveal(cell_index);
        lemma_index_bounds(width as int, height as int, x as int, y as int);
        assert(0 <= y * width <= width * height) by (nonlinear_arith)
            requires
                0 <= y < height,
                0 < width,
        ;
    }
    let i: u32 = y * width + x;
    i as usize
}

/// Stores `value` at cell `(x, y)` of a row-major array.
pub fn put<T>(v: &mut Vec<T>, width: u32, height: u32, x: u32, y: u32, value: T)
    requires
        x < width,
        y < height,
        width * height <= u32::MAX,
        old(v)@.len() == width * height,
    ensures
        final(v)@.len() == old(v)@.len(),
        final(v)@ == old(v)@.update(cell_index(width as int, x as int, y as int), value),
        forall|x2: int, y2: int|
            in_grid(width as int, height as int, x2, y2) ==> #[trigger] final(v)@[cell_index(
                width as int,
                x2,
                y2,
            )] == (if x2 == x && y2 == y {
                value
            } else {
                old(v)@[cell_index(width as int, x2, y2)]
            }),
{
    let i: usize = index_of(width, height, x, y);
    v.set(i, value);
    proof {
        assert forall|x2: int, y2: int| in_grid(width as int, height as int, x2, y2) implies (
        #[trigger] v@[cell_index(width as int, x2, y2)]) == (if x2 == x && y2 == y {
            value
        } else {
            old(v)@[cell_index(width as int, x2, y2)]
        }) by {
            lemma_index_bounds(width as int, height as int, x2, y2);
            if cell_index(width as int, x2, y2) == i {
                lemma_index_injective(width as int, x2, y2, x as int, y as int);
            }
        }
    }
}

/// Reads cell `(x, y)` of a row-major array.
pub fn get<T: Copy>(v: &Vec<T>, width: u32, height: u32, x: u32, y: u32) -> (value: T)
    requires
        x < width,
        y < height,
        width * height <= u32::MAX,
        v@.len() == width * height,
    ensures
        value == v@[cell_index(width as int, x as int, y as int)],
{
    let i: usize = index_of(width, height, x, y);
    v[i]
}

} // verus!
