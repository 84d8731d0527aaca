use vstd::prelude::*;

verus! {

/// The bit pattern of the double `0.0`.
pub const ZERO_BITS: u64 = 0;

/// The bit pattern of the double `1.0`.
pub const ONE_BITS: u64 = 0x3FF0_0000_0000_0000;

/// The nine directional populations at one grid site: the rest population,
/// the four axis directions and the four diagonals. Each is the bit pattern
/// of a double. The streaming step fixes which neighbour a direction arrives
/// from.
#[derive(Clone, Copy, Debug, PartialEq, Eq, Structural)]
pub struct Cell {
    pub c: u64,
    pub e: u64,
    pub n: u64,
    pub w: u64,
    pub s: u64,
    pub ne: u64,
    pub nw: u64,
    pub sw: u64,
    pub se: u64,
}

/// What one relaxation of a site yields: its density and velocity before the
/// relaxation, and its populations after it.
#[derive(Clone, Copy, Debug, PartialEq, Eq, Structural)]
pub struct Relaxed {
    pub rho: u64,
    pub ux: u64,
    pub uy: u64,
    pub cell: Cell,
}

impl Cell {
    /// A cell from its nine populations, in the order rest, east, north,
    /// west, south, north-east, north-west, south-west, south-east.
    pub fn new(c: u64, e: u64, n: u64, w: u64, s: u64, ne: u64, nw: u64, sw: u64, se: u64) -> (cell:
        Self)
        ensures
            cell == (Cell { c, e, n, w, s, ne, nw, sw, se }),
    {
        Cell { c, e, n, w, s, ne, nw, sw, se }
    }

    /// The cell whose nine populations are all `v`.
    pub open spec fn splat(v: u64) -> Cell {
        Cell { c: v, e: v, n: v, w: v, s: v, ne: v, nw: v, sw: v, se: v }
    }
}

impl Default for Cell {
    /// The empty cell: every population is `0.0`.
    fn default() -> (cell: Self)
        ensures
            cell == Cell::splat(ZERO_BITS),
    {
        Cell {
            c: ZERO_BITS,
            e: ZERO_BITS,
            n: ZERO_BITS,
            w: ZERO_BITS,
            s: ZERO_BITS,
            ne: ZERO_BITS,
            nw: ZERO_BITS,
            sw: ZERO_BITS,
            se: ZERO_BITS,
        }
    }
}

} // verus!
