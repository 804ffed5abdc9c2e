//! Integer grid cells and the multiplicative/XOR hash that maps a cell to a
//! bucket of the neighbour table.

use vstd::prelude::*;

verus! {

/// First hashing prime, applied to the x coordinate of a cell.
pub const HASH_PRIME_X: u32 = 73856093;

/// Second hashing prime, applied to the y coordinate of a cell.
pub const HASH_PRIME_Y: u32 = 19349663;

/// Third hashing prime, applied to the z coordinate of a cell.
pub const HASH_PRIME_Z: u32 = 83492791;

/// Integer coordinate of a grid cell: the component-wise floor of a position
/// divided by the cell size.
#[derive(Clone, Copy, Debug, PartialEq, Eq, Structural)]
pub struct Cell {
    pub x: i32,
    pub y: i32,
    pub z: i32,
}

/// One particle of the neighbour table: the bucket its cell hashes to and its
/// index in the particle array.
#[derive(Clone, Copy, Debug, PartialEq, Eq, Structural)]
pub struct Entry {
    pub hash: u32,
    pub index: u32,
}

/// The 32-bit mix of a cell's coordinates before reduction to a table size:
/// each coordinate, read as an unsigned word, is multiplied (wrapping) by its
/// prime and the three products are combined with XOR.
pub open spec fn spec_cell_mix(c: Cell) -> u32 {
    (c.x as u32).wrapping_mul(HASH_PRIME_X) ^ (c.y as u32).wrapping_mul(HASH_PRIME_Y) ^ (
    c.z as u32).wrapping_mul(HASH_PRIME_Z)
}

/// The bucket of cell `c` in a table of `table_size` buckets.
pub open spec fn spec_cell_hash(c: Cell, table_size: usize) -> usize
    recommends
        table_size > 0,
{
    ((spec_cell_mix(c) as int) % (table_size as int)) as usize
}

/// Computes the 32-bit coordinate mix of a cell.
pub fn cell_mix(c: Cell) -> (mix: u32)
    ensures
        mix == spec_cell_mix(c),
{
    let ux: u32 = c.x as u32;
    let uy: u32 = c.y as u32;
    let uz: u32 = c.z as u32;
    ux.wrapping_mul(HASH_PRIME_X) ^ uy.wrapping_mul(HASH_PRIME_Y) ^ uz.wrapping_mul(HASH_PRIME_Z)
}

/// Computes the bucket of a cell in a table of `table_size` buckets.
pub fn cell_hash(c: Cell, table_size: usize) -> (bucket: usize)
    requires
        table_size > 0,
    ensures
        bucket == spec_cell_hash(c, table_size),
        bucket < table_size,
        bucket <= u32::MAX,
{
    let mix: u32 = cell_mix(c);
    let wide: usize = mix as usize;
    assert(wide % table_size <= wide) by (nonlinear_arith)
        requires
            table_size > 0,
    ;
    wide % table_size
}

/// The number of cells in the 3x3x3 block around a cell.
pub const BLOCK_CELLS: usize = 27;

/// The `k`-th cell of the 3x3x3 block centred at `c`, for `k` in `0..27`: the
/// x offset runs fastest and the z offset slowest, each from -1 to 1.
/// Coordinates wrap around at the ends of the `i32` range, as the hash does.
pub open spec fn spec_block_cell(c: Cell, k: int) -> Cell {
    Cell {
        x: c.x.wrapping_add((k % 3 - 1) as i32),
        y: c.y.wrapping_add(((k / 3) % 3 - 1) as i32),
        z: c.z.wrapping_add((k / 9 - 1) as i32),
    }
}

/// Computes the `k`-th cell of the 3x3x3 block centred at `c`.
pub fn block_cell(c: Cell, k: usize) -> (cell: Cell)
    requires
        k < BLOCK_CELLS,
    ensures
        cell == spec_block_cell(c, k as int),
{
    let dx: i32 = (k % 3) as i32 - 1;
    let dy: i32 = ((k / 3) % 3) as i32 - 1;
    let dz: i32 = (k / 9) as i32 - 1;
    Cell { x: c.x.wrapping_add(dx), y: c.y.wrapping_add(dy), z: c.z.wrapping_add(dz) }
}

/// Two cells are adjacent: they differ by at most one along every axis.
pub open spec fn adjacent(c: Cell, d: Cell) -> bool {
    &&& -1 <= d.x - c.x <= 1
    &&& -1 <= d.y - c.y <= 1
    &&& -1 <= d.z - c.z <= 1
}

/// The position in the block around `c` of a cell `d` adjacent to it.
pub open spec fn spec_block_position(c: Cell, d: Cell) -> int {
    (d.x - c.x + 1) + 3 * (d.y - c.y + 1) + 9 * (d.z - c.z + 1)
}

/// The block around a cell holds every cell adjacent to it, the cell itself
/// among them.
pub proof fn lemma_adjacent_in_block(c: Cell, d: Cell)
    requires
        adjacent(c, d),
    ensures
        0 <= spec_block_position(c, d) < BLOCK_CELLS,
        spec_block_cell(c, spec_block_position(c, d)) == d,
{
    let k = spec_block_position(c, d);
    assert(k % 3 - 1 == d.x - c.x);
    assert((k / 3) % 3 - 1 == d.y - c.y);
    assert(k / 9 - 1 == d.z - c.z);
}

/// The block is symmetric: where `d` is the `k`-th cell of the block around
/// `c`, `c` is the cell opposite to it, the `(26 - k)`-th, of the block around
/// `d`.
pub proof fn lemma_block_is_symmetric(c: Cell, k: int)
    requires
        0 <= k < BLOCK_CELLS,
    ensures
        spec_block_cell(spec_block_cell(c, k), 26 - k) == c,
{
    let back = 26 - k;
    assert(back % 3 - 1 == -(k % 3 - 1));
    assert((back / 3) % 3 - 1 == -((k / 3) % 3 - 1));
    assert(back / 9 - 1 == -(k / 9 - 1));
}

/// The bucket of a cell is below the table size and fits in 32 bits.
pub proof fn lemma_cell_hash_bounds(c: Cell, table_size: usize)
    requires
        table_size > 0,
    ensures
        spec_cell_hash(c, table_size) < table_size,
        spec_cell_hash(c, table_size) <= u32::MAX,
{
    let wide = spec_cell_mix(c) as int;
    let size = table_size as int;
    assert(0 <= wide % size < size && wide % size <= wide) by (nonlinear_arith)
        requires
            size > 0,
            wide >= 0,
    ;
}

} // verus!
