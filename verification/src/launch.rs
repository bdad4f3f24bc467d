//! Launch geometry: how many blocks, how many threads, how much shared memory.

use crate::arith::{ceil_div, ceil_div_covers, div_ceil_u32};
use vstd::prelude::*;

verus! {

/// Threads per block for the flat kernels.
pub const BLOCK: u32 = 256;

/// Threads per block for the reduction kernels, which use shared memory sized
/// to the block.
pub const REDUCE_BLOCK: u32 = 256;

/// The grid, the block and the dynamic shared memory of one launch.
#[derive(Debug, Clone, Copy, PartialEq, Eq)]
pub struct LaunchConfig {
    /// Blocks along each axis.
    pub grid_dim: (u32, u32, u32),
    /// Threads along each axis of a block.
    pub block_dim: (u32, u32, u32),
    /// Bytes of dynamic shared memory a block.
    pub shared_mem_bytes: u32,
}

/// A flat launch over `n` elements: one thread each, at least one block.
pub open spec fn flat_cfg(n: int) -> LaunchConfig {
    LaunchConfig {
        grid_dim: (
            vstd::math::max(1, ceil_div((n as u32) as int, BLOCK as int)) as u32,
            1,
            1,
        ),
        block_dim: (BLOCK, 1, 1),
        shared_mem_bytes: 0,
    }
}

/// One block per row, with shared memory for the reduction.
pub open spec fn per_row_cfg(rows: int) -> LaunchConfig {
    LaunchConfig {
        grid_dim: (rows as u32, 1, 1),
        block_dim: (REDUCE_BLOCK, 1, 1),
        shared_mem_bytes: 1024,
    }
}

/// One thread an element, 1024 of them a block.
pub open spec fn elems_cfg(n: int) -> LaunchConfig {
    LaunchConfig {
        grid_dim: (ceil_div((n as u32) as int, 1024) as u32, 1, 1),
        block_dim: (1024, 1, 1),
        shared_mem_bytes: 0,
    }
}

/// `cudarc::driver::LaunchConfig::for_num_elems`: a one-dimensional grid of
/// 1024-thread blocks, `n / 1024` of them rounded up, with no shared memory.
#[verifier::external_body]
fn for_num_elems(n: u32) -> (cfg: LaunchConfig)
    ensures
        cfg == elems_cfg(n as int),
{
    let c = cudarc::driver::LaunchConfig::for_num_elems(n);
    LaunchConfig {
        grid_dim: c.grid_dim,
        block_dim: c.block_dim,
        shared_mem_bytes: c.shared_mem_bytes,
    }
}

impl LaunchConfig {
    /// One thread for each of `n` elements, in the driver crate's own block
    /// size.
    pub fn for_num_elems(n: usize) -> (cfg: LaunchConfig)
        ensures
            cfg == elems_cfg(n as int),
    {
        for_num_elems(n as u32)
    }

    /// A flat launch over `n` elements.
    pub fn flat(n: usize) -> (cfg: LaunchConfig)
        ensures
            cfg == flat_cfg(n as int),
    {
        let blocks: u32 = div_ceil_u32(n as u32, BLOCK);
        let x: u32 = if blocks > 1 { blocks } else { 1 };
        LaunchConfig { grid_dim: (x, 1, 1), block_dim: (BLOCK, 1, 1), shared_mem_bytes: 0 }
    }

    /// One block per row, with shared memory for the reduction.
    pub fn per_row(rows: usize) -> (cfg: LaunchConfig)
        ensures
            cfg == per_row_cfg(rows as int),
    {
        LaunchConfig {
            grid_dim: (rows as u32, 1, 1),
            block_dim: (REDUCE_BLOCK, 1, 1),
            shared_mem_bytes: REDUCE_BLOCK * 4,
        }
    }
}

/// A flat launch has a thread for every element and not a whole block to
/// spare.
pub proof fn flat_covers(n: int)
    requires
        0 <= n <= u32::MAX,
    ensures
        flat_cfg(n).grid_dim.0 * BLOCK >= n,
        n > 0 ==> (flat_cfg(n).grid_dim.0 - 1) * BLOCK < n,
        flat_cfg(n).grid_dim.0 >= 1,
{
    ceil_div_covers(n, BLOCK as int);
}

/// So does one by [`LaunchConfig::for_num_elems`], where there are elements.
pub proof fn elems_cover(n: int)
    requires
        0 <= n <= u32::MAX,
    ensures
        elems_cfg(n).grid_dim.0 * elems_cfg(n).block_dim.0 >= n,
        n > 0 ==> (elems_cfg(n).grid_dim.0 - 1) * elems_cfg(n).block_dim.0 < n,
{
    ceil_div_covers(n, 1024);
}

/// A launch per row has a block for each row, and a word of shared memory for
/// each thread of it.
pub proof fn rows_have_a_block_each(rows: int)
    requires
        0 <= rows <= u32::MAX,
    ensures
        per_row_cfg(rows).grid_dim.0 == rows,
        per_row_cfg(rows).shared_mem_bytes == 4 * per_row_cfg(rows).block_dim.0,
{
}

} // verus!
