//! How many ways a matmul splits its contraction.

use crate::arith::{ceil_div, ceil_div_covers, div_ceil, greater, lesser};
use crate::kernels::{GEMM_MT, GEMM_NT};
use vstd::math::{max, min};
use vstd::prelude::*;

verus! {

/// Blocks a `gemm` aims to put on the card before it stops splitting `k`.
///
/// The card has 72 SMs and the tile is register-heavy enough that one resident
/// block an SM is what it gets, so this is "fill the machine twice over".
pub const SM_TARGET: usize = 144;

/// The shortest contraction a split slice is allowed.
pub const KSLICE_MIN: usize = 512;

/// The most ways `k` is ever split.
pub const KSPLIT_MAX: usize = 8;

/// The shortest slice a *tail* split is allowed, against [`KSLICE_MIN`] for a
/// fill split.
pub const KSLICE_TAIL: usize = 2048;

/// Tile blocks of an `[m, n]` product, `batch` times over.
pub open spec fn tiles(m: int, n: int, batch: int) -> int {
    ceil_div(n, GEMM_NT as int) * ceil_div(m, GEMM_MT as int) * batch
}

/// Slots of the waves that `blocks` blocks run in.
pub open spec fn wave_slots(blocks: int) -> int {
    ceil_div(blocks, SM_TARGET as int) * SM_TARGET
}

/// Whether under three tenths of those slots stay idle.
pub open spec fn waves_are_full(blocks: int) -> bool {
    10 * (wave_slots(blocks) - blocks) < 3 * wave_slots(blocks)
}

/// How many ways `gemm` splits the contraction at this shape.
pub open spec fn ksplit(m: int, k: int, n: int, batch: int) -> int {
    let blocks = max(1, tiles(m, n, batch));
    if blocks <= SM_TARGET {
        // Fill the machine, and keep each slice at least `KSLICE_MIN`.
        max(1, min(KSPLIT_MAX as int, min(SM_TARGET as int / blocks, k / KSLICE_MIN as int)))
    } else if waves_are_full(blocks) {
        1
    } else if k / 4 >= KSLICE_TAIL {
        4
    } else if k / 3 >= KSLICE_TAIL {
        3
    } else if k / 2 >= KSLICE_TAIL {
        2
    } else {
        1
    }
}

/// The block count and the waves it makes are numbers of this machine.
pub open spec fn tiles_fit(m: int, n: int, batch: int) -> bool {
    &&& ceil_div(n, GEMM_NT as int) * ceil_div(m, GEMM_MT as int) <= usize::MAX
    &&& tiles(m, n, batch) + SM_TARGET <= usize::MAX
}

/// How many ways `gemm` splits the contraction at this shape. One is no split.
///
/// A function rather than an expression at the call site so the geometry can be
/// asserted without a device: what it returns decides whether a launch writes
/// `out` or a scratch buffer, and getting it wrong is silent.
///
/// Two regimes, split on whether the launch fills one wave of `SM_TARGET`
/// resident blocks:
///
/// * **Under a wave**, splitting turns idle SMs into concurrent slices: fill
///   the machine, keep a slice at least `KSLICE_MIN`.
/// * **Over a wave**, more blocks do not buy concurrency - they buy a shorter
///   *tail*. That is worth having exactly when the idle fraction of the waves
///   is large, and worth avoiding when they are already full. The slice floor
///   is higher here too.
pub fn ksplit_for(m: usize, k: usize, n: usize, batch: usize) -> (s: usize)
    requires
        tiles_fit(m as int, n as int, batch as int),
    ensures
        s == ksplit(m as int, k as int, n as int, batch as int),
{
    let nt: usize = div_ceil(n, GEMM_NT as usize);
    let mt: usize = div_ceil(m, GEMM_MT as usize);
    proof {
        assert(nt * mt >= 0) by (nonlinear_arith)
            requires
                nt >= 0,
                mt >= 0,
        ;
        assert(tiles(m as int, n as int, batch as int) >= 0) by (nonlinear_arith)
            requires
                tiles(m as int, n as int, batch as int) == (nt * mt) * batch,
                nt * mt >= 0,
                batch >= 0,
        ;
    }
    let blocks: usize = greater(1, nt * mt * batch);
    if blocks <= SM_TARGET {
        let fill: usize = lesser(SM_TARGET / blocks, k / KSLICE_MIN);
        return greater(1, lesser(KSPLIT_MAX, fill));
    }
    let waves: usize = div_ceil(blocks, SM_TARGET);
    proof {
        ceil_div_covers(blocks as int, SM_TARGET as int);
    }
    let slots: usize = waves * SM_TARGET;
    if 10 * ((slots - blocks) as u128) < 3 * (slots as u128) {
        return 1;
    }
    if k / 4 >= KSLICE_TAIL {
        4
    } else if k / 3 >= KSLICE_TAIL {
        3
    } else if k / 2 >= KSLICE_TAIL {
        2
    } else {
        1
    }
}

/// A contraction is split one to [`KSPLIT_MAX`] ways.
pub proof fn ksplit_is_bounded(m: int, k: int, n: int, batch: int)
    requires
        0 <= k,
    ensures
        1 <= ksplit(m, k, n, batch) <= KSPLIT_MAX,
{
}

/// A slice of a split contraction is never shorter than [`KSLICE_MIN`], and
/// past one wave of blocks never shorter than [`KSLICE_TAIL`].
pub proof fn slices_stay_long(m: int, k: int, n: int, batch: int)
    requires
        0 <= k,
        ksplit(m, k, n, batch) > 1,
    ensures
        k / ksplit(m, k, n, batch) >= KSLICE_MIN,
        tiles(m, n, batch) > SM_TARGET ==> k / ksplit(m, k, n, batch) >= KSLICE_TAIL,
{
    let s = ksplit(m, k, n, batch);
    let blocks = max(1, tiles(m, n, batch));
    if blocks <= SM_TARGET {
        assert(s <= k / 512);
        assert(s * 512 <= k);
        assert(k / s >= 512) by (nonlinear_arith)
            requires
                s * 512 <= k,
                s > 0,
        ;
    }
}

/// Splitting to fill the machine never asks for more than one wave.
pub proof fn a_fill_split_fits_one_wave(m: int, k: int, n: int, batch: int)
    requires
        0 <= k,
        1 <= tiles(m, n, batch) <= SM_TARGET,
    ensures
        tiles(m, n, batch) * ksplit(m, k, n, batch) <= SM_TARGET,
{
    let blocks = tiles(m, n, batch);
    let s = ksplit(m, k, n, batch);
    assert(SM_TARGET as int / blocks >= 1) by (nonlinear_arith)
        requires
            1 <= blocks <= SM_TARGET,
    ;
    assert(s <= SM_TARGET as int / blocks);
    assert(blocks * s <= SM_TARGET) by (nonlinear_arith)
        requires
            s <= SM_TARGET as int / blocks,
            blocks >= 1,
            s >= 0,
    ;
}

/// Waves that are already full are left alone.
pub proof fn full_waves_are_not_split(m: int, k: int, n: int, batch: int)
    requires
        tiles(m, n, batch) > SM_TARGET,
        waves_are_full(tiles(m, n, batch)),
    ensures
        ksplit(m, k, n, batch) == 1,
{
}

/// The split never falls as the contraction grows.
pub proof fn longer_contractions_split_no_less(m: int, k: int, longer: int, n: int, batch: int)
    requires
        0 <= k <= longer,
    ensures
        ksplit(m, k, n, batch) <= ksplit(m, longer, n, batch),
{
}

/// The split depends on the rows and the columns by their tiles alone, and on
/// either the same way: they can be swapped, and rounded up to whole tiles.
pub proof fn the_split_is_told_by_the_tiles(m: int, k: int, n: int, batch: int)
    requires
        0 <= m,
        0 <= n,
    ensures
        ksplit(m, k, n, batch) == ksplit(n, k, m, batch),
        ksplit(m, k, n, batch) == ksplit(
            GEMM_MT * ceil_div(m, GEMM_MT as int),
            k,
            GEMM_NT * ceil_div(n, GEMM_NT as int),
            batch,
        ),
{
    let (x, y) = (ceil_div(m, 128), ceil_div(n, 128));
    assert(y * x == x * y) by (nonlinear_arith);
    assert(tiles(m, n, batch) == tiles(n, m, batch));
    lemma_whole_tiles(m);
    lemma_whole_tiles(n);
}

proof fn lemma_whole_tiles(m: int)
    requires
        0 <= m,
    ensures
        ceil_div(128 * ceil_div(m, 128), 128) == ceil_div(m, 128),
{
}

/// A product of nothing is split as one of a single element.
pub proof fn an_empty_product_splits_as_one_tile(m: int, k: int, n: int, batch: int)
    requires
        m == 0 || n == 0 || batch == 0,
    ensures
        ksplit(m, k, n, batch) == ksplit(1, k, 1, 1),
{
    let (x, y) = (ceil_div(m, 128), ceil_div(n, 128));
    assert(y * x * batch == 0) by (nonlinear_arith)
        requires
            x == 0 || y == 0 || batch == 0,
    ;
    assert(tiles(1, 1, 1) == 1);
}

} // verus!
