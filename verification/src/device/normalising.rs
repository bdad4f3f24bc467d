//! Normalisations: a block a row.

use super::pointwise::takes_twin;
use super::{arg_at, arg_float, arg_int, at, int_fits, ints_fit, maybe_at, Place};
use crate::arith::{is_pow2, next_pow2, next_pow2_is_least};
use crate::buffer::{CudaSlice, FloatBits, Fp32};
use crate::conv::fuse_weight_norm_cmd;
use crate::names::Kernel;
use crate::norm::{
    fresh_twin, layer_norm_add_cmd, layer_norm_add_f16_cmd, layer_norm_cmd, layer_norm_mod_cmd,
    mod_refusal, rms_cmds, rms_threads, softmax_causal_cmd, softmax_rows_cmd,
};
use crate::operand::Q8;
use crate::queue::{made, Cmd};
use vstd::math::min;
use vstd::prelude::*;

verus! {

/// What a row is normalised by.
pub enum Norm {
    /// Its mean and its variance.
    Layer,
    /// The same, rounded to half precision.
    LayerRounded,
    /// Its mean and its variance, and the multiplier counts from one.
    Modulated,
    /// The sum of its exponentials.
    Softmax,
    /// Its root mean square.
    Rms,
    /// Its length.
    Length,
}

/// One element of a row that is normalised.
pub struct Normed {
    pub norm: Norm,
    /// The first element of the row.
    pub row: Option<Place>,
    /// Elements of the row that count.
    pub len: int,
    /// The first element of the row that is added to it beforehand, where there is one.
    pub added: Option<Place>,
    /// The float that was handed over, where there is one.
    pub float: Option<FloatBits>,
    /// What the element is multiplied by.
    pub weight: Option<Place>,
    /// What is added to it afterwards.
    pub shift: Option<Place>,
    /// Where it goes.
    pub to: Option<Place>,
}

/// Whether a launch has a block for row `r` that its kernel can reduce over: in whole warps,
/// and, where it halves, with a power of two of them and a word of shared memory a thread.
pub open spec fn has_block(c: Cmd, r: int) -> bool {
    let (grid, block) = (c->cfg.grid_dim, c->cfg.block_dim);
    let halves = c->kernel == Kernel::SoftmaxRows || c->kernel == Kernel::FuseWeightNorm;
    &&& c is Launch
    &&& r < grid.0 && grid.1 == 1 && grid.2 == 1
    &&& 32 <= block.0 <= 1024 && block.0 % 32 == 0 && block.1 == 1 && block.2 == 1
    &&& halves ==> is_pow2(block.0 as int) && c->cfg.shared_mem_bytes >= 4 * block.0
}

/// What a normalising kernel does with element `k` of row `r`.
pub open spec fn normed(c: Cmd, r: int, k: int) -> Option<Normed> {
    let cols = match c->kernel {
        Kernel::SoftmaxRows => arg_int(c, 1),
        Kernel::SoftmaxCausal => arg_int(c, 1),
        Kernel::LayerNorm => arg_int(c, 4),
        Kernel::LayerNormAdd => arg_int(c, 5),
        Kernel::LayerNormAddF16 => arg_int(c, 5),
        Kernel::LayerNormMod => arg_int(c, 5),
        Kernel::RmsNorm => arg_int(c, 6),
        Kernel::FuseWeightNorm => arg_int(c, 3),
        _ => 0,
    };
    let none = None::<Place>;
    if !has_block(c, r) || k >= cols {
        None
    } else {
        match c->kernel {
            Kernel::SoftmaxRows => Some(
                Normed {
                    norm: Norm::Softmax,
                    row: arg_at(c, 0, r * cols),
                    len: cols,
                    added: none,
                    float: None,
                    weight: none,
                    shift: none,
                    to: arg_at(c, 0, r * cols + k),
                },
            ),
            Kernel::SoftmaxCausal => Some(
                Normed {
                    norm: Norm::Softmax,
                    row: arg_at(c, 0, r * cols),
                    len: min(cols, r % arg_int(c, 2) + arg_int(c, 3) + 1),
                    added: none,
                    float: Some(arg_float(c, 4)),
                    weight: none,
                    shift: none,
                    to: arg_at(c, 0, r * cols + k),
                },
            ),
            Kernel::LayerNorm => Some(
                Normed {
                    norm: Norm::Layer,
                    row: arg_at(c, 0, r * cols),
                    len: cols,
                    added: none,
                    float: Some(arg_float(c, 5)),
                    weight: arg_at(c, 1, k),
                    shift: arg_at(c, 2, k),
                    to: arg_at(c, 3, r * cols + k),
                },
            ),
            Kernel::LayerNormAdd => Some(
                Normed {
                    norm: Norm::Layer,
                    row: arg_at(c, 0, r * cols),
                    len: cols,
                    added: arg_at(c, 1, r * cols),
                    float: Some(arg_float(c, 6)),
                    weight: arg_at(c, 2, k),
                    shift: arg_at(c, 3, k),
                    to: arg_at(c, 4, r * cols + k),
                },
            ),
            Kernel::LayerNormAddF16 => Some(
                Normed {
                    norm: Norm::LayerRounded,
                    row: arg_at(c, 0, r * cols),
                    len: cols,
                    added: arg_at(c, 1, r * cols),
                    float: Some(arg_float(c, 6)),
                    weight: arg_at(c, 2, k),
                    shift: arg_at(c, 3, k),
                    to: arg_at(c, 4, r * cols + k),
                },
            ),
            Kernel::LayerNormMod => Some(
                Normed {
                    norm: Norm::Modulated,
                    row: arg_at(c, 0, r * cols),
                    len: cols,
                    added: none,
                    float: Some(arg_float(c, 6)),
                    weight: arg_at(c, 1, arg_int(c, 3) + k),
                    shift: arg_at(c, 1, arg_int(c, 2) + k),
                    to: arg_at(c, 4, r * cols + k),
                },
            ),
            Kernel::RmsNorm => Some(
                Normed {
                    norm: Norm::Rms,
                    row: arg_at(c, 0, r * cols),
                    len: cols,
                    added: arg_at(c, 1, r * cols),
                    float: Some(arg_float(c, 7)),
                    weight: arg_at(c, 2, k),
                    shift: none,
                    to: arg_at(c, 3, r * cols + k),
                },
            ),
            Kernel::FuseWeightNorm => Some(
                Normed {
                    norm: Norm::Length,
                    row: arg_at(c, 0, r * cols),
                    len: cols,
                    added: none,
                    float: None,
                    weight: arg_at(c, 1, r),
                    shift: none,
                    to: arg_at(c, 2, r * cols + k),
                },
            ),
            _ => None,
        }
    }
}

/// Whether a launch normalises each of `rows` rows of `cols`.
pub open spec fn norms(
    c: Cmd,
    rows: int,
    cols: int,
    want: spec_fn(int, int) -> Normed,
) -> bool {
    forall|r: int, k: int|
        0 <= r < rows && 0 <= k < cols ==> #[trigger] normed(c, r, k) == Some(want(r, k))
}

/// Element `k` of row `r`, by the row's mean and variance, `weight[k]` and `bias[k]`.
pub open spec fn layer_normed<T>(
    norm: Norm,
    x: CudaSlice<Fp32>,
    added: Option<&CudaSlice<Fp32>>,
    cols: int,
    weight: CudaSlice<Fp32>,
    bias: CudaSlice<Fp32>,
    eps: FloatBits,
    out: CudaSlice<T>,
) -> spec_fn(int, int) -> Normed {
    |r: int, k: int|
        Normed {
            norm,
            row: at(x, r * cols),
            len: cols,
            added: maybe_at(added, r * cols),
            float: Some(eps),
            weight: at(weight, k),
            shift: at(bias, k),
            to: at(out, r * cols + k),
        }
}

/// A layer normalisation goes over every element of every row, by its own column's weight
/// and bias, with the residual's row on top of it where that is asked for.
pub proof fn every_row_is_layer_normed(
    x: &CudaSlice<Fp32>,
    res: &CudaSlice<Fp32>,
    rows: usize,
    cols: usize,
    weight: &CudaSlice<Fp32>,
    bias: &CudaSlice<Fp32>,
    eps: FloatBits,
    out: CudaSlice<Fp32>,
    rounded: CudaSlice<u16>,
)
    requires
        int_fits(rows as int) && int_fits(cols as int),
    ensures
        norms(
            layer_norm_cmd(x, rows, cols, weight, bias, eps, out),
            rows as int,
            cols as int,
            layer_normed(Norm::Layer, *x, None, cols as int, *weight, *bias, eps, out),
        ),
        norms(
            layer_norm_add_cmd(x, res, rows, cols, weight, bias, eps, out),
            rows as int,
            cols as int,
            layer_normed(Norm::Layer, *x, Some(res), cols as int, *weight, *bias, eps, out),
        ),
        norms(
            layer_norm_add_f16_cmd(x, res, rows, cols, weight, bias, eps, rounded),
            rows as int,
            cols as int,
            layer_normed(
                Norm::LayerRounded,
                *x,
                Some(res),
                cols as int,
                *weight,
                *bias,
                eps,
                rounded,
            ),
        ),
{
}

/// Element `k` of row `r`, by the row's mean and variance and the two segments of `mods`.
pub open spec fn modulated(
    x: CudaSlice<Fp32>,
    cols: int,
    mods: CudaSlice<Fp32>,
    shift_off: int,
    scale_off: int,
    eps: FloatBits,
    out: CudaSlice<Fp32>,
) -> spec_fn(int, int) -> Normed {
    |r: int, k: int|
        Normed {
            norm: Norm::Modulated,
            row: at(x, r * cols),
            len: cols,
            added: None,
            float: Some(eps),
            weight: at(mods, scale_off + k),
            shift: at(mods, shift_off + k),
            to: at(out, r * cols + k),
        }
}

/// An adaptive normalisation multiplies by the segment that it is told the scales are in and
/// adds the one that it is told the shifts are in; where it is not refused both segments, and
/// all of the rows, are there, and they start on whole vectors of four.
pub proof fn every_row_is_modulated(
    x: &CudaSlice<Fp32>,
    rows: usize,
    cols: usize,
    mods: &CudaSlice<Fp32>,
    shift_off: usize,
    scale_off: usize,
    eps: FloatBits,
    out: CudaSlice<Fp32>,
)
    requires
        int_fits(rows as int) && int_fits(cols as int),
        int_fits(shift_off as int) && int_fits(scale_off as int),
    ensures
        norms(
            layer_norm_mod_cmd(x, rows, cols, mods, shift_off, scale_off, eps, out),
            rows as int,
            cols as int,
            modulated(*x, cols as int, *mods, shift_off as int, scale_off as int, eps, out),
        ),
        mod_refusal(x, rows, cols, mods, shift_off, scale_off) is None <==> {
            &&& shift_off + cols <= mods.len && scale_off + cols <= mods.len
            &&& rows * cols <= x.len
            &&& shift_off % 4 == 0 && scale_off % 4 == 0
        },
{
}

/// Element `k` of row `r`, as its share of the exponentials of the part of the row that
/// counts.
pub open spec fn shared_out(
    x: CudaSlice<Fp32>,
    cols: int,
    counts: spec_fn(int) -> int,
    scale: Option<FloatBits>,
) -> spec_fn(int, int) -> Normed {
    |r: int, k: int|
        Normed {
            norm: Norm::Softmax,
            row: at(x, r * cols),
            len: counts(r),
            added: None,
            float: scale,
            weight: None,
            shift: None,
            to: at(x, r * cols + k),
        }
}

/// How much of a row counts: all of it, or, where the rows are queries in turns of `tq`, the
/// keys up to and with the query's own, which is `offset` on.
pub open spec fn seen(cols: int, causal: Option<(usize, usize)>) -> spec_fn(int) -> int {
    |r: int|
        match causal {
            Some((tq, offset)) => min(cols, r % (tq as int) + offset + 1),
            None => cols,
        }
}

/// A softmax goes over all of every row, and a causal one over what each query may see.
pub proof fn every_row_is_shared_out(
    x: &CudaSlice<Fp32>,
    rows: usize,
    cols: usize,
    tq: usize,
    offset: usize,
    scale: FloatBits,
)
    requires
        int_fits(rows as int) && int_fits(cols as int) && int_fits(tq as int),
        int_fits(offset as int) && 0 < tq,
    ensures
        norms(
            softmax_rows_cmd(x, rows, cols),
            rows as int,
            cols as int,
            shared_out(*x, cols as int, seen(cols as int, None), None),
        ),
        norms(
            softmax_causal_cmd(x, rows, cols, tq, offset, scale),
            rows as int,
            cols as int,
            shared_out(*x, cols as int, seen(cols as int, Some((tq, offset))), Some(scale)),
        ),
{
    assert(is_pow2(256)) by {
        reveal_with_fuel(is_pow2, 10);
    }
}

/// Element `k` of row `r`, by the row's root mean square and `weight[k]`.
pub open spec fn rms_normed(
    x: CudaSlice<Fp32>,
    added: Option<&CudaSlice<Fp32>>,
    dim: int,
    weight: CudaSlice<Fp32>,
    eps: FloatBits,
    out: CudaSlice<Fp32>,
) -> spec_fn(int, int) -> Normed {
    |r: int, k: int|
        Normed {
            norm: Norm::Rms,
            row: at(x, r * dim),
            len: dim,
            added: maybe_at(added, r * dim),
            float: Some(eps),
            weight: at(weight, k),
            shift: None,
            to: at(out, r * dim + k),
        }
}

/// A root-mean-square normalisation goes over every element of every row, by its own column's
/// weight, with the row that is to be added on top of it exactly where there is one, and takes
/// the twin of what it makes exactly where that is asked for.
pub proof fn every_row_is_rms_normed(
    at_: int,
    x: &CudaSlice<Fp32>,
    add: Option<&CudaSlice<Fp32>>,
    rows: usize,
    dim: usize,
    weight: &CudaSlice<Fp32>,
    eps: FloatBits,
    quantize: bool,
)
    requires
        ints_fit(rows as int, dim as int),
    ensures
        ({
            let c = rms_cmds(at_, x, add, rows, dim, weight, eps, quantize).last();
            &&& norms(
                c,
                rows as int,
                dim as int,
                rms_normed(*x, add, dim as int, *weight, eps, made::<Fp32>(at_, rows * dim)),
            )
            &&& takes_twin(
                c,
                4,
                5,
                if quantize {
                    Some(fresh_twin(at_ + 1, rows, dim))
                } else {
                    None::<Q8>
                },
            )
        }),
{
    let threads = rms_threads(dim, quantize);
    assert(32 <= threads <= 1024 && threads % 32 == 0) by {
        reveal_with_fuel(is_pow2, 7);
        if dim >= 1 {
            next_pow2_is_least(dim as int);
        }
        let p = next_pow2(dim as int);
        assert(p >= 32 ==> p % 32 == 0);
    }
}

/// Element `k` of row `r`, by the row's length and `g[r]`.
pub open spec fn scaled_to_length(
    v: CudaSlice<Fp32>,
    g: CudaSlice<Fp32>,
    per: int,
    out: CudaSlice<Fp32>,
) -> spec_fn(int, int) -> Normed {
    |r: int, k: int|
        Normed {
            norm: Norm::Length,
            row: at(v, r * per),
            len: per,
            added: None,
            float: None,
            weight: at(g, r),
            shift: None,
            to: at(out, r * per + k),
        }
}

/// Weight normalisation brings every output channel's weights, all `in_ch * k` of them, to
/// the length that is given for the channel.
pub proof fn every_channel_is_brought_to_length(
    v: &CudaSlice<Fp32>,
    g: &CudaSlice<Fp32>,
    out_ch: usize,
    in_ch: usize,
    k: usize,
    out: CudaSlice<Fp32>,
)
    requires
        int_fits(out_ch as int) && int_fits(in_ch * k),
    ensures
        norms(
            fuse_weight_norm_cmd(v, g, out_ch, in_ch, k, out),
            out_ch as int,
            in_ch * k,
            scaled_to_length(*v, *g, in_ch * k, out),
        ),
{
    assert(is_pow2(256)) by {
        reveal_with_fuel(is_pow2, 10);
    }
}

} // verus!
