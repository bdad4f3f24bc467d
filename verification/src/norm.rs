//! Normalisations, softmax and the gated activations that take an int8 twin.

use crate::arith::{greater, next_pow2, next_pow2_is_least, next_power_of_two};
use crate::buffer::{CudaSlice, Elem, FloatBits, Fp32};
use crate::device::{int_fits, ints_fit};
use crate::device::normalising::{
    Norm, every_row_is_layer_normed, every_row_is_modulated, every_row_is_rms_normed,
    every_row_is_shared_out, layer_normed, modulated, norms, rms_normed, seen, shared_out,
};
use crate::device::pointwise::{
    a_gate_meets_its_other_buffer, a_gate_meets_its_other_half, gates, takes_twin,
};
use crate::error::CudaError;
use crate::launch::{flat_cfg, per_row_cfg, LaunchConfig, BLOCK};
use crate::names::Kernel;
use crate::operand::{q8_bytes, q8_fits, Q8};
use crate::queue::{launch, made, made_in, num, ptr, ptr_or_null, uninit, Arg, Cmd, Gpu};
use vstd::math::{max, min};
use vstd::prelude::*;

verus! {

/// Threads a fused normalise-and-quantise block runs.
///
/// A multiple of 32, so a warp owns whole 32-column scale groups, and the
/// largest the hardware allows, because at one block a row this block is all
/// the parallelism a decode step has.
pub const RMS_THREADS: u32 = 1024;

/// The normalisation: a block a row.
pub open spec fn layer_norm_cmd(
    x: &CudaSlice<Fp32>,
    rows: usize,
    cols: usize,
    weight: &CudaSlice<Fp32>,
    bias: &CudaSlice<Fp32>,
    eps: FloatBits,
    out: CudaSlice<Fp32>,
) -> Cmd {
    launch(
        Kernel::LayerNorm,
        seq![
            ptr(*x),
            ptr(*weight),
            ptr(*bias),
            ptr(out),
            num(cols as int),
            Arg::Float(eps),
        ],
        per_row_cfg(rows as int),
    )
}

/// The sum and its normalisation.
pub open spec fn layer_norm_add_cmd(
    h: &CudaSlice<Fp32>,
    res: &CudaSlice<Fp32>,
    rows: usize,
    cols: usize,
    weight: &CudaSlice<Fp32>,
    bias: &CudaSlice<Fp32>,
    eps: FloatBits,
    out: CudaSlice<Fp32>,
) -> Cmd {
    launch(
        Kernel::LayerNormAdd,
        seq![
            ptr(*h),
            ptr(*res),
            ptr(*weight),
            ptr(*bias),
            ptr(out),
            num(cols as int),
            Arg::Float(eps),
        ],
        per_row_cfg(rows as int),
    )
}

/// The same into half precision.
pub open spec fn layer_norm_add_f16_cmd(
    h: &CudaSlice<Fp32>,
    res: &CudaSlice<Fp32>,
    rows: usize,
    cols: usize,
    weight: &CudaSlice<Fp32>,
    bias: &CudaSlice<Fp32>,
    eps: FloatBits,
    out: CudaSlice<u16>,
) -> Cmd {
    launch(
        Kernel::LayerNormAddF16,
        seq![
            ptr(*h),
            ptr(*res),
            ptr(*weight),
            ptr(*bias),
            ptr(out),
            num(cols as int),
            Arg::Float(eps),
        ],
        per_row_cfg(rows as int),
    )
}

/// The softmax: a block a row.
pub open spec fn softmax_rows_cmd(x: &CudaSlice<Fp32>, rows: usize, cols: usize) -> Cmd {
    launch(
        Kernel::SoftmaxRows,
        seq![
            ptr(*x),
            num(cols as int),
        ],
        per_row_cfg(rows as int),
    )
}

/// The adaptive normalisation: a block a row.
pub open spec fn layer_norm_mod_cmd(
    x: &CudaSlice<Fp32>,
    rows: usize,
    cols: usize,
    mods: &CudaSlice<Fp32>,
    shift_off: usize,
    scale_off: usize,
    eps: FloatBits,
    out: CudaSlice<Fp32>,
) -> Cmd {
    launch(
        Kernel::LayerNormMod,
        seq![
            ptr(*x),
            ptr(*mods),
            num(shift_off as int),
            num(scale_off as int),
            ptr(out),
            num(cols as int),
            Arg::Float(eps),
        ],
        per_row_cfg(rows as int),
    )
}

/// The masked softmax: a block a row.
pub open spec fn softmax_causal_cmd(
    x: &CudaSlice<Fp32>,
    rows: usize,
    cols: usize,
    tq: usize,
    offset: usize,
    scale: FloatBits,
) -> Cmd {
    launch(
        Kernel::SoftmaxCausal,
        seq![
            ptr(*x),
            num(cols as int),
            num(tq as int),
            num(offset as int),
            Arg::Float(scale),
        ],
        LaunchConfig {
            grid_dim: (rows as u32, 1, 1),
            block_dim: (256, 1, 1),
            shared_mem_bytes: 0,
        },
    )
}

/// Gating: a thread an element.
pub open spec fn silu_mul_cmd(a: &CudaSlice<Fp32>, b: &CudaSlice<Fp32>, n: usize) -> Cmd {
    launch(
        Kernel::SiluMul,
        seq![ptr(*a), ptr(*b), Arg::Null, num(0), num(n as int)],
        flat_cfg(n as int),
    )
}

/// Gating, with its twin.
pub open spec fn silu_mul_q_cmd(
    a: &CudaSlice<Fp32>,
    b: &CudaSlice<Fp32>,
    rows: usize,
    k: usize,
    q: Q8,
) -> Cmd {
    launch(
        Kernel::SiluMul,
        seq![ptr(*a), ptr(*b), ptr(q.buf), num(rows * k), num(rows * k)],
        flat_cfg(rows * k),
    )
}

/// Gating one half by the other, with its twin.
pub open spec fn silu_mul_pair_cmd(x: &CudaSlice<Fp32>, rows: usize, k: usize, q: Q8) -> Cmd {
    launch(
        Kernel::SiluMulPair,
        seq![ptr(*x), ptr(q.buf), num(rows * k), num(rows * k)],
        flat_cfg(rows * k),
    )
}

/// Gating one half by the other.
pub open spec fn silu_mul_halves_cmd(x: &CudaSlice<Fp32>, n: usize) -> Cmd {
    launch(
        Kernel::SiluMulPair,
        seq![ptr(*x), Arg::Null, num(0), num(n as int)],
        flat_cfg(n as int),
    )
}

impl Gpu {
    /// Layer normalisation over each row.
    pub fn layer_norm(
        &mut self,
        x: &CudaSlice<Fp32>,
        rows: usize,
        cols: usize,
        weight: &CudaSlice<Fp32>,
        bias: &CudaSlice<Fp32>,
        eps: FloatBits,
    ) -> (out: CudaSlice<Fp32>)
        requires
            rows * cols <= usize::MAX,
        ensures
            out == made::<Fp32>(old(self)@.len() as int, rows * cols),
            final(self)@ == old(self)@.push(uninit(Elem::F32, rows * cols)).push(
                layer_norm_cmd(x, rows, cols, weight, bias, eps, out),
            ),
            int_fits(rows as int) && int_fits(cols as int)
                ==> norms(
                    final(self)@.last(),
                    rows as int,
                    cols as int,
                    layer_normed(Norm::Layer, *x, None, cols as int, *weight, *bias, eps, out),
                ),
            made_in(final(self)@, out, Elem::F32, rows * cols),
    {
        let out = self.uninit(rows * cols);
        self.launch(
            Kernel::LayerNorm,
            vec![
                Arg::ptr(x),
                Arg::ptr(weight),
                Arg::ptr(bias),
                Arg::ptr(&out),
                Arg::num(cols),
                Arg::Float(eps),
            ],
            LaunchConfig::per_row(rows),
        );
        proof {
            if int_fits(rows as int) && int_fits(cols as int) {
                every_row_is_layer_normed(x, x, rows, cols, weight, bias, eps, out, arbitrary());
            }
        }
        out
    }

    /// The residual sum and the normalisation of it, in one pass.
    ///
    /// `h` becomes `h + res` - which is what the next sub-layer adds to, so it
    /// has to survive - and the return is the normalisation of that.
    pub fn layer_norm_add(
        &mut self,
        h: &CudaSlice<Fp32>,
        res: &CudaSlice<Fp32>,
        rows: usize,
        cols: usize,
        weight: &CudaSlice<Fp32>,
        bias: &CudaSlice<Fp32>,
        eps: FloatBits,
    ) -> (out: CudaSlice<Fp32>)
        requires
            rows * cols <= usize::MAX,
        ensures
            out == made::<Fp32>(old(self)@.len() as int, rows * cols),
            final(self)@ == old(self)@.push(uninit(Elem::F32, rows * cols)).push(
                layer_norm_add_cmd(h, res, rows, cols, weight, bias, eps, out),
            ),
            int_fits(rows as int) && int_fits(cols as int)
                ==> norms(
                    final(self)@.last(),
                    rows as int,
                    cols as int,
                    layer_normed(Norm::Layer, *h, Some(res), cols as int, *weight, *bias, eps, out),
                ),
            made_in(final(self)@, out, Elem::F32, rows * cols),
    {
        let out = self.uninit(rows * cols);
        self.launch(
            Kernel::LayerNormAdd,
            vec![
                Arg::ptr(h),
                Arg::ptr(res),
                Arg::ptr(weight),
                Arg::ptr(bias),
                Arg::ptr(&out),
                Arg::num(cols),
                Arg::Float(eps),
            ],
            LaunchConfig::per_row(rows),
        );
        proof {
            if int_fits(rows as int) && int_fits(cols as int) {
                every_row_is_layer_normed(h, res, rows, cols, weight, bias, eps, out, arbitrary());
            }
        }
        out
    }

    /// [`Gpu::layer_norm_add`], returning the normalisation at f16.
    ///
    /// For the case where the result is a matmul's left operand and nothing
    /// else. `h` is still f32: it is the residual stream.
    pub fn layer_norm_add_f16(
        &mut self,
        h: &CudaSlice<Fp32>,
        res: &CudaSlice<Fp32>,
        rows: usize,
        cols: usize,
        weight: &CudaSlice<Fp32>,
        bias: &CudaSlice<Fp32>,
        eps: FloatBits,
    ) -> (out: CudaSlice<u16>)
        requires
            rows * cols <= usize::MAX,
        ensures
            out == made::<u16>(old(self)@.len() as int, rows * cols),
            final(self)@ == old(self)@.push(uninit(Elem::U16, rows * cols)).push(
                layer_norm_add_f16_cmd(h, res, rows, cols, weight, bias, eps, out),
            ),
            int_fits(rows as int) && int_fits(cols as int)
                ==> norms(
                    final(self)@.last(),
                    rows as int,
                    cols as int,
                    layer_normed(
                        Norm::LayerRounded,
                        *h,
                        Some(res),
                        cols as int,
                        *weight,
                        *bias,
                        eps,
                        out,
                    ),
                ),
            made_in(final(self)@, out, Elem::U16, rows * cols),
    {
        let out = self.uninit_f16(rows * cols);
        self.launch(
            Kernel::LayerNormAddF16,
            vec![
                Arg::ptr(h),
                Arg::ptr(res),
                Arg::ptr(weight),
                Arg::ptr(bias),
                Arg::ptr(&out),
                Arg::num(cols),
                Arg::Float(eps),
            ],
            LaunchConfig::per_row(rows),
        );
        proof {
            if int_fits(rows as int) && int_fits(cols as int) {
                every_row_is_layer_normed(h, res, rows, cols, weight, bias, eps, arbitrary(), out);
            }
        }
        out
    }

    /// Softmax over each row, in place.
    pub fn softmax_rows(
        &mut self,
        x: &CudaSlice<Fp32>,
        rows: usize,
        cols: usize,
    )
        ensures
            final(self)@ == old(self)@.push(
                softmax_rows_cmd(x, rows, cols),
            ),
            int_fits(rows as int) && int_fits(cols as int)
                ==> norms(
                    final(self)@.last(),
                    rows as int,
                    cols as int,
                    shared_out(*x, cols as int, seen(cols as int, None), None),
                ),
    {
        self.launch(
            Kernel::SoftmaxRows,
            vec![
                Arg::ptr(x),
                Arg::num(cols),
            ],
            LaunchConfig::per_row(rows),
        );
        proof {
            if int_fits(rows as int) && int_fits(cols as int) {
                every_row_is_shared_out(x, rows, cols, 1, 0, FloatBits(0));
            }
        }
    }

    /// A DiT block's adaptive normalisation: [`Gpu::layer_norm`] with no
    /// affine, then `* (1 + scale) + shift`, with `scale` and `shift` read as
    /// `cols`-wide segments of `mods` at `scale_off` and `shift_off`.
    pub fn layer_norm_mod(
        &mut self,
        x: &CudaSlice<Fp32>,
        rows: usize,
        cols: usize,
        mods: &CudaSlice<Fp32>,
        shift_off: usize,
        scale_off: usize,
        eps: FloatBits,
    ) -> (r: Result<CudaSlice<Fp32>, CudaError>)
        requires
            max(shift_off as int, scale_off as int) + cols <= usize::MAX,
            mods.len >= max(shift_off as int, scale_off as int) + cols ==> rows * cols
                <= usize::MAX,
        ensures
            match mod_refusal(x, rows, cols, mods, shift_off, scale_off) {
                Some(e) => r == Err::<CudaSlice<Fp32>, CudaError>(e) && final(self)@
                    == old(self)@,
                None => {
                    let out = made::<Fp32>(old(self)@.len() as int, rows * cols);
                    &&& r == Ok::<CudaSlice<Fp32>, CudaError>(out)
                    &&& final(self)@ == old(self)@.push(uninit(Elem::F32, rows * cols)).push(
                        layer_norm_mod_cmd(x, rows, cols, mods, shift_off, scale_off, eps, out),
                    )
                },
            },
            r is Ok
                && int_fits(rows as int) && int_fits(cols as int) && int_fits(shift_off as int)
                && int_fits(scale_off as int)
                ==> norms(
                    final(self)@.last(),
                    rows as int,
                    cols as int,
                    modulated(
                        *x,
                        cols as int,
                        *mods,
                        shift_off as int,
                        scale_off as int,
                        eps,
                        r->Ok_0,
                    ),
                ),
            r is Ok ==> made_in(final(self)@, r->Ok_0, Elem::F32, rows * cols),
    {
        let need: usize = greater(shift_off, scale_off) + cols;
        if mods.len() < need {
            return Err(CudaError::SliceOverrun { at: need, len: mods.len() });
        }
        if x.len() < rows * cols {
            return Err(CudaError::SliceOverrun { at: rows * cols, len: x.len() });
        }
        if shift_off % 4 != 0 || scale_off % 4 != 0 {
            return Err(
                CudaError::Misaligned {
                    what: "a modulation segment",
                    offset: if shift_off % 4 == 0 { scale_off } else { shift_off },
                    align: 4,
                },
            );
        }
        let out = self.uninit(rows * cols);
        self.launch(
            Kernel::LayerNormMod,
            vec![
                Arg::ptr(x),
                Arg::ptr(mods),
                Arg::num(shift_off),
                Arg::num(scale_off),
                Arg::ptr(&out),
                Arg::num(cols),
                Arg::Float(eps),
            ],
            LaunchConfig::per_row(rows),
        );
        proof {
            if int_fits(rows as int)
                && int_fits(cols as int) && int_fits(shift_off as int) && int_fits(scale_off as int) {
                every_row_is_modulated(x, rows, cols, mods, shift_off, scale_off, eps, out);
            }
        }
        Ok(out)
    }

    /// Softmax over each row, scaling and causal-masking on the way.
    ///
    /// `tq` rows to a query block and `offset` the position the first of them
    /// sits at, which is `tk - tq` for the usual append-only attention.
    pub fn softmax_causal(
        &mut self,
        x: &CudaSlice<Fp32>,
        rows: usize,
        cols: usize,
        tq: usize,
        offset: usize,
        scale: FloatBits,
    )
        ensures
            final(self)@ == old(self)@.push(
                softmax_causal_cmd(x, rows, cols, tq, offset, scale),
            ),
            int_fits(rows as int)
                && int_fits(cols as int) && int_fits(offset as int) && 0 < tq <= i32::MAX
                ==> norms(
                    final(self)@.last(),
                    rows as int,
                    cols as int,
                    shared_out(*x, cols as int, seen(cols as int, Some((tq, offset))), Some(scale)),
                ),
    {
        let cfg = LaunchConfig {
            grid_dim: (rows as u32, 1, 1),
            block_dim: (256, 1, 1),
            shared_mem_bytes: 0,
        };
        self.launch(
            Kernel::SoftmaxCausal,
            vec![
                Arg::ptr(x),
                Arg::num(cols),
                Arg::num(tq),
                Arg::num(offset),
                Arg::Float(scale),
            ],
            cfg,
        );
        proof {
            if int_fits(rows as int)
                && int_fits(cols as int) && int_fits(offset as int) && 0 < tq <= i32::MAX {
                every_row_is_shared_out(x, rows, cols, tq, offset, scale);
            }
        }
    }

    /// Root-mean-square normalisation.
    pub fn rms_norm(
        &mut self,
        x: &CudaSlice<Fp32>,
        rows: usize,
        dim: usize,
        weight: &CudaSlice<Fp32>,
        eps: FloatBits,
    ) -> (out: CudaSlice<Fp32>)
        requires
            rows * dim <= usize::MAX,
            next_pow2((dim as u32) as int) <= u32::MAX,
        ensures
            out == made::<Fp32>(old(self)@.len() as int, rows * dim),
            final(self)@ == old(self)@ + rms_cmds(
                old(self)@.len() as int,
                x,
                None,
                rows,
                dim,
                weight,
                eps,
                false,
            ),
            ints_fit(rows as int, dim as int)
                ==> norms(
                    final(self)@.last(),
                    rows as int,
                    dim as int,
                    rms_normed(*x, None, dim as int, *weight, eps, out),
                )
                    && takes_twin(final(self)@.last(), 4, 5, None),
            made_in(final(self)@, out, Elem::F32, rows * dim),
    {
        let (out, _) = self.rms_norm_inner(x, None, rows, dim, weight, eps, false);
        proof {
            if ints_fit(rows as int, dim as int) {
                every_row_is_rms_normed(
                    old(self)@.len() as int,
                    x,
                    None,
                    rows,
                    dim,
                    weight,
                    eps,
                    false,
                );
            }
        }
        out
    }

    /// The same, also emitting the int8 twin the packed mat-vec wants, and
    /// adding `add` into `x` first where there is one.
    ///
    /// The activation a normalisation produces is immediately projected two or
    /// three times by a packed weight. Taking the twin here rather than in a
    /// kernel of its own saves a launch, an allocation and a re-read of the row
    /// that was just written.
    ///
    /// Refuses a row that is not whole 32-column scale groups.
    pub fn rms_norm_q(
        &mut self,
        x: &CudaSlice<Fp32>,
        add: Option<&CudaSlice<Fp32>>,
        rows: usize,
        dim: usize,
        weight: &CudaSlice<Fp32>,
        eps: FloatBits,
    ) -> (r: Result<(CudaSlice<Fp32>, Q8), CudaError>)
        requires
            dim % 32 == 0 ==> q8_fits(rows as int, dim as int),
        ensures
            dim % 32 != 0 ==> r == Err::<(CudaSlice<Fp32>, Q8), CudaError>(
                CudaError::RaggedBlock { k: dim, block: 32 },
            ) && final(self)@ == old(self)@,
            dim % 32 == 0 ==> {
                let at = old(self)@.len() as int;
                &&& r == Ok::<(CudaSlice<Fp32>, Q8), CudaError>(
                    (made(at, rows * dim), fresh_twin(at + 1, rows, dim)),
                )
                &&& r->Ok_0.1.wf()
                &&& final(self)@ == old(self)@ + rms_cmds(
                    at,
                    x,
                    add,
                    rows,
                    dim,
                    weight,
                    eps,
                    true,
                )
            },
            r is Ok && ints_fit(rows as int, dim as int)
                ==> norms(
                    final(self)@.last(),
                    rows as int,
                    dim as int,
                    rms_normed(*x, add, dim as int, *weight, eps, r->Ok_0.0),
                )
                    && takes_twin(final(self)@.last(), 4, 5, Some(r->Ok_0.1)),
            r is Ok
                ==> made_in(final(self)@, r->Ok_0.0, Elem::F32, rows * dim)
                    && r->Ok_0.1.rows == rows && r->Ok_0.1.k == dim
                    && made_in(
                        final(self)@,
                        r->Ok_0.1.buf,
                        Elem::I8,
                        rows * dim + rows * (dim / 32) * 4,
                    ),
    {
        if dim % 32 != 0 {
            return Err(CudaError::RaggedBlock { k: dim, block: 32 });
        }
        let (out, q8) = self.rms_norm_inner(x, add, rows, dim, weight, eps, true);
        proof {
            if ints_fit(rows as int, dim as int) {
                every_row_is_rms_normed(
                    old(self)@.len() as int,
                    x,
                    add,
                    rows,
                    dim,
                    weight,
                    eps,
                    true,
                );
            }
        }
        Ok((out, q8.unwrap()))
    }

    /// Both of the above. `quantize` decides whether the twin is written.
    fn rms_norm_inner(
        &mut self,
        x: &CudaSlice<Fp32>,
        add: Option<&CudaSlice<Fp32>>,
        rows: usize,
        dim: usize,
        weight: &CudaSlice<Fp32>,
        eps: FloatBits,
        quantize: bool,
    ) -> (r: (CudaSlice<Fp32>, Option<Q8>))
        requires
            rows * dim <= usize::MAX,
            quantize ==> q8_fits(rows as int, dim as int),
            !quantize ==> next_pow2((dim as u32) as int) <= u32::MAX,
        ensures
            r.0 == made::<Fp32>(old(self)@.len() as int, rows * dim),
            r.1 == if quantize {
                Some(fresh_twin(old(self)@.len() as int + 1, rows, dim))
            } else {
                None
            },
            quantize ==> r.1->0.wf(),
            final(self)@ == old(self)@ + rms_cmds(
                old(self)@.len() as int,
                x,
                add,
                rows,
                dim,
                weight,
                eps,
                quantize,
            ),
            old(self)@.len() <= usize::MAX,
            quantize ==> old(self)@.len() < usize::MAX,
    {
        let out = self.uninit(rows * dim);
        let q8: Option<Q8> = if quantize {
            Some(Q8 { buf: self.uninit_i8(rows * dim + rows * (dim / 32) * 4), rows, k: dim })
        } else {
            None
        };
        let (codes, scales): (Arg, Arg) = match &q8 {
            Some(q) => (Arg::ptr(&q.buf), Arg::num(q.scale_offset())),
            None => (Arg::Null, Arg::num(0)),
        };
        let threads: u32 = if quantize {
            RMS_THREADS
        } else {
            let narrow: u32 = dim as u32;
            let p: usize = next_power_of_two(narrow as usize);
            if p < 32 {
                32
            } else if p > 1024 {
                1024
            } else {
                p as u32
            }
        };
        let cfg = LaunchConfig {
            grid_dim: (rows as u32, 1, 1),
            block_dim: (threads, 1, 1),
            shared_mem_bytes: 0,
        };
        self.launch(
            Kernel::RmsNorm,
            vec![
                Arg::ptr(x),
                Arg::ptr_or_null(add),
                Arg::ptr(weight),
                Arg::ptr(&out),
                codes,
                scales,
                Arg::num(dim),
                Arg::Float(eps),
            ],
            cfg,
        );
        (out, q8)
    }

    /// `a = silu(a) * b`.
    pub fn silu_mul(&mut self, a: &CudaSlice<Fp32>, b: &CudaSlice<Fp32>, n: usize)
        ensures
            final(self)@ == old(self)@.push(
                silu_mul_cmd(a, b, n),
            ),
            int_fits(n as int)
                ==> gates(final(self)@.last(), *a, *b, 0, n as int)
                    && takes_twin(final(self)@.last(), 2, 3, None),
    {
        self.launch(
            Kernel::SiluMul,
            vec![Arg::ptr(a), Arg::ptr(b), Arg::Null, Arg::num(0), Arg::num(n)],
            LaunchConfig::flat(n),
        );
        proof {
            if int_fits(n as int) {
                let q = Q8 { buf: arbitrary(), rows: n, k: 1 };
                a_gate_meets_its_other_buffer(a, b, n, n, 1, q);
            }
        }
    }

    /// The same, also emitting the int8 twin the packed mat-vec wants.
    ///
    /// `rows` and `k` are given separately even though the kernel walks a flat
    /// index, because the twin is addressed as `[rows, k]` by the matmul that
    /// reads it. Passing `rows * k` as the width produces a twin that is the
    /// right length and the wrong shape - which [`Gpu::gemm_batched`] refuses.
    pub fn silu_mul_q(
        &mut self,
        a: &CudaSlice<Fp32>,
        b: &CudaSlice<Fp32>,
        rows: usize,
        k: usize,
    ) -> (r: Result<Q8, CudaError>)
        requires
            rows * k <= usize::MAX,
            gate_refusal(rows, k) is None ==> q8_fits(rows as int, k as int),
        ensures
            match gate_refusal(rows, k) {
                Some(e) => r == Err::<Q8, CudaError>(e) && final(self)@ == old(self)@,
                None => {
                    let q = fresh_twin(old(self)@.len() as int, rows, k);
                    &&& r == Ok::<Q8, CudaError>(q)
                    &&& q.wf()
                    &&& final(self)@ == old(self)@.push(
                        uninit(Elem::I8, q8_bytes(rows as int, k as int)),
                    ).push(
                        silu_mul_q_cmd(a, b, rows, k, q),
                    )
                },
            },
            r is Ok && int_fits(rows * k)
                ==> gates(final(self)@.last(), *a, *b, 0, rows * k)
                    && takes_twin(final(self)@.last(), 2, 3, Some(r->Ok_0)),
            r is Ok
                ==> r->Ok_0.rows == rows
                    && r->Ok_0.k == k
                    && made_in(final(self)@, r->Ok_0.buf, Elem::I8, rows * k + rows * (k / 32) * 4),
    {
        let n: usize = rows * k;
        if n % BLOCK as usize != 0 || k % 32 != 0 {
            return Err(CudaError::RaggedBlock { k: n, block: BLOCK as usize });
        }
        proof {
            whole_groups_divide_out(rows as int, k as int);
        }
        let q8 = Q8 { buf: self.uninit_i8(n + (n / 32) * 4), rows, k };
        self.launch(
            Kernel::SiluMul,
            vec![
                Arg::ptr(a),
                Arg::ptr(b),
                Arg::ptr(&q8.buf),
                Arg::num(q8.scale_offset()),
                Arg::num(n),
            ],
            LaunchConfig::flat(n),
        );
        proof {
            if int_fits(rows * k) {
                a_gate_meets_its_other_buffer(a, b, n, rows, k, q8);
            }
        }
        Ok(q8)
    }

    /// SiLU-gates one buffer against its own second half, and quantises.
    ///
    /// `x` is `[2, rows, k]` - the output of one batched product over two stacked
    /// weights - and the result is the SiLU of one times the other, written over the
    /// first half, which is where the down projection then reads it from.
    ///
    /// The arithmetic is [`Gpu::silu_mul`]'s exactly: same expression, same
    /// order, same group quantiser.
    pub fn silu_mul_pair(&mut self, x: &CudaSlice<Fp32>, rows: usize, k: usize) -> (r: Result<
        Q8,
        CudaError,
    >)
        requires
            rows * k <= usize::MAX,
            gate_refusal(rows, k) is None ==> q8_fits(rows as int, k as int),
        ensures
            match gate_refusal(rows, k) {
                Some(e) => r == Err::<Q8, CudaError>(e) && final(self)@ == old(self)@,
                None => {
                    let q = fresh_twin(old(self)@.len() as int, rows, k);
                    &&& r == Ok::<Q8, CudaError>(q)
                    &&& q.wf()
                    &&& final(self)@ == old(self)@.push(
                        uninit(Elem::I8, q8_bytes(rows as int, k as int)),
                    ).push(
                        silu_mul_pair_cmd(x, rows, k, q),
                    )
                },
            },
            r is Ok && int_fits(rows * k)
                ==> gates(final(self)@.last(), *x, *x, rows * k, rows * k)
                    && takes_twin(final(self)@.last(), 1, 2, Some(r->Ok_0)),
            r is Ok
                ==> r->Ok_0.rows == rows
                    && r->Ok_0.k == k
                    && made_in(final(self)@, r->Ok_0.buf, Elem::I8, rows * k + rows * (k / 32) * 4),
    {
        let n: usize = rows * k;
        if n % BLOCK as usize != 0 || k % 32 != 0 {
            return Err(CudaError::RaggedBlock { k: n, block: BLOCK as usize });
        }
        proof {
            whole_groups_divide_out(rows as int, k as int);
        }
        let q8 = Q8 { buf: self.uninit_i8(n + (n / 32) * 4), rows, k };
        self.launch(
            Kernel::SiluMulPair,
            vec![
                Arg::ptr(x),
                Arg::ptr(&q8.buf),
                Arg::num(q8.scale_offset()),
                Arg::num(n),
            ],
            LaunchConfig::flat(n),
        );
        proof {
            if int_fits(rows * k) {
                a_gate_meets_its_other_half(x, n, rows, k, q8);
            }
        }
        Ok(q8)
    }

    /// [`Gpu::silu_mul_pair`] without the int8 twin, for an f16 down
    /// projection that would never read the codes.
    pub fn silu_mul_halves(&mut self, x: &CudaSlice<Fp32>, n: usize)
        ensures
            final(self)@ == old(self)@.push(
                silu_mul_halves_cmd(x, n),
            ),
            int_fits(n as int)
                ==> gates(final(self)@.last(), *x, *x, n as int, n as int)
                    && takes_twin(final(self)@.last(), 1, 2, None),
    {
        self.launch(
            Kernel::SiluMulPair,
            vec![Arg::ptr(x), Arg::Null, Arg::num(0), Arg::num(n)],
            LaunchConfig::flat(n),
        );
        proof {
            if int_fits(n as int) {
                let q = Q8 { buf: arbitrary(), rows: n, k: 1 };
                a_gate_meets_its_other_half(x, n, n, 1, q);
            }
        }
    }
}

/// The int8 twin of `rows` rows of `k` made at place `at` of the queue.
pub open spec fn fresh_twin(at: int, rows: usize, k: usize) -> Q8 {
    Q8 { buf: made(at, q8_bytes(rows as int, k as int)), rows, k }
}

/// Why an adaptive normalisation is refused, if it is.
pub open spec fn mod_refusal(
    x: &CudaSlice<Fp32>,
    rows: usize,
    cols: usize,
    mods: &CudaSlice<Fp32>,
    shift_off: usize,
    scale_off: usize,
) -> Option<CudaError> {
    let need = max(shift_off as int, scale_off as int) + cols;
    if mods.len < need {
        Some(CudaError::SliceOverrun { at: need as usize, len: mods.len })
    } else if x.len < rows * cols {
        Some(CudaError::SliceOverrun { at: (rows * cols) as usize, len: x.len })
    } else if shift_off % 4 != 0 {
        Some(CudaError::Misaligned { what: "a modulation segment", offset: shift_off, align: 4 })
    } else if scale_off % 4 != 0 {
        Some(CudaError::Misaligned { what: "a modulation segment", offset: scale_off, align: 4 })
    } else {
        None
    }
}

/// Why a gated activation with a twin is refused, if it is: the twin is written
/// by whole blocks of threads, and a row is whole groups of 32.
pub open spec fn gate_refusal(rows: usize, k: usize) -> Option<CudaError> {
    if (rows * k) % (BLOCK as int) != 0 || k % 32 != 0 {
        Some(CudaError::RaggedBlock { k: (rows * k) as usize, block: BLOCK as usize })
    } else {
        None
    }
}

/// Threads a block of the root-mean-square normalisation runs.
pub open spec fn rms_threads(dim: usize, quantize: bool) -> int {
    if quantize {
        RMS_THREADS as int
    } else {
        max(32, min(1024, next_pow2((dim as u32) as int)))
    }
}

/// Everything a root-mean-square normalisation queues: a block a row.
pub open spec fn rms_cmds(
    at: int,
    x: &CudaSlice<Fp32>,
    add: Option<&CudaSlice<Fp32>>,
    rows: usize,
    dim: usize,
    weight: &CudaSlice<Fp32>,
    eps: FloatBits,
    quantize: bool,
) -> Seq<Cmd> {
    let (codes, scales) = if quantize {
        (ptr(fresh_twin(at + 1, rows, dim).buf), num(rows * dim))
    } else {
        (Arg::Null, num(0))
    };
    let run = launch(
        Kernel::RmsNorm,
        seq![
            ptr(*x),
            ptr_or_null(add),
            ptr(*weight),
            ptr(made::<Fp32>(at, rows * dim)),
            codes,
            scales,
            num(dim as int),
            Arg::Float(eps),
        ],
        LaunchConfig {
            grid_dim: (rows as u32, 1, 1),
            block_dim: (rms_threads(dim, quantize) as u32, 1, 1),
            shared_mem_bytes: 0,
        },
    );
    if quantize {
        seq![
            uninit(Elem::F32, rows * dim),
            uninit(Elem::I8, q8_bytes(rows as int, dim as int)),
            run,
        ]
    } else {
        seq![uninit(Elem::F32, rows * dim), run]
    }
}

/// Groups of 32 of a whole tensor are the groups of its rows, wherever a row is
/// whole groups.
pub proof fn whole_groups_divide_out(rows: int, k: int)
    requires
        0 <= rows,
        0 <= k,
        k % 32 == 0,
    ensures
        (rows * k) / 32 == rows * (k / 32),
        (rows * k) % 32 == 0,
{
    assert(rows * k == 32 * (rows * (k / 32))) by (nonlinear_arith)
        requires
            k == 32 * (k / 32),
    ;
}

/// A row that is normalised without a twin gets whole warps, at most a block of
/// them, and a thread an element where they reach.
pub proof fn rms_threads_suit_the_row(dim: usize)
    requires
        dim <= u32::MAX,
        next_pow2(dim as int) <= u32::MAX,
    ensures
        32 <= rms_threads(dim, false) <= 1024,
        1 <= dim <= 1024 ==> rms_threads(dim, false) >= dim,
{
    if dim >= 1 {
        next_pow2_is_least(dim as int);
    }
}

} // verus!
