//! The matmuls.

use crate::arith::{
    ceil_div, ceil_div_covers, div_ceil, div_ceil_u32, lesser, product_fits, sum_fits,
};
use crate::buffer::{CudaSlice, Elem, Fp32};
use crate::device::projecting::{
    adds_bias_once, every_product_is_summed, multiplies, sliced_ints_fit, the_bias_is_added_once,
};
use crate::error::CudaError;
use crate::kernels::{
    GEMM_I8_MT, GEMM_I8_MT_NARROW, GEMM_I8_NT, GEMM_I8_WARPS, GEMM_MT, GEMM_NT, GEMM_WARPS,
    GEMV_Q_ROWS, GEMV_ROWS_MAX, GEMV_WARPS,
};
use crate::launch::{elems_cfg, LaunchConfig};
use crate::names::Kernel;
use crate::operand::{q8_fits, twin_fits, Batch, Operand, Q8};
use crate::quant::Quant;
use crate::quantize::{quantize_cmds, to_f16_cmds, twin_at};
use crate::queue::{
    flag,
    launch,
    long,
    made,
    made_in,
    num,
    ptr,
    ptr_at,
    ptr_or_null,
    uninit,
    Arg,
    Cmd,
    Gpu,
};
use crate::split::{ksplit, ksplit_for, tiles_fit, SM_TARGET};
use vstd::math::min;
use vstd::prelude::*;

verus! {

/// Rows at or below which [`Gpu::gemm`] takes the exact scalar path.
///
/// The tensor-core kernel's block tile is 128 rows, so at one token it fills
/// 1/128 of the tile. The two paths do not have the same precision - the scalar
/// one is exact f32 and the tiled one rounds its operands to f16 - so this
/// constant is exported rather than hidden.
pub const GEMV_MAX_M: usize = 4;

/// A matmul as it was asked for: `out[b] = a[b] * w[b]^T + bias`, with `a` of
/// `m` rows of `k` and `w` of `n` rows of `k` from row `w_first` on.
pub struct Gemm<'a> {
    pub a: Operand<'a>,
    pub w: Operand<'a>,
    pub w_first: int,
    pub bias: Option<&'a CudaSlice<Fp32>>,
    pub batch: Batch,
    pub m: int,
    pub k: int,
    pub n: int,
}

/// The matmul that these arguments ask for.
#[verifier::inline]
pub open spec fn product<'a>(
    a: Operand<'a>,
    w: Operand<'a>,
    w_first: usize,
    bias: Option<&'a CudaSlice<Fp32>>,
    batch: Batch,
    m: usize,
    k: usize,
    n: usize,
) -> Gemm<'a> {
    Gemm {
        a,
        w,
        w_first: w_first as int,
        bias,
        batch,
        m: m as int,
        k: k as int,
        n: n as int,
    }
}

impl<'a> Gemm<'a> {
    /// Elements of the weight before the first row that is read.
    pub open spec fn skipped(self) -> int {
        self.w_first * self.k
    }

    /// The place of that row, in the weight's own units.
    pub open spec fn w_offset(self) -> int {
        match self.w {
            Operand::Q { data: _, ty } => self.skipped() / ty.spec_block_size()
                * ty.spec_device_stride(),
            _ => self.skipped(),
        }
    }

    /// Where the rows that are read end, in the weight's own units.
    pub open spec fn w_need(self) -> int {
        match self.w {
            Operand::Q { data: _, ty } => (self.skipped() / ty.spec_block_size() + self.n * self.k
                / ty.spec_block_size()) * ty.spec_device_stride(),
            _ => self.skipped() + self.n * self.k,
        }
    }

    /// What can be refused before anything is allocated.
    pub open spec fn early_refusal(self) -> Option<CudaError> {
        if self.w is Q && self.skipped() % self.w->ty.spec_block_size() != 0 {
            Some(
                CudaError::RaggedBlock {
                    k: self.skipped() as usize,
                    block: self.w->ty.spec_block_size() as usize,
                },
            )
        } else if self.w_first > 0 && self.w.spec_len() < self.w_need() {
            Some(
                CudaError::SliceOverrun {
                    at: self.w_need() as usize,
                    len: self.w.spec_len() as usize,
                },
            )
        } else if (self.a is F16 || self.w is F16) && self.k % 2 != 0 && !self.odd_is_fine() {
            Some(CudaError::RaggedContraction { k: self.k as usize })
        } else if self.a is Q {
            Some(CudaError::QuantizedActivation)
        } else if self.w is Q && self.k % self.w->ty.spec_block_size() != 0 {
            Some(
                CudaError::RaggedBlock {
                    k: self.k as usize,
                    block: self.w->ty.spec_block_size() as usize,
                },
            )
        } else {
            None
        }
    }

    /// The two mat-vecs read the last half of an odd f16 row on its own.
    pub open spec fn odd_is_fine(self) -> bool {
        self.w is F16 && self.a.is_full() && self.small()
    }

    /// What is refused once the output is there.
    pub open spec fn late_refusal(self) -> Option<CudaError> {
        if self.batch.w_row != 0 && !(self.w is F32 || self.w is F16) {
            Some(CudaError::StridedNonF32Weight { stride: self.batch.w_row })
        } else if self.w is F16 && self.batch.w_row % 2 != 0 {
            Some(CudaError::OddCacheCapacity { cap: self.batch.w_row })
        } else {
            match self.a.spec_q8() {
                Some(q8) => if q8.rows != self.q_rows() || q8.k != self.k {
                    Some(
                        CudaError::MismatchedQ8 {
                            rows: q8.rows,
                            k: q8.k,
                            want_rows: self.q_rows() as usize,
                            want_k: self.k as usize,
                        },
                    )
                } else {
                    None
                },
                None => None,
            }
        }
    }

    /// Why the matmul is refused, if it is.
    pub open spec fn refusal(self) -> Option<CudaError> {
        match self.early_refusal() {
            Some(e) => Some(e),
            None => self.late_refusal(),
        }
    }

    /// Too few rows to fill a tile: one warp an output column instead.
    pub open spec fn small(self) -> bool {
        self.m <= GEMV_MAX_M
    }

    /// Whether the activation is read as int8: a full-precision activation
    /// against one of the two K-quants that have integer kernels.
    pub open spec fn int8(self) -> bool {
        &&& self.a.is_full()
        &&& self.w.spec_quant() == Some(Quant::Q4K) || self.w.spec_quant() == Some(Quant::Q6K)
        &&& self.k % 256 == 0
    }

    /// Whether every product of the batch reads the same activation.
    pub open spec fn shared_a(self) -> bool {
        self.batch.count > 1 && self.batch.a == 0
    }

    /// Rows the int8 twin has: one set for a shared activation, one a product
    /// otherwise.
    pub open spec fn q_rows(self) -> int {
        if self.shared_a() {
            self.m
        } else {
            self.all_rows()
        }
    }

    /// Rows of the twin between consecutive products.
    pub open spec fn a_rows(self) -> int {
        if self.shared_a() {
            0
        } else {
            self.m
        }
    }

    /// How many ways the contraction is split.
    pub open spec fn split(self) -> int {
        if self.small() {
            1
        } else {
            ksplit(self.m, self.k, self.n, self.batch.count as int)
        }
    }

    /// Whether the activation is rounded to f16 up front: the tiled float
    /// kernel against a packed weight, where both strides are whole words.
    pub open spec fn widens(self) -> bool {
        &&& self.a.is_full()
        &&& !self.small()
        &&& !self.int8()
        &&& self.w is Q
        &&& self.k % 2 == 0
        &&& self.batch.a % 2 == 0
    }

    /// Elements of the activation that the products read.
    pub open spec fn a_span(self) -> int {
        (self.batch.count - 1) * self.batch.a + self.m * self.k
    }

    /// Rows of every product together.
    pub open spec fn all_rows(self) -> int {
        self.batch.count * self.m
    }

    /// Elements of the output.
    pub open spec fn out_len(self) -> int {
        self.all_rows() * self.n
    }

    /// The full-precision buffer behind the activation.
    pub open spec fn full_a(self) -> CudaSlice<Fp32> {
        match self.a {
            Operand::F32(v) => *v,
            Operand::F32Q { data, q8: _ } => *data,
            _ => arbitrary(),
        }
    }

    /// The twin that an int8 kernel reads, with the queue at `at` before the
    /// matmul.
    pub open spec fn twin(self, at: int) -> Option<Q8> {
        if !self.int8() {
            None
        } else {
            match self.a.spec_q8() {
                Some(q8) => Some(*q8),
                None => Some(twin_at(at + 1, self.q_rows(), self.k)),
            }
        }
    }

    /// Taking the twin, where the caller did not.
    pub open spec fn twin_cmds(self, at: int) -> Seq<Cmd> {
        if self.int8() && self.a is F32 {
            quantize_cmds(
                at + 1,
                self.full_a(),
                self.k,
                self.q_rows(),
                self.batch.a as int,
                self.m,
            )
        } else {
            Seq::empty()
        }
    }

    /// Where the split's scratch is made.
    pub open spec fn partial_at(self, at: int) -> int {
        at + 1 + self.twin_cmds(at).len()
    }

    /// The split's scratch: one whole output a slice.
    pub open spec fn partial(self, at: int) -> CudaSlice<Fp32> {
        made(
            self.partial_at(at),
            self.split() * self.batch.count * self.m * self.n,
        )
    }

    /// Making the scratch, where the contraction is split.
    pub open spec fn partial_cmds(self) -> Seq<Cmd> {
        if self.split() > 1 {
            seq![uninit(Elem::F32, self.split() * self.batch.count * self.m * self.n)]
        } else {
            Seq::empty()
        }
    }

    /// Where the rounded activation is made.
    pub open spec fn widened_at(self, at: int) -> int {
        self.partial_at(at) + self.partial_cmds().len()
    }

    /// How much of the activation is rounded: what the products read, and no
    /// more than there is.
    pub open spec fn widened_len(self) -> int {
        min(self.a_span(), self.full_a().len as int)
    }

    /// Rounding the activation, where that pays.
    pub open spec fn widened_cmds(self, at: int) -> Seq<Cmd> {
        if self.widens() {
            to_f16_cmds(self.widened_at(at), self.full_a(), self.widened_len())
        } else {
            Seq::empty()
        }
    }

    /// The activation as the float kernels take it.
    pub open spec fn a_arg(self, at: int) -> Arg {
        if self.widens() {
            ptr(made::<u16>(self.widened_at(at), self.widened_len()))
        } else {
            operand_arg(self.a, 0)
        }
    }

    /// The weight, from its first row that is read.
    pub open spec fn w_arg(self) -> Arg {
        operand_arg(self.w, if self.w_first > 0 { self.w_offset() } else { 0 })
    }

    /// The split's scratch, or null where there is no split.
    pub open spec fn partial_arg(self, at: int) -> Arg {
        if self.split() > 1 {
            ptr(self.partial(at))
        } else {
            Arg::Null
        }
    }

    /// The weight's ggml id, elements a block and bytes a block, or zeros.
    pub open spec fn quant_args(self) -> (Arg, Arg, Arg) {
        match self.w.spec_quant() {
            Some(q) => (
                Arg::I32(q.spec_id()),
                num(q.spec_block_size()),
                num(q.spec_device_stride()),
            ),
            None => (Arg::I32(0), Arg::I32(0), Arg::I32(0)),
        }
    }

    /// The bias, the output and the shape, which every path passes on.
    pub open spec fn common(self, at: int) -> Common {
        Common {
            w: self.w_arg(),
            bias: ptr_or_null(self.bias),
            out: ptr(made::<Fp32>(at, self.out_len())),
            m: self.m as usize,
            k: self.k as usize,
            n: self.n as usize,
            batch: self.batch,
            w_half: self.w is F16,
            quant: self.quant_args(),
        }
    }

    /// The integer tensor-core launch.
    pub open spec fn i8_launch(self, at: int) -> Cmd {
        let q = self.twin(at)->0;
        i8_cmd(
            self.common(at),
            self.w.spec_quant() == Some(Quant::Q6K),
            ptr(q.buf),
            num(q.rows * q.k),
            num(self.a_rows()),
            self.split(),
            self.partial_arg(at),
        )
    }

    /// Whether several rows share one stream of an unpacked weight.
    pub open spec fn rows_path(self) -> bool {
        &&& self.small()
        &&& self.m > 1
        &&& self.w_first == 0
        &&& self.w is F32 || self.w is F16
        &&& self.a.is_full()
    }

    /// Whether several rows share one stream of a packed weight.
    pub open spec fn q_rows_path(self) -> bool {
        self.small() && self.m > 1 && self.int8()
    }

    /// The launch that does.
    pub open spec fn q_rows_launch(self, at: int) -> Cmd {
        let q = self.twin(at)->0;
        q_rows_cmd(self.common(at), ptr(q.buf), num(q.rows * q.k), num(self.a_rows()))
    }

    /// The mat-vec, a warp an output element.
    pub open spec fn gemv_launch(self, at: int) -> Cmd {
        let (codes, scales) = match self.twin(at) {
            Some(q) => (ptr(q.buf), num(q.rows * q.k)),
            None => (Arg::Null, num(0)),
        };
        gemv_cmd(
            self.common(at),
            operand_arg(self.a, 0),
            self.a is F16,
            codes,
            scales,
            num(self.a_rows()),
        )
    }

    /// The tiled float launch.
    pub open spec fn tiled_launch(self, at: int) -> Cmd {
        tiled_cmd(
            self.common(at),
            self.a_arg(at),
            self.widens() || self.a is F16,
            self.split(),
            self.partial_arg(at),
        )
    }

    /// The product itself, by the path its shape and operands choose.
    pub open spec fn main_launch(self, at: int) -> Cmd {
        if self.int8() && !self.small() {
            self.i8_launch(at)
        } else if self.rows_path() {
            rows_cmd(self.common(at), ptr(self.full_a()))
        } else if self.q_rows_path() {
            self.q_rows_launch(at)
        } else if self.small() {
            self.gemv_launch(at)
        } else {
            self.tiled_launch(at)
        }
    }

    /// Summing the slices, where the contraction was split.
    pub open spec fn reduce_cmds(self, at: int) -> Seq<Cmd> {
        if self.split() > 1 {
            seq![
                reduce_launch(
                    self.partial(at),
                    self.bias,
                    made(at, self.out_len()),
                    self.batch.count as int,
                    self.m,
                    self.n,
                    self.split(),
                ),
            ]
        } else {
            Seq::empty()
        }
    }

    /// Everything the matmul queues, with the queue at `at` before it.
    pub open spec fn commands(self, at: int) -> Seq<Cmd> {
        if self.early_refusal() is Some {
            Seq::empty()
        } else if self.late_refusal() is Some {
            seq![uninit(Elem::F32, self.out_len())]
        } else {
            seq![uninit(Elem::F32, self.out_len())] + self.twin_cmds(at) + self.partial_cmds()
                + self.widened_cmds(at) + seq![self.main_launch(at)] + self.reduce_cmds(at)
        }
    }

    /// The sizes that are looked at first are numbers of this machine.
    pub open spec fn checks_fit(self) -> bool {
        &&& self.w_first * self.k <= usize::MAX
        &&& self.w is Q ==> self.skipped() % self.w->ty.spec_block_size() == 0 ==> {
            &&& self.n * self.k <= usize::MAX
            &&& self.w_need() <= usize::MAX
        }
        &&& self.w !is Q ==> {
            &&& self.n * self.k <= usize::MAX
            &&& self.w_need() <= usize::MAX
        }
    }

    /// The sizes of what is allocated and launched are, too.
    pub open spec fn sizes_fit(self) -> bool {
        &&& self.batch.count >= 1
        &&& (self.batch.count - 1) * self.batch.a <= usize::MAX
        &&& self.m * self.k <= usize::MAX
        &&& self.a_span() <= usize::MAX
        &&& self.int8() && self.a is F32 ==> q8_fits(self.q_rows(), self.k)
        &&& !self.small() ==> {
            &&& tiles_fit(self.m, self.n, self.batch.count as int)
            &&& self.split() * self.batch.count <= usize::MAX
            &&& self.split() * self.batch.count * self.m <= usize::MAX
            &&& self.split() * self.batch.count * self.m * self.n <= usize::MAX
        }
    }

    /// Every size that this matmul gets to compute is a number of this machine.
    pub open spec fn fits(self) -> bool {
        &&& self.checks_fit()
        &&& self.early_refusal() is None ==> {
            &&& self.all_rows() <= usize::MAX
            &&& self.out_len() <= usize::MAX
        }
        &&& self.refusal() is None ==> self.sizes_fit()
    }
}

/// What every matmul kernel is told.
#[derive(Debug, Clone, Copy)]
pub struct Common {
    /// The weight, from its first row that is read.
    pub w: Arg,
    /// The bias, or null.
    pub bias: Arg,
    /// The output.
    pub out: Arg,
    /// Rows of the activation.
    pub m: usize,
    /// The contraction.
    pub k: usize,
    /// Rows of the weight that are read.
    pub n: usize,
    /// The strides.
    pub batch: Batch,
    /// Whether the weight is f16.
    pub w_half: bool,
    /// The weight's ggml id, elements a block and bytes a block, or zeros.
    pub quant: (Arg, Arg, Arg),
}

/// The integer tensor-core kernel: one per block format, and a narrow row tile
/// where the wide one would be mostly padding.
pub open spec fn i8_cmd(
    c: Common,
    q6k: bool,
    codes: Arg,
    scales: Arg,
    a_rows: Arg,
    split: int,
    partial: Arg,
) -> Cmd {
    let narrow = c.m <= GEMM_I8_MT_NARROW;
    let mt = if narrow { GEMM_I8_MT_NARROW } else { GEMM_I8_MT };
    launch(
        match (q6k, narrow) {
            (true, true) => Kernel::GemmI8Q6kNarrow,
            (true, false) => Kernel::GemmI8Q6k,
            (false, true) => Kernel::GemmI8Q4kNarrow,
            (false, false) => Kernel::GemmI8Q4k,
        },
        seq![
            codes,
            scales,
            c.w,
            c.bias,
            c.out,
            num(c.m as int),
            num(c.k as int),
            num(c.n as int),
            long(c.batch.w as int),
            long(c.batch.out as int),
            c.quant.2,
            a_rows,
            num(split),
            partial,
        ],
        LaunchConfig {
            grid_dim: (
                ceil_div((c.m as u32) as int, mt as int) as u32,
                ceil_div((c.n as u32) as int, GEMM_I8_NT as int) as u32,
                (c.batch.count * split) as u32,
            ),
            block_dim: (32, GEMM_I8_WARPS, 1),
            shared_mem_bytes: 0,
        },
    )
}

/// Several rows against an unpacked weight, which is read once.
pub open spec fn rows_cmd(c: Common, a: Arg) -> Cmd {
    launch(
        Kernel::GemvRows,
        seq![
            a,
            c.w,
            c.bias,
            c.out,
            num(c.m as int),
            num(c.k as int),
            num(c.n as int),
            long(c.batch.a as int),
            long(c.batch.w as int),
            long(c.batch.out as int),
            num(c.batch.w_row as int),
            flag(c.w_half),
        ],
        matvec_cfg(c.n as int, 1, c.batch.count as int),
    )
}

/// Several rows against a packed weight, which is read once.
pub open spec fn q_rows_cmd(c: Common, codes: Arg, scales: Arg, a_rows: Arg) -> Cmd {
    launch(
        if c.m == 2 {
            Kernel::GemvQRows2
        } else if c.m == 3 {
            Kernel::GemvQRows3
        } else {
            Kernel::GemvQRows4
        },
        seq![
            c.w,
            c.quant.0,
            c.quant.2,
            codes,
            scales,
            a_rows,
            c.bias,
            c.out,
            num(c.m as int),
            num(c.k as int),
            num(c.n as int),
            long(c.batch.w as int),
            long(c.batch.out as int),
        ],
        matvec_cfg(c.n as int, 1, c.batch.count as int),
    )
}

/// The mat-vec with the plain epilogue: no activation function, and a fresh
/// `[batch, m, n]` output.
pub open spec fn gemv_cmd(
    c: Common,
    a: Arg,
    a_half: bool,
    codes: Arg,
    scales: Arg,
    a_rows: Arg,
) -> Cmd {
    launch(
        Kernel::Gemv,
        seq![
            a,
            c.w,
            c.bias,
            c.out,
            num(c.m as int),
            num(c.k as int),
            num(c.n as int),
            long(c.batch.a as int),
            long(c.batch.w as int),
            long(c.batch.out as int),
            flag(a_half),
            flag(c.w_half),
            c.quant.0,
            c.quant.1,
            c.quant.2,
            num(c.batch.w_row as int),
            codes,
            scales,
            a_rows,
            num(0),
            num(1),
            num(0),
            num(0),
            long(0),
        ],
        matvec_cfg(c.n as int, c.m as int, c.batch.count as int),
    )
}

/// The tiled float kernel.
pub open spec fn tiled_cmd(c: Common, a: Arg, a_half: bool, split: int, partial: Arg) -> Cmd {
    launch(
        Kernel::Gemm,
        seq![
            a,
            c.w,
            c.bias,
            c.out,
            num(c.m as int),
            num(c.k as int),
            num(c.n as int),
            long(c.batch.a as int),
            long(c.batch.w as int),
            long(c.batch.out as int),
            flag(a_half),
            flag(c.w_half),
            c.quant.0,
            c.quant.1,
            c.quant.2,
            num(c.batch.w_row as int),
            num(split),
            partial,
        ],
        LaunchConfig {
            grid_dim: (
                ceil_div((c.n as u32) as int, GEMM_NT as int) as u32,
                ceil_div((c.m as u32) as int, GEMM_MT as int) as u32,
                (c.batch.count * split) as u32,
            ),
            block_dim: (32, GEMM_WARPS, 1),
            shared_mem_bytes: 0,
        },
    )
}

/// An operand, from `offset` of its own units in.
pub open spec fn operand_arg(x: Operand<'_>, offset: int) -> Arg {
    match x {
        Operand::F32(v) => ptr_at(*v, offset),
        Operand::F16(v) => ptr_at(*v, offset),
        Operand::Q { data, ty: _ } => ptr_at(*data, offset),
        Operand::F32Q { data, q8: _ } => ptr_at(*data, offset),
    }
}

/// A warp an output column, eight of them a block.
pub open spec fn matvec_cfg(n: int, rows: int, count: int) -> LaunchConfig {
    LaunchConfig {
        grid_dim: (ceil_div(n, 8) as u32, rows as u32, count as u32),
        block_dim: (32, GEMV_WARPS, 1),
        shared_mem_bytes: 0,
    }
}

/// A mat-vec has a warp for every column of every row, and no block is without
/// a column.
pub proof fn every_column_has_a_warp(n: int, rows: int, count: int)
    requires
        0 < n <= u32::MAX,
        0 <= rows <= u32::MAX,
        0 <= count <= u32::MAX,
    ensures
        ({
            let cfg = matvec_cfg(n, rows, count);
            &&& cfg.grid_dim.0 * cfg.block_dim.1 >= n
            &&& (cfg.grid_dim.0 - 1) * cfg.block_dim.1 < n
            &&& cfg.grid_dim.1 == rows
            &&& cfg.grid_dim.2 == count
            &&& cfg.block_dim.0 == 32
        }),
{
    ceil_div_covers(n, 8);
}

/// One thread an output element sums its slices and adds the bias.
pub open spec fn reduce_launch(
    partial: CudaSlice<Fp32>,
    bias: Option<&CudaSlice<Fp32>>,
    out: CudaSlice<Fp32>,
    batch: int,
    m: int,
    n: int,
    ksplit: int,
) -> Cmd {
    launch(
        Kernel::GemmReduce,
        seq![
            ptr(partial),
            ptr_or_null(bias),
            ptr(out),
            num(m * n),
            num(n),
            num(batch),
            num(ksplit),
        ],
        elems_cfg(batch * m * n),
    )
}

/// An operand from `offset` of its own elements in.
pub(crate) fn operand_from(x: Operand<'_>, offset: usize) -> (r: Arg)
    requires
        offset <= x.spec_len(),
    ensures
        r == operand_arg(x, offset as int),
{
    match x {
        Operand::F32(v) => Arg::ptr_at(v, offset),
        Operand::F16(v) => Arg::ptr_at(v, offset),
        Operand::Q { data, ty: _ } => Arg::ptr_at(data, offset),
        Operand::F32Q { data, q8: _ } => Arg::ptr_at(data, offset),
    }
}

/// A launch of a warp an output column.
pub(crate) fn matvec(n: usize, rows: usize, count: usize) -> (cfg: LaunchConfig)
    ensures
        cfg == matvec_cfg(n as int, rows as int, count as int),
{
    LaunchConfig {
        grid_dim: (div_ceil(n, 8) as u32, rows as u32, count as u32),
        block_dim: (32, GEMV_WARPS, 1),
        shared_mem_bytes: 0,
    }
}

proof fn lemma_offset_within_need(skipped: int, rest: int, stride: int)
    requires
        0 <= skipped,
        0 <= rest,
        0 <= stride,
    ensures
        0 <= skipped * stride <= (skipped + rest) * stride,
{
    assert(0 <= skipped * stride <= (skipped + rest) * stride) by (nonlinear_arith)
        requires
            0 <= skipped,
            0 <= rest,
            0 <= stride,
    ;
}

proof fn lemma_one_product_fits(count: int, m: int, n: int)
    requires
        1 <= count,
        0 <= m,
        0 <= n,
    ensures
        m * n <= count * m * n,
{
    assert(m * n <= count * m * n) by (nonlinear_arith)
        requires
            1 <= count,
            0 <= m,
            0 <= n,
    ;
}

/// The refusals that come before anything is allocated.
fn early_refusal(
    a: Operand<'_>,
    w: Operand<'_>,
    w_first: usize,
    batch: Batch,
    m: usize,
    k: usize,
    n: usize,
) -> (r: Option<CudaError>)
    requires
        product(a, w, w_first, None, batch, m, k, n).checks_fit(),
    ensures
        r == product(a, w, w_first, None, batch, m, k, n).early_refusal(),
{
    let skipped: usize = w_first * k;
    let need: usize;
    match w {
        Operand::Q { data: _, ty } => {
            let bs: usize = ty.block_size();
            if skipped % bs != 0 {
                return Some(CudaError::RaggedBlock { k: skipped, block: bs });
            }
            proof {
                let (s, r) = (skipped as int / bs as int, n * k / bs as int);
                assert(n * k >= 0) by (nonlinear_arith)
                    requires
                        n >= 0,
                        k >= 0,
                ;
                assert(s + r <= (s + r) * ty.spec_device_stride()) by (nonlinear_arith)
                    requires
                        s + r >= 0,
                        ty.spec_device_stride() >= 1,
                ;
            }
            need = (skipped / bs + n * k / bs) * ty.device_stride();
        },
        _ => {
            need = skipped + n * k;
        },
    }
    if w_first > 0 && w.len() < need {
        return Some(CudaError::SliceOverrun { at: need, len: w.len() });
    }
    let odd_ok: bool = w.half() && a.full() && m <= GEMV_MAX_M;
    if (a.half() || w.half()) && k % 2 != 0 && !odd_ok {
        return Some(CudaError::RaggedContraction { k });
    }
    if a.quant().is_some() {
        return Some(CudaError::QuantizedActivation);
    }
    if let Some(q) = w.quant() {
        if k % q.block_size() != 0 {
            return Some(CudaError::RaggedBlock { k, block: q.block_size() });
        }
    }
    None
}

/// The refusals that come once the output is there.
fn late_refusal(
    a: Operand<'_>,
    w: Operand<'_>,
    w_first: usize,
    batch: Batch,
    m: usize,
    k: usize,
    n: usize,
) -> (r: Option<CudaError>)
    requires
        batch.count * m <= usize::MAX,
    ensures
        r == product(a, w, w_first, None, batch, m, k, n).late_refusal(),
{
    let strided_ok: bool = match w {
        Operand::F32(_) => true,
        Operand::F16(_) => true,
        _ => false,
    };
    if batch.w_row != 0 && !strided_ok {
        return Some(CudaError::StridedNonF32Weight { stride: batch.w_row });
    }
    if w.half() && batch.w_row % 2 != 0 {
        return Some(CudaError::OddCacheCapacity { cap: batch.w_row });
    }
    if let Some(q8) = a.q8() {
        let shared: bool = batch.count > 1 && batch.a == 0;
        let q_rows: usize = if shared { m } else { batch.count * m };
        let (rows, kk): (usize, usize) = q8.shape();
        if rows != q_rows || kk != k {
            return Some(
                CudaError::MismatchedQ8 { rows, k: kk, want_rows: q_rows, want_k: k },
            );
        }
    }
    None
}

impl Gpu {
    /// Whether every size that [`Gpu::gemm_batched_from`] gets to compute on these
    /// arguments is a number of this machine, and there is a product: what it asks
    /// of its callers.
    pub fn gemm_fits(
        a: Operand<'_>,
        w: Operand<'_>,
        w_first: usize,
        bias: Option<&CudaSlice<Fp32>>,
        batch: Batch,
        m: usize,
        k: usize,
        n: usize,
    ) -> (fits: bool)
        ensures
            fits == product(a, w, w_first, bias, batch, m, k, n).fits(),
    {
        let ghost g = product(a, w, w_first, bias, batch, m, k, n);
        proof {
            let h = product(a, w, w_first, None, batch, m, k, n);
            assert(g.early_refusal() == h.early_refusal());
            assert(g.late_refusal() == h.late_refusal());
        }
        if !product_fits(w_first, k) {
            return false;
        }
        let skipped: usize = w_first * k;
        match w {
            Operand::Q { data: _, ty } => {
                let bs: usize = ty.block_size();
                if skipped % bs == 0 {
                    if !product_fits(n, k) {
                        return false;
                    }
                    if !product_fits(skipped / bs + n * k / bs, ty.device_stride()) {
                        return false;
                    }
                }
            },
            _ => {
                if !product_fits(n, k) || !sum_fits(skipped, n * k) {
                    return false;
                }
            },
        }
        assert(g.checks_fit());
        if early_refusal(a, w, w_first, batch, m, k, n).is_some() {
            return true;
        }
        if !product_fits(batch.count, m) || !product_fits(batch.count * m, n) {
            return false;
        }
        if late_refusal(a, w, w_first, batch, m, k, n).is_some() {
            return true;
        }
        if batch.count == 0 {
            return false;
        }
        if !product_fits(batch.count - 1, batch.a) || !product_fits(m, k) || !sum_fits(
            (batch.count - 1) * batch.a,
            m * k,
        ) {
            return false;
        }
        let k_quant: bool = match w.quant() {
            Some(Quant::Q4K) => true,
            Some(Quant::Q6K) => true,
            _ => false,
        };
        let shared_a: bool = batch.count > 1 && batch.a == 0;
        let q_rows: usize = if shared_a { m } else { batch.count * m };
        if let Operand::F32(_) = a {
            if k_quant && k % 256 == 0 && !twin_fits(q_rows, k) {
                return false;
            }
        }
        if m <= GEMV_MAX_M {
            return true;
        }
        let (columns, rows): (usize, usize) = (
            div_ceil(n, GEMM_NT as usize),
            div_ceil(m, GEMM_MT as usize),
        );
        if !product_fits(columns, rows) || !product_fits(columns * rows, batch.count)
            || !sum_fits(columns * rows * batch.count, SM_TARGET) {
            return false;
        }
        let ksplit: usize = ksplit_for(m, k, n, batch.count);
        product_fits(ksplit, batch.count) && product_fits(ksplit * batch.count, m) && product_fits(
            ksplit * batch.count * m,
            n,
        )
    }
}

impl Gpu {
    /// Matrix product with the weight transposed, as a checkpoint stores it:
    /// `[m, k]` by `[n, k]` to `[m, n]`.
    ///
    /// Any `k` is accepted, including an odd one.
    pub fn gemm(
        &mut self,
        a: &CudaSlice<Fp32>,
        w: &CudaSlice<Fp32>,
        bias: Option<&CudaSlice<Fp32>>,
        m: usize,
        k: usize,
        n: usize,
    ) -> (r: Result<CudaSlice<Fp32>, CudaError>)
        requires
            m * n <= usize::MAX,
            product(
                Operand::F32(a),
                Operand::F32(w),
                0,
                bias,
                Batch::spec_single(m * n),
                m,
                k,
                n,
            ).fits(),
        ensures
            r == Ok::<CudaSlice<Fp32>, CudaError>(made(old(self)@.len() as int, m * n)),
            final(self)@ == old(self)@ + product(
                Operand::F32(a),
                Operand::F32(w),
                0,
                bias,
                Batch::spec_single(m * n),
                m,
                k,
                n,
            ).commands(old(self)@.len() as int),
            adds_bias_once(final(self)@, old(self)@.len() as int, bias),
            ({
                let asked = Gemm {
                    a: Operand::F32(a),
                    w: Operand::F32(w),
                    w_first: 0,
                    bias,
                    batch: (Batch { count: 1, a: 0, w: 0, out: (m * n) as usize, w_row: 0 }),
                    m: m as int,
                    k: k as int,
                    n: n as int,
                };
                sliced_ints_fit(asked)
                    ==> multiplies(final(self)@, asked, old(self)@.len() as int, r->Ok_0)
            }),
            r is Ok ==> made_in(final(self)@, r->Ok_0, Elem::F32, m * n),
    {
        self.gemm_batched(Operand::F32(a), Operand::F32(w), bias, Batch::single(m * n), m, k, n)
    }

    /// A batch of independent products, one per `blockIdx.z`.
    ///
    /// Attention is twenty of these per layer - one score matrix and one
    /// context per head - and the strides differ between the two, so they are
    /// arguments rather than a shape convention. Everything else is
    /// [`Gpu::gemm`], including the choice between the two kernels.
    pub fn gemm_batched(
        &mut self,
        a: Operand<'_>,
        w: Operand<'_>,
        bias: Option<&CudaSlice<Fp32>>,
        batch: Batch,
        m: usize,
        k: usize,
        n: usize,
    ) -> (r: Result<CudaSlice<Fp32>, CudaError>)
        requires
            a.wf(),
            product(a, w, 0, bias, batch, m, k, n).fits(),
        ensures
            match product(a, w, 0, bias, batch, m, k, n).refusal() {
                Some(e) => r == Err::<CudaSlice<Fp32>, CudaError>(e),
                None => r == Ok::<CudaSlice<Fp32>, CudaError>(
                    made(old(self)@.len() as int, batch.count * m * n),
                ),
            },
            final(self)@ == old(self)@ + product(a, w, 0, bias, batch, m, k, n).commands(
                old(self)@.len() as int,
            ),
            r is Ok ==> adds_bias_once(final(self)@, old(self)@.len() as int, bias),
            ({
                let asked = Gemm {
                    a,
                    w,
                    w_first: 0,
                    bias,
                    batch,
                    m: m as int,
                    k: k as int,
                    n: n as int,
                };
                r is Ok && sliced_ints_fit(asked)
                    ==> multiplies(final(self)@, asked, old(self)@.len() as int, r->Ok_0)
            }),
            r is Ok ==> made_in(final(self)@, r->Ok_0, Elem::F32, batch.count * m * n),
    {
        proof {
            let g = product(a, w, 0, bias, batch, m, k, n);
            if g.refusal() is None {
                the_bias_is_added_once(g, old(self)@.len() as int);
            }
            if g.refusal() is None && sliced_ints_fit(g) {
                every_product_is_summed(g, old(self)@.len() as int, old(self)@);
            }
        }
        self.gemm_batched_from(a, w, 0, bias, batch, m, k, n)
    }

    /// [`Gpu::gemm_batched`] with the weight read from row `w_first` of
    /// its allocation rather than from its start.
    ///
    /// This is what lets several projections of one activation live in one
    /// allocation and still be run one at a time. `w_first` counts rows, so the
    /// offset is a whole number of blocks for a packed weight and of elements
    /// otherwise.
    pub fn gemm_batched_from(
        &mut self,
        a: Operand<'_>,
        w: Operand<'_>,
        w_first: usize,
        bias: Option<&CudaSlice<Fp32>>,
        batch: Batch,
        m: usize,
        k: usize,
        n: usize,
    ) -> (r: Result<CudaSlice<Fp32>, CudaError>)
        requires
            a.wf(),
            product(a, w, w_first, bias, batch, m, k, n).fits(),
        ensures
            match product(a, w, w_first, bias, batch, m, k, n).refusal() {
                Some(e) => r == Err::<CudaSlice<Fp32>, CudaError>(e),
                None => r == Ok::<CudaSlice<Fp32>, CudaError>(
                    made(old(self)@.len() as int, batch.count * m * n),
                ),
            },
            final(self)@ == old(self)@ + product(a, w, w_first, bias, batch, m, k, n).commands(
                old(self)@.len() as int,
            ),
            r is Ok ==> adds_bias_once(final(self)@, old(self)@.len() as int, bias),
            ({
                let asked = Gemm {
                    a,
                    w,
                    w_first: w_first as int,
                    bias,
                    batch,
                    m: m as int,
                    k: k as int,
                    n: n as int,
                };
                r is Ok && sliced_ints_fit(asked)
                    ==> multiplies(final(self)@, asked, old(self)@.len() as int, r->Ok_0)
            }),
            r is Ok ==> made_in(final(self)@, r->Ok_0, Elem::F32, batch.count * m * n),
    {
        proof {
            let g = product(a, w, w_first, bias, batch, m, k, n);
            if g.refusal() is None {
                the_bias_is_added_once(g, old(self)@.len() as int);
            }
            if g.refusal() is None && sliced_ints_fit(g) {
                every_product_is_summed(g, old(self)@.len() as int, old(self)@);
            }
        }
        self.queue_product(a, w, w_first, bias, batch, m, k, n)
    }

    /// The commands of a product, in their order.
    #[verifier::rlimit(60)]
    fn queue_product(
        &mut self,
        a: Operand<'_>,
        w: Operand<'_>,
        w_first: usize,
        bias: Option<&CudaSlice<Fp32>>,
        batch: Batch,
        m: usize,
        k: usize,
        n: usize,
    ) -> (r: Result<CudaSlice<Fp32>, CudaError>)
        requires
            a.wf(),
            product(a, w, w_first, bias, batch, m, k, n).fits(),
        ensures
            match product(a, w, w_first, bias, batch, m, k, n).refusal() {
                Some(e) => r == Err::<CudaSlice<Fp32>, CudaError>(e),
                None => r == Ok::<CudaSlice<Fp32>, CudaError>(
                    made(old(self)@.len() as int, batch.count * m * n),
                ),
            },
            final(self)@ == old(self)@ + product(a, w, w_first, bias, batch, m, k, n).commands(
                old(self)@.len() as int,
            ),
            r is Ok ==> old(self)@.len() <= usize::MAX,
    {
        let ghost g = product(a, w, w_first, bias, batch, m, k, n);
        let ghost at = self@.len() as int;
        proof {
            assert(g.early_refusal() == product(
                a,
                w,
                w_first,
                None,
                batch,
                m,
                k,
                n,
            ).early_refusal());
            assert(g.late_refusal() == product(a, w, w_first, None, batch, m, k, n).late_refusal());
        }
        if let Some(e) = early_refusal(a, w, w_first, batch, m, k, n) {
            return Err(e);
        }
        let out = self.uninit(batch.count * m * n);
        if let Some(e) = late_refusal(a, w, w_first, batch, m, k, n) {
            return Err(e);
        }
        let small: bool = m <= GEMV_MAX_M;
        let k_quant: bool = match w.quant() {
            Some(Quant::Q4K) => true,
            Some(Quant::Q6K) => true,
            _ => false,
        };
        // The mat-vec's fast path and the tiled integer kernel read the same
        // codes in the same layout, so they share one quantisation.
        let int8: bool = a.full() && k_quant && k % 256 == 0;
        // A zero left-operand stride means every product of the batch reads the
        // same activation, so it is quantized once and the kernel is told to
        // stop advancing between products.
        let shared_a: bool = batch.count > 1 && batch.a == 0;
        let q_rows: usize = if shared_a { m } else { batch.count * m };
        let a_rows: usize = if shared_a { 0 } else { m };
        let taken: Option<Q8> = match a {
            Operand::F32(v) => if int8 {
                Some(self.quantize_into(v, k, q_rows, batch.a, m))
            } else {
                None
            },
            _ => None,
        };
        let twin: Option<&Q8> = if !int8 {
            None
        } else {
            match a.q8() {
                Some(q) => Some(q),
                None => taken.as_ref(),
            }
        };
        assert(int8 == g.int8());
        assert(twin is Some <==> g.int8());
        assert(g.int8() ==> *twin->0 == g.twin(at)->0 && twin->0.wf());
        // Split the contraction when the tile leaves the machine idle.
        let ksplit: usize = if small { 1 } else { ksplit_for(m, k, n, batch.count) };
        let partial: Option<CudaSlice<Fp32>> = if ksplit > 1 {
            Some(self.uninit(ksplit * batch.count * m * n))
        } else {
            None
        };
        assert(ksplit == g.split());
        assert(partial is Some <==> g.split() > 1);
        assert(g.split() > 1 ==> partial->0 == g.partial(at));
        // Round an f32 activation once rather than on every trip, and only over
        // what the kernel reads.
        let want: usize = (batch.count - 1) * batch.a + m * k;
        let widens: bool = a.full() && !small && !int8 && w.quant().is_some() && k % 2 == 0
            && batch.a % 2 == 0;
        let widened: Option<CudaSlice<u16>> = match a {
            Operand::F32(v) => if widens {
                Some(self.to_f16(v, lesser(want, v.len())))
            } else {
                None
            },
            Operand::F32Q { data: v, q8: _ } => if widens {
                Some(self.to_f16(v, lesser(want, v.len())))
            } else {
                None
            },
            _ => None,
        };
        assert(widens == g.widens());
        assert(widened is Some <==> g.widens());
        assert(self@ == old(self)@ + (seq![uninit(Elem::F32, g.out_len())] + g.twin_cmds(at)
            + g.partial_cmds() + g.widened_cmds(at)));
        let w_offset: usize = if w_first > 0 {
            match w {
                Operand::Q { data: _, ty } => {
                    proof {
                        assert(n * k >= 0) by (nonlinear_arith)
                            requires
                                n >= 0,
                                k >= 0,
                        ;
                        lemma_offset_within_need(
                            g.skipped() / ty.spec_block_size(),
                            n * k / ty.spec_block_size(),
                            ty.spec_device_stride(),
                        );
                    }
                    w_first * k / ty.block_size() * ty.device_stride()
                },
                _ => w_first * k,
            }
        } else {
            0
        };
        proof {
            assert(n * k >= 0) by (nonlinear_arith)
                requires
                    n >= 0,
                    k >= 0,
            ;
        }
        let w_arg: Arg = operand_from(w, w_offset);
        let (w_quant, q_bs, q_ts): (Arg, Arg, Arg) = match w.quant() {
            Some(q) => (
                Arg::I32(q.id()),
                Arg::num(q.block_size()),
                Arg::num(q.device_stride()),
            ),
            None => (Arg::I32(0), Arg::I32(0), Arg::I32(0)),
        };
        let c = Common {
            w: w_arg,
            bias: Arg::ptr_or_null(bias),
            out: Arg::ptr(&out),
            m,
            k,
            n,
            batch,
            w_half: w.half(),
            quant: (w_quant, q_bs, q_ts),
        };
        assert(c == g.common(at));
        let partial_arg: Arg = Arg::ptr_or_null(partial.as_ref());
        assert(partial_arg == g.partial_arg(at));
        let (codes, scales): (Arg, Arg) = match twin {
            Some(q) => (Arg::ptr(&q.buf), Arg::num(q.scale_offset())),
            None => (Arg::Null, Arg::num(0)),
        };
        // Several rows against an unpacked weight read that weight once.
        let unpacked: bool = match w {
            Operand::F32(_) => true,
            Operand::F16(_) => true,
            _ => false,
        };
        proof {
            lemma_one_product_fits(batch.count as int, m as int, n as int);
            assert(batch.count * ksplit == ksplit * batch.count) by (nonlinear_arith);
        }
        if int8 && !small {
            let q6k: bool = match w.quant() {
                Some(Quant::Q6K) => true,
                _ => false,
            };
            self.launch_i8(c, q6k, codes, scales, Arg::num(a_rows), ksplit, partial_arg);
        } else if small && m > 1 && w_first == 0 && unpacked && a.full() {
            self.launch_rows(c, operand_from(a, 0));
        } else if small && m > 1 && int8 {
            self.launch_q_rows(c, codes, scales, Arg::num(a_rows));
        } else if small {
            self.launch_gemv(c, operand_from(a, 0), a.half(), codes, scales, Arg::num(a_rows));
        } else {
            let a_arg: Arg = match &widened {
                Some(h) => Arg::ptr(h),
                None => operand_from(a, 0),
            };
            self.launch_tiled(c, a_arg, widens || a.half(), ksplit, partial_arg);
        }
        assert(self@ == old(self)@ + (seq![uninit(Elem::F32, g.out_len())] + g.twin_cmds(at)
            + g.partial_cmds() + g.widened_cmds(at) + seq![g.main_launch(at)]));
        if let Some(p) = &partial {
            self.reduce_partials(p, bias, &out, batch.count, m, n, ksplit);
        }
        Ok(out)
    }

    fn launch_i8(
        &mut self,
        c: Common,
        q6k: bool,
        codes: Arg,
        scales: Arg,
        a_rows: Arg,
        split: usize,
        partial: Arg,
    )
        requires
            c.batch.count * split <= usize::MAX,
        ensures
            final(self)@ == old(self)@.push(
                i8_cmd(c, q6k, codes, scales, a_rows, split as int, partial),
            ),
    {
        // A block computes its tile's rows whether `m` has them or not, so the
        // narrow tile is right exactly when the wide one would be computing a
        // majority of nothing.
        let narrow: bool = c.m <= GEMM_I8_MT_NARROW as usize;
        let mt: u32 = if narrow { GEMM_I8_MT_NARROW } else { GEMM_I8_MT };
        let kernel: Kernel = match (q6k, narrow) {
            (true, true) => Kernel::GemmI8Q6kNarrow,
            (true, false) => Kernel::GemmI8Q6k,
            (false, true) => Kernel::GemmI8Q4kNarrow,
            (false, false) => Kernel::GemmI8Q4k,
        };
        let cfg = LaunchConfig {
            grid_dim: (
                div_ceil_u32(c.m as u32, mt),
                div_ceil_u32(c.n as u32, GEMM_I8_NT),
                (c.batch.count * split) as u32,
            ),
            block_dim: (32, GEMM_I8_WARPS, 1),
            shared_mem_bytes: 0,
        };
        self.launch(
            kernel,
            vec![
                codes,
                scales,
                c.w,
                c.bias,
                c.out,
                Arg::num(c.m),
                Arg::num(c.k),
                Arg::num(c.n),
                Arg::long(c.batch.w),
                Arg::long(c.batch.out),
                c.quant.2,
                a_rows,
                Arg::num(split),
                partial,
            ],
            cfg,
        );
    }

    fn launch_rows(&mut self, c: Common, a: Arg)
        ensures
            final(self)@ == old(self)@.push(rows_cmd(c, a)),
    {
        self.launch(
            Kernel::GemvRows,
            vec![
                a,
                c.w,
                c.bias,
                c.out,
                Arg::num(c.m),
                Arg::num(c.k),
                Arg::num(c.n),
                Arg::long(c.batch.a),
                Arg::long(c.batch.w),
                Arg::long(c.batch.out),
                Arg::num(c.batch.w_row),
                Arg::flag(c.w_half),
            ],
            matvec(c.n, 1, c.batch.count),
        );
    }

    fn launch_q_rows(&mut self, c: Common, codes: Arg, scales: Arg, a_rows: Arg)
        ensures
            final(self)@ == old(self)@.push(q_rows_cmd(c, codes, scales, a_rows)),
    {
        let kernel: Kernel = match c.m {
            2 => Kernel::GemvQRows2,
            3 => Kernel::GemvQRows3,
            _ => Kernel::GemvQRows4,
        };
        self.launch(
            kernel,
            vec![
                c.w,
                c.quant.0,
                c.quant.2,
                codes,
                scales,
                a_rows,
                c.bias,
                c.out,
                Arg::num(c.m),
                Arg::num(c.k),
                Arg::num(c.n),
                Arg::long(c.batch.w),
                Arg::long(c.batch.out),
            ],
            matvec(c.n, 1, c.batch.count),
        );
    }

    fn launch_gemv(
        &mut self,
        c: Common,
        a: Arg,
        a_half: bool,
        codes: Arg,
        scales: Arg,
        a_rows: Arg,
    )
        ensures
            final(self)@ == old(self)@.push(gemv_cmd(c, a, a_half, codes, scales, a_rows)),
    {
        self.launch(
            Kernel::Gemv,
            vec![
                a,
                c.w,
                c.bias,
                c.out,
                Arg::num(c.m),
                Arg::num(c.k),
                Arg::num(c.n),
                Arg::long(c.batch.a),
                Arg::long(c.batch.w),
                Arg::long(c.batch.out),
                Arg::flag(a_half),
                Arg::flag(c.w_half),
                c.quant.0,
                c.quant.1,
                c.quant.2,
                Arg::num(c.batch.w_row),
                codes,
                scales,
                a_rows,
                Arg::num(0),
                Arg::num(1),
                Arg::num(0),
                Arg::num(0),
                Arg::long(0),
            ],
            matvec(c.n, c.m, c.batch.count),
        );
    }

    fn launch_tiled(&mut self, c: Common, a: Arg, a_half: bool, split: usize, partial: Arg)
        requires
            c.batch.count * split <= usize::MAX,
        ensures
            final(self)@ == old(self)@.push(tiled_cmd(c, a, a_half, split as int, partial)),
    {
        let cfg = LaunchConfig {
            grid_dim: (
                div_ceil_u32(c.n as u32, GEMM_NT),
                div_ceil_u32(c.m as u32, GEMM_MT),
                (c.batch.count * split) as u32,
            ),
            block_dim: (32, GEMM_WARPS, 1),
            shared_mem_bytes: 0,
        };
        self.launch(
            Kernel::Gemm,
            vec![
                a,
                c.w,
                c.bias,
                c.out,
                Arg::num(c.m),
                Arg::num(c.k),
                Arg::num(c.n),
                Arg::long(c.batch.a),
                Arg::long(c.batch.w),
                Arg::long(c.batch.out),
                Arg::flag(a_half),
                Arg::flag(c.w_half),
                c.quant.0,
                c.quant.1,
                c.quant.2,
                Arg::num(c.batch.w_row),
                Arg::num(split),
                partial,
            ],
            cfg,
        );
    }

    /// Sums a split contraction's slices and adds the bias.
    ///
    /// Shared by both tiled kernels: they disagree about everything else and
    /// agree about what a partial looks like.
    fn reduce_partials(
        &mut self,
        partial: &CudaSlice<Fp32>,
        bias: Option<&CudaSlice<Fp32>>,
        out: &CudaSlice<Fp32>,
        batch: usize,
        m: usize,
        n: usize,
        ksplit: usize,
    )
        requires
            batch * m <= usize::MAX,
            batch * m * n <= usize::MAX,
            m * n <= usize::MAX,
        ensures
            final(self)@ == old(self)@.push(
                reduce_launch(
                    *partial,
                    bias,
                    *out,
                    batch as int,
                    m as int,
                    n as int,
                    ksplit as int,
                ),
            ),
    {
        self.launch(
            Kernel::GemmReduce,
            vec![
                Arg::ptr(partial),
                Arg::ptr_or_null(bias),
                Arg::ptr(out),
                Arg::num(m * n),
                Arg::num(n),
                Arg::num(batch),
                Arg::num(ksplit),
            ],
            LaunchConfig::for_num_elems(batch * m * n),
        );
    }
}

/// A matmul that is refused launches nothing: at most its output was made.
pub proof fn refused_products_launch_nothing(g: Gemm<'_>, at: int, i: int)
    requires
        g.refusal() is Some,
        0 <= i < g.commands(at).len(),
    ensures
        g.commands(at)[i] is Alloc,
        g.commands(at).len() <= 1,
{
}

/// A matmul that is not refused is one launch of the product, preceded by what
/// it needs and followed by a sum exactly where the contraction is split.
pub proof fn accepted_products_launch_once(g: Gemm<'_>, at: int)
    requires
        g.refusal() is None,
    ensures
        ({
            let c = g.commands(at);
            let before = 1 + g.twin_cmds(at).len() + g.partial_cmds().len() + g.widened_cmds(
                at,
            ).len();
            &&& c[0] == uninit(Elem::F32, g.out_len())
            &&& c[before as int] == g.main_launch(at)
            &&& g.split() > 1 <==> c.len() == before + 2
            &&& g.split() <= 1 <==> c.len() == before + 1
        }),
{
}

/// The launch configuration of a command that is a launch.
pub open spec fn launch_cfg(c: Cmd) -> LaunchConfig {
    c->cfg
}

/// Output elements one block of a product's launch owns, along the grid's axes:
/// columns then rows for the mat-vecs and the tiled kernel, rows then columns
/// for the integer one.
pub open spec fn block_tile(g: Gemm<'_>) -> (int, int) {
    if g.int8() && !g.small() {
        (
            if g.m <= GEMM_I8_MT_NARROW {
                GEMM_I8_MT_NARROW as int
            } else {
                GEMM_I8_MT as int
            },
            GEMM_I8_NT as int,
        )
    } else if g.rows_path() || g.q_rows_path() {
        (8, g.m)
    } else if g.small() {
        (8, 1)
    } else {
        (GEMM_NT as int, GEMM_MT as int)
    }
}

/// The output's extent along the same axes.
pub open spec fn output_extent(g: Gemm<'_>) -> (int, int) {
    if g.int8() && !g.small() {
        (g.m, g.n)
    } else {
        (g.n, g.m)
    }
}

/// The grid covers every output element: each falls to the one block whose tile
/// it is in, that block is in the grid, and no block is without an element.
pub proof fn the_grid_covers_the_output(g: Gemm<'_>, at: int, x: int, y: int)
    requires
        0 < g.m <= u32::MAX,
        0 < g.n <= u32::MAX,
        0 <= x < output_extent(g).0,
        0 <= y < output_extent(g).1,
    ensures
        ({
            let grid = launch_cfg(g.main_launch(at)).grid_dim;
            let (tx, ty) = block_tile(g);
            let (ex, ey) = output_extent(g);
            &&& 0 <= x / tx < grid.0
            &&& 0 <= y / ty < grid.1
            &&& (grid.0 - 1) * tx < ex
            &&& (grid.1 - 1) * ty < ey
        }),
{
    let (tx, ty) = block_tile(g);
    let (ex, ey) = output_extent(g);
    ceil_div_covers(ex, tx);
    ceil_div_covers(ey, ty);
    lemma_tile_of(x, tx, ceil_div(ex, tx), ex);
    lemma_tile_of(y, ty, ceil_div(ey, ty), ey);
    if g.rows_path() || g.q_rows_path() {
        assert(ceil_div(g.m, g.m) == 1) by (nonlinear_arith)
            requires
                g.m > 0,
                ceil_div(g.m, g.m) == (g.m + g.m - 1) / g.m,
        ;
    }
    assert(ceil_div(g.m, 1) == g.m);
}

proof fn lemma_tile_of(x: int, tile: int, tiles: int, extent: int)
    requires
        0 <= x < extent,
        0 < tile,
        tiles * tile >= extent,
    ensures
        0 <= x / tile < tiles,
{
    vstd::arithmetic::div_mod::lemma_fundamental_div_mod(x, tile);
    let q = x / tile;
    assert(0 <= q < tiles) by (nonlinear_arith)
        requires
            x == tile * q + x % tile,
            0 <= x % tile < tile,
            0 <= x < extent,
            tiles * tile >= extent,
            0 < tile,
    ;
}

/// The grid's last axis has a layer for every product, and for every slice of
/// it where the contraction is split.
pub proof fn the_grid_covers_the_batch(g: Gemm<'_>, at: int)
    requires
        1 <= g.batch.count,
        g.batch.count * g.split() <= u32::MAX,
    ensures
        launch_cfg(g.main_launch(at)).grid_dim.2 == g.batch.count * g.split(),
{
    if g.small() {
        assert(g.split() == 1);
    }
}

/// Projections that share an allocation lie end to end: the rows of one end
/// where the rows after it start.
pub proof fn stacked_projections_abut(g: Gemm<'_>)
    requires
        0 <= g.w_first,
        0 <= g.n,
        0 <= g.k,
        g.w is Q ==> g.k % g.w->ty.spec_block_size() == 0,
    ensures
        g.w_need() == (Gemm { w_first: g.w_first + g.n, ..g }).w_offset(),
{
    assert((g.w_first + g.n) * g.k == g.w_first * g.k + g.n * g.k) by (nonlinear_arith);
    match g.w {
        Operand::Q { data: _, ty } => {
            let bs = ty.spec_block_size();
            let (a, b) = (g.w_first * g.k, g.n * g.k);
            lemma_whole_blocks(g.w_first, g.k, bs);
            lemma_whole_blocks(g.n, g.k, bs);
            assert((a + b) / bs == a / bs + b / bs);
        },
        _ => {},
    }
}

proof fn lemma_whole_blocks(rows: int, k: int, bs: int)
    requires
        0 <= rows,
        0 <= k,
        bs == 32 || bs == 256,
        k % bs == 0,
    ensures
        (rows * k) % bs == 0,
{
    vstd::arithmetic::div_mod::lemma_fundamental_div_mod(k, bs);
    let q = k / bs;
    assert(rows * k == bs * (rows * q)) by (nonlinear_arith)
        requires
            k == bs * q,
    ;
    vstd::arithmetic::div_mod::lemma_mod_multiples_basic(rows * q, bs);
    assert((rows * q) * bs == bs * (rows * q)) by (nonlinear_arith);
}

/// A projection that starts inside its allocation and is not refused ends
/// inside it.
pub proof fn accepted_offsets_stay_inside(g: Gemm<'_>)
    requires
        g.refusal() is None,
        g.w_first > 0,
        0 <= g.n,
        0 <= g.k,
    ensures
        0 <= g.w_offset() <= g.w_need() <= g.w.spec_len(),
{
    assert(g.w_first * g.k >= 0 && g.n * g.k >= 0) by (nonlinear_arith)
        requires
            g.w_first > 0,
            0 <= g.n,
            0 <= g.k,
    ;
    match g.w {
        Operand::Q { data: _, ty } => {
            lemma_offset_within_need(
                g.skipped() / ty.spec_block_size(),
                g.n * g.k / ty.spec_block_size(),
                ty.spec_device_stride(),
            );
        },
        _ => {},
    }
}

/// A twin is refused by a matmul exactly where it was taken at another shape.
pub proof fn twins_are_told_by_their_shape(g: Gemm<'_>)
    requires
        g.a is F32Q,
        g.batch.w_row == 0,
    ensures
        g.late_refusal() is None <==> g.a->q8.rows == g.q_rows() && g.a->q8.k == g.k,
{
}

/// The scalar path never carries more rows than its shared-weight kernels take.
pub proof fn shared_weight_rows_are_bounded(g: Gemm<'_>)
    requires
        g.rows_path() || g.q_rows_path(),
    ensures
        2 <= g.m <= GEMV_ROWS_MAX,
        2 <= g.m <= GEMV_Q_ROWS,
{
}

/// A product from the first row is the product over the whole weight: it starts
/// where the weight does, and neither of the refusals of an offset comes. It is
/// what [`Gpu::gemm_batched`] asks for, of every kind of operand.
pub proof fn the_first_row_is_the_start(g: Gemm<'_>)
    requires
        g.w_first == 0,
    ensures
        g.skipped() == 0,
        g.w_arg() == operand_arg(g.w, 0),
        !(g.refusal() matches Some(CudaError::SliceOverrun { .. })),
{
    assert(0 * g.k == 0) by (nonlinear_arith);
}

/// Where the weight stands among a product's arguments.
pub open spec fn weight_place(g: Gemm<'_>) -> int {
    if g.int8() && !g.small() {
        2
    } else if g.q_rows_path() {
        0
    } else {
        1
    }
}

/// A product read from a row of its weight is the product over the weight cut
/// there: the same commands, but that the one launch starts at that row of the
/// whole weight, where the other starts at the start of the cut.
///
/// `cut` is a weight of the same kind. Several rows against an unpacked weight are
/// left out: from its first row they share one stream of it, and from any other
/// they do not.
pub proof fn a_row_offset_moves_only_the_weight<'a>(g: Gemm<'a>, cut: Operand<'a>, at: int)
    requires
        g.refusal() is None,
        g.w_first > 0,
        g.w is F32 <==> cut is F32,
        g.w is F16 <==> cut is F16,
        g.w is F32Q <==> cut is F32Q,
        g.w.spec_quant() == cut.spec_quant(),
        !(Gemm { w: cut, w_first: 0, ..g }).rows_path(),
    ensures
        ({
            let h = Gemm { w: cut, w_first: 0, ..g };
            let main = (1 + g.twin_cmds(at).len() + g.partial_cmds().len() + g.widened_cmds(
                at,
            ).len()) as int;
            let whole = g.commands(at);
            &&& h.refusal() is None
            &&& h.main_launch(at)->args[weight_place(g)] == operand_arg(cut, 0)
            &&& g.w_arg() == operand_arg(g.w, g.w_offset())
            &&& (g.w is F32 || g.w is F16) ==> g.w_offset() == g.w_first * g.k
            &&& 0 < main < whole.len()
            &&& whole == h.commands(at).update(
                main,
                Cmd::Launch {
                    kernel: h.main_launch(at)->kernel,
                    label: h.main_launch(at)->label,
                    args: h.main_launch(at)->args.update(weight_place(g), g.w_arg()),
                    cfg: h.main_launch(at)->cfg,
                },
            )
        }),
{
    let h = Gemm { w: cut, w_first: 0, ..g };
    lemma_cut_is_accepted(g, cut, at);
    lemma_cut_launch(g, cut, at);
    let moved = Cmd::Launch {
        kernel: h.main_launch(at)->kernel,
        label: h.main_launch(at)->label,
        args: h.main_launch(at)->args.update(weight_place(g), g.w_arg()),
        cfg: h.main_launch(at)->cfg,
    };
    let main = (1 + g.twin_cmds(at).len() + g.partial_cmds().len() + g.widened_cmds(at).len())
        as int;
    assert(g.commands(at) =~= h.commands(at).update(main, moved));
}

proof fn lemma_cut_is_accepted<'a>(g: Gemm<'a>, cut: Operand<'a>, at: int)
    requires
        g.refusal() is None,
        g.w_first > 0,
        g.w is F32 <==> cut is F32,
        g.w is F16 <==> cut is F16,
        g.w is F32Q <==> cut is F32Q,
        g.w.spec_quant() == cut.spec_quant(),
    ensures
        ({
            let h = Gemm { w: cut, w_first: 0, ..g };
            &&& h.refusal() is None
            &&& h.w_arg() == operand_arg(cut, 0)
            &&& h.int8() == g.int8() && h.widens() == g.widens() && h.split() == g.split()
            &&& h.twin(at) == g.twin(at)
            &&& h.common(at) == (Common { w: operand_arg(cut, 0), ..g.common(at) })
        }),
{
    let h = Gemm { w: cut, w_first: 0, ..g };
    the_first_row_is_the_start(h);
    assert(g.w is Q ==> 0int % g.w->ty.spec_block_size() == 0);
    assert(h.refusal() is None);
    assert(h.int8() == g.int8() && h.widens() == g.widens() && h.split() == g.split());
    assert(h.twin(at) == g.twin(at));
}

#[verifier::spinoff_prover]
#[verifier::rlimit(60)]
proof fn lemma_cut_launch<'a>(g: Gemm<'a>, cut: Operand<'a>, at: int)
    requires
        g.refusal() is None,
        g.w_first > 0,
        g.w is F32 <==> cut is F32,
        g.w is F16 <==> cut is F16,
        g.w is F32Q <==> cut is F32Q,
        g.w.spec_quant() == cut.spec_quant(),
        !(Gemm { w: cut, w_first: 0, ..g }).rows_path(),
    ensures
        ({
            let h = Gemm { w: cut, w_first: 0, ..g };
            &&& h.main_launch(at)->args[weight_place(g)] == operand_arg(cut, 0)
            &&& g.main_launch(at) == Cmd::Launch {
                kernel: h.main_launch(at)->kernel,
                label: h.main_launch(at)->label,
                args: h.main_launch(at)->args.update(weight_place(g), g.w_arg()),
                cfg: h.main_launch(at)->cfg,
            }
        }),
{
    let h = Gemm { w: cut, w_first: 0, ..g };
    lemma_cut_is_accepted(g, cut, at);
    assert(g.main_launch(at)->args =~= h.main_launch(at)->args.update(
        weight_place(g),
        g.w_arg(),
    ));
}

/// A launch of this product's, with the strides of another batch in the places of
/// its own: between weights and between outputs, and between activations where the
/// kernel is told of them.
pub open spec fn restrided(g: Gemm<'_>, c: Cmd, b: Batch) -> Cmd {
    let args = c->args;
    Cmd::Launch {
        kernel: c->kernel,
        label: c->label,
        args: if g.int8() && !g.small() {
            args.update(8, long(b.w as int)).update(9, long(b.out as int))
        } else if g.q_rows_path() {
            args.update(11, long(b.w as int)).update(12, long(b.out as int))
        } else {
            args.update(7, long(b.a as int)).update(8, long(b.w as int)).update(
                9,
                long(b.out as int),
            )
        },
        cfg: c->cfg,
    }
}

/// What this product queues to have its twin, with the stride of another batch in
/// the place of its own.
pub open spec fn twin_restrided(g: Gemm<'_>, at: int, b: Batch) -> Seq<Cmd> {
    let cmds = g.twin_cmds(at);
    if cmds.len() == 0 {
        cmds
    } else {
        cmds.update(
            1,
            Cmd::Launch {
                kernel: cmds[1]->kernel,
                label: cmds[1]->label,
                args: cmds[1]->args.update(5, long(b.a as int)),
                cfg: cmds[1]->cfg,
            },
        )
    }
}

/// A product on its own is the same product whatever its strides are: it is refused
/// for the same reason, computes the same sizes, and queues the same commands but
/// for the strides it passes on. The kernels multiply those by the number of a
/// product, and there is none past the first: the grid of the product has a layer
/// a slice of the contraction, and the twin has the rows of one activation.
///
/// Whether the activation is rounded up front goes by the parity of its stride, so
/// both are to round it or neither, as strides of one parity do.
pub proof fn one_product_ignores_its_strides(
    g: Gemm<'_>,
    a: usize,
    w: usize,
    out: usize,
    at: int,
)
    requires
        g.batch.count == 1,
        (Gemm { batch: Batch { a, w, out, ..g.batch }, ..g }).widens() == g.widens(),
    ensures
        ({
            let h = Gemm { batch: Batch { a, w, out, ..g.batch }, ..g };
            &&& h.refusal() == g.refusal()
            &&& h.fits() == g.fits()
            &&& g.refusal() is Some ==> h.commands(at) == g.commands(at)
            &&& g.refusal() is None ==> h.commands(at) == seq![uninit(Elem::F32, g.out_len())]
                + twin_restrided(g, at, h.batch) + g.partial_cmds() + g.widened_cmds(at)
                + seq![restrided(g, g.main_launch(at), h.batch)] + g.reduce_cmds(at)
            &&& launch_cfg(g.main_launch(at)).grid_dim.2 == g.split() as u32
            &&& g.q_rows() == g.m
            &&& g.a_span() == g.m * g.k
        }),
{
    let h = Gemm { batch: Batch { a, w, out, ..g.batch }, ..g };
    lemma_one_product(g);
    lemma_one_product(h);
    assert(h.early_refusal() == g.early_refusal());
    assert(h.late_refusal() == g.late_refusal());
    assert(h.twin(at) == g.twin(at));
    if g.int8() && g.a is F32 {
        let (of_h, of_g) = (h.twin_cmds(at)[1], g.twin_cmds(at)[1]);
        assert(of_h->args =~= of_g->args.update(5, long(a as int)));
    }
    assert(h.twin_cmds(at) =~= twin_restrided(g, at, h.batch));
    assert(h.widened_cmds(at) == g.widened_cmds(at));
    lemma_restrided(g, a, w, out, at);
}

proof fn lemma_one_product(g: Gemm<'_>)
    requires
        g.batch.count == 1,
    ensures
        g.all_rows() == g.m,
        g.q_rows() == g.m,
        g.a_rows() == g.m,
        (g.batch.count - 1) * g.batch.a == 0,
        g.a_span() == g.m * g.k,
{
    assert((g.batch.count - 1) * g.batch.a == 0) by (nonlinear_arith)
        requires
            g.batch.count == 1,
    ;
    assert(1 * g.m == g.m);
}

#[verifier::spinoff_prover]
proof fn lemma_restrided(g: Gemm<'_>, a: usize, w: usize, out: usize, at: int)
    requires
        g.batch.count == 1,
        (Gemm { batch: Batch { a, w, out, ..g.batch }, ..g }).widens() == g.widens(),
    ensures
        ({
            let h = Gemm { batch: Batch { a, w, out, ..g.batch }, ..g };
            &&& h.main_launch(at) == restrided(g, g.main_launch(at), h.batch)
            &&& launch_cfg(g.main_launch(at)).grid_dim.2 == g.split() as u32
        }),
{
    let h = Gemm { batch: Batch { a, w, out, ..g.batch }, ..g };
    lemma_one_product(g);
    lemma_one_product(h);
    assert(h.common(at) == (Common { batch: h.batch, ..g.common(at) }));
    assert(h.twin(at) == g.twin(at));
    assert(h.main_launch(at)->args =~= restrided(g, g.main_launch(at), h.batch)->args);
}

/// Where the codes of a twin stand among the arguments of a kernel that reads them.
pub open spec fn codes_place(g: Gemm<'_>) -> int {
    if !g.small() {
        0
    } else if g.q_rows_path() {
        3
    } else {
        16
    }
}

/// A launch that reads a twin, with other codes and another scratch for the slices
/// of the contraction in the places of its own.
pub open spec fn with_twin(g: Gemm<'_>, c: Cmd, codes: Arg, partial: Arg) -> Cmd {
    let args = c->args.update(codes_place(g), codes);
    Cmd::Launch {
        kernel: c->kernel,
        label: c->label,
        args: if g.small() {
            args
        } else {
            args.update(13, partial)
        },
        cfg: c->cfg,
    }
}

/// An activation with its twin is the activation: it is refused where the plain one
/// is and for the same reason, and besides only for a twin of another shape. Where
/// no integer kernel reads the twin, the commands are those of the plain one; where
/// one does, they are those without the two that would take it, and the launch reads
/// the codes that were handed over.
pub proof fn a_twin_stands_in_for_taking_it<'a>(
    g: Gemm<'a>,
    data: &'a CudaSlice<Fp32>,
    q8: &'a Q8,
    at: int,
)
    requires
        g.a == Operand::F32(data),
    ensures
        ({
            let h = Gemm { a: Operand::F32Q { data, q8 }, ..g };
            &&& g.refusal() is Some ==> h.refusal() == g.refusal() && h.commands(at)
                == g.commands(at)
            &&& g.refusal() is None ==> (h.refusal() is None <==> q8.rows == g.q_rows() && q8.k
                == g.k)
            &&& h.refusal() is None && !g.int8() ==> h.commands(at) == g.commands(at)
            &&& h.refusal() is None && g.int8() ==> {
                &&& g.twin_cmds(at).len() == 2
                &&& h.commands(at) == seq![uninit(Elem::F32, g.out_len())] + g.partial_cmds()
                    + seq![with_twin(g, g.main_launch(at), ptr(q8.buf), h.partial_arg(at))]
                    + h.reduce_cmds(at)
                &&& h.partial_at(at) == at + 1
            }
        }),
{
    let h = Gemm { a: Operand::F32Q { data, q8 }, ..g };
    assert(h.early_refusal() == g.early_refusal());
    assert(h.common(at) == g.common(at));
    if h.refusal() is None && !g.int8() {
        assert(h.twin_cmds(at) == g.twin_cmds(at));
        assert(h.main_launch(at) == g.main_launch(at));
    }
    if h.refusal() is None && g.int8() {
        lemma_with_twin(g, data, q8, at);
        assert(h.commands(at) =~= seq![uninit(Elem::F32, g.out_len())] + g.partial_cmds() + seq![
            with_twin(g, g.main_launch(at), ptr(q8.buf), h.partial_arg(at)),
        ] + h.reduce_cmds(at));
    }
}

#[verifier::spinoff_prover]
proof fn lemma_with_twin<'a>(g: Gemm<'a>, data: &'a CudaSlice<Fp32>, q8: &'a Q8, at: int)
    requires
        g.a == Operand::F32(data),
        g.int8(),
        (Gemm { a: Operand::F32Q { data, q8 }, ..g }).refusal() is None,
    ensures
        ({
            let h = Gemm { a: Operand::F32Q { data, q8 }, ..g };
            h.main_launch(at) == with_twin(
                g,
                g.main_launch(at),
                ptr(q8.buf),
                h.partial_arg(at),
            )
        }),
{
    let h = Gemm { a: Operand::F32Q { data, q8 }, ..g };
    let t = g.twin(at)->0;
    assert(h.common(at) == g.common(at));
    assert(t.rows == q8.rows && t.k == q8.k);
    assert(h.main_launch(at)->args =~= with_twin(
        g,
        g.main_launch(at),
        ptr(q8.buf),
        h.partial_arg(at),
    )->args);
}

} // verus!
