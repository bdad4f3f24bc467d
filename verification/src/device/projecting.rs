//! Products: which row of an activation meets which row of a weight, over which part of the
//! contraction, with which bias, and where the sum goes.

use super::{
    arg_at, arg_float, arg_given, arg_int, at, flat2, flat3, has_threads, int_fits, lemma_flat2,
    lemma_flat_runs, lemma_rows, maybe_at, stored, Fun, Place, Store,
};
use crate::arith::{ceil_div, ceil_div_covers};
use crate::buffer::{CudaSlice, Elem, FloatBits, Fp32};
use crate::gemm::{every_column_has_a_warp, Gemm};
use crate::gemv::{GemvLn, GemvNorm, OutLayout, PlacedGemv, Qkv};
use crate::launch::elems_cover;
use crate::names::Kernel;
use crate::operand::{q8_bytes, Operand, Q8};
use crate::quant::Quant;
use crate::quantize::{quantize_cmds, to_f16_cmds};
use crate::queue::{made, made_in, Cmd};
use crate::scratch::NormScratch;
use crate::split::ksplit_is_bounded;
use vstd::arithmetic::mul::{lemma_mul_is_associative, lemma_mul_is_distributive_add_other_way};
use vstd::math::min;
use vstd::prelude::*;

verus! {

/// A row of an activation, from its first element on.
pub enum Left {
    Floats(Option<Place>),
    Halves(Option<Place>),
    /// Row `row` of a twin: its codes, and where in the buffer the scales of all rows start.
    Codes { codes: Option<Place>, scales: int, row: int },
}

/// A row of a weight, from its first element on.
pub enum Right {
    Floats(Option<Place>),
    Halves(Option<Place>),
    /// Row `row` of packed blocks.
    Blocks { from: Option<Place>, row: int, format: int, block: int, stride: int },
}

/// One sum of products.
pub struct Summed {
    pub left: Left,
    pub right: Right,
    /// The first element of the contraction that is in it.
    pub from: int,
    /// The first that is not.
    pub until: int,
    /// What is added to it.
    pub bias: Option<Place>,
    /// Whether the GELU of it is taken.
    pub gelu: bool,
    pub to: Option<Place>,
}

/// The id of a block format that the integer kernels read.
pub open spec fn is_k_quant(format: int) -> bool {
    format == 12 || format == 14
}

/// Row `col` of the weight of product `b`, as the kernels find it.
pub open spec fn weight_row(
    c: Cmd,
    arg: int,
    b: int,
    col: int,
    k: int,
    step: int,
    half: bool,
    format: int,
    block: int,
    stride: int,
    row_step: int,
) -> Right {
    if format != 0 {
        Right::Blocks {
            from: arg_at(c, arg, b * (step / block) * stride),
            row: col,
            format,
            block,
            stride,
        }
    } else if half {
        let words = if row_step != 0 {
            row_step / 2
        } else {
            k / 2
        };
        Right::Halves(arg_at(c, arg, 2 * (b * (step / 2) + col * words)))
    } else {
        Right::Floats(
            arg_at(
                c,
                arg,
                b * step + col * if row_step != 0 {
                    row_step
                } else {
                    k
                },
            ),
        )
    }
}

/// Row `row` of the activation of product `b`, as the float kernels find it.
pub open spec fn activation_row(c: Cmd, b: int, row: int, k: int, step: int, half: bool) -> Left {
    if half {
        Left::Halves(arg_at(c, 0, 2 * (b * (step / 2) + row * (k / 2))))
    } else {
        Left::Floats(arg_at(c, 0, b * step + row * k))
    }
}

/// Row `row` of the twin of product `b`, as the integer kernels find it.
pub open spec fn twin_row(
    c: Cmd,
    codes: int,
    scales: int,
    b: int,
    row: int,
    k: int,
    step: int,
) -> Left {
    Left::Codes {
        codes: arg_at(c, codes, (b * step + row) * k),
        scales: arg_int(c, scales),
        row: b * step + row,
    }
}

/// Whether a mat-vec's grid has a warp for column `col` of row `row` of product `b`.
pub open spec fn has_warp(c: Cmd, b: int, row: int, col: int) -> bool {
    &&& c is Launch
    &&& col < c->cfg.grid_dim.0 * 8
    &&& row < c->cfg.grid_dim.1
    &&& b < c->cfg.grid_dim.2
    &&& c->cfg.block_dim == (32u32, 8u32, 1u32)
}

/// What the mat-vec does with column `col` of row `row` of product `b`.
pub open spec fn gemv(c: Cmd, b: int, row: int, col: int) -> Option<Summed> {
    let (m, k, n) = (arg_int(c, 4), arg_int(c, 5), arg_int(c, 6));
    let (format, block, stride) = (arg_int(c, 12), arg_int(c, 13), arg_int(c, 14));
    let coded = format != 0 && arg_given(c, 16) && block == 256 && is_k_quant(format);
    let place = if arg_int(c, 22) != 0 {
        arg_int(c, 23) + col * arg_int(c, 20) + col / arg_int(c, 22) * arg_int(c, 21)
    } else if arg_int(c, 20) != 1 {
        arg_int(c, 23) + col * arg_int(c, 20)
    } else {
        arg_int(c, 23) + row * n + col
    };
    if c->kernel == Kernel::Gemv && has_warp(c, b, row, col) && row < m && col < n {
        Some(
            Summed {
                left: if coded {
                    twin_row(c, 16, 17, b, row, k, arg_int(c, 18))
                } else {
                    activation_row(c, b, row, k, arg_int(c, 7), arg_int(c, 10) != 0)
                },
                right: weight_row(
                    c,
                    1,
                    b,
                    col,
                    k,
                    arg_int(c, 8),
                    arg_int(c, 11) != 0,
                    format,
                    block,
                    stride,
                    arg_int(c, 15),
                ),
                from: 0,
                until: k,
                bias: arg_at(c, 2, col),
                gelu: arg_int(c, 19) == 1,
                to: arg_at(c, 3, b * arg_int(c, 9) + place),
            },
        )
    } else {
        None
    }
}

/// What the mat-vec of a few rows does with one of them: its blocks take all the rows of a
/// column.
pub open spec fn gemv_rows(c: Cmd, b: int, row: int, col: int) -> Option<Summed> {
    let (m, k, n) = (arg_int(c, 4), arg_int(c, 5), arg_int(c, 6));
    if c->kernel == Kernel::GemvRows && has_warp(c, b, 0, col) && row < m && row < 4 && col < n {
        Some(
            Summed {
                left: activation_row(c, b, row, k, arg_int(c, 7), false),
                right: weight_row(
                    c,
                    1,
                    b,
                    col,
                    k,
                    arg_int(c, 8),
                    arg_int(c, 11) != 0,
                    0,
                    0,
                    0,
                    arg_int(c, 10),
                ),
                from: 0,
                until: k,
                bias: arg_at(c, 2, col),
                gelu: false,
                to: arg_at(c, 3, b * arg_int(c, 9) + row * n + col),
            },
        )
    } else {
        None
    }
}

/// Rows that a packed mat-vec of a few rows takes.
pub open spec fn packed_rows(kernel: Kernel) -> int {
    match kernel {
        Kernel::GemvQRows2 => 2,
        Kernel::GemvQRows3 => 3,
        Kernel::GemvQRows4 => 4,
        _ => 0,
    }
}

/// What it does with one of them.
pub open spec fn gemv_packed_rows(c: Cmd, b: int, row: int, col: int) -> Option<Summed> {
    let (m, k, n) = (arg_int(c, 8), arg_int(c, 9), arg_int(c, 10));
    if packed_rows(c->kernel) == m && has_warp(c, b, 0, col) && row < m && col < n {
        Some(
            Summed {
                left: twin_row(c, 3, 4, b, row, k, arg_int(c, 5)),
                right: weight_row(
                    c,
                    0,
                    b,
                    col,
                    k,
                    arg_int(c, 11),
                    false,
                    arg_int(c, 1),
                    256,
                    arg_int(c, 2),
                    0,
                ),
                from: 0,
                until: k,
                bias: arg_at(c, 6, col),
                gelu: false,
                to: arg_at(c, 7, b * arg_int(c, 12) + row * n + col),
            },
        )
    } else {
        None
    }
}

/// How much of a contraction of `k` one of `split` slices takes, in whole steps of `step`.
pub open spec fn slice_len(k: int, split: int, step: int) -> int {
    ((k + split - 1) / split + step - 1) / step * step
}

/// Where a tiled kernel puts an element: in its output, or in its slice of the scratch.
pub open spec fn tiled_place(
    c: Cmd,
    out: int,
    partial: int,
    split: int,
    step: int,
    b: int,
    slice: int,
    m: int,
    n: int,
    row: int,
    col: int,
) -> Option<Place> {
    if split > 1 {
        arg_at(
            c,
            partial,
            (slice * (c->cfg.grid_dim.2 as int / split) + b) * m * n + (row * n + col),
        )
    } else {
        arg_at(c, out, b * step + (row * n + col))
    }
}

/// Whether a tiled kernel's grid has slice `slice` of product `b`.
pub open spec fn has_slice(c: Cmd, split: int, b: int, slice: int) -> bool {
    let layers = c->cfg.grid_dim.2 as int;
    &&& c is Launch
    &&& c->cfg.block_dim == (32u32, 8u32, 1u32)
    &&& split >= 1
    &&& b < layers / split
    &&& slice * (layers / split) + b < layers
}

/// What the tiled float kernel does with one element of one slice.
pub open spec fn gemm(c: Cmd, b: int, row: int, col: int, slice: int) -> Option<Summed> {
    let (m, k, n, split) = (arg_int(c, 4), arg_int(c, 5), arg_int(c, 6), arg_int(c, 16));
    let len = slice_len(k, split, 32);
    if c->kernel == Kernel::Gemm && has_slice(c, split, b, slice) && col < c->cfg.grid_dim.0 * 128
        && row < c->cfg.grid_dim.1 * 128 && row < m && col < n {
        Some(
            Summed {
                left: activation_row(c, b, row, k, arg_int(c, 7), arg_int(c, 10) != 0),
                right: weight_row(
                    c,
                    1,
                    b,
                    col,
                    k,
                    arg_int(c, 8),
                    arg_int(c, 11) != 0,
                    arg_int(c, 12),
                    arg_int(c, 13),
                    arg_int(c, 14),
                    arg_int(c, 15),
                ),
                from: slice * len,
                until: min(k, slice * len + len),
                bias: if split == 1 {
                    arg_at(c, 2, col)
                } else {
                    None
                },
                gelu: false,
                to: tiled_place(c, 3, 17, split, arg_int(c, 9), b, slice, m, n, row, col),
            },
        )
    } else {
        None
    }
}

/// Rows a block of an integer kernel owns.
pub open spec fn integer_rows(kernel: Kernel) -> int {
    match kernel {
        Kernel::GemmI8Q4k | Kernel::GemmI8Q6k => 128,
        Kernel::GemmI8Q4kNarrow | Kernel::GemmI8Q6kNarrow => 64,
        _ => 0,
    }
}

/// The block format it reads.
pub open spec fn integer_format(kernel: Kernel) -> int {
    match kernel {
        Kernel::GemmI8Q4k | Kernel::GemmI8Q4kNarrow => 12,
        Kernel::GemmI8Q6k | Kernel::GemmI8Q6kNarrow => 14,
        _ => 0,
    }
}

/// What the tiled integer kernel does with one element of one slice.
pub open spec fn gemm_integer(c: Cmd, b: int, row: int, col: int, slice: int) -> Option<Summed> {
    let (m, k, n, split) = (arg_int(c, 5), arg_int(c, 6), arg_int(c, 7), arg_int(c, 12));
    let len = slice_len(k, split, 64);
    if integer_rows(c->kernel) > 0 && has_slice(c, split, b, slice) && row < c->cfg.grid_dim.0
        * integer_rows(c->kernel) && col < c->cfg.grid_dim.1 * 128 && row < m && col < n {
        Some(
            Summed {
                left: twin_row(c, 0, 1, b, row, k, arg_int(c, 11)),
                right: weight_row(
                    c,
                    2,
                    b,
                    col,
                    k,
                    arg_int(c, 8),
                    false,
                    integer_format(c->kernel),
                    256,
                    arg_int(c, 10),
                    0,
                ),
                from: slice * len,
                until: min(k, slice * len + len),
                bias: if split == 1 {
                    arg_at(c, 3, col)
                } else {
                    None
                },
                gelu: false,
                to: tiled_place(c, 4, 13, split, arg_int(c, 9), b, slice, m, n, row, col),
            },
        )
    } else {
        None
    }
}

/// What a launch of any of them does with one element of one slice.
pub open spec fn summed(c: Cmd, b: int, row: int, col: int, slice: int) -> Option<Summed> {
    match c->kernel {
        Kernel::Gemv => if slice == 0 {
            gemv(c, b, row, col)
        } else {
            None
        },
        Kernel::GemvRows => if slice == 0 {
            gemv_rows(c, b, row, col)
        } else {
            None
        },
        Kernel::GemvQRows2 | Kernel::GemvQRows3 | Kernel::GemvQRows4 => if slice == 0 {
            gemv_packed_rows(c, b, row, col)
        } else {
            None
        },
        Kernel::Gemm => gemm(c, b, row, col, slice),
        _ => gemm_integer(c, b, row, col, slice),
    }
}

/// The sum over the slices that thread `i` of the summing kernel makes: how many there are,
/// the first of them and how far apart they are, and the bias on top of them.
pub open spec fn reduced(
    c: Cmd,
    i: int,
) -> Option<(int, Option<Place>, int, Option<Place>, Option<Place>)> {
    let (mn, n, batch, split) = (arg_int(c, 3), arg_int(c, 4), arg_int(c, 5), arg_int(c, 6));
    if c->kernel == Kernel::GemmReduce && has_threads(c, mn * batch) && i < mn * batch {
        Some((split, arg_at(c, 0, i), mn * batch, arg_at(c, 1, i % n), arg_at(c, 2, i)))
    } else {
        None
    }
}

/// The bias that a launch adds to column 0, where it adds one.
pub open spec fn bias_of(c: Cmd) -> Option<Place> {
    if c !is Launch {
        None
    } else {
        match c->kernel {
            Kernel::Gemv | Kernel::GemvRows => arg_at(c, 2, 0),
            Kernel::GemvQRows2 | Kernel::GemvQRows3 | Kernel::GemvQRows4 => arg_at(c, 6, 0),
            Kernel::Gemm => if arg_int(c, 16) == 1 {
                arg_at(c, 2, 0)
            } else {
                None
            },
            Kernel::GemmI8Q4k
            | Kernel::GemmI8Q6k
            | Kernel::GemmI8Q4kNarrow
            | Kernel::GemmI8Q6kNarrow => if arg_int(c, 12) == 1 {
                arg_at(c, 3, 0)
            } else {
                None
            },
            Kernel::GemmReduce => arg_at(c, 1, 0),
            _ => None,
        }
    }
}

/// A product that is not refused adds its bias once: the last launch of its queue adds what
/// was given, split or not, and no other command adds any.
pub proof fn the_bias_is_added_once(g: Gemm<'_>, at_: int)
    requires
        g.refusal() is None,
        0 <= g.k,
    ensures
        g.commands(at_).len() > 0,
        bias_of(g.commands(at_).last()) == maybe_at(g.bias, 0),
        forall|i: int|
            0 <= i < g.commands(at_).len() - 1 ==> #[trigger] bias_of(g.commands(at_)[i]) is None,
{
    let cmds = g.commands(at_);
    if !g.small() {
        ksplit_is_bounded(g.m, g.k, g.n, g.batch.count as int);
    }
    assert(1 <= g.split() <= 8);
    let (t, p, w) = (g.twin_cmds(at_), g.partial_cmds(), g.widened_cmds(at_));
    assert forall|i: int| 0 <= i < cmds.len() - 1 implies #[trigger] bias_of(cmds[i]) is None by {
        if i >= 1 && i < 1 + t.len() {
            assert(cmds[i] == t[i - 1]);
        } else if i >= 1 + t.len() && i < 1 + t.len() + p.len() {
            assert(cmds[i] == p[i - 1 - t.len()]);
        } else if i >= 1 + t.len() + p.len() && i < 1 + t.len() + p.len() + w.len() {
            assert(cmds[i] == w[i - 1 - t.len() - p.len()]);
        }
    }
}

/// Row `row` of the activation of product `b`: of the twin where an integer kernel reads it,
/// of the rounded copy where that is made, and of the activation itself otherwise.
pub open spec fn wanted_left(g: Gemm<'_>, at_: int, b: int, row: int) -> Left {
    let place = b * g.batch.a + row * g.k;
    if g.int8() {
        let q = g.twin(at_)->0;
        let r = if g.shared_a() {
            row
        } else {
            b * g.m + row
        };
        Left::Codes { codes: at(q.buf, r * g.k), scales: q.rows * q.k, row: r }
    } else if g.widens() {
        Left::Halves(at(made::<u16>(g.widened_at(at_), g.widened_len()), place))
    } else {
        match g.a {
            Operand::F32(x) => Left::Floats(at(*x, place)),
            Operand::F16(x) => Left::Halves(at(*x, place)),
            Operand::F32Q { data, q8: _ } => Left::Floats(at(*data, place)),
            Operand::Q { data, ty: _ } => Left::Floats(at(*data, place)),
        }
    }
}

/// Row `col` of the weight of product `b`, counted from the first row that is read.
pub open spec fn wanted_right(g: Gemm<'_>, b: int, col: int) -> Right {
    let step = if g.batch.w_row != 0 {
        g.batch.w_row as int
    } else {
        g.k
    };
    let place = g.w_first * g.k + b * g.batch.w + col * step;
    match g.w {
        Operand::F32(w) => Right::Floats(at(*w, place)),
        Operand::F16(w) => Right::Halves(at(*w, place)),
        Operand::F32Q { data, q8: _ } => Right::Floats(at(*data, place)),
        Operand::Q { data, ty } => Right::Blocks {
            from: at(
                *data,
                g.w_first * g.k / ty.spec_block_size() * ty.spec_device_stride() + b * (
                g.batch.w as int / ty.spec_block_size()) * ty.spec_device_stride(),
            ),
            row: col,
            format: ty.spec_id() as int,
            block: ty.spec_block_size(),
            stride: ty.spec_device_stride(),
        },
    }
}

/// The sizes of a product are the device's integers, and what it reads as words of two halves
/// is made of whole ones.
pub open spec fn product_ints_fit(g: Gemm<'_>) -> bool {
    &&& int_fits(g.m) && int_fits(g.k) && int_fits(g.n) && int_fits(g.batch.w_row as int)
    &&& 1 <= g.batch.count && int_fits(g.batch.count * g.split())
    &&& int_fits(g.all_rows() * g.k) && int_fits(g.out_len())
    &&& g.batch.a <= i64::MAX && g.batch.w <= i64::MAX && g.batch.out <= i64::MAX
    &&& 0 <= g.w_first && g.w_first * g.k <= usize::MAX && g.w_need() <= usize::MAX
    &&& g.a is F16 || g.widens() ==> g.k % 2 == 0 && (g.batch.count == 1 || g.batch.a % 2 == 0)
    &&& g.w is F16 ==> (g.batch.w_row != 0 || g.k % 2 == 0) && (g.batch.count == 1 || g.batch.w
        % 2 == 0)
    &&& g.int8() ==> int_fits(g.twin(0)->0.rows * g.twin(0)->0.k)
}

/// Whether an element of a product is the row of the activation and the row of the weight it
/// is of, from `from` of the contraction until `until`, with `bias` on top and at `to`.
pub open spec fn is_product(
    g: Gemm<'_>,
    at_: int,
    b: int,
    row: int,
    col: int,
    s: Option<Summed>,
    from: int,
    until: int,
    bias: Option<Place>,
    to: Option<Place>,
) -> bool {
    s == Some(
        Summed {
            left: wanted_left(g, at_, b, row),
            right: wanted_right(g, b, col),
            from,
            until,
            bias,
            gelu: false,
            to,
        },
    )
}

proof fn lemma_halves(b: int, step: int, row: int, k: int, count: int)
    requires
        0 <= b < count,
        count == 1 || step % 2 == 0,
        k % 2 == 0,
    ensures
        2 * (b * (step / 2) + row * (k / 2)) == b * step + row * k,
{
    if count == 1 {
        assert(b * (step / 2) == 0 && b * step == 0) by (nonlinear_arith)
            requires
                b == 0,
        ;
    } else {
        assert(2 * (b * (step / 2)) == b * step) by (nonlinear_arith)
            requires
                step % 2 == 0,
        ;
    }
    assert(2 * (row * (k / 2)) == row * k) by (nonlinear_arith)
        requires
            k % 2 == 0,
    ;
}

proof fn lemma_operands(g: Gemm<'_>, at_: int, b: int, row: int, col: int)
    requires
        g.refusal() is None,
        product_ints_fit(g),
        0 <= b < g.batch.count,
    ensures
        g.widens() ==> 2 * (b * (g.batch.a as int / 2) + row * (g.k / 2)) == b * g.batch.a + row
            * g.k,
        g.a is F16 ==> 2 * (b * (g.batch.a as int / 2) + row * (g.k / 2)) == b * g.batch.a + row
            * g.k,
        g.w is F16 ==> 2 * (b * (g.batch.w as int / 2) + col * (if g.batch.w_row != 0 {
            g.batch.w_row as int / 2
        } else {
            g.k / 2
        })) == b * g.batch.w + col * (if g.batch.w_row != 0 {
            g.batch.w_row as int
        } else {
            g.k
        }),
        g.int8() ==> g.twin(at_)->0.rows == g.twin(0)->0.rows && g.twin(at_)->0.k == g.twin(0)->0.k,
        0 <= g.w_offset() <= usize::MAX,
        g.w_first == 0 ==> g.w_offset() == 0,
{
    let count = g.batch.count as int;
    if g.widens() || g.a is F16 {
        lemma_halves(b, g.batch.a as int, row, g.k, count);
    }
    if g.w is F16 {
        let step = if g.batch.w_row != 0 {
            g.batch.w_row as int
        } else {
            g.k
        };
        lemma_halves(b, g.batch.w as int, col, step, count);
    }
    assert(0 <= g.n * g.k) by (nonlinear_arith)
        requires
            0 <= g.n,
            0 <= g.k,
    ;
    assert(0 <= g.w_first * g.k) by (nonlinear_arith)
        requires
            0 <= g.w_first,
            0 <= g.k,
    ;
    if g.w_first == 0 {
        assert(g.w_first * g.k == 0) by (nonlinear_arith)
            requires
                g.w_first == 0,
        ;
        if g.w is Q {
            let (z, e, d) = (g.skipped(), g.w->ty.spec_block_size(), g.w->ty.spec_device_stride());
            assert(z / e * d == 0) by (nonlinear_arith)
                requires
                    z == 0,
                    e > 0,
            ;
        }
    }
    if g.w is Q {
        let ty = g.w->ty;
        let (s, r, d) = (
            g.skipped() / ty.spec_block_size(),
            g.n * g.k / ty.spec_block_size(),
            ty.spec_device_stride(),
        );
        assert(s * d <= (s + r) * d && 0 <= s * d) by (nonlinear_arith)
            requires
                0 <= s,
                0 <= r,
                0 <= d,
        ;
    }
}

proof fn lemma_right(g: Gemm<'_>, c: Cmd, arg: int, b: int, col: int)
    requires
        g.refusal() is None,
        product_ints_fit(g),
        0 <= b < g.batch.count,
        c->args[arg] == g.w_arg(),
    ensures
        ({
            let (format, block, stride) = match g.w.spec_quant() {
                Some(q) => (q.spec_id() as int, q.spec_block_size(), q.spec_device_stride()),
                None => (0int, 0int, 0int),
            };
            weight_row(
                c,
                arg,
                b,
                col,
                g.k,
                g.batch.w as int,
                g.w is F16,
                format,
                block,
                stride,
                g.batch.w_row as int,
            ) == wanted_right(g, b, col)
        }),
{
    lemma_operands(g, 0, b, 0, col);
}

proof fn lemma_float_left(g: Gemm<'_>, c: Cmd, at_: int, b: int, row: int)
    requires
        g.refusal() is None,
        product_ints_fit(g),
        !g.int8(),
        0 <= b < g.batch.count,
        c->args[0] == g.a_arg(at_),
    ensures
        activation_row(c, b, row, g.k, g.batch.a as int, g.widens() || g.a is F16) == wanted_left(
            g,
            at_,
            b,
            row,
        ),
{
    lemma_operands(g, at_, b, row, 0);
}

proof fn lemma_coded_left(g: Gemm<'_>, c: Cmd, codes: int, scales: int, at_: int, b: int, row: int)
    requires
        g.refusal() is None,
        product_ints_fit(g),
        g.int8(),
        0 <= b < g.batch.count,
        0 <= codes,
        c->args[codes] == crate::queue::ptr((g.twin(at_)->0).buf),
        c->args[scales] == crate::queue::num((g.twin(at_)->0).rows * (g.twin(at_)->0).k),
    ensures
        twin_row(c, codes, scales, b, row, g.k, g.a_rows()) == wanted_left(g, at_, b, row),
{
    lemma_operands(g, at_, b, row, 0);
    assert(b * 0 == 0);
}

/// A product without a split, by whichever kernel its shape and operands choose: every
/// element of every product of the batch is its own row of the activation and its own row of
/// the weight, over the whole contraction, and the bias of its column where one is given.
pub proof fn every_element_is_its_row_and_its_weight(
    g: Gemm<'_>,
    at_: int,
    b: int,
    row: int,
    col: int,
)
    requires
        g.refusal() is None,
        product_ints_fit(g),
        g.split() == 1,
        0 <= b < g.batch.count,
        0 <= row < g.m,
        0 <= col < g.n,
    ensures
        is_product(
            g,
            at_,
            b,
            row,
            col,
            summed(g.main_launch(at_), b, row, col, 0),
            0,
            g.k,
            maybe_at(g.bias, col),
            at(made::<Fp32>(at_, g.out_len()), b * g.batch.out + flat2(row, col, g.n)),
        ),
{
    if g.small() {
        lemma_warps_sum(g, at_, b, row, col);
    } else {
        lemma_tiles_sum(g, at_, b, row, col, 0);
        lemma_one_slice(g.k, 32);
        lemma_one_slice(g.k, 64);
    }
}

#[verifier::spinoff_prover]
#[verifier::rlimit(60)]
proof fn lemma_warps_sum(g: Gemm<'_>, at_: int, b: int, row: int, col: int)
    requires
        g.refusal() is None,
        product_ints_fit(g),
        g.small(),
        0 <= b < g.batch.count,
        0 <= row < g.m,
        0 <= col < g.n,
    ensures
        is_product(
            g,
            at_,
            b,
            row,
            col,
            summed(g.main_launch(at_), b, row, col, 0),
            0,
            g.k,
            maybe_at(g.bias, col),
            at(made::<Fp32>(at_, g.out_len()), b * g.batch.out + flat2(row, col, g.n)),
        ),
{
    let c = g.main_launch(at_);
    let count = g.batch.count as int;
    assert(g.batch.count * 1 == g.batch.count);
    every_column_has_a_warp(g.n, g.m, count);
    every_column_has_a_warp(g.n, 1, count);
    assert(!g.widens());
    lemma_operands(g, at_, b, row, col);
    if g.rows_path() {
        lemma_right(g, c, 1, b, col);
        lemma_float_left(g, c, at_, b, row);
    } else if g.q_rows_path() {
        lemma_right(g, c, 0, b, col);
        lemma_coded_left(g, c, 3, 4, at_, b, row);
    } else {
        lemma_right(g, c, 1, b, col);
        if g.int8() {
            lemma_coded_left(g, c, 16, 17, at_, b, row);
        } else {
            lemma_float_left(g, c, at_, b, row);
        }
    }
}

/// The length of a slice, by the kernel that a product takes.
pub open spec fn slice_of(g: Gemm<'_>) -> int {
    slice_len(
        g.k,
        g.split(),
        if g.int8() {
            64
        } else {
            32
        },
    )
}

#[verifier::spinoff_prover]
#[verifier::rlimit(60)]
proof fn lemma_tiles_sum(g: Gemm<'_>, at_: int, b: int, row: int, col: int, slice: int)
    requires
        g.refusal() is None,
        product_ints_fit(g),
        !g.small(),
        0 <= slice < g.split(),
        0 <= b < g.batch.count,
        0 <= row < g.m,
        0 <= col < g.n,
    ensures
        is_product(
            g,
            at_,
            b,
            row,
            col,
            summed(g.main_launch(at_), b, row, col, slice),
            slice * slice_of(g),
            min(g.k, slice * slice_of(g) + slice_of(g)),
            if g.split() == 1 {
                maybe_at(g.bias, col)
            } else {
                None
            },
            if g.split() == 1 {
                at(made::<Fp32>(at_, g.out_len()), b * g.batch.out + flat2(row, col, g.n))
            } else {
                at(
                    g.partial(at_),
                    flat2(slice, b, g.batch.count as int) * g.m * g.n + flat2(row, col, g.n),
                )
            },
        ),
{
    let c = g.main_launch(at_);
    let (count, split) = (g.batch.count as int, g.split());
    ceil_div_covers(g.n, 128);
    ceil_div_covers(g.m, 128);
    ceil_div_covers(g.m, 64);
    ksplit_is_bounded(g.m, g.k, g.n, count);
    assert((count * split) / split == count) by {
        vstd::arithmetic::div_mod::lemma_div_by_multiple(count, split);
    }
    assert(slice * count + b < count * split) by (nonlinear_arith)
        requires
            0 <= slice < split,
            0 <= b < count,
    ;
    assert(0 <= count * split);
    lemma_operands(g, at_, b, row, col);
    if g.int8() {
        lemma_right(g, c, 2, b, col);
        lemma_coded_left(g, c, 0, 1, at_, b, row);
    } else {
        lemma_right(g, c, 1, b, col);
        lemma_float_left(g, c, at_, b, row);
    }
}

proof fn lemma_one_slice(k: int, step: int)
    requires
        0 <= k,
        step == 32 || step == 64,
    ensures
        slice_len(k, 1, step) >= k,
        min(k, 0 * slice_len(k, 1, step) + slice_len(k, 1, step)) == k,
        0 * slice_len(k, 1, step) == 0,
{
    assert((k + 1 - 1) / 1 == k);
}

/// A product whose contraction is split has each slice of each element summed once and the
/// bias added to their sum: a slice takes its own part of the contraction, the slices take all
/// of it, each leaves its sum in its own place of the scratch, and the last launch adds up
/// exactly those places, with the bias of the column, into the element.
pub proof fn the_slices_of_every_element_are_summed(
    g: Gemm<'_>,
    at_: int,
    b: int,
    row: int,
    col: int,
    slice: int,
)
    requires
        g.refusal() is None,
        product_ints_fit(g),
        g.split() > 1,
        int_fits(g.batch.count * g.m * g.n),
        int_fits(g.m * g.n),
        0 <= slice < g.split(),
        0 <= b < g.batch.count,
        0 <= row < g.m,
        0 <= col < g.n,
    ensures
        ({
            let i = flat2(flat2(b, row, g.m), col, g.n);
            let all = g.batch.count * g.m * g.n;
            &&& is_product(
                g,
                at_,
                b,
                row,
                col,
                summed(g.main_launch(at_), b, row, col, slice),
                slice * slice_of(g),
                min(g.k, slice * slice_of(g) + slice_of(g)),
                None,
                at(g.partial(at_), slice * all + i),
            )
            &&& slice_of(g) * g.split() >= g.k
            &&& reduced(g.commands(at_).last(), i) == Some(
                (
                    g.split(),
                    at(g.partial(at_), i),
                    all,
                    maybe_at(g.bias, col),
                    at(made::<Fp32>(at_, g.out_len()), i),
                ),
            )
        }),
{
    let (count, m, n) = (g.batch.count as int, g.m, g.n);
    let i = flat2(flat2(b, row, m), col, n);
    let all = count * m * n;
    lemma_tiles_sum(g, at_, b, row, col, slice);
    ksplit_is_bounded(g.m, g.k, g.n, count);
    lemma_slices_cover(g.k, g.split(), if g.int8() { 64 } else { 32 });
    lemma_rows(count, m);
    lemma_rows(count * m, n);
    assert((slice * count + b) * m * n == slice * (count * m * n) + b * m * n) by {
        lemma_mul_is_distributive_add_other_way(m, slice * count, b);
        lemma_mul_is_distributive_add_other_way(n, slice * count * m, b * m);
        lemma_mul_is_associative(slice, count, m);
        lemma_mul_is_associative(slice, count * m, n);
    }
    lemma_mul_is_distributive_add_other_way(n, b * m, row);
    assert(m * n * count == all) by (nonlinear_arith)
        requires
            all == count * m * n,
    ;
    elems_cover(all);
    let c = g.reduce_cmds(at_)[0];
    assert(g.commands(at_).last() == c);
    assert(count <= count * g.split()) by (nonlinear_arith)
        requires
            1 <= count,
            1 <= g.split(),
    ;
    assert(arg_int(c, 3) * arg_int(c, 5) == all);
}

proof fn lemma_slices_cover(k: int, split: int, step: int)
    requires
        0 <= k,
        1 <= split,
        step == 32 || step == 64,
    ensures
        slice_len(k, split, step) * split >= k,
{
    let q = (k + split - 1) / split;
    vstd::arithmetic::div_mod::lemma_fundamental_div_mod(k + split - 1, split);
    assert(q * split >= k) by (nonlinear_arith)
        requires
            k + split - 1 == split * q + (k + split - 1) % split,
            0 <= (k + split - 1) % split < split,
    ;
    let l = slice_len(k, split, step);
    assert(l >= q);
    assert(l * split >= q * split) by (nonlinear_arith)
        requires
            l >= q,
            split >= 1,
    ;
}

/// What warp `n` of the quantising kernel does with its group: of which row, from where, and
/// where the 32 codes and the one scale go, the scales after all the codes.
pub open spec fn quantized(c: Cmd, n: int) -> Option<
    (Option<Place>, Option<Place>, int, int),
> {
    let (scales, k, rows, step, m) = (
        arg_int(c, 2),
        arg_int(c, 3),
        arg_int(c, 4),
        arg_int(c, 5),
        arg_int(c, 6),
    );
    let groups = k / 32;
    let (r, j) = (n / groups, n - n / groups * groups);
    let (z, row) = (r / m, r - r / m * m);
    if c->kernel == Kernel::QuantizeQ8 && n < c->cfg.grid_dim.0 * 8 && c->cfg.block_dim == (
        32u32,
        8u32,
        1u32,
    ) && n < rows * groups {
        Some(
            (
                arg_at(c, 0, z * step + row * k + j * 32),
                arg_at(c, 1, r * k + j * 32),
                scales,
                r * groups + j,
            ),
        )
    } else {
        None
    }
}

/// Quantising codes every group of 32 of every row of every product's activation, each into
/// the row of the twin it is of, with its scale across from it.
pub proof fn every_group_is_coded(
    at_: int,
    a: CudaSlice<Fp32>,
    k: int,
    rows: int,
    sa: int,
    m: int,
    z: int,
    row: int,
    j: int,
)
    requires
        int_fits(k) && int_fits(rows) && int_fits(rows * k) && 0 <= sa <= i64::MAX && int_fits(m),
        0 <= z,
        0 <= row < m,
        z * m + row < rows,
        0 <= j < k / 32,
    ensures
        ({
            let cmds = quantize_cmds(at_, a, k, rows, sa, m);
            let r = z * m + row;
            &&& cmds.len() == 2
            &&& quantized(cmds[1], flat2(r, j, k / 32)) == Some(
                (
                    at(a, z * sa + row * k + j * 32),
                    at(made::<i8>(at_, q8_bytes(rows, k)), flat2(r, j * 32, k)),
                    rows * k,
                    flat2(r, j, k / 32),
                ),
            )
        }),
{
    let groups = k / 32;
    let r = z * m + row;
    assert(0 <= r) by (nonlinear_arith)
        requires
            0 <= z,
            0 <= m,
            0 <= row,
            r == z * m + row,
    ;
    lemma_flat2(r, j, groups, rows);
    lemma_flat2(z, row, m, z + 1);
    assert(0 <= rows * groups <= rows * k) by (nonlinear_arith)
        requires
            0 <= rows,
            0 <= groups <= k,
    ;
    ceil_div_covers(rows * groups, 8);
}

/// What thread `i` of the rounding kernel does.
pub open spec fn rounded(c: Cmd, i: int) -> Option<Store> {
    if c->kernel == Kernel::PackF16 && i < arg_int(c, 2) {
        Some(stored(Fun::Round, seq![arg_at(c, 0, i)], arg_at(c, 1, i)))
    } else {
        None
    }
}

/// Rounding rounds each of the first `n` elements across into the copy, and no others.
pub proof fn every_element_is_rounded_across(at_: int, x: CudaSlice<Fp32>, n: int)
    requires
        int_fits(n),
    ensures
        ({
            let cmds = to_f16_cmds(at_, x, n);
            &&& cmds.len() == 2
            &&& has_threads(cmds[1], n)
            &&& forall|i: int| 0 <= i ==> #[trigger] rounded(cmds[1], i) == if i < n {
                Some(stored(Fun::Round, seq![at(x, i)], at(made::<u16>(at_, n), i)))
            } else {
                None
            }
        }),
{
    lemma_flat_runs(to_f16_cmds(at_, x, n)[1], n);
}

/// The twin and the rounded copy that a product reads are of its own activation: every
/// element that a product of the batch reads of the copy is rounded into it, as far as the
/// activation goes, and every row it reads of a twin of its own is coded into it.
pub proof fn the_copies_of_an_activation_are_of_it(g: Gemm<'_>, at_: int, b: int, row: int, j: int)
    requires
        g.refusal() is None,
        product_ints_fit(g),
        int_fits(g.widened_len()),
        0 <= b < g.batch.count,
        0 <= row < g.m,
        0 <= j < g.k,
    ensures
        g.widens() ==> ({
            let (c, i) = (g.widened_cmds(at_)[1], b * g.batch.a + flat2(row, j, g.k));
            i < g.full_a().len ==> rounded(c, i) == Some(
                stored(
                    Fun::Round,
                    seq![at(g.full_a(), i)],
                    at(made::<u16>(g.widened_at(at_), g.widened_len()), i),
                ),
            )
        }),
        g.int8() && g.a is F32 ==> ({
            let q = g.twin(at_)->0;
            let r = if g.shared_a() {
                row
            } else {
                b * g.m + row
            };
            quantized(g.twin_cmds(at_)[1], flat2(r, j / 32, g.k / 32)) == Some(
                (
                    at(g.full_a(), b * g.batch.a + row * g.k + j / 32 * 32),
                    at(q.buf, flat2(r, j / 32 * 32, g.k)),
                    q.rows * q.k,
                    flat2(r, j / 32, g.k / 32),
                ),
            )
        }),
{
    let (count, a) = (g.batch.count as int, g.batch.a as int);
    lemma_flat2(row, j, g.k, g.m);
    if g.widens() {
        every_element_is_rounded_across(g.widened_at(at_), g.full_a(), g.widened_len());
        assert(0 <= b * a && b * a <= (count - 1) * a) by (nonlinear_arith)
            requires
                0 <= b <= count - 1,
                0 <= a,
        ;
    }
    if g.int8() && g.a is F32 {
        let z = if g.shared_a() {
            0
        } else {
            b
        };
        assert(b * g.m + row < count * g.m) by (nonlinear_arith)
            requires
                0 <= b < count,
                0 <= row < g.m,
        ;
        assert(0 * g.m == 0 && 0 * a == 0);
        if g.shared_a() {
            assert(b * a == 0) by (nonlinear_arith)
                requires
                    a == 0,
            ;
        }
        let rows = g.q_rows();
        assert(0 <= g.m * g.k && g.m * g.k <= count * g.m * g.k && 0 <= g.m <= count * g.m)
            by (nonlinear_arith)
            requires
                1 <= count,
                0 <= g.m,
                0 <= g.k,
        ;
        assert(count * g.m <= count * g.m * g.k) by (nonlinear_arith)
            requires
                1 <= count,
                0 <= g.m,
                1 <= g.k,
        ;
        every_group_is_coded(at_ + 1, g.full_a(), g.k, rows, a, g.m, z, row, j / 32);
    }
}

/// A placed mat-vec that is not refused sums every column of its one row over the whole
/// contraction, with the bias of the column where one is given and the GELU exactly where it
/// is asked for, and puts it where the layout is: in the row, at position `pos` of its head's
/// keys, or at position `pos` of its own row of the values. It reads no further than its
/// operands go.
pub proof fn every_column_of_a_placed_row_goes_to_its_place(g: PlacedGemv<'_>, col: int)
    requires
        g.refusal() is None,
        int_fits(g.k) && int_fits(g.n),
        int_fits(g.layout.strides().0) && int_fits(g.layout.strides().1),
        int_fits(g.layout.strides().2) && 0 <= g.layout.strides().3 <= i64::MAX,
        0 <= col < g.n,
    ensures
        ({
            let place = match g.layout {
                OutLayout::Row => col,
                OutLayout::KeyCache { head_dim, cap, pos } => (col / head_dim as int * cap + pos)
                    * head_dim + col % head_dim as int,
                OutLayout::ValueCache { cap, pos } => col * cap + pos,
            };
            &&& gemv(g.placed_launch(), 0, 0, col) == Some(
                Summed {
                    left: Left::Floats(at(g.x, 0)),
                    right: match g.w {
                        Operand::F16(w) => Right::Halves(at(*w, flat2(col, 0, g.k))),
                        Operand::F32(w) => Right::Floats(at(*w, flat2(col, 0, g.k))),
                        _ => arbitrary(),
                    },
                    from: 0,
                    until: g.k,
                    bias: maybe_at(g.bias, col),
                    gelu: g.gelu,
                    to: at(g.out, place),
                },
            )
            &&& g.w is F16 || g.w is F32
            &&& 0 <= place < g.out.len
            &&& g.x.len >= g.k
            &&& g.w.spec_len() >= g.n * g.k
        }),
{
    let c = g.placed_launch();
    every_column_has_a_warp(g.n, 1, 1);
    crate::gemv::placed_columns_fit(g, col, col);
    assert(0 * arg_int(c, 7) == 0 && 0 * arg_int(c, 8) == 0 && 0 * arg_int(c, 9) == 0);
    assert(0 * g.n == 0 && 0 * g.k == 0);
    if g.w is F16 {
        lemma_halves(0, 0, col, g.k, 1);
    }
}

/// One column of a projection fused with a normalisation: what is added to the residual, and
/// what the normalised row is then multiplied by and shifted by.
pub struct Fused {
    pub sum: Summed,
    /// Elements of the row that is normalised.
    pub len: int,
    pub weight: Option<Place>,
    pub shift: Option<Place>,
    pub eps: FloatBits,
    pub to: Option<Place>,
}

/// What the mat-vec with a layer normalisation does with column `col`.
pub open spec fn fused_layer_norm(c: Cmd, col: int) -> Option<Fused> {
    let (k, n) = (arg_int(c, 3), arg_int(c, 4));
    if c->kernel == Kernel::GemvLn && has_warp(c, 0, 0, col) && col < n && arg_given(c, 10) {
        Some(
            Fused {
                sum: Summed {
                    left: Left::Floats(arg_at(c, 0, 0)),
                    right: Right::Halves(arg_at(c, 1, 2 * (col * (k / 2)))),
                    from: 0,
                    until: k,
                    bias: arg_at(c, 2, col),
                    gelu: false,
                    to: arg_at(c, 5, col),
                },
                len: n,
                weight: arg_at(c, 6, col),
                shift: arg_at(c, 7, col),
                eps: arg_float(c, 8),
                to: arg_at(c, 9, col),
            },
        )
    } else {
        None
    }
}

/// A projection fused with a layer normalisation that is not refused adds to every column of
/// the residual its own sum and, exactly where one is given, its own bias, and leaves the
/// normalised row beside it, by that column's weight and shift. Every operand is as long as
/// that reads.
pub proof fn every_column_is_projected_and_layer_normed(
    g: GemvLn<'_>,
    s: NormScratch,
    at_: int,
    col: int,
)
    requires
        g.refusal() is None,
        int_fits(g.k) && int_fits(g.n),
        0 <= col < g.n,
    ensures
        g.commands(s, at_).len() > 0,
        fused_layer_norm(g.commands(s, at_).last(), col) == Some(
            Fused {
                sum: Summed {
                    left: Left::Floats(at(g.a, 0)),
                    right: Right::Halves(at(g.w, flat2(col, 0, g.k))),
                    from: 0,
                    until: g.k,
                    bias: maybe_at(g.bias, col),
                    gelu: false,
                    to: at(g.h, col),
                },
                len: g.n,
                weight: at(g.weight, col),
                shift: at(g.shift, col),
                eps: g.eps,
                to: at(g.row(s, at_), col),
            },
        ),
        g.a.len >= g.k && g.w.len >= g.n * g.k && g.h.len >= g.n,
        g.weight.len >= g.n && g.shift.len >= g.n,
        g.bias is Some ==> g.bias->0.len >= g.n,
        g.n <= g.max_n && g.n % 4 == 0,
{
    let c = g.commands(s, at_).last();
    every_column_has_a_warp(g.n, 1, 1);
    lemma_halves(0, 0, col, g.k, 1);
}

/// What the packed mat-vec with a root-mean-square normalisation does with column `col`.
pub open spec fn fused_rms_norm(c: Cmd, col: int) -> Option<Fused> {
    let (k, n) = (arg_int(c, 5), arg_int(c, 6));
    if c->kernel == Kernel::GemvNorm && has_warp(c, 0, 0, col) && col < n && arg_given(c, 13)
        && arg_given(c, 14) {
        Some(
            Fused {
                sum: Summed {
                    left: Left::Codes { codes: arg_at(c, 3, 0), scales: arg_int(c, 4), row: 0 },
                    right: Right::Blocks {
                        from: arg_at(c, 0, 0),
                        row: col,
                        format: arg_int(c, 1),
                        block: 256,
                        stride: arg_int(c, 2),
                    },
                    from: 0,
                    until: k,
                    bias: None,
                    gelu: false,
                    to: arg_at(c, 7, col),
                },
                len: n,
                weight: arg_at(c, 8, col),
                shift: None,
                eps: arg_float(c, 9),
                to: arg_at(c, 10, col),
            },
        )
    } else {
        None
    }
}

/// A packed projection fused with a root-mean-square normalisation that is not refused adds to
/// every column of the residual the sum of the twin's one row and its own row of the weight,
/// leaves the normalised row beside it, by that column's weight, and takes the twin of it. It
/// has the partials and the counter that its blocks meet over, and every operand is as long as
/// it reads.
pub proof fn every_column_is_projected_and_rms_normed(
    g: GemvNorm<'_>,
    s: NormScratch,
    at_: int,
    col: int,
)
    requires
        g.refusal() is None,
        int_fits(g.k) && int_fits(g.n),
        0 <= col < g.n,
    ensures
        g.commands(s, at_).len() > 0,
        ({
            let c = g.commands(s, at_).last();
            &&& fused_rms_norm(c, col) == Some(
                Fused {
                    sum: Summed {
                        left: Left::Codes { codes: at(g.a.buf, 0), scales: g.k, row: 0 },
                        right: Right::Blocks {
                            from: at(*g.w->Q_data, 0),
                            row: col,
                            format: g.w->ty.spec_id() as int,
                            block: g.w->ty.spec_block_size(),
                            stride: g.w->ty.spec_device_stride(),
                        },
                        from: 0,
                        until: g.k,
                        bias: None,
                        gelu: false,
                        to: at(g.h, col),
                    },
                    len: g.n,
                    weight: at(g.weight, col),
                    shift: None,
                    eps: g.eps,
                    to: at(g.row(s, at_), col),
                },
            )
            &&& arg_at(c, 11, 0) == at(g.twin(s, at_).buf, 0)
            &&& arg_int(c, 12) == g.n
            &&& g.twin(s, at_).rows == 1 && g.twin(s, at_).k == g.n
        }),
        g.w is Q && (g.w->ty == Quant::Q4K || g.w->ty == Quant::Q6K),
        g.w.spec_len() >= g.n * (g.k / 256) * g.w->ty.spec_device_stride(),
        g.h.len >= g.n && g.weight.len >= g.n,
{
    every_column_has_a_warp(g.n, 1, 1);
    assert(1 * g.k == g.k);
    assert(g.a.rows * g.a.k == g.k) by (nonlinear_arith)
        requires
            g.a.rows == 1,
            g.a.k == g.k,
    ;
}

/// What the three projections in one launch do with column `col` of all three.
pub open spec fn fused_projection(c: Cmd, col: int) -> Option<Summed> {
    let (k, d, w, cap, pos) = (
        arg_int(c, 5),
        arg_int(c, 6),
        arg_int(c, 7),
        arg_int(c, 8),
        arg_int(c, 9),
    );
    let (part, j) = (col / d, col % d);
    if c->kernel == Kernel::GemvQkvF16 && has_warp(c, 0, 0, col) && col < 3 * d {
        Some(
            Summed {
                left: Left::Floats(arg_at(c, 0, 0)),
                right: Right::Halves(arg_at(c, 1, 2 * (col * (k / 2)))),
                from: 0,
                until: k,
                bias: arg_at(c, 2 + part, j),
                gelu: false,
                to: if part == 0 {
                    arg_at(c, 10, j)
                } else if part == 1 {
                    arg_at(c, 11, (j / w * cap + pos) * w + j % w)
                } else {
                    arg_at(c, 12, j * cap + pos)
                },
            },
        )
    } else {
        None
    }
}

/// Three projections in one launch that are not refused: column `j` of each is the row and row
/// `j` of its own third of the weight, with column `j` of its own bias exactly where that is
/// given; the first goes to column `j` of the query, the second to position `pos` of its head's
/// keys and the third to position `pos` of its own row of the values, all inside their buffers.
pub proof fn three_projections_go_to_their_places(g: Qkv<'_>, part: int, j: int)
    requires
        g.refusal() is None,
        g.bias.len() == 3,
        int_fits(g.k) && int_fits(3 * g.d) && int_fits(g.head_dim) && int_fits(g.cap),
        0 <= g.pos,
        0 <= part < 3,
        0 <= j < g.d,
    ensures
        ({
            let (h, e) = (j / g.head_dim, j % g.head_dim);
            &&& fused_projection(g.qkv_launch(), flat2(part, j, g.d)) == Some(
                Summed {
                    left: Left::Floats(at(g.a, 0)),
                    right: Right::Halves(at(g.w, flat2(flat2(part, j, g.d), 0, g.k))),
                    from: 0,
                    until: g.k,
                    bias: maybe_at(g.bias[part], j),
                    gelu: false,
                    to: if part == 0 {
                        at(g.q, j)
                    } else if part == 1 {
                        at(g.kc, (h * g.cap + g.pos) * g.head_dim + e)
                    } else {
                        at(g.vc, j * g.cap + g.pos)
                    },
                },
            )
            &&& g.a.len >= g.k && g.w.len >= 3 * g.d * g.k
            &&& g.bias[part] is Some ==> g.bias[part]->0.len >= g.d
            &&& j < g.q.len
            &&& 0 <= (h * g.cap + g.pos) * g.head_dim + e < g.kc.len
            &&& 0 <= j * g.cap + g.pos < g.vc.len
        }),
{
    let c = g.qkv_launch();
    every_column_has_a_warp(3 * g.d, 1, 1);
    lemma_flat2(part, j, g.d, 3);
    lemma_halves(0, 0, flat2(part, j, g.d), g.k, 1);
    let (h, e, w) = (j / g.head_dim, j % g.head_dim, g.head_dim);
    vstd::arithmetic::div_mod::lemma_fundamental_div_mod(j, w);
    vstd::arithmetic::div_mod::lemma_fundamental_div_mod(g.d, w);
    let heads = g.d / w;
    assert(0 <= h < heads) by (nonlinear_arith)
        requires
            0 <= j < g.d,
            0 < w,
            j == w * h + e,
            0 <= e < w,
            g.d == w * heads,
    ;
    assert(0 <= (h * g.cap + g.pos) * w + e < heads * w * g.cap) by (nonlinear_arith)
        requires
            0 <= h < heads,
            0 <= g.pos < g.cap,
            0 <= e < w,
    ;
    assert(heads * w == g.d) by (nonlinear_arith)
        requires
            g.d == w * heads,
    ;
    assert(0 <= j * g.cap + g.pos < g.d * g.cap) by (nonlinear_arith)
        requires
            0 <= j < g.d,
            0 <= g.pos < g.cap,
    ;
}

/// Whether a launch rounds each of the first `n` elements of `x` across into `out`, and no
/// others.
pub open spec fn rounds(c: Cmd, x: CudaSlice<Fp32>, out: CudaSlice<u16>, n: int) -> bool {
    &&& has_threads(c, n)
    &&& forall|i: int| 0 <= i ==> #[trigger] rounded(c, i) == if i < n {
        Some(stored(Fun::Round, seq![at(x, i)], at(out, i)))
    } else {
        None
    }
}

/// Whether a launch codes each group of 32 of `rows` rows of `k`, which lie `m` to a product
/// and the products `sa` apart, into a twin: a row's codes after the row's before it, and its
/// scales after all the codes.
pub open spec fn codes(
    c: Cmd,
    a: CudaSlice<Fp32>,
    q: Q8,
    k: int,
    rows: int,
    sa: int,
    m: int,
) -> bool {
    forall|z: int, row: int, j: int|
        0 <= z && 0 <= row < m && z * m + row < rows && 0 <= j < k / 32 ==> quantized(
            c,
            #[trigger] flat3(z, row, j, m, k / 32),
        ) == Some(
            (
                at(a, z * sa + row * k + j * 32),
                at(q.buf, (z * m + row) * k + j * 32),
                rows * k,
                flat3(z, row, j, m, k / 32),
            ),
        )
}

/// [`every_group_is_coded`] of every group.
pub proof fn every_group_of_every_row_is_coded(
    at_: int,
    a: CudaSlice<Fp32>,
    k: int,
    rows: int,
    sa: int,
    m: int,
)
    requires
        int_fits(k) && int_fits(rows) && int_fits(rows * k) && 0 <= sa <= i64::MAX && int_fits(m),
    ensures
        quantize_cmds(at_, a, k, rows, sa, m).len() == 2,
        codes(
            quantize_cmds(at_, a, k, rows, sa, m).last(),
            a,
            Q8 { buf: made::<i8>(at_, q8_bytes(rows, k)), rows: rows as usize, k: k as usize },
            k,
            rows,
            sa,
            m,
        ),
{
    let c = quantize_cmds(at_, a, k, rows, sa, m).last();
    assert forall|z: int, row: int, j: int|
        0 <= z && 0 <= row < m && z * m + row < rows && 0 <= j < k / 32 implies quantized(
        c,
        #[trigger] flat3(z, row, j, m, k / 32),
    ) == Some(
        (
            at(a, z * sa + row * k + j * 32),
            at(made::<i8>(at_, q8_bytes(rows, k)), (z * m + row) * k + j * 32),
            rows * k,
            flat3(z, row, j, m, k / 32),
        ),
    ) by {
        every_group_is_coded(at_, a, k, rows, sa, m, z, row, j);
    }
}

/// Where column `col` of a placed row is in its buffer.
pub open spec fn place_of(layout: OutLayout, col: int) -> int {
    match layout {
        OutLayout::Row => col,
        OutLayout::KeyCache { head_dim, cap, pos } => (col / head_dim as int * cap + pos) * head_dim
            + col % head_dim as int,
        OutLayout::ValueCache { cap, pos } => col * cap + pos,
    }
}

/// Whether a launch sums every column of a placed row into its place.
pub open spec fn places(c: Cmd, g: PlacedGemv<'_>) -> bool {
    forall|col: int|
        0 <= col < g.n ==> #[trigger] gemv(c, 0, 0, col) == Some(
            Summed {
                left: Left::Floats(at(g.x, 0)),
                right: match g.w {
                    Operand::F16(w) => Right::Halves(at(*w, flat2(col, 0, g.k))),
                    Operand::F32(w) => Right::Floats(at(*w, flat2(col, 0, g.k))),
                    _ => arbitrary(),
                },
                from: 0,
                until: g.k,
                bias: maybe_at(g.bias, col),
                gelu: g.gelu,
                to: at(g.out, place_of(g.layout, col)),
            },
        ) && 0 <= place_of(g.layout, col) < g.out.len
}

/// Whether the sizes of a placed row are the device's integers.
pub open spec fn placed_ints_fit(g: PlacedGemv<'_>) -> bool {
    &&& int_fits(g.k) && int_fits(g.n)
    &&& int_fits(g.layout.strides().0) && int_fits(g.layout.strides().1)
    &&& int_fits(g.layout.strides().2) && 0 <= g.layout.strides().3 <= i64::MAX
}

/// [`every_column_of_a_placed_row_goes_to_its_place`], of all of them.
pub proof fn a_placed_row_goes_to_its_place(g: PlacedGemv<'_>)
    requires
        g.refusal() is None,
        placed_ints_fit(g),
    ensures
        places(g.placed_launch(), g),
{
    assert forall|col: int| 0 <= col < g.n implies #[trigger] gemv(g.placed_launch(), 0, 0, col)
        == Some(
        Summed {
            left: Left::Floats(at(g.x, 0)),
            right: match g.w {
                Operand::F16(w) => Right::Halves(at(*w, flat2(col, 0, g.k))),
                Operand::F32(w) => Right::Floats(at(*w, flat2(col, 0, g.k))),
                _ => arbitrary(),
            },
            from: 0,
            until: g.k,
            bias: maybe_at(g.bias, col),
            gelu: g.gelu,
            to: at(g.out, place_of(g.layout, col)),
        },
    ) && 0 <= place_of(g.layout, col) < g.out.len by {
        every_column_of_a_placed_row_goes_to_its_place(g, col);
    }
}

/// Whether a launch adds every column of a projection to the residual and leaves the layer
/// norm of it in `x`.
pub open spec fn projects_and_layer_norms(c: Cmd, g: GemvLn<'_>, x: CudaSlice<Fp32>) -> bool {
    forall|col: int|
        0 <= col < g.n ==> #[trigger] fused_layer_norm(c, col) == Some(
            Fused {
                sum: Summed {
                    left: Left::Floats(at(g.a, 0)),
                    right: Right::Halves(at(g.w, flat2(col, 0, g.k))),
                    from: 0,
                    until: g.k,
                    bias: maybe_at(g.bias, col),
                    gelu: false,
                    to: at(g.h, col),
                },
                len: g.n,
                weight: at(g.weight, col),
                shift: at(g.shift, col),
                eps: g.eps,
                to: at(x, col),
            },
        )
}

/// [`every_column_is_projected_and_layer_normed`], of all of them; and the bias' argument is
/// null exactly where there is no bias.
pub proof fn a_row_is_projected_and_layer_normed(g: GemvLn<'_>, s: NormScratch, at_: int)
    requires
        g.refusal() is None,
    ensures
        g.commands(s, at_).len() > 0,
        ({
            let c = g.commands(s, at_).last();
            &&& arg_given(c, 2) <==> g.bias is Some
            &&& arg_at(c, 2, 0) == maybe_at(g.bias, 0)
            &&& int_fits(g.k) && int_fits(g.n) ==> projects_and_layer_norms(c, g, g.row(s, at_))
        }),
{
    let c = g.commands(s, at_).last();
    if int_fits(g.k) && int_fits(g.n) {
        assert forall|col: int| 0 <= col < g.n implies #[trigger] fused_layer_norm(c, col) == Some(
            Fused {
                sum: Summed {
                    left: Left::Floats(at(g.a, 0)),
                    right: Right::Halves(at(g.w, flat2(col, 0, g.k))),
                    from: 0,
                    until: g.k,
                    bias: maybe_at(g.bias, col),
                    gelu: false,
                    to: at(g.h, col),
                },
                len: g.n,
                weight: at(g.weight, col),
                shift: at(g.shift, col),
                eps: g.eps,
                to: at(g.row(s, at_), col),
            },
        ) by {
            every_column_is_projected_and_layer_normed(g, s, at_, col);
        }
    }
}

/// Whether a launch adds every column of a packed projection to the residual, leaves the
/// root-mean-square norm of it in `x`, and takes the twin `q` of that.
pub open spec fn projects_and_rms_norms(
    c: Cmd,
    g: GemvNorm<'_>,
    x: CudaSlice<Fp32>,
    q: Q8,
) -> bool {
    &&& arg_at(c, 11, 0) == at(q.buf, 0) && arg_int(c, 12) == g.n && q.rows == 1 && q.k == g.n
    &&& forall|col: int|
        0 <= col < g.n ==> #[trigger] fused_rms_norm(c, col) == Some(
            Fused {
                sum: Summed {
                    left: Left::Codes { codes: at(g.a.buf, 0), scales: g.k, row: 0 },
                    right: Right::Blocks {
                        from: at(*g.w->Q_data, 0),
                        row: col,
                        format: g.w->ty.spec_id() as int,
                        block: g.w->ty.spec_block_size(),
                        stride: g.w->ty.spec_device_stride(),
                    },
                    from: 0,
                    until: g.k,
                    bias: None,
                    gelu: false,
                    to: at(g.h, col),
                },
                len: g.n,
                weight: at(g.weight, col),
                shift: None,
                eps: g.eps,
                to: at(x, col),
            },
        )
}

/// [`every_column_is_projected_and_rms_normed`], of all of them.
pub proof fn a_row_is_projected_and_rms_normed(g: GemvNorm<'_>, s: NormScratch, at_: int)
    requires
        g.refusal() is None,
        int_fits(g.k) && 0 < g.n <= i32::MAX,
    ensures
        g.commands(s, at_).len() > 0,
        projects_and_rms_norms(g.commands(s, at_).last(), g, g.row(s, at_), g.twin(s, at_)),
{
    let c = g.commands(s, at_).last();
    every_column_is_projected_and_rms_normed(g, s, at_, 0);
    assert forall|col: int| 0 <= col < g.n implies #[trigger] fused_rms_norm(c, col) == Some(
        Fused {
            sum: Summed {
                left: Left::Codes { codes: at(g.a.buf, 0), scales: g.k, row: 0 },
                right: Right::Blocks {
                    from: at(*g.w->Q_data, 0),
                    row: col,
                    format: g.w->ty.spec_id() as int,
                    block: g.w->ty.spec_block_size(),
                    stride: g.w->ty.spec_device_stride(),
                },
                from: 0,
                until: g.k,
                bias: None,
                gelu: false,
                to: at(g.h, col),
            },
            len: g.n,
            weight: at(g.weight, col),
            shift: None,
            eps: g.eps,
            to: at(g.row(s, at_), col),
        },
    ) by {
        every_column_is_projected_and_rms_normed(g, s, at_, col);
    }
}

/// Whether a launch makes three projections of one row and puts each in its place.
pub open spec fn projects_three(c: Cmd, g: Qkv<'_>) -> bool {
    forall|part: int, j: int|
        0 <= part < 3 && 0 <= j < g.d ==> fused_projection(c, #[trigger] flat2(part, j, g.d))
            == Some(
            Summed {
                left: Left::Floats(at(g.a, 0)),
                right: Right::Halves(at(g.w, flat2(flat2(part, j, g.d), 0, g.k))),
                from: 0,
                until: g.k,
                bias: maybe_at(g.bias[part], j),
                gelu: false,
                to: if part == 0 {
                    at(g.q, j)
                } else if part == 1 {
                    at(g.kc, (j / g.head_dim * g.cap + g.pos) * g.head_dim + j % g.head_dim)
                } else {
                    at(g.vc, j * g.cap + g.pos)
                },
            },
        )
}

/// [`three_projections_go_to_their_places`], of every column.
pub proof fn three_rows_go_to_their_places(g: Qkv<'_>)
    requires
        g.refusal() is None,
        g.bias.len() == 3,
        int_fits(g.k) && int_fits(3 * g.d) && int_fits(g.head_dim) && int_fits(g.cap),
        0 <= g.pos,
    ensures
        projects_three(g.qkv_launch(), g),
{
    let c = g.qkv_launch();
    assert forall|part: int, j: int| 0 <= part < 3 && 0 <= j < g.d implies fused_projection(
        c,
        #[trigger] flat2(part, j, g.d),
    ) == Some(
        Summed {
            left: Left::Floats(at(g.a, 0)),
            right: Right::Halves(at(g.w, flat2(flat2(part, j, g.d), 0, g.k))),
            from: 0,
            until: g.k,
            bias: maybe_at(g.bias[part], j),
            gelu: false,
            to: if part == 0 {
                at(g.q, j)
            } else if part == 1 {
                at(g.kc, (j / g.head_dim * g.cap + g.pos) * g.head_dim + j % g.head_dim)
            } else {
                at(g.vc, j * g.cap + g.pos)
            },
        },
    ) by {
        three_projections_go_to_their_places(g, part, j);
    }
}

/// Whether a queue ends, from `from` on, with a product into `out` whose bias comes on top of
/// it once: in the last launch.
pub open spec fn adds_bias_once(
    q: Seq<Cmd>,
    from: int,
    bias: Option<&CudaSlice<Fp32>>,
) -> bool {
    &&& from < q.len()
    &&& bias_of(q.last()) == maybe_at(bias, 0)
    &&& forall|i: int| from <= i < q.len() - 1 ==> #[trigger] bias_of(q[i]) is None
}

/// Whether a queue that ends with the launches of a product sums every element of it: at once,
/// or in slices of the contraction and then over the slices.
pub open spec fn multiplies(q: Seq<Cmd>, g: Gemm<'_>, at_: int, out: CudaSlice<Fp32>) -> bool {
    let all = g.batch.count * g.m * g.n;
    if g.split() == 1 {
        q.len() >= 1 && forall|b: int, row: int, col: int|
            0 <= b < g.batch.count && 0 <= row < g.m && 0 <= col < g.n ==> is_product(
                g,
                at_,
                b,
                row,
                col,
                #[trigger] summed(q.last(), b, row, col, 0),
                0,
                g.k,
                maybe_at(g.bias, col),
                at(out, b * g.batch.out + flat2(row, col, g.n)),
            )
    } else {
        &&& q.len() >= 2
        &&& slice_of(g) * g.split() >= g.k
        &&& q.len() <= usize::MAX ==> made_in(q, g.partial(at_), Elem::F32, g.split() * all)
        &&& forall|b: int, row: int, col: int, slice: int|
            0 <= b < g.batch.count && 0 <= row < g.m && 0 <= col < g.n && 0 <= slice < g.split()
                ==> is_product(
                g,
                at_,
                b,
                row,
                col,
                #[trigger] summed(q[q.len() - 2], b, row, col, slice),
                slice * slice_of(g),
                min(g.k, slice * slice_of(g) + slice_of(g)),
                None,
                at(g.partial(at_), slice * all + flat2(flat2(b, row, g.m), col, g.n)),
            )
        &&& forall|b: int, row: int, col: int|
            0 <= b < g.batch.count && 0 <= row < g.m && 0 <= col < g.n ==> reduced(
                q.last(),
                #[trigger] flat2(flat2(b, row, g.m), col, g.n),
            ) == Some(
                (
                    g.split(),
                    at(g.partial(at_), flat2(flat2(b, row, g.m), col, g.n)),
                    all,
                    maybe_at(g.bias, col),
                    at(out, flat2(flat2(b, row, g.m), col, g.n)),
                ),
            )
    }
}

/// Whether the sizes of a product, and of its slices, are the device's integers.
pub open spec fn sliced_ints_fit(g: Gemm<'_>) -> bool {
    &&& product_ints_fit(g)
    &&& int_fits(g.batch.count * g.m * g.n) && int_fits(g.m * g.n)
    &&& g.split() * (g.batch.count * g.m * g.n) <= usize::MAX
}

/// A product that is not refused sums every element of every product of its batch.
pub proof fn every_product_is_summed(g: Gemm<'_>, at_: int, before: Seq<Cmd>)
    requires
        g.refusal() is None,
        sliced_ints_fit(g),
        at_ == before.len(),
    ensures
        multiplies(before + g.commands(at_), g, at_, made::<Fp32>(at_, g.out_len())),
{
    let q = before + g.commands(at_);
    let out = made::<Fp32>(at_, g.out_len());
    let all = g.batch.count * g.m * g.n;
    ksplit_is_bounded(g.m, g.k, g.n, g.batch.count as int);
    crate::gemm::accepted_products_launch_once(g, at_);
    assert(g.split() >= 1);
    if g.split() == 1 {
        assert(q.last() == g.main_launch(at_));
        assert forall|b: int, row: int, col: int|
            0 <= b < g.batch.count && 0 <= row < g.m && 0 <= col < g.n implies is_product(
            g,
            at_,
            b,
            row,
            col,
            #[trigger] summed(q.last(), b, row, col, 0),
            0,
            g.k,
            maybe_at(g.bias, col),
            at(out, b * g.batch.out + flat2(row, col, g.n)),
        ) by {
            every_element_is_its_row_and_its_weight(g, at_, b, row, col);
        }
    } else {
        let c = g.commands(at_);
        assert(q.last() == c.last());
        assert(g.split() * g.batch.count * g.m * g.n == g.split() * all) by (nonlinear_arith)
            requires
                all == g.batch.count * g.m * g.n,
        ;
        assert(c[1 + g.twin_cmds(at_).len() as int] == g.partial_cmds()[0]);
        assert(q[q.len() - 2] == g.main_launch(at_));
        lemma_slices_cover(g.k, g.split(), if g.int8() { 64 } else { 32 });
        assert forall|b: int, row: int, col: int, slice: int|
            0 <= b < g.batch.count && 0 <= row < g.m && 0 <= col < g.n && 0 <= slice < g.split()
                implies is_product(
            g,
            at_,
            b,
            row,
            col,
            #[trigger] summed(q[q.len() - 2], b, row, col, slice),
            slice * slice_of(g),
            min(g.k, slice * slice_of(g) + slice_of(g)),
            None,
            at(g.partial(at_), slice * all + flat2(flat2(b, row, g.m), col, g.n)),
        ) by {
            the_slices_of_every_element_are_summed(g, at_, b, row, col, slice);
        }
        assert forall|b: int, row: int, col: int|
            0 <= b < g.batch.count && 0 <= row < g.m && 0 <= col < g.n implies reduced(
            q.last(),
            #[trigger] flat2(flat2(b, row, g.m), col, g.n),
        ) == Some(
            (
                g.split(),
                at(g.partial(at_), flat2(flat2(b, row, g.m), col, g.n)),
                all,
                maybe_at(g.bias, col),
                at(out, flat2(flat2(b, row, g.m), col, g.n)),
            ),
        ) by {
            the_slices_of_every_element_are_summed(g, at_, b, row, col, 0);
        }
    }
}

/// The fused mat-vecs are handed the counter their blocks meet over, which starts at zero where
/// it is new, and the packed one its partials, a float a block.
pub proof fn a_fused_row_is_handed_its_scratch(
    l: GemvLn<'_>,
    g: GemvNorm<'_>,
    s: NormScratch,
    at_: int,
)
    requires
        l.refusal() is None,
        g.refusal() is None,
    ensures
        arg_at(l.commands(s, at_).last(), 10, 0) == at(s.with_counter(at_).ctr->0, 0),
        arg_at(g.commands(s, at_).last(), 13, 0) == at(s.grown(at_, g.blocks()).part->0, 0),
        arg_at(g.commands(s, at_).last(), 14, 0) == at(s.with_counter(at_).ctr->0, 0),
        s.ctr is None ==> {
            let first = Cmd::Alloc { elem: Elem::U32, len: 1, zeroed: true };
            &&& l.commands(s, at_)[0] == first
            &&& g.commands(s, at_)[0] == first
            &&& s.with_counter(at_).ctr->0 == made::<u32>(at_, 1)
        },
        s.ctr is Some ==> s.with_counter(at_).ctr == s.ctr,
        s.part is None || s.blocks < ceil_div(g.n, 8) ==> s.grown(at_, g.blocks()).part->0.len
            == ceil_div(g.n, 8) as usize,
{
    if s.ctr is None {
        assert(l.commands(s, at_)[0] == s.ctr_cmds()[0]);
        assert(g.commands(s, at_)[0] == s.ctr_cmds()[0]);
    }
}

} // verus!
