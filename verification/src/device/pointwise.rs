//! Pointwise kernels: a thread an element.

use super::{
    arg_at, arg_float, arg_given, arg_int, at, flat2, has_a_block_a_row, has_threads, int_fits,
    ints_fit, lemma_flat_runs, lemma_rows, maybe_at, stored, three_ints_fit, Fun, Store,
};
use crate::attention::causal_mask_cmd;
use crate::buffer::{CudaSlice, FloatBits, Fp32};
use crate::checked::{attn_weights_update_cmd, embed_launch, gate_add_cmd, relu_mask_cmd};
use crate::elementwise::{
    add_inplace_cmd, add_strided_cmd, coupling_inverse_cmd, elu_cmd, embed_scaled_cmd,
    expand_prior_cmd, gated_activation_cmd, gated_activation_rows_cmd, gelu_cmd, gelu_f16_cmd,
    gelu_tanh_cmd, leaky_relu_cmd, linear_cmd, lstm_gates_cmd, mish_cmd, mul_inplace_cmd,
    relu_cmd, scale_inplace_cmd, silu_cmd, snake_cmd, sub_inplace_cmd, tanh_cmd,
};
use crate::names::Kernel;
use crate::norm::{silu_mul_cmd, silu_mul_halves_cmd, silu_mul_pair_cmd, silu_mul_q_cmd};
use crate::operand::Q8;
use crate::quant::Quant;
use crate::queue::Cmd;
use vstd::prelude::*;

verus! {

/// A function of one element in place, for each of the `n` that the second argument
/// counts.
pub open spec fn in_place(c: Cmd, i: int, fun: Fun) -> Option<Store> {
    if i < arg_int(c, 1) {
        Some(stored(fun, seq![arg_at(c, 0, i)], arg_at(c, 0, i)))
    } else {
        None
    }
}

/// A function of two elements in the place of the first, for each of the `n` that the
/// third argument counts.
pub open spec fn onto_the_first(c: Cmd, i: int, fun: Fun) -> Option<Store> {
    if i < arg_int(c, 2) {
        Some(stored(fun, seq![arg_at(c, 0, i), arg_at(c, 1, i)], arg_at(c, 0, i)))
    } else {
        None
    }
}

/// What thread `i` of an activation's kernel does.
pub open spec fn activation(c: Cmd, i: int) -> Option<Store> {
    match c->kernel {
        Kernel::ActRelu => in_place(c, i, Fun::Relu),
        Kernel::ActTanh => in_place(c, i, Fun::Tanh),
        Kernel::ActGelu => in_place(c, i, Fun::Gelu),
        Kernel::ActSilu => in_place(c, i, Fun::Silu),
        Kernel::ActGeluTanh => in_place(c, i, Fun::GeluTanh),
        Kernel::ActMish => in_place(c, i, Fun::Mish),
        Kernel::ActElu => in_place(c, i, Fun::Elu),
        Kernel::ActLeakyRelu => if i < arg_int(c, 1) {
            Some(
                Store {
                    fun: Fun::LeakyRelu,
                    reads: seq![arg_at(c, 0, i)],
                    scalars: seq![arg_float(c, 2)],
                    to: seq![arg_at(c, 0, i)],
                },
            )
        } else {
            None
        },
        Kernel::ScaleInplace => if i < arg_int(c, 1) {
            Some(
                Store {
                    fun: Fun::Product,
                    reads: seq![arg_at(c, 0, i)],
                    scalars: seq![arg_float(c, 2)],
                    to: seq![arg_at(c, 0, i)],
                },
            )
        } else {
            None
        },
        Kernel::ActGeluF16 => if i < arg_int(c, 2) {
            Some(stored(Fun::GeluRounded, seq![arg_at(c, 0, i)], arg_at(c, 1, i)))
        } else {
            None
        },
        Kernel::AddInplace => onto_the_first(c, i, Fun::Sum),
        Kernel::MulInplace => onto_the_first(c, i, Fun::Product),
        Kernel::SubInplace => onto_the_first(c, i, Fun::Difference),
        _ => None,
    }
}

/// Whether a launch makes `fun` of each of the first `n` elements of `x`, where it is,
/// and touches nothing else.
pub open spec fn applies(
    c: Cmd,
    fun: Fun,
    scalars: Seq<FloatBits>,
    x: CudaSlice<Fp32>,
    n: int,
) -> bool {
    &&& has_threads(c, n)
    &&& forall|i: int| 0 <= i ==> #[trigger] activation(c, i) == if i < n {
        Some(Store { fun, reads: seq![at(x, i)], scalars, to: seq![at(x, i)] })
    } else {
        None
    }
}

/// Whether a launch makes `fun` of each of the first `n` elements of `a` and the one of
/// `b` across from it, in the place of the former, and touches nothing else.
pub open spec fn joins(
    c: Cmd,
    fun: Fun,
    a: CudaSlice<Fp32>,
    b: CudaSlice<Fp32>,
    n: int,
) -> bool {
    &&& has_threads(c, n)
    &&& forall|i: int| 0 <= i ==> #[trigger] activation(c, i) == if i < n {
        Some(stored(fun, seq![at(a, i), at(b, i)], at(a, i)))
    } else {
        None
    }
}

/// Each activation makes its own function of the first `n` elements, where they are, and
/// of no others.
pub proof fn activations_are_applied(x: &CudaSlice<Fp32>, n: usize, s: FloatBits)
    requires
        int_fits(n as int),
    ensures
        applies(relu_cmd(x, n), Fun::Relu, Seq::empty(), *x, n as int),
        applies(tanh_cmd(x, n), Fun::Tanh, Seq::empty(), *x, n as int),
        applies(gelu_cmd(x, n), Fun::Gelu, Seq::empty(), *x, n as int),
        applies(silu_cmd(x, n), Fun::Silu, Seq::empty(), *x, n as int),
        applies(gelu_tanh_cmd(x, n), Fun::GeluTanh, Seq::empty(), *x, n as int),
        applies(mish_cmd(x, n), Fun::Mish, Seq::empty(), *x, n as int),
        applies(elu_cmd(x, n), Fun::Elu, Seq::empty(), *x, n as int),
        applies(leaky_relu_cmd(x, n, s), Fun::LeakyRelu, seq![s], *x, n as int),
        applies(scale_inplace_cmd(x, n, s), Fun::Product, seq![s], *x, n as int),
{
    lemma_flat_runs(relu_cmd(x, n), n as int);
    lemma_flat_runs(tanh_cmd(x, n), n as int);
    lemma_flat_runs(gelu_cmd(x, n), n as int);
    lemma_flat_runs(silu_cmd(x, n), n as int);
    lemma_flat_runs(gelu_tanh_cmd(x, n), n as int);
    lemma_flat_runs(mish_cmd(x, n), n as int);
    lemma_flat_runs(elu_cmd(x, n), n as int);
    lemma_flat_runs(leaky_relu_cmd(x, n, s), n as int);
    lemma_flat_runs(scale_inplace_cmd(x, n, s), n as int);
}

/// Two buffers are summed, multiplied and subtracted element by element, in the place of
/// the first.
pub proof fn buffers_are_joined(a: &CudaSlice<Fp32>, b: &CudaSlice<Fp32>, n: usize)
    requires
        int_fits(n as int),
    ensures
        joins(add_inplace_cmd(a, b, n), Fun::Sum, *a, *b, n as int),
        joins(mul_inplace_cmd(a, b, n), Fun::Product, *a, *b, n as int),
        joins(sub_inplace_cmd(a, b, n), Fun::Difference, *a, *b, n as int),
{
    lemma_flat_runs(add_inplace_cmd(a, b, n), n as int);
    lemma_flat_runs(mul_inplace_cmd(a, b, n), n as int);
    lemma_flat_runs(sub_inplace_cmd(a, b, n), n as int);
}

/// Whether a launch leaves the GELU of each of the first `n` elements of `x` across from
/// it in `out`, rounded.
pub open spec fn rounds_gelu(c: Cmd, x: CudaSlice<Fp32>, out: CudaSlice<u16>, n: int) -> bool {
    &&& has_threads(c, n)
    &&& forall|i: int| 0 <= i ==> #[trigger] activation(c, i) == if i < n {
        Some(stored(Fun::GeluRounded, seq![at(x, i)], at(out, i)))
    } else {
        None
    }
}

/// The GELU of every element is rounded into the output, across from it.
pub proof fn gelu_is_rounded_across(x: &CudaSlice<Fp32>, n: usize, out: CudaSlice<u16>)
    requires
        int_fits(n as int),
    ensures
        rounds_gelu(gelu_f16_cmd(x, n, out), *x, out, n as int),
{
    lemma_flat_runs(gelu_f16_cmd(x, n, out), n as int);
}

/// What thread `i` of a kernel over rows and columns does.
pub open spec fn rectangular(c: Cmd, i: int) -> Option<Store> {
    match c->kernel {
        Kernel::ActSnake => {
            let (ch, t) = (arg_int(c, 2), arg_int(c, 3));
            if i < ch * t {
                Some(
                    stored(Fun::Snake, seq![arg_at(c, 0, i), arg_at(c, 1, i / t)], arg_at(c, 0, i)),
                )
            } else {
                None
            }
        },
        Kernel::GatedActivation => {
            let (ch, t) = (arg_int(c, 2), arg_int(c, 3));
            let (j, p) = (i / t, i - i / t * t);
            if i < ch * t {
                Some(
                    stored(
                        Fun::Gate,
                        seq![arg_at(c, 0, j * t + p), arg_at(c, 0, (ch + j) * t + p)],
                        arg_at(c, 1, i),
                    ),
                )
            } else {
                None
            }
        },
        Kernel::GatedActivationRows => {
            let (ch, t) = (arg_int(c, 2), arg_int(c, 3));
            let (p, j) = (i / ch, i - i / ch * ch);
            if i < ch * t {
                Some(
                    stored(
                        Fun::Gate,
                        seq![
                            arg_at(c, 0, p * (2 * ch) + j),
                            arg_at(c, 0, p * (2 * ch) + (ch + j)),
                        ],
                        arg_at(c, 1, i),
                    ),
                )
            } else {
                None
            }
        },
        Kernel::CouplingInverse => {
            let (half, t) = (arg_int(c, 3), arg_int(c, 4));
            let (j, p) = (i / t, i - i / t * t);
            if i < half * t {
                Some(
                    stored(
                        Fun::Coupling,
                        seq![
                            arg_at(c, 0, i),
                            arg_at(c, 1, j * t + p),
                            arg_at(c, 1, (half + j) * t + p),
                        ],
                        arg_at(c, 2, i),
                    ),
                )
            } else {
                None
            }
        },
        Kernel::AddStrided => {
            let (cols, rows) = (arg_int(c, 2), arg_int(c, 5));
            let (r, j) = (i / cols, i - i / cols * cols);
            if i < cols * rows {
                Some(
                    stored(
                        Fun::Sum,
                        seq![
                            arg_at(c, 0, i),
                            arg_at(c, 1, r * arg_int(c, 3) + arg_int(c, 4) + j),
                        ],
                        arg_at(c, 0, i),
                    ),
                )
            } else {
                None
            }
        },
        Kernel::GateAdd => {
            let (off, cols) = (arg_int(c, 3), arg_int(c, 4));
            if i < arg_int(c, 5) {
                Some(
                    stored(
                        Fun::SumOfProduct,
                        seq![arg_at(c, 0, i), arg_at(c, 2, off + i % cols), arg_at(c, 1, i)],
                        arg_at(c, 0, i),
                    ),
                )
            } else {
                None
            }
        },
        Kernel::EmbedScaled => {
            let (t, ch) = (arg_int(c, 3), arg_int(c, 4));
            let (p, j) = (i / ch, i - i / ch * ch);
            if i < t * ch {
                Some(
                    Store {
                        fun: Fun::Lookup { width: ch, column: j },
                        reads: seq![arg_at(c, 1, p), arg_at(c, 0, 0)],
                        scalars: seq![arg_float(c, 5)],
                        to: seq![arg_at(c, 2, i)],
                    },
                )
            } else {
                None
            }
        },
        Kernel::ExpandPrior => {
            let (ch, frames) = (arg_int(c, 5), arg_int(c, 6));
            let (j, f) = (i / frames, i - i / frames * frames);
            if i < ch * frames {
                Some(
                    Store {
                        fun: Fun::Prior { width: ch, column: j },
                        reads: seq![
                            arg_at(c, 2, f),
                            arg_at(c, 0, 0),
                            arg_at(c, 1, 0),
                            arg_at(c, 3, i),
                        ],
                        scalars: seq![arg_float(c, 7)],
                        to: seq![arg_at(c, 4, i)],
                    },
                )
            } else {
                None
            }
        },
        Kernel::Linear => {
            let (rows, len, outs) = (arg_int(c, 4), arg_int(c, 5), arg_int(c, 6));
            let (r, o) = (i / outs, i - i / outs * outs);
            if i < rows * outs {
                Some(
                    stored(
                        Fun::Dot { len },
                        seq![arg_at(c, 0, r * len), arg_at(c, 1, o * len), arg_at(c, 2, o)],
                        arg_at(c, 3, i),
                    ),
                )
            } else {
                None
            }
        },
        Kernel::CausalMask => {
            let (tq, tk) = (arg_int(c, 2), arg_int(c, 3));
            if i < arg_int(c, 1) * tq * tk && i % tk > (i / tk) % tq + arg_int(c, 4) {
                Some(stored(Fun::Masked, Seq::empty(), arg_at(c, 0, i)))
            } else {
                None
            }
        },
        _ => None,
    }
}

/// Whether no thread of a launch past the first `n` does anything.
pub open spec fn rests_after(c: Cmd, n: int) -> bool {
    forall|i: int| n <= i ==> #[trigger] rectangular(c, i) is None
}

/// Whether a launch makes a snake of each of `t` elements of `ch` channels of `x`, where
/// it is, by its channel's frequency.
pub open spec fn snakes(
    c: Cmd,
    x: CudaSlice<Fp32>,
    alpha: CudaSlice<Fp32>,
    ch: int,
    t: int,
) -> bool {
    &&& has_threads(c, ch * t)
    &&& rests_after(c, ch * t)
    &&& forall|r: int, k: int|
        0 <= r < ch && 0 <= k < t
            ==> rectangular(c, #[trigger] flat2(r, k, t)) == Some(
                stored(Fun::Snake, seq![at(x, flat2(r, k, t)), at(alpha, r)], at(x, flat2(r, k, t))),
            )
}

/// Every element of a channel is bent by that channel's frequency.
pub proof fn a_snake_has_a_frequency_a_channel(
    x: &CudaSlice<Fp32>,
    alpha: &CudaSlice<Fp32>,
    ch: usize,
    t: usize,
)
    requires
        ints_fit(ch as int, t as int),
    ensures
        snakes(snake_cmd(x, alpha, ch, t), *x, *alpha, ch as int, t as int),
{
    let c = snake_cmd(x, alpha, ch, t);
    lemma_rows((ch as int), (t as int));
    lemma_flat_runs(c, (ch as int) * (t as int));
}

/// Whether a launch gates the first `ch` channels of `t` of `x` by the `ch` after them.
pub open spec fn gates_channels(
    c: Cmd,
    x: CudaSlice<Fp32>,
    out: CudaSlice<Fp32>,
    ch: int,
    t: int,
) -> bool {
    &&& has_threads(c, ch * t)
    &&& rests_after(c, ch * t)
    &&& forall|r: int, k: int|
        0 <= r < ch && 0 <= k < t
            ==> rectangular(c, #[trigger] flat2(r, k, t)) == Some(
                stored(
                    Fun::Gate,
                    seq![at(x, flat2(r, k, t)), at(x, flat2(ch + r, k, t))],
                    at(out, flat2(r, k, t)),
                ),
            )
}

/// Each of the first half of the channels is gated by the one across from it in the second.
pub proof fn channels_are_gated_by_channels(
    x: &CudaSlice<Fp32>,
    ch: usize,
    t: usize,
    out: CudaSlice<Fp32>,
)
    requires
        ints_fit(ch as int, t as int),
    ensures
        gates_channels(gated_activation_cmd(x, ch, t, out), *x, out, ch as int, t as int),
{
    let c = gated_activation_cmd(x, ch, t, out);
    lemma_rows((ch as int), (t as int));
    lemma_flat_runs(c, (ch as int) * (t as int));
}

/// Whether a launch gates the first half of each of `t` rows of `2 * ch` by the second.
pub open spec fn gates_rows(
    c: Cmd,
    x: CudaSlice<Fp32>,
    out: CudaSlice<Fp32>,
    ch: int,
    t: int,
) -> bool {
    &&& has_threads(c, ch * t)
    &&& rests_after(c, ch * t)
    &&& forall|r: int, k: int|
        0 <= r < t && 0 <= k < ch ==> rectangular(c, #[trigger] flat2(r, k, ch)) == Some(stored(
            Fun::Gate,
            seq![at(x, flat2(r, k, 2 * ch)), at(x, flat2(r, ch + k, 2 * ch))],
            at(out, flat2(r, k, ch)),
        ))
}

/// The first half of each row is gated by its second.
pub proof fn rows_are_gated_by_their_other_half(
    x: &CudaSlice<Fp32>,
    ch: usize,
    t: usize,
    out: CudaSlice<Fp32>,
)
    requires
        ints_fit(ch as int, t as int),
    ensures
        gates_rows(gated_activation_rows_cmd(x, ch, t, out), *x, out, ch as int, t as int),
{
    let c = gated_activation_rows_cmd(x, ch, t, out);
    lemma_rows((t as int), (ch as int));
    lemma_flat_runs(c, (ch as int) * (t as int));
}

/// Whether a launch undoes a coupling of `half` channels of `t`: by the shifts in the first
/// half of `st` and the scales in the second.
pub open spec fn uncouples(
    c: Cmd,
    x: CudaSlice<Fp32>,
    st: CudaSlice<Fp32>,
    out: CudaSlice<Fp32>,
    half: int,
    t: int,
) -> bool {
    &&& has_threads(c, half * t)
    &&& rests_after(c, half * t)
    &&& forall|r: int, k: int|
        0 <= r < half && 0 <= k < t ==> rectangular(c, #[trigger] flat2(r, k, t)) == Some(stored(
            Fun::Coupling,
            seq![at(x, flat2(r, k, t)), at(st, flat2(r, k, t)), at(st, flat2(half + r, k, t))],
            at(out, flat2(r, k, t)),
        ))
}

/// Every element loses its shift and then its scale.
pub proof fn the_coupling_is_undone(
    x: &CudaSlice<Fp32>,
    st: &CudaSlice<Fp32>,
    half: usize,
    t: usize,
    out: CudaSlice<Fp32>,
)
    requires
        ints_fit(half as int, t as int),
    ensures
        uncouples(coupling_inverse_cmd(x, st, half, t, out), *x, *st, out, half as int, t as int),
{
    let c = coupling_inverse_cmd(x, st, half, t, out);
    lemma_rows((half as int), (t as int));
    lemma_flat_runs(c, (half as int) * (t as int));
}

/// Whether a launch adds to each of `rows` rows of `a` the `cols` columns from `off` on of
/// the same row of `b`, whose rows are `stride` apart.
pub open spec fn adds_columns(
    c: Cmd,
    a: CudaSlice<Fp32>,
    b: CudaSlice<Fp32>,
    cols: int,
    stride: int,
    off: int,
    rows: int,
) -> bool {
    &&& has_threads(c, cols * rows)
    &&& rests_after(c, cols * rows)
    &&& forall|r: int, k: int|
        0 <= r < rows && 0 <= k < cols
            ==> rectangular(c, #[trigger] flat2(r, k, cols)) == Some(
                stored(
                    Fun::Sum,
                    seq![at(a, flat2(r, k, cols)), at(b, r * stride + off + k)],
                    at(a, flat2(r, k, cols)),
                ),
            )
}

/// Every row gets its share of the other's row.
pub proof fn a_column_range_is_added(
    a: &CudaSlice<Fp32>,
    b: &CudaSlice<Fp32>,
    cols: usize,
    stride: usize,
    off: usize,
    rows: usize,
)
    requires
        ints_fit(rows as int, cols as int),
        int_fits(stride as int),
        int_fits(off as int),
    ensures
        adds_columns(
            add_strided_cmd(a, b, cols, stride, off, rows),
            *a,
            *b,
            cols as int,
            stride as int,
            off as int,
            rows as int,
        ),
{
    let c = add_strided_cmd(a, b, cols, stride, off, rows);
    lemma_rows((rows as int), (cols as int));
    lemma_flat_runs(c, (cols as int) * (rows as int));
}

/// Whether a launch adds to each of `rows` rows of `h` the same row of `x`, times the `cols`
/// gates from `off` on of `mods`.
pub open spec fn adds_gated(
    c: Cmd,
    h: CudaSlice<Fp32>,
    x: CudaSlice<Fp32>,
    mods: CudaSlice<Fp32>,
    off: int,
    rows: int,
    cols: int,
) -> bool {
    &&& has_threads(c, rows * cols)
    &&& rests_after(c, rows * cols)
    &&& forall|r: int, k: int|
        0 <= r < rows && 0 <= k < cols
            ==> rectangular(c, #[trigger] flat2(r, k, cols)) == Some(stored(
            Fun::SumOfProduct,
            seq![at(h, flat2(r, k, cols)), at(mods, off + k), at(x, flat2(r, k, cols))],
            at(h, flat2(r, k, cols)),
        ))
}

/// Every row is added through the same gates, a column each.
pub proof fn every_row_is_added_through_the_gates(
    h: &CudaSlice<Fp32>,
    x: &CudaSlice<Fp32>,
    mods: &CudaSlice<Fp32>,
    gate_off: usize,
    rows: usize,
    cols: usize,
)
    requires
        ints_fit(rows as int, cols as int),
        int_fits(gate_off as int),
    ensures
        adds_gated(
            gate_add_cmd(h, x, mods, gate_off, rows, cols),
            *h,
            *x,
            *mods,
            gate_off as int,
            rows as int,
            cols as int,
        ),
{
    let c = gate_add_cmd(h, x, mods, gate_off, rows, cols);
    lemma_rows((rows as int), (cols as int));
    lemma_flat_runs(c, (rows as int) * (cols as int));
}

/// Whether a launch leaves in each of `t` rows of `ch` of `out` the row of the table that
/// the id across from it names, scaled.
pub open spec fn looks_up(
    c: Cmd,
    table: CudaSlice<Fp32>,
    ids: CudaSlice<i64>,
    out: CudaSlice<Fp32>,
    t: int,
    ch: int,
    scale: FloatBits,
) -> bool {
    &&& has_threads(c, t * ch)
    &&& rests_after(c, t * ch)
    &&& forall|r: int, k: int|
        0 <= r < t && 0 <= k < ch ==> rectangular(c, #[trigger] flat2(r, k, ch)) == Some(
            Store {
                fun: Fun::Lookup { width: ch, column: k },
                reads: seq![at(ids, r), at(table, 0)],
                scalars: seq![scale],
                to: seq![at(out, flat2(r, k, ch))],
            },
        )
}

/// Every id gets its own row of the table, column by column, scaled.
pub proof fn every_id_gets_its_row(
    table: &CudaSlice<Fp32>,
    ids: &CudaSlice<i64>,
    t: usize,
    ch: usize,
    scale: FloatBits,
    out: CudaSlice<Fp32>,
)
    requires
        ints_fit(t as int, ch as int),
    ensures
        looks_up(
            embed_scaled_cmd(table, ids, t, ch, scale, out),
            *table,
            *ids,
            out,
            t as int,
            ch as int,
            scale,
        ),
{
    let c = embed_scaled_cmd(table, ids, t, ch, scale, out);
    lemma_rows((t as int), (ch as int));
    lemma_flat_runs(c, (t as int) * (ch as int));
}

/// Whether a launch leaves in each of `frames` frames of `ch` channels of `out` the noise
/// across from it, about the mean and by the spread of the position that the frame is
/// aligned to.
pub open spec fn expands(
    c: Cmd,
    mean: CudaSlice<Fp32>,
    spread: CudaSlice<Fp32>,
    alignment: CudaSlice<i32>,
    noise: CudaSlice<Fp32>,
    out: CudaSlice<Fp32>,
    ch: int,
    frames: int,
    scale: FloatBits,
) -> bool {
    &&& has_threads(c, ch * frames)
    &&& rests_after(c, ch * frames)
    &&& forall|r: int, k: int|
        0 <= r < ch && 0 <= k < frames ==> rectangular(c, #[trigger] flat2(r, k, frames)) == Some(
            Store {
                fun: Fun::Prior { width: ch, column: r },
                reads: seq![
                    at(alignment, k),
                    at(mean, 0),
                    at(spread, 0),
                    at(noise, flat2(r, k, frames)),
                ],
                scalars: seq![scale],
                to: seq![at(out, flat2(r, k, frames))],
            },
        )
}

/// Every frame is drawn about the position it is aligned to, channel by channel.
pub proof fn every_frame_is_drawn_about_its_position(
    m_p: &CudaSlice<Fp32>,
    logs_p: &CudaSlice<Fp32>,
    alignment: &CudaSlice<i32>,
    noise: &CudaSlice<Fp32>,
    ch: usize,
    frames: usize,
    noise_scale: FloatBits,
    out: CudaSlice<Fp32>,
)
    requires
        ints_fit(ch as int, frames as int),
    ensures
        expands(
            expand_prior_cmd(m_p, logs_p, alignment, noise, ch, frames, noise_scale, out),
            *m_p,
            *logs_p,
            *alignment,
            *noise,
            out,
            ch as int,
            frames as int,
            noise_scale,
        ),
{
    let c = expand_prior_cmd(m_p, logs_p, alignment, noise, ch, frames, noise_scale, out);
    lemma_rows((ch as int), (frames as int));
    lemma_flat_runs(c, (ch as int) * (frames as int));
}

/// Whether a launch leaves in each of `outs` columns of each of `rows` rows of `out` the
/// product of that row of `x` and that row of `w`, of `len` each, and the bias of the
/// column where there is one.
pub open spec fn projects(
    c: Cmd,
    x: CudaSlice<Fp32>,
    w: CudaSlice<Fp32>,
    bias: Option<&CudaSlice<Fp32>>,
    out: CudaSlice<Fp32>,
    rows: int,
    len: int,
    outs: int,
) -> bool {
    &&& has_threads(c, rows * outs)
    &&& rests_after(c, rows * outs)
    &&& forall|r: int, k: int|
        0 <= r < rows && 0 <= k < outs ==> rectangular(c, #[trigger] flat2(r, k, outs)) == Some(
            stored(
                Fun::Dot { len },
                seq![at(x, r * len), at(w, k * len), maybe_at(bias, k)],
                at(out, flat2(r, k, outs)),
            ),
        )
}

/// Every row of the input meets every row of the weight once, and a bias that is given is
/// added once to each.
pub proof fn every_row_meets_every_weight(
    x: &CudaSlice<Fp32>,
    w: &CudaSlice<Fp32>,
    bias: Option<&CudaSlice<Fp32>>,
    rows: usize,
    in_c: usize,
    out_c: usize,
    out: CudaSlice<Fp32>,
)
    requires
        ints_fit(rows as int, out_c as int),
        int_fits(in_c as int),
    ensures
        projects(
            linear_cmd(x, w, bias, rows, in_c, out_c, out),
            *x,
            *w,
            bias,
            out,
            rows as int,
            in_c as int,
            out_c as int,
        ),
{
    let c = linear_cmd(x, w, bias, rows, in_c, out_c, out);
    lemma_rows((rows as int), (out_c as int));
    lemma_flat_runs(c, (rows as int) * (out_c as int));
}

/// What thread `j` of a kernel with an order of its own does.
pub open spec fn particular(c: Cmd, j: int) -> Option<Store> {
    match c->kernel {
        Kernel::LstmGates => {
            let h = arg_int(c, 4);
            if j < h {
                Some(
                    Store {
                        fun: Fun::LstmCell,
                        reads: seq![
                            arg_at(c, 0, j),
                            arg_at(c, 1, j),
                            arg_at(c, 0, h + j),
                            arg_at(c, 1, h + j),
                            arg_at(c, 0, 2 * h + j),
                            arg_at(c, 1, 2 * h + j),
                            arg_at(c, 0, 3 * h + j),
                            arg_at(c, 1, 3 * h + j),
                            arg_at(c, 2, j),
                        ],
                        scalars: Seq::empty(),
                        to: seq![arg_at(c, 2, j), arg_at(c, 3, j)],
                    },
                )
            } else {
                None
            }
        },
        Kernel::ReluMask => if j < arg_int(c, 3) {
            Some(
                stored(
                    Fun::ReluTimes,
                    seq![arg_at(c, 0, j), arg_at(c, 1, arg_int(c, 2) + j)],
                    arg_at(c, 0, j),
                ),
            )
        } else {
            None
        },
        Kernel::AttnWeightsUpdate => {
            let t = arg_int(c, 2);
            if j < t {
                Some(
                    Store {
                        fun: Fun::ReplaceAndAdd,
                        reads: seq![arg_at(c, 1, j), arg_at(c, 0, t + j)],
                        scalars: Seq::empty(),
                        to: seq![arg_at(c, 0, j), arg_at(c, 0, t + j)],
                    },
                )
            } else {
                None
            }
        },
        Kernel::SiluMul => if j < arg_int(c, 4) {
            Some(stored(Fun::SiluGate, seq![arg_at(c, 0, j), arg_at(c, 1, j)], arg_at(c, 0, j)))
        } else {
            None
        },
        Kernel::SiluMulPair => {
            let n = arg_int(c, 3);
            if j < n {
                Some(
                    stored(
                        Fun::SiluGate,
                        seq![arg_at(c, 0, j), arg_at(c, 0, j + n)],
                        arg_at(c, 0, j),
                    ),
                )
            } else {
                None
            }
        },
        _ => None,
    }
}

/// Whether each of `hidden` units takes one step: its four gates from the input's side
/// and from the hidden side, its cell in place and its output beside it.
pub open spec fn steps(
    c: Cmd,
    gi: CudaSlice<Fp32>,
    gh: CudaSlice<Fp32>,
    cell: CudaSlice<Fp32>,
    out: CudaSlice<Fp32>,
    hidden: int,
) -> bool {
    &&& has_threads(c, hidden)
    &&& forall|j: int| 0 <= j ==> #[trigger] particular(c, j) == if j < hidden {
        Some(
            Store {
                fun: Fun::LstmCell,
                reads: seq![
                    at(gi, j),
                    at(gh, j),
                    at(gi, hidden + j),
                    at(gh, hidden + j),
                    at(gi, 2 * hidden + j),
                    at(gh, 2 * hidden + j),
                    at(gi, 3 * hidden + j),
                    at(gh, 3 * hidden + j),
                    at(cell, j),
                ],
                scalars: Seq::empty(),
                to: seq![at(cell, j), at(out, j)],
            },
        )
    } else {
        None
    }
}

/// Every unit takes its step from its own four gates and its own cell.
pub proof fn every_unit_steps_by_its_gates(
    gi: &CudaSlice<Fp32>,
    gh: &CudaSlice<Fp32>,
    c: &CudaSlice<Fp32>,
    h: &CudaSlice<Fp32>,
    hidden: usize,
)
    requires
        int_fits(hidden as int),
    ensures
        steps(lstm_gates_cmd(gi, gh, c, h, hidden), *gi, *gh, *c, *h, hidden as int),
{
    lemma_flat_runs(lstm_gates_cmd(gi, gh, c, h, hidden), hidden as int);
}

/// Whether a launch rectifies each of the first `n` elements of `y` and multiplies it by
/// the one across from it in `mask`, which starts at `off`.
pub open spec fn masks(
    c: Cmd,
    y: CudaSlice<Fp32>,
    mask: CudaSlice<Fp32>,
    off: int,
    n: int,
) -> bool {
    &&& has_threads(c, n)
    &&& forall|i: int| 0 <= i ==> #[trigger] particular(c, i) == if i < n {
        Some(stored(Fun::ReluTimes, seq![at(y, i), at(mask, off + i)], at(y, i)))
    } else {
        None
    }
}

/// The rectifier and the mask meet element by element.
pub proof fn the_mask_is_met_from_its_offset(
    y: &CudaSlice<Fp32>,
    mask: &CudaSlice<Fp32>,
    off: usize,
    n: usize,
)
    requires
        int_fits(n as int),
        int_fits(off as int),
    ensures
        masks(relu_mask_cmd(y, mask, off, n), *y, *mask, off as int, n as int),
{
    lemma_flat_runs(relu_mask_cmd(y, mask, off, n), n as int);
}

/// Whether a launch puts each of `t` new weights in the first half of `cat`, and adds it
/// to the running sum across from it in the second.
pub open spec fn updates_weights(
    c: Cmd,
    cat: CudaSlice<Fp32>,
    alignment: CudaSlice<Fp32>,
    t: int,
) -> bool {
    &&& has_threads(c, t)
    &&& forall|i: int| 0 <= i ==> #[trigger] particular(c, i) == if i < t {
        Some(
            Store {
                fun: Fun::ReplaceAndAdd,
                reads: seq![at(alignment, i), at(cat, t + i)],
                scalars: Seq::empty(),
                to: seq![at(cat, i), at(cat, t + i)],
            },
        )
    } else {
        None
    }
}

/// The new weights replace the old ones and are added to the sum of all of them.
pub proof fn weights_are_replaced_and_summed(
    cat: &CudaSlice<Fp32>,
    alignment: &CudaSlice<Fp32>,
    t: usize,
)
    requires
        int_fits(2 * t),
    ensures
        updates_weights(attn_weights_update_cmd(cat, alignment, t), *cat, *alignment, t as int),
{
    lemma_flat_runs(attn_weights_update_cmd(cat, alignment, t), t as int);
}

/// Whether a launch masks exactly the scores of later keys: of query `q` of `tq`, those
/// past position `q + offset`.
pub open spec fn masks_the_future(
    c: Cmd,
    scores: CudaSlice<Fp32>,
    batch: int,
    tq: int,
    tk: int,
    offset: int,
) -> bool {
    &&& has_threads(c, batch * tq * tk)
    &&& rests_after(c, batch * tq * tk)
    &&& forall|b: int, q: int, k: int|
        0 <= b < batch && 0 <= q < tq && 0 <= k < tk ==> rectangular(
            c,
            #[trigger] flat2(flat2(b, q, tq), k, tk),
        ) == if k > q + offset {
            Some(
                stored(Fun::Masked, Seq::empty(), at(scores, flat2(flat2(b, q, tq), k, tk))),
            )
        } else {
            None
        }
}

/// A query keeps the scores of the keys up to its own position and loses those after it,
/// in every product of the batch.
pub proof fn a_query_sees_no_later_key(
    scores: &CudaSlice<Fp32>,
    batch: usize,
    tq: usize,
    tk: usize,
    offset: usize,
)
    requires
        three_ints_fit(batch as int, tq as int, tk as int),
        int_fits(offset as int),
    ensures
        masks_the_future(
            causal_mask_cmd(scores, batch, tq, tk, offset),
            *scores,
            batch as int,
            tq as int,
            tk as int,
            offset as int,
        ),
{
    let c = causal_mask_cmd(scores, batch, tq, tk, offset);
    lemma_flat_runs(c, batch * tq * tk);
    lemma_rows(batch as int, tq as int);
    lemma_rows(batch * tq, tk as int);
}

/// Whether a launch takes the int8 twin `q8` of what it makes, or none: the codes from the
/// start of its buffer, and the scales after all of them.
pub open spec fn takes_twin(c: Cmd, codes: int, scales: int, q8: Option<Q8>) -> bool {
    match q8 {
        Some(q) => arg_at(c, codes, 0) == at(q.buf, 0) && arg_int(c, scales) == q.rows * q.k,
        None => !arg_given(c, codes),
    }
}

/// Whether a launch gates each of the first `n` elements of `a` by the one across from it
/// in `b`, which starts at `off`, where it is.
pub open spec fn gates(
    c: Cmd,
    a: CudaSlice<Fp32>,
    b: CudaSlice<Fp32>,
    off: int,
    n: int,
) -> bool {
    &&& has_threads(c, n)
    &&& forall|i: int| 0 <= i ==> #[trigger] particular(c, i) == if i < n {
        Some(stored(Fun::SiluGate, seq![at(a, i), at(b, i + off)], at(a, i)))
    } else {
        None
    }
}

/// Two buffers gate each other element by element, without a twin or with one.
pub proof fn a_gate_meets_its_other_buffer(
    a: &CudaSlice<Fp32>,
    b: &CudaSlice<Fp32>,
    n: usize,
    rows: usize,
    k: usize,
    q: Q8,
)
    requires
        int_fits(n as int),
        n == rows * k,
        q.rows == rows,
        q.k == k,
    ensures
        gates(silu_mul_cmd(a, b, n), *a, *b, 0, n as int),
        takes_twin(silu_mul_cmd(a, b, n), 2, 3, None),
        gates(silu_mul_q_cmd(a, b, rows, k, q), *a, *b, 0, n as int),
        takes_twin(silu_mul_q_cmd(a, b, rows, k, q), 2, 3, Some(q)),
{
    lemma_flat_runs(silu_mul_cmd(a, b, n), n as int);
    lemma_flat_runs(silu_mul_q_cmd(a, b, rows, k, q), n as int);
}

/// The first half of a buffer is gated by its second, without a twin or with one.
pub proof fn a_gate_meets_its_other_half(
    x: &CudaSlice<Fp32>,
    n: usize,
    rows: usize,
    k: usize,
    q: Q8,
)
    requires
        int_fits(n as int),
        n == rows * k,
        q.rows == rows,
        q.k == k,
    ensures
        gates(silu_mul_halves_cmd(x, n), *x, *x, n as int, n as int),
        takes_twin(silu_mul_halves_cmd(x, n), 1, 2, None),
        gates(silu_mul_pair_cmd(x, rows, k, q), *x, *x, n as int, n as int),
        takes_twin(silu_mul_pair_cmd(x, rows, k, q), 1, 2, Some(q)),
{
    lemma_flat_runs(silu_mul_halves_cmd(x, n), n as int);
    lemma_flat_runs(silu_mul_pair_cmd(x, rows, k, q), n as int);
}

/// What block `r` of the packed lookup does with column `k` of its row.
pub open spec fn packed_row(c: Cmd, r: int, k: int) -> Option<Store> {
    let ch = arg_int(c, 7);
    if c->kernel == Kernel::EmbedQ && r < arg_int(c, 6) && k < ch {
        Some(
            Store {
                fun: Fun::LookupPacked {
                    width: ch,
                    column: k,
                    format: arg_int(c, 1),
                    block: arg_int(c, 2),
                    stride: arg_int(c, 3),
                },
                reads: seq![arg_at(c, 4, r), arg_at(c, 0, 0)],
                scalars: seq![arg_float(c, 8)],
                to: seq![arg_at(c, 5, r * ch + k)],
            },
        )
    } else {
        None
    }
}

/// Every id gets its own row of a packed table, unpacked as the table is packed, column by
/// column and scaled: a block a row.
pub proof fn every_id_gets_its_packed_row(
    table: &CudaSlice<u8>,
    ty: Quant,
    ids: &CudaSlice<i64>,
    out: CudaSlice<Fp32>,
    t: usize,
    ch: usize,
    scale: FloatBits,
    r: int,
    k: int,
)
    requires
        ints_fit(t as int, ch as int),
        0 <= r < t,
        0 <= k < ch,
    ensures
        has_a_block_a_row(embed_launch(table, ty, ids, out, t, ch, scale), t as int),
        packed_row(embed_launch(table, ty, ids, out, t, ch, scale), r, k) == Some(
            Store {
                fun: Fun::LookupPacked {
                    width: ch as int,
                    column: k,
                    format: ty.spec_id() as int,
                    block: ty.spec_block_size(),
                    stride: ty.spec_device_stride(),
                },
                reads: seq![at(*ids, r), at(*table, 0)],
                scalars: seq![scale],
                to: seq![at(out, flat2(r, k, ch as int))],
            },
        ),
{
}

/// Whether a launch looks up each of `ch` columns of the packed row that each of `t` ids
/// names.
pub open spec fn looks_up_packed(
    c: Cmd,
    table: CudaSlice<u8>,
    ty: Quant,
    ids: CudaSlice<i64>,
    out: CudaSlice<Fp32>,
    t: int,
    ch: int,
    scale: FloatBits,
) -> bool {
    &&& has_a_block_a_row(c, t)
    &&& forall|r: int, k: int|
        0 <= r < t && 0 <= k < ch ==> #[trigger] packed_row(c, r, k) == Some(
            Store {
                fun: Fun::LookupPacked {
                    width: ch,
                    column: k,
                    format: ty.spec_id() as int,
                    block: ty.spec_block_size(),
                    stride: ty.spec_device_stride(),
                },
                reads: seq![at(ids, r), at(table, 0)],
                scalars: seq![scale],
                to: seq![at(out, r * ch + k)],
            },
        )
}

/// [`every_id_gets_its_packed_row`] of every id and every column.
pub proof fn every_id_gets_all_of_its_packed_row(
    table: &CudaSlice<u8>,
    ty: Quant,
    ids: &CudaSlice<i64>,
    out: CudaSlice<Fp32>,
    t: usize,
    ch: usize,
    scale: FloatBits,
)
    requires
        0 < t && 0 < ch,
        ints_fit(t as int, ch as int),
    ensures
        looks_up_packed(
            embed_launch(table, ty, ids, out, t, ch, scale),
            *table,
            ty,
            *ids,
            out,
            t as int,
            ch as int,
            scale,
        ),
{
    let c = embed_launch(table, ty, ids, out, t, ch, scale);
    every_id_gets_its_packed_row(table, ty, ids, out, t, ch, scale, 0, 0);
    assert forall|r: int, k: int| 0 <= r < t && 0 <= k < ch implies #[trigger] packed_row(c, r, k)
        == Some(
        Store {
            fun: Fun::LookupPacked {
                width: ch as int,
                column: k,
                format: ty.spec_id() as int,
                block: ty.spec_block_size(),
                stride: ty.spec_device_stride(),
            },
            reads: seq![at(*ids, r), at(*table, 0)],
            scalars: seq![scale],
            to: seq![at(out, r * ch + k)],
        },
    ) by {
        every_id_gets_its_packed_row(table, ty, ids, out, t, ch, scale, r, k);
    }
}

} // verus!
