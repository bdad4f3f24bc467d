//! Convolutions and spectra: which input meets which weight for which output.

use super::{
    arg_at,
    arg_int,
    at,
    has_threads,
    int_fits,
    lemma_flat2,
    lemma_flat_runs,
    maybe_at,
    Place,
};
use crate::arith::ceil_div_covers;
use crate::buffer::{CudaSlice, Fp32};
use crate::conv::{
    conv1d_cmd, conv_grid_covers, conv_is_long, conv_len, conv_per_block, conv_span, conv_threads,
    depthwise_conv1d_cmd, grouped_conv1d_cmd, im2col_rows, istft_cmd, istft_len, stft_cmd,
    stft_frames, strided_conv1d_cmd, strided_len, transposed_conv1d_cmd, transposed_len,
};
use crate::names::Kernel;
use crate::queue::Cmd;
use vstd::math::abs;
use vstd::prelude::*;

verus! {

/// One tap of one output.
pub struct Tap {
    /// Input channels that are summed over.
    pub channels: int,
    /// Taps that are summed over.
    pub taps: int,
    /// The input, which is not there where the tap falls into the padding.
    pub input: Option<Place>,
    /// What it is multiplied by.
    pub weight: Option<Place>,
    /// What all of the output's taps come on top of.
    pub bias: Option<Place>,
    /// The output.
    pub to: Option<Place>,
}

/// Element `p` of row `r` of what an argument points at, in rows of `t`, where there is one.
pub open spec fn arg_in_row(c: Cmd, arg: int, r: int, p: int, t: int) -> Option<Place> {
    if 0 <= p < t {
        arg_at(c, arg, r * t + p)
    } else {
        None
    }
}

/// Element `p` of row `r` of `x`, in rows of `t`, where there is one.
pub open spec fn in_row(x: CudaSlice<Fp32>, r: int, p: int, t: int) -> Option<Place> {
    if 0 <= p < t {
        at(x, r * t + p)
    } else {
        None
    }
}

/// What a convolution does with tap `j` of input channel `i` (of the group, where there are
/// groups) for output `p` of channel `o`: nothing where no thread of its grid comes by.
pub open spec fn tapped(c: Cmd, o: int, p: int, i: int, j: int) -> Option<Tap> {
    let flat = |out_ch: int, out_t: int|
        o < out_ch && p < out_t && has_threads(c, o * out_t + p + 1);
    match c->kernel {
        Kernel::Conv1d => tiled(c, o, p, i, j, 4),
        Kernel::Conv1dShort => tiled(c, o, p, i, j, 1),
        Kernel::DepthwiseConv1d => {
            let (ch, t, k, pad, dil, out_t) = (
                arg_int(c, 4),
                arg_int(c, 5),
                arg_int(c, 6),
                arg_int(c, 7),
                arg_int(c, 8),
                arg_int(c, 9),
            );
            if flat(ch, out_t) {
                Some(
                    Tap {
                        channels: 1,
                        taps: k,
                        input: arg_in_row(c, 0, o, p + j * dil - pad, t),
                        weight: arg_at(c, 1, o * k + j),
                        bias: arg_at(c, 2, o),
                        to: arg_at(c, 3, o * out_t + p),
                    },
                )
            } else {
                None
            }
        },
        Kernel::TransposedConv1d => {
            let (in_ch, t, out_ch, k, stride, pad, out_t) = (
                arg_int(c, 4),
                arg_int(c, 5),
                arg_int(c, 6),
                arg_int(c, 7),
                arg_int(c, 8),
                arg_int(c, 9),
                arg_int(c, 10),
            );
            let shifted = p + pad;
            if flat(out_ch, out_t) {
                Some(
                    Tap {
                        channels: in_ch,
                        taps: k,
                        input: if (shifted - j) % stride == 0 {
                            arg_in_row(c, 0, i, (shifted - j) / stride, t)
                        } else {
                            None
                        },
                        weight: arg_at(c, 1, (i * out_ch + o) * k + j),
                        bias: arg_at(c, 2, o),
                        to: arg_at(c, 3, o * out_t + p),
                    },
                )
            } else {
                None
            }
        },
        Kernel::GroupedConv1d => {
            let (in_ch, t, out_ch, k, groups, pad, out_t) = (
                arg_int(c, 4),
                arg_int(c, 5),
                arg_int(c, 6),
                arg_int(c, 7),
                arg_int(c, 8),
                arg_int(c, 9),
                arg_int(c, 10),
            );
            let (in_per, out_per) = (in_ch / groups, out_ch / groups);
            if flat(out_ch, out_t) {
                Some(
                    Tap {
                        channels: in_per,
                        taps: k,
                        input: arg_in_row(c, 0, o / out_per * in_per + i, p + j - pad, t),
                        weight: arg_at(c, 1, (o * in_per + i) * k + j),
                        bias: arg_at(c, 2, o),
                        to: arg_at(c, 3, o * out_t + p),
                    },
                )
            } else {
                None
            }
        },
        Kernel::StridedConv1d => {
            let (in_ch, t, out_ch, k, stride, pad, out_t) = (
                arg_int(c, 4),
                arg_int(c, 5),
                arg_int(c, 6),
                arg_int(c, 7),
                arg_int(c, 8),
                arg_int(c, 9),
                arg_int(c, 10),
            );
            if flat(out_ch, out_t) {
                Some(
                    Tap {
                        channels: in_ch,
                        taps: k,
                        input: arg_in_row(c, 0, i, p * stride + j - pad, t),
                        weight: arg_at(c, 1, (o * in_ch + i) * k + j),
                        bias: if arg_int(c, 11) != 0 {
                            arg_at(c, 2, o)
                        } else {
                            None
                        },
                        to: arg_at(c, 3, o * out_t + p),
                    },
                )
            } else {
                None
            }
        },
        _ => None,
    }
}

/// The convolution in tiles of eight channels, with `reg` outputs a thread: its block holds
/// all of the input under its outputs.
pub open spec fn tiled(c: Cmd, o: int, p: int, i: int, j: int, reg: int) -> Option<Tap> {
    let (grid, block) = (c->cfg.grid_dim, c->cfg.block_dim);
    let (in_ch, t, out_ch, k, pad, dil, out_t) = (
        arg_int(c, 4),
        arg_int(c, 5),
        arg_int(c, 6),
        arg_int(c, 7),
        arg_int(c, 8),
        arg_int(c, 9),
        arg_int(c, 10),
    );
    let runs = c is Launch && o < grid.0 * 8 && p < grid.1 * (block.0 * reg) && block.0 >= 1;
    let room = c->cfg.shared_mem_bytes >= 4 * (block.0 * reg + (k - 1) * dil);
    if runs && room && o < out_ch && p < out_t {
        Some(
            Tap {
                channels: in_ch,
                taps: k,
                input: arg_in_row(c, 0, i, p + j * dil - pad, t),
                weight: arg_at(c, 1, (o * in_ch + i) * k + j),
                bias: arg_at(c, 2, o),
                to: arg_at(c, 3, o * out_t + p),
            },
        )
    } else {
        None
    }
}

/// Whether a launch sums, for each of `out_t` outputs of `out_ch` channels, `k` taps of `per`
/// input channels.
pub open spec fn taps(
    c: Cmd,
    out_ch: int,
    out_t: int,
    per: int,
    k: int,
    want: spec_fn(int, int, int, int) -> Tap,
) -> bool {
    forall|o: int, p: int, i: int, j: int|
        0 <= o < out_ch && 0 <= p < out_t && 0 <= i < per && 0 <= j < k ==> #[trigger] tapped(
            c,
            o,
            p,
            i,
            j,
        ) == Some(want(o, p, i, j))
}

/// Whether `out_t` windows of `span`, `stride` apart, are as many as lie inside `padded`
/// positions: one where not even one does.
pub open spec fn windows_fill(padded: int, span: int, stride: int, out_t: int) -> bool {
    if span <= padded {
        (out_t - 1) * stride + span <= padded < out_t * stride + span
    } else {
        out_t == 1
    }
}

/// The outputs of every convolution that slides a window are as many as the windows that fit.
pub proof fn outputs_are_the_windows_that_fit(
    padded: int,
    span: int,
    k: int,
    dilation: int,
    stride: int,
)
    requires
        0 <= padded,
        0 <= span,
        0 < stride,
    ensures
        windows_fill(padded, span, 1, conv_len(padded, span)),
        windows_fill(padded, span, stride, strided_len(padded, span, stride)),
        conv_span(k, dilation) == (k - 1) * dilation + 1,
        forall|t: usize, k: usize, s: usize, pad: usize, d: usize|
            0 < s && conv_span(k as int, d as int) <= t + 2 * pad ==> windows_fill(
                t + 2 * pad,
                conv_span(k as int, d as int),
                s as int,
                #[trigger] im2col_rows(t, k, s, pad, d),
            ),
{
    assert(dilation * (k - 1) == (k - 1) * dilation) by (nonlinear_arith);
    lemma_windows(padded, span, stride);
    assert forall|t: usize, k: usize, s: usize, pad: usize, d: usize|
        0 < s && conv_span(k as int, d as int) <= t + 2 * pad implies windows_fill(
        t + 2 * pad,
        conv_span(k as int, d as int),
        s as int,
        #[trigger] im2col_rows(t, k, s, pad, d),
    ) by {
        lemma_windows(t + 2 * pad, conv_span(k as int, d as int), s as int);
    }
}

proof fn lemma_windows(padded: int, span: int, stride: int)
    requires
        0 < stride,
    ensures
        span <= padded ==> windows_fill(padded, span, stride, (padded - span) / stride + 1),
        span > padded ==> 0int / stride == 0,
{
    vstd::arithmetic::div_mod::lemma_fundamental_div_mod(padded - span, stride);
    vstd::arithmetic::div_mod::lemma_fundamental_div_mod(0, stride);
    let q = (padded - span) / stride;
    assert(q * stride == stride * q) by (nonlinear_arith);
    assert((q + 1) * stride == q * stride + stride) by (nonlinear_arith);
    vstd::arithmetic::div_mod::lemma_div_basics_1(stride);
}

/// A convolution of `k` taps, `dilation` apart, over every input channel, with the padding to
/// the left.
pub open spec fn dense_taps(
    x: CudaSlice<Fp32>,
    w: CudaSlice<Fp32>,
    bias: Option<&CudaSlice<Fp32>>,
    in_ch: int,
    t: int,
    k: int,
    pad: int,
    dilation: int,
    stride: int,
    out: CudaSlice<Fp32>,
    out_t: int,
) -> spec_fn(int, int, int, int) -> Tap {
    |o: int, p: int, i: int, j: int|
        Tap {
            channels: in_ch,
            taps: k,
            input: in_row(x, i, p * stride + j * dilation - pad, t),
            weight: at(w, (o * in_ch + i) * k + j),
            bias: maybe_at(bias, o),
            to: at(out, o * out_t + p),
        }
}

/// The tiled convolution sums every tap of every channel under every output, with the
/// channel's bias where there is one.
pub proof fn every_output_is_convolved(
    x: &CudaSlice<Fp32>,
    w: &CudaSlice<Fp32>,
    bias: Option<&CudaSlice<Fp32>>,
    in_ch: usize,
    t: usize,
    out_ch: usize,
    k: usize,
    pad_left: usize,
    dilation: usize,
    out: CudaSlice<Fp32>,
    out_t: int,
    span: int,
)
    requires
        int_fits(in_ch as int) && int_fits(t as int) && int_fits(out_ch as int),
        int_fits(k as int) && int_fits(pad_left as int) && int_fits(dilation as int),
        0 < out_ch && 0 < k && 0 < out_t <= i32::MAX,
        span == (k - 1) * dilation + 1,
        (conv_per_block(out_t) + span - 1) * 4 <= u32::MAX,
    ensures
        taps(
            conv1d_cmd(x, w, bias, in_ch, t, out_ch, k, pad_left, dilation, out, out_t, span),
            out_ch as int,
            out_t,
            in_ch as int,
            k as int,
            dense_taps(
                *x,
                *w,
                bias,
                in_ch as int,
                t as int,
                k as int,
                pad_left as int,
                dilation as int,
                1,
                out,
                out_t,
            ),
        ),
{
    let c = conv1d_cmd(x, w, bias, in_ch, t, out_ch, k, pad_left, dilation, out, out_t, span);
    conv_grid_covers(out_ch as int, out_t, span);
    assert(span >= 1) by (nonlinear_arith)
        requires
            span == (k - 1) * dilation + 1,
            0 < k,
    ;
    ceil_div_covers(out_t, 32);
    let reg = if conv_is_long(out_t) {
        4int
    } else {
        1int
    };
    assert(conv_threads(out_t) * reg == conv_per_block(out_t));
    assert(c->cfg.block_dim.0 * reg == conv_per_block(out_t));
    assert forall|o: int, p: int, i: int, j: int|
        0 <= o < out_ch && 0 <= p < out_t && 0 <= i < in_ch && 0 <= j < k implies #[trigger] tapped(
        c,
        o,
        p,
        i,
        j,
    ) == Some(
        dense_taps(
            *x,
            *w,
            bias,
            in_ch as int,
            t as int,
            k as int,
            pad_left as int,
            dilation as int,
            1,
            out,
            out_t,
        )(o, p, i, j),
    ) by {
        assert(p * 1 == p);
        assert(c->cfg.shared_mem_bytes == 4 * (conv_per_block(out_t) + span - 1));
    }
}

/// The strided convolution sums every tap of every channel under every output, a stride
/// apart, with the channel's bias exactly where one is given.
pub proof fn every_output_is_convolved_a_stride_apart(
    x: &CudaSlice<Fp32>,
    w: &CudaSlice<Fp32>,
    bias: Option<&CudaSlice<Fp32>>,
    in_ch: usize,
    t: usize,
    out_ch: usize,
    k: usize,
    stride: usize,
    pad_left: usize,
    out: CudaSlice<Fp32>,
    out_t: int,
)
    requires
        int_fits(in_ch as int) && int_fits(t as int) && int_fits(out_ch as int),
        int_fits(k as int) && int_fits(pad_left as int) && int_fits(stride as int),
        int_fits(out_t) && int_fits(out_ch * out_t),
    ensures
        taps(
            strided_conv1d_cmd(x, w, bias, in_ch, t, out_ch, k, stride, pad_left, out, out_t),
            out_ch as int,
            out_t,
            in_ch as int,
            k as int,
            dense_taps(
                *x,
                *w,
                bias,
                in_ch as int,
                t as int,
                k as int,
                pad_left as int,
                1,
                stride as int,
                out,
                out_t,
            ),
        ),
{
    let c = strided_conv1d_cmd(x, w, bias, in_ch, t, out_ch, k, stride, pad_left, out, out_t);
    lemma_outputs(c, out_ch as int, out_t);
    assert(forall|j: int| #[trigger] (j * 1) == j);
}

proof fn lemma_outputs(c: Cmd, out_ch: int, out_t: int)
    requires
        c is Launch,
        c->cfg == crate::launch::flat_cfg(out_ch * out_t),
        int_fits(out_ch) && int_fits(out_t) && int_fits(out_ch * out_t),
    ensures
        forall|o: int, p: int|
            0 <= o < out_ch && 0 <= p < out_t ==> has_threads(
                c,
                #[trigger] (o * out_t + p) + 1,
            ),
{
    lemma_flat_runs(c, out_ch * out_t);
    assert forall|o: int, p: int| 0 <= o < out_ch && 0 <= p < out_t implies has_threads(
        c,
        #[trigger] (o * out_t + p) + 1,
    ) by {
        lemma_flat2(o, p, out_t, out_ch);
    }
}

/// A convolution of every channel by itself.
pub open spec fn depthwise_taps(
    x: CudaSlice<Fp32>,
    w: CudaSlice<Fp32>,
    bias: Option<&CudaSlice<Fp32>>,
    t: int,
    k: int,
    pad: int,
    dilation: int,
    out: CudaSlice<Fp32>,
    out_t: int,
) -> spec_fn(int, int, int, int) -> Tap {
    |o: int, p: int, i: int, j: int|
        Tap {
            channels: 1,
            taps: k,
            input: in_row(x, o, p + j * dilation - pad, t),
            weight: at(w, o * k + j),
            bias: maybe_at(bias, o),
            to: at(out, o * out_t + p),
        }
}

/// The depthwise convolution sums every tap of the output's own channel.
pub proof fn every_channel_is_convolved_alone(
    x: &CudaSlice<Fp32>,
    w: &CudaSlice<Fp32>,
    bias: Option<&CudaSlice<Fp32>>,
    ch: usize,
    t: usize,
    k: usize,
    pad_left: usize,
    dilation: usize,
    out: CudaSlice<Fp32>,
    out_t: int,
)
    requires
        int_fits(ch as int) && int_fits(t as int) && int_fits(k as int),
        int_fits(pad_left as int) && int_fits(dilation as int),
        int_fits(out_t) && int_fits(ch * out_t),
    ensures
        taps(
            depthwise_conv1d_cmd(x, w, bias, ch, t, k, pad_left, dilation, out, out_t),
            ch as int,
            out_t,
            1,
            k as int,
            depthwise_taps(
                *x,
                *w,
                bias,
                t as int,
                k as int,
                pad_left as int,
                dilation as int,
                out,
                out_t,
            ),
        ),
{
    let c = depthwise_conv1d_cmd(x, w, bias, ch, t, k, pad_left, dilation, out, out_t);
    lemma_outputs(c, ch as int, out_t);
}

/// A convolution of every output channel with the input channels of its own group.
pub open spec fn grouped_taps(
    x: CudaSlice<Fp32>,
    w: CudaSlice<Fp32>,
    bias: CudaSlice<Fp32>,
    in_per: int,
    out_per: int,
    t: int,
    k: int,
    pad: int,
    out: CudaSlice<Fp32>,
    out_t: int,
) -> spec_fn(int, int, int, int) -> Tap {
    |o: int, p: int, i: int, j: int|
        Tap {
            channels: in_per,
            taps: k,
            input: in_row(x, o / out_per * in_per + i, p + j - pad, t),
            weight: at(w, (o * in_per + i) * k + j),
            bias: at(bias, o),
            to: at(out, o * out_t + p),
        }
}

/// The grouped convolution sums every tap of every channel of the output's own group.
pub proof fn every_group_is_convolved(
    x: &CudaSlice<Fp32>,
    w: &CudaSlice<Fp32>,
    bias: &CudaSlice<Fp32>,
    in_ch: usize,
    t: usize,
    out_ch: usize,
    k: usize,
    groups: usize,
    pad_left: usize,
    out: CudaSlice<Fp32>,
    out_t: int,
)
    requires
        int_fits(in_ch as int) && int_fits(t as int) && int_fits(out_ch as int),
        int_fits(k as int) && int_fits(pad_left as int) && 0 < groups <= i32::MAX,
        int_fits(out_t) && int_fits(out_ch * out_t),
    ensures
        taps(
            grouped_conv1d_cmd(x, w, bias, in_ch, t, out_ch, k, groups, pad_left, out, out_t),
            out_ch as int,
            out_t,
            in_ch as int / groups as int,
            k as int,
            grouped_taps(
                *x,
                *w,
                *bias,
                in_ch as int / groups as int,
                out_ch as int / groups as int,
                t as int,
                k as int,
                pad_left as int,
                out,
                out_t,
            ),
        ),
{
    let c = grouped_conv1d_cmd(x, w, bias, in_ch, t, out_ch, k, groups, pad_left, out, out_t);
    lemma_outputs(c, out_ch as int, out_t);
}

/// A transposed convolution: input `n` through tap `j` lands on output
/// `n * stride + j - padding`.
pub open spec fn transposed_taps(
    x: CudaSlice<Fp32>,
    w: CudaSlice<Fp32>,
    bias: Option<&CudaSlice<Fp32>>,
    in_ch: int,
    t: int,
    out_ch: int,
    k: int,
    stride: int,
    padding: int,
    out: CudaSlice<Fp32>,
    out_t: int,
) -> spec_fn(int, int, int, int) -> Tap {
    |o: int, p: int, i: int, j: int|
        Tap {
            channels: in_ch,
            taps: k,
            input: if (p + padding - j) % stride == 0 {
                in_row(x, i, (p + padding - j) / stride, t)
            } else {
                None
            },
            weight: at(w, (i * out_ch + o) * k + j),
            bias: maybe_at(bias, o),
            to: at(out, o * out_t + p),
        }
}

/// The transposed convolution sums, over every channel, every tap through which an input
/// lands on the output.
pub proof fn every_output_is_landed_on(
    x: &CudaSlice<Fp32>,
    w: &CudaSlice<Fp32>,
    bias: Option<&CudaSlice<Fp32>>,
    in_ch: usize,
    t: usize,
    out_ch: usize,
    k: usize,
    stride: usize,
    padding: usize,
    out: CudaSlice<Fp32>,
    out_t: int,
)
    requires
        int_fits(in_ch as int) && int_fits(t as int) && int_fits(out_ch as int),
        int_fits(k as int) && int_fits(padding as int) && int_fits(stride as int),
        int_fits(out_t) && int_fits(out_ch * out_t),
    ensures
        taps(
            transposed_conv1d_cmd(x, w, bias, in_ch, t, out_ch, k, stride, padding, out, out_t),
            out_ch as int,
            out_t,
            in_ch as int,
            k as int,
            transposed_taps(
                *x,
                *w,
                bias,
                in_ch as int,
                t as int,
                out_ch as int,
                k as int,
                stride as int,
                padding as int,
                out,
                out_t,
            ),
        ),
{
    let c = transposed_conv1d_cmd(x, w, bias, in_ch, t, out_ch, k, stride, padding, out, out_t);
    lemma_outputs(c, out_ch as int, out_t);
}

/// The outputs of a transposed convolution are those that inputs land on, less the padding at
/// either end: the first input's first tap lands as far before the first output as the last
/// input's last tap lands behind the last.
pub proof fn a_transposed_output_is_trimmed_alike(t: int, k: int, stride: int, padding: int)
    ensures
        (t - 1) * stride + (k - 1) - padding == transposed_len(t, k, stride, padding) - 1 + padding,
{
}

/// Where a transform reads at place `p`: mirrored where that lies outside of `n` samples.
pub open spec fn mirrored(p: int, n: int) -> int {
    let inside = abs(p) as int;
    let back = if inside >= n {
        2 * (n - 1) - inside
    } else {
        inside
    };
    if back < 0 {
        0
    } else if back >= n {
        n - 1
    } else {
        back
    }
}

/// One sample's part in one bin of one frame: the sample and what it is windowed by, the turn
/// as `turn` of `turns`, and where the real and the imaginary part go.
pub struct Part {
    pub sample: Option<Place>,
    pub window: Option<Place>,
    pub turn: int,
    pub turns: int,
    pub re: Option<Place>,
    pub im: Option<Place>,
}

/// What a transform does with sample `j` of the window for bin `bin` of frame `f`.
pub open spec fn transformed(c: Cmd, bin: int, f: int, j: int) -> Option<Part> {
    let (n, n_fft, hop, frames) = (arg_int(c, 4), arg_int(c, 5), arg_int(c, 6), arg_int(c, 7));
    let i = bin * frames + f;
    if c->kernel == Kernel::StftDft && has_threads(c, i + 1) && bin < n_fft / 2 + 1 && f < frames
        && j < n_fft {
        Some(
            Part {
                sample: arg_at(c, 0, mirrored(f * hop + j - n_fft / 2, n)),
                window: arg_at(c, 3, j),
                turn: bin * j,
                turns: n_fft,
                re: arg_at(c, 1, i),
                im: arg_at(c, 2, i),
            },
        )
    } else {
        None
    }
}

/// Whether a launch transforms every bin of every frame.
pub open spec fn transforms(
    c: Cmd,
    x: CudaSlice<Fp32>,
    window: CudaSlice<Fp32>,
    n: int,
    n_fft: int,
    hop: int,
    re: CudaSlice<Fp32>,
    im: CudaSlice<Fp32>,
    frames: int,
) -> bool {
    forall|bin: int, f: int, j: int|
        0 <= bin <= n_fft / 2 && 0 <= f < frames && 0 <= j < n_fft ==> #[trigger] transformed(
            c,
            bin,
            f,
            j,
        ) == Some(
            Part {
                sample: at(x, mirrored(f * hop + j - n_fft / 2, n)),
                window: at(window, j),
                turn: bin * j,
                turns: n_fft,
                re: at(re, bin * frames + f),
                im: at(im, bin * frames + f),
            },
        )
}

/// A transform sums every sample of every frame's window into every bin, frames a hop apart
/// and centred.
pub proof fn every_bin_is_transformed(
    x: &CudaSlice<Fp32>,
    window: &CudaSlice<Fp32>,
    n: usize,
    n_fft: usize,
    hop: usize,
    re: CudaSlice<Fp32>,
    im: CudaSlice<Fp32>,
    frames: int,
    size: int,
)
    requires
        int_fits(n as int) && int_fits(n_fft as int) && 0 < hop <= i32::MAX,
        int_fits(frames) && int_fits(size),
        size == (n_fft as int / 2 + 1) * frames,
    ensures
        transforms(
            stft_cmd(x, window, n, n_fft, hop, re, im, frames, size),
            *x,
            *window,
            n as int,
            n_fft as int,
            hop as int,
            re,
            im,
            frames,
        ),
{
    let c = stft_cmd(x, window, n, n_fft, hop, re, im, frames, size);
    lemma_outputs(c, n_fft as int / 2 + 1, frames);
}

/// The last frame of a transform is centred on the last start of a hop that the signal has.
pub proof fn frames_reach_the_end(n: int, hop: int)
    requires
        0 < hop,
    ensures
        (stft_frames(n, hop) - 1) * hop <= n < stft_frames(n, hop) * hop,
{
    vstd::arithmetic::div_mod::lemma_fundamental_div_mod(n, hop);
    let q = n / hop;
    assert(q * hop == hop * q && (q + 1) * hop == q * hop + hop) by (nonlinear_arith);
}

/// One bin's part in one sample: the bin, what it is windowed by, the turn, and how often the
/// bin stands in a real signal's spectrum.
pub struct Share {
    pub re: Option<Place>,
    pub im: Option<Place>,
    pub window: Option<Place>,
    pub turn: int,
    pub turns: int,
    pub times: int,
    pub to: Option<Place>,
}

/// What an inverse transform does with bin `b` of frame `f` for sample `s`.
pub open spec fn gathered(c: Cmd, s: int, f: int, b: int) -> Option<Share> {
    let (out_n, n_fft, hop, frames) = (
        arg_int(c, 4),
        arg_int(c, 5),
        arg_int(c, 6),
        arg_int(c, 7),
    );
    let bins = n_fft / 2 + 1;
    let j = s + n_fft / 2 - f * hop;
    if c->kernel == Kernel::IstftOla && has_threads(c, s + 1) && s < out_n && f < frames && b < bins
        && 0 <= j < n_fft {
        Some(
            Share {
                re: arg_at(c, 0, b * frames + f),
                im: arg_at(c, 1, b * frames + f),
                window: arg_at(c, 3, j),
                turn: b * j,
                turns: n_fft,
                times: if b == 0 || n_fft % 2 == 0 && b == bins - 1 {
                    1
                } else {
                    2
                },
                to: arg_at(c, 2, s),
            },
        )
    } else {
        None
    }
}

/// Whether a launch gathers, for each of `(frames - 1) * hop` samples, every bin of every frame
/// that covers it.
pub open spec fn gathers(
    c: Cmd,
    re: CudaSlice<Fp32>,
    im: CudaSlice<Fp32>,
    window: CudaSlice<Fp32>,
    frames: int,
    n_fft: int,
    hop: int,
    out: CudaSlice<Fp32>,
) -> bool {
    forall|s: int, f: int, b: int|
        0 <= s < (frames - 1) * hop && 0 <= f < frames && 0 <= b <= n_fft / 2 ==> {
            let j = s + n_fft / 2 - f * hop;
            #[trigger] gathered(c, s, f, b) == if 0 <= j < n_fft {
                Some(
                    Share {
                        re: at(re, b * frames + f),
                        im: at(im, b * frames + f),
                        window: at(window, j),
                        turn: b * j,
                        turns: n_fft,
                        times: if b == 0 || 2 * b == n_fft {
                            1
                        } else {
                            2
                        },
                        to: at(out, s),
                    },
                )
            } else {
                None
            }
        }
}

/// An inverse transform gathers, for every sample, every bin of the frames that cover it.
pub proof fn every_sample_is_gathered(
    re: &CudaSlice<Fp32>,
    im: &CudaSlice<Fp32>,
    window: &CudaSlice<Fp32>,
    frames: usize,
    n_fft: usize,
    hop: usize,
    out: CudaSlice<Fp32>,
)
    requires
        int_fits(frames as int) && int_fits(n_fft as int) && int_fits(hop as int),
        int_fits((frames - 1) * hop),
    ensures
        gathers(
            istft_cmd(re, im, window, frames, n_fft, hop, out),
            *re,
            *im,
            *window,
            frames as int,
            n_fft as int,
            hop as int,
            out,
        ),
        istft_len(frames as int, hop as int) == (frames - 1) * hop,
{
    let c = istft_cmd(re, im, window, frames, n_fft, hop, out);
    lemma_flat_runs(c, (frames - 1) * hop);
}

} // verus!
