//! Convolutions and the spectra around them.

use crate::arith::{ceil_div, ceil_div_covers, div_ceil_u32};
use crate::buffer::{CudaSlice, Elem, Fp32};
use crate::device::{int_fits, three_ints_fit};
use crate::device::convolving::{
    a_transposed_output_is_trimmed_alike, dense_taps, depthwise_taps, every_bin_is_transformed,
    every_channel_is_convolved_alone, every_group_is_convolved, every_output_is_convolved,
    every_output_is_convolved_a_stride_apart, every_output_is_landed_on, every_sample_is_gathered,
    frames_reach_the_end, gathers, grouped_taps, outputs_are_the_windows_that_fit, taps,
    transforms, transposed_taps, windows_fill,
};
use crate::device::moving::{every_tap_is_laid_out, unfolds};
use crate::device::normalising::{every_channel_is_brought_to_length, norms, scaled_to_length};
use crate::launch::{flat_cfg, per_row_cfg, LaunchConfig};
use crate::names::Kernel;
use crate::queue::{
    flag,
    launch,
    made,
    made_in,
    num,
    ptr,
    ptr_or_dummy,
    ptr_or_null,
    zeros,
    Arg,
    Cmd,
    Gpu,
};
use vstd::math::{max, min};
use vstd::prelude::*;

verus! {

/// Output positions per block in the tiled convolution.
pub const CONV_BLOCK: u32 = 128;

/// Output channels each convolution thread accumulates.
pub const CONV_OC_TILE: u32 = 8;

/// Time positions each convolution thread accumulates.
pub const CONV_T_REG: u32 = 4;

/// Input positions one output looks at.
pub open spec fn conv_span(k: int, dilation: int) -> int {
    dilation * (k - 1) + 1
}

/// Outputs of a stride-one convolution over `padded` positions: one for every
/// place the window fits, and one where it does not fit at all.
pub open spec fn conv_len(padded: int, span: int) -> int {
    max(0, padded - span) + 1
}

/// The longest convolutions take four positions a thread; the rest take one, in
/// a block just wide enough.
pub open spec fn conv_is_long(out_t: int) -> bool {
    out_t >= CONV_BLOCK * CONV_T_REG
}

/// Threads a block of the tiled convolution.
pub open spec fn conv_threads(out_t: int) -> int {
    if conv_is_long(out_t) {
        CONV_BLOCK as int
    } else {
        max(32, min(CONV_BLOCK as int, ceil_div(out_t, 32) * 32))
    }
}

/// Output positions a block of the tiled convolution covers.
pub open spec fn conv_per_block(out_t: int) -> int {
    conv_threads(out_t) * if conv_is_long(out_t) {
        CONV_T_REG as int
    } else {
        1
    }
}

/// The tiled convolution: one block per output-channel tile and time tile, with
/// the input window in dynamic shared memory.
pub open spec fn conv_cfg(out_ch: int, out_t: int, span: int) -> LaunchConfig {
    LaunchConfig {
        grid_dim: (
            ceil_div((out_ch as u32) as int, CONV_OC_TILE as int) as u32,
            ceil_div((out_t as u32) as int, conv_per_block(out_t)) as u32,
            1,
        ),
        block_dim: (conv_threads(out_t) as u32, 1, 1),
        shared_mem_bytes: ((conv_per_block(out_t) + span - 1) * 4) as u32,
    }
}

/// The kernel the tiled convolution takes.
pub open spec fn conv_kernel(out_t: int) -> Kernel {
    if conv_is_long(out_t) {
        Kernel::Conv1d
    } else {
        Kernel::Conv1dShort
    }
}

/// The tiled convolution's grid covers every output channel and every output
/// position, in whole warps and blocks the hardware takes, without a block to
/// spare on either axis.
pub proof fn conv_grid_covers(out_ch: int, out_t: int, span: int)
    requires
        0 < out_ch <= u32::MAX,
        0 < out_t <= u32::MAX,
    ensures
        ({
            let cfg = conv_cfg(out_ch, out_t, span);
            &&& cfg.grid_dim.0 * CONV_OC_TILE >= out_ch
            &&& (cfg.grid_dim.0 - 1) * CONV_OC_TILE < out_ch
            &&& cfg.grid_dim.1 * conv_per_block(out_t) >= out_t
            &&& (cfg.grid_dim.1 - 1) * conv_per_block(out_t) < out_t
            &&& 32 <= cfg.block_dim.0 <= CONV_BLOCK
            &&& cfg.block_dim.0 % 32 == 0
        }),
{
    ceil_div_covers(out_ch, CONV_OC_TILE as int);
    ceil_div_covers(out_t, 32);
    assert(conv_threads(out_t) % 32 == 0);
    assert(32 <= conv_per_block(out_t) <= 512);
    ceil_div_covers(out_t, conv_per_block(out_t));
}

/// A convolution padded by its window less one keeps the length of its input.
pub proof fn same_padding_keeps_the_length(t: int, k: int, dilation: int)
    requires
        0 < t,
        0 < k,
        0 <= dilation,
    ensures
        conv_len(t + (conv_span(k, dilation) - 1), conv_span(k, dilation)) == t,
{
    assert(dilation * (k - 1) >= 0) by (nonlinear_arith)
        requires
            0 < k,
            0 <= dilation,
    ;
}

/// The window, and what it leaves of the padded input, are numbers of this
/// machine.
pub open spec fn conv_fits(t: int, pad_left: int, pad_right: int, k: int, dilation: int) -> bool {
    &&& k >= 1
    &&& dilation * (k - 1) <= usize::MAX
    &&& conv_span(k, dilation) <= usize::MAX
    &&& t + pad_left <= usize::MAX
    &&& t + pad_left + pad_right <= usize::MAX
    &&& conv_len(t + pad_left + pad_right, conv_span(k, dilation)) <= usize::MAX
}

/// Positions a transposed convolution gives: a stride apart, a window wide, and
/// trimmed at both ends.
pub open spec fn transposed_len(t: int, k: int, stride: int, padding: int) -> int {
    (t - 1) * stride + k - 2 * padding
}

/// Frames of a transform whose signal is padded by half a window either side.
pub open spec fn stft_frames(n: int, hop: int) -> int {
    n / hop + 1
}

/// Samples that so many frames give back.
pub open spec fn istft_len(frames: int, hop: int) -> int {
    (frames - 1) * hop
}

/// Outputs of a stride-one convolution.
fn conv_out_len(t: usize, pad_left: usize, pad_right: usize, span: usize) -> (out_t: usize)
    requires
        t + pad_left <= usize::MAX,
        t + pad_left + pad_right <= usize::MAX,
        conv_len(t + pad_left + pad_right, span as int) <= usize::MAX,
    ensures
        out_t == conv_len(t + pad_left + pad_right, span as int),
{
    (t + pad_left + pad_right).saturating_sub(span) + 1
}

/// The tiled convolution, under one name for its two lengths.
pub open spec fn conv1d_cmd(
    x: &CudaSlice<Fp32>,
    w: &CudaSlice<Fp32>,
    bias: Option<&CudaSlice<Fp32>>,
    in_ch: usize,
    t: usize,
    out_ch: usize,
    k: usize,
    pad_left: usize,
    dilation: usize,
    out: CudaSlice<Fp32>,
    out_t: int,
    span: int,
) -> Cmd {
    Cmd::Launch {
        kernel: conv_kernel(out_t),
        label: Kernel::Conv1d,
        args: seq![
            ptr(*x),
            ptr(*w),
            ptr_or_null(bias),
            ptr(out),
            num(in_ch as int),
            num(t as int),
            num(out_ch as int),
            num(k as int),
            num(pad_left as int),
            num(dilation as int),
            num(out_t),
        ],
        cfg: conv_cfg(out_ch as int, out_t, span),
    }
}

/// The depthwise convolution: a thread an output.
pub open spec fn depthwise_conv1d_cmd(
    x: &CudaSlice<Fp32>,
    w: &CudaSlice<Fp32>,
    bias: Option<&CudaSlice<Fp32>>,
    ch: usize,
    t: usize,
    k: usize,
    pad_left: usize,
    dilation: usize,
    out: CudaSlice<Fp32>,
    out_t: int,
) -> Cmd {
    launch(
        Kernel::DepthwiseConv1d,
        seq![
            ptr(*x),
            ptr(*w),
            ptr_or_null(bias),
            ptr(out),
            num(ch as int),
            num(t as int),
            num(k as int),
            num(pad_left as int),
            num(dilation as int),
            num(out_t),
        ],
        flat_cfg(ch * out_t),
    )
}

/// The transposed convolution: a thread an output.
pub open spec fn transposed_conv1d_cmd(
    x: &CudaSlice<Fp32>,
    w: &CudaSlice<Fp32>,
    bias: Option<&CudaSlice<Fp32>>,
    in_ch: usize,
    t: usize,
    out_ch: usize,
    k: usize,
    stride: usize,
    padding: usize,
    out: CudaSlice<Fp32>,
    out_t: int,
) -> Cmd {
    launch(
        Kernel::TransposedConv1d,
        seq![
            ptr(*x),
            ptr(*w),
            ptr_or_null(bias),
            ptr(out),
            num(in_ch as int),
            num(t as int),
            num(out_ch as int),
            num(k as int),
            num(stride as int),
            num(padding as int),
            num(out_t),
        ],
        flat_cfg(out_ch * out_t),
    )
}

/// The grouped convolution: a thread an output.
pub open spec fn grouped_conv1d_cmd(
    x: &CudaSlice<Fp32>,
    w: &CudaSlice<Fp32>,
    bias: &CudaSlice<Fp32>,
    in_ch: usize,
    t: usize,
    out_ch: usize,
    k: usize,
    groups: usize,
    pad_left: usize,
    out: CudaSlice<Fp32>,
    out_t: int,
) -> Cmd {
    launch(
        Kernel::GroupedConv1d,
        seq![
            ptr(*x),
            ptr(*w),
            ptr(*bias),
            ptr(out),
            num(in_ch as int),
            num(t as int),
            num(out_ch as int),
            num(k as int),
            num(groups as int),
            num(pad_left as int),
            num(out_t),
        ],
        flat_cfg(out_ch * out_t),
    )
}

/// The strided convolution: a thread an output.
pub open spec fn strided_conv1d_cmd(
    x: &CudaSlice<Fp32>,
    w: &CudaSlice<Fp32>,
    bias: Option<&CudaSlice<Fp32>>,
    in_ch: usize,
    t: usize,
    out_ch: usize,
    k: usize,
    stride: usize,
    pad_left: usize,
    out: CudaSlice<Fp32>,
    out_t: int,
) -> Cmd {
    launch(
        Kernel::StridedConv1d,
        seq![
            ptr(*x),
            ptr(*w),
            ptr_or_dummy(bias),
            ptr(out),
            num(in_ch as int),
            num(t as int),
            num(out_ch as int),
            num(k as int),
            num(stride as int),
            num(pad_left as int),
            num(out_t),
            flag(bias is Some),
        ],
        flat_cfg(out_ch * out_t),
    )
}

/// The layout: a thread an element.
pub open spec fn im2col_cmd(
    x: &CudaSlice<Fp32>,
    t: usize,
    in_ch: usize,
    k: usize,
    stride: usize,
    pad: usize,
    dilation: usize,
    out: CudaSlice<Fp32>,
    out_t: int,
) -> Cmd {
    launch(
        Kernel::Im2col,
        seq![
            ptr(*x),
            ptr(out),
            num(t as int),
            num(in_ch as int),
            num(k as int),
            num(stride as int),
            num(pad as int),
            num(dilation as int),
            num(out_t),
        ],
        flat_cfg(out_t * (in_ch * k)),
    )
}

/// The fusion: a block a channel.
pub open spec fn fuse_weight_norm_cmd(
    v: &CudaSlice<Fp32>,
    g: &CudaSlice<Fp32>,
    out_ch: usize,
    in_ch: usize,
    k: usize,
    out: CudaSlice<Fp32>,
) -> Cmd {
    launch(
        Kernel::FuseWeightNorm,
        seq![ptr(*v), ptr(*g), ptr(out), num(in_ch * k)],
        per_row_cfg(out_ch as int),
    )
}

/// The transform: a thread a bin and frame.
pub open spec fn stft_cmd(
    x: &CudaSlice<Fp32>,
    window: &CudaSlice<Fp32>,
    n: usize,
    n_fft: usize,
    hop: usize,
    re: CudaSlice<Fp32>,
    im: CudaSlice<Fp32>,
    frames: int,
    size: int,
) -> Cmd {
    launch(
        Kernel::StftDft,
        seq![
            ptr(*x),
            ptr(re),
            ptr(im),
            ptr(*window),
            num(n as int),
            num(n_fft as int),
            num(hop as int),
            num(frames),
        ],
        flat_cfg(size),
    )
}

/// The inverse: a thread a sample.
pub open spec fn istft_cmd(
    re: &CudaSlice<Fp32>,
    im: &CudaSlice<Fp32>,
    window: &CudaSlice<Fp32>,
    frames: usize,
    n_fft: usize,
    hop: usize,
    out: CudaSlice<Fp32>,
) -> Cmd {
    launch(
        Kernel::IstftOla,
        seq![
            ptr(*re),
            ptr(*im),
            ptr(out),
            ptr(*window),
            num(istft_len(frames as int, hop as int)),
            num(n_fft as int),
            num(hop as int),
            num(frames as int),
        ],
        flat_cfg(istft_len(frames as int, hop as int)),
    )
}

impl Gpu {
    /// General 1-D convolution. Returns the output and its length.
    pub fn conv1d(
        &mut self,
        x: &CudaSlice<Fp32>,
        w: &CudaSlice<Fp32>,
        bias: Option<&CudaSlice<Fp32>>,
        in_ch: usize,
        t: usize,
        out_ch: usize,
        k: usize,
        pad_left: usize,
        pad_right: usize,
        dilation: usize,
    ) -> (r: (CudaSlice<Fp32>, usize))
        requires
            conv_fits(t as int, pad_left as int, pad_right as int, k as int, dilation as int),
            ({
                let span = conv_span(k as int, dilation as int);
                let out_t = conv_len(t + pad_left + pad_right, span);
                &&& out_ch * out_t <= usize::MAX
                &&& conv_per_block(out_t) + span <= usize::MAX
                &&& (conv_per_block(out_t) + span - 1) * 4 <= usize::MAX
            }),
        ensures
            ({
                let span = conv_span(k as int, dilation as int);
                let out_t = conv_len(t + pad_left + pad_right, span);
                let out = made::<Fp32>(old(self)@.len() as int, out_ch * out_t);
                &&& r == (out, out_t as usize)
                &&& r.1 == out_t
                &&& final(self)@ == old(self)@.push(zeros(Elem::F32, out_ch * out_t)).push(
                    conv1d_cmd(
                        x,
                        w,
                        bias,
                        in_ch,
                        t,
                        out_ch,
                        k,
                        pad_left,
                        dilation,
                        out,
                        out_t,
                        span,
                    ),
                )
            }),
            windows_fill(t + pad_left + pad_right, (k - 1) * dilation + 1, 1, r.1 as int),
            int_fits(in_ch as int)
                && int_fits(t as int) && int_fits(out_ch as int) && int_fits(k as int)
                && int_fits(pad_left as int) && int_fits(dilation as int) && 0 < out_ch
                && r.1 <= i32::MAX
                && (
                    conv_per_block(r.1 as int) + conv_span(k as int, dilation as int) - 1
                ) * 4 <= u32::MAX
                ==> taps(
                    final(self)@.last(),
                    out_ch as int,
                    r.1 as int,
                    in_ch as int,
                    k as int,
                    dense_taps(
                        *x,
                        *w,
                        bias,
                        in_ch as int,
                        t as int,
                        k as int,
                        pad_left as int,
                        dilation as int,
                        1,
                        r.0,
                        r.1 as int,
                    ),
                ),
            made_in(final(self)@, r.0, Elem::F32, out_ch * r.1),
            final(self)@.last()->label == Kernel::Conv1d,
    {
        let span: usize = dilation * (k - 1) + 1;
        let out_t: usize = conv_out_len(t, pad_left, pad_right, span);
        // The four-deep time tile pays for itself only when the sequence can
        // fill it. Below that the short kernel wins, because three quarters of
        // every thread's arithmetic would otherwise fall past the end of the
        // sequence.
        let long_form: bool = out_t >= (CONV_BLOCK * CONV_T_REG) as usize;
        let t_reg: u32 = if long_form { CONV_T_REG } else { 1 };
        let threads: u32 = if long_form {
            CONV_BLOCK
        } else {
            proof {
                ceil_div_covers(out_t as int, 32);
            }
            let rounded: u32 = div_ceil_u32(out_t as u32, 32) * 32;
            if rounded < 32 {
                32
            } else if rounded > CONV_BLOCK {
                CONV_BLOCK
            } else {
                rounded
            }
        };
        assert(threads == conv_threads(out_t as int));
        let per_block: u32 = threads * t_reg;
        let out = self.zeros(out_ch * out_t);
        let tile: usize = per_block as usize + span - 1;
        let cfg = LaunchConfig {
            grid_dim: (
                div_ceil_u32(out_ch as u32, CONV_OC_TILE),
                div_ceil_u32(out_t as u32, per_block),
                1,
            ),
            block_dim: (threads, 1, 1),
            shared_mem_bytes: (tile * 4) as u32,
        };
        let kernel: Kernel = if long_form { Kernel::Conv1d } else { Kernel::Conv1dShort };
        self.launch_as(
            kernel,
            Kernel::Conv1d,
            vec![
                Arg::ptr(x),
                Arg::ptr(w),
                Arg::ptr_or_null(bias),
                Arg::ptr(&out),
                Arg::num(in_ch),
                Arg::num(t),
                Arg::num(out_ch),
                Arg::num(k),
                Arg::num(pad_left),
                Arg::num(dilation),
                Arg::num(out_t),
            ],
            cfg,
        );
        proof {
            outputs_are_the_windows_that_fit(
                t + pad_left + pad_right,
                span as int,
                k as int,
                dilation as int,
                1,
            );
            if int_fits(in_ch as int)
                && int_fits(t as int) && int_fits(out_ch as int) && int_fits(k as int)
                && int_fits(pad_left as int) && int_fits(dilation as int) && 0 < out_ch
                && out_t <= i32::MAX
                && (
                    conv_per_block(out_t as int) + conv_span(k as int, dilation as int) - 1
                ) * 4 <= u32::MAX {
                every_output_is_convolved(
                    x,
                    w,
                    bias,
                    in_ch,
                    t,
                    out_ch,
                    k,
                    pad_left,
                    dilation,
                    out,
                    out_t as int,
                    span as int,
                );
            }
        }
        (out, out_t)
    }

    /// Depthwise convolution. Returns the output and its length.
    pub fn depthwise_conv1d(
        &mut self,
        x: &CudaSlice<Fp32>,
        w: &CudaSlice<Fp32>,
        bias: Option<&CudaSlice<Fp32>>,
        ch: usize,
        t: usize,
        k: usize,
        pad_left: usize,
        pad_right: usize,
        dilation: usize,
    ) -> (r: (CudaSlice<Fp32>, usize))
        requires
            conv_fits(t as int, pad_left as int, pad_right as int, k as int, dilation as int),
            ch * (
                conv_len(t + pad_left + pad_right, conv_span(k as int, dilation as int))
            ) <= usize::MAX,
        ensures
            ({
                let out_t = conv_len(t + pad_left + pad_right, conv_span(k as int, dilation as int));
                let out = made::<Fp32>(old(self)@.len() as int, ch * out_t);
                &&& r == (out, out_t as usize)
                &&& r.1 == out_t
                &&& final(self)@ == old(self)@.push(zeros(Elem::F32, ch * out_t)).push(
                    depthwise_conv1d_cmd(x, w, bias, ch, t, k, pad_left, dilation, out, out_t),
                )
            }),
            windows_fill(t + pad_left + pad_right, (k - 1) * dilation + 1, 1, r.1 as int),
            int_fits(ch as int)
                && int_fits(t as int) && int_fits(k as int) && int_fits(pad_left as int)
                && int_fits(dilation as int) && int_fits(r.1 as int) && int_fits(ch * r.1)
                ==> taps(
                    final(self)@.last(),
                    ch as int,
                    r.1 as int,
                    1,
                    k as int,
                    depthwise_taps(
                        *x,
                        *w,
                        bias,
                        t as int,
                        k as int,
                        pad_left as int,
                        dilation as int,
                        r.0,
                        r.1 as int,
                    ),
                ),
            made_in(final(self)@, r.0, Elem::F32, ch * r.1),
    {
        let span: usize = dilation * (k - 1) + 1;
        let out_t: usize = conv_out_len(t, pad_left, pad_right, span);
        let out = self.zeros(ch * out_t);
        self.launch(
            Kernel::DepthwiseConv1d,
            vec![
                Arg::ptr(x),
                Arg::ptr(w),
                Arg::ptr_or_null(bias),
                Arg::ptr(&out),
                Arg::num(ch),
                Arg::num(t),
                Arg::num(k),
                Arg::num(pad_left),
                Arg::num(dilation),
                Arg::num(out_t),
            ],
            LaunchConfig::flat(ch * out_t),
        );
        proof {
            outputs_are_the_windows_that_fit(
                t + pad_left + pad_right,
                span as int,
                k as int,
                dilation as int,
                1,
            );
            if int_fits(ch as int)
                && int_fits(t as int) && int_fits(k as int) && int_fits(pad_left as int)
                && int_fits(dilation as int) && int_fits(out_t as int) && int_fits(ch * out_t) {
                every_channel_is_convolved_alone(
                    x,
                    w,
                    bias,
                    ch,
                    t,
                    k,
                    pad_left,
                    dilation,
                    out,
                    out_t as int,
                );
            }
        }
        (out, out_t)
    }

    /// Transposed convolution. Returns the output and its length.
    pub fn transposed_conv1d(
        &mut self,
        x: &CudaSlice<Fp32>,
        w: &CudaSlice<Fp32>,
        bias: Option<&CudaSlice<Fp32>>,
        in_ch: usize,
        t: usize,
        out_ch: usize,
        k: usize,
        stride: usize,
        padding: usize,
    ) -> (r: (CudaSlice<Fp32>, usize))
        requires
            t >= 1,
            (t - 1) * stride <= usize::MAX,
            (t - 1) * stride + k <= usize::MAX,
            2 * padding <= (t - 1) * stride + k,
            out_ch * transposed_len(t as int, k as int, stride as int, padding as int) <= usize::MAX,
        ensures
            ({
                let out_t = transposed_len(t as int, k as int, stride as int, padding as int);
                let out = made::<Fp32>(old(self)@.len() as int, out_ch * out_t);
                &&& r == (out, out_t as usize)
                &&& r.1 == out_t
                &&& final(self)@ == old(self)@.push(zeros(Elem::F32, out_ch * out_t)).push(
                    transposed_conv1d_cmd(
                        x,
                        w,
                        bias,
                        in_ch,
                        t,
                        out_ch,
                        k,
                        stride,
                        padding,
                        out,
                        out_t,
                    ),
                )
            }),
            (t - 1) * stride + (k - 1) - padding == r.1 - 1 + padding,
            int_fits(in_ch as int)
                && int_fits(t as int) && int_fits(out_ch as int) && int_fits(k as int)
                && int_fits(padding as int) && int_fits(stride as int) && int_fits(r.1 as int)
                && int_fits(out_ch * r.1)
                ==> taps(
                    final(self)@.last(),
                    out_ch as int,
                    r.1 as int,
                    in_ch as int,
                    k as int,
                    transposed_taps(
                        *x,
                        *w,
                        bias,
                        in_ch as int,
                        t as int,
                        out_ch as int,
                        k as int,
                        stride as int,
                        padding as int,
                        r.0,
                        r.1 as int,
                    ),
                ),
            made_in(final(self)@, r.0, Elem::F32, out_ch * r.1),
    {
        let out_t: usize = (t - 1) * stride + k - 2 * padding;
        let out = self.zeros(out_ch * out_t);
        self.launch(
            Kernel::TransposedConv1d,
            vec![
                Arg::ptr(x),
                Arg::ptr(w),
                Arg::ptr_or_null(bias),
                Arg::ptr(&out),
                Arg::num(in_ch),
                Arg::num(t),
                Arg::num(out_ch),
                Arg::num(k),
                Arg::num(stride),
                Arg::num(padding),
                Arg::num(out_t),
            ],
            LaunchConfig::flat(out_ch * out_t),
        );
        proof {
            a_transposed_output_is_trimmed_alike(t as int, k as int, stride as int, padding as int);
            if int_fits(in_ch as int)
                && int_fits(t as int) && int_fits(out_ch as int) && int_fits(k as int)
                && int_fits(padding as int) && int_fits(stride as int) && int_fits(out_t as int)
                && int_fits(out_ch * out_t) {
                every_output_is_landed_on(
                    x,
                    w,
                    bias,
                    in_ch,
                    t,
                    out_ch,
                    k,
                    stride,
                    padding,
                    out,
                    out_t as int,
                );
            }
        }
        (out, out_t)
    }

    /// A grouped convolution with left padding. Returns the output and its
    /// length.
    ///
    /// The weight's second axis is the channel *within* the group, so it is
    /// `[out_ch, in_ch / groups, k]` and not `[out_ch, in_ch, k]`.
    pub fn grouped_conv1d(
        &mut self,
        x: &CudaSlice<Fp32>,
        w: &CudaSlice<Fp32>,
        bias: &CudaSlice<Fp32>,
        in_ch: usize,
        t: usize,
        out_ch: usize,
        k: usize,
        groups: usize,
        pad_left: usize,
    ) -> (r: (CudaSlice<Fp32>, usize))
        requires
            t + pad_left <= usize::MAX,
            conv_len(t + pad_left, k as int) <= usize::MAX,
            out_ch * (conv_len(t + pad_left, k as int)) <= usize::MAX,
        ensures
            ({
                let out_t = conv_len(t + pad_left, k as int);
                let out = made::<Fp32>(old(self)@.len() as int, out_ch * out_t);
                &&& r == (out, out_t as usize)
                &&& r.1 == out_t
                &&& final(self)@ == old(self)@.push(zeros(Elem::F32, out_ch * out_t)).push(
                    grouped_conv1d_cmd(
                        x,
                        w,
                        bias,
                        in_ch,
                        t,
                        out_ch,
                        k,
                        groups,
                        pad_left,
                        out,
                        out_t,
                    ),
                )
            }),
            windows_fill(t + pad_left, k as int, 1, r.1 as int),
            int_fits(in_ch as int)
                && int_fits(t as int) && int_fits(out_ch as int) && int_fits(k as int)
                && int_fits(pad_left as int) && 0 < groups <= i32::MAX && int_fits(r.1 as int)
                && int_fits(out_ch * r.1)
                ==> taps(
                    final(self)@.last(),
                    out_ch as int,
                    r.1 as int,
                    in_ch as int / groups as int,
                    k as int,
                    grouped_taps(
                        *x,
                        *w,
                        *bias,
                        in_ch as int / groups as int,
                        out_ch as int / groups as int,
                        t as int,
                        k as int,
                        pad_left as int,
                        r.0,
                        r.1 as int,
                    ),
                ),
            made_in(final(self)@, r.0, Elem::F32, out_ch * r.1),
    {
        let out_t: usize = conv_out_len(t, pad_left, 0, k);
        let out = self.zeros(out_ch * out_t);
        self.launch(
            Kernel::GroupedConv1d,
            vec![
                Arg::ptr(x),
                Arg::ptr(w),
                Arg::ptr(bias),
                Arg::ptr(&out),
                Arg::num(in_ch),
                Arg::num(t),
                Arg::num(out_ch),
                Arg::num(k),
                Arg::num(groups),
                Arg::num(pad_left),
                Arg::num(out_t),
            ],
            LaunchConfig::flat(out_ch * out_t),
        );
        proof {
            outputs_are_the_windows_that_fit(t + pad_left, k as int, k as int, 1, 1);
            if int_fits(in_ch as int)
                && int_fits(t as int) && int_fits(out_ch as int) && int_fits(k as int)
                && int_fits(pad_left as int) && 0 < groups <= i32::MAX && int_fits(out_t as int)
                && int_fits(out_ch * out_t) {
                every_group_is_convolved(
                    x,
                    w,
                    bias,
                    in_ch,
                    t,
                    out_ch,
                    k,
                    groups,
                    pad_left,
                    out,
                    out_t as int,
                );
            }
        }
        (out, out_t)
    }

    /// A strided convolution with left padding only. Returns the output and
    /// its length.
    ///
    /// [`Gpu::conv1d`] is stride-one; this decimates.
    pub fn strided_conv1d(
        &mut self,
        x: &CudaSlice<Fp32>,
        w: &CudaSlice<Fp32>,
        bias: Option<&CudaSlice<Fp32>>,
        in_ch: usize,
        t: usize,
        out_ch: usize,
        k: usize,
        stride: usize,
        pad_left: usize,
    ) -> (r: (CudaSlice<Fp32>, usize))
        requires
            stride >= 1,
            t + pad_left <= usize::MAX,
            strided_len(t + pad_left, k as int, stride as int) <= usize::MAX,
            out_ch * (strided_len(t + pad_left, k as int, stride as int)) <= usize::MAX,
        ensures
            ({
                let out_t = strided_len(t + pad_left, k as int, stride as int);
                let out = made::<Fp32>(old(self)@.len() as int, out_ch * out_t);
                &&& r == (out, out_t as usize)
                &&& r.1 == out_t
                &&& final(self)@ == old(self)@.push(zeros(Elem::F32, out_ch * out_t)).push(
                    strided_conv1d_cmd(
                        x,
                        w,
                        bias,
                        in_ch,
                        t,
                        out_ch,
                        k,
                        stride,
                        pad_left,
                        out,
                        out_t,
                    ),
                )
            }),
            windows_fill(t + pad_left, k as int, stride as int, r.1 as int),
            int_fits(in_ch as int)
                && int_fits(t as int) && int_fits(out_ch as int) && int_fits(k as int)
                && int_fits(pad_left as int) && int_fits(stride as int) && int_fits(r.1 as int)
                && int_fits(out_ch * r.1)
                ==> taps(
                    final(self)@.last(),
                    out_ch as int,
                    r.1 as int,
                    in_ch as int,
                    k as int,
                    dense_taps(
                        *x,
                        *w,
                        bias,
                        in_ch as int,
                        t as int,
                        k as int,
                        pad_left as int,
                        1,
                        stride as int,
                        r.0,
                        r.1 as int,
                    ),
                ),
            made_in(final(self)@, r.0, Elem::F32, out_ch * r.1),
    {
        let out_t: usize = (t + pad_left).saturating_sub(k) / stride + 1;
        let out = self.zeros(out_ch * out_t);
        self.launch(
            Kernel::StridedConv1d,
            vec![
                Arg::ptr(x),
                Arg::ptr(w),
                Arg::ptr_or_dummy(bias),
                Arg::ptr(&out),
                Arg::num(in_ch),
                Arg::num(t),
                Arg::num(out_ch),
                Arg::num(k),
                Arg::num(stride),
                Arg::num(pad_left),
                Arg::num(out_t),
                Arg::flag(bias.is_some()),
            ],
            LaunchConfig::flat(out_ch * out_t),
        );
        proof {
            outputs_are_the_windows_that_fit(t + pad_left, k as int, k as int, 1, stride as int);
            if int_fits(in_ch as int)
                && int_fits(t as int) && int_fits(out_ch as int) && int_fits(k as int)
                && int_fits(pad_left as int) && int_fits(stride as int) && int_fits(out_t as int)
                && int_fits(out_ch * out_t) {
                every_output_is_convolved_a_stride_apart(
                    x,
                    w,
                    bias,
                    in_ch,
                    t,
                    out_ch,
                    k,
                    stride,
                    pad_left,
                    out,
                    out_t as int,
                );
            }
        }
        (out, out_t)
    }

    /// Lays a convolution out as a matrix: `[t, in_ch]` to `[out_t, in_ch*k]`.
    ///
    /// A wide convolution is then one [`Gpu::gemm`]. Returns the matrix and
    /// `out_t`.
    pub fn im2col(
        &mut self,
        x: &CudaSlice<Fp32>,
        t: usize,
        in_ch: usize,
        k: usize,
        stride: usize,
        pad: usize,
        dilation: usize,
    ) -> (r: (CudaSlice<Fp32>, usize))
        requires
            k >= 1,
            stride >= 1,
            dilation * (k - 1) <= usize::MAX,
            conv_span(k as int, dilation as int) <= usize::MAX,
            2 * pad <= usize::MAX,
            t + 2 * pad <= usize::MAX,
            conv_span(k as int, dilation as int) <= t + 2 * pad,
            im2col_rows(t, k, stride, pad, dilation) <= usize::MAX,
            in_ch * k <= usize::MAX,
            im2col_rows(t, k, stride, pad, dilation) * (in_ch * k) <= usize::MAX,
        ensures
            ({
                let out_t = im2col_rows(t, k, stride, pad, dilation);
                let out = made::<Fp32>(old(self)@.len() as int, out_t * (in_ch * k));
                &&& r == (out, out_t as usize)
                &&& r.1 == out_t
                &&& final(self)@ == old(self)@.push(zeros(Elem::F32, out_t * (in_ch * k))).push(
                    im2col_cmd(x, t, in_ch, k, stride, pad, dilation, out, out_t),
                )
            }),
            windows_fill(t + 2 * pad, (k - 1) * dilation + 1, stride as int, r.1 as int),
            int_fits(t as int)
                && int_fits(stride as int) && int_fits(pad as int) && int_fits(dilation as int)
                && three_ints_fit(r.1 as int, in_ch as int, k as int)
                ==> unfolds(
                    final(self)@.last(),
                    *x,
                    r.0,
                    t as int,
                    in_ch as int,
                    k as int,
                    stride as int,
                    pad as int,
                    dilation as int,
                    r.1 as int,
                ),
            made_in(final(self)@, r.0, Elem::F32, r.1 * (in_ch * k)),
    {
        let span: usize = dilation * (k - 1) + 1;
        let out_t: usize = (t + 2 * pad - span) / stride + 1;
        let cols: usize = in_ch * k;
        let out = self.zeros(out_t * cols);
        self.launch(
            Kernel::Im2col,
            vec![
                Arg::ptr(x),
                Arg::ptr(&out),
                Arg::num(t),
                Arg::num(in_ch),
                Arg::num(k),
                Arg::num(stride),
                Arg::num(pad),
                Arg::num(dilation),
                Arg::num(out_t),
            ],
            LaunchConfig::flat(out_t * cols),
        );
        proof {
            outputs_are_the_windows_that_fit(
                t + 2 * pad,
                span as int,
                k as int,
                dilation as int,
                stride as int,
            );
            if int_fits(t as int)
                && int_fits(stride as int) && int_fits(pad as int) && int_fits(dilation as int)
                && three_ints_fit(out_t as int, in_ch as int, k as int) {
                every_tap_is_laid_out(x, t, in_ch, k, stride, pad, dilation, out, out_t as int);
            }
        }
        (out, out_t)
    }

    /// Fuses weight normalisation: a block an output channel.
    pub fn fuse_weight_norm(
        &mut self,
        v: &CudaSlice<Fp32>,
        g: &CudaSlice<Fp32>,
        out_ch: usize,
        in_ch: usize,
        k: usize,
    ) -> (out: CudaSlice<Fp32>)
        requires
            in_ch * k <= usize::MAX,
            out_ch * (in_ch * k) <= usize::MAX,
        ensures
            out == made::<Fp32>(old(self)@.len() as int, out_ch * (in_ch * k)),
            final(self)@ == old(self)@.push(zeros(Elem::F32, out_ch * (in_ch * k))).push(
                fuse_weight_norm_cmd(v, g, out_ch, in_ch, k, out),
            ),
            int_fits(out_ch as int) && int_fits(in_ch * k)
                ==> norms(
                    final(self)@.last(),
                    out_ch as int,
                    in_ch * k,
                    scaled_to_length(*v, *g, in_ch * k, out),
                ),
            made_in(final(self)@, out, Elem::F32, out_ch * (in_ch * k)),
    {
        let per: usize = in_ch * k;
        let out = self.zeros(out_ch * per);
        self.launch(
            Kernel::FuseWeightNorm,
            vec![Arg::ptr(v), Arg::ptr(g), Arg::ptr(&out), Arg::num(per)],
            LaunchConfig::per_row(out_ch),
        );
        proof {
            if int_fits(out_ch as int) && int_fits(in_ch * k) {
                every_channel_is_brought_to_length(v, g, out_ch, in_ch, k, out);
            }
        }
        out
    }

    /// A centred real STFT, as a direct DFT. Returns `(real, imag)`, each
    /// `[n_fft / 2 + 1, frames]`, and the frames.
    ///
    /// The signal is reflect-padded by `n_fft / 2` either side, which is what
    /// makes `n / hop + 1` the frame count.
    pub fn stft(
        &mut self,
        x: &CudaSlice<Fp32>,
        window: &CudaSlice<Fp32>,
        n: usize,
        n_fft: usize,
        hop: usize,
    ) -> (r: (CudaSlice<Fp32>, CudaSlice<Fp32>, usize))
        requires
            hop >= 1,
            stft_frames(n as int, hop as int) <= usize::MAX,
            (n_fft / 2 + 1) * stft_frames(n as int, hop as int) <= usize::MAX,
        ensures
            ({
                let at = old(self)@.len() as int;
                let frames = stft_frames(n as int, hop as int);
                let size = (n_fft / 2 + 1) * frames;
                let (re, im) = (made::<Fp32>(at, size), made::<Fp32>(at + 1, size));
                &&& r == (re, im, frames as usize)
                &&& r.2 == frames
                &&& final(self)@ == old(self)@.push(zeros(Elem::F32, size)).push(
                    zeros(Elem::F32, size),
                ).push(
                    stft_cmd(x, window, n, n_fft, hop, re, im, frames, size),
                )
            }),
            int_fits(n as int)
                && int_fits(n_fft as int) && hop <= i32::MAX && int_fits(r.2 as int)
                && int_fits((n_fft / 2 + 1) * r.2)
                ==> transforms(
                    final(self)@.last(),
                    *x,
                    *window,
                    n as int,
                    n_fft as int,
                    hop as int,
                    r.0,
                    r.1,
                    r.2 as int,
                ),
            (r.2 - 1) * hop <= n < r.2 * hop,
            made_in(final(self)@, r.0, Elem::F32, (n_fft / 2 + 1) * r.2)
                && made_in(final(self)@, r.1, Elem::F32, (n_fft / 2 + 1) * r.2),
    {
        let frames: usize = n / hop + 1;
        let bins: usize = n_fft / 2 + 1;
        let re = self.zeros(bins * frames);
        let im = self.zeros(bins * frames);
        self.launch(
            Kernel::StftDft,
            vec![
                Arg::ptr(x),
                Arg::ptr(&re),
                Arg::ptr(&im),
                Arg::ptr(window),
                Arg::num(n),
                Arg::num(n_fft),
                Arg::num(hop),
                Arg::num(frames),
            ],
            LaunchConfig::flat(bins * frames),
        );
        proof {
            if int_fits(n as int)
                && int_fits(n_fft as int) && hop <= i32::MAX && int_fits(frames as int)
                && int_fits((n_fft / 2 + 1) * frames) {
                every_bin_is_transformed(
                    x,
                    window,
                    n,
                    n_fft,
                    hop,
                    re,
                    im,
                    frames as int,
                    bins * frames,
                );
            }
            frames_reach_the_end(n as int, hop as int);
        }
        (re, im, frames)
    }

    /// The inverse, as overlap-add with the window-envelope division.
    ///
    /// One thread per *output* sample, gathering the frames that cover it,
    /// rather than one per frame scattering with atomics. The gather is
    /// deterministic.
    pub fn istft(
        &mut self,
        re: &CudaSlice<Fp32>,
        im: &CudaSlice<Fp32>,
        window: &CudaSlice<Fp32>,
        frames: usize,
        n_fft: usize,
        hop: usize,
    ) -> (out: CudaSlice<Fp32>)
        requires
            frames >= 1,
            istft_len(frames as int, hop as int) <= usize::MAX,
        ensures
            out == made::<Fp32>(old(self)@.len() as int, istft_len(frames as int, hop as int)),
            final(self)@ == old(self)@.push(
                zeros(Elem::F32, istft_len(frames as int, hop as int)),
            ).push(
                istft_cmd(re, im, window, frames, n_fft, hop, out),
            ),
            int_fits(frames as int)
                && int_fits(n_fft as int) && int_fits(hop as int) && int_fits((frames - 1) * hop)
                ==> gathers(
                    final(self)@.last(),
                    *re,
                    *im,
                    *window,
                    frames as int,
                    n_fft as int,
                    hop as int,
                    out,
                ),
            made_in(final(self)@, out, Elem::F32, (frames - 1) * hop),
    {
        let out_n: usize = (frames - 1) * hop;
        let out = self.zeros(out_n);
        self.launch(
            Kernel::IstftOla,
            vec![
                Arg::ptr(re),
                Arg::ptr(im),
                Arg::ptr(&out),
                Arg::ptr(window),
                Arg::num(out_n),
                Arg::num(n_fft),
                Arg::num(hop),
                Arg::num(frames),
            ],
            LaunchConfig::flat(out_n),
        );
        proof {
            if int_fits(frames as int)
                && int_fits(n_fft as int) && int_fits(hop as int) && int_fits((frames - 1) * hop) {
                every_sample_is_gathered(re, im, window, frames, n_fft, hop, out);
            }
        }
        out
    }
}

/// Rows of the matrix [`Gpu::im2col`] makes.
pub open spec fn im2col_rows(
    t: usize,
    k: usize,
    stride: usize,
    pad: usize,
    dilation: usize,
) -> int {
    (t + 2 * pad - conv_span(k as int, dilation as int)) / (stride as int) + 1
}

/// Transforming and transforming back loses at most what is left of the last
/// hop: the inverse gives the most whole hops that the signal holds.
pub proof fn istft_undoes_stft_in_length(n: int, hop: int)
    requires
        0 <= n,
        0 < hop,
    ensures
        istft_len(stft_frames(n, hop), hop) <= n,
        n - istft_len(stft_frames(n, hop), hop) < hop,
        n % hop == 0 ==> istft_len(stft_frames(n, hop), hop) == n,
{
    vstd::arithmetic::div_mod::lemma_fundamental_div_mod(n, hop);
    assert((n / hop) * hop == hop * (n / hop)) by (nonlinear_arith);
}

/// Outputs of a convolution of stride `stride` over `padded` positions.
pub open spec fn strided_len(padded: int, k: int, stride: int) -> int {
    max(0, padded - k) / stride + 1
}

/// The windows of a strided convolution all lie inside the padded input, and one
/// more would not.
pub proof fn strided_windows_fit(padded: int, k: int, stride: int)
    requires
        0 <= k <= padded,
        0 < stride,
    ensures
        (strided_len(padded, k, stride) - 1) * stride + k <= padded,
        strided_len(padded, k, stride) * stride + k > padded,
{
    let left = padded - k;
    vstd::arithmetic::div_mod::lemma_fundamental_div_mod(left, stride);
    let q = left / stride;
    assert(q * stride == stride * q) by (nonlinear_arith);
    assert((q + 1) * stride == q * stride + stride) by (nonlinear_arith);
}

/// A transposed convolution undoes a strided one in length: convolving its
/// output, padded as it was trimmed, gives back the length it started from.
pub proof fn transposed_undoes_strided_in_length(t: int, k: int, stride: int, padding: int)
    requires
        1 <= t,
        0 <= k,
        0 < stride,
        0 <= padding,
        2 * padding <= (t - 1) * stride + k,
    ensures
        strided_len(transposed_len(t, k, stride, padding) + 2 * padding, k, stride) == t,
{
    assert((t - 1) * stride >= 0) by (nonlinear_arith)
        requires
            1 <= t,
            0 < stride,
    ;
    vstd::arithmetic::div_mod::lemma_div_multiples_vanish(t - 1, stride);
    assert(((t - 1) * stride) / stride == t - 1) by {
        assert(stride * (t - 1) == (t - 1) * stride) by (nonlinear_arith);
    }
}

} // verus!
