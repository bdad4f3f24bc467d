//! Pointwise kernels, copies and lookups: a thread an element.

use crate::buffer::{CudaSlice, Elem, FloatBits, Fp32};
use crate::device::{Fun, int_fits, ints_fit, three_ints_fit};
use crate::device::moving::{
    channels_are_turned_round, copies, every_element_is_repeated, every_element_is_transposed,
    flips, repeats, runs_are_copied, transposes,
};
use crate::device::pointwise::{
    a_column_range_is_added, a_snake_has_a_frequency_a_channel, activations_are_applied,
    adds_columns, applies, buffers_are_joined, channels_are_gated_by_channels,
    every_frame_is_drawn_about_its_position, every_id_gets_its_row, every_row_meets_every_weight,
    every_unit_steps_by_its_gates, expands, gates_channels, gates_rows, gelu_is_rounded_across,
    joins, looks_up, projects, rounds_gelu, rows_are_gated_by_their_other_half, snakes, steps,
    the_coupling_is_undone, uncouples,
};
use crate::launch::{flat_cfg, LaunchConfig};
use crate::names::Kernel;
use crate::queue::{launch, made, made_in, num, ptr, ptr_or_null, uninit, zeros, Arg, Cmd, Gpu};
use vstd::prelude::*;

verus! {

/// The rectifier: a thread an element.
pub open spec fn relu_cmd(x: &CudaSlice<Fp32>, n: usize) -> Cmd {
    launch(
        Kernel::ActRelu,
        seq![
            ptr(*x),
            num(n as int),
        ],
        flat_cfg(n as int),
    )
}

/// The leaky one.
pub open spec fn leaky_relu_cmd(x: &CudaSlice<Fp32>, n: usize, slope: FloatBits) -> Cmd {
    launch(
        Kernel::ActLeakyRelu,
        seq![
            ptr(*x),
            num(n as int),
            Arg::Float(slope),
        ],
        flat_cfg(n as int),
    )
}

/// The hyperbolic tangent.
pub open spec fn tanh_cmd(x: &CudaSlice<Fp32>, n: usize) -> Cmd {
    launch(
        Kernel::ActTanh,
        seq![
            ptr(*x),
            num(n as int),
        ],
        flat_cfg(n as int),
    )
}

/// GELU.
pub open spec fn gelu_cmd(x: &CudaSlice<Fp32>, n: usize) -> Cmd {
    launch(
        Kernel::ActGelu,
        seq![
            ptr(*x),
            num(n as int),
        ],
        flat_cfg(n as int),
    )
}

/// SiLU.
pub open spec fn silu_cmd(x: &CudaSlice<Fp32>, n: usize) -> Cmd {
    launch(
        Kernel::ActSilu,
        seq![
            ptr(*x),
            num(n as int),
        ],
        flat_cfg(n as int),
    )
}

/// GELU's approximation.
pub open spec fn gelu_tanh_cmd(x: &CudaSlice<Fp32>, n: usize) -> Cmd {
    launch(
        Kernel::ActGeluTanh,
        seq![
            ptr(*x),
            num(n as int),
        ],
        flat_cfg(n as int),
    )
}

/// Mish.
pub open spec fn mish_cmd(x: &CudaSlice<Fp32>, n: usize) -> Cmd {
    launch(
        Kernel::ActMish,
        seq![
            ptr(*x),
            num(n as int),
        ],
        flat_cfg(n as int),
    )
}

/// ELU.
pub open spec fn elu_cmd(x: &CudaSlice<Fp32>, n: usize) -> Cmd {
    launch(
        Kernel::ActElu,
        seq![
            ptr(*x),
            num(n as int),
        ],
        flat_cfg(n as int),
    )
}

/// GELU into half precision.
pub open spec fn gelu_f16_cmd(x: &CudaSlice<Fp32>, n: usize, out: CudaSlice<u16>) -> Cmd {
    launch(
        Kernel::ActGeluF16,
        seq![
            ptr(*x),
            ptr(out),
            num(n as int),
        ],
        flat_cfg(n as int),
    )
}

/// Snake: a thread an element.
pub open spec fn snake_cmd(
    x: &CudaSlice<Fp32>,
    alpha: &CudaSlice<Fp32>,
    ch: usize,
    t: usize,
) -> Cmd {
    launch(
        Kernel::ActSnake,
        seq![
            ptr(*x),
            ptr(*alpha),
            num(ch as int),
            num(t as int),
        ],
        flat_cfg(ch * t),
    )
}

/// Gating channels by channels.
pub open spec fn gated_activation_cmd(
    x: &CudaSlice<Fp32>,
    ch: usize,
    t: usize,
    out: CudaSlice<Fp32>,
) -> Cmd {
    launch(
        Kernel::GatedActivation,
        seq![
            ptr(*x),
            ptr(out),
            num(ch as int),
            num(t as int),
        ],
        flat_cfg(ch * t),
    )
}

/// Gating within rows.
pub open spec fn gated_activation_rows_cmd(
    x: &CudaSlice<Fp32>,
    ch: usize,
    t: usize,
    out: CudaSlice<Fp32>,
) -> Cmd {
    launch(
        Kernel::GatedActivationRows,
        seq![
            ptr(*x),
            ptr(out),
            num(ch as int),
            num(t as int),
        ],
        flat_cfg(ch * t),
    )
}

/// One step: a thread a unit.
pub open spec fn lstm_gates_cmd(
    gi: &CudaSlice<Fp32>,
    gh: &CudaSlice<Fp32>,
    c: &CudaSlice<Fp32>,
    h: &CudaSlice<Fp32>,
    hidden: usize,
) -> Cmd {
    launch(
        Kernel::LstmGates,
        seq![
            ptr(*gi),
            ptr(*gh),
            ptr(*c),
            ptr(*h),
            num(hidden as int),
        ],
        flat_cfg(hidden as int),
    )
}

/// The coupling, inverted.
pub open spec fn coupling_inverse_cmd(
    x: &CudaSlice<Fp32>,
    st: &CudaSlice<Fp32>,
    half: usize,
    t: usize,
    out: CudaSlice<Fp32>,
) -> Cmd {
    launch(
        Kernel::CouplingInverse,
        seq![
            ptr(*x),
            ptr(*st),
            ptr(out),
            num(half as int),
            num(t as int),
        ],
        flat_cfg(half * t),
    )
}

/// A sum in place.
pub open spec fn add_inplace_cmd(a: &CudaSlice<Fp32>, b: &CudaSlice<Fp32>, n: usize) -> Cmd {
    launch(
        Kernel::AddInplace,
        seq![
            ptr(*a),
            ptr(*b),
            num(n as int),
        ],
        flat_cfg(n as int),
    )
}

/// A product in place.
pub open spec fn mul_inplace_cmd(a: &CudaSlice<Fp32>, b: &CudaSlice<Fp32>, n: usize) -> Cmd {
    launch(
        Kernel::MulInplace,
        seq![
            ptr(*a),
            ptr(*b),
            num(n as int),
        ],
        flat_cfg(n as int),
    )
}

/// A difference in place.
pub open spec fn sub_inplace_cmd(a: &CudaSlice<Fp32>, b: &CudaSlice<Fp32>, n: usize) -> Cmd {
    launch(
        Kernel::SubInplace,
        seq![
            ptr(*a),
            ptr(*b),
            num(n as int),
        ],
        flat_cfg(n as int),
    )
}

/// A scaling in place.
pub open spec fn scale_inplace_cmd(a: &CudaSlice<Fp32>, n: usize, s: FloatBits) -> Cmd {
    launch(
        Kernel::ScaleInplace,
        seq![
            ptr(*a),
            num(n as int),
            Arg::Float(s),
        ],
        flat_cfg(n as int),
    )
}

/// A sum of a column range.
pub open spec fn add_strided_cmd(
    a: &CudaSlice<Fp32>,
    b: &CudaSlice<Fp32>,
    cols: usize,
    stride: usize,
    off: usize,
    rows: usize,
) -> Cmd {
    launch(
        Kernel::AddStrided,
        seq![
            ptr(*a),
            ptr(*b),
            num(cols as int),
            num(stride as int),
            num(off as int),
            num(rows as int),
        ],
        flat_cfg(cols * rows),
    )
}

/// A copy of a range.
pub open spec fn copy_range_cmd(
    x: &CudaSlice<Fp32>,
    offset: usize,
    n: usize,
    out: CudaSlice<Fp32>,
) -> Cmd {
    launch(
        Kernel::CopyRange,
        seq![
            ptr(*x),
            ptr(out),
            num(offset as int),
            num(n as int),
        ],
        flat_cfg(n as int),
    )
}

/// A copy into a range.
pub open spec fn copy_into_cmd(
    dst: &CudaSlice<Fp32>,
    src: &CudaSlice<Fp32>,
    offset: usize,
    n: usize,
) -> Cmd {
    launch(
        Kernel::CopyInto,
        seq![
            ptr(*dst),
            ptr(*src),
            num(offset as int),
            num(n as int),
        ],
        flat_cfg(n as int),
    )
}

/// A transposition: a thread an element.
pub open spec fn transpose_cmd(
    x: &CudaSlice<Fp32>,
    rows: usize,
    cols: usize,
    out: CudaSlice<Fp32>,
) -> Cmd {
    launch(
        Kernel::Transpose,
        seq![
            ptr(*x),
            ptr(out),
            num(rows as int),
            num(cols as int),
        ],
        flat_cfg(rows * cols),
    )
}

/// The channels the other way round.
pub open spec fn flip_channels_cmd(
    x: &CudaSlice<Fp32>,
    ch: usize,
    t: usize,
    out: CudaSlice<Fp32>,
) -> Cmd {
    launch(
        Kernel::FlipChannels,
        seq![
            ptr(*x),
            ptr(out),
            num(ch as int),
            num(t as int),
        ],
        flat_cfg(ch * t),
    )
}

/// A lookup: a thread an element.
pub open spec fn embed_scaled_cmd(
    table: &CudaSlice<Fp32>,
    ids: &CudaSlice<i64>,
    t: usize,
    ch: usize,
    scale: FloatBits,
    out: CudaSlice<Fp32>,
) -> Cmd {
    launch(
        Kernel::EmbedScaled,
        seq![
            ptr(*table),
            ptr(*ids),
            ptr(out),
            num(t as int),
            num(ch as int),
            Arg::Float(scale),
        ],
        flat_cfg(t * ch),
    )
}

/// The repetition: a thread an output.
pub open spec fn upsample_nearest_cmd(
    x: &CudaSlice<Fp32>,
    ch: usize,
    t: usize,
    factor: usize,
    out: CudaSlice<Fp32>,
) -> Cmd {
    launch(
        Kernel::UpsampleNearest,
        seq![
            ptr(*x),
            ptr(out),
            num(ch as int),
            num(t as int),
            num(factor as int),
        ],
        flat_cfg(ch * t * factor),
    )
}

/// A projection: a thread an output.
pub open spec fn linear_cmd(
    x: &CudaSlice<Fp32>,
    w: &CudaSlice<Fp32>,
    bias: Option<&CudaSlice<Fp32>>,
    rows: usize,
    in_c: usize,
    out_c: usize,
    out: CudaSlice<Fp32>,
) -> Cmd {
    launch(
        Kernel::Linear,
        seq![
            ptr(*x),
            ptr(*w),
            ptr_or_null(bias),
            ptr(out),
            num(rows as int),
            num(in_c as int),
            num(out_c as int),
        ],
        flat_cfg(rows * out_c),
    )
}

/// The expansion: a thread an output.
pub open spec fn expand_prior_cmd(
    m_p: &CudaSlice<Fp32>,
    logs_p: &CudaSlice<Fp32>,
    alignment: &CudaSlice<i32>,
    noise: &CudaSlice<Fp32>,
    ch: usize,
    frames: usize,
    noise_scale: FloatBits,
    out: CudaSlice<Fp32>,
) -> Cmd {
    launch(
        Kernel::ExpandPrior,
        seq![
            ptr(*m_p),
            ptr(*logs_p),
            ptr(*alignment),
            ptr(*noise),
            ptr(out),
            num(ch as int),
            num(frames as int),
            Arg::Float(noise_scale),
        ],
        flat_cfg(ch * frames),
    )
}

impl Gpu {
    /// ReLU, in place.
    pub fn relu(
        &mut self,
        x: &CudaSlice<Fp32>,
        n: usize,
    )
        ensures
            final(self)@ == old(self)@.push(
                relu_cmd(x, n),
            ),
            int_fits(n as int)
                ==> applies(final(self)@.last(), Fun::Relu, Seq::empty(), *x, n as int),
    {
        self.launch(
            Kernel::ActRelu,
            vec![
                Arg::ptr(x),
                Arg::num(n),
            ],
            LaunchConfig::flat(n),
        );
        proof {
            if int_fits(n as int) {
                activations_are_applied(x, n, FloatBits(0));
            }
        }
    }

    /// Leaky ReLU, in place.
    pub fn leaky_relu(
        &mut self,
        x: &CudaSlice<Fp32>,
        n: usize,
        slope: FloatBits,
    )
        ensures
            final(self)@ == old(self)@.push(
                leaky_relu_cmd(x, n, slope),
            ),
            int_fits(n as int)
                ==> applies(final(self)@.last(), Fun::LeakyRelu, seq![slope], *x, n as int),
    {
        self.launch(
            Kernel::ActLeakyRelu,
            vec![
                Arg::ptr(x),
                Arg::num(n),
                Arg::Float(slope),
            ],
            LaunchConfig::flat(n),
        );
        proof {
            if int_fits(n as int) {
                activations_are_applied(x, n, slope);
            }
        }
    }

    /// Hyperbolic tangent, in place.
    pub fn tanh(
        &mut self,
        x: &CudaSlice<Fp32>,
        n: usize,
    )
        ensures
            final(self)@ == old(self)@.push(
                tanh_cmd(x, n),
            ),
            int_fits(n as int)
                ==> applies(final(self)@.last(), Fun::Tanh, Seq::empty(), *x, n as int),
    {
        self.launch(
            Kernel::ActTanh,
            vec![
                Arg::ptr(x),
                Arg::num(n),
            ],
            LaunchConfig::flat(n),
        );
        proof {
            if int_fits(n as int) {
                activations_are_applied(x, n, FloatBits(0));
            }
        }
    }

    /// Exact GELU, in place.
    pub fn gelu(
        &mut self,
        x: &CudaSlice<Fp32>,
        n: usize,
    )
        ensures
            final(self)@ == old(self)@.push(
                gelu_cmd(x, n),
            ),
            int_fits(n as int)
                ==> applies(final(self)@.last(), Fun::Gelu, Seq::empty(), *x, n as int),
    {
        self.launch(
            Kernel::ActGelu,
            vec![
                Arg::ptr(x),
                Arg::num(n),
            ],
            LaunchConfig::flat(n),
        );
        proof {
            if int_fits(n as int) {
                activations_are_applied(x, n, FloatBits(0));
            }
        }
    }

    /// SiLU in place, unfused.
    pub fn silu(
        &mut self,
        x: &CudaSlice<Fp32>,
        n: usize,
    )
        ensures
            final(self)@ == old(self)@.push(
                silu_cmd(x, n),
            ),
            int_fits(n as int)
                ==> applies(final(self)@.last(), Fun::Silu, Seq::empty(), *x, n as int),
    {
        self.launch(
            Kernel::ActSilu,
            vec![
                Arg::ptr(x),
                Arg::num(n),
            ],
            LaunchConfig::flat(n),
        );
        proof {
            if int_fits(n as int) {
                activations_are_applied(x, n, FloatBits(0));
            }
        }
    }

    /// GELU's tanh approximation, in place.
    ///
    /// A different function from [`Gpu::gelu`]'s exact erf form: they agree to
    /// about 1e-3, which is far more than rounding and far less than an
    /// obvious break.
    pub fn gelu_tanh(
        &mut self,
        x: &CudaSlice<Fp32>,
        n: usize,
    )
        ensures
            final(self)@ == old(self)@.push(
                gelu_tanh_cmd(x, n),
            ),
            int_fits(n as int)
                ==> applies(final(self)@.last(), Fun::GeluTanh, Seq::empty(), *x, n as int),
    {
        self.launch(
            Kernel::ActGeluTanh,
            vec![
                Arg::ptr(x),
                Arg::num(n),
            ],
            LaunchConfig::flat(n),
        );
        proof {
            if int_fits(n as int) {
                activations_are_applied(x, n, FloatBits(0));
            }
        }
    }

    /// Mish in place: `x * tanh(softplus(x))`.
    pub fn mish(
        &mut self,
        x: &CudaSlice<Fp32>,
        n: usize,
    )
        ensures
            final(self)@ == old(self)@.push(
                mish_cmd(x, n),
            ),
            int_fits(n as int)
                ==> applies(final(self)@.last(), Fun::Mish, Seq::empty(), *x, n as int),
    {
        self.launch(
            Kernel::ActMish,
            vec![
                Arg::ptr(x),
                Arg::num(n),
            ],
            LaunchConfig::flat(n),
        );
        proof {
            if int_fits(n as int) {
                activations_are_applied(x, n, FloatBits(0));
            }
        }
    }

    /// ELU in place, with alpha 1.
    pub fn elu(
        &mut self,
        x: &CudaSlice<Fp32>,
        n: usize,
    )
        ensures
            final(self)@ == old(self)@.push(
                elu_cmd(x, n),
            ),
            int_fits(n as int)
                ==> applies(final(self)@.last(), Fun::Elu, Seq::empty(), *x, n as int),
    {
        self.launch(
            Kernel::ActElu,
            vec![
                Arg::ptr(x),
                Arg::num(n),
            ],
            LaunchConfig::flat(n),
        );
        proof {
            if int_fits(n as int) {
                activations_are_applied(x, n, FloatBits(0));
            }
        }
    }

    /// GELU reading f32 and writing f16 elsewhere, for a matmul's left operand.
    ///
    /// The out-of-place twin of [`Gpu::gelu`].
    pub fn gelu_f16(
        &mut self,
        x: &CudaSlice<Fp32>,
        n: usize,
    ) -> (out: CudaSlice<u16>)
        ensures
            out == made::<u16>(old(self)@.len() as int, n as int),
            final(self)@ == old(self)@.push(uninit(Elem::U16, n as int)).push(
                gelu_f16_cmd(x, n, out),
            ),
            int_fits(n as int) ==> rounds_gelu(final(self)@.last(), *x, out, n as int),
            made_in(final(self)@, out, Elem::U16, n as int),
    {
        let out = self.uninit_f16(n);
        self.launch(
            Kernel::ActGeluF16,
            vec![
                Arg::ptr(x),
                Arg::ptr(&out),
                Arg::num(n),
            ],
            LaunchConfig::flat(n),
        );
        proof {
            if int_fits(n as int) {
                gelu_is_rounded_across(x, n, out);
            }
        }
        out
    }

    /// Snake in place: `x + sin^2(a*x)/a`, one alpha per channel.
    ///
    /// Periodic, so a network can represent a harmonic signal without learning
    /// one - which is also why `alpha` is trained per channel.
    pub fn snake(
        &mut self,
        x: &CudaSlice<Fp32>,
        alpha: &CudaSlice<Fp32>,
        ch: usize,
        t: usize,
    )
        requires
            ch * t <= usize::MAX,
        ensures
            final(self)@ == old(self)@.push(
                snake_cmd(x, alpha, ch, t),
            ),
            ints_fit(ch as int, t as int)
                ==> snakes(final(self)@.last(), *x, *alpha, ch as int, t as int),
    {
        self.launch(
            Kernel::ActSnake,
            vec![
                Arg::ptr(x),
                Arg::ptr(alpha),
                Arg::num(ch),
                Arg::num(t),
            ],
            LaunchConfig::flat(ch * t),
        );
        proof {
            if ints_fit(ch as int, t as int) {
                a_snake_has_a_frequency_a_channel(x, alpha, ch, t);
            }
        }
    }

    /// WaveNet's gated activation for `[2 * ch, t]` data.
    pub fn gated_activation(
        &mut self,
        x: &CudaSlice<Fp32>,
        ch: usize,
        t: usize,
    ) -> (out: CudaSlice<Fp32>)
        requires
            ch * t <= usize::MAX,
        ensures
            out == made::<Fp32>(old(self)@.len() as int, ch * t),
            final(self)@ == old(self)@.push(zeros(Elem::F32, ch * t)).push(
                gated_activation_cmd(x, ch, t, out),
            ),
            ints_fit(ch as int, t as int)
                ==> gates_channels(final(self)@.last(), *x, out, ch as int, t as int),
            made_in(final(self)@, out, Elem::F32, ch * t),
    {
        let out = self.zeros(ch * t);
        self.launch(
            Kernel::GatedActivation,
            vec![
                Arg::ptr(x),
                Arg::ptr(&out),
                Arg::num(ch),
                Arg::num(t),
            ],
            LaunchConfig::flat(ch * t),
        );
        proof {
            if ints_fit(ch as int, t as int) {
                channels_are_gated_by_channels(x, ch, t, out);
            }
        }
        out
    }

    /// WaveNet's gated activation for `[t, 2 * ch]` data.
    ///
    /// The row-major twin of [`Gpu::gated_activation`]: same arithmetic, the
    /// other layout.
    pub fn gated_activation_rows(
        &mut self,
        x: &CudaSlice<Fp32>,
        ch: usize,
        t: usize,
    ) -> (out: CudaSlice<Fp32>)
        requires
            ch * t <= usize::MAX,
        ensures
            out == made::<Fp32>(old(self)@.len() as int, ch * t),
            final(self)@ == old(self)@.push(zeros(Elem::F32, ch * t)).push(
                gated_activation_rows_cmd(x, ch, t, out),
            ),
            ints_fit(ch as int, t as int)
                ==> gates_rows(final(self)@.last(), *x, out, ch as int, t as int),
            made_in(final(self)@, out, Elem::F32, ch * t),
    {
        let out = self.zeros(ch * t);
        self.launch(
            Kernel::GatedActivationRows,
            vec![
                Arg::ptr(x),
                Arg::ptr(&out),
                Arg::num(ch),
                Arg::num(t),
            ],
            LaunchConfig::flat(ch * t),
        );
        proof {
            if ints_fit(ch as int, t as int) {
                rows_are_gated_by_their_other_half(x, ch, t, out);
            }
        }
        out
    }

    /// One LSTM step.
    ///
    /// `gi` and `gh` are the input-side and hidden-side pre-activations, each
    /// `[4 * hidden]` in input/forget/cell/output order. `c` is updated in place
    /// and `h` written; both are `[hidden]`.
    ///
    /// Split that way because the input side does not depend on the recurrence:
    /// a bidirectional encoder can project its whole sequence with one
    /// [`Gpu::linear`] and then loop over nothing but this.
    pub fn lstm_gates(
        &mut self,
        gi: &CudaSlice<Fp32>,
        gh: &CudaSlice<Fp32>,
        c: &CudaSlice<Fp32>,
        h: &CudaSlice<Fp32>,
        hidden: usize,
    )
        ensures
            final(self)@ == old(self)@.push(
                lstm_gates_cmd(gi, gh, c, h, hidden),
            ),
            int_fits(hidden as int) ==> steps(final(self)@.last(), *gi, *gh, *c, *h, hidden as int),
    {
        self.launch(
            Kernel::LstmGates,
            vec![
                Arg::ptr(gi),
                Arg::ptr(gh),
                Arg::ptr(c),
                Arg::ptr(h),
                Arg::num(hidden),
            ],
            LaunchConfig::flat(hidden),
        );
        proof {
            if int_fits(hidden as int) {
                every_unit_steps_by_its_gates(gi, gh, c, h, hidden);
            }
        }
    }

    /// WaveGlow's affine coupling, inverted.
    ///
    /// `x` is `[half, t]`, `st` is `[2 * half, t]` holding the shift then the
    /// log scale, and the result is `(x - b) / exp(s)`.
    pub fn coupling_inverse(
        &mut self,
        x: &CudaSlice<Fp32>,
        st: &CudaSlice<Fp32>,
        half: usize,
        t: usize,
    ) -> (out: CudaSlice<Fp32>)
        requires
            half * t <= usize::MAX,
        ensures
            out == made::<Fp32>(old(self)@.len() as int, half * t),
            final(self)@ == old(self)@.push(zeros(Elem::F32, half * t)).push(
                coupling_inverse_cmd(x, st, half, t, out),
            ),
            ints_fit(half as int, t as int)
                ==> uncouples(final(self)@.last(), *x, *st, out, half as int, t as int),
            made_in(final(self)@, out, Elem::F32, half * t),
    {
        let out = self.zeros(half * t);
        self.launch(
            Kernel::CouplingInverse,
            vec![
                Arg::ptr(x),
                Arg::ptr(st),
                Arg::ptr(&out),
                Arg::num(half),
                Arg::num(t),
            ],
            LaunchConfig::flat(half * t),
        );
        proof {
            if ints_fit(half as int, t as int) {
                the_coupling_is_undone(x, st, half, t, out);
            }
        }
        out
    }

    /// Element-wise `a += b`.
    pub fn add_inplace(
        &mut self,
        a: &CudaSlice<Fp32>,
        b: &CudaSlice<Fp32>,
        n: usize,
    )
        ensures
            final(self)@ == old(self)@.push(
                add_inplace_cmd(a, b, n),
            ),
            int_fits(n as int) ==> joins(final(self)@.last(), Fun::Sum, *a, *b, n as int),
    {
        self.launch(
            Kernel::AddInplace,
            vec![
                Arg::ptr(a),
                Arg::ptr(b),
                Arg::num(n),
            ],
            LaunchConfig::flat(n),
        );
        proof {
            if int_fits(n as int) {
                buffers_are_joined(a, b, n);
            }
        }
    }

    /// Element-wise `a *= b`.
    pub fn mul_inplace(
        &mut self,
        a: &CudaSlice<Fp32>,
        b: &CudaSlice<Fp32>,
        n: usize,
    )
        ensures
            final(self)@ == old(self)@.push(
                mul_inplace_cmd(a, b, n),
            ),
            int_fits(n as int) ==> joins(final(self)@.last(), Fun::Product, *a, *b, n as int),
    {
        self.launch(
            Kernel::MulInplace,
            vec![
                Arg::ptr(a),
                Arg::ptr(b),
                Arg::num(n),
            ],
            LaunchConfig::flat(n),
        );
        proof {
            if int_fits(n as int) {
                buffers_are_joined(a, b, n);
            }
        }
    }

    /// Element-wise `a -= b`.
    pub fn sub_inplace(
        &mut self,
        a: &CudaSlice<Fp32>,
        b: &CudaSlice<Fp32>,
        n: usize,
    )
        ensures
            final(self)@ == old(self)@.push(
                sub_inplace_cmd(a, b, n),
            ),
            int_fits(n as int) ==> joins(final(self)@.last(), Fun::Difference, *a, *b, n as int),
    {
        self.launch(
            Kernel::SubInplace,
            vec![
                Arg::ptr(a),
                Arg::ptr(b),
                Arg::num(n),
            ],
            LaunchConfig::flat(n),
        );
        proof {
            if int_fits(n as int) {
                buffers_are_joined(a, b, n);
            }
        }
    }

    /// Element-wise `a *= s`.
    pub fn scale_inplace(
        &mut self,
        a: &CudaSlice<Fp32>,
        n: usize,
        s: FloatBits,
    )
        ensures
            final(self)@ == old(self)@.push(
                scale_inplace_cmd(a, n, s),
            ),
            int_fits(n as int) ==> applies(final(self)@.last(), Fun::Product, seq![s], *a, n as int),
    {
        self.launch(
            Kernel::ScaleInplace,
            vec![
                Arg::ptr(a),
                Arg::num(n),
                Arg::Float(s),
            ],
            LaunchConfig::flat(n),
        );
        proof {
            if int_fits(n as int) {
                activations_are_applied(a, n, s);
            }
        }
    }

    /// `a[r * cols + j] += b[r * stride + off + j]`.
    ///
    /// The strided twin of [`Gpu::add_inplace`], for a share that is a column
    /// range of every row instead of a contiguous run.
    pub fn add_strided(
        &mut self,
        a: &CudaSlice<Fp32>,
        b: &CudaSlice<Fp32>,
        cols: usize,
        stride: usize,
        off: usize,
        rows: usize,
    )
        requires
            cols * rows <= usize::MAX,
        ensures
            final(self)@ == old(self)@.push(
                add_strided_cmd(a, b, cols, stride, off, rows),
            ),
            ints_fit(rows as int, cols as int) && int_fits(stride as int) && int_fits(off as int)
                ==> adds_columns(
                    final(self)@.last(),
                    *a,
                    *b,
                    cols as int,
                    stride as int,
                    off as int,
                    rows as int,
                ),
    {
        self.launch(
            Kernel::AddStrided,
            vec![
                Arg::ptr(a),
                Arg::ptr(b),
                Arg::num(cols),
                Arg::num(stride),
                Arg::num(off),
                Arg::num(rows),
            ],
            LaunchConfig::flat(cols * rows),
        );
        proof {
            if ints_fit(rows as int, cols as int) && int_fits(stride as int) && int_fits(off as int) {
                a_column_range_is_added(a, b, cols, stride, off, rows);
            }
        }
    }

    /// Copies `n` values starting at `offset` into a fresh buffer.
    pub fn copy_range(
        &mut self,
        x: &CudaSlice<Fp32>,
        offset: usize,
        n: usize,
    ) -> (out: CudaSlice<Fp32>)
        ensures
            out == made::<Fp32>(old(self)@.len() as int, n as int),
            final(self)@ == old(self)@.push(zeros(Elem::F32, n as int)).push(
                copy_range_cmd(x, offset, n, out),
            ),
            int_fits(offset as int) && int_fits(n as int)
                ==> copies(final(self)@.last(), *x, offset as int, out, 0, n as int),
            made_in(final(self)@, out, Elem::F32, n as int),
    {
        let out = self.zeros(n);
        self.launch(
            Kernel::CopyRange,
            vec![
                Arg::ptr(x),
                Arg::ptr(&out),
                Arg::num(offset),
                Arg::num(n),
            ],
            LaunchConfig::flat(n),
        );
        proof {
            if int_fits(offset as int) && int_fits(n as int) {
                runs_are_copied(x, offset, out, 0, n);
            }
        }
        out
    }

    /// Writes `src` into `dst` starting at `offset`.
    pub fn copy_into(
        &mut self,
        dst: &CudaSlice<Fp32>,
        src: &CudaSlice<Fp32>,
        offset: usize,
        n: usize,
    )
        ensures
            final(self)@ == old(self)@.push(
                copy_into_cmd(dst, src, offset, n),
            ),
            int_fits(offset as int) && int_fits(n as int)
                ==> copies(final(self)@.last(), *src, 0, *dst, offset as int, n as int),
    {
        self.launch(
            Kernel::CopyInto,
            vec![
                Arg::ptr(dst),
                Arg::ptr(src),
                Arg::num(offset),
                Arg::num(n),
            ],
            LaunchConfig::flat(n),
        );
        proof {
            if int_fits(offset as int) && int_fits(n as int) {
                runs_are_copied(src, 0, *dst, offset, n);
            }
        }
    }

    /// Transposes a row-major `[rows, cols]`.
    pub fn transpose(
        &mut self,
        x: &CudaSlice<Fp32>,
        rows: usize,
        cols: usize,
    ) -> (out: CudaSlice<Fp32>)
        requires
            rows * cols <= usize::MAX,
        ensures
            out == made::<Fp32>(old(self)@.len() as int, rows * cols),
            final(self)@ == old(self)@.push(zeros(Elem::F32, rows * cols)).push(
                transpose_cmd(x, rows, cols, out),
            ),
            ints_fit(rows as int, cols as int)
                ==> transposes(final(self)@.last(), *x, out, rows as int, cols as int),
            made_in(final(self)@, out, Elem::F32, rows * cols),
    {
        let out = self.zeros(rows * cols);
        self.launch(
            Kernel::Transpose,
            vec![
                Arg::ptr(x),
                Arg::ptr(&out),
                Arg::num(rows),
                Arg::num(cols),
            ],
            LaunchConfig::flat(rows * cols),
        );
        proof {
            if ints_fit(rows as int, cols as int) {
                every_element_is_transposed(x, rows, cols, out);
            }
        }
        out
    }

    /// Reverses the channel axis.
    pub fn flip_channels(
        &mut self,
        x: &CudaSlice<Fp32>,
        ch: usize,
        t: usize,
    ) -> (out: CudaSlice<Fp32>)
        requires
            ch * t <= usize::MAX,
        ensures
            out == made::<Fp32>(old(self)@.len() as int, ch * t),
            final(self)@ == old(self)@.push(zeros(Elem::F32, ch * t)).push(
                flip_channels_cmd(x, ch, t, out),
            ),
            ints_fit(ch as int, t as int)
                ==> flips(final(self)@.last(), *x, out, ch as int, t as int),
            made_in(final(self)@, out, Elem::F32, ch * t),
    {
        let out = self.zeros(ch * t);
        self.launch(
            Kernel::FlipChannels,
            vec![
                Arg::ptr(x),
                Arg::ptr(&out),
                Arg::num(ch),
                Arg::num(t),
            ],
            LaunchConfig::flat(ch * t),
        );
        proof {
            if ints_fit(ch as int, t as int) {
                channels_are_turned_round(x, ch, t, out);
            }
        }
        out
    }

    /// Embedding lookup with a scaling folded in.
    pub fn embed_scaled(
        &mut self,
        table: &CudaSlice<Fp32>,
        ids: &CudaSlice<i64>,
        t: usize,
        ch: usize,
        scale: FloatBits,
    ) -> (out: CudaSlice<Fp32>)
        requires
            t * ch <= usize::MAX,
        ensures
            out == made::<Fp32>(old(self)@.len() as int, t * ch),
            final(self)@ == old(self)@.push(zeros(Elem::F32, t * ch)).push(
                embed_scaled_cmd(table, ids, t, ch, scale, out),
            ),
            ints_fit(t as int, ch as int)
                ==> looks_up(final(self)@.last(), *table, *ids, out, t as int, ch as int, scale),
            made_in(final(self)@, out, Elem::F32, t * ch),
    {
        let out = self.zeros(t * ch);
        self.launch(
            Kernel::EmbedScaled,
            vec![
                Arg::ptr(table),
                Arg::ptr(ids),
                Arg::ptr(&out),
                Arg::num(t),
                Arg::num(ch),
                Arg::Float(scale),
            ],
            LaunchConfig::flat(t * ch),
        );
        proof {
            if ints_fit(t as int, ch as int) {
                every_id_gets_its_row(table, ids, t, ch, scale, out);
            }
        }
        out
    }

    /// Repeats each timestep `factor` times: `[ch, t]` to `[ch, t * factor]`.
    ///
    /// A transposed convolution with the same weight interleaves zeros instead.
    /// Same output length, different function.
    pub fn upsample_nearest(
        &mut self,
        x: &CudaSlice<Fp32>,
        ch: usize,
        t: usize,
        factor: usize,
    ) -> (out: CudaSlice<Fp32>)
        requires
            ch * t <= usize::MAX,
            ch * t * factor <= usize::MAX,
        ensures
            out == made::<Fp32>(old(self)@.len() as int, ch * t * factor),
            final(self)@ == old(self)@.push(zeros(Elem::F32, ch * t * factor)).push(
                upsample_nearest_cmd(x, ch, t, factor, out),
            ),
            three_ints_fit(ch as int, t as int, factor as int)
                ==> repeats(final(self)@.last(), *x, out, ch as int, t as int, factor as int),
            made_in(final(self)@, out, Elem::F32, ch * t * factor),
    {
        let out = self.zeros(ch * t * factor);
        self.launch(
            Kernel::UpsampleNearest,
            vec![
                Arg::ptr(x),
                Arg::ptr(&out),
                Arg::num(ch),
                Arg::num(t),
                Arg::num(factor),
            ],
            LaunchConfig::flat(ch * t * factor),
        );
        proof {
            if three_ints_fit(ch as int, t as int, factor as int) {
                every_element_is_repeated(x, ch, t, factor, out);
            }
        }
        out
    }

    /// Dense projection, exact in f32: `[rows, in_c]` by `[out_c, in_c]`.
    pub fn linear(
        &mut self,
        x: &CudaSlice<Fp32>,
        w: &CudaSlice<Fp32>,
        bias: Option<&CudaSlice<Fp32>>,
        rows: usize,
        in_c: usize,
        out_c: usize,
    ) -> (out: CudaSlice<Fp32>)
        requires
            rows * out_c <= usize::MAX,
        ensures
            out == made::<Fp32>(old(self)@.len() as int, rows * out_c),
            final(self)@ == old(self)@.push(zeros(Elem::F32, rows * out_c)).push(
                linear_cmd(x, w, bias, rows, in_c, out_c, out),
            ),
            ints_fit(rows as int, out_c as int) && int_fits(in_c as int)
                ==> projects(
                    final(self)@.last(),
                    *x,
                    *w,
                    bias,
                    out,
                    rows as int,
                    in_c as int,
                    out_c as int,
                ),
            made_in(final(self)@, out, Elem::F32, rows * out_c),
    {
        let out = self.zeros(rows * out_c);
        self.launch(
            Kernel::Linear,
            vec![
                Arg::ptr(x),
                Arg::ptr(w),
                Arg::ptr_or_null(bias),
                Arg::ptr(&out),
                Arg::num(rows),
                Arg::num(in_c),
                Arg::num(out_c),
            ],
            LaunchConfig::flat(rows * out_c),
        );
        proof {
            if ints_fit(rows as int, out_c as int) && int_fits(in_c as int) {
                every_row_meets_every_weight(x, w, bias, rows, in_c, out_c, out);
            }
        }
        out
    }

    /// Length regulation and prior sampling, with the alignment already computed
    /// on the host.
    pub fn expand_prior(
        &mut self,
        m_p: &CudaSlice<Fp32>,
        logs_p: &CudaSlice<Fp32>,
        alignment: &CudaSlice<i32>,
        noise: &CudaSlice<Fp32>,
        ch: usize,
        frames: usize,
        noise_scale: FloatBits,
    ) -> (out: CudaSlice<Fp32>)
        requires
            ch * frames <= usize::MAX,
        ensures
            out == made::<Fp32>(old(self)@.len() as int, ch * frames),
            final(self)@ == old(self)@.push(zeros(Elem::F32, ch * frames)).push(
                expand_prior_cmd(m_p, logs_p, alignment, noise, ch, frames, noise_scale, out),
            ),
            ints_fit(ch as int, frames as int)
                ==> expands(
                    final(self)@.last(),
                    *m_p,
                    *logs_p,
                    *alignment,
                    *noise,
                    out,
                    ch as int,
                    frames as int,
                    noise_scale,
                ),
            made_in(final(self)@, out, Elem::F32, ch * frames),
    {
        let out = self.zeros(ch * frames);
        self.launch(
            Kernel::ExpandPrior,
            vec![
                Arg::ptr(m_p),
                Arg::ptr(logs_p),
                Arg::ptr(alignment),
                Arg::ptr(noise),
                Arg::ptr(&out),
                Arg::num(ch),
                Arg::num(frames),
                Arg::Float(noise_scale),
            ],
            LaunchConfig::flat(ch * frames),
        );
        proof {
            if ints_fit(ch as int, frames as int) {
                every_frame_is_drawn_about_its_position(
                    m_p,
                    logs_p,
                    alignment,
                    noise,
                    ch,
                    frames,
                    noise_scale,
                    out,
                );
            }
        }
        out
    }
}

} // verus!
