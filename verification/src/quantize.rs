//! Int8 twins of activations, and f16 copies of tensors.

use crate::arith::{ceil_div, ceil_div_covers, div_ceil};
use crate::buffer::{CudaSlice, Elem, Fp32};
use crate::device::int_fits;
use crate::device::projecting::{
    codes, every_element_is_rounded_across, every_group_of_every_row_is_coded, rounds,
};
use crate::error::CudaError;
use crate::launch::{flat_cfg, LaunchConfig};
use crate::names::Kernel;
use crate::operand::{q8_bytes, q8_fits, Q8};
use crate::queue::{launch, long, made, made_in, num, ptr, uninit, zeros, Arg, Cmd, Gpu};
use vstd::prelude::*;

verus! {

/// The twin that quantizing `rows` rows of `k` at place `at` of a queue makes.
pub open spec fn twin_at(at: int, rows: int, k: int) -> Q8 {
    Q8 { buf: made::<i8>(at, q8_bytes(rows, k)), rows: rows as usize, k: k as usize }
}

/// Quantizing queues the twin's buffer and one launch over its groups of 32,
/// eight of them a block.
pub open spec fn quantize_cmds(
    at: int,
    a: CudaSlice<Fp32>,
    k: int,
    rows: int,
    sa: int,
    m: int,
) -> Seq<Cmd> {
    seq![
        uninit(Elem::I8, q8_bytes(rows, k)),
        launch(
            Kernel::QuantizeQ8,
            seq![
                ptr(a),
                ptr(twin_at(at, rows, k).buf),
                num(rows * k),
                num(k),
                num(rows),
                long(sa),
                num(m),
            ],
            LaunchConfig {
                grid_dim: (ceil_div(rows * (k / 32), 8) as u32, 1, 1),
                block_dim: (32, 8, 1),
                shared_mem_bytes: 0,
            },
        ),
    ]
}

/// Quantizing has a warp for every group of every row, and no block is without
/// a group.
pub proof fn every_group_has_a_warp(
    at: int,
    a: CudaSlice<Fp32>,
    k: int,
    rows: int,
    sa: int,
    m: int,
)
    requires
        0 < rows * (k / 32) <= u32::MAX,
    ensures
        match quantize_cmds(at, a, k, rows, sa, m)[1] {
            Cmd::Launch { cfg, .. } => {
                &&& cfg.grid_dim.0 * cfg.block_dim.1 >= rows * (k / 32)
                &&& (cfg.grid_dim.0 - 1) * cfg.block_dim.1 < rows * (k / 32)
                &&& cfg.block_dim.0 == 32
            },
            _ => false,
        },
{
    ceil_div_covers(rows * (k / 32), 8);
}

/// Rounding queues a zeroed f16 buffer and one flat launch over it.
pub open spec fn to_f16_cmds(at: int, x: CudaSlice<Fp32>, n: int) -> Seq<Cmd> {
    seq![
        zeros(Elem::U16, n),
        launch(Kernel::PackF16, seq![ptr(x), ptr(made::<u16>(at, n)), num(n)], flat_cfg(n)),
    ]
}

impl Gpu {
    /// Quantises an activation to int8 in groups of 32, one scale a group.
    ///
    /// `rows` counts every row of every batch element, laid out `[batch, m, k]`
    /// with `sa` between batch elements in the input and nothing between them
    /// in the output - the output is dense, because nothing but the mat-vec
    /// reads it.
    pub fn quantize_into(
        &mut self,
        a: &CudaSlice<Fp32>,
        k: usize,
        rows: usize,
        sa: usize,
        m: usize,
    ) -> (q: Q8)
        requires
            q8_fits(rows as int, k as int),
        ensures
            q == twin_at(old(self)@.len() as int, rows as int, k as int),
            q.wf(),
            final(self)@ == old(self)@ + quantize_cmds(
                old(self)@.len() as int,
                *a,
                k as int,
                rows as int,
                sa as int,
                m as int,
            ),
            int_fits(rows * k)
                && int_fits(rows as int) && int_fits(k as int) && sa <= i64::MAX
                && int_fits(m as int)
                ==> codes(final(self)@.last(), *a, q, k as int, rows as int, sa as int, m as int),
            q.rows == rows
                && q.k == k
                && made_in(final(self)@, q.buf, Elem::I8, rows * k + rows * (k / 32) * 4),
    {
        let groups: usize = k / 32;
        let buf = self.uninit_i8(rows * k + rows * groups * 4);
        let cfg = LaunchConfig {
            grid_dim: (div_ceil(rows * groups, 8) as u32, 1, 1),
            block_dim: (32, 8, 1),
            shared_mem_bytes: 0,
        };
        self.launch(
            Kernel::QuantizeQ8,
            vec![
                Arg::ptr(a),
                Arg::ptr(&buf),
                Arg::num(rows * k),
                Arg::num(k),
                Arg::num(rows),
                Arg::long(sa),
                Arg::num(m),
            ],
            cfg,
        );
        proof {
            if int_fits(rows * k)
                && int_fits(rows as int) && int_fits(k as int) && sa <= i64::MAX
                && int_fits(m as int) {
                every_group_of_every_row_is_coded(
                    old(self)@.len() as int,
                    *a,
                    k as int,
                    rows as int,
                    sa as int,
                    m as int,
                );
            }
        }
        Q8 { buf, rows, k }
    }

    /// Rounds a tensor to f16 on the device, so the matmul reads half of it.
    ///
    /// Worth a pass of its own when the result is read many times: a
    /// projection's input is re-read once per column tile - twelve times at
    /// encoder width - so converting it once trades one pass for eleven halved
    /// ones.
    pub fn to_f16(&mut self, x: &CudaSlice<Fp32>, n: usize) -> (out: CudaSlice<u16>)
        ensures
            out == made::<u16>(old(self)@.len() as int, n as int),
            final(self)@ == old(self)@ + to_f16_cmds(old(self)@.len() as int, *x, n as int),
            int_fits(n as int) ==> rounds(final(self)@.last(), *x, out, n as int),
            made_in(final(self)@, out, Elem::U16, n as int),
    {
        let out = self.zeros_f16(n);
        self.launch(
            Kernel::PackF16,
            vec![Arg::ptr(x), Arg::ptr(&out), Arg::num(n)],
            LaunchConfig::flat(n),
        );
        proof {
            if int_fits(n as int) {
                every_element_is_rounded_across(old(self)@.len() as int, *x, n as int);
            }
        }
        out
    }

    /// An int8 twin of `rows` rows of `k`, zeroed, for a kernel that writes
    /// it a row at a time. `k` must be a multiple of 32, one scale a group.
    pub fn q8_zeros(&mut self, rows: usize, k: usize) -> (q: Result<Q8, CudaError>)
        requires
            k % 32 == 0 ==> q8_fits(rows as int, k as int),
        ensures
            k % 32 != 0 ==> q == Err::<Q8, CudaError>(CudaError::RaggedBlock { k, block: 32 })
                && final(self)@ == old(self)@,
            k % 32 == 0 ==> q == Ok::<Q8, CudaError>(
                twin_at(old(self)@.len() as int, rows as int, k as int),
            ) && q->Ok_0.wf() && final(self)@ == old(self)@.push(
                zeros(Elem::I8, q8_bytes(rows as int, k as int)),
            ),
            q is Ok
                ==> q->Ok_0.rows == rows
                    && q->Ok_0.k == k
                    && made_in(final(self)@, q->Ok_0.buf, Elem::I8, rows * k + rows * (k / 32) * 4),
    {
        if k % 32 != 0 {
            return Err(CudaError::RaggedBlock { k, block: 32 });
        }
        let buf = self.zeros_i8(rows * k + rows * (k / 32) * 4);
        Ok(Q8 { buf, rows, k })
    }

    /// Takes the int8 twin of an activation that several matmuls will read.
    ///
    /// A transformer layer reuses one normed activation across three
    /// projections and another across two. Quantizing per projection is correct
    /// and wasteful; this is the same work done once.
    ///
    /// Rejects a shape the packed mat-vec would not use anyway, rather than
    /// silently producing codes nothing reads.
    pub fn quantize_activation(
        &mut self,
        a: &CudaSlice<Fp32>,
        rows: usize,
        k: usize,
    ) -> (q: Result<Q8, CudaError>)
        requires
            k % 256 == 0 ==> q8_fits(rows as int, k as int),
        ensures
            k % 256 != 0 ==> q == Err::<Q8, CudaError>(CudaError::RaggedBlock { k, block: 256 })
                && final(self)@ == old(self)@,
            k % 256 == 0 ==> q == Ok::<Q8, CudaError>(
                twin_at(old(self)@.len() as int, rows as int, k as int),
            ) && q->Ok_0.wf() && final(self)@ == old(self)@ + quantize_cmds(
                old(self)@.len() as int,
                *a,
                k as int,
                rows as int,
                rows * k,
                rows as int,
            ),
            q is Ok && int_fits(rows * k) && int_fits(rows as int) && int_fits(k as int)
                ==> codes(
                    final(self)@.last(),
                    *a,
                    q->Ok_0,
                    k as int,
                    rows as int,
                    rows * k,
                    rows as int,
                ),
            q is Ok
                ==> q->Ok_0.rows == rows
                    && q->Ok_0.k == k
                    && made_in(final(self)@, q->Ok_0.buf, Elem::I8, rows * k + rows * (k / 32) * 4),
    {
        if k % 256 != 0 {
            return Err(CudaError::RaggedBlock { k, block: 256 });
        }
        proof {
            if int_fits(rows * k) && int_fits(rows as int) && int_fits(k as int) {
                every_group_of_every_row_is_coded(
                    old(self)@.len() as int,
                    *a,
                    k as int,
                    rows as int,
                    rows * k,
                    rows as int,
                );
            }
        }
        Ok(self.quantize_into(a, k, rows, rows * k, rows))
    }
}

impl Gpu {
    /// Quantises an activation so that both halves can be read back, at any
    /// contraction length.
    pub fn quantize_q8_for_test(&mut self, a: &CudaSlice<Fp32>, k: usize, rows: usize) -> (q: Q8)
        requires
            q8_fits(rows as int, k as int),
        ensures
            q == twin_at(old(self)@.len() as int, rows as int, k as int),
            q.wf(),
            final(self)@ == old(self)@ + quantize_cmds(
                old(self)@.len() as int,
                *a,
                k as int,
                rows as int,
                rows * k,
                rows as int,
            ),
            int_fits(rows * k) && int_fits(rows as int) && int_fits(k as int)
                ==> codes(final(self)@.last(), *a, q, k as int, rows as int, rows * k, rows as int),
            q.rows == rows
                && q.k == k
                && made_in(final(self)@, q.buf, Elem::I8, rows * k + rows * (k / 32) * 4),
    {
        proof {
            if int_fits(rows * k) && int_fits(rows as int) && int_fits(k as int) {
                every_group_of_every_row_is_coded(
                    old(self)@.len() as int,
                    *a,
                    k as int,
                    rows as int,
                    rows * k,
                    rows as int,
                );
            }
        }
        self.quantize_into(a, k, rows, rows * k, rows)
    }
}

/// The 32-bit word at byte `i`, low byte first.
pub open spec fn word_at(raw: Seq<i8>, i: int) -> u32 {
    ((raw[i] as u8) + 0x100 * (raw[i + 1] as u8) + 0x1_0000 * (raw[i + 2] as u8) + 0x100_0000 * (
    raw[i + 3] as u8)) as u32
}

impl Gpu {
    /// A twin's codes and scales out of the bytes of its buffer: the codes
    /// first, then the scales as the bits of 32-bit floats.
    pub fn q8_parts_for_test(q: &Q8, raw: &[i8]) -> (r: (Vec<i8>, Vec<u32>))
        requires
            q.wf(),
            q.rows * q.k <= raw@.len(),
        ensures
            r.0@ == raw@.subrange(0, q.rows * q.k),
            r.1@.len() == (raw@.len() - q.rows * q.k) / 4,
            forall|i: int|
                0 <= i < r.1@.len() ==> #[trigger] r.1@[i] == word_at(raw@, q.rows * q.k + 4 * i),
    {
        assert(raw.len() == raw@.len());
        let at: usize = q.scale_offset();
        let mut codes: Vec<i8> = Vec::new();
        let mut i: usize = 0;
        while i < at
            invariant
                i <= at <= raw@.len(),
                raw@.len() <= usize::MAX,
                codes@ == raw@.subrange(0, i as int),
            decreases at - i,
        {
            codes.push(raw[i]);
            assert(codes@ =~= raw@.subrange(0, i + 1));
            i = i + 1;
        }
        let groups: usize = (raw.len() - at) / 4;
        let mut scales: Vec<u32> = Vec::new();
        let mut g: usize = 0;
        while g < groups
            invariant
                g <= groups,
                at + 4 * groups <= raw@.len() <= usize::MAX,
                scales@.len() == g,
                forall|i: int|
                    0 <= i < g ==> #[trigger] scales@[i] == word_at(raw@, at + 4 * i),
            decreases groups - g,
        {
            let b: usize = at + 4 * g;
            let word: u32 = raw[b] as u8 as u32 + 0x100 * (raw[b + 1] as u8 as u32) + 0x1_0000 * (
            raw[b + 2] as u8 as u32) + 0x100_0000 * (raw[b + 3] as u8 as u32);
            scales.push(word);
            g = g + 1;
        }
        (codes, scales)
    }
}

/// A twin's own buffer splits into exactly its codes and a scale for every
/// group of 32.
pub proof fn a_twin_splits_exactly(q: Q8)
    requires
        q.wf(),
    ensures
        (q.buf.len - q.rows * q.k) / 4 == q.rows * (q.k as int / 32),
        (q.buf.len - q.rows * q.k) % 4 == 0,
{
    crate::operand::scales_are_aligned(q.rows as int, q.k as int);
}

/// A scale's word has its four bytes from the lowest up.
pub proof fn a_word_has_its_bytes_from_the_lowest_up(raw: Seq<i8>, p: int)
    ensures
        ({
            let w = word_at(raw, p) as int;
            &&& w % 0x100 == raw[p] as u8
            &&& (w / 0x100) % 0x100 == raw[p + 1] as u8
            &&& (w / 0x1_0000) % 0x100 == raw[p + 2] as u8
            &&& w / 0x100_0000 == raw[p + 3] as u8
        }),
{
}

} // verus!
