//! Splitting a projection into heads, and merging them back.

use crate::arith::{ceil_div, ceil_div_covers, div_ceil};
use crate::buffer::{CudaSlice, Elem, Fp32};
use crate::device::three_ints_fit;
use crate::device::moving::{
    every_head_is_merged, every_head_is_split_off, every_head_is_split_off_rounded, merges, splits,
    splits_rounded,
};
use crate::device::pointwise::takes_twin;
use crate::error::CudaError;
use crate::launch::{flat_cfg, LaunchConfig};
use crate::names::Kernel;
use crate::norm::{fresh_twin, whole_groups_divide_out};
use crate::operand::{q8_bytes, q8_fits, Q8};
use crate::queue::{launch, made, made_in, num, ptr, ptr_at, uninit, zeros, Arg, Cmd, Gpu};
use vstd::prelude::*;

verus! {

/// The launch shape one of the reshape kernels wants.
///
/// The transposing pair stages a 32x32 tile and is launched over that grid; the
/// others are element-at-a-time and take the flat one.
pub open spec fn reshape_shape(kernel: Kernel, t: int, d: int) -> LaunchConfig {
    if kernel == Kernel::SplitHeadsT || kernel == Kernel::SplitHeadsTF16 {
        LaunchConfig {
            grid_dim: (ceil_div(d, 32) as u32, ceil_div(t, 32) as u32, 1),
            block_dim: (32, 8, 1),
            shared_mem_bytes: 0,
        }
    } else {
        flat_cfg(t * d)
    }
}

/// The tiles of a transposing reshape cover every row and every column, without
/// a tile to spare.
pub proof fn reshape_tiles_cover(kernel: Kernel, t: int, d: int)
    requires
        kernel == Kernel::SplitHeadsT || kernel == Kernel::SplitHeadsTF16,
        0 < t <= u32::MAX,
        0 < d <= u32::MAX,
    ensures
        reshape_shape(kernel, t, d).grid_dim.0 * 32 >= d,
        (reshape_shape(kernel, t, d).grid_dim.0 - 1) * 32 < d,
        reshape_shape(kernel, t, d).grid_dim.1 * 32 >= t,
        (reshape_shape(kernel, t, d).grid_dim.1 - 1) * 32 < t,
{
    ceil_div_covers(d, 32);
    ceil_div_covers(t, 32);
}

/// A reshape into a fresh buffer of the same elements.
pub open spec fn reshape_cmds(
    at: int,
    kernel: Kernel,
    x: &CudaSlice<Fp32>,
    t: usize,
    heads: usize,
    head_dim: usize,
) -> Seq<Cmd> {
    let n = t * heads * head_dim;
    seq![
        uninit(Elem::F32, n),
        launch(
            kernel,
            seq![
                ptr(*x),
                ptr(made::<Fp32>(at, n)),
                num(t as int),
                num(heads as int),
                num(head_dim as int),
            ],
            reshape_shape(kernel, t as int, heads * head_dim),
        ),
    ]
}

/// The sizes a reshape computes are numbers of this machine.
pub open spec fn reshape_fits(t: usize, heads: usize, head_dim: usize) -> bool {
    &&& t * heads <= usize::MAX
    &&& t * heads * head_dim <= usize::MAX
    &&& heads * head_dim <= usize::MAX
    &&& t * (heads * head_dim) <= usize::MAX
}

/// An f16 reshape as it was asked for: a block of `x` from `x_off` on, with the
/// row `bias`, from its offset on, added before rounding.
pub struct SplitF16<'a> {
    pub kernel: Kernel,
    pub x: CudaSlice<Fp32>,
    pub x_off: int,
    pub bias: Option<(&'a CudaSlice<Fp32>, usize)>,
    pub t: int,
    pub heads: int,
    pub head_dim: int,
}

/// The f16 reshape that these arguments ask for.
#[verifier::inline]
pub open spec fn split_f16<'a>(
    kernel: Kernel,
    x: &CudaSlice<Fp32>,
    x_off: usize,
    bias: Option<(&'a CudaSlice<Fp32>, usize)>,
    t: usize,
    heads: usize,
    head_dim: usize,
) -> SplitF16<'a> {
    SplitF16 {
        kernel,
        x: *x,
        x_off: x_off as int,
        bias,
        t: t as int,
        heads: heads as int,
        head_dim: head_dim as int,
    }
}

impl<'a> SplitF16<'a> {
    /// Elements that are reshaped.
    pub open spec fn total(self) -> int {
        self.t * self.heads * self.head_dim
    }

    /// Elements of a row.
    pub open spec fn row(self) -> int {
        self.heads * self.head_dim
    }

    /// Why the reshape is refused, if it is.
    pub open spec fn refusal(self) -> Option<CudaError> {
        if self.x_off + self.total() > self.x.len {
            Some(
                CudaError::SliceOverrun {
                    at: (self.x_off + self.total()) as usize,
                    len: self.x.len,
                },
            )
        } else {
            match self.bias {
                Some((b, off)) => if off + self.row() > b.len {
                    Some(CudaError::SliceOverrun { at: (off + self.row()) as usize, len: b.len })
                } else {
                    None
                },
                None => None,
            }
        }
    }

    /// The bias from its offset on, or null.
    pub open spec fn bias_arg(self) -> Arg {
        match self.bias {
            Some((b, off)) => ptr_at(*b, off as int),
            None => Arg::Null,
        }
    }

    /// Everything the reshape queues: nothing where it is refused.
    pub open spec fn commands(self, at: int) -> Seq<Cmd> {
        if self.refusal() is Some {
            Seq::empty()
        } else {
            seq![
                zeros(Elem::U16, self.total()),
                launch(
                    self.kernel,
                    seq![
                        ptr_at(self.x, self.x_off),
                        self.bias_arg(),
                        ptr(made::<u16>(at, self.total())),
                        num(self.t),
                        num(self.heads),
                        num(self.head_dim),
                    ],
                    reshape_shape(self.kernel, self.t, self.row()),
                ),
            ]
        }
    }

    /// The sizes that are computed are numbers of this machine.
    pub open spec fn fits(self) -> bool {
        &&& self.t * self.heads <= usize::MAX
        &&& self.total() <= usize::MAX
        &&& self.x_off + self.total() <= usize::MAX
        &&& self.x_off + self.total() <= self.x.len && self.bias is Some ==> {
            &&& self.row() <= usize::MAX
            &&& (self.bias->0).1 + self.row() <= usize::MAX
        }
        &&& self.refusal() is None ==> {
            &&& self.row() <= usize::MAX
            &&& self.t * self.row() <= usize::MAX
        }
    }
}

/// Where element `j` of a head is, at row `t` of `[t, heads * head_dim]`.
pub open spec fn row_major(heads: int, head_dim: int, t: int, head: int, j: int) -> int {
    (t * heads + head) * head_dim + j
}

/// Where it is in `[heads, t, head_dim]` of `rows` rows.
pub open spec fn head_major(rows: int, head_dim: int, t: int, head: int, j: int) -> int {
    (head * rows + t) * head_dim + j
}

/// `heads` is `flat` taken apart: every element of every row is at its head's
/// place.
pub open spec fn split_apart<T>(
    flat: Seq<T>,
    heads: Seq<T>,
    rows: int,
    count: int,
    head_dim: int,
) -> bool {
    forall|t: int, head: int, j: int|
        0 <= t < rows && 0 <= head < count && 0 <= j < head_dim
            ==> heads[#[trigger] head_major(rows, head_dim, t, head, j)] == flat[row_major(
            count,
            head_dim,
            t,
            head,
            j,
        )]
}

/// `flat` is `heads` put together: every element of every head is at its row's
/// place.
pub open spec fn put_together<T>(
    heads: Seq<T>,
    flat: Seq<T>,
    rows: int,
    count: int,
    head_dim: int,
) -> bool {
    forall|t: int, head: int, j: int|
        0 <= t < rows && 0 <= head < count && 0 <= j < head_dim
            ==> flat[#[trigger] row_major(count, head_dim, t, head, j)] == heads[head_major(
            rows,
            head_dim,
            t,
            head,
            j,
        )]
}

/// Merging puts back what splitting took apart.
pub proof fn merging_undoes_splitting<T>(
    flat: Seq<T>,
    heads: Seq<T>,
    back: Seq<T>,
    rows: int,
    count: int,
    head_dim: int,
)
    requires
        0 <= rows,
        0 <= count,
        0 <= head_dim,
        flat.len() == rows * count * head_dim,
        back.len() == flat.len(),
        split_apart(flat, heads, rows, count, head_dim),
        put_together(heads, back, rows, count, head_dim),
    ensures
        back == flat,
{
    assert forall|i: int| 0 <= i < flat.len() implies back[i] == flat[i] by {
        let (t, head, j) = lemma_unflat3(rows, count, head_dim, i);
        assert(row_major(count, head_dim, t, head, j) == i);
        assert(heads[head_major(rows, head_dim, t, head, j)] == flat[i]);
    }
    assert(back =~= flat);
}

/// Both layouts hold the same elements, each with a place of its own.
pub proof fn heads_are_rearranged(
    rows: int,
    heads: int,
    head_dim: int,
    t: int,
    head: int,
    j: int,
    t2: int,
    head2: int,
    j2: int,
)
    requires
        0 <= t < rows,
        0 <= head < heads,
        0 <= j < head_dim,
        0 <= t2 < rows,
        0 <= head2 < heads,
        0 <= j2 < head_dim,
    ensures
        0 <= row_major(heads, head_dim, t, head, j) < rows * heads * head_dim,
        0 <= head_major(rows, head_dim, t, head, j) < rows * heads * head_dim,
        row_major(heads, head_dim, t, head, j) == row_major(heads, head_dim, t2, head2, j2)
            <==> t == t2 && head == head2 && j == j2,
        head_major(rows, head_dim, t, head, j) == head_major(rows, head_dim, t2, head2, j2)
            <==> t == t2 && head == head2 && j == j2,
{
    lemma_flat3(rows, heads, head_dim, t, head, j, t2, head2, j2);
    lemma_flat3(heads, rows, head_dim, head, t, j, head2, t2, j2);
    assert(heads * rows * head_dim == rows * heads * head_dim) by (nonlinear_arith);
}

proof fn lemma_unflat3(a: int, b: int, c: int, i: int) -> (place: (int, int, int))
    requires
        0 <= a,
        0 <= b,
        0 <= c,
        0 <= i < a * b * c,
    ensures
        0 <= place.0 < a,
        0 <= place.1 < b,
        0 <= place.2 < c,
        (place.0 * b + place.1) * c + place.2 == i,
{
    assert(c > 0 && b > 0) by (nonlinear_arith)
        requires
            0 <= a,
            0 <= b,
            0 <= c,
            0 < a * b * c,
    ;
    let q = i / c;
    vstd::arithmetic::div_mod::lemma_fundamental_div_mod(i, c);
    vstd::arithmetic::div_mod::lemma_fundamental_div_mod(q, b);
    assert(0 <= q < a * b) by (nonlinear_arith)
        requires
            0 <= i < a * b * c,
            c > 0,
            i == c * q + i % c,
            0 <= i % c < c,
    ;
    assert(0 <= q / b < a) by (nonlinear_arith)
        requires
            0 <= q < a * b,
            b > 0,
            q == b * (q / b) + q % b,
            0 <= q % b < b,
    ;
    assert(((q / b) * b + q % b) * c + i % c == i) by (nonlinear_arith)
        requires
            i == c * q + i % c,
            q == b * (q / b) + q % b,
    ;
    (q / b, q % b, i % c)
}

proof fn lemma_flat3(
    a: int,
    b: int,
    c: int,
    x: int,
    y: int,
    z: int,
    x2: int,
    y2: int,
    z2: int,
)
    requires
        0 <= x < a,
        0 <= y < b,
        0 <= z < c,
        0 <= x2 < a,
        0 <= y2 < b,
        0 <= z2 < c,
    ensures
        0 <= (x * b + y) * c + z < a * b * c,
        (x * b + y) * c + z == (x2 * b + y2) * c + z2 <==> x == x2 && y == y2 && z == z2,
{
    assert(0 <= (x * b + y) * c + z < a * b * c) by (nonlinear_arith)
        requires
            0 <= x < a,
            0 <= y < b,
            0 <= z < c,
    ;
    if (x * b + y) * c + z == (x2 * b + y2) * c + z2 {
        let (p, q) = (x * b + y, x2 * b + y2);
        assert(p == q) by (nonlinear_arith)
            requires
                p * c + z == q * c + z2,
                0 <= z < c,
                0 <= z2 < c,
        ;
        assert(x == x2) by (nonlinear_arith)
            requires
                x * b + y == x2 * b + y2,
                0 <= y < b,
                0 <= y2 < b,
        ;
    }
}

/// Everything a merge queues.
pub open spec fn merge_cmds(
    at: int,
    x: &CudaSlice<Fp32>,
    t: usize,
    heads: usize,
    head_dim: usize,
    quantize: bool,
) -> Seq<Cmd> {
    let k = heads * head_dim;
    let n = t * k;
    let (codes, scales) = if quantize {
        (ptr(fresh_twin(at + 1, t, k as usize).buf), num(n))
    } else {
        (Arg::Null, num(0))
    };
    let run = launch(
        Kernel::MergeHeads,
        seq![
            ptr(*x),
            ptr(made::<Fp32>(at, n)),
            codes,
            scales,
            num(t as int),
            num(heads as int),
            num(head_dim as int),
        ],
        flat_cfg(n),
    );
    if quantize {
        seq![zeros(Elem::F32, n), uninit(Elem::I8, q8_bytes(t as int, k)), run]
    } else {
        seq![zeros(Elem::F32, n), run]
    }
}

impl Gpu {
    /// The launch shape one of the reshape kernels wants.
    ///
    /// Getting this wrong is not a subtle failure - a tiled kernel under a flat
    /// grid covers a thirty-second of its output - so the two are chosen by
    /// kernel here rather than by a flag a caller could forget.
    fn reshape_cfg(kernel: Kernel, t: usize, d: usize) -> (cfg: LaunchConfig)
        requires
            t * d <= usize::MAX,
        ensures
            cfg == reshape_shape(kernel, t as int, d as int),
    {
        if kernel == Kernel::SplitHeadsT || kernel == Kernel::SplitHeadsTF16 {
            LaunchConfig {
                grid_dim: (div_ceil(d, 32) as u32, div_ceil(t, 32) as u32, 1),
                block_dim: (32, 8, 1),
                shared_mem_bytes: 0,
            }
        } else {
            LaunchConfig::flat(t * d)
        }
    }

    /// The body of the head permutations, which differ only in kernel.
    fn reshape_heads(
        &mut self,
        kernel: Kernel,
        x: &CudaSlice<Fp32>,
        t: usize,
        heads: usize,
        head_dim: usize,
    ) -> (out: CudaSlice<Fp32>)
        requires
            reshape_fits(t, heads, head_dim),
        ensures
            out == made::<Fp32>(old(self)@.len() as int, t * heads * head_dim),
            final(self)@ == old(self)@ + reshape_cmds(
                old(self)@.len() as int,
                kernel,
                x,
                t,
                heads,
                head_dim,
            ),
            old(self)@.len() <= usize::MAX,
    {
        let out = self.uninit(t * heads * head_dim);
        self.launch(
            kernel,
            vec![
                Arg::ptr(x),
                Arg::ptr(&out),
                Arg::num(t),
                Arg::num(heads),
                Arg::num(head_dim),
            ],
            Gpu::reshape_cfg(kernel, t, heads * head_dim),
        );
        out
    }

    /// `[t, heads*head_dim]` to `[heads, t, head_dim]`.
    pub fn split_heads(
        &mut self,
        x: &CudaSlice<Fp32>,
        t: usize,
        heads: usize,
        head_dim: usize,
    ) -> (out: CudaSlice<Fp32>)
        requires
            reshape_fits(t, heads, head_dim),
        ensures
            out == made::<Fp32>(old(self)@.len() as int, t * heads * head_dim),
            final(self)@ == old(self)@ + reshape_cmds(
                old(self)@.len() as int,
                Kernel::SplitHeads,
                x,
                t,
                heads,
                head_dim,
            ),
            three_ints_fit(t as int, heads as int, head_dim as int)
                ==> splits(
                    final(self)@.last(),
                    *x,
                    out,
                    t as int,
                    heads as int,
                    head_dim as int,
                    false,
                ),
            made_in(final(self)@, out, Elem::F32, t * heads * head_dim),
    {
        proof {
            if three_ints_fit(t as int, heads as int, head_dim as int) {
                every_head_is_split_off(old(self)@.len() as int, x, t, heads, head_dim, false);
            }
        }
        self.reshape_heads(Kernel::SplitHeads, x, t, heads, head_dim)
    }

    /// `[t, heads*head_dim]` to `[heads, head_dim, t]`.
    ///
    /// The value tensor's layout, because the context product reads it down
    /// its time axis and [`Gpu::gemm`] takes its right operand as `[n, k]`.
    pub fn split_heads_t(
        &mut self,
        x: &CudaSlice<Fp32>,
        t: usize,
        heads: usize,
        head_dim: usize,
    ) -> (out: CudaSlice<Fp32>)
        requires
            reshape_fits(t, heads, head_dim),
        ensures
            out == made::<Fp32>(old(self)@.len() as int, t * heads * head_dim),
            final(self)@ == old(self)@ + reshape_cmds(
                old(self)@.len() as int,
                Kernel::SplitHeadsT,
                x,
                t,
                heads,
                head_dim,
            ),
            three_ints_fit(t as int, heads as int, head_dim as int)
                ==> splits(
                    final(self)@.last(),
                    *x,
                    out,
                    t as int,
                    heads as int,
                    head_dim as int,
                    true,
                ),
            made_in(final(self)@, out, Elem::F32, t * heads * head_dim),
    {
        proof {
            if three_ints_fit(t as int, heads as int, head_dim as int) {
                every_head_is_split_off(old(self)@.len() as int, x, t, heads, head_dim, true);
            }
        }
        self.reshape_heads(Kernel::SplitHeadsT, x, t, heads, head_dim)
    }

    /// The head permutations that write f16.
    fn reshape_heads_f16(
        &mut self,
        kernel: Kernel,
        x: &CudaSlice<Fp32>,
        x_off: usize,
        bias: Option<(&CudaSlice<Fp32>, usize)>,
        t: usize,
        heads: usize,
        head_dim: usize,
    ) -> (r: Result<CudaSlice<u16>, CudaError>)
        requires
            split_f16(kernel, x, x_off, bias, t, heads, head_dim).fits(),
        ensures
            match split_f16(kernel, x, x_off, bias, t, heads, head_dim).refusal() {
                Some(e) => r == Err::<CudaSlice<u16>, CudaError>(e),
                None => r == Ok::<CudaSlice<u16>, CudaError>(
                    made(old(self)@.len() as int, t * heads * head_dim),
                ),
            },
            final(self)@ == old(self)@ + split_f16(
                kernel,
                x,
                x_off,
                bias,
                t,
                heads,
                head_dim,
            ).commands(old(self)@.len() as int),
            r is Ok ==> old(self)@.len() <= usize::MAX,
    {
        let n: usize = t * heads * head_dim;
        if x_off + n > x.len() {
            return Err(CudaError::SliceOverrun { at: x_off + n, len: x.len() });
        }
        if let Some((b, off)) = bias {
            if off + heads * head_dim > b.len() {
                return Err(CudaError::SliceOverrun { at: off + heads * head_dim, len: b.len() });
            }
        }
        let out = self.zeros_f16(n);
        let bias_arg: Arg = match bias {
            Some((b, off)) => Arg::ptr_at(b, off),
            None => Arg::Null,
        };
        assert(bias_arg == split_f16(kernel, x, x_off, bias, t, heads, head_dim).bias_arg());
        self.launch(
            kernel,
            vec![
                Arg::ptr_at(x, x_off),
                bias_arg,
                Arg::ptr(&out),
                Arg::num(t),
                Arg::num(heads),
                Arg::num(head_dim),
            ],
            Gpu::reshape_cfg(kernel, t, heads * head_dim),
        );
        Ok(out)
    }

    /// [`Gpu::split_heads`], writing f16.
    ///
    /// For a tensor that is built once and then read whole many times, where the
    /// split and a [`Gpu::to_f16`] pass after it would read and write the same
    /// tensor twice to change nothing but its width.
    pub fn split_heads_f16(
        &mut self,
        x: &CudaSlice<Fp32>,
        t: usize,
        heads: usize,
        head_dim: usize,
    ) -> (r: Result<CudaSlice<u16>, CudaError>)
        requires
            split_f16(Kernel::SplitHeadsF16, x, 0, None, t, heads, head_dim).fits(),
        ensures
            match split_f16(Kernel::SplitHeadsF16, x, 0, None, t, heads, head_dim).refusal() {
                Some(e) => r == Err::<CudaSlice<u16>, CudaError>(e),
                None => r == Ok::<CudaSlice<u16>, CudaError>(
                    made(old(self)@.len() as int, t * heads * head_dim),
                ),
            },
            final(self)@ == old(self)@ + split_f16(
                Kernel::SplitHeadsF16,
                x,
                0,
                None,
                t,
                heads,
                head_dim,
            ).commands(old(self)@.len() as int),
            ({
                let asked = SplitF16 {
                    kernel: Kernel::SplitHeadsF16,
                    x: *x,
                    x_off: 0,
                    bias: None,
                    t: t as int,
                    heads: heads as int,
                    head_dim: head_dim as int,
                };
                r is Ok && three_ints_fit(t as int, heads as int, head_dim as int)
                    ==> splits_rounded(final(self)@.last(), asked, r->Ok_0, false)
            }),
            r is Ok ==> made_in(final(self)@, r->Ok_0, Elem::U16, t * heads * head_dim),
    {
        proof {
            let s = split_f16(Kernel::SplitHeadsF16, x, 0, None, t, heads, head_dim);
            if s.refusal() is None && three_ints_fit(t as int, heads as int, head_dim as int) {
                every_head_is_split_off_rounded(s, old(self)@.len() as int, false);
            }
        }
        self.reshape_heads_f16(Kernel::SplitHeadsF16, x, 0, None, t, heads, head_dim)
    }

    /// [`Gpu::split_heads_t`], writing f16.
    pub fn split_heads_t_f16(
        &mut self,
        x: &CudaSlice<Fp32>,
        t: usize,
        heads: usize,
        head_dim: usize,
    ) -> (r: Result<CudaSlice<u16>, CudaError>)
        requires
            split_f16(Kernel::SplitHeadsTF16, x, 0, None, t, heads, head_dim).fits(),
        ensures
            match split_f16(Kernel::SplitHeadsTF16, x, 0, None, t, heads, head_dim).refusal() {
                Some(e) => r == Err::<CudaSlice<u16>, CudaError>(e),
                None => r == Ok::<CudaSlice<u16>, CudaError>(
                    made(old(self)@.len() as int, t * heads * head_dim),
                ),
            },
            final(self)@ == old(self)@ + split_f16(
                Kernel::SplitHeadsTF16,
                x,
                0,
                None,
                t,
                heads,
                head_dim,
            ).commands(old(self)@.len() as int),
            ({
                let asked = SplitF16 {
                    kernel: Kernel::SplitHeadsTF16,
                    x: *x,
                    x_off: 0,
                    bias: None,
                    t: t as int,
                    heads: heads as int,
                    head_dim: head_dim as int,
                };
                r is Ok && three_ints_fit(t as int, heads as int, head_dim as int)
                    ==> splits_rounded(final(self)@.last(), asked, r->Ok_0, true)
            }),
            r is Ok ==> made_in(final(self)@, r->Ok_0, Elem::U16, t * heads * head_dim),
    {
        proof {
            let s = split_f16(Kernel::SplitHeadsTF16, x, 0, None, t, heads, head_dim);
            if s.refusal() is None && three_ints_fit(t as int, heads as int, head_dim as int) {
                every_head_is_split_off_rounded(s, old(self)@.len() as int, true);
            }
        }
        self.reshape_heads_f16(Kernel::SplitHeadsTF16, x, 0, None, t, heads, head_dim)
    }

    /// [`Gpu::split_heads_f16`] of the `[t, heads * head_dim]` block that
    /// starts `x_off` elements into `x`, adding the row `bias` - given as a
    /// buffer and an offset into it - before rounding.
    ///
    /// For a cache built from one batched projection over every layer: the
    /// batch carries a single bias where each layer has its own, so the bias
    /// moves here.
    pub fn split_heads_f16_at(
        &mut self,
        x: &CudaSlice<Fp32>,
        x_off: usize,
        bias: Option<(&CudaSlice<Fp32>, usize)>,
        t: usize,
        heads: usize,
        head_dim: usize,
    ) -> (r: Result<CudaSlice<u16>, CudaError>)
        requires
            split_f16(Kernel::SplitHeadsF16, x, x_off, bias, t, heads, head_dim).fits(),
        ensures
            match split_f16(Kernel::SplitHeadsF16, x, x_off, bias, t, heads, head_dim).refusal() {
                Some(e) => r == Err::<CudaSlice<u16>, CudaError>(e),
                None => r == Ok::<CudaSlice<u16>, CudaError>(
                    made(old(self)@.len() as int, t * heads * head_dim),
                ),
            },
            final(self)@ == old(self)@ + split_f16(
                Kernel::SplitHeadsF16,
                x,
                x_off,
                bias,
                t,
                heads,
                head_dim,
            ).commands(old(self)@.len() as int),
            ({
                let asked = SplitF16 {
                    kernel: Kernel::SplitHeadsF16,
                    x: *x,
                    x_off: x_off as int,
                    bias: bias,
                    t: t as int,
                    heads: heads as int,
                    head_dim: head_dim as int,
                };
                r is Ok && three_ints_fit(t as int, heads as int, head_dim as int)
                    ==> splits_rounded(final(self)@.last(), asked, r->Ok_0, false)
            }),
            r is Ok ==> made_in(final(self)@, r->Ok_0, Elem::U16, t * heads * head_dim),
    {
        proof {
            let s = split_f16(Kernel::SplitHeadsF16, x, x_off, bias, t, heads, head_dim);
            if s.refusal() is None && three_ints_fit(t as int, heads as int, head_dim as int) {
                every_head_is_split_off_rounded(s, old(self)@.len() as int, false);
            }
        }
        self.reshape_heads_f16(Kernel::SplitHeadsF16, x, x_off, bias, t, heads, head_dim)
    }

    /// [`Gpu::split_heads_t_f16`] with an offset and a bias, as
    /// [`Gpu::split_heads_f16_at`].
    pub fn split_heads_t_f16_at(
        &mut self,
        x: &CudaSlice<Fp32>,
        x_off: usize,
        bias: Option<(&CudaSlice<Fp32>, usize)>,
        t: usize,
        heads: usize,
        head_dim: usize,
    ) -> (r: Result<CudaSlice<u16>, CudaError>)
        requires
            split_f16(Kernel::SplitHeadsTF16, x, x_off, bias, t, heads, head_dim).fits(),
        ensures
            match split_f16(Kernel::SplitHeadsTF16, x, x_off, bias, t, heads, head_dim).refusal() {
                Some(e) => r == Err::<CudaSlice<u16>, CudaError>(e),
                None => r == Ok::<CudaSlice<u16>, CudaError>(
                    made(old(self)@.len() as int, t * heads * head_dim),
                ),
            },
            final(self)@ == old(self)@ + split_f16(
                Kernel::SplitHeadsTF16,
                x,
                x_off,
                bias,
                t,
                heads,
                head_dim,
            ).commands(old(self)@.len() as int),
            ({
                let asked = SplitF16 {
                    kernel: Kernel::SplitHeadsTF16,
                    x: *x,
                    x_off: x_off as int,
                    bias: bias,
                    t: t as int,
                    heads: heads as int,
                    head_dim: head_dim as int,
                };
                r is Ok && three_ints_fit(t as int, heads as int, head_dim as int)
                    ==> splits_rounded(final(self)@.last(), asked, r->Ok_0, true)
            }),
            r is Ok ==> made_in(final(self)@, r->Ok_0, Elem::U16, t * heads * head_dim),
    {
        proof {
            let s = split_f16(Kernel::SplitHeadsTF16, x, x_off, bias, t, heads, head_dim);
            if s.refusal() is None && three_ints_fit(t as int, heads as int, head_dim as int) {
                every_head_is_split_off_rounded(s, old(self)@.len() as int, true);
            }
        }
        self.reshape_heads_f16(Kernel::SplitHeadsTF16, x, x_off, bias, t, heads, head_dim)
    }

    /// `[heads, t, head_dim]` back to `[t, heads*head_dim]`.
    pub fn merge_heads(
        &mut self,
        x: &CudaSlice<Fp32>,
        t: usize,
        heads: usize,
        head_dim: usize,
    ) -> (out: CudaSlice<Fp32>)
        requires
            heads * head_dim <= usize::MAX,
            t * (heads * head_dim) <= usize::MAX,
        ensures
            out == made::<Fp32>(old(self)@.len() as int, t * (heads * head_dim)),
            final(self)@ == old(self)@ + merge_cmds(
                old(self)@.len() as int,
                x,
                t,
                heads,
                head_dim,
                false,
            ),
            three_ints_fit(t as int, heads as int, head_dim as int)
                ==> merges(final(self)@.last(), *x, out, t as int, heads as int, head_dim as int)
                    && takes_twin(final(self)@.last(), 2, 3, None),
            made_in(final(self)@, out, Elem::F32, t * (heads * head_dim)),
    {
        let (out, _) = self.merge_heads_inner(x, t, heads, head_dim, false);
        proof {
            if three_ints_fit(t as int, heads as int, head_dim as int) {
                every_head_is_merged(old(self)@.len() as int, x, t, heads, head_dim, false);
            }
        }
        out
    }

    /// The merge and the int8 twin of its output, in one pass.
    ///
    /// The merged context is what the output projection multiplies, and both
    /// packed matmul paths read it as int8 - so quantizing it in a pass of its
    /// own re-reads the whole row for numbers the merge is already holding.
    pub fn merge_heads_q(
        &mut self,
        x: &CudaSlice<Fp32>,
        t: usize,
        heads: usize,
        head_dim: usize,
    ) -> (r: Result<(CudaSlice<Fp32>, Q8), CudaError>)
        requires
            heads * head_dim <= usize::MAX,
            heads * head_dim % 32 == 0 ==> q8_fits(t as int, heads * head_dim),
        ensures
            heads * head_dim % 32 != 0 ==> r == Err::<(CudaSlice<Fp32>, Q8), CudaError>(
                CudaError::RaggedBlock { k: (heads * head_dim) as usize, block: 32 },
            ) && final(self)@ == old(self)@,
            heads * head_dim % 32 == 0 ==> {
                let at = old(self)@.len() as int;
                let k = heads * head_dim;
                &&& r == Ok::<(CudaSlice<Fp32>, Q8), CudaError>(
                    (made(at, t * k), fresh_twin(at + 1, t, k as usize)),
                )
                &&& r->Ok_0.1.wf()
                &&& final(self)@ == old(self)@ + merge_cmds(at, x, t, heads, head_dim, true)
            },
            r is Ok && three_ints_fit(t as int, heads as int, head_dim as int)
                ==> merges(
                    final(self)@.last(),
                    *x,
                    r->Ok_0.0,
                    t as int,
                    heads as int,
                    head_dim as int,
                )
                    && takes_twin(final(self)@.last(), 2, 3, Some(r->Ok_0.1)),
            r is Ok
                ==> made_in(final(self)@, r->Ok_0.0, Elem::F32, t * (heads * head_dim))
                    && r->Ok_0.1.rows == t && r->Ok_0.1.k == (heads * head_dim)
                    && made_in(
                        final(self)@,
                        r->Ok_0.1.buf,
                        Elem::I8,
                        t * (heads * head_dim) + t * ((heads * head_dim) / 32) * 4,
                    ),
    {
        let k: usize = heads * head_dim;
        if k % 32 != 0 {
            return Err(CudaError::RaggedBlock { k, block: 32 });
        }
        let (out, q8) = self.merge_heads_inner(x, t, heads, head_dim, true);
        proof {
            if three_ints_fit(t as int, heads as int, head_dim as int) {
                every_head_is_merged(old(self)@.len() as int, x, t, heads, head_dim, true);
            }
        }
        Ok((out, q8.unwrap()))
    }

    fn merge_heads_inner(
        &mut self,
        x: &CudaSlice<Fp32>,
        t: usize,
        heads: usize,
        head_dim: usize,
        quantize: bool,
    ) -> (r: (CudaSlice<Fp32>, Option<Q8>))
        requires
            heads * head_dim <= usize::MAX,
            t * (heads * head_dim) <= usize::MAX,
            quantize ==> heads * head_dim % 32 == 0 && q8_fits(t as int, heads * head_dim),
        ensures
            r.0 == made::<Fp32>(old(self)@.len() as int, t * (heads * head_dim)),
            r.1 == if quantize {
                Some(fresh_twin(old(self)@.len() as int + 1, t, (heads * head_dim) as usize))
            } else {
                None
            },
            quantize ==> r.1->0.wf(),
            final(self)@ == old(self)@ + merge_cmds(
                old(self)@.len() as int,
                x,
                t,
                heads,
                head_dim,
                quantize,
            ),
            old(self)@.len() <= usize::MAX,
            quantize ==> old(self)@.len() < usize::MAX,
    {
        let k: usize = heads * head_dim;
        let n: usize = t * k;
        let out = self.zeros(n);
        proof {
            if quantize {
                whole_groups_divide_out(t as int, k as int);
            }
        }
        let q8: Option<Q8> = if quantize {
            Some(Q8 { buf: self.uninit_i8(n + (n / 32) * 4), rows: t, k })
        } else {
            None
        };
        let (codes, scales): (Arg, Arg) = match &q8 {
            Some(q) => (Arg::ptr(&q.buf), Arg::num(q.scale_offset())),
            None => (Arg::Null, Arg::num(0)),
        };
        self.launch(
            Kernel::MergeHeads,
            vec![
                Arg::ptr(x),
                Arg::ptr(&out),
                codes,
                scales,
                Arg::num(t),
                Arg::num(heads),
                Arg::num(head_dim),
            ],
            LaunchConfig::flat(n),
        );
        (out, q8)
    }
}

} // verus!
