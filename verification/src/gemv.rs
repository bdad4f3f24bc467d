//! One-row projections whose result is placed, finished or normalised by the
//! same launch.

use crate::arith::{ceil_div, div_ceil, lemma_unflatten, lesser, product_fits, sum_fits};
use crate::buffer::{CudaSlice, Elem, FloatBits, Fp32};
use crate::device::{arg_at, arg_given, at, int_fits, maybe_at};
use crate::device::projecting::{
    a_placed_row_goes_to_its_place, a_row_is_projected_and_layer_normed,
    a_row_is_projected_and_rms_normed, placed_ints_fit, places, projects_and_layer_norms,
    projects_and_rms_norms, projects_three, three_rows_go_to_their_places,
};
use crate::error::CudaError;
use crate::gemm::{matvec, matvec_cfg, operand_arg, operand_from, product};
use crate::kernels::GEMV_WARPS;
use crate::names::Kernel;
use crate::operand::{q8_bytes, q8_fits, twin_fits, Batch, Operand, Q8};
use crate::quant::Quant;
use crate::queue::{
    flag,
    launch,
    long,
    made,
    made_in,
    num,
    ptr,
    ptr_or_null,
    uninit,
    zeros,
    Arg,
    Cmd,
    Gpu,
};
use crate::scratch::NormScratch;
use vstd::math::min;
use vstd::prelude::*;

verus! {

/// Where [`Gpu::gemv_into`] puts each column of its one output row.
#[derive(Debug, Clone, Copy, PartialEq, Eq, Structural)]
pub enum OutLayout {
    /// `out[col]`, the plain row.
    Row,
    /// Column `h * head_dim + j` at `(h * cap + pos) * head_dim + j` - one
    /// position of a head-major `[heads, cap, head_dim]` key cache, which is
    /// what `cache_append` scatters a projected row into.
    KeyCache {
        /// Elements a head.
        head_dim: usize,
        /// Positions the cache has room for.
        cap: usize,
        /// The position being written.
        pos: usize,
    },
    /// Column `c` at `c * cap + pos` - one position of a transposed
    /// `[heads, head_dim, cap]` value cache, `cache_append_t`'s layout.
    ValueCache {
        /// Positions the cache has room for.
        cap: usize,
        /// The position being written.
        pos: usize,
    },
}

impl OutLayout {
    /// Where a column goes.
    pub open spec fn position(self, col: int) -> int {
        match self {
            OutLayout::Row => col,
            OutLayout::KeyCache { head_dim, cap, pos } => {
                let (h, j) = (col / head_dim as int, col % head_dim as int);
                (h * cap + pos) * head_dim + j
            },
            OutLayout::ValueCache { cap, pos } => col * cap + pos,
        }
    }

    /// The column stride, the head stride, the head width and the offset that
    /// the kernel is handed.
    pub open spec fn strides(self) -> (int, int, int, int) {
        match self {
            OutLayout::Row => (1, 0, 0, 0),
            OutLayout::KeyCache { head_dim, cap, pos } => (
                1,
                (cap - 1) * head_dim,
                head_dim as int,
                pos * head_dim,
            ),
            OutLayout::ValueCache { cap, pos } => (cap as int, 0, 0, pos as int),
        }
    }

    /// Where the kernel stores a column of its one row, given those four.
    pub open spec fn kernel_index(strides: (int, int, int, int), col: int) -> int {
        let (cs, hs, hd, off) = strides;
        if hd != 0 {
            off + col * cs + (col / hd) * hs
        } else if cs != 1 {
            off + col * cs
        } else {
            off + col
        }
    }

    /// Whether the layout has no place for a row of `n`: a position past the
    /// capacity, or a row that is not whole heads.
    pub open spec fn overruns(self, n: int) -> bool {
        match self {
            OutLayout::Row => false,
            OutLayout::KeyCache { head_dim, cap, pos } => head_dim == 0 || n % head_dim as int != 0
                || pos >= cap,
            OutLayout::ValueCache { cap, pos } => pos >= cap,
        }
    }

    /// The position and the capacity, where there are such.
    pub open spec fn place(self) -> (int, int) {
        match self {
            OutLayout::Row => (0, 0),
            OutLayout::KeyCache { head_dim: _, cap, pos } => (pos as int, cap as int),
            OutLayout::ValueCache { cap, pos } => (pos as int, cap as int),
        }
    }

    /// The furthest place that a row of `n` reaches.
    pub open spec fn last(self, n: int) -> int {
        match self {
            OutLayout::Row => n - 1,
            OutLayout::KeyCache { head_dim, cap, pos } => ((n / head_dim as int - 1) * cap + pos)
                * head_dim + head_dim - 1,
            OutLayout::ValueCache { cap, pos } => (n - 1) * cap + pos,
        }
    }

    /// The steps of computing that place are numbers of this machine.
    pub open spec fn fits(self, n: int) -> bool {
        match self {
            OutLayout::Row => n >= 1,
            OutLayout::KeyCache { head_dim, cap, pos } => {
                &&& self.overruns(n) ==> pos + 1 <= usize::MAX
                &&& !self.overruns(n) ==> {
                    &&& n >= 1
                    &&& (cap - 1) * head_dim <= usize::MAX
                    &&& pos * head_dim <= usize::MAX
                    &&& (n / head_dim as int - 1) * cap + pos <= usize::MAX
                    &&& ((n / head_dim as int - 1) * cap + pos) * head_dim + head_dim <= usize::MAX
                }
            },
            OutLayout::ValueCache { cap, pos } => {
                &&& self.overruns(n) ==> pos + 1 <= usize::MAX
                &&& !self.overruns(n) ==> n >= 1 && (n - 1) * cap + pos <= usize::MAX
            },
        }
    }
}

/// The four numbers the kernel is handed put every column where the layout
/// says.
pub proof fn strides_place_every_column(layout: OutLayout, n: int, col: int)
    requires
        !layout.overruns(n),
        0 <= col < n,
    ensures
        OutLayout::kernel_index(layout.strides(), col) == layout.position(col),
{
    match layout {
        OutLayout::KeyCache { head_dim, cap, pos } => {
            let hd = head_dim as int;
            let (h, j) = (col / hd, col % hd);
            vstd::arithmetic::div_mod::lemma_fundamental_div_mod(col, hd);
            let (c, p) = (cap as int, pos as int);
            assert(p * hd + col * 1 + h * ((c - 1) * hd) == (h * c + p) * hd + j)
                by (nonlinear_arith)
                requires
                    col == hd * h + j,
            ;
        },
        _ => {},
    }
}

/// Every column lands at or before the furthest place, and two columns never
/// land on one.
pub proof fn columns_stay_apart(layout: OutLayout, n: int, a: int, b: int)
    requires
        !layout.overruns(n),
        0 <= a < n,
        0 <= b < n,
    ensures
        0 <= layout.position(a) <= layout.last(n),
        layout.position(a) == layout.position(b) ==> a == b,
{
    match layout {
        OutLayout::Row => {},
        OutLayout::KeyCache { head_dim, cap, pos } => {
            let (hd, c, p) = (head_dim as int, cap as int, pos as int);
            let (ha, ja) = (a / hd, a % hd);
            let (hb, jb) = (b / hd, b % hd);
            vstd::arithmetic::div_mod::lemma_fundamental_div_mod(a, hd);
            vstd::arithmetic::div_mod::lemma_fundamental_div_mod(b, hd);
            vstd::arithmetic::div_mod::lemma_fundamental_div_mod(n, hd);
            let heads = n / hd;
            assert(0 <= ha < heads) by (nonlinear_arith)
                requires
                    0 <= a < n,
                    hd > 0,
                    a == hd * ha + ja,
                    0 <= ja < hd,
                    n == hd * heads,
            ;
            assert(0 <= hb < heads) by (nonlinear_arith)
                requires
                    0 <= b < n,
                    hd > 0,
                    b == hd * hb + jb,
                    0 <= jb < hd,
                    n == hd * heads,
            ;
            assert(0 <= (ha * c + p) * hd + ja) by (nonlinear_arith)
                requires
                    0 <= ha,
                    0 <= c,
                    0 <= p,
                    0 <= hd,
                    0 <= ja,
            ;
            assert((ha * c + p) * hd + ja <= ((heads - 1) * c + p) * hd + hd - 1)
                by (nonlinear_arith)
                requires
                    ha <= heads - 1,
                    0 <= c,
                    0 < hd,
                    ja <= hd - 1,
            ;
            if layout.position(a) == layout.position(b) {
                lemma_unflatten(ha * c + p, ja, hb * c + p, jb, hd);
                assert(ha == hb) by (nonlinear_arith)
                    requires
                        ha * c == hb * c,
                        c > 0,
                ;
            }
        },
        OutLayout::ValueCache { cap, pos } => {
            let c = cap as int;
            assert(0 <= a * c) by (nonlinear_arith)
                requires
                    0 <= a,
                    0 <= c,
            ;
            assert(a * c <= (n - 1) * c) by (nonlinear_arith)
                requires
                    a <= n - 1,
                    0 <= c,
            ;
            if layout.position(a) == layout.position(b) {
                assert(a == b) by (nonlinear_arith)
                    requires
                        a * c == b * c,
                        c > 0,
                ;
            }
        },
    }
}

/// A placed mat-vec as it was asked for.
pub struct PlacedGemv<'a> {
    pub x: CudaSlice<Fp32>,
    pub w: Operand<'a>,
    pub bias: Option<&'a CudaSlice<Fp32>>,
    pub k: int,
    pub n: int,
    pub gelu: bool,
    pub layout: OutLayout,
    pub out: CudaSlice<Fp32>,
}

/// The placed mat-vec that these arguments ask for.
#[verifier::inline]
pub open spec fn placed<'a>(
    x: &CudaSlice<Fp32>,
    w: Operand<'a>,
    bias: Option<&'a CudaSlice<Fp32>>,
    k: usize,
    n: usize,
    gelu: bool,
    layout: OutLayout,
    out: &CudaSlice<Fp32>,
) -> PlacedGemv<'a> {
    PlacedGemv { x: *x, w, bias, k: k as int, n: n as int, gelu, layout, out: *out }
}

impl<'a> PlacedGemv<'a> {
    /// Refusals that do not look at the layout.
    pub open spec fn operand_refusal(self) -> Option<CudaError> {
        if !(self.w is F32 || self.w is F16) {
            Some(CudaError::QuantizedActivation)
        } else if self.x.len < self.k {
            Some(CudaError::SliceOverrun { at: self.k as usize, len: self.x.len })
        } else if self.w.spec_len() < self.n * self.k {
            Some(
                CudaError::SliceOverrun {
                    at: (self.n * self.k) as usize,
                    len: self.w.spec_len() as usize,
                },
            )
        } else if self.w is F16 && self.k % 2 != 0 {
            Some(CudaError::RaggedContraction { k: self.k as usize })
        } else {
            None
        }
    }

    /// Why the mat-vec is refused, if it is.
    pub open spec fn refusal(self) -> Option<CudaError> {
        if self.operand_refusal() is Some {
            self.operand_refusal()
        } else if self.layout.overruns(self.n) {
            Some(
                CudaError::CacheOverrun {
                    at: (self.layout.place().0 + 1) as usize,
                    cap: self.layout.place().1 as usize,
                },
            )
        } else if self.layout.last(self.n) >= self.out.len {
            Some(
                CudaError::SliceOverrun {
                    at: (self.layout.last(self.n) + 1) as usize,
                    len: self.out.len,
                },
            )
        } else {
            None
        }
    }

    /// The one-row mat-vec, told where its columns go.
    pub open spec fn placed_launch(self) -> Cmd {
        let (cs, hs, hd, off) = self.layout.strides();
        launch(
            Kernel::Gemv,
            seq![
                ptr(self.x),
                operand_arg(self.w, 0),
                ptr_or_null(self.bias),
                ptr(self.out),
                num(1),
                num(self.k),
                num(self.n),
                long(0),
                long(0),
                long(0),
                num(0),
                flag(self.w is F16),
                num(0),
                num(0),
                num(0),
                num(0),
                Arg::Null,
                num(0),
                num(1),
                flag(self.gelu),
                num(cs),
                num(hs),
                num(hd),
                long(off),
            ],
            matvec_cfg(self.n, 1, 1),
        )
    }

    /// The sizes that are computed are numbers of this machine.
    pub open spec fn fits(self) -> bool {
        &&& (self.w is F32 || self.w is F16) && self.x.len >= self.k ==> self.n * self.k
            <= usize::MAX
        &&& self.operand_refusal() is None ==> {
            &&& self.layout.fits(self.n)
            &&& !self.layout.overruns(self.n) ==> self.layout.last(self.n) + 1 <= usize::MAX
        }
    }
}

/// A placed mat-vec that is not refused stores every column inside `out`, each
/// at its own place.
pub proof fn placed_columns_fit(g: PlacedGemv<'_>, a: int, b: int)
    requires
        g.refusal() is None,
        0 <= a < g.n,
        0 <= b < g.n,
    ensures
        OutLayout::kernel_index(g.layout.strides(), a) == g.layout.position(a),
        0 <= g.layout.position(a) < g.out.len,
        g.layout.position(a) == g.layout.position(b) ==> a == b,
{
    strides_place_every_column(g.layout, g.n, a);
    columns_stay_apart(g.layout, g.n, a, b);
}

/// A launch with some of its arguments replaced.
pub open spec fn with_args(c: Cmd, at: int, new: Seq<Arg>) -> Cmd {
    Cmd::Launch {
        kernel: c->kernel,
        label: c->label,
        args: c->args.subrange(0, at) + new + c->args.subrange(
            at + new.len(),
            c->args.len() as int,
        ),
        cfg: c->cfg,
    }
}

/// A placed row is what [`Gpu::gemm_batched`] makes of one row: the same launch
/// over the same grid, whatever the strides of its one product, but for the
/// output, the strides of a batch that has no second product, and the epilogue,
/// which names the activation and where the columns go.
pub proof fn a_placed_row_is_a_product<'a>(
    x: &'a CudaSlice<Fp32>,
    w: Operand<'a>,
    bias: Option<&'a CudaSlice<Fp32>>,
    k: usize,
    n: usize,
    gelu: bool,
    layout: OutLayout,
    out: &CudaSlice<Fp32>,
    batch: Batch,
    at: int,
)
    requires
        w is F32 || w is F16,
        batch.count == 1,
        batch.w_row == 0,
    ensures
        ({
            let p = product(Operand::F32(x), w, 0, bias, batch, 1, k, n).main_launch(at);
            let (cs, hs, hd, off) = layout.strides();
            placed(x, w, bias, k, n, gelu, layout, out).placed_launch() == with_args(
                with_args(
                    with_args(p, 3, seq![ptr(*out)]),
                    7,
                    seq![long(0), long(0), long(0)],
                ),
                19,
                seq![flag(gelu), num(cs), num(hs), num(hd), long(off)],
            )
        }),
{
    let g = product(Operand::F32(x), w, 0, bias, batch, 1, k, n);
    assert(g.skipped() == 0);
    assert(g.main_launch(at) == g.gemv_launch(at));
    let p = g.main_launch(at);
    let (cs, hs, hd, off) = layout.strides();
    let c = with_args(
        with_args(with_args(p, 3, seq![ptr(*out)]), 7, seq![long(0), long(0), long(0)]),
        19,
        seq![flag(gelu), num(cs), num(hs), num(hd), long(off)],
    );
    assert(placed(x, w, bias, k, n, gelu, layout, out).placed_launch()->args =~= c->args);
}

/// A plain row of a fresh output is the product itself, argument for argument,
/// where the strides of its batch are all zero.
pub proof fn a_plain_row_is_a_product<'a>(
    x: &'a CudaSlice<Fp32>,
    w: Operand<'a>,
    bias: Option<&'a CudaSlice<Fp32>>,
    k: usize,
    n: usize,
    at: int,
)
    requires
        w is F32 || w is F16,
    ensures
        placed(
            x,
            w,
            bias,
            k,
            n,
            false,
            OutLayout::Row,
            &made::<Fp32>(at, n as int),
        ).placed_launch() == product(
            Operand::F32(x),
            w,
            0,
            bias,
            (Batch { count: 1, a: 0, w: 0, out: 0, w_row: 0 }),
            1,
            k,
            n,
        ).main_launch(at),
{
    let g = product(
        Operand::F32(x),
        w,
        0,
        bias,
        Batch { count: 1, a: 0, w: 0, out: 0, w_row: 0 },
        1,
        k,
        n,
    );
    assert(g.skipped() == 0);
    assert(1 * 1 * n as int == n as int) by (nonlinear_arith);
    assert(g.out_len() == n);
    assert(g.main_launch(at) == g.gemv_launch(at));
}

/// What the mat-vec kernel leaves in its output, given the four numbers that name
/// its columns' places: each column of the row at its place, and everything else
/// as it was.
pub open spec fn row_stored<T>(
    strides: (int, int, int, int),
    row: Seq<T>,
    before: Seq<T>,
    after: Seq<T>,
) -> bool {
    &&& after.len() == before.len()
    &&& forall|c: int|
        0 <= c < row.len() ==> after[#[trigger] OutLayout::kernel_index(strides, c)] == row[c]
    &&& forall|x: int|
        0 <= x < before.len() && (forall|c: int|
            0 <= c < row.len() ==> #[trigger] OutLayout::kernel_index(strides, c) != x)
            ==> #[trigger] after[x] == before[x]
}

/// What a layout promises of a row: each column where it says, and everything
/// else as it was.
pub open spec fn row_placed<T>(
    layout: OutLayout,
    row: Seq<T>,
    before: Seq<T>,
    after: Seq<T>,
) -> bool {
    &&& after.len() == before.len()
    &&& forall|c: int| 0 <= c < row.len() ==> after[#[trigger] layout.position(c)] == row[c]
    &&& forall|x: int|
        0 <= x < before.len() && (forall|c: int|
            0 <= c < row.len() ==> #[trigger] layout.position(c) != x) ==> #[trigger] after[x]
            == before[x]
}

/// A placed mat-vec leaves the row where its layout says, and nothing else of the
/// output changes.
pub proof fn placed_rows_land<T>(
    layout: OutLayout,
    row: Seq<T>,
    before: Seq<T>,
    after: Seq<T>,
)
    requires
        !layout.overruns(row.len() as int),
        row_stored(layout.strides(), row, before, after),
    ensures
        row_placed(layout, row, before, after),
{
    let n = row.len() as int;
    assert forall|c: int| 0 <= c < n implies after[#[trigger] layout.position(c)] == row[c] by {
        strides_place_every_column(layout, n, c);
        assert(after[OutLayout::kernel_index(layout.strides(), c)] == row[c]);
    }
    assert forall|x: int|
        0 <= x < before.len() && (forall|c: int|
            0 <= c < n ==> #[trigger] layout.position(c) != x) implies #[trigger] after[x]
        == before[x] by {
        assert forall|c: int| 0 <= c < n implies #[trigger] OutLayout::kernel_index(
            layout.strides(),
            c,
        ) != x by {
            strides_place_every_column(layout, n, c);
            assert(layout.position(c) != x);
        }
    }
}

/// The widest row [`Gpu::gemv_ln`] normalises: its last block holds the row in
/// registers, `gn_nl` groups of four a thread.
pub open spec fn ln_max_n(gn_nl: int) -> int {
    4 * gn_nl * GEMV_WARPS * 32
}

/// The widest row [`Gpu::gemv_ln`] normalises, where the device source gives
/// each thread of its last block `gn_nl` groups of four.
pub fn gemv_ln_max_n(gn_nl: u32) -> (n: usize)
    requires
        ln_max_n(gn_nl as int) <= usize::MAX,
    ensures
        n == ln_max_n(gn_nl as int),
{
    4 * gn_nl as usize * GEMV_WARPS as usize * 32
}

impl NormScratch {
    /// Making the counter, where there is none.
    pub open spec fn ctr_cmds(self) -> Seq<Cmd> {
        if self.ctr is None {
            seq![zeros(Elem::U32, 1)]
        } else {
            Seq::empty()
        }
    }

    /// The scratch with its counter, made at place `at` of the queue.
    pub open spec fn with_counter(self, at: int) -> NormScratch {
        NormScratch {
            ctr: if self.ctr is None {
                Some(made(at, 1))
            } else {
                self.ctr
            },
            ..self
        }
    }

    /// Whether `blocks` blocks need partials that are not there.
    pub open spec fn lacks(self, blocks: int) -> bool {
        self.blocks < blocks || self.part is None
    }

    /// Making the partials, where there are not enough.
    pub open spec fn part_cmds(self, blocks: int) -> Seq<Cmd> {
        if self.lacks(blocks) {
            seq![uninit(Elem::F32, blocks)]
        } else {
            Seq::empty()
        }
    }

    /// The scratch with its counter and `blocks` partials.
    pub open spec fn grown(self, at: int, blocks: int) -> NormScratch {
        let s = self.with_counter(at);
        if self.lacks(blocks) {
            NormScratch {
                part: Some(made(at + self.ctr_cmds().len(), blocks)),
                ctr: s.ctr,
                blocks: blocks as usize,
            }
        } else {
            s
        }
    }
}

/// A scratch that has grown to `blocks` blocks is not grown again for as many
/// or fewer: a second call queues nothing for it and leaves it as it is.
pub proof fn norm_scratch_grows_once(s: NormScratch, at: int, again: int, blocks: int, later: int)
    requires
        0 <= later <= blocks <= usize::MAX,
    ensures
        s.grown(at, blocks).ctr_cmds() == Seq::<Cmd>::empty(),
        s.grown(at, blocks).part_cmds(later) == Seq::<Cmd>::empty(),
        s.grown(at, blocks).grown(again, later) == s.grown(at, blocks),
{
}

/// A mat-vec fused with a layer normalisation, as it was asked for.
pub struct GemvLn<'a> {
    pub a: CudaSlice<Fp32>,
    pub w: CudaSlice<u16>,
    pub bias: Option<&'a CudaSlice<Fp32>>,
    pub k: int,
    pub n: int,
    pub h: CudaSlice<Fp32>,
    pub weight: CudaSlice<Fp32>,
    pub shift: CudaSlice<Fp32>,
    pub eps: FloatBits,
    pub max_n: int,
}

impl<'a> GemvLn<'a> {
    /// The shortest of the operands that have to be as long as the row.
    pub open spec fn shortest(self) -> int {
        let b = match self.bias {
            Some(b) => b.len as int,
            None => self.n,
        };
        min(min(self.h.len as int, self.weight.len as int), min(self.shift.len as int, b))
    }

    /// Why the mat-vec is refused, if it is.
    pub open spec fn refusal(self) -> Option<CudaError> {
        if self.k % 2 != 0 {
            Some(CudaError::RaggedContraction { k: self.k as usize })
        } else if self.n % 4 != 0 {
            Some(CudaError::RaggedBlock { k: self.n as usize, block: 4 })
        } else if self.n > self.max_n {
            Some(CudaError::NormFusion { what: "a row longer than the last block can hold" })
        } else if self.a.len < self.k {
            Some(CudaError::SliceOverrun { at: self.k as usize, len: self.a.len })
        } else if self.w.len < self.n * self.k {
            Some(CudaError::SliceOverrun { at: (self.n * self.k) as usize, len: self.w.len })
        } else if self.shortest() < self.n {
            Some(CudaError::SliceOverrun { at: self.n as usize, len: self.shortest() as usize })
        } else {
            None
        }
    }

    /// The row it makes, with the queue at `at` before it.
    pub open spec fn row(self, s: NormScratch, at: int) -> CudaSlice<Fp32> {
        made(at + s.ctr_cmds().len(), self.n)
    }

    /// Everything the mat-vec queues: nothing where it is refused.
    pub open spec fn commands(self, s: NormScratch, at: int) -> Seq<Cmd> {
        if self.refusal() is Some {
            Seq::empty()
        } else {
            s.ctr_cmds() + seq![
                uninit(Elem::F32, self.n),
                launch(
                    Kernel::GemvLn,
                    seq![
                        ptr(self.a),
                        ptr(self.w),
                        ptr_or_null(self.bias),
                        num(self.k),
                        num(self.n),
                        ptr(self.h),
                        ptr(self.weight),
                        ptr(self.shift),
                        Arg::Float(self.eps),
                        ptr(self.row(s, at)),
                        ptr(s.with_counter(at).ctr->0),
                    ],
                    matvec_cfg(self.n, 1, 1),
                ),
            ]
        }
    }
}

/// The fused mat-vec that these arguments ask for.
#[verifier::inline]
pub open spec fn gemv_then_ln<'a>(
    a: &CudaSlice<Fp32>,
    w: &CudaSlice<u16>,
    bias: Option<&'a CudaSlice<Fp32>>,
    k: usize,
    n: usize,
    h: &CudaSlice<Fp32>,
    weight: &CudaSlice<Fp32>,
    shift: &CudaSlice<Fp32>,
    eps: FloatBits,
    max_n: usize,
) -> GemvLn<'a> {
    GemvLn {
        a: *a,
        w: *w,
        bias,
        k: k as int,
        n: n as int,
        h: *h,
        weight: *weight,
        shift: *shift,
        eps,
        max_n: max_n as int,
    }
}

impl Gpu {
    /// Whether every size that [`Gpu::gemv_into`] gets to compute on these
    /// arguments is a number of this machine, and there is a column where it looks
    /// for the last: what it asks of its callers.
    pub fn gemv_into_fits(
        x: &CudaSlice<Fp32>,
        w: Operand<'_>,
        bias: Option<&CudaSlice<Fp32>>,
        k: usize,
        n: usize,
        gelu: bool,
        layout: OutLayout,
        out: &CudaSlice<Fp32>,
    ) -> (fits: bool)
        ensures
            fits == placed(x, w, bias, k, n, gelu, layout, out).fits(),
    {
        let w_half: bool = match w {
            Operand::F32(_) => false,
            Operand::F16(_) => true,
            _ => return true,
        };
        if x.len() < k {
            return true;
        }
        if !product_fits(n, k) {
            return false;
        }
        if w.len() < n * k || (w_half && k % 2 != 0) {
            return true;
        }
        match layout {
            OutLayout::Row => n >= 1,
            OutLayout::KeyCache { head_dim, cap, pos } => {
                if head_dim == 0 || n % head_dim != 0 || pos >= cap {
                    return sum_fits(pos, 1);
                }
                if n == 0 {
                    return false;
                }
                let heads: usize = n / head_dim;
                proof {
                    lemma_key_steps(n as int, head_dim as int, cap as int, pos as int);
                }
                product_fits(cap - 1, head_dim) && product_fits(pos, head_dim) && product_fits(
                    heads - 1,
                    cap,
                ) && sum_fits((heads - 1) * cap, pos) && product_fits(
                    (heads - 1) * cap + pos,
                    head_dim,
                ) && sum_fits(((heads - 1) * cap + pos) * head_dim, head_dim)
            },
            OutLayout::ValueCache { cap, pos } => {
                if pos >= cap {
                    return sum_fits(pos, 1);
                }
                n >= 1 && product_fits(n - 1, cap) && sum_fits((n - 1) * cap, pos) && sum_fits(
                    (n - 1) * cap + pos,
                    1,
                )
            },
        }
    }

    /// Whether every size that [`Gpu::gemv_norm`] gets to compute on these
    /// arguments is a number of this machine.
    pub fn gemv_norm_fits(
        w: Operand<'_>,
        a: &Q8,
        k: usize,
        n: usize,
        h: &CudaSlice<Fp32>,
        weight: &CudaSlice<Fp32>,
        eps: FloatBits,
    ) -> (fits: bool)
        requires
            a.wf(),
        ensures
            fits == gemv_then_norm(w, a, k, n, h, weight, eps).fits(),
    {
        let (data, ty): (&CudaSlice<u8>, Quant) = match w {
            Operand::Q { data, ty } => (data, ty),
            _ => return true,
        };
        let (rows, ak): (usize, usize) = a.shape();
        if (ty != Quant::Q4K && ty != Quant::Q6K) || k % 256 != 0 || n % 32 != 0 || rows != 1
            || ak != k {
            return true;
        }
        if !product_fits(n, k / 256) || !product_fits(n * (k / 256), ty.device_stride()) {
            return false;
        }
        data.len() < n * (k / 256) * ty.device_stride() || h.len() < n || weight.len() < n
            || twin_fits(1, n)
    }

    /// Whether every size that [`Gpu::gemv_qkv_f16`] gets to compute on these
    /// arguments is a number of this machine.
    pub fn gemv_qkv_fits(
        a: &CudaSlice<Fp32>,
        w: &CudaSlice<u16>,
        bias: [Option<&CudaSlice<Fp32>>; 3],
        k: usize,
        d: usize,
        head_dim: usize,
        cap: usize,
        pos: usize,
        q: &CudaSlice<Fp32>,
        kc: &CudaSlice<Fp32>,
        vc: &CudaSlice<Fp32>,
    ) -> (fits: bool)
        ensures
            fits == qkv(a, w, bias, k, d, head_dim, cap, pos, q, kc, vc).fits(),
    {
        if pos >= cap {
            return sum_fits(pos, 1);
        }
        if k % 2 != 0 || head_dim == 0 || d % head_dim != 0 || a.len() < k {
            return true;
        }
        if !product_fits(3, d) || !product_fits(3 * d, k) {
            return false;
        }
        w.len() < 3 * d * k || q.len() < d || product_fits(d, cap)
    }
}

impl Gpu {
    /// One row through a mat-vec, with the result placed and finished by the
    /// kernel rather than by two more launches.
    ///
    /// `x` is one row of `k`, `w` an f32 or f16 `[n, k]` weight, and the
    /// output row is written into `out` at the positions `layout` names, with
    /// the exact GELU applied first when `gelu` is set. The arithmetic is
    /// [`Gpu::gemm_batched`]'s mat-vec to the bit - same kernel, same order.
    ///
    /// Refuses a layout that does not fit `out` - the failure it guards is a
    /// scatter into the next head's positions, in bounds and wrong.
    pub fn gemv_into(
        &mut self,
        x: &CudaSlice<Fp32>,
        w: Operand<'_>,
        bias: Option<&CudaSlice<Fp32>>,
        k: usize,
        n: usize,
        gelu: bool,
        layout: OutLayout,
        out: &CudaSlice<Fp32>,
    ) -> (r: Result<(), CudaError>)
        requires
            placed(x, w, bias, k, n, gelu, layout, out).fits(),
        ensures
            match placed(x, w, bias, k, n, gelu, layout, out).refusal() {
                Some(e) => r == Err::<(), CudaError>(e) && final(self)@ == old(self)@,
                None => r == Ok::<(), CudaError>(()) && final(self)@ == old(self)@.push(
                    placed(x, w, bias, k, n, gelu, layout, out).placed_launch(),
                ),
            },
            ({
                let asked = PlacedGemv {
                    x: *x,
                    w,
                    bias,
                    k: k as int,
                    n: n as int,
                    gelu,
                    layout,
                    out: *out,
                };
                r is Ok && placed_ints_fit(asked) ==> places(final(self)@.last(), asked)
            }),
    {
        let w_half: bool = match w {
            Operand::F32(_) => false,
            Operand::F16(_) => true,
            Operand::F32Q { .. } => return Err(CudaError::QuantizedActivation),
            Operand::Q { .. } => return Err(CudaError::QuantizedActivation),
        };
        if x.len() < k {
            return Err(CudaError::SliceOverrun { at: k, len: x.len() });
        }
        if w.len() < n * k {
            return Err(CudaError::SliceOverrun { at: n * k, len: w.len() });
        }
        if w_half && k % 2 != 0 {
            return Err(CudaError::RaggedContraction { k });
        }
        let (cs, hs, hd, off, last): (usize, usize, usize, usize, usize) = match layout {
            OutLayout::Row => (1, 0, 0, 0, n - 1),
            OutLayout::KeyCache { head_dim, cap, pos } => {
                if head_dim == 0 || n % head_dim != 0 || pos >= cap {
                    return Err(CudaError::CacheOverrun { at: pos + 1, cap });
                }
                let heads: usize = n / head_dim;
                proof {
                    lemma_key_steps(n as int, head_dim as int, cap as int, pos as int);
                }
                (
                    1,
                    (cap - 1) * head_dim,
                    head_dim,
                    pos * head_dim,
                    ((heads - 1) * cap + pos) * head_dim + head_dim - 1,
                )
            },
            OutLayout::ValueCache { cap, pos } => {
                if pos >= cap {
                    return Err(CudaError::CacheOverrun { at: pos + 1, cap });
                }
                (cap, 0, 0, pos, (n - 1) * cap + pos)
            },
        };
        assert((cs as int, hs as int, hd as int, off as int) == layout.strides());
        assert(last == layout.last(n as int));
        if last >= out.len() {
            return Err(CudaError::SliceOverrun { at: last + 1, len: out.len() });
        }
        self.launch(
            Kernel::Gemv,
            vec![
                Arg::ptr(x),
                operand_from(w, 0),
                Arg::ptr_or_null(bias),
                Arg::ptr(out),
                Arg::num(1),
                Arg::num(k),
                Arg::num(n),
                Arg::long(0),
                Arg::long(0),
                Arg::long(0),
                Arg::num(0),
                Arg::flag(w_half),
                Arg::num(0),
                Arg::num(0),
                Arg::num(0),
                Arg::num(0),
                Arg::Null,
                Arg::num(0),
                Arg::num(1),
                Arg::flag(gelu),
                Arg::num(cs),
                Arg::num(hs),
                Arg::num(hd),
                Arg::long(off),
            ],
            matvec(n, 1, 1),
        );
        proof {
            let g = placed(x, w, bias, k, n, gelu, layout, out);
            if g.refusal() is None && placed_ints_fit(g) {
                a_placed_row_goes_to_its_place(g);
            }
        }
        Ok(())
    }

    /// The counter the norm-fused mat-vecs arrive on, allocated on first use.
    fn norm_counter(&mut self, scratch: &mut NormScratch) -> (ctr: Arg)
        ensures
            *final(scratch) == old(scratch).with_counter(old(self)@.len() as int),
            ctr == ptr(final(scratch).ctr->0),
            final(scratch).ctr is Some,
            final(self)@ == old(self)@ + old(scratch).ctr_cmds(),
    {
        if scratch.ctr.is_none() {
            scratch.ctr = Some(self.zeros_u32(1));
        }
        Arg::ptr_or_null(scratch.ctr.as_ref())
    }

    /// A mat-vec against an f16 weight whose tail is a layer normalisation: the
    /// product of `a` with `w` plus `bias` is added into `h`, and `h` is then
    /// normalised - mean and variance - with `weight` and `shift` into the
    /// returned row.
    ///
    /// Refuses an odd `k`, an `n` that is not a multiple of four or is longer
    /// than `max_n` - the last block holds the row in registers, see
    /// [`gemv_ln_max_n`] - and every operand shorter than its shape.
    pub fn gemv_ln(
        &mut self,
        a: &CudaSlice<Fp32>,
        w: &CudaSlice<u16>,
        bias: Option<&CudaSlice<Fp32>>,
        k: usize,
        n: usize,
        h: &CudaSlice<Fp32>,
        weight: &CudaSlice<Fp32>,
        shift: &CudaSlice<Fp32>,
        eps: FloatBits,
        scratch: &mut NormScratch,
        max_n: usize,
    ) -> (r: Result<CudaSlice<Fp32>, CudaError>)
        requires
            k % 2 == 0 && n % 4 == 0 && n <= max_n && a.len >= k ==> n * k <= usize::MAX,
        ensures
            ({
                let g = gemv_then_ln(a, w, bias, k, n, h, weight, shift, eps, max_n);
                let at = old(self)@.len() as int;
                &&& match g.refusal() {
                    Some(e) => r == Err::<CudaSlice<Fp32>, CudaError>(e) && *final(scratch)
                        == *old(scratch),
                    None => r == Ok::<CudaSlice<Fp32>, CudaError>(g.row(*old(scratch), at))
                        && *final(scratch) == old(scratch).with_counter(at),
                }
                &&& final(self)@ == old(self)@ + g.commands(*old(scratch), at)
            }),
            r is Ok
                ==> (arg_given(final(self)@.last(), 2) <==> bias is Some)
                    && arg_at(final(self)@.last(), 2, 0) == maybe_at(bias, 0),
            ({
                let asked = GemvLn {
                    a: *a,
                    w: *w,
                    bias,
                    k: k as int,
                    n: n as int,
                    h: *h,
                    weight: *weight,
                    shift: *shift,
                    eps,
                    max_n: max_n as int,
                };
                r is Ok && int_fits(k as int) && int_fits(n as int)
                    ==> projects_and_layer_norms(final(self)@.last(), asked, r->Ok_0)
            }),
            r is Ok ==> made_in(final(self)@, r->Ok_0, Elem::F32, n as int),
            r is Ok
                ==> final(scratch).ctr is Some
                    && arg_at(final(self)@.last(), 10, 0) == at(final(scratch).ctr->0, 0),
    {
        if k % 2 != 0 {
            return Err(CudaError::RaggedContraction { k });
        }
        if n % 4 != 0 {
            return Err(CudaError::RaggedBlock { k: n, block: 4 });
        }
        if n > max_n {
            return Err(
                CudaError::NormFusion { what: "a row longer than the last block can hold" },
            );
        }
        if a.len() < k {
            return Err(CudaError::SliceOverrun { at: k, len: a.len() });
        }
        if w.len() < n * k {
            return Err(CudaError::SliceOverrun { at: n * k, len: w.len() });
        }
        let b: usize = match bias {
            Some(b) => b.len(),
            None => n,
        };
        let short: usize = lesser(lesser(h.len(), weight.len()), lesser(shift.len(), b));
        if short < n {
            return Err(CudaError::SliceOverrun { at: n, len: short });
        }
        let ctr: Arg = self.norm_counter(scratch);
        let x = self.uninit(n);
        self.launch(
            Kernel::GemvLn,
            vec![
                Arg::ptr(a),
                Arg::ptr(w),
                Arg::ptr_or_null(bias),
                Arg::num(k),
                Arg::num(n),
                Arg::ptr(h),
                Arg::ptr(weight),
                Arg::ptr(shift),
                Arg::Float(eps),
                Arg::ptr(&x),
                ctr,
            ],
            matvec(n, 1, 1),
        );
        proof {
            a_row_is_projected_and_layer_normed(
                gemv_then_ln(a, w, bias, k, n, h, weight, shift, eps, max_n),
                *old(scratch),
                old(self)@.len() as int,
            );
        }
        Ok(x)
    }
}

proof fn lemma_key_steps(n: int, head_dim: int, cap: int, pos: int)
    requires
        n >= 1,
        head_dim >= 1,
        n % head_dim == 0,
        0 <= pos < cap,
    ensures
        n / head_dim >= 1,
        (n / head_dim - 1) * cap >= 0,
        ((n / head_dim - 1) * cap + pos) * head_dim >= 0,
{
    vstd::arithmetic::div_mod::lemma_fundamental_div_mod(n, head_dim);
    let h = n / head_dim;
    assert(h >= 1) by (nonlinear_arith)
        requires
            n >= 1,
            n == head_dim * h,
            head_dim >= 1,
    ;
    assert((h - 1) * cap >= 0) by (nonlinear_arith)
        requires
            h >= 1,
            cap >= 0,
    ;
    assert(((h - 1) * cap + pos) * head_dim >= 0) by (nonlinear_arith)
        requires
            (h - 1) * cap + pos >= 0,
            head_dim >= 0,
    ;
}

/// A mat-vec fused with a root-mean-square normalisation, as it was asked for.
pub struct GemvNorm<'a> {
    pub w: Operand<'a>,
    pub a: Q8,
    pub k: int,
    pub n: int,
    pub h: CudaSlice<Fp32>,
    pub weight: CudaSlice<Fp32>,
    pub eps: FloatBits,
}

/// The fused mat-vec that these arguments ask for.
#[verifier::inline]
pub open spec fn gemv_then_norm<'a>(
    w: Operand<'a>,
    a: &Q8,
    k: usize,
    n: usize,
    h: &CudaSlice<Fp32>,
    weight: &CudaSlice<Fp32>,
    eps: FloatBits,
) -> GemvNorm<'a> {
    GemvNorm { w, a: *a, k: k as int, n: n as int, h: *h, weight: *weight, eps }
}

impl<'a> GemvNorm<'a> {
    /// Refusals that come before the weight's length is computed.
    pub open spec fn shape_refusal(self) -> Option<CudaError> {
        match self.w {
            Operand::Q { data: _, ty } => if ty != Quant::Q4K && ty != Quant::Q6K {
                Some(CudaError::NormFusion { what: "a block format other than Q4_K or Q6_K" })
            } else if self.k % 256 != 0 {
                Some(CudaError::RaggedBlock { k: self.k as usize, block: 256 })
            } else if self.n % 32 != 0 {
                Some(CudaError::RaggedBlock { k: self.n as usize, block: 32 })
            } else if self.a.rows != 1 || self.a.k != self.k {
                Some(CudaError::NormFusion { what: "an activation twin that is not one row of k" })
            } else {
                None
            },
            _ => Some(CudaError::NormFusion { what: "an unpacked weight" }),
        }
    }

    /// The weight's format.
    pub open spec fn ty(self) -> Quant {
        self.w.spec_quant()->0
    }

    /// Bytes of the weight: `n` rows of whole blocks.
    pub open spec fn need(self) -> int {
        self.n * (self.k / 256) * self.ty().spec_device_stride()
    }

    /// Why the mat-vec is refused, if it is.
    pub open spec fn refusal(self) -> Option<CudaError> {
        if self.shape_refusal() is Some {
            self.shape_refusal()
        } else if self.w.spec_len() < self.need() {
            Some(
                CudaError::SliceOverrun {
                    at: self.need() as usize,
                    len: self.w.spec_len() as usize,
                },
            )
        } else if self.h.len < self.n || self.weight.len < self.n {
            Some(
                CudaError::SliceOverrun {
                    at: self.n as usize,
                    len: min(self.h.len as int, self.weight.len as int) as usize,
                },
            )
        } else {
            None
        }
    }

    /// Blocks of eight columns.
    pub open spec fn blocks(self) -> int {
        ceil_div(self.n, GEMV_WARPS as int)
    }

    /// Growing the scratch.
    pub open spec fn scratch_cmds(self, s: NormScratch) -> Seq<Cmd> {
        s.ctr_cmds() + s.part_cmds(self.blocks())
    }

    /// The row it makes, with the queue at `at` before it.
    pub open spec fn row(self, s: NormScratch, at: int) -> CudaSlice<Fp32> {
        made(at + self.scratch_cmds(s).len(), self.n)
    }

    /// The row's twin.
    pub open spec fn twin(self, s: NormScratch, at: int) -> Q8 {
        Q8 {
            buf: made(at + self.scratch_cmds(s).len() + 1, q8_bytes(1, self.n)),
            rows: 1,
            k: self.n as usize,
        }
    }

    /// The launch: a warp a column, eight of them a block.
    pub open spec fn norm_launch(self, s: NormScratch, at: int) -> Cmd {
        let t = s.grown(at, self.blocks());
        launch(
            Kernel::GemvNorm,
            seq![
                operand_arg(self.w, 0),
                Arg::I32(self.ty().spec_id()),
                num(self.ty().spec_device_stride()),
                ptr(self.a.buf),
                num(self.a.rows * self.a.k),
                num(self.k),
                num(self.n),
                ptr(self.h),
                ptr(self.weight),
                Arg::Float(self.eps),
                ptr(self.row(s, at)),
                ptr(self.twin(s, at).buf),
                num(self.n),
                ptr(t.part->0),
                ptr(t.ctr->0),
            ],
            matvec_cfg(self.n, 1, 1),
        )
    }

    /// Everything the mat-vec queues: nothing where it is refused.
    pub open spec fn commands(self, s: NormScratch, at: int) -> Seq<Cmd> {
        if self.refusal() is Some {
            Seq::empty()
        } else {
            self.scratch_cmds(s) + seq![
                uninit(Elem::F32, self.n),
                uninit(Elem::I8, q8_bytes(1, self.n)),
                self.norm_launch(s, at),
            ]
        }
    }

    /// The sizes that are computed are numbers of this machine.
    pub open spec fn fits(self) -> bool {
        &&& self.a.wf()
        &&& self.shape_refusal() is None ==> {
            &&& self.n * (self.k / 256) <= usize::MAX
            &&& self.need() <= usize::MAX
        }
        &&& self.refusal() is None ==> q8_fits(1, self.n)
    }
}

/// Three projections of one row, as they were asked for.
pub struct Qkv<'a> {
    pub a: CudaSlice<Fp32>,
    pub w: CudaSlice<u16>,
    pub bias: Seq<Option<&'a CudaSlice<Fp32>>>,
    pub k: int,
    pub d: int,
    pub head_dim: int,
    pub cap: int,
    pub pos: int,
    pub q: CudaSlice<Fp32>,
    pub kc: CudaSlice<Fp32>,
    pub vc: CudaSlice<Fp32>,
}

/// The projections that these arguments ask for.
#[verifier::inline]
pub open spec fn qkv<'a>(
    a: &CudaSlice<Fp32>,
    w: &CudaSlice<u16>,
    bias: [Option<&'a CudaSlice<Fp32>>; 3],
    k: usize,
    d: usize,
    head_dim: usize,
    cap: usize,
    pos: usize,
    q: &CudaSlice<Fp32>,
    kc: &CudaSlice<Fp32>,
    vc: &CudaSlice<Fp32>,
) -> Qkv<'a> {
    Qkv {
        a: *a,
        w: *w,
        bias: bias@,
        k: k as int,
        d: d as int,
        head_dim: head_dim as int,
        cap: cap as int,
        pos: pos as int,
        q: *q,
        kc: *kc,
        vc: *vc,
    }
}

/// Whether a bias is there and too short.
pub open spec fn short_bias(bias: Option<&CudaSlice<Fp32>>, d: int) -> bool {
    match bias {
        Some(b) => b.len < d,
        None => false,
    }
}

impl<'a> Qkv<'a> {
    /// Refusals that come before a length is computed.
    pub open spec fn shape_refusal(self) -> Option<CudaError> {
        if self.k % 2 != 0 {
            Some(CudaError::RaggedContraction { k: self.k as usize })
        } else if self.head_dim == 0 || self.d % self.head_dim != 0 {
            Some(CudaError::RaggedBlock { k: self.d as usize, block: self.head_dim as usize })
        } else if self.pos >= self.cap {
            Some(CudaError::CacheOverrun { at: (self.pos + 1) as usize, cap: self.cap as usize })
        } else if self.a.len < self.k {
            Some(CudaError::SliceOverrun { at: self.k as usize, len: self.a.len })
        } else {
            None
        }
    }

    /// Why the projections are refused, if they are.
    pub open spec fn refusal(self) -> Option<CudaError> {
        if self.shape_refusal() is Some {
            self.shape_refusal()
        } else if self.w.len < 3 * self.d * self.k {
            Some(CudaError::SliceOverrun { at: (3 * self.d * self.k) as usize, len: self.w.len })
        } else if self.q.len < self.d {
            Some(CudaError::SliceOverrun { at: self.d as usize, len: self.q.len })
        } else if self.kc.len < self.d * self.cap || self.vc.len < self.d * self.cap {
            Some(
                CudaError::SliceOverrun {
                    at: (self.d * self.cap) as usize,
                    len: min(self.kc.len as int, self.vc.len as int) as usize,
                },
            )
        } else if short_bias(self.bias[0], self.d) {
            Some(CudaError::SliceOverrun { at: self.d as usize, len: self.bias[0]->0.len })
        } else if short_bias(self.bias[1], self.d) {
            Some(CudaError::SliceOverrun { at: self.d as usize, len: self.bias[1]->0.len })
        } else if short_bias(self.bias[2], self.d) {
            Some(CudaError::SliceOverrun { at: self.d as usize, len: self.bias[2]->0.len })
        } else {
            None
        }
    }

    /// The launch: a warp a column of the three projections together.
    pub open spec fn qkv_launch(self) -> Cmd {
        launch(
            Kernel::GemvQkvF16,
            seq![
                ptr(self.a),
                ptr(self.w),
                ptr_or_null(self.bias[0]),
                ptr_or_null(self.bias[1]),
                ptr_or_null(self.bias[2]),
                num(self.k),
                num(self.d),
                num(self.head_dim),
                num(self.cap),
                num(self.pos),
                ptr(self.q),
                ptr(self.kc),
                ptr(self.vc),
            ],
            matvec_cfg(3 * self.d, 1, 1),
        )
    }

    /// The sizes that are computed are numbers of this machine.
    pub open spec fn fits(self) -> bool {
        &&& self.pos >= self.cap ==> self.pos + 1 <= usize::MAX
        &&& self.shape_refusal() is None ==> {
            &&& 3 * self.d <= usize::MAX
            &&& 3 * self.d * self.k <= usize::MAX
            &&& self.w.len >= 3 * self.d * self.k && self.q.len >= self.d ==> self.d * self.cap
                <= usize::MAX
        }
    }
}

/// The buffer that a column of the fused projections goes to.
pub enum Projected {
    /// The query row.
    Query,
    /// The key cache.
    Key,
    /// The value cache.
    Value,
}

impl<'a> Qkv<'a> {
    /// Where the kernel stores a column of the three projections together: the
    /// first `d` in the query row, the next at `pos` of each head of the key
    /// cache, the last at `pos` of each row of the transposed value cache.
    pub open spec fn column_place(self, col: int) -> (Projected, int) {
        if col < self.d {
            (Projected::Query, col)
        } else if col < 2 * self.d {
            let c = col - self.d;
            (
                Projected::Key,
                (c / self.head_dim * self.cap + self.pos) * self.head_dim + c % self.head_dim,
            )
        } else {
            (Projected::Value, (col - 2 * self.d) * self.cap + self.pos)
        }
    }

    /// What the fused projections leave in one of the three buffers: the columns
    /// that go there, and everything else as it was.
    pub open spec fn stored<T>(
        self,
        to: Projected,
        row: Seq<T>,
        before: Seq<T>,
        after: Seq<T>,
    ) -> bool {
        &&& after.len() == before.len()
        &&& forall|c: int|
            0 <= c < row.len() && (#[trigger] self.column_place(c)).0 == to
                ==> after[self.column_place(c).1] == row[c]
        &&& forall|x: int|
            0 <= x < before.len() && (forall|c: int|
                0 <= c < row.len() && (#[trigger] self.column_place(c)).0 == to
                    ==> self.column_place(c).1 != x) ==> #[trigger] after[x] == before[x]
    }

    /// One of the three projections on its own, over the `[d, k]` weight that is
    /// its rows.
    pub open spec fn alone(
        self,
        w: &'a CudaSlice<u16>,
        which: int,
        layout: OutLayout,
        out: CudaSlice<Fp32>,
    ) -> PlacedGemv<'a> {
        PlacedGemv {
            x: self.a,
            w: Operand::F16(w),
            bias: self.bias[which],
            k: self.k,
            n: self.d,
            gelu: false,
            layout,
            out,
        }
    }
}

/// The fused projections leave what three placed mat-vecs would: the queries as a
/// row, the keys and the values at the places of their layouts, and nothing else
/// of the three buffers changed.
pub proof fn fused_projections_are_three_placed_rows<T>(
    p: Qkv<'_>,
    head_dim: usize,
    cap: usize,
    pos: usize,
    row: Seq<T>,
    before: (Seq<T>, Seq<T>, Seq<T>),
    after: (Seq<T>, Seq<T>, Seq<T>),
)
    requires
        p.refusal() is None,
        0 <= p.d,
        p.head_dim == head_dim,
        p.cap == cap,
        p.pos == pos,
        row.len() == 3 * p.d,
        p.stored(Projected::Query, row, before.0, after.0),
        p.stored(Projected::Key, row, before.1, after.1),
        p.stored(Projected::Value, row, before.2, after.2),
    ensures
        row_placed(OutLayout::Row, row.subrange(0, p.d), before.0, after.0),
        row_placed(
            (OutLayout::KeyCache { head_dim, cap, pos }),
            row.subrange(p.d, 2 * p.d),
            before.1,
            after.1,
        ),
        row_placed(
            (OutLayout::ValueCache { cap, pos }),
            row.subrange(2 * p.d, 3 * p.d),
            before.2,
            after.2,
        ),
{
    let d = p.d;
    let q = OutLayout::Row;
    let k = OutLayout::KeyCache { head_dim, cap, pos };
    let v = OutLayout::ValueCache { cap, pos };
    lemma_part_lands(p, Projected::Query, q, 0, row, before.0, after.0);
    lemma_part_lands(p, Projected::Key, k, d, row, before.1, after.1);
    lemma_part_lands(p, Projected::Value, v, 2 * d, row, before.2, after.2);
}

proof fn lemma_part_lands<T>(
    p: Qkv<'_>,
    to: Projected,
    layout: OutLayout,
    first: int,
    row: Seq<T>,
    before: Seq<T>,
    after: Seq<T>,
)
    requires
        0 <= p.d,
        0 <= first,
        first + p.d <= row.len(),
        p.stored(to, row, before, after),
        forall|c: int|
            0 <= c < row.len() ==> ((#[trigger] p.column_place(c)).0 == to <==> first <= c < first
                + p.d),
        forall|c: int|
            first <= c < first + p.d ==> (#[trigger] p.column_place(c)).1 == layout.position(
                c - first,
            ),
    ensures
        row_placed(layout, row.subrange(first, first + p.d), before, after),
{
    let part = row.subrange(first, first + p.d);
    assert forall|c: int| 0 <= c < part.len() implies after[#[trigger] layout.position(c)]
        == part[c] by {
        assert(p.column_place(first + c).0 == to);
    }
    assert forall|x: int|
        0 <= x < before.len() && (forall|c: int|
            0 <= c < part.len() ==> #[trigger] layout.position(c) != x) implies #[trigger] after[x]
        == before[x] by {
        assert forall|c: int|
            0 <= c < row.len() && (#[trigger] p.column_place(c)).0 == to implies p.column_place(
            c,
        ).1 != x by {
            assert(layout.position(c - first) != x);
        }
    }
}

/// Fused projections that are not refused are three placed mat-vecs that are not
/// refused either, each over its own `d` rows of the weight.
pub proof fn accepted_projections_are_accepted_alone<'a>(
    p: Qkv<'a>,
    w: &'a CudaSlice<u16>,
    head_dim: usize,
    cap: usize,
    pos: usize,
)
    requires
        p.refusal() is None,
        p.d >= 1,
        p.head_dim == head_dim,
        p.cap == cap,
        p.pos == pos,
        w.len >= p.d * p.k,
    ensures
        p.alone(w, 0, OutLayout::Row, p.q).refusal() is None,
        p.alone(w, 1, (OutLayout::KeyCache { head_dim, cap, pos }), p.kc).refusal() is None,
        p.alone(w, 2, (OutLayout::ValueCache { cap, pos }), p.vc).refusal() is None,
{
    projected_rows_fit_the_caches(p, head_dim, cap, pos);
}

/// Projections that are not refused keep their keys and values inside the
/// caches, at the places [`OutLayout`] names for the same position.
pub proof fn projected_rows_fit_the_caches(p: Qkv<'_>, head_dim: usize, cap: usize, pos: usize)
    requires
        p.refusal() is None,
        p.d >= 1,
        p.head_dim == head_dim,
        p.cap == cap,
        p.pos == pos,
    ensures
        (OutLayout::KeyCache { head_dim, cap, pos }).last(p.d) < p.kc.len,
        (OutLayout::ValueCache { cap, pos }).last(p.d) < p.vc.len,
        p.d <= p.q.len,
{
    let (hd, c, s) = (p.head_dim, p.cap, p.pos);
    let heads = p.d / hd;
    vstd::arithmetic::div_mod::lemma_fundamental_div_mod(p.d, hd);
    assert(((heads - 1) * c + s) * hd + hd - 1 < p.d * c) by (nonlinear_arith)
        requires
            p.d == hd * heads,
            0 <= s < c,
            hd > 0,
    ;
    assert((p.d - 1) * c + s < p.d * c) by (nonlinear_arith)
        requires
            0 <= s < c,
    ;
}

impl Gpu {
    /// The three attention projections of one row in one launch, each placed
    /// where the attention reads it: the queries into `q`, the keys into `kc`
    /// at `pos` of a head-major cache laid out for `cap` positions, the values
    /// into `vc` at `pos` of the transposed one. `w` is the three `[d, k]`
    /// weights stacked into `[3 d, k]` and `bias` their three biases, each
    /// optional.
    pub fn gemv_qkv_f16(
        &mut self,
        a: &CudaSlice<Fp32>,
        w: &CudaSlice<u16>,
        bias: [Option<&CudaSlice<Fp32>>; 3],
        k: usize,
        d: usize,
        head_dim: usize,
        cap: usize,
        pos: usize,
        q: &CudaSlice<Fp32>,
        kc: &CudaSlice<Fp32>,
        vc: &CudaSlice<Fp32>,
    ) -> (r: Result<(), CudaError>)
        requires
            qkv(a, w, bias, k, d, head_dim, cap, pos, q, kc, vc).fits(),
        ensures
            match qkv(a, w, bias, k, d, head_dim, cap, pos, q, kc, vc).refusal() {
                Some(e) => r == Err::<(), CudaError>(e) && final(self)@ == old(self)@,
                None => r == Ok::<(), CudaError>(()) && final(self)@ == old(self)@.push(
                    qkv(a, w, bias, k, d, head_dim, cap, pos, q, kc, vc).qkv_launch(),
                ),
            },
            ({
                let asked = Qkv {
                    a: *a,
                    w: *w,
                    bias: bias@,
                    k: k as int,
                    d: d as int,
                    head_dim: head_dim as int,
                    cap: cap as int,
                    pos: pos as int,
                    q: *q,
                    kc: *kc,
                    vc: *vc,
                };
                r is Ok
                    && int_fits(k as int) && int_fits(3 * d) && int_fits(head_dim as int)
                    && int_fits(cap as int)
                    ==> projects_three(final(self)@.last(), asked)
            }),
    {
        if k % 2 != 0 {
            return Err(CudaError::RaggedContraction { k });
        }
        if head_dim == 0 || d % head_dim != 0 {
            return Err(CudaError::RaggedBlock { k: d, block: head_dim });
        }
        if pos >= cap {
            return Err(CudaError::CacheOverrun { at: pos + 1, cap });
        }
        if a.len() < k {
            return Err(CudaError::SliceOverrun { at: k, len: a.len() });
        }
        if w.len() < 3 * d * k {
            return Err(CudaError::SliceOverrun { at: 3 * d * k, len: w.len() });
        }
        if q.len() < d {
            return Err(CudaError::SliceOverrun { at: d, len: q.len() });
        }
        if kc.len() < d * cap || vc.len() < d * cap {
            return Err(
                CudaError::SliceOverrun { at: d * cap, len: lesser(kc.len(), vc.len()) },
            );
        }
        let mut i: usize = 0;
        while i < 3
            invariant
                i <= 3,
                forall|j: int| 0 <= j < i ==> !short_bias(bias@[j], d as int),
                qkv(a, w, bias, k, d, head_dim, cap, pos, q, kc, vc).shape_refusal() is None,
                w.len >= 3 * d * k,
                q.len >= d,
                kc.len >= d * cap,
                vc.len >= d * cap,
                self@ == old(self)@,
            decreases 3 - i,
        {
            if let Some(b) = bias[i] {
                if b.len() < d {
                    assert(short_bias(bias@[i as int], d as int));
                    return Err(CudaError::SliceOverrun { at: d, len: b.len() });
                }
            }
            i = i + 1;
        }
        self.launch(
            Kernel::GemvQkvF16,
            vec![
                Arg::ptr(a),
                Arg::ptr(w),
                Arg::ptr_or_null(bias[0]),
                Arg::ptr_or_null(bias[1]),
                Arg::ptr_or_null(bias[2]),
                Arg::num(k),
                Arg::num(d),
                Arg::num(head_dim),
                Arg::num(cap),
                Arg::num(pos),
                Arg::ptr(q),
                Arg::ptr(kc),
                Arg::ptr(vc),
            ],
            matvec(3 * d, 1, 1),
        );
        proof {
            if int_fits(k as int)
                && int_fits(3 * d) && int_fits(head_dim as int) && int_fits(cap as int) {
                three_rows_go_to_their_places(qkv(a, w, bias, k, d, head_dim, cap, pos, q, kc, vc));
            }
        }
        Ok(())
    }

    /// A single-row packed mat-vec whose tail is the residual add and the
    /// next normalisation: `h += w * a`, then `x = rms_norm(h) * weight` and
    /// its int8 twin, in one launch.
    ///
    /// Only a K-quant weight (`Q4_K` or `Q6_K`), the activation already
    /// quantized as one row of `k`, `k` a multiple of 256 and `n` of 32.
    /// Anything else is refused rather than routed to the chain, so a caller
    /// that asked for the fusion and did not get it hears about it.
    pub fn gemv_norm(
        &mut self,
        w: Operand<'_>,
        a: &Q8,
        k: usize,
        n: usize,
        h: &CudaSlice<Fp32>,
        weight: &CudaSlice<Fp32>,
        eps: FloatBits,
        scratch: &mut NormScratch,
    ) -> (r: Result<(CudaSlice<Fp32>, Q8), CudaError>)
        requires
            gemv_then_norm(w, a, k, n, h, weight, eps).fits(),
        ensures
            ({
                let g = gemv_then_norm(w, a, k, n, h, weight, eps);
                let at = old(self)@.len() as int;
                let s = *old(scratch);
                &&& match g.refusal() {
                    Some(e) => r == Err::<(CudaSlice<Fp32>, Q8), CudaError>(e) && *final(scratch)
                        == s,
                    None => r == Ok::<(CudaSlice<Fp32>, Q8), CudaError>(
                        (g.row(s, at), g.twin(s, at)),
                    ) && *final(scratch) == s.grown(at, g.blocks()) && g.twin(s, at).wf(),
                }
                &&& final(self)@ == old(self)@ + g.commands(s, at)
            }),
            ({
                let asked = GemvNorm {
                    w,
                    a: *a,
                    k: k as int,
                    n: n as int,
                    h: *h,
                    weight: *weight,
                    eps,
                };
                r is Ok && int_fits(k as int) && 0 < n <= i32::MAX
                    ==> projects_and_rms_norms(final(self)@.last(), asked, r->Ok_0.0, r->Ok_0.1)
            }),
            r is Ok
                ==> made_in(final(self)@, r->Ok_0.0, Elem::F32, n as int)
                    && r->Ok_0.1.rows == 1 && r->Ok_0.1.k == n
                    && made_in(final(self)@, r->Ok_0.1.buf, Elem::I8, n + n / 32 * 4),
            r is Ok
                ==> final(scratch).part is Some
                    && final(scratch).ctr is Some
                    && arg_at(final(self)@.last(), 13, 0) == at(final(scratch).part->0, 0)
                    && arg_at(final(self)@.last(), 14, 0) == at(final(scratch).ctr->0, 0),
    {
        let ghost g = gemv_then_norm(w, a, k, n, h, weight, eps);
        let ghost at = self@.len() as int;
        let ghost s = *scratch;
        let (data, ty): (&CudaSlice<u8>, Quant) = match w {
            Operand::Q { data, ty } => (data, ty),
            _ => return Err(CudaError::NormFusion { what: "an unpacked weight" }),
        };
        if ty != Quant::Q4K && ty != Quant::Q6K {
            return Err(CudaError::NormFusion { what: "a block format other than Q4_K or Q6_K" });
        }
        if k % 256 != 0 {
            return Err(CudaError::RaggedBlock { k, block: 256 });
        }
        if n % 32 != 0 {
            return Err(CudaError::RaggedBlock { k: n, block: 32 });
        }
        let (rows, ak): (usize, usize) = a.shape();
        if rows != 1 || ak != k {
            return Err(
                CudaError::NormFusion { what: "an activation twin that is not one row of k" },
            );
        }
        let nb: usize = k / 256;
        let need: usize = n * nb * ty.device_stride();
        if data.len() < need {
            return Err(CudaError::SliceOverrun { at: need, len: data.len() });
        }
        if h.len() < n || weight.len() < n {
            return Err(CudaError::SliceOverrun { at: n, len: lesser(h.len(), weight.len()) });
        }
        let blocks: usize = div_ceil(n, GEMV_WARPS as usize);
        let ctr: Arg = self.norm_counter(scratch);
        if scratch.blocks < blocks || scratch.part.is_none() {
            scratch.part = Some(self.uninit(blocks));
            scratch.blocks = blocks;
        }
        assert(*scratch == s.grown(at, g.blocks()));
        assert(self@ == old(self)@ + g.scratch_cmds(s));
        assert(scratch.part is Some);
        let part: Arg = Arg::ptr_or_null(scratch.part.as_ref());
        let x = self.uninit(n);
        let xq = Q8 { buf: self.uninit_i8(n + (n / 32) * 4), rows: 1, k: n };
        assert(xq == g.twin(s, at));
        self.launch(
            Kernel::GemvNorm,
            vec![
                Arg::ptr(data),
                Arg::I32(ty.id()),
                Arg::num(ty.device_stride()),
                Arg::ptr(&a.buf),
                Arg::num(a.scale_offset()),
                Arg::num(k),
                Arg::num(n),
                Arg::ptr(h),
                Arg::ptr(weight),
                Arg::Float(eps),
                Arg::ptr(&x),
                Arg::ptr(&xq.buf),
                Arg::num(xq.scale_offset()),
                part,
                ctr,
            ],
            matvec(n, 1, 1),
        );
        assert(self@.last() == g.norm_launch(s, at));
        proof {
            if int_fits(k as int) && 0 < n <= i32::MAX {
                a_row_is_projected_and_rms_normed(g, s, at);
            }
        }
        Ok((x, xq))
    }
}

/// The widest row that is normalised is what the threads of one block of the launch hold, four
/// elements to each of the `gn_nl` groups of a thread.
pub proof fn a_block_holds_the_widest_row(gn_nl: int, n: int)
    ensures
        ({
            let block = matvec_cfg(n, 1, 1).block_dim;
            ln_max_n(gn_nl) == block.0 * block.1 * block.2 * (4 * gn_nl)
        }),
{
    let block = matvec_cfg(n, 1, 1).block_dim;
    assert(block.0 * block.1 * block.2 == 256);
}

} // verus!
