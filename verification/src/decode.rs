//! Decode attention: one query row against a cache.

use crate::arith::{ceil_div, ceil_div_covers, div_ceil, lesser, product_fits, sum_fits};
use crate::buffer::{CudaSlice, Elem, FloatBits, Fp32};
use crate::device::attending::{
    decode_ints_fit, decode_width, decodes, every_head_decodes_against_its_keys_and_values,
    reads_keys_then_values, the_chosen_kernel_is_of_its_width,
};
use crate::error::CudaError;
use crate::kernels::{AD_CH, AD_GMAX};
use crate::launch::LaunchConfig;
use crate::names::Kernel;
use crate::operand::{q8_bytes, q8_fits, twin_fits, Q8};
use crate::queue::{flag, launch, long, made, made_in, num, ptr, uninit, Arg, Cmd, Gpu};
use crate::scratch::{growing_doubles, growing_makes_room, DecodeScratch};
use vstd::math::{max, min};
use crate::device::{arg_at, at};
use vstd::prelude::*;

verus! {

/// Which cache the fused decode attention reads: keys, then values.
#[derive(Debug, Clone, Copy)]
pub enum KvCache<'a> {
    /// At full precision.
    F32(&'a CudaSlice<Fp32>, &'a CudaSlice<Fp32>),
    /// Rounded.
    F16(&'a CudaSlice<u16>, &'a CudaSlice<u16>),
}

impl<'a> KvCache<'a> {
    /// Bytes an element.
    pub open spec fn elem_bytes(self) -> int {
        match self {
            KvCache::F32(_, _) => 4,
            KvCache::F16(_, _) => 2,
        }
    }

    /// Elements the keys and the values have room for.
    pub open spec fn lens(self) -> (int, int) {
        match self {
            KvCache::F32(k, v) => (k.len as int, v.len as int),
            KvCache::F16(k, v) => (k.len as int, v.len as int),
        }
    }

    /// The keys and the values, as arguments.
    pub open spec fn args(self) -> (Arg, Arg) {
        match self {
            KvCache::F32(k, v) => (ptr(*k), ptr(*v)),
            KvCache::F16(k, v) => (ptr(*k), ptr(*v)),
        }
    }
}

/// How many query rows a key-value head carries in a decode kernel: the group
/// its entry was instantiated with.
pub open spec fn gmax_of(kernel: Kernel) -> int {
    match kernel {
        Kernel::AttnDecodeH64G8 | Kernel::AttnDecodeH64G8C32 => 8,
        _ => AD_GMAX as int,
    }
}

/// Keys a block of a decode kernel covers.
pub open spec fn chunk_of(kernel: Kernel) -> int {
    match kernel {
        Kernel::AttnDecodeH128C32 | Kernel::AttnDecodeH64G8C32 => 32,
        Kernel::AttnDecodeH128C128 => 128,
        _ => AD_CH as int,
    }
}

/// The f16 decode kernel for a shape, by head width and context, or why there
/// is none.
pub open spec fn decode_kernel(
    heads: usize,
    kv_heads: usize,
    head_dim: usize,
    tk: usize,
    cap: usize,
) -> Result<Kernel, CudaError> {
    let wide_group = heads as int / max(1, kv_heads as int) > AD_GMAX;
    if cap % 2 != 0 {
        Err(CudaError::OddCacheCapacity { cap })
    } else if head_dim == 128 {
        if tk <= 256 || heads == kv_heads {
            Ok(Kernel::AttnDecodeH128C32)
        } else if tk >= 2048 {
            Ok(Kernel::AttnDecodeH128C128)
        } else {
            Ok(Kernel::AttnDecodeH128)
        }
    } else if head_dim == 64 {
        if wide_group && tk <= 1024 {
            Ok(Kernel::AttnDecodeH64G8C32)
        } else if wide_group {
            Ok(Kernel::AttnDecodeH64G8)
        } else {
            Ok(Kernel::AttnDecodeH64)
        }
    } else {
        Err(CudaError::UnsupportedAttention { head_dim, heads, kv_heads })
    }
}

fn ad_gmax(kernel: Kernel) -> (g: usize)
    ensures
        g == gmax_of(kernel),
{
    match kernel {
        Kernel::AttnDecodeH64G8 | Kernel::AttnDecodeH64G8C32 => 8,
        _ => AD_GMAX as usize,
    }
}

fn ad_chunk(kernel: Kernel) -> (ch: usize)
    ensures
        ch == chunk_of(kernel),
{
    match kernel {
        Kernel::AttnDecodeH128C32 | Kernel::AttnDecodeH64G8C32 => 32,
        Kernel::AttnDecodeH128C128 => 128,
        _ => AD_CH as usize,
    }
}

/// A decode attention as it was asked for: the query from `q_off`, the context
/// to `out_off` of `out`, and its twin to the same row of `twin` when there is
/// one.
pub struct Decode<'a> {
    pub kernel: Kernel,
    pub q: CudaSlice<Fp32>,
    pub q_off: int,
    pub kv: KvCache<'a>,
    pub heads: int,
    pub kv_heads: int,
    pub head_dim: int,
    pub tk: int,
    pub cap: int,
    pub scale: FloatBits,
    pub scale_q: bool,
    pub out: CudaSlice<Fp32>,
    pub out_off: int,
    pub twin: Option<Q8>,
}

impl<'a> Decode<'a> {
    /// Elements of a row: every head's.
    pub open spec fn row(self) -> int {
        self.heads * self.head_dim
    }

    /// Elements each cache has to have.
    pub open spec fn need(self) -> int {
        self.kv_heads * self.cap * self.head_dim
    }

    /// A group the kernel does not carry.
    pub open spec fn bad_group(self) -> bool {
        self.kv_heads == 0 || self.heads % self.kv_heads != 0 || self.heads / self.kv_heads
            > gmax_of(self.kernel)
    }

    /// More positions than the cache has, or none.
    pub open spec fn bad_context(self) -> bool {
        self.tk == 0 || self.tk > self.cap
    }

    /// Value rows that do not stay on eight bytes.
    pub open spec fn bad_capacity(self) -> bool {
        self.cap * self.kv.elem_bytes() % 8 != 0
    }

    /// A cache that is too short.
    pub open spec fn short_cache(self) -> bool {
        self.kv.lens().0 < self.need() || self.kv.lens().1 < self.need()
    }

    /// A twin of another shape, or without this row.
    pub open spec fn bad_twin(self) -> bool {
        match self.twin {
            Some(t) => t.k != self.row() || t.rows * t.k < self.out_off + self.row(),
            None => false,
        }
    }

    /// Why the attention is refused, if it is.
    pub open spec fn refusal(self) -> Option<CudaError> {
        if self.bad_group() {
            Some(
                CudaError::UnsupportedAttention {
                    head_dim: self.head_dim as usize,
                    heads: self.heads as usize,
                    kv_heads: self.kv_heads as usize,
                },
            )
        } else if self.bad_context() {
            Some(CudaError::CacheOverrun { at: self.tk as usize, cap: self.cap as usize })
        } else if self.bad_capacity() {
            Some(CudaError::OddCacheCapacity { cap: self.cap as usize })
        } else if self.short_cache() {
            Some(
                CudaError::SliceOverrun {
                    at: self.need() as usize,
                    len: min(self.kv.lens().0, self.kv.lens().1) as usize,
                },
            )
        } else if self.q.len < self.q_off + self.row() {
            Some(
                CudaError::SliceOverrun {
                    at: (self.q_off + self.row()) as usize,
                    len: self.q.len,
                },
            )
        } else if self.out.len < self.out_off + self.row() {
            Some(
                CudaError::SliceOverrun {
                    at: (self.out_off + self.row()) as usize,
                    len: self.out.len,
                },
            )
        } else if self.out_off % 32 != 0 {
            Some(CudaError::RaggedBlock { k: self.out_off as usize, block: 32 })
        } else if self.bad_twin() {
            Some(
                CudaError::MismatchedQ8 {
                    rows: self.twin->0.rows,
                    k: self.twin->0.k,
                    want_rows: (self.out_off / self.row() + 1) as usize,
                    want_k: self.row() as usize,
                },
            )
        } else {
            None
        }
    }

    /// Blocks along the context.
    pub open spec fn chunks(self) -> int {
        ceil_div(self.tk, chunk_of(self.kernel))
    }

    /// Floats of one partial: a context, a maximum and a sum a query row.
    pub open spec fn stride(self) -> int {
        gmax_of(self.kernel) * (self.head_dim + 2)
    }

    /// The scratch once it has grown to this shape.
    pub open spec fn scratch(self, s: DecodeScratch, at: int) -> DecodeScratch {
        s.grown(
            at,
            self.kv_heads as usize,
            self.head_dim as usize,
            self.chunks(),
            self.stride(),
        )
    }

    /// The launch: a block a chunk and key-value head, a thread a head element.
    pub open spec fn decode_launch(self, s: DecodeScratch) -> Cmd {
        launch(
            self.kernel,
            seq![
                ptr(self.q),
                self.kv.args().0,
                self.kv.args().1,
                ptr(self.out),
                ptr(s.part->0),
                ptr(s.ctr->0),
                num(self.tk),
                num(self.heads / self.kv_heads),
                num(self.cap),
                Arg::Float(self.scale),
                flag(self.scale_q),
                num(self.chunks()),
                match self.twin {
                    Some(t) => ptr(t.buf),
                    None => Arg::Null,
                },
                match self.twin {
                    Some(t) => num(t.rows * t.k),
                    None => num(0),
                },
                long(self.q_off),
                long(self.out_off),
            ],
            LaunchConfig {
                grid_dim: (self.chunks() as u32, self.kv_heads as u32, 1),
                block_dim: (self.head_dim as u32, 1, 1),
                shared_mem_bytes: 0,
            },
        )
    }

    /// Everything the attention queues: nothing where it is refused.
    pub open spec fn commands(self, s: DecodeScratch, at: int) -> Seq<Cmd> {
        if self.refusal() is Some {
            Seq::empty()
        } else {
            s.grow_cmds(
                self.kv_heads as usize,
                self.head_dim as usize,
                self.chunks(),
                self.stride(),
            ) + seq![self.decode_launch(self.scratch(s, at))]
        }
    }

    /// The scratch afterwards: unchanged where the attention is refused.
    pub open spec fn scratch_after(self, s: DecodeScratch, at: int) -> DecodeScratch {
        if self.refusal() is Some {
            s
        } else {
            self.scratch(s, at)
        }
    }

    /// Every size that this attention gets to compute is a number of this
    /// machine, and a twin that is refused is not told apart by a row of
    /// nothing.
    pub open spec fn fits(self, s: DecodeScratch) -> bool {
        &&& self.twin is Some ==> self.twin->0.wf()
        &&& !self.bad_group() && !self.bad_context() ==> {
            &&& self.cap * self.kv.elem_bytes() <= usize::MAX
            &&& !self.bad_capacity() ==> {
                &&& self.kv_heads * self.cap <= usize::MAX
                &&& self.need() <= usize::MAX
                &&& !self.short_cache() ==> {
                    &&& self.row() <= usize::MAX
                    &&& self.q_off + self.row() <= usize::MAX
                    &&& self.q.len >= self.q_off + self.row() ==> {
                        &&& self.out_off + self.row() <= usize::MAX
                        &&& self.out.len >= self.out_off + self.row() && self.out_off % 32 == 0
                            && self.bad_twin() ==> self.row() > 0
                    }
                }
            }
        }
        &&& self.refusal() is None ==> {
            &&& self.head_dim + 2 <= usize::MAX
            &&& self.stride() <= usize::MAX
            &&& s.growth_fits(
                self.kv_heads as usize,
                self.head_dim as usize,
                self.chunks(),
                self.stride(),
            )
        }
    }
}

/// A decode attention that is not refused has a scratch for it, whatever the
/// scratch was grown for before: a counter a key-value head and a partial a chunk
/// and key-value head, each as wide as the kernel writes it. The scratch stays
/// whole, and at one geometry its chunks never shrink.
pub proof fn accepted_decode_has_its_scratch(d: Decode<'_>, s: DecodeScratch, at: int)
    requires
        d.refusal() is None,
        d.fits(s),
        0 <= d.tk,
        0 <= d.head_dim <= usize::MAX,
        0 <= d.kv_heads <= usize::MAX,
    ensures
        ({
            let g = d.scratch(s, at);
            &&& g.kv_heads == d.kv_heads && g.head_dim == d.head_dim
            &&& g.part is Some && g.ctr is Some
            &&& g.chunks >= d.chunks()
            &&& g.part->0.len >= d.kv_heads * d.chunks() * (gmax_of(d.kernel) * (d.head_dim + 2))
            &&& s.kv_heads == d.kv_heads && s.head_dim == d.head_dim ==> g.chunks >= s.chunks
            &&& s.wf() ==> g.wf() && g.ctr->0.len == d.kv_heads
        }),
{
    ceil_div_covers(d.tk, chunk_of(d.kernel));
    growing_makes_room(
        s,
        at,
        d.kv_heads as usize,
        d.head_dim as usize,
        d.chunks(),
        d.stride(),
    );
}

/// Where in the scratch a block writes: float `f` of the partial of chunk `chunk`
/// of key-value head `head`.
pub open spec fn partial_index(d: Decode<'_>, head: int, chunk: int, f: int) -> int {
    (head * d.chunks() + chunk) * d.stride() + f
}

/// A scratch as decode attentions leave it: partials of one of the two widths the
/// kernels have.
pub open spec fn decode_sized(s: DecodeScratch) -> bool {
    s.holds(AD_GMAX * (s.head_dim + 2)) || s.holds(8 * (s.head_dim + 2))
}

proof fn lemma_two_widths(d: Decode<'_>)
    requires
        0 <= d.head_dim,
    ensures
        d.stride() == 4 * (d.head_dim + 2) || d.stride() == 8 * (d.head_dim + 2),
        d.stride() >= 8,
{
    let (m, w) = (gmax_of(d.kernel), d.head_dim + 2);
    assert(m == 4 || m == 8);
    assert(m == 4 ==> m * w == 4 * w) by (nonlinear_arith);
    assert(m == 8 ==> m * w == 8 * w) by (nonlinear_arith);
}

proof fn lemma_one_width_up(w: int, before: int, after: int)
    requires
        0 < w,
        before == 4 * w || before == 8 * w,
        after == 4 * w || after == 8 * w,
        before < after,
    ensures
        after == 2 * before,
{
}

/// A decode attention leaves the scratch sized as decode attentions do, and where
/// it remakes partials at the geometry there was, the chunks at least double, or
/// the floats do: the allocations are logarithmic in the context.
pub proof fn decode_allocations_double(d: Decode<'_>, s: DecodeScratch, at: int)
    requires
        d.refusal() is None,
        d.fits(s),
        s.wf(),
        decode_sized(s),
        0 <= d.tk,
        0 <= d.head_dim <= usize::MAX,
        0 <= d.kv_heads <= usize::MAX,
    ensures
        ({
            let g = d.scratch(s, at);
            &&& decode_sized(g)
            &&& s.part is Some && s.kv_heads == d.kv_heads && s.head_dim == d.head_dim
                && g.part != s.part ==> g.chunks >= 2 * s.chunks || (g.chunks == s.chunks
                && g.part->0.len == 2 * s.part->0.len)
        }),
{
    ceil_div_covers(d.tk, chunk_of(d.kernel));
    let (h, w) = (d.kv_heads as usize, d.head_dim as usize);
    growing_makes_room(s, at, h, w, d.chunks(), d.stride());
    let f = s.fitted(h, w);
    let g = d.scratch(s, at);
    lemma_two_widths(d);
    if f.lacks(d.chunks(), d.stride()) {
        assert(g.holds(d.stride()));
        if f.part is Some {
            let (narrow, wide) = (AD_GMAX * (s.head_dim + 2), 8 * (s.head_dim + 2));
            assert(narrow == 4 * (s.head_dim + 2)) by (nonlinear_arith)
                requires
                    narrow == AD_GMAX * (s.head_dim + 2),
                    AD_GMAX == 4,
            ;
            let before = if s.holds(wide) {
                wide
            } else {
                narrow
            };
            growing_doubles(s, at, d.chunks(), before, d.stride());
            if g.chunks == s.chunks {
                assert(d.stride() > before);
                lemma_one_width_up(d.head_dim + 2, before, d.stride());
                assert(h * g.chunks * d.stride() == 2 * (h * s.chunks * before))
                    by (nonlinear_arith)
                    requires
                        g.chunks == s.chunks,
                        d.stride() == 2 * before,
                ;
            }
        }
    } else {
        assert(g.part == s.part && g.chunks == s.chunks);
    }
}

/// A decode attention that is not refused reads and writes inside its buffers:
/// every head's live positions, the query row, the context row, the twin's row,
/// and every float of every partial.
pub proof fn accepted_decode_is_in_bounds(
    d: Decode<'_>,
    s: DecodeScratch,
    at: int,
    head: int,
    pos: int,
    j: int,
    chunk: int,
    f: int,
)
    requires
        d.refusal() is None,
        d.fits(s),
        0 <= d.tk,
        d.head_dim <= usize::MAX,
        d.kv_heads <= usize::MAX,
        0 <= chunk < d.chunks(),
        0 <= f < d.stride(),
        0 <= head < d.kv_heads,
        0 <= pos < d.tk,
        0 <= j < d.head_dim,
    ensures
        0 <= (head * d.cap + pos) * d.head_dim + j < d.kv.lens().0,
        0 <= (head * d.head_dim + j) * d.cap + pos < d.kv.lens().1,
        d.q_off + d.row() <= d.q.len,
        d.out_off + d.row() <= d.out.len,
        d.twin is Some ==> d.out_off + d.row() <= d.twin->0.rows * d.twin->0.k,
        0 <= partial_index(d, head, chunk, f) < d.scratch(s, at).part->0.len,
{
    accepted_decode_has_its_scratch(d, s, at);
    assert(0 <= (head * d.chunks() + chunk) * d.stride() + f < d.kv_heads * d.chunks()
        * d.stride()) by (nonlinear_arith)
        requires
            0 <= head < d.kv_heads,
            0 <= chunk < d.chunks(),
            0 <= f < d.stride(),
    ;
    let (h, c, w) = (d.kv_heads, d.cap, d.head_dim);
    assert(0 <= (head * c + pos) * w + j < h * c * w) by (nonlinear_arith)
        requires
            0 <= head < h,
            0 <= pos < c,
            0 <= j < w,
    ;
    assert(0 <= (head * w + j) * c + pos < h * c * w) by (nonlinear_arith)
        requires
            0 <= head < h,
            0 <= pos < c,
            0 <= j < w,
    ;
}

/// The grid of a decode attention has a block for every live position, and none
/// without one.
pub proof fn chunks_cover_the_context(d: Decode<'_>)
    requires
        0 < d.tk,
    ensures
        d.chunks() * chunk_of(d.kernel) >= d.tk,
        (d.chunks() - 1) * chunk_of(d.kernel) < d.tk,
        d.chunks() >= 1,
{
    ceil_div_covers(d.tk, chunk_of(d.kernel));
}

/// A kernel chosen by shape carries that shape's query group, whenever any of
/// its head width does.
pub proof fn chosen_kernel_carries_the_group(
    heads: usize,
    kv_heads: usize,
    head_dim: usize,
    tk: usize,
    cap: usize,
)
    requires
        decode_kernel(heads, kv_heads, head_dim, tk, cap) is Ok,
        kv_heads > 0,
        heads as int / kv_heads as int <= if head_dim == 64 { 8int } else { AD_GMAX as int },
    ensures
        heads as int / kv_heads as int <= gmax_of(
            decode_kernel(heads, kv_heads, head_dim, tk, cap)->Ok_0,
        ),
{
}

impl Gpu {
    /// The f16 decode kernel for a shape, by head width and context.
    ///
    /// Narrow chunks win while the context is short or the model has no query
    /// groups to share a head's reads, wide ones once the merge over many
    /// partials is what the last block waits on. A query group wider than
    /// `AD_GMAX` takes the instantiation sized for eight.
    pub fn attn_decode_f16_name(
        heads: usize,
        kv_heads: usize,
        head_dim: usize,
        tk: usize,
        cap: usize,
    ) -> (r: Result<Kernel, CudaError>)
        ensures
            r == decode_kernel(heads, kv_heads, head_dim, tk, cap),
    {
        if cap % 2 != 0 {
            return Err(CudaError::OddCacheCapacity { cap });
        }
        let groups: usize = if kv_heads > 1 { kv_heads } else { 1 };
        let wide_group: bool = heads / groups > AD_GMAX as usize;
        match head_dim {
            128 => if tk <= 256 || heads == kv_heads {
                Ok(Kernel::AttnDecodeH128C32)
            } else if tk >= 2048 {
                Ok(Kernel::AttnDecodeH128C128)
            } else {
                Ok(Kernel::AttnDecodeH128)
            },
            64 => if wide_group && tk <= 1024 {
                Ok(Kernel::AttnDecodeH64G8C32)
            } else if wide_group {
                Ok(Kernel::AttnDecodeH64G8)
            } else {
                Ok(Kernel::AttnDecodeH64)
            },
            _ => Err(CudaError::UnsupportedAttention { head_dim, heads, kv_heads }),
        }
    }

    /// The checks and the launch behind every decode attention: the query
    /// from `q_off`, the context to `out_off` of `out`, and its twin to the
    /// same row of `twin` when there is one.
    #[verifier::rlimit(40)]
    pub fn attn_decode_launch(
        &mut self,
        kernel: Kernel,
        q: &CudaSlice<Fp32>,
        q_off: usize,
        kv: KvCache<'_>,
        heads: usize,
        kv_heads: usize,
        head_dim: usize,
        tk: usize,
        cap: usize,
        scale: FloatBits,
        scale_q: bool,
        scratch: &mut DecodeScratch,
        out: &CudaSlice<Fp32>,
        out_off: usize,
        twin: Option<&Q8>,
    ) -> (r: Result<(), CudaError>)
        requires
            decode(
                kernel,
                q,
                q_off,
                kv,
                heads,
                kv_heads,
                head_dim,
                tk,
                cap,
                scale,
                scale_q,
                out,
                out_off,
                twin,
            ).fits(*old(scratch)),
        ensures
            ({
                let d = decode(
                    kernel,
                    q,
                    q_off,
                    kv,
                    heads,
                    kv_heads,
                    head_dim,
                    tk,
                    cap,
                    scale,
                    scale_q,
                    out,
                    out_off,
                    twin,
                );
                let at = old(self)@.len() as int;
                &&& match d.refusal() {
                    Some(e) => r == Err::<(), CudaError>(e),
                    None => r == Ok::<(), CudaError>(()),
                }
                &&& final(self)@ == old(self)@ + d.commands(*old(scratch), at)
                &&& *final(scratch) == d.scratch_after(*old(scratch), at)
                &&& old(scratch).wf() ==> final(scratch).wf()
                &&& old(scratch).kv_heads == kv_heads && old(scratch).head_dim == head_dim
                    ==> final(scratch).chunks >= old(scratch).chunks
                &&& r is Ok ==> {
                    &&& final(scratch).part is Some && final(scratch).ctr is Some
                    &&& final(scratch).chunks >= d.chunks()
                    &&& final(scratch).part->0.len >= kv_heads * d.chunks() * (gmax_of(kernel) * (
                    head_dim + 2))
                }
            }),
            ({
                let asked = Decode {
                    kernel: kernel,
                    q: *q,
                    q_off: q_off as int,
                    kv: kv,
                    heads: heads as int,
                    kv_heads: kv_heads as int,
                    head_dim: head_dim as int,
                    tk: tk as int,
                    cap: cap as int,
                    scale,
                    scale_q,
                    out: *out,
                    out_off: out_off as int,
                    twin: match twin { Some(t) => Some(*t), None => None },
                };
                r is Ok
                    && head_dim == decode_width(kernel)
                    && (kv is F32 <==> kernel == Kernel::AttnDecodeF64) && decode_ints_fit(asked)
                    ==> decodes(final(self)@.last(), asked)
            }),
            r is Ok
                ==> final(scratch).part is Some
                    && final(scratch).ctr is Some
                    && arg_at(final(self)@.last(), 4, 0) == at(final(scratch).part->0, 0)
                    && arg_at(final(self)@.last(), 5, 0) == at(final(scratch).ctr->0, 0),
            r is Ok ==> reads_keys_then_values(final(self)@.last(), kv),
    {
        let ghost d = decode(
            kernel,
            q,
            q_off,
            kv,
            heads,
            kv_heads,
            head_dim,
            tk,
            cap,
            scale,
            scale_q,
            out,
            out_off,
            twin,
        );
        let gmax: usize = ad_gmax(kernel);
        if kv_heads == 0 || heads % kv_heads != 0 || heads / kv_heads > gmax {
            return Err(CudaError::UnsupportedAttention { head_dim, heads, kv_heads });
        }
        if tk == 0 || tk > cap {
            return Err(CudaError::CacheOverrun { at: tk, cap });
        }
        // A value row is `cap` elements, and the kernel loads it eight bytes
        // at a time at least - so the capacity must keep every row at that
        // alignment.
        let esz: usize = match kv {
            KvCache::F32(_, _) => 4,
            KvCache::F16(_, _) => 2,
        };
        if cap * esz % 8 != 0 {
            return Err(CudaError::OddCacheCapacity { cap });
        }
        let (klen, vlen): (usize, usize) = match kv {
            KvCache::F32(k, v) => (k.len(), v.len()),
            KvCache::F16(k, v) => (k.len(), v.len()),
        };
        let need: usize = kv_heads * cap * head_dim;
        if klen < need || vlen < need {
            return Err(CudaError::SliceOverrun { at: need, len: lesser(klen, vlen) });
        }
        let n: usize = heads * head_dim;
        if q.len() < q_off + n {
            return Err(CudaError::SliceOverrun { at: q_off + n, len: q.len() });
        }
        if out.len() < out_off + n {
            return Err(CudaError::SliceOverrun { at: out_off + n, len: out.len() });
        }
        // The twin's scales are one a group of 32, so a row must start on a
        // group.
        if out_off % 32 != 0 {
            return Err(CudaError::RaggedBlock { k: out_off, block: 32 });
        }
        if let Some(t) = twin {
            let (rows, k): (usize, usize) = t.shape();
            if k != n || rows * k < out_off + n {
                assert(out_off as int / n as int <= out_off) by (nonlinear_arith)
                    requires
                        n > 0,
                        out_off >= 0,
                ;
                assert(out_off < usize::MAX);
                return Err(
                    CudaError::MismatchedQ8 { rows, k, want_rows: out_off / n + 1, want_k: n },
                );
            }
        }
        let chunks: usize = div_ceil(tk, ad_chunk(kernel));
        let stride: usize = gmax * (head_dim + 2);
        let ghost at = self@.len() as int;
        proof {
            lemma_two_widths(d);
        }
        self.grow_decode_scratch(scratch, kv_heads, head_dim, chunks, stride);
        assert(*scratch == d.scratch(*old(scratch), at));
        proof {
            accepted_decode_has_its_scratch(d, *old(scratch), at);
        }
        let part: Arg = Arg::ptr_or_null(scratch.part.as_ref());
        let ctr: Arg = Arg::ptr_or_null(scratch.ctr.as_ref());
        let (k_arg, v_arg): (Arg, Arg) = match kv {
            KvCache::F32(k, v) => (Arg::ptr(k), Arg::ptr(v)),
            KvCache::F16(k, v) => (Arg::ptr(k), Arg::ptr(v)),
        };
        let (codes, scales): (Arg, Arg) = match twin {
            Some(t) => (Arg::ptr(&t.buf), Arg::num(t.scale_offset())),
            None => (Arg::Null, Arg::num(0)),
        };
        let cfg = LaunchConfig {
            grid_dim: (chunks as u32, kv_heads as u32, 1),
            block_dim: (head_dim as u32, 1, 1),
            shared_mem_bytes: 0,
        };
        self.launch(
            kernel,
            vec![
                Arg::ptr(q),
                k_arg,
                v_arg,
                Arg::ptr(out),
                part,
                ctr,
                Arg::num(tk),
                Arg::num(heads / kv_heads),
                Arg::num(cap),
                Arg::Float(scale),
                Arg::flag(scale_q),
                Arg::num(chunks),
                codes,
                scales,
                Arg::long(q_off),
                Arg::long(out_off),
            ],
            cfg,
        );
        assert(self@.last() == d.decode_launch(*scratch));
        proof {
            if head_dim == decode_width(kernel)
                && (kv is F32 <==> kernel == Kernel::AttnDecodeF64) && decode_ints_fit(d) {
                every_head_decodes_against_its_keys_and_values(d, *scratch);
            }
        }
        Ok(())
    }
}

/// The decode attention that these arguments ask for.
#[verifier::inline]
pub open spec fn decode<'a>(
    kernel: Kernel,
    q: &CudaSlice<Fp32>,
    q_off: usize,
    kv: KvCache<'a>,
    heads: usize,
    kv_heads: usize,
    head_dim: usize,
    tk: usize,
    cap: usize,
    scale: FloatBits,
    scale_q: bool,
    out: &CudaSlice<Fp32>,
    out_off: usize,
    twin: Option<&Q8>,
) -> Decode<'a> {
    Decode {
        kernel,
        q: *q,
        q_off: q_off as int,
        kv,
        heads: heads as int,
        kv_heads: kv_heads as int,
        head_dim: head_dim as int,
        tk: tk as int,
        cap: cap as int,
        scale,
        scale_q,
        out: *out,
        out_off: out_off as int,
        twin: match twin {
            Some(t) => Some(*t),
            None => None,
        },
    }
}

/// A decode attention into a context, and a twin where one is wanted, that are
/// made at place `at` of the queue.
#[verifier::inline]
pub open spec fn fresh_decode<'a>(
    at: int,
    kernel: Kernel,
    q: &CudaSlice<Fp32>,
    kv: KvCache<'a>,
    heads: usize,
    kv_heads: usize,
    head_dim: usize,
    tk: usize,
    cap: usize,
    scale: FloatBits,
    scale_q: bool,
    twin: bool,
) -> Decode<'a> {
    let n = heads * head_dim;
    Decode {
        kernel,
        q: *q,
        q_off: 0,
        kv,
        heads: heads as int,
        kv_heads: kv_heads as int,
        head_dim: head_dim as int,
        tk: tk as int,
        cap: cap as int,
        scale,
        scale_q,
        out: made(at, n),
        out_off: 0,
        twin: if twin {
            Some(Q8 { buf: made(at + 1, q8_bytes(1, n)), rows: 1, k: n as usize })
        } else {
            None
        },
    }
}

impl<'a> Decode<'a> {
    /// Making the context and the twin.
    pub open spec fn fresh_cmds(self) -> Seq<Cmd> {
        if self.twin is Some {
            seq![uninit(Elem::F32, self.row()), uninit(Elem::I8, q8_bytes(1, self.row()))]
        } else {
            seq![uninit(Elem::F32, self.row())]
        }
    }

    /// Making them, and the attention.
    pub open spec fn fresh_commands(self, s: DecodeScratch, at: int) -> Seq<Cmd> {
        self.fresh_cmds() + self.commands(s, at + self.fresh_cmds().len())
    }

    /// The scratch after both.
    pub open spec fn fresh_scratch(self, s: DecodeScratch, at: int) -> DecodeScratch {
        self.scratch_after(s, at + self.fresh_cmds().len())
    }

    /// The sizes of both are numbers of this machine.
    pub open spec fn fresh_fits(self, s: DecodeScratch) -> bool {
        &&& self.row() <= usize::MAX
        &&& self.twin is Some ==> q8_fits(1, self.row())
        &&& self.fits(s)
    }
}

impl Gpu {
    fn attn_decode_inner(
        &mut self,
        kernel: Kernel,
        q: &CudaSlice<Fp32>,
        kv: KvCache<'_>,
        heads: usize,
        kv_heads: usize,
        head_dim: usize,
        tk: usize,
        cap: usize,
        scale: FloatBits,
        scale_q: bool,
        scratch: &mut DecodeScratch,
        twin: bool,
    ) -> (r: Result<(CudaSlice<Fp32>, Option<Q8>), CudaError>)
        requires
            fresh_decode(
                old(self)@.len() as int,
                kernel,
                q,
                kv,
                heads,
                kv_heads,
                head_dim,
                tk,
                cap,
                scale,
                scale_q,
                twin,
            ).fresh_fits(*old(scratch)),
        ensures
            ({
                let at = old(self)@.len() as int;
                let d = fresh_decode(
                    old(self)@.len() as int,
                    kernel,
                    q,
                    kv,
                    heads,
                    kv_heads,
                    head_dim,
                    tk,
                    cap,
                    scale,
                    scale_q,
                    twin,
                );
                &&& match d.refusal() {
                    Some(e) => r == Err::<(CudaSlice<Fp32>, Option<Q8>), CudaError>(e),
                    None => r == Ok::<(CudaSlice<Fp32>, Option<Q8>), CudaError>((d.out, d.twin)),
                }
                &&& final(self)@ == old(self)@ + d.fresh_commands(*old(scratch), at)
                &&& *final(scratch) == d.fresh_scratch(*old(scratch), at)
            }),
            r is Ok ==> old(self)@.len() <= usize::MAX,
            r is Ok && twin ==> old(self)@.len() < usize::MAX,
    {
        let ghost d = fresh_decode(
            self@.len() as int,
            kernel,
            q,
            kv,
            heads,
            kv_heads,
            head_dim,
            tk,
            cap,
            scale,
            scale_q,
            twin,
        );
        let n: usize = heads * head_dim;
        let out = self.uninit(n);
        let q8: Option<Q8> = if twin {
            Some(Q8 { buf: self.uninit_i8(n + (n / 32) * 4), rows: 1, k: n })
        } else {
            None
        };
        proof {
            assert(1 * n == n && 1 * (n as int / 32) == n as int / 32);
        }
        assert(self@ == old(self)@ + d.fresh_cmds());
        assert(d == decode(
            kernel,
            q,
            0,
            kv,
            heads,
            kv_heads,
            head_dim,
            tk,
            cap,
            scale,
            scale_q,
            &out,
            0,
            match q8 {
                Some(t) => Some(&t),
                None => None,
            },
        ));
        let launched = self.attn_decode_launch(
            kernel,
            q,
            0,
            kv,
            heads,
            kv_heads,
            head_dim,
            tk,
            cap,
            scale,
            scale_q,
            scratch,
            &out,
            0,
            q8.as_ref(),
        );
        match launched {
            Ok(_) => Ok((out, q8)),
            Err(e) => Err(e),
        }
    }

    /// One query row against an f16 cache, fused.
    ///
    /// `q` is `[heads, head_dim]` with the query heads of a grouped-query
    /// group adjacent, which is the layout one decode row already has. The
    /// caches are the append kernels' layouts: keys `[kv_heads, cap,
    /// head_dim]`, values `[kv_heads, head_dim, cap]`, `tk` positions of each
    /// live. Returns `[heads, head_dim]`, which for one row is `[heads *
    /// head_dim]` and needs no merge.
    ///
    /// `scale_q` puts the scale on the query before the product; otherwise it
    /// goes on the scores. Only the widths the kernel is instantiated at: 64
    /// and 128.
    pub fn attn_decode_f16(
        &mut self,
        q: &CudaSlice<Fp32>,
        k: &CudaSlice<u16>,
        v: &CudaSlice<u16>,
        heads: usize,
        kv_heads: usize,
        head_dim: usize,
        tk: usize,
        cap: usize,
        scale: FloatBits,
        scale_q: bool,
        scratch: &mut DecodeScratch,
    ) -> (r: Result<CudaSlice<Fp32>, CudaError>)
        requires
            decode_kernel(heads, kv_heads, head_dim, tk, cap) is Ok ==> fresh_decode(
                old(self)@.len() as int,
                decode_kernel(heads, kv_heads, head_dim, tk, cap)->Ok_0,
                q,
                KvCache::F16(k, v),
                heads,
                kv_heads,
                head_dim,
                tk,
                cap,
                scale,
                scale_q,
                false,
            ).fresh_fits(*old(scratch)),
        ensures
            match decode_kernel(heads, kv_heads, head_dim, tk, cap) {
                Err(e) => {
                    &&& r == Err::<CudaSlice<Fp32>, CudaError>(e)
                    &&& final(self)@ == old(self)@
                    &&& *final(scratch) == *old(scratch)
                },
                Ok(kernel) => {
                    let at = old(self)@.len() as int;
                    let d = fresh_decode(
                        old(self)@.len() as int,
                        kernel,
                        q,
                        KvCache::F16(k, v),
                        heads,
                        kv_heads,
                        head_dim,
                        tk,
                        cap,
                        scale,
                        scale_q,
                        false,
                    );
                    &&& match d.refusal() {
                        Some(e) => r == Err::<CudaSlice<Fp32>, CudaError>(e),
                        None => r == Ok::<CudaSlice<Fp32>, CudaError>(d.out),
                    }
                    &&& final(self)@ == old(self)@ + d.fresh_commands(*old(scratch), at)
                    &&& *final(scratch) == d.fresh_scratch(*old(scratch), at)
                },
            },
            ({
                let asked = Decode {
                    kernel: final(self)@.last()->kernel,
                    q: *q,
                    q_off: 0,
                    kv: KvCache::F16(k, v),
                    heads: heads as int,
                    kv_heads: kv_heads as int,
                    head_dim: head_dim as int,
                    tk: tk as int,
                    cap: cap as int,
                    scale,
                    scale_q,
                    out: r->Ok_0,
                    out_off: 0,
                    twin: None,
                };
                r is Ok && decode_ints_fit(asked) ==> decodes(final(self)@.last(), asked)
            }),
            r is Ok ==> made_in(final(self)@, r->Ok_0, Elem::F32, heads * head_dim),
            r is Ok
                ==> final(scratch).part is Some
                    && final(scratch).ctr is Some
                    && arg_at(final(self)@.last(), 4, 0) == at(final(scratch).part->0, 0)
                    && arg_at(final(self)@.last(), 5, 0) == at(final(scratch).ctr->0, 0),
            r is Ok ==> reads_keys_then_values(final(self)@.last(), KvCache::F16(k, v)),
    {
        let kernel: Kernel = match Gpu::attn_decode_f16_name(heads, kv_heads, head_dim, tk, cap) {
            Ok(kernel) => kernel,
            Err(e) => return Err(e),
        };
        proof {
            let at = old(self)@.len() as int;
            let d = fresh_decode(
                at,
                kernel,
                q,
                KvCache::F16(k, v),
                heads,
                kv_heads,
                head_dim,
                tk,
                cap,
                scale,
                scale_q,
                false,
            );
            the_chosen_kernel_is_of_its_width(heads, kv_heads, head_dim, tk, cap);
            if d.refusal() is None && decode_ints_fit(d) {
                let later = at + d.fresh_cmds().len();
                accepted_decode_has_its_scratch(d, *old(scratch), later);
                every_head_decodes_against_its_keys_and_values(d, d.scratch(*old(scratch), later));
            }
        }
        match self.attn_decode_inner(
            kernel,
            q,
            KvCache::F16(k, v),
            heads,
            kv_heads,
            head_dim,
            tk,
            cap,
            scale,
            scale_q,
            scratch,
            false,
        ) {
            Ok((out, q8)) => Ok(out),
            Err(e) => Err(e),
        }
    }

    /// [`Gpu::attn_decode_f16`] with the context's int8 twin taken in the
    /// same pass, for the packed output projection that reads it.
    pub fn attn_decode_f16_q(
        &mut self,
        q: &CudaSlice<Fp32>,
        k: &CudaSlice<u16>,
        v: &CudaSlice<u16>,
        heads: usize,
        kv_heads: usize,
        head_dim: usize,
        tk: usize,
        cap: usize,
        scale: FloatBits,
        scale_q: bool,
        scratch: &mut DecodeScratch,
    ) -> (r: Result<(CudaSlice<Fp32>, Q8), CudaError>)
        requires
            decode_kernel(heads, kv_heads, head_dim, tk, cap) is Ok ==> fresh_decode(
                old(self)@.len() as int,
                decode_kernel(heads, kv_heads, head_dim, tk, cap)->Ok_0,
                q,
                KvCache::F16(k, v),
                heads,
                kv_heads,
                head_dim,
                tk,
                cap,
                scale,
                scale_q,
                true,
            ).fresh_fits(*old(scratch)),
        ensures
            match decode_kernel(heads, kv_heads, head_dim, tk, cap) {
                Err(e) => {
                    &&& r == Err::<(CudaSlice<Fp32>, Q8), CudaError>(e)
                    &&& final(self)@ == old(self)@
                    &&& *final(scratch) == *old(scratch)
                },
                Ok(kernel) => {
                    let at = old(self)@.len() as int;
                    let d = fresh_decode(
                        old(self)@.len() as int,
                        kernel,
                        q,
                        KvCache::F16(k, v),
                        heads,
                        kv_heads,
                        head_dim,
                        tk,
                        cap,
                        scale,
                        scale_q,
                        true,
                    );
                    &&& match d.refusal() {
                        Some(e) => r == Err::<(CudaSlice<Fp32>, Q8), CudaError>(e),
                        None => r == Ok::<(CudaSlice<Fp32>, Q8), CudaError>((d.out, d.twin->0)),
                    }
                    &&& final(self)@ == old(self)@ + d.fresh_commands(*old(scratch), at)
                    &&& *final(scratch) == d.fresh_scratch(*old(scratch), at)
                },
            },
            ({
                let asked = Decode {
                    kernel: final(self)@.last()->kernel,
                    q: *q,
                    q_off: 0,
                    kv: KvCache::F16(k, v),
                    heads: heads as int,
                    kv_heads: kv_heads as int,
                    head_dim: head_dim as int,
                    tk: tk as int,
                    cap: cap as int,
                    scale,
                    scale_q,
                    out: r->Ok_0.0,
                    out_off: 0,
                    twin: Some(r->Ok_0.1),
                };
                r is Ok && decode_ints_fit(asked) ==> decodes(final(self)@.last(), asked)
            }),
            r is Ok
                ==> made_in(final(self)@, r->Ok_0.0, Elem::F32, heads * head_dim)
                    && r->Ok_0.1.rows == 1 && r->Ok_0.1.k == (heads * head_dim)
                    && made_in(
                        final(self)@,
                        r->Ok_0.1.buf,
                        Elem::I8,
                        1 * (heads * head_dim) + 1 * ((heads * head_dim) / 32) * 4,
                    ),
            r is Ok
                ==> final(scratch).part is Some
                    && final(scratch).ctr is Some
                    && arg_at(final(self)@.last(), 4, 0) == at(final(scratch).part->0, 0)
                    && arg_at(final(self)@.last(), 5, 0) == at(final(scratch).ctr->0, 0),
            r is Ok ==> reads_keys_then_values(final(self)@.last(), KvCache::F16(k, v)),
    {
        let kernel: Kernel = match Gpu::attn_decode_f16_name(heads, kv_heads, head_dim, tk, cap) {
            Ok(kernel) => kernel,
            Err(e) => return Err(e),
        };
        proof {
            let at = old(self)@.len() as int;
            let d = fresh_decode(
                at,
                kernel,
                q,
                KvCache::F16(k, v),
                heads,
                kv_heads,
                head_dim,
                tk,
                cap,
                scale,
                scale_q,
                true,
            );
            the_chosen_kernel_is_of_its_width(heads, kv_heads, head_dim, tk, cap);
            if d.refusal() is None && decode_ints_fit(d) {
                let later = at + d.fresh_cmds().len();
                accepted_decode_has_its_scratch(d, *old(scratch), later);
                every_head_decodes_against_its_keys_and_values(d, d.scratch(*old(scratch), later));
            }
        }
        match self.attn_decode_inner(
            kernel,
            q,
            KvCache::F16(k, v),
            heads,
            kv_heads,
            head_dim,
            tk,
            cap,
            scale,
            scale_q,
            scratch,
            true,
        ) {
            Ok((out, q8)) => Ok((out, q8.unwrap())),
            Err(e) => Err(e),
        }
    }

    /// [`Gpu::attn_decode_f16_q`] for one of several sequences decoding
    /// together: the query is read from element `q_off` of `q`, and the
    /// context and its twin are written to row `row` of `out` and `twin`,
    /// which are `[rows, heads * head_dim]` shared by the batch and filled a
    /// row at a time - `twin` from [`Gpu::q8_zeros`]. The same kernel and
    /// the same arithmetic as the single-row call.
    pub fn attn_decode_f16_q_row(
        &mut self,
        q: &CudaSlice<Fp32>,
        q_off: usize,
        k: &CudaSlice<u16>,
        v: &CudaSlice<u16>,
        heads: usize,
        kv_heads: usize,
        head_dim: usize,
        tk: usize,
        cap: usize,
        scale: FloatBits,
        scale_q: bool,
        scratch: &mut DecodeScratch,
        out: &CudaSlice<Fp32>,
        twin: &Q8,
        row: usize,
    ) -> (r: Result<(), CudaError>)
        requires
            decode_kernel(heads, kv_heads, head_dim, tk, cap) is Ok ==> {
                &&& heads * head_dim <= usize::MAX
                &&& row * (heads * head_dim) <= usize::MAX
                &&& decode(
                    decode_kernel(heads, kv_heads, head_dim, tk, cap)->Ok_0,
                    q,
                    q_off,
                    KvCache::F16(k, v),
                    heads,
                    kv_heads,
                    head_dim,
                    tk,
                    cap,
                    scale,
                    scale_q,
                    out,
                    (row * (heads * head_dim)) as usize,
                    Some(twin),
                ).fits(*old(scratch))
            },
        ensures
            match decode_kernel(heads, kv_heads, head_dim, tk, cap) {
                Err(e) => {
                    &&& r == Err::<(), CudaError>(e)
                    &&& final(self)@ == old(self)@
                    &&& *final(scratch) == *old(scratch)
                },
                Ok(kernel) => {
                    let at = old(self)@.len() as int;
                    let d = decode(
                        kernel,
                        q,
                        q_off,
                        KvCache::F16(k, v),
                        heads,
                        kv_heads,
                        head_dim,
                        tk,
                        cap,
                        scale,
                        scale_q,
                        out,
                        (row * (heads * head_dim)) as usize,
                        Some(twin),
                    );
                    &&& match d.refusal() {
                        Some(e) => r == Err::<(), CudaError>(e),
                        None => r == Ok::<(), CudaError>(()),
                    }
                    &&& final(self)@ == old(self)@ + d.commands(*old(scratch), at)
                    &&& *final(scratch) == d.scratch_after(*old(scratch), at)
                },
            },
            ({
                let asked = Decode {
                    kernel: final(self)@.last()->kernel,
                    q: *q,
                    q_off: q_off as int,
                    kv: KvCache::F16(k, v),
                    heads: heads as int,
                    kv_heads: kv_heads as int,
                    head_dim: head_dim as int,
                    tk: tk as int,
                    cap: cap as int,
                    scale,
                    scale_q,
                    out: *out,
                    out_off: row * (heads * head_dim),
                    twin: Some(*twin),
                };
                r is Ok && decode_ints_fit(asked) ==> decodes(final(self)@.last(), asked)
            }),
            r is Ok
                ==> final(scratch).part is Some
                    && final(scratch).ctr is Some
                    && arg_at(final(self)@.last(), 4, 0) == at(final(scratch).part->0, 0)
                    && arg_at(final(self)@.last(), 5, 0) == at(final(scratch).ctr->0, 0),
            r is Ok ==> reads_keys_then_values(final(self)@.last(), KvCache::F16(k, v)),
    {
        let kernel: Kernel = match Gpu::attn_decode_f16_name(heads, kv_heads, head_dim, tk, cap) {
            Ok(kernel) => kernel,
            Err(e) => return Err(e),
        };
        let n: usize = heads * head_dim;
        proof {
            the_chosen_kernel_is_of_its_width(heads, kv_heads, head_dim, tk, cap);
        }
        self.attn_decode_launch(
            kernel,
            q,
            q_off,
            KvCache::F16(k, v),
            heads,
            kv_heads,
            head_dim,
            tk,
            cap,
            scale,
            scale_q,
            scratch,
            out,
            row * n,
            Some(twin),
        )
    }

    /// [`Gpu::attn_decode_f16`] off an f32 cache, at head width 64.
    pub fn attn_decode(
        &mut self,
        q: &CudaSlice<Fp32>,
        k: &CudaSlice<Fp32>,
        v: &CudaSlice<Fp32>,
        heads: usize,
        kv_heads: usize,
        head_dim: usize,
        tk: usize,
        cap: usize,
        scale: FloatBits,
        scale_q: bool,
        scratch: &mut DecodeScratch,
    ) -> (r: Result<CudaSlice<Fp32>, CudaError>)
        requires
            head_dim == 64 ==> fresh_decode(
                old(self)@.len() as int,
                Kernel::AttnDecodeF64,
                q,
                KvCache::F32(k, v),
                heads,
                kv_heads,
                head_dim,
                tk,
                cap,
                scale,
                scale_q,
                false,
            ).fresh_fits(*old(scratch)),
        ensures
            head_dim != 64 ==> {
                &&& r == Err::<CudaSlice<Fp32>, CudaError>(
                    CudaError::UnsupportedAttention { head_dim, heads, kv_heads },
                )
                &&& final(self)@ == old(self)@
                &&& *final(scratch) == *old(scratch)
            },
            head_dim == 64 ==> {
                let at = old(self)@.len() as int;
                let d = fresh_decode(
                    old(self)@.len() as int,
                    Kernel::AttnDecodeF64,
                    q,
                    KvCache::F32(k, v),
                    heads,
                    kv_heads,
                    head_dim,
                    tk,
                    cap,
                    scale,
                    scale_q,
                    false,
                );
                &&& match d.refusal() {
                    Some(e) => r == Err::<CudaSlice<Fp32>, CudaError>(e),
                    None => r == Ok::<CudaSlice<Fp32>, CudaError>(d.out),
                }
                &&& final(self)@ == old(self)@ + d.fresh_commands(*old(scratch), at)
                &&& *final(scratch) == d.fresh_scratch(*old(scratch), at)
            },
            ({
                let asked = Decode {
                    kernel: final(self)@.last()->kernel,
                    q: *q,
                    q_off: 0,
                    kv: KvCache::F32(k, v),
                    heads: heads as int,
                    kv_heads: kv_heads as int,
                    head_dim: head_dim as int,
                    tk: tk as int,
                    cap: cap as int,
                    scale,
                    scale_q,
                    out: r->Ok_0,
                    out_off: 0,
                    twin: None,
                };
                r is Ok && decode_ints_fit(asked) ==> decodes(final(self)@.last(), asked)
            }),
            r is Ok ==> made_in(final(self)@, r->Ok_0, Elem::F32, heads * head_dim),
            r is Ok
                ==> final(scratch).part is Some
                    && final(scratch).ctr is Some
                    && arg_at(final(self)@.last(), 4, 0) == at(final(scratch).part->0, 0)
                    && arg_at(final(self)@.last(), 5, 0) == at(final(scratch).ctr->0, 0),
            r is Ok ==> reads_keys_then_values(final(self)@.last(), KvCache::F32(k, v)),
    {
        if head_dim != 64 {
            return Err(CudaError::UnsupportedAttention { head_dim, heads, kv_heads });
        }
        proof {
            let at = old(self)@.len() as int;
            let d = fresh_decode(
                at,
                Kernel::AttnDecodeF64,
                q,
                KvCache::F32(k, v),
                heads,
                kv_heads,
                head_dim,
                tk,
                cap,
                scale,
                scale_q,
                false,
            );
            if d.refusal() is None && decode_ints_fit(d) {
                let later = at + d.fresh_cmds().len();
                accepted_decode_has_its_scratch(d, *old(scratch), later);
                every_head_decodes_against_its_keys_and_values(d, d.scratch(*old(scratch), later));
            }
        }
        match self.attn_decode_inner(
            Kernel::AttnDecodeF64,
            q,
            KvCache::F32(k, v),
            heads,
            kv_heads,
            head_dim,
            tk,
            cap,
            scale,
            scale_q,
            scratch,
            false,
        ) {
            Ok((out, _)) => Ok(out),
            Err(e) => Err(e),
        }
    }
}

/// Whether a decode attention of this shape computes only numbers of this machine.
fn shape_fits(
    kernel: Kernel,
    q: &CudaSlice<Fp32>,
    q_off: usize,
    kv: KvCache<'_>,
    heads: usize,
    kv_heads: usize,
    head_dim: usize,
    tk: usize,
    cap: usize,
    scratch: &DecodeScratch,
    out_len: usize,
    out_off: usize,
    twin: Option<(usize, usize)>,
    Ghost(d): Ghost<Decode<'_>>,
) -> (fits: bool)
    requires
        d.kernel == kernel,
        d.q == *q,
        d.q_off == q_off,
        d.kv == kv,
        d.heads == heads,
        d.kv_heads == kv_heads,
        d.head_dim == head_dim,
        d.tk == tk,
        d.cap == cap,
        d.out.len == out_len,
        d.out_off == out_off,
        match d.twin {
            Some(t) => t.wf() && twin == Some((t.rows, t.k)),
            None => twin is None,
        },
    ensures
        fits == d.fits(*scratch),
{
    let gmax: usize = ad_gmax(kernel);
    if kv_heads == 0 || heads % kv_heads != 0 || heads / kv_heads > gmax {
        return true;
    }
    if tk == 0 || tk > cap {
        return true;
    }
    let esz: usize = match kv {
        KvCache::F32(_, _) => 4,
        KvCache::F16(_, _) => 2,
    };
    if !product_fits(cap, esz) {
        return false;
    }
    if cap * esz % 8 != 0 {
        return true;
    }
    if !product_fits(kv_heads, cap) || !product_fits(kv_heads * cap, head_dim) {
        return false;
    }
    let need: usize = kv_heads * cap * head_dim;
    let (klen, vlen): (usize, usize) = match kv {
        KvCache::F32(k, v) => (k.len(), v.len()),
        KvCache::F16(k, v) => (k.len(), v.len()),
    };
    if klen < need || vlen < need {
        return true;
    }
    if !product_fits(heads, head_dim) {
        return false;
    }
    let n: usize = heads * head_dim;
    if !sum_fits(q_off, n) {
        return false;
    }
    if q.len() < q_off + n {
        return true;
    }
    if !sum_fits(out_off, n) {
        return false;
    }
    if out_len < out_off + n || out_off % 32 != 0 {
        return true;
    }
    if let Some((rows, k)) = twin {
        if k != n || rows * k < out_off + n {
            return n > 0;
        }
    }
    if !sum_fits(head_dim, 2) || !product_fits(gmax, head_dim + 2) {
        return false;
    }
    proof {
        lemma_two_widths(d);
    }
    scratch.can_grow(kv_heads, head_dim, div_ceil(tk, ad_chunk(kernel)), gmax * (head_dim + 2))
}

impl Gpu {
    /// Whether [`Gpu::attn_decode_launch`] can be asked for this: every size that
    /// it would compute is a number of this machine, and it divides by no row of
    /// nothing.
    pub fn attn_decode_launch_fits(
        kernel: Kernel,
        q: &CudaSlice<Fp32>,
        q_off: usize,
        kv: KvCache<'_>,
        heads: usize,
        kv_heads: usize,
        head_dim: usize,
        tk: usize,
        cap: usize,
        scale: FloatBits,
        scale_q: bool,
        scratch: &DecodeScratch,
        out: &CudaSlice<Fp32>,
        out_off: usize,
        twin: Option<&Q8>,
    ) -> (fits: bool)
        requires
            twin is Some ==> twin->0.wf(),
        ensures
            fits == decode(
                kernel,
                q,
                q_off,
                kv,
                heads,
                kv_heads,
                head_dim,
                tk,
                cap,
                scale,
                scale_q,
                out,
                out_off,
                twin,
            ).fits(*scratch),
    {
        let shape: Option<(usize, usize)> = match twin {
            Some(t) => Some(t.shape()),
            None => None,
        };
        shape_fits(
            kernel,
            q,
            q_off,
            kv,
            heads,
            kv_heads,
            head_dim,
            tk,
            cap,
            scratch,
            out.len(),
            out_off,
            shape,
            Ghost(
                decode(
                    kernel,
                    q,
                    q_off,
                    kv,
                    heads,
                    kv_heads,
                    head_dim,
                    tk,
                    cap,
                    scale,
                    scale_q,
                    out,
                    out_off,
                    twin,
                ),
            ),
        )
    }

    /// Whether a decode attention by `kernel` into buffers of its own can be asked
    /// for: with the twin, where `twin` says so.
    pub fn attn_decode_fits(
        &self,
        kernel: Kernel,
        q: &CudaSlice<Fp32>,
        kv: KvCache<'_>,
        heads: usize,
        kv_heads: usize,
        head_dim: usize,
        tk: usize,
        cap: usize,
        scale: FloatBits,
        scale_q: bool,
        scratch: &DecodeScratch,
        twin: bool,
    ) -> (fits: bool)
        ensures
            fits == fresh_decode(
                self@.len() as int,
                kernel,
                q,
                kv,
                heads,
                kv_heads,
                head_dim,
                tk,
                cap,
                scale,
                scale_q,
                twin,
            ).fresh_fits(*scratch),
    {
        if !product_fits(heads, head_dim) {
            return false;
        }
        let n: usize = heads * head_dim;
        if twin && !twin_fits(1, n) {
            return false;
        }
        let ghost d = fresh_decode(
            self@.len() as int,
            kernel,
            q,
            kv,
            heads,
            kv_heads,
            head_dim,
            tk,
            cap,
            scale,
            scale_q,
            twin,
        );
        let shape: Option<(usize, usize)> = if twin {
            Some((1, n))
        } else {
            None
        };
        shape_fits(
            kernel,
            q,
            0,
            kv,
            heads,
            kv_heads,
            head_dim,
            tk,
            cap,
            scratch,
            n,
            0,
            shape,
            Ghost(d),
        )
    }
}

} // verus!
