//! What is refused: exactly what would read or write outside of a buffer, split a word or
//! a block, or run a kernel on a shape it was not compiled for. And what a refusal says.

use crate::attention::{first_short, flash_covers, flash_f16_refusal, Taco};
use crate::buffer::CudaSlice;
use crate::cache::{Append, Grow, RopeCache};
use crate::checked::embed_refusal;
use crate::decode::{chunk_of, decode_kernel, Decode, KvCache};
use crate::device::projecting::place_of;
use crate::error::CudaError;
use crate::gemm::Gemm;
use crate::gemv::{GemvLn, GemvNorm, OutLayout, PlacedGemv, Qkv};
use crate::heads::SplitF16;
use crate::names::Kernel;
use crate::norm::gate_refusal;
use crate::operand::Operand;
use crate::quant::Quant;
use vstd::prelude::*;

verus! {

/// Whether what an error says is a complaint: an end past what there is, a size that is not a
/// whole number of what it has to be, two shapes that differ.
pub open spec fn complains(e: CudaError) -> bool {
    match e {
        CudaError::SliceOverrun { at, len } => at > len,
        CudaError::CacheOverrun { at, cap } => at > cap || at == 0,
        CudaError::RaggedBlock { k, block } => block > 0 ==> k % block != 0,
        CudaError::RaggedContraction { k } => k % 2 != 0,
        CudaError::OddHeadDim { head_dim } => head_dim % 2 != 0,
        CudaError::MismatchedQ8 { rows, k, want_rows, want_k } => rows != want_rows || k != want_k,
        CudaError::Misaligned { what: _, offset, align } => offset % align != 0,
        _ => true,
    }
}

/// An append is refused exactly where it would run past the capacity or past the rows it
/// reads, or would leave a half alone in a word.
pub proof fn an_append_is_refused_where_it_overruns(a: Append, halves: bool)
    requires
        a.fits(halves),
        0 <= a.n && 0 <= a.past && 0 <= a.cap <= usize::MAX,
        0 <= a.src_off && 0 <= a.total() && 0 <= a.src_len <= usize::MAX,
    ensures
        a.refusal(halves) is None <==> {
            &&& a.past + a.n <= a.cap
            &&& !(halves && a.cap % 2 == 1)
            &&& a.src_off + a.n * a.kv_heads * a.head_dim <= a.src_len
        },
        a.refusal(halves) is Some ==> complains(a.refusal(halves)->0),
        a.refusal(halves) matches Some(CudaError::CacheOverrun { at, cap }) ==> at == a.past + a.n
            && cap == a.cap,
        a.refusal(halves) matches Some(CudaError::SliceOverrun { at, len }) ==> at == a.src_off
            + a.n * a.kv_heads * a.head_dim && len == a.src_len,
{
}

/// A growth is refused exactly where the capacity shrinks, more is live than there was room
/// for, or a cache is shorter than its capacity says.
pub proof fn a_growth_is_refused_where_it_shrinks_or_overruns(g: Grow, src_len: int, dst_len: int)
    requires
        0 <= g.kv_heads && 0 <= g.head_dim && 0 <= g.live,
        0 <= g.old_cap && 0 <= g.new_cap,
    ensures
        g.refusal(src_len, dst_len) is None <==> {
            &&& g.live <= g.old_cap <= g.new_cap
            &&& g.kv_heads * g.old_cap * g.head_dim <= src_len
            &&& g.kv_heads * g.new_cap * g.head_dim <= dst_len
        },
{
    let r = g.runs();
    let (h, w, o, n) = (g.kv_heads, g.head_dim, g.old_cap, g.new_cap);
    assert(h * w * o == h * o * w && h * w * n == h * n * w && h * (o * w) == h * o * w && h * (n
        * w) == h * n * w) by (nonlinear_arith);
}

/// A split to half precision is refused exactly where it would read past `x` or past the bias.
pub proof fn a_split_is_refused_where_it_overruns(s: SplitF16<'_>)
    requires
        s.fits(),
        0 <= s.x_off && 0 <= s.total() && 0 <= s.row(),
    ensures
        s.refusal() is None <==> {
            &&& s.x_off + s.t * s.heads * s.head_dim <= s.x.len
            &&& s.bias matches Some((b, off)) ==> off + s.heads * s.head_dim <= b.len
        },
        s.refusal() is Some ==> complains(s.refusal()->0),
{
}

/// A rotation into a cache is refused exactly where the position is not in the cache, the
/// cache's rows or the heads do not split into pairs, or a projection or a cache is too short.
pub proof fn a_rotation_is_refused_where_it_overruns(g: RopeCache<'_>)
    requires
        0 <= g.pos && 0 <= g.cap && 0 <= g.head_dim,
        0 <= g.q.0 && 0 <= g.k.0 && 0 <= g.v.0,
    ensures
        g.refusal() is None <==> {
            let there = |at: (int, int), len: int|
                at.1 + len <= if at.0 < g.proj.len() {
                    g.proj[at.0].len as int
                } else {
                    0
                };
            &&& g.pos < g.cap && g.cap % 2 == 0 && g.head_dim % 2 == 0
            &&& there(g.q, g.heads * g.head_dim)
            &&& there(g.k, g.kv_heads * g.head_dim)
            &&& there(g.v, g.kv_heads * g.head_dim)
            &&& g.cap * g.kv_heads * g.head_dim <= g.kc.len
            &&& g.cap * g.kv_heads * g.head_dim <= g.vc.len
        },
{
}

/// A placed mat-vec is refused exactly where its weight is packed, an operand is shorter than
/// it reads, an f16 row is odd, the heads do not divide the row, the position is not in the
/// cache, or a column would fall outside of the buffer.
pub proof fn a_placed_row_is_refused_where_a_column_falls_outside(g: PlacedGemv<'_>)
    requires
        0 < g.n,
        0 <= g.k,
    ensures
        g.refusal() is None <==> {
            &&& g.w is F32 || g.w is F16
            &&& g.k <= g.x.len && g.n * g.k <= g.w.spec_len()
            &&& g.w is F16 ==> g.k % 2 == 0
            &&& match g.layout {
                OutLayout::Row => true,
                OutLayout::KeyCache { head_dim, cap, pos } => 0 < head_dim && g.n % head_dim as int
                    == 0 && pos < cap,
                OutLayout::ValueCache { cap, pos } => pos < cap,
            }
            &&& forall|col: int|
                0 <= col < g.n ==> 0 <= #[trigger] place_of(g.layout, col) < g.out.len
        },
{
    if g.refusal() is None {
        assert forall|col: int| 0 <= col < g.n implies 0 <= #[trigger] place_of(g.layout, col)
            < g.out.len by {
            crate::gemv::placed_columns_fit(g, col, col);
        }
    } else if g.operand_refusal() is None && !g.layout.overruns(g.n) {
        let end = g.n - 1;
        if let OutLayout::KeyCache { head_dim, cap, pos } = g.layout {
            let (w, h) = (head_dim as int, g.n / head_dim as int);
            vstd::arithmetic::div_mod::lemma_fundamental_div_mod(g.n, w);
            assert(end == (h - 1) * w + (w - 1)) by (nonlinear_arith)
                requires
                    g.n == w * h,
                    end == g.n - 1,
            ;
            vstd::arithmetic::div_mod::lemma_fundamental_div_mod_converse(end, w, h - 1, w - 1);
        }
        assert(place_of(g.layout, end) == g.layout.last(g.n));
    }
}

/// A projection fused with a layer norm is refused exactly where its words, its vectors or its
/// row do not fit the kernel, or an operand is shorter than it reads.
pub proof fn a_fused_layer_norm_is_refused_where_it_overruns(g: GemvLn<'_>)
    requires
        0 <= g.n <= usize::MAX,
        0 <= g.k <= usize::MAX,
        g.n * g.k <= usize::MAX,
    ensures
        g.refusal() is None <==> {
            &&& g.k % 2 == 0 && g.n % 4 == 0 && g.n <= g.max_n
            &&& g.k <= g.a.len && g.n * g.k <= g.w.len
            &&& g.n <= g.h.len && g.n <= g.weight.len && g.n <= g.shift.len
            &&& g.bias matches Some(b) ==> g.n <= b.len
        },
        g.refusal() is Some ==> complains(g.refusal()->0),
{
}

/// A packed projection fused with a norm is refused exactly where the weight is not one of the
/// two formats, its blocks, the twin's groups or its shape do not fit, or an operand is too
/// short.
pub proof fn a_fused_norm_is_refused_where_it_overruns(g: GemvNorm<'_>)
    requires
        0 <= g.n && 0 <= g.k,
    ensures
        g.refusal() is None <==> {
            &&& g.w is Q && (g.w->ty == Quant::Q4K || g.w->ty == Quant::Q6K)
            &&& g.k % 256 == 0 && g.n % 32 == 0 && g.a.rows == 1 && g.a.k == g.k
            &&& g.n * (g.k / 256) * g.w->ty.spec_device_stride() <= g.w.spec_len()
            &&& g.n <= g.h.len && g.n <= g.weight.len
        },
{
}

/// Three projections are refused exactly where the words, the heads or the position do not fit,
/// or an operand, a bias or a cache is too short.
pub proof fn three_projections_are_refused_where_they_overrun(g: Qkv<'_>)
    requires
        g.bias.len() == 3,
        0 <= g.k && 0 <= g.d && 0 <= g.head_dim,
    ensures
        g.refusal() is None <==> {
            &&& g.k % 2 == 0 && 0 < g.head_dim && g.d % g.head_dim == 0 && g.pos < g.cap
            &&& g.k <= g.a.len && 3 * g.d * g.k <= g.w.len && g.d <= g.q.len
            &&& g.d * g.cap <= g.kc.len && g.d * g.cap <= g.vc.len
            &&& forall|i: int|
                0 <= i < 3 ==> ((#[trigger] g.bias[i]) matches Some(b) ==> g.d <= b.len)
        },
{
    if g.refusal() is Some {
        assert(g.bias[0] is Some || g.bias[0] is None);
        assert(g.bias[1] is Some || g.bias[1] is None);
        assert(g.bias[2] is Some || g.bias[2] is None);
    }
}

/// The elements of a cache's two buffers, keys first, and the bytes of one.
pub open spec fn cache_lens(kv: KvCache<'_>) -> (int, int, int) {
    match kv {
        KvCache::F32(k, v) => (k.len as int, v.len as int, 4),
        KvCache::F16(k, v) => (k.len as int, v.len as int, 2),
    }
}

/// A decode attention is refused exactly where the heads do not split into groups the kernel
/// carries, there is nothing to attend to or more than the cache has, a value row does not stay
/// on eight bytes, a buffer is too short, or the row does not start on one of the twin's groups
/// or is not in the twin.
pub proof fn a_decode_is_refused_where_it_overruns(d: Decode<'_>)
    requires
        0 <= d.kv_heads && 0 <= d.tk && 0 <= d.heads,
    ensures
        d.refusal() is None <==> {
            let (keys, values, bytes) = cache_lens(d.kv);
            let (need, row) = (d.kv_heads * d.cap * d.head_dim, d.heads * d.head_dim);
            let carried = match d.kernel {
                Kernel::AttnDecodeH64G8 | Kernel::AttnDecodeH64G8C32 => 8int,
                _ => 4,
            };
            &&& 0 < d.kv_heads && d.heads % d.kv_heads == 0 && d.heads / d.kv_heads <= carried
            &&& 0 < d.tk <= d.cap && d.cap * bytes % 8 == 0
            &&& need <= keys && need <= values
            &&& d.q_off + row <= d.q.len && d.out_off + row <= d.out.len
            &&& d.out_off % 32 == 0
            &&& d.twin matches Some(t) ==> t.k == row && d.out_off + row <= t.rows * t.k
        },
{
}

/// An f16 decode attention has a kernel exactly where the capacity is even and a head is of 64
/// or of 128 elements.
pub proof fn a_decode_kernel_is_there_for_two_widths(
    heads: usize,
    kv_heads: usize,
    head_dim: usize,
    tk: usize,
    cap: usize,
)
    ensures
        decode_kernel(heads, kv_heads, head_dim, tk, cap) is Ok <==> cap % 2 == 0 && (head_dim == 64
            || head_dim == 128),
        cap % 2 == 1 ==> decode_kernel(heads, kv_heads, head_dim, tk, cap) == Err::<
            Kernel,
            CudaError,
        >(CudaError::OddCacheCapacity { cap }),
{
}

/// A product is refused exactly where it reads a packed weight off its blocks or from a packed
/// activation, past the weight from a row on, half of a word outside of the mat-vecs that can,
/// rows a stride apart that have none, or a twin of another shape.
pub proof fn a_product_is_refused_where_it_would_be_read_wrong(g: Gemm<'_>)
    requires
        0 <= g.m && 0 <= g.k && 0 <= g.n && 0 <= g.w_first,
    ensures
        g.refusal() is None <==> {
            let rows = if g.batch.count > 1 && g.batch.a == 0 {
                g.m
            } else {
                g.batch.count * g.m
            };
            &&& g.a !is Q
            &&& g.w matches Operand::Q { data, ty } ==> {
                let each = ty.spec_block_size();
                &&& g.w_first * g.k % each == 0 && g.k % each == 0 && g.batch.w_row == 0
                &&& g.w_first > 0 ==> (g.w_first * g.k / each + g.n * g.k / each)
                    * ty.spec_device_stride() <= data.len
            }
            &&& g.w !is Q && g.w_first > 0 ==> g.w_first * g.k + g.n * g.k <= g.w.spec_len()
            &&& (g.a is F16 || g.w is F16) && g.k % 2 == 1 ==> g.w is F16 && (g.a is F32 || g.a
                is F32Q) && g.m <= 4
            &&& g.w is F16 ==> g.batch.w_row % 2 == 0
            &&& g.w is F32Q ==> g.batch.w_row == 0
            &&& g.a matches Operand::F32Q { data: _, q8 } ==> q8.rows == rows && q8.k == g.k
        },
{
}

/// A location-sensitive step is refused exactly where a block does not take its shape or an
/// operand is too short.
pub proof fn a_step_is_refused_where_it_overruns(s: Taco)
    ensures
        s.refusal() is None <==> {
            &&& crate::arith::is_pow2(s.a) && s.a <= 1024 && 1 <= s.t <= 4096 && s.e <= 1024
            &&& s.f * s.t <= s.loc.len && s.a * s.f <= s.wl.len && s.a <= s.query.len
            &&& s.t * s.a <= s.processed.len && s.a <= s.v.len && s.t * s.e <= s.memory.len
            &&& 2 * s.t <= s.cat.len && s.e <= s.context.len
        },
{
    reveal_with_fuel(first_short, 9);
}

/// A packed lookup is refused exactly where a row is not whole blocks or there are fewer ids
/// than it reads.
pub proof fn a_lookup_is_refused_where_it_overruns(
    ty: Quant,
    ids: &CudaSlice<i64>,
    t: usize,
    ch: usize,
)
    ensures
        embed_refusal(ty, ids, t, ch) is None <==> ch as int % ty.spec_block_size() == 0 && t
            <= ids.len,
        embed_refusal(ty, ids, t, ch) is Some ==> complains(embed_refusal(ty, ids, t, ch)->0),
{
}

/// A gate with a twin is refused exactly where its rows are not whole groups of 32 or do not
/// fill whole blocks of threads.
pub proof fn a_gate_is_refused_where_a_warp_would_run_over(rows: usize, k: usize)
    ensures
        gate_refusal(rows, k) is None <==> k % 32 == 0 && (rows * k) % 256 == 0,
{
}

/// Attention is there for heads of 64 and of 128 elements, in halves of 128 alone and with
/// whole words a row, and for query heads that share key heads evenly.
pub proof fn attention_is_there_for_even_groups(
    head_dim: usize,
    heads: usize,
    kv_heads: usize,
    cap: usize,
)
    requires
        0 < kv_heads,
    ensures
        flash_covers(head_dim as int, heads as int, kv_heads as int) <==> (head_dim == 64
            || head_dim == 128) && heads as int % kv_heads as int == 0,
        flash_f16_refusal(head_dim, heads, kv_heads, cap) is None <==> head_dim == 128 && cap % 2
            == 0 && heads as int % kv_heads as int == 0,
{
}

/// A buffer that is too short is told by where the reads of it would end and by its length.
pub open spec fn overrun(at: int, len: int) -> Option<CudaError> {
    Some(CudaError::SliceOverrun { at: at as usize, len: len as usize })
}

/// Of all that is wrong with a decode attention, the first that a caller can mend is told: the
/// shape, the context, the capacity, the caches, the query, the output, its row, the twin.
pub proof fn a_decode_is_told_what_is_wrong_first(d: Decode<'_>)
    requires
        0 <= d.kv_heads && 0 <= d.tk && 0 <= d.heads,
    ensures
        ({
            let (keys, values, bytes) = cache_lens(d.kv);
            let (need, row) = (d.kv_heads * d.cap * d.head_dim, d.heads * d.head_dim);
            let shape = d.kv_heads > 0 && d.heads % d.kv_heads == 0 && d.heads / d.kv_heads
                <= crate::decode::gmax_of(d.kernel);
            let context = 0 < d.tk <= d.cap;
            let capacity = d.cap * bytes % 8 == 0;
            let caches = need <= keys && need <= values;
            let query = d.q_off + row <= d.q.len;
            let output = d.out_off + row <= d.out.len;
            &&& !shape ==> d.refusal() == Some(
                CudaError::UnsupportedAttention {
                    head_dim: d.head_dim as usize,
                    heads: d.heads as usize,
                    kv_heads: d.kv_heads as usize,
                },
            )
            &&& shape && !context ==> d.refusal() == Some(
                CudaError::CacheOverrun { at: d.tk as usize, cap: d.cap as usize },
            )
            &&& shape && context && !capacity ==> d.refusal() == Some(
                CudaError::OddCacheCapacity { cap: d.cap as usize },
            )
            &&& shape && context && capacity && !caches ==> d.refusal() == overrun(
                need,
                if keys < values {
                    keys
                } else {
                    values
                },
            )
            &&& shape && context && capacity && caches && !query ==> d.refusal() == overrun(
                d.q_off + row,
                d.q.len as int,
            )
            &&& shape && context && capacity && caches && query && !output ==> d.refusal()
                == overrun(d.out_off + row, d.out.len as int)
            &&& shape && context && capacity && caches && query && output && d.out_off % 32 != 0
                ==> d.refusal() == Some(
                CudaError::RaggedBlock { k: d.out_off as usize, block: 32 },
            )
        }),
{
}

/// Of all that is wrong with three projections, the first is told: the words, the heads, the
/// position, the row, the weight, the query, the caches, the biases in order.
pub proof fn three_projections_are_told_what_is_wrong_first(g: Qkv<'_>)
    requires
        g.bias.len() == 3,
        0 <= g.head_dim,
    ensures
        ({
            let words = g.k % 2 == 0;
            let heads = 0 < g.head_dim && g.d % g.head_dim == 0;
            let position = g.pos < g.cap;
            let row = g.k <= g.a.len;
            let weight = 3 * g.d * g.k <= g.w.len;
            let query = g.d <= g.q.len;
            let caches = g.d * g.cap <= g.kc.len && g.d * g.cap <= g.vc.len;
            &&& !words ==> g.refusal() == Some(CudaError::RaggedContraction { k: g.k as usize })
            &&& words && !heads ==> g.refusal() == Some(
                CudaError::RaggedBlock { k: g.d as usize, block: g.head_dim as usize },
            )
            &&& words && heads && !position ==> g.refusal() == Some(
                CudaError::CacheOverrun { at: (g.pos + 1) as usize, cap: g.cap as usize },
            )
            &&& words && heads && position && !row ==> g.refusal() == overrun(g.k, g.a.len as int)
            &&& words && heads && position && row && !weight ==> g.refusal() == overrun(
                3 * g.d * g.k,
                g.w.len as int,
            )
            &&& words && heads && position && row && weight && !query ==> g.refusal() == overrun(
                g.d,
                g.q.len as int,
            )
            &&& words && heads && position && row && weight && query && !caches ==> g.refusal()
                == overrun(
                g.d * g.cap,
                if g.kc.len < g.vc.len {
                    g.kc.len as int
                } else {
                    g.vc.len as int
                },
            )
        }),
{
}

/// Of all that is wrong with a fused layer norm, the first is told: the words, the vectors, the
/// row's length, the activation, the weight, the shortest of the rest.
pub proof fn a_fused_layer_norm_is_told_what_is_wrong_first(g: GemvLn<'_>)
    ensures
        ({
            let shape = g.k % 2 == 0 && g.n % 4 == 0;
            &&& g.k % 2 == 1 ==> g.refusal() == Some(
                CudaError::RaggedContraction { k: g.k as usize },
            )
            &&& g.k % 2 == 0 && g.n % 4 != 0 ==> g.refusal() == Some(
                CudaError::RaggedBlock { k: g.n as usize, block: 4 },
            )
            &&& shape && g.n > g.max_n ==> g.refusal() is Some && g.refusal()->0 is NormFusion
            &&& shape && g.n <= g.max_n && g.a.len < g.k ==> g.refusal() == overrun(
                g.k,
                g.a.len as int,
            )
            &&& shape && g.n <= g.max_n && g.a.len >= g.k && g.w.len < g.n * g.k ==> g.refusal()
                == overrun(g.n * g.k, g.w.len as int)
        }),
{
}

/// Of all that is wrong with a placed mat-vec, the first is told: the weight's kind, the
/// activation, the weight's length, the words, the position, the buffer.
pub proof fn a_placed_row_is_told_what_is_wrong_first(g: PlacedGemv<'_>)
    ensures
        ({
            let plain = g.w is F32 || g.w is F16;
            let weight = g.n * g.k <= g.w.spec_len();
            &&& !plain ==> g.refusal() == Some(CudaError::QuantizedActivation)
            &&& plain && g.x.len < g.k ==> g.refusal() == overrun(g.k, g.x.len as int)
            &&& plain && g.x.len >= g.k && !weight ==> g.refusal() == overrun(
                g.n * g.k,
                g.w.spec_len(),
            )
            &&& plain && g.x.len >= g.k && weight && g.w is F16 && g.k % 2 == 1 ==> g.refusal()
                == Some(CudaError::RaggedContraction { k: g.k as usize })
        }),
{
}

/// Of all that is wrong with a product, the first is told: where the weight is cut, how long it
/// is from there, the words, the activation's kind, the blocks, and then the stride and the
/// twin.
pub proof fn a_product_is_told_what_is_wrong_first(g: Gemm<'_>)
    requires
        0 <= g.k && 0 <= g.w_first,
    ensures
        ({
            let (skip, have) = (g.w_first * g.k, g.w.spec_len());
            let cut = g.w matches Operand::Q { data: _, ty } ==> skip % ty.spec_block_size() == 0;
            let long = g.w_first > 0 ==> g.w_need() <= have;
            let words = (g.a is F16 || g.w is F16) && g.k % 2 == 1 ==> g.w is F16 && (g.a is F32
                || g.a is F32Q) && g.m <= 4;
            &&& !cut ==> g.refusal() == Some(
                CudaError::RaggedBlock {
                    k: skip as usize,
                    block: g.w->ty.spec_block_size() as usize,
                },
            )
            &&& cut && !long ==> g.refusal() == overrun(g.w_need(), have)
            &&& cut && long && !words ==> g.refusal() == Some(
                CudaError::RaggedContraction { k: g.k as usize },
            )
            &&& cut && long && words && g.a is Q ==> g.refusal() == Some(
                CudaError::QuantizedActivation,
            )
            &&& cut && long && words && g.a !is Q && g.w is Q && g.k % g.w->ty.spec_block_size()
                != 0 ==> g.refusal() == Some(
                CudaError::RaggedBlock {
                    k: g.k as usize,
                    block: g.w->ty.spec_block_size() as usize,
                },
            )
            &&& g.early_refusal() is None && g.batch.w_row != 0 && g.w !is F32 && g.w !is F16
                ==> g.refusal() == Some(CudaError::StridedNonF32Weight { stride: g.batch.w_row })
            &&& g.early_refusal() is None && g.w is F16 && g.batch.w_row % 2 == 1 ==> g.refusal()
                == Some(CudaError::OddCacheCapacity { cap: g.batch.w_row })
        }),
{
}

/// A packed weight's rows, from the one that is read first on, end after as many blocks as they
/// and the rows before them hold; another's after as many elements.
pub proof fn a_weight_is_needed_up_to_its_last_row(g: Gemm<'_>)
    requires
        0 <= g.k && 0 <= g.n && 0 <= g.w_first,
        g.w is Q ==> g.k % g.w->ty.spec_block_size() == 0,
    ensures
        match g.w {
            Operand::Q { data: _, ty } => g.w_need() == (g.w_first + g.n) * (g.k
                / ty.spec_block_size()) * ty.spec_device_stride(),
            _ => g.w_need() == (g.w_first + g.n) * g.k,
        },
{
    match g.w {
        Operand::Q { data: _, ty } => {
            let (bs, q) = (ty.spec_block_size(), g.k / ty.spec_block_size());
            vstd::arithmetic::div_mod::lemma_fundamental_div_mod(g.k, bs);
            assert(g.w_first * g.k == bs * (g.w_first * q)) by (nonlinear_arith)
                requires
                    g.k == bs * q,
            ;
            assert(g.n * g.k == bs * (g.n * q)) by (nonlinear_arith)
                requires
                    g.k == bs * q,
            ;
            vstd::arithmetic::div_mod::lemma_div_multiples_vanish(g.w_first * q, bs);
            vstd::arithmetic::div_mod::lemma_div_multiples_vanish(g.n * q, bs);
            vstd::arithmetic::mul::lemma_mul_is_distributive_add_other_way(q, g.w_first, g.n);
        },
        _ => {
            vstd::arithmetic::mul::lemma_mul_is_distributive_add_other_way(g.k, g.w_first, g.n);
        },
    }
}

/// Of all that is wrong with a rotation into a cache, the first is told: the position, the
/// cache's rows, the heads, the queries, the keys, the values, the caches.
pub proof fn a_rotation_is_told_what_is_wrong_first(g: RopeCache<'_>)
    requires
        0 <= g.q.0 && 0 <= g.k.0 && 0 <= g.v.0,
    ensures
        ({
            let have = |at: (int, int)|
                if at.0 < g.proj.len() {
                    g.proj[at.0].len as int
                } else {
                    0
                };
            let (q, kv) = (g.heads * g.head_dim, g.kv_heads * g.head_dim);
            let want = g.cap * g.kv_heads * g.head_dim;
            let shape = g.pos < g.cap && g.cap % 2 == 0 && g.head_dim % 2 == 0;
            let queries = g.q.1 + q <= have(g.q);
            let keys = g.k.1 + kv <= have(g.k);
            let values = g.v.1 + kv <= have(g.v);
            &&& g.pos >= g.cap ==> g.refusal() == Some(
                CudaError::CacheOverrun { at: (g.pos + 1) as usize, cap: g.cap as usize },
            )
            &&& g.pos < g.cap && g.cap % 2 != 0 ==> g.refusal() == Some(
                CudaError::OddCacheCapacity { cap: g.cap as usize },
            )
            &&& g.pos < g.cap && g.cap % 2 == 0 && g.head_dim % 2 != 0 ==> g.refusal() == Some(
                CudaError::OddHeadDim { head_dim: g.head_dim as usize },
            )
            &&& shape && !queries ==> g.refusal() == overrun(g.q.1 + q, have(g.q))
            &&& shape && queries && !keys ==> g.refusal() == overrun(g.k.1 + kv, have(g.k))
            &&& shape && queries && keys && !values ==> g.refusal() == overrun(
                g.v.1 + kv,
                have(g.v),
            )
            &&& shape && queries && keys && values && (g.kc.len < want || g.vc.len < want)
                ==> g.refusal() == overrun(
                want,
                if g.kc.len < g.vc.len {
                    g.kc.len as int
                } else {
                    g.vc.len as int
                },
            )
        }),
{
}

/// Of all that is wrong with a fused norm, the first is told: the weight's kind and format, its
/// blocks, the row's groups, the twin, the weight's length, the shorter of the rest.
pub proof fn a_fused_norm_is_told_what_is_wrong_first(g: GemvNorm<'_>)
    ensures
        ({
            let packed = g.w is Q && (g.w->ty == Quant::Q4K || g.w->ty == Quant::Q6K);
            let need = g.n * (g.k / 256) * g.w->ty.spec_device_stride();
            let whole = packed && g.k % 256 == 0 && g.n % 32 == 0;
            let twin = g.a.rows == 1 && g.a.k == g.k;
            &&& !packed ==> g.refusal() is Some && g.refusal()->0 is NormFusion
            &&& packed && g.k % 256 != 0 ==> g.refusal() == Some(
                CudaError::RaggedBlock { k: g.k as usize, block: 256 },
            )
            &&& packed && g.k % 256 == 0 && g.n % 32 != 0 ==> g.refusal() == Some(
                CudaError::RaggedBlock { k: g.n as usize, block: 32 },
            )
            &&& whole && !twin ==> g.refusal() is Some && g.refusal()->0 is NormFusion
            &&& whole && twin && g.w.spec_len() < need ==> g.refusal() == overrun(
                need,
                g.w.spec_len(),
            )
            &&& whole && twin && g.w.spec_len() >= need && (g.h.len < g.n || g.weight.len < g.n)
                ==> g.refusal() == overrun(
                g.n,
                if g.h.len < g.weight.len {
                    g.h.len as int
                } else {
                    g.weight.len as int
                },
            )
        }),
{
}

/// Of all that is wrong with a growth, the first is told: the capacities, the cache it reads,
/// the cache it writes.
pub proof fn a_growth_is_told_what_is_wrong_first(g: Grow, src_len: int, dst_len: int)
    ensures
        ({
            let (old, new) = (
                g.kv_heads * g.old_cap * g.head_dim,
                g.kv_heads * g.new_cap * g.head_dim,
            );
            let caps = g.live <= g.old_cap <= g.new_cap;
            &&& !caps ==> g.refusal(src_len, dst_len) is Some && g.refusal(src_len, dst_len)->0
                is CacheOverrun
            &&& caps && old > src_len ==> g.refusal(src_len, dst_len) == overrun(old, src_len)
            &&& caps && old <= src_len && new > dst_len ==> g.refusal(src_len, dst_len) == overrun(
                new,
                dst_len,
            )
        }),
{
    let (h, w, o, n) = (g.kv_heads, g.head_dim, g.old_cap, g.new_cap);
    assert(h * w * o == h * o * w && h * w * n == h * n * w && h * (o * w) == h * o * w && h * (n
        * w) == h * n * w) by (nonlinear_arith);
}

/// Attention in halves is told first that the heads are not of 128 elements, then that the
/// capacity is odd, then that the heads do not share evenly.
pub proof fn attention_in_halves_is_told_what_is_wrong_first(
    head_dim: usize,
    heads: usize,
    kv_heads: usize,
    cap: usize,
)
    requires
        0 < kv_heads,
    ensures
        ({
            let shape = Some(CudaError::UnsupportedAttention { head_dim, heads, kv_heads });
            let told = flash_f16_refusal(head_dim, heads, kv_heads, cap);
            &&& head_dim != 128 ==> told == shape
            &&& head_dim == 128 && cap % 2 != 0 ==> told == Some(
                CudaError::OddCacheCapacity { cap },
            )
            &&& head_dim == 128 && cap % 2 == 0 && heads as int % kv_heads as int != 0 ==> told
                == shape
        }),
{
}

/// A longer context never takes a kernel that covers fewer keys a block, at one head shape.
pub proof fn longer_contexts_take_no_smaller_chunks(
    heads: usize,
    kv_heads: usize,
    head_dim: usize,
    shorter: usize,
    longer: usize,
    cap: usize,
)
    requires
        shorter <= longer,
        cap % 2 == 0,
        head_dim == 64 || head_dim == 128,
    ensures
        chunk_of(decode_kernel(heads, kv_heads, head_dim, shorter, cap)->Ok_0) <= chunk_of(
            decode_kernel(heads, kv_heads, head_dim, longer, cap)->Ok_0,
        ),
{
}

} // verus!
