//! Attention and rotation: which queries meet which keys and values, and which pairs are
//! turned by how much.

use super::{
    arg_at, arg_float, arg_given, arg_int, at, flat2, has_a_block_a_row, has_threads, int_fits,
    ints_fit, lemma_flat_runs, lemma_rows, maybe_at, three_ints_fit, Place,
};
use crate::arith::{ceil_div_covers, is_pow2};
use crate::attention::{
    attention_context_cmd, attention_scores_cmd, flash_covers, flash_f16_refusal, flash_kernel,
    flash_launch, rope_gptj_cmd, rope_launch, Taco,
};
use crate::buffer::{CudaSlice, FloatBits, Fp32};
use crate::cache::RopeCache;
use crate::decode::{chunk_of, decode_kernel, gmax_of, Decode, KvCache};
use crate::names::Kernel;
use crate::queue::{made, Arg, Cmd};
use crate::scratch::DecodeScratch;
use vstd::math::max;
use vstd::prelude::*;

verus! {

/// What one head makes of one query row: the softmax of its products with the first `seen`
/// keys, over as many values.
pub struct Attended {
    /// The first element of the query.
    pub query: Option<Place>,
    /// The first element of the head's first key.
    pub keys: Option<Place>,
    /// Elements from one key to the next.
    pub key_step: int,
    /// The first element of the head's first value.
    pub values: Option<Place>,
    /// Elements from one element of a value to the next: the values lie across.
    pub value_step: int,
    /// Elements a row.
    pub width: int,
    /// How many positions are attended to.
    pub seen: int,
    /// What the products are scaled by.
    pub scale: FloatBits,
    /// Whether the caches are of halves.
    pub halves: bool,
    /// Where the context starts.
    pub out: Option<Place>,
}

/// Elements a head, of the fused kernels.
pub open spec fn flash_width(kernel: Kernel) -> int {
    match kernel {
        Kernel::FlashAttn | Kernel::FlashAttnH => 128,
        Kernel::FlashAttn64 => 64,
        _ => 0,
    }
}

/// Query rows a block of theirs owns.
pub open spec fn flash_rows(kernel: Kernel) -> int {
    match kernel {
        Kernel::FlashAttn | Kernel::FlashAttnH => 32,
        Kernel::FlashAttn64 => 64,
        _ => 0,
    }
}

/// What a fused attention does with query row `p` of head `h`.
pub open spec fn flash(c: Cmd, p: int, h: int) -> Option<Attended> {
    let (kernel, cfg) = (c->kernel, c->cfg);
    let (tq, past, heads, kv_heads, cap) = (
        arg_int(c, 4),
        arg_int(c, 5),
        arg_int(c, 6),
        arg_int(c, 7),
        arg_int(c, 8),
    );
    let w = flash_width(kernel);
    let kv = h / (heads / kv_heads);
    let owned = p < cfg.grid_dim.0 * flash_rows(kernel) && h < cfg.grid_dim.1 && cfg.block_dim == (
        32u32,
        8u32,
        1u32,
    ) && cfg.grid_dim.2 == 1;
    if owned && p < tq {
        Some(
            Attended {
                query: arg_at(c, 0, p * (heads * w) + h * w),
                keys: arg_at(c, 1, kv * cap * w),
                key_step: w,
                values: arg_at(c, 2, kv * w * cap),
                value_step: cap,
                width: w,
                seen: if arg_int(c, 10) != 0 {
                    past + p + 1
                } else {
                    past + tq
                },
                scale: arg_float(c, 9),
                halves: kernel == Kernel::FlashAttnH,
                out: arg_at(c, 3, p * (heads * w) + h * w),
            },
        )
    } else {
        None
    }
}

/// Whether the sizes of an attention are the device's integers.
pub open spec fn flash_ints_fit(
    tq: usize,
    past: usize,
    heads: usize,
    kv_heads: usize,
    cap: usize,
) -> bool {
    &&& int_fits(tq as int) && int_fits(past as int)
    &&& int_fits(heads as int) && int_fits(kv_heads as int) && int_fits(cap as int)
}

/// Whether every one of `tq` query rows attends, in each of `heads` heads of `width`: to
/// the positions up to its own where the attention is causal, whatever is cached, and to
/// all of them where it is not; against the keys and values of the head it shares.
pub open spec fn attends<T>(
    c: Cmd,
    q: CudaSlice<Fp32>,
    k: CudaSlice<T>,
    v: CudaSlice<T>,
    out: CudaSlice<Fp32>,
    tq: int,
    past: int,
    heads: int,
    kv_heads: int,
    width: int,
    cap: int,
    scale: FloatBits,
    causal: bool,
    halves: bool,
) -> bool {
    forall|p: int, h: int|
        0 <= p < tq && 0 <= h < heads ==> #[trigger] flash(c, p, h) == Some(
            Attended {
                query: at(q, flat2(p, h * width, heads * width)),
                keys: at(k, h / (heads / kv_heads) * cap * width),
                key_step: width,
                values: at(v, h / (heads / kv_heads) * width * cap),
                value_step: cap,
                width,
                seen: past + if causal {
                    p + 1
                } else {
                    tq
                },
                scale,
                halves,
                out: at(out, flat2(p, h * width, heads * width)),
            },
        )
}

/// A fused attention that is not refused is causal exactly where that was asked for: every
/// row of every head sees the cached positions and the rows up to itself, or all of them.
pub proof fn every_query_attends_to_what_precedes_it(
    q: &CudaSlice<Fp32>,
    k: &CudaSlice<Fp32>,
    v: &CudaSlice<Fp32>,
    out: CudaSlice<Fp32>,
    tq: usize,
    past: usize,
    heads: usize,
    kv_heads: usize,
    head_dim: usize,
    cap: usize,
    scale: FloatBits,
    causal: bool,
)
    requires
        flash_covers(head_dim as int, heads as int, kv_heads as int),
        int_fits(tq as int),
        int_fits(past as int),
        int_fits(heads as int),
        int_fits(kv_heads as int),
        int_fits(cap as int),
    ensures
        attends(
            flash_launch(
                flash_kernel(head_dim as int).0,
                flash_kernel(head_dim as int).1,
                q,
                k,
                v,
                out,
                tq,
                past,
                heads,
                kv_heads,
                cap,
                scale,
                causal,
            ),
            *q,
            *k,
            *v,
            out,
            tq as int,
            past as int,
            heads as int,
            kv_heads as int,
            head_dim as int,
            cap as int,
            scale,
            causal,
            false,
        ),
{
    ceil_div_covers(tq as int, flash_kernel(head_dim as int).1);
}

/// So is one against a cache of halves.
pub proof fn every_query_attends_to_what_precedes_it_in_halves(
    q: &CudaSlice<Fp32>,
    k: &CudaSlice<u16>,
    v: &CudaSlice<u16>,
    out: CudaSlice<Fp32>,
    tq: usize,
    past: usize,
    heads: usize,
    kv_heads: usize,
    head_dim: usize,
    cap: usize,
    scale: FloatBits,
    causal: bool,
)
    requires
        flash_f16_refusal(head_dim, heads, kv_heads, cap) is None,
        int_fits(tq as int),
        int_fits(past as int),
        int_fits(heads as int),
        int_fits(kv_heads as int),
        int_fits(cap as int),
    ensures
        attends(
            flash_launch(
                Kernel::FlashAttnH,
                32,
                q,
                k,
                v,
                out,
                tq,
                past,
                heads,
                kv_heads,
                cap,
                scale,
                causal,
            ),
            *q,
            *k,
            *v,
            out,
            tq as int,
            past as int,
            heads as int,
            kv_heads as int,
            head_dim as int,
            cap as int,
            scale,
            causal,
            true,
        ),
{
    ceil_div_covers(tq as int, 32);
}

/// Elements a head, of the decode kernels.
pub open spec fn decode_width(kernel: Kernel) -> int {
    match kernel {
        Kernel::AttnDecodeH128
        | Kernel::AttnDecodeH128C32
        | Kernel::AttnDecodeH128C128 => 128,
        Kernel::AttnDecodeH64
        | Kernel::AttnDecodeH64G8
        | Kernel::AttnDecodeH64G8C32
        | Kernel::AttnDecodeF64 => 64,
        _ => 0,
    }
}

/// Keys a block of theirs covers.
pub open spec fn decode_keys(kernel: Kernel) -> int {
    match kernel {
        Kernel::AttnDecodeH128C32 | Kernel::AttnDecodeH64G8C32 => 32,
        Kernel::AttnDecodeH128C128 => 128,
        _ => 64,
    }
}

/// Query rows a key-value head may carry in one.
pub open spec fn decode_group(kernel: Kernel) -> int {
    match kernel {
        Kernel::AttnDecodeH64G8 | Kernel::AttnDecodeH64G8C32 => 8,
        _ => 4,
    }
}

/// What a decode attention does with query head `h`: every block of its key-value head
/// takes its own keys, and the last one merges them.
pub open spec fn decoded(c: Cmd, h: int) -> Option<Attended> {
    let (kernel, cfg) = (c->kernel, c->cfg);
    let (tk, group, cap) = (arg_int(c, 6), arg_int(c, 7), arg_int(c, 8));
    let w = decode_width(kernel);
    let kv = h / group;
    let whole = cfg.grid_dim.0 * decode_keys(kernel) >= tk && cfg.grid_dim.0 == arg_int(c, 11)
        && cfg.grid_dim.2 == 1 && cfg.block_dim.0 == w && cfg.block_dim.1 == 1
        && cfg.block_dim.2 == 1 && group <= decode_group(kernel);
    if whole && kv < cfg.grid_dim.1 && arg_given(c, 4) && arg_given(c, 5) {
        Some(
            Attended {
                query: arg_at(c, 0, arg_int(c, 14) + h * w),
                keys: arg_at(c, 1, kv * cap * w),
                key_step: w,
                values: arg_at(c, 2, kv * w * cap),
                value_step: cap,
                width: w,
                seen: tk,
                scale: arg_float(c, 9),
                halves: kernel != Kernel::AttnDecodeF64,
                out: arg_at(c, 3, arg_int(c, 15) + h * w),
            },
        )
    } else {
        None
    }
}

/// The keys and the values of a cache, from element `i` of each.
pub open spec fn cache_at(kv: KvCache<'_>, i: int) -> (Option<Place>, Option<Place>) {
    match kv {
        KvCache::F32(k, v) => (at(*k, i), at(*v, i)),
        KvCache::F16(k, v) => (at(*k, i), at(*v, i)),
    }
}

/// Whether every query head of a row attends to all `tk` live positions of the keys that
/// were given as keys and the values that were given as values, those of the key-value head
/// it shares, and leaves its context where the row goes; with the int8 twin of it, where one
/// is wanted, from the start of the twin's buffer.
pub open spec fn decodes(c: Cmd, d: Decode<'_>) -> bool {
    let group = d.heads / d.kv_heads;
    &&& arg_int(c, 10) == if d.scale_q {
        1int
    } else {
        0
    }
    &&& match d.twin {
        Some(q) => arg_at(c, 12, 0) == at(q.buf, 0) && arg_int(c, 13) == q.rows * q.k,
        None => !arg_given(c, 12),
    }
    &&& forall|h: int|
        0 <= h < d.heads ==> #[trigger] decoded(c, h) == Some(
            Attended {
                query: at(d.q, d.q_off + h * d.head_dim),
                keys: cache_at(d.kv, h / group * d.cap * d.head_dim).0,
                key_step: d.head_dim,
                values: cache_at(d.kv, h / group * d.head_dim * d.cap).1,
                value_step: d.cap,
                width: d.head_dim,
                seen: d.tk,
                scale: d.scale,
                halves: d.kv is F16,
                out: at(d.out, d.out_off + h * d.head_dim),
            },
        )
}

/// The sizes of a decode attention are the device's integers.
pub open spec fn decode_ints_fit(d: Decode<'_>) -> bool {
    &&& int_fits(d.heads) && int_fits(d.kv_heads) && int_fits(d.tk) && int_fits(d.cap)
    &&& 0 <= d.q_off <= i64::MAX && 0 <= d.out_off <= i64::MAX
    &&& d.twin is Some ==> int_fits(d.twin->0.rows * d.twin->0.k)
}

/// A decode attention that is not refused, by a kernel of its head's width and its cache's
/// precision, reads its keys from the keys and its values from the values, whatever their
/// precision, and every head of the row gets its context.
pub proof fn every_head_decodes_against_its_keys_and_values(
    d: Decode<'_>,
    s: DecodeScratch,
)
    requires
        d.refusal() is None,
        decode_ints_fit(d),
        d.head_dim == decode_width(d.kernel),
        d.kv is F32 <==> d.kernel == Kernel::AttnDecodeF64,
        s.part is Some,
        s.ctr is Some,
    ensures
        decodes(d.decode_launch(s), d),
{
    let c = d.decode_launch(s);
    let group = d.heads / d.kv_heads;
    ceil_div_covers(d.tk, chunk_of(d.kernel));
    assert(d.chunks() <= d.tk) by (nonlinear_arith)
        requires
            (d.chunks() - 1) * chunk_of(d.kernel) < d.tk,
            chunk_of(d.kernel) >= 32,
            d.tk >= 1,
    ;
    vstd::arithmetic::div_mod::lemma_fundamental_div_mod(d.heads, d.kv_heads);
    assert(0 <= group <= gmax_of(d.kernel)) by (nonlinear_arith)
        requires
            group == d.heads / d.kv_heads,
            0 <= d.heads,
            0 < d.kv_heads,
            group <= gmax_of(d.kernel),
    ;
    assert forall|h: int| 0 <= h < d.heads implies #[trigger] decoded(c, h) is Some by {
        lemma_group(h, group, d.heads, d.kv_heads);
    }
}

proof fn lemma_group(h: int, group: int, heads: int, kv_heads: int)
    requires
        0 <= h < heads,
        0 <= group,
        heads == kv_heads * group,
    ensures
        0 <= h / group < kv_heads,
{
    assert(group != 0) by (nonlinear_arith)
        requires
            0 < heads,
            heads == kv_heads * group,
    ;
    vstd::arithmetic::div_mod::lemma_fundamental_div_mod(h, group);
    let (q, r) = (h / group, h % group);
    assert(0 <= q < kv_heads) by (nonlinear_arith)
        requires
            0 <= h < heads,
            0 < group,
            heads == kv_heads * group,
            h == group * q + r,
            0 <= r < group,
    ;
}

/// The kernel that a shape is given is one of its head's width, for halves.
pub proof fn the_chosen_kernel_is_of_its_width(
    heads: usize,
    kv_heads: usize,
    head_dim: usize,
    tk: usize,
    cap: usize,
)
    ensures
        decode_kernel(heads, kv_heads, head_dim, tk, cap) matches Ok(kernel) ==> {
            &&& decode_width(kernel) == head_dim
            &&& kernel != Kernel::AttnDecodeF64
        },
{
}

/// Two elements that are turned into each other: by the angle of a position at the
/// frequency of a pair.
pub struct Rotation {
    /// The first of them.
    pub low: Option<Place>,
    /// The second.
    pub high: Option<Place>,
    /// Where the turned ones go.
    pub to: (Option<Place>, Option<Place>),
    /// Of which position.
    pub position: int,
    /// Of which pair.
    pub pair: int,
    /// Of how wide a head.
    pub width: int,
    /// The base of the frequencies.
    pub theta: FloatBits,
    /// What the frequency is divided by, where it is.
    pub divisor: Option<Place>,
}

/// What thread `i` of the rotation does.
pub open spec fn rotation(c: Cmd, i: int) -> Option<Rotation> {
    let (t, heads, w) = (arg_int(c, 4), arg_int(c, 5), arg_int(c, 6));
    let half = w / 2;
    let (j, h, p) = (i % half, (i / half) % heads, i / (half * heads));
    let base = arg_int(c, 1) + (p * heads + h) * w + j;
    if c->kernel == Kernel::Rope && i < t * heads * half {
        Some(
            Rotation {
                low: arg_at(c, 0, base),
                high: arg_at(c, 0, base + half),
                to: (arg_at(c, 0, base), arg_at(c, 0, base + half)),
                position: arg_int(c, 8) + p,
                pair: j,
                width: w,
                theta: arg_float(c, 7),
                divisor: if arg_int(c, 3) != 0 {
                    arg_at(c, 2, j)
                } else {
                    None
                },
            },
        )
    } else {
        None
    }
}

/// Whether every pair of every head of `t` positions is turned in place, by the angle of
/// its own position and its own pair: element `j` of a head and the one half a head on.
pub open spec fn rotates(
    c: Cmd,
    x: CudaSlice<Fp32>,
    off: int,
    freq_div: Option<&CudaSlice<Fp32>>,
    t: int,
    heads: int,
    width: int,
    theta: FloatBits,
    first: int,
) -> bool {
    &&& has_threads(c, t * heads * (width / 2))
    &&& forall|i: int| t * heads * (width / 2) <= i ==> #[trigger] rotation(c, i) is None
    &&& forall|p: int, h: int, j: int|
        0 <= p < t && 0 <= h < heads && 0 <= j < width / 2 ==> rotation(
            c,
            #[trigger] flat2(flat2(p, h, heads), j, width / 2),
        ) == Some(
            Rotation {
                low: at(x, off + flat2(p, h, heads) * width + j),
                high: at(x, off + flat2(p, h, heads) * width + j + width / 2),
                to: (
                    at(x, off + flat2(p, h, heads) * width + j),
                    at(x, off + flat2(p, h, heads) * width + j + width / 2),
                ),
                position: first + p,
                pair: j,
                width,
                theta,
                divisor: maybe_at(freq_div, j),
            },
        )
}

/// A rotation has a thread for every pair, and turns each by its own position: with the
/// divisors exactly where they are given.
pub proof fn every_pair_is_rotated(
    x: &CudaSlice<Fp32>,
    off: usize,
    freq_div: Option<&CudaSlice<Fp32>>,
    t: usize,
    heads: usize,
    head_dim: usize,
    theta: FloatBits,
    first: usize,
)
    requires
        three_ints_fit(t as int, heads as int, head_dim as int),
        off <= i64::MAX,
        int_fits(first + t),
    ensures
        rotates(
            rope_launch(x, off, freq_div, t, heads, head_dim, theta, first),
            *x,
            off as int,
            freq_div,
            t as int,
            heads as int,
            head_dim as int,
            theta,
            first as int,
        ),
{
    let c = rope_launch(x, off, freq_div, t, heads, head_dim, theta, first);
    let (rows, half) = (t * heads, head_dim as int / 2);
    lemma_flat_runs(c, rows * head_dim / 2);
    assert(rows * half <= rows * head_dim / 2) by (nonlinear_arith)
        requires
            0 <= rows,
            half == head_dim as int / 2,
            0 <= head_dim,
    ;
    lemma_rows(t as int, heads as int);
    lemma_rows(rows, half);
    assert forall|p: int, h: int, j: int|
        0 <= p < t && 0 <= h < heads && 0 <= j < half implies (#[trigger] flat2(
        flat2(p, h, heads as int),
        j,
        half,
    )) / (half * heads) == p by {
        let i = flat2(flat2(p, h, heads as int), j, half);
        vstd::arithmetic::div_mod::lemma_div_denominator(i, half, heads as int);
    }
}

/// What thread `i` of the interleaved rotation turns: two elements side by side, of which
/// position, at which frequency.
pub open spec fn interleaved(c: Cmd, i: int) -> Option<
    (Option<Place>, Option<Place>, int, Option<Place>),
> {
    let (positions, dim, pairs) = (arg_int(c, 2), arg_int(c, 3), arg_int(c, 4) / 2);
    let (p, j) = (i / pairs, i % pairs);
    if c->kernel == Kernel::RopeGptj && i < positions * pairs {
        Some(
            (
                arg_at(c, 0, p * dim + 2 * j),
                arg_at(c, 0, p * dim + 2 * j + 1),
                p,
                arg_at(c, 1, j),
            ),
        )
    } else {
        None
    }
}

/// Whether the first `rot_dim` elements of each of `positions` rows of `dim` are turned, two
/// neighbours at a time, by the angle of their row at their own frequency.
pub open spec fn rotates_neighbours(
    c: Cmd,
    x: CudaSlice<Fp32>,
    inv_freq: CudaSlice<Fp32>,
    positions: int,
    dim: int,
    rot_dim: int,
) -> bool {
    &&& has_threads(c, positions * (rot_dim / 2))
    &&& forall|i: int| positions * (rot_dim / 2) <= i ==> #[trigger] interleaved(c, i) is None
    &&& forall|p: int, j: int|
        0 <= p < positions && 0 <= j < rot_dim / 2 ==> interleaved(
            c,
            #[trigger] flat2(p, j, rot_dim / 2),
        ) == Some(
            (
                at(x, flat2(p, 2 * j, dim)),
                at(x, flat2(p, 2 * j + 1, dim)),
                p,
                at(inv_freq, j),
            ),
        )
}

/// The interleaved rotation has a thread for every pair of neighbours.
pub proof fn every_two_neighbours_are_rotated(
    x: &CudaSlice<Fp32>,
    inv_freq: &CudaSlice<Fp32>,
    positions: usize,
    dim: usize,
    rot_dim: usize,
)
    requires
        ints_fit(positions as int, rot_dim as int),
        int_fits(dim as int),
    ensures
        rotates_neighbours(
            rope_gptj_cmd(x, inv_freq, positions, dim, rot_dim),
            *x,
            *inv_freq,
            positions as int,
            dim as int,
            rot_dim as int,
        ),
{
    let c = rope_gptj_cmd(x, inv_freq, positions, dim, rot_dim);
    lemma_flat_runs(c, positions * rot_dim / 2);
    assert(positions * (rot_dim as int / 2) <= positions * rot_dim / 2) by (nonlinear_arith)
        requires
            0 <= positions,
            0 <= rot_dim,
    ;
    lemma_rows(positions as int, rot_dim as int / 2);
}

/// A logit with its relative term: the products of a query and a key of `len` elements
/// each, and of the query and the embedding of how far apart they are, where they are near
/// enough, all of it scaled.
pub struct Logit {
    pub query: Option<Place>,
    pub key: Option<Place>,
    pub near: Option<Place>,
    pub len: int,
    pub scaling: Arg,
    pub to: Option<Place>,
}

/// What thread `n` of the logits' kernel does.
pub open spec fn logit(c: Cmd, n: int) -> Option<Logit> {
    let (t, embed, heads, w, window) = (
        arg_int(c, 4),
        arg_int(c, 5),
        arg_int(c, 6),
        arg_int(c, 7),
        arg_int(c, 8),
    );
    let h = n / (t * t);
    let rem = n - h * (t * t);
    let (i, j) = (rem / t, rem - rem / t * t);
    let r = window + j - i;
    if c->kernel == Kernel::AttentionScores && n < heads * t * t {
        Some(
            Logit {
                query: arg_at(c, 0, i * embed + h * w),
                key: arg_at(c, 1, j * embed + h * w),
                near: if 0 <= r < 2 * window + 1 {
                    arg_at(c, 2, r * w)
                } else {
                    None
                },
                len: w,
                scaling: c->args[9],
                to: arg_at(c, 3, n),
            },
        )
    } else {
        None
    }
}

/// Whether every query of every head gets its logit with every key: the relative term of
/// distance `j - i` where that is within the window, and the scale of the head's width.
pub open spec fn scores(
    c: Cmd,
    q: CudaSlice<Fp32>,
    k: CudaSlice<Fp32>,
    near: CudaSlice<Fp32>,
    out: CudaSlice<Fp32>,
    t: int,
    embed: int,
    heads: int,
    window: int,
) -> bool {
    let w = embed / heads;
    &&& has_threads(c, heads * t * t)
    &&& forall|n: int| heads * t * t <= n ==> #[trigger] logit(c, n) is None
    &&& forall|h: int, i: int, j: int|
        0 <= h < heads && 0 <= i < t && 0 <= j < t ==> logit(
            c,
            #[trigger] flat2(flat2(h, i, t), j, t),
        ) == Some(
            Logit {
                query: at(q, flat2(i, h * w, embed)),
                key: at(k, flat2(j, h * w, embed)),
                near: if -window <= j - i <= window {
                    at(near, (j - i + window) * w)
                } else {
                    None
                },
                len: w,
                scaling: Arg::InvSqrt(w as usize),
                to: at(out, flat2(flat2(h, i, t), j, t)),
            },
        )
}

/// Every query of every head is scored against every key, with the term of how far apart
/// they are.
pub proof fn every_query_is_scored_against_every_key(
    q: &CudaSlice<Fp32>,
    k: &CudaSlice<Fp32>,
    emb_rel_k: &CudaSlice<Fp32>,
    t: usize,
    embed: usize,
    heads: usize,
    window: usize,
    out: CudaSlice<Fp32>,
)
    requires
        heads >= 1,
        three_ints_fit(heads as int, t as int, t as int),
        int_fits(embed as int),
        int_fits(window as int),
    ensures
        scores(
            attention_scores_cmd(q, k, emb_rel_k, t, embed, heads, window, out),
            *q,
            *k,
            *emb_rel_k,
            out,
            t as int,
            embed as int,
            heads as int,
            window as int,
        ),
{
    let c = attention_scores_cmd(q, k, emb_rel_k, t, embed, heads, window, out);
    let (hs, n) = (heads as int, t as int);
    lemma_flat_runs(c, heads * t * t);
    lemma_rows(hs, n);
    lemma_rows(hs * n, n);
    lemma_rows(n, n);
    vstd::arithmetic::div_mod::lemma_div_is_ordered_by_denominator(embed as int, 1, hs);
    assert(embed as int / 1 == embed);
    assert forall|h: int, i: int, j: int| 0 <= h < hs && 0 <= i < n && 0 <= j < n implies ({
        let x = #[trigger] flat2(flat2(h, i, n), j, n);
        &&& x / (n * n) == h
        &&& x - h * (n * n) == flat2(i, j, n)
    }) by {
        let x = flat2(flat2(h, i, n), j, n);
        vstd::arithmetic::div_mod::lemma_div_denominator(x, n, n);
        assert((h * n + i) * n + j - h * (n * n) == i * n + j) by (nonlinear_arith);
    }
}

/// One element of a context with its relative term: the products of a row of weights with
/// a column of values, and with a column of embeddings where the two are near enough.
pub struct Mixed {
    pub weights: Option<Place>,
    pub values: Option<Place>,
    pub step: int,
    pub len: int,
    pub near: Option<Place>,
    pub near_step: int,
    pub window: int,
    pub query: int,
    pub to: Option<Place>,
}

/// What thread `n` of the context's kernel does.
pub open spec fn mixed(c: Cmd, n: int) -> Option<Mixed> {
    let (t, embed, w) = (arg_int(c, 4), arg_int(c, 5), arg_int(c, 7));
    let (i, col) = (n / embed, n - n / embed * embed);
    let (h, d) = (col / w, col - col / w * w);
    if c->kernel == Kernel::AttentionContext && n < t * embed {
        Some(
            Mixed {
                weights: arg_at(c, 0, (h * t + i) * t),
                values: arg_at(c, 1, col),
                step: embed,
                len: t,
                near: arg_at(c, 2, d),
                near_step: w,
                window: arg_int(c, 8),
                query: i,
                to: arg_at(c, 3, n),
            },
        )
    } else {
        None
    }
}

/// Whether every column of every row of the context is its own head's weights over its own
/// column of the values, and of the embeddings of how far apart they are.
pub open spec fn mixes(
    c: Cmd,
    probs: CudaSlice<Fp32>,
    v: CudaSlice<Fp32>,
    near: CudaSlice<Fp32>,
    out: CudaSlice<Fp32>,
    t: int,
    embed: int,
    heads: int,
    window: int,
) -> bool {
    let w = embed / heads;
    &&& arg_int(c, 6) == heads
    &&& has_threads(c, t * embed)
    &&& forall|n: int| t * embed <= n ==> #[trigger] mixed(c, n) is None
    &&& forall|i: int, col: int|
        0 <= i < t && 0 <= col < embed ==> mixed(c, #[trigger] flat2(i, col, embed)) == Some(
            Mixed {
                weights: at(probs, flat2(flat2(col / w, i, t), 0, t)),
                values: at(v, col),
                step: embed,
                len: t,
                near: at(near, col - col / w * w),
                near_step: w,
                window,
                query: i,
                to: at(out, flat2(i, col, embed)),
            },
        )
}

/// Every column of every row of the context is mixed by its own head's weights.
pub proof fn every_column_is_mixed_by_its_head(
    probs: &CudaSlice<Fp32>,
    v: &CudaSlice<Fp32>,
    emb_rel_v: &CudaSlice<Fp32>,
    t: usize,
    embed: usize,
    heads: usize,
    window: usize,
    out: CudaSlice<Fp32>,
)
    requires
        heads >= 1,
        ints_fit(t as int, embed as int),
        int_fits(heads as int),
        int_fits(window as int),
    ensures
        mixes(
            attention_context_cmd(probs, v, emb_rel_v, t, embed, heads, window, out),
            *probs,
            *v,
            *emb_rel_v,
            out,
            t as int,
            embed as int,
            heads as int,
            window as int,
        ),
{
    lemma_flat_runs(
        attention_context_cmd(probs, v, emb_rel_v, t, embed, heads, window, out),
        t * embed,
    );
    lemma_rows(t as int, embed as int);
    vstd::arithmetic::div_mod::lemma_div_is_ordered_by_denominator(embed as int, 1, heads as int);
    assert(embed as int / 1 == embed);
}

/// The score of one position: the energies of `channels` channels, each from `features`
/// location features, the query and the processed memory, against a vector.
pub struct Energy {
    pub features: Option<Place>,
    pub feature_step: int,
    pub feature_count: int,
    pub dense: Option<Place>,
    pub query: Option<Place>,
    pub processed: Option<Place>,
    pub vector: Option<Place>,
    pub channels: int,
    pub to: Option<Place>,
}

/// What block `p` of the energies' kernel does: a thread a channel, which halve over a word of
/// shared memory each.
pub open spec fn energy(c: Cmd, p: int) -> Option<Energy> {
    let (t, f, a) = (arg_int(c, 6), arg_int(c, 7), arg_int(c, 8));
    if c->kernel == Kernel::TacoEnergies && p < c->cfg.grid_dim.0 && c->cfg.block_dim.0 == a
        && is_pow2(a) && c->cfg.shared_mem_bytes >= 4 * a {
        Some(
            Energy {
                features: arg_at(c, 0, p),
                feature_step: t,
                feature_count: f,
                dense: arg_at(c, 1, 0),
                query: arg_at(c, 2, 0),
                processed: arg_at(c, 3, p * a),
                vector: arg_at(c, 4, 0),
                channels: a,
                to: arg_at(c, 5, p),
            },
        )
    } else {
        None
    }
}

/// What the context's one block, which has a word of shared memory a score and a thread, does
/// with column `j`: the softmax of `len` scores over a
/// column of the memory; and where the alignment and the running sum start.
pub struct Context {
    pub scores: Option<Place>,
    pub memory: Option<Place>,
    pub step: int,
    pub len: int,
    pub to: Option<Place>,
    pub alignment: Option<Place>,
    pub running: Option<Place>,
}

/// Column `j` of the context.
pub open spec fn context(c: Cmd, j: int) -> Option<Context> {
    let (t, e) = (arg_int(c, 4), arg_int(c, 5));
    let threads = c->cfg.block_dim.0 as int;
    if c->kernel == Kernel::TacoContext && c->cfg.grid_dim == (1u32, 1u32, 1u32) && j < threads && j
        < e && is_pow2(threads) && c->cfg.shared_mem_bytes >= 4 * (t + threads) {
        Some(
            Context {
                scores: arg_at(c, 0, 0),
                memory: arg_at(c, 1, j),
                step: e,
                len: t,
                to: arg_at(c, 2, j),
                alignment: arg_at(c, 3, 0),
                running: arg_at(c, 3, t),
            },
        )
    } else {
        None
    }
}

/// A location-sensitive step that is not refused scores every position from its own
/// location features and its own row of the processed memory, and then mixes every column
/// of the memory by those scores, leaving the alignment and the running sum where the next
/// step reads them. Every operand is as long as that reads.
pub proof fn every_position_is_scored_and_mixed(s: Taco, at_: int, p: int, j: int)
    requires
        s.refusal() is None,
        int_fits(s.f),
        0 <= at_ <= usize::MAX,
        0 <= p < s.t,
        0 <= j < s.e,
    ensures
        s.commands(at_).len() == 3,
        energy(s.commands(at_)[1], p) == Some(
            Energy {
                features: at(s.loc, p),
                feature_step: s.t,
                feature_count: s.f,
                dense: at(s.wl, 0),
                query: at(s.query, 0),
                processed: at(s.processed, flat2(p, 0, s.a)),
                vector: at(s.v, 0),
                channels: s.a,
                to: at(s.score(at_), p),
            },
        ),
        context(s.commands(at_)[2], j) == Some(
            Context {
                scores: at(s.score(at_), 0),
                memory: at(s.memory, j),
                step: s.e,
                len: s.t,
                to: at(s.context, j),
                alignment: at(s.cat, 0),
                running: at(s.cat, s.t),
            },
        ),
        has_a_block_a_row(s.commands(at_)[1], s.t),
        s.loc.len >= s.f * s.t,
        s.wl.len >= s.a * s.f,
        s.query.len >= s.a,
        s.processed.len >= s.t * s.a,
        s.v.len >= s.a,
        s.memory.len >= s.t * s.e,
        s.cat.len >= 2 * s.t,
        s.context.len >= s.e,
{
    crate::attention::context_block_suits(s);
    reveal_with_fuel(crate::attention::first_short, 9);
    crate::arith::next_pow2_is_least(max(32, max(s.e, vstd::math::min(s.t, 1024))));
}

/// What thread `i` of the rotation into a cache does with a pair of the queries or of the
/// keys.
pub open spec fn cached_rotation(c: Cmd, i: int) -> Option<Rotation> {
    let (heads, kv_heads, w, pos, cap) = (
        arg_int(c, 8),
        arg_int(c, 9),
        arg_int(c, 10),
        arg_int(c, 12),
        arg_int(c, 15),
    );
    let half = w / 2;
    let (nq, nk) = (heads * half, kv_heads * half);
    let e = if i < nq {
        i
    } else {
        i - nq
    };
    let (j, h) = (e % half, e / half);
    let divisor = if arg_int(c, 7) != 0 {
        arg_at(c, 6, j)
    } else {
        None
    };
    if c->kernel != Kernel::RopeCacheF16 {
        None
    } else if i < nq {
        let base = arg_int(c, 1) + h * w + j;
        Some(
            Rotation {
                low: arg_at(c, 0, base),
                high: arg_at(c, 0, base + half),
                to: (arg_at(c, 0, base), arg_at(c, 0, base + half)),
                position: pos,
                pair: j,
                width: w,
                theta: arg_float(c, 11),
                divisor,
            },
        )
    } else if i < nq + nk {
        let base = arg_int(c, 3) + h * w + j;
        let row = (h * cap + pos) * w;
        Some(
            Rotation {
                low: arg_at(c, 2, base),
                high: arg_at(c, 2, base + half),
                to: (arg_at(c, 13, row + j), arg_at(c, 13, row + j + half)),
                position: pos,
                pair: j,
                width: w,
                theta: arg_float(c, 11),
                divisor,
            },
        )
    } else {
        None
    }
}

/// What thread `i` of it does with a value: from where, to where.
pub open spec fn cached_value(c: Cmd, i: int) -> Option<(Option<Place>, Option<Place>)> {
    let (heads, kv_heads, w, pos, cap) = (
        arg_int(c, 8),
        arg_int(c, 9),
        arg_int(c, 10),
        arg_int(c, 12),
        arg_int(c, 15),
    );
    let half = w / 2;
    let before = heads * half + kv_heads * half;
    let e = i - before;
    let (h, j) = (e / w, e % w);
    if c->kernel == Kernel::RopeCacheF16 && before <= i < before + kv_heads * w {
        Some((arg_at(c, 4, arg_int(c, 5) + e), arg_at(c, 14, (h * w + j) * cap + pos)))
    } else {
        None
    }
}

/// A rotation into a cache that is not refused turns every pair of the queries where it is
/// and every pair of the keys into row `pos` of its head's keys, and puts every value in
/// column `pos` of its head's values: each with a thread of its own.
pub proof fn every_pair_and_value_is_cached(g: RopeCache<'_>, h: int, j: int, kv: int, d: int)
    requires
        g.refusal() is None,
        int_fits(g.heads) && int_fits(g.kv_heads) && int_fits(g.head_dim),
        int_fits(g.heads * g.head_dim + g.kv_heads * g.head_dim * 2),
        int_fits(g.heads * g.head_dim) && int_fits(g.kv_heads * g.head_dim),
        int_fits(g.pos) && int_fits(g.cap),
        0 <= g.q.0 < g.proj.len() && 0 <= g.k.0 < g.proj.len() && 0 <= g.v.0 < g.proj.len(),
        0 <= g.q.1 <= i64::MAX && 0 <= g.k.1 <= i64::MAX && 0 <= g.v.1 <= i64::MAX,
        0 <= h < g.heads,
        0 <= kv < g.kv_heads,
        0 <= j < g.head_dim / 2,
        0 <= d < g.head_dim,
    ensures
        ({
            let (c, half) = (g.rope_launch(), g.head_dim / 2);
            let (keys, values) = (g.heads * half, g.heads * half + g.kv_heads * half);
            let query = g.q.1 + h * g.head_dim + j;
            let key = g.k.1 + kv * g.head_dim + j;
            let row = (kv * g.cap + g.pos) * g.head_dim;
            &&& has_threads(c, values + g.kv_heads * g.head_dim)
            &&& cached_rotation(c, flat2(h, j, half)) == Some(
                Rotation {
                    low: at(g.proj[g.q.0], query),
                    high: at(g.proj[g.q.0], query + half),
                    to: (at(g.proj[g.q.0], query), at(g.proj[g.q.0], query + half)),
                    position: g.pos,
                    pair: j,
                    width: g.head_dim,
                    theta: g.theta,
                    divisor: maybe_at(g.freq_div, j),
                },
            )
            &&& cached_rotation(c, keys + flat2(kv, j, half)) == Some(
                Rotation {
                    low: at(g.proj[g.k.0], key),
                    high: at(g.proj[g.k.0], key + half),
                    to: (at(g.kc, row + j), at(g.kc, row + j + half)),
                    position: g.pos,
                    pair: j,
                    width: g.head_dim,
                    theta: g.theta,
                    divisor: maybe_at(g.freq_div, j),
                },
            )
            &&& cached_value(c, values + flat2(kv, d, g.head_dim)) == Some(
                (
                    at(g.proj[g.v.0], g.v.1 + flat2(kv, d, g.head_dim)),
                    at(g.vc, flat2(flat2(kv, d, g.head_dim), g.pos, g.cap)),
                ),
            )
        }),
{
    let (c, w, half) = (g.rope_launch(), g.head_dim, g.head_dim / 2);
    crate::cache::rope_threads_cover(g);
    assert(g.heads * half <= g.heads * w && g.kv_heads * half <= g.kv_heads * w && 0 <= g.heads
        * half && 0 <= g.kv_heads * half) by (nonlinear_arith)
        requires
            0 <= g.heads,
            0 <= g.kv_heads,
            0 <= half <= w,
    ;
    lemma_flat_runs(c, g.threads());
    lemma_rows(g.heads, half);
    lemma_rows(g.kv_heads, half);
    lemma_rows(g.kv_heads, w);
    assert(flat2(h, j, half) < g.heads * half);
    assert(flat2(kv, j, half) < g.kv_heads * half);
    assert(flat2(kv, d, w) < g.kv_heads * w);
}

/// Whether a queue ends with the energies of every position, left in `score`, and the context
/// of every column by them.
pub open spec fn attends_by_location(q: Seq<Cmd>, score: CudaSlice<Fp32>, s: Taco) -> bool {
    &&& q.len() >= 2
    &&& has_a_block_a_row(q[q.len() - 2], s.t)
    &&& forall|p: int|
        0 <= p < s.t ==> #[trigger] energy(q[q.len() - 2], p) == Some(
            Energy {
                features: at(s.loc, p),
                feature_step: s.t,
                feature_count: s.f,
                dense: at(s.wl, 0),
                query: at(s.query, 0),
                processed: at(s.processed, flat2(p, 0, s.a)),
                vector: at(s.v, 0),
                channels: s.a,
                to: at(score, p),
            },
        )
    &&& forall|j: int|
        0 <= j < s.e ==> #[trigger] context(q[q.len() - 1], j) == Some(
            Context {
                scores: at(score, 0),
                memory: at(s.memory, j),
                step: s.e,
                len: s.t,
                to: at(s.context, j),
                alignment: at(s.cat, 0),
                running: at(s.cat, s.t),
            },
        )
}

/// [`every_position_is_scored_and_mixed`], of every position and every column.
pub proof fn a_step_attends_by_location(s: Taco, at_: int, before: Seq<Cmd>)
    requires
        s.refusal() is None,
        int_fits(s.f),
        0 < s.e,
        0 <= at_ <= usize::MAX,
    ensures
        attends_by_location(before + s.commands(at_), made::<Fp32>(at_, s.t), s),
{
    let q = before + s.commands(at_);
    let score = made::<Fp32>(at_, s.t);
    every_position_is_scored_and_mixed(s, at_, 0, 0);
    assert(q[q.len() - 2] == s.commands(at_)[1]);
    assert(q[q.len() - 1] == s.commands(at_)[2]);
    assert forall|p: int| 0 <= p < s.t implies #[trigger] energy(q[q.len() - 2], p) == Some(
        Energy {
            features: at(s.loc, p),
            feature_step: s.t,
            feature_count: s.f,
            dense: at(s.wl, 0),
            query: at(s.query, 0),
            processed: at(s.processed, flat2(p, 0, s.a)),
            vector: at(s.v, 0),
            channels: s.a,
            to: at(score, p),
        },
    ) by {
        every_position_is_scored_and_mixed(s, at_, p, 0);
    }
    assert forall|j: int| 0 <= j < s.e implies #[trigger] context(q[q.len() - 1], j) == Some(
        Context {
            scores: at(score, 0),
            memory: at(s.memory, j),
            step: s.e,
            len: s.t,
            to: at(s.context, j),
            alignment: at(s.cat, 0),
            running: at(s.cat, s.t),
        },
    ) by {
        every_position_is_scored_and_mixed(s, at_, 0, j);
    }
}

/// Whether the sizes of a rotation into a cache are the device's integers.
pub open spec fn rope_cache_ints_fit(g: RopeCache<'_>) -> bool {
    &&& int_fits(g.heads) && int_fits(g.kv_heads) && int_fits(g.head_dim)
    &&& int_fits(g.heads * g.head_dim + g.kv_heads * g.head_dim * 2)
    &&& int_fits(g.heads * g.head_dim) && int_fits(g.kv_heads * g.head_dim)
    &&& int_fits(g.pos) && int_fits(g.cap)
    &&& 0 <= g.q.0 < g.proj.len() && 0 <= g.k.0 < g.proj.len() && 0 <= g.v.0 < g.proj.len()
    &&& 0 <= g.q.1 <= i64::MAX && 0 <= g.k.1 <= i64::MAX && 0 <= g.v.1 <= i64::MAX
}

/// Whether a launch rotates every pair of every query head where it is, every pair of every
/// key head into its head's position of the keys, and moves every value to its own row.
pub open spec fn rotates_and_stores(c: Cmd, g: RopeCache<'_>) -> bool {
    let half = g.head_dim / 2;
    let (keys, values) = (g.heads * half, g.heads * half + g.kv_heads * half);
    &&& has_threads(c, values + g.kv_heads * g.head_dim)
    &&& forall|h: int, j: int|
        0 <= h < g.heads && 0 <= j < half ==> cached_rotation(c, #[trigger] flat2(h, j, half))
            == Some(
            Rotation {
                low: at(g.proj[g.q.0], g.q.1 + h * g.head_dim + j),
                high: at(g.proj[g.q.0], g.q.1 + h * g.head_dim + j + half),
                to: (
                    at(g.proj[g.q.0], g.q.1 + h * g.head_dim + j),
                    at(g.proj[g.q.0], g.q.1 + h * g.head_dim + j + half),
                ),
                position: g.pos,
                pair: j,
                width: g.head_dim,
                theta: g.theta,
                divisor: maybe_at(g.freq_div, j),
            },
        )
    &&& forall|kv: int, j: int|
        0 <= kv < g.kv_heads && 0 <= j < half ==> cached_rotation(
            c,
            keys + #[trigger] flat2(kv, j, half),
        ) == Some(
            Rotation {
                low: at(g.proj[g.k.0], g.k.1 + kv * g.head_dim + j),
                high: at(g.proj[g.k.0], g.k.1 + kv * g.head_dim + j + half),
                to: (
                    at(g.kc, (kv * g.cap + g.pos) * g.head_dim + j),
                    at(g.kc, (kv * g.cap + g.pos) * g.head_dim + j + half),
                ),
                position: g.pos,
                pair: j,
                width: g.head_dim,
                theta: g.theta,
                divisor: maybe_at(g.freq_div, j),
            },
        )
    &&& forall|kv: int, d: int|
        0 <= kv < g.kv_heads && 0 <= d < g.head_dim ==> cached_value(
            c,
            values + #[trigger] flat2(kv, d, g.head_dim),
        ) == Some(
            (
                at(g.proj[g.v.0], g.v.1 + flat2(kv, d, g.head_dim)),
                at(g.vc, flat2(flat2(kv, d, g.head_dim), g.pos, g.cap)),
            ),
        )
}

/// [`every_pair_and_value_is_cached`], of all of them.
pub proof fn a_row_is_rotated_and_stored(g: RopeCache<'_>)
    requires
        g.refusal() is None,
        rope_cache_ints_fit(g),
        0 < g.heads && 0 < g.kv_heads && 2 <= g.head_dim,
    ensures
        rotates_and_stores(g.rope_launch(), g),
{
    let c = g.rope_launch();
    let half = g.head_dim / 2;
    let (keys, values) = (g.heads * half, g.heads * half + g.kv_heads * half);
    every_pair_and_value_is_cached(g, 0, 0, 0, 0);
    assert forall|h: int, j: int| 0 <= h < g.heads && 0 <= j < half implies cached_rotation(
        c,
        #[trigger] flat2(h, j, half),
    ) == Some(
        Rotation {
            low: at(g.proj[g.q.0], g.q.1 + h * g.head_dim + j),
            high: at(g.proj[g.q.0], g.q.1 + h * g.head_dim + j + half),
            to: (
                at(g.proj[g.q.0], g.q.1 + h * g.head_dim + j),
                at(g.proj[g.q.0], g.q.1 + h * g.head_dim + j + half),
            ),
            position: g.pos,
            pair: j,
            width: g.head_dim,
            theta: g.theta,
            divisor: maybe_at(g.freq_div, j),
        },
    ) by {
        every_pair_and_value_is_cached(g, h, j, 0, 0);
    }
    assert forall|kv: int, j: int| 0 <= kv < g.kv_heads && 0 <= j < half implies cached_rotation(
        c,
        keys + #[trigger] flat2(kv, j, half),
    ) == Some(
        Rotation {
            low: at(g.proj[g.k.0], g.k.1 + kv * g.head_dim + j),
            high: at(g.proj[g.k.0], g.k.1 + kv * g.head_dim + j + half),
            to: (
                at(g.kc, (kv * g.cap + g.pos) * g.head_dim + j),
                at(g.kc, (kv * g.cap + g.pos) * g.head_dim + j + half),
            ),
            position: g.pos,
            pair: j,
            width: g.head_dim,
            theta: g.theta,
            divisor: maybe_at(g.freq_div, j),
        },
    ) by {
        every_pair_and_value_is_cached(g, 0, j, kv, 0);
    }
    assert forall|kv: int, d: int|
        0 <= kv < g.kv_heads && 0 <= d < g.head_dim implies cached_value(
        c,
        values + #[trigger] flat2(kv, d, g.head_dim),
    ) == Some(
        (
            at(g.proj[g.v.0], g.v.1 + flat2(kv, d, g.head_dim)),
            at(g.vc, flat2(flat2(kv, d, g.head_dim), g.pos, g.cap)),
        ),
    ) by {
        every_pair_and_value_is_cached(g, 0, 0, kv, d);
    }
}

/// A decode attention is handed its scratch: the partials, and after them the counters.
pub proof fn a_decode_is_handed_its_scratch(d: Decode<'_>, s: DecodeScratch)
    requires
        s.part is Some,
        s.ctr is Some,
    ensures
        arg_at(d.decode_launch(s), 4, 0) == at(s.part->0, 0),
        arg_at(d.decode_launch(s), 5, 0) == at(s.ctr->0, 0),
{
}

/// The mask of a prompt's attention is on exactly where it is asked for, whatever is in the
/// cache, however many rows and heads there are and however wide they are stored.
pub proof fn the_mask_is_on_exactly_where_it_is_asked_for<T>(
    kernel: Kernel,
    rows: int,
    q: &CudaSlice<Fp32>,
    k: &CudaSlice<T>,
    v: &CudaSlice<T>,
    out: CudaSlice<Fp32>,
    tq: usize,
    past: usize,
    heads: usize,
    kv_heads: usize,
    cap: usize,
    scale: FloatBits,
    causal: bool,
)
    ensures
        masks_as_asked(
            flash_launch(
                kernel,
                rows,
                q,
                k,
                v,
                out,
                tq,
                past,
                heads,
                kv_heads,
                cap,
                scale,
                causal,
            ),
            causal,
        ),
{
}

/// Whether an attention's launch is told to mask, with a one, or not to, with a zero.
pub open spec fn masks_as_asked(c: Cmd, causal: bool) -> bool {
    c->args[10] == Arg::I32(
        if causal {
            1
        } else {
            0
        },
    )
}

/// Whether an attention's launch reads the keys of a cache as its second argument and the
/// values as its third.
pub open spec fn reads_keys_then_values(c: Cmd, kv: KvCache<'_>) -> bool {
    match kv {
        KvCache::F32(k, v) => arg_at(c, 1, 0) == at(*k, 0) && arg_at(c, 2, 0) == at(*v, 0),
        KvCache::F16(k, v) => arg_at(c, 1, 0) == at(*k, 0) && arg_at(c, 2, 0) == at(*v, 0),
    }
}

/// A decode attention reads the keys as its second argument and the values as its third, at
/// either precision and at any size.
pub proof fn the_keys_come_before_the_values(d: Decode<'_>, s: DecodeScratch)
    ensures
        reads_keys_then_values(d.decode_launch(s), d.kv),
{
}

/// A rotation has a thread for every pair of every head of every row, as long as those can be
/// counted in a grid at all.
pub proof fn a_rotation_has_a_thread_a_pair(
    x: &CudaSlice<Fp32>,
    off: usize,
    freq_div: Option<&CudaSlice<Fp32>>,
    t: usize,
    heads: usize,
    head_dim: usize,
    theta: FloatBits,
    first: usize,
)
    requires
        t * heads * head_dim <= u32::MAX,
    ensures
        has_threads(
            rope_launch(x, off, freq_div, t, heads, head_dim, theta, first),
            t * heads * (head_dim as int / 2),
        ),
{
    let c = rope_launch(x, off, freq_div, t, heads, head_dim, theta, first);
    let (rows, w) = (t * heads, head_dim as int);
    assert(0 <= rows * (w / 2) <= rows * w / 2) by {
        let h = w / 2;
        assert(rows >= 0) by (nonlinear_arith)
            requires
                rows == t * heads,
        ;
        assert(0 <= rows * h && 2 * (rows * h) <= rows * w) by (nonlinear_arith)
            requires
                rows >= 0,
                0 <= h,
                2 * h <= w,
        ;
    }
    lemma_flat_runs(c, t * heads * head_dim / 2);
}

} // verus!
