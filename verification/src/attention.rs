//! Whole-prompt attention, rotary embeddings and the location-sensitive
//! attention step.

use crate::arith::{
    ceil_div, ceil_div_covers, div_ceil_u32, greater, is_pow2, lesser, next_pow2,
    next_pow2_is_least, next_power_of_two,
};
use crate::buffer::{CudaSlice, Elem, FloatBits, Fp32};
use crate::device::{arg_at, at, has_threads, int_fits, ints_fit, three_ints_fit};
use crate::device::attending::{
    a_rotation_has_a_thread_a_pair, a_step_attends_by_location, attends, attends_by_location,
    every_column_is_mixed_by_its_head, every_pair_is_rotated,
    every_query_attends_to_what_precedes_it, every_query_attends_to_what_precedes_it_in_halves,
    every_query_is_scored_against_every_key, every_two_neighbours_are_rotated, flash_ints_fit,
    masks_as_asked, mixes, rotates, rotates_neighbours, scores,
};
use crate::device::moving::{every_head_gets_what_its_group_shares, shares_heads};
use crate::device::pointwise::{a_query_sees_no_later_key, masks_the_future};
use crate::error::CudaError;
use crate::launch::{flat_cfg, LaunchConfig};
use crate::names::Kernel;
use crate::queue::{
    flag, launch, long, made, made_in, num, ptr, ptr_or_dummy, uninit, zeros, Arg, Cmd, Gpu,
};
use vstd::math::{max, min};
use vstd::prelude::*;

verus! {

/// Whether the fused attention covers a head shape: a width it is instantiated
/// at, and whole query groups.
pub open spec fn flash_covers(head_dim: int, heads: int, kv_heads: int) -> bool {
    (head_dim == 64 || head_dim == 128) && heads % max(1, kv_heads) == 0
}

/// The fused attention's kernel at a head width, and the query rows a block of
/// it owns.
pub open spec fn flash_kernel(head_dim: int) -> (Kernel, int) {
    if head_dim == 128 {
        (Kernel::FlashAttn, 32)
    } else {
        (Kernel::FlashAttn64, 64)
    }
}

/// A fused attention: a block per group of query rows and head.
pub open spec fn flash_launch<T>(
    kernel: Kernel,
    rows: int,
    q: &CudaSlice<Fp32>,
    k: &CudaSlice<T>,
    v: &CudaSlice<T>,
    out: CudaSlice<Fp32>,
    tq: usize,
    past: usize,
    heads: usize,
    kv_heads: usize,
    cap: usize,
    scale: FloatBits,
    causal: bool,
) -> Cmd {
    launch(
        kernel,
        seq![
            ptr(*q),
            ptr(*k),
            ptr(*v),
            ptr(out),
            num(tq as int),
            num(past as int),
            num(heads as int),
            num(kv_heads as int),
            num(cap as int),
            Arg::Float(scale),
            flag(causal),
        ],
        LaunchConfig {
            grid_dim: (ceil_div((tq as u32) as int, rows) as u32, heads as u32, 1),
            block_dim: (32, 8, 1),
            shared_mem_bytes: 0,
        },
    )
}

/// Why a fused attention against an f16 cache is refused, if it is.
pub open spec fn flash_f16_refusal(
    head_dim: usize,
    heads: usize,
    kv_heads: usize,
    cap: usize,
) -> Option<CudaError> {
    if head_dim != 128 {
        Some(CudaError::UnsupportedAttention { head_dim, heads, kv_heads })
    } else if cap % 2 != 0 {
        Some(CudaError::OddCacheCapacity { cap })
    } else if heads as int % max(1, kv_heads as int) != 0 {
        Some(CudaError::UnsupportedAttention { head_dim, heads, kv_heads })
    } else {
        None
    }
}

/// The blocks of a fused attention cover every query row, and none is without
/// one.
pub proof fn flash_grid_covers(head_dim: int, tq: int)
    requires
        0 < tq <= u32::MAX,
    ensures
        ({
            let rows = flash_kernel(head_dim).1;
            &&& ceil_div(tq, rows) * rows >= tq
            &&& (ceil_div(tq, rows) - 1) * rows < tq
        }),
{
    ceil_div_covers(tq, flash_kernel(head_dim).1);
}

/// A location-sensitive attention step as it was asked for.
pub struct Taco {
    pub loc: CudaSlice<Fp32>,
    pub wl: CudaSlice<Fp32>,
    pub query: CudaSlice<Fp32>,
    pub processed: CudaSlice<Fp32>,
    pub v: CudaSlice<Fp32>,
    pub memory: CudaSlice<Fp32>,
    pub t: int,
    pub f: int,
    pub a: int,
    pub e: int,
    pub cat: CudaSlice<Fp32>,
    pub context: CudaSlice<Fp32>,
}

/// The step that these arguments ask for.
#[verifier::inline]
pub open spec fn taco(
    loc: &CudaSlice<Fp32>,
    wl: &CudaSlice<Fp32>,
    query: &CudaSlice<Fp32>,
    processed: &CudaSlice<Fp32>,
    v: &CudaSlice<Fp32>,
    memory: &CudaSlice<Fp32>,
    t: usize,
    f: usize,
    a: usize,
    e: usize,
    cat: &CudaSlice<Fp32>,
    context: &CudaSlice<Fp32>,
) -> Taco {
    Taco {
        loc: *loc,
        wl: *wl,
        query: *query,
        processed: *processed,
        v: *v,
        memory: *memory,
        t: t as int,
        f: f as int,
        a: a as int,
        e: e as int,
        cat: *cat,
        context: *context,
    }
}

impl Taco {
    /// Whether a block takes the shape: a power of two of threads up to 1024, up
    /// to 4096 positions in shared memory, and a context a block can hold.
    pub open spec fn supported(self) -> bool {
        is_pow2(self.a) && self.a <= 1024 && 1 <= self.t <= 4096 && self.e <= 1024
    }

    /// Every operand's length and what it has to be, in order.
    pub open spec fn lengths(self) -> Seq<(int, int)> {
        seq![
            (self.loc.len as int, self.f * self.t),
            (self.wl.len as int, self.a * self.f),
            (self.query.len as int, self.a),
            (self.processed.len as int, self.t * self.a),
            (self.v.len as int, self.a),
            (self.memory.len as int, self.t * self.e),
            (self.cat.len as int, 2 * self.t),
            (self.context.len as int, self.e),
        ]
    }

    /// Why the step is refused, if it is.
    pub open spec fn refusal(self) -> Option<CudaError> {
        if !self.supported() {
            Some(
                CudaError::UnsupportedAttention {
                    head_dim: self.a as usize,
                    heads: self.t as usize,
                    kv_heads: self.e as usize,
                },
            )
        } else {
            first_short(self.lengths(), 0)
        }
    }

    /// Threads the context's one block runs: a power of two that covers the
    /// context, and the positions as far as a block can.
    pub open spec fn context_threads(self) -> int {
        min(1024, next_pow2(max(32, max(self.e, min(self.t, 1024)))))
    }

    /// The scores it makes, with the queue at `at` before it.
    pub open spec fn score(self, at: int) -> CudaSlice<Fp32> {
        made(at, self.t)
    }

    /// Everything the step queues: nothing where it is refused, and otherwise a
    /// block a position for the energies and one block for the context.
    pub open spec fn commands(self, at: int) -> Seq<Cmd> {
        let n = self.context_threads();
        if self.refusal() is Some {
            Seq::empty()
        } else {
            seq![
                uninit(Elem::F32, self.t),
                launch(
                    Kernel::TacoEnergies,
                    seq![
                        ptr(self.loc),
                        ptr(self.wl),
                        ptr(self.query),
                        ptr(self.processed),
                        ptr(self.v),
                        ptr(self.score(at)),
                        num(self.t),
                        num(self.f),
                        num(self.a),
                    ],
                    LaunchConfig {
                        grid_dim: (self.t as u32, 1, 1),
                        block_dim: (self.a as u32, 1, 1),
                        shared_mem_bytes: (self.a * 4) as u32,
                    },
                ),
                launch(
                    Kernel::TacoContext,
                    seq![
                        ptr(self.score(at)),
                        ptr(self.memory),
                        ptr(self.context),
                        ptr(self.cat),
                        num(self.t),
                        num(self.e),
                    ],
                    LaunchConfig {
                        grid_dim: (1, 1, 1),
                        block_dim: (n as u32, 1, 1),
                        shared_mem_bytes: ((self.t + n) * 4) as u32,
                    },
                ),
            ]
        }
    }
}

/// The first length that falls short of what it has to be, from place `i` on.
pub open spec fn first_short(lengths: Seq<(int, int)>, i: int) -> Option<CudaError>
    decreases lengths.len() - i,
{
    if i < 0 || i >= lengths.len() {
        None
    } else if lengths[i].0 < lengths[i].1 {
        Some(CudaError::SliceOverrun { at: lengths[i].1 as usize, len: lengths[i].0 as usize })
    } else {
        first_short(lengths, i + 1)
    }
}

/// The context's block of a step that is not refused is a whole number of
/// warps, no more than the hardware takes, with a thread an element of the
/// context, and its alignments and partials fit the 48 KB a block has.
pub proof fn context_block_suits(s: Taco)
    requires
        s.supported(),
        0 <= s.e,
    ensures
        32 <= s.context_threads() <= 1024,
        s.context_threads() >= s.e,
        is_pow2(s.context_threads()),
        (s.t + s.context_threads()) * 4 <= 48 * 1024,
{
    let want = max(32, max(s.e, min(s.t, 1024)));
    next_pow2_is_least(want);
    lemma_next_pow2_up_to_1024(want);
}

proof fn lemma_next_pow2_up_to_1024(n: int)
    requires
        1 <= n <= 1024,
    ensures
        next_pow2(n) <= 1024,
{
    reveal_with_fuel(next_pow2, 12);
}

/// Whether `n` is a power of two.
fn power_of_two(n: usize) -> (b: bool)
    ensures
        b == is_pow2(n as int),
    decreases n,
{
    if n == 1 {
        true
    } else if n == 0 || n % 2 != 0 {
        false
    } else {
        power_of_two(n / 2)
    }
}

/// The first of the lengths that falls short, as an error.
fn first_overrun(lengths: &Vec<(usize, usize)>) -> (r: Option<CudaError>)
    ensures
        r == first_short(
            Seq::new(
                lengths@.len(),
                |i: int| (lengths@[i].0 as int, lengths@[i].1 as int),
            ),
            0,
        ),
{
    let ghost s = Seq::new(
        lengths@.len(),
        |i: int| (lengths@[i].0 as int, lengths@[i].1 as int),
    );
    let mut i: usize = 0;
    while i < lengths.len()
        invariant
            i <= lengths.len(),
            s == Seq::new(
                lengths@.len(),
                |i: int| (lengths@[i].0 as int, lengths@[i].1 as int),
            ),
            first_short(s, 0) == first_short(s, i as int),
        decreases lengths.len() - i,
    {
        let (len, need): (usize, usize) = lengths[i];
        if len < need {
            return Some(CudaError::SliceOverrun { at: need, len });
        }
        i = i + 1;
    }
    None
}

/// The logits: a thread each.
pub open spec fn attention_scores_cmd(
    q: &CudaSlice<Fp32>,
    k: &CudaSlice<Fp32>,
    emb_rel_k: &CudaSlice<Fp32>,
    t: usize,
    embed: usize,
    heads: usize,
    window: usize,
    out: CudaSlice<Fp32>,
) -> Cmd {
    launch(
        Kernel::AttentionScores,
        seq![
            ptr(*q),
            ptr(*k),
            ptr(*emb_rel_k),
            ptr(out),
            num(t as int),
            num(embed as int),
            num(heads as int),
            num(embed as int / heads as int),
            num(window as int),
            Arg::InvSqrt(embed / heads),
        ],
        flat_cfg(heads * t * t),
    )
}

/// The context: a thread an element.
pub open spec fn attention_context_cmd(
    probs: &CudaSlice<Fp32>,
    v: &CudaSlice<Fp32>,
    emb_rel_v: &CudaSlice<Fp32>,
    t: usize,
    embed: usize,
    heads: usize,
    window: usize,
    out: CudaSlice<Fp32>,
) -> Cmd {
    launch(
        Kernel::AttentionContext,
        seq![
            ptr(*probs),
            ptr(*v),
            ptr(*emb_rel_v),
            ptr(out),
            num(t as int),
            num(embed as int),
            num(heads as int),
            num(embed as int / heads as int),
            num(window as int),
        ],
        flat_cfg(t * embed),
    )
}

/// The mask: a thread a score.
pub open spec fn causal_mask_cmd(
    scores: &CudaSlice<Fp32>,
    batch: usize,
    tq: usize,
    tk: usize,
    offset: usize,
) -> Cmd {
    launch(
        Kernel::CausalMask,
        seq![
            ptr(*scores),
            num(batch as int),
            num(tq as int),
            num(tk as int),
            num(offset as int),
        ],
        flat_cfg(batch * tq * tk),
    )
}

/// The widening: a thread an element.
pub open spec fn repeat_kv_cmd(
    src: &CudaSlice<Fp32>,
    heads: usize,
    kv_heads: usize,
    t: usize,
    head_dim: usize,
    out: CudaSlice<Fp32>,
) -> Cmd {
    launch(
        Kernel::RepeatKv,
        seq![
            ptr(*src),
            ptr(out),
            num(heads as int),
            num(heads as int / kv_heads as int),
            num(t as int),
            num(head_dim as int),
        ],
        flat_cfg(heads * t * head_dim),
    )
}

/// The interleaved rotation: a thread a pair.
pub open spec fn rope_gptj_cmd(
    x: &CudaSlice<Fp32>,
    inv_freq: &CudaSlice<Fp32>,
    positions: usize,
    dim: usize,
    rot_dim: usize,
) -> Cmd {
    launch(
        Kernel::RopeGptj,
        seq![
            ptr(*x),
            ptr(*inv_freq),
            num(positions as int),
            num(dim as int),
            num(rot_dim as int),
        ],
        flat_cfg(positions * rot_dim / 2),
    )
}

impl Gpu {
    /// Attention logits with the windowed relative bias, `[heads, t, t]`.
    pub fn attention_scores(
        &mut self,
        q: &CudaSlice<Fp32>,
        k: &CudaSlice<Fp32>,
        emb_rel_k: &CudaSlice<Fp32>,
        t: usize,
        embed: usize,
        heads: usize,
        window: usize,
    ) -> (out: CudaSlice<Fp32>)
        requires
            heads >= 1,
            heads * t <= usize::MAX,
            heads * t * t <= usize::MAX,
        ensures
            out == made::<Fp32>(old(self)@.len() as int, heads * t * t),
            final(self)@ == old(self)@.push(zeros(Elem::F32, heads * t * t)).push(
                attention_scores_cmd(q, k, emb_rel_k, t, embed, heads, window, out),
            ),
            three_ints_fit(heads as int, t as int, t as int)
                && int_fits(embed as int) && int_fits(window as int)
                ==> scores(
                    final(self)@.last(),
                    *q,
                    *k,
                    *emb_rel_k,
                    out,
                    t as int,
                    embed as int,
                    heads as int,
                    window as int,
                ),
            made_in(final(self)@, out, Elem::F32, heads * t * t),
    {
        let out = self.zeros(heads * t * t);
        self.launch(
            Kernel::AttentionScores,
            vec![
                Arg::ptr(q),
                Arg::ptr(k),
                Arg::ptr(emb_rel_k),
                Arg::ptr(&out),
                Arg::num(t),
                Arg::num(embed),
                Arg::num(heads),
                Arg::num(embed / heads),
                Arg::num(window),
                Arg::InvSqrt(embed / heads),
            ],
            LaunchConfig::flat(heads * t * t),
        );
        proof {
            if three_ints_fit(heads as int, t as int, t as int)
                && int_fits(embed as int) && int_fits(window as int) {
                every_query_is_scored_against_every_key(
                    q,
                    k,
                    emb_rel_k,
                    t,
                    embed,
                    heads,
                    window,
                    out,
                );
            }
        }
        out
    }

    /// Attention output with the windowed relative value term, `[t, embed]`.
    pub fn attention_context(
        &mut self,
        probs: &CudaSlice<Fp32>,
        v: &CudaSlice<Fp32>,
        emb_rel_v: &CudaSlice<Fp32>,
        t: usize,
        embed: usize,
        heads: usize,
        window: usize,
    ) -> (out: CudaSlice<Fp32>)
        requires
            heads >= 1,
            t * embed <= usize::MAX,
        ensures
            out == made::<Fp32>(old(self)@.len() as int, t * embed),
            final(self)@ == old(self)@.push(zeros(Elem::F32, t * embed)).push(
                attention_context_cmd(probs, v, emb_rel_v, t, embed, heads, window, out),
            ),
            ints_fit(t as int, embed as int) && int_fits(heads as int) && int_fits(window as int)
                ==> mixes(
                    final(self)@.last(),
                    *probs,
                    *v,
                    *emb_rel_v,
                    out,
                    t as int,
                    embed as int,
                    heads as int,
                    window as int,
                ),
            made_in(final(self)@, out, Elem::F32, t * embed),
    {
        let out = self.zeros(t * embed);
        self.launch(
            Kernel::AttentionContext,
            vec![
                Arg::ptr(probs),
                Arg::ptr(v),
                Arg::ptr(emb_rel_v),
                Arg::ptr(&out),
                Arg::num(t),
                Arg::num(embed),
                Arg::num(heads),
                Arg::num(embed / heads),
                Arg::num(window),
            ],
            LaunchConfig::flat(t * embed),
        );
        proof {
            if ints_fit(t as int, embed as int) && int_fits(heads as int) && int_fits(window as int) {
                every_column_is_mixed_by_its_head(probs, v, emb_rel_v, t, embed, heads, window, out);
            }
        }
        out
    }

    /// Sets a batch of score matrices to negative infinity above the diagonal.
    ///
    /// `offset` is how many cached keys precede the queries. Decoding one
    /// token at a time makes the mask a no-op, which is why getting `offset`
    /// wrong survives until something feeds the decoder two tokens at once.
    pub fn causal_mask(
        &mut self,
        scores: &CudaSlice<Fp32>,
        batch: usize,
        tq: usize,
        tk: usize,
        offset: usize,
    )
        requires
            batch * tq <= usize::MAX,
            batch * tq * tk <= usize::MAX,
        ensures
            final(self)@ == old(self)@.push(
                causal_mask_cmd(scores, batch, tq, tk, offset),
            ),
            three_ints_fit(batch as int, tq as int, tk as int) && int_fits(offset as int)
                ==> masks_the_future(
                    final(self)@.last(),
                    *scores,
                    batch as int,
                    tq as int,
                    tk as int,
                    offset as int,
                ),
    {
        self.launch(
            Kernel::CausalMask,
            vec![
                Arg::ptr(scores),
                Arg::num(batch),
                Arg::num(tq),
                Arg::num(tk),
                Arg::num(offset),
            ],
            LaunchConfig::flat(batch * tq * tk),
        );
        proof {
            if three_ints_fit(batch as int, tq as int, tk as int) && int_fits(offset as int) {
                a_query_sees_no_later_key(scores, batch, tq, tk, offset);
            }
        }
    }

    /// Widens a grouped-query key or value cache to the full head count.
    ///
    /// `src` is `[kv_heads, t, head_dim]`, the result is `[heads, t, head_dim]`,
    /// and head `h` reads from `h / group`.
    pub fn repeat_kv(
        &mut self,
        src: &CudaSlice<Fp32>,
        heads: usize,
        kv_heads: usize,
        t: usize,
        head_dim: usize,
    ) -> (out: CudaSlice<Fp32>)
        requires
            kv_heads >= 1,
            heads * t <= usize::MAX,
            heads * t * head_dim <= usize::MAX,
        ensures
            out == made::<Fp32>(old(self)@.len() as int, heads * t * head_dim),
            final(self)@ == old(self)@.push(uninit(Elem::F32, heads * t * head_dim)).push(
                repeat_kv_cmd(src, heads, kv_heads, t, head_dim, out),
            ),
            three_ints_fit(heads as int, t as int, head_dim as int)
                ==> shares_heads(
                    final(self)@.last(),
                    *src,
                    out,
                    heads as int,
                    kv_heads as int,
                    t * head_dim,
                ),
            made_in(final(self)@, out, Elem::F32, heads * t * head_dim),
    {
        let out = self.uninit(heads * t * head_dim);
        self.launch(
            Kernel::RepeatKv,
            vec![
                Arg::ptr(src),
                Arg::ptr(&out),
                Arg::num(heads),
                Arg::num(heads / kv_heads),
                Arg::num(t),
                Arg::num(head_dim),
            ],
            LaunchConfig::flat(heads * t * head_dim),
        );
        proof {
            if three_ints_fit(heads as int, t as int, head_dim as int) {
                every_head_gets_what_its_group_shares(src, heads, kv_heads, t, head_dim, out);
            }
        }
        out
    }

    /// Whether [`Gpu::flash_attn`] covers this attention shape.
    ///
    /// A predicate rather than a caught error, because choosing the path is
    /// not an exceptional case: a model whose head width the kernel is not
    /// instantiated at runs the unfused chain and is correct.
    pub fn supports_flash(&self, head_dim: usize, heads: usize, kv_heads: usize) -> (b: bool)
        ensures
            b == flash_covers(head_dim as int, heads as int, kv_heads as int),
    {
        (head_dim == 64 || head_dim == 128) && heads % greater(1, kv_heads) == 0
    }

    /// Causal attention over a whole prompt, fused: scores, mask, softmax and
    /// the value product in one kernel, nothing materialised.
    ///
    /// `q` is the projection buffer itself, `[tq, heads * head_dim]` with the
    /// query first - no head split - and the merged context comes back in the
    /// same shape. `k` and `v` are the caches in their own layouts,
    /// `[kv_head][pos][head_dim]` and `[kv_head][head_dim][cap]`, holding
    /// `past + tq` valid positions. A grouped-query model passes
    /// `kv_heads < heads`.
    ///
    /// Only the widths the kernel is instantiated at. A width it is not
    /// instantiated at would index across heads *in bounds* and return
    /// plausible context, so it is refused by name.
    pub fn flash_attn(
        &mut self,
        q: &CudaSlice<Fp32>,
        k: &CudaSlice<Fp32>,
        v: &CudaSlice<Fp32>,
        tq: usize,
        past: usize,
        heads: usize,
        kv_heads: usize,
        head_dim: usize,
        cap: usize,
        scale: FloatBits,
        causal: bool,
    ) -> (r: Result<CudaSlice<Fp32>, CudaError>)
        requires
            flash_covers(head_dim as int, heads as int, kv_heads as int) ==> tq * heads
                <= usize::MAX && tq * heads * head_dim <= usize::MAX,
        ensures
            !flash_covers(head_dim as int, heads as int, kv_heads as int) ==> r == Err::<
                CudaSlice<Fp32>,
                CudaError,
            >(CudaError::UnsupportedAttention { head_dim, heads, kv_heads }) && final(self)@
                == old(self)@,
            flash_covers(head_dim as int, heads as int, kv_heads as int) ==> {
                let out = made::<Fp32>(old(self)@.len() as int, tq * heads * head_dim);
                let (kernel, rows) = flash_kernel(head_dim as int);
                &&& r == Ok::<CudaSlice<Fp32>, CudaError>(out)
                &&& final(self)@ == old(self)@.push(uninit(Elem::F32, tq * heads * head_dim)).push(
                    flash_launch(
                        kernel,
                        rows,
                        q,
                        k,
                        v,
                        out,
                        tq,
                        past,
                        heads,
                        kv_heads,
                        cap,
                        scale,
                        causal,
                    ),
                )
            },
            r is Ok && flash_ints_fit(tq, past, heads, kv_heads, cap)
                ==> attends(
                    final(self)@.last(),
                    *q,
                    *k,
                    *v,
                    r->Ok_0,
                    tq as int,
                    past as int,
                    heads as int,
                    kv_heads as int,
                    head_dim as int,
                    cap as int,
                    scale,
                    causal,
                    false,
                ),
            r is Ok ==> made_in(final(self)@, r->Ok_0, Elem::F32, tq * heads * head_dim),
            r is Ok ==> masks_as_asked(final(self)@.last(), causal),
            r is Ok
                ==> arg_at(final(self)@.last(), 1, 0) == at(*k, 0)
                    && arg_at(final(self)@.last(), 2, 0) == at(*v, 0),
    {
        // The query rows a block owns, which is the kernel's own grid stride.
        let (kernel, rows): (Kernel, u32) = match head_dim {
            128 => (Kernel::FlashAttn, 32),
            64 => (Kernel::FlashAttn64, 64),
            _ => return Err(CudaError::UnsupportedAttention { head_dim, heads, kv_heads }),
        };
        if heads % greater(1, kv_heads) != 0 {
            return Err(CudaError::UnsupportedAttention { head_dim, heads, kv_heads });
        }
        let out = self.uninit(tq * heads * head_dim);
        self.queue_flash(
            kernel,
            rows,
            q,
            k,
            v,
            &out,
            tq,
            past,
            heads,
            kv_heads,
            cap,
            scale,
            causal,
        );
        proof {
            if flash_ints_fit(tq, past, heads, kv_heads, cap) {
                every_query_attends_to_what_precedes_it(
                    q,
                    k,
                    v,
                    out,
                    tq,
                    past,
                    heads,
                    kv_heads,
                    head_dim,
                    cap,
                    scale,
                    causal,
                );
            }
        }
        Ok(out)
    }

    /// [`Gpu::flash_attn`] against an f16 cache.
    ///
    /// Only at a head width of 128, which is the only width any stage holds a
    /// cache that way at, and only with an even `cap` - the value layout is
    /// read as words of two positions, so an odd capacity would straddle them.
    /// Both are refused by name rather than producing plausible context.
    pub fn flash_attn_f16(
        &mut self,
        q: &CudaSlice<Fp32>,
        k: &CudaSlice<u16>,
        v: &CudaSlice<u16>,
        tq: usize,
        past: usize,
        heads: usize,
        kv_heads: usize,
        head_dim: usize,
        cap: usize,
        scale: FloatBits,
        causal: bool,
    ) -> (r: Result<CudaSlice<Fp32>, CudaError>)
        requires
            flash_f16_refusal(head_dim, heads, kv_heads, cap) is None ==> tq * heads <= usize::MAX
                && tq * heads * head_dim <= usize::MAX,
        ensures
            match flash_f16_refusal(head_dim, heads, kv_heads, cap) {
                Some(e) => r == Err::<CudaSlice<Fp32>, CudaError>(e) && final(self)@
                    == old(self)@,
                None => {
                    let out = made::<Fp32>(old(self)@.len() as int, tq * heads * head_dim);
                    &&& r == Ok::<CudaSlice<Fp32>, CudaError>(out)
                    &&& final(self)@ == old(self)@.push(
                        uninit(Elem::F32, tq * heads * head_dim),
                    ).push(
                        flash_launch(
                            Kernel::FlashAttnH,
                            32,
                            q,
                            k,
                            v,
                            out,
                            tq,
                            past,
                            heads,
                            kv_heads,
                            cap,
                            scale,
                            causal,
                        ),
                    )
                },
            },
            r is Ok && flash_ints_fit(tq, past, heads, kv_heads, cap)
                ==> attends(
                    final(self)@.last(),
                    *q,
                    *k,
                    *v,
                    r->Ok_0,
                    tq as int,
                    past as int,
                    heads as int,
                    kv_heads as int,
                    head_dim as int,
                    cap as int,
                    scale,
                    causal,
                    true,
                ),
            r is Ok ==> made_in(final(self)@, r->Ok_0, Elem::F32, tq * heads * head_dim),
            r is Ok ==> masks_as_asked(final(self)@.last(), causal),
            r is Ok
                ==> arg_at(final(self)@.last(), 1, 0) == at(*k, 0)
                    && arg_at(final(self)@.last(), 2, 0) == at(*v, 0),
    {
        if head_dim != 128 {
            return Err(CudaError::UnsupportedAttention { head_dim, heads, kv_heads });
        }
        if cap % 2 != 0 {
            return Err(CudaError::OddCacheCapacity { cap });
        }
        if heads % greater(1, kv_heads) != 0 {
            return Err(CudaError::UnsupportedAttention { head_dim, heads, kv_heads });
        }
        let out = self.uninit(tq * heads * head_dim);
        self.queue_flash(
            Kernel::FlashAttnH,
            32,
            q,
            k,
            v,
            &out,
            tq,
            past,
            heads,
            kv_heads,
            cap,
            scale,
            causal,
        );
        proof {
            if flash_ints_fit(tq, past, heads, kv_heads, cap) {
                every_query_attends_to_what_precedes_it_in_halves(
                    q,
                    k,
                    v,
                    out,
                    tq,
                    past,
                    heads,
                    kv_heads,
                    head_dim,
                    cap,
                    scale,
                    causal,
                );
            }
        }
        Ok(out)
    }

    fn queue_flash<T>(
        &mut self,
        kernel: Kernel,
        rows: u32,
        q: &CudaSlice<Fp32>,
        k: &CudaSlice<T>,
        v: &CudaSlice<T>,
        out: &CudaSlice<Fp32>,
        tq: usize,
        past: usize,
        heads: usize,
        kv_heads: usize,
        cap: usize,
        scale: FloatBits,
        causal: bool,
    )
        requires
            rows >= 1,
        ensures
            final(self)@ == old(self)@.push(
                flash_launch(
                    kernel,
                    rows as int,
                    q,
                    k,
                    v,
                    *out,
                    tq,
                    past,
                    heads,
                    kv_heads,
                    cap,
                    scale,
                    causal,
                ),
            ),
    {
        let cfg = LaunchConfig {
            grid_dim: (div_ceil_u32(tq as u32, rows), heads as u32, 1),
            block_dim: (32, 8, 1),
            shared_mem_bytes: 0,
        };
        self.launch(
            kernel,
            vec![
                Arg::ptr(q),
                Arg::ptr(k),
                Arg::ptr(v),
                Arg::ptr(out),
                Arg::num(tq),
                Arg::num(past),
                Arg::num(heads),
                Arg::num(kv_heads),
                Arg::num(cap),
                Arg::Float(scale),
                Arg::flag(causal),
            ],
            cfg,
        );
    }

    /// Location-sensitive attention for one decoder step, in two launches: the
    /// energies and scores of the `t` encoder positions from the location
    /// features `loc` (`[f, t]`, as [`Gpu::conv1d`] leaves them), the location
    /// dense weight `wl` (`[a, f]`), the `query` (`[a]`) and the `processed`
    /// memory (`[t, a]`) against `v` (`[a]`); then the softmax, the context
    /// (`[e]`, from `memory` `[t, e]`) and the running weights `cat` (`[2 t]`,
    /// the alignment then the cumulative sum).
    ///
    /// `a` is a thread count and must be a power of two up to 1024; `t` and
    /// `e` are bounded by shared memory and the block, at 4096 and 1024.
    pub fn taco_attention(
        &mut self,
        loc: &CudaSlice<Fp32>,
        wl: &CudaSlice<Fp32>,
        query: &CudaSlice<Fp32>,
        processed: &CudaSlice<Fp32>,
        v: &CudaSlice<Fp32>,
        memory: &CudaSlice<Fp32>,
        t: usize,
        f: usize,
        a: usize,
        e: usize,
        cat: &CudaSlice<Fp32>,
        context: &CudaSlice<Fp32>,
    ) -> (r: Result<(), CudaError>)
        requires
            taco(loc, wl, query, processed, v, memory, t, f, a, e, cat, context).supported() ==> f
                * t <= usize::MAX && a * f <= usize::MAX,
        ensures
            ({
                let s = taco(loc, wl, query, processed, v, memory, t, f, a, e, cat, context);
                &&& match s.refusal() {
                    Some(e) => r == Err::<(), CudaError>(e),
                    None => r == Ok::<(), CudaError>(()),
                }
                &&& final(self)@ == old(self)@ + s.commands(old(self)@.len() as int)
            }),
            ({
                let asked = Taco {
                    loc: *loc,
                    wl: *wl,
                    query: *query,
                    processed: *processed,
                    v: *v,
                    memory: *memory,
                    t: t as int,
                    f: f as int,
                    a: a as int,
                    e: e as int,
                    cat: *cat,
                    context: *context,
                };
                r is Ok && int_fits(f as int) && 0 < e && old(self)@.len() <= usize::MAX
                    ==> attends_by_location(
                        final(self)@,
                        made::<Fp32>(old(self)@.len() as int, t as int),
                        asked,
                    )
            }),
    {
        let ghost s = taco(loc, wl, query, processed, v, memory, t, f, a, e, cat, context);
        if !power_of_two(a) || a > 1024 || t == 0 || t > 4096 || e > 1024 {
            return Err(CudaError::UnsupportedAttention { head_dim: a, heads: t, kv_heads: e });
        }
        proof {
            assert(t * a <= 4096 * 1024) by (nonlinear_arith)
                requires
                    t <= 4096,
                    a <= 1024,
            ;
            assert(t * e <= 4096 * 1024) by (nonlinear_arith)
                requires
                    t <= 4096,
                    e <= 1024,
            ;
        }
        let checks: Vec<(usize, usize)> = vec![
            (loc.len(), f * t),
            (wl.len(), a * f),
            (query.len(), a),
            (processed.len(), t * a),
            (v.len(), a),
            (memory.len(), t * e),
            (cat.len(), 2 * t),
            (context.len(), e),
        ];
        proof {
            assert(Seq::new(
                checks@.len(),
                |i: int| (checks@[i].0 as int, checks@[i].1 as int),
            ) =~= s.lengths());
        }
        if let Some(e) = first_overrun(&checks) {
            return Err(e);
        }
        let score = self.uninit(t);
        let energies = LaunchConfig {
            grid_dim: (t as u32, 1, 1),
            block_dim: (a as u32, 1, 1),
            shared_mem_bytes: (a * 4) as u32,
        };
        self.launch(
            Kernel::TacoEnergies,
            vec![
                Arg::ptr(loc),
                Arg::ptr(wl),
                Arg::ptr(query),
                Arg::ptr(processed),
                Arg::ptr(v),
                Arg::ptr(&score),
                Arg::num(t),
                Arg::num(f),
                Arg::num(a),
            ],
            energies,
        );
        proof {
            lemma_next_pow2_up_to_1024(max(32, max(s.e, min(s.t, 1024))));
        }
        let n: usize = lesser(
            1024,
            next_power_of_two(greater(32, greater(e, lesser(t, 1024)))),
        );
        let whole = LaunchConfig {
            grid_dim: (1, 1, 1),
            block_dim: (n as u32, 1, 1),
            shared_mem_bytes: ((t + n) * 4) as u32,
        };
        self.launch(
            Kernel::TacoContext,
            vec![
                Arg::ptr(&score),
                Arg::ptr(memory),
                Arg::ptr(context),
                Arg::ptr(cat),
                Arg::num(t),
                Arg::num(e),
            ],
            whole,
        );
        proof {
            if int_fits(f as int) && 0 < e && old(self)@.len() <= usize::MAX {
                a_step_attends_by_location(s, old(self)@.len() as int, old(self)@);
            }
        }
        Ok(())
    }

    /// Rotary position embedding, in place.
    pub fn rope(
        &mut self,
        x: &CudaSlice<Fp32>,
        off: usize,
        t: usize,
        heads: usize,
        head_dim: usize,
        theta: FloatBits,
        first: usize,
    ) -> (r: Result<(), CudaError>)
        requires
            rope_fits(off, t, heads, head_dim),
        ensures
            off + t * heads * head_dim > x.len ==> r == Err::<(), CudaError>(
                rope_overrun(x, off, t, heads, head_dim),
            ) && final(self)@ == old(self)@,
            off + t * heads * head_dim <= x.len ==> r == Ok::<(), CudaError>(()) && final(self)@
                == old(self)@.push(rope_launch(x, off, None, t, heads, head_dim, theta, first)),
            r is Ok
                && three_ints_fit(t as int, heads as int, head_dim as int) && off <= i64::MAX
                && int_fits(first + t)
                ==> rotates(
                    final(self)@.last(),
                    *x,
                    off as int,
                    None,
                    t as int,
                    heads as int,
                    head_dim as int,
                    theta,
                    first as int,
                ),
            r is Ok && t * heads * head_dim <= u32::MAX
                ==> has_threads(final(self)@.last(), t * heads * (head_dim as int / 2)),
    {
        proof {
            if three_ints_fit(t as int, heads as int, head_dim as int)
                && off <= i64::MAX && int_fits(first + t) {
                every_pair_is_rotated(x, off, None, t, heads, head_dim, theta, first);
            }
            if t * heads * head_dim <= u32::MAX {
                a_rotation_has_a_thread_a_pair(x, off, None, t, heads, head_dim, theta, first);
            }
        }
        self.rope_scaled(x, off, None, t, heads, head_dim, theta, first)
    }

    /// RoPE with an optional per-pair frequency divisor.
    ///
    /// `freq_div` is `head_dim / 2` long. Passing `None` for a checkpoint that
    /// ships the tensor is a model that stays fluent for a sentence and drifts
    /// after, with no shape to catch it.
    ///
    /// `off` exists because the attention projections are issued as one
    /// batched product: `q` and `k` are contiguous blocks of one output,
    /// and rotating `k` in place is cheaper than copying it out to rotate.
    pub fn rope_scaled(
        &mut self,
        x: &CudaSlice<Fp32>,
        off: usize,
        freq_div: Option<&CudaSlice<Fp32>>,
        t: usize,
        heads: usize,
        head_dim: usize,
        theta: FloatBits,
        first: usize,
    ) -> (r: Result<(), CudaError>)
        requires
            rope_fits(off, t, heads, head_dim),
        ensures
            off + t * heads * head_dim > x.len ==> r == Err::<(), CudaError>(
                rope_overrun(x, off, t, heads, head_dim),
            ) && final(self)@ == old(self)@,
            off + t * heads * head_dim <= x.len ==> r == Ok::<(), CudaError>(()) && final(self)@
                == old(self)@.push(rope_launch(x, off, freq_div, t, heads, head_dim, theta, first)),
            r is Ok
                && three_ints_fit(t as int, heads as int, head_dim as int) && off <= i64::MAX
                && int_fits(first + t)
                ==> rotates(
                    final(self)@.last(),
                    *x,
                    off as int,
                    freq_div,
                    t as int,
                    heads as int,
                    head_dim as int,
                    theta,
                    first as int,
                ),
            r is Ok && t * heads * head_dim <= u32::MAX
                ==> has_threads(final(self)@.last(), t * heads * (head_dim as int / 2)),
    {
        let n: usize = t * heads * head_dim / 2;
        if off + t * heads * head_dim > x.len() {
            return Err(
                CudaError::SliceOverrun { at: off + t * heads * head_dim, len: x.len() },
            );
        }
        self.launch(
            Kernel::Rope,
            vec![
                Arg::ptr(x),
                Arg::long(off),
                Arg::ptr_or_dummy(freq_div),
                Arg::flag(freq_div.is_some()),
                Arg::num(t),
                Arg::num(heads),
                Arg::num(head_dim),
                Arg::Float(theta),
                Arg::num(first),
            ],
            LaunchConfig::flat(n),
        );
        proof {
            if three_ints_fit(t as int, heads as int, head_dim as int)
                && off <= i64::MAX && int_fits(first + t) {
                every_pair_is_rotated(x, off, freq_div, t, heads, head_dim, theta, first);
            }
            if t * heads * head_dim <= u32::MAX {
                a_rotation_has_a_thread_a_pair(x, off, freq_div, t, heads, head_dim, theta, first);
            }
        }
        Ok(())
    }

    /// GPT-J style partial rotary embedding over interleaved pairs.
    ///
    /// Not [`Gpu::rope`]: that one rotates every head and pairs `i` with
    /// `i + head_dim / 2`. This rotates only the first `rot_dim` of each row
    /// and pairs `2j` with `2j + 1`. Both produce fluent speech from the wrong
    /// weights.
    pub fn rope_gptj(
        &mut self,
        x: &CudaSlice<Fp32>,
        inv_freq: &CudaSlice<Fp32>,
        positions: usize,
        dim: usize,
        rot_dim: usize,
    )
        requires
            positions * rot_dim <= usize::MAX,
        ensures
            final(self)@ == old(self)@.push(
                rope_gptj_cmd(x, inv_freq, positions, dim, rot_dim),
            ),
            ints_fit(positions as int, rot_dim as int) && int_fits(dim as int)
                ==> rotates_neighbours(
                    final(self)@.last(),
                    *x,
                    *inv_freq,
                    positions as int,
                    dim as int,
                    rot_dim as int,
                ),
    {
        let n: usize = positions * rot_dim / 2;
        self.launch(
            Kernel::RopeGptj,
            vec![
                Arg::ptr(x),
                Arg::ptr(inv_freq),
                Arg::num(positions),
                Arg::num(dim),
                Arg::num(rot_dim),
            ],
            LaunchConfig::flat(n),
        );
        proof {
            if ints_fit(positions as int, rot_dim as int) && int_fits(dim as int) {
                every_two_neighbours_are_rotated(x, inv_freq, positions, dim, rot_dim);
            }
        }
    }
}

/// The sizes that a rotation computes are numbers of this machine.
pub open spec fn rope_fits(off: usize, t: usize, heads: usize, head_dim: usize) -> bool {
    &&& t * heads <= usize::MAX
    &&& t * heads * head_dim <= usize::MAX
    &&& off + t * heads * head_dim <= usize::MAX
}

/// The error of a rotation that runs off its buffer.
pub open spec fn rope_overrun(
    x: &CudaSlice<Fp32>,
    off: usize,
    t: usize,
    heads: usize,
    head_dim: usize,
) -> CudaError {
    CudaError::SliceOverrun { at: (off + t * heads * head_dim) as usize, len: x.len }
}

/// A rotation: a thread a pair.
pub open spec fn rope_launch(
    x: &CudaSlice<Fp32>,
    off: usize,
    freq_div: Option<&CudaSlice<Fp32>>,
    t: usize,
    heads: usize,
    head_dim: usize,
    theta: FloatBits,
    first: usize,
) -> Cmd {
    launch(
        Kernel::Rope,
        seq![
            ptr(*x),
            long(off as int),
            ptr_or_dummy(freq_div),
            flag(freq_div is Some),
            num(t as int),
            num(heads as int),
            num(head_dim as int),
            Arg::Float(theta),
            num(first as int),
        ],
        flat_cfg(t * heads * head_dim / 2),
    )
}

} // verus!
