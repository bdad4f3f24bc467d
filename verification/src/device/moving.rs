//! Copies: which element goes where.

use super::pointwise::takes_twin;
use super::{
    arg_at, arg_int, at, copied, flat2, flat3, has_threads, int_fits, ints_fit, lemma_cube,
    lemma_flat_runs, lemma_rows, stored, three_ints_fit, Fun, Place, Store,
};
use crate::arith::ceil_div_covers;
use crate::attention::repeat_kv_cmd;
use crate::buffer::{CudaSlice, Fp32};
use crate::cache::{Append, Grow};
use crate::checked::{concat2_cmd, copy_from_into_cmd};
use crate::conv::im2col_cmd;
use crate::elementwise::{
    copy_into_cmd, copy_range_cmd, flip_channels_cmd, transpose_cmd, upsample_nearest_cmd,
};
use crate::heads::{merge_cmds, reshape_cmds, SplitF16};
use crate::names::Kernel;
use crate::norm::fresh_twin;
use crate::operand::Q8;
use crate::queue::{made, Cmd};
use vstd::prelude::*;

verus! {

/// What thread `i` of a copying kernel does.
pub open spec fn moved(c: Cmd, i: int) -> Option<Store> {
    match c->kernel {
        Kernel::CopyRange => if i < arg_int(c, 3) {
            Some(copied(arg_at(c, 0, arg_int(c, 2) + i), arg_at(c, 1, i)))
        } else {
            None
        },
        Kernel::CopyInto => if i < arg_int(c, 3) {
            Some(copied(arg_at(c, 1, i), arg_at(c, 0, arg_int(c, 2) + i)))
        } else {
            None
        },
        Kernel::CopyFromInto => if i < arg_int(c, 4) {
            Some(copied(arg_at(c, 2, arg_int(c, 3) + i), arg_at(c, 0, arg_int(c, 1) + i)))
        } else {
            None
        },
        Kernel::Concat2 => if i < arg_int(c, 2) {
            Some(copied(arg_at(c, 1, i), arg_at(c, 0, i)))
        } else if i < arg_int(c, 2) + arg_int(c, 4) {
            Some(copied(arg_at(c, 3, i - arg_int(c, 2)), arg_at(c, 0, i)))
        } else {
            None
        },
        Kernel::Transpose => {
            let (rows, cols) = (arg_int(c, 2), arg_int(c, 3));
            if i < rows * cols {
                Some(copied(arg_at(c, 0, i), arg_at(c, 1, (i % cols) * rows + i / cols)))
            } else {
                None
            }
        },
        Kernel::FlipChannels => {
            let (ch, t) = (arg_int(c, 2), arg_int(c, 3));
            if i < ch * t {
                Some(copied(arg_at(c, 0, (ch - 1 - i / t) * t + i % t), arg_at(c, 1, i)))
            } else {
                None
            }
        },
        Kernel::UpsampleNearest => {
            let (ch, t, factor) = (arg_int(c, 2), arg_int(c, 3), arg_int(c, 4));
            let wide = t * factor;
            if i < ch * wide {
                Some(
                    copied(arg_at(c, 0, (i / wide) * t + (i % wide) / factor), arg_at(c, 1, i)),
                )
            } else {
                None
            }
        },
        Kernel::RepeatKv => {
            let (heads, group, each) = (
                arg_int(c, 2),
                arg_int(c, 3),
                arg_int(c, 4) * arg_int(c, 5),
            );
            if i < heads * each {
                Some(
                    copied(
                        arg_at(c, 0, (i / each / group) * each + (i - i / each * each)),
                        arg_at(c, 1, i),
                    ),
                )
            } else {
                None
            }
        },
        Kernel::Im2col => {
            let (t, in_ch, k, stride, pad, dil, out_t) = (
                arg_int(c, 2),
                arg_int(c, 3),
                arg_int(c, 4),
                arg_int(c, 5),
                arg_int(c, 6),
                arg_int(c, 7),
                arg_int(c, 8),
            );
            let cols = in_ch * k;
            let col = i % cols;
            let from = (i / cols) * stride + (col % k) * dil - pad;
            if i < out_t * cols {
                Some(
                    if 0 <= from < t {
                        copied(arg_at(c, 0, from * in_ch + col / k), arg_at(c, 1, i))
                    } else {
                        stored(Fun::Zero, seq![], arg_at(c, 1, i))
                    },
                )
            } else {
                None
            }
        },
        Kernel::CacheAppend => appends(c, i, Fun::Copy, false),
        Kernel::CacheAppendT => appends(c, i, Fun::Copy, true),
        Kernel::CacheAppendF16 => appends(c, i, Fun::Round, false),
        Kernel::CacheAppendTF16 => appends(c, i, Fun::Round, true),
        Kernel::CacheGrow => grows(c, i),
        Kernel::CacheGrowF16 => grows(c, i),
        Kernel::MergeHeads => {
            let (t, heads, w) = (arg_int(c, 4), arg_int(c, 5), arg_int(c, 6));
            let d = heads * w;
            if i < t * d {
                Some(
                    copied(
                        arg_at(c, 0, ((i % d) / w * t + i / d) * w + i % w),
                        arg_at(c, 1, i),
                    ),
                )
            } else {
                None
            }
        },
        _ => None,
    }
}

/// What thread `i` of an append does: the keys lie a position after a position, or, where
/// they are transposed, an element after an element.
pub open spec fn appends(c: Cmd, i: int, fun: Fun, transposed: bool) -> Option<Store> {
    let (n, heads, w, cap, past) = (
        arg_int(c, 3),
        arg_int(c, 4),
        arg_int(c, 5),
        arg_int(c, 6),
        arg_int(c, 7),
    );
    let d = heads * w;
    let (t, h, e) = (i / d, (i % d) / w, i % w);
    if i < n * d {
        Some(
            stored(
                fun,
                seq![arg_at(c, 0, arg_int(c, 1) + i)],
                arg_at(
                    c,
                    2,
                    if transposed {
                        (h * w + e) * cap + past + t
                    } else {
                        (h * cap + past + t) * w + e
                    },
                ),
            ),
        )
    } else {
        None
    }
}

/// What thread `i` of a growth does.
pub open spec fn grows(c: Cmd, i: int) -> Option<Store> {
    let (rows, len) = (arg_int(c, 2), arg_int(c, 3));
    let (r, j) = (i / len, i % len);
    if i < rows * len {
        Some(copied(arg_at(c, 0, r * arg_int(c, 4) + j), arg_at(c, 1, r * arg_int(c, 5) + j)))
    } else {
        None
    }
}

/// What a reshape of rows of heads does with column `col` of row `r`: nothing where no
/// thread of its grid comes by. The transposing ones go over it in tiles of 32 by 32.
pub open spec fn reshaped(c: Cmd, r: int, col: int) -> Option<Store> {
    let (grid, block) = (c->cfg.grid_dim, c->cfg.block_dim);
    let halves = c->kernel == Kernel::SplitHeadsF16 || c->kernel == Kernel::SplitHeadsTF16;
    let tiled = c->kernel == Kernel::SplitHeadsT || c->kernel == Kernel::SplitHeadsTF16;
    let from = if halves {
        3int
    } else {
        2int
    };
    let (t, heads, w) = (arg_int(c, from), arg_int(c, from + 1), arg_int(c, from + 2));
    let d = heads * w;
    let runs = if tiled {
        block == (32u32, 8u32, 1u32) && grid.0 > col / 32 && grid.1 > r / 32
    } else {
        c->kernel == Kernel::SplitHeads || c->kernel == Kernel::SplitHeadsF16
    };
    let place = if tiled {
        col * t + r
    } else {
        (col / w * t + r) * w + (r * d + col) % w
    };
    if c is Launch && runs && (tiled || has_threads(c, r * d + col + 1)) && r < t && col < d {
        Some(
            if halves {
                stored(
                    Fun::Round,
                    seq![arg_at(c, 0, r * d + col), arg_at(c, 1, col)],
                    arg_at(c, 2, place),
                )
            } else {
                copied(arg_at(c, 0, r * d + col), arg_at(c, 1, place))
            },
        )
    } else {
        None
    }
}

/// Whether a launch copies `n` elements, from `from` on in `src` to `to` on in `dst`, and
/// nothing else.
pub open spec fn copies<T>(
    c: Cmd,
    src: CudaSlice<T>,
    from: int,
    dst: CudaSlice<T>,
    to: int,
    n: int,
) -> bool {
    &&& has_threads(c, n)
    &&& forall|i: int| 0 <= i ==> #[trigger] moved(c, i) == if i < n {
        Some(copied(at(src, from + i), at(dst, to + i)))
    } else {
        None
    }
}

/// The three copies go from where they are asked to start to where they are asked to go,
/// and no further than they are long.
pub proof fn runs_are_copied(
    src: &CudaSlice<Fp32>,
    from: usize,
    dst: CudaSlice<Fp32>,
    to: usize,
    n: usize,
)
    requires
        int_fits(from as int) && int_fits(to as int) && int_fits(n as int),
    ensures
        copies(copy_range_cmd(src, from, n, dst), *src, from as int, dst, 0, n as int),
        copies(copy_into_cmd(&dst, src, to, n), *src, 0, dst, to as int, n as int),
        copies(
            copy_from_into_cmd(&dst, to, src, from, n),
            *src,
            from as int,
            dst,
            to as int,
            n as int,
        ),
{
    lemma_flat_runs(copy_range_cmd(src, from, n, dst), n as int);
    lemma_flat_runs(copy_into_cmd(&dst, src, to, n), n as int);
    lemma_flat_runs(copy_from_into_cmd(&dst, to, src, from, n), n as int);
}

/// Whether a launch puts the `nb` elements of `b` after the `na` of `a`.
pub open spec fn concatenates(
    c: Cmd,
    dst: CudaSlice<Fp32>,
    a: CudaSlice<Fp32>,
    na: int,
    b: CudaSlice<Fp32>,
    nb: int,
) -> bool {
    &&& has_threads(c, na + nb)
    &&& forall|i: int| 0 <= i ==> #[trigger] moved(c, i) == if i < na {
        Some(copied(at(a, i), at(dst, i)))
    } else if i < na + nb {
        Some(copied(at(b, i - na), at(dst, i)))
    } else {
        None
    }
}

/// A concatenation puts the second run right after the first.
pub proof fn two_runs_lie_end_to_end(
    dst: &CudaSlice<Fp32>,
    a: &CudaSlice<Fp32>,
    na: usize,
    b: &CudaSlice<Fp32>,
    nb: usize,
)
    requires
        int_fits(na + nb),
    ensures
        concatenates(concat2_cmd(dst, a, na, b, nb), *dst, *a, na as int, *b, nb as int),
{
    lemma_flat_runs(concat2_cmd(dst, a, na, b, nb), na + nb);
}

/// Whether a launch moves element `(r, k)` of `rows` by `cols` to `(k, r)`, for each.
pub open spec fn transposes(
    c: Cmd,
    x: CudaSlice<Fp32>,
    out: CudaSlice<Fp32>,
    rows: int,
    cols: int,
) -> bool {
    &&& has_threads(c, rows * cols)
    &&& forall|r: int, k: int|
        0 <= r < rows && 0 <= k < cols ==> moved(c, #[trigger] flat2(r, k, cols)) == Some(
            copied(at(x, r * cols + k), at(out, k * rows + r)),
        )
}

/// A transposition moves every element to the other side of the diagonal.
pub proof fn every_element_is_transposed(
    x: &CudaSlice<Fp32>,
    rows: usize,
    cols: usize,
    out: CudaSlice<Fp32>,
)
    requires
        ints_fit(rows as int, cols as int),
    ensures
        transposes(transpose_cmd(x, rows, cols, out), *x, out, rows as int, cols as int),
{
    lemma_rows(rows as int, cols as int);
    lemma_flat_runs(transpose_cmd(x, rows, cols, out), rows * cols);
}

/// Whether a launch moves channel `k` of `ch` to where `ch - 1 - k` is, for each.
pub open spec fn flips(
    c: Cmd,
    x: CudaSlice<Fp32>,
    out: CudaSlice<Fp32>,
    ch: int,
    t: int,
) -> bool {
    &&& has_threads(c, ch * t)
    &&& forall|k: int, p: int|
        0 <= k < ch && 0 <= p < t ==> moved(c, #[trigger] flat2(k, p, t)) == Some(
            copied(at(x, (ch - 1 - k) * t + p), at(out, k * t + p)),
        )
}

/// A flip turns the channels round and leaves each channel as it runs.
pub proof fn channels_are_turned_round(
    x: &CudaSlice<Fp32>,
    ch: usize,
    t: usize,
    out: CudaSlice<Fp32>,
)
    requires
        ints_fit(ch as int, t as int),
    ensures
        flips(flip_channels_cmd(x, ch, t, out), *x, out, ch as int, t as int),
{
    lemma_rows(ch as int, t as int);
    lemma_flat_runs(flip_channels_cmd(x, ch, t, out), ch * t);
}

/// Whether a launch writes each of the `t` elements of `ch` channels `factor` times over.
pub open spec fn repeats(
    c: Cmd,
    x: CudaSlice<Fp32>,
    out: CudaSlice<Fp32>,
    ch: int,
    t: int,
    factor: int,
) -> bool {
    &&& has_threads(c, ch * t * factor)
    &&& forall|k: int, p: int, j: int|
        0 <= k < ch && 0 <= p < t && 0 <= j < factor ==> moved(
            c,
            #[trigger] flat3(k, p, j, t, factor),
        ) == Some(copied(at(x, k * t + p), at(out, flat3(k, p, j, t, factor))))
}

/// An upsampling repeats every element of every channel.
pub proof fn every_element_is_repeated(
    x: &CudaSlice<Fp32>,
    ch: usize,
    t: usize,
    factor: usize,
    out: CudaSlice<Fp32>,
)
    requires
        three_ints_fit(ch as int, t as int, factor as int),
    ensures
        repeats(
            upsample_nearest_cmd(x, ch, t, factor, out),
            *x,
            out,
            ch as int,
            t as int,
            factor as int,
        ),
{
    lemma_cube(ch as int, t as int, factor as int);
    lemma_flat_runs(upsample_nearest_cmd(x, ch, t, factor, out), ch * t * factor);
}

/// Whether a launch gives each of `heads` heads of `each` elements the head of `kv_heads`
/// that its group shares.
pub open spec fn shares_heads(
    c: Cmd,
    src: CudaSlice<Fp32>,
    out: CudaSlice<Fp32>,
    heads: int,
    kv_heads: int,
    each: int,
) -> bool {
    &&& has_threads(c, heads * each)
    &&& forall|h: int, i: int|
        0 <= h < heads && 0 <= i < each ==> moved(c, #[trigger] flat2(h, i, each)) == Some(
            copied(at(src, h / (heads / kv_heads) * each + i), at(out, h * each + i)),
        )
}

/// A repetition over heads gives every query head its group's keys or values.
pub proof fn every_head_gets_what_its_group_shares(
    src: &CudaSlice<Fp32>,
    heads: usize,
    kv_heads: usize,
    t: usize,
    head_dim: usize,
    out: CudaSlice<Fp32>,
)
    requires
        0 < kv_heads,
        three_ints_fit(heads as int, t as int, head_dim as int),
    ensures
        shares_heads(
            repeat_kv_cmd(src, heads, kv_heads, t, head_dim, out),
            *src,
            out,
            heads as int,
            kv_heads as int,
            t * head_dim,
        ),
{
    let c = repeat_kv_cmd(src, heads, kv_heads, t, head_dim, out);
    lemma_rows(heads as int, t * head_dim);
    assert(heads * t * head_dim == heads * (t * head_dim)) by (nonlinear_arith);
    lemma_flat_runs(c, heads * t * head_dim);
    assert(0 <= heads as int / kv_heads as int <= heads) by (nonlinear_arith)
        requires
            0 < kv_heads,
    ;
}

/// Whether a launch lays out, for each of `out_t` positions, the `in_ch` channels of the
/// `k` positions under it, `stride` apart from the next position's, `dilation` apart from
/// each other and `pad` to the left, with zero where there are none of `t`.
pub open spec fn unfolds(
    c: Cmd,
    x: CudaSlice<Fp32>,
    out: CudaSlice<Fp32>,
    t: int,
    in_ch: int,
    k: int,
    stride: int,
    pad: int,
    dilation: int,
    out_t: int,
) -> bool {
    &&& has_threads(c, out_t * (in_ch * k))
    &&& forall|p: int, ch: int, tap: int|
        0 <= p < out_t && 0 <= ch < in_ch && 0 <= tap < k ==> moved(
            c,
            #[trigger] flat3(p, ch, tap, in_ch, k),
        ) == Some(
            {
                let from = p * stride + tap * dilation - pad;
                let to = at(out, flat3(p, ch, tap, in_ch, k));
                if 0 <= from < t {
                    copied(at(x, from * in_ch + ch), to)
                } else {
                    stored(Fun::Zero, seq![], to)
                }
            },
        )
}

/// An unfolding lays out every tap of every channel under every position.
pub proof fn every_tap_is_laid_out(
    x: &CudaSlice<Fp32>,
    t: usize,
    in_ch: usize,
    k: usize,
    stride: usize,
    pad: usize,
    dilation: usize,
    out: CudaSlice<Fp32>,
    out_t: int,
)
    requires
        int_fits(t as int) && int_fits(stride as int) && int_fits(pad as int),
        int_fits(dilation as int),
        three_ints_fit(out_t, in_ch as int, k as int),
    ensures
        unfolds(
            im2col_cmd(x, t, in_ch, k, stride, pad, dilation, out, out_t),
            *x,
            out,
            t as int,
            in_ch as int,
            k as int,
            stride as int,
            pad as int,
            dilation as int,
            out_t,
        ),
{
    let c = im2col_cmd(x, t, in_ch, k, stride, pad, dilation, out, out_t);
    lemma_cube(out_t, in_ch as int, k as int);
    lemma_flat_runs(c, out_t * (in_ch * k));
}

/// Where element `e` of head `h` at position `p` is, in a cache of `cap` positions whose
/// heads are of `w` elements.
pub open spec fn cached_at<T>(
    cache: CudaSlice<T>,
    h: int,
    p: int,
    e: int,
    cap: int,
    w: int,
    transposed: bool,
) -> Option<Place> {
    at(
        cache,
        if transposed {
            (h * w + e) * cap + p
        } else {
            (h * cap + p) * w + e
        },
    )
}

/// Whether a launch moves each of `n` rows, from `off` on in `src`, behind the `past`
/// positions of a cache, through `fun`.
pub open spec fn fills_behind<T>(
    c: Cmd,
    fun: Fun,
    src: CudaSlice<Fp32>,
    dst: CudaSlice<T>,
    transposed: bool,
    a: Append,
) -> bool {
    &&& has_threads(c, a.n * a.kv_heads * a.head_dim)
    &&& forall|t: int, h: int, e: int|
        0 <= t < a.n && 0 <= h < a.kv_heads && 0 <= e < a.head_dim ==> moved(
            c,
            #[trigger] flat3(t, h, e, a.kv_heads, a.head_dim),
        ) == Some(
            stored(
                fun,
                seq![at(src, a.src_off + flat3(t, h, e, a.kv_heads, a.head_dim))],
                cached_at(dst, h, a.past + t, e, a.cap, a.head_dim, transposed),
            ),
        )
}

/// An append puts every element of every row at its own position of its own head, as it is
/// or rounded, in the layout that is asked for.
pub proof fn every_row_is_cached<T>(
    a: Append,
    src: CudaSlice<Fp32>,
    dst: CudaSlice<T>,
    halves: bool,
    transposed: bool,
)
    requires
        three_ints_fit(a.n, a.kv_heads, a.head_dim),
        int_fits(a.cap) && int_fits(a.past) && 0 <= a.src_off <= i64::MAX,
    ensures
        !halves ==> fills_behind(
            a.append_launch(
                if transposed {
                    Kernel::CacheAppendT
                } else {
                    Kernel::CacheAppend
                },
                src,
                dst,
            ),
            Fun::Copy,
            src,
            dst,
            transposed,
            a,
        ),
        halves ==> fills_behind(
            a.append_launch(
                if transposed {
                    Kernel::CacheAppendTF16
                } else {
                    Kernel::CacheAppendF16
                },
                src,
                dst,
            ),
            Fun::Round,
            src,
            dst,
            transposed,
            a,
        ),
{
    lemma_cube(a.n, a.kv_heads, a.head_dim);
    let kernel = if halves && transposed {
        Kernel::CacheAppendTF16
    } else if halves {
        Kernel::CacheAppendF16
    } else if transposed {
        Kernel::CacheAppendT
    } else {
        Kernel::CacheAppend
    };
    lemma_flat_runs(a.append_launch(kernel, src, dst), a.total());
}

/// Whether a launch moves every live element of a cache to where it is in a larger one.
pub open spec fn moves_to_larger<T>(
    c: Cmd,
    src: CudaSlice<T>,
    dst: CudaSlice<T>,
    g: Grow,
) -> bool {
    forall|h: int, p: int, e: int| #![
        trigger cached_at(src, h, p, e, g.old_cap, g.head_dim, g.transposed),
    ]
        0 <= h < g.kv_heads && 0 <= p < g.live && 0 <= e < g.head_dim ==> {
            let i = if g.transposed {
                flat3(h, e, p, g.head_dim, g.live)
            } else {
                flat3(h, p, e, g.live, g.head_dim)
            };
            &&& has_threads(c, i + 1)
            &&& moved(c, i) == Some(
                copied(
                    cached_at(src, h, p, e, g.old_cap, g.head_dim, g.transposed),
                    cached_at(dst, h, p, e, g.new_cap, g.head_dim, g.transposed),
                ),
            )
        }
}

/// Whether the sizes of a growth are the device's integers.
pub open spec fn growth_ints_fit(g: Grow) -> bool {
    &&& int_fits(g.kv_heads * g.head_dim) && int_fits(g.live * g.head_dim)
    &&& int_fits(g.old_cap * g.head_dim) && int_fits(g.new_cap * g.head_dim)
    &&& int_fits(g.kv_heads) && int_fits(g.live)
    &&& int_fits(g.old_cap) && int_fits(g.new_cap)
    &&& int_fits(g.kv_heads * g.live * g.head_dim)
}

/// A growth that is not refused and has anything live moves all of it: every element of
/// every live position keeps its head and its position under the new capacity.
pub proof fn every_live_element_moves<T>(
    g: Grow,
    src: CudaSlice<T>,
    dst: CudaSlice<T>,
    halves: bool,
)
    requires
        g.refusal(src.len as int, dst.len as int) is None,
        0 < g.live && 0 < g.kv_heads && 0 < g.head_dim,
        growth_ints_fit(g),
    ensures
        ({
            let cs = g.commands(
                if halves {
                    Kernel::CacheGrowF16
                } else {
                    Kernel::CacheGrow
                },
                src,
                dst,
            );
            cs.len() == 1 && moves_to_larger(cs[0], src, dst, g)
        }),
{
    let kernel = if halves {
        Kernel::CacheGrowF16
    } else {
        Kernel::CacheGrow
    };
    let r = g.runs();
    let all = g.kv_heads * g.live * g.head_dim;
    assert(r.rows * r.len == all && all > 0) by (nonlinear_arith)
        requires
            0 < g.live && 0 < g.kv_heads && 0 < g.head_dim,
            all == g.kv_heads * g.live * g.head_dim,
            g.transposed ==> r.rows == g.kv_heads * g.head_dim && r.len == g.live,
            !g.transposed ==> r.rows == g.kv_heads && r.len == g.live * g.head_dim,
    ;
    let cs = g.commands(kernel, src, dst);
    let c = cs[0];
    lemma_flat_runs(c, all);
    let w = g.head_dim;
    assert forall|h: int, p: int, e: int|
        #![trigger cached_at(src, h, p, e, g.old_cap, g.head_dim, g.transposed)]
        0 <= h < g.kv_heads && 0 <= p < g.live && 0 <= e < w implies {
        let i = if g.transposed {
            flat3(h, e, p, w, g.live)
        } else {
            flat3(h, p, e, g.live, w)
        };
        &&& has_threads(c, i + 1)
        &&& moved(c, i) == Some(
            copied(
                cached_at(src, h, p, e, g.old_cap, g.head_dim, g.transposed),
                cached_at(dst, h, p, e, g.new_cap, g.head_dim, g.transposed),
            ),
        )
    } by {
        if g.transposed {
            super::lemma_flat3(g.kv_heads, w, g.live, h, e, p);
        } else {
            super::lemma_flat3(g.kv_heads, g.live, w, h, p, e);
            assert((h * g.old_cap + p) * w + e == h * (g.old_cap * w) + (p * w + e))
                by (nonlinear_arith);
            assert((h * g.new_cap + p) * w + e == h * (g.new_cap * w) + (p * w + e))
                by (nonlinear_arith);
        }
    }
}

/// Where element `e` of head `h` of row `t` is once the heads have been split off, with a
/// head's rows one after the other or, where it is transposed, its elements.
pub open spec fn split_at<T>(
    out: CudaSlice<T>,
    rows: int,
    w: int,
    t: int,
    h: int,
    e: int,
    transposed: bool,
) -> Option<Place> {
    at(
        out,
        if transposed {
            (h * w + e) * rows + t
        } else {
            (h * rows + t) * w + e
        },
    )
}

/// Whether a launch moves every element of `t` rows of heads to its head's own rows.
pub open spec fn splits(
    c: Cmd,
    x: CudaSlice<Fp32>,
    out: CudaSlice<Fp32>,
    rows: int,
    heads: int,
    w: int,
    transposed: bool,
) -> bool {
    forall|t: int, h: int, e: int|
        0 <= t < rows && 0 <= h < heads && 0 <= e < w ==> reshaped(
            c,
            t,
            #[trigger] flat3(t, h, e, heads, w) - t * (heads * w),
        ) == Some(
            copied(at(x, flat3(t, h, e, heads, w)), split_at(out, rows, w, t, h, e, transposed)),
        )
}

/// A split puts every element of every head where the layout has it.
pub proof fn every_head_is_split_off(
    at_: int,
    x: &CudaSlice<Fp32>,
    t: usize,
    heads: usize,
    head_dim: usize,
    transposed: bool,
)
    requires
        three_ints_fit(t as int, heads as int, head_dim as int),
    ensures
        splits(
            reshape_cmds(
                at_,
                if transposed {
                    Kernel::SplitHeadsT
                } else {
                    Kernel::SplitHeads
                },
                x,
                t,
                heads,
                head_dim,
            ).last(),
            *x,
            made::<Fp32>(at_, t * heads * head_dim),
            t as int,
            heads as int,
            head_dim as int,
            transposed,
        ),
{
    let kernel = if transposed {
        Kernel::SplitHeadsT
    } else {
        Kernel::SplitHeads
    };
    let (n, hs, w) = (t as int, heads as int, head_dim as int);
    let c = reshape_cmds(at_, kernel, x, t, heads, head_dim).last();
    lemma_cube(n, hs, w);
    if transposed {
        lemma_tiles(n, hs * w);
    } else {
        lemma_flat_runs(c, n * (hs * w));
    }
}

proof fn lemma_tiles(rows: int, cols: int)
    requires
        0 <= rows <= i32::MAX,
        0 <= cols <= i32::MAX,
    ensures
        forall|r: int| 0 <= r < rows ==> #[trigger] (r / 32) < crate::arith::ceil_div(rows, 32),
        forall|k: int| 0 <= k < cols ==> #[trigger] (k / 32) < crate::arith::ceil_div(cols, 32),
        0 <= crate::arith::ceil_div(rows, 32) <= rows,
        0 <= crate::arith::ceil_div(cols, 32) <= cols,
{
    ceil_div_covers(rows, 32);
    ceil_div_covers(cols, 32);
}

/// Whether a launch rounds every element of `t` rows of heads, with its column's bias on top
/// where there is one, to its head's own rows.
pub open spec fn splits_rounded(
    c: Cmd,
    s: SplitF16<'_>,
    out: CudaSlice<u16>,
    transposed: bool,
) -> bool {
    forall|t: int, h: int, e: int|
        0 <= t < s.t && 0 <= h < s.heads && 0 <= e < s.head_dim ==> reshaped(
            c,
            t,
            #[trigger] flat3(t, h, e, s.heads, s.head_dim) - t * (s.heads * s.head_dim),
        ) == Some(
            stored(
                Fun::Round,
                seq![
                    at(s.x, s.x_off + flat3(t, h, e, s.heads, s.head_dim)),
                    match s.bias {
                        Some((b, off)) => at(*b, off + (h * s.head_dim + e)),
                        None => None,
                    },
                ],
                split_at(out, s.t, s.head_dim, t, h, e, transposed),
            ),
        )
}

/// A split to half precision that is not refused puts every element of every head where the
/// layout has it, each with its own column's bias, and reads nothing past `x` or the bias.
pub proof fn every_head_is_split_off_rounded(s: SplitF16<'_>, at_: int, transposed: bool)
    requires
        s.refusal() is None,
        s.kernel == if transposed {
            Kernel::SplitHeadsTF16
        } else {
            Kernel::SplitHeadsF16
        },
        0 <= s.x_off,
        three_ints_fit(s.t, s.heads, s.head_dim),
    ensures
        s.commands(at_).len() == 2,
        splits_rounded(
            s.commands(at_).last(),
            s,
            made::<u16>(at_, s.t * s.heads * s.head_dim),
            transposed,
        ),
        s.x_off + s.t * s.heads * s.head_dim <= s.x.len,
        s.bias matches Some((b, off)) ==> off + s.heads * s.head_dim <= b.len,
{
    let c = s.commands(at_).last();
    lemma_cube(s.t, s.heads, s.head_dim);
    if transposed {
        lemma_tiles(s.t, s.heads * s.head_dim);
    } else {
        lemma_flat_runs(c, s.t * (s.heads * s.head_dim));
    }
    let out = made::<u16>(at_, s.t * s.heads * s.head_dim);
    assert forall|t: int, h: int, e: int|
        0 <= t < s.t && 0 <= h < s.heads && 0 <= e < s.head_dim implies reshaped(
        c,
        t,
        #[trigger] flat3(t, h, e, s.heads, s.head_dim) - t * (s.heads * s.head_dim),
    ) == Some(
        stored(
            Fun::Round,
            seq![
                at(s.x, s.x_off + flat3(t, h, e, s.heads, s.head_dim)),
                match s.bias {
                    Some((b, off)) => at(*b, off + (h * s.head_dim + e)),
                    None => None,
                },
            ],
            split_at(out, s.t, s.head_dim, t, h, e, transposed),
        ),
    ) by {
        let col = h * s.head_dim + e;
        assert(flat3(t, h, e, s.heads, s.head_dim) - t * (s.heads * s.head_dim) == col);
        assert(arg_at(c, 1, col) == match s.bias {
            Some((b, off)) => at(*b, off + col),
            None => None,
        });
        assert(arg_at(c, 0, t * (s.heads * s.head_dim) + col) == at(
            s.x,
            s.x_off + flat3(t, h, e, s.heads, s.head_dim),
        ));
        let done = reshaped(c, t, col)->0;
        assert(reshaped(c, t, col) is Some);
        assert(done.to =~= seq![split_at(out, s.t, s.head_dim, t, h, e, transposed)]);
        assert(done.reads =~= seq![
            at(s.x, s.x_off + flat3(t, h, e, s.heads, s.head_dim)),
            match s.bias {
                Some((b, off)) => at(*b, off + col),
                None => None,
            },
        ]);
    }
}

/// Whether a launch puts the rows of every head side by side again.
pub open spec fn merges(
    c: Cmd,
    x: CudaSlice<Fp32>,
    out: CudaSlice<Fp32>,
    rows: int,
    heads: int,
    w: int,
) -> bool {
    &&& has_threads(c, rows * heads * w)
    &&& forall|t: int, h: int, e: int|
        0 <= t < rows && 0 <= h < heads && 0 <= e < w ==> moved(
            c,
            #[trigger] flat3(t, h, e, heads, w),
        ) == Some(
            copied(split_at(x, rows, w, t, h, e, false), at(out, flat3(t, h, e, heads, w))),
        )
}

/// A merge takes every element back from where a split puts it, and takes the twin of the
/// merged rows exactly where that is asked for.
pub proof fn every_head_is_merged(
    at_: int,
    x: &CudaSlice<Fp32>,
    t: usize,
    heads: usize,
    head_dim: usize,
    quantize: bool,
)
    requires
        three_ints_fit(t as int, heads as int, head_dim as int),
    ensures
        ({
            let k = heads * head_dim;
            let c = merge_cmds(at_, x, t, heads, head_dim, quantize).last();
            &&& merges(
                c,
                *x,
                made::<Fp32>(at_, t * k),
                t as int,
                heads as int,
                head_dim as int,
            )
            &&& takes_twin(
                c,
                2,
                3,
                if quantize {
                    Some(fresh_twin(at_ + 1, t, k as usize))
                } else {
                    None::<Q8>
                },
            )
        }),
{
    let c = merge_cmds(at_, x, t, heads, head_dim, quantize).last();
    lemma_cube(t as int, heads as int, head_dim as int);
    lemma_flat_runs(c, t * heads * head_dim);
}

} // verus!
