//! Key and value caches: appending to them, growing them, and where each
//! element of them is.

use crate::arith::{greater, lemma_unflatten, lesser, product_fits, sum_fits};
use crate::buffer::{CudaSlice, FloatBits, Fp32};
use crate::device::{Fun, int_fits, three_ints_fit};
use crate::device::moving::{
    every_live_element_moves, every_row_is_cached, fills_behind, growth_ints_fit, moves_to_larger,
};
use crate::device::attending::{
    a_row_is_rotated_and_stored, rope_cache_ints_fit, rotates_and_stores,
};
use crate::error::CudaError;
use crate::gemv::OutLayout;
use crate::launch::{flat_cfg, LaunchConfig};
use crate::names::Kernel;
use crate::queue::{flag, launch, long, num, ptr, ptr_or_dummy, Arg, Cmd, Gpu};
use vstd::math::{max, min};
use vstd::prelude::*;

verus! {

/// The shape of a head-major cache: keys are `[heads, cap, head_dim]`, and the
/// transposed one, for values, is `[heads, head_dim, cap]`.
pub struct CacheShape {
    pub heads: int,
    pub head_dim: int,
    pub cap: int,
    pub transposed: bool,
}

impl CacheShape {
    /// Whether there is such an element.
    pub open spec fn has(self, head: int, pos: int, j: int) -> bool {
        0 <= head < self.heads && 0 <= pos < self.cap && 0 <= j < self.head_dim
    }

    /// Where element `j` of a head is at position `pos`.
    pub open spec fn index(self, head: int, pos: int, j: int) -> int {
        if self.transposed {
            (head * self.head_dim + j) * self.cap + pos
        } else {
            (head * self.cap + pos) * self.head_dim + j
        }
    }

    /// Elements of the whole cache.
    pub open spec fn size(self) -> int {
        self.heads * self.cap * self.head_dim
    }
}

/// Every element of a cache has a place of its own in it.
pub proof fn cache_places_are_distinct(
    s: CacheShape,
    head: int,
    pos: int,
    j: int,
    head2: int,
    pos2: int,
    j2: int,
)
    requires
        s.has(head, pos, j),
        s.has(head2, pos2, j2),
    ensures
        0 <= s.index(head, pos, j) < s.size(),
        s.index(head, pos, j) == s.index(head2, pos2, j2) ==> head == head2 && pos == pos2 && j
            == j2,
{
    let (h, c, w) = (s.heads, s.cap, s.head_dim);
    if s.transposed {
        assert(0 <= (head * w + j) * c + pos < h * c * w) by (nonlinear_arith)
            requires
                0 <= head < h,
                0 <= pos < c,
                0 <= j < w,
        ;
        if s.index(head, pos, j) == s.index(head2, pos2, j2) {
            lemma_unflatten(head * w + j, pos, head2 * w + j2, pos2, c);
            lemma_unflatten(head, j, head2, j2, w);
        }
    } else {
        assert(0 <= (head * c + pos) * w + j < h * c * w) by (nonlinear_arith)
            requires
                0 <= head < h,
                0 <= pos < c,
                0 <= j < w,
        ;
        if s.index(head, pos, j) == s.index(head2, pos2, j2) {
            lemma_unflatten(head * c + pos, j, head2 * c + pos2, j2, w);
            lemma_unflatten(head, pos, head2, pos2, c);
        }
    }
}

/// Where the append kernel stores element `i` of the `[n, heads * head_dim]`
/// rows it is handed, the first of them at position `past`.
pub open spec fn append_index(s: CacheShape, past: int, i: int) -> int {
    let d = s.heads * s.head_dim;
    s.index((i % d) / s.head_dim, past + i / d, i % s.head_dim)
}

/// What an append leaves in the cache: each row at its position, and everything
/// else as it was.
pub open spec fn appended<T>(
    s: CacheShape,
    rows: Seq<T>,
    past: int,
    before: Seq<T>,
    after: Seq<T>,
) -> bool {
    &&& after.len() == before.len()
    &&& forall|i: int|
        0 <= i < rows.len() ==> #[trigger] after[append_index(s, past, i)] == rows[i]
    &&& forall|x: int|
        0 <= x < before.len() && (forall|i: int|
            0 <= i < rows.len() ==> #[trigger] append_index(s, past, i) != x)
            ==> #[trigger] after[x] == before[x]
}

/// The place of an element of the appended rows: row `t`, head `head`,
/// element `j` goes to position `past + t` of that head.
pub proof fn append_places_each_row(s: CacheShape, past: int, n: int, t: int, head: int, j: int)
    requires
        0 <= t < n,
        0 <= past,
        past + n <= s.cap,
        0 <= head < s.heads,
        0 <= j < s.head_dim,
    ensures
        0 <= (t * s.heads + head) * s.head_dim + j < n * s.heads * s.head_dim,
        append_index(s, past, (t * s.heads + head) * s.head_dim + j) == s.index(
            head,
            past + t,
            j,
        ),
{
    let (h, w) = (s.heads, s.head_dim);
    let d = h * w;
    let i = (t * h + head) * w + j;
    let within = head * w + j;
    assert(0 <= i < n * h * w) by (nonlinear_arith)
        requires
            i == (t * h + head) * w + j,
            0 <= t < n,
            0 <= head < h,
            0 <= j < w,
    ;
    assert(0 <= within < d) by (nonlinear_arith)
        requires
            within == head * w + j,
            d == h * w,
            0 <= head < h,
            0 <= j < w,
    ;
    assert(i == d * t + within) by (nonlinear_arith)
        requires
            i == (t * h + head) * w + j,
            within == head * w + j,
            d == h * w,
    ;
    vstd::arithmetic::div_mod::lemma_fundamental_div_mod_converse(i, d, t, within);
    assert(within == w * head + j) by (nonlinear_arith)
        requires
            within == head * w + j,
    ;
    vstd::arithmetic::div_mod::lemma_fundamental_div_mod_converse(within, w, head, j);
    assert(i == w * (t * h + head) + j) by (nonlinear_arith)
        requires
            i == (t * h + head) * w + j,
    ;
    vstd::arithmetic::div_mod::lemma_fundamental_div_mod_converse(i, w, t * h + head, j);
}

proof fn lemma_append_index_is_of_a_row(s: CacheShape, past: int, n: int, i: int) -> (r: (
    int,
    int,
    int,
))
    requires
        0 <= i < n * s.heads * s.head_dim,
        0 <= past,
        past + n <= s.cap,
        s.heads >= 0,
        s.head_dim >= 0,
    ensures
        s.has(r.1, past + r.0, r.2),
        0 <= r.0 < n,
        append_index(s, past, i) == s.index(r.1, past + r.0, r.2),
{
    let (h, w) = (s.heads, s.head_dim);
    let d = h * w;
    assert(n * h * w == n * d) by (nonlinear_arith)
        requires
            d == h * w,
    ;
    assert(d > 0 && n > 0) by (nonlinear_arith)
        requires
            0 < n * d,
            d >= 0,
    {
        assert(d >= 0);
    }
    assert(h > 0 && w > 0) by (nonlinear_arith)
        requires
            h * w > 0,
            h >= 0,
            w >= 0,
    ;
    let t = i / d;
    let within = i % d;
    vstd::arithmetic::div_mod::lemma_fundamental_div_mod(i, d);
    assert(0 <= t < n) by (nonlinear_arith)
        requires
            i == d * t + within,
            0 <= within < d,
            0 <= i < n * d,
    ;
    let head = within / w;
    let j = within % w;
    vstd::arithmetic::div_mod::lemma_fundamental_div_mod(within, w);
    assert(0 <= head < h) by (nonlinear_arith)
        requires
            within == w * head + j,
            0 <= j < w,
            0 <= within < h * w,
    ;
    assert(i == w * (t * h + head) + j) by (nonlinear_arith)
        requires
            i == (h * w) * t + within,
            within == w * head + j,
    ;
    vstd::arithmetic::div_mod::lemma_fundamental_div_mod_converse(i, w, t * h + head, j);
    (t, head, j)
}

/// A read gives back what an append wrote: position `past + t` of a head holds
/// row `t`'s part of it. Every other position still holds what it held.
pub proof fn reads_give_back_appends<T>(
    s: CacheShape,
    rows: Seq<T>,
    n: int,
    past: int,
    before: Seq<T>,
    after: Seq<T>,
    head: int,
    pos: int,
    j: int,
)
    requires
        s.has(head, pos, j),
        0 <= past,
        0 <= n,
        past + n <= s.cap,
        rows.len() == n * s.heads * s.head_dim,
        before.len() >= s.size(),
        appended(s, rows, past, before, after),
    ensures
        past <= pos < past + n ==> after[s.index(head, pos, j)] == rows[((pos - past) * s.heads
            + head) * s.head_dim + j],
        !(past <= pos < past + n) ==> after[s.index(head, pos, j)] == before[s.index(
            head,
            pos,
            j,
        )],
{
    cache_places_are_distinct(s, head, pos, j, head, pos, j);
    if past <= pos < past + n {
        append_places_each_row(s, past, n, pos - past, head, j);
        let i = ((pos - past) * s.heads + head) * s.head_dim + j;
        assert(after[append_index(s, past, i)] == rows[i]);
    } else {
        let x = s.index(head, pos, j);
        assert forall|i: int| 0 <= i < rows.len() implies #[trigger] append_index(s, past, i)
            != x by {
            let (t, h2, j2) = lemma_append_index_is_of_a_row(s, past, n, i);
            cache_places_are_distinct(s, head, pos, j, h2, past + t, j2);
        }
        assert(after[x] == before[x]);
    }
}

/// One projected row placed by [`Gpu::gemv_into`] lands where appending it
/// would put it.
pub proof fn a_placed_row_is_an_append(
    heads: usize,
    head_dim: usize,
    cap: usize,
    pos: usize,
    col: int,
)
    requires
        pos < cap,
        0 <= col < heads * head_dim,
    ensures
        (OutLayout::KeyCache { head_dim, cap, pos }).position(col) == append_index(
            CacheShape {
                heads: heads as int,
                head_dim: head_dim as int,
                cap: cap as int,
                transposed: false,
            },
            pos as int,
            col,
        ),
        (OutLayout::ValueCache { cap, pos }).position(col) == append_index(
            CacheShape {
                heads: heads as int,
                head_dim: head_dim as int,
                cap: cap as int,
                transposed: true,
            },
            pos as int,
            col,
        ),
{
    let (h, w) = (heads as int, head_dim as int);
    let d = h * w;
    assert(w > 0) by (nonlinear_arith)
        requires
            0 < h * w,
            w >= 0,
            h >= 0,
    ;
    vstd::arithmetic::div_mod::lemma_small_mod(col as nat, d as nat);
    vstd::arithmetic::div_mod::lemma_basic_div(col, d);
    vstd::arithmetic::div_mod::lemma_fundamental_div_mod(col, w);
    assert((col / w) * w == w * (col / w)) by (nonlinear_arith);
}

/// An append as it was asked for.
pub struct Append {
    pub src_len: int,
    pub src_off: int,
    pub n: int,
    pub kv_heads: int,
    pub head_dim: int,
    pub cap: int,
    pub past: int,
}

impl Append {
    /// Elements that are appended.
    pub open spec fn total(self) -> int {
        self.n * self.kv_heads * self.head_dim
    }

    /// Why the append is refused, if it is. A cache whose elements are halves
    /// of a word has to have an even capacity.
    pub open spec fn refusal(self, halves: bool) -> Option<CudaError> {
        if self.past + self.n > self.cap {
            Some(
                CudaError::CacheOverrun {
                    at: (self.past + self.n) as usize,
                    cap: self.cap as usize,
                },
            )
        } else if halves && self.cap % 2 != 0 {
            Some(CudaError::OddCacheCapacity { cap: self.cap as usize })
        } else if self.src_off + self.total() > self.src_len {
            Some(
                CudaError::SliceOverrun {
                    at: (self.src_off + self.total()) as usize,
                    len: self.src_len as usize,
                },
            )
        } else {
            None
        }
    }

    /// The sizes that are computed are numbers of this machine.
    pub open spec fn fits(self, halves: bool) -> bool {
        &&& self.past + self.n <= usize::MAX
        &&& self.past + self.n <= self.cap && !(halves && self.cap % 2 != 0) ==> {
            &&& self.n * self.kv_heads <= usize::MAX
            &&& self.total() <= usize::MAX
            &&& self.src_off + self.total() <= usize::MAX
        }
    }

    /// The launch: a thread an element.
    pub open spec fn append_launch<T>(
        self,
        kernel: Kernel,
        src: CudaSlice<Fp32>,
        dst: CudaSlice<T>,
    ) -> Cmd {
        launch(
            kernel,
            seq![
                ptr(src),
                long(self.src_off),
                ptr(dst),
                num(self.n),
                num(self.kv_heads),
                num(self.head_dim),
                num(self.cap),
                num(self.past),
            ],
            flat_cfg(self.total()),
        )
    }
}

/// The append that these arguments ask for.
#[verifier::inline]
pub open spec fn append(
    src: &CudaSlice<Fp32>,
    src_off: usize,
    n: usize,
    kv_heads: usize,
    head_dim: usize,
    cap: usize,
    past: usize,
) -> Append {
    Append {
        src_len: src.len as int,
        src_off: src_off as int,
        n: n as int,
        kv_heads: kv_heads as int,
        head_dim: head_dim as int,
        cap: cap as int,
        past: past as int,
    }
}

/// An append that is not refused stays inside a cache of its shape, and inside
/// the rows it reads.
pub proof fn accepted_appends_stay_inside(a: Append, halves: bool, transposed: bool, i: int)
    requires
        a.refusal(halves) is None,
        a.past >= 0,
        a.kv_heads >= 0,
        a.head_dim >= 0,
        0 <= i < a.total(),
    ensures
        0 <= append_index(
            CacheShape { heads: a.kv_heads, head_dim: a.head_dim, cap: a.cap, transposed },
            a.past,
            i,
        ) < a.kv_heads * a.cap * a.head_dim,
        a.src_off + i < a.src_len,
{
    let s = CacheShape { heads: a.kv_heads, head_dim: a.head_dim, cap: a.cap, transposed };
    let (t, h, j) = lemma_append_index_is_of_a_row(s, a.past, a.n, i);
    cache_places_are_distinct(s, h, a.past + t, j, h, a.past + t, j);
}

/// The runs that re-striding a cache copies: `rows` runs of `len` contiguous
/// elements, one stride apart in the source and another in the destination.
pub struct Runs {
    pub rows: int,
    pub len: int,
    pub src_stride: int,
    pub dst_stride: int,
}

/// The runs of the `live` positions of a cache whose capacity is raised.
pub open spec fn live_runs(
    kv_heads: int,
    head_dim: int,
    old_cap: int,
    new_cap: int,
    live: int,
    transposed: bool,
) -> Runs {
    if transposed {
        Runs { rows: kv_heads * head_dim, len: live, src_stride: old_cap, dst_stride: new_cap }
    } else {
        Runs {
            rows: kv_heads,
            len: live * head_dim,
            src_stride: old_cap * head_dim,
            dst_stride: new_cap * head_dim,
        }
    }
}

impl Runs {
    /// Where element `j` of run `row` goes.
    pub open spec fn place(self, row: int, j: int) -> int {
        row * self.dst_stride + j
    }
}

/// What copying the runs leaves in the destination: each run at its place, and
/// everything else as it was.
pub open spec fn runs_copied<T>(r: Runs, src: Seq<T>, before: Seq<T>, after: Seq<T>) -> bool {
    &&& after.len() == before.len()
    &&& forall|row: int, j: int|
        0 <= row < r.rows && 0 <= j < r.len ==> after[#[trigger] r.place(row, j)] == src[row
            * r.src_stride + j]
    &&& forall|x: int|
        0 <= x < before.len() && (forall|row: int, j: int|
            0 <= row < r.rows && 0 <= j < r.len ==> #[trigger] r.place(row, j) != x)
            ==> #[trigger] after[x] == before[x]
}

proof fn lemma_place_of_a_run(
    kv_heads: int,
    head_dim: int,
    old_cap: int,
    new_cap: int,
    live: int,
    transposed: bool,
    head: int,
    pos: int,
    j: int,
) -> (run: (int, int))
    requires
        0 <= head < kv_heads,
        0 <= pos < live,
        0 <= j < head_dim,
    ensures
        ({
            let r = live_runs(kv_heads, head_dim, old_cap, new_cap, live, transposed);
            &&& 0 <= run.0 < r.rows
            &&& 0 <= run.1 < r.len
            &&& r.place(run.0, run.1) == (CacheShape {
                heads: kv_heads,
                head_dim,
                cap: new_cap,
                transposed,
            }).index(head, pos, j)
            &&& run.0 * r.src_stride + run.1 == (CacheShape {
                heads: kv_heads,
                head_dim,
                cap: old_cap,
                transposed,
            }).index(head, pos, j)
        }),
{
    if transposed {
        let row = head * head_dim + j;
        assert(0 <= row < kv_heads * head_dim) by (nonlinear_arith)
            requires
                row == head * head_dim + j,
                0 <= head < kv_heads,
                0 <= j < head_dim,
        ;
        (row, pos)
    } else {
        let e = pos * head_dim + j;
        assert(0 <= e < live * head_dim) by (nonlinear_arith)
            requires
                e == pos * head_dim + j,
                0 <= pos < live,
                0 <= j < head_dim,
        ;
        assert(head * (new_cap * head_dim) + e == (head * new_cap + pos) * head_dim + j)
            by (nonlinear_arith)
            requires
                e == pos * head_dim + j,
        ;
        assert(head * (old_cap * head_dim) + e == (head * old_cap + pos) * head_dim + j)
            by (nonlinear_arith)
            requires
                e == pos * head_dim + j,
        ;
        (head, e)
    }
}

proof fn lemma_element_of_a_run(
    kv_heads: int,
    head_dim: int,
    old_cap: int,
    new_cap: int,
    live: int,
    transposed: bool,
    row: int,
    i: int,
) -> (e: (int, int, int))
    requires
        0 <= live,
        0 <= head_dim,
        0 <= row < live_runs(kv_heads, head_dim, old_cap, new_cap, live, transposed).rows,
        0 <= i < live_runs(kv_heads, head_dim, old_cap, new_cap, live, transposed).len,
    ensures
        0 <= e.0 < kv_heads,
        0 <= e.1 < live,
        0 <= e.2 < head_dim,
        live_runs(kv_heads, head_dim, old_cap, new_cap, live, transposed).place(row, i)
            == (CacheShape { heads: kv_heads, head_dim, cap: new_cap, transposed }).index(
            e.0,
            e.1,
            e.2,
        ),
{
    let (x, limit) = if transposed {
        (row, kv_heads)
    } else {
        (i, live)
    };
    assert(head_dim > 0) by (nonlinear_arith)
        requires
            0 <= x < limit * head_dim,
            0 <= head_dim,
    ;
    vstd::arithmetic::div_mod::lemma_fundamental_div_mod(x, head_dim);
    let (q, j) = (x / head_dim, x % head_dim);
    assert(0 <= q < limit) by (nonlinear_arith)
        requires
            x == head_dim * q + j,
            0 <= j < head_dim,
            0 <= x < limit * head_dim,
    ;
    assert(x == q * head_dim + j) by (nonlinear_arith)
        requires
            x == head_dim * q + j,
    ;
    if transposed {
        (q, i, j)
    } else {
        assert(row * (new_cap * head_dim) + i == (row * new_cap + q) * head_dim + j)
            by (nonlinear_arith)
            requires
                i == q * head_dim + j,
        ;
        (row, q, j)
    }
}

/// Growing a cache moves every live element of every head from its place at the
/// old capacity to its place at the new one: what is read at a position before
/// is read at the same position after.
pub proof fn growing_keeps_every_live_element<T>(
    kv_heads: int,
    head_dim: int,
    old_cap: int,
    new_cap: int,
    live: int,
    transposed: bool,
    src: Seq<T>,
    before: Seq<T>,
    after: Seq<T>,
    head: int,
    pos: int,
    j: int,
)
    requires
        0 <= head < kv_heads,
        0 <= pos < live,
        0 <= j < head_dim,
        live <= old_cap <= new_cap,
        runs_copied(
            live_runs(kv_heads, head_dim, old_cap, new_cap, live, transposed),
            src,
            before,
            after,
        ),
    ensures
        after[(CacheShape { heads: kv_heads, head_dim, cap: new_cap, transposed }).index(
            head,
            pos,
            j,
        )] == src[(CacheShape { heads: kv_heads, head_dim, cap: old_cap, transposed }).index(
            head,
            pos,
            j,
        )],
{
    let r = live_runs(kv_heads, head_dim, old_cap, new_cap, live, transposed);
    let (row, i) = lemma_place_of_a_run(
        kv_heads,
        head_dim,
        old_cap,
        new_cap,
        live,
        transposed,
        head,
        pos,
        j,
    );
    assert(after[r.place(row, i)] == src[row * r.src_stride + i]);
}

/// Growing a cache leaves every position past the live ones as it was.
pub proof fn growing_leaves_the_rest<T>(
    kv_heads: int,
    head_dim: int,
    old_cap: int,
    new_cap: int,
    live: int,
    transposed: bool,
    src: Seq<T>,
    before: Seq<T>,
    after: Seq<T>,
    head: int,
    pos: int,
    j: int,
)
    requires
        0 <= live <= old_cap <= new_cap,
        (CacheShape { heads: kv_heads, head_dim, cap: new_cap, transposed }).has(head, pos, j),
        live <= pos,
        before.len() >= kv_heads * new_cap * head_dim,
        runs_copied(
            live_runs(kv_heads, head_dim, old_cap, new_cap, live, transposed),
            src,
            before,
            after,
        ),
    ensures
        after[(CacheShape { heads: kv_heads, head_dim, cap: new_cap, transposed }).index(
            head,
            pos,
            j,
        )] == before[(CacheShape { heads: kv_heads, head_dim, cap: new_cap, transposed }).index(
            head,
            pos,
            j,
        )],
{
    let s = CacheShape { heads: kv_heads, head_dim, cap: new_cap, transposed };
    let r = live_runs(kv_heads, head_dim, old_cap, new_cap, live, transposed);
    let x = s.index(head, pos, j);
    cache_places_are_distinct(s, head, pos, j, head, pos, j);
    assert forall|row: int, i: int| 0 <= row < r.rows && 0 <= i < r.len implies #[trigger] r.place(
        row,
        i,
    ) != x by {
        let (h2, p2, j2) = lemma_element_of_a_run(
            kv_heads,
            head_dim,
            old_cap,
            new_cap,
            live,
            transposed,
            row,
            i,
        );
        cache_places_are_distinct(s, head, pos, j, h2, p2, j2);
    }
    assert(after[x] == before[x]);
}

/// Appending and then growing leaves the new buffer as growing and then appending
/// does, element for element.
///
/// `old` is the cache at its old capacity and `fresh` the new buffer. One way,
/// `rows` are appended to `old`, which gives `longer`, and that is grown into
/// `fresh`; the other, `old` is grown into `fresh`, which gives `grown`, and
/// `rows` are appended to that.
pub proof fn appending_and_growing_commute<T>(
    kv_heads: int,
    head_dim: int,
    old_cap: int,
    new_cap: int,
    live: int,
    n: int,
    transposed: bool,
    rows: Seq<T>,
    old_cache: Seq<T>,
    fresh: Seq<T>,
    longer: Seq<T>,
    one_way: Seq<T>,
    grown: Seq<T>,
    other_way: Seq<T>,
)
    requires
        0 <= kv_heads,
        0 <= head_dim,
        0 <= live,
        0 <= n,
        live + n <= old_cap <= new_cap,
        rows.len() == n * kv_heads * head_dim,
        old_cache.len() >= kv_heads * old_cap * head_dim,
        fresh.len() >= kv_heads * new_cap * head_dim,
        appended(
            (CacheShape { heads: kv_heads, head_dim, cap: old_cap, transposed }),
            rows,
            live,
            old_cache,
            longer,
        ),
        runs_copied(
            live_runs(kv_heads, head_dim, old_cap, new_cap, live + n, transposed),
            longer,
            fresh,
            one_way,
        ),
        runs_copied(
            live_runs(kv_heads, head_dim, old_cap, new_cap, live, transposed),
            old_cache,
            fresh,
            grown,
        ),
        appended(
            (CacheShape { heads: kv_heads, head_dim, cap: new_cap, transposed }),
            rows,
            live,
            grown,
            other_way,
        ),
    ensures
        one_way == other_way,
{
    let s = CacheShape { heads: kv_heads, head_dim, cap: old_cap, transposed };
    let t = CacheShape { heads: kv_heads, head_dim, cap: new_cap, transposed };
    let long = live_runs(kv_heads, head_dim, old_cap, new_cap, live + n, transposed);
    let short = live_runs(kv_heads, head_dim, old_cap, new_cap, live, transposed);
    assert forall|x: int| 0 <= x < fresh.len() implies one_way[x] == other_way[x] by {
        if exists|row: int, i: int|
            0 <= row < long.rows && 0 <= i < long.len && #[trigger] long.place(row, i) == x {
            let (row, i) = choose|row: int, i: int|
                0 <= row < long.rows && 0 <= i < long.len && #[trigger] long.place(row, i) == x;
            let (head, pos, j) = lemma_element_of_a_run(
                kv_heads,
                head_dim,
                old_cap,
                new_cap,
                live + n,
                transposed,
                row,
                i,
            );
            growing_keeps_every_live_element(
                kv_heads,
                head_dim,
                old_cap,
                new_cap,
                live + n,
                transposed,
                longer,
                fresh,
                one_way,
                head,
                pos,
                j,
            );
            reads_give_back_appends(s, rows, n, live, old_cache, longer, head, pos, j);
            reads_give_back_appends(t, rows, n, live, grown, other_way, head, pos, j);
            if pos < live {
                growing_keeps_every_live_element(
                    kv_heads,
                    head_dim,
                    old_cap,
                    new_cap,
                    live,
                    transposed,
                    old_cache,
                    fresh,
                    grown,
                    head,
                    pos,
                    j,
                );
            }
        } else {
            assert(one_way[x] == fresh[x]);
            assert forall|i: int| 0 <= i < rows.len() implies #[trigger] append_index(t, live, i)
                != x by {
                let (r, head, j) = lemma_append_index_is_of_a_row(t, live, n, i);
                let (row, e) = lemma_place_of_a_run(
                    kv_heads,
                    head_dim,
                    old_cap,
                    new_cap,
                    live + n,
                    transposed,
                    head,
                    live + r,
                    j,
                );
                assert(long.place(row, e) != x);
            }
            assert(other_way[x] == grown[x]);
            assert forall|row: int, i: int|
                0 <= row < short.rows && 0 <= i < short.len implies #[trigger] short.place(row, i)
                != x by {
                let (head, pos, j) = lemma_element_of_a_run(
                    kv_heads,
                    head_dim,
                    old_cap,
                    new_cap,
                    live,
                    transposed,
                    row,
                    i,
                );
                let (row2, i2) = lemma_place_of_a_run(
                    kv_heads,
                    head_dim,
                    old_cap,
                    new_cap,
                    live + n,
                    transposed,
                    head,
                    pos,
                    j,
                );
                assert(long.place(row2, i2) != x);
            }
            assert(grown[x] == fresh[x]);
        }
    }
    assert(one_way =~= other_way);
}

/// A cache that grows, as it was asked for.
pub struct Grow {
    pub kv_heads: int,
    pub head_dim: int,
    pub old_cap: int,
    pub new_cap: int,
    pub live: int,
    pub transposed: bool,
}

/// The growth that these arguments ask for.
#[verifier::inline]
pub open spec fn grow(
    kv_heads: usize,
    head_dim: usize,
    old_cap: usize,
    new_cap: usize,
    live: usize,
    transposed: bool,
) -> Grow {
    Grow {
        kv_heads: kv_heads as int,
        head_dim: head_dim as int,
        old_cap: old_cap as int,
        new_cap: new_cap as int,
        live: live as int,
        transposed,
    }
}

impl Grow {
    /// The runs it copies.
    pub open spec fn runs(self) -> Runs {
        live_runs(
            self.kv_heads,
            self.head_dim,
            self.old_cap,
            self.new_cap,
            self.live,
            self.transposed,
        )
    }

    /// More live positions than there were, or a capacity that shrinks.
    pub open spec fn bad_caps(self) -> bool {
        self.live > self.old_cap || self.new_cap < self.old_cap
    }

    /// Why the growth is refused, if it is.
    pub open spec fn refusal(self, src_len: int, dst_len: int) -> Option<CudaError> {
        let r = self.runs();
        if self.bad_caps() {
            Some(
                CudaError::CacheOverrun {
                    at: max(self.live, self.old_cap) as usize,
                    cap: min(self.new_cap, self.old_cap) as usize,
                },
            )
        } else if r.rows * r.src_stride > src_len {
            Some(
                CudaError::SliceOverrun {
                    at: (r.rows * r.src_stride) as usize,
                    len: src_len as usize,
                },
            )
        } else if r.rows * r.dst_stride > dst_len {
            Some(
                CudaError::SliceOverrun {
                    at: (r.rows * r.dst_stride) as usize,
                    len: dst_len as usize,
                },
            )
        } else {
            None
        }
    }

    /// Everything the growth queues: nothing where there is nothing live.
    pub open spec fn commands<T>(
        self,
        kernel: Kernel,
        src: CudaSlice<T>,
        dst: CudaSlice<T>,
    ) -> Seq<Cmd> {
        let r = self.runs();
        if self.refusal(src.len as int, dst.len as int) is Some || r.rows * r.len == 0 {
            Seq::empty()
        } else {
            seq![
                launch(
                    kernel,
                    seq![
                        ptr(src),
                        ptr(dst),
                        num(r.rows),
                        num(r.len),
                        num(r.src_stride),
                        num(r.dst_stride),
                    ],
                    flat_cfg(r.rows * r.len),
                ),
            ]
        }
    }

    /// The sizes that are computed are numbers of this machine.
    pub open spec fn fits(self, src_len: int, dst_len: int) -> bool {
        let r = self.runs();
        &&& !self.bad_caps() ==> {
            &&& r.rows <= usize::MAX
            &&& r.len <= usize::MAX
            &&& r.src_stride <= usize::MAX
            &&& r.dst_stride <= usize::MAX
            &&& r.rows * r.src_stride <= usize::MAX
            &&& r.rows * r.src_stride <= src_len ==> r.rows * r.dst_stride <= usize::MAX
        }
    }
}

/// A growth that is not refused reads and writes inside its buffers.
pub proof fn accepted_growth_stays_inside(g: Grow, src_len: int, dst_len: int, row: int, j: int)
    requires
        g.refusal(src_len, dst_len) is None,
        g.live >= 0,
        g.head_dim >= 0,
        0 <= row < g.runs().rows,
        0 <= j < g.runs().len,
    ensures
        0 <= row * g.runs().src_stride + j < src_len,
        0 <= row * g.runs().dst_stride + j < dst_len,
{
    let r = g.runs();
    assert(r.len <= r.src_stride && r.len <= r.dst_stride) by {
        assert(g.live * g.head_dim <= g.old_cap * g.head_dim) by (nonlinear_arith)
            requires
                0 <= g.live <= g.old_cap,
                g.head_dim >= 0,
        ;
        assert(g.live * g.head_dim <= g.new_cap * g.head_dim) by (nonlinear_arith)
            requires
                0 <= g.live <= g.new_cap,
                g.head_dim >= 0,
        ;
    }
    lemma_run_inside(row, j, r.rows, r.len, r.src_stride);
    lemma_run_inside(row, j, r.rows, r.len, r.dst_stride);
}

proof fn lemma_run_inside(row: int, j: int, rows: int, len: int, stride: int)
    requires
        0 <= row < rows,
        0 <= j < len,
        len <= stride,
    ensures
        0 <= row * stride + j < rows * stride,
{
    assert(0 <= row * stride + j < rows * stride) by (nonlinear_arith)
        requires
            0 <= row < rows,
            0 <= j < len,
            len <= stride,
    ;
}

impl Gpu {
    fn queue_append<T>(
        &mut self,
        kernel: Kernel,
        src: &CudaSlice<Fp32>,
        src_off: usize,
        dst: &CudaSlice<T>,
        n: usize,
        kv_heads: usize,
        head_dim: usize,
        cap: usize,
        past: usize,
        halves: bool,
    ) -> (r: Result<(), CudaError>)
        requires
            append(src, src_off, n, kv_heads, head_dim, cap, past).fits(halves),
        ensures
            match append(src, src_off, n, kv_heads, head_dim, cap, past).refusal(halves) {
                Some(e) => r == Err::<(), CudaError>(e) && final(self)@ == old(self)@,
                None => r == Ok::<(), CudaError>(()) && final(self)@ == old(self)@.push(
                    append(src, src_off, n, kv_heads, head_dim, cap, past).append_launch(
                        kernel,
                        *src,
                        *dst,
                    ),
                ),
            },
    {
        if past + n > cap {
            return Err(CudaError::CacheOverrun { at: past + n, cap });
        }
        if halves && cap % 2 != 0 {
            return Err(CudaError::OddCacheCapacity { cap });
        }
        let total: usize = n * kv_heads * head_dim;
        if src_off + total > src.len() {
            return Err(CudaError::SliceOverrun { at: src_off + total, len: src.len() });
        }
        self.launch(
            kernel,
            vec![
                Arg::ptr(src),
                Arg::long(src_off),
                Arg::ptr(dst),
                Arg::num(n),
                Arg::num(kv_heads),
                Arg::num(head_dim),
                Arg::num(cap),
                Arg::num(past),
            ],
            LaunchConfig::flat(total),
        );
        Ok(())
    }

    /// Writes one step's keys or values into a head-major cache.
    ///
    /// `src` is `[n, kv_heads * head_dim]` as the projection produced it. With
    /// `transposed`, the destination is `[kv_heads, head_dim, cap]` - the shape
    /// the context matmul contracts over; without, it is
    /// `[kv_heads, cap, head_dim]`, the shape the score matmul reads.
    ///
    /// Refuses a write that would run off the end, because the destination is
    /// one long buffer and a `past` past its capacity would land in the next
    /// head's keys: in bounds, and wrong for every step after it. That the
    /// destination is `kv_heads * cap * head_dim` long is the caller's to answer
    /// for: its length is not asked for.
    pub fn cache_append(
        &mut self,
        src: &CudaSlice<Fp32>,
        src_off: usize,
        dst: &CudaSlice<Fp32>,
        n: usize,
        kv_heads: usize,
        head_dim: usize,
        cap: usize,
        past: usize,
        transposed: bool,
    ) -> (r: Result<(), CudaError>)
        requires
            append(src, src_off, n, kv_heads, head_dim, cap, past).fits(false),
        ensures
            match append(src, src_off, n, kv_heads, head_dim, cap, past).refusal(false) {
                Some(e) => r == Err::<(), CudaError>(e) && final(self)@ == old(self)@,
                None => r == Ok::<(), CudaError>(()) && final(self)@ == old(self)@.push(
                    append(src, src_off, n, kv_heads, head_dim, cap, past).append_launch(
                        if transposed {
                            Kernel::CacheAppendT
                        } else {
                            Kernel::CacheAppend
                        },
                        *src,
                        *dst,
                    ),
                ),
            },
            ({
                let asked = Append {
                    src_len: src.len as int,
                    src_off: src_off as int,
                    n: n as int,
                    kv_heads: kv_heads as int,
                    head_dim: head_dim as int,
                    cap: cap as int,
                    past: past as int,
                };
                r is Ok
                    && three_ints_fit(n as int, kv_heads as int, head_dim as int)
                    && int_fits(cap as int) && int_fits(past as int) && src_off <= i64::MAX
                    ==> fills_behind(final(self)@.last(), Fun::Copy, *src, *dst, transposed, asked)
            }),
    {
        let kernel: Kernel = if transposed {
            Kernel::CacheAppendT
        } else {
            Kernel::CacheAppend
        };
        proof {
            if three_ints_fit(n as int, kv_heads as int, head_dim as int)
                && int_fits(cap as int) && int_fits(past as int) && src_off <= i64::MAX {
                let a = append(src, src_off, n, kv_heads, head_dim, cap, past);
                every_row_is_cached(a, *src, *dst, false, transposed);
            }
        }
        self.queue_append(
            kernel,
            src,
            src_off,
            dst,
            n,
            kv_heads,
            head_dim,
            cap,
            past,
            false,
        )
    }

    /// [`Gpu::cache_append`] into an f16 cache.
    ///
    /// `cap` must be even. Everything that reads this cache reads it as pairs
    /// of halves in a word - the value layout puts a head's row `cap` apart,
    /// and an odd `cap` would put every other row's pairs across a word
    /// boundary.
    pub fn cache_append_f16(
        &mut self,
        src: &CudaSlice<Fp32>,
        src_off: usize,
        dst: &CudaSlice<u16>,
        n: usize,
        kv_heads: usize,
        head_dim: usize,
        cap: usize,
        past: usize,
        transposed: bool,
    ) -> (r: Result<(), CudaError>)
        requires
            append(src, src_off, n, kv_heads, head_dim, cap, past).fits(true),
        ensures
            match append(src, src_off, n, kv_heads, head_dim, cap, past).refusal(true) {
                Some(e) => r == Err::<(), CudaError>(e) && final(self)@ == old(self)@,
                None => r == Ok::<(), CudaError>(()) && final(self)@ == old(self)@.push(
                    append(src, src_off, n, kv_heads, head_dim, cap, past).append_launch(
                        if transposed {
                            Kernel::CacheAppendTF16
                        } else {
                            Kernel::CacheAppendF16
                        },
                        *src,
                        *dst,
                    ),
                ),
            },
            ({
                let asked = Append {
                    src_len: src.len as int,
                    src_off: src_off as int,
                    n: n as int,
                    kv_heads: kv_heads as int,
                    head_dim: head_dim as int,
                    cap: cap as int,
                    past: past as int,
                };
                r is Ok
                    && three_ints_fit(n as int, kv_heads as int, head_dim as int)
                    && int_fits(cap as int) && int_fits(past as int) && src_off <= i64::MAX
                    ==> fills_behind(final(self)@.last(), Fun::Round, *src, *dst, transposed, asked)
            }),
    {
        let kernel: Kernel = if transposed {
            Kernel::CacheAppendTF16
        } else {
            Kernel::CacheAppendF16
        };
        proof {
            if three_ints_fit(n as int, kv_heads as int, head_dim as int)
                && int_fits(cap as int) && int_fits(past as int) && src_off <= i64::MAX {
                let a = append(src, src_off, n, kv_heads, head_dim, cap, past);
                every_row_is_cached(a, *src, *dst, true, transposed);
            }
        }
        self.queue_append(
            kernel,
            src,
            src_off,
            dst,
            n,
            kv_heads,
            head_dim,
            cap,
            past,
            true,
        )
    }

    fn queue_grow<T>(
        &mut self,
        kernel: Kernel,
        src: &CudaSlice<T>,
        dst: &CudaSlice<T>,
        kv_heads: usize,
        head_dim: usize,
        old_cap: usize,
        new_cap: usize,
        live: usize,
        transposed: bool,
    ) -> (r: Result<(), CudaError>)
        requires
            grow(kv_heads, head_dim, old_cap, new_cap, live, transposed).fits(
                src.len as int,
                dst.len as int,
            ),
        ensures
            match grow(kv_heads, head_dim, old_cap, new_cap, live, transposed).refusal(
                src.len as int,
                dst.len as int,
            ) {
                Some(e) => r == Err::<(), CudaError>(e),
                None => r == Ok::<(), CudaError>(()),
            },
            final(self)@ == old(self)@ + grow(
                kv_heads,
                head_dim,
                old_cap,
                new_cap,
                live,
                transposed,
            ).commands(kernel, *src, *dst),
    {
        let ghost g = grow(kv_heads, head_dim, old_cap, new_cap, live, transposed);
        if live > old_cap || new_cap < old_cap {
            return Err(
                CudaError::CacheOverrun {
                    at: greater(live, old_cap),
                    cap: lesser(new_cap, old_cap),
                },
            );
        }
        let (rows, len, src_stride, dst_stride): (usize, usize, usize, usize) = if transposed {
            (kv_heads * head_dim, live, old_cap, new_cap)
        } else {
            (kv_heads, live * head_dim, old_cap * head_dim, new_cap * head_dim)
        };
        if rows * src_stride > src.len() {
            return Err(CudaError::SliceOverrun { at: rows * src_stride, len: src.len() });
        }
        if rows * dst_stride > dst.len() {
            return Err(CudaError::SliceOverrun { at: rows * dst_stride, len: dst.len() });
        }
        proof {
            assert(len <= src_stride) by {
                assert(live * head_dim <= old_cap * head_dim) by (nonlinear_arith)
                    requires
                        live <= old_cap,
                        head_dim >= 0,
                ;
            }
            assert(rows * len <= rows * src_stride) by (nonlinear_arith)
                requires
                    len <= src_stride,
                    rows >= 0,
            ;
        }
        let total: usize = rows * len;
        if total == 0 {
            return Ok(());
        }
        self.launch(
            kernel,
            vec![
                Arg::ptr(src),
                Arg::ptr(dst),
                Arg::num(rows),
                Arg::num(len),
                Arg::num(src_stride),
                Arg::num(dst_stride),
            ],
            LaunchConfig::flat(total),
        );
        Ok(())
    }

    /// Moves the `live` tokens of a head-major cache into one of a larger
    /// capacity.
    ///
    /// The companion of [`Gpu::cache_append`], and it exists because `cap` is a
    /// **stride** in both of that method's layouts rather than only a length. A
    /// head's data begins at a multiple of the capacity, so raising the
    /// capacity moves every head but the first, and copying the live prefix
    /// flat lands heads 1 upward inside their own earlier positions.
    ///
    /// That failure is silent: the buffer is the right length, every read stays
    /// in bounds, and attention keeps producing fluent text off the one head
    /// that did not move. Hence a kernel that is told the layout instead of a
    /// copy that assumes one.
    pub fn cache_grow(
        &mut self,
        src: &CudaSlice<Fp32>,
        dst: &CudaSlice<Fp32>,
        kv_heads: usize,
        head_dim: usize,
        old_cap: usize,
        new_cap: usize,
        live: usize,
        transposed: bool,
    ) -> (r: Result<(), CudaError>)
        requires
            grow(kv_heads, head_dim, old_cap, new_cap, live, transposed).fits(
                src.len as int,
                dst.len as int,
            ),
        ensures
            match grow(kv_heads, head_dim, old_cap, new_cap, live, transposed).refusal(
                src.len as int,
                dst.len as int,
            ) {
                Some(e) => r == Err::<(), CudaError>(e),
                None => r == Ok::<(), CudaError>(()),
            },
            final(self)@ == old(self)@ + grow(
                kv_heads,
                head_dim,
                old_cap,
                new_cap,
                live,
                transposed,
            ).commands(Kernel::CacheGrow, *src, *dst),
            ({
                let asked = Grow {
                    kv_heads: kv_heads as int,
                    head_dim: head_dim as int,
                    old_cap: old_cap as int,
                    new_cap: new_cap as int,
                    live: live as int,
                    transposed,
                };
                r is Ok && 0 < live && 0 < kv_heads && 0 < head_dim && growth_ints_fit(asked)
                    ==> moves_to_larger(final(self)@.last(), *src, *dst, asked)
            }),
    {
        proof {
            let g = grow(kv_heads, head_dim, old_cap, new_cap, live, transposed);
            if g.refusal(src.len as int, dst.len as int) is None
                && 0 < live && 0 < kv_heads && 0 < head_dim && growth_ints_fit(g) {
                every_live_element_moves(g, *src, *dst, false);
            }
        }
        self.queue_grow(
            Kernel::CacheGrow,
            src,
            dst,
            kv_heads,
            head_dim,
            old_cap,
            new_cap,
            live,
            transposed,
        )
    }

    /// [`Gpu::cache_grow`] for an f16 cache. Same runs, same strides, half the
    /// width.
    pub fn cache_grow_f16(
        &mut self,
        src: &CudaSlice<u16>,
        dst: &CudaSlice<u16>,
        kv_heads: usize,
        head_dim: usize,
        old_cap: usize,
        new_cap: usize,
        live: usize,
        transposed: bool,
    ) -> (r: Result<(), CudaError>)
        requires
            grow(kv_heads, head_dim, old_cap, new_cap, live, transposed).fits(
                src.len as int,
                dst.len as int,
            ),
        ensures
            match grow(kv_heads, head_dim, old_cap, new_cap, live, transposed).refusal(
                src.len as int,
                dst.len as int,
            ) {
                Some(e) => r == Err::<(), CudaError>(e),
                None => r == Ok::<(), CudaError>(()),
            },
            final(self)@ == old(self)@ + grow(
                kv_heads,
                head_dim,
                old_cap,
                new_cap,
                live,
                transposed,
            ).commands(Kernel::CacheGrowF16, *src, *dst),
            ({
                let asked = Grow {
                    kv_heads: kv_heads as int,
                    head_dim: head_dim as int,
                    old_cap: old_cap as int,
                    new_cap: new_cap as int,
                    live: live as int,
                    transposed,
                };
                r is Ok && 0 < live && 0 < kv_heads && 0 < head_dim && growth_ints_fit(asked)
                    ==> moves_to_larger(final(self)@.last(), *src, *dst, asked)
            }),
    {
        proof {
            let g = grow(kv_heads, head_dim, old_cap, new_cap, live, transposed);
            if g.refusal(src.len as int, dst.len as int) is None
                && 0 < live && 0 < kv_heads && 0 < head_dim && growth_ints_fit(g) {
                every_live_element_moves(g, *src, *dst, true);
            }
        }
        self.queue_grow(
            Kernel::CacheGrowF16,
            src,
            dst,
            kv_heads,
            head_dim,
            old_cap,
            new_cap,
            live,
            transposed,
        )
    }
}

/// The rotation and both cache writes of one position, as they were asked for.
/// Each projection is a buffer's index and an offset into it.
pub struct RopeCache<'a> {
    pub proj: Seq<CudaSlice<Fp32>>,
    pub q: (int, int),
    pub k: (int, int),
    pub v: (int, int),
    pub freq_div: Option<&'a CudaSlice<Fp32>>,
    pub heads: int,
    pub kv_heads: int,
    pub head_dim: int,
    pub theta: FloatBits,
    pub pos: int,
    pub kc: CudaSlice<u16>,
    pub vc: CudaSlice<u16>,
    pub cap: int,
}

/// The rotation and cache writes that these arguments ask for.
#[verifier::inline]
pub open spec fn rope_and_store<'a>(
    proj: Seq<CudaSlice<Fp32>>,
    q: (usize, usize),
    k: (usize, usize),
    v: (usize, usize),
    freq_div: Option<&'a CudaSlice<Fp32>>,
    heads: usize,
    kv_heads: usize,
    head_dim: usize,
    theta: FloatBits,
    pos: usize,
    kc: &CudaSlice<u16>,
    vc: &CudaSlice<u16>,
    cap: usize,
) -> RopeCache<'a> {
    RopeCache {
        proj,
        q: (q.0 as int, q.1 as int),
        k: (k.0 as int, k.1 as int),
        v: (v.0 as int, v.1 as int),
        freq_div,
        heads: heads as int,
        kv_heads: kv_heads as int,
        head_dim: head_dim as int,
        theta,
        pos: pos as int,
        kc: *kc,
        vc: *vc,
        cap: cap as int,
    }
}

impl<'a> RopeCache<'a> {
    /// Elements of the buffer a projection is in: none where there is no such
    /// buffer.
    pub open spec fn have(self, at: (int, int)) -> int {
        if at.0 < self.proj.len() {
            self.proj[at.0].len as int
        } else {
            0
        }
    }

    /// Whether a projection of `len` runs off its buffer.
    pub open spec fn overruns(self, at: (int, int), len: int) -> bool {
        at.1 + len > self.have(at)
    }

    /// That, as an error.
    pub open spec fn overrun(self, at: (int, int), len: int) -> CudaError {
        CudaError::SliceOverrun { at: (at.1 + len) as usize, len: self.have(at) as usize }
    }

    /// Elements of the queries.
    pub open spec fn q_len(self) -> int {
        self.heads * self.head_dim
    }

    /// Elements of the keys, and of the values.
    pub open spec fn kv_len(self) -> int {
        self.kv_heads * self.head_dim
    }

    /// Elements each cache has to have.
    pub open spec fn want(self) -> int {
        self.cap * self.kv_heads * self.head_dim
    }

    /// Refusals that come before a length is computed.
    pub open spec fn shape_refusal(self) -> Option<CudaError> {
        if self.pos >= self.cap {
            Some(CudaError::CacheOverrun { at: (self.pos + 1) as usize, cap: self.cap as usize })
        } else if self.cap % 2 != 0 {
            Some(CudaError::OddCacheCapacity { cap: self.cap as usize })
        } else if self.head_dim % 2 != 0 {
            Some(CudaError::OddHeadDim { head_dim: self.head_dim as usize })
        } else {
            None
        }
    }

    /// Refusals of a projection that runs off its buffer.
    pub open spec fn span_refusal(self) -> Option<CudaError> {
        if self.overruns(self.q, self.q_len()) {
            Some(self.overrun(self.q, self.q_len()))
        } else if self.overruns(self.k, self.kv_len()) {
            Some(self.overrun(self.k, self.kv_len()))
        } else if self.overruns(self.v, self.kv_len()) {
            Some(self.overrun(self.v, self.kv_len()))
        } else {
            None
        }
    }

    /// Why the launch is refused, if it is.
    pub open spec fn refusal(self) -> Option<CudaError> {
        if self.shape_refusal() is Some {
            self.shape_refusal()
        } else if self.span_refusal() is Some {
            self.span_refusal()
        } else if self.kc.len < self.want() || self.vc.len < self.want() {
            Some(
                CudaError::SliceOverrun {
                    at: self.want() as usize,
                    len: min(self.kc.len as int, self.vc.len as int) as usize,
                },
            )
        } else {
            None
        }
    }

    /// A thread a rotated pair of the queries and of the keys, and a thread a
    /// value.
    pub open spec fn threads(self) -> int {
        self.heads * self.head_dim / 2 + self.kv_heads * self.head_dim / 2 + self.kv_heads
            * self.head_dim
    }

    /// The launch.
    pub open spec fn rope_launch(self) -> Cmd {
        launch(
            Kernel::RopeCacheF16,
            seq![
                ptr(self.proj[self.q.0]),
                long(self.q.1),
                ptr(self.proj[self.k.0]),
                long(self.k.1),
                ptr(self.proj[self.v.0]),
                long(self.v.1),
                ptr_or_dummy(self.freq_div),
                flag(self.freq_div is Some),
                num(self.heads),
                num(self.kv_heads),
                num(self.head_dim),
                Arg::Float(self.theta),
                num(self.pos),
                ptr(self.kc),
                ptr(self.vc),
                num(self.cap),
            ],
            flat_cfg(self.threads()),
        )
    }

    /// The sizes that are computed are numbers of this machine, and a
    /// projection of no elements still names a buffer.
    pub open spec fn fits(self) -> bool {
        &&& self.pos >= self.cap ==> self.pos + 1 <= usize::MAX
        &&& self.shape_refusal() is None ==> {
            &&& self.q_len() <= usize::MAX
            &&& self.kv_len() <= usize::MAX
            &&& self.q.1 + self.q_len() <= usize::MAX
            &&& !self.overruns(self.q, self.q_len()) ==> self.k.1 + self.kv_len() <= usize::MAX
            &&& !self.overruns(self.q, self.q_len()) && !self.overruns(self.k, self.kv_len())
                ==> self.v.1 + self.kv_len() <= usize::MAX
            &&& self.span_refusal() is None ==> {
                &&& self.cap * self.kv_heads <= usize::MAX
                &&& self.want() <= usize::MAX
            }
        }
        &&& self.refusal() is None ==> {
            &&& self.q.0 < self.proj.len()
            &&& self.k.0 < self.proj.len()
            &&& self.v.0 < self.proj.len()
            &&& self.threads() <= usize::MAX
        }
    }
}

/// The threads of the launch are one for each pair of a query head, one for
/// each pair of a key head, and one for each element of a value head.
pub proof fn rope_threads_cover(r: RopeCache<'_>)
    requires
        r.head_dim % 2 == 0,
    ensures
        r.threads() == r.heads * (r.head_dim / 2) + r.kv_heads * (r.head_dim / 2) + r.kv_heads
            * r.head_dim,
{
    let half = r.head_dim / 2;
    assert(r.heads * r.head_dim == 2 * (r.heads * half)) by (nonlinear_arith)
        requires
            r.head_dim == 2 * half,
    ;
    assert(r.kv_heads * r.head_dim == 2 * (r.kv_heads * half)) by (nonlinear_arith)
        requires
            r.head_dim == 2 * half,
    ;
}

/// A launch that is not refused stores every key and every value inside its
/// cache, at the place an append at the same position would.
pub proof fn stored_rows_are_appends(r: RopeCache<'_>, transposed: bool, e: int)
    requires
        r.refusal() is None,
        0 <= r.pos,
        0 <= r.kv_heads,
        0 <= r.head_dim,
        0 <= e < r.kv_len(),
    ensures
        ({
            let s = CacheShape {
                heads: r.kv_heads,
                head_dim: r.head_dim,
                cap: r.cap,
                transposed,
            };
            &&& append_index(s, r.pos, e) == s.index(e / r.head_dim, r.pos, e % r.head_dim)
            &&& 0 <= append_index(s, r.pos, e) < r.kc.len
            &&& 0 <= append_index(s, r.pos, e) < r.vc.len
        }),
{
    let s = CacheShape { heads: r.kv_heads, head_dim: r.head_dim, cap: r.cap, transposed };
    let d = r.kv_heads * r.head_dim;
    assert(1 * r.kv_heads * r.head_dim == d) by (nonlinear_arith)
        requires
            d == r.kv_heads * r.head_dim,
    ;
    let (t, h, j) = lemma_append_index_is_of_a_row(s, r.pos, 1, e);
    cache_places_are_distinct(s, h, r.pos + t, j, h, r.pos + t, j);
    assert(r.kv_heads * r.cap * r.head_dim == r.cap * r.kv_heads * r.head_dim) by (nonlinear_arith);
    vstd::arithmetic::div_mod::lemma_small_mod(e as nat, d as nat);
    vstd::arithmetic::div_mod::lemma_basic_div(e, d);
}

impl Gpu {
    /// The rotation and both cache writes for one decoded position, in one
    /// launch: `q` rotated in place, `k` rotated and stored at `pos` of the
    /// key cache, `v` stored at `pos` of the transposed value cache.
    ///
    /// The three projections are named as `(buffer index, offset)` into
    /// `proj`, the outputs of the batched attention products, because they
    /// may share an allocation. Every range is checked against its buffer
    /// before the launch.
    pub fn rope_cache_f16(
        &mut self,
        proj: &[CudaSlice<Fp32>],
        q: (usize, usize),
        k: (usize, usize),
        v: (usize, usize),
        freq_div: Option<&CudaSlice<Fp32>>,
        heads: usize,
        kv_heads: usize,
        head_dim: usize,
        theta: FloatBits,
        pos: usize,
        kc: &CudaSlice<u16>,
        vc: &CudaSlice<u16>,
        cap: usize,
    ) -> (r: Result<(), CudaError>)
        requires
            rope_and_store(
                proj@,
                q,
                k,
                v,
                freq_div,
                heads,
                kv_heads,
                head_dim,
                theta,
                pos,
                kc,
                vc,
                cap,
            ).fits(),
        ensures
            ({
                let g = rope_and_store(
                    proj@,
                    q,
                    k,
                    v,
                    freq_div,
                    heads,
                    kv_heads,
                    head_dim,
                    theta,
                    pos,
                    kc,
                    vc,
                    cap,
                );
                match g.refusal() {
                    Some(e) => r == Err::<(), CudaError>(e) && final(self)@ == old(self)@,
                    None => r == Ok::<(), CudaError>(()) && final(self)@ == old(self)@.push(
                        g.rope_launch(),
                    ),
                }
            }),
            ({
                let asked = RopeCache {
                    proj: proj@,
                    q: (q.0 as int, q.1 as int),
                    k: (k.0 as int, k.1 as int),
                    v: (v.0 as int, v.1 as int),
                    freq_div,
                    heads: heads as int,
                    kv_heads: kv_heads as int,
                    head_dim: head_dim as int,
                    theta,
                    pos: pos as int,
                    kc: *kc,
                    vc: *vc,
                    cap: cap as int,
                };
                r is Ok && 0 < heads && 0 < kv_heads && 2 <= head_dim && rope_cache_ints_fit(asked)
                    ==> rotates_and_stores(final(self)@.last(), asked)
            }),
    {
        let ghost g = rope_and_store(
            proj@,
            q,
            k,
            v,
            freq_div,
            heads,
            kv_heads,
            head_dim,
            theta,
            pos,
            kc,
            vc,
            cap,
        );
        if pos >= cap {
            return Err(CudaError::CacheOverrun { at: pos + 1, cap });
        }
        if cap % 2 != 0 {
            return Err(CudaError::OddCacheCapacity { cap });
        }
        if head_dim % 2 != 0 {
            return Err(CudaError::OddHeadDim { head_dim });
        }
        if let Some(e) = span_overrun(proj, q, heads * head_dim) {
            return Err(e);
        }
        if let Some(e) = span_overrun(proj, k, kv_heads * head_dim) {
            return Err(e);
        }
        if let Some(e) = span_overrun(proj, v, kv_heads * head_dim) {
            return Err(e);
        }
        assert(g.span_refusal() is None);
        let want: usize = cap * kv_heads * head_dim;
        if kc.len() < want || vc.len() < want {
            return Err(CudaError::SliceOverrun { at: want, len: lesser(kc.len(), vc.len()) });
        }
        let total: usize = heads * head_dim / 2 + kv_heads * head_dim / 2 + kv_heads * head_dim;
        self.launch(
            Kernel::RopeCacheF16,
            vec![
                Arg::ptr(&proj[q.0]),
                Arg::long(q.1),
                Arg::ptr(&proj[k.0]),
                Arg::long(k.1),
                Arg::ptr(&proj[v.0]),
                Arg::long(v.1),
                Arg::ptr_or_dummy(freq_div),
                Arg::flag(freq_div.is_some()),
                Arg::num(heads),
                Arg::num(kv_heads),
                Arg::num(head_dim),
                Arg::Float(theta),
                Arg::num(pos),
                Arg::ptr(kc),
                Arg::ptr(vc),
                Arg::num(cap),
            ],
            LaunchConfig::flat(total),
        );
        proof {
            if 0 < heads && 0 < kv_heads && 2 <= head_dim && rope_cache_ints_fit(g) {
                a_row_is_rotated_and_stored(g);
            }
        }
        Ok(())
    }
}

/// The error of a projection that runs off its buffer, if it does.
fn span_overrun(proj: &[CudaSlice<Fp32>], at: (usize, usize), len: usize) -> (r: Option<CudaError>)
    requires
        at.1 + len <= usize::MAX,
    ensures
        ({
            let have = if at.0 < proj@.len() {
                proj@[at.0 as int].len as int
            } else {
                0
            };
            if at.1 + len > have {
                r == Some(CudaError::SliceOverrun { at: (at.1 + len) as usize, len: have as usize })
            } else {
                r is None
            }
        }),
{
    let have: usize = if at.0 < proj.len() {
        proj[at.0].len()
    } else {
        0
    };
    if at.1 + len > have {
        Some(CudaError::SliceOverrun { at: at.1 + len, len: have })
    } else {
        None
    }
}

impl Gpu {
    /// Whether [`Gpu::cache_append`] can be asked for this, or
    /// [`Gpu::cache_append_f16`] where the cache is of halves: every size that it
    /// would compute is a number of this machine.
    pub fn cache_append_fits(
        src: &CudaSlice<Fp32>,
        src_off: usize,
        n: usize,
        kv_heads: usize,
        head_dim: usize,
        cap: usize,
        past: usize,
        halves: bool,
    ) -> (fits: bool)
        ensures
            fits == append(src, src_off, n, kv_heads, head_dim, cap, past).fits(halves),
    {
        if !sum_fits(past, n) {
            return false;
        }
        if past + n > cap || halves && cap % 2 != 0 {
            return true;
        }
        product_fits(n, kv_heads) && product_fits(n * kv_heads, head_dim) && sum_fits(
            src_off,
            n * kv_heads * head_dim,
        )
    }

    /// Whether [`Gpu::cache_grow`], or [`Gpu::cache_grow_f16`], can be asked for
    /// this.
    pub fn cache_grow_fits<T>(
        src: &CudaSlice<T>,
        dst: &CudaSlice<T>,
        kv_heads: usize,
        head_dim: usize,
        old_cap: usize,
        new_cap: usize,
        live: usize,
        transposed: bool,
    ) -> (fits: bool)
        ensures
            fits == grow(kv_heads, head_dim, old_cap, new_cap, live, transposed).fits(
                src.len as int,
                dst.len as int,
            ),
    {
        if live > old_cap || new_cap < old_cap {
            return true;
        }
        let (rows, src_stride, dst_stride): (usize, usize, usize) = if transposed {
            if !product_fits(kv_heads, head_dim) {
                return false;
            }
            (kv_heads * head_dim, old_cap, new_cap)
        } else {
            if !product_fits(live, head_dim) || !product_fits(old_cap, head_dim) || !product_fits(
                new_cap,
                head_dim,
            ) {
                return false;
            }
            (kv_heads, old_cap * head_dim, new_cap * head_dim)
        };
        product_fits(rows, src_stride) && (rows * src_stride > src.len() || product_fits(
            rows,
            dst_stride,
        ))
    }

    /// Whether [`Gpu::rope_cache_f16`] can be asked for this: every size that it
    /// would compute is a number of this machine, and the buffers it would read are
    /// there.
    pub fn rope_cache_fits(
        proj: &[CudaSlice<Fp32>],
        q: (usize, usize),
        k: (usize, usize),
        v: (usize, usize),
        freq_div: Option<&CudaSlice<Fp32>>,
        heads: usize,
        kv_heads: usize,
        head_dim: usize,
        theta: FloatBits,
        pos: usize,
        kc: &CudaSlice<u16>,
        vc: &CudaSlice<u16>,
        cap: usize,
    ) -> (fits: bool)
        ensures
            fits == rope_and_store(
                proj@,
                q,
                k,
                v,
                freq_div,
                heads,
                kv_heads,
                head_dim,
                theta,
                pos,
                kc,
                vc,
                cap,
            ).fits(),
    {
        let ghost g = rope_and_store(
            proj@,
            q,
            k,
            v,
            freq_div,
            heads,
            kv_heads,
            head_dim,
            theta,
            pos,
            kc,
            vc,
            cap,
        );
        if pos >= cap {
            return pos < usize::MAX;
        }
        if cap % 2 != 0 || head_dim % 2 != 0 {
            return true;
        }
        if !product_fits(heads, head_dim) || !product_fits(kv_heads, head_dim) {
            return false;
        }
        let (q_len, kv_len): (usize, usize) = (heads * head_dim, kv_heads * head_dim);
        if !sum_fits(q.1, q_len) {
            return false;
        }
        if span_overrun(proj, q, q_len).is_some() {
            return true;
        }
        if !sum_fits(k.1, kv_len) {
            return false;
        }
        if span_overrun(proj, k, kv_len).is_some() {
            return true;
        }
        if !sum_fits(v.1, kv_len) {
            return false;
        }
        if span_overrun(proj, v, kv_len).is_some() {
            return true;
        }
        assert(g.span_refusal() is None);
        if !product_fits(cap, kv_heads) || !product_fits(cap * kv_heads, head_dim) {
            return false;
        }
        let want: usize = cap * kv_heads * head_dim;
        if kc.len() < want || vc.len() < want {
            return true;
        }
        assert(g.refusal() is None);
        let pairs: usize = q_len / 2;
        if !sum_fits(pairs, kv_len / 2) || !sum_fits(pairs + kv_len / 2, kv_len) {
            return false;
        }
        q.0 < proj.len() && k.0 < proj.len() && v.0 < proj.len()
    }
}

} // verus!
