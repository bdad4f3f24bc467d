//! Scratch that a fused kernel keeps between calls.

use crate::arith::{checked_power_of_two, greater, is_pow2, next_pow2, next_pow2_is_least};
use crate::arith::{next_power_of_two, pow2_below_doubles, product_fits};
use crate::buffer::{BufferId, CudaSlice, Elem, Fp32};
use crate::queue::{made, made_in, uninit, zeros, Cmd, Gpu};
use vstd::math::max;
use vstd::prelude::*;

verus! {

/// What the fused decode attention keeps between calls.
///
/// A block per chunk of keys writes its partial - a running maximum, a sum and
/// an unnormalised context - here, and the last block to finish for a head
/// merges them. The counters that decide which block is last start at zero
/// and are reset by the block that reads them, so this is allocated once and
/// never zeroed again; the partials are never read before they are written.
///
/// Held by the caller rather than by [`Gpu`] because the device handle is
/// shared by every stage, and two stages decoding by turns must not share a
/// counter. It grows when a longer context needs more chunks, or a kernel wider
/// partials, which is a logarithmic number of allocations over a conversation and
/// none in steady state.
#[derive(Debug)]
pub struct DecodeScratch {
    /// The partials: `chunks` of them a key-value head, as wide as those they were
    /// last made for.
    pub part: Option<CudaSlice<Fp32>>,
    /// A counter a key-value head.
    pub ctr: Option<CudaSlice<u32>>,
    /// Key-value heads these were made for.
    pub kv_heads: usize,
    /// Elements a head these were made for.
    pub head_dim: usize,
    /// Chunks a head there is room for, of that width.
    pub chunks: usize,
}

impl DecodeScratch {
    /// The scratch that has nothing yet.
    pub open spec fn spec_empty(kv_heads: usize, head_dim: usize) -> DecodeScratch {
        DecodeScratch { part: None, ctr: None, kv_heads, head_dim, chunks: 0 }
    }

    /// Empty; the first call allocates.
    pub fn new() -> (s: DecodeScratch)
        ensures
            s == DecodeScratch::spec_empty(0, 0),
            s.wf(),
    {
        DecodeScratch { part: None, ctr: None, kv_heads: 0, head_dim: 0, chunks: 0 }
    }

    /// There is room for chunks exactly when there are partials, and then for a
    /// power of two of them, four at least.
    pub open spec fn wf(self) -> bool {
        &&& self.part is None <==> self.chunks == 0
        &&& self.part is Some ==> is_pow2(self.chunks as int) && self.chunks >= 4
        &&& self.ctr is Some ==> self.ctr->0.len == self.kv_heads
    }

    /// This scratch for a head geometry: the same one, or an empty one where
    /// the geometry changes.
    pub open spec fn fitted(self, kv_heads: usize, head_dim: usize) -> DecodeScratch {
        if self.kv_heads != kv_heads || self.head_dim != head_dim {
            DecodeScratch::spec_empty(kv_heads, head_dim)
        } else {
            self
        }
    }

    /// Whether `chunks` partials of `stride` floats a key-value head need more
    /// than there is.
    pub open spec fn lacks(self, chunks: int, stride: int) -> bool {
        ||| self.part is None
        ||| self.chunks < chunks
        ||| self.part->0.len < self.kv_heads * chunks * stride
    }

    /// Chunks a head that new partials have room for: what is asked, doubled up,
    /// and no fewer than before.
    pub open spec fn room(self, chunks: int) -> int {
        max(room_for(chunks), self.chunks as int)
    }

    /// Making the counters, where there are none.
    pub open spec fn ctr_cmds(self) -> Seq<Cmd> {
        if self.ctr is None {
            seq![zeros(Elem::U32, self.kv_heads as int)]
        } else {
            Seq::empty()
        }
    }

    /// Floats of new partials of `stride` floats each.
    pub open spec fn part_len(self, chunks: int, stride: int) -> int {
        self.kv_heads * self.room(chunks) * stride
    }

    /// Making the partials, where there are not enough.
    pub open spec fn part_cmds(self, chunks: int, stride: int) -> Seq<Cmd> {
        if self.lacks(chunks, stride) {
            seq![uninit(Elem::F32, self.part_len(chunks, stride))]
        } else {
            Seq::empty()
        }
    }

    /// Everything that growing a scratch queues.
    pub open spec fn grow_cmds(
        self,
        kv_heads: usize,
        head_dim: usize,
        chunks: int,
        stride: int,
    ) -> Seq<Cmd> {
        let s = self.fitted(kv_heads, head_dim);
        s.ctr_cmds() + s.part_cmds(chunks, stride)
    }

    /// The scratch after it, with the queue at `at` before it.
    pub open spec fn grown(
        self,
        at: int,
        kv_heads: usize,
        head_dim: usize,
        chunks: int,
        stride: int,
    ) -> DecodeScratch {
        let s = self.fitted(kv_heads, head_dim);
        DecodeScratch {
            part: if s.lacks(chunks, stride) {
                Some(made(at + s.ctr_cmds().len(), s.part_len(chunks, stride)))
            } else {
                s.part
            },
            ctr: if s.ctr is None {
                Some(made(at, kv_heads as int))
            } else {
                s.ctr
            },
            kv_heads,
            head_dim,
            chunks: if s.lacks(chunks, stride) {
                s.room(chunks) as usize
            } else {
                s.chunks
            },
        }
    }

    /// The sizes that growing computes are numbers of this machine.
    pub open spec fn growth_fits(
        self,
        kv_heads: usize,
        head_dim: usize,
        chunks: int,
        stride: int,
    ) -> bool {
        let s = self.fitted(kv_heads, head_dim);
        s.lacks(chunks, stride) ==> {
            &&& s.room(chunks) <= usize::MAX
            &&& kv_heads * s.room(chunks) <= usize::MAX
            &&& s.part_len(chunks, stride) <= usize::MAX
        }
    }
}

/// Room for `chunks` chunks: the next power of two, four at least. Doubling
/// keeps the allocations logarithmic in the context.
pub open spec fn room_for(chunks: int) -> int {
    max(4, next_pow2(chunks))
}

/// Growing leaves partials for every chunk that was asked for, of the stride that
/// was asked for, whatever the scratch was grown for before; and it keeps the
/// chunks it had at the same geometry.
pub proof fn growing_makes_room(
    s: DecodeScratch,
    at: int,
    kv_heads: usize,
    head_dim: usize,
    chunks: int,
    stride: int,
)
    requires
        0 <= chunks,
        0 <= stride,
        s.growth_fits(kv_heads, head_dim, chunks, stride),
    ensures
        ({
            let g = s.grown(at, kv_heads, head_dim, chunks, stride);
            &&& g.kv_heads == kv_heads && g.head_dim == head_dim
            &&& g.part is Some && g.ctr is Some
            &&& g.chunks >= chunks
            &&& g.part->0.len >= kv_heads * chunks * stride
            &&& !g.lacks(chunks, stride)
            &&& s.kv_heads == kv_heads && s.head_dim == head_dim ==> g.chunks >= s.chunks
            &&& s.wf() ==> g.wf()
        }),
{
    let f = s.fitted(kv_heads, head_dim);
    lemma_room(chunks);
    assert(kv_heads * chunks * stride <= kv_heads * f.room(chunks) * stride) by (nonlinear_arith)
        requires
            chunks <= f.room(chunks),
            0 <= stride,
            0 <= kv_heads,
    ;
}

proof fn lemma_room(chunks: int)
    requires
        0 <= chunks,
    ensures
        room_for(chunks) >= chunks,
        room_for(chunks) >= 4,
        is_pow2(room_for(chunks)),
{
    if chunks >= 1 {
        next_pow2_is_least(chunks);
    }
    assert(is_pow2(4) && is_pow2(1)) by {
        reveal_with_fuel(is_pow2, 4);
    }
}

/// A scratch that has grown is not grown again until a call outruns it: a second
/// one at the same geometry, with no more chunks of no more floats, queues
/// nothing and changes nothing.
pub proof fn growing_is_done_once(
    s: DecodeScratch,
    at: int,
    again: int,
    kv_heads: usize,
    head_dim: usize,
    chunks: int,
    stride: int,
    later: int,
    later_stride: int,
)
    requires
        0 <= later <= chunks,
        0 <= later_stride <= stride,
        s.growth_fits(kv_heads, head_dim, chunks, stride),
    ensures
        s.grown(at, kv_heads, head_dim, chunks, stride).grow_cmds(
            kv_heads,
            head_dim,
            later,
            later_stride,
        ) == Seq::<Cmd>::empty(),
        s.grown(at, kv_heads, head_dim, chunks, stride).grown(
            again,
            kv_heads,
            head_dim,
            later,
            later_stride,
        ) == s.grown(at, kv_heads, head_dim, chunks, stride),
{
    growing_makes_room(s, at, kv_heads, head_dim, chunks, stride);
    let g = s.grown(at, kv_heads, head_dim, chunks, stride);
    lemma_product_grows(kv_heads as int, later, chunks, later_stride, stride);
    assert(g.grow_cmds(kv_heads, head_dim, later, later_stride) =~= Seq::<Cmd>::empty());
}

/// At one stride it is not grown again until a context needs more chunks than it
/// has room for, which is every chunk the growth doubled up to.
pub proof fn one_stride_fills_its_room(
    s: DecodeScratch,
    again: int,
    later: int,
    stride: int,
)
    requires
        s.part is Some,
        s.ctr is Some,
        s.holds(stride),
        0 <= later <= s.chunks,
        0 <= stride,
    ensures
        s.grow_cmds(s.kv_heads, s.head_dim, later, stride) == Seq::<Cmd>::empty(),
        s.grown(again, s.kv_heads, s.head_dim, later, stride) == s,
{
    lemma_product_grows(s.kv_heads as int, later, s.chunks as int, stride, stride);
    assert(s.grow_cmds(s.kv_heads, s.head_dim, later, stride) =~= Seq::<Cmd>::empty());
}

proof fn lemma_product_grows(h: int, a: int, b: int, x: int, y: int)
    requires
        0 <= h,
        0 <= a <= b,
        0 <= x <= y,
    ensures
        h * a * x <= h * b * y,
{
    assert(h * a <= h * b) by (nonlinear_arith)
        requires
            0 <= h,
            a <= b,
    ;
    assert(0 <= h * a) by (nonlinear_arith)
        requires
            0 <= h,
            0 <= a,
    ;
    assert((h * a) * x <= (h * b) * y) by (nonlinear_arith)
        requires
            0 <= h * a <= h * b,
            0 <= x <= y,
    ;
}

impl DecodeScratch {
    /// The partials are exactly `chunks` of `stride` floats a key-value head.
    pub open spec fn holds(self, stride: int) -> bool {
        self.part is Some ==> self.part->0.len == self.kv_heads * self.chunks * stride
    }
}

/// Where a scratch that already has partials makes new ones for the same
/// geometry, the chunks at least double, or as many partials get wider: with the
/// few widths there are, the allocations are logarithmic in the context.
pub proof fn growing_doubles(
    s: DecodeScratch,
    at: int,
    chunks: int,
    before: int,
    stride: int,
)
    requires
        s.wf(),
        s.part is Some,
        s.holds(before),
        0 <= chunks,
        0 <= stride,
        s.lacks(chunks, stride),
        s.growth_fits(s.kv_heads, s.head_dim, chunks, stride),
    ensures
        ({
            let g = s.grown(at, s.kv_heads, s.head_dim, chunks, stride);
            &&& g.holds(stride)
            &&& g.chunks >= 2 * s.chunks || (g.chunks == s.chunks && stride > before)
        }),
{
    if s.chunks < chunks {
        pow2_below_doubles(s.chunks as int, chunks);
    } else {
        if stride <= before {
            lemma_product_grows(s.kv_heads as int, chunks, s.chunks as int, stride, before);
        }
        lemma_room_within(chunks, s.chunks as int);
    }
}

proof fn lemma_room_within(chunks: int, room: int)
    requires
        is_pow2(room),
        4 <= room,
        chunks <= room,
    ensures
        room_for(chunks) <= room,
{
    lemma_next_pow2_within(chunks, room);
}

proof fn lemma_next_pow2_within(n: int, p: int)
    requires
        is_pow2(p),
        n <= p,
    ensures
        next_pow2(n) <= p,
    decreases p,
{
    if n > 1 {
        lemma_next_pow2_within((n + 1) / 2, p / 2);
    }
}

/// The partials and the counter a fused projection-and-normalisation merges
/// through.
///
/// One float a block and one counter, owned by the caller for the same
/// reason [`DecodeScratch`] is: the kernel runs twice a layer for every
/// decoded token, and an allocation a launch is the cost it exists to
/// remove. Grows once when a wider projection needs more blocks.
#[derive(Debug)]
pub struct NormScratch {
    /// A partial sum a block.
    pub part: Option<CudaSlice<Fp32>>,
    /// The counter.
    pub ctr: Option<CudaSlice<u32>>,
    /// Blocks there is room for.
    pub blocks: usize,
}

impl NormScratch {
    /// Empty; the first call allocates.
    pub fn new() -> (s: NormScratch)
        ensures
            s == (NormScratch { part: None, ctr: None, blocks: 0 }),
    {
        NormScratch { part: None, ctr: None, blocks: 0 }
    }
}

impl Default for NormScratch {
    fn default() -> (s: NormScratch)
        ensures
            s == (NormScratch { part: None, ctr: None, blocks: 0 }),
    {
        NormScratch::new()
    }
}

impl Default for DecodeScratch {
    fn default() -> (s: DecodeScratch)
        ensures
            s == DecodeScratch::spec_empty(0, 0),
            s.wf(),
    {
        DecodeScratch::new()
    }
}

impl DecodeScratch {
    /// Whether growing to a call's shape computes only numbers of this machine.
    pub fn can_grow(
        &self,
        kv_heads: usize,
        head_dim: usize,
        chunks: usize,
        stride: usize,
    ) -> (fits: bool)
        requires
            stride >= 1,
        ensures
            fits == self.growth_fits(kv_heads, head_dim, chunks as int, stride as int),
    {
        let ghost s = self.fitted(kv_heads, head_dim);
        let same: bool = self.kv_heads == kv_heads && self.head_dim == head_dim;
        let (have, held): (Option<usize>, usize) = match &self.part {
            Some(part) if same => (Some(part.len()), self.chunks),
            _ => (None, if same { self.chunks } else { 0 }),
        };
        assert(held == s.chunks);
        if let Some(len) = have {
            if chunks <= held && three_fit(kv_heads, chunks, stride) && kv_heads * chunks * stride
                <= len {
                return true;
            }
        }
        proof {
            assert(s.lacks(chunks as int, stride as int)) by {
                lemma_three(kv_heads as int, chunks as int, stride as int);
            }
            lemma_room(chunks as int);
            lemma_three(kv_heads as int, s.room(chunks as int), stride as int);
        }
        match checked_power_of_two(chunks) {
            Some(p) => three_fit(kv_heads, greater(greater(4, p), held), stride),
            None => false,
        }
    }
}

/// Whether a product of three lengths, taken from the left, is a number of this
/// machine all the way.
fn three_fit(a: usize, b: usize, c: usize) -> (fits: bool)
    ensures
        fits == (a * b <= usize::MAX && a * b * c <= usize::MAX),
{
    product_fits(a, b) && product_fits(a * b, c)
}

proof fn lemma_three(a: int, b: int, c: int)
    requires
        0 <= a,
        0 <= b,
        1 <= c,
    ensures
        0 <= a * b <= a * b * c,
{
    assert(0 <= a * b <= a * b * c) by (nonlinear_arith)
        requires
            0 <= a,
            0 <= b,
            1 <= c,
    ;
}

impl Gpu {
    /// Grows a scratch to a call's shape: `chunks` partials of `stride` floats a
    /// key-value head. Doubling the chunk count keeps the allocations logarithmic
    /// in the context; a change of head geometry, which no stage ever makes,
    /// starts over, and a kernel with wider partials gets them.
    pub fn grow_decode_scratch(
        &mut self,
        scratch: &mut DecodeScratch,
        kv_heads: usize,
        head_dim: usize,
        chunks: usize,
        stride: usize,
    )
        requires
            stride >= 1,
            old(scratch).growth_fits(kv_heads, head_dim, chunks as int, stride as int),
        ensures
            *final(scratch) == old(scratch).grown(
                old(self)@.len() as int,
                kv_heads,
                head_dim,
                chunks as int,
                stride as int,
            ),
            final(self)@ == old(self)@ + old(scratch).grow_cmds(
                kv_heads,
                head_dim,
                chunks as int,
                stride as int,
            ),
    {
        let ghost at = self@.len() as int;
        let ghost s = scratch.fitted(kv_heads, head_dim);
        if scratch.kv_heads != kv_heads || scratch.head_dim != head_dim {
            scratch.part = None;
            scratch.ctr = None;
            scratch.chunks = 0;
            scratch.kv_heads = kv_heads;
            scratch.head_dim = head_dim;
        }
        assert(*scratch == s);
        if scratch.ctr.is_none() {
            scratch.ctr = Some(self.zeros_u32(kv_heads));
        }
        assert(self@ == old(self)@ + s.ctr_cmds());
        let short: bool = match &scratch.part {
            None => true,
            Some(part) => scratch.chunks < chunks || {
                proof {
                    lemma_need_fits(s, chunks as int, stride as int);
                }
                part.len() < kv_heads * chunks * stride
            },
        };
        if short {
            let room: usize = greater(4, next_power_of_two(chunks));
            let want: usize = greater(room, scratch.chunks);
            scratch.part = Some(self.uninit(kv_heads * want * stride));
            scratch.chunks = want;
        }
    }
}

proof fn lemma_need_fits(s: DecodeScratch, chunks: int, stride: int)
    requires
        s.part is Some,
        0 <= chunks,
        1 <= stride,
        s.growth_fits(s.kv_heads, s.head_dim, chunks, stride),
    ensures
        0 <= s.kv_heads * chunks <= usize::MAX,
        0 <= s.kv_heads * chunks * stride <= usize::MAX,
{
    lemma_room(chunks);
    let h = s.kv_heads as int;
    if s.lacks(chunks, stride) {
        lemma_product_grows(h, chunks, s.room(chunks), stride, stride);
    }
    lemma_three(h, chunks, stride);
}

/// What a scratch grows by is made in the queue it grows in: counters that start at zero, one a
/// key-value head, and partials as long as it says. What it had at this geometry it keeps.
pub proof fn what_a_scratch_grows_by_is_made(
    s: DecodeScratch,
    before: Seq<Cmd>,
    kv_heads: usize,
    head_dim: usize,
    chunks: int,
    stride: int,
)
    requires
        s.growth_fits(kv_heads, head_dim, chunks, stride),
        0 <= chunks && 0 <= stride,
        before.len() < usize::MAX,
    ensures
        ({
            let q = before + s.grow_cmds(kv_heads, head_dim, chunks, stride);
            let g = s.grown(before.len() as int, kv_heads, head_dim, chunks, stride);
            let same = s.kv_heads == kv_heads && s.head_dim == head_dim;
            &&& g.part is Some && g.ctr is Some
            &&& g.ctr == s.ctr && same || {
                &&& made_in(q, g.ctr->0, Elem::U32, kv_heads as int)
                &&& q[before.len() as int] == Cmd::Alloc {
                    elem: Elem::U32,
                    len: kv_heads as int,
                    zeroed: true,
                }
                &&& g.ctr->0.id == BufferId::Made(before.len() as usize)
            }
            &&& g.part == s.part && same || made_in(q, g.part->0, Elem::F32, g.part->0.len as int)
        }),
{
    let f = s.fitted(kv_heads, head_dim);
    let at = before.len() as int;
    let q = before + s.grow_cmds(kv_heads, head_dim, chunks, stride);
    if f.ctr is None {
        assert(q[at] == f.ctr_cmds()[0]);
    }
    if f.lacks(chunks, stride) {
        assert(q[at + f.ctr_cmds().len()] == f.part_cmds(chunks, stride)[0]);
        assert(f.part_len(chunks, stride) >= 0) by {
            let r = f.room(chunks);
            assert(r >= 0);
            assert(f.kv_heads * r >= 0) by (nonlinear_arith)
                requires
                    r >= 0,
            ;
            assert(f.kv_heads * r * stride >= 0) by (nonlinear_arith)
                requires
                    f.kv_heads * r >= 0,
                    stride >= 0,
            ;
        }
    }
}

} // verus!
