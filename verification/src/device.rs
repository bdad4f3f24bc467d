//! What the device code does with a launch, thread by thread: which elements a
//! thread reads, which it writes, and what it makes of them.
//!
//! The kernels are described as their own source has them, from the arguments they
//! are handed and the grid they run on. The laws then say of each operation what is
//! left in which buffer, in terms of what was asked for.

pub mod attending;
pub mod convolving;
pub mod moving;
pub mod normalising;
pub mod pointwise;
pub mod projecting;

use crate::buffer::{BufferId, CudaSlice, FloatBits};
use crate::launch::{flat_cfg, flat_covers};
use crate::queue::{Arg, Cmd};
use vstd::prelude::*;

verus! {

/// An element of a buffer.
pub struct Place {
    /// Which buffer.
    pub id: BufferId,
    /// Which of its elements.
    pub at: int,
}

/// Element `i` of a buffer.
pub open spec fn at<T>(x: CudaSlice<T>, i: int) -> Option<Place> {
    Some(Place { id: x.id, at: i })
}

/// Element `i` of a buffer that may not be there.
pub open spec fn maybe_at<T>(x: Option<&CudaSlice<T>>, i: int) -> Option<Place> {
    match x {
        Some(v) => at(*v, i),
        None => None,
    }
}

/// Element `i` from where a launch's argument points, which is nowhere where that is
/// null.
pub open spec fn arg_at(c: Cmd, arg: int, i: int) -> Option<Place> {
    match c->args[arg] {
        Arg::Ptr(p) => Some(Place { id: p.id, at: p.offset + i }),
        _ => None,
    }
}

/// A launch's argument as the number the kernel takes it for.
pub open spec fn arg_int(c: Cmd, arg: int) -> int {
    match c->args[arg] {
        Arg::I32(v) => v as int,
        Arg::I64(v) => v as int,
        _ => 0,
    }
}

/// A launch's argument as a float.
pub open spec fn arg_float(c: Cmd, arg: int) -> FloatBits {
    match c->args[arg] {
        Arg::Float(b) => b,
        _ => FloatBits(0),
    }
}

/// Whether a launch's argument is a pointer that can be read.
pub open spec fn arg_given(c: Cmd, arg: int) -> bool {
    c->args[arg] is Ptr
}

/// What is made of the elements that are read.
pub enum Fun {
    /// The element itself.
    Copy,
    /// Nothing of it: zero.
    Zero,
    /// The element, rounded to half precision.
    Round,
    /// The larger of it and zero.
    Relu,
    /// It, or a part of it below zero.
    LeakyRelu,
    Tanh,
    Gelu,
    /// GELU, rounded to half precision.
    GeluRounded,
    Silu,
    GeluTanh,
    Mish,
    Elu,
    /// The first, with the second as its frequency.
    Snake,
    /// The tangent of the first times the sigmoid of the second.
    Gate,
    /// The SiLU of the first times the second.
    SiluGate,
    /// The rectified first times the second.
    ReluTimes,
    Sum,
    Difference,
    Product,
    /// The first, and the second times the third on top of it.
    SumOfProduct,
    /// The first less the second, over the exponential of the third.
    Coupling,
    /// The new cell and the new output of four gates, each the sum of two.
    LstmCell,
    /// The first, and the sum of the first and the second.
    ReplaceAndAdd,
    /// Column `column` of the row of `width` that the first names, in the table that
    /// starts at the second.
    Lookup { width: int, column: int },
    /// The same of a packed table: in blocks of `block` elements and `stride` bytes, of
    /// the format `format`.
    LookupPacked { width: int, column: int, format: int, block: int, stride: int },
    /// Noise, spread by the exponential of one looked-up column, about another.
    Prior { width: int, column: int },
    /// The products of `len` elements from the first on and as many from the second on,
    /// summed, and the third on top of them where it is there.
    Dot { len: int },
    /// Negative infinity.
    Masked,
}

/// What one thread writes.
pub struct Store {
    /// What is made of what is read.
    pub fun: Fun,
    /// What is read.
    pub reads: Seq<Option<Place>>,
    /// The floats that were handed over.
    pub scalars: Seq<FloatBits>,
    /// Where it goes.
    pub to: Seq<Option<Place>>,
}

/// One element, from one place to another.
pub open spec fn copied(from: Option<Place>, to: Option<Place>) -> Store {
    Store { fun: Fun::Copy, reads: seq![from], scalars: Seq::empty(), to: seq![to] }
}

/// What is made of some elements, without a float, at one place.
pub open spec fn stored(fun: Fun, reads: Seq<Option<Place>>, to: Option<Place>) -> Store {
    Store { fun, reads, scalars: Seq::empty(), to: seq![to] }
}

/// Whether a launch has a thread for each of `n`, in one row of blocks.
pub open spec fn has_threads(c: Cmd, n: int) -> bool {
    let (grid, block) = (c->cfg.grid_dim, c->cfg.block_dim);
    &&& c is Launch
    &&& grid.0 * block.0 >= n
    &&& grid.1 == 1 && grid.2 == 1
    &&& block.1 == 1 && block.2 == 1
}

/// Whether a launch has a block for each of `rows`, and no other.
pub open spec fn has_a_block_a_row(c: Cmd, rows: int) -> bool {
    let (grid, block) = (c->cfg.grid_dim, c->cfg.block_dim);
    &&& c is Launch
    &&& grid.0 == rows && grid.1 == 1 && grid.2 == 1
    &&& block.0 >= 1 && block.1 == 1 && block.2 == 1
}

/// Column `c` of row `r`, in rows of `w`.
pub open spec fn flat2(r: int, c: int, w: int) -> int {
    r * w + c
}

/// Whether a size is one of the device's integers.
pub open spec fn int_fits(n: int) -> bool {
    0 <= n <= i32::MAX
}

/// Whether two sizes and their product are.
pub open spec fn ints_fit(a: int, b: int) -> bool {
    int_fits(a) && int_fits(b) && int_fits(a * b)
}

/// Whether three sizes and their products are.
pub open spec fn three_ints_fit(a: int, b: int, c: int) -> bool {
    ints_fit(a, b) && int_fits(c) && int_fits(b * c) && int_fits(a * b * c)
}

pub(crate) proof fn lemma_flat_runs(c: Cmd, n: int)
    requires
        c is Launch,
        c->cfg == flat_cfg(n),
        0 <= n <= u32::MAX,
    ensures
        has_threads(c, n),
{
    flat_covers(n);
}

pub(crate) proof fn lemma_flat2(r: int, c: int, w: int, h: int)
    requires
        0 <= r < h,
        0 <= c < w,
    ensures
        0 <= flat2(r, c, w) < h * w,
        flat2(r, c, w) / w == r,
        flat2(r, c, w) % w == c,
        flat2(r, c, w) - r * w == c,
{
    vstd::arithmetic::div_mod::lemma_fundamental_div_mod_converse(flat2(r, c, w), w, r, c);
    assert(0 <= r * w + c < h * w) by (nonlinear_arith)
        requires
            0 <= r < h,
            0 <= c < w,
    ;
}

pub(crate) proof fn lemma_rows(h: int, w: int)
    ensures
        h * w == w * h,
        forall|r: int, c: int|
            0 <= r < h && 0 <= c < w ==> {
                let i = #[trigger] flat2(r, c, w);
                &&& 0 <= i < h * w
                &&& i / w == r
                &&& i % w == c
                &&& i - r * w == c
            },
{
    assert(h * w == w * h) by (nonlinear_arith);
    assert forall|r: int, c: int| 0 <= r < h && 0 <= c < w implies {
        let i = #[trigger] flat2(r, c, w);
        &&& 0 <= i < h * w
        &&& i / w == r
        &&& i % w == c
        &&& i - r * w == c
    } by {
        lemma_flat2(r, c, w, h);
    }
}

/// Element `e` of head `h` of row `t`, in rows of `heads` heads of `w`.
pub open spec fn flat3(t: int, h: int, e: int, heads: int, w: int) -> int {
    (t * heads + h) * w + e
}

pub(crate) proof fn lemma_flat3(n: int, heads: int, w: int, t: int, h: int, e: int)
    requires
        0 <= t < n,
        0 <= h < heads,
        0 <= e < w,
    ensures
        ({
            let i = flat3(t, h, e, heads, w);
            let d = heads * w;
            &&& 0 <= i < n * heads * w
            &&& n * heads * w == n * d
            &&& i / d == t
            &&& i % d == h * w + e
            &&& 0 <= h * w + e < d
            &&& (h * w + e) / w == h
            &&& (h * w + e) % w == e
            &&& i == t * d + h * w + e
            &&& i % w == e
            &&& i / w == t * heads + h
        }),
{
    let d = heads * w;
    lemma_flat2(h, e, w, heads);
    lemma_flat2(t, h * w + e, d, n);
    assert((t * heads + h) * w == t * d + h * w) by (nonlinear_arith)
        requires
            d == heads * w,
    ;
    lemma_flat2(t, h, heads, n);
    lemma_flat2(t * heads + h, e, w, n * heads);
    assert(n * heads * w == n * d) by (nonlinear_arith)
        requires
            d == heads * w,
    ;
}

/// [`lemma_flat3`] of every element.
pub(crate) proof fn lemma_cube(n: int, heads: int, w: int)
    ensures
        n * heads * w == n * (heads * w),
        forall|t: int, h: int, e: int|
            0 <= t < n && 0 <= h < heads && 0 <= e < w ==> {
                let i = #[trigger] flat3(t, h, e, heads, w);
                let d = heads * w;
                &&& 0 <= i < n * heads * w
                &&& i / d == t
                &&& i % d == h * w + e
                &&& 0 <= h * w + e < d
                &&& (h * w + e) / w == h
                &&& (h * w + e) % w == e
                &&& i == t * d + h * w + e
                &&& i % w == e
                &&& i / w == t * heads + h
            },
{
    assert(n * heads * w == n * (heads * w)) by (nonlinear_arith);
    assert forall|t: int, h: int, e: int|
        0 <= t < n && 0 <= h < heads && 0 <= e < w implies {
        let i = #[trigger] flat3(t, h, e, heads, w);
        let d = heads * w;
        &&& 0 <= i < n * heads * w
        &&& i / d == t
        &&& i % d == h * w + e
        &&& 0 <= h * w + e < d
        &&& (h * w + e) / w == h
        &&& (h * w + e) % w == e
        &&& i == t * d + h * w + e
        &&& i % w == e
        &&& i / w == t * heads + h
    } by {
        lemma_flat3(n, heads, w, t, h, e);
    }
}

} // verus!
