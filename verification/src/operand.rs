//! Matmul operands and how a batch steps through them.

use crate::arith::{product_fits, sum_fits};
use crate::buffer::{CudaSlice, Fp32};
use crate::quant::Quant;
use vstd::prelude::*;

verus! {

/// An activation quantized to int8, ready for the packed mat-vec.
///
/// Codes and per-group scales share one allocation: the codes first, then the
/// scales at [`Q8::scale_offset`] bytes.
#[derive(Debug)]
pub struct Q8 {
    /// `rows * k` codes, then `rows * k / 32` scales as f32.
    pub buf: CudaSlice<i8>,
    /// Rows quantized, counting every row of every batch element.
    pub rows: usize,
    /// The contraction length these codes were taken along.
    pub k: usize,
}

/// Bytes of a twin of `rows` rows of `k`: a code an element, and a 4-byte scale
/// a group of 32.
pub open spec fn q8_bytes(rows: int, k: int) -> int {
    rows * k + rows * (k / 32) * 4
}

/// The size of a twin, and every step of computing it, is a number of this
/// machine.
pub open spec fn q8_fits(rows: int, k: int) -> bool {
    &&& rows * k <= usize::MAX
    &&& rows * (k / 32) <= usize::MAX
    &&& rows * (k / 32) * 4 <= usize::MAX
    &&& q8_bytes(rows, k) <= usize::MAX
}

/// Whether a twin of `rows` rows of `k` has a size.
pub fn twin_fits(rows: usize, k: usize) -> (fits: bool)
    ensures
        fits == q8_fits(rows as int, k as int),
{
    product_fits(rows, k) && product_fits(rows, k / 32) && product_fits(rows * (k / 32), 4)
        && sum_fits(rows * k, rows * (k / 32) * 4)
}

impl Q8 {
    /// The buffer is exactly the codes and the scales.
    pub open spec fn wf(&self) -> bool {
        &&& q8_fits(self.rows as int, self.k as int)
        &&& self.buf.len == q8_bytes(self.rows as int, self.k as int)
    }

    /// Bytes from the start of the buffer to the first scale.
    ///
    /// A multiple of four wherever `k` is a multiple of 32 - which is what
    /// makes reading the scales as f32 from the same allocation sound.
    pub fn scale_offset(&self) -> (n: usize)
        requires
            self.wf(),
        ensures
            n == self.rows * self.k,
            n <= self.buf.len,
            self.k % 32 == 0 ==> n % 4 == 0,
    {
        proof {
            scales_are_aligned(self.rows as int, self.k as int);
        }
        self.rows * self.k
    }

    /// The shape these codes were taken at.
    pub fn shape(&self) -> (s: (usize, usize))
        ensures
            s == (self.rows, self.k),
    {
        (self.rows, self.k)
    }
}

/// The scales of a twin taken in whole groups of 32 start on a word, and end
/// with the buffer.
pub proof fn scales_are_aligned(rows: int, k: int)
    requires
        0 <= rows,
        0 <= k,
    ensures
        0 <= rows * k <= q8_bytes(rows, k),
        k % 32 == 0 ==> (rows * k) % 4 == 0,
        q8_bytes(rows, k) - rows * k == 4 * (rows * (k / 32)),
{
    assert(rows * k >= 0) by (nonlinear_arith)
        requires
            0 <= rows,
            0 <= k,
    ;
    assert(rows * (k / 32) >= 0) by (nonlinear_arith)
        requires
            0 <= rows,
            0 <= k,
    ;
    if k % 32 == 0 {
        assert(rows * k == 4 * (rows * (8 * (k / 32)))) by (nonlinear_arith)
            requires
                k == 32 * (k / 32),
        ;
    }
}

/// One side of a matmul, in whichever precision it is stored.
///
/// The tiled kernel rounds *both* operands to f16 on the way into shared
/// memory. The scalar path is different: it accumulates an F32 operand exactly
/// and rounds an f16 one. That is a real precision decision on the decode
/// shapes, and it is the caller's to make.
#[allow(inconsistent_fields)]
#[derive(Debug, Clone, Copy)]
pub enum Operand<'a> {
    /// Full precision, as it comes out of the checkpoint.
    F32(&'a CudaSlice<Fp32>),
    /// Rounded once. Two halves to a 32-bit word, so the contraction must be
    /// even - every one in a transformer is.
    F16(&'a CudaSlice<u16>),
    /// Block-quantized, and unpacked *inside* the matmul rather than at load.
    ///
    /// A weight and only a weight can be stored this way.
    Q {
        /// The packed blocks, at [`Quant::device_stride`].
        data: &'a CudaSlice<u8>,
        /// Which layout to read them with.
        ty: Quant,
    },
    /// Full precision, with the int8 twin the packed mat-vec wants already
    /// taken.
    F32Q {
        /// The activation, unchanged.
        data: &'a CudaSlice<Fp32>,
        /// Its int8 twin.
        q8: &'a Q8,
    },
}

impl<'a> Operand<'a> {
    /// A twin that is handed over is a whole one.
    pub open spec fn wf(self) -> bool {
        match self {
            Operand::F32Q { data: _, q8 } => q8.wf(),
            _ => true,
        }
    }

    /// Whether the elements are 32-bit floats.
    pub open spec fn is_full(self) -> bool {
        self is F32 || self is F32Q
    }

    /// Elements of the allocation, in its own units.
    pub open spec fn spec_len(self) -> int {
        match self {
            Operand::F32(v) => v.len as int,
            Operand::F16(v) => v.len as int,
            Operand::Q { data, ty: _ } => data.len as int,
            Operand::F32Q { data, q8: _ } => data.len as int,
        }
    }

    /// The block format, if this side is quantized.
    pub open spec fn spec_quant(self) -> Option<Quant> {
        match self {
            Operand::Q { data: _, ty } => Some(ty),
            _ => None,
        }
    }

    /// The int8 twin a caller took ahead of time, if any.
    pub open spec fn spec_q8(self) -> Option<&'a Q8> {
        match self {
            Operand::F32Q { data: _, q8 } => Some(q8),
            _ => None,
        }
    }

    /// Whether this side is packed two to a word.
    pub fn half(self) -> (h: bool)
        ensures
            h == (self is F16),
    {
        match self {
            Operand::F16(_) => true,
            _ => false,
        }
    }

    /// Whether the elements are 32-bit floats.
    pub fn full(self) -> (f: bool)
        ensures
            f == self.is_full(),
    {
        match self {
            Operand::F32(_) => true,
            Operand::F32Q { .. } => true,
            _ => false,
        }
    }

    /// The int8 twin a caller took ahead of time, if any.
    pub fn q8(self) -> (q: Option<&'a Q8>)
        ensures
            q == self.spec_q8(),
    {
        match self {
            Operand::F32Q { data: _, q8 } => Some(q8),
            _ => None,
        }
    }

    /// The block format, if this side is quantized.
    pub fn quant(self) -> (q: Option<Quant>)
        ensures
            q == self.spec_quant(),
    {
        match self {
            Operand::Q { data: _, ty } => Some(ty),
            _ => None,
        }
    }

    /// Elements of the allocation, in its own units.
    pub fn len(self) -> (n: usize)
        ensures
            n == self.spec_len(),
    {
        match self {
            Operand::F32(v) => v.len,
            Operand::F16(v) => v.len,
            Operand::Q { data, ty: _ } => data.len,
            Operand::F32Q { data, q8: _ } => data.len,
        }
    }
}

/// How a batched matmul steps between its products.
///
/// Three separate strides because attention needs two different shapes from
/// the same call: the score matrices step `tq*head_dim` through the queries
/// and `tk*head_dim` through the keys, and the contexts step `tq*tk` through
/// the probabilities.
#[derive(Debug, Clone, Copy, PartialEq, Eq, Structural)]
pub struct Batch {
    /// How many independent products.
    pub count: usize,
    /// Elements between consecutive left operands.
    pub a: usize,
    /// Elements between consecutive right operands, of the logical matrix in
    /// every precision.
    pub w: usize,
    /// Elements between consecutive outputs.
    pub out: usize,
    /// Elements between consecutive *rows* of the right operand, or 0 for `k`.
    ///
    /// Only the value cache needs it: a head's values are
    /// `[head_dim, capacity]` and the contraction is over the `tk` of them that
    /// exist.
    pub w_row: usize,
}

impl Batch {
    /// One product.
    #[verifier::inline]
    pub open spec fn spec_single(out: int) -> Batch {
        Batch { count: 1, a: 0, w: 0, out: out as usize, w_row: 0 }
    }

    /// One product, which is what [`crate::Gpu::gemm`] is.
    ///
    /// Nothing is stepped over at `count == 1`, but naming the output size keeps
    /// the strides meaningful rather than arbitrary.
    pub fn single(out: usize) -> (b: Batch)
        ensures
            b == Batch::spec_single(out as int),
    {
        Batch { count: 1, a: 0, w: 0, out, w_row: 0 }
    }
}

} // verus!
