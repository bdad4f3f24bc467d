//! Errors from the GPU path.

use vstd::prelude::*;

verus! {

/// A request the library refuses, or a device it could not open.
#[derive(Debug, PartialEq, Eq)]
pub enum CudaError {
    /// An odd contraction with an f16 operand, which packs two to a word.
    ///
    /// An f16 operand is addressed as 32-bit words, so an odd `k` would put the
    /// boundary in the middle of one. Two f32 operands take any length, and so
    /// does a matmul of at most [`GEMV_MAX_M`](crate::GEMV_MAX_M) rows of an f32
    /// activation against an f16 weight: its mat-vecs read the last half of an odd
    /// row on its own. The fused mat-vecs do not.
    RaggedContraction {
        /// The length asked for.
        k: usize,
    },
    /// A contraction that is not a whole number of quantization blocks.
    ///
    /// A packed row starts on a block boundary. A `k` that is not a multiple of
    /// the block size would read into the previous row's last block: in bounds,
    /// and wrong.
    RaggedBlock {
        /// The length asked for.
        k: usize,
        /// Elements per block in the format handed over.
        block: usize,
    },
    /// A packed tensor whose byte count is not a whole number of blocks.
    RaggedBlockBytes {
        /// The length handed over.
        len: usize,
        /// Bytes per block in the format handed over.
        ty: usize,
    },
    /// An int8 twin that was taken at another shape.
    ///
    /// The twin is addressed as a dense `[rows, k]` of its own, so one taken at
    /// a different shape is read in bounds and produces numbers.
    MismatchedQ8 {
        /// Rows the twin was taken over.
        rows: usize,
        /// Contraction the twin was taken along.
        k: usize,
        /// Rows this matmul has.
        want_rows: usize,
        /// Contraction this matmul has.
        want_k: usize,
    },
    /// A cache write that would run past the buffer's capacity.
    ///
    /// The cache is one allocation holding every head, so a position beyond its
    /// capacity writes into the next head's positions: in bounds, and wrong for
    /// every step after it.
    CacheOverrun {
        /// Where the write would end.
        at: usize,
        /// Positions the buffer has room for.
        cap: usize,
    },
    /// A read or a write past the end of a buffer.
    SliceOverrun {
        /// Where it would end.
        at: usize,
        /// Elements the buffer has.
        len: usize,
    },
    /// A row stride asked for on an operand that has no rows to stride.
    StridedNonF32Weight {
        /// The stride asked for.
        stride: usize,
    },
    /// An f16 cache with room for an odd number of positions, whose rows would
    /// not start on a word.
    OddCacheCapacity {
        /// Positions the buffer has room for.
        cap: usize,
    },
    /// A head of an odd number of elements, where they are taken in pairs.
    OddHeadDim {
        /// Elements a head.
        head_dim: usize,
    },
    /// An offset that does not sit on the boundary a wide load needs.
    Misaligned {
        /// What the offset is of.
        what: &'static str,
        /// The offset asked for.
        offset: usize,
        /// The boundary, in elements.
        align: usize,
    },
    /// A head shape no attention kernel was compiled for.
    UnsupportedAttention {
        /// Elements a head.
        head_dim: usize,
        /// Query heads.
        heads: usize,
        /// Key and value heads.
        kv_heads: usize,
    },
    /// A projection that cannot be fused with the normalisation after it.
    NormFusion {
        /// What stands in the way.
        what: &'static str,
    },
    /// A quantized left operand, which no kernel accepts.
    QuantizedActivation,
    /// No usable CUDA device, or the driver could not be loaded.
    NoDevice(String),
    /// The kernel source did not compile.
    Compile(String),
    /// A kernel could not be found in the compiled module.
    MissingKernel {
        /// The kernel that was asked for.
        name: String,
    },
}

/// A driver call that failed, and what it was for.
#[derive(Debug, PartialEq, Eq)]
pub struct Failed<E> {
    /// What was being done.
    pub what: &'static str,
    /// The driver's own error.
    pub source: E,
}

/// Turns a launch result into ours.
///
/// A launch returns the events it recorded for cross-stream ordering; there is
/// one stream, so they are discarded.
pub fn launched<T, E>(what: &'static str, r: Result<T, E>) -> (out: Result<(), Failed<E>>)
    ensures
        match r {
            Ok(_) => out == Ok::<(), Failed<E>>(()),
            Err(source) => out == Err::<(), Failed<E>>(Failed { what, source }),
        },
{
    match r {
        Ok(_) => Ok(()),
        Err(source) => Err(Failed { what, source }),
    }
}

} // verus!
