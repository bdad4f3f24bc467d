//! Block-quantized weight formats and their device layout.

use vstd::prelude::*;

verus! {

/// A block-quantized weight format, by its ggml type id.
///
/// The unquantized widths are absent on purpose: they have their own operands
/// and their own kernel paths.
#[derive(Debug, Clone, Copy, PartialEq, Eq, Structural)]
pub enum Quant {
    /// 4-bit, centred, one f16 scale per 32.
    Q4_0,
    /// 4-bit, offset, an f16 scale and minimum per 32.
    Q4_1,
    /// 5-bit, centred, one f16 scale per 32.
    Q5_0,
    /// 5-bit, offset, an f16 scale and minimum per 32.
    Q5_1,
    /// 8-bit, one f16 scale per 32.
    Q8_0,
    /// "K-quant" 2-bit: 256-element superblock, 4-bit scales and minimums.
    Q2K,
    /// "K-quant" 3-bit: 6-bit scales, plus a high-bit mask.
    Q3K,
    /// "K-quant" 4-bit: 6-bit scales and minimums, eight sub-blocks of 32.
    Q4K,
    /// "K-quant" 5-bit: `Q4_K` plus one high bit per element.
    Q5K,
    /// "K-quant" 6-bit: 8-bit signed scales, no minimum.
    Q6K,
}

impl Quant {
    /// The ggml type id of each format.
    pub open spec fn spec_id(self) -> i32 {
        match self {
            Quant::Q4_0 => 2,
            Quant::Q4_1 => 3,
            Quant::Q5_0 => 6,
            Quant::Q5_1 => 7,
            Quant::Q8_0 => 8,
            Quant::Q2K => 10,
            Quant::Q3K => 11,
            Quant::Q4K => 12,
            Quant::Q5K => 13,
            Quant::Q6K => 14,
        }
    }

    /// Elements per block: 32 for the plain formats, 256 for the K-quants.
    pub open spec fn spec_block_size(self) -> int {
        match self {
            Quant::Q2K | Quant::Q3K | Quant::Q4K | Quant::Q5K | Quant::Q6K => 256,
            _ => 32,
        }
    }

    /// Bytes per block in the file.
    pub open spec fn spec_type_size(self) -> int {
        match self {
            Quant::Q4_0 => 18,
            Quant::Q4_1 => 20,
            Quant::Q5_0 => 22,
            Quant::Q5_1 => 24,
            Quant::Q8_0 => 34,
            Quant::Q2K => 84,
            Quant::Q3K => 110,
            Quant::Q4K => 144,
            Quant::Q5K => 176,
            Quant::Q6K => 210,
        }
    }

    /// Bytes per block on the device.
    pub open spec fn spec_device_stride(self) -> int {
        if self == Quant::Q6K {
            224
        } else {
            self.spec_type_size()
        }
    }

    /// The ggml type id, which is what the kernel switches on.
    pub fn id(self) -> (id: i32)
        ensures
            id == self.spec_id(),
    {
        match self {
            Quant::Q4_0 => 2,
            Quant::Q4_1 => 3,
            Quant::Q5_0 => 6,
            Quant::Q5_1 => 7,
            Quant::Q8_0 => 8,
            Quant::Q2K => 10,
            Quant::Q3K => 11,
            Quant::Q4K => 12,
            Quant::Q5K => 13,
            Quant::Q6K => 14,
        }
    }

    /// The format for a ggml type id, or `None` if no kernel path reads it.
    ///
    /// `None` covers both the unquantized widths - which have their own
    /// operands - and the families no kernel reads, `IQ*`, `TQ*` and `Q8_K`.
    pub fn from_id(id: u32) -> (q: Option<Quant>)
        ensures
            forall|v: Quant| #[trigger] v.spec_id() == id <==> q == Some(v),
    {
        match id {
            2 => Some(Quant::Q4_0),
            3 => Some(Quant::Q4_1),
            6 => Some(Quant::Q5_0),
            7 => Some(Quant::Q5_1),
            8 => Some(Quant::Q8_0),
            10 => Some(Quant::Q2K),
            11 => Some(Quant::Q3K),
            12 => Some(Quant::Q4K),
            13 => Some(Quant::Q5K),
            14 => Some(Quant::Q6K),
            _ => None,
        }
    }

    /// Elements per block.
    pub fn block_size(self) -> (n: usize)
        ensures
            n == self.spec_block_size(),
    {
        match self {
            Quant::Q4_0 | Quant::Q4_1 | Quant::Q5_0 | Quant::Q5_1 | Quant::Q8_0 => 32,
            Quant::Q2K | Quant::Q3K | Quant::Q4K | Quant::Q5K | Quant::Q6K => 256,
        }
    }

    /// Bytes per block.
    pub fn type_size(self) -> (n: usize)
        ensures
            n == self.spec_type_size(),
    {
        match self {
            Quant::Q4_0 => 18,
            Quant::Q4_1 => 20,
            Quant::Q5_0 => 22,
            Quant::Q5_1 => 24,
            Quant::Q8_0 => 34,
            Quant::Q2K => 84,
            Quant::Q3K => 110,
            Quant::Q4K => 144,
            Quant::Q5K => 176,
            Quant::Q6K => 210,
        }
    }

    /// Bytes between blocks once the tensor is on the device.
    ///
    /// The same as [`Quant::type_size`] for every format but Q6_K, which is
    /// padded from 210 to 224. A 16-byte load has to be 16-byte aligned and 210
    /// is not a multiple of 16, so consecutive blocks in the file land at every
    /// alignment in turn. 224 is the next multiple of 16.
    pub fn device_stride(self) -> (n: usize)
        ensures
            n == self.spec_device_stride(),
    {
        match self {
            Quant::Q6K => 224,
            _ => self.type_size(),
        }
    }

    /// Bytes a tensor of `elements` occupies in this format.
    ///
    /// Only whole blocks are counted.
    pub fn bytes(self, elements: usize) -> (n: usize)
        requires
            elements as int / self.spec_block_size() * self.spec_type_size() <= usize::MAX,
        ensures
            n == elements as int / self.spec_block_size() * self.spec_type_size(),
    {
        elements / self.block_size() * self.type_size()
    }
}

/// A format is told by its id: no two share one.
pub proof fn id_is_injective(a: Quant, b: Quant)
    requires
        a.spec_id() == b.spec_id(),
    ensures
        a == b,
{
}

/// Two tensors of whole blocks take the bytes of the two together.
pub proof fn bytes_is_additive(q: Quant, a: int, b: int)
    requires
        0 <= a,
        0 <= b,
        a % q.spec_block_size() == 0,
    ensures
        (a + b) / q.spec_block_size() * q.spec_type_size() == a / q.spec_block_size()
            * q.spec_type_size() + b / q.spec_block_size() * q.spec_type_size(),
{
    let bs = q.spec_block_size();
    let ts = q.spec_type_size();
    assert((a + b) / bs == a / bs + b / bs);
    vstd::arithmetic::mul::lemma_mul_is_distributive_add_other_way(ts, a / bs, b / bs);
}

/// A device block has room for the file's, and only Q6_K's is longer; it then
/// ends on a 16-byte boundary.
pub proof fn device_stride_fits(q: Quant)
    ensures
        q.spec_device_stride() >= q.spec_type_size(),
        q.spec_device_stride() != q.spec_type_size() <==> q == Quant::Q6K,
        q.spec_device_stride() != q.spec_type_size() ==> q.spec_device_stride() % 16 == 0
            && q.spec_device_stride() - q.spec_type_size() < 16,
{
}

/// What a block of each format holds: the bits of an element, the bytes of the small scales and
/// minimums, and the half-precision numbers over them.
pub open spec fn parts_of(q: Quant) -> (int, int, int) {
    match q {
        Quant::Q4_0 => (4, 0, 1),
        Quant::Q4_1 => (4, 0, 2),
        Quant::Q5_0 => (5, 0, 1),
        Quant::Q5_1 => (5, 0, 2),
        Quant::Q8_0 => (8, 0, 1),
        Quant::Q2K => (2, 16, 2),
        Quant::Q3K => (3, 12, 1),
        Quant::Q4K => (4, 12, 2),
        Quant::Q5K => (5, 12, 2),
        Quant::Q6K => (6, 16, 1),
    }
}

/// A block is its elements' bits, its small scales and its halves, with nothing between.
pub proof fn a_block_is_the_sum_of_its_parts(q: Quant)
    ensures
        ({
            let (bits, scales, halves) = parts_of(q);
            q.spec_type_size() == q.spec_block_size() * bits / 8 + scales + 2 * halves
        }),
{
}

} // verus!
