//! Packed weights on their way to the device.

use crate::error::CudaError;
use crate::quant::Quant;
use crate::queue::Gpu;
use vstd::prelude::*;

verus! {

/// The bytes of a packed tensor in the device's layout: the file's own, or new
/// ones where the two differ.
#[derive(Debug, PartialEq, Eq)]
pub enum Packed<'a> {
    /// The file's bytes are the device's.
    AsIs(&'a [u8]),
    /// The blocks were re-strided and re-packed.
    Repacked(Vec<u8>),
}

impl<'a> View for Packed<'a> {
    type V = Seq<u8>;

    open spec fn view(&self) -> Seq<u8> {
        match self {
            Packed::AsIs(b) => b@,
            Packed::Repacked(v) => v@,
        }
    }
}

impl<'a> Packed<'a> {
    /// The bytes to copy to the device.
    pub fn bytes(&self) -> (b: &[u8])
        ensures
            b@ == self@,
    {
        match self {
            Packed::AsIs(b) => b,
            Packed::Repacked(v) => v.as_slice(),
        }
    }
}

/// The low four bits of element `e` of a Q6_K block as the file has them: a
/// byte's nibbles are 64 elements apart.
pub open spec fn file_low(block: Seq<u8>, e: int) -> u8 {
    (block[(e / 128) * 64 + e % 64] >> ((4 * ((e / 64) % 2)) as u8)) & 0x0F
}

/// Its high two bits: a byte's four fields are 32 elements apart.
pub open spec fn file_high(block: Seq<u8>, e: int) -> u8 {
    (block[128 + (e / 128) * 32 + e % 32] >> ((2 * ((e / 32) % 4)) as u8)) & 0x03
}

/// The low four bits of element `e` as the device has them: a byte's nibbles
/// are 32 elements apart.
pub open spec fn device_low(block: Seq<u8>, e: int) -> u8 {
    let (p, r) = (e / 64, e % 64);
    (block[p * 32 + r % 32] >> ((4 * (r / 32)) as u8)) & 0x0F
}

/// Its high two bits: one 16-element run to a word, element `i` of it at bits
/// `8 * (i % 4) + 2 * (i / 4)`.
pub open spec fn device_high(block: Seq<u8>, e: int) -> u8 {
    let (p, r) = (e / 64, e % 64);
    let (s, h, i) = (r / 32, (r / 16) % 2, r % 16);
    (block[128 + p * 16 + h * 8 + s * 4 + i % 4] >> ((2 * (i / 4)) as u8)) & 0x03
}

/// A device block holds a file block: the same bits for each of the 256
/// elements, the same scales at the same place, and a tail of zeros.
pub open spec fn holds_q6k(file: Seq<u8>, device: Seq<u8>) -> bool {
    &&& device.len() == 224
    &&& forall|e: int| 0 <= e < 256 ==> #[trigger] device_low(device, e) == file_low(file, e)
    &&& forall|e: int| 0 <= e < 256 ==> #[trigger] device_high(device, e) == file_high(file, e)
    &&& forall|i: int| 192 <= i < 210 ==> #[trigger] device[i] == file[i]
    &&& forall|i: int| 210 <= i < 224 ==> #[trigger] device[i] == 0
}

/// Block `b` of a tensor of blocks of `size` bytes.
pub open spec fn block_of(bytes: Seq<u8>, b: int, size: int) -> Seq<u8> {
    bytes.subrange(b * size, (b + 1) * size)
}

/// A device tensor holds a file's tensor, block for block.
pub open spec fn holds_blocks(file: Seq<u8>, device: Seq<u8>) -> bool {
    let n = file.len() as int / 210;
    &&& device.len() == n * 224
    &&& forall|b: int|
        0 <= b < n ==> holds_q6k(block_of(file, b, 210), #[trigger] block_of(device, b, 224))
}

/// The device byte that holds two low nibbles, 32 elements apart.
spec fn low_byte(file: Seq<u8>, i: int) -> u8 {
    let e = 64 * (i / 32) + i % 32;
    file_low(file, e) | (file_low(file, e + 32) << 4)
}

/// The device byte that holds four high fields of one 16-element run.
spec fn high_byte(file: Seq<u8>, i: int) -> u8 {
    let e = 64 * (i / 16) + 32 * ((i / 4) % 2) + 16 * ((i / 8) % 2) + i % 4;
    file_high(file, e) | (file_high(file, e + 4) << 2) | (file_high(file, e + 8) << 4) | (
    file_high(file, e + 12) << 6)
}

/// Byte `i` of a block on the device.
spec fn device_byte(file: Seq<u8>, i: int) -> u8 {
    if i < 128 {
        low_byte(file, i)
    } else if i < 192 {
        high_byte(file, i - 128)
    } else if i < 210 {
        file[i]
    } else {
        0
    }
}

proof fn lemma_two_nibbles(x: u8, y: u8)
    requires
        x < 16,
        y < 16,
    ensures
        ((x | (y << 4)) >> 0u8) & 0x0F == x,
        ((x | (y << 4)) >> 4u8) & 0x0F == y,
{
    assert(((x | (y << 4)) >> 0u8) & 0x0F == x && ((x | (y << 4)) >> 4u8) & 0x0F == y)
        by (bit_vector)
        requires
            x < 16,
            y < 16,
    ;
}

proof fn lemma_four_fields(a: u8, b: u8, c: u8, d: u8)
    requires
        a < 4,
        b < 4,
        c < 4,
        d < 4,
    ensures
        ((a | (b << 2) | (c << 4) | (d << 6)) >> 0u8) & 0x03 == a,
        ((a | (b << 2) | (c << 4) | (d << 6)) >> 2u8) & 0x03 == b,
        ((a | (b << 2) | (c << 4) | (d << 6)) >> 4u8) & 0x03 == c,
        ((a | (b << 2) | (c << 4) | (d << 6)) >> 6u8) & 0x03 == d,
{
    assert(((a | (b << 2) | (c << 4) | (d << 6)) >> 0u8) & 0x03 == a && ((a | (b << 2) | (c << 4)
        | (d << 6)) >> 2u8) & 0x03 == b && ((a | (b << 2) | (c << 4) | (d << 6)) >> 4u8) & 0x03
        == c && ((a | (b << 2) | (c << 4) | (d << 6)) >> 6u8) & 0x03 == d) by (bit_vector)
        requires
            a < 4,
            b < 4,
            c < 4,
            d < 4,
    ;
}

proof fn lemma_fields_are_small(x: u8, sh: u8)
    ensures
        (x >> sh) & 0x0F < 16,
        (x >> sh) & 0x03 < 4,
{
    let y = x >> sh;
    assert(y & 0x0F < 16 && y & 0x03 < 4) by (bit_vector);
}

proof fn lemma_low_decodes(file: Seq<u8>, device: Seq<u8>, e: int)
    requires
        0 <= e < 256,
        device.len() == 224,
        forall|i: int| 0 <= i < 224 ==> #[trigger] device[i] == device_byte(file, i),
    ensures
        device_low(device, e) == file_low(file, e),
{
    let (p, r) = (e / 64, e % 64);
    let i = p * 32 + r % 32;
    let base = 64 * (i / 32) + i % 32;
    assert(i / 32 == p && i % 32 == r % 32);
    assert(device[i] == low_byte(file, i));
    lemma_fields_are_small(
        file[(base / 128) * 64 + base % 64],
        (4 * ((base / 64) % 2)) as u8,
    );
    let up = base + 32;
    lemma_fields_are_small(file[(up / 128) * 64 + up % 64], (4 * ((up / 64) % 2)) as u8);
    lemma_two_nibbles(file_low(file, base), file_low(file, up));
    if r / 32 == 0 {
        assert(base == e);
    } else {
        assert(up == e);
    }
}

proof fn lemma_high_decodes(file: Seq<u8>, device: Seq<u8>, e: int)
    requires
        0 <= e < 256,
        device.len() == 224,
        forall|i: int| 0 <= i < 224 ==> #[trigger] device[i] == device_byte(file, i),
    ensures
        device_high(device, e) == file_high(file, e),
{
    let (p, r) = (e / 64, e % 64);
    let (s, h, q) = (r / 32, (r / 16) % 2, r % 16);
    let i = p * 16 + h * 8 + s * 4 + q % 4;
    assert(i / 16 == p && (i / 8) % 2 == h && (i / 4) % 2 == s && i % 4 == q % 4);
    let e0 = 64 * p + 32 * s + 16 * h + q % 4;
    assert(device[128 + i] == high_byte(file, i));
    lemma_high_is_small(file, e0);
    lemma_high_is_small(file, e0 + 4);
    lemma_high_is_small(file, e0 + 8);
    lemma_high_is_small(file, e0 + 12);
    lemma_four_fields(
        file_high(file, e0),
        file_high(file, e0 + 4),
        file_high(file, e0 + 8),
        file_high(file, e0 + 12),
    );
    assert(e == e0 + 4 * (q / 4));
    assert(q / 4 == 0 || q / 4 == 1 || q / 4 == 2 || q / 4 == 3);
}

proof fn lemma_high_is_small(file: Seq<u8>, e: int)
    ensures
        file_high(file, e) < 4,
{
    lemma_fields_are_small(
        file[128 + (e / 128) * 32 + e % 32],
        (2 * ((e / 32) % 4)) as u8,
    );
}

proof fn lemma_packed_block_holds(file: Seq<u8>, device: Seq<u8>)
    requires
        device.len() == 224,
        forall|i: int| 0 <= i < 224 ==> #[trigger] device[i] == device_byte(file, i),
    ensures
        holds_q6k(file, device),
{
    assert forall|e: int| 0 <= e < 256 implies #[trigger] device_low(device, e) == file_low(
        file,
        e,
    ) by {
        lemma_low_decodes(file, device, e);
    }
    assert forall|e: int| 0 <= e < 256 implies #[trigger] device_high(device, e) == file_high(
        file,
        e,
    ) by {
        lemma_high_decodes(file, device, e);
    }
}

proof fn lemma_byte_of_nibbles(x: u8, y: u8)
    requires
        (x >> 0u8) & 0x0F == (y >> 0u8) & 0x0F,
        (x >> 4u8) & 0x0F == (y >> 4u8) & 0x0F,
    ensures
        x == y,
{
    assert(x == y) by (bit_vector)
        requires
            (x >> 0u8) & 0x0F == (y >> 0u8) & 0x0F,
            (x >> 4u8) & 0x0F == (y >> 4u8) & 0x0F,
    ;
}

proof fn lemma_byte_of_fields(x: u8, y: u8)
    requires
        (x >> 0u8) & 0x03 == (y >> 0u8) & 0x03,
        (x >> 2u8) & 0x03 == (y >> 2u8) & 0x03,
        (x >> 4u8) & 0x03 == (y >> 4u8) & 0x03,
        (x >> 6u8) & 0x03 == (y >> 6u8) & 0x03,
    ensures
        x == y,
{
    assert(x == y) by (bit_vector)
        requires
            (x >> 0u8) & 0x03 == (y >> 0u8) & 0x03,
            (x >> 2u8) & 0x03 == (y >> 2u8) & 0x03,
            (x >> 4u8) & 0x03 == (y >> 4u8) & 0x03,
            (x >> 6u8) & 0x03 == (y >> 6u8) & 0x03,
    ;
}

/// Re-packing loses nothing: two file blocks that one device block holds are
/// the same block.
pub proof fn repacking_loses_nothing(a: Seq<u8>, b: Seq<u8>, device: Seq<u8>)
    requires
        a.len() == 210,
        b.len() == 210,
        holds_q6k(a, device),
        holds_q6k(b, device),
    ensures
        a == b,
{
    assert forall|i: int| 0 <= i < 210 implies a[i] == b[i] by {
        if i < 128 {
            let e = (i / 64) * 128 + i % 64;
            assert(device_low(device, e) == file_low(a, e));
            assert(device_low(device, e) == file_low(b, e));
            assert(device_low(device, e + 64) == file_low(a, e + 64));
            assert(device_low(device, e + 64) == file_low(b, e + 64));
            assert(e / 128 == i / 64 && e % 64 == i % 64 && (e / 64) % 2 == 0);
            assert((e + 64) / 128 == i / 64 && (e + 64) % 64 == i % 64 && ((e + 64) / 64) % 2
                == 1);
            lemma_byte_of_nibbles(a[i], b[i]);
        } else if i < 192 {
            let k = i - 128;
            let e = (k / 32) * 128 + k % 32;
            assert forall|f: int| 0 <= f < 4 implies #[trigger] file_high(a, e + 32 * f)
                == file_high(b, e + 32 * f) by {
                assert(device_high(device, e + 32 * f) == file_high(a, e + 32 * f));
                assert(device_high(device, e + 32 * f) == file_high(b, e + 32 * f));
            }
            assert(file_high(a, e + 32 * 0) == file_high(b, e + 32 * 0));
            assert(file_high(a, e + 32 * 1) == file_high(b, e + 32 * 1));
            assert(file_high(a, e + 32 * 2) == file_high(b, e + 32 * 2));
            assert(file_high(a, e + 32 * 3) == file_high(b, e + 32 * 3));
            assert(e / 128 == k / 32 && e % 32 == k % 32 && (e / 32) % 4 == 0);
            assert((e + 32) / 128 == k / 32 && (e + 32) % 32 == k % 32 && ((e + 32) / 32) % 4
                == 1);
            assert((e + 64) / 128 == k / 32 && (e + 64) % 32 == k % 32 && ((e + 64) / 32) % 4
                == 2);
            assert((e + 96) / 128 == k / 32 && (e + 96) % 32 == k % 32 && ((e + 96) / 32) % 4
                == 3);
            lemma_byte_of_fields(a[i], b[i]);
        } else {
            assert(device[i] == a[i]);
            assert(device[i] == b[i]);
        }
    }
    assert(a =~= b);
}

/// A file block has one device block: two that hold it are the same bytes.
pub proof fn repacking_is_one_way(file: Seq<u8>, x: Seq<u8>, y: Seq<u8>)
    requires
        holds_q6k(file, x),
        holds_q6k(file, y),
    ensures
        x == y,
{
    assert forall|i: int| 0 <= i < 224 implies x[i] == y[i] by {
        if i < 128 {
            let e = 64 * (i / 32) + i % 32;
            assert(device_low(x, e) == file_low(file, e));
            assert(device_low(y, e) == file_low(file, e));
            assert(device_low(x, e + 32) == file_low(file, e + 32));
            assert(device_low(y, e + 32) == file_low(file, e + 32));
            assert(e / 64 == i / 32 && e % 64 == i % 32);
            assert((e + 32) / 64 == i / 32 && (e + 32) % 64 == i % 32 + 32);
            lemma_byte_of_nibbles(x[i], y[i]);
        } else if i < 192 {
            let k = i - 128;
            let e = 64 * (k / 16) + 32 * ((k / 4) % 2) + 16 * ((k / 8) % 2) + k % 4;
            assert forall|f: int| 0 <= f < 4 implies #[trigger] device_high(x, e + 4 * f)
                == device_high(y, e + 4 * f) by {
                assert(device_high(x, e + 4 * f) == file_high(file, e + 4 * f));
                assert(device_high(y, e + 4 * f) == file_high(file, e + 4 * f));
            }
            lemma_high_place(k, 0);
            lemma_high_place(k, 1);
            lemma_high_place(k, 2);
            lemma_high_place(k, 3);
            assert(device_high(x, e + 4 * 0) == device_high(y, e + 4 * 0));
            assert(device_high(x, e + 4 * 1) == device_high(y, e + 4 * 1));
            assert(device_high(x, e + 4 * 2) == device_high(y, e + 4 * 2));
            assert(device_high(x, e + 4 * 3) == device_high(y, e + 4 * 3));
            lemma_byte_of_fields(x[i], y[i]);
        } else if i < 210 {
            assert(x[i] == file[i]);
            assert(y[i] == file[i]);
        } else {
            assert(x[i] == 0);
            assert(y[i] == 0);
        }
    }
    assert(x =~= y);
}

proof fn lemma_high_place(k: int, f: int)
    requires
        0 <= k < 64,
        0 <= f < 4,
    ensures
        ({
            let e = 64 * (k / 16) + 32 * ((k / 4) % 2) + 16 * ((k / 8) % 2) + k % 4 + 4 * f;
            let (p, r) = (e / 64, e % 64);
            let (s, h, i) = (r / 32, (r / 16) % 2, r % 16);
            &&& 0 <= e < 256
            &&& p * 16 + h * 8 + s * 4 + i % 4 == k
            &&& i / 4 == f
        }),
{
    let (a, b, c, d) = (k / 16, (k / 8) % 2, (k / 4) % 2, k % 4);
    assert(k == 16 * a + 8 * b + 4 * c + d);
    let q = d + 4 * f;
    let r = 32 * c + 16 * b + q;
    let e = 64 * a + r;
    assert(0 <= q < 16 && q % 4 == d && q / 4 == f);
    assert(0 <= r < 64 && r / 32 == c && r % 16 == q && r / 16 == 2 * c + b);
    assert((2 * c + b) % 2 == b);
    assert(e / 64 == a && e % 64 == r);
}

impl Gpu {
    /// Packed blocks at [`Quant::device_stride`], ready to be copied over.
    ///
    /// The path every model loader takes. For all but Q6_K the bytes are the
    /// file's, with a length check; for Q6_K the blocks are re-strided *and*
    /// re-packed on the way, which is why the check is a rejection: bytes that
    /// are not a whole number of blocks would be rebuilt into garbage that
    /// still decodes to plausible numbers.
    pub fn upload_quant(q: Quant, bytes: &[u8]) -> (r: Result<Packed<'_>, CudaError>)
        ensures
            bytes@.len() as int % q.spec_type_size() != 0 ==> r == Err::<Packed<'_>, CudaError>(
                CudaError::RaggedBlockBytes {
                    len: bytes@.len() as usize,
                    ty: q.spec_type_size() as usize,
                },
            ),
            bytes@.len() as int % q.spec_type_size() == 0 && q != Quant::Q6K ==> r == Ok::<
                Packed<'_>,
                CudaError,
            >(Packed::AsIs(bytes)),
            bytes@.len() as int % q.spec_type_size() == 0 && q == Quant::Q6K ==> r is Ok
                && r->Ok_0 is Repacked && holds_blocks(bytes@, r->Ok_0@),
    {
        let ts: usize = q.type_size();
        if bytes.len() % ts != 0 {
            return Err(CudaError::RaggedBlockBytes { len: bytes.len(), ty: ts });
        }
        if q.device_stride() == ts {
            return Ok(Packed::AsIs(bytes));
        }
        let blocks: usize = bytes.len() / ts;
        let mut wide: Vec<u8> = Vec::new();
        let mut b: usize = 0;
        while b < blocks
            invariant
                b <= blocks,
                blocks * 210 == bytes@.len(),
                wide@.len() == b * 224,
                forall|i: int|
                    0 <= i < b ==> holds_q6k(
                        block_of(bytes@, i, 210),
                        #[trigger] block_of(wide@, i, 224),
                    ),
            decreases blocks - b,
        {
            let ghost before = wide@;
            assert(bytes.len() == bytes@.len());
            Gpu::q6k_device_block(bytes, b * 210, &mut wide);
            proof {
                assert forall|i: int| 0 <= i < b + 1 implies holds_q6k(
                    block_of(bytes@, i, 210),
                    #[trigger] block_of(wide@, i, 224),
                ) by {
                    if i < b {
                        assert(block_of(wide@, i, 224) =~= block_of(before, i, 224));
                    } else {
                        assert(block_of(wide@, i, 224) =~= wide@.subrange(
                            before.len() as int,
                            before.len() as int + 224,
                        ));
                        assert(block_of(bytes@, i, 210) =~= bytes@.subrange(
                            b * 210,
                            b * 210 + 210,
                        ));
                    }
                }
            }
            b = b + 1;
        }
        Ok(Packed::Repacked(wide))
    }

    /// One Q6_K block, file layout to device layout, appended to `wide`.
    ///
    /// The file pairs a byte's nibbles 64 elements apart and scatters a byte's
    /// four high fields 32 apart, which makes every kernel that stages a *run*
    /// of elements fetch twice the bytes it decodes. The device block pairs
    /// nibbles 32 apart - elements `j` and `j + 32` in one byte - and packs the
    /// 2-bit high fields one 16-element run to a word, so a staged run is one
    /// aligned read per operand and every fetched byte is used. Scales and `d`
    /// keep their offsets; the tail of the 224 pads.
    fn q6k_device_block(src: &[u8], at: usize, wide: &mut Vec<u8>)
        requires
            at + 210 <= src@.len(),
        ensures
            final(wide)@.len() == old(wide)@.len() + 224,
            final(wide)@.subrange(0, old(wide)@.len() as int) == old(wide)@,
            holds_q6k(
                src@.subrange(at as int, at + 210),
                final(wide)@.subrange(old(wide)@.len() as int, old(wide)@.len() as int + 224),
            ),
    {
        let ghost file = src@.subrange(at as int, at + 210);
        let ghost before = wide@;
        let ghost n = wide@.len() as int;
        let mut i: usize = 0;
        while i < 128
            invariant
                i <= 128,
                at + 210 <= src@.len(),
                file == src@.subrange(at as int, at + 210),
                n == before.len(),
                wide@.len() == n + i,
                forall|j: int| 0 <= j < n ==> wide@[j] == before[j],
                forall|j: int| 0 <= j < i ==> #[trigger] wide@[n + j] == device_byte(file, j),
            decreases 128 - i,
        {
            let e: usize = 64 * (i / 32) + i % 32;
            let byte: u8 = Gpu::q6k_low(src, at, e) | (Gpu::q6k_low(src, at, e + 32) << 4);
            wide.push(byte);
            i = i + 1;
        }
        let mut k: usize = 0;
        while k < 64
            invariant
                k <= 64,
                at + 210 <= src@.len(),
                file == src@.subrange(at as int, at + 210),
                n == before.len(),
                wide@.len() == n + 128 + k,
                forall|j: int| 0 <= j < n ==> wide@[j] == before[j],
                forall|j: int| 0 <= j < 128 + k ==> #[trigger] wide@[n + j] == device_byte(file, j),
            decreases 64 - k,
        {
            let e: usize = 64 * (k / 16) + 32 * ((k / 4) % 2) + 16 * ((k / 8) % 2) + k % 4;
            let byte: u8 = Gpu::q6k_high(src, at, e) | (Gpu::q6k_high(src, at, e + 4) << 2) | (
            Gpu::q6k_high(src, at, e + 8) << 4) | (Gpu::q6k_high(src, at, e + 12) << 6);
            wide.push(byte);
            k = k + 1;
        }
        let mut s: usize = 192;
        while s < 224
            invariant
                192 <= s <= 224,
                at + 210 <= src@.len(),
                file == src@.subrange(at as int, at + 210),
                n == before.len(),
                wide@.len() == n + s,
                forall|j: int| 0 <= j < n ==> wide@[j] == before[j],
                forall|j: int| 0 <= j < s ==> #[trigger] wide@[n + j] == device_byte(file, j),
            decreases 224 - s,
        {
            assert(src.len() == src@.len());
            if s < 210 {
                wide.push(src[at + s]);
            } else {
                wide.push(0);
            }
            s = s + 1;
        }
        proof {
            let device = wide@.subrange(n, n + 224);
            assert forall|j: int| 0 <= j < 224 implies #[trigger] device[j] == device_byte(
                file,
                j,
            ) by {
                assert(device[j] == wide@[n + j]);
            }
            lemma_packed_block_holds(file, device);
            assert(wide@.subrange(0, n) =~= before);
        }
    }

    fn q6k_low(src: &[u8], at: usize, e: usize) -> (bits: u8)
        requires
            at + 210 <= src@.len(),
            e < 256,
        ensures
            bits == file_low(src@.subrange(at as int, at + 210), e as int),
    {
        assert(src.len() == src@.len());
        let sh: u8 = (4 * ((e / 64) % 2)) as u8;
        (src[at + (e / 128) * 64 + e % 64] >> sh) & 0x0F
    }

    fn q6k_high(src: &[u8], at: usize, e: usize) -> (bits: u8)
        requires
            at + 210 <= src@.len(),
            e < 256,
        ensures
            bits == file_high(src@.subrange(at as int, at + 210), e as int),
    {
        assert(src.len() == src@.len());
        let sh: u8 = (2 * ((e / 32) % 4)) as u8;
        (src[at + 128 + (e / 128) * 32 + e % 32] >> sh) & 0x03
    }
}

/// A Q6_K block of a file, as its format has it: in each half of 128 elements, 64 bytes of low
/// nibbles and 32 bytes of high pairs, which run over the half's four quarters.
pub proof fn a_file_block_is_read_as_its_format_has_it(block: Seq<u8>, half: int, l: int)
    requires
        0 <= half < 2,
        0 <= l < 32,
    ensures
        ({
            let (e, low, high) = (128 * half + l, 64 * half + l, 128 + 32 * half + l);
            &&& file_low(block, e) == block[low] & 0x0F
            &&& file_low(block, e + 32) == block[low + 32] & 0x0F
            &&& file_low(block, e + 64) == block[low] >> 4u8
            &&& file_low(block, e + 96) == block[low + 32] >> 4u8
            &&& file_high(block, e) == block[high] & 0x03
            &&& file_high(block, e + 32) == (block[high] >> 2u8) & 0x03
            &&& file_high(block, e + 64) == (block[high] >> 4u8) & 0x03
            &&& file_high(block, e + 96) == block[high] >> 6u8
        }),
{
    let e = 128 * half + l;
    assert(e / 128 == half && (e + 32) / 128 == half && (e + 64) / 128 == half && (e + 96) / 128
        == half);
    assert(e % 64 == l && (e + 32) % 64 == l + 32 && (e + 64) % 64 == l && (e + 96) % 64 == l + 32);
    assert((e / 64) % 2 == 0 && ((e + 32) / 64) % 2 == 0 && ((e + 64) / 64) % 2 == 1 && ((e + 96)
        / 64) % 2 == 1);
    assert(e % 32 == l && (e + 32) % 32 == l && (e + 64) % 32 == l && (e + 96) % 32 == l);
    assert((e / 32) % 4 == 0 && ((e + 32) / 32) % 4 == 1 && ((e + 64) / 32) % 4 == 2 && ((e + 96)
        / 32) % 4 == 3);
    lemma_top_fields(block[64 * half + l]);
    lemma_top_fields(block[64 * half + l + 32]);
    lemma_top_fields(block[128 + 32 * half + l]);
}

proof fn lemma_top_fields(x: u8)
    ensures
        x >> 0u8 == x,
        (x >> 4u8) & 0x0F == x >> 4u8,
        (x >> 6u8) & 0x03 == x >> 6u8,
{
    assert(x >> 0u8 == x && (x >> 4u8) & 0x0F == x >> 4u8 && (x >> 6u8) & 0x03 == x >> 6u8)
        by (bit_vector);
}

/// A Q6_K block on the device, as its kernels read it: a run of 64 elements has 32 bytes, whose
/// low nibbles are its first half and whose high nibbles are its second, and each 16 of it have
/// a word of high pairs, element `i` in byte `i % 4` of it.
pub proof fn a_device_block_is_read_as_its_kernels_do(
    block: Seq<u8>,
    run: int,
    j: int,
    sixteen: int,
    i: int,
)
    requires
        0 <= run < 4,
        0 <= j < 32,
        0 <= sixteen < 4,
        0 <= i < 16,
    ensures
        device_low(block, 64 * run + j) == block[32 * run + j] & 0x0F,
        device_low(block, 64 * run + 32 + j) == block[32 * run + j] >> 4u8,
        ({
            let word = 128 + 16 * run + 8 * (sixteen % 2) + 4 * (sixteen / 2);
            device_high(block, 64 * run + 16 * sixteen + i) == (block[word + i % 4] >> ((2 * (i
                / 4)) as u8)) & 0x03
        }),
{
    let (a, b, e) = (64 * run + j, 64 * run + 32 + j, 64 * run + 16 * sixteen + i);
    assert(a / 64 == run && a % 64 == j && b / 64 == run && b % 64 == 32 + j);
    assert(j / 32 == 0 && j % 32 == j && (32 + j) / 32 == 1 && (32 + j) % 32 == j);
    lemma_top_fields(block[32 * run + j]);
    let r = 16 * sixteen + i;
    assert(e / 64 == run && e % 64 == r);
    assert(r / 32 == sixteen / 2 && (r / 16) % 2 == sixteen % 2 && r % 16 == i);
}

} // verus!
