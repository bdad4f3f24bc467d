use xabe_cuda::{
    Arg, BufferId, Command, CudaError, CudaSlice, DecodeScratch, DevicePtr, Elem, FloatBits, Fp32,
    Gpu, Kernel, KvCache, Launch, Q8,
};

fn given<T>(i: usize, len: usize) -> CudaSlice<T> {
    CudaSlice::new(BufferId::Given(i), len)
}

fn g(i: usize) -> Arg {
    Arg::Ptr(DevicePtr { id: BufferId::Given(i), offset: 0 })
}

fn made(i: usize) -> Arg {
    Arg::Ptr(DevicePtr { id: BufferId::Made(i), offset: 0 })
}

fn n(v: i32) -> Arg {
    Arg::I32(v)
}

const SCALE: FloatBits = FloatBits(0x3db5_04f3);

fn last(gpu: &Gpu) -> &Launch {
    match gpu.commands.last() {
        Some(Command::Launch(l)) => l,
        other => panic!("{other:?}"),
    }
}

fn caches(heads: usize, cap: usize, hd: usize) -> (CudaSlice<u16>, CudaSlice<u16>) {
    (given(1, heads * cap * hd), given(2, heads * cap * hd))
}

#[test]
fn one_row_attends_in_one_launch() {
    let q: CudaSlice<Fp32> = given(0, 32 * 128);
    let (k, v) = caches(8, 512, 128);
    let mut gpu = Gpu::new();
    let mut s = DecodeScratch::new();
    let out = gpu
        .attn_decode_f16(&q, &k, &v, 32, 8, 128, 300, 512, SCALE, false, &mut s)
        .unwrap();
    assert_eq!((out.id, out.len), (BufferId::Made(0), 4096));
    // Five chunks of 64: room for eight, a maximum, a sum and a context each,
    // for four query rows.
    assert_eq!(
        gpu.commands[..3],
        [
            Command::Alloc { elem: Elem::F32, len: 4096, zeroed: false },
            Command::Alloc { elem: Elem::U32, len: 8, zeroed: true },
            Command::Alloc { elem: Elem::F32, len: 8 * 8 * 4 * 130, zeroed: false },
        ]
    );
    let run = last(&gpu);
    assert_eq!(run.kernel, Kernel::AttnDecodeH128);
    assert_eq!(
        run.args,
        vec![
            g(0), g(1), g(2), made(0), made(2), made(1),
            n(300), n(4), n(512), Arg::Float(SCALE), n(0), n(5),
            Arg::Null, n(0), Arg::I64(0), Arg::I64(0),
        ]
    );
    assert_eq!(run.cfg.grid_dim, (5, 8, 1));
    assert_eq!(run.cfg.block_dim, (128, 1, 1));
    assert_eq!((s.kv_heads, s.head_dim, s.chunks), (8, 128, 8));
}

#[test]
fn the_kernel_is_chosen_by_width_and_context() {
    let name = |h, kv, hd, tk| Gpu::attn_decode_f16_name(h, kv, hd, tk, 4096);
    assert_eq!(name(32, 8, 128, 256), Ok(Kernel::AttnDecodeH128C32));
    assert_eq!(name(32, 8, 128, 257), Ok(Kernel::AttnDecodeH128));
    assert_eq!(name(32, 8, 128, 2047), Ok(Kernel::AttnDecodeH128));
    assert_eq!(name(32, 8, 128, 2048), Ok(Kernel::AttnDecodeH128C128));
    assert_eq!(name(40, 40, 128, 4000), Ok(Kernel::AttnDecodeH128C32));
    assert_eq!(name(20, 20, 64, 10), Ok(Kernel::AttnDecodeH64));
    assert_eq!(name(14, 2, 64, 1024), Ok(Kernel::AttnDecodeH64G8C32));
    assert_eq!(name(14, 2, 64, 1025), Ok(Kernel::AttnDecodeH64G8));
    assert_eq!(name(5, 0, 64, 1025), Ok(Kernel::AttnDecodeH64G8));
    assert_eq!(
        name(8, 8, 96, 10),
        Err(CudaError::UnsupportedAttention { head_dim: 96, heads: 8, kv_heads: 8 })
    );
    assert_eq!(
        Gpu::attn_decode_f16_name(8, 8, 96, 10, 7),
        Err(CudaError::OddCacheCapacity { cap: 7 })
    );
}

#[test]
fn chunks_are_as_wide_as_the_kernel_says() {
    for (heads, kv, hd, tk, chunks) in [
        (32usize, 8usize, 128usize, 65usize, 3),
        (32, 8, 128, 300, 5),
        (32, 8, 128, 2049, 17),
        (14, 2, 64, 100, 4),
        (14, 2, 64, 2000, 32),
    ] {
        let q: CudaSlice<Fp32> = given(0, heads * hd);
        let (k, v) = caches(kv, 4096, hd);
        let mut gpu = Gpu::new();
        let mut s = DecodeScratch::new();
        gpu.attn_decode_f16(&q, &k, &v, heads, kv, hd, tk, 4096, SCALE, true, &mut s).unwrap();
        assert_eq!(last(&gpu).args[11], n(chunks));
        assert_eq!(last(&gpu).cfg.grid_dim, (chunks as u32, kv as u32, 1));
        assert_eq!(last(&gpu).args[10], n(1));
    }
}

#[test]
fn the_scratch_doubles_and_then_stays() {
    let q: CudaSlice<Fp32> = given(0, 8 * 128);
    let (k, v) = caches(8, 4096, 128);
    let mut gpu = Gpu::new();
    let mut s = DecodeScratch::default();
    let mut step = |gpu: &mut Gpu, tk| {
        let was = gpu.commands.len();
        gpu.attn_decode_f16(&q, &k, &v, 8, 8, 128, tk, 4096, SCALE, false, &mut s).unwrap();
        (gpu.commands.len() - was - 2, s.chunks)
    };
    // A counter and partials, then nothing until the room runs out.
    assert_eq!(step(&mut gpu, 1), (2, 4));
    assert_eq!(step(&mut gpu, 128), (0, 4));
    assert_eq!(step(&mut gpu, 129), (1, 8));
    assert_eq!(step(&mut gpu, 256), (0, 8));
    assert_eq!(step(&mut gpu, 10), (0, 8));
    assert_eq!(step(&mut gpu, 257), (1, 16));
    assert_eq!(step(&mut gpu, 4096), (1, 128));
}

#[test]
fn another_geometry_starts_the_scratch_over() {
    let mut gpu = Gpu::new();
    let mut s = DecodeScratch::new();
    let q: CudaSlice<Fp32> = given(0, 8 * 128);
    let (k, v) = caches(8, 512, 128);
    gpu.attn_decode_f16(&q, &k, &v, 8, 8, 128, 500, 512, SCALE, false, &mut s).unwrap();
    assert_eq!(s.chunks, 16);
    let (k, v) = caches(4, 512, 128);
    let was = gpu.commands.len();
    gpu.attn_decode_f16(&q, &k, &v, 8, 4, 128, 10, 512, SCALE, false, &mut s).unwrap();
    assert_eq!((s.kv_heads, s.chunks), (4, 4));
    assert_eq!(
        gpu.commands[was + 1..was + 3],
        [
            Command::Alloc { elem: Elem::U32, len: 4, zeroed: true },
            Command::Alloc { elem: Elem::F32, len: 4 * 4 * 4 * 130, zeroed: false },
        ]
    );
}

#[test]
fn a_context_can_be_had_with_its_twin() {
    let q: CudaSlice<Fp32> = given(0, 32 * 128);
    let (k, v) = caches(8, 512, 128);
    let mut gpu = Gpu::new();
    let mut s = DecodeScratch::new();
    let (out, twin) = gpu
        .attn_decode_f16_q(&q, &k, &v, 32, 8, 128, 300, 512, SCALE, false, &mut s)
        .unwrap();
    assert_eq!(out.len, 4096);
    assert_eq!((twin.rows, twin.k, twin.buf.len), (1, 4096, 4096 + 512));
    assert_eq!(twin.buf.id, BufferId::Made(1));
    assert_eq!(&last(&gpu).args[12..14], &[made(1), n(4096)]);
}

#[test]
fn rows_of_a_batch_share_one_context_and_twin() {
    let (q, out): (CudaSlice<Fp32>, CudaSlice<Fp32>) = (given(0, 3 * 4096), given(3, 3 * 4096));
    let (k, v) = caches(8, 512, 128);
    let twin = Q8 { buf: given(4, 3 * 4096 + 3 * 512), rows: 3, k: 4096 };
    let mut gpu = Gpu::new();
    let mut s = DecodeScratch::new();
    gpu.attn_decode_f16_q_row(
        &q, 4096, &k, &v, 32, 8, 128, 300, 512, SCALE, false, &mut s, &out, &twin, 2,
    )
    .unwrap();
    let run = last(&gpu);
    assert_eq!(run.args[3], g(3));
    assert_eq!(
        &run.args[12..],
        &[g(4), n(3 * 4096), Arg::I64(4096), Arg::I64(8192)]
    );
    let was = gpu.commands.len();
    let r = gpu.attn_decode_f16_q_row(
        &q, 0, &k, &v, 32, 8, 128, 300, 512, SCALE, false, &mut s, &out, &twin, 3,
    );
    assert_eq!(r, Err(CudaError::SliceOverrun { at: 16384, len: 12288 }));
    let short = Q8 { buf: given(4, 2 * 4096 + 2 * 512), rows: 2, k: 4096 };
    let r = gpu.attn_decode_f16_q_row(
        &q, 0, &k, &v, 32, 8, 128, 300, 512, SCALE, false, &mut s, &out, &short, 2,
    );
    assert_eq!(
        r,
        Err(CudaError::MismatchedQ8 { rows: 2, k: 4096, want_rows: 3, want_k: 4096 })
    );
    assert_eq!(gpu.commands.len(), was);
}

#[test]
fn what_the_kernel_does_not_carry_is_refused() {
    let q: CudaSlice<Fp32> = given(0, 64 * 128);
    let (k, v) = caches(8, 512, 128);
    let mut gpu = Gpu::new();
    let mut s = DecodeScratch::new();
    let mut run = |heads, kv, tk, cap| {
        gpu.attn_decode_f16(&q, &k, &v, heads, kv, 128, tk, cap, SCALE, false, &mut s).err()
    };
    let group = |heads, kv_heads| {
        Some(CudaError::UnsupportedAttention { head_dim: 128, heads, kv_heads })
    };
    assert_eq!(run(40, 8, 10, 512), group(40, 8));
    assert_eq!(run(9, 8, 10, 512), group(9, 8));
    assert_eq!(run(8, 0, 10, 512), group(8, 0));
    assert_eq!(run(8, 8, 0, 512), Some(CudaError::CacheOverrun { at: 0, cap: 512 }));
    assert_eq!(run(8, 8, 513, 512), Some(CudaError::CacheOverrun { at: 513, cap: 512 }));
    assert_eq!(run(8, 8, 10, 510), Some(CudaError::OddCacheCapacity { cap: 510 }));
    assert_eq!(run(8, 8, 10, 511), Some(CudaError::OddCacheCapacity { cap: 511 }));
    assert_eq!(
        run(8, 8, 10, 516),
        Some(CudaError::SliceOverrun { at: 8 * 516 * 128, len: 8 * 512 * 128 })
    );
    // The one that is refused by its capacity's parity makes no output.
    let outputs = gpu.commands.len();
    assert_eq!(outputs, 7);
    assert!(s.part.is_none() && s.ctr.is_none());
}

#[test]
fn a_short_query_or_output_is_refused() {
    let (q, out): (CudaSlice<Fp32>, CudaSlice<Fp32>) = (given(0, 1024), given(3, 2048));
    let (k, v) = caches(8, 512, 128);
    let mut gpu = Gpu::new();
    let mut s = DecodeScratch::new();
    let mut run = |q_off, out_off| {
        gpu.attn_decode_launch(
            Kernel::AttnDecodeH128C32,
            &q,
            q_off,
            KvCache::F16(&k, &v),
            8,
            8,
            128,
            10,
            512,
            SCALE,
            false,
            &mut s,
            &out,
            out_off,
            None,
        )
    };
    assert_eq!(run(1, 0), Err(CudaError::SliceOverrun { at: 1025, len: 1024 }));
    assert_eq!(run(0, 1025), Err(CudaError::SliceOverrun { at: 2049, len: 2048 }));
    assert_eq!(run(0, 1000), Err(CudaError::RaggedBlock { k: 1000, block: 32 }));
    assert_eq!(run(0, 1024), Ok(()));
}

#[test]
fn the_full_precision_cache_is_read_at_sixty_four() {
    let q: CudaSlice<Fp32> = given(0, 20 * 64);
    let (k, v): (CudaSlice<Fp32>, CudaSlice<Fp32>) = (given(1, 20 * 64 * 448), given(2, 20 * 64 * 448));
    let mut gpu = Gpu::new();
    let mut s = DecodeScratch::new();
    gpu.attn_decode(&q, &k, &v, 20, 20, 64, 40, 448, SCALE, true, &mut s).unwrap();
    assert_eq!(last(&gpu).kernel, Kernel::AttnDecodeF64);
    assert_eq!(last(&gpu).cfg.block_dim, (64, 1, 1));
    assert_eq!(
        gpu.attn_decode(&q, &k, &v, 10, 10, 128, 40, 448, SCALE, true, &mut s).err(),
        Some(CudaError::UnsupportedAttention { head_dim: 128, heads: 10, kv_heads: 10 })
    );
    // Full precision keeps eight bytes with an even capacity, not a fourth one.
    assert_eq!(
        gpu.attn_decode(&q, &k, &v, 20, 20, 64, 40, 447, SCALE, true, &mut s).err(),
        Some(CudaError::OddCacheCapacity { cap: 447 })
    );
    assert!(gpu.attn_decode(&q, &k, &v, 20, 20, 64, 40, 446, SCALE, true, &mut s).is_ok());
}

#[test]
fn a_wider_group_on_the_same_scratch_gets_wider_partials() {
    let q: CudaSlice<Fp32> = given(0, 14 * 64);
    let (k, v) = caches(2, 96, 64);
    let mut gpu = Gpu::new();
    let mut s = DecodeScratch::new();
    // Two chunks of 64 with partials for four rows: room for four chunks.
    gpu.attn_decode_f16(&q, &k, &v, 2, 2, 64, 96, 96, SCALE, false, &mut s).unwrap();
    assert_eq!(s.part.as_ref().unwrap().len, 2 * 4 * 4 * 66);
    assert_eq!(s.chunks, 4);
    // Three chunks of 32 with partials for eight: as many chunks, but each of
    // them is twice as wide.
    let was = gpu.commands.len();
    gpu.attn_decode_f16(&q, &k, &v, 14, 2, 64, 96, 96, SCALE, false, &mut s).unwrap();
    assert_eq!(last(&gpu).kernel, Kernel::AttnDecodeH64G8C32);
    assert_eq!(
        gpu.commands[was + 1],
        Command::Alloc { elem: Elem::F32, len: 2 * 4 * 8 * 66, zeroed: false }
    );
    let part = s.part.as_ref().unwrap();
    assert_eq!((part.id, part.len, s.chunks), (BufferId::Made(was + 1), 4224, 4));
    assert!(part.len >= 2 * 3 * 8 * 66);
    // The counters are the ones there were, and both groups fit from here on.
    assert_eq!(&last(&gpu).args[4..6], &[made(was + 1), made(1)]);
    for heads in [2, 14, 2] {
        let was = gpu.commands.len();
        gpu.attn_decode_f16(&q, &k, &v, heads, 2, 64, 96, 96, SCALE, false, &mut s).unwrap();
        assert_eq!(gpu.commands.len(), was + 2);
    }
    assert_eq!(s.part.as_ref().unwrap().len, 4224);
}

#[test]
fn narrow_partials_never_cost_the_chunks_there_were() {
    let q: CudaSlice<Fp32> = given(0, 14 * 64);
    let (k, v) = caches(2, 1024, 64);
    let mut gpu = Gpu::new();
    let mut s = DecodeScratch::new();
    // Sixteen chunks of 64 for one row a head, then four of 32 for seven.
    gpu.attn_decode_f16(&q, &k, &v, 2, 2, 64, 1024, 1024, SCALE, false, &mut s).unwrap();
    assert_eq!((s.chunks, s.part.as_ref().unwrap().len), (16, 2 * 16 * 4 * 66));
    let was = gpu.commands.len();
    gpu.attn_decode_f16(&q, &k, &v, 14, 2, 64, 128, 1024, SCALE, false, &mut s).unwrap();
    assert_eq!((gpu.commands.len(), s.chunks), (was + 2, 16));
    gpu.attn_decode_f16(&q, &k, &v, 14, 2, 64, 288, 1024, SCALE, false, &mut s).unwrap();
    assert_eq!((s.chunks, s.part.as_ref().unwrap().len), (16, 2 * 16 * 8 * 66));
}

#[test]
fn a_scratch_says_whether_it_can_grow() {
    let s = DecodeScratch::new();
    assert!(s.can_grow(8, 128, 5, 520));
    assert!(!s.can_grow(8, 128, usize::MAX, 520));
    assert!(s.can_grow(8, 128, 1 << 60, 1));
    assert!(!s.can_grow(8, 128, 1 << 61, 1));
    assert!(s.can_grow(0, 128, 1 << 60, 520));
    assert!(!s.can_grow(usize::MAX, 128, 1, 1));
    // What is there already needs no new size.
    let mut gpu = Gpu::new();
    let mut s = DecodeScratch::new();
    gpu.grow_decode_scratch(&mut s, 8, 128, 5, 520);
    assert_eq!((s.chunks, s.part.as_ref().unwrap().len), (8, 8 * 8 * 520));
    assert!(s.can_grow(8, 128, 8, 520));
    assert!(!s.can_grow(8, 128, 8, usize::MAX));
}

#[test]
fn a_decode_is_tested_before_it_is_asked_for() {
    let q: CudaSlice<Fp32> = given(0, 4096);
    let (k, v) = caches(8, 512, 128);
    let kv = KvCache::F16(&k, &v);
    let gpu = Gpu::new();
    let s = DecodeScratch::new();
    let f = Kernel::AttnDecodeH128;
    let fits = |heads, kvh, hd, tk, cap, twin| {
        gpu.attn_decode_fits(f, &q, kv, heads, kvh, hd, tk, cap, SCALE, false, &s, twin)
    };
    assert!(fits(32, 8, 128, 300, 512, true));
    // No row of this many heads has a length.
    assert!(!fits(usize::MAX, 8, 128, 300, 512, false));
    // Refused before the length of a cache is computed.
    assert!(fits(32, 0, 128, 300, usize::MAX, false));
    assert!(fits(32, 8, 128, 513, 512, false));
    assert!(!fits(32, 8, 128, 300, usize::MAX - 7, false));
    let out: CudaSlice<Fp32> = given(3, 4096);
    let twin = Q8 { buf: given(4, 4096 + 512), rows: 1, k: 4096 };
    let row = |heads, q_off, at| {
        Gpu::attn_decode_launch_fits(
            f, &q, q_off, kv, heads, 8, 128, 300, 512, SCALE, false, &s, &out, at, Some(&twin),
        )
    };
    assert!(row(32, 0, 0));
    assert!(row(32, 4096, 0));
    assert!(!row(32, usize::MAX, 0));
    assert!(!row(32, 0, usize::MAX));
    // A twin of another row cannot be told apart by a row of nothing.
    assert!(!row(0, 0, 0));
    assert!(row(0, 0, 7));
}
