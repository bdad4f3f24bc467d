use xabe_cuda::{
    Arg, BufferId, Command, CudaError, CudaSlice, DevicePtr, FloatBits, Fp32, Gpu, Kernel, Launch,
};

fn given<T>(i: usize, len: usize) -> CudaSlice<T> {
    CudaSlice::new(BufferId::Given(i), len)
}

fn g(i: usize) -> Arg {
    Arg::Ptr(DevicePtr { id: BufferId::Given(i), offset: 0 })
}

fn n(v: i32) -> Arg {
    Arg::I32(v)
}

fn last(gpu: &Gpu) -> &Launch {
    match gpu.commands.last() {
        Some(Command::Launch(l)) => l,
        other => panic!("{other:?}"),
    }
}

/// What the append kernel does with its arguments.
fn run_append(run: &Launch, src: &[u32], dst: &mut [u32], transposed: bool) {
    let [_, Arg::I64(off), _, Arg::I32(n), Arg::I32(heads), Arg::I32(hd), Arg::I32(cap), Arg::I32(past)] =
        run.args[..]
    else {
        panic!("an append")
    };
    let (heads, hd, cap, past) = (heads as usize, hd as usize, cap as usize, past as usize);
    let d = heads * hd;
    for i in 0..n as usize * d {
        let (t, h, j) = (i / d, (i % d) / hd, i % hd);
        let at = if transposed {
            (h * hd + j) * cap + past + t
        } else {
            (h * cap + past + t) * hd + j
        };
        dst[at] = src[off as usize + i];
    }
}

/// What the growth kernel does with its arguments.
fn run_grow(run: &Launch, src: &[u32], dst: &mut [u32]) {
    let [_, _, Arg::I32(rows), Arg::I32(len), Arg::I32(ss), Arg::I32(ds)] = run.args[..] else {
        panic!("a growth")
    };
    for r in 0..rows as usize {
        for j in 0..len as usize {
            dst[r * ds as usize + j] = src[r * ss as usize + j];
        }
    }
}

fn place(h: usize, pos: usize, j: usize, cap: usize, hd: usize, transposed: bool) -> usize {
    if transposed {
        (h * hd + j) * cap + pos
    } else {
        (h * cap + pos) * hd + j
    }
}

#[test]
fn what_is_appended_is_read_back_before_and_after_growing() {
    let (heads, hd, old, new) = (3usize, 4usize, 6usize, 16usize);
    let d = heads * hd;
    for transposed in [false, true] {
        let rows: Vec<u32> = (0..5 * d as u32).map(|i| 1000 + i).collect();
        let mut cache = vec![7u32; d * old];
        let (src, dst): (CudaSlice<Fp32>, CudaSlice<Fp32>) = (given(0, 5 * d), given(1, d * old));
        let mut gpu = Gpu::new();
        // Two rows, then three more from further into the same buffer.
        gpu.cache_append(&src, 0, &dst, 2, heads, hd, old, 0, transposed).unwrap();
        run_append(last(&gpu), &rows, &mut cache, transposed);
        gpu.cache_append(&src, 2 * d, &dst, 3, heads, hd, old, 2, transposed).unwrap();
        run_append(last(&gpu), &rows, &mut cache, transposed);
        let read = |cache: &[u32], cap| {
            for t in 0..5 {
                for h in 0..heads {
                    for j in 0..hd {
                        let got = cache[place(h, t, j, cap, hd, transposed)];
                        assert_eq!(got, 1000 + (t * d + h * hd + j) as u32);
                    }
                }
            }
        };
        read(&cache, old);
        // The position that was never written still holds what it held.
        assert_eq!(cache[place(1, 5, 2, old, hd, transposed)], 7);
        let wide: CudaSlice<Fp32> = given(2, d * new);
        gpu.cache_grow(&dst, &wide, heads, hd, old, new, 5, transposed).unwrap();
        let mut grown = vec![0u32; d * new];
        run_grow(last(&gpu), &cache, &mut grown);
        read(&grown, new);
    }
}

#[test]
fn an_append_names_its_kernel_and_covers_its_rows() {
    let src: CudaSlice<Fp32> = given(0, 3000);
    let (full, half): (CudaSlice<Fp32>, CudaSlice<u16>) = (given(1, 100_000), given(2, 100_000));
    let mut gpu = Gpu::new();
    gpu.cache_append(&src, 100, &full, 2, 8, 128, 64, 5, false).unwrap();
    assert_eq!(last(&gpu).kernel, Kernel::CacheAppend);
    assert_eq!(
        last(&gpu).args,
        vec![g(0), Arg::I64(100), g(1), n(2), n(8), n(128), n(64), n(5)]
    );
    assert_eq!(last(&gpu).cfg.grid_dim, (8, 1, 1));
    gpu.cache_append(&src, 0, &full, 1, 8, 128, 64, 5, true).unwrap();
    assert_eq!(last(&gpu).kernel, Kernel::CacheAppendT);
    gpu.cache_append_f16(&src, 0, &half, 1, 8, 128, 64, 5, false).unwrap();
    assert_eq!(last(&gpu).kernel, Kernel::CacheAppendF16);
    gpu.cache_append_f16(&src, 0, &half, 1, 8, 128, 64, 5, true).unwrap();
    assert_eq!(last(&gpu).kernel, Kernel::CacheAppendTF16);
}

#[test]
fn an_append_that_overruns_is_refused() {
    let src: CudaSlice<Fp32> = given(0, 100);
    let (full, half): (CudaSlice<Fp32>, CudaSlice<u16>) = (given(1, 1000), given(2, 1000));
    let mut gpu = Gpu::new();
    assert_eq!(
        gpu.cache_append(&src, 0, &full, 2, 2, 5, 9, 8, false),
        Err(CudaError::CacheOverrun { at: 10, cap: 9 })
    );
    assert_eq!(
        gpu.cache_append(&src, 91, &full, 1, 2, 5, 9, 8, false),
        Err(CudaError::SliceOverrun { at: 101, len: 100 })
    );
    assert_eq!(gpu.cache_append(&src, 90, &full, 1, 2, 5, 9, 8, false), Ok(()));
    assert_eq!(
        gpu.cache_append_f16(&src, 90, &half, 1, 2, 5, 9, 8, false),
        Err(CudaError::OddCacheCapacity { cap: 9 })
    );
    assert_eq!(
        gpu.cache_append_f16(&src, 0, &half, 2, 2, 5, 9, 8, false),
        Err(CudaError::CacheOverrun { at: 10, cap: 9 })
    );
    assert_eq!(gpu.commands.len(), 1);
}

#[test]
fn a_growth_names_its_runs() {
    let (a, b): (CudaSlice<u16>, CudaSlice<u16>) = (given(0, 8 * 64 * 128), given(1, 8 * 128 * 128));
    let mut gpu = Gpu::new();
    gpu.cache_grow_f16(&a, &b, 8, 128, 64, 128, 50, false).unwrap();
    assert_eq!(last(&gpu).kernel, Kernel::CacheGrowF16);
    assert_eq!(
        last(&gpu).args,
        vec![g(0), g(1), n(8), n(50 * 128), n(64 * 128), n(128 * 128)]
    );
    assert_eq!(last(&gpu).cfg.grid_dim, (200, 1, 1));
    gpu.cache_grow_f16(&a, &b, 8, 128, 64, 128, 50, true).unwrap();
    assert_eq!(last(&gpu).args[2..], [n(1024), n(50), n(64), n(128)]);
}

#[test]
fn a_growth_of_nothing_is_nothing() {
    let (a, b): (CudaSlice<Fp32>, CudaSlice<Fp32>) = (given(0, 64), given(1, 128));
    let mut gpu = Gpu::new();
    assert_eq!(gpu.cache_grow(&a, &b, 2, 4, 8, 16, 0, false), Ok(()));
    assert!(gpu.commands.is_empty());
}

#[test]
fn a_growth_that_does_not_fit_is_refused() {
    let (a, b): (CudaSlice<Fp32>, CudaSlice<Fp32>) = (given(0, 64), given(1, 128));
    let mut gpu = Gpu::new();
    let mut run = |old, new, live| gpu.cache_grow(&a, &b, 2, 4, old, new, live, true);
    assert_eq!(run(8, 16, 9), Err(CudaError::CacheOverrun { at: 9, cap: 8 }));
    assert_eq!(run(8, 7, 5), Err(CudaError::CacheOverrun { at: 8, cap: 7 }));
    assert_eq!(run(9, 16, 5), Err(CudaError::SliceOverrun { at: 72, len: 64 }));
    assert_eq!(run(8, 17, 5), Err(CudaError::SliceOverrun { at: 136, len: 128 }));
    assert_eq!(run(8, 16, 8), Ok(()));
}

const THETA: FloatBits = FloatBits(0x461c_4000);

#[test]
fn one_position_is_rotated_and_stored_in_one_launch() {
    let proj: Vec<CudaSlice<Fp32>> = vec![given(0, 4096), given(1, 2048)];
    let (kc, vc): (CudaSlice<u16>, CudaSlice<u16>) = (given(2, 8 * 64 * 128), given(3, 8 * 64 * 128));
    let div: CudaSlice<Fp32> = given(4, 64);
    let mut gpu = Gpu::new();
    gpu.rope_cache_f16(
        &proj, (0, 0), (1, 0), (1, 1024), Some(&div), 32, 8, 128, THETA, 63, &kc, &vc, 64,
    )
    .unwrap();
    assert_eq!(
        last(&gpu).args,
        vec![
            g(0), Arg::I64(0), g(1), Arg::I64(0), g(1), Arg::I64(1024), g(4), n(1),
            n(32), n(8), n(128), Arg::Float(THETA), n(63), g(2), g(3), n(64),
        ]
    );
    // 2048 query pairs, 512 key pairs and 1024 values.
    assert_eq!(last(&gpu).cfg.grid_dim, (14, 1, 1));
    gpu.rope_cache_f16(&proj, (0, 0), (1, 0), (1, 1024), None, 32, 8, 128, THETA, 0, &kc, &vc, 64)
        .unwrap();
    assert_eq!(&last(&gpu).args[6..8], &[Arg::Dummy, n(0)]);
}

#[test]
fn a_rotation_checks_every_range() {
    let proj: Vec<CudaSlice<Fp32>> = vec![given(0, 64)];
    let (kc, vc): (CudaSlice<u16>, CudaSlice<u16>) = (given(2, 256), given(3, 255));
    let mut gpu = Gpu::new();
    let mut run = |q, k, v, hd, pos, cap| {
        gpu.rope_cache_f16(&proj, q, k, v, None, 4, 2, hd, THETA, pos, &kc, &vc, cap)
    };
    assert_eq!(run((0, 0), (0, 32), (0, 48), 8, 16, 16), Err(CudaError::CacheOverrun { at: 17, cap: 16 }));
    assert_eq!(run((0, 0), (0, 32), (0, 48), 8, 0, 15), Err(CudaError::OddCacheCapacity { cap: 15 }));
    assert_eq!(run((0, 0), (0, 32), (0, 48), 7, 0, 16), Err(CudaError::OddHeadDim { head_dim: 7 }));
    assert_eq!(run((0, 33), (0, 32), (0, 48), 8, 0, 16), Err(CudaError::SliceOverrun { at: 65, len: 64 }));
    assert_eq!(run((0, 0), (0, 49), (0, 48), 8, 0, 16), Err(CudaError::SliceOverrun { at: 65, len: 64 }));
    assert_eq!(run((0, 0), (0, 32), (1, 0), 8, 0, 16), Err(CudaError::SliceOverrun { at: 16, len: 0 }));
    assert_eq!(run((0, 0), (0, 32), (0, 48), 8, 0, 16), Err(CudaError::SliceOverrun { at: 256, len: 255 }));
    assert_eq!(run((0, 0), (0, 32), (0, 48), 8, 0, 14), Ok(()));
}

#[test]
fn growing_and_appending_come_to_the_same_either_way_round() {
    let (heads, hd, old, new, live, more) = (3usize, 4usize, 8usize, 16usize, 5usize, 2usize);
    let d = heads * hd;
    for transposed in [false, true] {
        let rows: Vec<u32> = (0..(live + more) as u32 * d as u32).map(|i| 500 + i).collect();
        let src: CudaSlice<Fp32> = given(0, (live + more) * d);
        let (small, wide): (CudaSlice<Fp32>, CudaSlice<Fp32>) = (given(1, d * old), given(2, d * new));
        let mut gpu = Gpu::new();
        let mut cache = vec![0u32; d * old];
        gpu.cache_append(&src, 0, &small, live, heads, hd, old, 0, transposed).unwrap();
        run_append(last(&gpu), &rows, &mut cache, transposed);
        // Grown, then appended to.
        let mut first = vec![7u32; d * new];
        gpu.cache_grow(&small, &wide, heads, hd, old, new, live, transposed).unwrap();
        run_grow(last(&gpu), &cache, &mut first);
        // Beyond the live positions the larger cache keeps what it held.
        assert_eq!(first[place(1, live, 2, new, hd, transposed)], 7);
        assert_eq!(first.iter().filter(|&&x| x == 7).count(), d * (new - live));
        gpu.cache_append(&src, live * d, &wide, more, heads, hd, new, live, transposed).unwrap();
        run_append(last(&gpu), &rows, &mut first, transposed);
        // Appended to, then grown.
        let mut second = vec![7u32; d * new];
        gpu.cache_append(&src, live * d, &small, more, heads, hd, old, live, transposed).unwrap();
        run_append(last(&gpu), &rows, &mut cache, transposed);
        gpu.cache_grow(&small, &wide, heads, hd, old, new, live + more, transposed).unwrap();
        run_grow(last(&gpu), &cache, &mut second);
        assert_eq!(first, second);
    }
}

#[test]
fn a_cache_is_tested_before_it_is_written() {
    let (src, dst): (CudaSlice<Fp32>, CudaSlice<Fp32>) = (given(0, 64), given(1, 64));
    let append =
        |n, cap, past, halves| Gpu::cache_append_fits(&src, 0, n, 2, 4, cap, past, halves);
    assert!(append(2, 8, 6, true));
    assert!(append(2, 8, 7, false));
    assert!(!append(2, 8, usize::MAX, false));
    assert!(!append(usize::MAX, usize::MAX, 0, false));
    // Halves of an odd capacity are refused before anything is multiplied.
    assert!(append(usize::MAX, usize::MAX, 0, true));
    let grow = |hd, old, new, t| Gpu::cache_grow_fits(&src, &dst, 2, hd, old, new, 3, t);
    assert!(grow(4, 8, 16, false));
    assert!(!grow(4, 8, usize::MAX, false));
    assert!(!grow(4, 8, usize::MAX, true));
    // The source is too short, and that is found first.
    assert!(grow(4, 9, usize::MAX, true));
    assert!(grow(4, 2, usize::MAX, true));
    let proj: Vec<CudaSlice<Fp32>> = vec![given(0, 64)];
    let (kc, vc): (CudaSlice<u16>, CudaSlice<u16>) = (given(2, 256), given(3, 256));
    let rope = |q, heads, pos, cap| {
        Gpu::rope_cache_fits(
            &proj, q, (0, 32), (0, 48), None, heads, 2, 8, THETA, pos, &kc, &vc, cap,
        )
    };
    assert!(rope((0, 0), 4, 3, 16));
    assert!(rope((0, 0), 4, 16, 16));
    assert!(!rope((0, 0), 4, usize::MAX, 16));
    assert!(!rope((0, 0), usize::MAX, 3, 16));
    assert!(!rope((0, usize::MAX), 4, 3, 16));
    // Queries of no elements still name a buffer.
    assert!(!rope((1, 0), 0, 3, 16));
    assert!(rope((1, 0), 4, 3, 16));
}
