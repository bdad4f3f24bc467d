use xabe_cuda::{
    gemv_ln_max_n, Arg, Batch, BufferId, Command, CudaError, CudaSlice, DevicePtr, Elem, FloatBits, Fp32,
    Gpu, Kernel, Launch, NormScratch, Operand, OutLayout, Quant, Q8,
};

fn given<T>(i: usize, len: usize) -> CudaSlice<T> {
    CudaSlice::new(BufferId::Given(i), len)
}

fn g(i: usize) -> Arg {
    Arg::Ptr(DevicePtr { id: BufferId::Given(i), offset: 0 })
}

fn made(i: usize) -> Arg {
    Arg::Ptr(DevicePtr { id: BufferId::Made(i), offset: 0 })
}

fn n(v: i32) -> Arg {
    Arg::I32(v)
}

fn eps() -> FloatBits {
    FloatBits(1e-5f32.to_bits())
}

fn last(gpu: &Gpu) -> &Launch {
    match gpu.commands.last() {
        Some(Command::Launch(l)) => l,
        other => panic!("{other:?}"),
    }
}

/// Where the kernel stores a column, given what it was handed.
fn stored(run: &Launch, col: i64) -> i64 {
    let [.., Arg::I32(cs), Arg::I32(hs), Arg::I32(hd), Arg::I64(off)] = run.args[..] else {
        panic!("an epilogue")
    };
    let (cs, hs, hd) = (cs as i64, hs as i64, hd as i64);
    if hd != 0 {
        off + col * cs + (col / hd) * hs
    } else {
        off + col * cs
    }
}

#[test]
fn a_row_is_placed_as_a_row() {
    let (x, w, out): (CudaSlice<Fp32>, CudaSlice<u16>, CudaSlice<Fp32>) =
        (given(0, 1280), given(1, 1280 * 100), given(2, 100));
    let mut gpu = Gpu::new();
    gpu.gemv_into(&x, Operand::F16(&w), None, 1280, 100, true, OutLayout::Row, &out)
        .unwrap();
    let run = last(&gpu);
    assert_eq!(run.kernel, Kernel::Gemv);
    assert_eq!(
        run.args,
        vec![
            g(0), g(1), Arg::Null, g(2), n(1), n(1280), n(100),
            Arg::I64(0), Arg::I64(0), Arg::I64(0),
            n(0), n(1), n(0), n(0), n(0), n(0), Arg::Null, n(0), n(1),
            n(1), n(1), n(0), n(0), Arg::I64(0),
        ]
    );
    assert_eq!(run.cfg.grid_dim, (13, 1, 1));
    assert!((0..100).all(|c| stored(run, c) == c));
}

#[test]
fn a_plain_row_is_a_product_of_one_row() {
    let (x, b): (CudaSlice<Fp32>, CudaSlice<Fp32>) = (given(0, 1280), given(1, 100));
    let w: CudaSlice<u16> = given(2, 1280 * 100);
    let mut gpu = Gpu::new();
    let batch = Batch { count: 1, a: 0, w: 0, out: 0, w_row: 0 };
    let out = gpu
        .gemm_batched(Operand::F32(&x), Operand::F16(&w), Some(&b), batch, 1, 1280, 100)
        .unwrap();
    gpu.gemv_into(&x, Operand::F16(&w), Some(&b), 1280, 100, false, OutLayout::Row, &out)
        .unwrap();
    assert_eq!(gpu.commands.len(), 3);
    assert_eq!(gpu.commands[1], gpu.commands[2]);
}

#[test]
fn keys_go_to_their_heads_position() {
    let (heads, hd, cap, pos) = (20usize, 64usize, 448usize, 41usize);
    let d = heads * hd;
    let (x, w, kc): (CudaSlice<Fp32>, CudaSlice<Fp32>, CudaSlice<Fp32>) =
        (given(0, 8), given(1, 8 * d), given(2, d * cap));
    let mut gpu = Gpu::new();
    let layout = OutLayout::KeyCache { head_dim: hd, cap, pos };
    gpu.gemv_into(&x, Operand::F32(&w), None, 8, d, false, layout, &kc).unwrap();
    let run = last(&gpu);
    for h in 0..heads {
        for j in 0..hd {
            let want = (h * cap + pos) * hd + j;
            assert_eq!(stored(run, (h * hd + j) as i64), want as i64);
        }
    }
}

#[test]
fn values_go_to_their_own_row() {
    let (x, w, vc): (CudaSlice<Fp32>, CudaSlice<Fp32>, CudaSlice<Fp32>) =
        (given(0, 8), given(1, 8 * 12), given(2, 12 * 5));
    let mut gpu = Gpu::new();
    let layout = OutLayout::ValueCache { cap: 5, pos: 3 };
    gpu.gemv_into(&x, Operand::F32(&w), None, 8, 12, false, layout, &vc).unwrap();
    let run = last(&gpu);
    assert!((0..12).all(|c| stored(run, c) == c * 5 + 3));
}

#[test]
fn a_placement_that_does_not_fit_is_refused() {
    let (x, w): (CudaSlice<Fp32>, CudaSlice<Fp32>) = (given(0, 8), given(1, 8 * 12));
    let small: CudaSlice<Fp32> = given(2, 11);
    let mut gpu = Gpu::new();
    let mut place = |layout, out: &CudaSlice<Fp32>| {
        gpu.gemv_into(&x, Operand::F32(&w), None, 8, 12, false, layout, out).err()
    };
    assert_eq!(
        place(OutLayout::Row, &small),
        Some(CudaError::SliceOverrun { at: 12, len: 11 })
    );
    assert_eq!(
        place(OutLayout::ValueCache { cap: 5, pos: 5 }, &small),
        Some(CudaError::CacheOverrun { at: 6, cap: 5 })
    );
    assert_eq!(
        place(OutLayout::ValueCache { cap: 5, pos: 4 }, &given(3, 59)),
        Some(CudaError::SliceOverrun { at: 60, len: 59 })
    );
    assert_eq!(
        place(OutLayout::KeyCache { head_dim: 5, cap: 9, pos: 0 }, &small),
        Some(CudaError::CacheOverrun { at: 1, cap: 9 })
    );
    assert_eq!(
        place(OutLayout::KeyCache { head_dim: 0, cap: 9, pos: 0 }, &small),
        Some(CudaError::CacheOverrun { at: 1, cap: 9 })
    );
    // Two heads of six in four positions: the last key at 3 ends at 48.
    assert_eq!(
        place(OutLayout::KeyCache { head_dim: 6, cap: 4, pos: 3 }, &given(3, 47)),
        Some(CudaError::SliceOverrun { at: 48, len: 47 })
    );
    assert_eq!(place(OutLayout::KeyCache { head_dim: 6, cap: 4, pos: 3 }, &given(3, 48)), None);
}

#[test]
fn operands_that_do_not_fit_are_refused() {
    let (x, out): (CudaSlice<Fp32>, CudaSlice<Fp32>) = (given(0, 8), given(2, 12));
    let (half, packed): (CudaSlice<u16>, CudaSlice<u8>) = (given(1, 8 * 12), given(3, 999));
    let few: CudaSlice<u16> = given(4, 95);
    let mut gpu = Gpu::new();
    let mut run = |w, k| gpu.gemv_into(&x, w, None, k, 12, false, OutLayout::Row, &out).err();
    assert_eq!(
        run(Operand::Q { data: &packed, ty: Quant::Q4K }, 8),
        Some(CudaError::QuantizedActivation)
    );
    assert_eq!(
        run(Operand::F16(&half), 9),
        Some(CudaError::SliceOverrun { at: 9, len: 8 })
    );
    assert_eq!(
        run(Operand::F16(&few), 8),
        Some(CudaError::SliceOverrun { at: 96, len: 95 })
    );
    assert_eq!(run(Operand::F16(&half), 7), Some(CudaError::RaggedContraction { k: 7 }));
    assert_eq!(run(Operand::F16(&half), 8), None);
}

#[test]
fn the_fused_layer_norm_makes_its_counter_once() {
    let (a, w): (CudaSlice<Fp32>, CudaSlice<u16>) = (given(0, 64), given(1, 64 * 20));
    let (h, wt, sh): (CudaSlice<Fp32>, CudaSlice<Fp32>, CudaSlice<Fp32>) =
        (given(2, 20), given(3, 20), given(4, 20));
    let mut gpu = Gpu::new();
    let mut s = NormScratch::new();
    let max = gemv_ln_max_n(2);
    assert_eq!(max, 2048);
    let x = gpu.gemv_ln(&a, &w, None, 64, 20, &h, &wt, &sh, eps(), &mut s, max).unwrap();
    assert_eq!(
        gpu.commands[..2],
        [
            Command::Alloc { elem: Elem::U32, len: 1, zeroed: true },
            Command::Alloc { elem: Elem::F32, len: 20, zeroed: false },
        ]
    );
    assert_eq!(x.id, BufferId::Made(1));
    assert_eq!(
        last(&gpu).args,
        vec![
            g(0), g(1), Arg::Null, n(64), n(20), g(2), g(3), g(4),
            Arg::Float(eps()), made(1), made(0),
        ]
    );
    assert_eq!(last(&gpu).cfg.grid_dim, (3, 1, 1));
    // The second call finds the counter there.
    gpu.gemv_ln(&a, &w, None, 64, 20, &h, &wt, &sh, eps(), &mut s, max).unwrap();
    assert_eq!(gpu.commands.len(), 5);
    assert_eq!(last(&gpu).args[10], made(0));
}

#[test]
fn the_fused_layer_norm_refuses_what_it_cannot_hold() {
    let (a, w): (CudaSlice<Fp32>, CudaSlice<u16>) = (given(0, 64), given(1, 64 * 20));
    let b: CudaSlice<Fp32> = given(2, 19);
    let full: CudaSlice<Fp32> = given(3, 20);
    let mut gpu = Gpu::new();
    let mut s = NormScratch::default();
    let mut run = |bias, k, nn, h: &CudaSlice<Fp32>, max| {
        gpu.gemv_ln(&a, &w, bias, k, nn, h, &full, &full, eps(), &mut s, max).err()
    };
    assert_eq!(run(None, 63, 20, &full, 1024), Some(CudaError::RaggedContraction { k: 63 }));
    assert_eq!(run(None, 64, 18, &full, 1024), Some(CudaError::RaggedBlock { k: 18, block: 4 }));
    assert_eq!(
        run(None, 64, 20, &full, 16),
        Some(CudaError::NormFusion { what: "a row longer than the last block can hold" })
    );
    assert_eq!(
        run(None, 66, 20, &full, 1024),
        Some(CudaError::SliceOverrun { at: 66, len: 64 })
    );
    assert_eq!(
        run(None, 64, 24, &full, 1024),
        Some(CudaError::SliceOverrun { at: 1536, len: 1280 })
    );
    assert_eq!(
        run(Some(&b), 64, 20, &full, 1024),
        Some(CudaError::SliceOverrun { at: 20, len: 19 })
    );
    assert_eq!(
        run(None, 64, 20, &given(5, 7), 1024),
        Some(CudaError::SliceOverrun { at: 20, len: 7 })
    );
    assert!(s.ctr.is_none());
    assert!(gpu.commands.is_empty());
}

#[test]
fn three_projections_are_one_launch() {
    let d = 128;
    let (a, w): (CudaSlice<Fp32>, CudaSlice<u16>) = (given(0, 64), given(1, 3 * d * 64));
    let b: CudaSlice<Fp32> = given(2, d);
    let (q, kc, vc): (CudaSlice<Fp32>, CudaSlice<Fp32>, CudaSlice<Fp32>) =
        (given(3, d), given(4, d * 10), given(5, d * 10));
    let mut gpu = Gpu::new();
    gpu.gemv_qkv_f16(&a, &w, [Some(&b), None, Some(&b)], 64, d, 32, 10, 9, &q, &kc, &vc)
        .unwrap();
    assert_eq!(
        last(&gpu).args,
        vec![
            g(0), g(1), g(2), Arg::Null, g(2), n(64), n(128), n(32), n(10), n(9), g(3), g(4), g(5),
        ]
    );
    assert_eq!(last(&gpu).cfg.grid_dim, (48, 1, 1));
}

#[test]
fn three_projections_check_every_range() {
    let d = 128;
    let (a, w): (CudaSlice<Fp32>, CudaSlice<u16>) = (given(0, 64), given(1, 3 * d * 64));
    let short: CudaSlice<Fp32> = given(2, d - 1);
    let full: CudaSlice<Fp32> = given(3, d * 10);
    let mut gpu = Gpu::new();
    let none = [None, None, None];
    let mut run = |bias, k, hd, cap, pos, q: &CudaSlice<Fp32>, kc: &CudaSlice<Fp32>| {
        gpu.gemv_qkv_f16(&a, &w, bias, k, d, hd, cap, pos, q, kc, &full).err()
    };
    assert_eq!(
        run(none, 63, 32, 10, 9, &full, &full),
        Some(CudaError::RaggedContraction { k: 63 })
    );
    assert_eq!(
        run(none, 64, 48, 10, 9, &full, &full),
        Some(CudaError::RaggedBlock { k: 128, block: 48 })
    );
    assert_eq!(
        run(none, 64, 0, 10, 9, &full, &full),
        Some(CudaError::RaggedBlock { k: 128, block: 0 })
    );
    assert_eq!(
        run(none, 64, 32, 9, 9, &full, &full),
        Some(CudaError::CacheOverrun { at: 10, cap: 9 })
    );
    assert_eq!(
        run(none, 66, 32, 10, 9, &full, &full),
        Some(CudaError::SliceOverrun { at: 66, len: 64 })
    );
    assert_eq!(
        run(none, 64, 32, 10, 9, &short, &full),
        Some(CudaError::SliceOverrun { at: 128, len: 127 })
    );
    assert_eq!(
        run(none, 64, 32, 11, 9, &full, &full),
        Some(CudaError::SliceOverrun { at: 1408, len: 1280 })
    );
    assert_eq!(
        run([None, Some(&short), None], 64, 32, 10, 9, &full, &full),
        Some(CudaError::SliceOverrun { at: 128, len: 127 })
    );
    let few: CudaSlice<u16> = given(6, 3 * d * 64 - 1);
    assert_eq!(
        gpu.gemv_qkv_f16(&a, &few, none, 64, d, 32, 10, 9, &full, &full, &full).err(),
        Some(CudaError::SliceOverrun { at: 24576, len: 24575 })
    );
}

fn one_row(k: usize) -> Q8 {
    Q8 { buf: given(9, k + (k / 32) * 4), rows: 1, k }
}

#[test]
fn the_fused_norm_grows_its_scratch_once() {
    let w: CudaSlice<u8> = given(0, 64 * 2 * 144);
    let (h, wt): (CudaSlice<Fp32>, CudaSlice<Fp32>) = (given(1, 64), given(2, 64));
    let a = one_row(512);
    let mut gpu = Gpu::new();
    let mut s = NormScratch::new();
    let wq = Operand::Q { data: &w, ty: Quant::Q4K };
    let (x, xq) = gpu.gemv_norm(wq, &a, 512, 64, &h, &wt, eps(), &mut s).unwrap();
    assert_eq!((x.id, x.len), (BufferId::Made(2), 64));
    assert_eq!((xq.buf.id, xq.buf.len, xq.rows, xq.k), (BufferId::Made(3), 72, 1, 64));
    assert_eq!(
        gpu.commands[..4],
        [
            Command::Alloc { elem: Elem::U32, len: 1, zeroed: true },
            Command::Alloc { elem: Elem::F32, len: 8, zeroed: false },
            Command::Alloc { elem: Elem::F32, len: 64, zeroed: false },
            Command::Alloc { elem: Elem::I8, len: 72, zeroed: false },
        ]
    );
    assert_eq!(
        last(&gpu).args,
        vec![
            g(0), n(12), n(144), g(9), n(512), n(512), n(64), g(1), g(2), Arg::Float(eps()),
            made(2), made(3), n(64), made(1), made(0),
        ]
    );
    assert_eq!(s.blocks, 8);
    // Half as wide: the partials that are there do.
    gpu.gemv_norm(wq, &a, 512, 32, &h, &wt, eps(), &mut s).unwrap();
    assert_eq!(gpu.commands.len(), 5 + 3);
    assert_eq!(s.blocks, 8);
    assert_eq!(last(&gpu).args[13], made(1));
}

#[test]
fn the_fused_norm_says_why_it_will_not_fuse() {
    let w: CudaSlice<u8> = given(0, 64 * 2 * 144);
    let f: CudaSlice<Fp32> = given(1, 64);
    let mut gpu = Gpu::new();
    let mut s = NormScratch::new();
    let mut run = |w, a: &Q8, k, nn, h: &CudaSlice<Fp32>| {
        gpu.gemv_norm(w, a, k, nn, h, &f, eps(), &mut s).err()
    };
    let wq = Operand::Q { data: &w, ty: Quant::Q4K };
    let a = one_row(512);
    assert_eq!(
        run(Operand::F32(&f), &a, 512, 64, &f),
        Some(CudaError::NormFusion { what: "an unpacked weight" })
    );
    assert_eq!(
        run(Operand::Q { data: &w, ty: Quant::Q5K }, &a, 512, 64, &f),
        Some(CudaError::NormFusion { what: "a block format other than Q4_K or Q6_K" })
    );
    assert_eq!(run(wq, &a, 500, 64, &f), Some(CudaError::RaggedBlock { k: 500, block: 256 }));
    assert_eq!(run(wq, &a, 512, 60, &f), Some(CudaError::RaggedBlock { k: 60, block: 32 }));
    assert_eq!(
        run(wq, &a, 256, 64, &f),
        Some(CudaError::NormFusion { what: "an activation twin that is not one row of k" })
    );
    assert_eq!(
        run(wq, &a, 512, 96, &f),
        Some(CudaError::SliceOverrun { at: 96 * 2 * 144, len: 64 * 2 * 144 })
    );
    assert_eq!(
        run(wq, &a, 512, 64, &given(5, 63)),
        Some(CudaError::SliceOverrun { at: 64, len: 63 })
    );
    assert!(gpu.commands.is_empty());
}

#[test]
fn a_placed_row_is_the_product_but_for_its_place() {
    let d = 128;
    let (x, w, b): (CudaSlice<Fp32>, CudaSlice<u16>, CudaSlice<Fp32>) =
        (given(0, 64), given(1, 64 * d), given(2, d));
    let cache: CudaSlice<Fp32> = given(3, d * 10);
    let (mut gpu, mut one) = (Gpu::new(), Gpu::new());
    one.gemm_batched(Operand::F32(&x), Operand::F16(&w), Some(&b), Batch::single(d), 1, 64, d)
        .unwrap();
    let plain = last(&one);
    for layout in [
        OutLayout::KeyCache { head_dim: 32, cap: 10, pos: 4 },
        OutLayout::ValueCache { cap: 10, pos: 4 },
    ] {
        gpu.gemv_into(&x, Operand::F16(&w), Some(&b), 64, d, false, layout, &cache).unwrap();
        let placed = last(&gpu);
        assert_eq!((placed.kernel, placed.cfg), (plain.kernel, plain.cfg));
        assert_eq!(placed.args.len(), plain.args.len());
        assert_eq!(placed.args[3], g(3));
        // The inputs and the shape are those of the product.
        assert_eq!(placed.args[..3], plain.args[..3]);
        assert_eq!(placed.args[4..7], plain.args[4..7]);
        // What differs besides: the stride between products, of which there is
        // one, and the four numbers of the place.
        let n = plain.args.len();
        assert_eq!(placed.args[10..n - 4], plain.args[10..n - 4]);
        assert_ne!(placed.args[n - 4..], plain.args[n - 4..]);
    }
}

#[test]
fn fused_projections_are_checked_as_three_alone() {
    // Three stacked projections as one launch, and one at a time from where each
    // starts in the weight: the same queue of rows, keys and values.
    let (k, d, hd, cap, pos) = (64usize, 128usize, 32usize, 10usize, 9usize);
    let (a, w): (CudaSlice<Fp32>, CudaSlice<u16>) = (given(0, k), given(1, 3 * d * k));
    let own: CudaSlice<u16> = given(1, d * k);
    let (q, kc, vc): (CudaSlice<Fp32>, CudaSlice<Fp32>, CudaSlice<Fp32>) =
        (given(3, d), given(4, d * cap), given(5, d * cap));
    let layouts = [
        (OutLayout::Row, &q),
        (OutLayout::KeyCache { head_dim: hd, cap, pos }, &kc),
        (OutLayout::ValueCache { cap, pos }, &vc),
    ];
    let mut gpu = Gpu::new();
    gpu.gemv_qkv_f16(&a, &w, [None; 3], k, d, hd, cap, pos, &q, &kc, &vc).unwrap();
    for (layout, out) in layouts {
        gpu.gemv_into(&a, Operand::F16(&own), None, k, d, false, layout, out).unwrap();
        let run = last(&gpu);
        let mut places: Vec<i64> = (0..d as i64).map(|c| stored(run, c)).collect();
        for (c, &at) in places.iter().enumerate() {
            let want = match layout {
                OutLayout::Row => c,
                OutLayout::KeyCache { .. } => (c / hd * cap + pos) * hd + c % hd,
                OutLayout::ValueCache { .. } => c * cap + pos,
            };
            assert_eq!(at, want as i64);
            assert!((at as usize) < out.len);
        }
        places.sort();
        places.dedup();
        assert_eq!(places.len(), d);
    }
}

#[test]
fn a_mat_vec_is_tested_before_it_is_asked_for() {
    let (x, w, out): (CudaSlice<Fp32>, CudaSlice<Fp32>, CudaSlice<Fp32>) =
        (given(0, 8), given(1, 96), given(2, 12));
    let fits = |w, k, n, layout| Gpu::gemv_into_fits(&x, w, None, k, n, false, layout, &out);
    assert!(fits(Operand::F32(&w), 8, 12, OutLayout::Row));
    // A row of no columns, where it would get as far as a launch.
    assert!(!fits(Operand::F32(&w), 8, 0, OutLayout::Row));
    assert!(fits(Operand::F32(&w), 9, 0, OutLayout::Row));
    assert!(!fits(Operand::F32(&w), 8, usize::MAX, OutLayout::Row));
    // Refused before anything is multiplied.
    assert!(fits(Operand::F32(&w), 9, usize::MAX, OutLayout::Row));
    let data: CudaSlice<u8> = given(3, 8);
    assert!(fits(Operand::Q { data: &data, ty: Quant::Q4K }, 8, 0, OutLayout::Row));
    let off = OutLayout::ValueCache { cap: 5, pos: usize::MAX };
    assert!(!fits(Operand::F32(&w), 8, 12, off));
    let half: CudaSlice<u16> = given(1, 96);
    let qkv = |d, cap, pos| {
        Gpu::gemv_qkv_fits(&x, &half, [None; 3], 8, d, 2, cap, pos, &out, &out, &out)
    };
    assert!(qkv(4, 3, 2));
    assert!(qkv(4, 3, 3));
    assert!(!qkv(4, 3, usize::MAX));
    assert!(!qkv(usize::MAX - 1, 3, 2));
    let a = one_row(256);
    let norm = |w, n| Gpu::gemv_norm_fits(w, &a, 256, n, &x, &x, eps());
    assert!(norm(Operand::F32(&w), usize::MAX));
    let q4 = Operand::Q { data: &data, ty: Quant::Q4K };
    assert!(norm(q4, 32));
    assert!(!norm(q4, usize::MAX - 31));
    assert!(norm(q4, usize::MAX));
}
