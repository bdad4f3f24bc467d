use xabe_cuda::{
    Arg, Batch, BufferId, Command, CudaError, CudaSlice, DevicePtr, Elem, Fp32, Gpu, Kernel,
    Launch, LaunchConfig, Operand, Quant, GEMV_MAX_M, Q8,
};

fn given<T>(i: usize, len: usize) -> CudaSlice<T> {
    CudaSlice::new(BufferId::Given(i), len)
}

fn g(i: usize) -> Arg {
    Arg::Ptr(DevicePtr { id: BufferId::Given(i), offset: 0 })
}

fn made(i: usize) -> Arg {
    Arg::Ptr(DevicePtr { id: BufferId::Made(i), offset: 0 })
}

fn n(v: i32) -> Arg {
    Arg::I32(v)
}

fn l(v: i64) -> Arg {
    Arg::I64(v)
}

fn buffer(elem: Elem, len: usize, zeroed: bool) -> Command {
    Command::Alloc { elem, len, zeroed }
}

fn cfg(grid: (u32, u32, u32), block: (u32, u32, u32)) -> LaunchConfig {
    LaunchConfig { grid_dim: grid, block_dim: block, shared_mem_bytes: 0 }
}

fn launch(kernel: Kernel, args: Vec<Arg>, cfg: LaunchConfig) -> Command {
    Command::Launch(Launch { kernel, label: kernel, args, cfg })
}

fn twin(i: usize, rows: usize, k: usize) -> Q8 {
    Q8 { buf: given(i, rows * k + rows * (k / 32) * 4), rows, k }
}

#[test]
fn one_row_against_f16_is_one_matvec() {
    let (a, w): (CudaSlice<Fp32>, CudaSlice<u16>) = (given(0, 1280), given(1, 1280 * 5120));
    let mut gpu = Gpu::new();
    let out = gpu
        .gemm_batched(Operand::F32(&a), Operand::F16(&w), None, Batch::single(5120), 1, 1280, 5120)
        .unwrap();
    assert_eq!((out.id, out.len), (BufferId::Made(0), 5120));
    assert_eq!(
        gpu.commands,
        vec![
            buffer(Elem::F32, 5120, false),
            launch(
                Kernel::Gemv,
                vec![
                    g(0), g(1), Arg::Null, made(0),
                    n(1), n(1280), n(5120),
                    l(0), l(0), l(5120),
                    n(0), n(1), n(0), n(0), n(0), n(0),
                    Arg::Null, n(0), n(1),
                    n(0), n(1), n(0), n(0), l(0),
                ],
                cfg((640, 1, 1), (32, 8, 1)),
            ),
        ]
    );
}

#[test]
fn a_tall_product_is_tiled_and_not_split() {
    // 10 column tiles by 12 row tiles: 120 blocks, one slice each.
    let (a, w, b): (CudaSlice<Fp32>, CudaSlice<Fp32>, CudaSlice<Fp32>) =
        (given(0, 1500 * 1280), given(1, 1280 * 1280), given(2, 1280));
    let mut gpu = Gpu::new();
    let out = gpu.gemm(&a, &w, Some(&b), 1500, 1280, 1280).unwrap();
    assert_eq!(out.len, 1500 * 1280);
    assert_eq!(
        gpu.commands[1],
        launch(
            Kernel::Gemm,
            vec![
                g(0), g(1), g(2), made(0),
                n(1500), n(1280), n(1280),
                l(0), l(0), l(1500 * 1280),
                n(0), n(0), n(0), n(0), n(0), n(0),
                n(1), Arg::Null,
            ],
            cfg((10, 12, 1), (32, 8, 1)),
        )
    );
    assert_eq!(gpu.commands.len(), 2);
}

#[test]
fn an_idle_tile_is_split_and_its_slices_summed() {
    let (a, w): (CudaSlice<Fp32>, CudaSlice<Fp32>) = (given(0, 128 * 4096), given(1, 1024 * 4096));
    let mut gpu = Gpu::new();
    gpu.gemm(&a, &w, None, 128, 4096, 1024).unwrap();
    let out = 128 * 1024;
    assert_eq!(
        gpu.commands,
        vec![
            buffer(Elem::F32, out, false),
            buffer(Elem::F32, 8 * out, false),
            launch(
                Kernel::Gemm,
                vec![
                    g(0), g(1), Arg::Null, made(0),
                    n(128), n(4096), n(1024),
                    l(0), l(0), l(out as i64),
                    n(0), n(0), n(0), n(0), n(0), n(0),
                    n(8), made(1),
                ],
                cfg((8, 1, 8), (32, 8, 1)),
            ),
            launch(
                Kernel::GemmReduce,
                vec![made(1), Arg::Null, made(0), n(out as i32), n(1024), n(1), n(8)],
                cfg((128, 1, 1), (1024, 1, 1)),
            ),
        ]
    );
}

#[test]
fn the_sum_has_a_thread_an_element_rounded_up_to_a_block() {
    // 17 * 300 outputs: four whole blocks of 1024 and one more.
    let (a, w): (CudaSlice<Fp32>, CudaSlice<Fp32>) = (given(0, 17 * 4096), given(1, 300 * 4096));
    let mut gpu = Gpu::new();
    gpu.gemm(&a, &w, None, 17, 4096, 300).unwrap();
    let Command::Launch(last) = gpu.commands.last().unwrap() else {
        panic!("the sum comes last")
    };
    assert_eq!(last.kernel, Kernel::GemmReduce);
    assert_eq!(last.cfg, cfg((5, 1, 1), (1024, 1, 1)));
}

#[test]
fn a_k_quant_takes_the_integer_kernel_and_one_twin() {
    let (a, w): (CudaSlice<Fp32>, CudaSlice<u8>) = (given(0, 24 * 4096), given(1, 4096 * 16 * 144));
    let mut gpu = Gpu::new();
    let wq = Operand::Q { data: &w, ty: Quant::Q4K };
    gpu.gemm_batched(Operand::F32(&a), wq, None, Batch::single(24 * 4096), 24, 4096, 4096)
        .unwrap();
    // 32 column tiles by one row tile: split four ways.
    assert_eq!(
        gpu.commands,
        vec![
            buffer(Elem::F32, 24 * 4096, false),
            buffer(Elem::I8, 24 * 4096 + 24 * 128 * 4, false),
            launch(
                Kernel::QuantizeQ8,
                vec![g(0), made(1), n(24 * 4096), n(4096), n(24), l(0), n(24)],
                cfg((24 * 128 / 8, 1, 1), (32, 8, 1)),
            ),
            buffer(Elem::F32, 4 * 24 * 4096, false),
            launch(
                Kernel::GemmI8Q4kNarrow,
                vec![
                    made(1), n(24 * 4096), g(1), Arg::Null, made(0),
                    n(24), n(4096), n(4096), l(0), l(24 * 4096),
                    n(144), n(24), n(4), made(3),
                ],
                cfg((1, 32, 4), (32, 8, 1)),
            ),
            launch(
                Kernel::GemmReduce,
                vec![made(3), Arg::Null, made(0), n(24 * 4096), n(4096), n(1), n(4)],
                cfg((96, 1, 1), (1024, 1, 1)),
            ),
        ]
    );
}

fn kernels(gpu: &Gpu) -> Vec<Kernel> {
    gpu.commands
        .iter()
        .filter_map(|c| match c {
            Command::Launch(l) => Some(l.kernel),
            Command::Alloc { .. } => None,
        })
        .collect()
}

#[test]
fn the_row_tile_narrows_at_sixty_four_rows() {
    for (m, ty, want) in [
        (64, Quant::Q6K, Kernel::GemmI8Q6kNarrow),
        (65, Quant::Q6K, Kernel::GemmI8Q6k),
        (64, Quant::Q4K, Kernel::GemmI8Q4kNarrow),
        (65, Quant::Q4K, Kernel::GemmI8Q4k),
    ] {
        let a: CudaSlice<Fp32> = given(0, m * 256);
        let w: CudaSlice<u8> = given(1, 128 * 224);
        let q = twin(2, m, 256);
        let mut gpu = Gpu::new();
        gpu.gemm_batched(
            Operand::F32Q { data: &a, q8: &q },
            Operand::Q { data: &w, ty },
            None,
            Batch::single(m * 128),
            m,
            256,
            128,
        )
        .unwrap();
        assert_eq!(kernels(&gpu), vec![want]);
    }
}

#[test]
fn a_twin_taken_ahead_is_read_in_place() {
    let a: CudaSlice<Fp32> = given(0, 4096);
    let w: CudaSlice<u8> = given(1, 1024 * 16 * 224);
    let q = twin(2, 1, 4096);
    let mut gpu = Gpu::new();
    gpu.gemm_batched(
        Operand::F32Q { data: &a, q8: &q },
        Operand::Q { data: &w, ty: Quant::Q6K },
        None,
        Batch::single(1024),
        1,
        4096,
        1024,
    )
    .unwrap();
    let Command::Launch(run) = &gpu.commands[1] else { panic!("a launch") };
    assert_eq!(run.kernel, Kernel::Gemv);
    assert_eq!(&run.args[10..19], &[n(0), n(0), n(14), n(256), n(224), n(0), g(2), n(4096), n(1)]);
}

#[test]
fn a_twin_of_another_shape_is_refused() {
    let a: CudaSlice<Fp32> = given(0, 2 * 4096);
    let w: CudaSlice<u8> = given(1, 1024 * 16 * 224);
    let q = twin(2, 1, 8192);
    let mut gpu = Gpu::new();
    let r = gpu.gemm_batched(
        Operand::F32Q { data: &a, q8: &q },
        Operand::Q { data: &w, ty: Quant::Q6K },
        None,
        Batch::single(2 * 1024),
        2,
        4096,
        1024,
    );
    assert_eq!(
        r.err(),
        Some(CudaError::MismatchedQ8 { rows: 1, k: 8192, want_rows: 2, want_k: 4096 })
    );
    // The output had been made; nothing was launched.
    assert_eq!(gpu.commands, vec![buffer(Elem::F32, 2 * 1024, false)]);
}

#[test]
fn a_few_rows_share_one_stream_of_a_packed_weight() {
    for (m, want) in [
        (2, Kernel::GemvQRows2),
        (3, Kernel::GemvQRows3),
        (4, Kernel::GemvQRows4),
    ] {
        let a: CudaSlice<Fp32> = given(0, m * 256);
        let w: CudaSlice<u8> = given(1, 100 * 144);
        let mut gpu = Gpu::new();
        gpu.gemm_batched(
            Operand::F32(&a),
            Operand::Q { data: &w, ty: Quant::Q4K },
            None,
            Batch::single(m * 100),
            m,
            256,
            100,
        )
        .unwrap();
        assert_eq!(kernels(&gpu), vec![Kernel::QuantizeQ8, want]);
        let Command::Launch(run) = gpu.commands.last().unwrap() else { panic!("a launch") };
        assert_eq!(run.cfg, cfg((13, 1, 1), (32, 8, 1)));
        assert_eq!(
            run.args,
            vec![
                g(1), n(12), n(144), made(1), n((m * 256) as i32), n(m as i32),
                Arg::Null, made(0), n(m as i32), n(256), n(100), l(0), l((m * 100) as i64),
            ]
        );
    }
}

#[test]
fn a_few_rows_share_one_stream_of_a_cache() {
    // A grouped-query score product: four query rows a head, eight heads.
    let (q, k): (CudaSlice<Fp32>, CudaSlice<u16>) = (given(0, 32 * 128), given(1, 8 * 256 * 128));
    let mut gpu = Gpu::new();
    let batch = Batch { count: 8, a: 4 * 128, w: 256 * 128, out: 4 * 100, w_row: 0 };
    gpu.gemm_batched(Operand::F32(&q), Operand::F16(&k), None, batch, 4, 128, 100)
        .unwrap();
    assert_eq!(
        gpu.commands[1],
        launch(
            Kernel::GemvRows,
            vec![
                g(0), g(1), Arg::Null, made(0),
                n(4), n(128), n(100),
                l(512), l(32768), l(400),
                n(0), n(1),
            ],
            cfg((13, 1, 8), (32, 8, 1)),
        )
    );
}

#[test]
fn a_strided_value_cache_passes_its_stride() {
    let (p, v): (CudaSlice<Fp32>, CudaSlice<u16>) = (given(0, 20 * 7), given(1, 20 * 64 * 448));
    let mut gpu = Gpu::new();
    // Seven positions: an odd contraction, which the mat-vec takes.
    let batch = Batch { count: 20, a: 7, w: 64 * 448, out: 64, w_row: 448 };
    gpu.gemm_batched(Operand::F32(&p), Operand::F16(&v), None, batch, 1, 7, 64)
        .unwrap();
    let Command::Launch(run) = &gpu.commands[1] else { panic!("a launch") };
    assert_eq!(run.kernel, Kernel::Gemv);
    assert_eq!(run.args[15], n(448));
    assert_eq!(run.cfg, cfg((8, 1, 20), (32, 8, 1)));
}

#[test]
fn an_odd_contraction_is_refused_where_words_are_read() {
    let (a, w): (CudaSlice<Fp32>, CudaSlice<u16>) = (given(0, 5 * 7), given(1, 64 * 7));
    let mut gpu = Gpu::new();
    let r = gpu.gemm_batched(
        Operand::F32(&a),
        Operand::F16(&w),
        None,
        Batch::single(5 * 64),
        GEMV_MAX_M + 1,
        7,
        64,
    );
    assert_eq!(r.err(), Some(CudaError::RaggedContraction { k: 7 }));
    assert!(gpu.commands.is_empty());
    let h: CudaSlice<u16> = given(2, 7);
    let r = gpu.gemm_batched(Operand::F16(&h), Operand::F32(&a), None, Batch::single(5), 1, 7, 5);
    assert_eq!(r.err(), Some(CudaError::RaggedContraction { k: 7 }));
    // Full precision takes any length.
    assert!(gpu.gemm(&a, &a, None, 5, 7, 5).is_ok());
}

#[test]
fn a_packed_activation_is_refused() {
    let (a, w): (CudaSlice<u8>, CudaSlice<Fp32>) = (given(0, 144), given(1, 256));
    let mut gpu = Gpu::new();
    let r = gpu.gemm_batched(
        Operand::Q { data: &a, ty: Quant::Q4K },
        Operand::F32(&w),
        None,
        Batch::single(1),
        1,
        256,
        1,
    );
    assert_eq!(r.err(), Some(CudaError::QuantizedActivation));
}

#[test]
fn a_ragged_row_of_blocks_is_refused() {
    let (a, w): (CudaSlice<Fp32>, CudaSlice<u8>) = (given(0, 300), given(1, 1000));
    let mut gpu = Gpu::new();
    let r = gpu.gemm_batched(
        Operand::F32(&a),
        Operand::Q { data: &w, ty: Quant::Q6K },
        None,
        Batch::single(1),
        1,
        300,
        1,
    );
    assert_eq!(r.err(), Some(CudaError::RaggedBlock { k: 300, block: 256 }));
}

#[test]
fn a_stride_on_a_packed_weight_is_refused() {
    let (a, w): (CudaSlice<Fp32>, CudaSlice<u8>) = (given(0, 256), given(1, 144));
    let mut gpu = Gpu::new();
    let batch = Batch { count: 1, a: 0, w: 0, out: 1, w_row: 512 };
    let r = gpu.gemm_batched(
        Operand::F32(&a),
        Operand::Q { data: &w, ty: Quant::Q4K },
        None,
        batch,
        1,
        256,
        1,
    );
    assert_eq!(r.err(), Some(CudaError::StridedNonF32Weight { stride: 512 }));
    assert_eq!(gpu.commands, vec![buffer(Elem::F32, 1, false)]);
}

#[test]
fn an_odd_stride_on_a_rounded_weight_is_refused() {
    let (a, w): (CudaSlice<Fp32>, CudaSlice<u16>) = (given(0, 8), given(1, 900));
    let mut gpu = Gpu::new();
    let batch = Batch { count: 1, a: 0, w: 0, out: 2, w_row: 449 };
    let r = gpu.gemm_batched(Operand::F32(&a), Operand::F16(&w), None, batch, 1, 8, 2);
    assert_eq!(r.err(), Some(CudaError::OddCacheCapacity { cap: 449 }));
}

#[test]
fn a_product_starts_at_the_row_it_is_told() {
    // Three projections of one activation stacked: 4096, then 1024 and 1024.
    let (a, w): (CudaSlice<Fp32>, CudaSlice<u8>) = (given(0, 4096), given(1, 6144 * 16 * 224));
    let wq = Operand::Q { data: &w, ty: Quant::Q6K };
    let mut gpu = Gpu::new();
    gpu.gemm_batched_from(Operand::F32(&a), wq, 4096, None, Batch::single(1024), 1, 4096, 1024)
        .unwrap();
    let Command::Launch(run) = gpu.commands.last().unwrap() else { panic!("a launch") };
    assert_eq!(
        run.args[1],
        Arg::Ptr(DevicePtr { id: BufferId::Given(1), offset: 4096 * 16 * 224 })
    );
    // The last one ends where the allocation does; one more row does not fit.
    assert!(gpu
        .gemm_batched_from(Operand::F32(&a), wq, 5120, None, Batch::single(1024), 1, 4096, 1024)
        .is_ok());
    let r =
        gpu.gemm_batched_from(Operand::F32(&a), wq, 5121, None, Batch::single(1024), 1, 4096, 1024);
    assert_eq!(
        r.err(),
        Some(CudaError::SliceOverrun { at: 6145 * 16 * 224, len: 6144 * 16 * 224 })
    );
}

#[test]
fn a_first_row_inside_a_block_is_refused() {
    let (a, w): (CudaSlice<Fp32>, CudaSlice<u8>) = (given(0, 100), given(1, 100_000));
    let mut gpu = Gpu::new();
    let r = gpu.gemm_batched_from(
        Operand::F32(&a),
        Operand::Q { data: &w, ty: Quant::Q4_0 },
        1,
        None,
        Batch::single(1),
        1,
        100,
        1,
    );
    assert_eq!(r.err(), Some(CudaError::RaggedBlock { k: 100, block: 32 }));
}

#[test]
fn a_plain_block_format_rounds_the_activation_once() {
    let (a, w): (CudaSlice<Fp32>, CudaSlice<u8>) = (given(0, 200 * 64), given(1, 2 * 34 * 128));
    let mut gpu = Gpu::new();
    gpu.gemm_batched(
        Operand::F32(&a),
        Operand::Q { data: &w, ty: Quant::Q8_0 },
        None,
        Batch::single(200 * 128),
        200,
        64,
        128,
    )
    .unwrap();
    assert_eq!(
        gpu.commands[1..3],
        [
            buffer(Elem::U16, 200 * 64, true),
            launch(
                Kernel::PackF16,
                vec![g(0), made(1), n(200 * 64)],
                cfg((50, 1, 1), (256, 1, 1)),
            ),
        ]
    );
    let Command::Launch(run) = &gpu.commands[3] else { panic!("a launch") };
    assert_eq!((run.kernel, run.args[0], run.args[10]), (Kernel::Gemm, made(1), n(1)));
    assert_eq!(&run.args[12..15], &[n(8), n(32), n(34)]);
}

#[test]
fn only_what_the_products_read_is_rounded() {
    let (a, w): (CudaSlice<Fp32>, CudaSlice<u8>) = (given(0, 100_000), given(1, 100_000));
    let mut gpu = Gpu::new();
    let batch = Batch { count: 3, a: 1000, w: 0, out: 5 * 10, w_row: 0 };
    gpu.gemm_batched(
        Operand::F32(&a),
        Operand::Q { data: &w, ty: Quant::Q4_0 },
        None,
        batch,
        5,
        32,
        10,
    )
    .unwrap();
    assert_eq!(gpu.commands[1], buffer(Elem::U16, 2 * 1000 + 5 * 32, true));
    // An odd stride between activations has no rounded layout.
    let odd = Batch { a: 1001, ..batch };
    let mut gpu = Gpu::new();
    gpu.gemm_batched(
        Operand::F32(&a),
        Operand::Q { data: &w, ty: Quant::Q4_0 },
        None,
        odd,
        5,
        32,
        10,
    )
    .unwrap();
    assert_eq!(kernels(&gpu), vec![Kernel::Gemm]);
}

#[test]
fn a_shared_activation_is_quantized_once() {
    let (a, w): (CudaSlice<Fp32>, CudaSlice<u8>) = (given(0, 4096), given(1, 3 * 64 * 16 * 144));
    let mut gpu = Gpu::new();
    let batch = Batch { count: 3, a: 0, w: 64 * 4096, out: 64, w_row: 0 };
    gpu.gemm_batched(
        Operand::F32(&a),
        Operand::Q { data: &w, ty: Quant::Q4K },
        None,
        batch,
        1,
        4096,
        64,
    )
    .unwrap();
    assert_eq!(gpu.commands[1], buffer(Elem::I8, 4096 + 128 * 4, false));
    let Command::Launch(run) = &gpu.commands[3] else { panic!("a launch") };
    // The kernel is told to stop advancing between products.
    assert_eq!(run.args[18], n(0));
    assert_eq!(run.cfg, cfg((8, 1, 3), (32, 8, 1)));
}

#[test]
fn one_product_is_a_batch_of_one() {
    assert_eq!(
        Batch::single(77),
        Batch { count: 1, a: 0, w: 0, out: 77, w_row: 0 }
    );
}

#[test]
fn a_first_row_moves_the_weight_and_nothing_else() {
    let (a, b): (CudaSlice<Fp32>, CudaSlice<Fp32>) = (given(0, 96 * 256), given(2, 512));
    let (full, half): (CudaSlice<Fp32>, CudaSlice<u16>) =
        (given(1, 700 * 256), given(1, 700 * 256));
    let packed: CudaSlice<u8> = given(1, 700 * 256);
    let cases = [
        (Operand::F32(&full), 256),
        (Operand::F16(&half), 256),
        (Operand::Q { data: &packed, ty: Quant::Q4K }, 144),
    ];
    for (w, row) in cases {
        for m in [1, 3, 96] {
            // A few rows share one stream of an unpacked weight from its first
            // row alone.
            if m == 3 && row == 256 {
                continue;
            }
            let run = |first: Option<usize>| {
                let mut gpu = Gpu::new();
                let (a, b) = (Operand::F32(&a), Some(&b));
                let batch = Batch::single(m * 512);
                match first {
                    None => gpu.gemm_batched(a, w, b, batch, m, 256, 512),
                    Some(r) => gpu.gemm_batched_from(a, w, r, b, batch, m, 256, 512),
                }
                .unwrap();
                gpu.commands
            };
            assert_eq!(run(Some(0)), run(None));
            let mut moved = 0;
            for (x, y) in run(None).iter().zip(run(Some(64)).iter()) {
                let (Command::Launch(x), Command::Launch(y)) = (x, y) else {
                    assert_eq!(x, y);
                    continue;
                };
                assert_eq!((x.kernel, x.cfg), (y.kernel, y.cfg));
                for (p, q) in x.args.iter().zip(y.args.iter()) {
                    if p != q {
                        let at = |offset| Arg::Ptr(DevicePtr { id: BufferId::Given(1), offset });
                        assert_eq!((p, q), (&at(0), &at(64 * row)));
                        moved += 1;
                    }
                }
            }
            assert_eq!(moved, 1);
        }
    }
}

#[test]
fn a_product_is_tested_before_it_is_asked_for() {
    let (a, w): (CudaSlice<Fp32>, CudaSlice<Fp32>) = (given(0, 64), given(1, 64));
    let fits = |first, batch, m, k, n| {
        Gpu::gemm_fits(Operand::F32(&a), Operand::F32(&w), first, None, batch, m, k, n)
    };
    assert!(fits(0, Batch::single(64), 8, 8, 8));
    assert!(!fits(0, Batch::single(64), usize::MAX, 8, 8));
    assert!(!fits(usize::MAX, Batch::single(64), 8, 8, 8));
    // A packed activation is refused before its sizes are computed.
    let data: CudaSlice<u8> = given(2, 64);
    let packed = Operand::Q { data: &data, ty: Quant::Q4K };
    assert!(Gpu::gemm_fits(packed, Operand::F32(&w), 0, None, Batch::single(64), usize::MAX, 8, 8));
    let r = Gpu::new().gemm_batched(
        packed, Operand::F32(&w), None, Batch::single(64), usize::MAX, 8, 8,
    );
    assert!(r.is_err());
}

/// Everything queued for one product with these strides.
fn alone(w: Operand<'_>, m: usize, a: usize, sw: usize, out: usize) -> Vec<Command> {
    let x: CudaSlice<Fp32> = given(0, 96 * 256);
    let mut gpu = Gpu::new();
    let batch = Batch { count: 1, a, w: sw, out, w_row: 0 };
    gpu.gemm_batched(Operand::F32(&x), w, None, batch, m, 256, 512).unwrap();
    gpu.commands
}

#[test]
fn one_product_queues_the_same_whatever_its_strides() {
    let (full, half): (CudaSlice<Fp32>, CudaSlice<u16>) =
        (given(1, 512 * 256), given(1, 512 * 256));
    let packed: CudaSlice<u8> = given(1, 512 * 272);
    let cases = [
        // The weight, and how many strides one row, a few and a tile pass on.
        (Operand::F32(&full), [3, 3, 3]),
        (Operand::F16(&half), [3, 3, 3]),
        (Operand::Q { data: &packed, ty: Quant::Q8_0 }, [3, 3, 3]),
        // With the activation's twice: to the twin, and not to an integer kernel
        // of several rows.
        (Operand::Q { data: &packed, ty: Quant::Q4K }, [4, 3, 3]),
        (Operand::Q { data: &packed, ty: Quant::Q6K }, [4, 3, 3]),
    ];
    for (w, passed) in cases {
        for (m, passed) in [1, 3, 96].into_iter().zip(passed) {
            let (x, y) = (alone(w, m, 10, 20, 30), alone(w, m, 44, 55, 66));
            assert_eq!(x.len(), y.len());
            let mut differ = 0;
            for (x, y) in x.iter().zip(y.iter()) {
                let (Command::Launch(x), Command::Launch(y)) = (x, y) else {
                    assert_eq!(x, y);
                    continue;
                };
                assert_eq!((x.kernel, x.cfg), (y.kernel, y.cfg));
                assert_eq!(x.args.len(), y.args.len());
                for (p, q) in x.args.iter().zip(y.args.iter()) {
                    if p != q {
                        assert!([(l(10), l(44)), (l(20), l(55)), (l(30), l(66))]
                            .iter()
                            .any(|(s, t)| (p, q) == (s, t)));
                        differ += 1;
                    }
                }
            }
            assert_eq!(differ, passed, "{m} rows");
        }
    }
}

#[test]
fn an_odd_stride_is_not_rounded_up_front() {
    let packed: CudaSlice<u8> = given(1, 512 * 272);
    let w = Operand::Q { data: &packed, ty: Quant::Q8_0 };
    let rounds = |a| {
        alone(w, 96, a, 0, 0)
            .iter()
            .any(|c| matches!(c, Command::Launch(l) if l.kernel == Kernel::PackF16))
    };
    assert!(rounds(0) && rounds(44));
    assert!(!rounds(1) && !rounds(45));
}

#[test]
fn a_twin_stands_in_for_the_one_that_would_be_taken() {
    let x: CudaSlice<Fp32> = given(0, 96 * 256);
    let half: CudaSlice<u16> = given(1, 512 * 256);
    let packed: CudaSlice<u8> = given(1, 512 * 272);
    for m in [1, 3, 96] {
        let q8 = twin(7, m, 256);
        let run = |a, w| {
            let mut gpu = Gpu::new();
            gpu.gemm_batched(a, w, None, Batch::single(m * 512), m, 256, 512).unwrap();
            gpu.commands
        };
        let (plain, with) = (Operand::F32(&x), Operand::F32Q { data: &x, q8: &q8 });
        // No kernel reads it: nothing changes.
        for w in [Operand::F16(&half), Operand::Q { data: &packed, ty: Quant::Q8_0 }] {
            assert_eq!(run(plain, w), run(with, w));
        }
        // One does: the two commands that take it are gone, and the codes are the
        // caller's.
        let w = Operand::Q { data: &packed, ty: Quant::Q4K };
        let (taken, given_over) = (run(plain, w), run(with, w));
        assert_eq!(taken.len(), given_over.len() + 2);
        assert_eq!(taken[0], given_over[0]);
        let product = |cs: &[Command]| {
            let at = cs.iter().rposition(|c| match c {
                Command::Launch(l) => l.kernel != Kernel::GemmReduce,
                _ => false,
            });
            at.unwrap()
        };
        let (i, j) = (product(&taken), product(&given_over));
        let (Command::Launch(p), Command::Launch(q)) = (&taken[i], &given_over[j]) else {
            panic!("launches")
        };
        assert_eq!((p.kernel, p.cfg), (q.kernel, q.cfg));
        let place = [16, 3, 0][[1, 3, 96].iter().position(|&r| r == m).unwrap()];
        for (at, (p, q)) in p.args.iter().zip(q.args.iter()).enumerate() {
            if at == place {
                assert_eq!((p, q), (&made(1), &g(7)));
            } else if m == 96 && at == 13 && *p != Arg::Null {
                assert_eq!((p, q), (&made(3), &made(1)));
            } else {
                assert_eq!(p, q);
            }
        }
    }
}
