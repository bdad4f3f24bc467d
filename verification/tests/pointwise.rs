use xabe_cuda::{
    Arg, BufferId, Command, CudaError, CudaSlice, DevicePtr, Elem, FloatBits, Fp32, Gpu, Kernel,
    Launch, LaunchConfig, Quant,
};

fn given<T>(i: usize, len: usize) -> CudaSlice<T> {
    CudaSlice::new(BufferId::Given(i), len)
}

fn g(i: usize) -> Arg {
    Arg::Ptr(DevicePtr { id: BufferId::Given(i), offset: 0 })
}

fn made(i: usize) -> Arg {
    Arg::Ptr(DevicePtr { id: BufferId::Made(i), offset: 0 })
}

fn n(v: i32) -> Arg {
    Arg::I32(v)
}

fn last(gpu: &Gpu) -> &Launch {
    match gpu.commands.last() {
        Some(Command::Launch(l)) => l,
        other => panic!("{other:?}"),
    }
}

type Buf = CudaSlice<Fp32>;

fn flat(blocks: u32) -> LaunchConfig {
    LaunchConfig { grid_dim: (blocks, 1, 1), block_dim: (256, 1, 1), shared_mem_bytes: 0 }
}

#[test]
fn launches_cover_their_elements() {
    assert_eq!(LaunchConfig::flat(0), flat(1));
    assert_eq!(LaunchConfig::flat(1), flat(1));
    assert_eq!(LaunchConfig::flat(256), flat(1));
    assert_eq!(LaunchConfig::flat(257), flat(2));
    assert_eq!(LaunchConfig::flat(1_000_000), flat(3907));
    assert_eq!(
        LaunchConfig::per_row(7),
        LaunchConfig { grid_dim: (7, 1, 1), block_dim: (256, 1, 1), shared_mem_bytes: 1024 }
    );
    for (elems, blocks) in [(0usize, 0), (1, 1), (1024, 1), (1025, 2), (1_000_000, 977)] {
        assert_eq!(
            LaunchConfig::for_num_elems(elems),
            LaunchConfig { grid_dim: (blocks, 1, 1), block_dim: (1024, 1, 1), shared_mem_bytes: 0 }
        );
    }
}

#[test]
fn activations_are_one_launch_each() {
    let x: Buf = given(0, 1000);
    let mut gpu = Gpu::new();
    gpu.relu(&x, 1000);
    gpu.tanh(&x, 1000);
    gpu.gelu(&x, 1000);
    gpu.silu(&x, 1000);
    gpu.gelu_tanh(&x, 1000);
    gpu.mish(&x, 1000);
    gpu.elu(&x, 1000);
    let kernels = [
        Kernel::ActRelu, Kernel::ActTanh, Kernel::ActGelu, Kernel::ActSilu, Kernel::ActGeluTanh,
        Kernel::ActMish, Kernel::ActElu,
    ];
    assert_eq!(gpu.commands.len(), kernels.len());
    for (c, kernel) in gpu.commands.iter().zip(kernels) {
        let Command::Launch(run) = c else { panic!("a launch") };
        assert_eq!((run.kernel, run.label), (kernel, kernel));
        assert_eq!(run.args, vec![g(0), n(1000)]);
        assert_eq!(run.cfg, flat(4));
    }
    gpu.leaky_relu(&x, 1000, FloatBits(0.1f32.to_bits()));
    assert_eq!(
        last(&gpu).args,
        vec![g(0), n(1000), Arg::Float(FloatBits(0.1f32.to_bits()))]
    );
}

#[test]
fn the_narrow_gelu_writes_elsewhere() {
    let x: Buf = given(0, 1000);
    let mut gpu = Gpu::new();
    let out: CudaSlice<u16> = gpu.gelu_f16(&x, 1000);
    assert_eq!((out.id, out.len), (BufferId::Made(0), 1000));
    assert_eq!(gpu.commands[0], Command::Alloc { elem: Elem::U16, len: 1000, zeroed: false });
    assert_eq!(last(&gpu).args, vec![g(0), made(0), n(1000)]);
    gpu.to_f16(&x, 500);
    assert_eq!(gpu.commands[2], Command::Alloc { elem: Elem::U16, len: 500, zeroed: true });
    assert_eq!(last(&gpu).kernel, Kernel::PackF16);
}

#[test]
fn gates_and_couplings_name_their_shape() {
    let (a, b, c, d): (Buf, Buf, Buf, Buf) = (given(0, 9999), given(1, 9999), given(2, 64), given(3, 64));
    let mut gpu = Gpu::new();
    assert_eq!(gpu.gated_activation(&a, 192, 20).len, 3840);
    assert_eq!(last(&gpu).args, vec![g(0), made(0), n(192), n(20)]);
    assert_eq!(gpu.gated_activation_rows(&a, 192, 20).len, 3840);
    assert_eq!(last(&gpu).kernel, Kernel::GatedActivationRows);
    gpu.lstm_gates(&a, &b, &c, &d, 64);
    assert_eq!(last(&gpu).args, vec![g(0), g(1), g(2), g(3), n(64)]);
    assert_eq!(gpu.coupling_inverse(&a, &b, 4, 100).len, 400);
    assert_eq!(last(&gpu).args, vec![g(0), g(1), made(5), n(4), n(100)]);
    gpu.snake(&a, &c, 64, 30);
    assert_eq!(last(&gpu).args, vec![g(0), g(2), n(64), n(30)]);
    assert_eq!(last(&gpu).cfg, flat(8));
}

#[test]
fn arithmetic_is_in_place() {
    let (a, b): (Buf, Buf) = (given(0, 1000), given(1, 9000));
    let mut gpu = Gpu::new();
    gpu.add_inplace(&a, &b, 1000);
    gpu.sub_inplace(&a, &b, 1000);
    gpu.mul_inplace(&a, &b, 1000);
    for (c, kernel) in gpu
        .commands
        .iter()
        .zip([Kernel::AddInplace, Kernel::SubInplace, Kernel::MulInplace])
    {
        let Command::Launch(run) = c else { panic!("a launch") };
        assert_eq!(run.kernel, kernel);
        assert_eq!(run.args, vec![g(0), g(1), n(1000)]);
    }
    gpu.scale_inplace(&a, 1000, FloatBits(7));
    assert_eq!(last(&gpu).args, vec![g(0), n(1000), Arg::Float(FloatBits(7))]);
    gpu.add_strided(&a, &b, 10, 90, 20, 100);
    assert_eq!(last(&gpu).args, vec![g(0), g(1), n(10), n(90), n(20), n(100)]);
    assert_eq!(last(&gpu).cfg, flat(4));
    assert_eq!(gpu.commands.len(), 5);
}

#[test]
fn copies_and_layouts_name_their_ranges() {
    let (a, b): (Buf, Buf) = (given(0, 1000), given(1, 1000));
    let mut gpu = Gpu::new();
    assert_eq!(gpu.copy_range(&a, 100, 300).len, 300);
    assert_eq!(last(&gpu).args, vec![g(0), made(0), n(100), n(300)]);
    gpu.copy_into(&a, &b, 100, 300);
    assert_eq!(last(&gpu).args, vec![g(0), g(1), n(100), n(300)]);
    assert_eq!(gpu.transpose(&a, 20, 50).len, 1000);
    assert_eq!(last(&gpu).args, vec![g(0), made(3), n(20), n(50)]);
    assert_eq!(gpu.flip_channels(&a, 20, 50).len, 1000);
    assert_eq!(last(&gpu).kernel, Kernel::FlipChannels);
    assert_eq!(gpu.upsample_nearest(&a, 20, 50, 8).len, 8000);
    assert_eq!(last(&gpu).args, vec![g(0), made(7), n(20), n(50), n(8)]);
    assert_eq!(last(&gpu).cfg, flat(32));
}

#[test]
fn lookups_and_projections_name_their_shape() {
    let (table, w, b): (Buf, Buf, Buf) = (given(0, 9999), given(1, 9999), given(2, 9999));
    let ids: CudaSlice<i64> = given(3, 12);
    let align: CudaSlice<i32> = given(4, 40);
    let mut gpu = Gpu::new();
    let s = FloatBits(13.856406f32.to_bits());
    assert_eq!(gpu.embed_scaled(&table, &ids, 12, 192, s).len, 12 * 192);
    assert_eq!(
        last(&gpu).args,
        vec![g(0), g(3), made(0), n(12), n(192), Arg::Float(s)]
    );
    assert_eq!(gpu.linear(&table, &w, None, 12, 192, 96).len, 12 * 96);
    assert_eq!(
        last(&gpu).args,
        vec![g(0), g(1), Arg::Null, made(2), n(12), n(192), n(96)]
    );
    assert_eq!(gpu.expand_prior(&table, &w, &align, &b, 192, 40, s).len, 192 * 40);
    assert_eq!(
        last(&gpu).args,
        vec![g(0), g(1), g(4), g(2), made(4), n(192), n(40), Arg::Float(s)]
    );
    assert_eq!(last(&gpu).cfg, flat(30));
}

#[test]
fn a_checked_copy_names_the_worst_of_both_ends() {
    let (a, b): (Buf, Buf) = (given(0, 100), given(1, 50));
    let mut gpu = Gpu::new();
    assert_eq!(
        gpu.copy_from_into(&a, 91, &b, 0, 10),
        Err(CudaError::SliceOverrun { at: 101, len: 50 })
    );
    assert_eq!(
        gpu.copy_from_into(&a, 0, &b, 41, 10),
        Err(CudaError::SliceOverrun { at: 51, len: 50 })
    );
    assert!(gpu.commands.is_empty());
    gpu.copy_from_into(&a, 90, &b, 40, 10).unwrap();
    assert_eq!(last(&gpu).args, vec![g(0), n(90), g(1), n(40), n(10)]);
}

#[test]
fn a_concatenation_checks_three_buffers() {
    let (d, a, b): (Buf, Buf, Buf) = (given(0, 30), given(1, 20), given(2, 10));
    let mut gpu = Gpu::new();
    let mut run = |na, nb| gpu.concat2(&d, &a, na, &b, nb).err();
    assert_eq!(run(21, 9), Some(CudaError::SliceOverrun { at: 30, len: 29 }));
    assert_eq!(run(19, 11), Some(CudaError::SliceOverrun { at: 30, len: 29 }));
    assert_eq!(run(20, 11), Some(CudaError::SliceOverrun { at: 31, len: 30 }));
    assert_eq!(run(20, 10), None);
    assert_eq!(last(&gpu).args, vec![g(0), g(1), n(20), g(2), n(10)]);
}

#[test]
fn the_dropout_and_the_gate_check_their_ranges() {
    let (y, m): (Buf, Buf) = (given(0, 64), given(1, 100));
    let mut gpu = Gpu::new();
    assert_eq!(
        gpu.relu_mask(&y, &m, 40, 61),
        Err(CudaError::SliceOverrun { at: 101, len: 100 })
    );
    assert_eq!(
        gpu.relu_mask(&y, &m, 0, 65),
        Err(CudaError::SliceOverrun { at: 65, len: 64 })
    );
    gpu.relu_mask(&y, &m, 36, 64).unwrap();
    assert_eq!(last(&gpu).args, vec![g(0), g(1), n(36), n(64)]);
    assert_eq!(
        gpu.gate_add(&y, &m, &m, 0, 5, 16),
        Err(CudaError::SliceOverrun { at: 80, len: 64 })
    );
    assert_eq!(
        gpu.gate_add(&y, &m, &m, 85, 4, 16),
        Err(CudaError::SliceOverrun { at: 101, len: 100 })
    );
    gpu.gate_add(&y, &m, &m, 84, 4, 16).unwrap();
    assert_eq!(last(&gpu).args, vec![g(0), g(1), g(1), n(84), n(16), n(64)]);
}

#[test]
fn running_weights_are_two_halves() {
    let (cat, al): (Buf, Buf) = (given(0, 40), given(1, 19));
    let mut gpu = Gpu::new();
    assert_eq!(
        gpu.attn_weights_update(&cat, &al, 20),
        Err(CudaError::SliceOverrun { at: 40, len: 38 })
    );
    assert_eq!(
        gpu.attn_weights_update(&cat, &al, 21),
        Err(CudaError::SliceOverrun { at: 42, len: 38 })
    );
    gpu.attn_weights_update(&cat, &al, 19).unwrap();
    assert_eq!(last(&gpu).args, vec![g(0), g(1), n(19)]);
}

#[test]
fn a_packed_lookup_wants_whole_blocks() {
    let table: CudaSlice<u8> = given(0, 224 * 100);
    let ids: CudaSlice<i64> = given(1, 3);
    let mut gpu = Gpu::new();
    let one = FloatBits(1f32.to_bits());
    assert_eq!(
        gpu.embed_packed(&table, Quant::Q6K, &ids, 3, 500, one).err(),
        Some(CudaError::RaggedBlock { k: 500, block: 256 })
    );
    assert_eq!(
        gpu.embed_packed(&table, Quant::Q6K, &ids, 4, 512, one).err(),
        Some(CudaError::SliceOverrun { at: 4, len: 3 })
    );
    let out = gpu.embed_packed(&table, Quant::Q6K, &ids, 3, 512, one).unwrap();
    assert_eq!(out.len, 1536);
    assert_eq!(
        last(&gpu).args,
        vec![
            g(0), n(14), n(256), n(224), g(1), made(0), n(3), n(512), Arg::Float(one),
        ]
    );
    assert_eq!(last(&gpu).cfg, flat(3));
    // No rows: an empty buffer, and nothing to launch.
    let was = gpu.commands.len();
    let out = gpu.embed_packed(&table, Quant::Q8_0, &ids, 0, 64, one).unwrap();
    assert_eq!(out.len, 0);
    assert_eq!(
        gpu.commands[was..],
        [Command::Alloc { elem: Elem::F32, len: 0, zeroed: false }]
    );
}
