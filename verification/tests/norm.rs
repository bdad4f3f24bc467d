use xabe_cuda::{
    Arg, BufferId, Command, CudaError, CudaSlice, DevicePtr, Elem, FloatBits, Fp32, Gpu, Kernel,
    Launch, LaunchConfig, Q8,
};

fn given<T>(i: usize, len: usize) -> CudaSlice<T> {
    CudaSlice::new(BufferId::Given(i), len)
}

fn g(i: usize) -> Arg {
    Arg::Ptr(DevicePtr { id: BufferId::Given(i), offset: 0 })
}

fn made(i: usize) -> Arg {
    Arg::Ptr(DevicePtr { id: BufferId::Made(i), offset: 0 })
}

fn n(v: i32) -> Arg {
    Arg::I32(v)
}

fn last(gpu: &Gpu) -> &Launch {
    match gpu.commands.last() {
        Some(Command::Launch(l)) => l,
        other => panic!("{other:?}"),
    }
}

type Buf = CudaSlice<Fp32>;

const EPS: FloatBits = FloatBits(0x3727_c5ac);

#[test]
fn a_layer_norm_is_a_block_a_row() {
    let (x, w, b): (Buf, Buf, Buf) = (given(0, 1500 * 1280), given(1, 1280), given(2, 1280));
    let mut gpu = Gpu::new();
    let out = gpu.layer_norm(&x, 1500, 1280, &w, &b, EPS);
    assert_eq!((out.id, out.len), (BufferId::Made(0), 1500 * 1280));
    assert_eq!(
        gpu.commands[0],
        Command::Alloc { elem: Elem::F32, len: 1500 * 1280, zeroed: false }
    );
    assert_eq!(
        last(&gpu).args,
        vec![g(0), g(1), g(2), made(0), n(1280), Arg::Float(EPS)]
    );
    assert_eq!(
        last(&gpu).cfg,
        LaunchConfig { grid_dim: (1500, 1, 1), block_dim: (256, 1, 1), shared_mem_bytes: 1024 }
    );
}

#[test]
fn the_residual_sum_and_its_norm_are_one_launch() {
    let (h, r, w, b): (Buf, Buf, Buf, Buf) = (given(0, 64), given(1, 64), given(2, 32), given(3, 32));
    let mut gpu = Gpu::new();
    gpu.layer_norm_add(&h, &r, 2, 32, &w, &b, EPS);
    assert_eq!(last(&gpu).kernel, Kernel::LayerNormAdd);
    let out: CudaSlice<u16> = gpu.layer_norm_add_f16(&h, &r, 2, 32, &w, &b, EPS);
    assert_eq!((out.id, out.len), (BufferId::Made(2), 64));
    assert_eq!(gpu.commands[2], Command::Alloc { elem: Elem::U16, len: 64, zeroed: false });
    assert_eq!(last(&gpu).kernel, Kernel::LayerNormAddF16);
    assert_eq!(
        last(&gpu).args,
        vec![g(0), g(1), g(2), g(3), made(2), n(32), Arg::Float(EPS)]
    );
}

#[test]
fn a_modulated_norm_checks_its_segments() {
    let (x, mods): (Buf, Buf) = (given(0, 64), given(1, 96));
    let mut gpu = Gpu::new();
    let mut run = |rows, shift, scale| gpu.layer_norm_mod(&x, rows, 32, &mods, shift, scale, EPS);
    assert_eq!(run(2, 65, 0).err(), Some(CudaError::SliceOverrun { at: 97, len: 96 }));
    assert_eq!(run(2, 0, 68).err(), Some(CudaError::SliceOverrun { at: 100, len: 96 }));
    assert_eq!(run(3, 0, 32).err(), Some(CudaError::SliceOverrun { at: 96, len: 64 }));
    let odd = |offset| {
        Some(CudaError::Misaligned { what: "a modulation segment", offset, align: 4 })
    };
    assert_eq!(run(2, 0, 33).err(), odd(33));
    assert_eq!(run(2, 34, 0).err(), odd(34));
    assert_eq!(run(2, 35, 33).err(), odd(35));
    assert_eq!(run(2, 32, 64).map(|o| o.len), Ok(64));
    assert_eq!(
        last(&gpu).args,
        vec![g(0), g(1), n(32), n(64), made(0), n(32), Arg::Float(EPS)]
    );
}

#[test]
fn softmaxes_work_in_place() {
    let x: Buf = given(0, 640);
    let mut gpu = Gpu::new();
    gpu.softmax_rows(&x, 20, 32);
    assert_eq!(last(&gpu).args, vec![g(0), n(32)]);
    gpu.softmax_causal(&x, 20, 32, 4, 28, EPS);
    assert_eq!(last(&gpu).args, vec![g(0), n(32), n(4), n(28), Arg::Float(EPS)]);
    assert_eq!(
        last(&gpu).cfg,
        LaunchConfig { grid_dim: (20, 1, 1), block_dim: (256, 1, 1), shared_mem_bytes: 0 }
    );
    assert_eq!(gpu.commands.len(), 2);
}

#[test]
fn a_plain_rms_norm_takes_threads_by_the_row() {
    let (x, w): (Buf, Buf) = (given(0, 100_000), given(1, 5120));
    let mut gpu = Gpu::new();
    for (dim, threads) in
        [(0usize, 32), (1, 32), (32, 32), (33, 64), (100, 128), (512, 512), (1024, 1024), (5120, 1024)]
    {
        gpu.rms_norm(&x, 3, dim, &w, EPS);
        assert_eq!(last(&gpu).cfg.block_dim, (threads, 1, 1));
        assert_eq!(last(&gpu).cfg.grid_dim, (3, 1, 1));
    }
    assert_eq!(
        last(&gpu).args,
        vec![
            g(0), Arg::Null, g(1), made(14), Arg::Null, n(0), n(5120), Arg::Float(EPS),
        ]
    );
}

#[test]
fn a_norm_with_a_twin_wants_whole_groups() {
    let (x, add, w): (Buf, Buf, Buf) = (given(0, 8192), given(1, 8192), given(2, 4096));
    let mut gpu = Gpu::new();
    assert_eq!(
        gpu.rms_norm_q(&x, None, 2, 4095, &w, EPS).err(),
        Some(CudaError::RaggedBlock { k: 4095, block: 32 })
    );
    assert!(gpu.commands.is_empty());
    let (out, twin) = gpu.rms_norm_q(&x, Some(&add), 2, 4096, &w, EPS).unwrap();
    assert_eq!(out.len, 8192);
    assert_eq!((twin.buf.len, twin.rows, twin.k), (8192 + 1024, 2, 4096));
    assert_eq!(
        last(&gpu).args,
        vec![
            g(0), g(1), g(2), made(0), made(1), n(8192), n(4096), Arg::Float(EPS),
        ]
    );
    assert_eq!(last(&gpu).cfg.block_dim, (1024, 1, 1));
}

#[test]
fn a_gate_with_a_twin_names_its_shape() {
    let (a, b): (Buf, Buf) = (given(0, 28_672), given(1, 28_672));
    let mut gpu = Gpu::new();
    let q: Q8 = gpu.silu_mul_q(&a, &b, 2, 14_336).unwrap();
    assert_eq!(q.shape(), (2, 14_336));
    assert_eq!(q.buf.len, 28_672 + 3584);
    assert_eq!(last(&gpu).args, vec![g(0), g(1), made(0), n(28_672), n(28_672)]);
    assert_eq!(last(&gpu).cfg.grid_dim, (112, 1, 1));
    let q: Q8 = gpu.silu_mul_pair(&a, 1, 14_336).unwrap();
    assert_eq!(q.shape(), (1, 14_336));
    assert_eq!(last(&gpu).args, vec![g(0), made(2), n(14_336), n(14_336)]);
}

#[test]
fn a_gate_with_a_twin_wants_whole_blocks() {
    let (a, b): (Buf, Buf) = (given(0, 10_000), given(1, 10_000));
    let mut gpu = Gpu::new();
    let ragged = |k| Some(CudaError::RaggedBlock { k, block: 256 });
    assert_eq!(gpu.silu_mul_q(&a, &b, 1, 128).err(), ragged(128));
    assert_eq!(gpu.silu_mul_q(&a, &b, 16, 48).err(), ragged(768));
    assert_eq!(gpu.silu_mul_pair(&a, 1, 128).err(), ragged(128));
    assert_eq!(gpu.silu_mul_pair(&a, 16, 48).err(), ragged(768));
    assert!(gpu.silu_mul_q(&a, &b, 4, 64).is_ok());
}

#[test]
fn a_gate_without_a_twin_passes_nothing() {
    let (a, b): (Buf, Buf) = (given(0, 100), given(1, 100));
    let mut gpu = Gpu::new();
    gpu.silu_mul(&a, &b, 100);
    assert_eq!(last(&gpu).args, vec![g(0), g(1), Arg::Null, n(0), n(100)]);
    gpu.silu_mul_halves(&a, 50);
    assert_eq!(last(&gpu).args, vec![g(0), Arg::Null, n(0), n(50)]);
    assert_eq!(last(&gpu).kernel, Kernel::SiluMulPair);
    assert_eq!(gpu.commands.len(), 2);
}
