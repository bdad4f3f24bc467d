use xabe_cuda::{
    Arg, BufferId, Command, CudaError, CudaSlice, DevicePtr, Elem, Fp32, Gpu, Kernel, Launch,
    LaunchConfig,
};

fn given<T>(i: usize, len: usize) -> CudaSlice<T> {
    CudaSlice::new(BufferId::Given(i), len)
}

fn at(i: usize, offset: usize) -> Arg {
    Arg::Ptr(DevicePtr { id: BufferId::Given(i), offset })
}

fn made(i: usize) -> Arg {
    Arg::Ptr(DevicePtr { id: BufferId::Made(i), offset: 0 })
}

fn n(v: i32) -> Arg {
    Arg::I32(v)
}

fn last(gpu: &Gpu) -> &Launch {
    match gpu.commands.last() {
        Some(Command::Launch(l)) => l,
        other => panic!("{other:?}"),
    }
}

type Buf = CudaSlice<Fp32>;

fn flat(blocks: u32) -> LaunchConfig {
    LaunchConfig { grid_dim: (blocks, 1, 1), block_dim: (256, 1, 1), shared_mem_bytes: 0 }
}

fn tiled(x: u32, y: u32) -> LaunchConfig {
    LaunchConfig { grid_dim: (x, y, 1), block_dim: (32, 8, 1), shared_mem_bytes: 0 }
}

#[test]
fn the_transposing_split_is_tiled_and_the_other_flat() {
    let x: Buf = given(0, 33 * 1280);
    let mut gpu = Gpu::new();
    let out = gpu.split_heads(&x, 33, 20, 64);
    assert_eq!((out.id, out.len), (BufferId::Made(0), 33 * 1280));
    assert_eq!(
        gpu.commands[0],
        Command::Alloc { elem: Elem::F32, len: 33 * 1280, zeroed: false }
    );
    assert_eq!(last(&gpu).args, vec![at(0, 0), made(0), n(33), n(20), n(64)]);
    assert_eq!((last(&gpu).kernel, last(&gpu).cfg), (Kernel::SplitHeads, flat(165)));
    gpu.split_heads_t(&x, 33, 20, 64);
    assert_eq!((last(&gpu).kernel, last(&gpu).cfg), (Kernel::SplitHeadsT, tiled(40, 2)));
}

#[test]
fn the_narrow_splits_start_anywhere() {
    let (x, b): (Buf, Buf) = (given(0, 3 * 640), given(1, 3 * 64));
    let mut gpu = Gpu::new();
    let out = gpu.split_heads_f16(&x, 10, 4, 16).unwrap();
    assert_eq!(out.len, 640);
    assert_eq!(gpu.commands[0], Command::Alloc { elem: Elem::U16, len: 640, zeroed: true });
    assert_eq!(
        last(&gpu).args,
        vec![at(0, 0), Arg::Null, made(0), n(10), n(4), n(16)]
    );
    gpu.split_heads_t_f16(&x, 10, 4, 16).unwrap();
    assert_eq!(last(&gpu).cfg, tiled(2, 1));
    gpu.split_heads_f16_at(&x, 1280, Some((&b, 128)), 10, 4, 16).unwrap();
    assert_eq!(last(&gpu).kernel, Kernel::SplitHeadsF16);
    assert_eq!(
        last(&gpu).args,
        vec![at(0, 1280), at(1, 128), made(4), n(10), n(4), n(16)]
    );
    gpu.split_heads_t_f16_at(&x, 1, None, 10, 4, 16).unwrap();
    assert_eq!(last(&gpu).kernel, Kernel::SplitHeadsTF16);
    assert_eq!(&last(&gpu).args[..2], &[at(0, 1), Arg::Null]);
}

#[test]
fn a_split_past_the_end_is_refused() {
    let (x, b): (Buf, Buf) = (given(0, 3 * 640), given(1, 3 * 64));
    let mut gpu = Gpu::new();
    assert_eq!(
        gpu.split_heads_f16_at(&x, 1281, None, 10, 4, 16).err(),
        Some(CudaError::SliceOverrun { at: 1921, len: 1920 })
    );
    assert_eq!(
        gpu.split_heads_t_f16_at(&x, 0, Some((&b, 129)), 10, 4, 16).err(),
        Some(CudaError::SliceOverrun { at: 193, len: 192 })
    );
    assert_eq!(
        gpu.split_heads_f16(&x, 31, 4, 16).err(),
        Some(CudaError::SliceOverrun { at: 1984, len: 1920 })
    );
    assert!(gpu.commands.is_empty());
}

#[test]
fn a_merge_may_take_its_twin() {
    let x: Buf = given(0, 2 * 4096);
    let mut gpu = Gpu::new();
    let out = gpu.merge_heads(&x, 2, 32, 128);
    assert_eq!(out.len, 8192);
    assert_eq!(gpu.commands[0], Command::Alloc { elem: Elem::F32, len: 8192, zeroed: true });
    assert_eq!(
        last(&gpu).args,
        vec![at(0, 0), made(0), Arg::Null, n(0), n(2), n(32), n(128)]
    );
    let (out, twin) = gpu.merge_heads_q(&x, 2, 32, 128).unwrap();
    assert_eq!((out.id, twin.buf.id), (BufferId::Made(2), BufferId::Made(3)));
    assert_eq!((twin.rows, twin.k, twin.buf.len), (2, 4096, 8192 + 1024));
    assert_eq!(
        last(&gpu).args,
        vec![at(0, 0), made(2), made(3), n(8192), n(2), n(32), n(128)]
    );
    assert_eq!(
        gpu.merge_heads_q(&x, 2, 3, 5).err(),
        Some(CudaError::RaggedBlock { k: 15, block: 32 })
    );
}

/// What the split kernel does with its arguments.
fn run_split(run: &Launch, src: &[u32]) -> Vec<u32> {
    let [_, _, Arg::I32(t), Arg::I32(heads), Arg::I32(hd)] = run.args[..] else {
        panic!("a split")
    };
    let (t, heads, hd) = (t as usize, heads as usize, hd as usize);
    let mut dst = vec![0; src.len()];
    for (i, &v) in src.iter().enumerate() {
        let (row, h, j) = (i / (heads * hd), (i / hd) % heads, i % hd);
        dst[(h * t + row) * hd + j] = v;
    }
    dst
}

/// What the merge kernel does with its arguments.
fn run_merge(run: &Launch, src: &[u32]) -> Vec<u32> {
    let [_, _, _, _, Arg::I32(t), Arg::I32(heads), Arg::I32(hd)] = run.args[..] else {
        panic!("a merge")
    };
    let (t, heads, hd) = (t as usize, heads as usize, hd as usize);
    let mut dst = vec![0; src.len()];
    for (i, slot) in dst.iter_mut().enumerate() {
        let (row, h, j) = (i / (heads * hd), (i / hd) % heads, i % hd);
        *slot = src[(h * t + row) * hd + j];
    }
    dst
}

#[test]
fn merging_a_split_is_the_identity() {
    let x: Buf = given(0, 24);
    let rows: Vec<u32> = (0..24).collect();
    let mut gpu = Gpu::new();
    let split = gpu.split_heads(&x, 3, 2, 4);
    let apart = run_split(last(&gpu), &rows);
    assert_eq!(apart[..8], [0, 1, 2, 3, 8, 9, 10, 11]);
    gpu.merge_heads(&split, 3, 2, 4);
    assert_eq!(run_merge(last(&gpu), &apart), rows);
}
