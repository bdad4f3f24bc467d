use xabe_cuda::{
    Arg, BufferId, Command, CudaError, CudaSlice, DevicePtr, Elem, FloatBits, Fp32, Gpu, Kernel,
    Launch, LaunchConfig,
};

fn given<T>(i: usize, len: usize) -> CudaSlice<T> {
    CudaSlice::new(BufferId::Given(i), len)
}

fn g(i: usize) -> Arg {
    Arg::Ptr(DevicePtr { id: BufferId::Given(i), offset: 0 })
}

fn made(i: usize) -> Arg {
    Arg::Ptr(DevicePtr { id: BufferId::Made(i), offset: 0 })
}

fn n(v: i32) -> Arg {
    Arg::I32(v)
}

fn last(gpu: &Gpu) -> &Launch {
    match gpu.commands.last() {
        Some(Command::Launch(l)) => l,
        other => panic!("{other:?}"),
    }
}

type Buf = CudaSlice<Fp32>;

const SCALE: FloatBits = FloatBits(0x3db5_04f3);

#[test]
fn relative_scores_scale_by_the_head() {
    let (q, k, e): (Buf, Buf, Buf) = (given(0, 30 * 192), given(1, 30 * 192), given(2, 9 * 96));
    let mut gpu = Gpu::new();
    let out = gpu.attention_scores(&q, &k, &e, 30, 192, 2, 4);
    assert_eq!(out.len, 2 * 30 * 30);
    assert_eq!(
        last(&gpu).args,
        vec![
            g(0), g(1), g(2), made(0), n(30), n(192), n(2), n(96), n(4), Arg::InvSqrt(96),
        ]
    );
    let ctx = gpu.attention_context(&out, &k, &e, 30, 192, 2, 4);
    assert_eq!(ctx.len, 30 * 192);
    assert_eq!(
        last(&gpu).args,
        vec![made(0), g(1), g(2), made(2), n(30), n(192), n(2), n(96), n(4)]
    );
    assert_eq!(last(&gpu).cfg.grid_dim, (23, 1, 1));
}

#[test]
fn a_mask_covers_every_score() {
    let s: Buf = given(0, 20 * 4 * 32);
    let mut gpu = Gpu::new();
    gpu.causal_mask(&s, 20, 4, 32, 28);
    assert_eq!(last(&gpu).args, vec![g(0), n(20), n(4), n(32), n(28)]);
    assert_eq!(last(&gpu).cfg.grid_dim, (10, 1, 1));
}

#[test]
fn grouped_heads_are_widened() {
    let kv: Buf = given(0, 8 * 10 * 128);
    let mut gpu = Gpu::new();
    let wide = gpu.repeat_kv(&kv, 32, 8, 10, 128);
    assert_eq!(wide.len, 32 * 10 * 128);
    assert_eq!(last(&gpu).args, vec![g(0), made(0), n(32), n(4), n(10), n(128)]);
}

#[test]
fn the_fused_attention_covers_its_queries() {
    let (q, k, v): (Buf, Buf, Buf) = (given(0, 9999), given(1, 9999), given(2, 9999));
    let mut gpu = Gpu::new();
    let out = gpu.flash_attn(&q, &k, &v, 33, 7, 32, 8, 128, 512, SCALE, true).unwrap();
    assert_eq!(out.len, 33 * 4096);
    assert_eq!(
        last(&gpu).args,
        vec![
            g(0), g(1), g(2), made(0), n(33), n(7), n(32), n(8), n(512), Arg::Float(SCALE), n(1),
        ]
    );
    assert_eq!(
        last(&gpu).cfg,
        LaunchConfig { grid_dim: (2, 32, 1), block_dim: (32, 8, 1), shared_mem_bytes: 0 }
    );
    gpu.flash_attn(&q, &k, &v, 1500, 0, 20, 20, 64, 1500, SCALE, false).unwrap();
    assert_eq!(last(&gpu).kernel, Kernel::FlashAttn64);
    assert_eq!(last(&gpu).cfg.grid_dim, (24, 20, 1));
    assert_eq!(last(&gpu).args[10], n(0));
}

#[test]
fn a_shape_is_fused_exactly_when_it_is_supported() {
    let (q, k, v): (Buf, Buf, Buf) = (given(0, 9999), given(1, 9999), given(2, 9999));
    for head_dim in [0usize, 32, 64, 96, 128, 256] {
        for (heads, kv) in [(8usize, 8usize), (8, 2), (9, 2), (5, 0), (0, 3)] {
            let mut gpu = Gpu::new();
            let ok = gpu.supports_flash(head_dim, heads, kv);
            assert_eq!(ok, (head_dim == 64 || head_dim == 128) && (heads, kv) != (9, 2));
            let r = gpu.flash_attn(&q, &k, &v, 1, 0, heads, kv, head_dim, 8, SCALE, true);
            assert_eq!(r.is_ok(), ok);
            if !ok {
                assert_eq!(
                    r.err(),
                    Some(CudaError::UnsupportedAttention { head_dim, heads, kv_heads: kv })
                );
                assert!(gpu.commands.is_empty());
            }
        }
    }
}

#[test]
fn the_narrow_cache_is_fused_at_one_width() {
    let q: Buf = given(0, 9999);
    let (k, v): (CudaSlice<u16>, CudaSlice<u16>) = (given(1, 9999), given(2, 9999));
    let mut gpu = Gpu::new();
    let mut run = |heads, kv, hd, cap| {
        gpu.flash_attn_f16(&q, &k, &v, 5, 3, heads, kv, hd, cap, SCALE, true).err()
    };
    let refused = |heads, kv_heads, head_dim| {
        Some(CudaError::UnsupportedAttention { head_dim, heads, kv_heads })
    };
    assert_eq!(run(8, 8, 64, 512), refused(8, 8, 64));
    assert_eq!(run(8, 8, 64, 511), refused(8, 8, 64));
    assert_eq!(run(8, 3, 128, 511), Some(CudaError::OddCacheCapacity { cap: 511 }));
    assert_eq!(run(8, 3, 128, 512), refused(8, 3, 128));
    assert_eq!(run(8, 2, 128, 512), None);
    assert_eq!(last(&gpu).kernel, Kernel::FlashAttnH);
}

fn location(t: usize, f: usize, a: usize, e: usize) -> Vec<Buf> {
    [f * t, a * f, a, t * a, a, t * e, 2 * t, e]
        .iter()
        .enumerate()
        .map(|(i, &len)| given(i, len))
        .collect()
}

fn attend(gpu: &mut Gpu, b: &[Buf], t: usize, f: usize, a: usize, e: usize) -> Result<(), CudaError> {
    gpu.taco_attention(&b[0], &b[1], &b[2], &b[3], &b[4], &b[5], t, f, a, e, &b[6], &b[7])
}

#[test]
fn location_attention_is_two_launches() {
    let b = location(100, 32, 128, 512);
    let mut gpu = Gpu::new();
    assert_eq!(attend(&mut gpu, &b, 100, 32, 128, 512), Ok(()));
    assert_eq!(gpu.commands.len(), 3);
    assert_eq!(gpu.commands[0], Command::Alloc { elem: Elem::F32, len: 100, zeroed: false });
    let Command::Launch(energies) = &gpu.commands[1] else { panic!("a launch") };
    assert_eq!(
        energies.args,
        vec![g(0), g(1), g(2), g(3), g(4), made(0), n(100), n(32), n(128)]
    );
    assert_eq!(
        energies.cfg,
        LaunchConfig { grid_dim: (100, 1, 1), block_dim: (128, 1, 1), shared_mem_bytes: 512 }
    );
    assert_eq!(last(&gpu).args, vec![made(0), g(5), g(7), g(6), n(100), n(512)]);
    assert_eq!(
        last(&gpu).cfg,
        LaunchConfig { grid_dim: (1, 1, 1), block_dim: (512, 1, 1), shared_mem_bytes: 612 * 4 }
    );
}

#[test]
fn the_context_block_is_a_power_of_two() {
    for (t, e, threads) in
        [(1usize, 0usize, 32u32), (33, 0, 64), (20, 300, 512), (600, 300, 1024), (4096, 1024, 1024)]
    {
        let b = location(t, 1, 1, e);
        let mut gpu = Gpu::new();
        attend(&mut gpu, &b, t, 1, 1, e).unwrap();
        assert_eq!(last(&gpu).cfg.block_dim, (threads, 1, 1));
        assert_eq!(last(&gpu).cfg.shared_mem_bytes, (t as u32 + threads) * 4);
    }
}

#[test]
fn location_attention_refuses_what_a_block_cannot_hold() {
    let b = location(10, 4, 8, 16);
    let mut gpu = Gpu::new();
    for (t, a, e) in [
        (10usize, 0usize, 16usize),
        (10, 12, 16),
        (10, 2048, 16),
        (0, 8, 16),
        (4097, 8, 16),
        (10, 8, 1025),
    ] {
        assert_eq!(
            attend(&mut gpu, &b, t, 4, a, e),
            Err(CudaError::UnsupportedAttention { head_dim: a, heads: t, kv_heads: e })
        );
    }
    for i in 0..8 {
        let mut short = location(10, 4, 8, 16);
        let len = short[i].len;
        short[i] = given(i, len - 1);
        assert_eq!(
            attend(&mut gpu, &short, 10, 4, 8, 16),
            Err(CudaError::SliceOverrun { at: len, len: len - 1 })
        );
    }
    assert!(gpu.commands.is_empty());
}

#[test]
fn a_rotation_stays_inside_its_buffer() {
    let (x, div): (Buf, Buf) = (given(0, 2 * 4 * 64), given(1, 32));
    let theta = FloatBits(10_000f32.to_bits());
    let mut gpu = Gpu::new();
    assert_eq!(
        gpu.rope(&x, 257, 1, 4, 64, theta, 9),
        Err(CudaError::SliceOverrun { at: 513, len: 512 })
    );
    gpu.rope(&x, 256, 1, 4, 64, theta, 9).unwrap();
    assert_eq!(
        last(&gpu).args,
        vec![
            g(0), Arg::I64(256), Arg::Dummy, n(0), n(1), n(4), n(64), Arg::Float(theta), n(9),
        ]
    );
    gpu.rope_scaled(&x, 0, Some(&div), 2, 4, 64, theta, 0).unwrap();
    assert_eq!(&last(&gpu).args[2..4], &[g(1), n(1)]);
    assert_eq!(last(&gpu).cfg.grid_dim, (1, 1, 1));
    assert_eq!(gpu.commands.len(), 2);
}

#[test]
fn a_partial_rotation_is_a_thread_a_pair() {
    let (x, f): (Buf, Buf) = (given(0, 100 * 1024), given(1, 32));
    let mut gpu = Gpu::new();
    gpu.rope_gptj(&x, &f, 100, 1024, 64);
    assert_eq!(last(&gpu).args, vec![g(0), g(1), n(100), n(1024), n(64)]);
    assert_eq!(last(&gpu).cfg.grid_dim, (13, 1, 1));
}
