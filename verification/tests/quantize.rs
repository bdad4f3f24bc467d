use xabe_cuda::{
    Arg, BufferId, Command, CudaError, CudaSlice, DevicePtr, Elem, Fp32, Gpu, Kernel, Q8,
};

fn given<T>(i: usize, len: usize) -> CudaSlice<T> {
    CudaSlice::new(BufferId::Given(i), len)
}

#[test]
fn a_twin_is_codes_then_scales() {
    let a: CudaSlice<Fp32> = given(0, 3 * 512);
    let mut gpu = Gpu::new();
    let q = gpu.quantize_activation(&a, 3, 512).unwrap();
    assert_eq!(q.shape(), (3, 512));
    assert_eq!(q.scale_offset(), 1536);
    assert_eq!(q.buf.len, 1536 + 3 * 16 * 4);
    assert_eq!(gpu.commands.len(), 2);
    let Command::Launch(run) = &gpu.commands[1] else { panic!("a launch") };
    assert_eq!(run.kernel, Kernel::QuantizeQ8);
    assert_eq!(run.cfg.grid_dim, (6, 1, 1));
    assert_eq!(run.cfg.block_dim, (32, 8, 1));
    assert_eq!(run.args[5], Arg::I64(1536));
}

#[test]
fn a_shape_no_matvec_reads_is_refused() {
    let a: CudaSlice<Fp32> = given(0, 100);
    let mut gpu = Gpu::new();
    assert_eq!(
        gpu.quantize_activation(&a, 1, 100).err(),
        Some(CudaError::RaggedBlock { k: 100, block: 256 })
    );
    assert!(gpu.commands.is_empty());
    // The same shape can still be quantized to be read back.
    let q = gpu.quantize_q8_for_test(&a, 100, 1);
    assert_eq!(q.buf.len, 100 + 3 * 4);
}

#[test]
fn a_zeroed_twin_waits_to_be_filled() {
    let mut gpu = Gpu::new();
    let q = gpu.q8_zeros(4, 64).unwrap();
    assert_eq!((q.rows, q.k, q.buf.len), (4, 64, 256 + 4 * 2 * 4));
    assert_eq!(
        gpu.commands,
        vec![Command::Alloc { elem: Elem::I8, len: 288, zeroed: true }]
    );
    assert_eq!(
        gpu.q8_zeros(4, 65).err(),
        Some(CudaError::RaggedBlock { k: 65, block: 32 })
    );
}

#[test]
fn a_twin_comes_apart_into_codes_and_scales() {
    let q = Q8 { buf: given(0, 64 + 8), rows: 1, k: 64 };
    let mut raw: Vec<i8> = (0..64).map(|i| i as i8 - 32).collect();
    for s in [1.5f32, -0.125] {
        raw.extend(s.to_le_bytes().map(|b| b as i8));
    }
    let (codes, scales) = Gpu::q8_parts_for_test(&q, &raw);
    assert_eq!(codes, raw[..64]);
    let scales: Vec<f32> = scales.into_iter().map(f32::from_bits).collect();
    assert_eq!(scales, vec![1.5, -0.125]);
}

#[test]
fn a_ragged_tail_of_scales_is_left() {
    let q = Q8 { buf: given(0, 36), rows: 1, k: 32 };
    let raw = vec![-1i8; 32 + 4 + 3];
    let (codes, scales) = Gpu::q8_parts_for_test(&q, &raw);
    assert_eq!(codes.len(), 32);
    assert_eq!(scales, vec![u32::MAX]);
}

#[test]
fn rounding_makes_a_half_an_element() {
    let x: CudaSlice<Fp32> = given(7, 1000);
    let mut gpu = Gpu::new();
    let h = gpu.to_f16(&x, 600);
    assert_eq!((h.id, h.len), (BufferId::Made(0), 600));
    let Command::Launch(run) = &gpu.commands[1] else { panic!("a launch") };
    assert_eq!(
        run.args,
        vec![
            Arg::Ptr(DevicePtr { id: BufferId::Given(7), offset: 0 }),
            Arg::Ptr(DevicePtr { id: BufferId::Made(0), offset: 0 }),
            Arg::I32(600),
        ]
    );
    assert_eq!(run.cfg.grid_dim, (3, 1, 1));
}
