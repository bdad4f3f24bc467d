use xabe_cuda::{CudaError, Gpu, Packed, Quant};

const ALL: [(Quant, i32, usize, usize, usize); 10] = [
    (Quant::Q4_0, 2, 32, 18, 18),
    (Quant::Q4_1, 3, 32, 20, 20),
    (Quant::Q5_0, 6, 32, 22, 22),
    (Quant::Q5_1, 7, 32, 24, 24),
    (Quant::Q8_0, 8, 32, 34, 34),
    (Quant::Q2K, 10, 256, 84, 84),
    (Quant::Q3K, 11, 256, 110, 110),
    (Quant::Q4K, 12, 256, 144, 144),
    (Quant::Q5K, 13, 256, 176, 176),
    (Quant::Q6K, 14, 256, 210, 224),
];

#[test]
fn the_tables_are_the_formats() {
    for (q, id, block, bytes, stride) in ALL {
        assert_eq!(q.id(), id);
        assert_eq!(q.block_size(), block);
        assert_eq!(q.type_size(), bytes);
        assert_eq!(q.device_stride(), stride);
    }
}

#[test]
fn an_id_names_its_format_and_no_other() {
    for (q, id, _, _, _) in ALL {
        assert_eq!(Quant::from_id(id as u32), Some(q));
    }
    for id in [0u32, 1, 4, 5, 9, 15, 16, 30, u32::MAX] {
        assert_eq!(Quant::from_id(id), None);
    }
}

#[test]
fn bytes_count_whole_blocks() {
    assert_eq!(Quant::Q4K.bytes(4096), 16 * 144);
    assert_eq!(Quant::Q6K.bytes(256), 210);
    assert_eq!(Quant::Q8_0.bytes(64), 68);
    assert_eq!(Quant::Q8_0.bytes(0), 0);
    assert_eq!(Quant::Q4_0.bytes(33), 18);
    assert_eq!(
        Quant::Q5_1.bytes(32 * 5) + Quant::Q5_1.bytes(32 * 7),
        Quant::Q5_1.bytes(32 * 12)
    );
}

#[test]
fn whole_blocks_go_over_as_they_are() {
    let bytes: Vec<u8> = (0..288u32).map(|i| i as u8).collect();
    match Gpu::upload_quant(Quant::Q4K, &bytes) {
        Ok(Packed::AsIs(b)) => assert_eq!(b, &bytes[..]),
        other => panic!("{other:?}"),
    }
    assert_eq!(
        Gpu::upload_quant(Quant::Q4_0, &[]),
        Ok(Packed::AsIs(&[][..]))
    );
}

#[test]
fn ragged_bytes_are_refused() {
    assert_eq!(
        Gpu::upload_quant(Quant::Q4K, &[0u8; 145]),
        Err(CudaError::RaggedBlockBytes { len: 145, ty: 144 })
    );
    assert_eq!(
        Gpu::upload_quant(Quant::Q6K, &[0u8; 224]),
        Err(CudaError::RaggedBlockBytes { len: 224, ty: 210 })
    );
}

fn file_elem(b: &[u8], e: usize) -> (u8, u8) {
    let lo = (b[(e >> 7) * 64 + (e & 63)] >> (4 * ((e >> 6) & 1))) & 0x0F;
    let hi = (b[128 + (e >> 7) * 32 + (e & 31)] >> (2 * ((e >> 5) & 3))) & 0x03;
    (lo, hi)
}

fn device_elem(b: &[u8], j: usize) -> (u8, u8) {
    let (p, r) = (j / 64, j % 64);
    let (s, h, e) = (r / 32, (r / 16) & 1, r % 16);
    let lo = (b[p * 32 + r % 32] >> (4 * s)) & 0x0F;
    let hi = (b[128 + p * 16 + h * 8 + s * 4 + e % 4] >> (2 * (e / 4))) & 0x03;
    (lo, hi)
}

#[test]
fn a_repacked_block_decodes_to_the_same_elements() {
    let mut s = 0x1234_5678_9ABC_DEF1u64;
    let mut bytes = Vec::new();
    for _ in 0..3 * 210 {
        s ^= s << 13;
        s ^= s >> 7;
        s ^= s << 17;
        bytes.push((s >> 32) as u8);
    }
    let packed = Gpu::upload_quant(Quant::Q6K, &bytes).unwrap();
    let wide = packed.bytes();
    assert_eq!(wide.len(), 3 * 224);
    assert!(matches!(packed, Packed::Repacked(_)));
    for b in 0..3 {
        let file = &bytes[b * 210..(b + 1) * 210];
        let device = &wide[b * 224..(b + 1) * 224];
        for e in 0..256 {
            assert_eq!(file_elem(file, e), device_elem(device, e), "element {e}");
        }
        assert_eq!(&device[192..210], &file[192..210]);
        assert_eq!(&device[210..], &[0u8; 14]);
    }
}

#[test]
fn a_repacked_block_has_the_bytes_it_should() {
    // Only element 64's low bits are set: file byte 0, high nibble.
    let mut file = vec![0u8; 210];
    file[0] = 0xA0;
    // Only element 33's high bits are set: file byte 128 + 1, second field.
    file[129] = 0b0000_1100;
    file[192] = 7;
    file[209] = 9;
    let packed = Gpu::upload_quant(Quant::Q6K, &file).unwrap();
    let d = packed.bytes();
    let mut want = vec![0u8; 224];
    want[32] = 0x0A;
    want[128 + 4 + 1] = 0b0000_0011;
    want[192] = 7;
    want[209] = 9;
    assert_eq!(d, &want[..]);
}

#[test]
fn different_file_blocks_repack_differently() {
    let base = vec![0x5Au8; 210];
    let was = Gpu::upload_quant(Quant::Q6K, &base).unwrap();
    for i in 0..210 {
        let mut other = base.clone();
        other[i] ^= 0x11;
        let now = Gpu::upload_quant(Quant::Q6K, &other).unwrap();
        assert_ne!(was.bytes(), now.bytes(), "byte {i}");
    }
}

#[test]
fn no_blocks_repack_to_no_bytes() {
    let packed = Gpu::upload_quant(Quant::Q6K, &[]).unwrap();
    assert_eq!(packed.bytes().len(), 0);
}
