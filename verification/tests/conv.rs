use xabe_cuda::{
    Arg, BufferId, Command, CudaSlice, DevicePtr, Elem, Fp32, Gpu, Kernel, Launch,
};

fn given<T>(i: usize, len: usize) -> CudaSlice<T> {
    CudaSlice::new(BufferId::Given(i), len)
}

fn g(i: usize) -> Arg {
    Arg::Ptr(DevicePtr { id: BufferId::Given(i), offset: 0 })
}

fn made(i: usize) -> Arg {
    Arg::Ptr(DevicePtr { id: BufferId::Made(i), offset: 0 })
}

fn n(v: i32) -> Arg {
    Arg::I32(v)
}

fn last(gpu: &Gpu) -> &Launch {
    match gpu.commands.last() {
        Some(Command::Launch(l)) => l,
        other => panic!("{other:?}"),
    }
}

fn zeroed(len: usize) -> Command {
    Command::Alloc { elem: Elem::F32, len, zeroed: true }
}

type Buf = CudaSlice<Fp32>;

#[test]
fn a_long_convolution_takes_the_four_deep_kernel() {
    let (x, w, b): (Buf, Buf, Buf) = (given(0, 192 * 512), given(1, 192 * 192 * 5), given(2, 192));
    let mut gpu = Gpu::new();
    let (out, out_t) = gpu.conv1d(&x, &w, Some(&b), 192, 512, 192, 5, 2, 2, 1);
    assert_eq!((out.len, out_t), (192 * 512, 512));
    assert_eq!(gpu.commands[0], zeroed(192 * 512));
    let run = last(&gpu);
    assert_eq!((run.kernel, run.label), (Kernel::Conv1d, Kernel::Conv1d));
    assert_eq!(
        run.args,
        vec![
            g(0), g(1), g(2), made(0), n(192), n(512), n(192), n(5), n(2), n(1), n(512),
        ]
    );
    // 24 tiles of eight channels, one of 512 positions, 516 inputs staged.
    assert_eq!(run.cfg.grid_dim, (24, 1, 1));
    assert_eq!(run.cfg.block_dim, (128, 1, 1));
    assert_eq!(run.cfg.shared_mem_bytes, 516 * 4);
}

#[test]
fn a_short_convolution_takes_a_block_it_can_fill() {
    let (x, w): (Buf, Buf) = (given(0, 10_000), given(1, 10_000));
    let mut gpu = Gpu::new();
    for (t, threads, tiles) in [(1usize, 32, 1), (32, 32, 1), (33, 64, 1), (511, 128, 4)] {
        let (_, out_t) = gpu.conv1d(&x, &w, None, 3, t, 17, 3, 1, 1, 1);
        assert_eq!(out_t, t);
        let run = last(&gpu);
        assert_eq!((run.kernel, run.label), (Kernel::Conv1dShort, Kernel::Conv1d));
        assert_eq!(run.args[2], Arg::Null);
        assert_eq!(run.cfg.grid_dim, (3, tiles, 1));
        assert_eq!(run.cfg.block_dim, (threads, 1, 1));
        assert_eq!(run.cfg.shared_mem_bytes, (threads + 2) * 4);
    }
}

#[test]
fn a_window_wider_than_its_input_still_gives_one_position() {
    let (x, w): (Buf, Buf) = (given(0, 100), given(1, 100));
    let mut gpu = Gpu::new();
    assert_eq!(gpu.conv1d(&x, &w, None, 1, 4, 1, 7, 0, 0, 3).1, 1);
    assert_eq!(gpu.depthwise_conv1d(&x, &w, None, 1, 4, 7, 0, 0, 3).1, 1);
    assert_eq!(gpu.strided_conv1d(&x, &w, None, 1, 4, 1, 7, 2, 0).1, 1);
    assert_eq!(gpu.grouped_conv1d(&x, &w, &w, 1, 4, 1, 7, 1, 0).1, 1);
}

#[test]
fn same_padding_keeps_the_length_at_every_dilation() {
    let (x, w): (Buf, Buf) = (given(0, 100), given(1, 100));
    let mut gpu = Gpu::new();
    for k in [1usize, 3, 5, 7, 11] {
        for dilation in [1usize, 3, 5] {
            let pad = dilation * (k - 1) / 2;
            let (_, out_t) = gpu.depthwise_conv1d(&x, &w, None, 2, 50, k, pad, pad, dilation);
            assert_eq!(out_t, 50);
        }
    }
    assert_eq!(
        last(&gpu).args,
        vec![g(0), g(1), Arg::Null, made(28), n(2), n(50), n(11), n(25), n(5), n(50)]
    );
    assert_eq!(last(&gpu).cfg.grid_dim, (1, 1, 1));
}

#[test]
fn a_transposed_convolution_stretches() {
    let (x, w, b): (Buf, Buf, Buf) = (given(0, 100), given(1, 100), given(2, 4));
    let mut gpu = Gpu::new();
    let (out, out_t) = gpu.transposed_conv1d(&x, &w, Some(&b), 8, 10, 4, 16, 8, 4);
    assert_eq!((out.len, out_t), (320, 80));
    assert_eq!(
        last(&gpu).args,
        vec![g(0), g(1), g(2), made(0), n(8), n(10), n(4), n(16), n(8), n(4), n(80)]
    );
    assert_eq!(last(&gpu).cfg.grid_dim, (2, 1, 1));
    // A strided convolution over the result, at the same stride and width,
    // comes back to the length it started from.
    let (_, wide) = gpu.transposed_conv1d(&x, &w, None, 8, 10, 4, 16, 8, 0);
    assert_eq!(wide, 88);
    assert_eq!(gpu.strided_conv1d(&x, &w, None, 4, wide, 8, 16, 8, 0).1, 10);
}

#[test]
fn a_strided_convolution_flags_its_bias() {
    let (x, w, b): (Buf, Buf, Buf) = (given(0, 100), given(1, 100), given(2, 4));
    let mut gpu = Gpu::new();
    let (out, out_t) = gpu.strided_conv1d(&x, &w, None, 18, 481, 4, 30, 15, 7);
    assert_eq!((out.len, out_t), (4 * 31, 31));
    assert_eq!(
        last(&gpu).args,
        vec![
            g(0), g(1), Arg::Dummy, made(0), n(18), n(481), n(4), n(30), n(15), n(7), n(31), n(0),
        ]
    );
    gpu.strided_conv1d(&x, &w, Some(&b), 18, 481, 4, 30, 15, 7);
    assert_eq!((&last(&gpu).args[2], &last(&gpu).args[11]), (&g(2), &n(1)));
}

#[test]
fn a_grouped_convolution_pads_on_the_left() {
    let (x, w, b): (Buf, Buf, Buf) = (given(0, 100), given(1, 100), given(2, 64));
    let mut gpu = Gpu::new();
    let (out, out_t) = gpu.grouped_conv1d(&x, &w, &b, 64, 20, 64, 31, 16, 30);
    assert_eq!((out.len, out_t), (64 * 20, 20));
    assert_eq!(
        last(&gpu).args,
        vec![g(0), g(1), g(2), made(0), n(64), n(20), n(64), n(31), n(16), n(30), n(20)]
    );
}

#[test]
fn the_encoder_stem_is_a_gather() {
    let x: Buf = given(0, 3000 * 80);
    let mut gpu = Gpu::new();
    let (cols, out_t) = gpu.im2col(&x, 3000, 80, 3, 1, 1, 1);
    assert_eq!((cols.len, out_t), (3000 * 240, 3000));
    let (cols, out_t) = gpu.im2col(&x, 3000, 1280, 3, 2, 1, 1);
    assert_eq!((cols.len, out_t), (1500 * 3840, 1500));
    assert_eq!(
        last(&gpu).args,
        vec![g(0), made(2), n(3000), n(1280), n(3), n(2), n(1), n(1), n(1500)]
    );
    assert_eq!(last(&gpu).cfg.grid_dim, (22_500, 1, 1));
}

#[test]
fn weight_norm_is_a_row_an_output_channel() {
    let (v, gain): (Buf, Buf) = (given(0, 512 * 256 * 7), given(1, 512));
    let mut gpu = Gpu::new();
    let out = gpu.fuse_weight_norm(&v, &gain, 512, 256, 7);
    assert_eq!(out.len, 512 * 256 * 7);
    assert_eq!(last(&gpu).args, vec![g(0), g(1), made(0), n(1792)]);
    assert_eq!(last(&gpu).cfg.grid_dim, (512, 1, 1));
    assert_eq!(last(&gpu).cfg.shared_mem_bytes, 1024);
}

#[test]
fn a_spectrum_and_back_keep_the_length() {
    let (x, win): (Buf, Buf) = (given(0, 480), given(1, 16));
    let mut gpu = Gpu::new();
    let (re, im, frames) = gpu.stft(&x, &win, 480, 16, 4);
    assert_eq!(frames, 121);
    assert_eq!((re.len, im.len), (9 * 121, 9 * 121));
    assert_eq!(
        last(&gpu).args,
        vec![g(0), made(0), made(1), g(1), n(480), n(16), n(4), n(121)]
    );
    let out = gpu.istft(&re, &im, &win, frames, 16, 4);
    assert_eq!(out.len, 480);
    assert_eq!(
        last(&gpu).args,
        vec![made(0), made(1), made(3), g(1), n(480), n(16), n(4), n(121)]
    );
    // A signal that is no whole number of hops comes back short of one.
    let (_, _, frames) = gpu.stft(&x, &win, 483, 16, 4);
    assert_eq!(gpu.istft(&re, &im, &win, frames, 16, 4).len, 480);
}
