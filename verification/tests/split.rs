use xabe_cuda::ksplit_for;

#[test]
fn an_idle_machine_is_filled_eight_ways_at_most() {
    // One row tile and eight column tiles: 18 slices would fill the machine,
    // 8 is the cap and what the contraction allows.
    assert_eq!(ksplit_for(128, 4096, 1024, 1), 8);
    assert_eq!(ksplit_for(128, 1 << 20, 1024, 1), 8);
}

#[test]
fn a_short_contraction_is_not_split() {
    assert_eq!(ksplit_for(128, 511, 1024, 1), 1);
    assert_eq!(ksplit_for(128, 1023, 1024, 1), 1);
    assert_eq!(ksplit_for(128, 1024, 1024, 1), 2);
}

#[test]
fn slices_never_fall_under_the_floor() {
    for k in [0usize, 1, 512, 1000, 1536, 4095, 5120, 13824] {
        let s = ksplit_for(24, k, 4096, 1);
        assert!(s >= 1 && s <= 8);
        assert!(s == 1 || k / s >= 512, "k {k} split {s}");
    }
}

#[test]
fn an_exactly_full_machine_is_not_split() {
    // 144 blocks: one wave, nothing idle.
    assert_eq!(ksplit_for(128, 1 << 20, 144 * 128, 1), 1);
}

#[test]
fn half_a_machine_is_split_in_two() {
    assert_eq!(ksplit_for(128, 1 << 20, 72 * 128, 1), 2);
    // 73 blocks: one slice is all that fits.
    assert_eq!(ksplit_for(128, 1 << 20, 73 * 128, 1), 1);
}

#[test]
fn a_long_tail_is_split_as_far_as_its_slices_allow() {
    // 160 blocks on 144 slots: 44% of two waves idle.
    assert_eq!(ksplit_for(512, 5120, 5120, 1), 2);
    assert_eq!(ksplit_for(512, 6144, 5120, 1), 3);
    assert_eq!(ksplit_for(512, 8192, 5120, 1), 4);
    assert_eq!(ksplit_for(512, 8191, 5120, 1), 3);
    assert_eq!(ksplit_for(512, 4095, 5120, 1), 1);
}

#[test]
fn full_waves_are_left_alone() {
    // 448 blocks idle 22% of four waves.
    assert_eq!(ksplit_for(128 * 7, 1 << 16, 128 * 64, 1), 1);
    // 432 blocks: three exact waves.
    assert_eq!(ksplit_for(512, 5120, 13824, 1), 1);
}

#[test]
fn the_idle_boundary_is_three_tenths() {
    // 202 of 288 slots busy: 86 idle, just under three tenths.
    assert_eq!(ksplit_for(128, 1 << 16, 202 * 128, 1), 1);
    // 201: 87 idle, just over.
    assert_eq!(ksplit_for(128, 1 << 16, 201 * 128, 1), 4);
}

#[test]
fn an_empty_product_counts_as_one_block() {
    assert_eq!(ksplit_for(0, 4096, 0, 1), 8);
    assert_eq!(ksplit_for(128, 4096, 128, 0), 8);
}

#[test]
fn a_batch_counts_as_so_many_blocks() {
    assert_eq!(ksplit_for(128, 1 << 20, 128, 72), 2);
    assert_eq!(ksplit_for(128, 1 << 20, 128, 36), 4);
}

#[test]
fn a_longer_contraction_is_split_no_less() {
    for (m, n, batch) in [(128, 1024, 1), (24, 4096, 1), (512, 5120, 1), (128, 128, 72)] {
        let mut was = 1;
        for k in (0..20_000).step_by(97) {
            let s = ksplit_for(m, k, n, batch);
            assert!(s >= was, "{m} {k} {n} {batch}: {s} after {was}");
            was = s;
        }
    }
}

#[test]
fn a_split_is_told_by_the_tiles() {
    for k in [512, 4096, 13824] {
        // Either way round, and anywhere within the same tiles.
        assert_eq!(ksplit_for(300, k, 1000, 2), ksplit_for(1000, k, 300, 2));
        assert_eq!(ksplit_for(300, k, 1000, 2), ksplit_for(384, k, 1024, 2));
        assert_eq!(ksplit_for(300, k, 1000, 2), ksplit_for(128 * 24, k, 128, 2));
        assert_eq!(ksplit_for(0, k, 1000, 1), ksplit_for(1, k, 1, 1));
        assert_eq!(ksplit_for(128, k, 128, 0), ksplit_for(1, k, 1, 1));
    }
}
