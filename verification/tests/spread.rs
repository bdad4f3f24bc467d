use xabe_cuda::spread;

fn reference(n: usize, salt: u64) -> Vec<u32> {
    let mut s = salt.wrapping_mul(0x9E37_79B9_7F4A_7C15) | 1;
    (0..n)
        .map(|_| {
            s ^= s << 13;
            s ^= s >> 7;
            s ^= s << 17;
            (s >> 40) as u32
        })
        .collect()
}

#[test]
fn the_spread_is_the_same_every_time() {
    for salt in [0u64, 1, 2, 3, 77, u64::MAX] {
        let v = spread::seq(100, salt);
        assert_eq!(v, reference(100, salt));
        assert!(v.iter().all(|&x| x < 1 << 24));
    }
}

#[test]
fn a_seed_of_one_steps_as_an_xorshift_does() {
    // State 1 steps to 0x4082_2041, whose top 24 bits are clear.
    assert_eq!(spread::seq(1, 0), vec![0]);
    assert!(spread::seq(0, 9).is_empty());
}
