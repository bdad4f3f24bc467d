//! A deterministic spread of numbers, so that two runs of a benchmark measure
//! the same arithmetic.

use vstd::prelude::*;

verus! {

/// The generator's state for a salt: odd, and so never zero.
pub open spec fn seed(salt: u64) -> u64 {
    vstd::wrapping::u64_specs::wrapping_mul(salt, 0x9E37_79B9_7F4A_7C15) | 1
}

/// One step of the generator: an xorshift by 13, 7 and 17.
pub open spec fn step(s: u64) -> u64 {
    let a = s ^ (s << 13u64);
    let b = a ^ (a >> 7u64);
    b ^ (b << 17u64)
}

/// The state after `n` steps.
pub open spec fn stepped(s: u64, n: nat) -> u64
    decreases n,
{
    if n == 0 {
        s
    } else {
        step(stepped(s, (n - 1) as nat))
    }
}

/// `n` 24-bit numbers: the top bits of as many states.
pub fn seq(n: usize, salt: u64) -> (v: Vec<u32>)
    ensures
        v@.len() == n,
        forall|i: int|
            0 <= i < n ==> #[trigger] v@[i] == (stepped(seed(salt), (i + 1) as nat) >> 40u64)
                && v@[i] < 0x100_0000,
{
    let mut s: u64 = salt.wrapping_mul(0x9E37_79B9_7F4A_7C15) | 1;
    let mut v: Vec<u32> = Vec::new();
    let mut i: usize = 0;
    while i < n
        invariant
            i <= n,
            v@.len() == i,
            s == stepped(seed(salt), i as nat),
            forall|j: int|
                0 <= j < i ==> #[trigger] v@[j] == (stepped(seed(salt), (j + 1) as nat) >> 40u64)
                    && v@[j] < 0x100_0000,
        decreases n - i,
    {
        let ghost before = s;
        s = s ^ (s << 13u64);
        s = s ^ (s >> 7u64);
        s = s ^ (s << 17u64);
        assert(s == step(before));
        let top: u64 = s >> 40u64;
        assert(top < 0x100_0000) by (bit_vector)
            requires
                top == s >> 40u64,
        ;
        v.push(top as u32);
        i = i + 1;
    }
    v
}

/// The generator never sticks at zero: a step takes a state that is not zero to
/// one that is not.
pub proof fn steps_stay_alive(s: u64)
    requires
        s != 0,
    ensures
        step(s) != 0,
{
    let a = s ^ (s << 13u64);
    let b = a ^ (a >> 7u64);
    let c = b ^ (b << 17u64);
    assert(a != 0) by (bit_vector)
        requires
            s != 0,
            a == s ^ (s << 13u64),
    ;
    assert(b != 0) by (bit_vector)
        requires
            a != 0,
            b == a ^ (a >> 7u64),
    ;
    assert(c != 0) by (bit_vector)
        requires
            b != 0,
            c == b ^ (b << 17u64),
    ;
}

/// A step can be undone, shift by shift: no two states step to one.
pub proof fn a_step_can_be_undone(s: u64)
    ensures
        ({
            let c = step(s);
            let b = c ^ (c << 17u64) ^ (c << 34u64) ^ (c << 51u64);
            let h = b ^ (b >> 7u64);
            let i = h ^ (h >> 14u64);
            let j = i ^ (i >> 28u64);
            let a = j ^ (j >> 56u64);
            s == a ^ (a << 13u64) ^ (a << 26u64) ^ (a << 39u64) ^ (a << 52u64)
        }),
{
    let a = s ^ (s << 13u64);
    let b = a ^ (a >> 7u64);
    let c = b ^ (b << 17u64);
    assert(b == c ^ (c << 17u64) ^ (c << 34u64) ^ (c << 51u64)) by (bit_vector)
        requires
            c == b ^ (b << 17u64),
    ;
    let h = b ^ (b >> 7u64);
    let i = h ^ (h >> 14u64);
    let j = i ^ (i >> 28u64);
    assert(a == j ^ (j >> 56u64)) by (bit_vector)
        requires
            b == a ^ (a >> 7u64),
            h == b ^ (b >> 7u64),
            i == h ^ (h >> 14u64),
            j == i ^ (i >> 28u64),
    ;
    assert(s == a ^ (a << 13u64) ^ (a << 26u64) ^ (a << 39u64) ^ (a << 52u64)) by (bit_vector)
        requires
            a == s ^ (s << 13u64),
    ;
}

} // verus!
