//! The device source's own numbers: tile shapes and widths that the kernels
//! and the launch geometry have to agree on.

use vstd::arithmetic::power::{lemma_pow0, pow};
use vstd::prelude::*;
use vstd::string::StringSliceAdditionalSpecFns;

verus! {

/// Keys one `attn_decode` block covers; the grid's `x` step.
pub const AD_CH: u32 = 64;

/// Query heads a block of the fused decode attention serves.
pub const AD_GMAX: u32 = 4;

/// Warps a block of the tiled matmul runs.
pub const GEMM_WARPS: u32 = 8;

/// Rows of the left operand a block of the tiled matmul covers.
pub const GEMM_MT: u32 = 128;

/// Rows of the weight a block of the tiled matmul covers.
pub const GEMM_NT: u32 = 128;

/// Warps a block of the mat-vec runs, one output column each.
pub const GEMV_WARPS: u32 = 8;

/// The most rows the shared-weight mat-vec takes.
pub const GEMV_ROWS_MAX: u32 = 4;

/// Warps a block of the integer matmul runs.
pub const GEMM_I8_WARPS: u32 = 8;

/// Rows of the left operand a block of the integer matmul covers.
pub const GEMM_I8_MT: u32 = 128;

/// Rows of the weight a block of the integer matmul covers.
pub const GEMM_I8_NT: u32 = 128;

/// Rows of the left operand a block of the narrow integer matmul covers.
pub const GEMM_I8_MT_NARROW: u32 = 64;

/// Rows `gemv_q_rows` will carry in one warp.
pub const GEMV_Q_ROWS: u32 = 4;

/// The directive a number is bound with: `#define`, and a space.
pub open spec fn tag() -> Seq<u8> {
    seq![35u8, 100, 101, 102, 105, 110, 101, 32]
}

/// A space or a tab.
pub open spec fn blank(b: u8) -> bool {
    b == 32 || b == 9
}

/// A decimal digit.
pub open spec fn digit(b: u8) -> bool {
    48 <= b <= 57
}

/// Whether the directive, the name and then a blank stand at place `i`: the
/// name has to end there, or `GEMM_KC` would match `GEMM_KSTEPS`.
pub open spec fn names_at(s: Seq<u8>, key: Seq<u8>, i: int) -> bool {
    let p = i + tag().len() + key.len();
    &&& 0 <= i && p < s.len()
    &&& s.subrange(i, i + tag().len()) == tag()
    &&& s.subrange(i + tag().len(), p) == key
    &&& blank(s[p])
}

/// The first place from `p` on that is not blank.
pub open spec fn after_blanks(s: Seq<u8>, p: int) -> int
    decreases s.len() - p,
{
    if 0 <= p < s.len() && blank(s[p]) {
        after_blanks(s, p + 1)
    } else {
        p
    }
}

/// The first place from `p` on that is not a digit.
pub open spec fn after_digits(s: Seq<u8>, p: int) -> int
    decreases s.len() - p,
{
    if 0 <= p < s.len() && digit(s[p]) {
        after_digits(s, p + 1)
    } else {
        p
    }
}

/// The decimal number that `s[p..q]` spells.
pub open spec fn number(s: Seq<u8>, p: int, q: int) -> nat
    decreases q - p,
{
    if q <= p {
        0
    } else {
        number(s, p, q - 1) * 10 + (s[q - 1] - 48) as nat
    }
}

/// The number that a `#define` of `key` at place `i` binds it to, if there is
/// one there and it binds a number.
pub open spec fn defined_at(s: Seq<u8>, key: Seq<u8>, i: int) -> Option<nat> {
    let p = after_blanks(s, i + tag().len() + key.len());
    let q = after_digits(s, p);
    if names_at(s, key, i) && p < q {
        Some(number(s, p, q))
    } else {
        None
    }
}

/// The number that the first such `#define` from place `i` on binds `key` to.
pub open spec fn defined_from(s: Seq<u8>, key: Seq<u8>, i: int) -> Option<nat>
    decreases s.len() - i,
{
    if i < 0 || i >= s.len() {
        None
    } else if defined_at(s, key, i) is Some {
        defined_at(s, key, i)
    } else {
        defined_from(s, key, i + 1)
    }
}

/// The number a source binds a name to.
pub open spec fn defined(s: Seq<u8>, key: Seq<u8>) -> Option<nat> {
    defined_from(s, key, 0)
}

fn is_blank(b: u8) -> (r: bool)
    ensures
        r == blank(b),
{
    b == 32 || b == 9
}

/// Whether `part` stands in `s` from place `at` on.
fn stands_at(s: &[u8], part: &[u8], at: usize) -> (r: bool)
    requires
        at + part@.len() <= s@.len(),
    ensures
        r == (s@.subrange(at as int, at + part@.len()) == part@),
{
    assert(s.len() == s@.len());
    let mut j: usize = 0;
    while j < part.len()
        invariant
            j <= part@.len(),
            at + part@.len() <= s@.len(),
            s@.len() <= usize::MAX,
            forall|x: int| 0 <= x < j ==> s@[at + x] == part@[x],
        decreases part@.len() - j,
    {
        if s[at + j] != part[j] {
            assert(s@.subrange(at as int, at + part@.len())[j as int] != part@[j as int]);
            return false;
        }
        j = j + 1;
    }
    assert(s@.subrange(at as int, at + part@.len()) =~= part@);
    true
}

/// The number that a `#define` of `key` at place `i` binds it to: the outer
/// `Option` is whether it binds one, the inner whether that fits.
fn define_at(s: &[u8], key: &[u8], i: usize) -> (r: Option<Option<u32>>)
    requires
        i + tag().len() + key@.len() < s@.len(),
    ensures
        match defined_at(s@, key@, i as int) {
            None => r is None,
            Some(v) => r == Some(if v <= u32::MAX {
                Some(v as u32)
            } else {
                None
            }),
        },
{
    assert(s.len() == s@.len());
    let tag_bytes: [u8; 8] = [35, 100, 101, 102, 105, 110, 101, 32];
    assert(tag_bytes@ =~= tag());
    let start: usize = i + 8 + key.len();
    if !stands_at(s, &tag_bytes, i) || !stands_at(s, key, i + 8) || !is_blank(s[start]) {
        return None;
    }
    let mut p: usize = start;
    while p < s.len() && is_blank(s[p])
        invariant
            start <= p <= s@.len(),
            s@.len() <= usize::MAX,
            after_blanks(s@, start as int) == after_blanks(s@, p as int),
        decreases s@.len() - p,
    {
        p = p + 1;
    }
    let mut q: usize = p;
    let mut v: u32 = 0;
    let mut over: bool = false;
    while q < s.len() && s[q] >= 48 && s[q] <= 57
        invariant
            p <= q <= s@.len(),
            s@.len() <= usize::MAX,
            after_digits(s@, p as int) == after_digits(s@, q as int),
            !over ==> v == number(s@, p as int, q as int),
            over ==> number(s@, p as int, q as int) > u32::MAX,
        decreases s@.len() - q,
    {
        let d: u32 = (s[q] - 48) as u32;
        assert(number(s@, p as int, q + 1) == number(s@, p as int, q as int) * 10 + d);
        if v > (u32::MAX - d) / 10 {
            over = true;
        }
        if !over {
            v = v * 10 + d;
        }
        q = q + 1;
    }
    if p == q {
        None
    } else if over {
        Some(None)
    } else {
        Some(Some(v))
    }
}

/// The integer a `#define` of `key` in the device source binds to: the first
/// that binds a number, or `None` where there is none or it does not fit.
///
/// The launch geometry and the kernel's block tile are the same numbers, and
/// writing them twice is how they drift: a grid that steps by another tile than
/// the kernel's under-covers the output rather than failing, so the matmul
/// silently returns whatever the buffer already held.
pub fn define(source: &[u8], key: &[u8]) -> (v: Option<u32>)
    ensures
        match defined(source@, key@) {
            Some(n) if n <= u32::MAX => v == Some(n as u32),
            _ => v is None,
        },
{
    assert(source.len() == source@.len());
    let mut i: usize = 0;
    while i < source.len()
        invariant
            i <= source@.len(),
            source@.len() <= usize::MAX,
            defined(source@, key@) == defined_from(source@, key@, i as int),
        decreases source@.len() - i,
    {
        let left: usize = source.len() - i;
        if left > 8 && left - 8 > key.len() {
            if let Some(v) = define_at(source, key, i) {
                return v;
            }
        }
        i = i + 1;
    }
    None
}

/// The device source binds a name to a number.
pub open spec fn binds(source: &str, key: &str, value: u32) -> bool {
    defined(source.spec_bytes(), key.spec_bytes()) == Some(value as nat)
}

/// The launch geometry is the device source's: every tile and width here is the
/// number its `#define` binds.
pub open spec fn geometry_is_of(source: &str) -> bool {
    &&& binds(source, "GEMM_WARPS", GEMM_WARPS)
    &&& binds(source, "GEMV_WARPS", GEMV_WARPS)
    &&& binds(source, "GEMM_MT", GEMM_MT)
    &&& binds(source, "GEMM_NT", GEMM_NT)
    &&& binds(source, "GEMM_I8_WARPS", GEMM_I8_WARPS)
    &&& binds(source, "GEMM_I8_MT", GEMM_I8_MT)
    &&& binds(source, "GEMM_I8_MT_NARROW", GEMM_I8_MT_NARROW)
    &&& binds(source, "GEMV_ROWS_MAX", GEMV_ROWS_MAX)
    &&& binds(source, "GEMM_I8_NT", GEMM_I8_NT)
    &&& binds(source, "AD_CH", AD_CH)
    &&& binds(source, "AD_GMAX", AD_GMAX)
}

fn source_binds(source: &str, key: &str, value: u32) -> (r: bool)
    ensures
        r == binds(source, key, value),
{
    match define(source.as_bytes(), key.as_bytes()) {
        Some(v) => v == value,
        None => false,
    }
}

/// Whether the launch geometry is the device source's, so that a tile changed
/// on one side alone is noticed before a grid under-covers an output.
pub fn geometry_matches(source: &str) -> (r: bool)
    ensures
        r == geometry_is_of(source),
{
    source_binds(source, "GEMM_WARPS", GEMM_WARPS) && source_binds(
        source,
        "GEMV_WARPS",
        GEMV_WARPS,
    ) && source_binds(source, "GEMM_MT", GEMM_MT) && source_binds(source, "GEMM_NT", GEMM_NT)
        && source_binds(source, "GEMM_I8_WARPS", GEMM_I8_WARPS) && source_binds(
        source,
        "GEMM_I8_MT",
        GEMM_I8_MT,
    ) && source_binds(source, "GEMM_I8_MT_NARROW", GEMM_I8_MT_NARROW) && source_binds(
        source,
        "GEMV_ROWS_MAX",
        GEMV_ROWS_MAX,
    ) && source_binds(source, "GEMM_I8_NT", GEMM_I8_NT) && source_binds(source, "AD_CH", AD_CH)
        && source_binds(source, "AD_GMAX", AD_GMAX)
}

/// A tile or a width that a source binds to another number is noticed, whichever it is.
pub proof fn a_number_bound_otherwise_is_noticed(source: &str, other: u32)
    ensures
        other != GEMM_WARPS && binds(source, "GEMM_WARPS", other) ==> !geometry_is_of(source),
        other != GEMV_WARPS && binds(source, "GEMV_WARPS", other) ==> !geometry_is_of(source),
        other != GEMM_MT && binds(source, "GEMM_MT", other) ==> !geometry_is_of(source),
        other != GEMM_NT && binds(source, "GEMM_NT", other) ==> !geometry_is_of(source),
        other != GEMM_I8_WARPS && binds(source, "GEMM_I8_WARPS", other) ==> !geometry_is_of(source),
        other != GEMM_I8_MT && binds(source, "GEMM_I8_MT", other) ==> !geometry_is_of(source),
        other != GEMM_I8_MT_NARROW && binds(source, "GEMM_I8_MT_NARROW", other) ==> !geometry_is_of(
            source,
        ),
        other != GEMV_ROWS_MAX && binds(source, "GEMV_ROWS_MAX", other) ==> !geometry_is_of(source),
        other != GEMM_I8_NT && binds(source, "GEMM_I8_NT", other) ==> !geometry_is_of(source),
        other != AD_CH && binds(source, "AD_CH", other) ==> !geometry_is_of(source),
        other != AD_GMAX && binds(source, "AD_GMAX", other) ==> !geometry_is_of(source),
{
}

/// Blanks are skipped up to the first byte that is none, and digits are read up to the first
/// that is none: nothing in between is passed over.
pub proof fn a_run_ends_where_its_bytes_do(s: Seq<u8>, p: int)
    requires
        0 <= p <= s.len(),
    ensures
        ({
            let (b, d) = (after_blanks(s, p), after_digits(s, p));
            &&& p <= b <= s.len() && p <= d <= s.len()
            &&& forall|i: int| p <= i < b ==> blank(#[trigger] s[i])
            &&& forall|i: int| p <= i < d ==> digit(#[trigger] s[i])
            &&& b < s.len() ==> !blank(s[b])
            &&& d < s.len() ==> !digit(s[d])
        }),
    decreases s.len() - p,
{
    if p < s.len() {
        a_run_ends_where_its_bytes_do(s, p + 1);
    }
}

/// A number's first digit counts as many tens as digits come after it.
pub proof fn a_digit_counts_by_its_place(s: Seq<u8>, p: int, q: int)
    requires
        p < q,
        forall|i: int| p <= i < q ==> digit(#[trigger] s[i]),
    ensures
        number(s, p, q) == (s[p] - 48) * pow(10, (q - p - 1) as nat) + number(s, p + 1, q),
    decreases q - p,
{
    assert(digit(s[q - 1]));
    if p + 1 == q {
        assert(number(s, p, p) == 0);
        lemma_pow0(10);
    } else {
        a_digit_counts_by_its_place(s, p, q - 1);
        let e = (q - p - 2) as nat;
        let x = s[p] - 48;
        assert(pow(10, e + 1) == 10 * pow(10, e)) by {
            reveal(pow);
        }
        assert(x * pow(10, e) * 10 == x * pow(10, e + 1)) by (nonlinear_arith)
            requires
                pow(10, e + 1) == 10 * pow(10, e),
        ;
        assert((q - p - 1) as nat == e + 1);
        assert((q - 1 - p - 1) as nat == e);
    }
}

/// A name is bound to the number of the first place that binds it: one after others that bind
/// nothing, whatever comes behind it.
pub proof fn the_first_place_that_binds_wins(s: Seq<u8>, key: Seq<u8>, i: int)
    requires
        0 <= i < s.len(),
        defined_at(s, key, i) is Some,
        forall|j: int| 0 <= j < i ==> #[trigger] defined_at(s, key, j) is None,
    ensures
        defined(s, key) == defined_at(s, key, i),
{
    lemma_first_place(s, key, 0, i);
}

proof fn lemma_first_place(s: Seq<u8>, key: Seq<u8>, from: int, i: int)
    requires
        0 <= from <= i < s.len(),
        defined_at(s, key, i) is Some,
        forall|j: int| from <= j < i ==> #[trigger] defined_at(s, key, j) is None,
    ensures
        defined_from(s, key, from) == defined_at(s, key, i),
    decreases i - from,
{
    if from < i {
        assert(defined_at(s, key, from) is None);
        lemma_first_place(s, key, from + 1, i);
    }
}

} // verus!
