use xabe_cuda::{define, geometry_matches};

fn num(source: &str, key: &str) -> Option<u32> {
    define(source.as_bytes(), key.as_bytes())
}

#[test]
fn a_define_binds_its_number() {
    assert_eq!(num("#define GEMM_MT 128\n", "GEMM_MT"), Some(128));
    assert_eq!(num("x\n#define  A 1\n#define B\t \t27u\n", "B"), Some(27));
    assert_eq!(num("#define LAST 4294967295", "LAST"), Some(u32::MAX));
}

#[test]
fn a_name_has_to_end_where_the_key_does() {
    let source = "#define GEMM_KSTEPS 9\n#define GEMM_K 4\n";
    assert_eq!(num(source, "GEMM_K"), Some(4));
    assert_eq!(num("#define GEMM_KSTEPS 9\n", "GEMM_K"), None);
}

#[test]
fn the_first_define_with_a_number_wins() {
    let source = "#define N OTHER\n#define N 5\n#define N 6\n";
    assert_eq!(num(source, "N"), Some(5));
}

#[test]
fn a_name_that_is_not_there_has_no_number() {
    assert_eq!(num("", "N"), None);
    assert_eq!(num("#define N", "N"), None);
    assert_eq!(num("#define N ", "N"), None);
    assert_eq!(num("#define N  x3\n", "N"), None);
    assert_eq!(num("#define M 3\n", "N"), None);
}

#[test]
fn a_number_that_does_not_fit_is_none() {
    assert_eq!(num("#define BIG 4294967296\n", "BIG"), None);
    assert_eq!(num("#define BIG 99999999999999999999\n", "BIG"), None);
}

const TILES: &str = "#define GEMM_WARPS 8\n#define GEMV_WARPS 8\n#define GEMM_MT 128\n\
    #define GEMM_NT 128\n#define GEMM_I8_WARPS 8\n#define GEMM_I8_MT 128\n\
    #define GEMM_I8_MT_NARROW 64\n#define GEMV_ROWS_MAX 4\n#define GEMM_I8_NT 128\n\
    #define AD_CH 64\n#define AD_GMAX 4\n";

#[test]
fn the_geometry_is_told_from_the_source() {
    assert!(geometry_matches(TILES));
}

#[test]
fn a_tile_changed_on_one_side_is_noticed() {
    assert!(!geometry_matches(&TILES.replace("GEMM_NT 128", "GEMM_NT 64")));
    assert!(!geometry_matches(&TILES.replace("AD_CH 64", "AD_CH 32")));
    assert!(!geometry_matches(&TILES.replace("GEMV_ROWS_MAX", "GEMV_ROWS")));
    assert!(!geometry_matches(""));
}
