use xabe_cuda::{driver_missing, launched, CudaError, Failed, Kernel, Opening, Outcome, Search};

#[test]
fn a_device_opens_once_every_kernel_is_loaded() {
    let mut at = Opening::begin(None).unwrap();
    let mut names = Vec::new();
    let mut steps = 0;
    while at != Opening::Open {
        if let Some(k) = at.kernel() {
            names.push(k.name());
        }
        at = at.next(Outcome::Done).unwrap();
        steps += 1;
    }
    assert_eq!(steps, 102);
    assert_eq!(names.len(), 98);
    assert_eq!(names[0], "conv1d");
    assert_eq!(names[5], "gemm");
    assert_eq!(names[97], "embed_q");
    let mut sorted = names.clone();
    sorted.sort();
    sorted.dedup();
    assert_eq!(sorted.len(), 98);
}

#[test]
fn kernels_have_places_of_their_own() {
    assert_eq!(Kernel::nth(0), Some(Kernel::Conv1d));
    assert_eq!(Kernel::nth(97), Some(Kernel::EmbedQ));
    assert_eq!(Kernel::nth(98), None);
    assert_eq!(Kernel::GemmI8Q6kNarrow.name(), "gemm_i8_q6k_narrow");
    assert_eq!(Kernel::AttnDecodeH64G8C32.name(), "attn_decode_h64_g8_c32");
}

#[test]
fn a_machine_without_the_driver_has_no_device() {
    let r = Opening::Context.next(Outcome::Missing);
    assert_eq!(
        r,
        Err(CudaError::NoDevice(
            "the CUDA driver library is not on this machine".to_string()
        ))
    );
}

#[test]
fn the_missing_driver_is_remembered() {
    let r = Opening::begin(Some(driver_missing()));
    assert_eq!(
        r,
        Err(CudaError::NoDevice(
            "the CUDA driver library is not on this machine".to_string()
        ))
    );
}

#[test]
fn a_driver_that_refuses_is_quoted() {
    let r = Opening::Context.next(Outcome::Refused("no such ordinal".to_string()));
    assert_eq!(r, Err(CudaError::NoDevice("no such ordinal".to_string())));
}

#[test]
fn a_machine_without_the_toolkit_has_no_device() {
    let r = Opening::Compile.next(Outcome::Missing);
    assert_eq!(
        r,
        Err(CudaError::NoDevice(
            "the NVRTC library is not on this machine; the driver is installed but the CUDA toolkit is not"
                .to_string()
        ))
    );
}

#[test]
fn a_source_that_does_not_compile_is_quoted() {
    let r = Opening::Compile.next(Outcome::Refused("line 3".to_string()));
    assert_eq!(r, Err(CudaError::Compile("line 3".to_string())));
}

#[test]
fn a_kernel_that_is_not_there_is_named() {
    let r = Opening::Function(13).next(Outcome::Refused("not found".to_string()));
    assert_eq!(
        r,
        Err(CudaError::MissingKernel {
            name: "gemv".to_string()
        })
    );
}

#[test]
fn a_launch_keeps_what_failed_and_drops_the_rest() {
    assert_eq!(launched::<u8, i32>("gemv", Ok(3)), Ok(()));
    assert_eq!(
        launched::<u8, i32>("gemv", Err(700)),
        Err(Failed {
            what: "gemv",
            source: 700
        })
    );
}

#[test]
fn only_the_missing_driver_is_remembered() {
    let why = Opening::Context.remembered(&Outcome::Missing);
    assert_eq!(why, Some("the CUDA driver library is not on this machine"));
    // Every later start says what the first did.
    assert_eq!(Opening::begin(why), Opening::Context.next(Outcome::Missing));
    let refused = Outcome::Refused("no such ordinal".to_string());
    assert_eq!(Opening::Context.remembered(&refused), None);
    assert_eq!(Opening::Context.remembered(&Outcome::Done), None);
    assert_eq!(Opening::Compile.remembered(&Outcome::Missing), None);
    assert_eq!(Opening::Function(3).remembered(&Outcome::Missing), None);
    assert_eq!(Opening::begin(None), Ok(Opening::Context));
}

#[test]
fn devices_are_tried_in_order() {
    let s: Search<&str> = Search::begin();
    assert_eq!(s.ordinal, 0);
    let s = s.failed("busy", 3).unwrap();
    assert_eq!(s.ordinal, 1);
    let s = s.failed("too old", 3).unwrap();
    assert_eq!(s.ordinal, 2);
    // The last one: the first one's reason is what comes back.
    assert_eq!(s.failed("on fire", 3), Err("busy"));
}

#[test]
fn a_machine_of_one_device_or_none_is_tried_once() {
    assert_eq!(Search::begin().failed("busy", 1), Err("busy"));
    assert_eq!(Search::begin().failed("no driver", 0), Err("no driver"));
    let far = Search { ordinal: usize::MAX, first: Some("busy") };
    assert_eq!(far.failed("late", usize::MAX), Err("busy"));
}
