//! Opening a device: what is asked of the driver, in order, and what each
//! answer comes to.

use crate::error::CudaError;
use crate::names::{Kernel, KERNELS};
use vstd::prelude::*;

verus! {

/// What came of one request.
#[derive(Debug, PartialEq, Eq)]
pub enum Outcome {
    /// It was done.
    Done,
    /// The library it needs is not on this machine.
    Missing,
    /// It was refused, with the library's own words.
    Refused(String),
}

/// Where opening a device stands: each names what is asked next.
#[derive(Debug, PartialEq, Eq)]
pub enum Opening {
    /// A context on the device.
    Context,
    /// The device source, compiled.
    Compile,
    /// The compiled module, loaded.
    Module,
    /// The kernel at this place of the load order.
    Function(usize),
    /// The one zeroed float.
    Dummy,
    /// Nothing: the device is open.
    Open,
}

/// What is said of a machine without the driver.
pub fn driver_missing() -> (why: &'static str)
    ensures
        why@ == "the CUDA driver library is not on this machine"@,
{
    "the CUDA driver library is not on this machine"
}

/// Whether an error is that no device is usable, for this reason.
pub open spec fn no_device(e: CudaError, why: Seq<char>) -> bool {
    match e {
        CudaError::NoDevice(s) => s@ == why,
        _ => false,
    }
}

/// Whether an error is that a kernel is not in the module.
pub open spec fn missing_kernel(e: CudaError, kernel: Kernel) -> bool {
    match e {
        CudaError::MissingKernel { name } => name@ == kernel.spec_name(),
        _ => false,
    }
}

/// Whether an error is that the source did not compile, with these words.
pub open spec fn did_not_compile(e: CudaError, why: Seq<char>) -> bool {
    match e {
        CudaError::Compile(s) => s@ == why,
        _ => false,
    }
}

impl Opening {
    /// What follows a request that was done.
    pub open spec fn after_done(self) -> Opening {
        match self {
            Opening::Context => Opening::Compile,
            Opening::Compile => Opening::Module,
            Opening::Module => Opening::Function(0),
            Opening::Function(i) => if i + 1 < KERNELS {
                Opening::Function((i + 1) as usize)
            } else {
                Opening::Dummy
            },
            Opening::Dummy => Opening::Open,
            Opening::Open => Opening::Open,
        }
    }

    /// What starting comes to, by what is remembered.
    pub open spec fn begun(missing: Option<Seq<char>>, r: Result<Opening, CudaError>) -> bool {
        match missing {
            Some(why) => r is Err && no_device(r->Err_0, why),
            None => r == Ok::<Opening, CudaError>(Opening::Context),
        }
    }

    /// Starts opening a device, unless the driver is already known to be
    /// missing.
    ///
    /// The verdict is remembered by the caller, as [`Opening::remembered`] says
    /// it, because it cannot change while the process lives.
    pub fn begin(missing: Option<&str>) -> (r: Result<Opening, CudaError>)
        ensures
            Opening::begun(
                match missing {
                    Some(why) => Some(why@),
                    None => None,
                },
                r,
            ),
    {
        match missing {
            Some(why) => Err(CudaError::NoDevice(why.to_owned())),
            None => Ok(Opening::Context),
        }
    }

    /// What is remembered of a request: that the driver is not there, and nothing
    /// else. A device that was refused may open at the next try.
    pub open spec fn spec_remembered(self, outcome: Outcome) -> Option<Seq<char>> {
        if self is Context && outcome is Missing {
            Some("the CUDA driver library is not on this machine"@)
        } else {
            None
        }
    }

    /// What to remember of a request for as long as the process lives.
    pub fn remembered(&self, outcome: &Outcome) -> (why: Option<&'static str>)
        ensures
            match self.spec_remembered(*outcome) {
                Some(said) => why is Some && why->0@ == said,
                None => why is None,
            },
    {
        match (self, outcome) {
            (Opening::Context, Outcome::Missing) => Some(driver_missing()),
            _ => None,
        }
    }

    /// The kernel that is asked for, where one is.
    pub fn kernel(&self) -> (k: Option<Kernel>)
        ensures
            match *self {
                Opening::Function(i) => {
                    &&& k is Some <==> i < KERNELS
                    &&& k is Some ==> k->0.spec_index() == i
                },
                _ => k is None,
            },
    {
        match self {
            Opening::Function(i) => Kernel::nth(*i),
            _ => None,
        }
    }

    /// What a request comes to, by what came of it.
    pub open spec fn answered(self, outcome: Outcome, r: Result<Opening, CudaError>) -> bool {
        match outcome {
            Outcome::Done => r == Ok::<Opening, CudaError>(self.after_done()),
            Outcome::Missing => r is Err && match self {
                Opening::Context => no_device(
                    r->Err_0,
                    "the CUDA driver library is not on this machine"@,
                ),
                Opening::Compile => no_device(
                    r->Err_0,
                    "the NVRTC library is not on this machine; the driver is installed but the CUDA toolkit is not"@,
                ),
                Opening::Function(i) => forall|k: Kernel| #[trigger]
                    k.spec_index() == i ==> missing_kernel(r->Err_0, k),
                _ => false,
            },
            Outcome::Refused(why) => r is Err && match self {
                Opening::Context => no_device(r->Err_0, why@),
                Opening::Compile => did_not_compile(r->Err_0, why@),
                Opening::Function(i) => forall|k: Kernel| #[trigger]
                    k.spec_index() == i ==> missing_kernel(r->Err_0, k),
                _ => false,
            },
        }
    }

    /// Takes what came of the request, and says what is asked next or why the
    /// device cannot be opened.
    ///
    /// "There is no CUDA here" is an ordinary configuration, not a bug, and so
    /// is a driver without the toolkit: both come out as
    /// [`CudaError::NoDevice`]. A module that does not load, or a float that is
    /// not allocated, is the driver's own error and never gets here.
    pub fn next(self, outcome: Outcome) -> (r: Result<Opening, CudaError>)
        requires
            match self {
                Opening::Function(i) => i < KERNELS,
                Opening::Module | Opening::Dummy | Opening::Open => outcome is Done,
                _ => true,
            },
        ensures
            self.answered(outcome, r),
    {
        match self {
            Opening::Context => match outcome {
                Outcome::Done => Ok(Opening::Compile),
                Outcome::Missing => Err(CudaError::NoDevice(driver_missing().to_owned())),
                Outcome::Refused(why) => Err(CudaError::NoDevice(why)),
            },
            Opening::Compile => match outcome {
                Outcome::Done => Ok(Opening::Module),
                Outcome::Missing => Err(
                    CudaError::NoDevice(
                        "the NVRTC library is not on this machine; the driver is installed but the CUDA toolkit is not".to_owned(),
                    ),
                ),
                Outcome::Refused(why) => Err(CudaError::Compile(why)),
            },
            Opening::Module => Ok(Opening::Function(0)),
            Opening::Function(i) => match outcome {
                Outcome::Done => if i + 1 < KERNELS {
                    Ok(Opening::Function(i + 1))
                } else {
                    Ok(Opening::Dummy)
                },
                _ => {
                    let kernel: Kernel = Kernel::nth(i).unwrap();
                    proof {
                        assert forall|k: Kernel| #[trigger] k.spec_index() == i implies k
                            == kernel by {
                            crate::names::index_is_injective(k, kernel);
                        }
                    }
                    Err(CudaError::MissingKernel { name: kernel.name().to_owned() })
                },
            },
            Opening::Dummy => Ok(Opening::Open),
            Opening::Open => Ok(Opening::Open),
        }
    }
}

/// Where opening stands after `n` requests in a row that were done.
pub open spec fn after(start: Opening, n: nat) -> Opening
    decreases n,
{
    if n == 0 {
        start
    } else {
        after(start, (n - 1) as nat).after_done()
    }
}

/// A device that is open has had every kernel asked for, each once and in order,
/// after its context, its source and its module, and before its one float.
pub proof fn every_kernel_is_loaded(n: nat)
    ensures
        after(Opening::Context, 0) == Opening::Context,
        after(Opening::Context, 1) == Opening::Compile,
        after(Opening::Context, 2) == Opening::Module,
        n < KERNELS ==> after(Opening::Context, n + 3) == Opening::Function(n as usize),
        after(Opening::Context, (KERNELS + 3) as nat) == Opening::Dummy,
        after(Opening::Context, (KERNELS + 4) as nat) == Opening::Open,
{
    reveal_with_fuel(after, 4);
    if n < KERNELS {
        lemma_functions_in_order(n);
    }
    lemma_functions_in_order((KERNELS - 1) as nat);
    let last = (KERNELS + 2) as nat;
    assert(after(Opening::Context, last) == Opening::Function((KERNELS - 1) as usize));
    assert(after(Opening::Context, last + 1) == Opening::Dummy);
    assert(after(Opening::Context, last + 2) == Opening::Open);
}

proof fn lemma_functions_in_order(n: nat)
    requires
        n < KERNELS,
    ensures
        after(Opening::Context, n + 3) == Opening::Function(n as usize),
    decreases n,
{
    if n == 0 {
        reveal_with_fuel(after, 4);
    } else {
        lemma_functions_in_order((n - 1) as nat);
    }
}

/// What is remembered after one more request: the first verdict stays.
pub open spec fn memory(
    before: Option<Seq<char>>,
    step: Opening,
    outcome: Outcome,
) -> Option<Seq<char>> {
    match before {
        Some(why) => Some(why),
        None => step.spec_remembered(outcome),
    }
}

/// What is remembered after requests in a row.
pub open spec fn memory_over(
    before: Option<Seq<char>>,
    asked: Seq<(Opening, Outcome)>,
) -> Option<Seq<char>>
    decreases asked.len(),
{
    if asked.len() == 0 {
        before
    } else {
        memory(memory_over(before, asked.drop_last()), asked.last().0, asked.last().1)
    }
}

/// Whether one of the requests found no driver.
pub open spec fn met_no_driver(asked: Seq<(Opening, Outcome)>) -> bool {
    exists|i: int|
        0 <= i < asked.len() && (#[trigger] asked[i]).0 is Context && asked[i].1 is Missing
}

/// Whatever was asked, a missing driver is remembered and nothing else is: from
/// then on every start is answered as that request was, that no device is usable
/// and why. Until then every start is a new try: a device that was refused is
/// asked for again.
pub proof fn only_a_missing_driver_is_remembered(
    asked: Seq<(Opening, Outcome)>,
    start: Result<Opening, CudaError>,
    answer: Result<Opening, CudaError>,
)
    requires
        Opening::begun(memory_over(None, asked), start),
        Opening::Context.answered(Outcome::Missing, answer),
    ensures
        met_no_driver(asked) ==> {
            &&& start is Err && answer is Err
            &&& no_device(start->Err_0, "the CUDA driver library is not on this machine"@)
            &&& no_device(answer->Err_0, "the CUDA driver library is not on this machine"@)
        },
        !met_no_driver(asked) ==> start == Ok::<Opening, CudaError>(Opening::Context),
{
    lemma_memory(asked);
}

proof fn lemma_memory(asked: Seq<(Opening, Outcome)>)
    ensures
        memory_over(None, asked) == if met_no_driver(asked) {
            Some("the CUDA driver library is not on this machine"@)
        } else {
            None
        },
    decreases asked.len(),
{
    if asked.len() > 0 {
        let rest = asked.drop_last();
        let last = asked.last();
        lemma_memory(rest);
        if met_no_driver(rest) {
            let i = choose|i: int|
                0 <= i < rest.len() && (#[trigger] rest[i]).0 is Context && rest[i].1 is Missing;
            assert(asked[i] == rest[i]);
        } else if last.0 is Context && last.1 is Missing {
            assert(asked[asked.len() - 1] == last);
        } else {
            assert forall|i: int| 0 <= i < asked.len() implies !((#[trigger] asked[i]).0 is Context
                && asked[i].1 is Missing) by {
                if i < rest.len() {
                    assert(asked[i] == rest[i]);
                }
            }
        }
    }
}

/// The search for the first device that opens: which is tried now, and why the
/// first one did not open.
#[derive(Debug, PartialEq, Eq)]
pub struct Search<E> {
    /// The device that is tried now.
    pub ordinal: usize,
    /// Why the first one did not open, once it has not.
    pub first: Option<E>,
}

impl<E> Search<E> {
    /// The search at its start, which is at the first device.
    pub open spec fn spec_begin() -> Search<E> {
        Search { ordinal: 0, first: None }
    }

    /// Why the first device did not open, with this device's reason where it is
    /// the first.
    pub open spec fn reason(self, why: E) -> E {
        match self.first {
            Some(e) => e,
            None => why,
        }
    }

    /// The search after this device did not open, of `devices` there are: at the
    /// next one, or at its end.
    pub open spec fn after_failure(self, why: E, devices: int) -> Result<Search<E>, E> {
        if self.ordinal + 1 < devices {
            Ok(Search { ordinal: (self.ordinal + 1) as usize, first: Some(self.reason(why)) })
        } else {
            Err(self.reason(why))
        }
    }

    /// Starts at the first device.
    pub fn begin() -> (s: Search<E>)
        ensures
            s == Search::<E>::spec_begin(),
    {
        Search { ordinal: 0, first: None }
    }

    /// Takes why a device did not open and how many there are, and goes on to the
    /// next one, or says why none opened: as the first one put it.
    pub fn failed(self, why: E, devices: usize) -> (r: Result<Search<E>, E>)
        ensures
            r == self.after_failure(why, devices as int),
    {
        let first: E = match self.first {
            Some(e) => e,
            None => why,
        };
        if devices > 0 && self.ordinal < devices - 1 {
            Ok(Search { ordinal: self.ordinal + 1, first: Some(first) })
        } else {
            Err(first)
        }
    }
}

/// A search after devices that did not open, in the order they were tried.
pub open spec fn searched<E>(devices: int, whys: Seq<E>) -> Result<Search<E>, E>
    decreases whys.len(),
{
    if whys.len() == 0 {
        Ok(Search::<E>::spec_begin())
    } else {
        match searched(devices, whys.drop_last()) {
            Ok(s) => s.after_failure(whys.last(), devices),
            Err(e) => Err(e),
        }
    }
}

/// A search tries the devices in order and each of them once, the first even where
/// none is counted; and where none opened it says why the first did not.
pub proof fn every_device_is_tried<E>(devices: int, whys: Seq<E>)
    requires
        devices <= usize::MAX,
    ensures
        whys.len() == 0 ==> searched(devices, whys) == Ok::<Search<E>, E>(
            Search::<E>::spec_begin(),
        ),
        0 < whys.len() < devices ==> searched(devices, whys) == Ok::<Search<E>, E>(
            (Search { ordinal: whys.len() as usize, first: Some(whys[0]) }),
        ),
        0 < whys.len() && devices <= whys.len() ==> searched(devices, whys) == Err::<
            Search<E>,
            E,
        >(whys[0]),
    decreases whys.len(),
{
    if whys.len() > 0 {
        every_device_is_tried(devices, whys.drop_last());
    }
}

/// A request that is not done ends the opening, and what is said tells where: no device where
/// the context or a library is not to be had, the compiler's own words where the source is
/// refused, and a kernel's name where that kernel is not in the module.
pub proof fn a_failure_ends_the_opening(
    step: Opening,
    outcome: Outcome,
    r: Result<Opening, CudaError>,
    k: Kernel,
)
    requires
        step.answered(outcome, r),
        outcome !is Done,
        step is Function ==> step == Opening::Function(k.spec_index() as usize),
    ensures
        r is Err,
        r->Err_0 is NoDevice <==> step is Context || step is Compile && outcome is Missing,
        r->Err_0 is Compile <==> step is Compile && outcome is Refused,
        r->Err_0 is MissingKernel <==> step is Function,
        step is Context && outcome is Refused ==> no_device(r->Err_0, outcome->0@),
        step is Compile && outcome is Refused ==> did_not_compile(r->Err_0, outcome->0@),
        step is Function ==> missing_kernel(r->Err_0, k),
{
    crate::names::index_is_injective(k, k);
}

} // verus!
