//! The queue: what the host asks of the device, in order.
//!
//! A [`Gpu`] records allocations and launches. Whoever owns the driver plays
//! the record back, one command at a time, and stops at the first that fails.

use crate::buffer::{BufferId, CudaSlice, DevicePtr, Elem, FloatBits, Fp32};
use crate::launch::LaunchConfig;
use crate::names::Kernel;
use vstd::prelude::*;

verus! {

/// One argument of a launch.
#[derive(Debug, Clone, Copy, PartialEq, Eq)]
pub enum Arg {
    /// A place in a buffer.
    Ptr(DevicePtr),
    /// A null pointer, which is how an absent bias is expressed.
    Null,
    /// The one zeroed float that stands for an input the kernel is told never
    /// to read.
    Dummy,
    /// A 32-bit integer.
    I32(i32),
    /// A 64-bit integer.
    I64(i64),
    /// A 32-bit float.
    Float(FloatBits),
    /// `1 / sqrt(n)`, as a 32-bit float.
    InvSqrt(usize),
}

/// A buffer from its start.
pub open spec fn ptr<T>(x: CudaSlice<T>) -> Arg {
    Arg::Ptr(x.at(0))
}

/// A buffer from `offset` elements in.
pub open spec fn ptr_at<T>(x: CudaSlice<T>, offset: int) -> Arg {
    Arg::Ptr(x.at(offset))
}

/// A buffer if there is one, and null otherwise.
pub open spec fn ptr_or_null<T>(x: Option<&CudaSlice<T>>) -> Arg {
    match x {
        Some(v) => ptr(*v),
        None => Arg::Null,
    }
}

/// A buffer if there is one, and the dummy otherwise.
pub open spec fn ptr_or_dummy<T>(x: Option<&CudaSlice<T>>) -> Arg {
    match x {
        Some(v) => ptr(*v),
        None => Arg::Dummy,
    }
}

/// A length or a count, as the kernel's `int`.
pub open spec fn num(n: int) -> Arg {
    Arg::I32(n as i32)
}

/// A stride or an offset, as the kernel's `long long`.
pub open spec fn long(n: int) -> Arg {
    Arg::I64(n as i64)
}

/// A yes or no, as the kernel's `int`.
pub open spec fn flag(b: bool) -> Arg {
    Arg::I32(if b { 1 } else { 0 })
}

impl Arg {
    /// A buffer from its start.
    pub fn ptr<T>(x: &CudaSlice<T>) -> (r: Arg)
        ensures
            r == ptr(*x),
    {
        Arg::Ptr(DevicePtr { id: x.id, offset: 0 })
    }

    /// A buffer from `offset` elements in.
    pub fn ptr_at<T>(x: &CudaSlice<T>, offset: usize) -> (r: Arg)
        requires
            offset <= x.len,
        ensures
            r == ptr_at(*x, offset as int),
    {
        Arg::Ptr(DevicePtr { id: x.id, offset })
    }

    /// A buffer, or null where there is none.
    pub fn ptr_or_null<T>(x: Option<&CudaSlice<T>>) -> (r: Arg)
        ensures
            r == ptr_or_null(x),
    {
        match x {
            Some(v) => Arg::ptr(v),
            None => Arg::Null,
        }
    }

    /// A buffer, or the dummy where there is none.
    pub fn ptr_or_dummy<T>(x: Option<&CudaSlice<T>>) -> (r: Arg)
        ensures
            r == ptr_or_dummy(x),
    {
        match x {
            Some(v) => Arg::ptr(v),
            None => Arg::Dummy,
        }
    }

    /// A length or a count.
    pub fn num(n: usize) -> (r: Arg)
        ensures
            r == num(n as int),
    {
        Arg::I32(n as i32)
    }

    /// A stride or an offset.
    pub fn long(n: usize) -> (r: Arg)
        ensures
            r == long(n as int),
    {
        Arg::I64(n as i64)
    }

    /// A yes or no.
    pub fn flag(b: bool) -> (r: Arg)
        ensures
            r == flag(b),
    {
        Arg::I32(if b { 1 } else { 0 })
    }
}

/// One kernel launch.
#[derive(Debug, PartialEq, Eq)]
pub struct Launch {
    /// The kernel that runs.
    pub kernel: Kernel,
    /// The name a failure is reported under.
    pub label: Kernel,
    /// Its arguments.
    pub args: Vec<Arg>,
    /// Its geometry.
    pub cfg: LaunchConfig,
}

/// One thing asked of the device.
#[derive(Debug, PartialEq, Eq)]
pub enum Command {
    /// Make a buffer.
    Alloc {
        /// Of what.
        elem: Elem,
        /// How many of them.
        len: usize,
        /// Whether it starts as zeros, or as whatever was there.
        zeroed: bool,
    },
    /// Run a kernel.
    Launch(Launch),
}

/// A [`Command`] as a mathematical value.
#[verifier::ext_equal]
pub enum Cmd {
    /// A buffer made.
    Alloc { elem: Elem, len: int, zeroed: bool },
    /// A kernel run.
    Launch { kernel: Kernel, label: Kernel, args: Seq<Arg>, cfg: LaunchConfig },
}

impl View for Command {
    type V = Cmd;

    open spec fn view(&self) -> Cmd {
        match self {
            Command::Alloc { elem, len, zeroed } => Cmd::Alloc {
                elem: *elem,
                len: *len as int,
                zeroed: *zeroed,
            },
            Command::Launch(l) => Cmd::Launch {
                kernel: l.kernel,
                label: l.label,
                args: l.args@,
                cfg: l.cfg,
            },
        }
    }
}

/// A buffer left as whatever was there.
pub open spec fn uninit(elem: Elem, len: int) -> Cmd {
    Cmd::Alloc { elem, len, zeroed: false }
}

/// A buffer of zeros.
pub open spec fn zeros(elem: Elem, len: int) -> Cmd {
    Cmd::Alloc { elem, len, zeroed: true }
}

/// A launch reported under its kernel's own name.
pub open spec fn launch(kernel: Kernel, args: Seq<Arg>, cfg: LaunchConfig) -> Cmd {
    Cmd::Launch { kernel, label: kernel, args, cfg }
}

/// An open device: the kernels loaded, and the queue of what was asked of it.
#[derive(Debug)]
pub struct Gpu {
    /// Everything asked so far, oldest first.
    pub commands: Vec<Command>,
}

impl View for Gpu {
    type V = Seq<Cmd>;

    open spec fn view(&self) -> Seq<Cmd> {
        Seq::new(self.commands@.len(), |i: int| self.commands@[i]@)
    }
}

/// The buffer that an allocation at place `at` of a queue makes.
pub open spec fn made<T>(at: int, len: int) -> CudaSlice<T> {
    CudaSlice::<T>::spec_new(BufferId::Made(at as usize), len)
}

/// Whether a buffer is one that a queue makes: `len` elements of `elem`.
pub open spec fn made_in<T>(q: Seq<Cmd>, x: CudaSlice<T>, elem: Elem, len: int) -> bool {
    &&& x.len == len
    &&& match x.id {
        BufferId::Made(i) => i < q.len() && q[i as int] is Alloc && q[i as int]->elem == elem
            && q[i as int]->len == len,
        BufferId::Given(_) => false,
    }
}

/// Two buffers that are made at two places of a queue are two buffers.
pub proof fn buffers_are_made_apart<A, B>(a: int, b: int, m: int, n: int)
    requires
        0 <= a <= usize::MAX,
        0 <= b <= usize::MAX,
        a != b,
    ensures
        made::<A>(a, m).id != made::<B>(b, n).id,
{
}

impl Gpu {
    /// A device with nothing asked of it yet.
    pub fn new() -> (gpu: Gpu)
        ensures
            gpu@ == Seq::<Cmd>::empty(),
    {
        Gpu { commands: Vec::new() }
    }

    /// Queues one command.
    pub fn enqueue(&mut self, command: Command)
        ensures
            final(self)@ == old(self)@.push(command@),
    {
        self.commands.push(command);
    }

    fn make<T>(&mut self, elem: Elem, len: usize, zeroed: bool) -> (out: CudaSlice<T>)
        ensures
            final(self)@ == old(self)@.push(Cmd::Alloc { elem, len: len as int, zeroed }),
            out == made::<T>(old(self)@.len() as int, len as int),
            out.len == len,
            made_in(final(self)@, out, elem, len as int),
            old(self)@.len() <= usize::MAX,
    {
        let at: usize = self.commands.len();
        self.enqueue(Command::Alloc { elem, len, zeroed });
        CudaSlice::new(BufferId::Made(at), len)
    }

    /// Allocates a zeroed device buffer.
    pub fn zeros(&mut self, n: usize) -> (out: CudaSlice<Fp32>)
        ensures
            final(self)@ == old(self)@.push(zeros(Elem::F32, n as int)),
            out == made::<Fp32>(old(self)@.len() as int, n as int),
            out.len == n,
            made_in(final(self)@, out, Elem::F32, n as int),
            old(self)@.len() <= usize::MAX,
    {
        self.make(Elem::F32, n, true)
    }

    /// Allocates a zeroed f16 device buffer, of `n` *elements* rather than
    /// words.
    ///
    /// A cache is the caller: it is written a token at a time and read in
    /// full, so the positions past the live length are read before anything
    /// writes them and must be zero rather than whatever was there.
    pub fn zeros_f16(&mut self, n: usize) -> (out: CudaSlice<u16>)
        ensures
            final(self)@ == old(self)@.push(zeros(Elem::U16, n as int)),
            out == made::<u16>(old(self)@.len() as int, n as int),
            out.len == n,
            made_in(final(self)@, out, Elem::U16, n as int),
            old(self)@.len() <= usize::MAX,
    {
        self.make(Elem::U16, n, true)
    }

    /// Allocates without zeroing.
    ///
    /// The contents are whatever the last owner of that memory left there, so
    /// the kernel that follows has to write every element.
    pub fn uninit(&mut self, n: usize) -> (out: CudaSlice<Fp32>)
        ensures
            final(self)@ == old(self)@.push(uninit(Elem::F32, n as int)),
            out == made::<Fp32>(old(self)@.len() as int, n as int),
            out.len == n,
            made_in(final(self)@, out, Elem::F32, n as int),
            old(self)@.len() <= usize::MAX,
    {
        self.make(Elem::F32, n, false)
    }

    /// Allocates an f16 buffer without zeroing.
    pub fn uninit_f16(&mut self, n: usize) -> (out: CudaSlice<u16>)
        ensures
            final(self)@ == old(self)@.push(uninit(Elem::U16, n as int)),
            out == made::<u16>(old(self)@.len() as int, n as int),
            out.len == n,
            made_in(final(self)@, out, Elem::U16, n as int),
            old(self)@.len() <= usize::MAX,
    {
        self.make(Elem::U16, n, false)
    }

    /// Allocates an int8 buffer without zeroing.
    pub fn uninit_i8(&mut self, n: usize) -> (out: CudaSlice<i8>)
        ensures
            final(self)@ == old(self)@.push(uninit(Elem::I8, n as int)),
            out == made::<i8>(old(self)@.len() as int, n as int),
            out.len == n,
            made_in(final(self)@, out, Elem::I8, n as int),
            old(self)@.len() <= usize::MAX,
    {
        self.make(Elem::I8, n, false)
    }

    /// Allocates a zeroed int8 buffer.
    pub fn zeros_i8(&mut self, n: usize) -> (out: CudaSlice<i8>)
        ensures
            final(self)@ == old(self)@.push(zeros(Elem::I8, n as int)),
            out == made::<i8>(old(self)@.len() as int, n as int),
            out.len == n,
            made_in(final(self)@, out, Elem::I8, n as int),
            old(self)@.len() <= usize::MAX,
    {
        self.make(Elem::I8, n, true)
    }

    /// Allocates zeroed counters.
    pub fn zeros_u32(&mut self, n: usize) -> (out: CudaSlice<u32>)
        ensures
            final(self)@ == old(self)@.push(zeros(Elem::U32, n as int)),
            out == made::<u32>(old(self)@.len() as int, n as int),
            out.len == n,
            made_in(final(self)@, out, Elem::U32, n as int),
            old(self)@.len() <= usize::MAX,
    {
        self.make(Elem::U32, n, true)
    }

    /// Queues a launch, reported under its kernel's own name.
    pub fn launch(&mut self, kernel: Kernel, args: Vec<Arg>, cfg: LaunchConfig)
        ensures
            final(self)@ == old(self)@.push(launch(kernel, args@, cfg)),
    {
        self.launch_as(kernel, kernel, args, cfg);
    }

    /// Queues a launch, reported under `label`.
    pub fn launch_as(&mut self, kernel: Kernel, label: Kernel, args: Vec<Arg>, cfg: LaunchConfig)
        ensures
            final(self)@ == old(self)@.push(Cmd::Launch { kernel, label, args: args@, cfg }),
    {
        self.enqueue(Command::Launch(Launch { kernel, label, args, cfg }));
    }
}

/// A launch is reported under the kernel it runs, and is handed what it is given.
pub proof fn a_launch_is_reported_under_its_kernel(
    kernel: Kernel,
    args: Seq<Arg>,
    cfg: LaunchConfig,
)
    ensures
        launch(kernel, args, cfg)->label == kernel,
        launch(kernel, args, cfg)->kernel == kernel,
        launch(kernel, args, cfg)->args == args,
        launch(kernel, args, cfg)->cfg == cfg,
{
}

} // verus!
