//! The host side of a CUDA inference library: what to launch, over which grid,
//! with which arguments, and which requests to refuse.

pub mod arith;
pub mod attention;
pub mod buffer;
pub mod cache;
pub mod checked;
pub mod conv;
pub mod decode;
pub mod device;
pub mod elementwise;
pub mod error;
pub mod gemm;
pub mod gemv;
pub mod heads;
pub mod kernels;
pub mod launch;
pub mod names;
pub mod norm;
pub mod open;
pub mod operand;
pub mod pack;
pub mod quant;
pub mod quantize;
pub mod queue;
pub mod refusing;
pub mod scratch;
pub mod split;
pub mod spread;

pub use arith::{ceil_div, div_ceil};
pub use buffer::{BufferId, CudaSlice, DevicePtr, Elem, FloatBits, Fp32};
pub use decode::KvCache;
pub use error::{launched, CudaError, Failed};
pub use gemm::GEMV_MAX_M;
pub use gemv::{gemv_ln_max_n, OutLayout};
pub use kernels::{define, geometry_matches};
pub use launch::LaunchConfig;
pub use names::Kernel;
pub use open::{driver_missing, Opening, Outcome, Search};
pub use operand::{Batch, Operand, Q8};
pub use pack::Packed;
pub use quant::Quant;
pub use queue::{Arg, Command, Gpu, Launch};
pub use scratch::{DecodeScratch, NormScratch};
pub use split::ksplit_for;
