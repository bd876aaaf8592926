use vstd::prelude::*;

verus! {

/// The creation flag that makes a new socket non-blocking.
pub const SOCK_NONBLOCK: u32 = 0o4000;

/// The status flag of a non-blocking file.
pub const O_NONBLOCK: u32 = 0o4000;

/// The status flag of signal-driven I/O.
pub const O_ASYNC: u32 = 0o20000;

/// The status flag of direct I/O.
pub const O_DIRECT: u32 = 0o40000;

/// The access mode of a file open for reading and writing.
pub const O_RDWR: u32 = 2;

} // verus!
