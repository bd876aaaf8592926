//! Unix-domain stream sockets of a library operating system: the address
//! model, the host-path policy, the in-enclave stream transport and the
//! router that sends each call to the enclave or to the host.
use vstd::prelude::*;

pub mod errno;
pub mod protocol_family;
pub mod socket_type;
pub mod unix_addr;
pub mod address;
pub mod host_policy;
pub mod ring_buf;
pub mod channel;
pub mod flags;
pub mod stream;
pub mod host;
pub mod router;
pub mod config;

verus! {

} // verus!
