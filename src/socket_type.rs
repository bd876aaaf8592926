use vstd::prelude::*;

use crate::errno::Errno;

verus! {

/// The type of a socket, as `socket(2)` numbers it.
#[derive(Clone, Copy, Debug, PartialEq, Eq, Structural)]
#[allow(non_camel_case_types)]
pub enum SocketType {
    SOCK_STREAM,
    SOCK_DGRAM,
    SOCK_RAW,
    SOCK_RDM,
    SOCK_SEQPACKET,
    SOCK_DCCP,
    SOCK_PACKET,
}

/// The number of a socket type.
pub open spec fn spec_type_num(t: SocketType) -> i32 {
    match t {
        SocketType::SOCK_STREAM => 1,
        SocketType::SOCK_DGRAM => 2,
        SocketType::SOCK_RAW => 3,
        SocketType::SOCK_RDM => 4,
        SocketType::SOCK_SEQPACKET => 5,
        SocketType::SOCK_DCCP => 6,
        SocketType::SOCK_PACKET => 10,
    }
}

/// Whether `n` numbers a socket type.
pub open spec fn is_type_num(n: i32) -> bool {
    1 <= n <= 6 || n == 10
}

impl SocketType {
    /// The socket type numbered `sock_type`; any other number is refused.
    pub fn try_from(sock_type: i32) -> (r: Result<SocketType, Errno>)
        ensures
            is_type_num(sock_type) <==> r is Ok,
            r matches Ok(t) ==> spec_type_num(t) == sock_type,
            !is_type_num(sock_type) ==> r == Err::<SocketType, Errno>(Errno::EINVAL),
    {
        match sock_type {
            1 => Ok(SocketType::SOCK_STREAM),
            2 => Ok(SocketType::SOCK_DGRAM),
            3 => Ok(SocketType::SOCK_RAW),
            4 => Ok(SocketType::SOCK_RDM),
            5 => Ok(SocketType::SOCK_SEQPACKET),
            6 => Ok(SocketType::SOCK_DCCP),
            10 => Ok(SocketType::SOCK_PACKET),
            _ => Err(Errno::EINVAL),
        }
    }

    /// The number of this socket type.
    pub fn as_i32(&self) -> (r: i32)
        ensures
            r == spec_type_num(*self),
    {
        match self {
            SocketType::SOCK_STREAM => 1,
            SocketType::SOCK_DGRAM => 2,
            SocketType::SOCK_RAW => 3,
            SocketType::SOCK_RDM => 4,
            SocketType::SOCK_SEQPACKET => 5,
            SocketType::SOCK_DCCP => 6,
            SocketType::SOCK_PACKET => 10,
        }
    }
}

} // verus!
