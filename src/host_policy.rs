use vstd::prelude::*;
use vstd::utf8::encode_utf8;

use crate::address::{sockaddr_eq, SockAddr};
use crate::errno::Errno;
use crate::protocol_family::ProtocolFamily;
use crate::unix_addr::{padded_path, UnixAddr};

verus! {

/// The Unix paths that configuration declares to belong to the host, as
/// addresses. It is built once and only read after that.
pub struct HostPathPolicy {
    addrs: Vec<SockAddr>,
}

/// `a` is the Unix address of the path with bytes `p`, as `UnixAddr::new` builds it.
pub open spec fn is_addr_of_path(a: SockAddr, p: Seq<u8>) -> bool {
    match a {
        SockAddr::UnixSocket(u) => u.spec_path() == p && u.spec_buf() == padded_path(p)
            && u.spec_family() == ProtocolFamily::PF_LOCAL,
        _ => false,
    }
}

impl HostPathPolicy {
    /// The declared host addresses, in the order of configuration.
    pub closed spec fn view(&self) -> Seq<SockAddr> {
        self.addrs@
    }

    /// A policy with no host path: every socket stays in the enclave.
    pub fn empty() -> (r: HostPathPolicy)
        ensures
            r@.len() == 0,
    {
        HostPathPolicy { addrs: Vec::new() }
    }

    /// The policy that declares `paths`; a path over 108 bytes is refused.
    pub fn new(paths: &Vec<String>) -> (r: Result<HostPathPolicy, Errno>)
        ensures
            (forall|i: int| 0 <= i < paths@.len() ==> encode_utf8(#[trigger] paths@[i]@).len() <= 108)
                <==> r is Ok,
            r matches Ok(p) ==> p@.len() == paths@.len() && forall|i: int|
                0 <= i < paths@.len() ==> is_addr_of_path(#[trigger] p@[i], encode_utf8(paths@[i]@)),
    {
        let mut addrs: Vec<SockAddr> = Vec::new();
        let mut i: usize = 0;
        while i < paths.len()
            invariant
                i <= paths@.len(),
                addrs@.len() == i,
                forall|j: int| 0 <= j < i ==> encode_utf8(#[trigger] paths@[j]@).len() <= 108,
                forall|j: int|
                    0 <= j < i ==> is_addr_of_path(#[trigger] addrs@[j], encode_utf8(paths@[j]@)),
            decreases paths@.len() - i,
        {
            match UnixAddr::new(paths[i].as_str()) {
                Ok(a) => addrs.push(SockAddr::UnixSocket(a)),
                Err(e) => return Err(e),
            }
            i = i + 1;
        }
        Ok(HostPathPolicy { addrs })
    }

    /// Whether no host path is declared.
    pub fn is_empty(&self) -> (r: bool)
        ensures
            r == (self@.len() == 0),
    {
        self.addrs.len() == 0
    }
}

impl SockAddr {
    /// Whether this address is one that the policy declares for the host.
    pub fn is_from_host(&self, policy: &HostPathPolicy) -> (r: bool)
        ensures
            r == exists|i: int| 0 <= i < policy@.len() && sockaddr_eq(policy@[i], *self),
    {
        let mut i: usize = 0;
        while i < policy.addrs.len()
            invariant
                i <= policy@.len(),
                forall|j: int| 0 <= j < i ==> !sockaddr_eq(policy@[j], *self),
            decreases policy@.len() - i,
        {
            if policy.addrs[i] == *self {
                return true;
            }
            i = i + 1;
        }
        false
    }
}

} // verus!
