use vstd::prelude::*;

use crate::address::{sockaddr_eq, SockAddr};
use crate::errno::Errno;
use crate::host::{spec_host_ret, HostCall, SocketFile};
use crate::host_policy::HostPathPolicy;
use crate::protocol_family::ProtocolFamily;
use crate::ring_buf::{concat, DEFAULT_BUF_SIZE};
use crate::socket_type::SocketType;
use crate::address::copied_into;
use crate::stream::{
    accept_post, ioctl_outcome, ioctl_result, libos_read, libos_read_outcome, libos_readv, libos_write, libos_write_outcome,
    spec_peer_name, IoctlCmd, StreamUnixSocket, UnixDomain,
};
use vstd::utf8::encode_utf8;

verus! {

/// Where a socket's calls go: not yet decided, to the host, or to the
/// stream sockets inside the enclave.
#[derive(Clone, Copy, Debug, PartialEq, Eq, Structural)]
pub enum Source {
    Unknown,
    Host,
    Libos,
}

/// What a call on a routed socket comes to: its result, or a call that the
/// host has to make (whose return value the caller then translates).
#[derive(Debug)]
pub enum Step<T> {
    Done(Result<T, Errno>),
    Host(HostCall),
}

/// What an accept comes to: the accepted socket; one accepted in the
/// enclave that still needs its shadow host socket, created by the request
/// given; or a host accept to make.
#[derive(Debug)]
pub enum AcceptStep {
    Done(Result<(UnixSocket, usize), Errno>),
    NeedShadow(StreamUnixSocket, usize, HostCall),
    Host(HostCall),
}

/// A Unix socket that serves each call inside the enclave or on the host,
/// by where the address belongs.
#[derive(Debug)]
pub struct UnixSocket {
    pub libos_sock: Option<StreamUnixSocket>,
    pub host_sock: Option<SocketFile>,
    pub source: Source,
    pub socket_type: SocketType,
}

/// The ioctl request number of `FIONREAD`.
pub const FIONREAD_NUM: u32 = 0x541B;

/// The request number of an ioctl command.
pub open spec fn ioctl_num(cmd: IoctlCmd) -> u32 {
    match cmd {
        IoctlCmd::FIONREAD(_) => FIONREAD_NUM,
        IoctlCmd::Other(n) => n,
    }
}

/// Whether `addr` is one of the host's addresses under `policy`.
pub open spec fn spec_is_from_host(addr: SockAddr, policy: HostPathPolicy) -> bool {
    exists|i: int| 0 <= i < policy@.len() && sockaddr_eq(policy@[i], addr)
}

/// `r` is the host request that sends `buf` with `flags`, to `to` if given,
/// through the host socket `h`.
pub open spec fn host_send(r: Step<usize>, h: Option<SocketFile>, buf: Seq<u8>, flags: u32, to: Option<SockAddr>) -> bool {
    match r {
        Step::Host(HostCall::SendTo { fd, buf: b, flags: f, to: t }) => h is Some && fd == h->Some_0.spec_fd()
            && b@ == buf && f == flags && match to {
            Some(x) => t is Some && t->Some_0@ == x.spec_bytes(),
            None => t is None,
        },
        _ => false,
    }
}

/// The capacity of the caller's address buffer, if there is one.
pub open spec fn cap_of(a: Option<Vec<u8>>) -> Option<usize> {
    match a {
        Some(v) => Some(v@.len() as usize),
        None => None,
    }
}

/// `r` is the host request that receives up to `len` bytes with `flags`,
/// with the sender's address when `cap` asks for it, through `h`.
pub open spec fn host_recv<T>(r: Step<T>, h: Option<SocketFile>, len: nat, flags: u32, cap: Option<usize>) -> bool {
    h is Some && r == Step::<T>::Host(HostCall::RecvFrom { fd: h->Some_0.spec_fd(), len: len as usize, flags, addr_cap: cap })
}

/// `r` and `nd` are what a write of `src` through `u` comes to, `host_req`
/// saying that `r` is the matching host request. With the source the
/// enclave, the enclave side writes; with the source the host, the host is
/// asked; with it unknown, the enclave side is tried first and the host is
/// asked when that fails and the policy has host paths.
pub open spec fn routed_write(
    u: UnixSocket,
    policy: HostPathPolicy,
    od: UnixDomain,
    nd: UnixDomain,
    src: Seq<u8>,
    r: Step<usize>,
    host_req: bool,
) -> bool {
    match u.source {
        Source::Libos => r matches Step::Done(rr) && libos_write(u.libos_sock->Some_0, od, nd, src, rr),
        Source::Host => nd == od && host_req,
        Source::Unknown => match u.libos_sock {
            None => nd == od && host_req,
            Some(l) => {
                let o = libos_write_outcome(l, od, src.len() as int);
                &&& (o is Ok || policy@.len() == 0) ==> (r matches Step::Done(rr) && libos_write(l, od, nd, src, rr))
                &&& (o is Err && policy@.len() > 0) ==> host_req && libos_write(l, od, nd, src, o)
            },
        },
    }
}

/// Like `routed_write`, for a read into a buffer holding `ob`, then `nb`.
pub open spec fn routed_read(
    u: UnixSocket,
    policy: HostPathPolicy,
    od: UnixDomain,
    nd: UnixDomain,
    ob: Seq<u8>,
    nb: Seq<u8>,
    r: Step<usize>,
    host_req: bool,
) -> bool {
    match u.source {
        Source::Libos => r matches Step::Done(rr) && libos_read(u.libos_sock->Some_0, od, nd, ob, nb, rr),
        Source::Host => nd == od && nb == ob && host_req,
        Source::Unknown => match u.libos_sock {
            None => nd == od && nb == ob && host_req,
            Some(l) => {
                let o = libos_read_outcome(l, od, ob.len() as int);
                &&& (o is Ok || policy@.len() == 0) ==> (r matches Step::Done(rr) && libos_read(l, od, nd, ob, nb, rr))
                &&& (o is Err && policy@.len() > 0) ==> host_req && libos_read(l, od, nd, ob, nb, o)
            },
        },
    }
}

/// Like `routed_read`, for a read into the pieces `obufs`, then `nbufs`.
pub open spec fn routed_readv(
    u: UnixSocket,
    policy: HostPathPolicy,
    od: UnixDomain,
    nd: UnixDomain,
    obufs: Seq<Vec<u8>>,
    nbufs: Seq<Vec<u8>>,
    r: Step<usize>,
    host_req: bool,
) -> bool {
    match u.source {
        Source::Libos => r matches Step::Done(rr) && libos_readv(u.libos_sock->Some_0, od, nd, obufs, nbufs, rr),
        Source::Host => nd == od && nbufs == obufs && host_req,
        Source::Unknown => match u.libos_sock {
            None => nd == od && nbufs == obufs && host_req,
            Some(l) => {
                let o = libos_read_outcome(l, od, concat(obufs).len() as int);
                &&& (o is Ok || policy@.len() == 0) ==> (r matches Step::Done(rr) && libos_readv(l, od, nd, obufs, nbufs, rr))
                &&& (o is Err && policy@.len() > 0) ==> host_req && libos_readv(l, od, nd, obufs, nbufs, o)
            },
        },
    }
}

/// `na` and `n` are the caller's address buffer after a successful receive
/// by `l` and the address length: the buffer is cleared and receives the
/// peer's name, if the peer has one.
pub open spec fn recv_addr(l: StreamUnixSocket, od: UnixDomain, oa: Option<Vec<u8>>, na: Option<Vec<u8>>, n: usize) -> bool {
    match oa {
        None => na == oa && n == 0,
        Some(dst) => {
            let z = Seq::new(dst@.len(), |i: int| 0u8);
            &&& na is Some
            &&& match spec_peer_name(od.channels, l.channel->Some_0 as int) {
                Some(m) => n == 2 + encode_utf8(m).len() && na->Some_0@ == copied_into(seq![1u8, 0u8] + encode_utf8(m), z),
                None => n == 0 && na->Some_0@ == z,
            }
        },
    }
}

/// What a receive by the enclave side `l` gives: the read, then the address.
pub open spec fn recv_post(
    l: StreamUnixSocket,
    od: UnixDomain,
    nd: UnixDomain,
    ob: Seq<u8>,
    nb: Seq<u8>,
    oa: Option<Vec<u8>>,
    na: Option<Vec<u8>>,
    rr: Result<(usize, usize), Errno>,
) -> bool {
    match rr {
        Ok((k, n)) => libos_read(l, od, nd, ob, nb, Ok::<usize, Errno>(k)) && recv_addr(l, od, oa, na, n),
        Err(e) => libos_read(l, od, nd, ob, nb, Err::<usize, Errno>(e)) && na == oa,
    }
}

/// Like `routed_read`, for a receive that may ask for the sender's address.
pub open spec fn routed_recv(
    u: UnixSocket,
    policy: HostPathPolicy,
    od: UnixDomain,
    nd: UnixDomain,
    ob: Seq<u8>,
    nb: Seq<u8>,
    oa: Option<Vec<u8>>,
    na: Option<Vec<u8>>,
    r: Step<(usize, usize)>,
    host_req: bool,
) -> bool {
    match u.source {
        Source::Libos => r matches Step::Done(rr) && recv_post(u.libos_sock->Some_0, od, nd, ob, nb, oa, na, rr),
        Source::Host => nd == od && nb == ob && na == oa && host_req,
        Source::Unknown => match u.libos_sock {
            None => nd == od && nb == ob && na == oa && host_req,
            Some(l) => {
                let o = libos_read_outcome(l, od, ob.len() as int);
                &&& (o is Ok || policy@.len() == 0) ==> (r matches Step::Done(rr) && recv_post(l, od, nd, ob, nb, oa, na, rr))
                &&& (o is Err && policy@.len() > 0) ==> host_req && na == oa && libos_read(l, od, nd, ob, nb, o)
            },
        },
    }
}

/// A vector of `n` zero bytes.
fn zeros(n: usize) -> (r: Vec<u8>)
    ensures
        r@ == Seq::new(n as nat, |i: int| 0u8),
{
    let mut v: Vec<u8> = Vec::new();
    let mut i: usize = 0;
    while i < n
        invariant
            i <= n,
            v@ == Seq::new(i as nat, |j: int| 0u8),
        decreases n - i,
    {
        v.push(0u8);
        i = i + 1;
        proof {
            assert(v@ =~= Seq::new(i as nat, |j: int| 0u8));
        }
    }
    v
}

/// A receive by the enclave side `l`: the caller's address buffer is
/// cleared and receives the peer's name when the read succeeds.
fn libos_recvfrom(l: &StreamUnixSocket, dom: &mut UnixDomain, buf: &mut [u8], flags: u32, addr: &mut Option<Vec<u8>>) -> (r: Result<(usize, usize), Errno>)
    requires
        old(dom).wf(),
        l.wf_in(old(dom).channels.ends@.len()),
    ensures
        final(dom).wf(),
        recv_post(*l, *old(dom), *final(dom), old(buf)@, final(buf)@, *old(addr), *final(addr), r),
{
    let mut tmp: Option<Vec<u8>> = match addr {
        Some(v) => Some(zeros(v.len())),
        None => None,
    };
    let ghost t0 = tmp;
    let r = l.recvfrom(dom, buf, flags, &mut tmp);
    match r {
        Ok(res) => {
            if tmp.is_some() {
                *addr = tmp;
            }
            proof {
                if *old(addr) is Some {
                    assert(t0 is Some);
                    assert(t0->Some_0@ == Seq::new((*old(addr))->Some_0@.len(), |i: int| 0u8));
                    if spec_peer_name(old(dom).channels, l.channel->Some_0 as int) is None {
                        assert(tmp == t0);
                    }
                }
            }
            Ok(res)
        },
        Err(e) => Err(e),
    }
}

impl UnixSocket {
    /// At least one socket is there; a socket that may route to the host
    /// (its source unknown with host paths in the policy, or no enclave
    /// side) has a host socket; the source names a socket that is there;
    /// the enclave socket's endpoint exists.
    pub open spec fn wf(&self, dom: UnixDomain, policy: HostPathPolicy) -> bool {
        &&& self.libos_sock is Some || self.host_sock is Some
        &&& self.source == Source::Unknown && policy@.len() > 0 ==> self.host_sock is Some
        &&& self.libos_sock is None ==> self.host_sock is Some
        &&& self.source == Source::Libos ==> self.libos_sock is Some
        &&& self.source == Source::Host ==> self.host_sock is Some
        &&& self.libos_sock matches Some(s) ==> s.wf_in(dom.channels.ends@.len())
    }

    /// The request for the host socket that `new` expects when the policy
    /// has host paths.
    pub fn host_socket_call(socket_type: SocketType, flags: u32, protocol: i32) -> (r: HostCall)
        requires
            flags <= i32::MAX,
        ensures
            r == (HostCall::Socket {
                domain: 1,
                sock_type: (crate::socket_type::spec_type_num(socket_type) as u32 | flags) as i32,
                protocol,
            }),
    {
        SocketFile::socket_call(ProtocolFamily::PF_LOCAL, socket_type, flags, protocol)
    }

    /// A new socket. A protocol other than 0 and `PF_LOCAL` is refused with
    /// `EPROTONOSUPPORT`. A stream socket gets an enclave side; a policy with
    /// host paths gets a host side, from `host`, the host's answer to
    /// `host_socket_call`; with neither, `EPROTONOSUPPORT`.
    pub fn new(socket_type: SocketType, flags: u32, protocol: i32, policy: &HostPathPolicy, host: Option<i64>) -> (r: Result<UnixSocket, Errno>)
        requires
            host is Some <==> policy@.len() > 0,
            host matches Some(h) ==> h > i32::MIN,
        ensures
            protocol != 0 && protocol != 1 ==> r == Err::<UnixSocket, Errno>(Errno::EPROTONOSUPPORT),
            (protocol == 0 || protocol == 1) && socket_type != SocketType::SOCK_STREAM && host is None
                ==> r == Err::<UnixSocket, Errno>(Errno::EPROTONOSUPPORT),
            (protocol == 0 || protocol == 1) ==> match host {
                Some(h) => h < 0 ==> r == Err::<UnixSocket, Errno>(Errno::from_code_spec((-h) as i32)),
                None => true,
            },
            (protocol == 0 || protocol == 1) && (socket_type == SocketType::SOCK_STREAM || host is Some) && match host {
                Some(h) => 0 <= h <= i32::MAX,
                None => true,
            } ==> r is Ok,
            r matches Ok(s) ==> {
                &&& s.source == Source::Unknown
                &&& s.socket_type == socket_type
                &&& s.libos_sock is Some <==> socket_type == SocketType::SOCK_STREAM
                &&& s.libos_sock matches Some(l) ==> l.path is None && l.channel is None && l.server is None
                    && l.is_blocking == (flags & crate::flags::SOCK_NONBLOCK == 0)
                &&& s.host_sock is Some <==> host is Some
                &&& s.host_sock matches Some(h) ==> h.spec_fd() == host->Some_0
                &&& forall|d: UnixDomain| s.wf(d, *policy)
            },
    {
        if protocol != 0 && protocol != 1 {
            return Err(Errno::EPROTONOSUPPORT);
        }
        let libos_sock = if socket_type == SocketType::SOCK_STREAM {
            Some(StreamUnixSocket::new(flags))
        } else {
            None
        };
        let host_sock = match host {
            Some(ret) => match SocketFile::new(ret) {
                Ok(s) => Some(s),
                Err(e) => return Err(e),
            },
            None => None,
        };
        if libos_sock.is_none() && host_sock.is_none() {
            return Err(Errno::EPROTONOSUPPORT);
        }
        Ok(UnixSocket { libos_sock, host_sock, source: Source::Unknown, socket_type })
    }

    /// Where the calls go.
    pub fn source(&self) -> (r: Source)
        ensures
            r == self.source,
    {
        self.source
    }

    /// The socket type.
    pub fn socket_type(&self) -> (r: SocketType)
        ensures
            r == self.socket_type,
    {
        self.socket_type
    }

    /// Sockets are open for reading and writing.
    pub fn get_access_mode(&self) -> (r: u32)
        ensures
            r == crate::flags::O_RDWR,
    {
        crate::flags::O_RDWR
    }

    /// Sockets cannot seek.
    pub fn seek(&self) -> (r: Result<i64, Errno>)
        ensures
            r == Err::<i64, Errno>(Errno::ESPIPE),
    {
        Err(Errno::ESPIPE)
    }

    /// Binds to `addr`. With the source unknown, a host address goes to the
    /// host (and `host_bound` records the answer) and any other to the
    /// enclave side, which on success fixes the source to the enclave. With
    /// the source fixed, the bind goes to that side.
    pub fn bind(&mut self, dom: &mut UnixDomain, policy: &HostPathPolicy, addr: SockAddr) -> (r: Step<()>)
        requires
            old(dom).wf(),
            old(self).wf(*old(dom), *policy),
        ensures
            final(dom).wf(),
            final(self).wf(*final(dom), *policy),
            final(dom).channels.ends@.len() == old(dom).channels.ends@.len(),
            final(self).socket_type == old(self).socket_type,
            final(self).host_sock == old(self).host_sock,
            ({
                let to_host = old(self).source == Source::Host || (old(self).source == Source::Unknown
                    && spec_is_from_host(addr, *policy));
                &&& to_host ==> *final(self) == *old(self) && *final(dom) == *old(dom) && (r matches Step::Host(
                    HostCall::Bind { fd, addr: a },
                ) && fd == old(self).host_sock->Some_0.spec_fd() && a@ == addr.spec_bytes())
                &&& !to_host ==> match old(self).libos_sock {
                    None => r == Step::<()>::Done(Err(Errno::EOPNOTSUPP)) && *final(self) == *old(self) && *final(dom) == *old(dom),
                    Some(l) => (r matches Step::Done(rr) && final(self).libos_sock matches Some(nl) && {
                        &&& (l.path is Some || !(addr is UnixSocket)) ==> rr == Err::<(), Errno>(Errno::EINVAL)
                            && *final(self) == *old(self) && *final(dom) == *old(dom)
                        &&& l.path is None && addr is UnixSocket ==> rr is Ok && final(self).source == Source::Libos
                            && crate::stream::bound_to(l, nl, old(dom).channels, final(dom).channels, addr)
                            && nl == (StreamUnixSocket { path: nl.path, ..l }) && final(dom).registry == old(dom).registry
                            && final(dom).pair_count == old(dom).pair_count
                    }),
                }
            }),
    {
        let to_host = match self.source {
            Source::Host => true,
            Source::Libos => false,
            Source::Unknown => addr.is_from_host(policy),
        };
        if to_host {
            match &self.host_sock {
                Some(h) => return Step::Host(h.bind(&addr)),
                None => return Step::Done(Err(Errno::EOPNOTSUPP)),
            }
        }
        match &mut self.libos_sock {
            None => Step::Done(Err(Errno::EOPNOTSUPP)),
            Some(l) => {
                let r = l.bind(dom, addr);
                if r.is_ok() {
                    self.source = Source::Libos;
                }
                Step::Done(r)
            },
        }
    }

    /// Records the host's answer to a bind: on success the source is the host.
    pub fn host_bound(&mut self, ret: i64) -> (r: Result<(), Errno>)
        requires
            ret > i32::MIN,
        ensures
            ret < 0 ==> r == Err::<(), Errno>(Errno::from_code_spec((-ret) as i32)) && *final(self) == *old(self),
            ret >= 0 ==> r is Ok && *final(self) == (UnixSocket { source: Source::Host, ..*old(self) }),
    {
        if ret < 0 {
            match crate::host::host_ret(ret) {
                Err(e) => Err(e),
                Ok(_) => Err(Errno::EINVAL),
            }
        } else {
            self.source = Source::Host;
            Ok(())
        }
    }

    /// Listens: refused with `EINVAL` before a bind; otherwise on the side
    /// the bind chose.
    pub fn listen(&mut self, dom: &mut UnixDomain, policy: &HostPathPolicy, backlog: i32) -> (r: Step<()>)
        requires
            old(dom).wf(),
            old(self).wf(*old(dom), *policy),
        ensures
            final(dom).wf(),
            final(self).wf(*final(dom), *policy),
            final(self).source == old(self).source,
            final(self).host_sock == old(self).host_sock,
            final(self).socket_type == old(self).socket_type,
            old(self).source == Source::Unknown ==> r == Step::<()>::Done(Err(Errno::EINVAL)) && *final(dom) == *old(dom)
                && *final(self) == *old(self),
            old(self).source == Source::Host ==> r == Step::<()>::Host(HostCall::Listen { fd: old(self).host_sock->Some_0.spec_fd(), backlog })
                && *final(dom) == *old(dom) && *final(self) == *old(self),
            old(self).source == Source::Libos ==> (r matches Step::Done(rr) && final(self).libos_sock is Some
                && crate::stream::listen_post(
                old(self).libos_sock->Some_0,
                final(self).libos_sock->Some_0,
                *old(dom),
                *final(dom),
                rr,
            )),
    {
        match self.source {
            Source::Unknown => Step::Done(Err(Errno::EINVAL)),
            Source::Host => match &self.host_sock {
                Some(h) => Step::Host(h.listen(backlog)),
                None => Step::Done(Err(Errno::EINVAL)),
            },
            Source::Libos => match &mut self.libos_sock {
                Some(l) => Step::Done(l.listen(dom, backlog)),
                None => Step::Done(Err(Errno::EINVAL)),
            },
        }
    }

    /// Accepts: refused with `EINVAL` before a bind. In the enclave, a
    /// connection is taken off the queue and waits for its shadow host
    /// socket; on the host, the host is asked to accept.
    pub fn accept(&self, dom: &mut UnixDomain, policy: &HostPathPolicy, flags: u32, addr: &mut Option<Vec<u8>>) -> (r: AcceptStep)
        requires
            old(dom).wf(),
            self.wf(*old(dom), *policy),
            flags <= i32::MAX,
        ensures
            final(dom).wf(),
            final(dom).channels.ends@.len() == old(dom).channels.ends@.len(),
            self.source == Source::Unknown ==> (r matches AcceptStep::Done(rr) && rr == Err::<(UnixSocket, usize), Errno>(Errno::EINVAL))
                && *final(dom) == *old(dom),
            self.source == Source::Host ==> *final(dom) == *old(dom) && *final(addr) == *old(addr) && r == AcceptStep::Host(
                HostCall::Accept4 {
                    fd: self.host_sock->Some_0.spec_fd(),
                    addr_cap: match *old(addr) {
                        Some(v) => Some(v@.len() as usize),
                        None => None,
                    },
                    flags,
                },
            ),
            self.source == Source::Libos ==> match r {
                AcceptStep::Done(rr) => (rr matches Err(e) && accept_post(
                    self.libos_sock->Some_0,
                    *old(dom),
                    *final(dom),
                    flags,
                    *old(addr),
                    *final(addr),
                    Err::<(StreamUnixSocket, usize), Errno>(e),
                )),
                AcceptStep::NeedShadow(s, n, call) => accept_post(
                    self.libos_sock->Some_0,
                    *old(dom),
                    *final(dom),
                    flags,
                    *old(addr),
                    *final(addr),
                    Ok::<(StreamUnixSocket, usize), Errno>((s, n)),
                ) && call == (HostCall::Socket {
                    domain: 1,
                    sock_type: (crate::socket_type::spec_type_num(self.socket_type) as u32 | flags) as i32,
                    protocol: 0,
                }),
                AcceptStep::Host(_) => false,
            },
    {
        match self.source {
            Source::Unknown => AcceptStep::Done(Err(Errno::EINVAL)),
            Source::Host => match &self.host_sock {
                Some(h) => {
                    let cap = match addr {
                        Some(v) => Some(v.len()),
                        None => None,
                    };
                    AcceptStep::Host(h.accept(flags, cap))
                },
                None => AcceptStep::Done(Err(Errno::EINVAL)),
            },
            Source::Libos => match &self.libos_sock {
                Some(l) => match l.accept(dom, flags, addr) {
                    Err(e) => AcceptStep::Done(Err(e)),
                    Ok((s, n)) => AcceptStep::NeedShadow(
                        s,
                        n,
                        SocketFile::socket_call(ProtocolFamily::PF_LOCAL, self.socket_type, flags, 0),
                    ),
                },
                None => AcceptStep::Done(Err(Errno::EINVAL)),
            },
        }
    }

    /// Completes an accept in the enclave with the host's answer to the
    /// shadow socket request: the accepted socket has both sides and serves
    /// the enclave. When the host fails, the accepted connection is released.
    pub fn with_shadow(dom: &mut UnixDomain, accepted: StreamUnixSocket, addr_len: usize, socket_type: SocketType, ret: i64) -> (r: Result<(UnixSocket, usize), Errno>)
        requires
            old(dom).wf(),
            accepted.wf_in(old(dom).channels.ends@.len()),
            ret > i32::MIN,
        ensures
            final(dom).wf(),
            final(dom).channels.ends@.len() == old(dom).channels.ends@.len(),
            ret < 0 ==> r == Err::<(UnixSocket, usize), Errno>(Errno::from_code_spec((-ret) as i32)),
            ret > i32::MAX ==> r == Err::<(UnixSocket, usize), Errno>(Errno::EBADF),
            r is Ok ==> *final(dom) == *old(dom),
            0 <= ret <= i32::MAX ==> (r matches Ok((u, n)) && n == addr_len && u.source == Source::Libos
                && u.libos_sock == Some(accepted) && u.host_sock is Some && u.host_sock->Some_0.spec_fd() == ret
                && u.socket_type == socket_type),
    {
        match SocketFile::new(ret) {
            Ok(h) => Ok((
                UnixSocket {
                    libos_sock: Some(accepted),
                    host_sock: Some(h),
                    source: Source::Libos,
                    socket_type,
                },
                addr_len,
            )),
            Err(e) => {
                accepted.close(dom);
                Err(e)
            },
        }
    }

    /// Completes an accept on the host with the host's answer: the accepted
    /// socket serves the host, and a stream socket also gets a fresh enclave
    /// side.
    pub fn host_accepted(&self, flags: u32, ret: i64, host_addr: &[u8], host_len: u32, addr: &mut Option<Vec<u8>>) -> (r: Result<(UnixSocket, usize), Errno>)
        requires
            ret > i32::MIN,
        ensures
            ret < 0 ==> r == Err::<(UnixSocket, usize), Errno>(Errno::from_code_spec((-ret) as i32)),
            0 <= ret <= i32::MAX ==> (r matches Ok((u, n)) && n == host_len && u.source == Source::Host
                && u.host_sock is Some && u.host_sock->Some_0.spec_fd() == ret && u.socket_type == self.socket_type
                && (u.libos_sock is Some <==> self.socket_type == SocketType::SOCK_STREAM)),
    {
        match SocketFile::accepted(ret, host_addr, host_len, addr) {
            Err(e) => Err(e),
            Ok((h, n)) => {
                let libos_sock = if self.socket_type == SocketType::SOCK_STREAM {
                    Some(StreamUnixSocket::new(flags))
                } else {
                    None
                };
                Ok((UnixSocket { libos_sock, host_sock: Some(h), source: Source::Host, socket_type: self.socket_type }, n))
            },
        }
    }

    /// Connects. No address disconnects the enclave side, if there is one,
    /// and then asks the host to dissolve its association too when the
    /// policy has host paths and there is a host side. A host address goes
    /// to the host (`EOPNOTSUPP` without a host side), any other to the
    /// enclave side.
    pub fn connect(&mut self, dom: &mut UnixDomain, policy: &HostPathPolicy, addr: Option<SockAddr>) -> (r: Step<()>)
        requires
            old(dom).wf(),
            old(self).wf(*old(dom), *policy),
        ensures
            final(dom).wf(),
            final(self).wf(*final(dom), *policy),
            final(self).source == old(self).source,
            final(self).host_sock == old(self).host_sock,
            final(self).socket_type == old(self).socket_type,
            addr is None ==> {
                &&& final(self).libos_sock is Some <==> old(self).libos_sock is Some
                &&& final(self).libos_sock matches Some(l) ==> l.channel is None
                &&& policy@.len() > 0 && old(self).host_sock is Some ==> (r matches Step::Host(HostCall::Connect { fd, addr: a })
                    && fd == old(self).host_sock->Some_0.spec_fd() && a@ == Seq::new(16, |i: int| 0u8))
                &&& policy@.len() == 0 || old(self).host_sock is None ==> r == Step::<()>::Done(Ok(()))
            },
            match addr {
                Some(a) => {
                    &&& spec_is_from_host(a, *policy) ==> *final(self) == *old(self) && *final(dom) == *old(dom)
                    &&& spec_is_from_host(a, *policy) && old(self).host_sock is None ==> r == Step::<()>::Done(Err(Errno::EOPNOTSUPP))
                    &&& spec_is_from_host(a, *policy) && old(self).host_sock is Some ==> (r matches Step::Host(
                        HostCall::Connect { fd, addr: b },
                    ) && fd == old(self).host_sock->Some_0.spec_fd() && b@ == a.spec_bytes())
                    &&& !spec_is_from_host(a, *policy) ==> (r matches Step::Done(rr) && match old(self).libos_sock {
                        None => rr == Err::<(), Errno>(Errno::EOPNOTSUPP),
                        Some(l) => match a {
                            SockAddr::UnixSocket(u) => {
                                &&& !old(dom).registry.has(u.spec_path_str()) ==> rr == Err::<(), Errno>(Errno::ECONNREFUSED)
                                &&& old(dom).registry.has(u.spec_path_str()) && !crate::stream::tables_full(old(dom).channels)
                                    ==> rr is Ok && crate::stream::connect_done(
                                    l,
                                    final(self).libos_sock->Some_0,
                                    *old(dom),
                                    *final(dom),
                                    u.spec_path_str(),
                                )
                            },
                            _ => rr == Err::<(), Errno>(Errno::EAFNOSUPPORT),
                        },
                    })
                },
                None => true,
            },
    {
        match addr {
            None => {
                match &mut self.libos_sock {
                    Some(l) => {
                        let _ = l.connect(dom, None);
                    },
                    None => {},
                }
                if policy.is_empty() {
                    Step::Done(Ok(()))
                } else {
                    match &self.host_sock {
                        Some(h) => Step::Host(h.connect(None)),
                        None => Step::Done(Ok(())),
                    }
                }
            },
            Some(a) => {
                if a.is_from_host(policy) {
                    match &self.host_sock {
                        Some(h) => Step::Host(h.connect(Some(a))),
                        None => Step::Done(Err(Errno::EOPNOTSUPP)),
                    }
                } else {
                    match &mut self.libos_sock {
                        Some(l) => Step::Done(l.connect(dom, Some(a))),
                        None => Step::Done(Err(Errno::EOPNOTSUPP)),
                    }
                }
            },
        }
    }

    /// Sends `buf`. With the source fixed, on that side. With it unknown:
    /// with an address, a host address goes to the host and any other to
    /// the enclave side; without one, the enclave side is tried first, and
    /// when it fails and the policy has host paths, the host is asked.
    #[verifier::rlimit(50)]
    pub fn sendto(&self, dom: &mut UnixDomain, policy: &HostPathPolicy, buf: &[u8], flags: u32, addr: Option<SockAddr>) -> (r: Step<usize>)
        requires
            old(dom).wf(),
            self.wf(*old(dom), *policy),
        ensures
            final(dom).wf(),
            final(dom).channels.ends@ == old(dom).channels.ends@,
            match addr {
                None => routed_write(*self, *policy, *old(dom), *final(dom), buf@, r, host_send(r, self.host_sock, buf@, flags, None)),
                Some(a) => match self.source {
                    Source::Libos => r matches Step::Done(rr) && libos_write(self.libos_sock->Some_0, *old(dom), *final(dom), buf@, rr),
                    Source::Host => *final(dom) == *old(dom) && host_send(r, self.host_sock, buf@, flags, Some(a)),
                    Source::Unknown => if spec_is_from_host(a, *policy) {
                        *final(dom) == *old(dom) && host_send(r, self.host_sock, buf@, flags, Some(a))
                    } else {
                        match self.libos_sock {
                            None => r == Step::<usize>::Done(Err(Errno::EOPNOTSUPP)) && *final(dom) == *old(dom),
                            Some(l) => r matches Step::Done(rr) && libos_write(l, *old(dom), *final(dom), buf@, rr),
                        }
                    },
                },
            },
    {
        match self.source {
            Source::Libos => match &self.libos_sock {
                Some(l) => Step::Done(l.sendto(dom, buf, flags, addr)),
                None => Step::Done(Err(Errno::EINVAL)),
            },
            Source::Host => match &self.host_sock {
                Some(h) => Step::Host(h.sendto(buf, flags, addr)),
                None => Step::Done(Err(Errno::EINVAL)),
            },
            Source::Unknown => match addr {
                Some(a) => {
                    if a.is_from_host(policy) {
                        match &self.host_sock {
                            Some(h) => Step::Host(h.sendto(buf, flags, Some(a))),
                            None => Step::Done(Err(Errno::EINVAL)),
                        }
                    } else {
                        match &self.libos_sock {
                            Some(l) => Step::Done(l.sendto(dom, buf, flags, Some(a))),
                            None => Step::Done(Err(Errno::EOPNOTSUPP)),
                        }
                    }
                },
                None => {
                    match &self.libos_sock {
                        Some(l) => match l.sendto(dom, buf, flags, None) {
                            Ok(k) => return Step::Done(Ok(k)),
                            Err(e) => {
                                if policy.is_empty() {
                                    return Step::Done(Err(e));
                                }
                            },
                        },
                        None => {},
                    }
                    match &self.host_sock {
                        Some(h) => Step::Host(h.sendto(buf, flags, None)),
                        None => Step::Done(Err(Errno::EINVAL)),
                    }
                },
            },
        }
    }

    /// Writes `buf`: like `sendto` without flags or address.
    pub fn write(&self, dom: &mut UnixDomain, policy: &HostPathPolicy, buf: &[u8]) -> (r: Step<usize>)
        requires
            old(dom).wf(),
            self.wf(*old(dom), *policy),
        ensures
            final(dom).wf(),
            final(dom).channels.ends@ == old(dom).channels.ends@,
            routed_write(*self, *policy, *old(dom), *final(dom), buf@, r, host_send(r, self.host_sock, buf@, 0, None)),
    {
        self.sendto(dom, policy, buf, 0, None)
    }

    /// Receives into `buf`: on the side the source names; with it unknown,
    /// the enclave side first, and the host when that fails and the policy
    /// has host paths. On the enclave side a caller's address buffer is
    /// cleared and receives the peer's name.
    #[verifier::rlimit(50)]
    pub fn recvfrom(&self, dom: &mut UnixDomain, policy: &HostPathPolicy, buf: &mut [u8], flags: u32, addr: &mut Option<Vec<u8>>) -> (r: Step<(usize, usize)>)
        requires
            old(dom).wf(),
            self.wf(*old(dom), *policy),
        ensures
            final(dom).wf(),
            final(dom).channels.ends@ == old(dom).channels.ends@,
            routed_recv(
                *self,
                *policy,
                *old(dom),
                *final(dom),
                old(buf)@,
                final(buf)@,
                *old(addr),
                *final(addr),
                r,
                host_recv(r, self.host_sock, old(buf)@.len(), flags, cap_of(*old(addr))),
            ),
    {
        let cap = match addr {
            Some(v) => Some(v.len()),
            None => None,
        };
        match self.source {
            Source::Libos => match &self.libos_sock {
                Some(l) => Step::Done(libos_recvfrom(l, dom, buf, flags, addr)),
                None => Step::Done(Err(Errno::EINVAL)),
            },
            Source::Host => match &self.host_sock {
                Some(h) => Step::Host(h.recvfrom(buf.len(), flags, cap)),
                None => Step::Done(Err(Errno::EINVAL)),
            },
            Source::Unknown => {
                match &self.libos_sock {
                    Some(l) => match libos_recvfrom(l, dom, buf, flags, addr) {
                        Ok(res) => return Step::Done(Ok(res)),
                        Err(e) => {
                            if policy.is_empty() {
                                return Step::Done(Err(e));
                            }
                        },
                    },
                    None => {},
                }
                match &self.host_sock {
                    Some(h) => Step::Host(h.recvfrom(buf.len(), flags, cap)),
                    None => Step::Done(Err(Errno::EINVAL)),
                }
            },
        }
    }

    /// Reads into `buf`: like `recvfrom` without flags or address.
    pub fn read(&self, dom: &mut UnixDomain, policy: &HostPathPolicy, buf: &mut [u8]) -> (r: Step<usize>)
        requires
            old(dom).wf(),
            self.wf(*old(dom), *policy),
        ensures
            final(dom).wf(),
            final(dom).channels.ends@ == old(dom).channels.ends@,
            routed_read(*self, *policy, *old(dom), *final(dom), old(buf)@, final(buf)@, r, host_recv(r, self.host_sock, old(buf)@.len(), 0, None)),
    {
        let mut none: Option<Vec<u8>> = None;
        match self.recvfrom(dom, policy, buf, 0, &mut none) {
            Step::Done(Ok((k, _))) => Step::Done(Ok(k)),
            Step::Done(Err(e)) => Step::Done(Err(e)),
            Step::Host(call) => Step::Host(call),
        }
    }

    /// Reads into the pieces of `bufs`: on the side the source names; with
    /// it unknown, the enclave side first, and the host when that fails and
    /// the policy has host paths.
    pub fn readv(&self, dom: &mut UnixDomain, policy: &HostPathPolicy, bufs: &mut Vec<Vec<u8>>) -> (r: Step<usize>)
        requires
            old(dom).wf(),
            self.wf(*old(dom), *policy),
        ensures
            final(dom).wf(),
            final(dom).channels.ends@ == old(dom).channels.ends@,
            routed_readv(
                *self,
                *policy,
                *old(dom),
                *final(dom),
                old(bufs)@,
                final(bufs)@,
                r,
                r matches Step::Host(HostCall::ReadV { fd, lens }) && self.host_sock is Some && fd
                    == self.host_sock->Some_0.spec_fd() && lens@.len() == old(bufs)@.len(),
            ),
    {
        match self.source {
            Source::Libos => match &self.libos_sock {
                Some(l) => Step::Done(l.readv(dom, bufs)),
                None => Step::Done(Err(Errno::EINVAL)),
            },
            Source::Host => match &self.host_sock {
                Some(h) => Step::Host(h.readv(bufs)),
                None => Step::Done(Err(Errno::EINVAL)),
            },
            Source::Unknown => {
                match &self.libos_sock {
                    Some(l) => match l.readv(dom, bufs) {
                        Ok(k) => return Step::Done(Ok(k)),
                        Err(e) => {
                            if policy.is_empty() {
                                return Step::Done(Err(e));
                            }
                        },
                    },
                    None => {},
                }
                match &self.host_sock {
                    Some(h) => Step::Host(h.readv(bufs)),
                    None => Step::Done(Err(Errno::EINVAL)),
                }
            },
        }
    }

    /// Writes the pieces of `bufs`: on the side the source names; with it
    /// unknown, the enclave side first, and the host when that fails and the
    /// policy has host paths.
    pub fn writev(&self, dom: &mut UnixDomain, policy: &HostPathPolicy, bufs: &Vec<Vec<u8>>) -> (r: Step<usize>)
        requires
            old(dom).wf(),
            self.wf(*old(dom), *policy),
        ensures
            final(dom).wf(),
            final(dom).channels.ends@ == old(dom).channels.ends@,
            routed_write(
                *self,
                *policy,
                *old(dom),
                *final(dom),
                concat(bufs@),
                r,
                r matches Step::Host(HostCall::WriteV { fd, data, lens }) && self.host_sock is Some && fd
                    == self.host_sock->Some_0.spec_fd() && data@ == concat(bufs@),
            ),
    {
        match self.source {
            Source::Libos => match &self.libos_sock {
                Some(l) => Step::Done(l.writev(dom, bufs)),
                None => Step::Done(Err(Errno::EINVAL)),
            },
            Source::Host => match &self.host_sock {
                Some(h) => Step::Host(h.writev(bufs)),
                None => Step::Done(Err(Errno::EINVAL)),
            },
            Source::Unknown => {
                match &self.libos_sock {
                    Some(l) => match l.writev(dom, bufs) {
                        Ok(k) => return Step::Done(Ok(k)),
                        Err(e) => {
                            if policy.is_empty() {
                                return Step::Done(Err(e));
                            }
                        },
                    },
                    None => {},
                }
                match &self.host_sock {
                    Some(h) => Step::Host(h.writev(bufs)),
                    None => Step::Done(Err(Errno::EINVAL)),
                }
            },
        }
    }

    /// Like `read`, at offset 0 only (`ESPIPE` otherwise).
    pub fn read_at(&self, dom: &mut UnixDomain, policy: &HostPathPolicy, offset: usize, buf: &mut [u8]) -> (r: Step<usize>)
        requires
            old(dom).wf(),
            self.wf(*old(dom), *policy),
        ensures
            final(dom).wf(),
            offset != 0 ==> r == Step::<usize>::Done(Err(Errno::ESPIPE)) && *final(dom) == *old(dom),
    {
        if offset != 0 {
            return Step::Done(Err(Errno::ESPIPE));
        }
        self.read(dom, policy, buf)
    }

    /// Like `write`, at offset 0 only (`ESPIPE` otherwise).
    pub fn write_at(&self, dom: &mut UnixDomain, policy: &HostPathPolicy, offset: usize, buf: &[u8]) -> (r: Step<usize>)
        requires
            old(dom).wf(),
            self.wf(*old(dom), *policy),
        ensures
            final(dom).wf(),
            offset != 0 ==> r == Step::<usize>::Done(Err(Errno::ESPIPE)) && *final(dom) == *old(dom),
    {
        if offset != 0 {
            return Step::Done(Err(Errno::ESPIPE));
        }
        self.write(dom, policy, buf)
    }

    /// Whether calls of the `ioctl` kind go to the enclave side only: the
    /// source is the enclave, or it is unknown and the policy has no host path.
    pub open spec fn libos_only(&self, policy: HostPathPolicy) -> bool {
        self.source == Source::Libos || (self.source == Source::Unknown && policy@.len() == 0)
    }

    /// An ioctl. With the source unknown and host paths in the policy, the
    /// enclave side (if any) answers first, as a check, and the host gives
    /// the answer; otherwise the side the source names answers.
    pub fn ioctl(&self, dom: &UnixDomain, policy: &HostPathPolicy, cmd: &mut IoctlCmd) -> (r: Step<i32>)
        requires
            dom.wf(),
            self.wf(*dom, *policy),
        ensures
            self.libos_only(*policy) && self.libos_sock is Some ==> (r matches Step::Done(rr) && ioctl_result(
                self.libos_sock->Some_0,
                *dom,
                *old(cmd),
                *final(cmd),
                rr,
            )),
            self.source == Source::Host ==> *final(cmd) == *old(cmd) && r == Step::<i32>::Host(
                HostCall::Ioctl { fd: self.host_sock->Some_0.spec_fd(), cmd: ioctl_num(*old(cmd)) },
            ),
            self.source == Source::Unknown && policy@.len() > 0 ==> match self.libos_sock {
                None => *final(cmd) == *old(cmd) && r == Step::<i32>::Host(
                    HostCall::Ioctl { fd: self.host_sock->Some_0.spec_fd(), cmd: ioctl_num(*old(cmd)) },
                ),
                Some(l) => {
                    let o = ioctl_outcome(l, *dom, *old(cmd));
                    &&& ioctl_result(l, *dom, *old(cmd), *final(cmd), o)
                    &&& o is Ok ==> r == Step::<i32>::Host(
                        HostCall::Ioctl { fd: self.host_sock->Some_0.spec_fd(), cmd: ioctl_num(*old(cmd)) },
                    )
                    &&& o is Err ==> r == Step::<i32>::Done(o)
                },
            },
    {
        let num = match cmd {
            IoctlCmd::FIONREAD(_) => FIONREAD_NUM,
            IoctlCmd::Other(n) => *n,
        };
        match self.source {
            Source::Host => match &self.host_sock {
                Some(h) => Step::Host(h.ioctl(num)),
                None => Step::Done(Err(Errno::EINVAL)),
            },
            Source::Libos => match &self.libos_sock {
                Some(l) => Step::Done(l.ioctl(dom, cmd)),
                None => Step::Done(Err(Errno::EINVAL)),
            },
            Source::Unknown => {
                if policy.is_empty() {
                    match &self.libos_sock {
                        Some(l) => Step::Done(l.ioctl(dom, cmd)),
                        None => Step::Done(Err(Errno::EINVAL)),
                    }
                } else {
                    match &self.libos_sock {
                        Some(l) => match l.ioctl(dom, cmd) {
                            Err(e) => return Step::Done(Err(e)),
                            Ok(_) => {},
                        },
                        None => {},
                    }
                    match &self.host_sock {
                        Some(h) => Step::Host(h.ioctl(num)),
                        None => Step::Done(Err(Errno::EINVAL)),
                    }
                }
            },
        }
    }

    /// The status flags, from the side that answers calls of this kind.
    pub fn get_status_flags(&self, policy: &HostPathPolicy) -> (r: Step<u32>)
        requires
            self.libos_sock is Some || self.host_sock is Some,
        ensures
            self.libos_only(*policy) && self.libos_sock is Some ==> r == Step::<u32>::Done(Ok(
                if self.libos_sock->Some_0.is_blocking { 0 } else { crate::flags::O_NONBLOCK },
            )),
            !self.libos_only(*policy) && self.host_sock is Some ==> r == Step::<u32>::Host(
                HostCall::GetStatusFlags { fd: self.host_sock->Some_0.spec_fd() },
            ),
    {
        if self.source == Source::Libos || (self.source == Source::Unknown && policy.is_empty()) {
            match &self.libos_sock {
                Some(l) => Step::Done(l.get_status_flags()),
                None => Step::Done(Err(Errno::EINVAL)),
            }
        } else {
            match &self.host_sock {
                Some(h) => Step::Host(h.get_status_flags()),
                None => Step::Done(Err(Errno::EINVAL)),
            }
        }
    }

    /// Sets the status flags: on the enclave side when it answers calls of
    /// this kind; with the source unknown and host paths in the policy, on
    /// the enclave side and then on the host; on the host when the source is
    /// the host.
    pub fn set_status_flags(&mut self, dom: &mut UnixDomain, policy: &HostPathPolicy, new_status_flags: u32) -> (r: Step<()>)
        requires
            old(dom).wf(),
            old(self).wf(*old(dom), *policy),
        ensures
            final(dom).wf(),
            final(self).wf(*final(dom), *policy),
            final(self).source == old(self).source,
            final(self).host_sock == old(self).host_sock,
            final(dom).registry == old(dom).registry,
            old(self).source != Source::Host ==> match final(self).libos_sock {
                Some(l) => l.is_blocking == (new_status_flags & crate::flags::O_NONBLOCK == 0),
                None => true,
            },
            old(self).source == Source::Host ==> *final(self) == *old(self) && *final(dom) == *old(dom),
            old(self).source != Source::Host && old(self).libos_sock is Some ==> {
                let l = old(self).libos_sock->Some_0;
                let b = new_status_flags & crate::flags::O_NONBLOCK == 0;
                &&& final(self).libos_sock == Some(StreamUnixSocket { is_blocking: b, ..l })
                &&& l.channel is None ==> final(dom).channels == old(dom).channels
                &&& l.channel is Some ==> crate::stream::blocking_set(old(dom).channels, final(dom).channels, l.channel->Some_0 as int, b)
            },
            old(self).libos_only(*policy) ==> r == Step::<()>::Done(Ok(())),
            !old(self).libos_only(*policy) ==> r == Step::<()>::Host(HostCall::SetStatusFlags {
                fd: old(self).host_sock->Some_0.spec_fd(),
                flags: new_status_flags & crate::host::HOST_STATUS_MASK,
            }),
    {
        if self.source != Source::Host {
            match &mut self.libos_sock {
                Some(l) => {
                    let _ = l.set_status_flags(dom, new_status_flags);
                },
                None => {},
            }
        }
        if self.source == Source::Libos || (self.source == Source::Unknown && policy.is_empty()) {
            Step::Done(Ok(()))
        } else {
            match &self.host_sock {
                Some(h) => Step::Host(h.set_status_flags(new_status_flags)),
                None => Step::Done(Err(Errno::EINVAL)),
            }
        }
    }

    /// The poll flags: from the enclave side when the source is the enclave,
    /// or unknown with an enclave side; from the host otherwise.
    pub fn poll(&self, dom: &UnixDomain, policy: &HostPathPolicy) -> (r: Step<u32>)
        requires
            dom.wf(),
            self.wf(*dom, *policy),
        ensures
            (self.source == Source::Libos || (self.source == Source::Unknown && self.libos_sock is Some))
                ==> (r matches Step::Done(Ok(f)) && self.libos_sock matches Some(l) && {
                &&& l.channel matches Some(c) ==> f == crate::channel::spec_poll(
                    dom.channels.rbuf(c as int),
                    dom.channels.wbuf(c as int),
                )
                &&& l.channel is None && l.path is Some && l.server is Some ==> f == 0
                &&& l.channel is None && !(l.path is Some && l.server is Some) ==> f == crate::stream::POLL_UNCONNECTED
            }),
            !(self.source == Source::Libos || (self.source == Source::Unknown && self.libos_sock is Some))
                ==> r == Step::<u32>::Host(HostCall::Poll { fd: self.host_sock->Some_0.spec_fd() }),
    {
        let libos_call = match self.source {
            Source::Unknown => self.libos_sock.is_some(),
            Source::Libos => true,
            Source::Host => false,
        };
        if libos_call {
            match &self.libos_sock {
                Some(l) => Step::Done(Ok(l.poll(dom))),
                None => Step::Done(Err(Errno::EINVAL)),
            }
        } else {
            match &self.host_sock {
                Some(h) => Step::Host(h.poll()),
                None => Step::Done(Err(Errno::EINVAL)),
            }
        }
    }

    /// A connected pair of stream sockets inside the enclave, both serving
    /// the enclave; other socket types are refused with `EOPNOTSUPP`.
    pub fn socketpair(dom: &mut UnixDomain, socket_type: SocketType, flags: u32) -> (r: Result<(UnixSocket, UnixSocket), Errno>)
        requires
            old(dom).wf(),
        ensures
            final(dom).wf(),
            socket_type != SocketType::SOCK_STREAM ==> r == Err::<(UnixSocket, UnixSocket), Errno>(Errno::EOPNOTSUPP)
                && *final(dom) == *old(dom),
            socket_type == SocketType::SOCK_STREAM && r is Err ==> (r == Err::<(UnixSocket, UnixSocket), Errno>(
                Errno::ENOMEM,
            ) && crate::stream::tables_full(old(dom).channels)) || (r == Err::<(UnixSocket, UnixSocket), Errno>(
                Errno::EADDRINUSE,
            ) && final(dom).pair_count == usize::MAX),
            r matches Ok((x, y)) ==> {
                &&& x.source == Source::Libos && y.source == Source::Libos
                &&& x.host_sock is None && y.host_sock is None
                &&& x.socket_type == socket_type && y.socket_type == socket_type
                &&& x.libos_sock is Some && y.libos_sock is Some
                &&& x.libos_sock->Some_0.is_blocking == (flags & crate::flags::SOCK_NONBLOCK == 0)
                &&& y.libos_sock->Some_0.is_blocking == (flags & crate::flags::SOCK_NONBLOCK == 0)
                &&& x.libos_sock->Some_0.server is None && y.libos_sock->Some_0.server is None
                &&& x.libos_sock->Some_0.channel matches Some(ca) && y.libos_sock->Some_0.channel matches Some(cb)
                    && ca < final(dom).channels.ends@.len() && cb < final(dom).channels.ends@.len()
                    && final(dom).channels.ends@[ca as int].peer == cb
                    && final(dom).channels.ends@[cb as int].peer == ca
                    && final(dom).channels.rbuf(ca as int).data@.len() == 0
                    && final(dom).channels.rbuf(cb as int).data@.len() == 0
                    && final(dom).channels.rbuf(ca as int).capacity == DEFAULT_BUF_SIZE
                    && final(dom).channels.rbuf(cb as int).capacity == DEFAULT_BUF_SIZE
                    && final(dom).channels.rbuf(ca as int).reader_open && final(dom).channels.rbuf(ca as int).writer_open
                    && final(dom).channels.rbuf(cb as int).reader_open && final(dom).channels.rbuf(cb as int).writer_open
                &&& forall|d: UnixDomain, q: HostPathPolicy| x.wf(d, q) && y.wf(d, q) <== x.libos_sock->Some_0.wf_in(
                    d.channels.ends@.len(),
                ) && y.libos_sock->Some_0.wf_in(d.channels.ends@.len())
            },
    {
        if socket_type != SocketType::SOCK_STREAM {
            return Err(Errno::EOPNOTSUPP);
        }
        match StreamUnixSocket::socketpair(dom, flags) {
            Err(e) => Err(e),
            Ok((a, b)) => Ok((
                UnixSocket { libos_sock: Some(a), host_sock: None, source: Source::Libos, socket_type },
                UnixSocket { libos_sock: Some(b), host_sock: None, source: Source::Libos, socket_type },
            )),
        }
    }

    /// Releases the socket: the enclave side is closed, and the request that
    /// closes the host side, if there is one, is handed back.
    pub fn close(self, dom: &mut UnixDomain) -> (r: Option<HostCall>)
        requires
            old(dom).wf(),
            self.libos_sock matches Some(l) ==> l.wf_in(old(dom).channels.ends@.len()),
        ensures
            final(dom).wf(),
            self.host_sock matches Some(h) ==> r == Some(HostCall::Close { fd: h.spec_fd() }),
            self.host_sock is None ==> r is None,
    {
        match self.libos_sock {
            Some(l) => l.close(dom),
            None => {},
        }
        match self.host_sock {
            Some(h) => Some(h.close()),
            None => None,
        }
    }
}

} // verus!
