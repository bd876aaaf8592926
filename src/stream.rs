use vstd::prelude::*;
use vstd::string::StringSliceAdditionalSpecFns;
use vstd::utf8::encode_utf8;

use std::collections::VecDeque;

use crate::address::SockAddr;
use crate::channel::{Channels, EndPoint, POLLHUP, POLLOUT, POLLWRBAND, POLLWRNORM, spec_poll};
use crate::ring_buf::{concat, min_int, RingBuf, DEFAULT_BUF_SIZE};
use crate::errno::Errno;
use crate::flags::{O_NONBLOCK, O_RDWR, SOCK_NONBLOCK};
use crate::unix_addr::UnixAddr;

verus! {

/// A stream socket inside the enclave: the path it is bound to, the endpoint
/// of its connection, and the path of the server it created by listening.
#[derive(Debug)]
pub struct StreamUnixSocket {
    pub path: Option<String>,
    pub channel: Option<usize>,
    pub server: Option<String>,
    pub is_blocking: bool,
}

/// A listening server: its path and the connections waiting to be accepted,
/// oldest first.
pub struct UnixSocketServer {
    pub path: String,
    pub pending: VecDeque<StreamUnixSocket>,
}

/// The listening servers, each under a path of its own.
pub struct ServerRegistry {
    pub servers: Vec<UnixSocketServer>,
}

/// Everything that the stream sockets of one process share: the server
/// registry, the channels, and the counter that names socket pairs.
pub struct UnixDomain {
    pub registry: ServerRegistry,
    pub channels: Channels,
    pub pair_count: usize,
}

impl StreamUnixSocket {
    /// The socket's endpoint, if any, is one of the `n` that exist.
    pub open spec fn wf_in(&self, n: nat) -> bool {
        self.channel matches Some(c) ==> c < n
    }

    /// A connected socket holds an endpoint and no server.
    pub open spec fn connected_inv(&self) -> bool {
        self.channel is Some ==> self.server is None
    }
}

impl ServerRegistry {
    /// No two servers share a path.
    pub open spec fn wf(&self) -> bool {
        forall|i: int, j: int|
            0 <= i < self.servers@.len() && 0 <= j < self.servers@.len() && i != j
                ==> #[trigger] self.servers@[i].path@ != #[trigger] self.servers@[j].path@
    }

    /// Whether a server listens on `p`.
    pub open spec fn has(&self, p: Seq<char>) -> bool {
        exists|i: int| 0 <= i < self.servers@.len() && #[trigger] self.servers@[i].path@ == p
    }

    /// No server.
    pub fn new() -> (r: ServerRegistry)
        ensures
            r.wf(),
            r.servers@.len() == 0,
    {
        ServerRegistry { servers: Vec::new() }
    }
}

/// Socket `s` waits, as the server side of a connection, at a server on `p`:
/// bound to `p`, holding an endpoint, no server, in blocking mode.
pub open spec fn pending_ok(s: StreamUnixSocket, p: Seq<char>, n: nat) -> bool {
    &&& s.path matches Some(q) && q@ == p
    &&& s.channel matches Some(c) && c < n
    &&& s.server is None
    &&& s.is_blocking
}

impl UnixDomain {
    /// The registry and the channels are well formed, and each waiting
    /// connection carries its server's path and an endpoint that exists.
    pub open spec fn wf(&self) -> bool {
        &&& self.registry.wf()
        &&& self.channels.wf()
        &&& forall|i: int, j: int|
            0 <= i < self.registry.servers@.len() && 0 <= j
                < self.registry.servers@[i].pending@.len() ==> pending_ok(
                #[trigger] self.registry.servers@[i].pending@[j],
                self.registry.servers@[i].path@,
                self.channels.ends@.len(),
            )
    }

    /// No server, no channel.
    pub fn new() -> (r: UnixDomain)
        ensures
            r.wf(),
            r.registry.servers@.len() == 0,
            r.channels.ends@.len() == 0,
            r.channels.bufs@.len() == 0,
            r.pair_count == 0,
    {
        UnixDomain { registry: ServerRegistry::new(), channels: Channels::new(), pair_count: 0 }
    }
}

impl UnixSocketServer {
    /// A server on `path` with nothing waiting.
    pub fn new(path: &str) -> (r: UnixSocketServer)
        ensures
            r.path@ == path@,
            r.pending@.len() == 0,
    {
        UnixSocketServer { path: path.to_owned(), pending: VecDeque::new() }
    }

    /// The path the server listens on.
    pub fn path(&self) -> (r: &String)
        ensures
            r == &self.path,
    {
        &self.path
    }

    /// Adds a connection at the back of the queue.
    pub fn push_pending(&mut self, stream_socket: StreamUnixSocket)
        ensures
            final(self).path == old(self).path,
            final(self).pending@ == old(self).pending@.push(stream_socket),
    {
        self.pending.push_back(stream_socket);
    }

    /// Takes the oldest connection off the queue, if there is one.
    pub fn pop_pending(&mut self) -> (r: Option<StreamUnixSocket>)
        ensures
            final(self).path == old(self).path,
            old(self).pending@.len() == 0 ==> r is None && final(self).pending@ == old(self).pending@,
            old(self).pending@.len() > 0 ==> r == Some(old(self).pending@[0])
                && final(self).pending@ == old(self).pending@.skip(1),
    {
        let r = self.pending.pop_front();
        proof {
            if old(self).pending@.len() > 0 {
                assert(self.pending@ =~= old(self).pending@.skip(1));
            }
        }
        r
    }

    /// The index of the server on `path`, if there is one.
    pub fn get_server(registry: &ServerRegistry, path: &String) -> (r: Option<usize>)
        ensures
            r is None <==> !registry.has(path@),
            r matches Some(i) ==> i < registry.servers@.len() && registry.servers@[i as int].path@
                == path@,
    {
        let mut i: usize = 0;
        while i < registry.servers.len()
            invariant
                i <= registry.servers@.len(),
                forall|j: int| 0 <= j < i ==> registry.servers@[j].path@ != path@,
            decreases registry.servers@.len() - i,
        {
            if registry.servers[i].path == *path {
                return Some(i);
            }
            i = i + 1;
        }
        None
    }

    /// Adds a server on `path`, unless one is there already (`EADDRINUSE`).
    pub fn create_server(registry: &mut ServerRegistry, path: &String) -> (r: Result<usize, Errno>)
        requires
            old(registry).wf(),
        ensures
            final(registry).wf(),
            old(registry).has(path@) ==> r == Err::<usize, Errno>(Errno::EADDRINUSE)
                && *final(registry) == *old(registry),
            !old(registry).has(path@) ==> r == Ok::<usize, Errno>(old(registry).servers@.len() as usize)
                && final(registry).servers@.len() == old(registry).servers@.len() + 1
                && final(registry).servers@.subrange(0, old(registry).servers@.len() as int)
                == old(registry).servers@ && final(registry).servers@.last().path@ == path@
                && final(registry).servers@.last().pending@.len() == 0,
    {
        match UnixSocketServer::get_server(registry, path) {
            Some(_) => Err(Errno::EADDRINUSE),
            None => {
                let n = registry.servers.len();
                registry.servers.push(UnixSocketServer { path: path.clone(), pending: VecDeque::new() });
                proof {
                    assert(registry.servers@.subrange(0, n as int) =~= old(registry).servers@);
                    assert forall|i: int, j: int|
                        0 <= i < registry.servers@.len() && 0 <= j < registry.servers@.len() && i != j
                            implies #[trigger] registry.servers@[i].path@ != #[trigger] registry.servers@[j].path@ by {
                        assert(registry.servers@[n as int].path@ == path@);
                        if i < n && j < n {
                            assert(registry.servers@[i] == old(registry).servers@[i]);
                            assert(registry.servers@[j] == old(registry).servers@[j]);
                        } else if i < n {
                            assert(registry.servers@[i] == old(registry).servers@[i]);
                            assert(old(registry).servers@[i].path@ != path@);
                        } else {
                            assert(registry.servers@[j] == old(registry).servers@[j]);
                            assert(old(registry).servers@[j].path@ != path@);
                        }
                    }
                }
                Ok(n)
            },
        }
    }
}

/// The flags of a socket that is neither connected nor listening:
/// `POLLHUP | POLLOUT | POLLWRBAND | POLLWRNORM`.
pub const POLL_UNCONNECTED: u32 = 0x314;

/// `POLL_UNCONNECTED` is hang-up and the three writable flags.
pub proof fn lemma_poll_unconnected_flags()
    ensures
        POLL_UNCONNECTED == POLLHUP | POLLOUT | POLLWRBAND | POLLWRNORM,
{
    assert(0x314u32 == 0x10u32 | 0x4u32 | 0x200u32 | 0x100u32) by (bit_vector);
}

/// `new` is `old` with only the blocking mode of endpoint `c` changed.
pub open spec fn blocking_set(old: Channels, new: Channels, c: int, blocking: bool) -> bool {
    &&& new.bufs@ == old.bufs@
    &&& new.ends@.len() == old.ends@.len()
    &&& forall|j: int| 0 <= j < old.ends@.len() && j != c ==> new.ends@[j] == old.ends@[j]
    &&& new.ends@[c] == (EndPoint { blocking, ..old.ends@[c] })
}

/// `new`, `new_ch` are the socket and channels after a successful bind of
/// `old` to `addr`: the path is the address's path, and the socket's endpoint,
/// if any, now bears that name.
pub open spec fn bound_to(
    old: StreamUnixSocket,
    new: StreamUnixSocket,
    old_ch: Channels,
    new_ch: Channels,
    addr: SockAddr,
) -> bool {
    match (addr, new.path) {
        (SockAddr::UnixSocket(a), Some(p)) => {
            &&& p@ == a.spec_path_str()
            &&& match old.channel {
                None => new_ch == old_ch,
                Some(c) => {
                    &&& new_ch.ends@[c as int].name matches Some(n) && n@ == p@
                    &&& forall|j: int|
                        0 <= j < old_ch.ends@.len() && j != c ==> new_ch.ends@[j] == old_ch.ends@[j]
                },
            }
        },
        _ => false,
    }
}

impl StreamUnixSocket {
    /// A fresh socket: unbound, unconnected, not listening; blocking unless
    /// `flags` holds `SOCK_NONBLOCK`.
    pub fn new(flags: u32) -> (r: StreamUnixSocket)
        ensures
            r.path is None,
            r.channel is None,
            r.server is None,
            r.is_blocking == (flags & SOCK_NONBLOCK == 0),
    {
        StreamUnixSocket {
            path: None,
            channel: None,
            server: None,
            is_blocking: flags & SOCK_NONBLOCK == 0,
        }
    }

    /// The path the socket is bound to.
    pub fn path(&self) -> (r: Option<String>)
        ensures
            r == self.path,
    {
        self.path.clone()
    }

    /// Whether the socket holds an endpoint.
    pub fn is_connected(&self) -> (r: bool)
        ensures
            r == self.channel is Some,
    {
        self.channel.is_some()
    }

    /// Whether the socket is in blocking mode.
    pub fn is_blocking(&self) -> (r: bool)
        ensures
            r == self.is_blocking,
    {
        self.is_blocking
    }

    /// Sets the blocking mode of the socket and of its endpoint.
    fn set_blocking_mode(&mut self, dom: &mut UnixDomain, blocking: bool)
        requires
            old(dom).wf(),
            old(self).wf_in(old(dom).channels.ends@.len()),
        ensures
            final(dom).wf(),
            final(dom).registry == old(dom).registry,
            final(dom).pair_count == old(dom).pair_count,
            *final(self) == (StreamUnixSocket { is_blocking: blocking, ..*old(self) }),
            old(self).channel is None ==> final(dom).channels == old(dom).channels,
            old(self).channel matches Some(c) ==> blocking_set(old(dom).channels, final(dom).channels, c as int, blocking),
    {
        self.is_blocking = blocking;
        match self.channel {
            Some(c) => EndPoint::set_blocking_mode(&mut dom.channels, c, blocking),
            None => {},
        }
    }

    /// Switches the socket and its endpoint to non-blocking mode.
    pub fn set_non_blocking(&mut self, dom: &mut UnixDomain)
        requires
            old(dom).wf(),
            old(self).wf_in(old(dom).channels.ends@.len()),
        ensures
            final(dom).wf(),
            final(dom).registry == old(dom).registry,
            final(dom).pair_count == old(dom).pair_count,
            *final(self) == (StreamUnixSocket { is_blocking: false, ..*old(self) }),
            old(self).channel is None ==> final(dom).channels == old(dom).channels,
            old(self).channel matches Some(c) ==> blocking_set(old(dom).channels, final(dom).channels, c as int, false),
    {
        self.set_blocking_mode(dom, false)
    }

    /// Switches the socket and its endpoint to blocking mode.
    pub fn set_blocking(&mut self, dom: &mut UnixDomain)
        requires
            old(dom).wf(),
            old(self).wf_in(old(dom).channels.ends@.len()),
        ensures
            final(dom).wf(),
            final(dom).registry == old(dom).registry,
            final(dom).pair_count == old(dom).pair_count,
            *final(self) == (StreamUnixSocket { is_blocking: true, ..*old(self) }),
            old(self).channel is None ==> final(dom).channels == old(dom).channels,
            old(self).channel matches Some(c) ==> blocking_set(old(dom).channels, final(dom).channels, c as int, true),
    {
        self.set_blocking_mode(dom, true)
    }

    /// Binds the socket to the path of a Unix address. A bound socket, or an
    /// address of another family, is refused with `EINVAL`. A socket that
    /// already holds an endpoint gives the endpoint that name.
    pub fn bind(&mut self, dom: &mut UnixDomain, addr: SockAddr) -> (r: Result<(), Errno>)
        requires
            old(dom).wf(),
            old(self).wf_in(old(dom).channels.ends@.len()),
        ensures
            final(dom).wf(),
            final(dom).registry == old(dom).registry,
            final(dom).pair_count == old(dom).pair_count,
            final(dom).channels.bufs@ == old(dom).channels.bufs@,
            final(dom).channels.ends@.len() == old(dom).channels.ends@.len(),
            final(self).channel == old(self).channel,
            final(self).server == old(self).server,
            final(self).is_blocking == old(self).is_blocking,
            (old(self).path is Some || !(addr is UnixSocket)) ==> r == Err::<(), Errno>(Errno::EINVAL)
                && *final(self) == *old(self) && *final(dom) == *old(dom),
            old(self).path is None && addr is UnixSocket ==> r is Ok,
            r is Ok ==> bound_to(*old(self), *final(self), old(dom).channels, final(dom).channels, addr),
    {
        if self.path.is_some() {
            return Err(Errno::EINVAL);
        }
        match addr {
            SockAddr::UnixSocket(a) => {
                let p: String = a.path().to_owned();
                match self.channel {
                    Some(c) => EndPoint::set_name(&mut dom.channels, c, p.as_str()),
                    None => {},
                }
                self.path = Some(p);
                Ok(())
            },
            _ => Err(Errno::EINVAL),
        }
    }

    /// Makes a bound socket listen: the first call creates the server on its
    /// path (`EADDRINUSE` when one is there), later calls do nothing. An
    /// unbound socket is refused with `EINVAL`. The backlog is ignored.
    pub fn listen(&mut self, dom: &mut UnixDomain, backlog: i32) -> (r: Result<(), Errno>)
        requires
            old(dom).wf(),
        ensures
            final(dom).wf(),
            listen_post(*old(self), *final(self), *old(dom), *final(dom), r),
    {
        let p = match &self.path {
            None => return Err(Errno::EINVAL),
            Some(p) => p.clone(),
        };
        if self.server.is_some() {
            return Ok(());
        }
        match UnixSocketServer::create_server(&mut dom.registry, &p) {
            Ok(_) => {
                proof {
                    let n = old(dom).registry.servers@.len();
                    assert forall|i: int, j: int|
                        0 <= i < dom.registry.servers@.len() && 0 <= j
                            < dom.registry.servers@[i].pending@.len() implies pending_ok(
                        #[trigger] dom.registry.servers@[i].pending@[j],
                        dom.registry.servers@[i].path@,
                        dom.channels.ends@.len(),
                    ) by {
                        assert(i < n);
                        assert(dom.registry.servers@[i] == old(dom).registry.servers@[i]);
                    }
                }
                self.server = Some(p);
                Ok(())
            },
            Err(e) => Err(e),
        }
    }

    /// The poll flags: those of the endpoint when connected; none when bound
    /// and listening; otherwise hang-up and writable.
    pub fn poll(&self, dom: &UnixDomain) -> (r: u32)
        requires
            dom.wf(),
            self.wf_in(dom.channels.ends@.len()),
        ensures
            self.channel matches Some(c) ==> r == spec_poll(dom.channels.rbuf(c as int), dom.channels.wbuf(c as int)),
            self.channel is None && self.path is Some && self.server is Some ==> r == 0,
            self.channel is None && !(self.path is Some && self.server is Some) ==> r == POLL_UNCONNECTED,
    {
        match self.channel {
            Some(c) => EndPoint::poll(&dom.channels, c),
            None => {
                if self.path.is_some() && self.server.is_some() {
                    0
                } else {
                    POLL_UNCONNECTED
                }
            },
        }
    }

    /// Reads from the connection into `buf`; `ENOTCONN` without one.
    pub fn read(&self, dom: &mut UnixDomain, buf: &mut [u8]) -> (r: Result<usize, Errno>)
        requires
            old(dom).wf(),
            self.wf_in(old(dom).channels.ends@.len()),
        ensures
            final(dom).wf(),
            libos_read(*self, *old(dom), *final(dom), old(buf)@, final(buf)@, r),
    {
        match self.channel {
            None => Err(Errno::ENOTCONN),
            Some(c) => EndPoint::read(&mut dom.channels, c, buf),
        }
    }

    /// Writes `buf` into the connection; `ENOTCONN` without one.
    pub fn write(&self, dom: &mut UnixDomain, buf: &[u8]) -> (r: Result<usize, Errno>)
        requires
            old(dom).wf(),
            self.wf_in(old(dom).channels.ends@.len()),
        ensures
            final(dom).wf(),
            libos_write(*self, *old(dom), *final(dom), buf@, r),
    {
        match self.channel {
            None => Err(Errno::ENOTCONN),
            Some(c) => EndPoint::write(&mut dom.channels, c, buf),
        }
    }
}

/// `new`, `nd` and `r` are what listening gives `old` in `od`: `EINVAL`
/// when unbound; nothing to do when it already has a server; otherwise a
/// new server, with nothing waiting, on its path, or `EADDRINUSE` (and no
/// change) when a server is there already.
pub open spec fn listen_post(old: StreamUnixSocket, new: StreamUnixSocket, od: UnixDomain, nd: UnixDomain, r: Result<(), Errno>) -> bool {
    match old.path {
        None => r == Err::<(), Errno>(Errno::EINVAL) && new == old && nd == od,
        Some(p) => if old.server is Some {
            r is Ok && new == old && nd == od
        } else if od.registry.has(p@) {
            r == Err::<(), Errno>(Errno::EADDRINUSE) && new == old && nd == od
        } else {
            &&& r is Ok
            &&& new == (StreamUnixSocket { server: Some(p), ..old })
            &&& nd.channels == od.channels && nd.pair_count == od.pair_count
            &&& nd.registry.servers@.len() == od.registry.servers@.len() + 1
            &&& nd.registry.servers@.subrange(0, od.registry.servers@.len() as int) == od.registry.servers@
            &&& nd.registry.servers@.last().path@ == p@
            &&& nd.registry.servers@.last().pending@.len() == 0
        },
    }
}

/// What a read by `s` comes to, before it is made: `ENOTCONN` without a
/// connection, otherwise the outcome of reading `n` bytes from its queue.
pub open spec fn libos_read_outcome(s: StreamUnixSocket, od: UnixDomain, n: int) -> Result<usize, Errno> {
    match s.channel {
        None => Err(Errno::ENOTCONN),
        Some(c) => od.channels.rbuf(c as int).read_outcome(n),
    }
}

/// What a write by `s` comes to, before it is made: `ENOTCONN` without a
/// connection, otherwise the outcome of writing `n` bytes into its queue.
pub open spec fn libos_write_outcome(s: StreamUnixSocket, od: UnixDomain, n: int) -> Result<usize, Errno> {
    match s.channel {
        None => Err(Errno::ENOTCONN),
        Some(c) => od.channels.wbuf(c as int).write_outcome(n),
    }
}

/// `nd`, `nb` and `r` are what a read by `s` into a buffer holding `ob`
/// gives: `ENOTCONN` and no change without a connection, otherwise the read
/// from the queue its endpoint reads, and no other change.
pub open spec fn libos_read(s: StreamUnixSocket, od: UnixDomain, nd: UnixDomain, ob: Seq<u8>, nb: Seq<u8>, r: Result<usize, Errno>) -> bool {
    &&& nd.registry == od.registry && nd.pair_count == od.pair_count
    &&& match s.channel {
        None => r == Err::<usize, Errno>(Errno::ENOTCONN) && nd == od && nb == ob,
        Some(c) => od.channels.same_but_buf(nd.channels, od.channels.ends@[c as int].reader as int)
            && od.channels.rbuf(c as int).read_step(nd.channels.rbuf(c as int), ob, nb, r),
    }
}

/// `nd` and `r` are what a write of `src` by `s` gives: `ENOTCONN` and no
/// change without a connection, otherwise the write into the queue its
/// endpoint writes, and no other change.
pub open spec fn libos_write(s: StreamUnixSocket, od: UnixDomain, nd: UnixDomain, src: Seq<u8>, r: Result<usize, Errno>) -> bool {
    &&& nd.registry == od.registry && nd.pair_count == od.pair_count
    &&& match s.channel {
        None => r == Err::<usize, Errno>(Errno::ENOTCONN) && nd == od,
        Some(c) => od.channels.same_but_buf(nd.channels, od.channels.ends@[c as int].writer as int)
            && od.channels.wbuf(c as int).write_step(nd.channels.wbuf(c as int), src, r),
    }
}

/// `nd`, `nbufs` and `r` are what a read by `s` into the pieces `obufs`
/// gives: like `libos_read` over their concatenation, each piece keeping
/// its length.
pub open spec fn libos_readv(
    s: StreamUnixSocket,
    od: UnixDomain,
    nd: UnixDomain,
    obufs: Seq<Vec<u8>>,
    nbufs: Seq<Vec<u8>>,
    r: Result<usize, Errno>,
) -> bool {
    &&& nd.registry == od.registry && nd.pair_count == od.pair_count
    &&& nbufs.len() == obufs.len()
    &&& r == libos_read_outcome(s, od, concat(obufs).len() as int)
    &&& r is Err ==> nbufs == obufs
    &&& match s.channel {
        None => nd == od,
        Some(c) => {
            let (o, n) = (od.channels.rbuf(c as int), nd.channels.rbuf(c as int));
            &&& od.channels.same_but_buf(nd.channels, od.channels.ends@[c as int].reader as int)
            &&& n.capacity == o.capacity && n.reader_open == o.reader_open && n.writer_open == o.writer_open
            &&& r matches Ok(k) ==> n.data@ == o.data@.skip(k as int) && concat(nbufs) == o.data@.take(k as int)
                + concat(obufs).skip(k as int)
            &&& r is Err ==> n.data@ == o.data@
        },
    }
}

/// `nd`, `na` and `r` are what an accept by the listener `l` in `od` gives,
/// with `flags` and the caller's address buffer `oa`.
pub open spec fn accept_post(
    l: StreamUnixSocket,
    od: UnixDomain,
    nd: UnixDomain,
    flags: u32,
    oa: Option<Vec<u8>>,
    na: Option<Vec<u8>>,
    r: Result<(StreamUnixSocket, usize), Errno>,
) -> bool {
    let b = flags & SOCK_NONBLOCK == 0;
    &&& nd.pair_count == od.pair_count
    &&& nd.channels.ends@.len() == od.channels.ends@.len()
    &&& r is Err ==> nd == od && na == oa
    &&& match l.path {
        None => r == Err::<(StreamUnixSocket, usize), Errno>(Errno::EINVAL),
        Some(p) => {
            &&& !od.registry.has(p@) ==> r == Err::<(StreamUnixSocket, usize), Errno>(Errno::EINVAL)
            &&& od.registry.has(p@) ==> {
                &&& r is Err <==> forall|i: int| #[trigger] server_at(od.registry, p@, i)
                    ==> od.registry.servers@[i].pending@.len() == 0
                &&& r is Err ==> r == Err::<(StreamUnixSocket, usize), Errno>(Errno::EAGAIN)
            }
            &&& r matches Ok((s, n)) ==> forall|i: int| #[trigger] server_at(od.registry, p@, i) ==> {
                let s0 = od.registry.servers@[i].pending@[0];
                &&& taken_at(od.registry, nd.registry, i)
                &&& pending_ok(s0, p@, od.channels.ends@.len())
                &&& s == (StreamUnixSocket { is_blocking: b, ..s0 })
                &&& blocking_set(od.channels, nd.channels, s0.channel->Some_0 as int, b)
            }
        },
    }
    &&& r matches Ok((s, n)) ==> s.wf_in(nd.channels.ends@.len()) && s.connected_inv() && s.channel is Some
        && s.server is None && s.path is Some && s.path->Some_0@ == l.path->Some_0@ && s.is_blocking == b
        && nd.channels.ends@[s.channel->Some_0 as int].blocking == b
    &&& r matches Ok((s, n)) ==> match (oa, l.channel) {
        (Some(dst), Some(c)) => match spec_peer_name(od.channels, c as int) {
            Some(m) => n == 2 + encode_utf8(m).len() && na is Some && na->Some_0@
                == crate::address::copied_into(seq![1u8, 0u8] + encode_utf8(m), dst@),
            None => n == 0 && na == oa,
        },
        _ => n == 0 && na == oa,
    }
}

/// The name of the peer of endpoint `c`, while the peer lives and has one.
pub open spec fn spec_peer_name(ch: Channels, c: int) -> Option<Seq<char>> {
    let p = ch.ends@[ch.ends@[c].peer as int];
    if p.alive && p.name is Some {
        Some(p.name->Some_0@)
    } else {
        None
    }
}

/// The endpoint of `s` exists and is released in `ch`.
pub open spec fn end_released(ch: Channels, s: StreamUnixSocket) -> bool {
    match s.channel {
        Some(c) => !ch.ends@[c as int].alive,
        None => false,
    }
}

/// `new` is `old` with endpoint `c` released: its liveness gone and the
/// queues it held closed on its side.
pub open spec fn released(old: Channels, new: Channels, c: int) -> bool {
    let r = old.ends@[c].reader as int;
    let w = old.ends@[c].writer as int;
    &&& new.ends@.len() == old.ends@.len()
    &&& new.bufs@.len() == old.bufs@.len()
    &&& forall|j: int| 0 <= j < old.ends@.len() && j != c ==> new.ends@[j] == old.ends@[j]
    &&& new.ends@[c] == (EndPoint { alive: false, ..old.ends@[c] })
    &&& forall|j: int| 0 <= j < old.bufs@.len() && j != r && j != w ==> new.bufs@[j] == old.bufs@[j]
    &&& new.bufs@[r] == (RingBuf { reader_open: false, ..old.bufs@[r] })
    &&& new.bufs@[w] == (RingBuf { writer_open: false, ..old.bufs@[w] })
}

/// Server `i` of `reg` listens on `p`.
pub open spec fn server_at(reg: ServerRegistry, p: Seq<char>, i: int) -> bool {
    0 <= i < reg.servers@.len() && reg.servers@[i].path@ == p
}

/// `new` is `old` with the oldest connection waiting at server `i` taken off.
pub open spec fn taken_at(old: ServerRegistry, new: ServerRegistry, i: int) -> bool {
    &&& old.servers@[i].pending@.len() > 0
    &&& new.servers@.len() == old.servers@.len()
    &&& new.servers@[i].path == old.servers@[i].path
    &&& new.servers@[i].pending@ == old.servers@[i].pending@.skip(1)
    &&& forall|j: int| 0 <= j < old.servers@.len() && j != i ==> new.servers@[j] == old.servers@[j]
}

/// `new` is `old` with `s` added behind the connections waiting at server `i`.
pub open spec fn queued_at(old: ServerRegistry, new: ServerRegistry, i: int, s: StreamUnixSocket) -> bool {
    &&& new.servers@.len() == old.servers@.len()
    &&& new.servers@[i].path == old.servers@[i].path
    &&& new.servers@[i].pending@ == old.servers@[i].pending@.push(s)
    &&& forall|j: int| 0 <= j < old.servers@.len() && j != i ==> new.servers@[j] == old.servers@[j]
}

/// The first `n` entries of `new` are those of `old`.
pub open spec fn extends<T>(old: Seq<T>, new: Seq<T>) -> bool {
    old.len() <= new.len() && new.subrange(0, old.len() as int) == old
}

/// The state after a successful connect of `old` to a server on `p`: a new
/// pair of endpoints `n` (the server side, named `p`, waiting on the server)
/// and `n + 1` (this socket's, in this socket's blocking mode); the endpoint
/// the socket held before is released.
pub open spec fn connect_done(
    old: StreamUnixSocket,
    new: StreamUnixSocket,
    od: UnixDomain,
    nd: UnixDomain,
    p: Seq<char>,
) -> bool {
    let n = od.channels.ends@.len() as int;
    let m = od.channels.bufs@.len() as int;
    &&& nd.channels.ends@.len() == n + 2
    &&& nd.channels.bufs@.len() == m + 2
    &&& new == (StreamUnixSocket { channel: Some((n + 1) as usize), ..old })
    &&& nd.channels.ends@[n as int].peer == n + 1
    &&& nd.channels.ends@[n + 1].peer == n
    &&& nd.channels.ends@[n as int].name matches Some(q) && q@ == p
    &&& nd.channels.ends@[n as int].alive && nd.channels.ends@[n + 1].alive
    &&& nd.channels.ends@[n as int].blocking
    &&& nd.channels.ends@[n + 1].blocking == old.is_blocking
    &&& nd.channels.rbuf(n as int).data@.len() == 0 && nd.channels.rbuf(n + 1).data@.len() == 0
    &&& nd.channels.rbuf(n as int).reader_open && nd.channels.rbuf(n as int).writer_open
    &&& nd.channels.rbuf(n + 1).reader_open && nd.channels.rbuf(n + 1).writer_open
    &&& nd.channels.rbuf(n as int).capacity == DEFAULT_BUF_SIZE
    &&& nd.channels.rbuf(n + 1).capacity == DEFAULT_BUF_SIZE
    &&& match old.channel {
        None => extends(od.channels.ends@, nd.channels.ends@),
        Some(c) => forall|j: int| 0 <= j < n && j != c ==> nd.channels.ends@[j] == od.channels.ends@[j],
    }
    &&& old.channel matches Some(c) ==> !nd.channels.ends@[c as int].alive
    &&& forall|i: int|
        #[trigger] server_at(od.registry, p, i) ==> {
            let s = nd.registry.servers@[i].pending@.last();
            &&& queued_at(od.registry, nd.registry, i, s)
            &&& pending_ok(s, p, nd.channels.ends@.len())
            &&& s.channel == Some(n as usize)
            &&& s.is_blocking
        }
}

/// Drops every connection in `q`, which wait on a server on `p`: each one's
/// endpoint is released.
fn release_waiting(ch: &mut Channels, q: &mut VecDeque<StreamUnixSocket>, Ghost(p): Ghost<Seq<char>>)
    requires
        old(ch).wf(),
        forall|b: int| 0 <= b < old(q)@.len() ==> pending_ok(#[trigger] old(q)@[b], p, old(ch).ends@.len()),
    ensures
        final(ch).wf(),
        final(ch).ends@.len() == old(ch).ends@.len(),
        final(ch).bufs@.len() == old(ch).bufs@.len(),
        forall|b: int| 0 <= b < old(q)@.len() ==> end_released(*final(ch), #[trigger] old(q)@[b]),
        old(q)@.len() == 0 ==> *final(ch) == *old(ch),
        forall|j: int|
            0 <= j < old(ch).ends@.len() ==> #[trigger] final(ch).ends@[j] == (
            EndPoint { alive: final(ch).ends@[j].alive, ..old(ch).ends@[j] }),
{
    if q.len() == 0 {
        return;
    }
    let ghost waiting = q@;
    let ghost mut k: int = 0;
    while q.len() > 0
        invariant
            ch.wf(),
            ch.ends@.len() == old(ch).ends@.len(),
            ch.bufs@.len() == old(ch).bufs@.len(),
            waiting == old(q)@,
            0 <= k <= waiting.len(),
            q@ == waiting.skip(k),
            forall|b: int| 0 <= b < waiting.len() ==> pending_ok(#[trigger] waiting[b], p, ch.ends@.len()),
            forall|b: int| 0 <= b < k ==> end_released(*ch, #[trigger] waiting[b]),
            forall|j: int|
                0 <= j < old(ch).ends@.len() ==> #[trigger] ch.ends@[j] == (
                EndPoint { alive: ch.ends@[j].alive, ..old(ch).ends@[j] }),
        decreases q@.len(),
    {
        let s = q.pop_front();
        proof {
            assert(q@ =~= waiting.skip(k + 1));
            assert(s == Some(waiting[k]));
        }
        match s {
            Some(s) => match s.channel {
                Some(c) => EndPoint::release(ch, c),
                None => {},
            },
            None => {},
        }
        proof {
            k = k + 1;
        }
    }
}

impl UnixSocketServer {
    /// Removes the server on `path`, if there is one; the connections that
    /// waited on it are dropped, which releases their endpoints.
    pub fn remove_server(dom: &mut UnixDomain, path: &String)
        requires
            old(dom).wf(),
        ensures
            final(dom).wf(),
            !final(dom).registry.has(path@),
            final(dom).pair_count == old(dom).pair_count,
            final(dom).channels.ends@.len() == old(dom).channels.ends@.len(),
            final(dom).channels.bufs@.len() == old(dom).channels.bufs@.len(),
            !old(dom).registry.has(path@) ==> *final(dom) == *old(dom),
            forall|i: int|
                0 <= i < old(dom).registry.servers@.len() && #[trigger] old(dom).registry.servers@[i].path@
                    == path@ && old(dom).registry.servers@[i].pending@.len() == 0 ==> final(dom).channels
                    == old(dom).channels,
            forall|i: int|
                0 <= i < old(dom).registry.servers@.len() && #[trigger] old(dom).registry.servers@[i].path@
                    == path@ ==> final(dom).registry.servers@ == old(dom).registry.servers@.remove(i),
            forall|j: int|
                0 <= j < old(dom).channels.ends@.len() ==> #[trigger] final(dom).channels.ends@[j] == (
                EndPoint { alive: final(dom).channels.ends@[j].alive, ..old(dom).channels.ends@[j] }),
            forall|i: int, k: int|
                0 <= i < old(dom).registry.servers@.len() && old(dom).registry.servers@[i].path@ == path@
                    && 0 <= k < old(dom).registry.servers@[i].pending@.len() ==> end_released(
                final(dom).channels,
                #[trigger] old(dom).registry.servers@[i].pending@[k],
            ),
    {
        let i = match UnixSocketServer::get_server(&dom.registry, path) {
            None => return,
            Some(i) => i,
        };
        let ghost old_servers = dom.registry.servers@;
        let mut server = dom.registry.servers.remove(i);
        proof {
            assert forall|a: int, b: int|
                0 <= a < dom.registry.servers@.len() && 0 <= b < dom.registry.servers@.len() && a != b
                    implies #[trigger] dom.registry.servers@[a].path@ != #[trigger] dom.registry.servers@[b].path@ by {
                let a0 = if a < i { a } else { a + 1 };
                let b0 = if b < i { b } else { b + 1 };
                assert(dom.registry.servers@[a] == old_servers[a0]);
                assert(dom.registry.servers@[b] == old_servers[b0]);
            }
            assert forall|a: int, b: int|
                0 <= a < dom.registry.servers@.len() && 0 <= b < dom.registry.servers@[a].pending@.len()
                    implies pending_ok(
                    #[trigger] dom.registry.servers@[a].pending@[b],
                    dom.registry.servers@[a].path@,
                    dom.channels.ends@.len(),
                ) by {
                let a0 = if a < i { a } else { a + 1 };
                assert(dom.registry.servers@[a] == old_servers[a0]);
            }
            assert forall|a: int| 0 <= a < dom.registry.servers@.len() implies #[trigger] dom.registry.servers@[a].path@ != path@ by {
                let a0 = if a < i { a } else { a + 1 };
                assert(dom.registry.servers@[a] == old_servers[a0]);
                assert(old_servers[i as int].path@ == path@);
            }
            assert forall|a: int|
                0 <= a < old_servers.len() && #[trigger] old_servers[a].path@ == path@ implies a == i by {
            }
        }
        release_waiting(&mut dom.channels, &mut server.pending, Ghost(path@));
    }
}

/// Writes the name of the peer of endpoint `channel`, if there is one, into
/// the buffer that `addr` holds, if it holds one, and returns the length of
/// the whole address (0 when nothing is written).
fn peer_addr_into(ch: &Channels, channel: Option<usize>, addr: &mut Option<Vec<u8>>) -> (n: usize)
    requires
        ch.wf(),
        channel matches Some(c) ==> c < ch.ends@.len(),
    ensures
        match (*old(addr), channel) {
            (Some(dst), Some(c)) => match spec_peer_name(*ch, c as int) {
                Some(m) => n == 2 + encode_utf8(m).len() && *final(addr) is Some
                    && final(addr)->Some_0@ == crate::address::copied_into(seq![1u8, 0u8] + encode_utf8(m), dst@),
                None => n == 0 && *final(addr) == *old(addr),
            },
            _ => n == 0 && *final(addr) == *old(addr),
        },
{
    let c = match channel {
        None => return 0,
        Some(c) => c,
    };
    match addr {
        None => 0,
        Some(dst) => match EndPoint::peer_name(ch, c) {
            None => 0,
            Some(name) => match UnixAddr::new(name.as_str()) {
                Ok(u) => SockAddr::UnixSocket(u).copy_to_slice(dst.as_mut_slice()),
                Err(_) => 0,
            },
        },
    }
}

/// Takes the oldest connection off server `i`, which has one waiting.
fn take_pending(dom: &mut UnixDomain, i: usize, Ghost(p): Ghost<Seq<char>>) -> (s: StreamUnixSocket)
    requires
        old(dom).wf(),
        i < old(dom).registry.servers@.len(),
        old(dom).registry.servers@[i as int].path@ == p,
        old(dom).registry.servers@[i as int].pending@.len() > 0,
    ensures
        final(dom).wf(),
        final(dom).channels == old(dom).channels,
        final(dom).pair_count == old(dom).pair_count,
        taken_at(old(dom).registry, final(dom).registry, i as int),
        s == old(dom).registry.servers@[i as int].pending@[0],
        pending_ok(s, p, old(dom).channels.ends@.len()),
{
    let popped = dom.registry.servers[i].pop_pending();
    let sock = match popped {
        Some(s) => s,
        None => StreamUnixSocket { path: None, channel: None, server: None, is_blocking: true },
    };
    proof {
        assert(pending_ok(sock, p, old(dom).channels.ends@.len()));
        assert(dom.registry.servers@ =~= old(dom).registry.servers@.update(
            i as int,
            UnixSocketServer { path: old(dom).registry.servers@[i as int].path, pending: dom.registry.servers@[i as int].pending },
        ));
        assert forall|a: int, b: int|
            0 <= a < dom.registry.servers@.len() && 0 <= b < dom.registry.servers@.len() && a != b
                implies #[trigger] dom.registry.servers@[a].path@ != #[trigger] dom.registry.servers@[b].path@ by {
            assert(old(dom).registry.servers@[a].path@ == dom.registry.servers@[a].path@);
            assert(old(dom).registry.servers@[b].path@ == dom.registry.servers@[b].path@);
        }
        assert forall|a: int, b: int|
            0 <= a < dom.registry.servers@.len() && 0 <= b < dom.registry.servers@[a].pending@.len()
                implies pending_ok(
                #[trigger] dom.registry.servers@[a].pending@[b],
                dom.registry.servers@[a].path@,
                dom.channels.ends@.len(),
            ) by {
            if a == i {
                assert(dom.registry.servers@[a].pending@[b] == old(dom).registry.servers@[a].pending@[b + 1]);
            } else {
                assert(dom.registry.servers@[a] == old(dom).registry.servers@[a]);
            }
        }
    }
    sock
}

impl StreamUnixSocket {
    /// Takes the oldest waiting connection off the server on this socket's
    /// path, without waiting: `EINVAL` when the socket is unbound or no
    /// server is on its path, `EAGAIN` when nothing waits. The accepted
    /// socket and its endpoint are non-blocking when `flags` holds
    /// `SOCK_NONBLOCK`, blocking otherwise. When `addr` holds
    /// a buffer, it receives the name of the peer of this socket's own
    /// endpoint, if there is one, and the result carries that name's length.
    pub fn accept(&self, dom: &mut UnixDomain, flags: u32, addr: &mut Option<Vec<u8>>) -> (r: Result<(StreamUnixSocket, usize), Errno>)
        requires
            old(dom).wf(),
            self.wf_in(old(dom).channels.ends@.len()),
        ensures
            final(dom).wf(),
            accept_post(*self, *old(dom), *final(dom), flags, *old(addr), *final(addr), r),
    {
        let p = match &self.path {
            None => return Err(Errno::EINVAL),
            Some(p) => p,
        };
        let i = match UnixSocketServer::get_server(&dom.registry, p) {
            None => return Err(Errno::EINVAL),
            Some(i) => i,
        };
        proof {
            assert forall|a: int| 0 <= a < old(dom).registry.servers@.len()
                && #[trigger] old(dom).registry.servers@[a].path@ == p@ implies a == i by {}
        }
        if dom.registry.servers[i].pending.len() == 0 {
            return Err(Errno::EAGAIN);
        }
        let addr_len = peer_addr_into(&dom.channels, self.channel, addr);
        let mut sock = take_pending(dom, i, Ghost(p@));
        let ghost s0 = sock;
        let ghost d1 = *dom;
        sock.set_blocking_mode(dom, flags & SOCK_NONBLOCK == 0);
        proof {
            let b = flags & SOCK_NONBLOCK == 0;
            assert(s0 == old(dom).registry.servers@[i as int].pending@[0]);
            assert(blocking_set(old(dom).channels, dom.channels, s0.channel->Some_0 as int, b));
            assert(dom.channels.ends@[s0.channel->Some_0 as int].blocking == b);
            assert forall|k: int| #[trigger] server_at(old(dom).registry, p@, k) implies {
                let t = old(dom).registry.servers@[k].pending@[0];
                &&& taken_at(old(dom).registry, dom.registry, k)
                &&& pending_ok(t, p@, old(dom).channels.ends@.len())
                &&& sock == (StreamUnixSocket { is_blocking: b, ..t })
                &&& blocking_set(old(dom).channels, dom.channels, t.channel->Some_0 as int, b)
            } by {
                assert(k == i);
            }
            assert(server_at(old(dom).registry, p@, i as int));
            assert(old(dom).registry.servers@[i as int].pending@.len() > 0);
            assert(sock.wf_in(dom.channels.ends@.len()));
            assert(sock.path->Some_0@ == self.path->Some_0@);
        }
        Ok((sock, addr_len))
    }
}

/// The channel tables cannot take one more pair.
pub open spec fn tables_full(ch: Channels) -> bool {
    ch.ends@.len() + 2 > usize::MAX || ch.bufs@.len() + 2 > usize::MAX
}

/// A new pair of endpoints `(n, n + 1)` over empty queues: `n` named `name`
/// and blocking, `n + 1` unnamed and in the given mode.
fn new_named_pair(ch: &mut Channels, name: &str, blocking: bool) -> (r: (usize, usize))
    requires
        old(ch).wf(),
        !tables_full(*old(ch)),
        name.spec_bytes().len() <= crate::unix_addr::MAX_PATH_LEN,
    ensures
        final(ch).wf(),
        r.0 == old(ch).ends@.len(),
        r.1 == old(ch).ends@.len() + 1,
        final(ch).ends@.len() == old(ch).ends@.len() + 2,
        final(ch).bufs@.len() == old(ch).bufs@.len() + 2,
        extends(old(ch).ends@, final(ch).ends@),
        extends(old(ch).bufs@, final(ch).bufs@),
        final(ch).ends@[r.0 as int].peer == r.1,
        final(ch).ends@[r.1 as int].peer == r.0,
        final(ch).ends@[r.0 as int].name matches Some(q) && q@ == name@,
        final(ch).ends@[r.1 as int].name is None,
        final(ch).ends@[r.0 as int].alive && final(ch).ends@[r.1 as int].alive,
        final(ch).ends@[r.0 as int].blocking,
        final(ch).ends@[r.1 as int].blocking == blocking,
        final(ch).ends@[r.0 as int].reader >= old(ch).bufs@.len(),
        final(ch).ends@[r.0 as int].writer >= old(ch).bufs@.len(),
        final(ch).rbuf(r.0 as int).data@.len() == 0 && final(ch).rbuf(r.1 as int).data@.len() == 0,
        final(ch).rbuf(r.0 as int).reader_open && final(ch).rbuf(r.0 as int).writer_open,
        final(ch).rbuf(r.1 as int).reader_open && final(ch).rbuf(r.1 as int).writer_open,
        final(ch).rbuf(r.0 as int).capacity == DEFAULT_BUF_SIZE,
        final(ch).rbuf(r.1 as int).capacity == DEFAULT_BUF_SIZE,
{
    let (a, b) = EndPoint::new_duplex_channel(ch);
    let ghost mid = *ch;
    EndPoint::set_name(ch, a, name);
    if !blocking {
        EndPoint::set_blocking_mode(ch, b, false);
    }
    proof {
        assert(ch.ends@.subrange(0, old(ch).ends@.len() as int) =~= old(ch).ends@) by {
            assert forall|j: int| 0 <= j < old(ch).ends@.len() implies ch.ends@[j] == old(ch).ends@[j] by {
                assert(mid.ends@[j] == old(ch).ends@[j]) by {
                    assert(mid.ends@.subrange(0, old(ch).ends@.len() as int)[j] == mid.ends@[j]);
                }
            }
        }
    }
    (a, b)
}

impl StreamUnixSocket {
    /// Connects the socket. No address dissolves the current connection and
    /// succeeds. A Unix address needs a server on its path (`ECONNREFUSED`
    /// without one); a new pair of endpoints is made, this socket takes one,
    /// and a new socket bound to the path takes the other and waits on the
    /// server. Another family is refused with `EAFNOSUPPORT`; full channel
    /// tables with `ENOMEM`.
    pub fn connect(&mut self, dom: &mut UnixDomain, addr: Option<SockAddr>) -> (r: Result<(), Errno>)
        requires
            old(dom).wf(),
            old(self).wf_in(old(dom).channels.ends@.len()),
        ensures
            final(dom).wf(),
            final(dom).pair_count == old(dom).pair_count,
            final(dom).channels.ends@.len() >= old(dom).channels.ends@.len(),
            final(self).wf_in(final(dom).channels.ends@.len()),
            addr is None ==> r is Ok && *final(self) == (StreamUnixSocket { channel: None, ..*old(self) })
                && final(dom).registry == old(dom).registry && match old(self).channel {
                None => final(dom).channels == old(dom).channels,
                Some(c) => released(old(dom).channels, final(dom).channels, c as int),
            },
            match addr {
                Some(SockAddr::UnixSocket(u)) => {
                    &&& !old(dom).registry.has(u.spec_path_str()) ==> r == Err::<(), Errno>(Errno::ECONNREFUSED)
                    &&& old(dom).registry.has(u.spec_path_str()) && tables_full(old(dom).channels) ==> r == Err::<(), Errno>(Errno::ENOMEM)
                    &&& old(dom).registry.has(u.spec_path_str()) && !tables_full(old(dom).channels) ==> r is Ok
                        && connect_done(*old(self), *final(self), *old(dom), *final(dom), u.spec_path_str())
                },
                Some(_) => r == Err::<(), Errno>(Errno::EAFNOSUPPORT),
                None => true,
            },
            r is Err ==> *final(self) == *old(self) && *final(dom) == *old(dom),
    {
        match addr {
            None => {
                match self.channel {
                    Some(c) => EndPoint::release(&mut dom.channels, c),
                    None => {},
                }
                self.channel = None;
                Ok(())
            },
            Some(SockAddr::UnixSocket(u)) => {
                let p: String = u.path().to_owned();
                let i = match UnixSocketServer::get_server(&dom.registry, &p) {
                    None => return Err(Errno::ECONNREFUSED),
                    Some(i) => i,
                };
                if dom.channels.ends.len() > usize::MAX - 2 || dom.channels.bufs.len() > usize::MAX - 2 {
                    return Err(Errno::ENOMEM);
                }
                let ghost d0 = *dom;
                let (ea, eb) = new_named_pair(&mut dom.channels, p.as_str(), self.is_blocking);
                let ghost d1 = *dom;
                match self.channel {
                    Some(c) => EndPoint::release(&mut dom.channels, c),
                    None => {},
                }
                self.channel = Some(eb);
                let server_socket = StreamUnixSocket {
                    path: Some(p),
                    channel: Some(ea),
                    server: None,
                    is_blocking: true,
                };
                let ghost d2 = *dom;
                dom.registry.servers[i].push_pending(server_socket);
                proof {
                    let n = d0.channels.ends@.len() as int;
                    assert(dom.registry.servers@ =~= d2.registry.servers@.update(
                        i as int,
                        UnixSocketServer { path: d2.registry.servers@[i as int].path, pending: dom.registry.servers@[i as int].pending },
                    ));
                    assert forall|a: int| #[trigger] server_at(d0.registry, u.spec_path_str(), a) implies a == i by {}
                    assert forall|a: int, b: int|
                        0 <= a < dom.registry.servers@.len() && 0 <= b < dom.registry.servers@.len() && a != b
                            implies #[trigger] dom.registry.servers@[a].path@ != #[trigger] dom.registry.servers@[b].path@ by {
                        assert(d0.registry.servers@[a].path@ == dom.registry.servers@[a].path@);
                        assert(d0.registry.servers@[b].path@ == dom.registry.servers@[b].path@);
                    }
                    assert forall|a: int, b: int|
                        0 <= a < dom.registry.servers@.len() && 0 <= b < dom.registry.servers@[a].pending@.len()
                            implies pending_ok(
                            #[trigger] dom.registry.servers@[a].pending@[b],
                            dom.registry.servers@[a].path@,
                            dom.channels.ends@.len(),
                        ) by {
                        if a == i && b == d0.registry.servers@[a].pending@.len() {
                        } else {
                            assert(dom.registry.servers@[a].pending@[b] == d0.registry.servers@[a].pending@[b]);
                        }
                    }
                    match old(self).channel {
                        Some(c) => {
                            assert(c < n);
                            assert(d1.channels.ends@[c as int] == d0.channels.ends@[c as int]) by {
                                assert(d1.channels.ends@.subrange(0, n)[c as int] == d1.channels.ends@[c as int]);
                            }
                        },
                        None => {},
                    }
                }
                Ok(())
            },
            Some(_) => Err(Errno::EAFNOSUPPORT),
        }
    }

    /// Releases the socket: a server it created leaves the registry, and its
    /// endpoint is released.
    pub fn close(self, dom: &mut UnixDomain)
        requires
            old(dom).wf(),
            self.wf_in(old(dom).channels.ends@.len()),
        ensures
            final(dom).wf(),
            final(dom).pair_count == old(dom).pair_count,
            final(dom).channels.ends@.len() == old(dom).channels.ends@.len(),
            self.server matches Some(p) ==> !final(dom).registry.has(p@),
            self.server is None ==> final(dom).registry == old(dom).registry,
            self.channel matches Some(c) ==> !final(dom).channels.ends@[c as int].alive,
            self.server is None && self.channel is None ==> *final(dom) == *old(dom),
            self.server is None && self.channel is Some ==> final(dom).registry == old(dom).registry && released(
                old(dom).channels,
                final(dom).channels,
                self.channel->Some_0 as int,
            ),
            match (self.server, self.channel) {
                (Some(p), None) => forall|i: int|
                    #[trigger] server_at(old(dom).registry, p@, i) && old(dom).registry.servers@[i].pending@.len() == 0
                        ==> final(dom).channels == old(dom).channels,
                _ => true,
            },
    {
        match &self.server {
            Some(p) => UnixSocketServer::remove_server(dom, p),
            None => {},
        }
        match self.channel {
            Some(c) => EndPoint::release(&mut dom.channels, c),
            None => {},
        }
    }
}

/// The digit character of `d`, for `d < 10`.
pub open spec fn digit_char(d: nat) -> char {
    if d == 0 {
        '0'
    } else if d == 1 {
        '1'
    } else if d == 2 {
        '2'
    } else if d == 3 {
        '3'
    } else if d == 4 {
        '4'
    } else if d == 5 {
        '5'
    } else if d == 6 {
        '6'
    } else if d == 7 {
        '7'
    } else if d == 8 {
        '8'
    } else {
        '9'
    }
}

/// The decimal digits of `n`, most significant first.
pub open spec fn decimal(n: nat) -> Seq<char>
    decreases n,
{
    if n < 10 {
        seq![digit_char(n)]
    } else {
        decimal(n / 10).push(digit_char(n % 10))
    }
}

/// The digit `d` (below 10) as text.
fn digit_text(d: usize) -> (r: &'static str)
    requires
        d < 10,
    ensures
        r@ == seq![digit_char(d as nat)],
{
    if d == 0 {
        proof {
            reveal_strlit("0");
        }
        "0"
    } else if d == 1 {
        proof {
            reveal_strlit("1");
        }
        "1"
    } else if d == 2 {
        proof {
            reveal_strlit("2");
        }
        "2"
    } else if d == 3 {
        proof {
            reveal_strlit("3");
        }
        "3"
    } else if d == 4 {
        proof {
            reveal_strlit("4");
        }
        "4"
    } else if d == 5 {
        proof {
            reveal_strlit("5");
        }
        "5"
    } else if d == 6 {
        proof {
            reveal_strlit("6");
        }
        "6"
    } else if d == 7 {
        proof {
            reveal_strlit("7");
        }
        "7"
    } else if d == 8 {
        proof {
            reveal_strlit("8");
        }
        "8"
    } else {
        proof {
            reveal_strlit("9");
        }
        "9"
    }
}

/// The decimal digits of `n`, most significant first.
fn decimal_text(n: usize) -> (r: String)
    ensures
        r@ == decimal(n as nat),
    decreases n,
{
    if n < 10 {
        String::from_str(digit_text(n))
    } else {
        let mut s = decimal_text(n / 10);
        s.append(digit_text(n % 10));
        s
    }
}

impl StreamUnixSocket {
    /// Binds this fresh socket to the first path `socketpair_<n>`, with `n`
    /// from the domain's counter, that no server holds; `EADDRINUSE` once the
    /// counter runs out.
    fn bind_until_success(&mut self, dom: &mut UnixDomain) -> (r: Result<SockAddr, Errno>)
        requires
            old(dom).wf(),
            old(self).path is None,
            old(self).channel is None,
            old(self).server is None,
        ensures
            final(dom).wf(),
            final(dom).registry == old(dom).registry,
            final(dom).channels == old(dom).channels,
            final(self).channel is None,
            final(self).server is None,
            final(self).is_blocking == old(self).is_blocking,
            r is Err ==> r == Err::<SockAddr, Errno>(Errno::EADDRINUSE) && final(dom).pair_count == usize::MAX,
            r matches Ok(a) ==> a matches SockAddr::UnixSocket(u) && final(self).path matches Some(p)
                && p@ == u.spec_path_str() && !old(dom).registry.has(p@),
    {
        while dom.pair_count < usize::MAX
            invariant
                dom.wf(),
                dom.registry == old(dom).registry,
                dom.channels == old(dom).channels,
                self.path is None,
                self.channel is None,
                self.server is None,
                self.is_blocking == old(self).is_blocking,
            decreases usize::MAX - dom.pair_count,
        {
            let n = dom.pair_count;
            dom.pair_count = n + 1;
            let mut name = String::from_str("socketpair_");
            let digits = decimal_text(n);
            name.append(digits.as_str());
            match UnixAddr::new(name.as_str()) {
                Err(_) => {},
                Ok(u) => {
                    let path: String = u.path().to_owned();
                    if UnixSocketServer::get_server(&dom.registry, &path).is_none() {
                        self.path = Some(path);
                        return Ok(SockAddr::UnixSocket(u));
                    }
                },
            }
        }
        Err(Errno::EADDRINUSE)
    }

    /// A connected pair `(client, accepted)`: a listener is bound to a fresh
    /// `socketpair_<n>` path, listens, the client connects, the connection is
    /// accepted, and the listener is released. Fails with `ENOMEM` when the
    /// channel tables are full, `EADDRINUSE` when the counter runs out.
    #[verifier::rlimit(100)]
    #[verifier::spinoff_prover]
    pub fn socketpair(dom: &mut UnixDomain, flags: u32) -> (r: Result<(StreamUnixSocket, StreamUnixSocket), Errno>)
        requires
            old(dom).wf(),
        ensures
            final(dom).wf(),
            r is Err ==> (r == Err::<(StreamUnixSocket, StreamUnixSocket), Errno>(Errno::ENOMEM) && tables_full(old(dom).channels))
                || (r == Err::<(StreamUnixSocket, StreamUnixSocket), Errno>(Errno::EADDRINUSE) && final(dom).pair_count == usize::MAX),
            r matches Ok((x, y)) ==> {
                &&& x.channel matches Some(cx) && y.channel matches Some(cy)
                    && cx < final(dom).channels.ends@.len() && cy < final(dom).channels.ends@.len()
                    && final(dom).channels.ends@[cx as int].peer == cy
                    && final(dom).channels.ends@[cy as int].peer == cx
                    && final(dom).channels.rbuf(cx as int).data@.len() == 0
                    && final(dom).channels.rbuf(cy as int).data@.len() == 0
                    && final(dom).channels.rbuf(cx as int).capacity == DEFAULT_BUF_SIZE
                    && final(dom).channels.rbuf(cy as int).capacity == DEFAULT_BUF_SIZE
                    && final(dom).channels.rbuf(cx as int).reader_open && final(dom).channels.rbuf(cx as int).writer_open
                    && final(dom).channels.rbuf(cy as int).reader_open && final(dom).channels.rbuf(cy as int).writer_open
                &&& x.path is None && y.path is Some
                &&& x.server is None && y.server is None
                &&& x.is_blocking == (flags & SOCK_NONBLOCK == 0)
                &&& y.is_blocking == (flags & SOCK_NONBLOCK == 0)
            },
    {
        let mut listener = StreamUnixSocket::new(flags);
        let bound = match listener.bind_until_success(dom) {
            Ok(a) => a,
            Err(e) => return Err(e),
        };
        let ghost pp = listener.path->Some_0@;
        let ghost d0 = *dom;
        let ghost last = d0.registry.servers@.len() as int;
        match listener.listen(dom, 1) {
            Ok(()) => {},
            Err(e) => return Err(e),
        }
        let ghost d1 = *dom;
        proof {
            assert(server_at(d1.registry, pp, last));
            assert forall|a: int| #[trigger] server_at(d1.registry, pp, a) implies a == last by {}
        }
        let mut client = StreamUnixSocket::new(flags);
        match client.connect(dom, Some(bound)) {
            Ok(()) => {},
            Err(e) => return Err(e),
        }
        let ghost d2 = *dom;
        let ghost n = d1.channels.ends@.len() as int;
        proof {
            assert(server_at(d1.registry, pp, last));
            assert(d2.registry.servers@[last].pending@ =~= seq![d2.registry.servers@[last].pending@.last()]);
            assert(server_at(d2.registry, pp, last));
            assert forall|a: int| #[trigger] server_at(d2.registry, pp, a) implies a == last by {}
        }
        let mut none: Option<Vec<u8>> = None;
        let accepted = match listener.accept(dom, flags, &mut none) {
            Ok((s, _)) => s,
            Err(e) => return Err(e),
        };
        let ghost d3 = *dom;
        proof {
            assert(server_at(d2.registry, pp, last));
            assert(d3.registry.servers@[last].pending@.len() == 0);
            assert(d3.registry.servers@[last].path@ == pp);
            let s0 = d2.registry.servers@[last].pending@[0];
            assert(s0.channel == Some(n as usize));
            assert(accepted.channel == Some(n as usize));
            assert(client.channel == Some((n + 1) as usize));
            assert(d3.channels.ends@[n].peer == n + 1);
            assert(d3.channels.ends@[n + 1].peer == n);
            assert(d3.channels.rbuf(n).data@.len() == 0);
            assert(d3.channels.rbuf(n + 1).data@.len() == 0);
            assert(d3.channels.rbuf(n).capacity == DEFAULT_BUF_SIZE);
            assert(d3.channels.rbuf(n + 1).capacity == DEFAULT_BUF_SIZE);
        }
        proof {
            assert(listener.server->Some_0@ == pp);
            assert(server_at(d3.registry, pp, last));
        }
        listener.close(dom);
        Ok((client, accepted))
    }
}

/// `r` and `new_cmd` are what an ioctl on `s` with request `old_cmd` gives:
/// `FIONREAD` answers the number of bytes waiting, clipped to the largest
/// `i32` (`ENOTCONN` without a connection); any other request is `EINVAL`.
pub open spec fn ioctl_result(s: StreamUnixSocket, dom: UnixDomain, old_cmd: IoctlCmd, new_cmd: IoctlCmd, r: Result<i32, Errno>) -> bool {
    match old_cmd {
        IoctlCmd::FIONREAD(_) => match s.channel {
            None => r == Err::<i32, Errno>(Errno::ENOTCONN) && new_cmd == old_cmd,
            Some(c) => r == Ok::<i32, Errno>(0) && new_cmd == IoctlCmd::FIONREAD(
                min_int(dom.channels.rbuf(c as int).data@.len() as int, i32::MAX as int) as i32,
            ),
        },
        IoctlCmd::Other(_) => r == Err::<i32, Errno>(Errno::EINVAL) && new_cmd == old_cmd,
    }
}

/// What an ioctl on `s` with request `cmd` answers.
pub open spec fn ioctl_outcome(s: StreamUnixSocket, dom: UnixDomain, cmd: IoctlCmd) -> Result<i32, Errno> {
    match cmd {
        IoctlCmd::FIONREAD(_) => if s.channel is None {
            Err(Errno::ENOTCONN)
        } else {
            Ok(0)
        },
        IoctlCmd::Other(_) => Err(Errno::EINVAL),
    }
}

/// An ioctl request on a socket: the number of bytes waiting to be read,
/// with the slot that receives it, or any other request number.
#[derive(Debug)]
pub enum IoctlCmd {
    FIONREAD(i32),
    Other(u32),
}

impl StreamUnixSocket {
    /// Reads from the connection into the pieces of `bufs`, as into one
    /// buffer; `ENOTCONN` without a connection.
    pub fn readv(&self, dom: &mut UnixDomain, bufs: &mut Vec<Vec<u8>>) -> (r: Result<usize, Errno>)
        requires
            old(dom).wf(),
            self.wf_in(old(dom).channels.ends@.len()),
        ensures
            final(dom).wf(),
            libos_readv(*self, *old(dom), *final(dom), old(bufs)@, final(bufs)@, r),
    {
        match self.channel {
            None => Err(Errno::ENOTCONN),
            Some(c) => EndPoint::readv(&mut dom.channels, c, bufs),
        }
    }

    /// Writes the pieces of `bufs`, as one, into the connection; `ENOTCONN`
    /// without one.
    pub fn writev(&self, dom: &mut UnixDomain, bufs: &Vec<Vec<u8>>) -> (r: Result<usize, Errno>)
        requires
            old(dom).wf(),
            self.wf_in(old(dom).channels.ends@.len()),
        ensures
            final(dom).wf(),
            libos_write(*self, *old(dom), *final(dom), concat(bufs@), r),
    {
        match self.channel {
            None => Err(Errno::ENOTCONN),
            Some(c) => EndPoint::writev(&mut dom.channels, c, bufs),
        }
    }
}

impl StreamUnixSocket {
    /// Like `write`; the flags and the address are ignored.
    pub fn sendto(&self, dom: &mut UnixDomain, buf: &[u8], flags: u32, addr: Option<SockAddr>) -> (r: Result<usize, Errno>)
        requires
            old(dom).wf(),
            self.wf_in(old(dom).channels.ends@.len()),
        ensures
            final(dom).wf(),
            libos_write(*self, *old(dom), *final(dom), buf@, r),
    {
        self.write(dom, buf)
    }

    /// Like `read`; then, when `addr` holds a buffer, it receives the name
    /// of the peer, and the second result is that name's length (0 when the
    /// peer has none). The flags are ignored.
    pub fn recvfrom(&self, dom: &mut UnixDomain, buf: &mut [u8], flags: u32, addr: &mut Option<Vec<u8>>) -> (r: Result<(usize, usize), Errno>)
        requires
            old(dom).wf(),
            self.wf_in(old(dom).channels.ends@.len()),
        ensures
            final(dom).wf(),
            final(dom).registry == old(dom).registry,
            final(dom).pair_count == old(dom).pair_count,
            self.channel is None ==> r == Err::<(usize, usize), Errno>(Errno::ENOTCONN) && *final(dom) == *old(dom)
                && final(buf)@ == old(buf)@,
            r is Err ==> *final(addr) == *old(addr),
            self.channel matches Some(c) ==> {
                let rr = match r {
                    Ok((k, _)) => Ok::<usize, Errno>(k),
                    Err(e) => Err::<usize, Errno>(e),
                };
                &&& old(dom).channels.same_but_buf(final(dom).channels, old(dom).channels.ends@[c as int].reader as int)
                &&& old(dom).channels.rbuf(c as int).read_step(final(dom).channels.rbuf(c as int), old(buf)@, final(buf)@, rr)
                &&& r matches Ok((_, n)) ==> match *old(addr) {
                    Some(dst) => match spec_peer_name(old(dom).channels, c as int) {
                        Some(m) => n == 2 + encode_utf8(m).len() && *final(addr) is Some
                            && final(addr)->Some_0@ == crate::address::copied_into(seq![1u8, 0u8] + encode_utf8(m), dst@),
                        None => n == 0 && *final(addr) == *old(addr),
                    },
                    None => n == 0 && *final(addr) == *old(addr),
                }
            },
    {
        let data_len = match self.read(dom, buf) {
            Ok(k) => k,
            Err(e) => return Err(e),
        };
        let addr_len = peer_addr_into(&dom.channels, self.channel, addr);
        proof {
            let c = self.channel->Some_0 as int;
            let p = old(dom).channels.ends@[c].peer as int;
            assert(dom.channels.ends@ == old(dom).channels.ends@);
        }
        Ok((data_len, addr_len))
    }

    /// Like `read`, at offset 0 only (`ESPIPE` otherwise).
    pub fn read_at(&self, dom: &mut UnixDomain, offset: usize, buf: &mut [u8]) -> (r: Result<usize, Errno>)
        requires
            old(dom).wf(),
            self.wf_in(old(dom).channels.ends@.len()),
        ensures
            final(dom).wf(),
            offset != 0 ==> r == Err::<usize, Errno>(Errno::ESPIPE) && *final(dom) == *old(dom) && final(buf)@ == old(buf)@,
            offset == 0 && self.channel is None ==> r == Err::<usize, Errno>(Errno::ENOTCONN) && *final(dom) == *old(dom),
            offset == 0 ==> match self.channel {
                Some(c) => old(dom).channels.same_but_buf(final(dom).channels, old(dom).channels.ends@[c as int].reader as int)
                    && old(dom).channels.rbuf(c as int).read_step(final(dom).channels.rbuf(c as int), old(buf)@, final(buf)@, r),
                None => true,
            },
    {
        if offset != 0 {
            return Err(Errno::ESPIPE);
        }
        self.read(dom, buf)
    }

    /// Like `write`, at offset 0 only (`ESPIPE` otherwise).
    pub fn write_at(&self, dom: &mut UnixDomain, offset: usize, buf: &[u8]) -> (r: Result<usize, Errno>)
        requires
            old(dom).wf(),
            self.wf_in(old(dom).channels.ends@.len()),
        ensures
            final(dom).wf(),
            offset != 0 ==> r == Err::<usize, Errno>(Errno::ESPIPE) && *final(dom) == *old(dom),
            offset == 0 && self.channel is None ==> r == Err::<usize, Errno>(Errno::ENOTCONN) && *final(dom) == *old(dom),
            offset == 0 ==> match self.channel {
                Some(c) => old(dom).channels.same_but_buf(final(dom).channels, old(dom).channels.ends@[c as int].writer as int)
                    && old(dom).channels.wbuf(c as int).write_step(final(dom).channels.wbuf(c as int), buf@, r),
                None => true,
            },
    {
        if offset != 0 {
            return Err(Errno::ESPIPE);
        }
        self.write(dom, buf)
    }

    /// Sockets cannot seek.
    pub fn seek(&self) -> (r: Result<i64, Errno>)
        ensures
            r == Err::<i64, Errno>(Errno::ESPIPE),
    {
        Err(Errno::ESPIPE)
    }

    /// Sockets are open for reading and writing.
    pub fn get_access_mode(&self) -> (r: u32)
        ensures
            r == O_RDWR,
    {
        O_RDWR
    }

    /// Answers `FIONREAD` with the number of bytes waiting, clipped to the
    /// largest `i32` (`ENOTCONN` without a connection); any other request is
    /// refused with `EINVAL`.
    pub fn ioctl(&self, dom: &UnixDomain, cmd: &mut IoctlCmd) -> (r: Result<i32, Errno>)
        requires
            dom.wf(),
            self.wf_in(dom.channels.ends@.len()),
        ensures
            ioctl_result(*self, *dom, *old(cmd), *final(cmd), r),
    {
        match cmd {
            IoctlCmd::FIONREAD(arg) => {
                match self.channel {
                    None => Err(Errno::ENOTCONN),
                    Some(c) => {
                        let n = EndPoint::bytes_to_read(&dom.channels, c);
                        let clipped: i32 = if n > i32::MAX as usize {
                            i32::MAX
                        } else {
                            n as i32
                        };
                        *arg = clipped;
                        Ok(0)
                    },
                }
            },
            IoctlCmd::Other(_) => Err(Errno::EINVAL),
        }
    }

    /// `O_NONBLOCK` when non-blocking, no flag otherwise.
    pub fn get_status_flags(&self) -> (r: Result<u32, Errno>)
        ensures
            r == Ok::<u32, Errno>(if self.is_blocking { 0 } else { O_NONBLOCK }),
    {
        if self.is_blocking {
            Ok(0)
        } else {
            Ok(O_NONBLOCK)
        }
    }

    /// Of the status flags only `O_NONBLOCK` has an effect: present, it makes
    /// the socket and its endpoint non-blocking; absent, blocking.
    pub fn set_status_flags(&mut self, dom: &mut UnixDomain, new_status_flags: u32) -> (r: Result<(), Errno>)
        requires
            old(dom).wf(),
            old(self).wf_in(old(dom).channels.ends@.len()),
        ensures
            r is Ok,
            final(dom).wf(),
            final(dom).registry == old(dom).registry,
            final(dom).pair_count == old(dom).pair_count,
            ({
                let b = new_status_flags & O_NONBLOCK == 0;
                &&& *final(self) == (StreamUnixSocket { is_blocking: b, ..*old(self) })
                &&& old(self).channel is None ==> final(dom).channels == old(dom).channels
                &&& old(self).channel matches Some(c) ==> blocking_set(old(dom).channels, final(dom).channels, c as int, b)
            }),
    {
        if new_status_flags & O_NONBLOCK != 0 {
            self.set_non_blocking(dom);
        } else {
            self.set_blocking(dom);
        }
        Ok(())
    }

    /// Writes the bound address into `addr` (as much as fits) and its full
    /// length into `addr_len`; an unbound socket leaves both alone.
    pub fn get_sockname(&self, addr: &mut [u8], addr_len: &mut u32) -> (r: Result<(), Errno>)
        ensures
            self.path is None ==> r is Ok && final(addr)@ == old(addr)@ && *final(addr_len) == *old(addr_len),
            match self.path {
                Some(p) => {
                    &&& encode_utf8(p@).len() > crate::unix_addr::MAX_PATH_LEN ==> r == Err::<(), Errno>(Errno::ENAMETOOLONG)
                        && final(addr)@ == old(addr)@ && *final(addr_len) == *old(addr_len)
                    &&& encode_utf8(p@).len() <= crate::unix_addr::MAX_PATH_LEN ==> r is Ok
                        && final(addr)@ == crate::address::copied_into(seq![1u8, 0u8] + encode_utf8(p@), old(addr)@)
                        && *final(addr_len) == 2 + encode_utf8(p@).len()
                },
                None => true,
            },
    {
        match &self.path {
            None => Ok(()),
            Some(p) => match UnixAddr::new(p.as_str()) {
                Err(e) => Err(e),
                Ok(u) => {
                    SockAddr::UnixSocket(u).copy_to_slice(addr);
                    *addr_len = u.len() as u32;
                    Ok(())
                },
            },
        }
    }
}

/// A registry that is well formed holds at most one server on any path.
pub proof fn lemma_one_server_per_path(reg: ServerRegistry, p: Seq<char>, i: int, j: int)
    requires
        reg.wf(),
        server_at(reg, p, i),
        server_at(reg, p, j),
    ensures
        i == j,
{
    if i != j {
        assert(reg.servers@[i].path@ != reg.servers@[j].path@);
    }
}

/// Over a channel pair, the bytes that one endpoint writes are the bytes
/// that its peer then reads, in order: after a write of `w` into endpoint
/// `a` (of which `k` bytes went in) and a read by its peer `b` of `m` bytes
/// into a buffer, the buffer starts with the head of what was queued
/// before followed by the written bytes.
pub proof fn lemma_duplex_fifo(
    ch0: Channels,
    ch1: Channels,
    ch2: Channels,
    a: int,
    w: Seq<u8>,
    k: usize,
    ob: Seq<u8>,
    nb: Seq<u8>,
    m: usize,
)
    requires
        ch0.wf(),
        0 <= a < ch0.ends@.len(),
        ch0.same_but_buf(ch1, ch0.ends@[a].writer as int),
        ch0.wbuf(a).write_step(ch1.wbuf(a), w, Ok::<usize, Errno>(k)),
        ch1.rbuf(ch0.ends@[a].peer as int).read_step(ch2.rbuf(ch0.ends@[a].peer as int), ob, nb, Ok::<usize, Errno>(m)),
    ensures
        nb.take(m as int) == (ch0.rbuf(ch0.ends@[a].peer as int).data@ + w.take(k as int)).take(m as int),
        ch0.rbuf(ch0.ends@[a].peer as int).data@.len() == 0 ==> nb.take(m as int) == w.take(m as int),
{
    let b = ch0.ends@[a].peer as int;
    assert(ch0.ends@[b].reader == ch0.ends@[a].writer);
    assert(ch1.ends@ == ch0.ends@);
    let q = ch0.rbuf(b).data@ + w.take(k as int);
    assert(ch1.rbuf(b).data@ == q);
    assert(nb.take(m as int) =~= q.take(m as int));
    if ch0.rbuf(b).data@.len() == 0 {
        assert(m <= k) by {
            assert(ch1.rbuf(b).read_outcome(ob.len() as int) == Ok::<usize, Errno>(m));
        }
        assert(q.take(m as int) =~= w.take(m as int));
    }
}

/// A socket that connects while holding no server ends up connected: it
/// holds an endpoint and still no server. (A listening socket that connects
/// keeps its server, and one that listens after connecting gains one.)
pub proof fn lemma_connected_holds_no_server(
    old: StreamUnixSocket,
    new: StreamUnixSocket,
    od: UnixDomain,
    nd: UnixDomain,
    p: Seq<char>,
)
    requires
        connect_done(old, new, od, nd, p),
        old.server is None,
    ensures
        new.channel is Some,
        new.server is None,
        new.connected_inv(),
{
}

/// The connection that a connect queues on the server bears the server's
/// path, and its endpoint is the peer of the connecting socket's: the name
/// it reports for its peer is the connecting endpoint's name.
pub proof fn lemma_queued_peer_name(
    old: StreamUnixSocket,
    new: StreamUnixSocket,
    od: UnixDomain,
    nd: UnixDomain,
    p: Seq<char>,
    i: int,
)
    requires
        nd.wf(),
        connect_done(old, new, od, nd, p),
        server_at(od.registry, p, i),
    ensures
        ({
            let s = nd.registry.servers@[i].pending@.last();
            let c = new.channel->Some_0 as int;
            &&& s.path is Some && s.path->Some_0@ == p
            &&& s.channel is Some && new.channel is Some
            &&& nd.channels.ends@[s.channel->Some_0 as int].peer == c
            &&& spec_peer_name(nd.channels, s.channel->Some_0 as int) == (if nd.channels.ends@[c].alive
                && nd.channels.ends@[c].name is Some {
                Some(nd.channels.ends@[c].name->Some_0@)
            } else {
                None
            })
            &&& spec_peer_name(nd.channels, c) == Some(p)
        }),
{
}

/// An accept that follows a connect to a listener with nothing waiting
/// hands out the connection that the connect made: the accepted socket
/// bears the listener's path, its endpoint is the peer of the connecting
/// socket's, and each reports the other's name as its peer's.
pub proof fn lemma_accept_after_connect(
    c_old: StreamUnixSocket,
    c_new: StreamUnixSocket,
    d0: UnixDomain,
    d1: UnixDomain,
    d2: UnixDomain,
    l: StreamUnixSocket,
    p: Seq<char>,
    i: int,
    flags: u32,
    oa: Option<Vec<u8>>,
    na: Option<Vec<u8>>,
    a: StreamUnixSocket,
    n: usize,
)
    requires
        d0.wf(),
        d1.wf(),
        connect_done(c_old, c_new, d0, d1, p),
        l.path is Some && l.path->Some_0@ == p,
        server_at(d0.registry, p, i),
        d0.registry.servers@[i].pending@.len() == 0,
        accept_post(l, d1, d2, flags, oa, na, Ok::<(StreamUnixSocket, usize), Errno>((a, n))),
    ensures
        ({
            let ca = a.channel->Some_0 as int;
            let cc = c_new.channel->Some_0 as int;
            &&& a.path is Some && a.path->Some_0@ == p
            &&& a.channel is Some && c_new.channel is Some
            &&& d2.channels.ends@[ca].peer == cc
            &&& d2.channels.ends@[cc].peer == ca
            &&& spec_peer_name(d2.channels, ca) == (if d2.channels.ends@[cc].alive && d2.channels.ends@[cc].name is Some {
                Some(d2.channels.ends@[cc].name->Some_0@)
            } else {
                None
            })
            &&& spec_peer_name(d2.channels, cc) == Some(p)
        }),
{
    let k = d0.channels.ends@.len() as int;
    assert(server_at(d1.registry, p, i));
    let s = d1.registry.servers@[i].pending@.last();
    assert(d1.registry.servers@[i].pending@ =~= seq![s]);
    assert(d1.registry.servers@[i].pending@[0] == s);
    assert(s.channel == Some(k as usize));
    let b = flags & SOCK_NONBLOCK == 0;
    assert(a == (StreamUnixSocket { is_blocking: b, ..s }));
    assert(blocking_set(d1.channels, d2.channels, k, b));
    assert(d2.channels.ends@[k + 1] == d1.channels.ends@[k + 1]);
}

} // verus!
