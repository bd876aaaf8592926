use vstd::prelude::*;

use crate::address::SockAddr;
use crate::errno::Errno;
use crate::ring_buf::{concat, flatten};
use crate::protocol_family::{spec_family_num, ProtocolFamily};
use crate::socket_type::{spec_type_num, SocketType};

verus! {

/// The status flag that appends every write.
pub const O_APPEND: u32 = 0o2000;

/// The status flag that leaves access times alone.
pub const O_NOATIME: u32 = 0o1000000;

/// The status flags that the host accepts on a socket.
pub const HOST_STATUS_MASK: u32 = O_APPEND | crate::flags::O_ASYNC | crate::flags::O_DIRECT | O_NOATIME
    | crate::flags::O_NONBLOCK;

/// The size of the generic `sockaddr` that an unspecified address takes.
pub const UNSPEC_ADDR_LEN: usize = 16;

/// A call into the host kernel, with every argument as the host receives it.
/// The caller performs it and hands back the host's return value, where a
/// negative value is the negated error number.
#[derive(Debug)]
pub enum HostCall {
    Socket { domain: i32, sock_type: i32, protocol: i32 },
    Bind { fd: i32, addr: Vec<u8> },
    Listen { fd: i32, backlog: i32 },
    Accept4 { fd: i32, addr_cap: Option<usize>, flags: u32 },
    Connect { fd: i32, addr: Vec<u8> },
    SendTo { fd: i32, buf: Vec<u8>, flags: u32, to: Option<Vec<u8>> },
    RecvFrom { fd: i32, len: usize, flags: u32, addr_cap: Option<usize> },
    SendMsg {
        fd: i32,
        data: Vec<u8>,
        lens: Vec<usize>,
        name: Option<Vec<u8>>,
        control: Option<Vec<u8>>,
        flags: u32,
    },
    ReadV { fd: i32, lens: Vec<usize> },
    WriteV { fd: i32, data: Vec<u8>, lens: Vec<usize> },
    Ioctl { fd: i32, cmd: u32 },
    GetStatusFlags { fd: i32 },
    SetStatusFlags { fd: i32, flags: u32 },
    Poll { fd: i32 },
    GetSockName { fd: i32, cap: usize },
    Shutdown { fd: i32, how: i32 },
    Close { fd: i32 },
}

/// What a host return value means: the negated error number when negative,
/// the count otherwise.
pub open spec fn spec_host_ret(ret: i64) -> Result<usize, Errno> {
    if ret < 0 {
        Err(Errno::from_code_spec((-ret) as i32))
    } else {
        Ok(ret as usize)
    }
}

/// Translates a host return value: a negative one is the negated error
/// number, any other is a count.
pub fn host_ret(ret: i64) -> (r: Result<usize, Errno>)
    requires
        ret > i32::MIN,
        ret <= usize::MAX,
    ensures
        r == spec_host_ret(ret),
{
    if ret < 0 {
        let e = Errno::from_code((-ret) as i32);
        Err(e)
    } else {
        Ok(ret as usize)
    }
}

/// A socket of the host kernel, named by its file descriptor there.
#[derive(Debug)]
pub struct SocketFile {
    host_fd: i32,
}

impl SocketFile {
    /// The descriptor.
    pub closed spec fn spec_fd(&self) -> i32 {
        self.host_fd
    }

    /// The request that creates a host socket.
    pub fn socket_call(domain: ProtocolFamily, socket_type: SocketType, file_flags: u32, protocol: i32) -> (r: HostCall)
        requires
            file_flags <= i32::MAX,
        ensures
            r == (HostCall::Socket {
                domain: spec_family_num(domain) as i32,
                sock_type: (spec_type_num(socket_type) as u32 | file_flags) as i32,
                protocol,
            }),
    {
        HostCall::Socket {
            domain: domain.as_u16() as i32,
            sock_type: (socket_type.as_i32() as u32 | file_flags) as i32,
            protocol,
        }
    }

    /// The socket that the host's answer `ret` to a socket request names.
    pub fn new(ret: i64) -> (r: Result<SocketFile, Errno>)
        requires
            ret > i32::MIN,
        ensures
            ret < 0 ==> r == Err::<SocketFile, Errno>(Errno::from_code_spec((-ret) as i32)),
            ret > i32::MAX ==> r == Err::<SocketFile, Errno>(Errno::EBADF),
            0 <= ret <= i32::MAX ==> (r matches Ok(s) && s.spec_fd() == ret),
    {
        if ret > i32::MAX as i64 {
            return Err(Errno::EBADF);
        }
        match host_ret(ret) {
            Err(e) => Err(e),
            Ok(_) => Ok(SocketFile { host_fd: ret as i32 }),
        }
    }

    /// The host descriptor.
    pub fn host_fd(&self) -> (r: i32)
        ensures
            r == self.spec_fd(),
    {
        self.host_fd
    }

    /// The request that binds the host socket to `addr`.
    pub fn bind(&self, addr: &SockAddr) -> (r: HostCall)
        ensures
            r matches HostCall::Bind { fd, addr: a } && fd == self.spec_fd() && a@ == addr.spec_bytes(),
    {
        HostCall::Bind { fd: self.host_fd, addr: addr.to_bytes() }
    }

    /// The request that makes the host socket listen.
    pub fn listen(&self, backlog: i32) -> (r: HostCall)
        ensures
            r == (HostCall::Listen { fd: self.spec_fd(), backlog }),
    {
        HostCall::Listen { fd: self.host_fd, backlog }
    }

    /// The request that connects the host socket to `addr`; no address
    /// sends an unspecified one (all zeros), which dissolves the association.
    pub fn connect(&self, addr: Option<SockAddr>) -> (r: HostCall)
        ensures
            r matches HostCall::Connect { fd, addr: a } && fd == self.spec_fd() && match addr {
                Some(x) => a@ == x.spec_bytes(),
                None => a@ == Seq::new(UNSPEC_ADDR_LEN as nat, |i: int| 0u8),
            },
    {
        let bytes = match addr {
            Some(x) => x.to_bytes(),
            None => {
                let v = vec![0u8; UNSPEC_ADDR_LEN];
                proof {
                    assert(v@ =~= Seq::new(UNSPEC_ADDR_LEN as nat, |i: int| 0u8));
                }
                v
            },
        };
        HostCall::Connect { fd: self.host_fd, addr: bytes }
    }

    /// The request that accepts a connection on the host socket; the host
    /// writes the peer's address into a buffer of `addr_cap` bytes when asked.
    pub fn accept(&self, flags: u32, addr_cap: Option<usize>) -> (r: HostCall)
        ensures
            r == (HostCall::Accept4 { fd: self.spec_fd(), addr_cap, flags }),
    {
        HostCall::Accept4 { fd: self.host_fd, addr_cap, flags }
    }

    /// The accepted socket from the host's answer to an accept request, with
    /// the length the host reported. The address the host wrote goes into
    /// the caller's buffer, as much of it as fits.
    pub fn accepted(ret: i64, host_addr: &[u8], host_len: u32, addr: &mut Option<Vec<u8>>) -> (r: Result<(SocketFile, usize), Errno>)
        requires
            ret > i32::MIN,
        ensures
            ret < 0 ==> r == Err::<(SocketFile, usize), Errno>(Errno::from_code_spec((-ret) as i32)) && *final(addr) == *old(addr),
            ret > i32::MAX ==> r == Err::<(SocketFile, usize), Errno>(Errno::EBADF) && *final(addr) == *old(addr),
            0 <= ret <= i32::MAX ==> (r matches Ok((s, n)) && s.spec_fd() == ret && n == host_len),
            0 <= ret <= i32::MAX ==> match *old(addr) {
                Some(dst) => {
                    let k = crate::ring_buf::min_int(host_len as int, host_addr@.len() as int);
                    *final(addr) is Some && final(addr)->Some_0@ == crate::address::copied_into(
                        host_addr@.take(k),
                        dst@,
                    )
                },
                None => *final(addr) == *old(addr),
            },
    {
        let sock = match SocketFile::new(ret) {
            Err(e) => return Err(e),
            Ok(s) => s,
        };
        match addr {
            Some(dst) => {
                let k = if (host_len as usize) < host_addr.len() {
                    host_len as usize
                } else {
                    host_addr.len()
                };
                let n = if k < dst.len() {
                    k
                } else {
                    dst.len()
                };
                let ghost d0 = dst@;
                let mut i: usize = 0;
                while i < n
                    invariant
                        n <= k <= host_addr@.len(),
                        n <= dst@.len(),
                        dst@.len() == d0.len(),
                        n == crate::ring_buf::min_int(k as int, d0.len() as int),
                        i <= n,
                        forall|j: int| 0 <= j < i ==> dst@[j] == host_addr@[j],
                        forall|j: int| i <= j < dst@.len() ==> dst@[j] == d0[j],
                    decreases n - i,
                {
                    dst.set(i, host_addr[i]);
                    i = i + 1;
                }
                proof {
                    assert(dst@ =~= crate::address::copied_into(host_addr@.take(k as int), d0));
                }
            },
            None => {},
        }
        Ok((sock, host_len as usize))
    }

    /// The request that sends `buf` on the host socket.
    pub fn send(&self, buf: &[u8], flags: u32) -> (r: HostCall)
        ensures
            r matches HostCall::SendTo { fd, buf: b, flags: f, to } && fd == self.spec_fd() && b@ == buf@
                && f == flags && to is None,
    {
        self.sendto(buf, flags, None)
    }

    /// The request that sends `buf` on the host socket, to `addr` if given.
    pub fn sendto(&self, buf: &[u8], flags: u32, addr: Option<SockAddr>) -> (r: HostCall)
        ensures
            r matches HostCall::SendTo { fd, buf: b, flags: f, to: a } && fd == self.spec_fd() && b@ == buf@
                && f == flags && match addr {
                Some(x) => a matches Some(v) && v@ == x.spec_bytes(),
                None => a is None,
            },
    {
        let a = match addr {
            Some(x) => Some(x.to_bytes()),
            None => None,
        };
        HostCall::SendTo { fd: self.host_fd, buf: crate::address::slice_to_vec(buf), flags, to: a }
    }

    /// The request that receives up to `len` bytes on the host socket, with
    /// the sender's address when `addr_cap` asks for it.
    pub fn recvfrom(&self, len: usize, flags: u32, addr_cap: Option<usize>) -> (r: HostCall)
        ensures
            r == (HostCall::RecvFrom { fd: self.spec_fd(), len, flags, addr_cap }),
    {
        HostCall::RecvFrom { fd: self.host_fd, len, flags, addr_cap }
    }

    /// The request that sends a message on the host socket. The pieces of
    /// the message are copied, in order, into one contiguous buffer for the
    /// host, and the request lists the length of each piece in it.
    pub fn sendmsg(&self, bufs: &Vec<Vec<u8>>, name: Option<Vec<u8>>, control: Option<Vec<u8>>, flags: u32) -> (r: HostCall)
        ensures
            r matches HostCall::SendMsg { fd, data, lens, name: n, control: c, flags: f } && fd == self.spec_fd()
                && data@ == concat(bufs@) && lens@.len() == bufs@.len() && (forall|i: int|
                0 <= i < bufs@.len() ==> #[trigger] lens@[i] == bufs@[i]@.len()) && n == name && c == control
                && f == flags,
    {
        let data = flatten(bufs);
        let lens = SocketFile::piece_lens(bufs);
        HostCall::SendMsg { fd: self.host_fd, data, lens, name, control, flags }
    }

    /// The lengths of the pieces of `bufs`.
    fn piece_lens(bufs: &Vec<Vec<u8>>) -> (r: Vec<usize>)
        ensures
            r@.len() == bufs@.len(),
            forall|i: int| 0 <= i < bufs@.len() ==> #[trigger] r@[i] == bufs@[i]@.len(),
    {
        let mut lens: Vec<usize> = Vec::new();
        let mut i: usize = 0;
        while i < bufs.len()
            invariant
                i <= bufs@.len(),
                lens@.len() == i,
                forall|j: int| 0 <= j < i ==> #[trigger] lens@[j] == bufs@[j]@.len(),
            decreases bufs@.len() - i,
        {
            lens.push(bufs[i].len());
            i = i + 1;
        }
        lens
    }

    /// The request that reads from the host socket into pieces of the
    /// lengths of `bufs`.
    pub fn readv(&self, bufs: &Vec<Vec<u8>>) -> (r: HostCall)
        ensures
            r matches HostCall::ReadV { fd, lens } && fd == self.spec_fd() && lens@.len() == bufs@.len()
                && forall|i: int| 0 <= i < bufs@.len() ==> #[trigger] lens@[i] == bufs@[i]@.len(),
    {
        HostCall::ReadV { fd: self.host_fd, lens: SocketFile::piece_lens(bufs) }
    }

    /// The request that writes the pieces of `bufs` to the host socket.
    pub fn writev(&self, bufs: &Vec<Vec<u8>>) -> (r: HostCall)
        ensures
            r matches HostCall::WriteV { fd, data, lens } && fd == self.spec_fd() && data@ == concat(bufs@)
                && lens@.len() == bufs@.len() && forall|i: int| 0 <= i < bufs@.len() ==> #[trigger] lens@[i]
                == bufs@[i]@.len(),
    {
        HostCall::WriteV { fd: self.host_fd, data: flatten(bufs), lens: SocketFile::piece_lens(bufs) }
    }

    /// The request for an ioctl on the host socket.
    pub fn ioctl(&self, cmd: u32) -> (r: HostCall)
        ensures
            r == (HostCall::Ioctl { fd: self.spec_fd(), cmd }),
    {
        HostCall::Ioctl { fd: self.host_fd, cmd }
    }

    /// The request that reads the host socket's status flags.
    pub fn get_status_flags(&self) -> (r: HostCall)
        ensures
            r == (HostCall::GetStatusFlags { fd: self.spec_fd() }),
    {
        HostCall::GetStatusFlags { fd: self.host_fd }
    }

    /// The request that sets the host socket's status flags, keeping only
    /// those a host socket accepts.
    pub fn set_status_flags(&self, new_status_flags: u32) -> (r: HostCall)
        ensures
            r == (HostCall::SetStatusFlags { fd: self.spec_fd(), flags: new_status_flags & HOST_STATUS_MASK }),
    {
        HostCall::SetStatusFlags { fd: self.host_fd, flags: new_status_flags & HOST_STATUS_MASK }
    }

    /// The request that writes the host socket's own address into a buffer
    /// of `cap` bytes.
    pub fn get_sockname(&self, cap: usize) -> (r: HostCall)
        ensures
            r == (HostCall::GetSockName { fd: self.spec_fd(), cap }),
    {
        HostCall::GetSockName { fd: self.host_fd, cap }
    }

    /// The request that shuts down part of the host socket's connection.
    pub fn shutdown(&self, how: i32) -> (r: HostCall)
        ensures
            r == (HostCall::Shutdown { fd: self.spec_fd(), how }),
    {
        HostCall::Shutdown { fd: self.host_fd, how }
    }

    /// The request that receives up to `len` bytes, at offset 0 only
    /// (`ESPIPE` otherwise).
    pub fn read_at(&self, offset: usize, len: usize) -> (r: Result<HostCall, Errno>)
        ensures
            offset != 0 ==> r == Err::<HostCall, Errno>(Errno::ESPIPE),
            offset == 0 ==> r == Ok::<HostCall, Errno>(HostCall::RecvFrom { fd: self.spec_fd(), len, flags: 0, addr_cap: None }),
    {
        if offset != 0 {
            return Err(Errno::ESPIPE);
        }
        Ok(self.recvfrom(len, 0, None))
    }

    /// The request that sends `buf`, at offset 0 only (`ESPIPE` otherwise).
    pub fn write_at(&self, offset: usize, buf: &[u8]) -> (r: Result<HostCall, Errno>)
        ensures
            offset != 0 ==> r == Err::<HostCall, Errno>(Errno::ESPIPE),
            offset == 0 ==> (r matches Ok(HostCall::SendTo { fd, buf: b, flags, to }) && fd == self.spec_fd()
                && b@ == buf@ && flags == 0 && to is None),
    {
        if offset != 0 {
            return Err(Errno::ESPIPE);
        }
        Ok(self.send(buf, 0))
    }

    /// Sockets cannot seek.
    pub fn seek(&self) -> (r: Result<i64, Errno>)
        ensures
            r == Err::<i64, Errno>(Errno::ESPIPE),
    {
        Err(Errno::ESPIPE)
    }

    /// Sockets are open for reading and writing.
    pub fn get_access_mode(&self) -> (r: u32)
        ensures
            r == crate::flags::O_RDWR,
    {
        crate::flags::O_RDWR
    }

    /// The request that polls the host socket.
    pub fn poll(&self) -> (r: HostCall)
        ensures
            r == (HostCall::Poll { fd: self.spec_fd() }),
    {
        HostCall::Poll { fd: self.host_fd }
    }

    /// The request that closes the host socket, which releases it.
    pub fn close(self) -> (r: HostCall)
        ensures
            r == (HostCall::Close { fd: self.spec_fd() }),
    {
        HostCall::Close { fd: self.host_fd }
    }
}

} // verus!
