use libos_unix::address::SockAddr;
use libos_unix::channel::{POLLHUP, POLLIN, POLLOUT, POLLRDHUP, POLLRDNORM, POLLWRNORM};
use libos_unix::errno::Errno;
use libos_unix::flags::SOCK_NONBLOCK;
use libos_unix::host_policy::HostPathPolicy;
use libos_unix::router::{AcceptStep, Source, Step, UnixSocket};
use libos_unix::socket_type::SocketType;
use libos_unix::stream::UnixDomain;
use libos_unix::unix_addr::UnixAddr;

fn unix(path: &str) -> SockAddr {
    SockAddr::UnixSocket(UnixAddr::new(path).unwrap())
}

fn libos_socket(policy: &HostPathPolicy) -> UnixSocket {
    UnixSocket::new(SocketType::SOCK_STREAM, 0, 0, policy, None).unwrap()
}

fn done<T>(step: Step<T>) -> Result<T, Errno> {
    match step {
        Step::Done(r) => r,
        Step::Host(_) => panic!("unexpected host call"),
    }
}

/// Accepts in the enclave; the shadow host socket gets descriptor 100.
fn accept_libos(dom: &mut UnixDomain, policy: &HostPathPolicy, s: &UnixSocket, flags: u32) -> Result<UnixSocket, Errno> {
    let mut none: Option<Vec<u8>> = None;
    match s.accept(dom, policy, flags, &mut none) {
        AcceptStep::Done(r) => r.map(|(u, _)| u),
        AcceptStep::NeedShadow(a, n, _) => UnixSocket::with_shadow(dom, a, n, SocketType::SOCK_STREAM, 100).map(|(u, _)| u),
        AcceptStep::Host(_) => panic!("unexpected host accept"),
    }
}

/// Server S on `/srv`, client C connected, A accepted.
fn scenario_one(dom: &mut UnixDomain, policy: &HostPathPolicy) -> (UnixSocket, UnixSocket, UnixSocket) {
    let mut s = libos_socket(policy);
    let mut c = libos_socket(policy);
    assert_eq!(done(s.bind(dom, policy, unix("/srv"))), Ok(()));
    assert_eq!(done(s.listen(dom, policy, 1)), Ok(()));
    assert_eq!(done(c.connect(dom, policy, Some(unix("/srv")))), Ok(()));
    let a = accept_libos(dom, policy, &s, 0).unwrap();
    (s, c, a)
}

#[test]
fn basic_libos_stream() {
    let mut dom = UnixDomain::new();
    let policy = HostPathPolicy::empty();
    let (_s, c, a) = scenario_one(&mut dom, &policy);
    assert_eq!(done(c.write(&mut dom, &policy, b"hello")), Ok(5));
    let mut buf = [0u8; 5];
    assert_eq!(done(a.read(&mut dom, &policy, &mut buf)), Ok(5));
    assert_eq!(&buf, b"hello");
    assert_eq!(done(a.write(&mut dom, &policy, b"world")), Ok(5));
    let mut buf2 = [0u8; 5];
    assert_eq!(done(c.read(&mut dom, &policy, &mut buf2)), Ok(5));
    assert_eq!(&buf2, b"world");
    assert_eq!(a.source, Source::Libos);
}

#[test]
fn nonblocking_accept_on_empty_queue() {
    let mut dom = UnixDomain::new();
    let policy = HostPathPolicy::empty();
    let mut s = libos_socket(&policy);
    assert_eq!(done(s.bind(&mut dom, &policy, unix("/x"))), Ok(()));
    assert_eq!(done(s.listen(&mut dom, &policy, 0)), Ok(()));
    assert_eq!(accept_libos(&mut dom, &policy, &s, SOCK_NONBLOCK).err(), Some(Errno::EAGAIN));
}

#[test]
fn duplicate_listen_is_refused() {
    let mut dom = UnixDomain::new();
    let policy = HostPathPolicy::empty();
    let mut s1 = libos_socket(&policy);
    let mut s2 = libos_socket(&policy);
    assert_eq!(done(s1.bind(&mut dom, &policy, unix("/y"))), Ok(()));
    assert_eq!(done(s1.listen(&mut dom, &policy, 0)), Ok(()));
    assert_eq!(done(s2.bind(&mut dom, &policy, unix("/y"))), Ok(()));
    assert_eq!(done(s2.listen(&mut dom, &policy, 0)), Err(Errno::EADDRINUSE));
    assert_eq!(dom.registry.servers.len(), 1);
}

#[test]
fn connect_to_nonexistent_is_refused() {
    let mut dom = UnixDomain::new();
    let policy = HostPathPolicy::empty();
    let mut c = libos_socket(&policy);
    assert_eq!(done(c.connect(&mut dom, &policy, Some(unix("/nope")))), Err(Errno::ECONNREFUSED));
}

#[test]
fn unspecified_address_disconnects() {
    let mut dom = UnixDomain::new();
    let policy = HostPathPolicy::empty();
    let (_s, mut c, _a) = scenario_one(&mut dom, &policy);
    assert_eq!(done(c.connect(&mut dom, &policy, None)), Ok(()));
    let mut buf = [0u8; 4];
    assert_eq!(done(c.read(&mut dom, &policy, &mut buf)), Err(Errno::ENOTCONN));
}

#[test]
fn peer_close_poll() {
    let mut dom = UnixDomain::new();
    let policy = HostPathPolicy::empty();
    let (_s, c, a) = scenario_one(&mut dom, &policy);
    // Nothing to read yet: only writable.
    assert_eq!(done(a.poll(&dom, &policy)), Ok(POLLRDHUP));
    assert_eq!(done(c.write(&mut dom, &policy, b"xy")), Ok(2));
    assert_eq!(done(a.poll(&dom, &policy)), Ok(POLLIN | POLLOUT | POLLRDNORM | POLLWRNORM));
    assert!(c.close(&mut dom).is_none());
    // The writer of A's queue is gone, so A is no longer readable by the
    // rule of the channel's poll, and its peer reader is gone too.
    assert_eq!(done(a.poll(&dom, &policy)), Ok(POLLHUP));
    let mut buf = [0u8; 8];
    assert_eq!(done(a.read(&mut dom, &policy, &mut buf)), Ok(2));
    assert_eq!(&buf[..2], b"xy");
    assert_eq!(done(a.read(&mut dom, &policy, &mut buf)), Ok(0));
    assert_eq!(done(a.poll(&dom, &policy)), Ok(POLLHUP));
}

#[test]
fn socketpair_carries_both_ways() {
    let mut dom = UnixDomain::new();
    let policy = HostPathPolicy::empty();
    let (x, y) = UnixSocket::socketpair(&mut dom, SocketType::SOCK_STREAM, 0).unwrap();
    assert_eq!(done(x.write(&mut dom, &policy, b"abcd")), Ok(4));
    let mut buf = [0u8; 4];
    assert_eq!(done(y.read(&mut dom, &policy, &mut buf)), Ok(4));
    assert_eq!(&buf, b"abcd");
    assert_eq!(done(y.write(&mut dom, &policy, b"efgh")), Ok(4));
    assert_eq!(done(x.read(&mut dom, &policy, &mut buf)), Ok(4));
    assert_eq!(&buf, b"efgh");
    // The accepted side is bound to the first generated path.
    assert_eq!(y.libos_sock.as_ref().unwrap().path.as_deref(), Some("socketpair_0"));
    // The listener was released.
    assert_eq!(dom.registry.servers.len(), 0);
}

#[test]
fn socketpair_skips_a_taken_name() {
    let mut dom = UnixDomain::new();
    let policy = HostPathPolicy::empty();
    let mut s = libos_socket(&policy);
    assert_eq!(done(s.bind(&mut dom, &policy, unix("socketpair_0"))), Ok(()));
    assert_eq!(done(s.listen(&mut dom, &policy, 0)), Ok(()));
    let (_x, y) = UnixSocket::socketpair(&mut dom, SocketType::SOCK_STREAM, 0).unwrap();
    assert_eq!(y.libos_sock.as_ref().unwrap().path.as_deref(), Some("socketpair_1"));
}

#[test]
fn socketpair_of_datagrams_is_refused() {
    let mut dom = UnixDomain::new();
    assert_eq!(UnixSocket::socketpair(&mut dom, SocketType::SOCK_DGRAM, 0).err(), Some(Errno::EOPNOTSUPP));
}

#[test]
fn raw_address_parsing() {
    let raw = [0x01u8, 0x00, b'/', b't', b'm', b'p', 0];
    let parsed = SockAddr::try_from_raw(&raw).unwrap().unwrap();
    assert_eq!(parsed, unix("/tmp\0"));
    match parsed {
        SockAddr::UnixSocket(a) => assert_eq!(a.path(), "/tmp\0"),
        _ => panic!("not a unix address"),
    }
    assert_eq!(SockAddr::try_from_raw(&raw[..2]).err(), Some(Errno::EINVAL));
    let other = [0x2Au8, 0x00, 1, 2, 3, 4];
    assert_eq!(SockAddr::try_from_raw(&other).err(), Some(Errno::EINVAL));
    let beyond = [46u8, 0x00, 1, 2, 3, 4];
    assert_eq!(SockAddr::try_from_raw(&beyond).err(), Some(Errno::EINVAL));
}

#[test]
fn vectors_and_status_flags_through_the_router() {
    let mut dom = UnixDomain::new();
    let policy = HostPathPolicy::empty();
    let (_s, mut c, a) = scenario_one(&mut dom, &policy);
    assert_eq!(done(c.writev(&mut dom, &policy, &vec![b"ab".to_vec(), b"cd".to_vec()])), Ok(4));
    let mut bufs = vec![vec![0u8; 3], vec![0u8; 3]];
    assert_eq!(done(a.readv(&mut dom, &policy, &mut bufs)), Ok(4));
    assert_eq!(bufs, vec![b"abc".to_vec(), vec![b'd', 0, 0]]);
    assert_eq!(done(c.get_status_flags(&policy)), Ok(0));
    assert_eq!(done(c.set_status_flags(&mut dom, &policy, libos_unix::flags::O_NONBLOCK)), Ok(()));
    assert_eq!(done(c.get_status_flags(&policy)), Ok(libos_unix::flags::O_NONBLOCK));
    let mut buf = [0u8; 2];
    assert_eq!(done(c.read(&mut dom, &policy, &mut buf)), Err(Errno::EAGAIN));
    let mut cmd = libos_unix::stream::IoctlCmd::FIONREAD(-1);
    assert_eq!(done(a.ioctl(&dom, &policy, &mut cmd)), Ok(0));
    assert!(matches!(cmd, libos_unix::stream::IoctlCmd::FIONREAD(0)));
}

#[test]
fn unbound_router_socket_refuses_listen_and_accept() {
    let mut dom = UnixDomain::new();
    let policy = HostPathPolicy::empty();
    let mut s = libos_socket(&policy);
    assert_eq!(done(s.listen(&mut dom, &policy, 1)), Err(Errno::EINVAL));
    assert_eq!(accept_libos(&mut dom, &policy, &s, 0).err(), Some(Errno::EINVAL));
    assert_eq!(s.seek(), Err(Errno::ESPIPE));
    let mut buf = [0u8; 1];
    assert_eq!(done(s.read_at(&mut dom, &policy, 3, &mut buf)), Err(Errno::ESPIPE));
    assert_eq!(done(s.poll(&dom, &policy)), Ok(0x314));
}
