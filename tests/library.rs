use libos_unix::address::{IPv4SockAddr, SockAddr};
use libos_unix::channel::{Channels, EndPoint, POLLHUP, POLLRDHUP};
use libos_unix::config::{
    parse_mac, parse_memory_size, ConfigMount, ConfigMountFsType, ConfigMountOptions, ConfigNet, ConfigProcess,
    ConfigResourceLimits, InputConfigMount, InputConfigMountOptions, InputConfigNet, InputConfigProcess,
    InputConfigResourceLimits,
};
use libos_unix::errno::Errno;
use libos_unix::host::{host_ret, HostCall, SocketFile};
use libos_unix::host_policy::HostPathPolicy;
use libos_unix::protocol_family::ProtocolFamily;
use libos_unix::ring_buf::{RingBuf, DEFAULT_BUF_SIZE};
use libos_unix::router::{Step, UnixSocket};
use libos_unix::socket_type::SocketType;
use libos_unix::stream::{IoctlCmd, StreamUnixSocket, UnixDomain, UnixSocketServer, POLL_UNCONNECTED};
use libos_unix::unix_addr::UnixAddr;

fn unix(path: &str) -> SockAddr {
    SockAddr::UnixSocket(UnixAddr::new(path).unwrap())
}

#[test]
fn unix_addr_round_trip() {
    for p in ["/srv", "a", "/tmp/some/deeper/path.sock"] {
        let a = unix(p);
        let mut buf = vec![0u8; 120];
        let n = a.copy_to_slice(&mut buf);
        assert_eq!(n, p.len() + 2);
        assert_eq!(&buf[..2], &[1, 0]);
        let back = SockAddr::try_from_raw(&buf[..n]).unwrap().unwrap();
        assert_eq!(back, a);
    }
}

#[test]
fn unix_addr_limits() {
    let long = "x".repeat(109);
    assert_eq!(UnixAddr::new(&long).err(), Some(Errno::ENAMETOOLONG));
    let max = "y".repeat(108);
    let a = UnixAddr::new(&max).unwrap();
    assert_eq!(a.len(), 110);
    assert_eq!(a.path(), max);
    assert_eq!(UnixAddr::try_from(&unix("/q")).unwrap(), UnixAddr::new("/q").unwrap());
    let v4 = SockAddr::IPv4(IPv4SockAddr { raw: [2, 0, 0, 80, 127, 0, 0, 1, 0, 0, 0, 0, 0, 0, 0, 0] });
    assert_eq!(UnixAddr::try_from(&v4).err(), Some(Errno::EINVAL));
}

#[test]
fn copy_to_short_buffer_reports_full_length() {
    let a = unix("/abcdef");
    let mut buf = vec![9u8; 4];
    assert_eq!(a.copy_to_slice(&mut buf), 9);
    assert_eq!(buf, vec![1, 0, b'/', b'a']);
}

#[test]
fn raw_parsing_of_other_families() {
    assert_eq!(SockAddr::try_from_raw(&[0, 0, 7]), Ok(None));
    let mut v4 = vec![2u8, 0, 0, 80, 127, 0, 0, 1];
    assert_eq!(SockAddr::try_from_raw(&v4).err(), Some(Errno::EINVAL));
    v4.extend_from_slice(&[0; 8]);
    match SockAddr::try_from_raw(&v4).unwrap().unwrap() {
        SockAddr::IPv4(a) => assert_eq!(a.raw.to_vec(), v4),
        _ => panic!("not IPv4"),
    }
    let mut v6 = vec![10u8, 0];
    v6.extend_from_slice(&[7u8; 22]);
    match SockAddr::try_from_raw(&v6).unwrap().unwrap() {
        SockAddr::IPv6(a) => {
            assert_eq!(&a.raw[..24], &v6[..]);
            assert_eq!(&a.raw[24..], &[0, 0, 0, 0]);
        },
        _ => panic!("not IPv6"),
    }
    assert_eq!(SockAddr::try_from_raw(&v6[..23]).err(), Some(Errno::EINVAL));
    // A Unix path that is not UTF-8.
    assert_eq!(SockAddr::try_from_raw(&[1, 0, 0xff, 0xfe]).err(), Some(Errno::EINVAL));
    // A family that exists but is not supported.
    assert_eq!(SockAddr::try_from_raw(&[3, 0, 1, 2]).err(), Some(Errno::EINVAL));
}

#[test]
fn host_policy_membership() {
    let policy = HostPathPolicy::new(&vec!["/host/a".to_string(), "/host/b".to_string()]).unwrap();
    assert!(!policy.is_empty());
    assert!(unix("/host/b").is_from_host(&policy));
    assert!(!unix("/host/c").is_from_host(&policy));
    assert!(!unix("/host/b").is_from_host(&HostPathPolicy::empty()));
    assert_eq!(HostPathPolicy::new(&vec!["z".repeat(200)]).err(), Some(Errno::ENAMETOOLONG));
}

#[test]
fn equality_compares_whole_buffer() {
    // "/a" and "/a\0" have the same 108-byte buffer.
    assert_eq!(UnixAddr::new("/a").unwrap(), UnixAddr::new("/a\0").unwrap());
    assert_ne!(UnixAddr::new("/a").unwrap(), UnixAddr::new("/b").unwrap());
}

#[test]
fn ring_buffer_fifo_and_bounds() {
    let mut rb = RingBuf::new(4);
    assert_eq!(rb.write_to_buffer(b"abcdef"), Ok(4));
    assert_eq!(rb.write_to_buffer(b"g"), Err(Errno::EAGAIN));
    let mut buf = [0u8; 3];
    assert_eq!(rb.read_from_buffer(&mut buf), Ok(3));
    assert_eq!(&buf, b"abc");
    assert_eq!(rb.bytes_to_read(), 1);
    rb.writer_open = false;
    let mut rest = [0u8; 3];
    assert_eq!(rb.read_from_buffer(&mut rest), Ok(1));
    assert_eq!(rest[0], b'd');
    assert_eq!(rb.read_from_buffer(&mut rest), Ok(0));
    rb.reader_open = false;
    assert_eq!(rb.write_to_buffer(b"x"), Err(Errno::EPIPE));
}

#[test]
fn ring_buffer_vectors() {
    let mut rb = RingBuf::new(16);
    assert_eq!(rb.write_to_vector(&vec![b"ab".to_vec(), b"".to_vec(), b"cde".to_vec()]), Ok(5));
    let mut bufs = vec![vec![0u8; 2], vec![0u8; 0], vec![9u8; 4]];
    assert_eq!(rb.read_from_vector(&mut bufs), Ok(5));
    assert_eq!(bufs, vec![b"ab".to_vec(), vec![], vec![b'c', b'd', b'e', 9]]);
    assert_eq!(rb.read_from_vector(&mut bufs), Err(Errno::EAGAIN));
}

#[test]
fn duplex_channel_is_cross_wired() {
    let mut ch = Channels::new();
    let (a, b) = EndPoint::new_duplex_channel(&mut ch);
    assert_eq!(ch.bufs[ch.ends[a].reader].capacity, DEFAULT_BUF_SIZE);
    assert_eq!(EndPoint::write(&mut ch, a, b"ping"), Ok(4));
    assert_eq!(EndPoint::bytes_to_read(&ch, b), 4);
    let mut buf = [0u8; 4];
    assert_eq!(EndPoint::read(&mut ch, b, &mut buf), Ok(4));
    assert_eq!(&buf, b"ping");
    EndPoint::set_name(&mut ch, b, "/peer");
    assert_eq!(EndPoint::peer_name(&ch, a), Some("/peer".to_string()));
    assert_eq!(EndPoint::peer_name(&ch, b), None);
    assert_eq!(EndPoint::poll(&ch, a), POLLRDHUP);
    EndPoint::release(&mut ch, b);
    assert_eq!(EndPoint::peer_name(&ch, a), None);
    assert_eq!(EndPoint::poll(&ch, a), POLLHUP);
}

#[test]
fn poll_of_bound_and_listening_sockets() {
    let mut dom = UnixDomain::new();
    let mut s = StreamUnixSocket::new(0);
    assert_eq!(s.poll(&dom), POLL_UNCONNECTED);
    assert_eq!(POLL_UNCONNECTED, 0x314);
    s.bind(&mut dom, unix("/p")).unwrap();
    assert_eq!(s.poll(&dom), 0x314);
    s.listen(&mut dom, 5).unwrap();
    assert_eq!(s.poll(&dom), 0);
    assert_eq!(s.bind(&mut dom, unix("/p2")), Err(Errno::EINVAL));
    let mut u = StreamUnixSocket::new(0);
    assert_eq!(u.listen(&mut dom, 0), Err(Errno::EINVAL));
    assert_eq!(u.bind(&mut dom, SockAddr::IPv4(IPv4SockAddr { raw: [0; 16] })), Err(Errno::EINVAL));
}

#[test]
fn accepted_socket_bears_listener_path_and_peer_name() {
    let mut dom = UnixDomain::new();
    let mut l = StreamUnixSocket::new(0);
    l.bind(&mut dom, unix("/l")).unwrap();
    l.listen(&mut dom, 0).unwrap();
    let mut c = StreamUnixSocket::new(0);
    c.connect(&mut dom, Some(unix("/l"))).unwrap();
    c.bind(&mut dom, unix("/client")).unwrap();
    let mut addr = Some(vec![0u8; 32]);
    let (a, n) = l.accept(&mut dom, 0, &mut addr).unwrap();
    // The listener holds no endpoint, so no address comes back.
    assert_eq!(n, 0);
    assert_eq!(a.path.as_deref(), Some("/l"));
    assert!(a.channel.is_some() && a.server.is_none());
    assert_eq!(EndPoint::peer_name(&dom.channels, a.channel.unwrap()), Some("/client".to_string()));
    let mut buf = [0u8; 4];
    let mut from = Some(vec![0u8; 32]);
    c.write(&mut dom, b"hi").unwrap();
    assert_eq!(a.recvfrom(&mut dom, &mut buf, 0, &mut from), Ok((2, 9)));
    assert_eq!(&from.unwrap()[..9], b"\x01\x00/client");
}

#[test]
fn pending_connections_come_out_in_order() {
    let mut dom = UnixDomain::new();
    let mut l = StreamUnixSocket::new(0);
    l.bind(&mut dom, unix("/fifo")).unwrap();
    l.listen(&mut dom, 0).unwrap();
    let mut c1 = StreamUnixSocket::new(0);
    let mut c2 = StreamUnixSocket::new(0);
    c1.connect(&mut dom, Some(unix("/fifo"))).unwrap();
    c2.connect(&mut dom, Some(unix("/fifo"))).unwrap();
    c1.write(&mut dom, b"1").unwrap();
    c2.write(&mut dom, b"2").unwrap();
    let mut none = None;
    let (a1, _) = l.accept(&mut dom, 0, &mut none).unwrap();
    let (a2, _) = l.accept(&mut dom, SOCK_NONBLOCK_FLAG, &mut none).unwrap();
    let mut b = [0u8; 1];
    a1.read(&mut dom, &mut b).unwrap();
    assert_eq!(b[0], b'1');
    a2.read(&mut dom, &mut b).unwrap();
    assert_eq!(b[0], b'2');
    assert!(!a2.is_blocking());
    assert_eq!(a2.get_status_flags(), Ok(libos_unix::flags::O_NONBLOCK));
    let mut cmd = IoctlCmd::FIONREAD(-1);
    assert_eq!(a1.ioctl(&dom, &mut cmd), Ok(0));
    assert!(matches!(cmd, IoctlCmd::FIONREAD(0)));
    assert_eq!(a1.ioctl(&dom, &mut IoctlCmd::Other(7)), Err(Errno::EINVAL));
    l.close(&mut dom);
    assert!(UnixSocketServer::get_server(&dom.registry, &"/fifo".to_string()).is_none());
}

const SOCK_NONBLOCK_FLAG: u32 = libos_unix::flags::SOCK_NONBLOCK;

#[test]
fn offsets_and_seek() {
    let mut dom = UnixDomain::new();
    let s = StreamUnixSocket::new(0);
    let mut buf = [0u8; 1];
    assert_eq!(s.read_at(&mut dom, 1, &mut buf), Err(Errno::ESPIPE));
    assert_eq!(s.write_at(&mut dom, 0, b"x"), Err(Errno::ENOTCONN));
    assert_eq!(s.seek(), Err(Errno::ESPIPE));
    let mut cmd = IoctlCmd::FIONREAD(0);
    assert_eq!(s.ioctl(&dom, &mut cmd), Err(Errno::ENOTCONN));
}

#[test]
fn get_sockname_of_bound_socket() {
    let mut dom = UnixDomain::new();
    let mut s = StreamUnixSocket::new(0);
    let mut buf = [0u8; 16];
    let mut len: u32 = 16;
    s.get_sockname(&mut buf, &mut len).unwrap();
    assert_eq!(len, 16);
    s.bind(&mut dom, unix("/name")).unwrap();
    s.get_sockname(&mut buf, &mut len).unwrap();
    assert_eq!(len, 7);
    assert_eq!(&buf[..7], b"\x01\x00/name");
}

#[test]
fn memory_sizes() {
    assert_eq!(parse_memory_size("128MB"), Ok(128 * 1024 * 1024));
    assert_eq!(parse_memory_size(" 8 KB "), Ok(8192));
    assert_eq!(parse_memory_size("3B"), Ok(3));
    assert_eq!(parse_memory_size("+2GB"), Ok(2 * 1024 * 1024 * 1024));
    assert_eq!(parse_memory_size("1TB"), Ok(1 << 40));
    assert_eq!(parse_memory_size("12"), Err(Errno::EINVAL));
    assert_eq!(parse_memory_size("MB"), Err(Errno::EINVAL));
    assert_eq!(parse_memory_size("x1MB"), Err(Errno::EINVAL));
    assert_eq!(parse_memory_size("99999999999999999999B"), Err(Errno::EINVAL));
    assert_eq!(parse_memory_size("17179869184GB"), Err(Errno::EINVAL));
}

#[test]
fn macs() {
    let text = "00-11-22-33-44-55-66-77-88-99-aa-bb-cc-dd-ee-FF";
    let mac = parse_mac(text).unwrap();
    assert_eq!(mac, [0x00, 0x11, 0x22, 0x33, 0x44, 0x55, 0x66, 0x77, 0x88, 0x99, 0xaa, 0xbb, 0xcc, 0xdd, 0xee, 0xff]);
    assert_eq!(parse_mac("00-11").err(), Some(Errno::EINVAL));
    assert_eq!(parse_mac("00-11-22-33-44-55-66-77-88-99-aa-bb-cc-dd-ee-1FF").err(), Some(Errno::EINVAL));
    assert_eq!(parse_mac("00-11-22-33-44-55-66-77-88-99-aa-bb-cc-dd-ee-").err(), Some(Errno::EINVAL));
    assert_eq!(parse_mac("0-1-2-3-4-5-6-7-8-9-a-b-c-d-e-+f").unwrap()[15], 0x0f);
}

#[test]
fn configuration_sections() {
    let limits = ConfigResourceLimits::from_input(&InputConfigResourceLimits { user_space_size: "64MB".to_string() }).unwrap();
    assert_eq!(limits.user_space_size, 64 << 20);
    let defaults = ConfigProcess::from_input(&InputConfigProcess::default()).unwrap();
    assert_eq!((defaults.default_stack_size, defaults.default_heap_size, defaults.default_mmap_size), (8 << 20, 16 << 20, 32 << 20));
    assert_eq!(InputConfigResourceLimits::get_user_space_size(), "128MB");
    let net = ConfigNet::from_input(&InputConfigNet { host_paths: vec!["/h".to_string()] });
    assert_eq!(net.host_paths, vec!["/h".to_string()]);
    let mount = InputConfigMount {
        type_: "hostfs".to_string(),
        target: "/host".to_string(),
        source: Some(".".to_string()),
        options: InputConfigMountOptions::default(),
    };
    let m = ConfigMount::from_input(&mount).unwrap();
    assert_eq!(m.type_, ConfigMountFsType::TYPE_HOSTFS);
    assert_eq!(m.target, "/host");
    let bad = InputConfigMount { type_: "nfs".to_string(), ..mount };
    assert_eq!(ConfigMount::from_input(&bad).err(), Some(Errno::EINVAL));
    let relative = InputConfigMount {
        type_: "sefs".to_string(),
        target: "rel".to_string(),
        source: None,
        options: InputConfigMountOptions::default(),
    };
    assert_eq!(ConfigMount::from_input(&relative).err(), Some(Errno::EINVAL));
    let needs_mac = InputConfigMountOptions { integrity_only: true, mac: None, layers: None, temporary: false };
    assert_eq!(ConfigMountOptions::from_input(&needs_mac).err(), Some(Errno::EINVAL));
    let layered = InputConfigMountOptions {
        integrity_only: false,
        mac: None,
        layers: Some(vec![InputConfigMount {
            type_: "ramfs".to_string(),
            target: "/".to_string(),
            source: None,
            options: InputConfigMountOptions::default(),
        }]),
        temporary: true,
    };
    let o = ConfigMountOptions::from_input(&layered).unwrap();
    assert_eq!(o.layers.as_ref().unwrap().len(), 1);
    assert!(o.temporary);
}

#[test]
fn errno_numbers_and_host_returns() {
    assert_eq!(Errno::from_code(11), Errno::EAGAIN);
    assert_eq!(Errno::from_code(4), Errno::Other(4));
    assert_eq!(Errno::ECONNREFUSED.code(), 111);
    assert_eq!(host_ret(-98), Err(Errno::EADDRINUSE));
    assert_eq!(host_ret(12), Ok(12));
    assert_eq!(SocketType::try_from(5), Ok(SocketType::SOCK_SEQPACKET));
    assert_eq!(SocketType::try_from(7), Err(Errno::EINVAL));
    assert_eq!(ProtocolFamily::try_from(10), Ok(ProtocolFamily::PF_INET6));
    assert_eq!(ProtocolFamily::try_from(46), Err(Errno::EINVAL));
    assert_eq!(ProtocolFamily::PF_MAX.as_u16(), 45);
}

#[test]
fn host_requests() {
    let sock = SocketFile::new(7).unwrap();
    assert_eq!(sock.host_fd(), 7);
    assert_eq!(SocketFile::new(-9).err(), Some(Errno::EBADF));
    match sock.connect(None) {
        HostCall::Connect { fd, addr } => {
            assert_eq!(fd, 7);
            assert_eq!(addr, vec![0u8; 16]);
        },
        _ => panic!("not a connect"),
    }
    match sock.sendmsg(&vec![b"ab".to_vec(), b"cde".to_vec()], None, None, 0) {
        HostCall::SendMsg { data, lens, .. } => {
            assert_eq!(data, b"abcde".to_vec());
            assert_eq!(lens, vec![2, 3]);
        },
        _ => panic!("not a sendmsg"),
    }
    match sock.send(b"hey", 0) {
        HostCall::SendTo { buf, to, .. } => {
            assert_eq!(buf, b"hey".to_vec());
            assert!(to.is_none());
        },
        _ => panic!("not a send"),
    }
    let mut addr = Some(vec![0u8; 4]);
    let (acc, n) = SocketFile::accepted(9, &[1, 0, b'/', b'z', b'q'], 5, &mut addr).unwrap();
    assert_eq!((acc.host_fd(), n), (9, 5));
    assert_eq!(addr.unwrap(), vec![1, 0, b'/', b'z']);
}

#[test]
fn router_sends_host_paths_to_the_host() {
    let mut dom = UnixDomain::new();
    let policy = HostPathPolicy::new(&vec!["/run/host.sock".to_string()]).unwrap();
    let mut s = UnixSocket::new(SocketType::SOCK_STREAM, 0, 0, &policy, Some(42)).unwrap();
    match s.bind(&mut dom, &policy, unix("/run/host.sock")) {
        Step::Host(HostCall::Bind { fd, addr }) => {
            assert_eq!(fd, 42);
            assert_eq!(addr[..2], [1, 0]);
        },
        _ => panic!("expected a host bind"),
    }
    assert_eq!(s.host_bound(0), Ok(()));
    assert_eq!(s.source, libos_unix::router::Source::Host);
    match s.listen(&mut dom, &policy, 3) {
        Step::Host(HostCall::Listen { fd: 42, backlog: 3 }) => {},
        _ => panic!("expected a host listen"),
    }
    // With the source unknown, a read that fails in the enclave goes to the host.
    let t = UnixSocket::new(SocketType::SOCK_STREAM, 0, 0, &policy, Some(43)).unwrap();
    let mut buf = [0u8; 8];
    match t.read(&mut dom, &policy, &mut buf) {
        Step::Host(HostCall::RecvFrom { fd: 43, len: 8, .. }) => {},
        _ => panic!("expected a host read"),
    }
    assert_eq!(UnixSocket::new(SocketType::SOCK_STREAM, 0, 7, &policy, Some(1)).err(), Some(Errno::EPROTONOSUPPORT));
    assert_eq!(
        UnixSocket::new(SocketType::SOCK_DGRAM, 0, 0, &HostPathPolicy::empty(), None).err(),
        Some(Errno::EPROTONOSUPPORT)
    );
}

#[test]
fn poll_writable_with_stale_bytes_is_rdhup_only() {
    let mut ch = Channels::new();
    let (a, b) = EndPoint::new_duplex_channel(&mut ch);
    assert_eq!(EndPoint::write(&mut ch, b, b"zz"), Ok(2));
    // The writer of a's queue is gone, but a can still write.
    let r = ch.ends[a].reader;
    ch.bufs[r].writer_open = false;
    assert_eq!(EndPoint::poll(&ch, a), POLLRDHUP);
}

#[test]
fn enclave_source_never_falls_back_to_the_host() {
    let mut dom = UnixDomain::new();
    let policy = HostPathPolicy::new(&vec!["/run/host.sock".to_string()]).unwrap();
    let mut s = UnixSocket::new(SocketType::SOCK_STREAM, 0, 0, &policy, Some(50)).unwrap();
    match s.bind(&mut dom, &policy, unix("/inside")) {
        Step::Done(r) => assert_eq!(r, Ok(())),
        _ => panic!("expected an enclave bind"),
    }
    let mut buf = [0u8; 4];
    match s.read(&mut dom, &policy, &mut buf) {
        Step::Done(r) => assert_eq!(r, Err(Errno::ENOTCONN)),
        _ => panic!("an enclave socket asked the host"),
    }
    match s.write(&mut dom, &policy, b"secret") {
        Step::Done(r) => assert_eq!(r, Err(Errno::ENOTCONN)),
        _ => panic!("an enclave socket asked the host"),
    }
}
