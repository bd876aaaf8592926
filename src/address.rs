use vstd::prelude::*;
use vstd::string::StringSliceAdditionalSpecFns;
use vstd::utf8::*;

use crate::errno::Errno;
use crate::protocol_family::ProtocolFamily;
use crate::ring_buf::min_int;
use crate::unix_addr::{padded_path, utf8_str, UnixAddr, MAX_PATH_LEN};

verus! {

/// The size of an IPv4 socket address.
pub const IPV4_ADDR_LEN: usize = 16;

/// The size of an IPv6 socket address, scope id included.
pub const IPV6_ADDR_LEN: usize = 28;

/// An IPv4 socket address, as the bytes of `sockaddr_in`.
#[derive(Clone, Copy, Debug)]
pub struct IPv4SockAddr {
    pub raw: [u8; 16],
}

/// An IPv6 socket address, as the bytes of `sockaddr_in6`.
#[derive(Clone, Copy, Debug)]
pub struct IPv6SockAddr {
    pub raw: [u8; 28],
}

impl IPv4SockAddr {
    /// The bytes of the address.
    pub open spec fn spec_bytes(self) -> Seq<u8> {
        self.raw@
    }
}

impl IPv6SockAddr {
    /// The bytes of the address.
    pub open spec fn spec_bytes(self) -> Seq<u8> {
        self.raw@
    }
}

/// A socket address of one of the supported families.
#[derive(Clone, Copy, Debug)]
pub enum SockAddr {
    UnixSocket(UnixAddr),
    IPv4(IPv4SockAddr),
    IPv6(IPv6SockAddr),
}

/// The 16-bit family number at the head of a raw address, little-endian.
pub open spec fn raw_family(raw: Seq<u8>) -> int {
    raw[0] as int + 256 * (raw[1] as int)
}

/// Two addresses are equal: the same family, and under the equality of that
/// family's addresses.
pub open spec fn sockaddr_eq(a: SockAddr, b: SockAddr) -> bool {
    match (a, b) {
        (SockAddr::UnixSocket(x), SockAddr::UnixSocket(y)) => x.spec_family() == y.spec_family()
            && x.spec_buf() == y.spec_buf(),
        (SockAddr::IPv4(x), SockAddr::IPv4(y)) => x.raw@ == y.raw@,
        (SockAddr::IPv6(x), SockAddr::IPv6(y)) => x.raw@ == y.raw@,
        _ => false,
    }
}

/// What parsing the raw address `raw` yields, by the families' rules.
pub open spec fn parse_outcome(raw: Seq<u8>) -> ParseOutcome {
    if raw.len() <= 2 {
        ParseOutcome::Fails(Errno::EINVAL)
    } else if raw_family(raw) > 45 {
        ParseOutcome::Fails(Errno::EINVAL)
    } else if raw_family(raw) == 0 {
        ParseOutcome::NoAddress
    } else if raw_family(raw) == 1 {
        let path = raw.subrange(2, raw.len() as int);
        if !valid_utf8(path) {
            ParseOutcome::Fails(Errno::EINVAL)
        } else if path.len() > MAX_PATH_LEN {
            ParseOutcome::Fails(Errno::ENAMETOOLONG)
        } else {
            ParseOutcome::Unix(path)
        }
    } else if raw_family(raw) == 2 {
        if raw.len() < IPV4_ADDR_LEN {
            ParseOutcome::Fails(Errno::EINVAL)
        } else {
            ParseOutcome::IPv4(raw.subrange(0, IPV4_ADDR_LEN as int))
        }
    } else if raw_family(raw) == 10 {
        if raw.len() < IPV6_ADDR_LEN - 4 {
            ParseOutcome::Fails(Errno::EINVAL)
        } else if raw.len() >= IPV6_ADDR_LEN {
            ParseOutcome::IPv6(raw.subrange(0, IPV6_ADDR_LEN as int))
        } else {
            ParseOutcome::IPv6(raw.subrange(0, IPV6_ADDR_LEN - 4) + seq![0u8, 0u8, 0u8, 0u8])
        }
    } else {
        ParseOutcome::Fails(Errno::EINVAL)
    }
}

/// The outcomes of parsing a raw address, described by its bytes.
pub ghost enum ParseOutcome {
    Fails(Errno),
    NoAddress,
    Unix(Seq<u8>),
    IPv4(Seq<u8>),
    IPv6(Seq<u8>),
}

/// Whether `r` is what parsing gives for outcome `o`.
pub open spec fn parse_result_matches(r: Result<Option<SockAddr>, Errno>, o: ParseOutcome) -> bool {
    match o {
        ParseOutcome::Fails(e) => r == Err::<Option<SockAddr>, Errno>(e),
        ParseOutcome::NoAddress => r == Ok::<Option<SockAddr>, Errno>(None),
        ParseOutcome::Unix(p) => r matches Ok(Some(SockAddr::UnixSocket(a))) && a.spec_path() == p
            && a.spec_buf() == crate::unix_addr::padded_path(p) && a.spec_family()
            == ProtocolFamily::PF_LOCAL,
        ParseOutcome::IPv4(b) => r matches Ok(Some(SockAddr::IPv4(a))) && a.raw@ == b,
        ParseOutcome::IPv6(b) => r matches Ok(Some(SockAddr::IPv6(a))) && a.raw@ == b,
    }
}

/// A copy of the first 16 bytes of `raw`.
fn copy_array16(raw: &[u8]) -> (r: [u8; 16])
    requires
        raw@.len() >= 16,
    ensures
        r@ == raw@.subrange(0, 16),
{
    let mut out = [0u8; 16];
    let mut i: usize = 0;
    while i < 16
        invariant
            raw@.len() >= 16,
            i <= 16,
            out@.len() == 16,
            forall|j: int| 0 <= j < i ==> out@[j] == raw@[j],
        decreases 16 - i,
    {
        out[i] = raw[i];
        i = i + 1;
    }
    proof {
        assert(out@ =~= raw@.subrange(0, 16));
    }
    out
}

/// The first `n` bytes of `raw`, then zeros up to 28 bytes.
fn copy_array28(raw: &[u8], n: usize) -> (r: [u8; 28])
    requires
        n <= 28,
        raw@.len() >= n,
    ensures
        r@ == raw@.subrange(0, n as int) + Seq::new((28 - n) as nat, |i: int| 0u8),
{
    let mut out = [0u8; 28];
    let mut i: usize = 0;
    while i < n
        invariant
            n <= 28,
            raw@.len() >= n,
            i <= n,
            out@.len() == 28,
            forall|j: int| 0 <= j < i ==> out@[j] == raw@[j],
            forall|j: int| i <= j < 28 ==> out@[j] == 0u8,
        decreases n - i,
    {
        out[i] = raw[i];
        i = i + 1;
    }
    proof {
        assert(out@ =~= raw@.subrange(0, n as int) + Seq::new((28 - n) as nat, |i: int| 0u8));
    }
    out
}

impl SockAddr {
    /// Parses an address that a caller placed in memory that is not trusted;
    /// `raw` holds exactly the `addr_len` bytes the caller named.
    pub fn try_from_raw(raw: &[u8]) -> (r: Result<Option<SockAddr>, Errno>)
        ensures
            parse_result_matches(r, parse_outcome(raw@)),
    {
        let len = raw.len();
        if len <= 2 {
            return Err(Errno::EINVAL);
        }
        let family: u16 = raw[0] as u16 + 256 * (raw[1] as u16);
        if family > 45 {
            return Err(Errno::EINVAL);
        }
        if family == 0 {
            Ok(None)
        } else if family == 1 {
            let path_bytes = &raw[2..len];
            proof {
                assert(path_bytes@ =~= raw@.subrange(2, raw@.len() as int));
            }
            match utf8_str(path_bytes) {
                None => Err(Errno::EINVAL),
                Some(path) => {
                    match UnixAddr::new(path) {
                        Ok(a) => Ok(Some(SockAddr::UnixSocket(a))),
                        Err(e) => Err(e),
                    }
                },
            }
        } else if family == 2 {
            if len < IPV4_ADDR_LEN {
                return Err(Errno::EINVAL);
            }
            Ok(Some(SockAddr::IPv4(IPv4SockAddr { raw: copy_array16(raw) })))
        } else if family == 10 {
            if len < IPV6_ADDR_LEN - 4 {
                return Err(Errno::EINVAL);
            }
            if len >= IPV6_ADDR_LEN {
                let a = copy_array28(raw, IPV6_ADDR_LEN);
                proof {
                    assert(a@ =~= raw@.subrange(0, IPV6_ADDR_LEN as int));
                }
                Ok(Some(SockAddr::IPv6(IPv6SockAddr { raw: a })))
            } else {
                let a = copy_array28(raw, IPV6_ADDR_LEN - 4);
                proof {
                    assert(a@ =~= raw@.subrange(0, IPV6_ADDR_LEN - 4) + seq![0u8, 0u8, 0u8, 0u8]);
                }
                Ok(Some(SockAddr::IPv6(IPv6SockAddr { raw: a })))
            }
        } else {
            Err(Errno::EINVAL)
        }
    }

    /// The bytes that a caller's buffer receives for this address.
    pub open spec fn spec_bytes(self) -> Seq<u8> {
        match self {
            SockAddr::UnixSocket(a) => a.spec_bytes(),
            SockAddr::IPv4(a) => a.raw@,
            SockAddr::IPv6(a) => a.raw@,
        }
    }

    /// The bytes of this address, as `to_bytes` of each family gives them.
    pub fn to_bytes(&self) -> (r: Vec<u8>)
        ensures
            r@ == self.spec_bytes(),
    {
        match self {
            SockAddr::UnixSocket(a) => a.to_bytes(),
            SockAddr::IPv4(a) => slice_to_vec(a.raw.as_slice()),
            SockAddr::IPv6(a) => slice_to_vec(a.raw.as_slice()),
        }
    }

    /// Writes as much of this address as `dst` holds into its head, and
    /// returns the full length of the address.
    pub fn copy_to_slice(&self, dst: &mut [u8]) -> (r: usize)
        ensures
            r == self.spec_bytes().len(),
            final(dst)@.len() == old(dst)@.len(),
            final(dst)@ == copied_into(self.spec_bytes(), old(dst)@),
    {
        let bytes = self.to_bytes();
        copy_into(bytes.as_slice(), dst);
        bytes.len()
    }
}

/// Writes as much of `src` as fits over the head of `dst`.
pub fn copy_into(src: &[u8], dst: &mut [u8])
    ensures
        final(dst)@ == copied_into(src@, old(dst)@),
{
    let n = if src.len() < dst.len() {
        src.len()
    } else {
        dst.len()
    };
    let mut i: usize = 0;
    while i < n
        invariant
            n <= src@.len(),
            n <= dst@.len(),
            dst@.len() == old(dst)@.len(),
            n == min_int(src@.len() as int, old(dst)@.len() as int),
            i <= n,
            forall|j: int| 0 <= j < i ==> dst@[j] == src@[j],
            forall|j: int| i <= j < dst@.len() ==> dst@[j] == old(dst)@[j],
        decreases n - i,
    {
        dst[i] = src[i];
        i = i + 1;
    }
    proof {
        assert(dst@ =~= copied_into(src@, old(dst)@));
    }
}

/// `dst` with as much of `src` as fits written over its head.
pub open spec fn copied_into(src: Seq<u8>, dst: Seq<u8>) -> Seq<u8> {
    let n = if src.len() < dst.len() {
        src.len()
    } else {
        dst.len()
    };
    src.subrange(0, n as int) + dst.subrange(n as int, dst.len() as int)
}

/// A vector with the bytes of `s`.
pub(crate) fn slice_to_vec(s: &[u8]) -> (r: Vec<u8>)
    ensures
        r@ == s@,
{
    let mut out: Vec<u8> = Vec::new();
    let mut i: usize = 0;
    while i < s.len()
        invariant
            i <= s@.len(),
            out@ == s@.subrange(0, i as int),
        decreases s@.len() - i,
    {
        out.push(s[i]);
        i = i + 1;
        proof {
            assert(out@ =~= s@.subrange(0, i as int));
        }
    }
    proof {
        assert(out@ =~= s@);
    }
    out
}

impl PartialEq for IPv4SockAddr {
    fn eq(&self, other: &IPv4SockAddr) -> (r: bool) {
        bytes_equal(self.raw.as_slice(), other.raw.as_slice())
    }
}

impl vstd::std_specs::cmp::PartialEqSpecImpl for IPv4SockAddr {
    open spec fn obeys_eq_spec() -> bool {
        true
    }

    open spec fn eq_spec(&self, other: &IPv4SockAddr) -> bool {
        self.raw@ == other.raw@
    }
}

impl Eq for IPv4SockAddr {
}

impl PartialEq for IPv6SockAddr {
    fn eq(&self, other: &IPv6SockAddr) -> (r: bool) {
        bytes_equal(self.raw.as_slice(), other.raw.as_slice())
    }
}

impl vstd::std_specs::cmp::PartialEqSpecImpl for IPv6SockAddr {
    open spec fn obeys_eq_spec() -> bool {
        true
    }

    open spec fn eq_spec(&self, other: &IPv6SockAddr) -> bool {
        self.raw@ == other.raw@
    }
}

impl Eq for IPv6SockAddr {
}

impl PartialEq for SockAddr {
    fn eq(&self, other: &SockAddr) -> (r: bool) {
        match (self, other) {
            (SockAddr::UnixSocket(x), SockAddr::UnixSocket(y)) => x == y,
            (SockAddr::IPv4(x), SockAddr::IPv4(y)) => x == y,
            (SockAddr::IPv6(x), SockAddr::IPv6(y)) => x == y,
            _ => false,
        }
    }
}

impl vstd::std_specs::cmp::PartialEqSpecImpl for SockAddr {
    open spec fn obeys_eq_spec() -> bool {
        true
    }

    open spec fn eq_spec(&self, other: &SockAddr) -> bool {
        sockaddr_eq(*self, *other)
    }
}

impl Eq for SockAddr {
}

/// Whether two byte slices are equal.
fn bytes_equal(a: &[u8], b: &[u8]) -> (r: bool)
    ensures
        r == (a@ == b@),
{
    if a.len() != b.len() {
        return false;
    }
    let mut i: usize = 0;
    while i < a.len()
        invariant
            a@.len() == b@.len(),
            i <= a@.len(),
            forall|j: int| 0 <= j < i ==> a@[j] == b@[j],
        decreases a@.len() - i,
    {
        if a[i] != b[i] {
            return false;
        }
        i = i + 1;
    }
    proof {
        assert(a@ =~= b@);
    }
    true
}

/// `a` is a Unix address whose path is `p`.
pub open spec fn is_unix_with_path(a: SockAddr, p: Seq<u8>) -> bool {
    match a {
        SockAddr::UnixSocket(u) => u.spec_path() == p,
        _ => false,
    }
}

/// Serialising the Unix address of a valid, non-empty path `p` and parsing the
/// bytes again gives back the same address: equal to it, with the same path.
/// (The empty path serialises to the bare family tag, which parsing refuses
/// as too short.)
pub proof fn lemma_unix_addr_round_trip(p: &str, a: UnixAddr, r: Result<Option<SockAddr>, Errno>)
    requires
        0 < p.spec_bytes().len() <= MAX_PATH_LEN,
        a.spec_path() == p.spec_bytes(),
        a.spec_buf() == padded_path(p.spec_bytes()),
        a.spec_family() == ProtocolFamily::PF_LOCAL,
        parse_result_matches(r, parse_outcome(SockAddr::UnixSocket(a).spec_bytes())),
    ensures
        r matches Ok(Some(b)) && sockaddr_eq(b, SockAddr::UnixSocket(a)) && is_unix_with_path(
            b,
            a.spec_path(),
        ),
{
    let bytes = SockAddr::UnixSocket(a).spec_bytes();
    vstd::utf8::encode_utf8_valid_utf8(p@);
    assert(bytes.subrange(2, bytes.len() as int) =~= a.spec_path());
    assert(bytes[0] == 1u8 && bytes[1] == 0u8);
    assert(raw_family(bytes) == 1);
}

} // verus!
