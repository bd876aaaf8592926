use vstd::prelude::*;
use vstd::string::StringSliceAdditionalSpecFns;
use vstd::utf8::*;

use crate::address::SockAddr;
use crate::errno::Errno;
use crate::protocol_family::ProtocolFamily;

verus! {

/// The longest path that a Unix address holds, in bytes.
pub const MAX_PATH_LEN: usize = 108;

/// Relies on `std::str::from_utf8`: it accepts exactly the valid UTF-8
/// sequences and hands back a string with the same bytes.
#[verifier::external_body]
pub(crate) fn utf8_str(b: &[u8]) -> (r: Option<&str>)
    ensures
        r is Some <==> valid_utf8(b@),
        r matches Some(s) ==> s.spec_bytes() == b@,
{
    std::str::from_utf8(b).ok()
}

/// An address of the local (Unix) family: a fixed buffer of path bytes and the
/// length of the path in it.
#[derive(Clone, Copy, Debug)]
pub struct UnixAddr {
    sun_family: ProtocolFamily,
    sun_path: [u8; 108],
    path_len: u16,
}

/// `p` followed by zeros up to the size of the path buffer.
pub open spec fn padded_path(p: Seq<u8>) -> Seq<u8> {
    p + Seq::new((MAX_PATH_LEN - p.len()) as nat, |i: int| 0u8)
}

impl UnixAddr {
    #[verifier::type_invariant]
    closed spec fn inv(self) -> bool {
        &&& self.path_len <= MAX_PATH_LEN
        &&& self.sun_family == ProtocolFamily::PF_LOCAL
        &&& self.sun_path@ == padded_path(self.sun_path@.subrange(0, self.path_len as int))
        &&& valid_utf8(self.sun_path@.subrange(0, self.path_len as int))
    }

    /// The family tag (always `PF_LOCAL`).
    pub closed spec fn spec_family(self) -> ProtocolFamily {
        self.sun_family
    }

    /// The whole path buffer, 108 bytes.
    pub closed spec fn spec_buf(self) -> Seq<u8> {
        self.sun_path@
    }

    /// The bytes of the path.
    pub closed spec fn spec_path(self) -> Seq<u8> {
        self.sun_path@.subrange(0, self.path_len as int)
    }

    /// The path, as characters.
    pub open spec fn spec_path_str(self) -> Seq<char> {
        decode_utf8(self.spec_path())
    }

    /// The bytes that a caller's buffer receives: the family tag, then the path.
    pub open spec fn spec_bytes(self) -> Seq<u8> {
        seq![1u8, 0u8] + self.spec_path()
    }

    /// The address of `path`; a path over 108 bytes is refused.
    pub fn new(path: &str) -> (r: Result<UnixAddr, Errno>)
        ensures
            path.spec_bytes().len() > MAX_PATH_LEN ==> r == Err::<UnixAddr, Errno>(
                Errno::ENAMETOOLONG,
            ),
            path.spec_bytes().len() <= MAX_PATH_LEN ==> r is Ok,
            r matches Ok(a) ==> a.spec_path() == path.spec_bytes() && a.spec_buf() == padded_path(
                path.spec_bytes(),
            ) && a.spec_family() == ProtocolFamily::PF_LOCAL,
    {
        let bytes = path.as_bytes();
        let path_len = bytes.len();
        if path_len > MAX_PATH_LEN {
            return Err(Errno::ENAMETOOLONG);
        }
        let mut sun_path = [0u8; 108];
        let mut i: usize = 0;
        while i < path_len
            invariant
                path_len == bytes@.len() <= MAX_PATH_LEN,
                i <= path_len,
                sun_path@.len() == MAX_PATH_LEN,
                forall|j: int| 0 <= j < i ==> sun_path@[j] == bytes@[j],
                forall|j: int| i <= j < MAX_PATH_LEN ==> sun_path@[j] == 0u8,
            decreases path_len - i,
        {
            sun_path[i] = bytes[i];
            i = i + 1;
        }
        proof {
            encode_utf8_valid_utf8(path@);
            assert(sun_path@.subrange(0, path_len as int) =~= bytes@);
            assert(sun_path@ =~= padded_path(bytes@));
        }
        Ok(UnixAddr { sun_family: ProtocolFamily::PF_LOCAL, sun_path, path_len: path_len as u16 })
    }

    /// The path, as text.
    pub fn path(&self) -> (r: &str)
        ensures
            r.spec_bytes() == self.spec_path(),
            r@ == self.spec_path_str(),
            r.spec_bytes().len() <= MAX_PATH_LEN,
    {
        proof {
            use_type_invariant(self);
        }
        let len = self.path_len as usize;
        let bytes = &self.sun_path[0..len];
        let r = match utf8_str(bytes) {
            Some(p) => p,
            None => "",
        };
        proof {
            encode_utf8_decode_utf8(r@);
        }
        r
    }

    /// The length of the family tag and the path together.
    pub fn len(&self) -> (r: usize)
        ensures
            r == self.spec_path().len() + 2,
    {
        proof {
            use_type_invariant(self);
        }
        self.path_len as usize + 2
    }

    /// The Unix address that `addr` holds; another family is refused.
    pub fn try_from(addr: &SockAddr) -> (r: Result<UnixAddr, Errno>)
        ensures
            match *addr {
                SockAddr::UnixSocket(a) => r == Ok::<UnixAddr, Errno>(a),
                _ => r == Err::<UnixAddr, Errno>(Errno::EINVAL),
            },
    {
        match addr {
            SockAddr::UnixSocket(a) => Ok(*a),
            _ => Err(Errno::EINVAL),
        }
    }

    /// The bytes that a caller's buffer receives for this address.
    pub fn to_bytes(&self) -> (r: Vec<u8>)
        ensures
            r@ == self.spec_bytes(),
    {
        proof {
            use_type_invariant(self);
        }
        let mut out: Vec<u8> = Vec::new();
        out.push(1u8);
        out.push(0u8);
        let len = self.path_len as usize;
        let mut i: usize = 0;
        while i < len
            invariant
                len == self.path_len <= MAX_PATH_LEN,
                self.sun_path@.len() == MAX_PATH_LEN,
                i <= len,
                out@ == seq![1u8, 0u8] + self.sun_path@.subrange(0, i as int),
            decreases len - i,
        {
            out.push(self.sun_path[i]);
            i = i + 1;
            proof {
                assert(self.sun_path@.subrange(0, i as int) =~= self.sun_path@.subrange(
                    0,
                    i - 1,
                ).push(self.sun_path@[i - 1]));
            }
        }
        out
    }
}

impl PartialEq for UnixAddr {
    /// Equal families and equal path buffers, all 108 bytes of them.
    fn eq(&self, other: &UnixAddr) -> (r: bool) {
        if self.sun_family != other.sun_family {
            return false;
        }
        let mut i: usize = 0;
        while i < MAX_PATH_LEN
            invariant
                self.sun_path@.len() == MAX_PATH_LEN,
                other.sun_path@.len() == MAX_PATH_LEN,
                i <= MAX_PATH_LEN,
                forall|j: int| 0 <= j < i ==> self.sun_path@[j] == other.sun_path@[j],
            decreases MAX_PATH_LEN - i,
        {
            if self.sun_path[i] != other.sun_path[i] {
                return false;
            }
            i = i + 1;
        }
        proof {
            assert(self.sun_path@ =~= other.sun_path@);
        }
        true
    }
}

impl vstd::std_specs::cmp::PartialEqSpecImpl for UnixAddr {
    open spec fn obeys_eq_spec() -> bool {
        true
    }

    open spec fn eq_spec(&self, other: &UnixAddr) -> bool {
        self.spec_family() == other.spec_family() && self.spec_buf() == other.spec_buf()
    }
}

impl Eq for UnixAddr {
}

} // verus!
