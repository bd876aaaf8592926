use vstd::prelude::*;

use crate::errno::Errno;

verus! {
/// A protocol family, which for sockets is also the address family.
#[derive(Clone, Copy, Debug, PartialEq, Eq, Structural)]
#[allow(non_camel_case_types)]
pub enum ProtocolFamily {
    PF_UNSPEC,
    PF_LOCAL,
    PF_INET,
    PF_AX25,
    PF_IPX,
    PF_APPLETALK,
    PF_NETROM,
    PF_BRIDGE,
    PF_ATMPVC,
    PF_X25,
    PF_INET6,
    PF_ROSE,
    PF_DECnet,
    PF_NETBEUI,
    PF_SECURITY,
    PF_KEY,
    PF_NETLINK,
    PF_PACKET,
    PF_ASH,
    PF_ECONET,
    PF_ATMSVC,
    PF_RDS,
    PF_SNA,
    PF_IRDA,
    PF_PPPOX,
    PF_WANPIPE,
    PF_LLC,
    PF_IB,
    PF_MPLS,
    PF_CAN,
    PF_TIPC,
    PF_BLUETOOTH,
    PF_IUCV,
    PF_RXRPC,
    PF_ISDN,
    PF_PHONET,
    PF_IEEE802154,
    PF_CAIF,
    PF_ALG,
    PF_NFC,
    PF_VSOCK,
    PF_KCM,
    PF_QIPCRTR,
    PF_SMC,
    PF_XDP,
    PF_MAX,
}

/// The largest number that names a family.
pub const PF_MAX_NUM: u16 = 45;

/// The family with number `n`, for `n <= PF_MAX_NUM`.
pub open spec fn spec_family_of(n: u16) -> ProtocolFamily
    recommends
        n <= PF_MAX_NUM,
{
    if n == 0 {
        ProtocolFamily::PF_UNSPEC
    } else if n == 1 {
        ProtocolFamily::PF_LOCAL
    } else if n == 2 {
        ProtocolFamily::PF_INET
    } else if n == 3 {
        ProtocolFamily::PF_AX25
    } else if n == 4 {
        ProtocolFamily::PF_IPX
    } else if n == 5 {
        ProtocolFamily::PF_APPLETALK
    } else if n == 6 {
        ProtocolFamily::PF_NETROM
    } else if n == 7 {
        ProtocolFamily::PF_BRIDGE
    } else if n == 8 {
        ProtocolFamily::PF_ATMPVC
    } else if n == 9 {
        ProtocolFamily::PF_X25
    } else if n == 10 {
        ProtocolFamily::PF_INET6
    } else if n == 11 {
        ProtocolFamily::PF_ROSE
    } else if n == 12 {
        ProtocolFamily::PF_DECnet
    } else if n == 13 {
        ProtocolFamily::PF_NETBEUI
    } else if n == 14 {
        ProtocolFamily::PF_SECURITY
    } else if n == 15 {
        ProtocolFamily::PF_KEY
    } else if n == 16 {
        ProtocolFamily::PF_NETLINK
    } else if n == 17 {
        ProtocolFamily::PF_PACKET
    } else if n == 18 {
        ProtocolFamily::PF_ASH
    } else if n == 19 {
        ProtocolFamily::PF_ECONET
    } else if n == 20 {
        ProtocolFamily::PF_ATMSVC
    } else if n == 21 {
        ProtocolFamily::PF_RDS
    } else if n == 22 {
        ProtocolFamily::PF_SNA
    } else if n == 23 {
        ProtocolFamily::PF_IRDA
    } else if n == 24 {
        ProtocolFamily::PF_PPPOX
    } else if n == 25 {
        ProtocolFamily::PF_WANPIPE
    } else if n == 26 {
        ProtocolFamily::PF_LLC
    } else if n == 27 {
        ProtocolFamily::PF_IB
    } else if n == 28 {
        ProtocolFamily::PF_MPLS
    } else if n == 29 {
        ProtocolFamily::PF_CAN
    } else if n == 30 {
        ProtocolFamily::PF_TIPC
    } else if n == 31 {
        ProtocolFamily::PF_BLUETOOTH
    } else if n == 32 {
        ProtocolFamily::PF_IUCV
    } else if n == 33 {
        ProtocolFamily::PF_RXRPC
    } else if n == 34 {
        ProtocolFamily::PF_ISDN
    } else if n == 35 {
        ProtocolFamily::PF_PHONET
    } else if n == 36 {
        ProtocolFamily::PF_IEEE802154
    } else if n == 37 {
        ProtocolFamily::PF_CAIF
    } else if n == 38 {
        ProtocolFamily::PF_ALG
    } else if n == 39 {
        ProtocolFamily::PF_NFC
    } else if n == 40 {
        ProtocolFamily::PF_VSOCK
    } else if n == 41 {
        ProtocolFamily::PF_KCM
    } else if n == 42 {
        ProtocolFamily::PF_QIPCRTR
    } else if n == 43 {
        ProtocolFamily::PF_SMC
    } else if n == 44 {
        ProtocolFamily::PF_XDP
    } else {
        ProtocolFamily::PF_MAX
    }
}

/// The number of a family.
pub open spec fn spec_family_num(f: ProtocolFamily) -> u16 {
    match f {
        ProtocolFamily::PF_UNSPEC => 0,
        ProtocolFamily::PF_LOCAL => 1,
        ProtocolFamily::PF_INET => 2,
        ProtocolFamily::PF_AX25 => 3,
        ProtocolFamily::PF_IPX => 4,
        ProtocolFamily::PF_APPLETALK => 5,
        ProtocolFamily::PF_NETROM => 6,
        ProtocolFamily::PF_BRIDGE => 7,
        ProtocolFamily::PF_ATMPVC => 8,
        ProtocolFamily::PF_X25 => 9,
        ProtocolFamily::PF_INET6 => 10,
        ProtocolFamily::PF_ROSE => 11,
        ProtocolFamily::PF_DECnet => 12,
        ProtocolFamily::PF_NETBEUI => 13,
        ProtocolFamily::PF_SECURITY => 14,
        ProtocolFamily::PF_KEY => 15,
        ProtocolFamily::PF_NETLINK => 16,
        ProtocolFamily::PF_PACKET => 17,
        ProtocolFamily::PF_ASH => 18,
        ProtocolFamily::PF_ECONET => 19,
        ProtocolFamily::PF_ATMSVC => 20,
        ProtocolFamily::PF_RDS => 21,
        ProtocolFamily::PF_SNA => 22,
        ProtocolFamily::PF_IRDA => 23,
        ProtocolFamily::PF_PPPOX => 24,
        ProtocolFamily::PF_WANPIPE => 25,
        ProtocolFamily::PF_LLC => 26,
        ProtocolFamily::PF_IB => 27,
        ProtocolFamily::PF_MPLS => 28,
        ProtocolFamily::PF_CAN => 29,
        ProtocolFamily::PF_TIPC => 30,
        ProtocolFamily::PF_BLUETOOTH => 31,
        ProtocolFamily::PF_IUCV => 32,
        ProtocolFamily::PF_RXRPC => 33,
        ProtocolFamily::PF_ISDN => 34,
        ProtocolFamily::PF_PHONET => 35,
        ProtocolFamily::PF_IEEE802154 => 36,
        ProtocolFamily::PF_CAIF => 37,
        ProtocolFamily::PF_ALG => 38,
        ProtocolFamily::PF_NFC => 39,
        ProtocolFamily::PF_VSOCK => 40,
        ProtocolFamily::PF_KCM => 41,
        ProtocolFamily::PF_QIPCRTR => 42,
        ProtocolFamily::PF_SMC => 43,
        ProtocolFamily::PF_XDP => 44,
        ProtocolFamily::PF_MAX => 45,
    }
}

impl ProtocolFamily {
    /// The family with number `pf`; numbers above `PF_MAX` are refused.
    pub fn try_from(pf: u16) -> (r: Result<ProtocolFamily, Errno>)
        ensures
            pf <= PF_MAX_NUM ==> r == Ok::<ProtocolFamily, Errno>(spec_family_of(pf)),
            pf > PF_MAX_NUM ==> r == Err::<ProtocolFamily, Errno>(Errno::EINVAL),
    {
        if pf > PF_MAX_NUM {
            return Err(Errno::EINVAL);
        }
        if pf == 0 {
            Ok(ProtocolFamily::PF_UNSPEC)
        } else if pf == 1 {
            Ok(ProtocolFamily::PF_LOCAL)
        } else if pf == 2 {
            Ok(ProtocolFamily::PF_INET)
        } else if pf == 3 {
            Ok(ProtocolFamily::PF_AX25)
        } else if pf == 4 {
            Ok(ProtocolFamily::PF_IPX)
        } else if pf == 5 {
            Ok(ProtocolFamily::PF_APPLETALK)
        } else if pf == 6 {
            Ok(ProtocolFamily::PF_NETROM)
        } else if pf == 7 {
            Ok(ProtocolFamily::PF_BRIDGE)
        } else if pf == 8 {
            Ok(ProtocolFamily::PF_ATMPVC)
        } else if pf == 9 {
            Ok(ProtocolFamily::PF_X25)
        } else if pf == 10 {
            Ok(ProtocolFamily::PF_INET6)
        } else if pf == 11 {
            Ok(ProtocolFamily::PF_ROSE)
        } else if pf == 12 {
            Ok(ProtocolFamily::PF_DECnet)
        } else if pf == 13 {
            Ok(ProtocolFamily::PF_NETBEUI)
        } else if pf == 14 {
            Ok(ProtocolFamily::PF_SECURITY)
        } else if pf == 15 {
            Ok(ProtocolFamily::PF_KEY)
        } else if pf == 16 {
            Ok(ProtocolFamily::PF_NETLINK)
        } else if pf == 17 {
            Ok(ProtocolFamily::PF_PACKET)
        } else if pf == 18 {
            Ok(ProtocolFamily::PF_ASH)
        } else if pf == 19 {
            Ok(ProtocolFamily::PF_ECONET)
        } else if pf == 20 {
            Ok(ProtocolFamily::PF_ATMSVC)
        } else if pf == 21 {
            Ok(ProtocolFamily::PF_RDS)
        } else if pf == 22 {
            Ok(ProtocolFamily::PF_SNA)
        } else if pf == 23 {
            Ok(ProtocolFamily::PF_IRDA)
        } else if pf == 24 {
            Ok(ProtocolFamily::PF_PPPOX)
        } else if pf == 25 {
            Ok(ProtocolFamily::PF_WANPIPE)
        } else if pf == 26 {
            Ok(ProtocolFamily::PF_LLC)
        } else if pf == 27 {
            Ok(ProtocolFamily::PF_IB)
        } else if pf == 28 {
            Ok(ProtocolFamily::PF_MPLS)
        } else if pf == 29 {
            Ok(ProtocolFamily::PF_CAN)
        } else if pf == 30 {
            Ok(ProtocolFamily::PF_TIPC)
        } else if pf == 31 {
            Ok(ProtocolFamily::PF_BLUETOOTH)
        } else if pf == 32 {
            Ok(ProtocolFamily::PF_IUCV)
        } else if pf == 33 {
            Ok(ProtocolFamily::PF_RXRPC)
        } else if pf == 34 {
            Ok(ProtocolFamily::PF_ISDN)
        } else if pf == 35 {
            Ok(ProtocolFamily::PF_PHONET)
        } else if pf == 36 {
            Ok(ProtocolFamily::PF_IEEE802154)
        } else if pf == 37 {
            Ok(ProtocolFamily::PF_CAIF)
        } else if pf == 38 {
            Ok(ProtocolFamily::PF_ALG)
        } else if pf == 39 {
            Ok(ProtocolFamily::PF_NFC)
        } else if pf == 40 {
            Ok(ProtocolFamily::PF_VSOCK)
        } else if pf == 41 {
            Ok(ProtocolFamily::PF_KCM)
        } else if pf == 42 {
            Ok(ProtocolFamily::PF_QIPCRTR)
        } else if pf == 43 {
            Ok(ProtocolFamily::PF_SMC)
        } else if pf == 44 {
            Ok(ProtocolFamily::PF_XDP)
        } else {
            Ok(ProtocolFamily::PF_MAX)
        }
    }

    /// The number of this family.
    pub fn as_u16(&self) -> (r: u16)
        ensures
            r == spec_family_num(*self),
    {
        match self {
            ProtocolFamily::PF_UNSPEC => 0,
            ProtocolFamily::PF_LOCAL => 1,
            ProtocolFamily::PF_INET => 2,
            ProtocolFamily::PF_AX25 => 3,
            ProtocolFamily::PF_IPX => 4,
            ProtocolFamily::PF_APPLETALK => 5,
            ProtocolFamily::PF_NETROM => 6,
            ProtocolFamily::PF_BRIDGE => 7,
            ProtocolFamily::PF_ATMPVC => 8,
            ProtocolFamily::PF_X25 => 9,
            ProtocolFamily::PF_INET6 => 10,
            ProtocolFamily::PF_ROSE => 11,
            ProtocolFamily::PF_DECnet => 12,
            ProtocolFamily::PF_NETBEUI => 13,
            ProtocolFamily::PF_SECURITY => 14,
            ProtocolFamily::PF_KEY => 15,
            ProtocolFamily::PF_NETLINK => 16,
            ProtocolFamily::PF_PACKET => 17,
            ProtocolFamily::PF_ASH => 18,
            ProtocolFamily::PF_ECONET => 19,
            ProtocolFamily::PF_ATMSVC => 20,
            ProtocolFamily::PF_RDS => 21,
            ProtocolFamily::PF_SNA => 22,
            ProtocolFamily::PF_IRDA => 23,
            ProtocolFamily::PF_PPPOX => 24,
            ProtocolFamily::PF_WANPIPE => 25,
            ProtocolFamily::PF_LLC => 26,
            ProtocolFamily::PF_IB => 27,
            ProtocolFamily::PF_MPLS => 28,
            ProtocolFamily::PF_CAN => 29,
            ProtocolFamily::PF_TIPC => 30,
            ProtocolFamily::PF_BLUETOOTH => 31,
            ProtocolFamily::PF_IUCV => 32,
            ProtocolFamily::PF_RXRPC => 33,
            ProtocolFamily::PF_ISDN => 34,
            ProtocolFamily::PF_PHONET => 35,
            ProtocolFamily::PF_IEEE802154 => 36,
            ProtocolFamily::PF_CAIF => 37,
            ProtocolFamily::PF_ALG => 38,
            ProtocolFamily::PF_NFC => 39,
            ProtocolFamily::PF_VSOCK => 40,
            ProtocolFamily::PF_KCM => 41,
            ProtocolFamily::PF_QIPCRTR => 42,
            ProtocolFamily::PF_SMC => 43,
            ProtocolFamily::PF_XDP => 44,
            ProtocolFamily::PF_MAX => 45,
        }
    }
}

} // verus!
