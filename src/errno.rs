use vstd::prelude::*;

verus! {

/// The error numbers that the socket layer reports, after Linux.
#[derive(Clone, Copy, Debug, PartialEq, Eq, Structural)]
#[allow(non_camel_case_types)]
pub enum Errno {
    EBADF,
    EAGAIN,
    EINVAL,
    ESPIPE,
    EPIPE,
    ENOMEM,
    ENAMETOOLONG,
    EPROTONOSUPPORT,
    EOPNOTSUPP,
    EAFNOSUPPORT,
    EADDRINUSE,
    ENOTCONN,
    ECONNREFUSED,
    /// Any other number, as the host reported it.
    Other(i32),
}

/// The Linux number of each named error.
pub open spec fn spec_code(e: Errno) -> i32 {
    match e {
        Errno::EBADF => 9,
        Errno::EAGAIN => 11,
        Errno::EINVAL => 22,
        Errno::ESPIPE => 29,
        Errno::EPIPE => 32,
        Errno::ENOMEM => 12,
        Errno::ENAMETOOLONG => 36,
        Errno::EPROTONOSUPPORT => 93,
        Errno::EOPNOTSUPP => 95,
        Errno::EAFNOSUPPORT => 97,
        Errno::EADDRINUSE => 98,
        Errno::ENOTCONN => 107,
        Errno::ECONNREFUSED => 111,
        Errno::Other(n) => n,
    }
}

/// Whether `n` is the number of one of the named variants.
pub open spec fn is_named_code(n: i32) -> bool {
    n == 9 || n == 11 || n == 12 || n == 22 || n == 29 || n == 32 || n == 36 || n == 93 || n == 95 || n == 97
        || n == 98 || n == 107 || n == 111
}

impl Errno {
    /// The error with Linux number `n`, as `from_code` gives it.
    pub open spec fn from_code_spec(n: i32) -> Errno {
        if n == 9 {
            Errno::EBADF
        } else if n == 11 {
            Errno::EAGAIN
        } else if n == 12 {
            Errno::ENOMEM
        } else if n == 22 {
            Errno::EINVAL
        } else if n == 29 {
            Errno::ESPIPE
        } else if n == 32 {
            Errno::EPIPE
        } else if n == 36 {
            Errno::ENAMETOOLONG
        } else if n == 93 {
            Errno::EPROTONOSUPPORT
        } else if n == 95 {
            Errno::EOPNOTSUPP
        } else if n == 97 {
            Errno::EAFNOSUPPORT
        } else if n == 98 {
            Errno::EADDRINUSE
        } else if n == 107 {
            Errno::ENOTCONN
        } else if n == 111 {
            Errno::ECONNREFUSED
        } else {
            Errno::Other(n)
        }
    }

    /// The Linux number of this error.
    pub fn code(&self) -> (r: i32)
        ensures
            r == spec_code(*self),
    {
        match self {
            Errno::EBADF => 9,
            Errno::EAGAIN => 11,
            Errno::EINVAL => 22,
            Errno::ESPIPE => 29,
            Errno::EPIPE => 32,
            Errno::ENOMEM => 12,
            Errno::ENAMETOOLONG => 36,
            Errno::EPROTONOSUPPORT => 93,
            Errno::EOPNOTSUPP => 95,
            Errno::EAFNOSUPPORT => 97,
            Errno::EADDRINUSE => 98,
            Errno::ENOTCONN => 107,
            Errno::ECONNREFUSED => 111,
            Errno::Other(n) => *n,
        }
    }

    /// The error with Linux number `n`: a named variant where there is one.
    pub fn from_code(n: i32) -> (r: Errno)
        ensures
            spec_code(r) == n,
            r is Other <==> !is_named_code(n),
            r == Errno::from_code_spec(n),
    {
        if n == 9 {
            Errno::EBADF
        } else if n == 11 {
            Errno::EAGAIN
        } else if n == 12 {
            Errno::ENOMEM
        } else if n == 22 {
            Errno::EINVAL
        } else if n == 29 {
            Errno::ESPIPE
        } else if n == 32 {
            Errno::EPIPE
        } else if n == 36 {
            Errno::ENAMETOOLONG
        } else if n == 93 {
            Errno::EPROTONOSUPPORT
        } else if n == 95 {
            Errno::EOPNOTSUPP
        } else if n == 97 {
            Errno::EAFNOSUPPORT
        } else if n == 98 {
            Errno::EADDRINUSE
        } else if n == 107 {
            Errno::ENOTCONN
        } else if n == 111 {
            Errno::ECONNREFUSED
        } else {
            Errno::Other(n)
        }
    }
}

} // verus!
