use vstd::prelude::*;

verus! {

/// Why an operation failed.
#[derive(Clone, Copy, Debug, PartialEq, Eq, Structural)]
pub enum Failure {
    /// Reading from or writing to the connection failed.
    Io,
    /// The response broke the protocol: an unknown status, too few fields, or a
    /// field that does not hold a number of the expected range.
    Malformed,
    /// The server refused the operation with this error number.
    Server(i32),
}

/// The POSIX error number for an I/O error on Linux.
pub open spec fn errno_io() -> i32 {
    5
}

/// The POSIX error number for an invalid argument on Linux.
pub open spec fn errno_invalid() -> i32 {
    22
}

/// The POSIX error number that reports a failure to the caller.
pub open spec fn errno_of(f: Failure) -> i32 {
    match f {
        Failure::Io => errno_io(),
        Failure::Malformed => errno_invalid(),
        Failure::Server(code) => code,
    }
}

/// Relies on libc::EIO: the error number of an I/O error, 5 on Linux, the
/// target this client is built for (other targets of libc give other numbers).
#[verifier::external_body]
fn eio() -> (r: i32)
    ensures
        r == errno_io(),
{
    libc::EIO
}

/// Relies on libc::EINVAL: the error number of an invalid argument, 22 on
/// Linux, the target this client is built for.
#[verifier::external_body]
fn einval() -> (r: i32)
    ensures
        r == errno_invalid(),
{
    libc::EINVAL
}

impl Failure {
    /// The error number to report: the server's own code is passed on unchanged.
    pub fn errno(&self) -> (r: i32)
        ensures
            r == errno_of(*self),
    {
        match self {
            Failure::Io => eio(),
            Failure::Malformed => einval(),
            Failure::Server(code) => *code,
        }
    }
}

} // verus!
