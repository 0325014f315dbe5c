use nix::errno::Errno;
use vstd::prelude::*;

verus! {

/// `nix::errno::Errno`, carried as an opaque value inside [`CamelliaError`].
#[verifier::external_type_specification]
#[verifier::external_body]
pub struct ExErrno(Errno);

/// The `Errno` that `Errno::from_raw` gives for a raw error number.
pub uninterp spec fn raw_errno(code: i32) -> Errno;

/// The decimal digit for `d < 10`.
pub open spec fn digit_char(d: nat) -> char {
    (0x30 + d) as char
}

/// A number written in decimal, as `format!("{}", n)` writes it.
pub open spec fn decimal(n: nat) -> Seq<char>
    decreases n,
{
    if n < 10 {
        seq![digit_char(n)]
    } else {
        decimal(n / 10) + seq![digit_char(n % 10)]
    }
}

/// Errors reported by the library.
#[derive(Debug)]
pub enum CamelliaError {
    /// A system call failed with the given error number.
    SystemError(Errno),
    /// A caller handed in a value that cannot be used.
    InvalidArgument(String),
    /// Fewer resources (chunks) are left than were asked for.
    ResourceExhausted(String),
}

/// Calls `nix::errno::Errno::from_raw`; its result is named `raw_errno(code)`.
#[verifier::external_body]
pub(crate) fn errno_from_raw(code: i32) -> (e: Errno)
    ensures
        e == raw_errno(code),
{
    Errno::from_raw(code)
}

} // verus!
