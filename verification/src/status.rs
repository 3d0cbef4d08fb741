//! Host status codes.
//!
//! Every call into the firmware hands back a machine word. Its two most
//! significant bits classify it: `00` is success or a warning, `10` is an
//! error, and the two remaining patterns are reserved to vendors and are not
//! errors.

use r_efi::efi;
use vstd::prelude::*;

verus! {

/// Number of status codes that share one pattern of the two top bits.
pub open spec fn class_size() -> int {
    usize::MAX as int / 4 + 1
}

/// The two most significant bits of `code`, read as a number from 0 to 3.
pub open spec fn class_of(code: usize) -> int {
    code as int / class_size()
}

/// A status code as the firmware reports it.
#[derive(Clone, Copy, Debug, PartialEq, Eq, Structural)]
pub struct Status {
    pub code: usize,
}

/// `r_efi::efi::Status::is_error` on the status with the given code: the
/// code masked with the two top bits equals the top bit alone, that is, the
/// top bits are `10`.
#[verifier::external_body]
fn code_is_error(code: usize) -> (error: bool)
    ensures
        error == (class_of(code) == 2),
{
    efi::Status::from_usize(code).is_error()
}

/// The code of `r_efi::efi::Status::NOT_READY`: six, with the top bit set.
#[verifier::external_body]
fn code_not_ready() -> (code: usize)
    ensures
        code == usize::MAX / 2 + 7,
{
    efi::Status::NOT_READY.as_usize()
}

impl Status {
    /// Whether the host counts this status as a failure.
    pub open spec fn spec_is_error(&self) -> bool {
        class_of(self.code) == 2
    }

    pub fn from_usize(code: usize) -> (status: Status)
        ensures
            status.code == code,
    {
        Status { code }
    }

    pub fn as_usize(&self) -> (code: usize)
        ensures
            code == self.code,
    {
        self.code
    }

    #[verifier::when_used_as_spec(spec_is_error)]
    pub fn is_error(&self) -> (error: bool)
        ensures
            error == self.spec_is_error(),
    {
        code_is_error(self.code)
    }

    /// The status a completion token carries until the host has finished
    /// the operation. It is an error code.
    pub fn not_ready() -> (status: Status)
        ensures
            status.code == usize::MAX / 2 + 7,
            status.spec_is_error(),
    {
        let status = Status { code: code_not_ready() };
        proof {
            lemma_not_ready_is_error();
        }
        status
    }
}

/// The code of `NOT_READY` lies in the error class on every word size.
pub proof fn lemma_not_ready_is_error()
    ensures
        class_of((usize::MAX / 2 + 7) as usize) == 2,
{
    assert(usize::BITS == 32 || usize::BITS == 64);
    if usize::BITS == 32 {
        assert(usize::MAX == 0xffff_ffff);
        assert(class_size() == 0x4000_0000);
        assert((usize::MAX / 2 + 7) as usize == 0x8000_0006);
    } else {
        assert(usize::MAX == 0xffff_ffff_ffff_ffff);
        assert(class_size() == 0x4000_0000_0000_0000);
        assert((usize::MAX / 2 + 7) as usize == 0x8000_0000_0000_0006);
    }
}

} // verus!
