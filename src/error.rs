//! Status codes reported by a platform entropy source.
use vstd::prelude::*;

verus! {

/// Codes below this value are operating-system error numbers.
pub const INTERNAL_START: u32 = 0x8000_0000;

/// Codes at or above this value are reserved for custom errors.
pub const CUSTOM_START: u32 = 0xC000_0000;

/// Code of the error: the target platform has no supported entropy source.
pub const UNSUPPORTED: u32 = 0x8000_0000;
/// Code of the error: the platform's errno held a value that was not positive.
pub const ERRNO_NOT_POSITIVE: u32 = 0x8000_0001;
/// Code of the error: the Windows random-number function failed.
pub const WINDOWS_RTL_GEN_RANDOM: u32 = 0x8000_0004;
/// Code of the error: the hardware random-number instruction failed repeatedly.
pub const FAILED_RDRAND: u32 = 0x8000_0005;
/// Code of the error: the hardware random-number instruction is not available.
pub const NO_RDRAND: u32 = 0x8000_0006;

/// A nonzero 32-bit status code: an operating-system error number below
/// `INTERNAL_START`, an internal code at or above it.
#[derive(Clone, Copy, Debug, PartialEq, Eq, Structural)]
pub struct SysError {
    code: u32,
}

impl SysError {
    #[verifier::type_invariant]
    spec fn nonzero(self) -> bool {
        self.code != 0
    }

    /// The status code that this error carries.
    pub closed spec fn spec_code(self) -> u32 {
        self.code
    }

    /// An error for a status code; `None` for zero, which is no error.
    pub fn from_code(code: u32) -> (r: Option<SysError>)
        ensures
            r.is_some() <==> code != 0,
            r matches Some(e) ==> e.spec_code() == code,
    {
        if code == 0 {
            None
        } else {
            Some(SysError { code })
        }
    }

    /// The internal error with offset `n` above `INTERNAL_START`.
    pub fn internal_error(n: u16) -> (r: SysError)
        ensures
            r.spec_code() == INTERNAL_START + n,
    {
        SysError { code: INTERNAL_START + n as u32 }
    }

    /// The operating-system error number, where the code is one.
    pub fn raw_os_error(self) -> (r: Option<i32>)
        ensures
            r == (if self.spec_code() < INTERNAL_START {
                Some(self.spec_code() as i32)
            } else {
                None
            }),
    {
        if self.code < INTERNAL_START {
            Some(self.code as i32)
        } else {
            None
        }
    }

    /// The status code, which is never zero.
    pub fn code(self) -> (r: u32)
        ensures
            r == self.spec_code(),
            r != 0,
    {
        proof {
            use_type_invariant(&self);
        }
        self.code
    }
}

/// The description of a known internal error.
pub open spec fn spec_internal_desc(code: u32) -> Option<&'static str> {
    if code == UNSUPPORTED {
        Some("getrandom: this target is not supported")
    } else if code == ERRNO_NOT_POSITIVE {
        Some("errno: did not return a positive value")
    } else if code == WINDOWS_RTL_GEN_RANDOM {
        Some("RtlGenRandom: Windows system function failure")
    } else if code == FAILED_RDRAND {
        Some("RDRAND: failed multiple times: CPU issue likely")
    } else if code == NO_RDRAND {
        Some("RDRAND: instruction not supported")
    } else {
        None
    }
}

/// A fixed description of the error where it is one of the known internal
/// errors, `None` for any other code.
pub fn internal_desc(error: SysError) -> (r: Option<&'static str>)
    ensures
        r == spec_internal_desc(error.spec_code()),
{
    let code = error.code();
    if code == UNSUPPORTED {
        Some("getrandom: this target is not supported")
    } else if code == ERRNO_NOT_POSITIVE {
        Some("errno: did not return a positive value")
    } else if code == WINDOWS_RTL_GEN_RANDOM {
        Some("RtlGenRandom: Windows system function failure")
    } else if code == FAILED_RDRAND {
        Some("RDRAND: failed multiple times: CPU issue likely")
    } else if code == NO_RDRAND {
        Some("RDRAND: instruction not supported")
    } else {
        None
    }
}

} // verus!
