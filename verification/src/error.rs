use vstd::prelude::*;

verus! {

/// Failure taxonomy of the core.
///
/// - `NoSpace`: an encoder's output buffer is too small.
/// - `Invalid`: any decode failure (short buffer, wrong kind, wrong declared
///   size, unknown enumeration value, missing string terminator).
/// - `NotFound`: an interface or factory name is not present.
/// - `Errno`: a kernel call failed with the given (positive) error number.
/// - `Other`: an opaque initialization failure.
#[derive(Clone, Copy, Debug, PartialEq, Eq, Structural)]
pub enum Error {
    NoSpace,
    Invalid,
    NotFound,
    Errno(i32),
    Other,
}

} // verus!
