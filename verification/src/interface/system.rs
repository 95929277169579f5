//! System interface model: the readiness record a poll wait reports and
//! the translation between kernel results and the library's errors.

use vstd::prelude::*;

use crate::error::Error;

verus! {

/// One readiness record from a poll wait: the event bits and the cookie
/// that was registered with the descriptor.
#[derive(Clone, Copy, Debug, PartialEq, Eq, Structural)]
pub struct PollEvent {
    pub events: u32,
    pub data: u64,
}

/// Turn a kernel-style result into the library's form: a non-negative
/// value stands; a negative one is the negated error number.
pub fn result_from(res: i32) -> (r: Result<i32, Error>)
    requires
        res > i32::MIN,
    ensures
        res >= 0 ==> (r matches Ok(v) && v == res),
        res < 0 ==> (r matches Err(e) && e == Error::Errno((0 - res) as i32)),
{
    if res >= 0 {
        Ok(res)
    } else {
        Err(Error::Errno(0 - res))
    }
}

/// Turn a result of the library's form back into a kernel-style integer:
/// a success value stands; an error number is negated; an error without a
/// number becomes minus one.
pub fn from_result(res: Result<i32, Error>) -> (r: i32)
    ensures
        res matches Ok(v) ==> r == v,
        (res matches Err(Error::Errno(n)) && n > i32::MIN) ==> r == 0 - (match res {
            Err(Error::Errno(n2)) => n2 as int,
            _ => 0,
        }),
        (res matches Err(e) && !(e matches Error::Errno(n) && n > i32::MIN)) ==> r == -1,
    {
    match res {
        Ok(v) => v,
        Err(Error::Errno(n)) => if n > i32::MIN {
            0 - n
        } else {
            -1
        },
        Err(_) => -1,
    }
}

} // verus!
