//! Thread interface model: the handle callers pass back to join or to
//! adjust realtime scheduling.

use vstd::prelude::*;

use crate::dict::{spec_lookup, Dict};
use crate::properties::{parse_u64_bytes, spec_parse_u64};

verus! {

/// Property key that fixes a created thread's stack size.
pub const STACK_SIZE: &'static str = "thread.stack-size";

/// An opaque thread handle: the identifier under which the collaborator
/// that created the thread holds it.
pub struct Thread {
    pub id: u64,
}

impl Thread {
    /// A handle carrying an identifier.
    pub fn new(id: u64) -> (r: Thread)
        ensures
            r.id == id,
    {
        Thread { id }
    }
}

/// The stack size a creation request asks for: the `thread.stack-size`
/// property read as an unsigned 32-bit decimal, when present and well
/// formed.
pub fn thread_stack_size(props: &Dict) -> (r: Option<u32>)
    ensures
        match spec_lookup(props.items@, STACK_SIZE@) {
            Option::Some(s) => match spec_parse_u64(vstd::utf8::encode_utf8(s@)) {
                Option::Some(n) => if n <= u32::MAX {
                    r == Option::Some(n as u32)
                } else {
                    r is None
                },
                Option::None => r is None,
            },
            Option::None => r is None,
        },
{
    match props.lookup(STACK_SIZE) {
        Option::Some(v) => match parse_u64_bytes(v.as_str().as_bytes()) {
            Option::Some(n) => if n <= u32::MAX as u64 {
                Option::Some(n as u32)
            } else {
                Option::None
            },
            Option::None => Option::None,
        },
        Option::None => Option::None,
    }
}

} // verus!
