//! Native implementation of a multimedia session runtime core: a
//! self-describing, length-prefixed, 8-byte-aligned binary value format
//! ("POD"), the typed support-interface registry that capability handles are
//! published into, and the event-loop bookkeeping that dispatches sources
//! registered by file descriptor.

use vstd::prelude::*;

pub mod conf;
pub mod dict;
pub mod error;
pub mod event_loop;
pub mod hook;
pub mod interface;
pub mod loader;
pub mod param;
pub mod pod;
pub mod properties;

verus! {

/// Byte-for-byte equality of two slices.
pub fn bytes_eq(a: &[u8], b: &[u8]) -> (r: bool)
    ensures
        r <==> a@ == b@,
{
    if a.len() != b.len() {
        return false;
    }
    let mut i: usize = 0;
    while i < a.len()
        invariant
            a@.len() == b@.len(),
            i <= a@.len(),
            forall|j: int| 0 <= j < i ==> a@[j] == b@[j],
        decreases a@.len() - i,
    {
        if a[i] != b[i] {
            return false;
        }
        i += 1;
    }
    proof {
        assert(a@ =~= b@);
    }
    true
}

/// Character-for-character equality of two string slices.
pub fn str_eq(a: &str, b: &str) -> (r: bool)
    ensures
        r <==> a@ == b@,
{
    let r = bytes_eq(a.as_bytes(), b.as_bytes());
    proof {
        vstd::utf8::encode_utf8_decode_utf8(a@);
        vstd::utf8::encode_utf8_decode_utf8(b@);
    }
    r
}

/// String-to-boolean coercion used by configuration values: exactly the
/// strings `"true"` and `"1"` are true.
pub fn atob(s: &String) -> (r: bool)
    ensures
        r <==> (s@ == "true"@ || s@ == "1"@),
{
    str_eq(s.as_str(), "true") || str_eq(s.as_str(), "1")
}

} // verus!

