//! Configuration naming rules: the part of configuration loading that is
//! pure. Path search and file reading are the surrounding program's work.

use vstd::prelude::*;
use vstd::string::StringSliceAdditionalSpecFns;

use crate::bytes_eq;

verus! {

/// A configuration name is `"null"` — load nothing — or ends in `".conf"`.
pub open spec fn spec_valid_name(bytes: Seq<u8>) -> bool {
    ||| bytes == "null".spec_bytes()
    ||| (bytes.len() >= 5 && bytes.skip(bytes.len() - 5) == ".conf".spec_bytes())
}

/// Whether a configuration file name is acceptable.
pub fn is_valid_name(name: &str) -> (r: bool)
    ensures
        r == spec_valid_name(name.spec_bytes()),
{
    let bytes = name.as_bytes();
    let n = bytes.len();
    if bytes_eq(bytes, "null".as_bytes()) {
        return true;
    }
    if n >= 5 {
        let tail = vstd::slice::slice_subrange(bytes, n - 5, n);
        proof {
            assert(tail@ =~= name.spec_bytes().skip(name.spec_bytes().len() - 5));
        }
        bytes_eq(tail, ".conf".as_bytes())
    } else {
        false
    }
}

} // verus!
