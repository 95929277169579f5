//! Ordered dictionary of string pairs: field order is preserved as
//! inserted and lookup is case-sensitive, returning the first match.

use vstd::prelude::*;

use crate::str_eq;

verus! {

/// An ordered run of `(key, value)` string pairs.
pub struct Dict {
    pub items: Vec<(String, String)>,
}

/// First-match lookup over a run of pairs.
pub open spec fn spec_lookup(items: Seq<(String, String)>, key: Seq<char>) -> Option<String>
    decreases items.len(),
{
    if items.len() == 0 {
        Option::None
    } else if items.first().0@ == key {
        Option::Some(items.first().1)
    } else {
        spec_lookup(items.drop_first(), key)
    }
}

impl Dict {
    /// A dictionary holding exactly the given pairs, in order.
    pub fn new(map: Vec<(String, String)>) -> (r: Dict)
        ensures
            r.items@ == map@,
    {
        Dict { items: map }
    }

    /// The pairs, in insertion order.
    pub fn items(&self) -> (r: &Vec<(String, String)>)
        ensures
            r@ == self.items@,
    {
        &self.items
    }

    /// Number of pairs held.
    pub fn len(&self) -> (r: usize)
        ensures
            r == self.items@.len(),
    {
        self.items.len()
    }

    /// The value of the first pair whose key equals `key`, if any.
    pub fn lookup(&self, key: &str) -> (r: Option<&String>)
        ensures
            match r {
                Option::Some(v) => spec_lookup(self.items@, key@) == Option::Some(*v),
                Option::None => spec_lookup(self.items@, key@) is None,
            },
    {
        let n = self.items.len();
        proof {
            assert(self.items@.skip(0) =~= self.items@);
        }
        let mut i: usize = 0;
        while i < n
            invariant
                i <= n,
                n == self.items@.len(),
                spec_lookup(self.items@.skip(i as int), key@) == spec_lookup(self.items@, key@),
            decreases n - i,
        {
            let pair = &self.items[i];
            if str_eq(pair.0.as_str(), key) {
                proof {
                    assert(self.items@.skip(i as int).first() == self.items@[i as int]);
                }
                return Option::Some(&self.items[i].1);
            }
            proof {
                assert(self.items@.skip(i as int).drop_first() =~= self.items@.skip(i + 1));
            }
            i += 1;
        }
        proof {
            assert(self.items@.skip(n as int).len() == 0);
        }
        Option::None
    }
}

} // verus!
