//! Support-interface registry: a typed map from well-known interface names
//! to owned capability façades, kept coherent with a parallel array of
//! `(name, native handle)` descriptors that foreign factories receive.
//!
//! Type identity is a per-type token stored beside each entry; a request
//! must present the same token to get the façade back.

use vstd::prelude::*;

use crate::str_eq;

pub mod cpu;
pub mod log;
pub mod plugin;
pub mod system;
pub mod thread;

verus! {

/// Well-known interface names.
pub const CPU: &'static str = "Spa:Pointer:Interface:CPU";

pub const LOG: &'static str = "Spa:Pointer:Interface:Log";

pub const LOOP: &'static str = "Spa:Pointer:Interface:Loop";

pub const LOOP_CONTROL: &'static str = "Spa:Pointer:Interface:LoopControl";

pub const LOOP_UTILS: &'static str = "Spa:Pointer:Interface:LoopUtils";

pub const SYSTEM: &'static str = "Spa:Pointer:Interface:System";

pub const THREAD_UTILS: &'static str = "Spa:Pointer:Interface:ThreadUtils";

/// One registered interface: its name, its type token, and the owned
/// façade value.
pub struct SupportEntry<V> {
    pub name: String,
    pub token: u32,
    pub value: V,
}

/// One foreign-facing descriptor: the interface name and the native handle
/// that foreign code dereferences.
pub struct CSupport {
    pub name: String,
    pub data: u64,
}

/// The registry: the typed entries and the foreign-facing descriptor array,
/// index for index.
pub struct Support<V> {
    pub supports: Vec<SupportEntry<V>>,
    pub c_supports: Vec<CSupport>,
}

/// Index of the first entry with the given name, or the length when absent.
pub open spec fn spec_find_name<V>(entries: Seq<SupportEntry<V>>, name: Seq<char>) -> int
    decreases entries.len(),
{
    if entries.len() == 0 {
        0
    } else if entries.first().name@ == name {
        0
    } else {
        1 + spec_find_name(entries.drop_first(), name)
    }
}

/// The found index is in range exactly when some entry carries the name,
/// and it is the first such index.
pub proof fn lemma_find_name<V>(entries: Seq<SupportEntry<V>>, name: Seq<char>)
    ensures
        0 <= spec_find_name(entries, name) <= entries.len(),
        spec_find_name(entries, name) < entries.len() ==> entries[spec_find_name(
            entries,
            name,
        )].name@ == name,
        forall|j: int|
            0 <= j < spec_find_name(entries, name) && j < entries.len()
                ==> #[trigger] entries[j].name@ != name,
    decreases entries.len(),
{
    if entries.len() > 0 && entries.first().name@ != name {
        lemma_find_name(entries.drop_first(), name);
        assert(forall|j: int|
            1 <= j < entries.len() ==> #[trigger] entries[j] == entries.drop_first()[j - 1]);
    }
}

impl<V> Support<V> {
    /// Coherence of the two views: same length, and the descriptor at each
    /// index carries the entry's name; names appear at most once.
    pub open spec fn wf(self) -> bool {
        &&& self.supports@.len() == self.c_supports@.len()
        &&& forall|i: int|
            0 <= i < self.supports@.len() ==> #[trigger] self.c_supports@[i].name@
                == self.supports@[i].name@
        &&& forall|i: int, j: int|
            #![trigger self.supports@[i].name@, self.supports@[j].name@]
            0 <= i < j < self.supports@.len() ==> self.supports@[i].name@
                != self.supports@[j].name@
    }

    /// An empty registry.
    pub fn new() -> (r: Support<V>)
        ensures
            r.supports@.len() == 0,
            r.c_supports@.len() == 0,
            r.wf(),
    {
        Support { supports: Vec::new(), c_supports: Vec::new() }
    }

    /// The foreign-facing descriptor array, for handing to factories.
    pub fn c_support(&self) -> (r: &Vec<CSupport>)
        ensures
            r@ == self.c_supports@,
    {
        &self.c_supports
    }

    /// Index of the first entry with the given name, or the length when
    /// absent.
    fn find_name(&self, name: &str) -> (r: usize)
        ensures
            r == spec_find_name(self.supports@, name@),
    {
        let n = self.supports.len();
        proof {
            assert(self.supports@.skip(0) =~= self.supports@);
        }
        let mut i: usize = 0;
        while i < n
            invariant
                i <= n,
                n == self.supports@.len(),
                spec_find_name(self.supports@, name@) == i + spec_find_name(
                    self.supports@.skip(i as int),
                    name@,
                ),
            decreases n - i,
        {
            if str_eq(self.supports[i].name.as_str(), name) {
                proof {
                    assert(self.supports@.skip(i as int).first() == self.supports@[i as int]);
                }
                return i;
            }
            proof {
                assert(self.supports@.skip(i as int).first() == self.supports@[i as int]);
                assert(self.supports@.skip(i as int).drop_first() =~= self.supports@.skip(i + 1));
            }
            i += 1;
        }
        proof {
            assert(self.supports@.skip(n as int).len() == 0);
        }
        n
    }

    /// Register a façade under a name: a new name is appended to both
    /// views; a present name is replaced, in place, in both views. The
    /// descriptor array never drops or reorders live entries, so pointers
    /// handed to foreign code stay at their index.
    pub fn add_interface(&mut self, name: String, token: u32, value: V, data: u64)
        requires
            old(self).wf(),
        ensures
            final(self).wf(),
            ({
                let i = spec_find_name(old(self).supports@, name@);
                if i < old(self).supports@.len() {
                    &&& final(self).supports@ == old(self).supports@.update(
                        i,
                        (SupportEntry { name, token, value }),
                    )
                    &&& final(self).c_supports@.len() == old(self).c_supports@.len()
                    &&& final(self).c_supports@[i].name@ == name@
                    &&& final(self).c_supports@[i].data == data
                    &&& forall|j: int|
                        0 <= j < old(self).c_supports@.len() && j != i
                            ==> final(self).c_supports@[j] == #[trigger] old(self).c_supports@[j]
                } else {
                    &&& final(self).supports@ == old(self).supports@.push(
                        (SupportEntry { name, token, value }),
                    )
                    &&& final(self).c_supports@.len() == old(self).c_supports@.len() + 1
                    &&& final(self).c_supports@[i].name@ == name@
                    &&& final(self).c_supports@[i].data == data
                    &&& forall|j: int|
                        0 <= j < old(self).c_supports@.len()
                            ==> final(self).c_supports@[j] == #[trigger] old(self).c_supports@[j]
                }
            }),
    {
        let i = self.find_name(name.as_str());
        proof {
            lemma_find_name(self.supports@, name@);
        }
        let n = self.supports.len();
        let cname = name.clone();
        if i < n {
            self.supports.set(i, SupportEntry { name, token, value });
            self.c_supports.set(i, CSupport { name: cname, data });
        } else {
            self.supports.push(SupportEntry { name, token, value });
            self.c_supports.push(CSupport { name: cname, data });
        }
    }

    /// The façade registered under a name, if one is present and carries
    /// the requested type token.
    pub fn get_interface(&self, name: &str, token: u32) -> (r: Option<&V>)
        requires
            self.wf(),
        ensures
            ({
                let i = spec_find_name(self.supports@, name@);
                if i < self.supports@.len() && self.supports@[i].token == token {
                    r matches Some(v) && v == &self.supports@[i].value
                } else {
                    r is None
                }
            }),
    {
        let i = self.find_name(name);
        proof {
            lemma_find_name(self.supports@, name@);
        }
        if i < self.supports.len() && self.supports[i].token == token {
            Option::Some(&self.supports[i].value)
        } else {
            Option::None
        }
    }
}

impl<V> Default for Support<V> {
    /// An empty registry.
    fn default() -> (r: Support<V>)
        ensures
            r.supports@.len() == 0,
            r.c_supports@.len() == 0,
            r.wf(),
    {
        Support::new()
    }
}

/// Registry coherence: in a well-formed registry every name appears on at
/// most one descriptor, and a name that is registered has exactly one
/// descriptor, at the same index as its entry. Together with the contract
/// of `add_interface` — which installs the newest façade and descriptor at
/// that index — the most recently added façade under a name is the one
/// both views expose.
pub proof fn lemma_registry_coherence<V>(s: Support<V>, name: Seq<char>)
    requires
        s.wf(),
    ensures
        forall|i: int, j: int|
            #![trigger s.c_supports@[i].name@, s.c_supports@[j].name@]
            0 <= i < j < s.c_supports@.len() ==> s.c_supports@[i].name@ != s.c_supports@[j].name@,
        spec_find_name(s.supports@, name) < s.supports@.len() ==> s.c_supports@[spec_find_name(
            s.supports@,
            name,
        )].name@ == name,
{
    lemma_find_name(s.supports@, name);
}

} // verus!
