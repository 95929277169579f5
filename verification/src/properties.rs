//! Properties: a key-value store of strings with unique keys, typed
//! getters over decimal spellings, and updates from JSON text.

use vstd::prelude::*;

use crate::dict::{spec_lookup, Dict};
use crate::str_eq;

verus! {

/// The key-value store; keys are unique and insertion order is kept.
pub struct Properties {
    pub map: Vec<(String, String)>,
}

/// Index of the first pair with the given key, or the length when absent.
pub open spec fn spec_find_key(map: Seq<(String, String)>, key: Seq<char>) -> int
    decreases map.len(),
{
    if map.len() == 0 {
        0
    } else if map.first().0@ == key {
        0
    } else {
        1 + spec_find_key(map.drop_first(), key)
    }
}

/// The found index is in range exactly when the key is held, and it is the
/// first such index.
pub proof fn lemma_find_key(map: Seq<(String, String)>, key: Seq<char>)
    ensures
        0 <= spec_find_key(map, key) <= map.len(),
        spec_find_key(map, key) < map.len() ==> map[spec_find_key(map, key)].0@ == key,
        forall|j: int|
            0 <= j < spec_find_key(map, key) && j < map.len() ==> #[trigger] map[j].0@ != key,
    decreases map.len(),
{
    if map.len() > 0 && map.first().0@ != key {
        lemma_find_key(map.drop_first(), key);
        assert(forall|j: int| 1 <= j < map.len() ==> #[trigger] map[j] == map.drop_first()[j - 1]);
    }
}

/// A store after one key is bound: replaced in place when present, else
/// appended.
pub open spec fn spec_set(map: Seq<(String, String)>, key: String, value: String) -> Seq<
    (String, String),
> {
    let i = spec_find_key(map, key@);
    if i < map.len() {
        map.update(i, (key, value))
    } else {
        map.push((key, value))
    }
}

/// A store after one key is dropped, when present.
pub open spec fn spec_unset(map: Seq<(String, String)>, key: Seq<char>) -> Seq<(String, String)> {
    let i = spec_find_key(map, key);
    if i < map.len() {
        map.remove(i)
    } else {
        map
    }
}

/// A store after a run of pairs is bound in order, each replacing any
/// earlier binding of its key.
pub open spec fn spec_set_all(
    map: Seq<(String, String)>,
    items: Seq<(String, String)>,
) -> Seq<(String, String)>
    decreases items.len(),
{
    if items.len() == 0 {
        map
    } else {
        spec_set_all(spec_set(map, items.first().0, items.first().1), items.drop_first())
    }
}

/// Binding one more pair extends the run from the back.
pub proof fn lemma_set_all_push(
    map: Seq<(String, String)>,
    items: Seq<(String, String)>,
    p: (String, String),
)
    ensures
        spec_set_all(map, items.push(p)) == spec_set(spec_set_all(map, items), p.0, p.1),
    decreases items.len(),
{
    let whole = items.push(p);
    if items.len() == 0 {
        assert(whole.first() == p);
        assert(whole.drop_first() =~= Seq::<(String, String)>::empty());
        assert(spec_set_all(spec_set(map, p.0, p.1), Seq::<(String, String)>::empty())
            == spec_set(map, p.0, p.1));
        assert(spec_set_all(map, Seq::<(String, String)>::empty()) == map);
        assert(spec_set_all(map, whole) == spec_set_all(
            spec_set(map, whole.first().0, whole.first().1),
            whole.drop_first(),
        ));
    } else {
        assert(whole.first() == items.first());
        assert(whole.drop_first() =~= items.drop_first().push(p));
        lemma_set_all_push(
            spec_set(map, items.first().0, items.first().1),
            items.drop_first(),
            p,
        );
    }
}

impl Properties {
    /// Unique keys.
    pub open spec fn wf(self) -> bool {
        forall|i: int, j: int|
            #![trigger self.map@[i].0@, self.map@[j].0@]
            0 <= i < j < self.map@.len() ==> self.map@[i].0@ != self.map@[j].0@
    }

    /// An empty store.
    pub fn new() -> (r: Properties)
        ensures
            r.map@.len() == 0,
            r.wf(),
    {
        Properties { map: Vec::new() }
    }

    /// A store filled from a dictionary's pairs, bound in order, later
    /// keys replacing earlier ones.
    pub fn new_dict(dict: &Dict) -> (r: Properties)
        ensures
            r.wf(),
            exists|its: Seq<(String, String)>|
                {
                    &&& #[trigger] spec_set_all(Seq::empty(), its) == r.map@
                    &&& its.len() == dict.items@.len()
                    &&& forall|i: int|
                        0 <= i < its.len() ==> (#[trigger] its[i]).0@ == dict.items@[i].0@
                            && its[i].1@ == dict.items@[i].1@
                },
    {
        let mut p = Properties::new();
        let ghost mut its = Seq::<(String, String)>::empty();
        let items = dict.items();
        let n = items.len();
        let mut i: usize = 0;
        while i < n
            invariant
                i <= n,
                n == items@.len(),
                items@ == dict.items@,
                p.wf(),
                its.len() == i,
                spec_set_all(Seq::empty(), its) == p.map@,
                forall|j: int|
                    0 <= j < i ==> (#[trigger] its[j]).0@ == items@[j].0@ && its[j].1@
                        == items@[j].1@,
            decreases n - i,
        {
            let key = items[i].0.clone();
            let value = items[i].1.clone();
            let ghost gk = key;
            let ghost gv = value;
            p.set_owned(key, value);
            proof {
                lemma_set_all_push(Seq::empty(), its, (gk, gv));
                its = its.push((gk, gv));
            }
            i += 1;
        }
        proof {
            assert(spec_set_all(Seq::empty(), its) == p.map@ && its.len() == dict.items@.len()
                && forall|j: int|
                0 <= j < its.len() ==> (#[trigger] its[j]).0@ == dict.items@[j].0@ && its[j].1@
                    == dict.items@[j].1@);
        }
        p
    }

    /// The pairs, in insertion order.
    pub fn items(&self) -> (r: &Vec<(String, String)>)
        ensures
            r@ == self.map@,
    {
        &self.map
    }

    /// A dictionary view holding a copy of the pairs, in order.
    pub fn dict(&self) -> (r: Dict)
        ensures
            r.items@.len() == self.map@.len(),
            forall|i: int|
                0 <= i < self.map@.len() ==> #[trigger] r.items@[i].0@ == self.map@[i].0@
                    && r.items@[i].1@ == self.map@[i].1@,
    {
        let mut out: Vec<(String, String)> = Vec::new();
        let n = self.map.len();
        let mut i: usize = 0;
        while i < n
            invariant
                i <= n,
                n == self.map@.len(),
                out@.len() == i,
                forall|j: int|
                    0 <= j < i ==> #[trigger] out@[j].0@ == self.map@[j].0@ && out@[j].1@
                        == self.map@[j].1@,
            decreases n - i,
        {
            let key = self.map[i].0.clone();
            let value = self.map[i].1.clone();
            out.push((key, value));
            i += 1;
        }
        Dict::new(out)
    }

    /// Index of the first pair with the given key, or the length.
    fn find_key(&self, key: &str) -> (r: usize)
        ensures
            r == spec_find_key(self.map@, key@),
    {
        let n = self.map.len();
        proof {
            assert(self.map@.skip(0) =~= self.map@);
        }
        let mut i: usize = 0;
        while i < n
            invariant
                i <= n,
                n == self.map@.len(),
                spec_find_key(self.map@, key@) == i + spec_find_key(
                    self.map@.skip(i as int),
                    key@,
                ),
            decreases n - i,
        {
            if str_eq(self.map[i].0.as_str(), key) {
                proof {
                    assert(self.map@.skip(i as int).first() == self.map@[i as int]);
                }
                return i;
            }
            proof {
                assert(self.map@.skip(i as int).first() == self.map@[i as int]);
                assert(self.map@.skip(i as int).drop_first() =~= self.map@.skip(i + 1));
            }
            i += 1;
        }
        proof {
            assert(self.map@.skip(n as int).len() == 0);
        }
        n
    }

    /// Bind a key to a value, replacing any earlier binding.
    pub fn set_owned(&mut self, key: String, value: String)
        requires
            old(self).wf(),
        ensures
            final(self).wf(),
            final(self).map@ == spec_set(old(self).map@, key, value),
    {
        let i = self.find_key(key.as_str());
        proof {
            lemma_find_key(self.map@, key@);
        }
        if i < self.map.len() {
            self.map.set(i, (key, value));
        } else {
            self.map.push((key, value));
        }
    }

    /// Bind a key given as a slice, replacing any earlier binding; every
    /// other binding is untouched.
    pub fn set(&mut self, key: &str, value: String)
        requires
            old(self).wf(),
        ensures
            final(self).wf(),
            exists|k: String|
                #[trigger] spec_set(old(self).map@, k, value) == final(self).map@ && k@ == key@,
            spec_lookup(final(self).map@, key@) matches Some(v) && v@ == value@,
    {
        let owned = key.to_owned();
        let ghost gk = owned;
        self.set_owned(owned, value);
        proof {
            assert(spec_set(old(self).map@, gk, value) == self.map@ && gk@ == key@);
            let pre = old(self).map@;
            let post = self.map@;
            let i = spec_find_key(pre, key@);
            lemma_find_key(pre, key@);
            if i < pre.len() {
                lemma_find_key_from_facts(post, key@, i);
            } else {
                lemma_find_key_from_facts(post, key@, pre.len() as int);
            }
            lemma_lookup_at_found(post, key@);
        }
    }

    /// Drop a key's binding and hand the value back, when present.
    pub fn unset(&mut self, key: &str) -> (r: Option<String>)
        requires
            old(self).wf(),
        ensures
            final(self).wf(),
            final(self).map@ == spec_unset(old(self).map@, key@),
            ({
                let i = spec_find_key(old(self).map@, key@);
                if i < old(self).map@.len() {
                    r matches Some(v) && v == old(self).map@[i].1
                } else {
                    r is None
                }
            }),
    {
        let i = self.find_key(key);
        proof {
            lemma_find_key(self.map@, key@);
        }
        if i < self.map.len() {
            let pair = self.map.remove(i);
            proof {
                let post = self.map@;
                let pre = old(self).map@;
                assert(forall|k: int|
                    0 <= k < post.len() ==> #[trigger] post[k] == (if k < i {
                        pre[k]
                    } else {
                        pre[k + 1]
                    }));
                assert forall|k: int, l: int| 0 <= k < l < post.len() implies post[k].0@
                    != post[l].0@ by {
                    let kk = if k < i { k } else { k + 1 };
                    let ll = if l < i { l } else { l + 1 };
                    assert(post[k] == pre[kk] && post[l] == pre[ll]);
                    assert(pre[kk].0@ != pre[ll].0@);
                }
            }
            Option::Some(pair.1)
        } else {
            Option::None
        }
    }

    /// The value bound to a key, if any.
    pub fn get(&self, key: &str) -> (r: Option<&String>)
        ensures
            match r {
                Option::Some(v) => spec_lookup(self.map@, key@) == Option::Some(*v),
                Option::None => spec_lookup(self.map@, key@) is None,
            },
    {
        let i = self.find_key(key);
        proof {
            lemma_find_key(self.map@, key@);
            lemma_lookup_at_found(self.map@, key@);
        }
        if i < self.map.len() {
            Option::Some(&self.map[i].1)
        } else {
            Option::None
        }
    }

    /// The value bound to a key read as an unsigned 32-bit decimal:
    /// exactly the keys whose values spell one yield a number.
    pub fn get_u32(&self, key: &str) -> (r: Option<u32>)
        ensures
            match spec_lookup(self.map@, key@) {
                Option::Some(s) => match spec_parse_u64(vstd::utf8::encode_utf8(s@)) {
                    Option::Some(n) => if n <= u32::MAX {
                        r == Option::Some(n as u32)
                    } else {
                        r is None
                    },
                    Option::None => r is None,
                },
                Option::None => r is None,
            },
    {
        match self.get(key) {
            Option::Some(v) => match parse_u64_bytes(v.as_str().as_bytes()) {
                Option::Some(n) => if n <= u32::MAX as u64 {
                    Option::Some(n as u32)
                } else {
                    Option::None
                },
                Option::None => Option::None,
            },
            Option::None => Option::None,
        }
    }

    /// The value bound to a key read as an unsigned 64-bit decimal:
    /// exactly the keys whose values spell one yield a number.
    pub fn get_u64(&self, key: &str) -> (r: Option<u64>)
        ensures
            match spec_lookup(self.map@, key@) {
                Option::Some(s) => r == spec_parse_u64(vstd::utf8::encode_utf8(s@)),
                Option::None => r is None,
            },
    {
        match self.get(key) {
            Option::Some(v) => parse_u64_bytes(v.as_str().as_bytes()),
            Option::None => Option::None,
        }
    }

    /// The value bound to a key read as a signed 32-bit decimal: exactly
    /// the keys whose values spell one yield a number.
    pub fn get_i32(&self, key: &str) -> (r: Option<i32>)
        ensures
            match spec_lookup(self.map@, key@) {
                Option::Some(s) => match spec_parse_i64(vstd::utf8::encode_utf8(s@)) {
                    Option::Some(n) => if i32::MIN <= n <= i32::MAX {
                        r == Option::Some(n as i32)
                    } else {
                        r is None
                    },
                    Option::None => r is None,
                },
                Option::None => r is None,
            },
    {
        match self.get(key) {
            Option::Some(v) => match parse_i64_bytes(v.as_str().as_bytes()) {
                Option::Some(n) => if i32::MIN as i64 <= n && n <= i32::MAX as i64 {
                    Option::Some(n as i32)
                } else {
                    Option::None
                },
                Option::None => Option::None,
            },
            Option::None => Option::None,
        }
    }

    /// The value bound to a key read as a signed 64-bit decimal: exactly
    /// the keys whose values spell one yield a number.
    pub fn get_i64(&self, key: &str) -> (r: Option<i64>)
        ensures
            match spec_lookup(self.map@, key@) {
                Option::Some(s) => r == spec_parse_i64(vstd::utf8::encode_utf8(s@)),
                Option::None => r is None,
            },
    {
        match self.get(key) {
            Option::Some(v) => parse_i64_bytes(v.as_str().as_bytes()),
            Option::None => Option::None,
        }
    }

    /// The value bound to a key read as a boolean: exactly `"true"` and
    /// `"1"` are true.
    pub fn get_bool(&self, key: &str) -> (r: Option<bool>)
        ensures
            match spec_lookup(self.map@, key@) {
                Option::Some(s) => r == Option::Some(s@ == "true"@ || s@ == "1"@),
                Option::None => r is None,
            },
    {
        match self.get(key) {
            Option::Some(v) => Option::Some(crate::atob(v)),
            Option::None => Option::None,
        }
    }
}


impl Default for Properties {
    /// An empty store.
    fn default() -> (r: Properties)
        ensures
            r.map@.len() == 0,
            r.wf(),
    {
        Properties::new()
    }
}

/// A position whose prefix misses the key, and which holds the key when in
/// range, is exactly the found index.
pub proof fn lemma_find_key_from_facts(map: Seq<(String, String)>, key: Seq<char>, i: int)
    requires
        0 <= i <= map.len(),
        forall|j: int| 0 <= j < i ==> #[trigger] map[j].0@ != key,
        i < map.len() ==> map[i].0@ == key,
    ensures
        spec_find_key(map, key) == i,
    decreases i,
{
    if i == 0 {
    } else {
        assert(map.first().0@ != key);
        assert(forall|j: int|
            0 <= j < map.drop_first().len() ==> #[trigger] map.drop_first()[j] == map[j + 1]);
        lemma_find_key_from_facts(map.drop_first(), key, i - 1);
    }
}

/// At the found index the lookup succeeds with that pair's value; past the
/// end it fails.
pub proof fn lemma_lookup_at_found(map: Seq<(String, String)>, key: Seq<char>)
    ensures
        spec_find_key(map, key) < map.len() ==> spec_lookup(map, key) == Option::Some(
            map[spec_find_key(map, key)].1,
        ),
        spec_find_key(map, key) >= map.len() ==> spec_lookup(map, key) is None,
    decreases map.len(),
{
    lemma_find_key(map, key);
    if map.len() > 0 && map.first().0@ != key {
        lemma_find_key(map.drop_first(), key);
        lemma_lookup_at_found(map.drop_first(), key);
        assert(forall|j: int| 1 <= j < map.len() ==> #[trigger] map[j] == map.drop_first()[j - 1]);
    }
}

/// A run of ASCII decimal digits.
pub open spec fn spec_all_digits(s: Seq<u8>) -> bool {
    forall|i: int| 0 <= i < s.len() ==> 48 <= #[trigger] s[i] <= 57
}

/// The integer a run of decimal digits spells.
pub open spec fn spec_digits_val(s: Seq<u8>) -> int
    decreases s.len(),
{
    if s.len() == 0 {
        0
    } else {
        spec_digits_val(s.drop_last()) * 10 + (s.last() - 48)
    }
}

/// The value a bare digit run spells: defined when the run is nonempty,
/// all digits, and within 64 bits.
pub open spec fn spec_parse_digits(s: Seq<u8>) -> Option<u64> {
    if s.len() > 0 && spec_all_digits(s) && spec_digits_val(s) <= u64::MAX {
        Option::Some(spec_digits_val(s) as u64)
    } else {
        Option::None
    }
}

/// The unsigned value a byte run spells: an optional leading plus sign,
/// then digits, within 64 bits.
pub open spec fn spec_parse_u64(s: Seq<u8>) -> Option<u64> {
    if s.len() > 0 && s[0] == 43 {
        spec_parse_digits(s.drop_first())
    } else {
        spec_parse_digits(s)
    }
}

/// The signed value a byte run spells: an optional leading plus or minus
/// sign, then digits, within 64 bits.
pub open spec fn spec_parse_i64(s: Seq<u8>) -> Option<i64> {
    if s.len() > 0 && s[0] == 45 {
        match spec_parse_digits(s.drop_first()) {
            Option::Some(v) => if v <= i64::MAX as u64 + 1 {
                Option::Some((0 - v as int) as i64)
            } else {
                Option::None
            },
            Option::None => Option::None,
        }
    } else {
        match spec_parse_u64(s) {
            Option::Some(v) => if v <= i64::MAX as u64 {
                Option::Some(v as i64)
            } else {
                Option::None
            },
            Option::None => Option::None,
        }
    }
}

/// Read a bare digit run as a 64-bit value.
fn parse_digits_bytes(s: &[u8]) -> (r: Option<u64>)
    ensures
        r == spec_parse_digits(s@),
{
    let n = s.len();
    if n == 0 {
        return Option::None;
    }
    let mut acc: u64 = 0;
    let mut i: usize = 0;
    while i < n
        invariant
            i <= n,
            n == s@.len(),
            spec_all_digits(s@.take(i as int)),
            acc == spec_digits_val(s@.take(i as int)),
        decreases n - i,
    {
        let b = s[i];
        if b < 48 || b > 57 {
            proof {
                assert(!spec_all_digits(s@));
            }
            return Option::None;
        }
        let d = (b - 48) as u64;
        if acc > (u64::MAX - d) / 10 {
            proof {
                assert(s@.take(i + 1).drop_last() =~= s@.take(i as int));
                assert(spec_digits_val(s@.take(i + 1)) == acc * 10 + d);
                assert(acc * 10 + d > u64::MAX) by (nonlinear_arith)
                    requires
                        acc > (u64::MAX - d) / 10,
                        0 <= d <= 9,
                        acc >= 0,
                ;
                if spec_all_digits(s@) {
                    lemma_digits_val_monotonic(s@, i + 1);
                }
            }
            return Option::None;
        }
        proof {
            assert(s@.take(i + 1).drop_last() =~= s@.take(i as int));
            assert(acc * 10 + d <= u64::MAX) by (nonlinear_arith)
                requires
                    acc <= (u64::MAX - d) / 10,
                    0 <= d <= 9,
                    acc >= 0,
            ;
        }
        acc = acc * 10 + d;
        i += 1;
    }
    proof {
        assert(s@.take(n as int) =~= s@);
    }
    Option::Some(acc)
}

/// Read an unsigned 64-bit decimal from bytes: an optional leading plus
/// sign, then digits.
pub fn parse_u64_bytes(s: &[u8]) -> (r: Option<u64>)
    ensures
        r == spec_parse_u64(s@),
{
    let n = s.len();
    if n > 0 && s[0] == 43 {
        let rest = vstd::slice::slice_subrange(s, 1, n);
        proof {
            assert(rest@ =~= s@.drop_first());
        }
        parse_digits_bytes(rest)
    } else {
        parse_digits_bytes(s)
    }
}

/// A longer digit prefix spells at least as large a value, so a value that
/// overflows at some prefix overflows for the whole run.
pub proof fn lemma_digits_val_monotonic(s: Seq<u8>, k: int)
    requires
        0 <= k <= s.len(),
        spec_all_digits(s),
    ensures
        spec_digits_val(s.take(k)) <= spec_digits_val(s),
    decreases s.len() - k,
{
    if k == s.len() {
        assert(s.take(k) =~= s);
    } else {
        lemma_digits_val_monotonic(s, k + 1);
        assert(s.take(k + 1).drop_last() =~= s.take(k));
        assert(s.take(k + 1).last() == s[k]);
        assert(spec_all_digits(s.take(k)));
        lemma_digits_val_nonneg(s.take(k));
        assert(spec_digits_val(s.take(k)) * 10 + (s[k] - 48) >= spec_digits_val(s.take(k)))
            by (nonlinear_arith)
            requires
                spec_digits_val(s.take(k)) >= 0,
                s[k] >= 48,
        ;
    }
}

/// A digit run spells a non-negative value.
pub proof fn lemma_digits_val_nonneg(s: Seq<u8>)
    requires
        spec_all_digits(s),
    ensures
        spec_digits_val(s) >= 0,
    decreases s.len(),
{
    if s.len() > 0 {
        assert(spec_all_digits(s.drop_last()));
        lemma_digits_val_nonneg(s.drop_last());
        assert(spec_digits_val(s.drop_last()) * 10 >= 0) by (nonlinear_arith)
            requires
                spec_digits_val(s.drop_last()) >= 0,
        ;
    }
}

/// Read a signed 64-bit decimal from bytes: an optional leading plus or
/// minus sign, then digits.
pub fn parse_i64_bytes(s: &[u8]) -> (r: Option<i64>)
    ensures
        r == spec_parse_i64(s@),
{
    let n = s.len();
    if n > 0 && s[0] == 45 {
        let rest = vstd::slice::slice_subrange(s, 1, n);
        proof {
            assert(rest@ =~= s@.drop_first());
        }
        match parse_digits_bytes(rest) {
            Option::Some(v) => {
                if v <= i64::MAX as u64 {
                    Option::Some(0 - (v as i64))
                } else if v == i64::MAX as u64 + 1 {
                    Option::Some(i64::MIN)
                } else {
                    Option::None
                }
            },
            Option::None => Option::None,
        }
    } else {
        match parse_u64_bytes(s) {
            Option::Some(v) => if v <= i64::MAX as u64 {
                Option::Some(v as i64)
            } else {
                Option::None
            },
            Option::None => Option::None,
        }
    }
}

} // verus!

verus! {

/// Outside view of tinyjson's value type; its contents are opaque here and
/// are taken apart only through the wrappers below.
#[verifier::external_type_specification]
#[verifier::external_body]
pub struct ExJsonValue(tinyjson::JsonValue);

/// Relies on `str::parse::<tinyjson::JsonValue>`: parses JSON text; the
/// error is carried as its rendered message.
#[verifier::external_body]
fn json_parse(s: &str) -> (r: Result<tinyjson::JsonValue, String>)
{
    match s.parse::<tinyjson::JsonValue>() {
        Ok(v) => Ok(v),
        Err(e) => Err(e.to_string()),
    }
}

/// Relies on `tinyjson::JsonValue::is_object`: whether the value is a JSON
/// object.
#[verifier::external_body]
fn json_is_object(v: &tinyjson::JsonValue) -> (r: bool)
{
    v.is_object()
}

/// Relies on tinyjson's `JsonValue::Object` variant: the object's fields
/// as owned pairs, in the hash map's own order, or nothing for any other
/// variant.
#[verifier::external_body]
fn json_object_entries(v: tinyjson::JsonValue) -> (r: Option<Vec<(String, tinyjson::JsonValue)>>)
{
    match v {
        tinyjson::JsonValue::Object(m) => Some(m.into_iter().collect()),
        _ => None,
    }
}

/// Relies on `tinyjson::JsonValue::is_null`: whether the value is JSON
/// null.
#[verifier::external_body]
fn json_is_null(v: &tinyjson::JsonValue) -> (r: bool)
{
    v.is_null()
}

/// Relies on `tinyjson::JsonValue::stringify`: the value rendered back to
/// JSON text, or nothing when generation fails.
#[verifier::external_body]
fn json_stringify(v: &tinyjson::JsonValue) -> (r: Option<String>)
{
    match v.stringify() {
        Ok(s) => Some(s),
        Err(_) => None,
    }
}

/// One update step: a null entry drops the key; a value entry that equals
/// the current binding changes nothing; any other value entry binds the
/// key and counts as a change.
pub open spec fn spec_apply_entry(
    map: Seq<(String, String)>,
    e: (String, Option<String>),
) -> (Seq<(String, String)>, int) {
    match e.1 {
        Option::Some(v) => {
            if spec_lookup(map, e.0@) matches Some(cur) && cur@ == v@ {
                (map, 0int)
            } else {
                (spec_set(map, e.0, v), 1int)
            }
        },
        Option::None => (spec_unset(map, e.0@), 0int),
    }
}

/// A run of update steps, first to last, with the count of changes.
pub open spec fn spec_apply(
    map: Seq<(String, String)>,
    entries: Seq<(String, Option<String>)>,
) -> (Seq<(String, String)>, int)
    decreases entries.len(),
{
    if entries.len() == 0 {
        (map, 0int)
    } else {
        let step = spec_apply_entry(map, entries.first());
        let rest = spec_apply(step.0, entries.drop_first());
        (rest.0, step.1 + rest.1)
    }
}

impl Properties {
    /// Apply a run of parsed update entries in order and count the changes.
    pub fn apply_entries(&mut self, entries: Vec<(String, Option<String>)>) -> (r: u32)
        requires
            old(self).wf(),
            entries@.len() <= u32::MAX,
        ensures
            final(self).wf(),
            final(self).map@ == spec_apply(old(self).map@, entries@).0,
            r as int == spec_apply(old(self).map@, entries@).1,
    {
        let ghost orig_map = self.map@;
        let ghost orig_entries = entries@;
        let mut entries = entries;
        let mut count: u32 = 0;
        proof {
            lemma_apply_count_bound(self.map@, entries@);
        }
        while entries.len() > 0
            invariant
                self.wf(),
                spec_apply(orig_map, orig_entries).0 == spec_apply(self.map@, entries@).0,
                spec_apply(orig_map, orig_entries).1 == count + spec_apply(self.map@, entries@).1,
                count + entries@.len() <= u32::MAX,
                0 <= spec_apply(self.map@, entries@).1 <= entries@.len(),
            decreases entries@.len(),
        {
            let e = entries.remove(0);
            proof {
                lemma_apply_count_bound(self.map@, entries@);
            }
            let ghost pre_map = self.map@;
            let ghost pre_entries = seq![e] + entries@;
            proof {
                assert(pre_entries.first() == e);
                assert(pre_entries.drop_first() =~= entries@);
            }
            match e.1 {
                Option::Some(v) => {
                    let changed = match self.get(e.0.as_str()) {
                        Option::Some(cur) => !str_eq(cur.as_str(), v.as_str()),
                        Option::None => true,
                    };
                    if changed {
                        self.set_owned(e.0, v);
                        count = count + 1;
                    }
                },
                Option::None => {
                    let key = e.0;
                    let dropped = self.unset(key.as_str());
                    proof {
                        lemma_find_key(pre_map, key@);
                    }
                },
            }
            proof {
                lemma_apply_count_bound(self.map@, entries@);
            }
        }
        proof {
            assert(entries@ =~= Seq::<(String, Option<String>)>::empty());
        }
        count
    }

    /// Update the store from JSON text: a JSON object's null fields drop
    /// keys, other fields bind their rendered values; non-object JSON
    /// changes nothing; a parse or render failure reports its message and
    /// changes nothing.
    pub fn update_string(&mut self, args: &str) -> (r: Result<u32, String>)
        requires
            old(self).wf(),
        ensures
            final(self).wf(),
            r matches Err(m) ==> final(self).map@ == old(self).map@,
            r matches Ok(c) ==> exists|entries: Seq<(String, Option<String>)>|
                {
                    let applied = #[trigger] spec_apply(old(self).map@, entries);
                    final(self).map@ == applied.0 && c as int == applied.1
                },
    {
        let parsed = match json_parse(args) {
            Ok(v) => v,
            Err(m) => {
                return Err(m);
            },
        };
        if !json_is_object(&parsed) {
            proof {
                let none_applied = spec_apply(
                    old(self).map@,
                    Seq::<(String, Option<String>)>::empty(),
                );
                assert(self.map@ == none_applied.0 && 0int == none_applied.1);
            }
            return Ok(0);
        }
        let fields = match json_object_entries(parsed) {
            Option::Some(f) => f,
            Option::None => {
                proof {
                    let none_applied = spec_apply(
                        old(self).map@,
                        Seq::<(String, Option<String>)>::empty(),
                    );
                    assert(self.map@ == none_applied.0 && 0int == none_applied.1);
                }
                return Ok(0);
            },
        };
        let mut entries: Vec<(String, Option<String>)> = Vec::new();
        let mut fields = fields;
        while fields.len() > 0
            invariant
                old(self).wf(),
                *self == *old(self),
            decreases fields@.len(),
        {
            let (k, jv) = fields.remove(0);
            if json_is_null(&jv) {
                entries.push((k, Option::None));
            } else {
                match json_stringify(&jv) {
                    Option::Some(s) => {
                        entries.push((k, Option::Some(s)));
                    },
                    Option::None => {
                        return Err("value did not render back to JSON text".to_owned());
                    },
                }
            }
        }
        if entries.len() > u32::MAX as usize {
            return Err("too many fields".to_owned());
        }
        let ghost gentries = entries@;
        let count = self.apply_entries(entries);
        proof {
            let applied = spec_apply(old(self).map@, gentries);
            assert(self.map@ == applied.0 && count as int == applied.1);
        }
        Ok(count)
    }

    /// A store built by one update from JSON text.
    pub fn new_string(args: &str) -> (r: Result<Properties, String>)
        ensures
            r matches Ok(p) ==> p.wf(),
    {
        let mut p = Properties::new();
        match p.update_string(args) {
            Ok(_) => Ok(p),
            Err(e) => Err(e),
        }
    }
}

/// The change count of a run is at most its length.
pub proof fn lemma_apply_count_bound(
    map: Seq<(String, String)>,
    entries: Seq<(String, Option<String>)>,
)
    ensures
        0 <= spec_apply(map, entries).1 <= entries.len(),
    decreases entries.len(),
{
    if entries.len() > 0 {
        let step = spec_apply_entry(map, entries.first());
        lemma_apply_count_bound(step.0, entries.drop_first());
    }
}

} // verus!
