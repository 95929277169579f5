//! Hook lists: callback records held in order, each under a unique
//! identifier that removal goes by.

use vstd::prelude::*;

verus! {

/// Identifier of one registered hook.
pub type HookId = u32;

/// One hook: its identifier and the caller's callback record.
pub struct Hook<T> {
    pub id: HookId,
    pub callbacks: T,
}

impl<T> Hook<T> {
    /// The callback record.
    pub fn callbacks(&self) -> (r: &T)
        ensures
            r == &self.callbacks,
    {
        &self.callbacks
    }
}

/// An ordered list of hooks; identifiers are handed out from a counter and
/// never reused.
pub struct HookList<T> {
    pub hooks: Vec<Hook<T>>,
    pub next_id: HookId,
}

impl<T> HookList<T> {
    /// Well-formedness: every held identifier is below the counter, so all
    /// identifiers are distinct.
    pub open spec fn wf(self) -> bool {
        &&& forall|i: int|
            0 <= i < self.hooks@.len() ==> #[trigger] self.hooks@[i].id < self.next_id
        &&& forall|i: int, j: int|
            #![trigger self.hooks@[i].id, self.hooks@[j].id]
            0 <= i < j < self.hooks@.len() ==> self.hooks@[i].id != self.hooks@[j].id
    }

    /// Index of the first hook with the given identifier, if any.
    pub open spec fn spec_find(self, id: HookId) -> Option<int> {
        if exists|i: int| 0 <= i < self.hooks@.len() && #[trigger] self.hooks@[i].id == id {
            Option::Some(
                choose|i: int| 0 <= i < self.hooks@.len() && #[trigger] self.hooks@[i].id == id,
            )
        } else {
            Option::None
        }
    }

    /// An empty list.
    pub fn new() -> (r: HookList<T>)
        ensures
            r.hooks@.len() == 0,
            r.next_id == 0,
            r.wf(),
    {
        HookList { hooks: Vec::new(), next_id: 0 }
    }

    /// Add a hook at the front; teardown order walks it first.
    pub fn prepend(&mut self, callbacks: T) -> (r: HookId)
        requires
            old(self).wf(),
            old(self).next_id < HookId::MAX,
        ensures
            final(self).wf(),
            r == old(self).next_id,
            final(self).next_id == old(self).next_id + 1,
            final(self).hooks@.len() == old(self).hooks@.len() + 1,
            final(self).hooks@[0].id == r,
            final(self).hooks@.skip(1) == old(self).hooks@,
    {
        let id = self.next_id;
        self.hooks.insert(0, Hook { id, callbacks });
        self.next_id = self.next_id + 1;
        proof {
            assert(final(self).hooks@.skip(1) =~= old(self).hooks@);
        }
        id
    }

    /// Add a hook at the back; emission order reaches it last.
    pub fn append(&mut self, callbacks: T) -> (r: HookId)
        requires
            old(self).wf(),
            old(self).next_id < HookId::MAX,
        ensures
            final(self).wf(),
            r == old(self).next_id,
            final(self).next_id == old(self).next_id + 1,
            final(self).hooks@.len() == old(self).hooks@.len() + 1,
            final(self).hooks@.last().id == r,
            final(self).hooks@.drop_last() == old(self).hooks@,
    {
        let id = self.next_id;
        self.hooks.push(Hook { id, callbacks });
        self.next_id = self.next_id + 1;
        proof {
            assert(final(self).hooks@.drop_last() =~= old(self).hooks@);
        }
        id
    }

    /// Number of hooks held.
    pub fn len(&self) -> (r: usize)
        ensures
            r == self.hooks@.len(),
    {
        self.hooks.len()
    }

    /// The hook at an index, in emission order.
    pub fn get(&self, i: usize) -> (r: &Hook<T>)
        requires
            i < self.hooks@.len(),
        ensures
            r == &self.hooks@[i as int],
    {
        &self.hooks[i]
    }

    /// Remove the hook with the given identifier and hand its callbacks
    /// back, or nothing when the identifier is not held.
    pub fn remove(&mut self, id: HookId) -> (r: Option<T>)
        requires
            old(self).wf(),
        ensures
            final(self).wf(),
            final(self).next_id == old(self).next_id,
            match old(self).spec_find(id) {
                Option::Some(i) => {
                    &&& r is Some
                    &&& final(self).hooks@ == old(self).hooks@.remove(i)
                },
                Option::None => {
                    &&& r is None
                    &&& final(self).hooks@ == old(self).hooks@
                },
            },
    {
        let n = self.hooks.len();
        let mut i: usize = 0;
        while i < n
            invariant
                i <= n,
                old(self).wf(),
                *self == *old(self),
                n == self.hooks@.len(),
                forall|j: int| 0 <= j < i ==> #[trigger] self.hooks@[j].id != id,
            decreases n - i,
        {
            if self.hooks[i].id == id {
                proof {
                    assert(0 <= i < old(self).hooks@.len() && old(self).hooks@[i as int].id == id);
                    assert(old(self).spec_find(id) is Some);
                    let fi = old(self).spec_find(id).unwrap();
                    assert(old(self).hooks@[fi].id == id);
                    if fi < i {
                        assert(old(self).hooks@[fi].id != id);
                    } else if fi > i as int {
                        assert(old(self).hooks@[i as int].id != old(self).hooks@[fi].id);
                    }
                    assert(fi == i);
                }
                let hook = self.hooks.remove(i);
                proof {
                    let post = self.hooks@;
                    let pre = old(self).hooks@;
                    assert(forall|k: int|
                        0 <= k < post.len() ==> #[trigger] post[k] == (if k < i {
                            pre[k]
                        } else {
                            pre[k + 1]
                        }));
                    assert forall|k: int, l: int| 0 <= k < l < post.len() implies post[k].id
                        != post[l].id by {
                        let kk = if k < i { k } else { k + 1 };
                        let ll = if l < i { l } else { l + 1 };
                        assert(post[k] == pre[kk] && post[l] == pre[ll]);
                        assert(pre[kk].id != pre[ll].id);
                    }
                }
                return Option::Some(hook.callbacks);
            }
            i += 1;
        }
        proof {
            if old(self).spec_find(id) is Some {
                let fi = old(self).spec_find(id).unwrap();
                assert(old(self).hooks@[fi].id == id);
                assert(old(self).hooks@[fi].id != id);
            }
        }
        Option::None
    }
}

} // verus!
