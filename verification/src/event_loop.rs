//! Event-loop bookkeeping: the source registry keyed by file descriptor,
//! the idle list, and the dispatch plan for one iteration pass.
//!
//! The kernel work itself — creating descriptors, the poll wait, the
//! acknowledging reads — is outside work that the surrounding program
//! performs; this module decides, from the registry and from what the poll
//! wait reported, which source fires and in what order. Sources readied by
//! the same wait are dispatched in the order the kernel returned them, and
//! the idle sources that are enabled drain at the end of the pass.

use vstd::prelude::*;

use crate::error::Error;
use crate::interface::system::PollEvent;

verus! {

/// Readiness bits a source may be registered for: input, output, error,
/// hang-up. A mask holding any other bit is refused at registration.
pub const IO_IN: u32 = 0x1;

pub const IO_OUT: u32 = 0x4;

pub const IO_ERR: u32 = 0x8;

pub const IO_HUP: u32 = 0x10;

/// All defined readiness bits.
pub const IO_MASK: u32 = 0x1D;

/// The kernel's error number for an entry that already exists: a
/// registration on a descriptor the poll set already holds reports it,
/// as the kernel's own add would.
pub const EEXIST: i32 = 17;

/// What kind of kernel descriptor backs a source.
#[derive(Clone, Copy, Debug, PartialEq, Eq, Structural)]
pub enum SourceKind {
    Io,
    Timer,
    Event,
    Signal,
}

/// One descriptor-backed source: the descriptor, its kind, and the event
/// mask it is registered with.
#[derive(Clone, Copy, Debug, PartialEq, Eq, Structural)]
pub struct LoopSource {
    pub fd: i32,
    pub kind: SourceKind,
    pub mask: u32,
}

/// One userspace idle slot.
#[derive(Clone, Copy, Debug, PartialEq, Eq, Structural)]
pub struct IdleSource {
    pub id: u64,
    pub enabled: bool,
}

/// One entry of a pass's dispatch plan: which source fires, and with what.
/// An `Io` entry carries the readiness mask the kernel reported; the
/// surrounding program performs the acknowledging read that a `Timer`,
/// `Event` or `Signal` entry calls for.
#[derive(Clone, Copy, Debug, PartialEq, Eq, Structural)]
pub enum Dispatch {
    Io { fd: i32, rmask: u32 },
    Timer { fd: i32 },
    Event { fd: i32 },
    Signal { fd: i32 },
    Idle { id: u64 },
}

/// The loop's bookkeeping: descriptor-backed sources, idle slots, and the
/// counter idle identifiers are handed out from.
pub struct EventLoop {
    pub sources: Vec<LoopSource>,
    pub idles: Vec<IdleSource>,
    pub next_idle: u64,
}

/// Index of the first source on the given descriptor, or the length when
/// absent.
pub open spec fn spec_find_fd(sources: Seq<LoopSource>, fd: i32) -> int
    decreases sources.len(),
{
    if sources.len() == 0 {
        0
    } else if sources.first().fd == fd {
        0
    } else {
        1 + spec_find_fd(sources.drop_first(), fd)
    }
}

/// The found index is in range exactly when the descriptor is registered.
pub proof fn lemma_find_fd(sources: Seq<LoopSource>, fd: i32)
    ensures
        0 <= spec_find_fd(sources, fd) <= sources.len(),
        spec_find_fd(sources, fd) < sources.len() ==> sources[spec_find_fd(sources, fd)].fd == fd,
        forall|j: int|
            0 <= j < spec_find_fd(sources, fd) && j < sources.len() ==> #[trigger] sources[j].fd
                != fd,
    decreases sources.len(),
{
    if sources.len() > 0 && sources.first().fd != fd {
        lemma_find_fd(sources.drop_first(), fd);
        assert(forall|j: int|
            1 <= j < sources.len() ==> #[trigger] sources[j] == sources.drop_first()[j - 1]);
    }
}

/// Index of the first idle slot with the given identifier, or the length.
pub open spec fn spec_find_idle(idles: Seq<IdleSource>, id: u64) -> int
    decreases idles.len(),
{
    if idles.len() == 0 {
        0
    } else if idles.first().id == id {
        0
    } else {
        1 + spec_find_idle(idles.drop_first(), id)
    }
}

/// The found index is in range exactly when the identifier is held.
pub proof fn lemma_find_idle(idles: Seq<IdleSource>, id: u64)
    ensures
        0 <= spec_find_idle(idles, id) <= idles.len(),
        spec_find_idle(idles, id) < idles.len() ==> idles[spec_find_idle(idles, id)].id == id,
        forall|j: int|
            0 <= j < spec_find_idle(idles, id) && j < idles.len() ==> #[trigger] idles[j].id != id,
    decreases idles.len(),
{
    if idles.len() > 0 && idles.first().id != id {
        lemma_find_idle(idles.drop_first(), id);
        assert(forall|j: int|
            1 <= j < idles.len() ==> #[trigger] idles[j] == idles.drop_first()[j - 1]);
    }
}

/// The dispatch entry one readiness record plans: the record's cookie is
/// the descriptor of the source it wakes; a cookie naming no registered
/// source plans nothing.
pub open spec fn spec_event_dispatch(sources: Seq<LoopSource>, ev: PollEvent) -> Option<Dispatch> {
    let fd = ev.data as i32;
    let i = spec_find_fd(sources, fd);
    if ev.data <= i32::MAX && i < sources.len() {
        Option::Some(
            match sources[i].kind {
                SourceKind::Io => Dispatch::Io { fd, rmask: ev.events },
                SourceKind::Timer => Dispatch::Timer { fd },
                SourceKind::Event => Dispatch::Event { fd },
                SourceKind::Signal => Dispatch::Signal { fd },
            },
        )
    } else {
        Option::None
    }
}

/// The dispatch plan of the readiness records, in the kernel's order.
pub open spec fn spec_event_dispatches(sources: Seq<LoopSource>, events: Seq<PollEvent>) -> Seq<
    Dispatch,
>
    decreases events.len(),
{
    if events.len() == 0 {
        Seq::empty()
    } else {
        let rest = spec_event_dispatches(sources, events.drop_first());
        match spec_event_dispatch(sources, events.first()) {
            Option::Some(d) => seq![d] + rest,
            Option::None => rest,
        }
    }
}

/// The idle entries that drain at the end of a pass: the enabled slots, in
/// registration order.
pub open spec fn spec_idle_dispatches(idles: Seq<IdleSource>) -> Seq<Dispatch>
    decreases idles.len(),
{
    if idles.len() == 0 {
        Seq::empty()
    } else {
        let rest = spec_idle_dispatches(idles.drop_first());
        if idles.first().enabled {
            seq![Dispatch::Idle { id: idles.first().id }] + rest
        } else {
            rest
        }
    }
}

impl EventLoop {
    /// Distinct descriptors and distinct idle identifiers.
    pub open spec fn wf(self) -> bool {
        &&& forall|i: int, j: int|
            #![trigger self.sources@[i].fd, self.sources@[j].fd]
            0 <= i < j < self.sources@.len() ==> self.sources@[i].fd != self.sources@[j].fd
        &&& forall|i: int|
            0 <= i < self.idles@.len() ==> #[trigger] self.idles@[i].id < self.next_idle
        &&& forall|i: int, j: int|
            #![trigger self.idles@[i].id, self.idles@[j].id]
            0 <= i < j < self.idles@.len() ==> self.idles@[i].id != self.idles@[j].id
    }

    /// An empty loop.
    pub fn new() -> (r: EventLoop)
        ensures
            r.sources@.len() == 0,
            r.idles@.len() == 0,
            r.next_idle == 0,
            r.wf(),
    {
        EventLoop { sources: Vec::new(), idles: Vec::new(), next_idle: 0 }
    }

    /// Index of the first source on a descriptor, or the length.
    fn find_fd(&self, fd: i32) -> (r: usize)
        ensures
            r == spec_find_fd(self.sources@, fd),
    {
        let n = self.sources.len();
        proof {
            assert(self.sources@.skip(0) =~= self.sources@);
        }
        let mut i: usize = 0;
        while i < n
            invariant
                i <= n,
                n == self.sources@.len(),
                spec_find_fd(self.sources@, fd) == i + spec_find_fd(
                    self.sources@.skip(i as int),
                    fd,
                ),
            decreases n - i,
        {
            if self.sources[i].fd == fd {
                proof {
                    assert(self.sources@.skip(i as int).first() == self.sources@[i as int]);
                }
                return i;
            }
            proof {
                assert(self.sources@.skip(i as int).first() == self.sources@[i as int]);
                assert(self.sources@.skip(i as int).drop_first() =~= self.sources@.skip(i + 1));
            }
            i += 1;
        }
        proof {
            assert(self.sources@.skip(n as int).len() == 0);
        }
        n
    }

    /// The registered source on a descriptor, if any.
    pub fn find_source(&self, fd: i32) -> (r: Option<&LoopSource>)
        ensures
            spec_find_fd(self.sources@, fd) < self.sources@.len() ==> (r matches Some(s) && s
                == &self.sources@[spec_find_fd(self.sources@, fd)]),
            spec_find_fd(self.sources@, fd) >= self.sources@.len() ==> r is None,
    {
        let i = self.find_fd(fd);
        proof {
            lemma_find_fd(self.sources@, fd);
        }
        if i < self.sources.len() {
            Option::Some(&self.sources[i])
        } else {
            Option::None
        }
    }

    /// Register a source on a fresh descriptor. A mask holding undefined
    /// readiness bits is invalid input; a descriptor already held reports
    /// the kernel's existing-entry error number; a failed registration
    /// changes nothing.
    pub fn add_source(&mut self, fd: i32, kind: SourceKind, mask: u32) -> (r: Result<(), Error>)
        requires
            old(self).wf(),
        ensures
            final(self).wf(),
            final(self).idles@ == old(self).idles@,
            final(self).next_idle == old(self).next_idle,
            mask & !IO_MASK != 0 ==> (r matches Err(e) && e == Error::Invalid && final(self).sources@ == old(self).sources@),
            mask & !IO_MASK == 0 && spec_find_fd(old(self).sources@, fd) < old(self).sources@.len() ==> (r matches Err(e) && e == Error::Errno(EEXIST) && final(self).sources@
                == old(self).sources@),
            mask & !IO_MASK == 0 && spec_find_fd(old(self).sources@, fd) >= old(self).sources@.len() ==> (r matches Ok(u) && final(self).sources@ == old(self).sources@.push((LoopSource { fd, kind, mask }))),
    {
        if mask & !IO_MASK != 0 {
            return Err(Error::Invalid);
        }
        let i = self.find_fd(fd);
        proof {
            lemma_find_fd(self.sources@, fd);
        }
        if i < self.sources.len() {
            return Err(Error::Errno(EEXIST));
        }
        self.sources.push(LoopSource { fd, kind, mask });
        Ok(())
    }

    /// Replace the event mask of a registered source; a mask holding
    /// undefined readiness bits is refused, as is an unknown descriptor.
    pub fn update_source(&mut self, fd: i32, mask: u32) -> (r: Result<(), Error>)
        requires
            old(self).wf(),
        ensures
            final(self).wf(),
            final(self).idles@ == old(self).idles@,
            final(self).next_idle == old(self).next_idle,
            mask & !IO_MASK != 0 ==> (r matches Err(e) && e == Error::Invalid && final(self).sources@ == old(self).sources@),
            mask & !IO_MASK == 0 ==> ({
                let i = spec_find_fd(old(self).sources@, fd);
                if i < old(self).sources@.len() {
                    r matches Ok(u) && final(self).sources@ == old(self).sources@.update(
                        i,
                        (LoopSource { fd, kind: old(self).sources@[i].kind, mask }),
                    )
                } else {
                    r matches Err(e) && e == Error::NotFound && final(self).sources@ == old(self).sources@
                }
            }),
    {
        if mask & !IO_MASK != 0 {
            return Err(Error::Invalid);
        }
        let i = self.find_fd(fd);
        proof {
            lemma_find_fd(self.sources@, fd);
        }
        if i >= self.sources.len() {
            return Err(Error::NotFound);
        }
        let kind = self.sources[i].kind;
        self.sources.set(i, LoopSource { fd, kind, mask });
        Ok(())
    }

    /// Drop the source on a descriptor; an unknown descriptor is refused.
    pub fn remove_source(&mut self, fd: i32) -> (r: Result<LoopSource, Error>)
        requires
            old(self).wf(),
        ensures
            final(self).wf(),
            final(self).idles@ == old(self).idles@,
            final(self).next_idle == old(self).next_idle,
            ({
                let i = spec_find_fd(old(self).sources@, fd);
                if i < old(self).sources@.len() {
                    r matches Ok(s) && s == old(self).sources@[i] && final(self).sources@ == old(self).sources@.remove(i)
                } else {
                    r matches Err(e) && e == Error::NotFound && final(self).sources@ == old(self).sources@
                }
            }),
    {
        let i = self.find_fd(fd);
        proof {
            lemma_find_fd(self.sources@, fd);
        }
        if i >= self.sources.len() {
            return Err(Error::NotFound);
        }
        let s = self.sources.remove(i);
        proof {
            let post = self.sources@;
            let pre = old(self).sources@;
            assert(forall|k: int|
                0 <= k < post.len() ==> #[trigger] post[k] == (if k < i {
                    pre[k]
                } else {
                    pre[k + 1]
                }));
            assert forall|k: int, l: int| 0 <= k < l < post.len() implies post[k].fd
                != post[l].fd by {
                let kk = if k < i { k } else { k + 1 };
                let ll = if l < i { l } else { l + 1 };
                assert(post[k] == pre[kk] && post[l] == pre[ll]);
                assert(pre[kk].fd != pre[ll].fd);
            }
        }
        Ok(s)
    }

    /// Register an idle slot and hand out its identifier.
    pub fn add_idle(&mut self, enabled: bool) -> (r: u64)
        requires
            old(self).wf(),
            old(self).next_idle < u64::MAX,
        ensures
            final(self).wf(),
            final(self).sources@ == old(self).sources@,
            r == old(self).next_idle,
            final(self).next_idle == old(self).next_idle + 1,
            final(self).idles@ == old(self).idles@.push((IdleSource { id: r, enabled })),
    {
        let id = self.next_idle;
        self.idles.push(IdleSource { id, enabled });
        self.next_idle = self.next_idle + 1;
        id
    }

    /// Index of the first idle slot with an identifier, or the length.
    fn find_idle(&self, id: u64) -> (r: usize)
        ensures
            r == spec_find_idle(self.idles@, id),
    {
        let n = self.idles.len();
        proof {
            assert(self.idles@.skip(0) =~= self.idles@);
        }
        let mut i: usize = 0;
        while i < n
            invariant
                i <= n,
                n == self.idles@.len(),
                spec_find_idle(self.idles@, id) == i + spec_find_idle(
                    self.idles@.skip(i as int),
                    id,
                ),
            decreases n - i,
        {
            if self.idles[i].id == id {
                proof {
                    assert(self.idles@.skip(i as int).first() == self.idles@[i as int]);
                }
                return i;
            }
            proof {
                assert(self.idles@.skip(i as int).first() == self.idles@[i as int]);
                assert(self.idles@.skip(i as int).drop_first() =~= self.idles@.skip(i + 1));
            }
            i += 1;
        }
        proof {
            assert(self.idles@.skip(n as int).len() == 0);
        }
        n
    }

    /// Enable or disable an idle slot; an unknown identifier is refused.
    pub fn enable_idle(&mut self, id: u64, enabled: bool) -> (r: Result<(), Error>)
        requires
            old(self).wf(),
        ensures
            final(self).wf(),
            final(self).sources@ == old(self).sources@,
            final(self).next_idle == old(self).next_idle,
            ({
                let i = spec_find_idle(old(self).idles@, id);
                if i < old(self).idles@.len() {
                    r matches Ok(u) && final(self).idles@ == old(self).idles@.update(
                        i,
                        (IdleSource { id, enabled }),
                    )
                } else {
                    r matches Err(e) && e == Error::NotFound && final(self).idles@ == old(self).idles@
                }
            }),
    {
        let i = self.find_idle(id);
        proof {
            lemma_find_idle(self.idles@, id);
        }
        if i >= self.idles.len() {
            return Err(Error::NotFound);
        }
        self.idles.set(i, IdleSource { id, enabled });
        Ok(())
    }

    /// Drop an idle slot; an unknown identifier is refused.
    pub fn remove_idle(&mut self, id: u64) -> (r: Result<(), Error>)
        requires
            old(self).wf(),
        ensures
            final(self).wf(),
            final(self).sources@ == old(self).sources@,
            final(self).next_idle == old(self).next_idle,
            ({
                let i = spec_find_idle(old(self).idles@, id);
                if i < old(self).idles@.len() {
                    r matches Ok(u) && final(self).idles@ == old(self).idles@.remove(i)
                } else {
                    r matches Err(e) && e == Error::NotFound && final(self).idles@ == old(self).idles@
                }
            }),
    {
        let i = self.find_idle(id);
        proof {
            lemma_find_idle(self.idles@, id);
        }
        if i >= self.idles.len() {
            return Err(Error::NotFound);
        }
        self.idles.remove(i);
        proof {
            let post = self.idles@;
            let pre = old(self).idles@;
            assert(forall|k: int|
                0 <= k < post.len() ==> #[trigger] post[k] == (if k < i {
                    pre[k]
                } else {
                    pre[k + 1]
                }));
            assert forall|k: int, l: int| 0 <= k < l < post.len() implies post[k].id
                != post[l].id by {
                let kk = if k < i { k } else { k + 1 };
                let ll = if l < i { l } else { l + 1 };
                assert(post[k] == pre[kk] && post[l] == pre[ll]);
                assert(pre[kk].id != pre[ll].id);
            }
        }
        Ok(())
    }

    /// The dispatch plan of one pass, given what the poll wait reported:
    /// first, one entry per readiness record whose cookie names a
    /// registered source, in the kernel's order; then one entry per
    /// enabled idle slot, in registration order.
    pub fn plan_dispatch(&self, events: &Vec<PollEvent>) -> (r: Vec<Dispatch>)
        ensures
            r@ == spec_event_dispatches(self.sources@, events@) + spec_idle_dispatches(
                self.idles@,
            ),
    {
        let mut out: Vec<Dispatch> = Vec::new();
        let n = events.len();
        let mut i: usize = 0;
        while i < n
            invariant
                i <= n,
                n == events@.len(),
                out@ == spec_event_dispatches(self.sources@, events@.take(i as int)),
            decreases n - i,
        {
            let ev = events[i];
            proof {
                lemma_event_dispatches_push(self.sources@, events@.take(i as int), ev);
                assert(events@.take(i + 1) =~= events@.take(i as int).push(ev));
            }
            if ev.data <= i32::MAX as u64 {
                let fd = ev.data as i32;
                let j = self.find_fd(fd);
                proof {
                    lemma_find_fd(self.sources@, fd);
                }
                if j < self.sources.len() {
                    let d = match self.sources[j].kind {
                        SourceKind::Io => Dispatch::Io { fd, rmask: ev.events },
                        SourceKind::Timer => Dispatch::Timer { fd },
                        SourceKind::Event => Dispatch::Event { fd },
                        SourceKind::Signal => Dispatch::Signal { fd },
                    };
                    out.push(d);
                }
            }
            i += 1;
        }
        proof {
            assert(events@.take(n as int) =~= events@);
        }
        let m = self.idles.len();
        let ghost evpart = out@;
        let mut k: usize = 0;
        while k < m
            invariant
                k <= m,
                m == self.idles@.len(),
                out@ == evpart + spec_idle_dispatches(self.idles@.take(k as int)),
            decreases m - k,
        {
            let idle = self.idles[k];
            proof {
                lemma_idle_dispatches_push(self.idles@.take(k as int), idle);
                assert(self.idles@.take(k + 1) =~= self.idles@.take(k as int).push(idle));
            }
            if idle.enabled {
                out.push(Dispatch::Idle { id: idle.id });
            }
            k += 1;
        }
        proof {
            assert(self.idles@.take(m as int) =~= self.idles@);
        }
        out
    }
}

/// Appending one readiness record extends the plan by that record's entry.
pub proof fn lemma_event_dispatches_push(
    sources: Seq<LoopSource>,
    events: Seq<PollEvent>,
    ev: PollEvent,
)
    ensures
        spec_event_dispatches(sources, events.push(ev)) == spec_event_dispatches(sources, events)
            + (match spec_event_dispatch(sources, ev) {
            Option::Some(d) => seq![d],
            Option::None => Seq::empty(),
        }),
    decreases events.len(),
{
    let whole = events.push(ev);
    if events.len() == 0 {
        assert(whole.drop_first() =~= Seq::<PollEvent>::empty());
        assert(whole.first() == ev);
        assert(spec_event_dispatches(sources, Seq::<PollEvent>::empty())
            == Seq::<Dispatch>::empty());
        assert(spec_event_dispatches(sources, whole.drop_first()) == Seq::<Dispatch>::empty());
        assert(events =~= Seq::<PollEvent>::empty());
        match spec_event_dispatch(sources, ev) {
            Option::Some(d) => {
                assert(spec_event_dispatches(sources, whole) =~= spec_event_dispatches(
                    sources,
                    events,
                ) + seq![d]);
            },
            Option::None => {
                assert(spec_event_dispatches(sources, whole) =~= spec_event_dispatches(
                    sources,
                    events,
                ));
            },
        }
    } else {
        assert(whole.first() == events.first());
        assert(whole.drop_first() =~= events.drop_first().push(ev));
        lemma_event_dispatches_push(sources, events.drop_first(), ev);
        match spec_event_dispatch(sources, ev) {
            Option::Some(d) => {
                assert(spec_event_dispatches(sources, whole) =~= spec_event_dispatches(
                    sources,
                    events,
                ) + seq![d]);
            },
            Option::None => {
                assert(spec_event_dispatches(sources, whole) =~= spec_event_dispatches(
                    sources,
                    events,
                ));
            },
        }
    }
}

/// Appending one idle slot extends the drain plan by its entry when it is
/// enabled.
pub proof fn lemma_idle_dispatches_push(idles: Seq<IdleSource>, idle: IdleSource)
    ensures
        spec_idle_dispatches(idles.push(idle)) == spec_idle_dispatches(idles) + (if idle.enabled {
            seq![Dispatch::Idle { id: idle.id }]
        } else {
            Seq::empty()
        }),
    decreases idles.len(),
{
    let whole = idles.push(idle);
    if idles.len() == 0 {
        assert(whole.drop_first() =~= Seq::<IdleSource>::empty());
        assert(whole.first() == idle);
        assert(spec_idle_dispatches(Seq::<IdleSource>::empty()) == Seq::<Dispatch>::empty());
        assert(spec_idle_dispatches(whole.drop_first()) == Seq::<Dispatch>::empty());
        assert(idles =~= Seq::<IdleSource>::empty());
        if idle.enabled {
            assert(spec_idle_dispatches(whole) =~= spec_idle_dispatches(idles) + seq![
                Dispatch::Idle { id: idle.id },
            ]);
        } else {
            assert(spec_idle_dispatches(whole) =~= spec_idle_dispatches(idles));
        }
    } else {
        assert(whole.first() == idles.first());
        assert(whole.drop_first() =~= idles.drop_first().push(idle));
        lemma_idle_dispatches_push(idles.drop_first(), idle);
        if idle.enabled {
            assert(spec_idle_dispatches(whole) =~= spec_idle_dispatches(idles) + seq![
                Dispatch::Idle { id: idle.id },
            ]);
        } else {
            assert(spec_idle_dispatches(whole) =~= spec_idle_dispatches(idles));
        }
    }
}

/// Count of enabled idle slots.
pub open spec fn spec_enabled_idles(idles: Seq<IdleSource>) -> int
    decreases idles.len(),
{
    if idles.len() == 0 {
        0
    } else {
        (if idles.first().enabled {
            1int
        } else {
            0int
        }) + spec_enabled_idles(idles.drop_first())
    }
}

/// The drain plan holds exactly the enabled idle slots.
pub proof fn lemma_idle_dispatch_len(idles: Seq<IdleSource>)
    ensures
        spec_idle_dispatches(idles).len() == spec_enabled_idles(idles),
    decreases idles.len(),
{
    if idles.len() > 0 {
        lemma_idle_dispatch_len(idles.drop_first());
    }
}

/// Iteration accounting: when every readiness record the poll wait
/// reported names a registered source, one pass dispatches exactly one
/// entry per record plus one per enabled idle slot — with `n` distinct
/// ready sources and no idles, the pass returns `n`.
pub proof fn lemma_iterate_accounting(
    sources: Seq<LoopSource>,
    idles: Seq<IdleSource>,
    events: Seq<PollEvent>,
)
    requires
        forall|i: int|
            0 <= i < events.len() ==> spec_event_dispatch(sources, #[trigger] events[i]) is Some,
    ensures
        (spec_event_dispatches(sources, events) + spec_idle_dispatches(idles)).len()
            == events.len() + spec_enabled_idles(idles),
    decreases events.len(),
{
    lemma_idle_dispatch_len(idles);
    if events.len() > 0 {
        assert(events[0] == events.first());
        assert(forall|i: int|
            0 <= i < events.drop_first().len() ==> #[trigger] events.drop_first()[i] == events[i
                + 1]);
        lemma_iterate_accounting(sources, idles, events.drop_first());
    }
}

} // verus!

verus! {

/// The loop-control lifecycle: thread affinity by enter/leave nesting, the
/// critical section around loop state, and the signal/accept handshake of
/// a blocking cross-thread invocation. This is the bookkeeping the control
/// interface decides with; the kernel-side waiting is the surrounding
/// program's work.
pub struct LoopControl {
    pub enter_depth: u32,
    pub locked: bool,
    pub signal_pending: bool,
    pub wait_for_accept: bool,
}

impl LoopControl {
    /// A fresh control block: not entered, not locked, nothing signaled.
    pub fn new() -> (r: LoopControl)
        ensures
            r.enter_depth == 0,
            !r.locked,
            !r.signal_pending,
            !r.wait_for_accept,
    {
        LoopControl { enter_depth: 0, locked: false, signal_pending: false, wait_for_accept: false }
    }

    /// Mark the calling thread as the loop's owner; entry nests.
    pub fn enter(&mut self)
        requires
            old(self).enter_depth < u32::MAX,
        ensures
            final(self).enter_depth == old(self).enter_depth + 1,
            final(self).locked == old(self).locked,
            final(self).signal_pending == old(self).signal_pending,
            final(self).wait_for_accept == old(self).wait_for_accept,
    {
        self.enter_depth = self.enter_depth + 1;
    }

    /// Release one level of ownership; only an entered loop can be left.
    pub fn leave(&mut self) -> (r: Result<(), Error>)
        ensures
            old(self).enter_depth > 0 ==> (r matches Ok(u)
                && final(self).enter_depth == old(self).enter_depth - 1),
            old(self).enter_depth == 0 ==> (r matches Err(e) && e == Error::Invalid
                && final(self).enter_depth == 0),
            final(self).locked == old(self).locked,
            final(self).signal_pending == old(self).signal_pending,
            final(self).wait_for_accept == old(self).wait_for_accept,
    {
        if self.enter_depth == 0 {
            return Err(Error::Invalid);
        }
        self.enter_depth = self.enter_depth - 1;
        Ok(())
    }

    /// Whether a thread currently owns the loop: dispatch may only run
    /// then.
    pub fn check(&self) -> (r: bool)
        ensures
            r <==> self.enter_depth > 0,
    {
        self.enter_depth > 0
    }

    /// Take the critical section around loop state; taking it twice is
    /// refused.
    pub fn lock(&mut self) -> (r: Result<(), Error>)
        ensures
            !old(self).locked ==> (r matches Ok(u) && final(self).locked),
            old(self).locked ==> (r matches Err(e) && e == Error::Invalid && final(self).locked),
            final(self).enter_depth == old(self).enter_depth,
            final(self).signal_pending == old(self).signal_pending,
            final(self).wait_for_accept == old(self).wait_for_accept,
    {
        if self.locked {
            return Err(Error::Invalid);
        }
        self.locked = true;
        Ok(())
    }

    /// Release the critical section; releasing it untaken is refused.
    pub fn unlock(&mut self) -> (r: Result<(), Error>)
        ensures
            old(self).locked ==> (r matches Ok(u) && !final(self).locked),
            !old(self).locked ==> (r matches Err(e) && e == Error::Invalid && !final(self).locked),
            final(self).enter_depth == old(self).enter_depth,
            final(self).signal_pending == old(self).signal_pending,
            final(self).wait_for_accept == old(self).wait_for_accept,
    {
        if !self.locked {
            return Err(Error::Invalid);
        }
        self.locked = false;
        Ok(())
    }

    /// Post the handshake's signal, optionally asking the waiter to stay
    /// until the signal is accepted.
    pub fn signal(&mut self, wait_for_accept: bool)
        ensures
            final(self).signal_pending,
            final(self).wait_for_accept == wait_for_accept,
            final(self).enter_depth == old(self).enter_depth,
            final(self).locked == old(self).locked,
    {
        self.signal_pending = true;
        self.wait_for_accept = wait_for_accept;
    }

    /// Consume a pending signal on the waiting side; without one, there is
    /// nothing to take.
    pub fn take_signal(&mut self) -> (r: bool)
        ensures
            r == old(self).signal_pending,
            !final(self).signal_pending,
            final(self).wait_for_accept == old(self).wait_for_accept,
            final(self).enter_depth == old(self).enter_depth,
            final(self).locked == old(self).locked,
    {
        let was = self.signal_pending;
        self.signal_pending = false;
        was
    }

    /// Acknowledge an accepted signal, releasing a signaler that asked to
    /// wait.
    pub fn accept(&mut self) -> (r: Result<(), Error>)
        ensures
            old(self).wait_for_accept ==> (r matches Ok(u) && !final(self).wait_for_accept),
            !old(self).wait_for_accept ==> (r matches Err(e) && e == Error::Invalid),
            final(self).signal_pending == old(self).signal_pending,
            final(self).enter_depth == old(self).enter_depth,
            final(self).locked == old(self).locked,
    {
        if !self.wait_for_accept {
            return Err(Error::Invalid);
        }
        self.wait_for_accept = false;
        Ok(())
    }
}

} // verus!

verus! {

/// One pending cross-thread invocation: the caller's sequence number, its
/// opaque payload, and whether the caller blocks until completion.
pub struct InvokeItem {
    pub seq: u32,
    pub data: Vec<u8>,
    pub block: bool,
}

/// The single-producer queue of pending cross-thread invocations. The
/// consumer drains it at the head of an iteration pass, so pending
/// invocations run strictly before any kernel-event dispatch of the same
/// pass.
pub struct InvokeQueue {
    pub items: Vec<InvokeItem>,
}

impl InvokeQueue {
    /// An empty queue.
    pub fn new() -> (r: InvokeQueue)
        ensures
            r.items@.len() == 0,
    {
        InvokeQueue { items: Vec::new() }
    }

    /// Enqueue one invocation at the tail; the order of arrival is kept.
    pub fn enqueue(&mut self, seq: u32, data: Vec<u8>, block: bool)
        ensures
            final(self).items@ == old(self).items@.push((InvokeItem { seq, data, block })),
    {
        self.items.push(InvokeItem { seq, data, block });
    }

    /// Number of pending invocations.
    pub fn len(&self) -> (r: usize)
        ensures
            r == self.items@.len(),
    {
        self.items.len()
    }

    /// Hand every pending invocation to the consumer, oldest first,
    /// leaving the queue empty.
    pub fn drain(&mut self) -> (r: Vec<InvokeItem>)
        ensures
            r@ == old(self).items@,
            final(self).items@.len() == 0,
    {
        let mut out: Vec<InvokeItem> = Vec::new();
        std::mem::swap(&mut out, &mut self.items);
        out
    }
}

} // verus!
