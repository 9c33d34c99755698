//! The subject: a multicast hub that is both observer and observable. A
//! producer calls `next`/`err`/`complete` on it; every currently attached,
//! still-active subscription receives the event. Subscribing attaches an
//! observer and yields an identifier whose disposal detaches it; a
//! subscription whose observer reports closure is detached and its disposal
//! token disposed, so its teardown runs exactly once.

use vstd::prelude::*;

use core::marker::PhantomData;

use crate::noti::RxNoti;
use crate::observable::{Observable, YesNo};
use crate::observer::Observer;
use crate::op::take_until::{notify_rel, TakeUntilState};
use crate::unsub::{add_step, all_ran, dispose_step, Unsub};

verus! {

/// One attached subscription: its identifier, whether it is still active,
/// its observer, and its disposal token.
pub struct SubEntry<O, F> {
    pub id: u64,
    pub active: bool,
    pub obs: O,
    pub unsub: Unsub<F>,
}

/// What one fan-out event does to one attached subscription: an inactive
/// one is untouched; one whose observer already closed is detached, its
/// token disposed and its pending teardown run; otherwise the observer
/// receives the event, and a terminal event or a closure reported
/// afterwards detaches it, disposes its token and runs its teardown.
pub open spec fn entry_rel<V, E, O: Observer<V, E>, F: Fn() -> ()>(
    pre: SubEntry<O, F>,
    ev: RxNoti<V, E>,
    post: SubEntry<O, F>,
) -> bool {
    &&& post.id == pre.id
    &&& if !pre.active {
        post == pre
    } else if pre.obs.closed() {
        &&& post.obs == pre.obs
        &&& !post.active
        &&& post.unsub@ == dispose_step(pre.unsub@)
        &&& all_ran(pre.unsub@.pending)
    } else {
        match ev {
            RxNoti::Next(_) => exists|o2: O|
                {
                    &&& #[trigger] O::rel(pre.obs, ev, o2)
                    &&& post.obs == o2
                    &&& if o2.closed() {
                        &&& !post.active
                        &&& post.unsub@ == dispose_step(pre.unsub@)
                        &&& all_ran(pre.unsub@.pending)
                    } else {
                        post.active && post.unsub@ == pre.unsub@
                    }
                },
            _ => {
                &&& O::rel(pre.obs, ev, post.obs)
                &&& !post.active
                &&& post.unsub@ == dispose_step(pre.unsub@)
                &&& all_ran(pre.unsub@.pending)
            },
        }
    }
}

/// What one fan-out event does to the whole subscription list: each entry
/// steps by `entry_rel`, independently, in place.
pub open spec fn fanout_rel<V, E, O: Observer<V, E>, F: Fn() -> ()>(
    pre: Seq<SubEntry<O, F>>,
    ev: RxNoti<V, E>,
    post: Seq<SubEntry<O, F>>,
) -> bool {
    &&& post.len() == pre.len()
    &&& forall|i: int| 0 <= i < pre.len() ==> entry_rel(pre[i], ev, #[trigger] post[i])
}

/// The multicast hub. `SS` is the thread-safety variant the chains composed
/// over it carry; `O` is the one observer type attached subscriptions have;
/// `F` is the teardown action type of their disposal tokens.
pub struct Subject<SS, V, E, O, F> {
    subs: Vec<SubEntry<O, F>>,
    next_id: u64,
    stopped: bool,
    marker: PhantomData<(SS, V, E)>,
}

impl<SS: YesNo, V: Copy, E: Copy, O: Observer<V, E>, F: Fn() -> ()> Subject<SS, V, E, O, F> {
    /// The attached subscriptions, in attachment order.
    pub closed spec fn entries(&self) -> Seq<SubEntry<O, F>> {
        self.subs@
    }

    /// Whether a terminal event has already gone out.
    pub closed spec fn spec_stopped(&self) -> bool {
        self.stopped
    }

    /// The identifier the next subscription will get.
    pub closed spec fn spec_next_id(&self) -> u64 {
        self.next_id
    }

    /// Every attached subscription's disposal token is well-formed.
    pub open spec fn wf(&self) -> bool {
        forall|i: int| 0 <= i < self.entries().len() ==> (#[trigger] self.entries()[i]).unsub.wf()
    }

    /// A live subject with no subscriptions.
    pub fn new() -> (r: Self)
        ensures
            r.entries() == Seq::<SubEntry<O, F>>::empty(),
            !r.spec_stopped(),
            r.spec_next_id() == 0,
            r.wf(),
    {
        Subject { subs: Vec::new(), next_id: 0, stopped: false, marker: PhantomData }
    }

    /// Whether a terminal event has already gone out.
    pub fn is_stopped(&self) -> (r: bool)
        ensures
            r == self.spec_stopped(),
    {
        self.stopped
    }

    /// Fan one event out to every attached subscription, then note a
    /// terminal event in the stopped flag. After a terminal event the
    /// subject delivers nothing further.
    fn fanout(&mut self, ev: RxNoti<V, E>)
        requires
            old(self).wf(),
        ensures
            final(self).wf(),
            old(self).spec_stopped() ==> *final(self) == *old(self),
            !old(self).spec_stopped() ==> {
                &&& fanout_rel(old(self).entries(), ev, final(self).entries())
                &&& final(self).spec_stopped() == !(ev is Next)
                &&& final(self).spec_next_id() == old(self).spec_next_id()
            },
    {
        if self.stopped {
            return ;
        }
        let ghost pre = self.subs@;
        proof {
            assert(forall|i: int|
                0 <= i < pre.len() ==> (#[trigger] pre[i]).unsub.wf()) by {
                assert(forall|i: int|
                    0 <= i < old(self).entries().len() ==> (#[trigger] old(self).entries()[i])
                        .unsub.wf());
            }
        }
        let mut processed: Vec<SubEntry<O, F>> = Vec::new();
        while self.subs.len() > 0
            invariant
                self.stopped == old(self).spec_stopped(),
                self.next_id == old(self).spec_next_id(),
                pre.len() == processed@.len() + self.subs@.len(),
                self.subs@ == pre.skip(processed@.len() as int),
                forall|j: int|
                    0 <= j < processed@.len() ==> entry_rel(pre[j], ev, #[trigger] processed@[j]),
                forall|j: int|
                    0 <= j < processed@.len() ==> (#[trigger] processed@[j]).unsub.wf(),
                forall|i: int| 0 <= i < pre.len() ==> (#[trigger] pre[i]).unsub.wf(),
            decreases self.subs.len(),
        {
            let ghost k = processed@.len() as int;
            let mut e = self.subs.remove(0);
            proof {
                assert(pre.skip(k)[0] == pre[k]);
                assert(pre.skip(k).skip(1) =~= pre.skip(k + 1));
                assert(pre[k].unsub.wf());
            }
            if e.active {
                if e.obs._is_closed() {
                    e.active = false;
                    e.unsub.dispose();
                } else {
                    match &ev {
                        RxNoti::Next(v) => {
                            e.obs.next(*v);
                            let ghost o2 = e.obs;
                            if e.obs._is_closed() {
                                e.active = false;
                                e.unsub.dispose();
                            }
                            proof {
                                assert(O::rel(pre[k].obs, ev, o2));
                            }
                        },
                        RxNoti::Error(err) => {
                            e.obs.err(*err);
                            e.active = false;
                            e.unsub.dispose();
                        },
                        RxNoti::Comp => {
                            e.obs.complete();
                            e.active = false;
                            e.unsub.dispose();
                        },
                    }
                }
            }
            processed.push(e);
            proof {
                assert(entry_rel(pre[k], ev, processed@[k]));
            }
        }
        self.subs = processed;
        if !(match &ev {
            RxNoti::Next(_) => true,
            _ => false,
        }) {
            self.stopped = true;
        }
        proof {
            assert(self.entries() =~= processed@);
            assert(fanout_rel(old(self).entries(), ev, self.entries()));
        }
    }

    /// Deliver a value to every attached subscription.
    pub fn next(&mut self, v: V)
        requires
            old(self).wf(),
        ensures
            final(self).wf(),
            old(self).spec_stopped() ==> *final(self) == *old(self),
            !old(self).spec_stopped() ==> {
                &&& fanout_rel(old(self).entries(), RxNoti::<V, E>::Next(v), final(self).entries())
                &&& !final(self).spec_stopped()
                &&& final(self).spec_next_id() == old(self).spec_next_id()
            },
    {
        self.fanout(RxNoti::Next(v));
    }

    /// Deliver an error to every attached subscription; the subject stops.
    pub fn err(&mut self, e: E)
        requires
            old(self).wf(),
        ensures
            final(self).wf(),
            old(self).spec_stopped() ==> *final(self) == *old(self),
            !old(self).spec_stopped() ==> {
                &&& fanout_rel(old(self).entries(), RxNoti::<V, E>::Error(e), final(self).entries())
                &&& final(self).spec_stopped()
                &&& final(self).spec_next_id() == old(self).spec_next_id()
            },
    {
        self.fanout(RxNoti::Error(e));
    }

    /// Deliver completion to every attached subscription; the subject stops.
    pub fn complete(&mut self)
        requires
            old(self).wf(),
        ensures
            final(self).wf(),
            old(self).spec_stopped() ==> *final(self) == *old(self),
            !old(self).spec_stopped() ==> {
                &&& fanout_rel(old(self).entries(), RxNoti::<V, E>::Comp, final(self).entries())
                &&& final(self).spec_stopped()
                &&& final(self).spec_next_id() == old(self).spec_next_id()
            },
    {
        self.fanout(RxNoti::Comp);
    }

    /// The closed-query of the subject's observer surface.
    pub fn _is_closed(&self) -> (r: bool)
        ensures
            r == self.spec_stopped(),
    {
        self.stopped
    }

    /// Detach the subscription with the given identifier: it receives no
    /// further events and its teardown runs now, exactly once. Disposing an
    /// unknown or already detached identifier changes nothing further.
    pub fn unsub(&mut self, id: u64)
        requires
            old(self).wf(),
        ensures
            final(self).wf(),
            final(self).spec_stopped() == old(self).spec_stopped(),
            final(self).spec_next_id() == old(self).spec_next_id(),
            final(self).entries().len() == old(self).entries().len(),
            forall|i: int|
                0 <= i < old(self).entries().len() ==> {
                    let pre = old(self).entries()[i];
                    let post = #[trigger] final(self).entries()[i];
                    if pre.id == id {
                        &&& post.id == pre.id
                        &&& post.obs == pre.obs
                        &&& !post.active
                        &&& post.unsub@ == dispose_step(pre.unsub@)
                        &&& all_ran(pre.unsub@.pending)
                    } else {
                        post == pre
                    }
                },
    {
        let ghost pre = self.subs@;
        proof {
            assert(forall|i: int|
                0 <= i < pre.len() ==> (#[trigger] pre[i]).unsub.wf()) by {
                assert(forall|i: int|
                    0 <= i < old(self).entries().len() ==> (#[trigger] old(self).entries()[i])
                        .unsub.wf());
            }
        }
        let mut processed: Vec<SubEntry<O, F>> = Vec::new();
        while self.subs.len() > 0
            invariant
                self.stopped == old(self).spec_stopped(),
                self.next_id == old(self).spec_next_id(),
                pre.len() == processed@.len() + self.subs@.len(),
                self.subs@ == pre.skip(processed@.len() as int),
                forall|j: int|
                    0 <= j < processed@.len() ==> {
                        let p0 = pre[j];
                        let p1 = #[trigger] processed@[j];
                        if p0.id == id {
                            &&& p1.id == p0.id
                            &&& p1.obs == p0.obs
                            &&& !p1.active
                            &&& p1.unsub@ == dispose_step(p0.unsub@)
                            &&& all_ran(p0.unsub@.pending)
                        } else {
                            p1 == p0
                        }
                    },
                forall|j: int|
                    0 <= j < processed@.len() ==> (#[trigger] processed@[j]).unsub.wf(),
                forall|i: int| 0 <= i < pre.len() ==> (#[trigger] pre[i]).unsub.wf(),
            decreases self.subs.len(),
        {
            let ghost k = processed@.len() as int;
            let mut e = self.subs.remove(0);
            proof {
                assert(pre.skip(k)[0] == pre[k]);
                assert(pre.skip(k).skip(1) =~= pre.skip(k + 1));
                assert(pre[k].unsub.wf());
            }
            if e.id == id {
                e.active = false;
                e.unsub.dispose();
            }
            processed.push(e);
        }
        self.subs = processed;
        proof {
            assert(self.entries() =~= processed@);
        }
    }

    /// Register one more teardown action on the subscription with the given
    /// identifier; if that subscription is already detached, the action runs
    /// now.
    pub fn add_teardown(&mut self, id: u64, f: F)
        requires
            old(self).wf(),
            f.requires(()),
        ensures
            final(self).wf(),
            final(self).spec_stopped() == old(self).spec_stopped(),
            final(self).spec_next_id() == old(self).spec_next_id(),
            final(self).entries().len() == old(self).entries().len(),
            forall|i: int|
                0 <= i < old(self).entries().len() ==> {
                    let pre = old(self).entries()[i];
                    let post = #[trigger] final(self).entries()[i];
                    if pre.id == id && (forall|j: int|
                        0 <= j < i ==> (#[trigger] old(self).entries()[j]).id != id) {
                        &&& post.id == pre.id
                        &&& post.obs == pre.obs
                        &&& post.active == pre.active
                        &&& post.unsub@ == add_step(pre.unsub@, f)
                        &&& pre.unsub@.disposed ==> call_ensures(f, (), ())
                    } else {
                        post == pre
                    }
                },
    {
        let ghost pre = self.subs@;
        proof {
            assert(forall|i: int|
                0 <= i < pre.len() ==> (#[trigger] pre[i]).unsub.wf()) by {
                assert(forall|i: int|
                    0 <= i < old(self).entries().len() ==> (#[trigger] old(self).entries()[i])
                        .unsub.wf());
            }
        }
        let mut target: Option<F> = Some(f);
        let mut processed: Vec<SubEntry<O, F>> = Vec::new();
        while self.subs.len() > 0
            invariant
                self.stopped == old(self).spec_stopped(),
                self.next_id == old(self).spec_next_id(),
                pre.len() == processed@.len() + self.subs@.len(),
                self.subs@ == pre.skip(processed@.len() as int),
                target is Some ==> target->0 == f && f.requires(()),
                (exists|j: int| 0 <= j < processed@.len() && (#[trigger] pre[j]).id == id)
                    <==> target is None,
                forall|j: int|
                    0 <= j < processed@.len() ==> {
                        let p0 = pre[j];
                        let p1 = #[trigger] processed@[j];
                        if p0.id == id && (forall|j2: int|
                            0 <= j2 < j ==> (#[trigger] pre[j2]).id != id) {
                            &&& p1.id == p0.id
                            &&& p1.obs == p0.obs
                            &&& p1.active == p0.active
                            &&& p1.unsub@ == add_step(p0.unsub@, f)
                            &&& p0.unsub@.disposed ==> call_ensures(f, (), ())
                        } else {
                            p1 == p0
                        }
                    },
                forall|j: int|
                    0 <= j < processed@.len() ==> (#[trigger] processed@[j]).unsub.wf(),
                forall|i: int| 0 <= i < pre.len() ==> (#[trigger] pre[i]).unsub.wf(),
            decreases self.subs.len(),
        {
            let ghost k = processed@.len() as int;
            let mut e = self.subs.remove(0);
            proof {
                assert(pre.skip(k)[0] == pre[k]);
                assert(pre.skip(k).skip(1) =~= pre.skip(k + 1));
                assert(pre[k].unsub.wf());
            }
            if e.id == id {
                match target {
                    Some(g) => {
                        e.unsub.add(g);
                        target = None;
                    },
                    None => {},
                }
            }
            processed.push(e);
        }
        self.subs = processed;
        proof {
            assert(self.entries() =~= processed@);
        }
    }
}

impl<
    SS: YesNo,
    V: Copy,
    E: Copy,
    O2: Observer<V, E>,
    F: Fn() -> (),
> Subject<SS, V, E, TakeUntilState<V, E, O2>, F> {
    /// Route a notifier's firing to the `take_until` subscription with the
    /// given identifier: its downstream observer receives the synthesized
    /// completion, it is detached, and its teardown runs now — the wiring a
    /// driver uses when the notifier is a live source of its own. An
    /// unknown or already detached identifier changes nothing further.
    pub fn notify_take_until(&mut self, id: u64)
        requires
            old(self).wf(),
        ensures
            final(self).wf(),
            final(self).spec_stopped() == old(self).spec_stopped(),
            final(self).spec_next_id() == old(self).spec_next_id(),
            final(self).entries().len() == old(self).entries().len(),
            forall|i: int|
                0 <= i < old(self).entries().len() ==> {
                    let pre = old(self).entries()[i];
                    let post = #[trigger] final(self).entries()[i];
                    if pre.id == id && pre.active {
                        &&& post.id == pre.id
                        &&& notify_rel(pre.obs, post.obs)
                        &&& !post.active
                        &&& post.unsub@ == dispose_step(pre.unsub@)
                        &&& all_ran(pre.unsub@.pending)
                    } else {
                        post == pre
                    }
                },
    {
        let ghost pre = self.subs@;
        proof {
            assert(forall|i: int| 0 <= i < pre.len() ==> (#[trigger] pre[i]).unsub.wf()) by {
                assert(forall|i: int|
                    0 <= i < old(self).entries().len() ==> (#[trigger] old(self).entries()[i])
                        .unsub.wf());
            }
        }
        let mut processed: Vec<SubEntry<TakeUntilState<V, E, O2>, F>> = Vec::new();
        while self.subs.len() > 0
            invariant
                self.stopped == old(self).spec_stopped(),
                self.next_id == old(self).spec_next_id(),
                pre.len() == processed@.len() + self.subs@.len(),
                self.subs@ == pre.skip(processed@.len() as int),
                forall|j: int|
                    0 <= j < processed@.len() ==> {
                        let p0 = pre[j];
                        let p1 = #[trigger] processed@[j];
                        if p0.id == id && p0.active {
                            &&& p1.id == p0.id
                            &&& notify_rel(p0.obs, p1.obs)
                            &&& !p1.active
                            &&& p1.unsub@ == dispose_step(p0.unsub@)
                            &&& all_ran(p0.unsub@.pending)
                        } else {
                            p1 == p0
                        }
                    },
                forall|j: int|
                    0 <= j < processed@.len() ==> (#[trigger] processed@[j]).unsub.wf(),
                forall|i: int| 0 <= i < pre.len() ==> (#[trigger] pre[i]).unsub.wf(),
            decreases self.subs.len(),
        {
            let ghost k = processed@.len() as int;
            let mut e = self.subs.remove(0);
            proof {
                assert(pre.skip(k)[0] == pre[k]);
                assert(pre.skip(k).skip(1) =~= pre.skip(k + 1));
                assert(pre[k].unsub.wf());
            }
            if e.id == id && e.active {
                e.obs.notify();
                e.active = false;
                e.unsub.dispose();
            }
            processed.push(e);
        }
        self.subs = processed;
        proof {
            assert(self.entries() =~= processed@);
        }
    }
}

impl<SS: YesNo, V: Copy, E: Copy, O: Observer<V, E>, F: Fn() -> ()> Observable<SS, V, E, O>
    for Subject<SS, V, E, O, F> {
    type Out = (Subject<SS, V, E, O, F>, u64);

    open spec fn sub_pre(self, o: O) -> bool {
        &&& self.wf()
        &&& self.spec_next_id() < u64::MAX
    }

    /// Subscribing attaches the observer, active, with a fresh disposal
    /// token, and hands the subject back together with the subscription's
    /// identifier.
    open spec fn sub_rel(self, o: O, out: Self::Out) -> bool {
        let (s2, id) = out;
        &&& id == self.spec_next_id()
        &&& s2.spec_next_id() == self.spec_next_id() + 1
        &&& s2.spec_stopped() == self.spec_stopped()
        &&& s2.wf()
        &&& s2.entries().len() == self.entries().len() + 1
        &&& s2.entries().subrange(0, self.entries().len() as int) == self.entries()
        &&& s2.entries().last().id == id
        &&& s2.entries().last().active
        &&& s2.entries().last().obs == o
        &&& !s2.entries().last().unsub@.disposed
        &&& s2.entries().last().unsub@.pending == Seq::<F>::empty()
        &&& s2.entries().last().unsub@.ran == Seq::<F>::empty()
    }

    fn sub(self, o: O) -> (out: Self::Out) {
        proof {
            assert(self.wf());
        }
        let mut s = self;
        let id = s.next_id;
        s.next_id = s.next_id + 1;
        let entry = SubEntry { id, active: true, obs: o, unsub: Unsub::new() };
        s.subs.push(entry);
        proof {
            assert(s.entries().subrange(0, s.entries().len() - 1) =~= self.entries());
            assert(forall|i: int|
                0 <= i < s.entries().len() ==> (#[trigger] s.entries()[i]).unsub.wf()) by {
                assert(forall|i: int|
                    0 <= i < self.entries().len() ==> s.entries()[i] == self.entries()[i]);
                assert(s.entries().last() == entry);
                assert(forall|i: int|
                    0 <= i < self.entries().len() ==> (#[trigger] self.entries()[i]).unsub.wf());
            }
        }
        (s, id)
    }
}

} // verus!
